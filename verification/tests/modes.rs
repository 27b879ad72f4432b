//! The launcher-side logic: desktop-entry parsing, fuzzy ranking, items,
//! the line editor, and the recent-selection memory.

use launchr::item::Action;
use launchr::item::Item;
use launchr::mode::DmenuMode;
use launchr::mode::RunMode;
use launchr::mode::SimpleMode;
use launchr::mode::apps::ExecArg;
use launchr::mode::apps::ExecKey;
use launchr::mode::apps::field_codes;
use launchr::mode::apps::dedup_items;
use launchr::mode::apps::parse_desktop_entry;
use launchr::mode::apps::sort_items_by_text;
use launchr::mode::apps::unescape_string;
use launchr::mode::apps::unquote_args;
use launchr::mode::fuzzy_match;
use launchr::mode::u64_to_string;
use launchr::recent::RecentItems;
use launchr::ui::editor::EditAction;
use launchr::ui::editor::Editor;
use launchr::ui::editor::Key;

#[test]
fn test_unescape() {
    assert_eq!(unescape_string("foo"), "foo");
    assert_eq!(unescape_string("foo\\sbar"), "foo bar");
    assert_eq!(unescape_string("foo\\nbar"), "foo\nbar");
    assert_eq!(unescape_string("foo\\tbar"), "foo\tbar");
    assert_eq!(unescape_string("foo\\r\\n"), "foo\r\n");
    assert_eq!(unescape_string("foo\\\\bar"), "foo\\bar");
    assert_eq!(unescape_string("foo\\bar"), "foobar");
}

#[test]
fn test_unquote_args() {
    assert_eq!(unquote_args("foo"), vec!["foo"]);
    assert_eq!(unquote_args("foo bar"), vec!["foo", "bar"]);
    assert_eq!(unquote_args("foo            bar"), vec!["foo", "bar"]);
    assert_eq!(unquote_args("foo \"bar baz\""), vec!["foo", "bar baz"]);
    assert_eq!(unquote_args("foo \"bar\" baz"), vec!["foo", "bar", "baz"]);
    assert_eq!(unquote_args("foo bar \"baz\""), vec!["foo", "bar", "baz"]);
    assert_eq!(unquote_args("foo \"$BAR\""), vec!["foo", "$BAR"]);
    assert_eq!(unquote_args("\"\\foo\" bar baz"), vec!["foo", "bar", "baz"]);
    assert_eq!(
        unquote_args("foo \"bar\\ \" baz"),
        vec!["foo", "bar ", "baz"]
    );
    assert_eq!(unquote_args("\"quoted\""), vec!["quoted"]);
    assert_eq!(
        unquote_args(r#""escaped chars \" \` \$ \\""#),
        vec!["escaped chars \" ` $ \\"]
    );
}

#[test]
fn test_exec_args() {
    assert_eq!(
        ExecKey::parse("foo"),
        ExecKey(vec![ExecArg::Arg("foo".to_string())])
    );
    assert_eq!(
        ExecKey::parse("foo %% bar"),
        ExecKey(vec![
            ExecArg::Arg("foo".to_string()),
            ExecArg::Arg("%".to_string()),
            ExecArg::Arg("bar".to_string())
        ])
    );
    assert_eq!(
        ExecKey::parse("foo %% bar"),
        ExecKey(vec![
            ExecArg::Arg("foo".to_string()),
            ExecArg::Arg("%".to_string()),
            ExecArg::Arg("bar".to_string())
        ])
    );
    assert_eq!(
        ExecKey::parse("fooview %F"),
        ExecKey(vec![ExecArg::Arg("fooview".to_string()), ExecArg::Files])
    );
    assert_eq!(
        ExecKey::parse("invalid %! invalid %"),
        ExecKey(vec![
            ExecArg::Arg("invalid".to_string()),
            ExecArg::Arg("invalid".to_string())
        ])
    );
    assert_eq!(
        ExecKey::parse("foo %f bar %F baz %u qux %U"),
        ExecKey(vec![
            ExecArg::Arg("foo".to_string()),
            ExecArg::File,
            ExecArg::Arg("bar".to_string()),
            ExecArg::Files,
            ExecArg::Arg("baz".to_string()),
            ExecArg::Url,
            ExecArg::Arg("qux".to_string()),
            ExecArg::Urls
        ])
    );
}

#[test]
fn test_field_codes_flush_and_markers() {
    let parsed = field_codes("ab%fcd");
    assert_eq!(parsed.len(), 3);
    assert_eq!(parsed[0], ExecArg::Arg("ab".to_string()));
    assert_eq!(parsed[1], ExecArg::File);
    assert_eq!(parsed[2], ExecArg::Arg("cd".to_string()));
}

#[test]
fn test_exec_key_expand_drops_field_codes() {
    let key = ExecKey::parse("viewer %F \"a b\"");
    assert_eq!(key.expand(), vec!["viewer", "a b"]);
}

#[test]
fn test_parse_desktop_entry_lines() {
    let lines: Vec<String> = vec![
        "# a browser".to_string(),
        "".to_string(),
        "Name=Fire\\sFox".to_string(),
        "  Exec = firefox %U --new".to_string(),
        "Name=Ignored Later".to_string(),
    ];
    let item = parse_desktop_entry(&lines).unwrap();
    assert_eq!(item.text, "Fire Fox");
    match &item.action {
        Action::Exec { program, args, terminal } => {
            assert_eq!(program, "firefox");
            assert_eq!(args, &vec!["--new".to_string()]);
            assert!(!terminal);
        },
        _ => panic!("expected a program item"),
    }
    // Without an Exec key nothing is denoted.
    assert!(parse_desktop_entry(&vec!["Name=x".to_string()]).is_none());
}

#[test]
fn test_dedup_and_sort_items() {
    let items = vec![
        Item::new_selection("pear".to_string()),
        Item::new_selection("apple".to_string()),
        Item::new_selection("pear".to_string()),
        Item::new_selection("Banana".to_string()),
    ];
    let unique = dedup_items(items);
    assert_eq!(unique.len(), 3);
    let sorted = sort_items_by_text(unique);
    // Ascending by code point: uppercase sorts before lowercase.
    assert_eq!(sorted[0].text, "Banana");
    assert_eq!(sorted[1].text, "apple");
    assert_eq!(sorted[2].text, "pear");
}

#[test]
fn test_fuzzy_match_ranks_and_filters() {
    let items = vec![
        Item::new_selection("calendar".to_string()),
        Item::new_selection("firefox".to_string()),
        Item::new_selection("fireworks viewer".to_string()),
    ];
    let matches = fuzzy_match("fire", &items);
    assert!(matches.len() >= 2);
    assert_eq!(matches[0].item().text, "firefox");
    assert!(matches[0].score() > 0);
    let none = fuzzy_match("zzzqqq", &items);
    assert_eq!(none.len(), 0);
    // An empty pattern keeps every item in its original order.
    let all = fuzzy_match("", &items);
    assert_eq!(all.len(), 3);
    assert_eq!(all[0].item().text, "calendar");
}

#[test]
fn test_fuzzy_match_caps_results() {
    let items: Vec<Item> = (0..100).map(|i| Item::new_selection(format!("entry{}", i))).collect();
    let matches = fuzzy_match("entry", &items);
    assert_eq!(matches.len(), 64);
}

#[test]
fn test_dmenu_lines_become_selections() {
    let mut mode = DmenuMode::new(None, "alpha\nbeta\r\ngamma".to_string());
    assert_eq!(mode.name(), "dmenu");
    let items = mode.get_items();
    assert_eq!(items.len(), 3);
    assert_eq!(items[0].text, "alpha");
    assert_eq!(items[1].text, "beta");
    assert_eq!(items[2].text, "gamma");
    assert!(matches!(items[0].action, Action::Selection));

    let mut named = DmenuMode::new(Some("pick".to_string()), "only\n".to_string());
    assert_eq!(named.name(), "pick");
    assert_eq!(named.get_items().len(), 1);
}

#[test]
fn test_run_mode_from_paths() {
    let mut mode = RunMode::from_paths(&vec![
        "/usr/bin/grep".to_string(),
        "/bin/ls".to_string(),
    ]);
    assert_eq!(mode.name(), "Run");
    let items = mode.get_items();
    assert_eq!(items[0].text, "grep");
    match &items[0].action {
        Action::Exec { program, args, terminal } => {
            assert_eq!(program, "/usr/bin/grep");
            assert!(args.is_empty());
            assert!(!terminal);
        },
        _ => panic!("expected a program item"),
    }
    assert_eq!(items[1].text, "ls");
}

#[test]
fn test_item_display_forms() {
    let sel = Item::new_selection("note".to_string());
    assert_eq!(sel.display(), "note");
    let exec = Item::new(
        "Editor".to_string(),
        Action::Exec {
            program: "edit".to_string(),
            args: vec!["--fast".to_string(), "now".to_string()],
            terminal: false,
        },
    );
    assert_eq!(exec.display(), "Editor (edit --fast now)");
    assert_eq!(exec.command_line().unwrap(), "edit --fast now");
    let file = Item::new(
        "notes.txt".to_string(),
        Action::File { path: "/tmp/notes.txt".to_string(), is_dir: false },
    );
    assert_eq!(file.display(), "F notes.txt");
    let dir = Item::new(
        "src".to_string(),
        Action::File { path: "/tmp/src".to_string(), is_dir: true },
    );
    assert_eq!(dir.display(), "D src");
}

#[test]
fn test_decimal_writing() {
    assert_eq!(u64_to_string(0), "0");
    assert_eq!(u64_to_string(7), "7");
    assert_eq!(u64_to_string(12345), "12345");
    assert_eq!(u64_to_string(1000), "1000");
}

#[test]
fn test_editor_insert_and_motion() {
    let mut ed = Editor::new();
    ed.perform_action(EditAction::Insert('h'));
    ed.perform_action(EditAction::Insert('i'));
    assert_eq!(ed.text(), "hi");
    assert!(ed.handle_key(Key::ArrowLeft));
    ed.perform_action(EditAction::Insert('e'));
    assert_eq!(ed.text(), "hei");
    assert!(ed.handle_key(Key::Backspace));
    assert_eq!(ed.text(), "hi");
    assert!(ed.handle_key(Key::Home));
    assert!(ed.handle_key(Key::Delete));
    assert_eq!(ed.text(), "i");
    assert!(ed.handle_key(Key::End));
    ed.perform_action(EditAction::Insert('!'));
    assert_eq!(ed.text(), "i!");
    assert!(!ed.handle_key(Key::Other));
}

#[test]
fn test_recent_items_order_and_cap() {
    let mut recent = RecentItems::new();
    for i in 0..13 {
        recent.add_and_save("Run", Item::new_selection(format!("cmd{}", i)), i as u64);
    }
    let items = recent.get_matches("Run");
    // Capped at a dozen, most recent first; the oldest fell out.
    assert_eq!(items.len(), 12);
    assert_eq!(items[0].text, "cmd12");
    assert_eq!(items[11].text, "cmd1");
    // Re-selecting an item moves it to the front of the results.
    recent.add_and_save("Run", Item::new_selection("cmd5".to_string()), 99);
    let items = recent.get_matches("Run");
    assert_eq!(items.len(), 12);
    assert_eq!(items[0].text, "cmd5");
    assert_eq!(items[1].text, "cmd12");
    // Other modes are untouched.
    assert_eq!(recent.get_matches("Apps").len(), 0);
}

use launchr::launcher::KeyPress;
use launchr::launcher::Launcher;
use launchr::launcher::LauncherKey;
use launchr::launcher::gather_matches;

fn press(key: LauncherKey) -> KeyPress {
    KeyPress { pressed: true, key, text: None }
}

#[test]
fn test_launcher_selection_and_close() {
    let mut l = Launcher::new();
    assert_eq!(l.selected, 0);

    // Moving down wraps within the visible list length.
    let (dirty, launch) = l.key_input(press(LauncherKey::ArrowDown), 3);
    assert!(dirty && launch.is_none());
    assert_eq!(l.selected, 1);
    l.key_input(press(LauncherKey::ArrowDown), 3);
    l.key_input(press(LauncherKey::ArrowDown), 3);
    assert_eq!(l.selected, 0);
    // Moving up from the top wraps to the bottom.
    l.key_input(press(LauncherKey::ArrowUp), 3);
    assert_eq!(l.selected, 2);

    // Holding control turns J and K into selection movement.
    l.key_input(press(LauncherKey::Ctrl), 3);
    l.key_input(press(LauncherKey::KeyJ), 3);
    assert_eq!(l.selected, 0);
    l.key_input(press(LauncherKey::KeyK), 3);
    assert_eq!(l.selected, 2);

    // A confirmation while control is held keeps the launcher open.
    let (dirty, launch) = l.key_input(press(LauncherKey::Enter), 3);
    assert!(dirty);
    assert_eq!(launch, Some(2));
    assert!(!l.close_requested);
    // Releasing control and confirming again requests the close.
    l.key_input(KeyPress { pressed: false, key: LauncherKey::Ctrl, text: None }, 3);
    let (_, launch) = l.key_input(press(LauncherKey::Enter), 3);
    assert_eq!(launch, Some(2));
    assert!(l.close_requested);
}

#[test]
fn test_launcher_text_entry_resets_selection() {
    let mut l = Launcher::new();
    l.key_input(press(LauncherKey::ArrowDown), 5);
    assert_eq!(l.selected, 1);
    let (dirty, launch) = l.key_input(
        KeyPress { pressed: true, key: LauncherKey::Edit(launchr::ui::editor::Key::Other), text: Some('f') },
        5,
    );
    assert!(dirty && launch.is_none());
    assert_eq!(l.selected, 0);
    assert_eq!(l.editor.text(), "f");
    // An editing key routes into the editor.
    let (dirty, _) = l.key_input(
        KeyPress { pressed: true, key: LauncherKey::Edit(launchr::ui::editor::Key::Backspace), text: None },
        5,
    );
    assert!(dirty);
    assert_eq!(l.editor.text(), "");
    // Escape requests the close without a redraw.
    let (dirty, _) = l.key_input(press(LauncherKey::Escape), 5);
    assert!(!dirty);
    assert!(l.close_requested);
}

#[test]
fn test_gather_matches_prefers_recent_on_empty_input() {
    let recent = vec![
        Item::new_selection("newest".to_string()),
        Item::new_selection("older".to_string()),
    ];
    let items = vec![Item::new_selection("firefox".to_string())];
    // On empty input the remembered selections lead, and the mode's items
    // (everything matches an empty pattern) follow.
    let matches = gather_matches("", recent, &items);
    assert_eq!(matches.len(), 3);
    assert_eq!(matches[0].item().text, "newest");
    assert_eq!(matches[0].score(), 0);
    assert_eq!(matches[2].item().text, "firefox");
    let matches = gather_matches("fire", Vec::new(), &items);
    assert_eq!(matches.len(), 1);
    assert_eq!(matches[0].item().text, "firefox");
}
