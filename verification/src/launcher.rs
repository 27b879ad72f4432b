//! The launcher's interaction core: what one key event does to the
//! selection, the close flag, the control-key state and the editor, and
//! which item a confirmation launches. The window loop around it performs
//! the actions this state machine decides on.

use vstd::prelude::*;
use crate::item::Item;
use crate::mode::Match;
use crate::mode::fuzzy_match;
use crate::mode::spec_ranked;
use crate::mode::spec_scored;
use crate::ui::editor::EditAction;
use crate::ui::editor::Editor;
use crate::ui::editor::Key;
use crate::ui::editor::spec_edited;

verus! {

/// A key the launcher reacts to, as the window loop reports it.
#[derive(Debug, Clone, Copy, PartialEq, Eq, Structural)]
pub enum LauncherKey {
    Escape,
    Enter,
    ArrowDown,
    ArrowUp,
    KeyJ,
    KeyK,
    KeyC,
    Ctrl,
    Edit(Key),
}

/// One reported key event: whether it went down, which key, and the text
/// character it carries, if any.
#[derive(Debug, Clone, Copy, PartialEq, Eq, Structural)]
pub struct KeyPress {
    pub pressed: bool,
    pub key: LauncherKey,
    pub text: Option<char>,
}

/// The launcher's interaction state.
pub struct Launcher {
    pub selected: usize,
    pub close_requested: bool,
    pub ctrl_pressed: bool,
    pub editor: Editor,
}

/// The next selection after moving one step down, wrapping at the list
/// length; an empty list pins the selection to zero.
pub open spec fn spec_step_down(selected: usize, len: usize) -> usize {
    if len == 0 {
        0usize
    } else {
        (((selected % len) + 1) % (len as int)) as usize
    }
}

/// The next selection after moving one step up, wrapping at the list
/// length; an empty list pins the selection to zero.
pub open spec fn spec_step_up(selected: usize, len: usize) -> usize {
    if len == 0 {
        0usize
    } else {
        (((selected % len) + len - 1) % (len as int)) as usize
    }
}

impl Launcher {
    pub fn new() -> (r: Self)
        ensures
            r.selected == 0usize,
            !r.close_requested,
            !r.ctrl_pressed,
            r.editor.text@ == Seq::<char>::empty(),
            r.editor.wf(),
    {
        Launcher { selected: 0, close_requested: false, ctrl_pressed: false, editor: Editor::new() }
    }

    /// Applies one key event against a result list of the given length and
    /// reports whether the surface must update, and which result to launch
    /// if the event confirmed one. Holding control keeps the launcher open
    /// across a confirmation and turns J/K into selection movement.
    pub fn key_input(&mut self, event: KeyPress, list_length: usize) -> (r: (bool, Option<usize>))
        requires
            old(self).editor.wf(),
        ensures
            final(self).editor.wf(),
            match (event.pressed, event.key) {
                (true, LauncherKey::Escape) => *final(self) == (Launcher {
                    close_requested: true,
                    ..*old(self)
                }) && r == (false, Option::<usize>::None),
                (true, LauncherKey::Enter) => *final(self) == (Launcher {
                    close_requested: !old(self).ctrl_pressed || old(self).close_requested,
                    ..*old(self)
                }) && r == (true, Some(old(self).selected)),
                (true, LauncherKey::ArrowDown) => *final(self) == (Launcher {
                    selected: spec_step_down(old(self).selected, list_length),
                    ..*old(self)
                }) && r == (true, Option::<usize>::None),
                (true, LauncherKey::ArrowUp) => *final(self) == (Launcher {
                    selected: spec_step_up(old(self).selected, list_length),
                    ..*old(self)
                }) && r == (true, Option::<usize>::None),
                (true, LauncherKey::KeyJ) => if old(self).ctrl_pressed {
                    *final(self) == (Launcher {
                        selected: spec_step_down(old(self).selected, list_length),
                        ..*old(self)
                    }) && r == (true, Option::<usize>::None)
                } else {
                    spec_text_entry(*old(self), event, *final(self), r)
                },
                (true, LauncherKey::KeyK) => if old(self).ctrl_pressed {
                    *final(self) == (Launcher {
                        selected: spec_step_up(old(self).selected, list_length),
                        ..*old(self)
                    }) && r == (true, Option::<usize>::None)
                } else {
                    spec_text_entry(*old(self), event, *final(self), r)
                },
                (true, LauncherKey::Ctrl) => *final(self) == (Launcher {
                    ctrl_pressed: true,
                    ..*old(self)
                }) && r == (false, Option::<usize>::None),
                (true, LauncherKey::KeyC) => if old(self).ctrl_pressed {
                    *final(self) == (Launcher { close_requested: true, ..*old(self) }) && r == (
                        false,
                        Option::<usize>::None,
                    )
                } else {
                    spec_text_entry(*old(self), event, *final(self), r)
                },
                (true, LauncherKey::Edit(_)) => spec_text_entry(*old(self), event, *final(self), r),
                (false, LauncherKey::Ctrl) => *final(self) == (Launcher {
                    ctrl_pressed: false,
                    ..*old(self)
                }) && r == (false, Option::<usize>::None),
                (false, _) => *final(self) == *old(self) && r == (false, Option::<usize>::None),
            },
    {
        let mut is_dirty = false;
        let mut launch: Option<usize> = None;
        if event.pressed {
            match event.key {
                LauncherKey::Escape => {
                    self.close_requested = true;
                },
                LauncherKey::Enter => {
                    is_dirty = true;
                    if !self.ctrl_pressed {
                        self.close_requested = true;
                    }
                    launch = Some(self.selected);
                },
                LauncherKey::ArrowDown => {
                    self.selected = step_down(self.selected, list_length);
                    is_dirty = true;
                },
                LauncherKey::ArrowUp => {
                    self.selected = step_up(self.selected, list_length);
                    is_dirty = true;
                },
                LauncherKey::KeyJ => {
                    if self.ctrl_pressed {
                        self.selected = step_down(self.selected, list_length);
                        is_dirty = true;
                    } else {
                        is_dirty = self.text_entry(event);
                    }
                },
                LauncherKey::KeyK => {
                    if self.ctrl_pressed {
                        self.selected = step_up(self.selected, list_length);
                        is_dirty = true;
                    } else {
                        is_dirty = self.text_entry(event);
                    }
                },
                LauncherKey::Ctrl => {
                    self.ctrl_pressed = true;
                },
                LauncherKey::KeyC => {
                    if self.ctrl_pressed {
                        self.close_requested = true;
                    } else {
                        is_dirty = self.text_entry(event);
                    }
                },
                LauncherKey::Edit(_) => {
                    is_dirty = self.text_entry(event);
                },
            }
        } else {
            if matches!(event.key, LauncherKey::Ctrl) {
                self.ctrl_pressed = false;
            }
        }
        (is_dirty, launch)
    }

    /// Routes a non-shortcut key into the editor: an editing key performs
    /// its action, and a carried text character is inserted at the cursor
    /// and resets the selection.
    fn text_entry(&mut self, event: KeyPress) -> (dirty: bool)
        requires
            old(self).editor.wf(),
        ensures
            final(self).editor.wf(),
            spec_text_entry(*old(self), event, *final(self), (dirty, Option::<usize>::None)),
    {
        let mut is_dirty = match event.key {
            LauncherKey::Edit(k) => self.editor.handle_key(k),
            _ => false,
        };
        let ghost mid = self.editor;
        proof {
            assert(spec_editor_key(old(self).editor, event.key, mid));
        }
        match event.text {
            Some(c) => {
                self.editor.perform_action(EditAction::Insert(c));
                self.selected = 0;
                is_dirty = true;
                proof {
                    assert(spec_edited(mid, EditAction::Insert(c), self.editor));
                }
            },
            None => (),
        }
        is_dirty
    }
}

/// What one non-shortcut key does to the editor alone.
pub open spec fn spec_editor_key(pre: Editor, key: LauncherKey, post: Editor) -> bool {
    match key {
        LauncherKey::Edit(k) => match k {
            Key::Backspace => spec_edited(pre, EditAction::Backspace, post),
            Key::Delete => spec_edited(pre, EditAction::Delete, post),
            Key::ArrowLeft => spec_edited(pre, EditAction::Left, post),
            Key::ArrowRight => spec_edited(pre, EditAction::Right, post),
            Key::Home => spec_edited(pre, EditAction::Home, post),
            Key::End => spec_edited(pre, EditAction::End, post),
            Key::Other => post == pre,
        },
        _ => post == pre,
    }
}

/// What routing a key into the editor does: the editing action applies
/// first, then a carried character is inserted and resets the selection;
/// the surface updates when either happened.
pub open spec fn spec_text_entry(
    pre: Launcher,
    event: KeyPress,
    post: Launcher,
    r: (bool, Option<usize>),
) -> bool {
    let handled = match event.key {
        LauncherKey::Edit(k) => k != Key::Other,
        _ => false,
    };
    &&& r.1 is None
    &&& match event.text {
        Some(c) => {
            &&& r.0
            &&& post.selected == 0
            &&& post.close_requested == pre.close_requested
            &&& post.ctrl_pressed == pre.ctrl_pressed
            &&& exists|mid: Editor|
                #[trigger] spec_editor_key(pre.editor, event.key, mid) && spec_edited(
                    mid,
                    EditAction::Insert(c),
                    post.editor,
                )
        },
        None => {
            &&& r.0 == handled
            &&& post.selected == pre.selected
            &&& post.close_requested == pre.close_requested
            &&& post.ctrl_pressed == pre.ctrl_pressed
            &&& spec_editor_key(pre.editor, event.key, post.editor)
        },
    }
}

/// Moves the selection one step down, wrapping.
fn step_down(selected: usize, len: usize) -> (r: usize)
    ensures
        r == spec_step_down(selected, len),
{
    if len == 0 {
        0
    } else {
        ((selected % len) + 1) % len
    }
}

/// Moves the selection one step up, wrapping.
fn step_up(selected: usize, len: usize) -> (r: usize)
    ensures
        r == spec_step_up(selected, len),
{
    if len == 0 {
        0
    } else {
        let sel = selected % len;
        if sel == 0 {
            proof {
                vstd::arithmetic::div_mod::lemma_fundamental_div_mod_converse(
                    sel + len - 1,
                    len as int,
                    0,
                    len - 1,
                );
            }
            len - 1
        } else {
            proof {
                vstd::arithmetic::div_mod::lemma_fundamental_div_mod_converse(
                    sel + len - 1,
                    len as int,
                    1,
                    sel - 1,
                );
            }
            sel - 1
        }
    }
}

/// The result list for an input: the fuzzy ranking of the mode's items,
/// with the remembered selections prepended when the input is still empty.
pub fn gather_matches(input: &str, recent_items: Vec<Item>, mode_items: &Vec<Item>) -> (r: Vec<
    Match,
>)
    requires
        input@.len() <= u32::MAX,
        forall|i: int|
            0 <= i < mode_items@.len() ==> (#[trigger] mode_items@[i]).text@.len() <= u32::MAX,
    ensures
        ({
            let ranked = spec_ranked(spec_scored(input@, mode_items@));
            let keep = if ranked.len() <= 64 {
                ranked.len() as int
            } else {
                64
            };
            let lead = if input@.len() == 0 {
                recent_items@.len() as int
            } else {
                0
            };
            &&& r@.len() == lead + keep
            &&& forall|i: int|
                0 <= i < lead ==> (#[trigger] r@[i]).spec_item()@ == recent_items@[i]@
                    && r@[i].spec_score() == 0
            &&& forall|i: int|
                lead <= i < lead + keep ==> (#[trigger] r@[i]).spec_item()@ == ranked[i - lead].0@
                    && r@[i].spec_score() == ranked[i - lead].1 as u64
        }),
{
    let mut out: Vec<Match> = Vec::new();
    let ghost orig = recent_items@;
    if input.unicode_len() == 0 {
        let mut i: usize = 0;
        let n = recent_items.len();
        let mut rest = recent_items;
        while i < n
            invariant
                i <= n,
                n == orig.len(),
                rest@ == orig.subrange(i as int, n as int),
                out@.len() == i,
                forall|j: int|
                    0 <= j < i ==> (#[trigger] out@[j]).spec_item() == orig[j] && out@[j].spec_score()
                        == 0,
            decreases n - i,
        {
            let item = rest.remove(0);
            proof {
                assert(item == orig[i as int]);
                assert(rest@ =~= orig.subrange(i + 1, n as int));
            }
            out.push(Match::new(item, 0));
            i += 1;
        }
    }
    let ghost lead = out@.len() as int;
    let mut ranked = fuzzy_match(input, mode_items);
    let ghost ranked_view = ranked@;
    out.append(&mut ranked);
    proof {
        assert(out@ =~= out@.subrange(0, lead) + ranked_view);
        assert forall|i: int| 0 <= i < lead implies (#[trigger] out@[i]).spec_item()@ == orig[i]@
            && out@[i].spec_score() == 0 by {
            assert(out@[i] == out@.subrange(0, lead)[i]);
        }
    }
    out
}

} // verus!
