//! The things a launcher offers: a display text plus the action selecting it
//! performs. Performing the action (spawning a program, opening a file,
//! printing a selection) is I/O and happens outside this crate; this module
//! owns the data and the command-line assembly.

use vstd::prelude::*;

verus! {

/// What selecting an item does.
#[derive(Debug, Clone)]
pub enum Action {
    /// Print the item's text (dmenu-style selection).
    Selection,
    /// Run a program with arguments, optionally inside a terminal.
    Exec { program: String, args: Vec<String>, terminal: bool },
    /// Open a file or directory with the default application.
    File { path: String, is_dir: bool },
}

/// One launchable entry: its display text and its action.
#[derive(Debug, Clone)]
pub struct Item {
    pub text: String,
    pub action: Action,
}

impl Item {
    pub fn new(text: String, action: Action) -> (r: Self)
        ensures
            r.text == text,
            r.action == action,
    {
        Item { text, action }
    }

    pub fn new_selection(text: String) -> (r: Self)
        ensures
            r.text == text,
            r.action is Selection,
    {
        Item { text, action: Action::Selection }
    }

    /// The text an item displays in a result row: the bare text for a
    /// selection, the text plus the full command in parentheses for a
    /// program, and a directory/file marker plus the text for a file.
    pub open spec fn spec_display(&self) -> Seq<char> {
        match self.action {
            Action::Selection => self.text@,
            Action::Exec { ref program, ref args, .. } => self.text@ + " ("@ + program@
                + spec_joined_args(args@) + ")"@,
            Action::File { is_dir, .. } => (if is_dir {
                "D "@
            } else {
                "F "@
            }) + self.text@,
        }
    }

    /// Builds the row text, per [`Self::spec_display`].
    pub fn display(&self) -> (r: String)
        ensures
            r@ == self.spec_display(),
    {
        match &self.action {
            Action::Selection => self.text.clone(),
            Action::Exec { program, args, .. } => {
                let mut out = self.text.clone();
                out.append(" (");
                out.append(program.as_str());
                append_joined_args(&mut out, args);
                out.append(")");
                out
            },
            Action::File { is_dir, .. } => {
                let mut out = if *is_dir {
                    "D ".to_owned()
                } else {
                    "F ".to_owned()
                };
                out.append(self.text.as_str());
                out
            },
        }
    }

    /// The single command line a terminal runs for a program item: the
    /// program followed by each argument, space-separated.
    pub open spec fn spec_command_line(&self) -> Option<Seq<char>> {
        match self.action {
            Action::Exec { ref program, ref args, .. } => Some(program@ + spec_joined_args(args@)),
            _ => None,
        }
    }

    /// Assembles the command line, per [`Self::spec_command_line`]; only
    /// program items have one.
    pub fn command_line(&self) -> (r: Option<String>)
        ensures
            match (r, self.spec_command_line()) {
                (Some(s), Some(t)) => s@ == t,
                (None, None) => true,
                _ => false,
            },
    {
        match &self.action {
            Action::Exec { program, args, .. } => {
                let mut out = program.clone();
                append_joined_args(&mut out, args);
                Some(out)
            },
            _ => None,
        }
    }
}

/// The mathematical image of an action: the same shape over character
/// sequences.
pub enum ActionV {
    Selection,
    Exec { program: Seq<char>, args: Seq<Seq<char>>, terminal: bool },
    File { path: Seq<char>, is_dir: bool },
}

/// The mathematical image of an item.
pub struct ItemV {
    pub text: Seq<char>,
    pub action: ActionV,
}

impl View for Action {
    type V = ActionV;

    open spec fn view(&self) -> ActionV {
        match *self {
            Action::Selection => ActionV::Selection,
            Action::Exec { ref program, ref args, terminal } => ActionV::Exec {
                program: program@,
                args: args.deep_view(),
                terminal,
            },
            Action::File { ref path, is_dir } => ActionV::File { path: path@, is_dir },
        }
    }
}

impl View for Item {
    type V = ItemV;

    open spec fn view(&self) -> ItemV {
        ItemV { text: self.text@, action: self.action@ }
    }
}

impl DeepView for Item {
    type V = ItemV;

    open spec fn deep_view(&self) -> ItemV {
        self.view()
    }
}

impl Item {
    /// A copy with the same text and action.
    pub fn clone_item(&self) -> (r: Item)
        ensures
            r@ == self@,
    {
        Item { text: self.text.clone(), action: self.action.clone_action() }
    }
}

impl Action {
    /// A copy of the action.
    pub fn clone_action(&self) -> (r: Action)
        ensures
            r@ == self@,
    {
        match self {
            Action::Selection => Action::Selection,
            Action::Exec { program, args, terminal } => {
                let mut args2: Vec<String> = Vec::new();
                let mut i: usize = 0;
                while i < args.len()
                    invariant
                        i <= args.len(),
                        args2@.len() == i,
                        forall|k: int| 0 <= k < i ==> args2@[k] == args@[k],
                    decreases args.len() - i,
                {
                    args2.push(args[i].clone());
                    i += 1;
                }
                proof {
                    assert(args2@ =~= args@);
                }
                Action::Exec { program: program.clone(), args: args2, terminal: *terminal }
            },
            Action::File { path, is_dir } => Action::File {
                path: path.clone(),
                is_dir: *is_dir,
            },
        }
    }
}

impl PartialEq for Item {
    fn eq(&self, other: &Self) -> (r: bool) {
        if !<String as PartialEq>::eq(&self.text, &other.text) {
            proof {
                assert(self@ != other@);
            }
            return false;
        }
        let r = match (&self.action, &other.action) {
            (Action::Selection, Action::Selection) => true,
            (
                Action::Exec { program: p1, args: a1, terminal: t1 },
                Action::Exec { program: p2, args: a2, terminal: t2 },
            ) => <String as PartialEq>::eq(p1, p2) && *t1 == *t2 && string_vecs_equal(a1, a2),
            (
                Action::File { path: p1, is_dir: d1 },
                Action::File { path: p2, is_dir: d2 },
            ) => <String as PartialEq>::eq(p1, p2) && *d1 == *d2,
            _ => false,
        };
        proof {
            assert(r == (self.action@ == other.action@));
        }
        r
    }
}

impl vstd::std_specs::cmp::PartialEqSpecImpl for Item {
    open spec fn obeys_eq_spec() -> bool {
        true
    }

    open spec fn eq_spec(&self, other: &Self) -> bool {
        self@ == other@
    }
}

/// Whether two argument lists hold the same strings in the same order.
fn string_vecs_equal(a: &Vec<String>, b: &Vec<String>) -> (r: bool)
    ensures
        r == (a.deep_view() == b.deep_view()),
{
    if a.len() != b.len() {
        proof {
            assert(a.deep_view().len() != b.deep_view().len());
        }
        return false;
    }
    let mut i: usize = 0;
    while i < a.len()
        invariant
            i <= a@.len(),
            a@.len() == b@.len(),
            forall|j: int| 0 <= j < i ==> a.deep_view()[j] == b.deep_view()[j],
        decreases a@.len() - i,
    {
        if !<String as PartialEq>::eq(&a[i], &b[i]) {
            proof {
                assert(a.deep_view()[i as int] != b.deep_view()[i as int]);
            }
            return false;
        }
        i += 1;
    }
    proof {
        assert(a.deep_view() =~= b.deep_view());
    }
    true
}

/// A space before each argument, arguments in order: what following a
/// program name with its arguments appends.
pub open spec fn spec_joined_args(args: Seq<String>) -> Seq<char>
    decreases args.len(),
{
    if args.len() == 0 {
        Seq::empty()
    } else {
        spec_joined_args(args.drop_last()) + " "@ + args.last()@
    }
}

/// Appends each argument, space-prefixed, to the output string.
fn append_joined_args(out: &mut String, args: &Vec<String>)
    ensures
        final(out)@ == old(out)@ + spec_joined_args(args@),
{
    let ghost orig = out@;
    let mut i: usize = 0;
    while i < args.len()
        invariant
            i <= args.len(),
            out@ == orig + spec_joined_args(args@.subrange(0, i as int)),
        decreases args.len() - i,
    {
        out.append(" ");
        out.append(args[i].as_str());
        proof {
            assert(args@.subrange(0, i + 1).drop_last() == args@.subrange(0, i as int));
            assert(args@.subrange(0, i + 1).last() == args@[i as int]);
        }
        i += 1;
    }
    proof {
        assert(args@.subrange(0, args@.len() as int) == args@);
    }
}

} // verus!
