//! Run mode: one item per executable path, named by the path's last
//! component and running the full path as its program.

use vstd::prelude::*;
use crate::item::Action;
use crate::item::ActionV;
use crate::item::Item;
use crate::item::ItemV;
use crate::mode::SimpleMode;
use crate::util::chars_to_string;
use crate::util::chars_vec;

verus! {

/// The characters after the last `/` of a path (empty for a path ending in
/// `/`): the name an executable shows under.
pub open spec fn spec_path_leaf(s: Seq<char>) -> Seq<char>
    decreases s.len(),
{
    if s.len() == 0 {
        s
    } else if s.last() == '/' {
        Seq::empty()
    } else {
        spec_path_leaf(s.drop_last()).push(s.last())
    }
}

/// The item a path becomes: named by its leaf, running the full path with
/// no arguments and no terminal.
pub open spec fn spec_run_item(path: Seq<char>) -> ItemV {
    ItemV {
        text: spec_path_leaf(path),
        action: ActionV::Exec { program: path, args: Seq::empty(), terminal: false },
    }
}

/// Extracts the last path component.
pub fn path_leaf(path: &str) -> (r: String)
    ensures
        r@ == spec_path_leaf(path@),
{
    let cs = chars_vec(path);
    let mut current: Vec<char> = Vec::new();
    let mut i: usize = 0;
    while i < cs.len()
        invariant
            i <= cs.len(),
            cs@ == path@,
            current@ == spec_path_leaf(path@.subrange(0, i as int)),
        decreases cs.len() - i,
    {
        let c = cs[i];
        proof {
            assert(path@.subrange(0, i + 1).drop_last() == path@.subrange(0, i as int));
            assert(path@.subrange(0, i + 1).last() == path@[i as int]);
        }
        if c == '/' {
            current = Vec::new();
        } else {
            current.push(c);
        }
        i += 1;
    }
    proof {
        assert(path@.subrange(0, path@.len() as int) == path@);
    }
    chars_to_string(&current)
}

/// The mode that offers every executable found on the search path.
pub struct RunMode {
    executables: Vec<Item>,
}

impl RunMode {
    /// The executable items.
    pub closed spec fn spec_executables(&self) -> Seq<ItemV> {
        self.executables.deep_view()
    }

    /// Builds the mode from the executable paths a directory walk found:
    /// each becomes an item per [`spec_run_item`].
    pub fn from_paths(paths: &Vec<String>) -> (r: Self)
        ensures
            r.spec_executables() == paths.deep_view().map_values(|p: Seq<char>| spec_run_item(p)),
    {
        let mut executables: Vec<Item> = Vec::new();
        let mut i: usize = 0;
        while i < paths.len()
            invariant
                i <= paths.len(),
                executables.deep_view() =~= paths.deep_view().subrange(0, i as int).map_values(
                    |p: Seq<char>| spec_run_item(p),
                ),
            decreases paths.len() - i,
        {
            let path = &paths[i];
            let text = path_leaf(path.as_str());
            let empty_args: Vec<String> = Vec::new();
            proof {
                assert(empty_args.deep_view() =~= Seq::<Seq<char>>::empty());
            }
            let item = Item::new(
                text,
                Action::Exec { program: path.clone(), args: empty_args, terminal: false },
            );
            let ghost before = executables.deep_view();
            executables.push(item);
            proof {
                assert(executables.deep_view() =~= before.push(spec_run_item(paths.deep_view()[i as int])));
                assert(paths.deep_view().subrange(0, i + 1).drop_last() == paths.deep_view().subrange(
                    0,
                    i as int,
                ));
                assert(paths.deep_view().subrange(0, i + 1).last() == paths.deep_view()[i as int]);
                assert(executables.deep_view() =~= paths.deep_view().subrange(0, i + 1).map_values(
                    |p: Seq<char>| spec_run_item(p),
                ));
            }
            i += 1;
        }
        proof {
            assert(paths.deep_view().subrange(0, paths.deep_view().len() as int) == paths.deep_view());
        }
        RunMode { executables }
    }
}

impl SimpleMode for RunMode {
    fn name(&self) -> &str {
        "Run"
    }

    fn get_items(&mut self) -> &Vec<Item> {
        &self.executables
    }
}

} // verus!
