//! Dmenu-style mode: the options are the lines of a text handed in on
//! standard input, each becoming a selection item.

use vstd::prelude::*;
use crate::item::ActionV;
use crate::item::Item;
use crate::mode::SimpleMode;
use crate::util::chars_to_string;
use crate::util::chars_vec;

verus! {

/// The lines of a text from position `i` on, with `current` the line
/// collected so far: split at every newline, a carriage return before the
/// newline stripped, and a final unterminated line kept.
pub open spec fn spec_lines_from(s: Seq<char>, i: int, current: Seq<char>) -> Seq<Seq<char>>
    decreases s.len() - i,
{
    if i < 0 || i >= s.len() {
        if current.len() > 0 {
            seq![current]
        } else {
            Seq::empty()
        }
    } else if s[i] == '\n' {
        let line = if current.len() > 0 && current.last() == '\r' {
            current.drop_last()
        } else {
            current
        };
        seq![line] + spec_lines_from(s, i + 1, Seq::empty())
    } else {
        spec_lines_from(s, i + 1, current.push(s[i]))
    }
}

/// The mode that offers one selection item per input line, under a prompt.
pub struct DmenuMode {
    prompt: String,
    options: Vec<Item>,
}

impl DmenuMode {
    /// The prompt shown as the mode's name.
    pub closed spec fn spec_prompt(&self) -> Seq<char> {
        self.prompt@
    }

    /// The option items.
    pub closed spec fn spec_options(&self) -> Seq<crate::item::ItemV> {
        self.options.deep_view()
    }

    /// Splits the input into lines and makes each a selection item; the
    /// prompt defaults to `dmenu`.
    pub fn new(prompt: Option<String>, input: String) -> (r: Self)
        ensures
            r.spec_prompt() == match prompt {
                Some(p) => p@,
                None => "dmenu"@,
            },
            r.spec_options() == spec_lines_from(input@, 0, Seq::empty()).map_values(
                |l: Seq<char>| crate::item::ItemV { text: l, action: ActionV::Selection },
            ),
    {
        let cs = chars_vec(input.as_str());
        let ghost target = spec_lines_from(input@, 0, Seq::empty()).map_values(
            |l: Seq<char>| crate::item::ItemV { text: l, action: ActionV::Selection },
        );
        let mut options: Vec<Item> = Vec::new();
        let mut current: Vec<char> = Vec::new();
        let mut i: usize = 0;
        while i < cs.len()
            invariant
                i <= cs.len(),
                cs@ == input@,
                target == spec_lines_from(input@, 0, Seq::empty()).map_values(
                    |l: Seq<char>| crate::item::ItemV { text: l, action: ActionV::Selection },
                ),
                target =~= options.deep_view() + spec_lines_from(input@, i as int, current@).map_values(
                    |l: Seq<char>| crate::item::ItemV { text: l, action: ActionV::Selection },
                ),
            decreases cs.len() - i,
        {
            let c = cs[i];
            if c == '\n' {
                if current.len() > 0 && current[current.len() - 1] == '\r' {
                    current.pop();
                }
                let ghost before = options.deep_view();
                options.push(Item::new_selection(chars_to_string(&current)));
                proof {
                    assert(options.deep_view() =~= before.push(
                        crate::item::ItemV { text: current@, action: ActionV::Selection },
                    ));
                    assert(seq![current@].map_values(
                        |l: Seq<char>| crate::item::ItemV { text: l, action: ActionV::Selection },
                    ) =~= seq![crate::item::ItemV { text: current@, action: ActionV::Selection }]);
                }
                current = Vec::new();
            } else {
                current.push(c);
            }
            i += 1;
        }
        if current.len() > 0 {
            let ghost before = options.deep_view();
            options.push(Item::new_selection(chars_to_string(&current)));
            proof {
                assert(options.deep_view() =~= before.push(
                    crate::item::ItemV { text: current@, action: ActionV::Selection },
                ));
                assert(seq![current@].map_values(
                    |l: Seq<char>| crate::item::ItemV { text: l, action: ActionV::Selection },
                ) =~= seq![crate::item::ItemV { text: current@, action: ActionV::Selection }]);
            }
        }
        proof {
            assert(target =~= options.deep_view());
        }
        let prompt = match prompt {
            Some(p) => p,
            None => "dmenu".to_owned(),
        };
        DmenuMode { prompt, options }
    }
}

impl SimpleMode for DmenuMode {
    fn name(&self) -> &str {
        self.prompt.as_str()
    }

    fn get_items(&mut self) -> &Vec<Item> {
        &self.options
    }
}

} // verus!
