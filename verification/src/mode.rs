//! The launcher's modes: sources of items, and the fuzzy ranking that turns
//! an input string and an item list into an ordered result list.

pub mod apps;
pub mod dmenu;
pub mod file;
pub mod run;

pub use apps::ExecArg;
pub use apps::ExecKey;
pub use dmenu::DmenuMode;
pub use file::FileMode;
pub use run::RunMode;

use vstd::prelude::*;
use crate::item::Item;
use crate::util::chars_to_string;

verus! {

/// A mode whose items are a fixed list: the mode only names itself and hands
/// the list out; ranking is shared.
pub trait SimpleMode: Sized {
    fn name(&self) -> &str;

    fn get_items(&mut self) -> &Vec<Item>;
}

/// One ranked result: an item and its fuzzy-match score.
pub struct Match {
    item: Item,
    score: u64,
}

impl Match {
    /// The item.
    pub closed spec fn spec_item(&self) -> Item {
        self.item
    }

    /// The score.
    pub closed spec fn spec_score(&self) -> u64 {
        self.score
    }

    pub fn new(item: Item, score: u64) -> (r: Self)
        ensures
            r.spec_item() == item,
            r.spec_score() == score,
    {
        Match { item, score }
    }

    pub fn item(&self) -> (r: &Item)
        ensures
            *r == self.spec_item(),
    {
        &self.item
    }

    pub fn score(&self) -> (r: u64)
        ensures
            r == self.spec_score(),
    {
        self.score
    }

    /// Surrenders the item, for the caller that performs its action.
    pub fn into_item(self) -> (r: Item)
        ensures
            r == self.spec_item(),
    {
        self.item
    }

    /// The row text of a ranked result: the item's display text, with the
    /// score appended in parentheses when it is positive.
    pub fn display(&self) -> (r: String)
        ensures
            r@ == if self.spec_score() == 0 {
                self.spec_item().spec_display()
            } else {
                self.spec_item().spec_display() + " ("@ + spec_decimal(self.spec_score()) + ")"@
            },
    {
        let base = self.item.display();
        if self.score > 0 {
            let mut out = base;
            out.append(" (");
            let digits = u64_to_string(self.score);
            out.append(digits.as_str());
            out.append(")");
            out
        } else {
            base
        }
    }
}

/// The decimal digits of a number, most significant first.
pub open spec fn spec_decimal(v: u64) -> Seq<char>
    decreases v,
{
    if v < 10 {
        seq![((v + 48) as u8) as char]
    } else {
        spec_decimal(v / 10).push(((v % 10 + 48) as u8) as char)
    }
}

/// Writes a number in decimal: the least significant digits are collected
/// first, then reversed.
pub fn u64_to_string(v: u64) -> (r: String)
    ensures
        r@ == spec_decimal(v),
{
    let mut digits: Vec<char> = Vec::new();
    let mut rest: u64 = v;
    digits.push(((rest % 10) as u8 + 48) as char);
    rest = rest / 10;
    proof {
        if v < 10 {
            assert(v % 10 == v);
            assert(spec_decimal(v) =~= digits@.reverse());
        } else {
            assert(spec_decimal(v) =~= spec_decimal(rest) + digits@.reverse());
        }
    }
    while rest > 0
        invariant
            rest == 0 ==> spec_decimal(v) == digits@.reverse(),
            rest > 0 ==> spec_decimal(v) == spec_decimal(rest) + digits@.reverse(),
        decreases rest,
    {
        let ghost before = digits@;
        let ghost prev = rest;
        digits.push(((rest % 10) as u8 + 48) as char);
        rest = rest / 10;
        proof {
            assert(digits@.reverse() =~= seq![((prev % 10) as u8 + 48) as char] + before.reverse());
            if prev < 10 {
                assert(spec_decimal(prev) =~= seq![((prev % 10) as u8 + 48) as char]);
                assert(spec_decimal(v) =~= digits@.reverse());
            } else {
                assert(spec_decimal(prev) =~= spec_decimal(rest) + seq![((prev % 10) as u8 + 48) as char]);
                assert(spec_decimal(v) =~= spec_decimal(rest) + digits@.reverse());
            }
        }
    }
    let n = digits.len();
    let mut out: Vec<char> = Vec::new();
    let mut i: usize = n;
    while i > 0
        invariant
            i <= n,
            n == digits@.len(),
            out@.len() == n - i,
            forall|k: int| 0 <= k < out@.len() ==> out@[k] == digits@[n - 1 - k],
        decreases i,
    {
        i = i - 1;
        out.push(digits[i]);
    }
    proof {
        assert(out@ =~= digits@.reverse());
    }
    chars_to_string(&out)
}

/// The score the configured fuzzy matcher gives a haystack for a pattern:
/// nucleo's ranking is a pure function of the two strings (under the fixed
/// path-matching configuration this crate always uses), so the result only
/// gets a name here; `None` means the pattern does not match at all.
pub uninterp spec fn fuzzy_score_of(pattern: Seq<char>, text: Seq<char>) -> Option<u32>;

#[verifier::external_type_specification]
#[verifier::external_body]
pub struct ExMatcher(nucleo_matcher::Matcher);

/// Relies on `nucleo_matcher::Matcher::new` with
/// `Config::DEFAULT.match_paths()`: the scratch matcher every ranking in
/// this crate uses. This is the only way verified code obtains a matcher,
/// so every matcher reaching [`fuzzy_score`] carries this one
/// configuration; a second constructor with another configuration would
/// invalidate that wrapper's contract.
#[verifier::external_body]
fn new_matcher() -> nucleo_matcher::Matcher {
    nucleo_matcher::Matcher::new(nucleo_matcher::Config::DEFAULT.match_paths())
}

/// Relies on `nucleo_matcher::pattern::Pattern::{parse, score}` with
/// `CaseMatching::Ignore` and `Normalization::Smart`: parsing and scoring
/// are deterministic in the pattern and haystack (the matcher holds only
/// scratch space and the fixed configuration from `new_matcher`), so the
/// result is exactly [`fuzzy_score_of`] of the two strings. The matcher
/// documents that matching is limited to `u32::MAX` codepoints and panics
/// beyond it, so both strings' lengths are bounded here; character count
/// bounds the codepoint count the matcher sees.
#[verifier::external_body]
fn fuzzy_score(pattern: &str, text: &str, matcher: &mut nucleo_matcher::Matcher) -> (r: Option<
    u32,
>)
    requires
        pattern@.len() <= u32::MAX,
        text@.len() <= u32::MAX,
    ensures
        r == fuzzy_score_of(pattern@, text@),
{
    let parsed = nucleo_matcher::pattern::Pattern::parse(
        pattern,
        nucleo_matcher::pattern::CaseMatching::Ignore,
        nucleo_matcher::pattern::Normalization::Smart,
    );
    let mut buf = Vec::new();
    parsed.score(nucleo_matcher::Utf32Str::new(text, &mut buf), matcher)
}

/// The items that match the input at all, in their original order, each with
/// its score.
pub open spec fn spec_scored(input: Seq<char>, items: Seq<Item>) -> Seq<(Item, u32)>
    decreases items.len(),
{
    if items.len() == 0 {
        Seq::empty()
    } else {
        let rest = spec_scored(input, items.drop_last());
        match fuzzy_score_of(input, items.last().text@) {
            Some(sc) => rest.push((items.last(), sc)),
            None => rest,
        }
    }
}

/// Inserts a scored item into a ranked run: after every entry whose score is
/// at least as high, so equal scores keep their original order.
pub open spec fn spec_rank_insert(sorted: Seq<(Item, u32)>, x: (Item, u32)) -> Seq<(Item, u32)>
    decreases sorted.len(),
{
    if sorted.len() == 0 {
        seq![x]
    } else if sorted.last().1 >= x.1 {
        sorted.push(x)
    } else {
        spec_rank_insert(sorted.drop_last(), x).push(sorted.last())
    }
}

/// The scored items in descending score order, original order among equal
/// scores: the stable ranking of the result list.
pub open spec fn spec_ranked(scored: Seq<(Item, u32)>) -> Seq<(Item, u32)>
    decreases scored.len(),
{
    if scored.len() == 0 {
        Seq::empty()
    } else {
        spec_rank_insert(spec_ranked(scored.drop_last()), scored.last())
    }
}

/// Scores stand in descending order.
pub open spec fn spec_sorted_desc(s: Seq<(Item, u32)>) -> bool {
    forall|i: int, j: int| 0 <= i < j < s.len() ==> (#[trigger] s[i]).1 >= (#[trigger] s[j]).1
}

/// Inserting into a descending run at the position the exec search finds is
/// exactly the stable ranked insertion.
proof fn lemma_rank_insert_at(sorted: Seq<(Item, u32)>, x: (Item, u32), pos: int)
    requires
        spec_sorted_desc(sorted),
        0 <= pos <= sorted.len(),
        forall|j: int| 0 <= j < pos ==> (#[trigger] sorted[j]).1 >= x.1,
        forall|j: int| pos <= j < sorted.len() ==> (#[trigger] sorted[j]).1 < x.1,
    ensures
        spec_rank_insert(sorted, x) == sorted.insert(pos, x),
        spec_sorted_desc(sorted.insert(pos, x)),
    decreases sorted.len(),
{
    if sorted.len() == 0 {
        assert(spec_rank_insert(sorted, x) =~= sorted.insert(pos, x));
    } else if sorted.last().1 >= x.1 {
        assert(pos == sorted.len());
        assert(spec_rank_insert(sorted, x) =~= sorted.insert(pos, x));
    } else {
        assert(spec_sorted_desc(sorted.drop_last()));
        lemma_rank_insert_at(sorted.drop_last(), x, pos);
        assert(spec_rank_insert(sorted, x) =~= sorted.insert(pos, x));
    }
    assert forall|i: int, j: int|
        0 <= i < j < sorted.insert(pos, x).len() implies (#[trigger] sorted.insert(pos, x)[i]).1
        >= (#[trigger] sorted.insert(pos, x)[j]).1 by {
        if i < pos && j < pos {
        } else if i >= pos + 1 && j >= pos + 1 {
            assert(sorted.insert(pos, x)[i] == sorted[i - 1]);
            assert(sorted.insert(pos, x)[j] == sorted[j - 1]);
        }
    }
}

/// The ranking is descending.
proof fn lemma_ranked_sorted(scored: Seq<(Item, u32)>)
    ensures
        spec_sorted_desc(spec_ranked(scored)),
        spec_ranked(scored).len() == scored.len(),
    decreases scored.len(),
{
    if scored.len() > 0 {
        lemma_ranked_sorted(scored.drop_last());
        lemma_rank_insert_len(spec_ranked(scored.drop_last()), scored.last());
        let sorted = spec_ranked(scored.drop_last());
        let x = scored.last();
        lemma_rank_insert_is_sorted(sorted, x);
    }
}

proof fn lemma_rank_insert_len(sorted: Seq<(Item, u32)>, x: (Item, u32))
    ensures
        spec_rank_insert(sorted, x).len() == sorted.len() + 1,
    decreases sorted.len(),
{
    if sorted.len() > 0 && !(sorted.last().1 >= x.1) {
        lemma_rank_insert_len(sorted.drop_last(), x);
    }
}

proof fn lemma_rank_insert_is_sorted(sorted: Seq<(Item, u32)>, x: (Item, u32))
    requires
        spec_sorted_desc(sorted),
    ensures
        spec_sorted_desc(spec_rank_insert(sorted, x)),
    decreases sorted.len(),
{
    lemma_choose_insert_pos(sorted, x, sorted.len() as int);
    let pos = choose_insert_pos(sorted, x, sorted.len() as int);
    lemma_rank_insert_at(sorted, x, pos);
}

/// The split point of a descending run around a new score: everything
/// before it is at least the score, everything from it on is below.
spec fn choose_insert_pos(sorted: Seq<(Item, u32)>, x: (Item, u32), hi: int) -> int
    decreases hi,
{
    if hi <= 0 {
        0
    } else if sorted[hi - 1].1 >= x.1 {
        hi
    } else {
        choose_insert_pos(sorted, x, hi - 1)
    }
}

proof fn lemma_choose_insert_pos(sorted: Seq<(Item, u32)>, x: (Item, u32), hi: int)
    requires
        spec_sorted_desc(sorted),
        0 <= hi <= sorted.len(),
        forall|j: int| hi <= j < sorted.len() ==> (#[trigger] sorted[j]).1 < x.1,
    ensures
        ({
            let pos = choose_insert_pos(sorted, x, hi);
            &&& 0 <= pos <= hi
            &&& forall|j: int| 0 <= j < pos ==> (#[trigger] sorted[j]).1 >= x.1
            &&& forall|j: int| pos <= j < sorted.len() ==> (#[trigger] sorted[j]).1 < x.1
        }),
    decreases hi,
{
    if hi > 0 && !(sorted[hi - 1].1 >= x.1) {
        lemma_choose_insert_pos(sorted, x, hi - 1);
    }
}

/// Ranks the items against the input: every item nucleo scores is kept with
/// its score, ordered by descending score with the original order among
/// equal scores, and the result is capped at 64 entries.
pub fn fuzzy_match(input: &str, items: &Vec<Item>) -> (r: Vec<Match>)
    requires
        input@.len() <= u32::MAX,
        forall|i: int| 0 <= i < items@.len() ==> (#[trigger] items@[i]).text@.len() <= u32::MAX,
    ensures
        ({
            let ranked = spec_ranked(spec_scored(input@, items@));
            let keep = if ranked.len() <= 64 {
                ranked.len() as int
            } else {
                64
            };
            &&& r@.len() == keep
            &&& forall|i: int|
                0 <= i < keep ==> (#[trigger] r@[i]).spec_item()@ == ranked[i].0@
                    && r@[i].spec_score() == ranked[i].1 as u64
        }),
{
    let mut matcher = new_matcher();
    let mut ranked: Vec<Match> = Vec::new();
    let ghost mut gr = Seq::<(Item, u32)>::empty();
    let mut i: usize = 0;
    while i < items.len()
        invariant
            i <= items.len(),
            input@.len() <= u32::MAX,
            forall|k: int| 0 <= k < items@.len() ==> (#[trigger] items@[k]).text@.len() <= u32::MAX,
            gr == spec_ranked(spec_scored(input@, items@.subrange(0, i as int))),
            spec_sorted_desc(gr),
            ranked@.len() == gr.len(),
            forall|k: int|
                0 <= k < gr.len() ==> (#[trigger] ranked@[k]).spec_item()@ == gr[k].0@
                    && ranked@[k].spec_score() == gr[k].1 as u64,
        decreases items.len() - i,
    {
        proof {
            assert(items@.subrange(0, i + 1).drop_last() == items@.subrange(0, i as int));
            assert(items@.subrange(0, i + 1).last() == items@[i as int]);
        }
        let item = &items[i];
        let ghost scored_i = spec_scored(input@, items@.subrange(0, i as int));
        match fuzzy_score(input, item.text.as_str(), &mut matcher) {
            Some(sc) => {
                let ghost x = (items@[i as int], sc);
                proof {
                    assert(spec_scored(input@, items@.subrange(0, i + 1)) == scored_i.push(x));
                    assert(scored_i.push(x).drop_last() =~= scored_i);
                    assert(scored_i.push(x).last() == x);
                }
                let mut pos: usize = ranked.len();
                while pos > 0 && ranked[pos - 1].score < sc as u64
                    invariant
                        pos <= ranked@.len(),
                        ranked@.len() == gr.len(),
                        spec_sorted_desc(gr),
                        forall|k: int|
                            0 <= k < gr.len() ==> (#[trigger] ranked@[k]).spec_item()@ == gr[k].0@
                                && ranked@[k].spec_score() == gr[k].1 as u64,
                        forall|j: int| pos <= j < gr.len() ==> (#[trigger] gr[j]).1 < sc,
                    decreases pos,
                {
                    pos = pos - 1;
                }
                proof {
                    if pos > 0 {
                        assert(gr[pos - 1].1 >= sc) by {
                            assert(ranked@[pos - 1].spec_score() == gr[pos - 1].1 as u64);
                        }
                        assert forall|j: int| 0 <= j < pos implies (#[trigger] gr[j]).1 >= sc by {
                            assert(gr[j].1 >= gr[pos - 1].1);
                        }
                    }
                    lemma_rank_insert_at(gr, x, pos as int);
                    gr = spec_rank_insert(gr, x);
                }
                let ghost before = ranked@;
                ranked.insert(pos, Match { item: item.clone_item(), score: sc as u64 });
                proof {
                    assert forall|k: int|
                        0 <= k < gr.len() implies (#[trigger] ranked@[k]).spec_item()@ == gr[k].0@
                        && ranked@[k].spec_score() == gr[k].1 as u64 by {
                        if k < pos {
                            assert(ranked@[k] == before[k]);
                        } else if k == pos {
                        } else {
                            assert(ranked@[k] == before[k - 1]);
                        }
                    }
                }
            },
            None => (),
        }
        i += 1;
    }
    proof {
        assert(items@.subrange(0, items@.len() as int) == items@);
    }
    ranked.truncate(64);
    ranked
}

} // verus!
