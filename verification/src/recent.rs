//! The launcher's recent-selection memory: per mode, the last selections in
//! order, newest last, capped at a dozen. Persisting this state to disk
//! happens outside this crate; callers hand in the clock reading and take
//! the updated state away to store.

use vstd::prelude::*;
use crate::item::Item;
use crate::item::ItemV;

verus! {

/// The number of selections remembered per mode.
pub const MAX_RECENT_ITEMS: usize = 12;

/// One remembered selection: the item and when it was chosen.
pub struct RecentItem {
    pub item: Item,
    pub time: u64,
}

/// The remembered selections, grouped by mode name.
pub struct RecentItems {
    entries: Vec<(String, Vec<RecentItem>)>,
}

/// The mathematical image of one mode's memory: items with their times,
/// oldest first.
pub open spec fn spec_entry_list(items: Seq<RecentItem>) -> Seq<(ItemV, u64)> {
    items.map_values(|r: RecentItem| (r.item@, r.time))
}

/// The remembered list with the first occurrence of an item removed, if it
/// occurs.
pub open spec fn spec_remove_item(s: Seq<(ItemV, u64)>, item: ItemV) -> Seq<(ItemV, u64)>
    decreases s.len(),
{
    if s.len() == 0 {
        s
    } else if s.first().0 == item {
        s.drop_first()
    } else {
        seq![s.first()] + spec_remove_item(s.drop_first(), item)
    }
}

/// The last `n` elements of a list.
pub open spec fn spec_keep_last(s: Seq<(ItemV, u64)>, n: int) -> Seq<(ItemV, u64)> {
    if s.len() <= n {
        s
    } else {
        s.skip(s.len() - n)
    }
}

impl RecentItems {
    /// The stored list for a mode, empty when the mode has none.
    pub closed spec fn spec_mode_list(&self, mode: Seq<char>) -> Seq<(ItemV, u64)> {
        spec_lookup(self.entries@, mode)
    }

    /// Mode names occur at most once.
    pub closed spec fn wf(&self) -> bool {
        forall|i: int, j: int|
            0 <= i < j < self.entries@.len() ==> (#[trigger] self.entries@[i]).0@ != (
            #[trigger] self.entries@[j]).0@
    }

    /// An empty memory.
    pub fn new() -> (r: Self)
        ensures
            r.wf(),
            forall|m: Seq<char>| r.spec_mode_list(m) == Seq::<(ItemV, u64)>::empty(),
    {
        let r = RecentItems { entries: Vec::new() };
        proof {
            assert forall|m: Seq<char>| r.spec_mode_list(m) == Seq::<(ItemV, u64)>::empty() by {
            }
        }
        r
    }

    /// Remembers a selection: any earlier occurrence of the item in the
    /// mode's list makes way, the item goes to the end with the given time,
    /// and only the last [`MAX_RECENT_ITEMS`] entries stay. Other modes'
    /// lists are untouched. The caller persists the updated state.
    pub fn add_and_save(&mut self, mode: &str, item: Item, now: u64)
        requires
            old(self).wf(),
        ensures
            final(self).wf(),
            final(self).spec_mode_list(mode@) == spec_keep_last(
                spec_remove_item(old(self).spec_mode_list(mode@), item@).push((item@, now)),
                MAX_RECENT_ITEMS as int,
            ),
            forall|m: Seq<char>|
                m != mode@ ==> final(self).spec_mode_list(m) == old(self).spec_mode_list(m),
    {
        let idx = self.find_or_create(mode);
        let ghost pre_entries = self.entries@;
        let entry = &mut self.entries[idx];
        let ghost old_list = spec_entry_list(entry.1@);
        remove_first_equal(&mut entry.1, &item);
        entry.1.push(RecentItem { item, time: now });
        trim_front(&mut entry.1);
        proof {
            assert(spec_entry_list(entry.1@) == spec_keep_last(
                spec_remove_item(old_list, item@).push((item@, now)),
                MAX_RECENT_ITEMS as int,
            ));
        }
        proof {
            assert(self.entries@ =~= pre_entries.update(idx as int, self.entries@[idx as int]));
            assert(self.entries@[idx as int].0@ == mode@);
            lemma_lookup_update(pre_entries, idx as int, self.entries@[idx as int], mode@);
        }
    }

    /// The remembered selections of a mode, most recent first.
    pub fn get_matches(&self, mode: &str) -> (r: Vec<Item>)
        requires
            self.wf(),
        ensures
            r.deep_view() == self.spec_mode_list(mode@).map_values(|p: (ItemV, u64)| p.0).reverse(),
    {
        let ghost target = self.spec_mode_list(mode@).map_values(|p: (ItemV, u64)| p.0).reverse();
        let n = self.entries.len();
        let mut i: usize = 0;
        while i < n
            invariant
                i <= n,
                n == self.entries@.len(),
                self.wf(),
                target == self.spec_mode_list(mode@).map_values(|p: (ItemV, u64)| p.0).reverse(),
                forall|j: int| 0 <= j < i ==> (#[trigger] self.entries@[j]).0@ != mode@,
            decreases n - i,
        {
            if str_equal(self.entries[i].0.as_str(), mode) {
                proof {
                    lemma_lookup_found(self.entries@, i as int, mode@);
                }
                let items = &self.entries[i].1;
                let mut out: Vec<Item> = Vec::new();
                let mut k: usize = items.len();
                while k > 0
                    invariant
                        k <= items@.len(),
                        out@.len() == items@.len() - k,
                        forall|j: int|
                            0 <= j < out@.len() ==> out@[j].deep_view() == items@[items@.len() - 1
                                - j].item@,
                    decreases k,
                {
                    k = k - 1;
                    out.push(items[k].item.clone_item());
                }
                proof {
                    assert(out.deep_view() =~= spec_entry_list(items@).map_values(
                        |p: (ItemV, u64)| p.0,
                    ).reverse());
                }
                return out;
            }
            i += 1;
        }
        proof {
            lemma_lookup_absent(self.entries@, mode@);
            assert(Seq::<ItemV>::empty() =~= target);
        }
        Vec::new()
    }

    /// The names of the modes with remembered selections, in first-use
    /// order.
    pub closed spec fn spec_modes(&self) -> Seq<Seq<char>> {
        Seq::new(self.entries@.len(), |i: int| self.entries@[i].0@)
    }

    /// Lists the modes with remembered selections, so a caller can walk the
    /// whole memory; any other mode's list is empty.
    pub fn mode_names(&self) -> (r: Vec<String>)
        ensures
            r.deep_view() == self.spec_modes(),
            forall|m: Seq<char>|
                !self.spec_modes().contains(m) ==> self.spec_mode_list(m) == Seq::<(
                    ItemV,
                    u64,
                )>::empty(),
    {
        let mut out: Vec<String> = Vec::new();
        let n = self.entries.len();
        let mut i: usize = 0;
        while i < n
            invariant
                i <= n,
                n == self.entries@.len(),
                out.deep_view() =~= self.spec_modes().subrange(0, i as int),
            decreases n - i,
        {
            let name = self.entries[i].0.clone();
            proof {
                assert(name@ == self.entries@[i as int].0@);
            }
            let ghost before = out.deep_view();
            out.push(name);
            proof {
                assert(out.deep_view() =~= before.push(self.entries@[i as int].0@));
                assert(self.spec_modes().subrange(0, i + 1).drop_last() == self.spec_modes().subrange(
                    0,
                    i as int,
                ));
                assert(self.spec_modes().subrange(0, i + 1).last() == self.spec_modes()[i as int]);
                assert(out.deep_view() =~= self.spec_modes().subrange(0, i + 1));
            }
            i += 1;
        }
        proof {
            assert(out.deep_view() =~= self.spec_modes());
            assert forall|m: Seq<char>|
                !self.spec_modes().contains(m) implies self.spec_mode_list(m) == Seq::<(
                ItemV,
                u64,
            )>::empty() by {
                assert forall|j: int| 0 <= j < self.entries@.len() implies (
                #[trigger] self.entries@[j]).0@ != m by {
                    if self.entries@[j].0@ == m {
                        assert(self.spec_modes()[j] == m);
                        assert(self.spec_modes().contains(m));
                    }
                }
                lemma_lookup_absent(self.entries@, m);
            }
        }
        out
    }

    /// The position of the mode's entry, creating an empty one when absent.
    fn find_or_create(&mut self, mode: &str) -> (r: usize)
        requires
            old(self).wf(),
        ensures
            final(self).wf(),
            r < final(self).entries@.len(),
            final(self).entries@[r as int].0@ == mode@,
            spec_entry_list(final(self).entries@[r as int].1@) == old(self).spec_mode_list(mode@),
            forall|m: Seq<char>| final(self).spec_mode_list(m) == old(self).spec_mode_list(m),
            forall|i: int, j: int|
                0 <= i < j < final(self).entries@.len() ==> (#[trigger] final(self).entries@[i]).0@
                    != (#[trigger] final(self).entries@[j]).0@,
            forall|i: int|
                0 <= i < final(self).entries@.len() && i != r ==> #[trigger] final(self).entries@[i]
                    == old(self).entries@[i],
    {
        let n = self.entries.len();
        let mut i: usize = 0;
        while i < n
            invariant
                i <= n,
                n == self.entries@.len(),
                self.wf(),
                forall|j: int| 0 <= j < i ==> (#[trigger] self.entries@[j]).0@ != mode@,
            decreases n - i,
        {
            if str_equal(self.entries[i].0.as_str(), mode) {
                proof {
                    lemma_lookup_found(self.entries@, i as int, mode@);
                }
                return i;
            }
            i += 1;
        }
        proof {
            lemma_lookup_absent(self.entries@, mode@);
        }
        let ghost before = self.entries@;
        self.entries.push((mode.to_owned(), Vec::new()));
        proof {
            assert(spec_entry_list(self.entries@[n as int].1@) =~= Seq::<(ItemV, u64)>::empty());
            assert forall|m: Seq<char>| self.spec_mode_list(m) == spec_lookup(before, m) by {
                lemma_lookup_push(before, (self.entries@[n as int].0, self.entries@[n as int].1), m, mode@);
            }
        }
        n
    }
}

/// The stored list under a mode name in an entry sequence: the first match
/// wins (well-formed memories have at most one).
pub open spec fn spec_lookup(entries: Seq<(String, Vec<RecentItem>)>, mode: Seq<char>) -> Seq<
    (ItemV, u64),
>
    decreases entries.len(),
{
    if entries.len() == 0 {
        Seq::empty()
    } else if entries.first().0@ == mode {
        spec_entry_list(entries.first().1@)
    } else {
        spec_lookup(entries.drop_first(), mode)
    }
}

proof fn lemma_lookup_found(entries: Seq<(String, Vec<RecentItem>)>, i: int, mode: Seq<char>)
    requires
        0 <= i < entries.len(),
        entries[i].0@ == mode,
        forall|j: int| 0 <= j < i ==> (#[trigger] entries[j]).0@ != mode,
    ensures
        spec_lookup(entries, mode) == spec_entry_list(entries[i].1@),
    decreases entries.len(),
{
    if i > 0 {
        lemma_lookup_found(entries.drop_first(), i - 1, mode);
        assert forall|j: int| 0 <= j < i - 1 implies (#[trigger] entries.drop_first()[j]).0@
            != mode by {
            assert(entries.drop_first()[j] == entries[j + 1]);
        }
    }
}

proof fn lemma_lookup_absent(entries: Seq<(String, Vec<RecentItem>)>, mode: Seq<char>)
    requires
        forall|j: int| 0 <= j < entries.len() ==> (#[trigger] entries[j]).0@ != mode,
    ensures
        spec_lookup(entries, mode) == Seq::<(ItemV, u64)>::empty(),
    decreases entries.len(),
{
    if entries.len() > 0 {
        lemma_lookup_absent(entries.drop_first(), mode);
    }
}

proof fn lemma_lookup_push(
    entries: Seq<(String, Vec<RecentItem>)>,
    e: (String, Vec<RecentItem>),
    m: Seq<char>,
    mode: Seq<char>,
)
    requires
        e.0@ == mode,
        e.1@.len() == 0,
        forall|j: int| 0 <= j < entries.len() ==> (#[trigger] entries[j]).0@ != mode,
    ensures
        spec_lookup(entries.push(e), m) == spec_lookup(entries, m),
    decreases entries.len(),
{
    if entries.len() == 0 {
        assert(entries.push(e)[0] == e);
        if m == mode {
            lemma_lookup_absent(entries, m);
            assert(spec_lookup(entries.push(e), m) == spec_entry_list(e.1@));
            assert(spec_entry_list(e.1@) =~= Seq::<(ItemV, u64)>::empty());
        } else {
            assert(entries.push(e).drop_first() =~= Seq::<(String, Vec<RecentItem>)>::empty());
            lemma_lookup_absent(entries.push(e).drop_first(), m);
            lemma_lookup_absent(entries, m);
        }
    } else {
        assert(entries.push(e).first() == entries.first());
        assert(entries.push(e).drop_first() =~= entries.drop_first().push(e));
        if entries.first().0@ != m {
            lemma_lookup_push(entries.drop_first(), e, m, mode);
        }
    }
}

proof fn lemma_lookup_update(
    entries: Seq<(String, Vec<RecentItem>)>,
    i: int,
    e: (String, Vec<RecentItem>),
    mode: Seq<char>,
)
    requires
        0 <= i < entries.len(),
        entries[i].0@ == mode,
        e.0@ == mode,
        forall|a: int, b: int|
            0 <= a < b < entries.len() ==> (#[trigger] entries[a]).0@ != (#[trigger] entries[b]).0@,
    ensures
        spec_lookup(entries.update(i, e), mode) == spec_entry_list(e.1@),
        forall|m: Seq<char>|
            m != mode ==> spec_lookup(entries.update(i, e), m) == spec_lookup(entries, m),
    decreases entries.len(),
{
    if i == 0 {
        assert(entries.update(0, e).first() == e);
        assert(entries.first() == entries[0]);
        assert(entries.first().0@ == mode);
        assert forall|m: Seq<char>|
            m != mode implies spec_lookup(entries.update(0, e), m) == spec_lookup(entries, m) by {
            assert(entries.update(0, e).drop_first() =~= entries.drop_first());
        }
    } else {
        assert(entries.update(i, e).first() == entries.first());
        assert(entries.update(i, e).drop_first() =~= entries.drop_first().update(i - 1, e));
        assert forall|a: int, b: int|
            0 <= a < b < entries.drop_first().len() implies (#[trigger] entries.drop_first()[a]).0@
            != (#[trigger] entries.drop_first()[b]).0@ by {
            assert(entries.drop_first()[a] == entries[a + 1]);
            assert(entries.drop_first()[b] == entries[b + 1]);
        }
        assert(entries.drop_first()[i - 1] == entries[i]);
        lemma_lookup_update(entries.drop_first(), i - 1, e, mode);
        assert(entries.first().0@ != mode) by {
            assert(entries[0].0@ != entries[i].0@);
        }
        assert forall|m: Seq<char>|
            m != mode implies spec_lookup(entries.update(i, e), m) == spec_lookup(entries, m) by {
            assert(entries.update(i, e).first() == entries.first());
            if entries.first().0@ != m {
                assert(spec_lookup(entries.drop_first().update(i - 1, e), m) == spec_lookup(
                    entries.drop_first(),
                    m,
                ));
                assert(entries.update(i, e).drop_first() =~= entries.drop_first().update(i - 1, e));
            }
        }
    }
}

/// Removes the first element whose item equals the given one, if any.
fn remove_first_equal(items: &mut Vec<RecentItem>, item: &Item)
    ensures
        spec_entry_list(final(items)@) == spec_remove_item(spec_entry_list(old(items)@), item@),
{
    let n = items.len();
    let mut i: usize = 0;
    while i < n
        invariant
            i <= n,
            n == items@.len(),
            items@ == old(items)@,
            forall|j: int| 0 <= j < i ==> (#[trigger] items@[j]).item@ != item@,
        decreases n - i,
    {
        if &items[i].item == item {
            let ghost before = items@;
            items.remove(i);
            proof {
                lemma_remove_at(before, i as int, item@);
                assert(items@ =~= before.remove(i as int));
                assert(spec_entry_list(items@) =~= spec_entry_list(before).remove(i as int));
            }
            return ;
        }
        i += 1;
    }
    proof {
        lemma_remove_absent(items@, item@);
    }
}

proof fn lemma_remove_at(items: Seq<RecentItem>, i: int, item: ItemV)
    requires
        0 <= i < items.len(),
        items[i].item@ == item,
        forall|j: int| 0 <= j < i ==> (#[trigger] items[j]).item@ != item,
    ensures
        spec_remove_item(spec_entry_list(items), item) == spec_entry_list(items).remove(i),
    decreases items.len(),
{
    let s = spec_entry_list(items);
    if i == 0 {
        assert(s.first().0 == item);
        assert(s.drop_first() =~= s.remove(0));
    } else {
        assert(s.first().0 != item);
        assert forall|j: int| 0 <= j < i - 1 implies (#[trigger] items.drop_first()[j]).item@
            != item by {
            assert(items.drop_first()[j] == items[j + 1]);
        }
        assert(items.drop_first()[i - 1] == items[i]);
        lemma_remove_at(items.drop_first(), i - 1, item);
        assert(spec_entry_list(items.drop_first()) =~= s.drop_first());
        assert(seq![s.first()] + s.drop_first().remove(i - 1) =~= s.remove(i));
    }
}

proof fn lemma_remove_absent(items: Seq<RecentItem>, item: ItemV)
    requires
        forall|j: int| 0 <= j < items.len() ==> (#[trigger] items[j]).item@ != item,
    ensures
        spec_remove_item(spec_entry_list(items), item) == spec_entry_list(items),
    decreases items.len(),
{
    if items.len() > 0 {
        assert forall|j: int| 0 <= j < items.drop_first().len() implies (#[trigger] items.drop_first()[j]).item@
            != item by {
            assert(items.drop_first()[j] == items[j + 1]);
        }
        lemma_remove_absent(items.drop_first(), item);
        assert(spec_entry_list(items.drop_first()) =~= spec_entry_list(items).drop_first());
        assert(seq![spec_entry_list(items).first()] + spec_entry_list(items).drop_first()
            =~= spec_entry_list(items));
    }
}

/// Drops elements from the front until at most [`MAX_RECENT_ITEMS`] remain.
fn trim_front(items: &mut Vec<RecentItem>)
    ensures
        spec_entry_list(final(items)@) == spec_keep_last(
            spec_entry_list(old(items)@),
            MAX_RECENT_ITEMS as int,
        ),
{
    let ghost orig = items@;
    while items.len() > MAX_RECENT_ITEMS
        invariant
            spec_keep_last(spec_entry_list(items@), MAX_RECENT_ITEMS as int) == spec_keep_last(
                spec_entry_list(orig),
                MAX_RECENT_ITEMS as int,
            ),
        decreases items@.len(),
    {
        let ghost before = items@;
        items.remove(0);
        proof {
            assert(items@ =~= before.drop_first());
            assert(spec_entry_list(items@) =~= spec_entry_list(before).drop_first());
            assert(spec_entry_list(before).drop_first() =~= spec_entry_list(before).skip(1));
            lemma_keep_last_skip(spec_entry_list(before));
        }
    }
    proof {
        assert(spec_keep_last(spec_entry_list(items@), MAX_RECENT_ITEMS as int) == spec_entry_list(
            items@,
        ));
    }
}

proof fn lemma_keep_last_skip(s: Seq<(ItemV, u64)>)
    requires
        s.len() > MAX_RECENT_ITEMS,
    ensures
        spec_keep_last(s.skip(1), MAX_RECENT_ITEMS as int) == spec_keep_last(s, MAX_RECENT_ITEMS as int),
{
    assert(s.skip(1).len() == s.len() - 1);
    if s.len() - 1 <= MAX_RECENT_ITEMS {
        assert(s.skip(1) =~= s.skip(s.len() - (MAX_RECENT_ITEMS as int)));
    } else {
        assert(s.skip(1).skip(s.skip(1).len() - (MAX_RECENT_ITEMS as int)) =~= s.skip(
            s.len() - (MAX_RECENT_ITEMS as int),
        ));
    }
}

/// Whether two strings hold the same characters.
fn str_equal(a: &str, b: &str) -> (r: bool)
    ensures
        r == (a@ == b@),
{
    let sa = a.to_owned();
    let sb = b.to_owned();
    <String as PartialEq>::eq(&sa, &sb)
}

} // verus!
