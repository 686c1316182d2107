//! A map from names to values in which a later insertion under a name replaces the
//! earlier one. The results of the dumper are maps of this kind, keyed by module,
//! class, interface or offset name.

use vstd::prelude::*;

use crate::text::str_equal;

verus! {

/// The map held by a list of `(name, value)` entries.
pub open spec fn entries_map<V>(entries: Seq<(String, V)>) -> Map<Seq<char>, V>
    decreases entries.len(),
{
    if entries.len() == 0 {
        Map::empty()
    } else {
        entries_map(entries.drop_last()).insert(entries.last().0@, entries.last().1)
    }
}

/// The names of the entries, in order.
pub open spec fn entry_names<V>(entries: Seq<(String, V)>) -> Seq<Seq<char>> {
    entries.map_values(|e: (String, V)| e.0@)
}

/// No name occurs twice among the entries.
pub open spec fn distinct_names<V>(entries: Seq<(String, V)>) -> bool {
    forall|i: int, j: int|
        0 <= i < entries.len() && 0 <= j < entries.len() && i != j ==> #[trigger] entries[i].0@
            != #[trigger] entries[j].0@
}

/// Replacing the value of the entry that holds `k` is an insertion under `k`.
proof fn lemma_update_entry<V>(entries: Seq<(String, V)>, i: int, name: String, v: V)
    requires
        distinct_names(entries),
        0 <= i < entries.len(),
        entries[i].0@ == name@,
    ensures
        entries_map(entries.update(i, (name, v))) =~= entries_map(entries).insert(name@, v),
    decreases entries.len(),
{
    let updated = entries.update(i, (name, v));
    if i == entries.len() - 1 {
        assert(updated.drop_last() =~= entries.drop_last());
    } else {
        assert(updated.drop_last() =~= entries.drop_last().update(i, (name, v)));
        lemma_update_entry(entries.drop_last(), i, name, v);
        assert(entries.last().0@ != name@);
    }
}

/// A name is in the map exactly when some entry holds it.
proof fn lemma_map_domain<V>(entries: Seq<(String, V)>, k: Seq<char>)
    ensures
        entries_map(entries).dom().contains(k) <==> exists|i: int|
            0 <= i < entries.len() && #[trigger] entries[i].0@ == k,
    decreases entries.len(),
{
    if entries.len() > 0 {
        lemma_map_domain(entries.drop_last(), k);
        if entries_map(entries.drop_last()).dom().contains(k) {
            let i = choose|i: int| 0 <= i < entries.len() - 1 && #[trigger] entries.drop_last()[i].0@ == k;
            assert(entries[i].0@ == k);
        }
        if exists|i: int| 0 <= i < entries.len() && #[trigger] entries[i].0@ == k {
            let i = choose|i: int| 0 <= i < entries.len() && #[trigger] entries[i].0@ == k;
            if i < entries.len() - 1 {
                assert(entries.drop_last()[i].0@ == k);
            }
        }
    }
}

/// The value of the entry that holds a name is the value the map has for it.
proof fn lemma_map_value<V>(entries: Seq<(String, V)>, i: int)
    requires
        distinct_names(entries),
        0 <= i < entries.len(),
    ensures
        entries_map(entries).dom().contains(entries[i].0@),
        entries_map(entries)[entries[i].0@] == entries[i].1,
    decreases entries.len(),
{
    if i < entries.len() - 1 {
        assert(entries.drop_last()[i] == entries[i]);
        lemma_map_value(entries.drop_last(), i);
        assert(entries.last().0@ != entries[i].0@);
    }
}

/// A map from names to values; inserting under a name that is present replaces its
/// value.
pub struct NameMap<V> {
    entries: Vec<(String, V)>,
}

impl<V> View for NameMap<V> {
    type V = Map<Seq<char>, V>;

    closed spec fn view(&self) -> Map<Seq<char>, V> {
        entries_map(self.entries@)
    }
}

impl<V> NameMap<V> {
    /// The names, each once, in the order in which they were first inserted.
    pub closed spec fn order(&self) -> Seq<Seq<char>> {
        entry_names(self.entries@)
    }

    /// The entries hold each name once.
    pub closed spec fn wf(&self) -> bool {
        distinct_names(self.entries@)
    }

    /// An empty map.
    pub fn new() -> (r: NameMap<V>)
        ensures
            r.wf(),
            r@ == Map::<Seq<char>, V>::empty(),
            r.order() == Seq::<Seq<char>>::empty(),
    {
        NameMap { entries: Vec::new() }
    }

    /// Maps `name` to `value`, replacing the value that `name` had.
    pub fn insert(&mut self, name: String, value: V)
        requires
            old(self).wf(),
        ensures
            final(self).wf(),
            final(self)@ == old(self)@.insert(name@, value),
            old(self)@.dom().contains(name@) ==> final(self).order() == old(self).order(),
            !old(self)@.dom().contains(name@) ==> final(self).order() == old(self).order().push(
                name@,
            ),
    {
        let mut i: usize = 0;
        while i < self.entries.len()
            invariant
                i <= self.entries.len(),
                self.entries@ == old(self).entries@,
                distinct_names(self.entries@),
                forall|j: int| 0 <= j < i ==> #[trigger] self.entries@[j].0@ != name@,
            decreases self.entries.len() - i,
        {
            if self.entries[i].0 == name {
                let ghost before = self.entries@;
                proof {
                    lemma_update_entry(before, i as int, name, value);
                }
                proof {
                    lemma_map_value(before, i as int);
                }
                self.entries.set(i, (name, value));
                assert(self.entries@ == before.update(i as int, (name, value)));
                assert(entry_names(self.entries@) =~= entry_names(before));
                assert(distinct_names(self.entries@)) by {
                    assert forall|a: int, b: int|
                        0 <= a < self.entries@.len() && 0 <= b < self.entries@.len() && a != b
                            implies #[trigger] self.entries@[a].0@ != #[trigger] self.entries@[b].0@ by {
                        if a != i && b != i {
                            assert(before[a].0@ != before[b].0@);
                        }
                    }
                }
                return;
            }
            i = i + 1;
        }
        let ghost before = self.entries@;
        proof {
            lemma_map_domain(before, name@);
        }
        self.entries.push((name, value));
        assert(self.entries@.drop_last() =~= before);
        assert(entry_names(self.entries@) =~= entry_names(before).push(name@));
    }

    /// The value that `name` maps to.
    pub fn get(&self, name: &str) -> (r: Option<&V>)
        requires
            self.wf(),
        ensures
            match r {
                Some(v) => self@.dom().contains(name@) && self@[name@] == *v,
                None => !self@.dom().contains(name@),
            },
    {
        let mut i: usize = 0;
        while i < self.entries.len()
            invariant
                i <= self.entries.len(),
                self.wf(),
                forall|j: int| 0 <= j < i ==> #[trigger] self.entries@[j].0@ != name@,
            decreases self.entries.len() - i,
        {
            if str_equal(self.entries[i].0.as_str(), name) {
                proof {
                    lemma_map_value(self.entries@, i as int);
                }
                return Some(&self.entries[i].1);
            }
            i = i + 1;
        }
        proof {
            lemma_map_domain(self.entries@, name@);
        }
        None
    }

    /// Whether the map has no names.
    pub fn is_empty(&self) -> (r: bool)
        ensures
            r == (self@.dom() =~= Set::<Seq<char>>::empty()),
    {
        proof {
            if self.entries@.len() > 0 {
                let k = self.entries@[self.entries@.len() - 1].0@;
                lemma_map_domain(self.entries@, k);
            } else {
                assert(self@ =~= Map::<Seq<char>, V>::empty());
            }
        }
        self.entries.len() == 0
    }

    /// The entries, each name once, in the order in which the names were first
    /// inserted.
    pub fn into_entries(self) -> (r: Vec<(String, V)>)
        requires
            self.wf(),
        ensures
            distinct_names(r@),
            entries_map(r@) == self@,
            entry_names(r@) == self.order(),
    {
        self.entries
    }
}

} // verus!
