//! Walking the game's intrusive registration lists (interface registrations, key
//! buttons): each node names something and points at it; the walk records the
//! module-relative address of every node that points into the module.

use vstd::prelude::*;

use crate::names::NameMap;

verus! {

/// A walk along a linked list of registrations of a module loaded at `base`.
pub struct ListWalk {
    base: u64,
    next: u64,
    found: NameMap<u64>,
}

impl ListWalk {
    /// The load address of the module.
    pub closed spec fn base(&self) -> u64 {
        self.base
    }

    /// The address of the next node to visit (0 at the end of the list).
    pub closed spec fn next_node(&self) -> u64 {
        self.next
    }

    /// The names found so far and their module-relative addresses.
    pub closed spec fn found(&self) -> Map<Seq<char>, u64> {
        self.found@
    }

    pub closed spec fn wf(&self) -> bool {
        self.found.wf()
    }

    /// Starts at the list head `head`.
    pub fn new(base: u64, head: u64) -> (r: ListWalk)
        ensures
            r.wf(),
            r.base() == base,
            r.next_node() == head,
            r.found() == Map::<Seq<char>, u64>::empty(),
    {
        ListWalk { base, next: head, found: NameMap::new() }
    }

    /// The node to read next, or `None` at the end of the list.
    pub fn current(&self) -> (r: Option<u64>)
        ensures
            r == (if self.next_node() == 0 {
                None
            } else {
                Some(self.next_node())
            }),
    {
        if self.next == 0 {
            None
        } else {
            Some(self.next)
        }
    }

    /// Records the node just read: its name, the address it registers and the next
    /// node. The address is kept, relative to the module, when it lies at or above
    /// the module base; a later node of the same name replaces an earlier one.
    pub fn visit(&mut self, name: String, target: u64, next: u64)
        requires
            old(self).wf(),
        ensures
            final(self).wf(),
            final(self).base() == old(self).base(),
            final(self).next_node() == next,
            final(self).found() == (if target >= old(self).base() {
                old(self).found().insert(name@, (target - old(self).base()) as u64)
            } else {
                old(self).found()
            }),
    {
        if let Some(rva) = target.checked_sub(self.base) {
            self.found.insert(name, rva);
        }
        self.next = next;
    }

    /// The names found and their module-relative addresses.
    pub fn finish(self) -> (r: NameMap<u64>)
        requires
            self.wf(),
        ensures
            r.wf(),
            r@ == self.found(),
    {
        self.found
    }
}

/// Adds the entries found in a module to the per-module results, unless there are
/// none.
pub fn record_module<W>(map: &mut NameMap<NameMap<W>>, module_name: String, entries: NameMap<W>)
    requires
        old(map).wf(),
    ensures
        final(map).wf(),
        final(map)@ == (if entries@.dom() =~= Set::<Seq<char>>::empty() {
            old(map)@
        } else {
            old(map)@.insert(module_name@, entries)
        }),
{
    if !entries.is_empty() {
        map.insert(module_name, entries);
    }
}

} // verus!
