//! Bookkeeping for hooking Virtual Method Tables (VMTs) of OOP objects. The
//! records of altered entries are kept for the table's whole life, so that
//! dropping the table can put every original back.

use vstd::prelude::*;

verus! {

use crate::mem::vtable::{
    apply_write, apply_writes, consistent, find_entry, hooked_entries, reset_writes, slot_addr,
    unique_indices, SlotWrite,
};

pub use crate::mem::vtable::VTableError;

#[derive(Debug)]
struct VTableEntry {
    /// The original address of the vtable entry
    orig_fn: usize,
    /// The index of the vtable entry
    index: usize,
}

/// VTable
#[derive(Debug)]
pub struct VTable {
    /// the base vtable address
    base: usize,
    /// Altered vtable entries
    entries: Vec<VTableEntry>,
}

impl VTable {
    /// The vtable address.
    pub closed spec fn spec_base(&self) -> usize {
        self.base
    }

    /// The altered entries, as (index, original function) in the order they were first hooked.
    pub closed spec fn spec_entries(&self) -> Seq<(usize, usize)> {
        self.entries@.map_values(|e: VTableEntry| (e.index, e.orig_fn))
    }

    /// Each index is recorded once, and every recorded entry's address fits.
    pub open spec fn wf(&self) -> bool {
        &&& forall|a: int, b: int|
            0 <= a < b < self.spec_entries().len() ==> self.spec_entries()[a].0 != self.spec_entries()[b].0
        &&& forall|k: int|
            0 <= k < self.spec_entries().len() ==> slot_addr(self.spec_base(), #[trigger] self.spec_entries()[k].0) <= usize::MAX
    }

    /// Create a new vtable hooker
    pub fn new(vtable: usize) -> (r: VTable)
        ensures
            r.wf(),
            r.spec_base() == vtable,
            r.spec_entries() == Seq::<(usize, usize)>::empty(),
    {
        let r = VTable { base: vtable, entries: Vec::new() };
        assert(r.spec_entries() =~= Seq::<(usize, usize)>::empty());
        r
    }

    fn position(&self, index: usize) -> (r: Option<usize>)
        ensures
            r matches Some(k) ==> k < self.spec_entries().len() && self.spec_entries()[k as int].0 == index,
            r is None ==> forall|k: int| 0 <= k < self.spec_entries().len() ==> self.spec_entries()[k].0 != index,
    {
        let mut k: usize = 0;
        while k < self.entries.len()
            invariant
                k <= self.entries@.len(),
                forall|j: int| 0 <= j < k ==> self.spec_entries()[j].0 != index,
            decreases self.entries@.len() - k,
        {
            if self.entries[k].index == index {
                return Some(k);
            }
            k = k + 1;
        }
        None
    }

    /// Hook the vtable's entry `index` with a new function `dst`. `current` is
    /// the function the entry holds now; it is recorded as the original the
    /// first time the index is hooked. Returns the write to perform.
    pub fn hook(&mut self, index: usize, current: usize, dst: usize) -> (r: SlotWrite)
        requires
            old(self).wf(),
            slot_addr(old(self).spec_base(), index) <= usize::MAX,
        ensures
            final(self).wf(),
            final(self).spec_base() == old(self).spec_base(),
            r == (SlotWrite { addr: slot_addr(old(self).spec_base(), index) as usize, value: dst }),
            final(self).spec_entries() == hooked_entries(old(self).spec_entries(), index, current),
    {
        let addr = self.base + 8 * index;
        match self.position(index) {
            Some(_) => {},
            None => {
                let ghost before = self.spec_entries();
                self.entries.push(VTableEntry { orig_fn: current, index });
                assert(self.spec_entries() =~= before.push((index, current)));
            },
        }
        SlotWrite { addr, value: dst }
    }

    /// Unhook a hooked index: returns the write that puts the original
    /// function back; the record is kept. If the index wasn't hooked, does nothing.
    pub fn unhook(&self, index: usize) -> (r: Option<SlotWrite>)
        requires
            self.wf(),
        ensures
            match find_entry(self.spec_entries(), index) {
                None => r is None,
                Some(k) => r == Some(
                    SlotWrite { addr: slot_addr(self.spec_base(), index) as usize, value: self.spec_entries()[k].1 },
                ),
            },
    {
        match self.position(index) {
            None => None,
            Some(k) => {
                proof {
                    let c = choose|j: int| 0 <= j < self.spec_entries().len() && self.spec_entries()[j].0 == index;
                    assert(c == k);
                    assert(slot_addr(self.spec_base(), self.spec_entries()[k as int].0) <= usize::MAX);
                }
                let item = &self.entries[k];
                let addr = self.base + 8 * item.index;
                Some(SlotWrite { addr, value: item.orig_fn })
            },
        }
    }

    /// Get the original vtable pointer for index
    pub fn get_original(&self, index: usize) -> (r: Option<usize>)
        requires
            self.wf(),
        ensures
            r == match find_entry(self.spec_entries(), index) {
                Some(k) => Some(self.spec_entries()[k].1),
                None => None::<usize>,
            },
    {
        match self.position(index) {
            Some(k) => {
                proof {
                    let c = choose|j: int| 0 <= j < self.spec_entries().len() && self.spec_entries()[j].0 == index;
                    assert(c == k);
                }
                Some(self.entries[k].orig_fn)
            },
            None => None,
        }
    }

    /// Reset all altered vtable entries: returns the writes that put every
    /// original function back, in the order the entries were first hooked;
    /// the records are kept.
    pub fn reset(&self) -> (r: Vec<SlotWrite>)
        requires
            self.wf(),
        ensures
            r@ == reset_writes(self.spec_base(), self.spec_entries()),
    {
        let mut out: Vec<SlotWrite> = Vec::new();
        let mut k: usize = 0;
        let ghost es = self.spec_entries();
        while k < self.entries.len()
            invariant
                es == self.spec_entries(),
                self.wf(),
                k <= self.entries@.len(),
                out@ == reset_writes(self.spec_base(), es.take(k as int)),
            decreases self.entries@.len() - k,
        {
            let e = &self.entries[k];
            assert(es[k as int] == (e.index, e.orig_fn));
            assert(slot_addr(self.spec_base(), self.spec_entries()[k as int].0) <= usize::MAX);
            let addr = self.base + 8 * e.index;
            out.push(SlotWrite { addr, value: e.orig_fn });
            proof {
                assert(es.take(k + 1) =~= es.take(k as int).push(es[k as int]));
                crate::mem::vtable::lemma_reset_writes_push(self.spec_base(), es.take(k as int), es[k as int]);
            }
            k = k + 1;
        }
        assert(es.take(k as int) =~= es);
        out
    }
}

/// Unhooking an index puts back the function it held before it was first
/// hooked; the records stay as they were.
pub proof fn law_unhook_restores(base: usize, entries: Seq<(usize, usize)>, orig: Map<int, usize>, m: Map<int, usize>, index: usize)
    requires
        consistent(base, entries, orig),
        find_entry(entries, index) is Some,
        slot_addr(base, index) <= usize::MAX,
    ensures
        ({
            let k = find_entry(entries, index)->0;
            let w = SlotWrite { addr: slot_addr(base, index) as usize, value: entries[k].1 };
            apply_write(m, w)[slot_addr(base, index)] == orig[slot_addr(base, index)]
        }),
{
    let k = find_entry(entries, index)->0;
    assert(entries[k].0 == index);
    assert(entries[k].1 == orig[slot_addr(base, entries[k].0)]);
}

/// Resetting puts back, at every recorded entry, the function it held before
/// it was first hooked, and writes no other entry; the records stay, so the
/// reset that dropping the table performs writes the same originals.
pub proof fn law_reset_restores(base: usize, entries: Seq<(usize, usize)>, orig: Map<int, usize>, m: Map<int, usize>)
    requires
        unique_indices(entries),
        consistent(base, entries, orig),
        forall|k: int| 0 <= k < entries.len() ==> slot_addr(base, #[trigger] entries[k].0) <= usize::MAX,
    ensures
        forall|k: int|
            0 <= k < entries.len() ==> apply_writes(m, reset_writes(base, entries))[slot_addr(base, #[trigger] entries[k].0)]
                == orig[slot_addr(base, entries[k].0)],
        forall|a: int|
            (forall|k: int| 0 <= k < entries.len() ==> slot_addr(base, #[trigger] entries[k].0) != a) && m.dom().contains(a)
                ==> #[trigger] apply_writes(m, reset_writes(base, entries))[a] == m[a],
{
    crate::mem::vtable::law_reset_restores(base, entries, orig, m);
    assert forall|a: int|
        (forall|k: int| 0 <= k < entries.len() ==> slot_addr(base, #[trigger] entries[k].0) != a) && m.dom().contains(a)
            implies #[trigger] apply_writes(m, reset_writes(base, entries))[a] == m[a] by {
        crate::mem::vtable::law_reset_leaves_others(base, entries, m, a);
    }
}

} // verus!
