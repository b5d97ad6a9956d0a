//! Bookkeeping for hooking Virtual Method Tables (VMTs) of OOP objects: which
//! entries were altered and what they originally held, and the writes that
//! hook, unhook and reset them.

use vstd::prelude::*;

use crate::mem::memory::MemError;

verus! {

/// VTable errors
#[derive(Debug)]
pub enum VTableError {
    /// changing the protection of an entry failed
    Mem(MemError),
}

/// A write of `value` to the vtable entry at address `addr`.
#[derive(Debug, Clone, Copy, PartialEq, Eq)]
pub struct SlotWrite {
    /// the address of the vtable entry
    pub addr: usize,
    /// the function pointer to store there
    pub value: usize,
}

/// The address of entry `index` of a vtable starting at `base`.
pub open spec fn slot_addr(base: usize, index: usize) -> int {
    base + 8 * index
}

/// Memory after a write.
pub open spec fn apply_write(m: Map<int, usize>, w: SlotWrite) -> Map<int, usize> {
    m.insert(w.addr as int, w.value)
}

/// Memory after a sequence of writes, in order.
pub open spec fn apply_writes(m: Map<int, usize>, ws: Seq<SlotWrite>) -> Map<int, usize>
    decreases ws.len(),
{
    if ws.len() == 0 {
        m
    } else {
        apply_writes(apply_write(m, ws[0]), ws.drop_first())
    }
}

/// The position of the record for `index` among `entries`, if any.
pub open spec fn find_entry(entries: Seq<(usize, usize)>, index: usize) -> Option<int> {
    if exists|k: int| 0 <= k < entries.len() && entries[k].0 == index {
        Some(choose|k: int| 0 <= k < entries.len() && entries[k].0 == index)
    } else {
        None
    }
}

/// Every recorded original is what `orig` held at that entry before any hook.
pub open spec fn consistent(base: usize, entries: Seq<(usize, usize)>, orig: Map<int, usize>) -> bool {
    forall|k: int|
        #![trigger entries[k]]
        0 <= k < entries.len() ==> orig.dom().contains(slot_addr(base, entries[k].0)) && entries[k].1
            == orig[slot_addr(base, entries[k].0)]
}

#[derive(Debug)]
struct VTableEntry {
    /// The original address of the vtable entry
    orig_fn: usize,
    /// The index of the vtable entry
    index: usize,
}

/// VTable
#[derive(Debug)]
pub struct VTable {
    /// the base vtable address
    base: usize,
    /// Altered vtable entries
    entries: Vec<VTableEntry>,
}

impl VTable {
    /// The vtable address.
    pub closed spec fn spec_base(&self) -> usize {
        self.base
    }

    /// The altered entries, as (index, original function) in the order they were first hooked.
    pub closed spec fn spec_entries(&self) -> Seq<(usize, usize)> {
        self.entries@.map_values(|e: VTableEntry| (e.index, e.orig_fn))
    }

    /// Each index is recorded once, and every recorded entry's address fits.
    pub open spec fn wf(&self) -> bool {
        &&& forall|a: int, b: int|
            0 <= a < b < self.spec_entries().len() ==> self.spec_entries()[a].0 != self.spec_entries()[b].0
        &&& forall|k: int|
            0 <= k < self.spec_entries().len() ==> slot_addr(self.spec_base(), #[trigger] self.spec_entries()[k].0) <= usize::MAX
    }

    /// Create a new vtable hooker
    pub fn new(vtable: usize) -> (r: VTable)
        ensures
            r.wf(),
            r.spec_base() == vtable,
            r.spec_entries() == Seq::<(usize, usize)>::empty(),
    {
        let r = VTable { base: vtable, entries: Vec::new() };
        assert(r.spec_entries() =~= Seq::<(usize, usize)>::empty());
        r
    }

    fn position(&self, index: usize) -> (r: Option<usize>)
        ensures
            r matches Some(k) ==> k < self.spec_entries().len() && self.spec_entries()[k as int].0 == index,
            r is None ==> forall|k: int| 0 <= k < self.spec_entries().len() ==> self.spec_entries()[k].0 != index,
    {
        let mut k: usize = 0;
        while k < self.entries.len()
            invariant
                k <= self.entries@.len(),
                forall|j: int| 0 <= j < k ==> self.spec_entries()[j].0 != index,
            decreases self.entries@.len() - k,
        {
            if self.entries[k].index == index {
                return Some(k);
            }
            k = k + 1;
        }
        None
    }

    /// Hook the vtable's entry `index` with a new function `dst`. `current` is
    /// the function the entry holds now; it is recorded as the original the
    /// first time the index is hooked. Returns the write to perform.
    pub fn hook(&mut self, index: usize, current: usize, dst: usize) -> (r: SlotWrite)
        requires
            old(self).wf(),
            slot_addr(old(self).spec_base(), index) <= usize::MAX,
        ensures
            final(self).wf(),
            final(self).spec_base() == old(self).spec_base(),
            r == (SlotWrite { addr: slot_addr(old(self).spec_base(), index) as usize, value: dst }),
            final(self).spec_entries() == hooked_entries(old(self).spec_entries(), index, current),
    {
        let addr = self.base + 8 * index;
        match self.position(index) {
            Some(_) => {},
            None => {
                let ghost before = self.spec_entries();
                self.entries.push(VTableEntry { orig_fn: current, index });
                assert(self.spec_entries() =~= before.push((index, current)));
            },
        }
        SlotWrite { addr, value: dst }
    }

    /// Unhook a hooked index: forgets it and returns the write that puts the
    /// original function back. If the index wasn't hooked, does nothing.
    pub fn unhook(&mut self, index: usize) -> (r: Option<SlotWrite>)
        requires
            old(self).wf(),
        ensures
            final(self).wf(),
            final(self).spec_base() == old(self).spec_base(),
            match find_entry(old(self).spec_entries(), index) {
                None => r is None && final(self).spec_entries() == old(self).spec_entries(),
                Some(k) => r == Some(
                    SlotWrite { addr: slot_addr(old(self).spec_base(), index) as usize, value: old(self).spec_entries()[k].1 },
                ) && final(self).spec_entries() == old(self).spec_entries().remove(k),
            },
    {
        match self.position(index) {
            None => None,
            Some(k) => {
                let ghost before = self.spec_entries();
                proof {
                    assert(before[k as int].0 == index);
                    let c = choose|j: int| 0 <= j < before.len() && before[j].0 == index;
                    assert(c == k);
                }
                let item = self.entries.remove(k);
                assert(self.spec_entries() =~= before.remove(k as int));
                let addr = self.base + 8 * item.index;
                Some(SlotWrite { addr, value: item.orig_fn })
            },
        }
    }

    /// Get the original vtable pointer for index
    pub fn get_original(&self, index: usize) -> (r: Option<usize>)
        requires
            self.wf(),
        ensures
            r == match find_entry(self.spec_entries(), index) {
                Some(k) => Some(self.spec_entries()[k].1),
                None => None::<usize>,
            },
    {
        match self.position(index) {
            Some(k) => {
                proof {
                    let c = choose|j: int| 0 <= j < self.spec_entries().len() && self.spec_entries()[j].0 == index;
                    assert(c == k);
                }
                Some(self.entries[k].orig_fn)
            },
            None => None,
        }
    }

    /// Reset all altered vtable entries: forgets them all and returns the
    /// writes that put every original function back, in the order the entries
    /// were first hooked.
    pub fn reset(&mut self) -> (r: Vec<SlotWrite>)
        requires
            old(self).wf(),
        ensures
            final(self).wf(),
            final(self).spec_base() == old(self).spec_base(),
            final(self).spec_entries() == Seq::<(usize, usize)>::empty(),
            r@ == reset_writes(old(self).spec_base(), old(self).spec_entries()),
    {
        let mut out: Vec<SlotWrite> = Vec::new();
        let mut k: usize = 0;
        let ghost es = self.spec_entries();
        while k < self.entries.len()
            invariant
                es == self.spec_entries(),
                self.wf(),
                k <= self.entries@.len(),
                out@ == reset_writes(self.spec_base(), es.take(k as int)),
            decreases self.entries@.len() - k,
        {
            let e = &self.entries[k];
            assert(es[k as int] == (e.index, e.orig_fn));
            assert(slot_addr(self.spec_base(), self.spec_entries()[k as int].0) <= usize::MAX);
            let addr = self.base + 8 * e.index;
            out.push(SlotWrite { addr, value: e.orig_fn });
            proof {
                assert(es.take(k + 1) =~= es.take(k as int).push(es[k as int]));
                lemma_reset_writes_push(self.spec_base(), es.take(k as int), es[k as int]);
            }
            k = k + 1;
        }
        assert(es.take(k as int) =~= es);
        self.entries = Vec::new();
        assert(self.spec_entries() =~= Seq::<(usize, usize)>::empty());
        out
    }
}

/// The writes that restore each recorded entry, in order.
pub open spec fn reset_writes(base: usize, entries: Seq<(usize, usize)>) -> Seq<SlotWrite> {
    entries.map_values(|e: (usize, usize)| SlotWrite { addr: slot_addr(base, e.0) as usize, value: e.1 })
}

pub(crate) proof fn lemma_reset_writes_push(base: usize, entries: Seq<(usize, usize)>, e: (usize, usize))
    ensures
        reset_writes(base, entries.push(e)) == reset_writes(base, entries).push(
            SlotWrite { addr: slot_addr(base, e.0) as usize, value: e.1 },
        ),
{
    assert(reset_writes(base, entries.push(e)) =~= reset_writes(base, entries).push(
        SlotWrite { addr: slot_addr(base, e.0) as usize, value: e.1 },
    ));
}

/// The recorded entries after hooking `index` while it holds `current`: the
/// first hook of an index records its original, later hooks keep it.
pub open spec fn hooked_entries(entries: Seq<(usize, usize)>, index: usize, current: usize) -> Seq<(usize, usize)> {
    if find_entry(entries, index) is Some {
        entries
    } else {
        entries.push((index, current))
    }
}

/// The original recorded for `index`, if it was hooked.
pub open spec fn original_of(entries: Seq<(usize, usize)>, index: usize) -> Option<usize> {
    match find_entry(entries, index) {
        Some(k) => Some(entries[k].1),
        None => None,
    }
}

/// Indices are recorded at most once.
pub open spec fn unique_indices(entries: Seq<(usize, usize)>) -> bool {
    forall|a: int, b: int| 0 <= a < b < entries.len() ==> entries[a].0 != entries[b].0
}

proof fn lemma_find_unique(entries: Seq<(usize, usize)>, k: int)
    requires
        unique_indices(entries),
        0 <= k < entries.len(),
    ensures
        find_entry(entries, entries[k].0) == Some(k),
{
    let c = choose|j: int| 0 <= j < entries.len() && entries[j].0 == entries[k].0;
    if c != k {
        if c < k {
            assert(entries[c].0 != entries[k].0);
        } else {
            assert(entries[k].0 != entries[c].0);
        }
    }
}

/// Hooking an index again keeps the original recorded by its first hook:
/// after two hooks, `get_original` gives the function the entry held before
/// the first one, not the first hook's target.
pub proof fn law_first_original_kept(entries: Seq<(usize, usize)>, index: usize, first: usize, later: usize)
    requires
        unique_indices(entries),
        find_entry(entries, index) is None,
    ensures
        original_of(hooked_entries(entries, index, first), index) == Some(first),
        original_of(hooked_entries(hooked_entries(entries, index, first), index, later), index) == Some(first),
{
    let e1 = entries.push((index, first));
    assert(e1[entries.len() as int].0 == index);
    assert(unique_indices(e1)) by {
        assert forall|a: int, b: int| 0 <= a < b < e1.len() implies e1[a].0 != e1[b].0 by {
            if b == entries.len() {
                assert(entries[a].0 != index);
            }
        }
    }
    lemma_find_unique(e1, entries.len() as int);
}

/// Hooking keeps the record of originals true: if every recorded original is
/// what the table held before being hooked, and a newly hooked index is
/// hooked with the function it holds, the records stay true.
pub proof fn law_hook_consistent(base: usize, entries: Seq<(usize, usize)>, orig: Map<int, usize>, index: usize, current: usize)
    requires
        consistent(base, entries, orig),
        find_entry(entries, index) is None ==> orig.dom().contains(slot_addr(base, index)) && current
            == orig[slot_addr(base, index)],
    ensures
        consistent(base, hooked_entries(entries, index, current), orig),
{
    let e1 = hooked_entries(entries, index, current);
    assert forall|k: int| 0 <= k < e1.len() implies #[trigger] orig.dom().contains(slot_addr(base, e1[k].0)) && e1[k].1
        == orig[slot_addr(base, e1[k].0)] by {
        if k < entries.len() {
            assert(e1[k] == entries[k]);
        }
    }
}

/// Unhooking an index puts back the function it held before it was first
/// hooked, forgets the index (`get_original` then gives `None`), and the
/// remaining records stay true.
pub proof fn law_unhook_restores(base: usize, entries: Seq<(usize, usize)>, orig: Map<int, usize>, m: Map<int, usize>, index: usize)
    requires
        unique_indices(entries),
        consistent(base, entries, orig),
        find_entry(entries, index) is Some,
        slot_addr(base, index) <= usize::MAX,
    ensures
        ({
            let k = find_entry(entries, index)->0;
            let w = SlotWrite { addr: slot_addr(base, index) as usize, value: entries[k].1 };
            &&& apply_write(m, w)[slot_addr(base, index)] == orig[slot_addr(base, index)]
            &&& consistent(base, entries.remove(k), orig)
            &&& find_entry(entries.remove(k), index) is None
            &&& original_of(entries.remove(k), index) is None
        }),
{
    let k = find_entry(entries, index)->0;
    assert(entries[k].0 == index);
    let r = entries.remove(k);
    assert forall|j: int| 0 <= j < r.len() implies r[j].0 != index by {
        if j < k {
            assert(r[j] == entries[j]);
        } else {
            assert(r[j] == entries[j + 1]);
        }
    }
    assert(entries[k].1 == orig[slot_addr(base, entries[k].0)]);
    let e1 = entries.remove(k);
    assert forall|j: int| 0 <= j < e1.len() implies #[trigger] orig.dom().contains(slot_addr(base, e1[j].0)) && e1[j].1
        == orig[slot_addr(base, e1[j].0)] by {
        if j < k {
            assert(e1[j] == entries[j]);
        } else {
            assert(e1[j] == entries[j + 1]);
        }
    }
}

/// Hooking an index that was not hooked and then unhooking it writes back
/// the function it held, and leaves the records as they were: the index has
/// no original any more. Unhooking an index that was never hooked writes
/// nothing and changes nothing.
pub proof fn law_hook_then_unhook(entries: Seq<(usize, usize)>, index: usize, current: usize, other: usize)
    requires
        unique_indices(entries),
        find_entry(entries, index) is None,
        find_entry(entries, other) is None,
    ensures
        ({
            let e1 = hooked_entries(entries, index, current);
            &&& find_entry(e1, index) matches Some(k) && e1[k].1 == current && e1.remove(k) == entries
            &&& original_of(entries, index) is None
        }),
        original_of(entries, other) is None,
{
    let e1 = entries.push((index, current));
    assert(unique_indices(e1)) by {
        assert forall|a: int, b: int| 0 <= a < b < e1.len() implies e1[a].0 != e1[b].0 by {
            if b == entries.len() {
                assert(entries[a].0 != index);
            }
        }
    }
    assert(e1[entries.len() as int].0 == index);
    lemma_find_unique(e1, entries.len() as int);
    assert(e1.remove(entries.len() as int) =~= entries);
}

proof fn lemma_untouched(m: Map<int, usize>, ws: Seq<SlotWrite>, a: int)
    requires
        forall|k: int| 0 <= k < ws.len() ==> (#[trigger] ws[k]).addr != a,
    ensures
        apply_writes(m, ws).dom().contains(a) == m.dom().contains(a),
        m.dom().contains(a) ==> apply_writes(m, ws)[a] == m[a],
    decreases ws.len(),
{
    if ws.len() > 0 {
        assert(ws[0].addr != a);
        assert forall|k: int| 0 <= k < ws.drop_first().len() implies (#[trigger] ws.drop_first()[k]).addr != a by {
            assert(ws.drop_first()[k] == ws[k + 1]);
        }
        lemma_untouched(apply_write(m, ws[0]), ws.drop_first(), a);
    }
}

proof fn lemma_last_write_wins(m: Map<int, usize>, ws: Seq<SlotWrite>, k: int)
    requires
        0 <= k < ws.len(),
        forall|a: int, b: int| 0 <= a < b < ws.len() ==> ws[a].addr != ws[b].addr,
    ensures
        apply_writes(m, ws)[ws[k].addr as int] == ws[k].value,
    decreases ws.len(),
{
    let rest = ws.drop_first();
    assert forall|a: int, b: int| 0 <= a < b < rest.len() implies rest[a].addr != rest[b].addr by {
        assert(rest[a] == ws[a + 1]);
        assert(rest[b] == ws[b + 1]);
    }
    if k == 0 {
        assert forall|j: int| 0 <= j < rest.len() implies (#[trigger] rest[j]).addr != ws[0].addr by {
            assert(rest[j] == ws[j + 1]);
        }
        lemma_untouched(apply_write(m, ws[0]), rest, ws[0].addr as int);
    } else {
        assert(rest[k - 1] == ws[k]);
        lemma_last_write_wins(apply_write(m, ws[0]), rest, k - 1);
    }
}

/// Resetting puts back, at every recorded entry, the function it held before
/// it was first hooked.
pub proof fn law_reset_restores(base: usize, entries: Seq<(usize, usize)>, orig: Map<int, usize>, m: Map<int, usize>)
    requires
        unique_indices(entries),
        consistent(base, entries, orig),
        forall|k: int| 0 <= k < entries.len() ==> slot_addr(base, #[trigger] entries[k].0) <= usize::MAX,
    ensures
        forall|k: int|
            0 <= k < entries.len() ==> apply_writes(m, reset_writes(base, entries))[slot_addr(base, #[trigger] entries[k].0)]
                == orig[slot_addr(base, entries[k].0)],
{
    let ws = reset_writes(base, entries);
    assert forall|a: int, b: int| 0 <= a < b < ws.len() implies ws[a].addr != ws[b].addr by {
        assert(entries[a].0 != entries[b].0);
        assert(slot_addr(base, entries[a].0) <= usize::MAX);
        assert(slot_addr(base, entries[b].0) <= usize::MAX);
    }
    assert forall|k: int| 0 <= k < entries.len() implies apply_writes(m, ws)[slot_addr(base, #[trigger] entries[k].0)]
        == orig[slot_addr(base, entries[k].0)] by {
        assert(slot_addr(base, entries[k].0) <= usize::MAX);
        assert(ws[k].addr as int == slot_addr(base, entries[k].0));
        assert(entries[k].1 == orig[slot_addr(base, entries[k].0)]);
        lemma_last_write_wins(m, ws, k);
    }
}

/// Resetting forgets every record, so a second reset writes nothing and no
/// index has an original any more.
pub proof fn law_reset_twice(base: usize, index: usize)
    ensures
        reset_writes(base, Seq::<(usize, usize)>::empty()) == Seq::<SlotWrite>::empty(),
        original_of(Seq::<(usize, usize)>::empty(), index) is None,
{
    assert(reset_writes(base, Seq::<(usize, usize)>::empty()) =~= Seq::<SlotWrite>::empty());
}

/// Resetting writes only the recorded entries: every other address keeps
/// what it held.
pub proof fn law_reset_leaves_others(base: usize, entries: Seq<(usize, usize)>, m: Map<int, usize>, a: int)
    requires
        forall|k: int| 0 <= k < entries.len() ==> slot_addr(base, #[trigger] entries[k].0) <= usize::MAX,
        forall|k: int| 0 <= k < entries.len() ==> slot_addr(base, #[trigger] entries[k].0) != a,
    ensures
        apply_writes(m, reset_writes(base, entries)).dom().contains(a) == m.dom().contains(a),
        m.dom().contains(a) ==> apply_writes(m, reset_writes(base, entries))[a] == m[a],
{
    let ws = reset_writes(base, entries);
    assert forall|k: int| 0 <= k < ws.len() implies (#[trigger] ws[k]).addr != a by {
        assert(slot_addr(base, entries[k].0) <= usize::MAX);
        assert(ws[k].addr as int == slot_addr(base, entries[k].0));
    }
    lemma_untouched(m, ws, a);
}

} // verus!
