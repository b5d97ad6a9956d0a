//! Decisions for monitoring reads and writes of memory ranges: the pages a
//! watched object spans, the registry of watched pages, and what the
//! exception handler does for each exception it is shown.

use vstd::prelude::*;

use super::prot::Prot;
use vstd::arithmetic::div_mod::{lemma_fundamental_div_mod, lemma_mod_multiples_basic, lemma_mod_pos_bound};
use vstd::arithmetic::mul::{lemma_mul_is_commutative, lemma_mul_is_distributive_sub, lemma_mul_nonnegative};
use crate::mem::memory::MemError;
use crate::search::{first_where, lemma_first_where};

verus! {

/// `STATUS_ACCESS_VIOLATION`
pub const STATUS_ACCESS_VIOLATION: u32 = 0xC000_0005;
/// `STATUS_GUARD_PAGE_VIOLATION`
pub const STATUS_GUARD_PAGE_VIOLATION: u32 = 0x8000_0001;
/// `STATUS_SINGLE_STEP`
pub const STATUS_SINGLE_STEP: u32 = 0x8000_0004;
/// The trap flag of the flags register: the processor stops after the next instruction.
pub const TRAP_FLAG: u32 = 0x100;

/// What kind of access is watched
#[derive(Debug, Clone, Copy, PartialEq, Eq, Structural)]
pub enum MonitorType {
    /// reads, by guard pages
    Read,
    /// writes, by read-only pages
    Write,
}

impl MonitorType {
    /// The protection that starts watching: read-write guard pages for reads
    /// (`guard` is true), read-only pages for writes.
    pub fn start_protection(&self) -> (r: (Prot, bool))
        ensures
            *self == MonitorType::Read ==> r == (Prot::RW, true),
            *self == MonitorType::Write ==> r == (Prot::R, false),
    {
        match self {
            MonitorType::Read => (Prot::RW, true),
            MonitorType::Write => (Prot::R, false),
        }
    }

    /// The protection that stops watching.
    pub fn stop_protection(&self) -> (r: Prot)
        ensures
            r == Prot::RW,
    {
        Prot::RW
    }
}

/// `x` rounded down to a multiple of `page`.
pub open spec fn round_down(x: nat, page: nat) -> nat {
    (x - x % page) as nat
}

/// The whole pages spanning `size` bytes at `base`: their first address and
/// their total length.
pub open spec fn page_span(base: nat, size: nat, page: nat) -> (nat, nat) {
    let start = round_down(base, page);
    let end = round_down((base + size - 1 + page) as nat, page);
    (start, (end - start) as nat)
}

/// The inputs on which computing the page span overflows: the last byte
/// plus a page passes the end of the address space, or an empty object at
/// address 0.
pub open spec fn page_span_overflows(base: nat, size: nat, page: nat) -> bool {
    base + size - 1 + page > usize::MAX || base + size == 0
}

/// A watched range of memory
#[derive(Debug, Clone, Copy, PartialEq, Eq, Structural)]
pub struct MonitorEntry {
    /// start of the watched pages
    pub aligned_base: usize,
    /// length of the watched pages
    pub aligned_size: usize,
    /// start of the watched object
    pub base: usize,
    /// length of the watched object
    pub size: usize,
    /// the kind of access watched
    pub ty: MonitorType,
    /// identifies the callback of this entry
    pub id: u64,
}

impl MonitorEntry {
    /// The watched pages contain `addr`.
    pub open spec fn pages_contain(&self, addr: int) -> bool {
        self.aligned_base <= addr < self.aligned_base + self.aligned_size
    }

    /// The watched object contains `addr`.
    pub open spec fn object_contains(&self, addr: int) -> bool {
        self.base <= addr < self.base + self.size
    }
}

/// A watched entry's pages hold exactly the addresses from their first
/// address up to, not including, their end, and its object exactly the
/// addresses from its base up to, not including, `size` bytes after it: a
/// fault at the object's base is inside it.
pub proof fn law_entry_spans(e: MonitorEntry, addr: int)
    ensures
        e.pages_contain(addr) <==> (e.aligned_base <= addr && addr < e.aligned_base + e.aligned_size),
        e.object_contains(addr) <==> (e.base <= addr && addr < e.base + e.size),
        e.size > 0 ==> e.object_contains(e.base as int),
{
}

/// A write to any byte of a planned watch's object, its first included,
/// lies in the watched pages and inside the object, so its callback is due.
pub proof fn law_planned_object_notifies(base: usize, size: usize, ty: MonitorType, page_size: usize, id: u64, addr: int)
    requires
        page_size > 0,
        size > 0,
        !page_span_overflows(base as nat, size as nat, page_size as nat),
        base <= addr < base + size,
    ensures
        ({
            let (start, len) = page_span(base as nat, size as nat, page_size as nat);
            let e = MonitorEntry { aligned_base: start as usize, aligned_size: len as usize, base, size, ty, id };
            e.pages_contain(addr) && e.object_contains(addr)
        }),
{
    law_page_span_covers(base as nat, size as nat, page_size as nat);
}

/// The pages spanning a `size`-byte object at `base`, for a power-of-two
/// `page_size`: returns their first address and total length.
pub fn aligned_range(base: usize, size: usize, page_size: usize) -> (r: (usize, usize))
    requires
        page_size > 0,
        !page_span_overflows(base as nat, size as nat, page_size as nat),
    ensures
        (r.0 as nat, r.1 as nat) == page_span(base as nat, size as nat, page_size as nat),
{
    proof {
        lemma_mod_pos_bound(base as int, page_size as int);
        lemma_fundamental_div_mod(base as int, page_size as int);
        lemma_mul_nonnegative(page_size as int, base as int / page_size as int);
    }
    let start = base - base % page_size;
    let last = base + size - 1 + page_size;
    proof {
        lemma_mod_pos_bound(last as int, page_size as int);
        lemma_fundamental_div_mod(last as int, page_size as int);
        lemma_mul_nonnegative(page_size as int, last as int / page_size as int);
    }
    let end = last - last % page_size;
    (start, end - start)
}

/// The pages a monitored object spans start on a page, cover every byte of
/// the object, and are whole pages.
pub proof fn law_page_span_covers(base: nat, size: nat, page: nat)
    requires
        page > 0,
        size > 0,
    ensures
        ({
            let (start, len) = page_span(base, size, page);
            &&& start <= base
            &&& start % page == 0
            &&& base + size <= start + len
            &&& len % page == 0
        }),
{
    let p = page as int;
    let last = base + size - 1 + page;
    let qb = base as int / p;
    let qe = last / p;
    lemma_fundamental_div_mod(base as int, p);
    lemma_fundamental_div_mod(last, p);
    lemma_mod_pos_bound(base as int, p);
    lemma_mod_pos_bound(last, p);
    lemma_mul_is_commutative(p, qb);
    lemma_mul_is_commutative(p, qe);
    lemma_mul_is_commutative(p, qe - qb);
    lemma_mul_is_distributive_sub(p, qe, qb);
    lemma_mod_multiples_basic(qb, p);
    lemma_mod_multiples_basic(qe, p);
    lemma_mod_multiples_basic(qe - qb, p);
    let start = round_down(base, page);
    let end = round_down(last as nat, page);
    assert(start == p * qb);
    assert(end == p * qe);
    assert(end - start == p * (qe - qb));
}

/// `e` watches exactly the pages `aligned_base..aligned_base + aligned_size`.
pub open spec fn same_pages(e: MonitorEntry, aligned_base: usize, aligned_size: usize) -> bool {
    e.aligned_base == aligned_base && e.aligned_size == aligned_size
}

/// The entries, in order, but for those watching exactly the given pages.
pub open spec fn without_pages(s: Seq<MonitorEntry>, aligned_base: usize, aligned_size: usize) -> Seq<MonitorEntry>
    decreases s.len(),
{
    if s.len() == 0 {
        s
    } else {
        let rest = without_pages(s.drop_last(), aligned_base, aligned_size);
        if same_pages(s.last(), aligned_base, aligned_size) {
            rest
        } else {
            rest.push(s.last())
        }
    }
}

/// The first of the entries watching exactly the given pages, if any.
pub open spec fn first_with_pages(s: Seq<MonitorEntry>, aligned_base: usize, aligned_size: usize) -> Option<MonitorEntry>
    decreases s.len(),
{
    if s.len() == 0 {
        None
    } else {
        match first_with_pages(s.drop_last(), aligned_base, aligned_size) {
            Some(e) => Some(e),
            None => if same_pages(s.last(), aligned_base, aligned_size) {
                Some(s.last())
            } else {
                None
            },
        }
    }
}

/// Each entry left after removing some pages is one of the entries before,
/// and none of them watches those pages.
proof fn lemma_without_pages(s: Seq<MonitorEntry>, b: usize, len: usize)
    ensures
        forall|k: int|
            0 <= k < without_pages(s, b, len).len() ==> !same_pages(#[trigger] without_pages(s, b, len)[k], b, len)
                && exists|j: int| 0 <= j < s.len() && s[j] == without_pages(s, b, len)[k],
    decreases s.len(),
{
    if s.len() > 0 {
        let d = s.drop_last();
        lemma_without_pages(d, b, len);
        assert forall|k: int| 0 <= k < without_pages(s, b, len).len() implies !same_pages(
            #[trigger] without_pages(s, b, len)[k],
            b,
            len,
        ) && exists|j: int| 0 <= j < s.len() && s[j] == without_pages(s, b, len)[k] by {
            let w = without_pages(s, b, len);
            if k < without_pages(d, b, len).len() {
                assert(w[k] == without_pages(d, b, len)[k]);
                let j = choose|j: int| 0 <= j < d.len() && d[j] == without_pages(d, b, len)[k];
                assert(s[j] == w[k]);
            } else {
                assert(w[k] == s.last());
                assert(s[s.len() - 1] == w[k]);
            }
        }
    }
}

/// Releasing a watch frees its pages for watching again: an address that no
/// other watch covered is covered by no watch once the entry is removed, so
/// planning a watch of the same object is accepted again.
pub proof fn law_release_frees_pages(entries: Seq<MonitorEntry>, entry: MonitorEntry, addr: int)
    requires
        forall|k: int| 0 <= k < entries.len() ==> !(#[trigger] entries[k]).pages_contain(addr),
    ensures
        forall|k: int|
            0 <= k < without_pages(entries.push(entry), entry.aligned_base, entry.aligned_size).len()
                ==> !(#[trigger] without_pages(entries.push(entry), entry.aligned_base, entry.aligned_size)[k]).pages_contain(addr),
{
    let s = entries.push(entry);
    let w = without_pages(s, entry.aligned_base, entry.aligned_size);
    lemma_without_pages(s, entry.aligned_base, entry.aligned_size);
    assert forall|k: int| 0 <= k < w.len() implies !(#[trigger] w[k]).pages_contain(addr) by {
        let j = choose|j: int| 0 <= j < s.len() && s[j] == w[k];
        if j < entries.len() {
            assert(s[j] == entries[j]);
        } else {
            assert(s[j] == entry);
        }
    }
}

/// Watching an object again after its watch was released is accepted:
/// where no other watch covered the first of its pages, planning it gives
/// the same pages again once the released entry is removed.
pub proof fn law_rewatch_after_release(entries: Seq<MonitorEntry>, base: usize, size: usize, ty: MonitorType, page_size: usize, id: u64)
    requires
        page_size > 0,
        !page_span_overflows(base as nat, size as nat, page_size as nat),
        forall|k: int|
            0 <= k < entries.len() ==> !(#[trigger] entries[k]).pages_contain(page_span(base as nat, size as nat, page_size as nat).0 as int),
    ensures
        ({
            let (start, len) = page_span(base as nat, size as nat, page_size as nat);
            let e = MonitorEntry { aligned_base: start as usize, aligned_size: len as usize, base, size, ty, id };
            let after = without_pages(entries.push(e), e.aligned_base, e.aligned_size);
            !(exists|k: int| 0 <= k < after.len() && (#[trigger] after[k]).pages_contain(start as int))
        }),
{
    let (start, len) = page_span(base as nat, size as nat, page_size as nat);
    let e = MonitorEntry { aligned_base: start as usize, aligned_size: len as usize, base, size, ty, id };
    law_release_frees_pages(entries, e, start as int);
}

/// Registry of watched pages
#[derive(Debug)]
pub struct MonitorRegistry {
    entries: Vec<MonitorEntry>,
}

impl MonitorRegistry {
    /// The watched entries, in the order they were added.
    pub closed spec fn spec_entries(&self) -> Seq<MonitorEntry> {
        self.entries@
    }

    /// An empty registry.
    pub fn new() -> (r: MonitorRegistry)
        ensures
            r.spec_entries() == Seq::<MonitorEntry>::empty(),
    {
        MonitorRegistry { entries: Vec::new() }
    }

    /// Whether any watched pages contain `addr`.
    pub fn overlaps(&self, addr: usize) -> (r: bool)
        ensures
            r == exists|k: int| 0 <= k < self.spec_entries().len() && (#[trigger] self.spec_entries()[k]).pages_contain(addr as int),
    {
        self.overlapping(addr).is_some()
    }

    /// The first watched entry whose pages contain `addr`.
    pub fn overlapping(&self, addr: usize) -> (r: Option<MonitorEntry>)
        ensures
            r matches Some(e) ==> exists|k: int|
                0 <= k < self.spec_entries().len() && self.spec_entries()[k] == e && e.pages_contain(addr as int)
                    && forall|j: int| 0 <= j < k ==> !(#[trigger] self.spec_entries()[j]).pages_contain(addr as int),
            r is None ==> forall|k: int|
                0 <= k < self.spec_entries().len() ==> !(#[trigger] self.spec_entries()[k]).pages_contain(addr as int),
    {
        let mut k: usize = 0;
        while k < self.entries.len()
            invariant
                k <= self.entries@.len(),
                forall|j: int| 0 <= j < k ==> !(#[trigger] self.entries@[j]).pages_contain(addr as int),
            decreases self.entries@.len() - k,
        {
            let e = self.entries[k];
            if e.aligned_base <= addr && addr - e.aligned_base < e.aligned_size {
                assert(self.spec_entries()[k as int] == e);
                assert(e.pages_contain(addr as int));
                return Some(e);
            }
            k = k + 1;
        }
        None
    }

    /// Plans watching a `size`-byte object at `base`: computes the pages it
    /// spans and refuses them if their first address is already watched.
    /// The entry is added with [`MonitorRegistry::insert`] once the pages are protected.
    pub fn plan(&self, base: usize, size: usize, ty: MonitorType, page_size: usize, id: u64) -> (r: Result<MonitorEntry, MemError>)
        requires
            page_size > 0,
            !page_span_overflows(base as nat, size as nat, page_size as nat),
        ensures
            ({
                let (start, len) = page_span(base as nat, size as nat, page_size as nat);
                let taken = exists|k: int| 0 <= k < self.spec_entries().len() && (#[trigger] self.spec_entries()[k]).pages_contain(start as int);
                &&& taken ==> (r matches Err(MemError::Overlaps))
                &&& !taken ==> r == Ok::<MonitorEntry, MemError>(
                    MonitorEntry { aligned_base: start as usize, aligned_size: len as usize, base, size, ty, id },
                )
            }),
    {
        let (aligned_base, aligned_size) = aligned_range(base, size, page_size);
        if self.overlaps(aligned_base) {
            return Err(MemError::Overlaps);
        }
        Ok(MonitorEntry { aligned_base, aligned_size, base, size, ty, id })
    }

    /// Adds a watched entry.
    pub fn insert(&mut self, entry: MonitorEntry)
        ensures
            final(self).spec_entries() == old(self).spec_entries().push(entry),
    {
        self.entries.push(entry);
    }

    /// Stops watching the pages `aligned_base..aligned_base + aligned_size`:
    /// removes every entry for exactly those pages, and returns the first of
    /// them.
    pub fn remove(&mut self, aligned_base: usize, aligned_size: usize) -> (r: Option<MonitorEntry>)
        ensures
            final(self).spec_entries() == without_pages(old(self).spec_entries(), aligned_base, aligned_size),
            r == first_with_pages(old(self).spec_entries(), aligned_base, aligned_size),
    {
        let ghost start = self.entries@;
        let mut kept: Vec<MonitorEntry> = Vec::new();
        let mut removed: Option<MonitorEntry> = None;
        let mut k: usize = 0;
        while k < self.entries.len()
            invariant
                self.entries@ == start,
                k <= start.len(),
                kept@ == without_pages(start.take(k as int), aligned_base, aligned_size),
                removed == first_with_pages(start.take(k as int), aligned_base, aligned_size),
            decreases start.len() - k,
        {
            let e = self.entries[k];
            proof {
                assert(start.take(k + 1).drop_last() =~= start.take(k as int));
                assert(start.take(k + 1).last() == e);
            }
            if e.aligned_base == aligned_base && e.aligned_size == aligned_size {
                if removed.is_none() {
                    removed = Some(e);
                }
            } else {
                kept.push(e);
            }
            k = k + 1;
        }
        assert(start.take(k as int) =~= start);
        self.entries = kept;
        removed
    }
}

/// What the handler does about a write fault: stop watching `entry`'s pages,
/// then (if that worked) call back when `notify` holds, let the faulting
/// instruction run and stop right after it.
#[derive(Debug, Clone, Copy, PartialEq, Eq)]
pub struct WriteFault {
    /// the watched entry whose pages faulted
    pub entry: MonitorEntry,
    /// the fault lies inside the watched object, so its callback runs
    pub notify: bool,
}

/// The write fault at `addr`, if it lies in watched pages: the first entry
/// whose pages contain it, and whether it hit the watched object.
pub fn write_fault(registry: &MonitorRegistry, addr: usize) -> (r: Option<WriteFault>)
    ensures
        r matches Some(w) ==> registry.spec_entries().contains(w.entry) && w.entry.pages_contain(addr as int)
            && w.notify == w.entry.object_contains(addr as int),
        r is None ==> forall|k: int|
            0 <= k < registry.spec_entries().len() ==> !(#[trigger] registry.spec_entries()[k]).pages_contain(addr as int),
{
    match registry.overlapping(addr) {
        Some(entry) => {
            let notify = entry.base <= addr && addr - entry.base < entry.size;
            Some(WriteFault { entry, notify })
        },
        None => None,
    }
}

/// The kinds of exception the handler is shown
#[derive(Debug, Clone, Copy, PartialEq, Eq)]
pub enum ExceptionKind {
    /// an access violation: writing when `write`, at `addr`
    AccessViolation { write: bool, addr: usize },
    /// a guard page was touched at `addr`
    GuardPage { addr: usize },
    /// the processor stopped after one instruction
    SingleStep,
    /// anything else
    Other,
}

/// Sorts an exception by its code and first two information words.
pub fn classify_exception(code: u32, info0: usize, info1: usize) -> (r: ExceptionKind)
    ensures
        code == STATUS_ACCESS_VIOLATION ==> r == (ExceptionKind::AccessViolation { write: info0 == 1, addr: info1 }),
        code == STATUS_GUARD_PAGE_VIOLATION ==> r == (ExceptionKind::GuardPage { addr: info1 }),
        code == STATUS_SINGLE_STEP ==> r == ExceptionKind::SingleStep,
        code != STATUS_ACCESS_VIOLATION && code != STATUS_GUARD_PAGE_VIOLATION && code != STATUS_SINGLE_STEP
            ==> r == ExceptionKind::Other,
{
    if code == STATUS_ACCESS_VIOLATION {
        ExceptionKind::AccessViolation { write: info0 == 1, addr: info1 }
    } else if code == STATUS_GUARD_PAGE_VIOLATION {
        ExceptionKind::GuardPage { addr: info1 }
    } else if code == STATUS_SINGLE_STEP {
        ExceptionKind::SingleStep
    } else {
        ExceptionKind::Other
    }
}

/// The flags register with the trap flag set, so the processor stops after
/// the next instruction.
pub fn set_trap_flag(eflags: u32) -> (r: u32)
    ensures
        r == eflags | TRAP_FLAG,
{
    eflags | TRAP_FLAG
}

/// A thread's pending single step: the entry to watch again after the
/// faulting instruction, and, for reads, the object's bytes as the fault saw them.
#[derive(Debug)]
pub struct StepState {
    queued: Option<MonitorEntry>,
    snapshot: Vec<u8>,
}

impl StepState {
    /// The entry waiting for its single step.
    pub closed spec fn spec_queued(&self) -> Option<MonitorEntry> {
        self.queued
    }

    /// The recorded bytes of a watched object.
    pub closed spec fn spec_snapshot(&self) -> Seq<u8> {
        self.snapshot@
    }

    /// Nothing pending.
    pub fn new() -> (r: StepState)
        ensures
            r.spec_queued() is None,
            r.spec_snapshot() == Seq::<u8>::empty(),
    {
        StepState { queued: None, snapshot: Vec::new() }
    }

    /// After a write fault whose pages were unprotected: the entry waits for
    /// the single step.
    pub fn queue(&mut self, entry: MonitorEntry)
        ensures
            final(self).spec_queued() == Some(entry),
            final(self).spec_snapshot() == old(self).spec_snapshot(),
    {
        self.queued = Some(entry);
    }

    /// After a guard page was touched in `entry`'s pages: when the touch hit
    /// the watched object, its bytes `data` are appended to the record; the
    /// entry waits for the single step.
    pub fn on_guard_page(&mut self, entry: MonitorEntry, data: Option<&[u8]>)
        ensures
            final(self).spec_queued() == Some(entry),
            final(self).spec_snapshot() == match data {
                Some(d) => old(self).spec_snapshot() + d@,
                None => old(self).spec_snapshot(),
            },
    {
        match data {
            Some(d) => {
                let mut k: usize = 0;
                let ghost start = self.snapshot@;
                while k < d.len()
                    invariant
                        k <= d@.len(),
                        self.snapshot@ == start + d@.take(k as int),
                    decreases d@.len() - k,
                {
                    self.snapshot.push(d[k]);
                    k = k + 1;
                    assert(self.snapshot@ =~= start + d@.take(k as int));
                }
                assert(d@.take(k as int) =~= d@);
            },
            None => {},
        }
        self.queued = Some(entry);
    }

    /// How many bytes of watched objects are recorded.
    pub fn snapshot_len(&self) -> (r: usize)
        ensures
            r == self.spec_snapshot().len(),
    {
        self.snapshot.len()
    }

    /// At the single step: takes the entry waiting for it, if any; its pages
    /// are to be watched again.
    pub fn take_queued(&mut self) -> (r: Option<MonitorEntry>)
        ensures
            r == old(self).spec_queued(),
            final(self).spec_queued() is None,
            final(self).spec_snapshot() == old(self).spec_snapshot(),
    {
        let q = self.queued;
        self.queued = None;
        q
    }

    /// At the single step after a watched read: whether the callback runs,
    /// which it does when the object's bytes `current` equal the recorded
    /// ones (the first `current.len()` of them). The record is cleared.
    pub fn finish_read(&mut self, current: &[u8]) -> (r: bool)
        requires
            current@.len() <= old(self).spec_snapshot().len(),
        ensures
            r == (current@ == old(self).spec_snapshot().take(current@.len() as int)),
            final(self).spec_snapshot() == Seq::<u8>::empty(),
            final(self).spec_queued() == old(self).spec_queued(),
    {
        let mut same = true;
        let mut k: usize = 0;
        while k < current.len()
            invariant
                k <= current@.len(),
                current@.len() <= self.snapshot@.len(),
                same == (forall|j: int| 0 <= j < k ==> current@[j] == self.snapshot@[j]),
            decreases current@.len() - k,
        {
            if current[k] != self.snapshot[k] {
                same = false;
            }
            k = k + 1;
        }
        let ghost target = self.snapshot@.take(current@.len() as int);
        assert(same ==> current@ =~= target);
        assert(current@ == target ==> same) by {
            if current@ == target {
                assert forall|j: int| 0 <= j < k implies current@[j] == self.snapshot@[j] by {
                    assert(target[j] == self.snapshot@[j]);
                }
            }
        }
        self.snapshot = Vec::new();
        same
    }
}

/// What releasing a monitor does: the pages to give back, the protection
/// they get, and the entry that was removed from the registry.
#[derive(Debug, Clone, Copy, PartialEq, Eq)]
pub struct Released {
    /// first address of the watched pages
    pub aligned_base: usize,
    /// length of the watched pages
    pub aligned_size: usize,
    /// the protection the pages get back
    pub prot: Prot,
    /// the entry that watched the pages, if it was still registered
    pub entry: Option<MonitorEntry>,
}

/// Undoes a monitor when the owner lets it go: the watched pages go back
/// to read-write.
#[derive(Debug)]
pub struct MonitorGuard {
    /// the address that was passed in to be watched
    pub base: usize,
    /// first address of the watched pages
    pub aligned_base: usize,
    /// length of the watched pages
    pub aligned_size: usize,
    /// the kind of access watched
    pub ty: MonitorType,
}

impl MonitorGuard {
    /// The guard of a watched entry.
    pub fn new(entry: &MonitorEntry) -> (r: MonitorGuard)
        ensures
            r.base == entry.base,
            r.aligned_base == entry.aligned_base,
            r.aligned_size == entry.aligned_size,
            r.ty == entry.ty,
    {
        MonitorGuard {
            base: entry.base,
            aligned_base: entry.aligned_base,
            aligned_size: entry.aligned_size,
            ty: entry.ty,
        }
    }

    /// Undoes the monitoring: the watched pages leave the registry, and the
    /// result gives them back read-write, with the entry that watched them.
    pub fn release(&self, registry: &mut MonitorRegistry) -> (r: Released)
        ensures
            final(registry).spec_entries() == without_pages(old(registry).spec_entries(), self.aligned_base, self.aligned_size),
            r == (Released {
                aligned_base: self.aligned_base,
                aligned_size: self.aligned_size,
                prot: Prot::RW,
                entry: first_with_pages(old(registry).spec_entries(), self.aligned_base, self.aligned_size),
            }),
    {
        let entry = registry.remove(self.aligned_base, self.aligned_size);
        Released { aligned_base: self.aligned_base, aligned_size: self.aligned_size, prot: self.ty.stop_protection(), entry }
    }
}

/// The condition that an entry's pages contain `addr`.
pub open spec fn watches(addr: int) -> spec_fn(MonitorEntry) -> bool {
    |e: MonitorEntry| e.pages_contain(addr)
}

/// The first of `entries` whose pages contain `addr`, if any.
pub open spec fn first_watching(entries: Seq<MonitorEntry>, addr: int) -> Option<MonitorEntry> {
    match first_where(entries, watches(addr)) {
        Some(i) => Some(entries[i]),
        None => None,
    }
}

/// What the exception handler does about one exception
#[derive(Debug, Clone, Copy, PartialEq, Eq)]
pub enum HandlerAction {
    /// not one of ours: hand it to the handler that was installed before
    PassOn,
    /// a write to watched pages: stop watching them; if that works, call
    /// back when the fault hit the watched object, queue the entry, and
    /// let the write run with the trap flag set
    Write(WriteFault),
    /// a watched guard page was touched: record the watched object's bytes
    /// when `inside`, queue the entry, and let the access run with the trap
    /// flag set
    Guard {
        /// the entry whose pages were touched
        entry: MonitorEntry,
        /// the access lies inside the watched object
        inside: bool,
    },
    /// the instruction after a fault has run: finish the queued entry and
    /// watch its pages again
    Step,
}

/// Decides what the exception handler does with an exception of `code`
/// whose first two information words are `info0` and `info1`, given the
/// watched entries.
pub fn exception_action(registry: &MonitorRegistry, code: u32, info0: usize, info1: usize) -> (r: HandlerAction)
    ensures
        ({
            let hit = first_watching(registry.spec_entries(), info1 as int);
            if code == STATUS_ACCESS_VIOLATION && info0 == 1 {
                match hit {
                    Some(e) => r == HandlerAction::Write(WriteFault { entry: e, notify: e.object_contains(info1 as int) }),
                    None => r == HandlerAction::PassOn,
                }
            } else if code == STATUS_GUARD_PAGE_VIOLATION {
                match hit {
                    Some(e) => r == (HandlerAction::Guard { entry: e, inside: e.object_contains(info1 as int) }),
                    None => r == HandlerAction::PassOn,
                }
            } else if code == STATUS_SINGLE_STEP {
                r == HandlerAction::Step
            } else {
                r == HandlerAction::PassOn
            }
        }),
{
    let kind = classify_exception(code, info0, info1);
    let addr = info1;
    let watching = match kind {
        ExceptionKind::AccessViolation { write: true, addr: _ } => true,
        ExceptionKind::GuardPage { addr: _ } => true,
        _ => false,
    };
    if !watching {
        return match kind {
            ExceptionKind::SingleStep => HandlerAction::Step,
            _ => HandlerAction::PassOn,
        };
    }
    let found = registry.overlapping(addr);
    proof {
        let es = registry.spec_entries();
        match found {
            Some(e) => {
                let k = choose|k: int|
                    0 <= k < es.len() && es[k] == e && e.pages_contain(addr as int)
                        && forall|j: int| 0 <= j < k ==> !(#[trigger] es[j]).pages_contain(addr as int);
                lemma_first_where(es, watches(addr as int), k);
            },
            None => {
                assert(!(exists|i: int| 0 <= i < es.len() && (watches(addr as int))(es[i])));
            },
        }
    }
    match found {
        Some(entry) => {
            let inside = entry.base <= addr && addr - entry.base < entry.size;
            match kind {
                ExceptionKind::GuardPage { addr: _ } => HandlerAction::Guard { entry, inside },
                _ => HandlerAction::Write(WriteFault { entry, notify: inside }),
            }
        },
        None => HandlerAction::PassOn,
    }
}

} // verus!
