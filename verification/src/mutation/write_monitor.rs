//! Watching writes alone: the pages of a watched object become read-only,
//! and the guard gives them back the protection they had.

use vstd::prelude::*;

use super::monitor::{first_with_pages, without_pages, MonitorEntry, MonitorRegistry, Released};
use super::prot::Prot;

verus! {

/// Undoes a write monitor when the owner lets it go: the watched pages get
/// back the protection they had before.
#[derive(Debug)]
pub struct MonitorGuard {
    /// the address that was passed in to be watched
    pub base: usize,
    /// first address of the watched pages
    pub aligned_base: usize,
    /// length of the watched pages
    pub aligned_size: usize,
    /// the protection the pages had before watching began
    pub old_prot: Prot,
}

impl MonitorGuard {
    /// The guard of a watched entry whose pages had `old_prot` before they
    /// were made read-only.
    pub fn new(entry: &MonitorEntry, old_prot: Prot) -> (r: MonitorGuard)
        ensures
            r.base == entry.base,
            r.aligned_base == entry.aligned_base,
            r.aligned_size == entry.aligned_size,
            r.old_prot == old_prot,
    {
        MonitorGuard {
            base: entry.base,
            aligned_base: entry.aligned_base,
            aligned_size: entry.aligned_size,
            old_prot,
        }
    }

    /// Undoes the monitoring: the watched pages leave the registry, and the
    /// result gives them back the protection they had, with the entry that
    /// watched them.
    pub fn release(&self, registry: &mut MonitorRegistry) -> (r: Released)
        ensures
            final(registry).spec_entries() == without_pages(old(registry).spec_entries(), self.aligned_base, self.aligned_size),
            r == (Released {
                aligned_base: self.aligned_base,
                aligned_size: self.aligned_size,
                prot: self.old_prot,
                entry: first_with_pages(old(registry).spec_entries(), self.aligned_base, self.aligned_size),
            }),
    {
        let entry = registry.remove(self.aligned_base, self.aligned_size);
        Released { aligned_base: self.aligned_base, aligned_size: self.aligned_size, prot: self.old_prot, entry }
    }
}

} // verus!
