//! The boot handoff table: the structure handed to the kernel at control
//! transfer.
//!
//! The table starts with all four slots empty and is filled exactly once,
//! right after boot services are exited, with the post-exit runtime service
//! handle and the memory-map buffer's base address, length and capacity.
//! The surrounding program allocates it at a stable address before the exit
//! call and passes its address to the kernel entry function.

use vstd::prelude::*;

verus! {

/// The handoff table. Handles and buffer bases are carried as plain
/// addresses; the surrounding program converts the firmware's values.
pub struct EBootTable {
    pub sys_table: Option<usize>,
    pub mmap_buf: Option<usize>,
    pub mmap_len: Option<usize>,
    pub mmap_cap: Option<usize>,
}

impl EBootTable {
    /// All four slots are empty: the table has not been filled yet.
    pub open spec fn is_empty(self) -> bool {
        &&& self.sys_table is None
        &&& self.mmap_buf is None
        &&& self.mmap_len is None
        &&& self.mmap_cap is None
    }

    /// All four slots are filled: the table is ready to hand to the kernel.
    pub open spec fn is_filled(self) -> bool {
        &&& self.sys_table is Some
        &&& self.mmap_buf is Some
        &&& self.mmap_len is Some
        &&& self.mmap_cap is Some
    }

    /// A table is either still untouched or fully populated: there is no
    /// state in which only some of the slots are filled.
    pub open spec fn wf(self) -> bool {
        self.is_empty() || self.is_filled()
    }

    /// A fresh table with every slot empty.
    pub fn new() -> (r: EBootTable)
        ensures
            r.is_empty(),
            r.wf(),
    {
        EBootTable { sys_table: None, mmap_buf: None, mmap_len: None, mmap_cap: None }
    }

    /// Fills all four slots at once from the post-exit runtime service
    /// handle and the memory-map buffer's raw parts. A table is filled at
    /// most once: `update` requires the slots to still be empty.
    pub fn update(&mut self, st_addr: usize, buf_addr: usize, buf_len: usize, buf_cap: usize)
        requires
            old(self).is_empty(),
        ensures
            final(self).is_filled(),
            final(self).wf(),
            final(self).sys_table == Some(st_addr),
            final(self).mmap_buf == Some(buf_addr),
            final(self).mmap_len == Some(buf_len),
            final(self).mmap_cap == Some(buf_cap),
    {
        self.sys_table = Some(st_addr);
        self.mmap_buf = Some(buf_addr);
        self.mmap_len = Some(buf_len);
        self.mmap_cap = Some(buf_cap);
    }
}

} // verus!
