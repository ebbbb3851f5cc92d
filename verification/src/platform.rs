//! The platform interfaces: the generic page-table traits that an
//! architecture implements, the no-op DMA layer and the LoongArch platform
//! hooks.

use vstd::prelude::*;

verus! {

/// A physical address.
#[derive(Clone, Copy, PartialEq, Eq, Debug, Structural)]
pub struct PhysAddr(pub usize);

/// A virtual address.
#[derive(Clone, Copy, PartialEq, Eq, Debug, Structural)]
pub struct VirtAddr(pub usize);

/// A source of page frames for page tables.
pub trait FramAllocator: Clone + Copy + Sync + Send + 'static {
    /// A fresh frame, if memory is left.
    fn alloc_frame(&self) -> Option<PhysAddr>;

    /// Gives a frame back.
    fn dealloc_frame(&self, frame: PhysAddr);

    /// The address at which the kernel reaches a physical address.
    fn phys_to_virt(&self, paddr: PhysAddr) -> usize;
}

/// The shape of an architecture's page table.
pub trait TableGeneric: Sync + Send + Clone + Copy + 'static {
    /// The entry type.
    type P: PageTableEntry;

    /// The size of a page and of a table.
    const PAGE_SIZE: usize = 0x1000;

    /// The number of translation levels.
    const LEVEL: usize = 4;

    /// The number of virtual address bits a table walk resolves.
    const VALID_BITS: usize = 12 + Self::LEVEL * 9;

    /// The highest level at which a block (huge page) may be mapped.
    const MAX_BLOCK_LEVEL: usize = 3;

    /// Flushes the TLB, for one address or for all.
    fn flush(vaddr: Option<VirtAddr>);
}

/// One entry of a page table.
pub trait PageTableEntry: Sync + Send + Clone + Copy + Sized + 'static {
    /// Whether the entry maps something.
    fn valid(&self) -> bool;

    /// The physical address the entry points to.
    fn paddr(&self) -> PhysAddr;

    /// Points the entry at `paddr`.
    fn set_paddr(&mut self, paddr: PhysAddr);

    /// Marks the entry valid or invalid.
    fn set_valid(&mut self, valid: bool);

    /// Whether the entry maps a block rather than a next-level table.
    fn is_huge(&self) -> bool;

    /// Marks the entry as a block or a table pointer.
    fn set_is_huge(&mut self, b: bool);
}

/// The number of entries in a table of `page_size` bytes with entries of
/// `entry_size` bytes (`TABLE_LEN` of a `TableGeneric`).
pub fn table_len(page_size: usize, entry_size: usize) -> (n: usize)
    requires
        entry_size > 0,
    ensures
        n == page_size / entry_size,
{
    page_size / entry_size
}

/// The DMA layer for targets without DMA support: every operation of it is
/// left unimplemented.
pub struct NopOsal;

/// The LoongArch platform hooks.
pub struct Plat;

impl Plat {
    /// Interrupt controller setup on the boot CPU; nothing to do here.
    pub fn init_irq_main() -> (r: Result<(), ()>)
        ensures
            r is Ok,
    {
        Ok(())
    }

    /// Interrupt controller setup on each CPU; nothing to do here.
    pub fn init_irq_current_cpu() -> (r: Result<(), ()>)
        ensures
            r is Ok,
    {
        Ok(())
    }

    /// Enabling or disabling one IRQ line; nothing to do here.
    pub fn irq_set_enable(irq: usize, enable: bool) {
    }
}

} // verus!
