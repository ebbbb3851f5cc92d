use tgoskits::platform::{
    table_len, FramAllocator, NopOsal, PageTableEntry, PhysAddr, Plat, TableGeneric, VirtAddr,
};

#[derive(Clone, Copy, Debug)]
struct Pte(u64);

impl PageTableEntry for Pte {
    fn valid(&self) -> bool {
        self.0 & 1 != 0
    }
    fn paddr(&self) -> PhysAddr {
        PhysAddr((self.0 & !0xfff) as usize)
    }
    fn set_paddr(&mut self, paddr: PhysAddr) {
        self.0 = (self.0 & 0xfff) | paddr.0 as u64;
    }
    fn set_valid(&mut self, valid: bool) {
        if valid {
            self.0 |= 1
        } else {
            self.0 &= !1
        }
    }
    fn is_huge(&self) -> bool {
        self.0 & 2 != 0
    }
    fn set_is_huge(&mut self, b: bool) {
        if b {
            self.0 |= 2
        } else {
            self.0 &= !2
        }
    }
}

#[derive(Clone, Copy)]
struct Table;

impl TableGeneric for Table {
    type P = Pte;
    fn flush(_vaddr: Option<VirtAddr>) {}
}

#[derive(Clone, Copy)]
struct Frames;

impl FramAllocator for Frames {
    fn alloc_frame(&self) -> Option<PhysAddr> {
        Some(PhysAddr(0x1000))
    }
    fn dealloc_frame(&self, _frame: PhysAddr) {}
    fn phys_to_virt(&self, paddr: PhysAddr) -> usize {
        paddr.0 + 0xffff_0000_0000_0000
    }
}

#[test]
fn table_geometry_defaults() {
    assert_eq!(Table::PAGE_SIZE, 0x1000);
    assert_eq!(Table::LEVEL, 4);
    assert_eq!(Table::VALID_BITS, 48);
    assert_eq!(Table::MAX_BLOCK_LEVEL, 3);
    assert_eq!(table_len(Table::PAGE_SIZE, core::mem::size_of::<Pte>()), 512);
}

#[test]
fn entry_and_allocator_traits() {
    let mut pte = Pte(0);
    assert!(!pte.valid());
    assert!(!pte.is_huge());
    pte.set_valid(true);
    pte.set_is_huge(true);
    pte.set_paddr(Frames.alloc_frame().unwrap());
    assert!(pte.valid() && pte.is_huge());
    assert_eq!(pte.paddr(), PhysAddr(0x1000));
    assert_eq!(Frames.phys_to_virt(pte.paddr()), 0xffff_0000_0000_1000);
}

#[test]
fn loongarch_platform_hooks() {
    assert_eq!(Plat::init_irq_main(), Ok(()));
    assert_eq!(Plat::init_irq_current_cpu(), Ok(()));
    Plat::irq_set_enable(3, true);
    let _osal = NopOsal;
}
