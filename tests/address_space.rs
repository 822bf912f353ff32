use page_walker::arch::x86_64::{
    page_format_4k_l4, PAGE_HUGE, PAGE_PRESENT, PAGE_USER, PAGE_WRITE, PHYSICAL_MASK,
};
use page_walker::{AddressSpace, PageFormat, PageLevel, PageTableMapper, PageWalker, PteType};
use std::cell::RefCell;
use std::collections::{HashMap, HashSet};
use std::ops::Range;
use std::rc::Rc;

#[derive(Debug, PartialEq, Eq, Clone, Copy)]
enum MemError {
    PteNotFound,
    PageNotPresent,
    NotImplemented,
}

#[derive(Default)]
struct Memory {
    cells: HashMap<u64, u64>,
    bytes: HashMap<u64, u8>,
    next: u64,
    allocated: Vec<u64>,
    freed: Vec<u64>,
    write_bytes_calls: usize,
}

/// A physical memory of 8-byte cells and bytes, handing out pages from 0x2000 on.
#[derive(Clone)]
struct Mem(Rc<RefCell<Memory>>);

impl Mem {
    fn new() -> Mem {
        let m = Memory { next: 0x2000, ..Default::default() };
        Mem(Rc::new(RefCell::new(m)))
    }
    fn cell(&self, phys: u64) -> u64 {
        *self.0.borrow().cells.get(&phys).unwrap_or(&0)
    }
    fn set_cell(&self, phys: u64, v: u64) {
        self.0.borrow_mut().cells.insert(phys, v);
    }
    fn allocated(&self) -> Vec<u64> {
        self.0.borrow().allocated.clone()
    }
    fn freed(&self) -> Vec<u64> {
        self.0.borrow().freed.clone()
    }
    fn write_bytes_calls(&self) -> usize {
        self.0.borrow().write_bytes_calls
    }
}

impl PageTableMapper<MemError> for Mem {
    fn pte_not_found() -> MemError {
        MemError::PteNotFound
    }
    fn page_not_present() -> MemError {
        MemError::PageNotPresent
    }
    fn not_implemented() -> MemError {
        MemError::NotImplemented
    }
    fn read_pte(&self, phys_addr: u64) -> Result<u64, MemError> {
        Ok(self.cell(phys_addr))
    }
    fn write_pte(&mut self, phys_addr: u64, value: u64) -> Result<(), MemError> {
        self.set_cell(phys_addr, value);
        Ok(())
    }
    fn read_bytes(&self, bytes: &mut Vec<u8>, phys_addr: u64) -> Result<usize, MemError> {
        let m = self.0.borrow();
        for (i, b) in bytes.iter_mut().enumerate() {
            *b = *m.bytes.get(&(phys_addr + i as u64)).unwrap_or(&0);
        }
        Ok(bytes.len())
    }
    fn write_bytes(&mut self, phys_addr: u64, bytes: &[u8]) -> Result<usize, MemError> {
        let mut m = self.0.borrow_mut();
        m.write_bytes_calls += 1;
        for (i, b) in bytes.iter().enumerate() {
            m.bytes.insert(phys_addr + i as u64, *b);
        }
        Ok(bytes.len())
    }
    fn alloc_page(&mut self) -> Result<u64, MemError> {
        let mut m = self.0.borrow_mut();
        let page = m.next;
        m.next += 0x1000;
        m.allocated.push(page);
        Ok(page)
    }
    fn free_page(&mut self, phys_addr: u64) {
        let mut m = self.0.borrow_mut();
        m.freed.push(phys_addr);
        for i in 0..512u64 {
            m.cells.remove(&(phys_addr + 8 * i));
        }
    }
}

/// A mapper that provides only the required operations.
struct Bare(Mem);

impl PageTableMapper<MemError> for Bare {
    fn pte_not_found() -> MemError {
        MemError::PteNotFound
    }
    fn page_not_present() -> MemError {
        MemError::PageNotPresent
    }
    fn not_implemented() -> MemError {
        MemError::NotImplemented
    }
    fn read_pte(&self, phys_addr: u64) -> Result<u64, MemError> {
        Ok(self.0.cell(phys_addr))
    }
    fn write_pte(&mut self, phys_addr: u64, value: u64) -> Result<(), MemError> {
        self.0.set_cell(phys_addr, value);
        Ok(())
    }
    fn read_bytes(&self, _bytes: &mut Vec<u8>, _phys_addr: u64) -> Result<usize, MemError> {
        Err(MemError::NotImplemented)
    }
    fn write_bytes(&mut self, _phys_addr: u64, _bytes: &[u8]) -> Result<usize, MemError> {
        Err(MemError::NotImplemented)
    }
    fn alloc_page(&mut self) -> Result<u64, MemError> {
        Err(MemError::NotImplemented)
    }
    fn free_page(&mut self, _phys_addr: u64) {}
}

/// Records every callback of a walk, in order: kind, level and range.
struct Tracer {
    events: Vec<(&'static str, usize, Range<u64>)>,
}

impl PageWalker<Mem, MemError> for Tracer {
    type State = ();

    fn handle_pte(
        &mut self,
        _mapper: &Mem,
        _format: &PageFormat,
        pte_type: PteType,
        range: Range<u64>,
        _pte: &u64,
    ) -> Result<(), MemError> {
        let kind = if pte_type.is_page() { "page" } else { "table" };
        self.events.push((kind, pte_type.level(), range));
        Ok(())
    }

    fn handle_pte_hole(
        &mut self,
        _mapper: &Mem,
        _format: &PageFormat,
        level: usize,
        range: Range<u64>,
        _pte: &u64,
    ) -> Result<(), MemError> {
        self.events.push(("hole", level, range));
        Ok(())
    }

    fn handle_post_pte(
        &mut self,
        _mapper: &Mem,
        _format: &PageFormat,
        level: usize,
        range: Range<u64>,
        _pte: &u64,
    ) -> Result<(), MemError> {
        self.events.push(("post", level, range));
        Ok(())
    }
}

/// Records the ranges of the page entries that a walk meets, with their levels.
struct Recorder {
    pages: Vec<(usize, Range<u64>)>,
    tables: Vec<(usize, Range<u64>)>,
}

impl PageWalker<Mem, MemError> for Recorder {
    type State = ();

    fn handle_pte(
        &mut self,
        _mapper: &Mem,
        _format: &PageFormat,
        pte_type: PteType,
        range: Range<u64>,
        _pte: &u64,
    ) -> Result<(), MemError> {
        match pte_type {
            PteType::Page(level) => self.pages.push((level, range)),
            PteType::PageTable(level) => self.tables.push((level, range)),
        }
        Ok(())
    }

    fn handle_pte_hole(
        &mut self,
        _mapper: &Mem,
        _format: &PageFormat,
        _level: usize,
        _range: Range<u64>,
        _pte: &u64,
    ) -> Result<(), MemError> {
        Ok(())
    }

    fn handle_post_pte(
        &mut self,
        _mapper: &Mem,
        _format: &PageFormat,
        _level: usize,
        _range: Range<u64>,
        _pte: &u64,
    ) -> Result<(), MemError> {
        Ok(())
    }
}

const ROOT: u64 = 0x1000;

fn space(mem: &Mem) -> AddressSpace<Mem, MemError> {
    AddressSpace::new(page_format_4k_l4(), mem.clone(), ROOT)
}

#[test]
fn scenario_allocate_single_page() {
    let mem = Mem::new();
    let mut s = space(&mem);
    s.allocate_range(0x0000..0x1000, PAGE_PRESENT | PAGE_WRITE).unwrap();
    assert_eq!(mem.allocated(), vec![0x2000, 0x3000, 0x4000, 0x5000]);
    assert_eq!(s.read_pte(0x0000), Ok(0x5003));
    assert_eq!(mem.cell(ROOT), 0x2000 | PAGE_PRESENT | PAGE_WRITE | PAGE_USER);
    assert_eq!(mem.cell(0x2000), 0x3000 | PAGE_PRESENT | PAGE_WRITE | PAGE_USER);
    assert_eq!(mem.cell(0x3000), 0x4000 | PAGE_PRESENT | PAGE_WRITE | PAGE_USER);
    assert_eq!(mem.cell(0x4000), 0x5003);
}

#[test]
fn scenario_protect_clears_write() {
    let mem = Mem::new();
    let mut s = space(&mem);
    s.allocate_range(0x0000..0x1000, PAGE_PRESENT | PAGE_WRITE).unwrap();
    s.protect_range(0x0000..0x1000, (PAGE_WRITE, 0)).unwrap();
    let pte = s.read_pte(0).unwrap();
    assert_eq!(pte & PAGE_WRITE, 0);
    assert_eq!(pte & PHYSICAL_MASK, 0x5000);
    assert_eq!(pte, 0x5001);
}

#[test]
fn scenario_free_releases_everything() {
    let mem = Mem::new();
    let mut s = space(&mem);
    s.allocate_range(0x0000..0x1000, PAGE_PRESENT | PAGE_WRITE).unwrap();
    s.free_range(0x0000..0x1000).unwrap();
    let freed: HashSet<u64> = mem.freed().into_iter().collect();
    let expected: HashSet<u64> = [0x2000, 0x3000, 0x4000, 0x5000].into_iter().collect();
    assert_eq!(freed, expected);
    assert_eq!(mem.freed().len(), 4);
    assert_eq!(s.read_pte(0), Err(MemError::PteNotFound));
    assert_eq!(mem.cell(ROOT), 0);
}

/// The x86-64 format with its leaf at the 2M level: leaf entries carry the huge-page bit.
fn format_2m() -> PageFormat {
    let table = PAGE_PRESENT | PAGE_WRITE | PAGE_USER;
    let p = PAGE_PRESENT | PAGE_HUGE;
    PageFormat {
        levels: vec![
            PageLevel { shift_bits: 21, va_bits: 9, present_bit: (p, p), huge_page_bit: (0, 0), page_table_mask: table },
            PageLevel { shift_bits: 30, va_bits: 9, present_bit: (PAGE_PRESENT, PAGE_PRESENT), huge_page_bit: (PAGE_HUGE, PAGE_HUGE), page_table_mask: table },
            PageLevel { shift_bits: 39, va_bits: 9, present_bit: (PAGE_PRESENT, PAGE_PRESENT), huge_page_bit: (0, 0), page_table_mask: table },
        ],
        physical_mask: PHYSICAL_MASK,
        pte_size: 8,
    }
}

#[test]
fn scenario_huge_page_allocation() {
    let mem = Mem::new();
    let mut s = AddressSpace::new(format_2m(), mem.clone(), ROOT);
    s.allocate_range(0x0000_0000..0x0020_0000, PAGE_PRESENT).unwrap();
    assert_eq!(mem.allocated(), vec![0x2000, 0x3000, 0x4000]);
    let pte = s.read_pte(0x0000_0000).unwrap();
    assert_eq!(pte, 0x4000 | PAGE_PRESENT | PAGE_HUGE);
    assert_eq!(s.read_pte(0x0010_0000), Ok(pte));
    // Seen through the 4K format, the same entry is a huge page in the page directory.
    let full = space(&mem);
    assert_eq!(full.read_pte(0x0010_0000), Ok(pte));
    assert_eq!(mem.cell(0x3000), pte);
}

#[test]
fn scenario_cross_canonical_walk() {
    let mem = Mem::new();
    let mut s = space(&mem);
    s.allocate_range(0x0000_7fff_ffff_f000..0x0000_8000_0000_0000, PAGE_PRESENT).unwrap();
    s.allocate_range(0xffff_8000_0000_0000..0xffff_8000_0000_1000, PAGE_PRESENT).unwrap();
    let format = page_format_4k_l4();
    let mut rec = Recorder { pages: vec![], tables: vec![] };
    format.walk(ROOT, 0x0000_7fff_ffff_f000..0xffff_8000_0000_1000, &mut rec, &mem).unwrap();
    assert_eq!(
        rec.pages,
        vec![
            (0, 0x0000_7fff_ffff_f000..0x0000_8000_0000_0000),
            (0, 0xffff_8000_0000_0000..0xffff_8000_0000_1000),
        ]
    );
    assert_eq!(rec.tables[0], (3, 0x0000_7fff_ffff_f000..0x0000_8000_0000_0000));
}

#[test]
fn scenario_copy_two_pages() {
    let mem = Mem::new();
    let mut s = space(&mem);
    let v = 0x40_0000;
    s.allocate_range(v..v + 0x2000, PAGE_PRESENT | PAGE_WRITE).unwrap();
    let data = vec![0xaau8; 8192];
    s.copy_to(v, &data).unwrap();
    assert_eq!(mem.write_bytes_calls(), 2);
    let mut buf = vec![0u8; 8192];
    s.copy_from(&mut buf, v).unwrap();
    assert_eq!(buf, vec![0xaau8; 8192]);
}

#[test]
fn allocate_gives_distinct_pages_with_mask() {
    let mem = Mem::new();
    let mut s = space(&mem);
    let v = 0x7000_0000;
    let mask = PAGE_PRESENT | PAGE_WRITE | PAGE_USER;
    s.allocate_range(v..v + 5 * 0x1000, mask).unwrap();
    let mut seen = HashSet::new();
    for k in 0..5u64 {
        let pte = s.read_pte(v + k * 0x1000).unwrap();
        assert!(mem.allocated().contains(&(pte & PHYSICAL_MASK)));
        assert!(seen.insert(pte & PHYSICAL_MASK));
        assert_eq!(pte & !PHYSICAL_MASK, mask);
    }
}

#[test]
fn write_then_read() {
    let mem = Mem::new();
    let mut s = space(&mem);
    s.allocate_range(0x1000..0x3000, PAGE_PRESENT).unwrap();
    s.write_pte(0x2000, 0xabc_d007).unwrap();
    assert_eq!(s.read_pte(0x2000), Ok(0xabc_d007));
    assert_eq!(s.read_pte(0x2fff), Ok(0xabc_d007));
    assert_ne!(s.read_pte(0x1000), Ok(0xabc_d007));
}

#[test]
fn protect_keeps_address_present_and_huge_bits() {
    let mem = Mem::new();
    let mut s = space(&mem);
    s.allocate_range(0x0..0x1000, PAGE_PRESENT | PAGE_WRITE).unwrap();
    // The leaf level has no huge pages: its huge-page mask is zero.
    let keep = PHYSICAL_MASK | PAGE_PRESENT;
    let before = s.read_pte(0).unwrap();
    for mask in [(u64::MAX, 0), (0, u64::MAX), (PAGE_WRITE | PAGE_PRESENT, PAGE_USER), (0x5555, 0xaaaa)] {
        s.protect_range(0x0..0x1000, mask).unwrap();
        assert_eq!(s.read_pte(0).unwrap() & keep, before & keep);
    }
    s.protect_range(0x0..0x1000, (u64::MAX, PAGE_USER)).unwrap();
    assert_eq!(s.read_pte(0), Ok(0x5000 | PAGE_PRESENT | PAGE_USER));
}

#[test]
fn unmap_frees_nothing_and_reallocates_like_fresh() {
    let fresh = Mem::new();
    let mut f = space(&fresh);
    f.allocate_range(0x0..0x1000, PAGE_PRESENT).unwrap();
    f.allocate_range(0x1000..0x3000, PAGE_PRESENT).unwrap();
    let fresh_second: Vec<u64> = fresh.allocated()[4..].to_vec();

    let mem = Mem::new();
    let mut s = space(&mem);
    s.allocate_range(0x0..0x1000, PAGE_PRESENT).unwrap();
    s.allocate_range(0x1000..0x3000, PAGE_PRESENT).unwrap();
    s.unmap_range(0x1000..0x3000).unwrap();
    assert!(mem.freed().is_empty());
    assert_eq!(s.read_pte(0x1000), Ok(0));
    let before = mem.allocated().len();
    s.allocate_range(0x1000..0x3000, PAGE_PRESENT).unwrap();
    assert_eq!(mem.allocated().len() - before, fresh_second.len());
    assert!(mem.freed().is_empty());
}

#[test]
fn free_frees_each_leaf_once() {
    let mem = Mem::new();
    let mut s = space(&mem);
    s.allocate_range(0x0..0x4000, PAGE_PRESENT).unwrap();
    let leaves: Vec<u64> = (0..4u64).map(|k| s.read_pte(k * 0x1000).unwrap() & PHYSICAL_MASK).collect();
    s.free_range(0x1000..0x3000).unwrap();
    assert_eq!(mem.freed(), vec![leaves[1], leaves[2]]);
    assert_eq!(s.read_pte(0x1000), Ok(0));
    assert_eq!(s.read_pte(0x0000), Ok(leaves[0] | PAGE_PRESENT));
}

#[test]
fn teardown_frees_emptied_table_once() {
    let mem = Mem::new();
    let mut s = space(&mem);
    s.allocate_range(0x0..0x2000, PAGE_PRESENT).unwrap();
    s.allocate_range(0x20_0000..0x20_1000, PAGE_PRESENT).unwrap();
    // Page tables: PDPT 0x2000, PD 0x3000, PT 0x4000 (for 0x0), PT 0x7000 (for 0x20_0000).
    assert_eq!(mem.allocated(), vec![0x2000, 0x3000, 0x4000, 0x5000, 0x6000, 0x7000, 0x8000]);
    s.free_range(0x0..0x2000).unwrap();
    assert_eq!(mem.freed(), vec![0x5000, 0x6000, 0x4000]);
    assert_eq!(mem.cell(0x3000), 0);
    assert_ne!(mem.cell(0x3000 + 8), 0);
    assert_eq!(s.read_pte(0x20_0000), Ok(0x8000 | PAGE_PRESENT));
}

#[test]
fn huge_page_stops_the_walk() {
    let mem = Mem::new();
    let mut s = space(&mem);
    s.allocate_range(0x0..0x1000, PAGE_PRESENT).unwrap();
    // Turn the page directory entry for 0x0 into a 2M page.
    mem.set_cell(0x3000, 0x20_0000 | PAGE_PRESENT | PAGE_HUGE);
    let format = page_format_4k_l4();
    let mut rec = Recorder { pages: vec![], tables: vec![] };
    format.walk(ROOT, 0x0..0x2000, &mut rec, &mem).unwrap();
    assert_eq!(rec.pages, vec![(1, 0x0..0x2000)]);
    assert!(rec.tables.iter().all(|(level, _)| *level >= 2));
    assert_eq!(s.read_pte(0x1234), Ok(0x20_0000 | PAGE_PRESENT | PAGE_HUGE));
}

#[test]
fn empty_range_visits_nothing() {
    let mem = Mem::new();
    let format = page_format_4k_l4();
    let mut rec = Recorder { pages: vec![], tables: vec![] };
    format.walk(ROOT, 0x5000..0x5000, &mut rec, &mem).unwrap();
    format.walk(ROOT, 0x6000..0x5000, &mut rec, &mem).unwrap();
    assert!(rec.pages.is_empty() && rec.tables.is_empty());
}

#[test]
fn aligned_end_does_not_reach_next_page() {
    let mem = Mem::new();
    let mut s = space(&mem);
    s.allocate_range(0x0..0x2000, PAGE_PRESENT).unwrap();
    let format = page_format_4k_l4();
    let mut rec = Recorder { pages: vec![], tables: vec![] };
    format.walk(ROOT, 0x0800..0x2000, &mut rec, &mem).unwrap();
    assert_eq!(rec.pages, vec![(0, 0x0800..0x1000), (0, 0x1000..0x2000)]);
}

#[test]
fn read_unmapped_is_not_found() {
    let mem = Mem::new();
    let s = space(&mem);
    assert_eq!(s.read_pte(0x1234_5000), Err(MemError::PteNotFound));
}

#[test]
fn copy_from_hole_is_not_present() {
    let mem = Mem::new();
    let mut s = space(&mem);
    s.allocate_range(0x0..0x1000, PAGE_PRESENT).unwrap();
    s.unmap_range(0x0..0x1000).unwrap();
    let mut buf = vec![0u8; 16];
    assert_eq!(s.copy_from(&mut buf, 0x10), Err(MemError::PageNotPresent));
    assert_eq!(s.copy_to(0x10, &buf), Err(MemError::PageNotPresent));
}

#[test]
fn allocation_without_allocator_is_not_implemented() {
    let mem = Mem::new();
    let mut s = AddressSpace::new(page_format_4k_l4(), Bare(mem.clone()), ROOT);
    assert_eq!(s.allocate_range(0x0..0x1000, PAGE_PRESENT), Err(MemError::NotImplemented));
}

#[test]
fn map_range_maps_consecutive_frames() {
    let mem = Mem::new();
    let mut s = space(&mem);
    s.map_range(0x10_0000..0x10_3000, 0xfee0_0000 | PAGE_WRITE).unwrap();
    assert_eq!(mem.allocated(), vec![0x2000, 0x3000, 0x4000]);
    for k in 0..3u64 {
        assert_eq!(s.read_pte(0x10_0000 + k * 0x1000), Ok((0xfee0_0000 + k * 0x1000) | PAGE_WRITE | PAGE_PRESENT));
    }
}

#[test]
fn copy_unaligned_round_trip() {
    let mem = Mem::new();
    let mut s = space(&mem);
    s.allocate_range(0x0..0x3000, PAGE_PRESENT | PAGE_WRITE).unwrap();
    let data: Vec<u8> = (0..5000u32).map(|i| (i % 251) as u8).collect();
    s.copy_to(0x0ff0, &data).unwrap();
    assert_eq!(mem.write_bytes_calls(), 3);
    let mut back = vec![0u8; 5000];
    s.copy_from(&mut back, 0x0ff0).unwrap();
    assert_eq!(back, data);
}

#[test]
fn callbacks_come_depth_first_in_address_order() {
    let mem = Mem::new();
    let mut s = space(&mem);
    s.allocate_range(0x1f_f000..0x20_0000, PAGE_PRESENT).unwrap();
    let format = page_format_4k_l4();
    let mut t = Tracer { events: vec![] };
    format.walk(ROOT, 0x1f_f800..0x20_0800, &mut t, &mem).unwrap();
    let first = 0x1f_f800..0x20_0000;
    let second = 0x20_0000..0x20_0800;
    let whole = 0x1f_f800..0x20_0800;
    assert_eq!(
        t.events,
        vec![
            ("table", 3, whole.clone()),
            ("table", 2, whole.clone()),
            ("table", 1, first.clone()),
            ("page", 0, first.clone()),
            ("post", 1, first.clone()),
            ("table", 1, second.clone()),
            ("hole", 1, second.clone()),
            ("post", 2, whole.clone()),
            ("post", 3, whole.clone()),
        ]
    );
}

#[test]
fn copy_across_missing_table_is_not_present() {
    let mem = Mem::new();
    let mut s = space(&mem);
    s.allocate_range(0x0..0x1000, PAGE_PRESENT | PAGE_WRITE).unwrap();
    // 0x4000_0000 lies under a page directory pointer entry that was never filled.
    let mut buf = vec![0u8; 8];
    assert_eq!(s.copy_from(&mut buf, 0x4000_0000), Err(MemError::PageNotPresent));
    assert_eq!(s.copy_to(0x4000_0000, &buf), Err(MemError::PageNotPresent));
    assert_eq!(s.copy_from(&mut buf, 0x0ffc), Err(MemError::PageNotPresent));
}

#[test]
fn empty_ranges_succeed_and_change_nothing() {
    let mem = Mem::new();
    let mut s = AddressSpace::new(page_format_4k_l4(), Bare(mem.clone()), ROOT);
    assert_eq!(s.allocate_range(0x5000..0x5000, PAGE_PRESENT), Ok(()));
    assert_eq!(s.free_range(0x6000..0x5000), Ok(()));
    let mut buf: Vec<u8> = vec![];
    assert_eq!(s.copy_from(&mut buf, 0x1000), Ok(()));
    assert_eq!(mem.cell(ROOT), 0);
}
