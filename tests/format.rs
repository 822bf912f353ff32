use page_walker::arch::{aarch64, arm, x86, x86_64};
use page_walker::walkers::allocator::table_entry;
use page_walker::walkers::copy::chunk;
use page_walker::walkers::{PteAllocator, PteMapper, PteProtector, PteReader, PteRemovalFlags, PteWriter};
use page_walker::{PageLevel, PteType};

fn level(shift_bits: u64, va_bits: u64) -> PageLevel {
    PageLevel {
        shift_bits,
        va_bits,
        present_bit: (1, 1),
        huge_page_bit: (0x80, 0x80),
        page_table_mask: 7,
    }
}

#[test]
fn level_geometry() {
    let l = level(21, 9);
    assert_eq!(l.entries(), 512);
    assert_eq!(l.page_size(), 0x20_0000);
    assert_eq!(l.mask(), 0x3fe0_0000);
    assert_eq!(l.end(0x1234_5678), 0x123f_ffff);
    assert_eq!(l.pte_index(0x1234_5678), (0x1234_5678 >> 21) & 511);
    assert_eq!(l.pte_index(0x1234_5678), 0x91);
}

#[test]
fn index_decomposition_on_values() {
    let l = level(12, 9);
    for a in [0u64, 0x1000, 0x1fff, 0x1f_f000, 0xffff_ffff_ffff_ffff, 0x0000_7fff_ffff_f123] {
        assert_eq!(l.pte_index(a), (a >> 12) & 0x1ff);
        assert_eq!(l.end(a) | (a & l.mask()), l.end(a));
    }
}

#[test]
fn present_and_huge_classification() {
    let l = level(21, 9);
    assert!(l.is_present(0x1001));
    assert!(!l.is_present(0x1000));
    assert!(l.is_huge_page(0x1081));
    assert!(!l.is_huge_page(0x1080));
    assert!(!level(21, 9).is_huge_page(0x1001));
    let no_huge = PageLevel { huge_page_bit: (0, 0), ..level(12, 9) };
    assert!(!no_huge.is_huge_page(0xffff_ffff_ffff_ffff));
    // A huge-page pattern whose value differs from its mask: a block has bit one clear.
    let block = PageLevel { present_bit: (1, 1), huge_page_bit: (2, 0), ..level(21, 9) };
    assert!(block.is_huge_page(0x20_0001));
    assert!(!block.is_huge_page(0x20_0003));
    assert!(!block.is_huge_page(0x20_0000));
}

#[test]
fn pte_type_queries() {
    assert!(PteType::Page(0).is_page());
    assert!(!PteType::Page(0).is_page_table());
    assert!(PteType::PageTable(2).is_page_table());
    assert_eq!(PteType::PageTable(2).level(), 2);
    assert_eq!(PteType::Page(3).level(), 3);
    assert!(PteType::Page(1).is_huge_page());
    assert!(!PteType::Page(0).is_huge_page());
    assert!(!PteType::PageTable(1).is_huge_page());
}

#[test]
fn virtual_masks_of_presets() {
    assert_eq!(x86_64::page_format_4k_l4().virtual_mask(), 0x0000_ffff_ffff_ffff);
    assert_eq!(x86_64::page_format_4k_l5().virtual_mask(), 0x01ff_ffff_ffff_ffff);
    assert_eq!(x86::page_format_4k().virtual_mask(), 0xffff_ffff);
    assert_eq!(x86::page_format_4k_pae().virtual_mask(), 0xffff_ffff);
    assert_eq!(arm::page_format_4k().virtual_mask(), 0xffff_ffff);
    assert_eq!(aarch64::page_format_4k_l3().virtual_mask(), 0x0000_007f_ffff_ffff);
    assert_eq!(aarch64::page_format_4k_l4().virtual_mask(), 0x0000_ffff_ffff_ffff);
    assert_eq!(aarch64::page_format_16k().virtual_mask(), 0x0000_3fff_ffff_ffff);
    assert_eq!(aarch64::page_format_64k().virtual_mask(), 0x0000_0fff_ffff_ffff);
}

#[test]
fn sign_extension() {
    let f = x86_64::page_format_4k_l4();
    assert_eq!(f.sign_extend(0x0000_8000_0000_0000), 0xffff_8000_0000_0000);
    assert_eq!(f.sign_extend(0x0000_7fff_ffff_ffff), 0x0000_7fff_ffff_ffff);
    assert_eq!(f.sign_extend(0xffff_8000_0000_1000), 0xffff_8000_0000_1000);
    for a in [0u64, 0x0000_8000_0000_0000, 0x1234_8765_4321_0000, 0x0000_7fff_0000_0000, u64::MAX] {
        let e = f.sign_extend(a);
        assert_eq!(f.sign_extend(e), e);
        let vm = f.virtual_mask();
        let bit = 1u64 << (vm.trailing_ones() - 1);
        if a & bit == bit {
            assert_eq!(e & !vm, !vm);
        }
    }
    let la57 = x86_64::page_format_la57();
    assert_eq!(la57.sign_extend(0x0100_0000_0000_0000), 0xff00_0000_0000_0000);
    assert_eq!(la57.sign_extend(0x0000_8000_0000_0000), 0x0000_8000_0000_0000);
}

#[test]
fn strategy_entries() {
    let l = level(21, 9);
    assert_eq!(table_entry(&l, 0x3000), 0x3007);
    let block = PageLevel { present_bit: (1, 1), huge_page_bit: (2, 0), page_table_mask: 0, ..l };
    assert_eq!(table_entry(&block, 0x3000), 0x3003);

    let alloc = PteAllocator { mask: Some(6) };
    assert!(alloc.allocates(0));
    assert_eq!(alloc.hole_entry(&level(12, 9), 0, 0x9000), 0x9007);
    assert_eq!(alloc.hole_entry(&l, 1, 0x9000), 0x9007);
    assert!(!PteAllocator { mask: None }.allocates(0));
    assert!(PteAllocator { mask: None }.allocates(2));

    let mut m = PteMapper { mask: 0xfee0_0002 };
    assert_eq!(m.next_leaf(&level(12, 9)), 0xfee0_0003);
    assert_eq!(m.mask, 0xfee0_1002);

    let p = PteProtector { mask: (u64::MAX, 0x8000_0000_0000_0004) };
    assert_eq!(p.protect(&l, 0x000f_ffff_ffff_f000, 0x5083), 0x8000_0000_0000_5085);

    let mut r = PteReader { pte: None };
    r.record(PteType::PageTable(1), 5);
    assert_eq!(r.pte, None);
    r.record(PteType::Page(0), 7);
    assert_eq!(r.pte, Some(7));

    let w = PteWriter { pte: 9 };
    assert_eq!(w.rewrite(PteType::Page(0), 3), 9);
    assert_eq!(w.rewrite(PteType::PageTable(1), 3), 3);

    assert!(PteRemovalFlags::all().free_pages && PteRemovalFlags::all().free_page_tables);
    assert!(!PteRemovalFlags::empty().free_pages && !PteRemovalFlags::empty().free_page_tables);
}

#[test]
fn copy_chunks() {
    let l = level(12, 9);
    assert_eq!(chunk(&l, 0x000f_ffff_ffff_f000, 0x7003, 0x1ff0, 100), (0x7ff0, 16));
    assert_eq!(chunk(&l, 0x000f_ffff_ffff_f000, 0x7003, 0x2000, 100), (0x7000, 100));
    assert_eq!(chunk(&l, 0x000f_ffff_ffff_f000, 0x7003, 0x2000, 0x5000), (0x7000, 0x1000));
}
