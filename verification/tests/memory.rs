use ku::error::Error::{InvalidArgument, Overflow};
use ku::memory::{
    Addr, Block, GroupedHex, PageTableFlags, Frage, L0_SIZE, L1_SIZE, Page, Phys, PhysTag, Port, Tag, Virt, VirtTag,
};

const PAGE_SIZE: usize = L0_SIZE;
const PAGE_OFFSET_BITS: u32 = 12;
const PAGE_TABLE_INDEX_BITS: u32 = 9;
const PHYS_BITS: u32 = 52;

const LOWER_HALF_FIRST: usize = 0x0;
const LOWER_HALF_LAST: usize = 0x0000_7FFF_FFFF_FFFF;
const HIGHER_HALF_FIRST: usize = 0xFFFF_8000_0000_0000;
const HIGHER_HALF_LAST: usize = 0xFFFF_FFFF_FFFF_FFFF;
const INSIDE_LOWER_HALF: usize = (LOWER_HALF_LAST / (2 * PAGE_SIZE)) * PAGE_SIZE;
const INSIDE_HIGHER_HALF: usize = 0xFFFF_FFFF_0000_0000;

#[test]
fn two_separate_halves_of_virt() {
    let lower_half_first = Virt::new(0).unwrap();
    let lower_half_last = Virt::new(0x0000_7FFF_FFFF_FFFF).unwrap();
    let higher_half_first = Virt::new(0xFFFF_8000_0000_0000).unwrap();
    let higher_half_last = Virt::new(0xFFFF_FFFF_FFFF_FFFF).unwrap();

    assert!(VirtTag::is_same_half(lower_half_first, lower_half_last));
    assert!(VirtTag::is_same_half(higher_half_first, higher_half_last));
    assert!(!VirtTag::is_same_half(lower_half_first, higher_half_first));
    assert!(!VirtTag::is_same_half(lower_half_first, higher_half_last));
    assert!(!VirtTag::is_same_half(lower_half_last, higher_half_first));
    assert!(!VirtTag::is_same_half(lower_half_last, higher_half_last));

    assert!(
        (lower_half_last + (higher_half_first.into_usize() - lower_half_last.into_usize())).is_err()
    );

    for shift in [0, 1, 2, 10, 20, 30, 40, 50, 63] {
        let mut delta = (1usize << shift).wrapping_sub(0x10);
        for _ in 0 ..= 0x20 {
            if delta != 0 {
                assert!((lower_half_first - delta).is_err());
                assert!((lower_half_last + delta).is_err());
                assert!((higher_half_first - delta).is_err());
                assert!((higher_half_last + delta).is_err());
            }
            delta = delta.wrapping_add(1);
        }
    }
}

#[test]
fn grow_forward() {
    assert!(Block::<Phys>::from_index(0, 1).is_ok());
    assert!(Block::<Phys>::from_index(1, 1).is_ok());
    assert_eq!(Block::<Phys>::from_index(1, 0), Err(InvalidArgument));
}

#[test]
fn compare() {
    let a = Block::from_index(0, 1).unwrap();
    let b = Block::from_index(1, 2).unwrap();
    let c = Block::from_index(1, 2).unwrap();
    let d = Block::from_index(2, 3).unwrap();

    let e = Block::<Virt>::from_index(0, 3).unwrap();

    assert_ne!(a, b);
    assert!(a < b);
    assert!(a <= b);
    assert!(b <= c);
    assert_eq!(b, c);
    assert!(c <= d);
    assert!(c < d);
    assert_ne!(c, d);

    for block in [a, b, c, d] {
        assert_ne!(block, e);
        assert_eq!(block.partial_cmp(&e), None);
        assert_eq!(e.partial_cmp(&block), None);
    }
}

#[test]
fn full_halves() {
    let lower_half_first_page = LOWER_HALF_FIRST / PAGE_SIZE;
    let lower_half_last_page = LOWER_HALF_LAST / PAGE_SIZE;
    let higher_half_first_page = HIGHER_HALF_FIRST / PAGE_SIZE;
    let higher_half_last_page = HIGHER_HALF_LAST / PAGE_SIZE;

    let half_size = LOWER_HALF_LAST - LOWER_HALF_FIRST + 1;
    assert_eq!(half_size, HIGHER_HALF_LAST - HIGHER_HALF_FIRST + 1);

    let full_lower_half =
        Block::<Page>::from_index(lower_half_first_page, lower_half_last_page + 1).unwrap();
    assert!(full_lower_half.contains_address(Virt::new(LOWER_HALF_FIRST).unwrap()));
    assert!(full_lower_half.contains_address(Virt::new(LOWER_HALF_LAST).unwrap()));
    assert_eq!(full_lower_half.size(), half_size);
    assert_eq!(full_lower_half.end_address(), Err(InvalidArgument));
    assert_eq!(
        Block::<Page>::from_index(lower_half_first_page, lower_half_last_page + 2),
        Err(InvalidArgument),
    );
    assert_eq!(
        Block::<Page>::from_index(
            lower_half_first_page.wrapping_sub(1),
            lower_half_last_page + 1,
        ),
        Err(Overflow),
    );

    assert_eq!(
        Page::from_index(lower_half_last_page + 1),
        Err(InvalidArgument),
    );

    let full_higher_half =
        Block::<Page>::from_index(higher_half_first_page, higher_half_last_page + 1).unwrap();
    assert!(full_higher_half.contains_address(Virt::new(HIGHER_HALF_LAST).unwrap()));
    assert_eq!(full_higher_half.end_address(), Err(Overflow));
    assert_eq!(full_higher_half.size(), half_size);
    assert_eq!(
        Block::<Page>::from_index(higher_half_first_page, higher_half_last_page + 2),
        Err(Overflow),
    );
    assert_eq!(
        Block::<Page>::from_index(higher_half_first_page - 1, higher_half_last_page + 1),
        Err(InvalidArgument),
    );

    let full_lower_half =
        Block::<Virt>::from_index(LOWER_HALF_FIRST, LOWER_HALF_LAST + 1).unwrap();
    assert!(full_lower_half.contains_address(Virt::new(LOWER_HALF_FIRST).unwrap()));
    assert!(full_lower_half.contains_address(Virt::new(LOWER_HALF_LAST).unwrap()));
    assert_eq!(full_lower_half.size(), half_size);
    assert_eq!(full_lower_half.end_address(), Err(InvalidArgument));
    assert_eq!(
        Block::<Virt>::from_index(LOWER_HALF_FIRST, LOWER_HALF_LAST + 2),
        Err(InvalidArgument),
    );
    assert_eq!(
        Block::<Virt>::from_index(LOWER_HALF_FIRST.wrapping_sub(1), LOWER_HALF_LAST + 1),
        Err(InvalidArgument),
    );

    let full_higher_half =
        Block::<Virt>::from_index(HIGHER_HALF_FIRST, HIGHER_HALF_LAST.wrapping_add(1));
    assert_eq!(full_higher_half, Err(InvalidArgument));
    assert_eq!(
        Block::<Virt>::from_index(HIGHER_HALF_FIRST, HIGHER_HALF_LAST.wrapping_add(2)),
        Err(InvalidArgument),
    );
    assert_eq!(
        Block::<Virt>::from_index(HIGHER_HALF_FIRST - 1, HIGHER_HALF_LAST.wrapping_add(1)),
        Err(InvalidArgument),
    );
}

#[test]
fn enforce_same_virt_half() {
    assert!(Block::<Virt>::from_index(0, LOWER_HALF_LAST).is_ok());
    assert!(Block::<Virt>::from_index(0, LOWER_HALF_LAST + 1).is_ok());

    let inside_lower_half = Virt::new(INSIDE_LOWER_HALF).unwrap();
    let inside_higher_half = Virt::new(INSIDE_HIGHER_HALF).unwrap();
    assert_eq!(
        Block::new(inside_lower_half, inside_higher_half),
        Err(InvalidArgument),
    );
    assert_eq!(
        Block::<Virt>::from_index(INSIDE_LOWER_HALF, INSIDE_HIGHER_HALF),
        Err(InvalidArgument),
    );

    let lower_half_last =
        Page::new(Virt::new(LOWER_HALF_LAST - (PAGE_SIZE - 1)).unwrap()).unwrap();
    let inside_lower_half = Page::new(inside_lower_half).unwrap();
    let inside_higher_half = Page::new(inside_higher_half).unwrap();
    assert!(Block::<Page>::from_index(0, lower_half_last.index()).is_ok());
    assert!(Block::<Page>::from_index(0, lower_half_last.index() + 1).is_ok());
    assert_eq!(
        Block::<Page>::from_index(0, lower_half_last.index() + 2),
        Err(InvalidArgument),
    );
    assert_eq!(
        Block::new(inside_lower_half, inside_higher_half),
        Err(InvalidArgument),
    );
    assert_eq!(
        Block::<Page>::from_index(inside_lower_half.index(), inside_higher_half.index()),
        Err(InvalidArgument),
    );
}

#[test]
fn enclosing() {
    for base in [
        LOWER_HALF_FIRST,
        HIGHER_HALF_FIRST,
        INSIDE_LOWER_HALF,
        INSIDE_HIGHER_HALF,
    ] {
        for shift in [0, 1] {
            let start_virt = base + shift;
            let start_page = start_virt / PAGE_SIZE;
            for (end_virt, end_page) in [
                (start_virt, start_page),
                (start_virt + 1, start_page + 1),
                (start_virt + (PAGE_SIZE - shift) - 1, start_page + 1),
                (start_virt + (PAGE_SIZE - shift), start_page + 1),
                (start_virt + (PAGE_SIZE - shift) + 1, start_page + 2),
            ] {
                assert!(
                    Block::<Virt>::from_index(start_virt, end_virt).unwrap().enclosing() ==
                        Block::<Page>::from_index(start_page, end_page).unwrap(),
                );
            }
        }
    }

    for base in [
        LOWER_HALF_FIRST + 2 * PAGE_SIZE - 1,
        LOWER_HALF_LAST,
        HIGHER_HALF_FIRST + 2 * PAGE_SIZE - 1,
        HIGHER_HALF_LAST,
    ] {
        for shift in [0, 1] {
            let end_virt = base - shift;
            let end_page = end_virt / PAGE_SIZE + 1;
            for (start_virt, start_page) in [
                (end_virt - 1, end_page - 1),
                (end_virt - (PAGE_SIZE - shift) + 1, end_page - 1),
                (end_virt - (PAGE_SIZE - shift), end_page - 2),
                (end_virt - (PAGE_SIZE - shift) - 1, end_page - 2),
            ] {
                assert_eq!(
                    Block::<Virt>::from_index(start_virt, end_virt).unwrap().enclosing(),
                    Block::<Page>::from_index(start_page, end_page).unwrap(),
                );
            }
            assert_eq!(
                Block::<Virt>::from_index(end_virt, end_virt).unwrap().enclosing(),
                Block::<Page>::from_index(end_page - 1, end_page - 1).unwrap(),
            );
        }
    }
}

#[test]
fn bad_address() {
    let phys_end = 1 << 52;
    assert!(Block::<Phys>::from_index(phys_end - 1, phys_end).is_ok());
    assert_eq!(
        Block::<Phys>::from_index(phys_end, phys_end),
        Err(InvalidArgument),
    );
    assert_eq!(
        Block::<Phys>::from_index(phys_end - 1, phys_end + 1),
        Err(InvalidArgument),
    );

    let bad_virt = 1 << 48;
    assert_eq!(
        Block::<Virt>::from_index(bad_virt, bad_virt),
        Err(InvalidArgument),
    );
}

fn frage_alignment_check<T: Tag + std::fmt::Debug, const SIZE: usize>() {
    for offset in 1 .. SIZE {
        assert!(Frage::<T, SIZE>::new(Addr::<T>::new(offset).unwrap()).is_err());
    }
}

#[test]
fn alignment_check() {
    frage_alignment_check::<PhysTag, L0_SIZE>();
    frage_alignment_check::<VirtTag, L0_SIZE>();
    frage_alignment_check::<PhysTag, L1_SIZE>();
    frage_alignment_check::<VirtTag, L1_SIZE>();
}

fn frage_address_and_index<T: Tag + std::fmt::Debug + PartialEq, const SIZE: usize>(end_index: usize) {
    for index in (0 .. 10).chain(end_index - 10 .. end_index) {
        let frage = Frage::<T, SIZE>::from_index(index).unwrap();
        assert_eq!(frage.index(), index);
        assert_eq!(Frage::<T, SIZE>::index_by_address(frage.address()), index);
        assert_eq!(Frage::<T, SIZE>::new(frage.address()).unwrap(), frage);
    }

    let mut index = end_index;
    while index != 0 {
        assert!(Frage::<T, SIZE>::from_index(index).is_err());
        index <<= 1;
    }
}

#[test]
fn address_and_index() {
    const ADDRESS_SPACE_BITS: u32 = usize::BITS;

    frage_address_and_index::<PhysTag, L0_SIZE>(1 << (PHYS_BITS - PAGE_OFFSET_BITS));
    frage_address_and_index::<VirtTag, L0_SIZE>(1 << (ADDRESS_SPACE_BITS - PAGE_OFFSET_BITS));
    frage_address_and_index::<PhysTag, L1_SIZE>(
        1 << (PHYS_BITS - PAGE_OFFSET_BITS - PAGE_TABLE_INDEX_BITS),
    );
    frage_address_and_index::<VirtTag, L1_SIZE>(
        1 << (ADDRESS_SPACE_BITS - PAGE_OFFSET_BITS - PAGE_TABLE_INDEX_BITS),
    );
}

#[test]
fn io_port_range() {
    assert!(Port::<u8>::new(0x0000).is_ok());
    assert!(Port::<u8>::new(0xFFFF).is_ok());
    assert!(Port::<u8>::new(0xFFFF + 1).is_err());
}

#[test]
fn io_port_alignment() {
    assert!(Port::<u8>::new(0x0000).is_ok());
    assert!(Port::<u8>::new(0x0001).is_ok());
    assert!(Port::<u8>::new(0x0002).is_ok());
    assert!(Port::<u8>::new(0x0003).is_ok());
    assert!(Port::<u8>::new(0x0004).is_ok());

    assert!(Port::<u16>::new(0x0000).is_ok());
    assert!(Port::<u16>::new(0x0001).is_err());
    assert!(Port::<u16>::new(0x0002).is_ok());
    assert!(Port::<u16>::new(0x0003).is_err());
    assert!(Port::<u16>::new(0x0004).is_ok());

    assert!(Port::<u32>::new(0x0000).is_ok());
    assert!(Port::<u32>::new(0x0001).is_err());
    assert!(Port::<u32>::new(0x0002).is_err());
    assert!(Port::<u32>::new(0x0003).is_err());
    assert!(Port::<u32>::new(0x0000).is_ok());
}

#[test]
fn page_table_indexes_round_trip() {
    let virt = Virt::from_page_table_indexes([1, 2, 3, 4], 5);
    assert_eq!(virt.into_usize(), (4 << 39) | (3 << 30) | (2 << 21) | (1 << 12) | 5);
    for (level, index) in [1, 2, 3, 4].into_iter().enumerate() {
        assert_eq!(virt.page_table_index(level as u32), index);
    }

    let higher = Virt::from_page_table_indexes([0, 0, 0, 256], 0);
    assert_eq!(higher.into_usize(), 0xFFFF_8000_0000_0000);
    assert_eq!(higher.page_table_index(3), 256);

    let last = Virt::from_page_table_indexes([511, 511, 511, 511], 4095);
    assert_eq!(last.into_usize(), usize::MAX);
}

#[test]
fn grouped_hex_text() {
    let cases: [(u128, &str); 9] = [
        (0, "0"),
        (0xA, "A"),
        (0x1234, "1234"),
        (0xFFFF, "FFFF"),
        (0x1_0000, "1_0000"),
        (0x12_3456_789A, "12_3456_789A"),
        (0xDEAD_0000_0000_BEEF, "DEAD_0000_0000_BEEF"),
        (0xFFFF_FFFF_FFFF_FFFF, "FFFF_FFFF_FFFF_FFFF"),
        ((1 << 64) + 0x5, "5"),
    ];
    for (value, text) in cases {
        let grouped = GroupedHex::new(value);
        assert_eq!(grouped.to_string(), text, "value {value:#X}");
        assert_eq!(grouped.to_ascii(), text.as_bytes().to_vec());
    }
}

#[test]
fn grouped_hex_round_trip() {
    for value in [0u128, 1, 0xF00D, 0x1_0000_0001, 0x8000_0000_0000_0000, u128::MAX] {
        let text = GroupedHex::new(value).to_string();
        let digits: String = text.chars().filter(|&c| c != '_').collect();
        let parsed = u128::from_str_radix(&digits, 16).unwrap();
        assert_eq!(parsed, value % (1 << 64));
    }
}

#[test]
fn address_text() {
    assert_eq!(Virt::new(0x7FFF_FFFF_F000).unwrap().to_string(), "0v7FFF_FFFF_F000");
    assert_eq!(Virt::new(0).unwrap().to_string(), "0v0");
    assert_eq!(Phys::new(0x12_3456).unwrap().to_string(), "0p12_3456");
    assert_eq!(
        Virt::new(0xFFFF_8000_0000_0000).unwrap().to_string(),
        "0vFFFF_8000_0000_0000",
    );
    assert_eq!(Port::<u8>::new(0x3F8).unwrap().to_string(), "0x3F8");
}

#[test]
fn page_table_flags_text() {
    let flags = PageTableFlags::present()
        .union(PageTableFlags::writable())
        .union(PageTableFlags::accessed())
        .union(PageTableFlags::global());
    assert_eq!(flags.to_string(), "---G--A---W-P(0x8000000000000123)");

    let flags = PageTableFlags::present().union(PageTableFlags::executable());
    assert_eq!(flags.to_string(), "-----------XP(0x1)");

    assert_eq!(PageTableFlags::empty().to_string(), "-------------(0x8000000000000000)");

    let all = PageTableFlags::from_bits(0x8000_0000_0000_0FFF).unwrap();
    assert_eq!(all.to_string(), "210GHDACTUWXP(0xFFF)");
}

#[test]
fn contains_address_stops_at_the_end() {
    let lower_half = Block::<Virt>::from_index(0, 0x0000_8000_0000_0000).unwrap();
    assert!(lower_half.contains_address(Virt::new(0x0000_7FFF_FFFF_FFFF).unwrap()));
    assert!(!lower_half.contains_address(Virt::new(0xFFFF_8000_0000_0000).unwrap()));
    assert!(!lower_half.contains_address(Virt::new(0xFFFF_FFFF_FFFF_FFFF).unwrap()));
    let higher_half = Block::<Virt>::from_index(0xFFFF_8000_0000_0000, usize::MAX).unwrap();
    assert!(!higher_half.contains_address(Virt::new(0x1000).unwrap()));
}
