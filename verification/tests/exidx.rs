use qld::arch::arm::Field;
use qld::bytes::{get_u32, put_u32};
use qld::elf::arch::arm::exidx;
use qld::elf::arch::arm::exidx::{
    is_duplicate, last_unwind, EXIDX_CANTUNWIND, Piece, Source, Table,
};
use qld::ids::SectionId;

fn entry(unwind: u32) -> Vec<u8> {
    let mut bytes = vec![0u8; 8];
    put_u32(&mut bytes, 4, unwind);
    bytes
}

#[test]
fn duplicate_sections_repeat_the_entry_before() {
    let cantunwind = entry(EXIDX_CANTUNWIND);
    let inline = entry(0x8001_9b40);
    let extab = entry(0x0000_0010);
    assert!(is_duplicate(EXIDX_CANTUNWIND, Some(&cantunwind)));
    assert!(is_duplicate(EXIDX_CANTUNWIND, None));
    assert!(!is_duplicate(0x8001_9b40, Some(&cantunwind)));
    assert!(is_duplicate(0x8001_9b40, Some(&inline)));
    // A reference into `.ARM.extab` covers one function only.
    assert!(!is_duplicate(0x10, Some(&extab)));
    assert!(!is_duplicate(0x8001_9b40, Some(&extab)));
    // Two entries, the second different.
    let mut two = inline.clone();
    two.extend_from_slice(&cantunwind);
    assert!(!is_duplicate(0x8001_9b40, Some(&two)));
    assert_eq!(last_unwind(Some(&two)), EXIDX_CANTUNWIND);
    assert_eq!(last_unwind(None), EXIDX_CANTUNWIND);
}

#[test]
fn writes_entries_in_address_order() {
    let table = Table {
        first: SectionId::new(0),
        pieces: vec![
            Piece::CantUnwind {
                text: SectionId::new(1),
            },
            Piece::CantUnwind {
                text: SectionId::new(2),
            },
        ],
        sentinel: SectionId::new(2),
        size: 24,
    };
    let mut out = vec![0u8; 24];
    // Section 2 is placed before section 1.
    let source = |address: u64| Source {
        address: Some(address),
        size: 0x40,
        contents: None,
        references: Vec::new(),
    };
    let sources = [source(0x1000), source(0x2000), source(0x1000)];
    exidx::write(&table, 0x1_0000, &mut out, &sources);
    let target = |at: usize| {
        let word = get_u32(&out, at as u64).unwrap();
        0x1_0000u64
            .wrapping_add(at as u64)
            .wrapping_add(Field::Prel31.decode(word) as u64)
    };
    assert_eq!(target(0), 0x1000);
    assert_eq!(get_u32(&out, 4), Some(EXIDX_CANTUNWIND));
    assert_eq!(target(8), 0x2000);
    // The sentinel covers the end of the last section.
    assert_eq!(target(16), 0x1040);
    assert_eq!(get_u32(&out, 20), Some(EXIDX_CANTUNWIND));
}
