use qld::arch::aarch64;
use qld::elf::arch::Arch;
use qld::elf::arch::thunk::Thunks;

#[test]
fn thunks_are_shared_and_ordered() {
    let plan = Thunks::build(
        Arch::AArch64,
        vec![(1, 0x9000_0000), (1, 0x8000_0000), (1, 0x9000_0000)],
        &|_| 0x100,
    );
    assert_eq!(plan.entries.len(), 2);
    assert_eq!(plan.size_of(1), 2 * aarch64::THUNK_SIZE);
    assert_eq!(plan.offset_of(1, 0x8000_0000), Some(0x100));
    assert_eq!(
        plan.offset_of(1, 0x9000_0000),
        Some(0x100 + aarch64::THUNK_SIZE)
    );
    assert_eq!(plan.offset_of(2, 0x8000_0000), None);
}

#[test]
fn rendered_thunks_branch_to_their_target() {
    let plan = Thunks::build(Arch::AArch64, vec![(0, 0x8000_1000)], &|_| 0);
    let rendered = plan.render(0, 0x1000);
    assert_eq!(rendered.len(), 1);
    let (offset, bytes) = &rendered[0];
    assert_eq!(*offset, 0);
    let words: Vec<u32> = bytes.chunks_exact(4).map(|w| u32::from_le_bytes([w[0], w[1], w[2], w[3]])).collect();
    assert_eq!(words[2], aarch64::BR_X16);
    // adrp x16, page(0x80001000) - page(0x1000); add x16, x16, #0
    assert_eq!(words[0] & 0x1f, 16);
    assert_eq!(words[1], 0x9100_0210);
}
