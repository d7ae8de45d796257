use qld::elf::arch::riscv::relax::fill_nops;
use qld::elf::arch::shrink::{
    copy, layout, sorted_order, Edit, Relaxation, Rewrite, SectionRelax,
};
use qld::elf::arch::Arch;
use qld::elf::consts::riscv::R_RISCV_ALIGN;
use qld::elf::consts::{EM_RISCV, SHF_ALLOC, SHF_EXECINSTR, SHT_PROGBITS};
use qld::elf::inputs::{
    ElfInput, InputSection, ObjectInput, RelocTable, SectionHeader, SectionKind,
};
use qld::elf::layout::{Layout, LayoutInput};
use qld::elf::refs::{Refs, Sections};
use qld::elf::relocation::Relocation;
use qld::error::Error;
use qld::ids::SectionId;
use qld::symbols::{Resolution, SymbolTable};

fn edit(seq: u32, offset: u64, remove: u32, delta: u64, rewrite: Rewrite) -> Edit {
    Edit {
        seq,
        index: seq,
        offset,
        remove,
        delta,
        rewrite,
    }
}

fn jump(len: u8) -> Rewrite {
    Rewrite::Replace {
        word: 0x6f,
        len,
        r_type: 17,
    }
}

#[test]
fn offsets_move_by_the_bytes_deleted_before_them() {
    let section = SectionRelax {
        id: SectionId::new(0),
        sorted: true,
        edits: vec![
            edit(0, 0x10, 4, 4, jump(4)),
            edit(3, 0x20, 0, 4, Rewrite::Retype(0x100)),
            edit(5, 0x30, 6, 10, jump(2)),
        ],
    };
    assert_eq!(section.map(0x8), 0x8);
    assert_eq!(section.map(0x10), 0x10, "a relaxed call keeps its start");
    assert_eq!(section.map(0x18), 0x14);
    assert_eq!(section.map(0x30), 0x2c);
    assert_eq!(section.map(0x38), 0x2e);
    assert_eq!(section.removed(), 10);
    assert_eq!(
        section.edit(3).map(|e| e.rewrite),
        Some(Rewrite::Retype(0x100))
    );
    assert_eq!(section.edit(4), None);
    let state = Relaxation::new(4, vec![section], 51);
    assert_eq!(state.map(SectionId::new(0), 0x38), 0x2e);
    assert_eq!(state.map(SectionId::new(1), 0x38), 0x38);
    assert_eq!(state.symbol_size(SectionId::new(0), 0x10, 0x28), 0x1e);
    assert_eq!(state.emitted_type(SectionId::new(0), 0, 19), 17);
    assert_eq!(state.emitted_type(SectionId::new(0), 1, 19), 19);
    assert_eq!(Relaxation::default().removed(SectionId::new(0)), 0);
}

#[test]
fn order_is_by_offset() {
    assert_eq!(sorted_order(&[0, 4, 4, 8]), None);
    assert_eq!(sorted_order(&[8, 0, 4]), Some(vec![1, 2, 0]));
}

#[test]
fn copy_drops_and_rewrites_bytes() {
    // A call (8 bytes) at 0, then 6 bytes of alignment padding at 8
    // (4-byte and 2-byte no-ops), then an instruction at 14.
    let mut data = Vec::new();
    data.extend_from_slice(&0x0000_0097u32.to_le_bytes());
    data.extend_from_slice(&0x0000_80e7u32.to_le_bytes());
    data.extend_from_slice(&[0x13, 0, 0, 0, 1, 0]);
    data.extend_from_slice(&0x1234_5678u32.to_le_bytes());
    let relax = SectionRelax {
        id: SectionId::new(0),
        sorted: true,
        edits: vec![
            edit(0, 0, 4, 4, jump(4)),
            // At 4 once the call shrank, 8-byte alignment needs 4 bytes
            // of padding: 2 of the 6 go, and what stays is refilled.
            edit(2, 8, 2, 6, Rewrite::Align { addend: 6 }),
        ],
    };
    let mut out = vec![0xaa; data.len() - 6];
    copy(&data, &relax, &mut out, |p: &mut [u8]| p.fill(0xee));
    let mut expect = Vec::new();
    expect.extend_from_slice(&0x6fu32.to_le_bytes());
    expect.extend_from_slice(&[0xee; 4]);
    expect.extend_from_slice(&0x1234_5678u32.to_le_bytes());
    assert_eq!(out, expect);
}

#[test]
fn refilled_padding_keeps_an_odd_last_byte() {
    let data: Vec<u8> = (1..13u8).collect();
    let relax = SectionRelax {
        id: SectionId::new(0),
        sorted: true,
        edits: vec![edit(0, 0, 2, 2, Rewrite::Align { addend: 7 })],
    };
    let mut out = vec![0xaa; data.len() - 2];
    copy(&data, &relax, &mut out, fill_nops);
    assert_eq!(out, [0x13, 0, 0, 0, 0xaa, 8, 9, 10, 11, 12]);
}

/// One object with a live code section of these relocations.
fn link(relocations: RelocTable, contents: Option<Vec<u8>>) -> Refs {
    let text = InputSection {
        name: b".text".to_vec(),
        header: SectionHeader {
            sh_type: SHT_PROGBITS,
            sh_flags: SHF_ALLOC | SHF_EXECINSTR,
            sh_offset: 0x40,
            sh_size: 8,
            sh_link: 0,
        },
        kind: SectionKind::Regular,
        relocs: 1,
        relocations,
        contents,
    };
    Refs {
        files: vec![ElfInput {
            name: "a.o".into(),
            position: 0,
            object: Some(ObjectInput {
                machine: EM_RISCV,
                e_flags: 0,
                sections: vec![text],
                symbols: Vec::new(),
                first_global: 0,
                uses: Vec::new(),
            }),
            shared: None,
            internal_uses: Vec::new(),
        }],
        symbols: SymbolTable { symbols: Vec::new() },
        sections: Sections {
            ids: vec![vec![Some(SectionId::new(0))]],
            places: vec![(0, 0)],
            live: vec![true],
            present: vec![true],
            folded: vec![None],
        },
        resolution: Resolution { ids: Vec::new(), live: Vec::new() },
        targets: vec![Vec::new()],
        globals: Vec::new(),
    }
}

fn padding(addend: i64) -> RelocTable {
    RelocTable::Rela(vec![Relocation { offset: 0, symbol: 0, r_type: R_RISCV_ALIGN, addend }])
}

fn laid_out(address: u64) -> Layout {
    Layout {
        sections: Vec::new(),
        section_shndx: vec![1],
        section_addr: vec![address],
        offsets: Vec::new(),
        plt: Vec::new(),
        iplt: Vec::new(),
        plt_slots: Vec::new(),
        thunks: Vec::new(),
        tls: None,
        relax: Default::default(),
    }
}

/// Lays out with the section at `address(n)` in pass `n`, and gives what
/// each pass was laid out with as well.
fn relaxed<A: Fn(usize) -> Result<u64, Error>>(
    refs: &Refs,
    address: A,
) -> (Result<Layout, Error>, Vec<u64>) {
    let input = LayoutInput { refs, arch: Arch::RiscV64, pic: false, relax: true, gp: None };
    let removed = std::cell::RefCell::new(Vec::new());
    let inner = |state: &Relaxation| {
        let n = removed.borrow().len();
        removed.borrow_mut().push(state.removed(SectionId::new(0)));
        address(n).map(laid_out)
    };
    let r = layout(&input, &inner);
    let removed = removed.borrow().clone();
    (r, removed)
}

#[test]
fn layouts_repeat_until_the_edits_stay() {
    let refs = link(padding(6), Some(vec![0; 8]));
    // 8-byte alignment at 0x1004 needs 4 of the 6 bytes.
    let (r, removed) = relaxed(&refs, |_| Ok(0x1004));
    let laid = r.unwrap();
    assert_eq!(removed, [0, 2]);
    assert_eq!(laid.relax.removed(SectionId::new(0)), 2);
    assert_eq!(laid.section_addr, [0x1004]);
    // Nothing to trim at 0x1002: one pass settles it.
    let (r, removed) = relaxed(&refs, |_| Ok(0x1002));
    assert!(r.unwrap().relax.is_empty());
    assert_eq!(removed, [0]);
}

#[test]
fn layouts_without_candidates_are_made_once() {
    let mut refs = link(padding(6), Some(vec![0; 8]));
    refs.sections.live[0] = false;
    let (r, removed) = relaxed(&refs, |_| Ok(0x1004));
    assert!(r.unwrap().relax.is_empty());
    assert_eq!(removed, [0]);
    let (r, _) = relaxed(&refs, |_| Err(Error::Internal("no room")));
    assert!(matches!(r, Err(Error::Internal("no room"))));
}

#[test]
fn layouts_that_keep_changing_are_given_up() {
    let refs = link(padding(6), Some(vec![0; 8]));
    let (r, removed) = relaxed(&refs, |n| Ok(if n % 2 == 0 { 0x1004 } else { 0x1006 }));
    assert!(matches!(r, Err(Error::Internal("linker relaxation did not converge"))));
    assert_eq!(removed.len(), 30);
    assert_eq!(removed[..4], [0, 2, 4, 2]);
}

#[test]
fn layouts_stop_at_the_first_error() {
    let refs = link(padding(6), Some(vec![0; 8]));
    let (r, removed) =
        relaxed(&refs, |n| if n == 1 { Err(Error::Internal("no room")) } else { Ok(0x1004) });
    assert!(matches!(r, Err(Error::Internal("no room"))));
    assert_eq!(removed, [0, 2]);

    // 2 bytes cannot reach the next multiple of 4 from 0x1001.
    let refs = link(padding(2), Some(vec![0; 8]));
    let (r, removed) = relaxed(&refs, |_| Ok(0x1001));
    let Err(Error::Malformed { file, what, .. }) = r else {
        panic!("laid out");
    };
    assert_eq!(file, "a.o");
    assert_eq!(
        what,
        "insufficient padding bytes for R_RISCV_ALIGN: 2 bytes available for requested alignment \
         of 4 bytes"
    );
    assert_eq!(removed, [0]);

    // Sections are read before anything is laid out.
    let refs = link(RelocTable::Malformed { offset: 9, what: "relocations".into() }, None);
    let (r, removed) = relaxed(&refs, |_| Ok(0x1004));
    assert!(matches!(r, Err(Error::Malformed { offset: 9, .. })));
    assert_eq!(removed.len(), 0);
    let refs = link(padding(6), None);
    let (r, _) = relaxed(&refs, |_| Ok(0x1004));
    let Err(Error::Malformed { offset, what, .. }) = r else {
        panic!("laid out");
    };
    assert_eq!((offset, what.as_str()), (0x40, "section contents"));
}
