use qld::elf::arch::build_attributes::{TAG_FILE, Value};
use qld::elf::arch::riscv::attributes::{
    merge, parse, ARCH, ATOMIC_ABI, STACK_ALIGN, UNALIGNED_ACCESS,
};
use qld::leb::push_uleb;

fn section(attrs: &[(u64, Value)]) -> Vec<u8> {
    let mut body = Vec::new();
    for (tag, value) in attrs {
        push_uleb(&mut body, *tag);
        match value {
            Value::Int(v) => push_uleb(&mut body, *v),
            Value::Text(t) => {
                body.extend_from_slice(t);
                body.push(0);
            }
            Value::Pair(v, t) => {
                push_uleb(&mut body, *v);
                body.extend_from_slice(t);
                body.push(0);
            }
        }
    }
    let mut out = vec![b'A'];
    out.extend_from_slice(
        &u32::try_from(body.len().saturating_add(15))
            .unwrap()
            .to_le_bytes(),
    );
    out.extend_from_slice(b"riscv\0");
    out.push(TAG_FILE);
    out.extend_from_slice(
        &u32::try_from(body.len().saturating_add(5))
            .unwrap()
            .to_le_bytes(),
    );
    out.extend_from_slice(&body);
    out
}

#[test]
fn arch_strings_are_unioned_in_canonical_order() {
    let a = section(&[
        (STACK_ALIGN, Value::Int(16)),
        (
            ARCH,
            Value::Text(b"rv64i2p1_m2p0_a2p1_c2p0_zicsr2p0".to_vec()),
        ),
    ]);
    let b = section(&[
        (STACK_ALIGN, Value::Int(16)),
        (
            ARCH,
            Value::Text(b"rv64i2p0_m2p0_f2p2_d2p2_zifencei2p0_zmmul1p0_zve32x1p0".to_vec()),
        ),
        (UNALIGNED_ACCESS, Value::Int(1)),
    ]);
    let merged = merge(&[("a.o".into(), &a[..]), ("b.o".into(), &b[..])]);
    assert!(merged.problems.is_empty(), "{:?}", merged.problems);
    let parsed = parse(&merged.bytes).unwrap();
    assert_eq!(
        parsed,
        [
            (STACK_ALIGN, Value::Int(16)),
            (
                ARCH,
                Value::Text(
                    b"rv64i2p1_m2p0_a2p1_f2p2_d2p2_c2p0_zicsr2p0_zifencei2p0_zmmul1p0_zve32x1p0".to_vec()
                )
            ),
            (UNALIGNED_ACCESS, Value::Int(1)),
        ]
    );
}

#[test]
fn conflicts_are_reported() {
    let a = section(&[(STACK_ALIGN, Value::Int(16)), (ATOMIC_ABI, Value::Int(1))]);
    let b = section(&[(STACK_ALIGN, Value::Int(8)), (ATOMIC_ABI, Value::Int(3))]);
    let merged = merge(&[("a.o".into(), &a[..]), ("b.o".into(), &b[..])]);
    assert_eq!(merged.problems.len(), 2, "{:?}", merged.problems);
    assert!(merged.problems[0].contains("stack_align"));
}

#[test]
fn malformed_sections_do_not_panic() {
    let good = section(&[(ARCH, Value::Text(b"rv64i2p1".to_vec()))]);
    for cut in 0..good.len() {
        let _ = merge(&[("x.o".into(), &good[..cut])]);
    }
    let merged = merge(&[("x.o".into(), &b"B"[..])]);
    assert_eq!(merged.problems.len(), 1);
}

#[test]
fn numbers_follow_their_rules() {
    let object = |align: u64, unaligned: u64, agreed: u64, other: u64| {
        section(&[
            (STACK_ALIGN, Value::Int(align)),
            (UNALIGNED_ACCESS, Value::Int(unaligned)),
            (20, Value::Int(agreed)),
            (22, Value::Int(other)),
        ])
    };
    let (a, b, c) = (object(16, 0, 7, 1), object(8, 1, 7, 2), object(16, 0, 7, 1));
    let merged = merge(&[
        ("a.o".into(), &a[..]),
        ("b.o".into(), &b[..]),
        ("c.o".into(), &c[..]),
    ]);
    // The first alignment, any unaligned access, and what all agree on.
    assert_eq!(
        parse(&merged.bytes).unwrap(),
        [
            (STACK_ALIGN, Value::Int(16)),
            (UNALIGNED_ACCESS, Value::Int(1)),
            (20, Value::Int(7)),
        ]
    );
    assert_eq!(merged.problems.len(), 1);
}
