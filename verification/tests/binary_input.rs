use qld::elf::binary_input::{convert, mangle};
use qld::elf::format::Format;

#[test]
fn names_are_mangled_like_gnu() {
    assert_eq!(
        mangle(b"dir/a-b.bin", "start"),
        b"_binary_dir_a_b_bin_start"
    );
    assert_eq!(mangle(b"x", "size"), b"_binary_x_size");
}

/// The ELF fields the tests read.
struct Object<'a> {
    bytes: &'a [u8],
    format: Format,
}

impl Object<'_> {
    fn number(&self, at: usize, n: usize) -> u64 {
        let field = &self.bytes[at..at + n];
        let fold = |value: u64, b: &u8| (value << 8) | u64::from(*b);
        if self.format.big {
            field.iter().fold(0, fold)
        } else {
            field.iter().rev().fold(0, fold)
        }
    }

    fn word(&self) -> usize {
        if self.format.wide { 8 } else { 4 }
    }

    /// The type, offset, size, link and info of each section.
    fn sections(&self) -> Vec<(u64, usize, usize, usize, usize)> {
        let w = self.word();
        let start = self.number(24 + 2 * w, w) as usize;
        let size = self.number(34 + 3 * w, 2) as usize;
        let count = self.number(36 + 3 * w, 2) as usize;
        (0..count)
            .map(|i| {
                let at = start + i * size;
                (
                    self.number(at + 4, 4),
                    self.number(at + 8 + 2 * w, w) as usize,
                    self.number(at + 8 + 3 * w, w) as usize,
                    self.number(at + 8 + 4 * w, 4) as usize,
                    self.number(at + 12 + 4 * w, 4) as usize,
                )
            })
            .collect()
    }

    /// The names of the global symbols.
    fn globals(&self) -> Vec<Vec<u8>> {
        let sections = self.sections();
        let table = sections.iter().find(|s| s.0 == 2).unwrap();
        let strings = sections[table.3].1;
        let size = if self.format.wide { 24 } else { 16 };
        (table.4..table.2 / size)
            .map(|i| {
                let name = strings + self.number(table.1 + i * size, 4) as usize;
                self.bytes[name..].iter().take_while(|&&b| b != 0).copied().collect()
            })
            .collect()
    }
}

#[test]
fn object_parses_with_three_symbols() {
    let le64 = Format { wide: true, big: false };
    let bytes = convert(le64, b"blob.bin", b"hello").unwrap();
    let object = Object { bytes: &bytes, format: le64 };
    assert_eq!(&bytes[..6], b"\x7fELF\x02\x01");
    assert_eq!(
        object.globals(),
        [
            b"_binary_blob_bin_start".to_vec(),
            b"_binary_blob_bin_end".to_vec(),
            b"_binary_blob_bin_size".to_vec()
        ]
    );
    let empty = convert(le64, b"empty", b"").unwrap();
    assert_eq!(Object { bytes: &empty, format: le64 }.globals().len(), 3);
    // Big-endian and 32-bit links get objects of their own format.
    let be64 = Format { wide: true, big: true };
    let be = convert(be64, b"blob.bin", b"hello").unwrap();
    assert_eq!(Object { bytes: &be, format: be64 }.globals().len(), 3);
    let le32 = Format { wide: false, big: false };
    let small = convert(le32, b"blob.bin", b"hello").unwrap();
    assert_eq!(Object { bytes: &small, format: le32 }.globals().len(), 3);
}

#[test]
fn objects_hold_their_data_as_it_is() {
    for format in [
        Format { wide: true, big: false },
        Format { wide: false, big: true },
    ] {
        let bytes = convert(format, b"a", b"some bytes").unwrap();
        let data = Object { bytes: &bytes, format }.sections()[1];
        assert_eq!(&bytes[data.1..data.1 + data.2], b"some bytes");
    }
}

#[test]
fn small_files_hold_32_bit_numbers() {
    let small = Format { wide: false, big: false };
    assert!(small.holds(u32::MAX.into()) && !small.holds(1 << 32));
    assert!(Format { wide: true, big: true }.holds(u64::MAX));
}
