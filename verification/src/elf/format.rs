//! Records of ELF files, in the class and byte order of a link.

use vstd::prelude::*;

use crate::bytes::{be16, be32, be64, le16, le32, le64, push_all};

verus! {

/// The class and byte order of an ELF file.
#[derive(Clone, Copy, Debug, PartialEq, Eq, Structural)]
pub struct Format {
    /// 64-bit, not 32-bit.
    pub wide: bool,
    /// Most significant byte first.
    pub big: bool,
}

/// A symbol table entry.
#[derive(Clone, Copy, Debug, PartialEq, Eq, Structural)]
pub struct SymbolRecord {
    /// The offset of the name in the string table.
    pub st_name: u32,
    /// Binding and type.
    pub st_info: u8,
    /// Visibility, and bits of the architecture's own.
    pub st_other: u8,
    /// The section index.
    pub st_shndx: u16,
    /// The value.
    pub st_value: u64,
    /// The size.
    pub st_size: u64,
}

impl SymbolRecord {
    /// An entry of zeros.
    #[verifier::allow_in_spec]
    pub fn null() -> SymbolRecord
        returns
            (SymbolRecord { st_name: 0, st_info: 0, st_other: 0, st_shndx: 0, st_value: 0, st_size: 0 }),
    {
        SymbolRecord { st_name: 0, st_info: 0, st_other: 0, st_shndx: 0, st_value: 0, st_size: 0 }
    }
}

/// A section header.
#[derive(Clone, Copy, Debug, PartialEq, Eq, Structural)]
pub struct SectionRecord {
    /// The offset of the name in the section name table.
    pub sh_name: u32,
    /// The type.
    pub sh_type: u32,
    /// The flags.
    pub sh_flags: u64,
    /// The address.
    pub sh_addr: u64,
    /// Where the contents are in the file.
    pub sh_offset: u64,
    /// The size.
    pub sh_size: u64,
    /// The section this one belongs to.
    pub sh_link: u32,
    /// What the type says.
    pub sh_info: u32,
    /// The alignment.
    pub sh_addralign: u64,
    /// The size of an entry.
    pub sh_entsize: u64,
}

impl SectionRecord {
    /// A header of zeros.
    #[verifier::allow_in_spec]
    pub fn null() -> SectionRecord
        returns
            (SectionRecord {
                sh_name: 0,
                sh_type: 0,
                sh_flags: 0,
                sh_addr: 0,
                sh_offset: 0,
                sh_size: 0,
                sh_link: 0,
                sh_info: 0,
                sh_addralign: 0,
                sh_entsize: 0,
            }),
    {
        SectionRecord {
            sh_name: 0,
            sh_type: 0,
            sh_flags: 0,
            sh_addr: 0,
            sh_offset: 0,
            sh_size: 0,
            sh_link: 0,
            sh_info: 0,
            sh_addralign: 0,
            sh_entsize: 0,
        }
    }
}

/// What tells one relocatable object's file header from another's.
#[derive(Clone, Copy, Debug, PartialEq, Eq, Structural)]
pub struct FileRecord {
    /// The machine.
    pub e_machine: u16,
    /// Where the section headers are.
    pub e_shoff: u64,
    /// How many there are.
    pub e_shnum: u16,
    /// The section that holds their names.
    pub e_shstrndx: u16,
}

impl Format {
    /// The size of an address.
    #[verifier::allow_in_spec]
    pub fn word_size(self) -> usize
        returns
            (if self.wide {
                8usize
            } else {
                4
            }),
    {
        if self.wide {
            8usize
        } else {
            4
        }
    }

    /// Whether an address can be `x`.
    #[verifier::allow_in_spec]
    pub fn holds(self, x: u64) -> bool
        returns
            self.wide || x <= u32::MAX,
    {
        self.wide || x <= 0xffff_ffff
    }

    /// The size of a symbol table entry.
    #[verifier::allow_in_spec]
    pub fn symbol_size(self) -> usize
        returns
            (if self.wide {
                24usize
            } else {
                16
            }),
    {
        if self.wide {
            24usize
        } else {
            16
        }
    }

    /// The size of a section header.
    #[verifier::allow_in_spec]
    pub fn section_size(self) -> usize
        returns
            (if self.wide {
                64usize
            } else {
                40
            }),
    {
        if self.wide {
            64usize
        } else {
            40
        }
    }

    /// The size of the file header.
    #[verifier::allow_in_spec]
    pub fn file_size(self) -> usize
        returns
            (if self.wide {
                64usize
            } else {
                52
            }),
    {
        if self.wide {
            64usize
        } else {
            52
        }
    }

    /// A 2-byte number.
    pub open spec fn half(self, x: u16) -> Seq<u8> {
        if self.big {
            crate::bytes::spec_be16(x)
        } else {
            crate::bytes::spec_le16(x)
        }
    }

    /// A 4-byte number.
    pub open spec fn word(self, x: u32) -> Seq<u8> {
        if self.big {
            crate::bytes::spec_be32(x)
        } else {
            crate::bytes::spec_le32(x)
        }
    }

    /// A number of the size of an address: its low half in a 32-bit file.
    pub open spec fn address(self, x: u64) -> Seq<u8> {
        if !self.wide {
            self.word(x as u32)
        } else if self.big {
            crate::bytes::spec_be64(x)
        } else {
            crate::bytes::spec_le64(x)
        }
    }

    /// Appends a 2-byte number.
    pub fn push_half(self, out: &mut Vec<u8>, x: u16)
        ensures
            final(out)@ == old(out)@ + self.half(x),
    {
        if self.big {
            let b: [u8; 2] = be16(x);
            push_all(out, &b);
        } else {
            let b: [u8; 2] = le16(x);
            push_all(out, &b);
        }
    }

    /// Appends a 4-byte number.
    pub fn push_word(self, out: &mut Vec<u8>, x: u32)
        ensures
            final(out)@ == old(out)@ + self.word(x),
    {
        if self.big {
            let b: [u8; 4] = be32(x);
            push_all(out, &b);
        } else {
            let b: [u8; 4] = le32(x);
            push_all(out, &b);
        }
    }

    /// Appends a number of the size of an address.
    pub fn push_address(self, out: &mut Vec<u8>, x: u64)
        ensures
            final(out)@ == old(out)@ + self.address(x),
    {
        if !self.wide {
            self.push_word(out, x as u32);
        } else if self.big {
            let b: [u8; 8] = be64(x);
            push_all(out, &b);
        } else {
            let b: [u8; 8] = le64(x);
            push_all(out, &b);
        }
    }

    /// A symbol table entry.
    #[verifier::opaque]
    pub open spec fn symbol(self, s: SymbolRecord) -> Seq<u8> {
        if self.wide {
            self.word(s.st_name) + seq![s.st_info, s.st_other] + self.half(s.st_shndx)
                + self.address(s.st_value) + self.address(s.st_size)
        } else {
            self.word(s.st_name) + self.address(s.st_value) + self.address(s.st_size)
                + seq![s.st_info, s.st_other] + self.half(s.st_shndx)
        }
    }

    /// Appends a symbol table entry.
    pub fn push_symbol(self, out: &mut Vec<u8>, s: SymbolRecord)
        ensures
            final(out)@ == old(out)@ + self.symbol(s),
    {
        self.push_word(out, s.st_name);
        if self.wide {
            out.push(s.st_info);
            out.push(s.st_other);
            self.push_half(out, s.st_shndx);
            self.push_address(out, s.st_value);
            self.push_address(out, s.st_size);
        } else {
            self.push_address(out, s.st_value);
            self.push_address(out, s.st_size);
            out.push(s.st_info);
            out.push(s.st_other);
            self.push_half(out, s.st_shndx);
        }
        reveal(Format::symbol);
        assert(out@ =~= old(out)@ + self.symbol(s));
    }

    /// A section header.
    #[verifier::opaque]
    pub open spec fn section(self, s: SectionRecord) -> Seq<u8> {
        self.word(s.sh_name) + self.word(s.sh_type) + self.address(s.sh_flags) + self.address(
            s.sh_addr,
        ) + self.address(s.sh_offset) + self.address(s.sh_size) + self.word(s.sh_link) + self.word(
            s.sh_info,
        ) + self.address(s.sh_addralign) + self.address(s.sh_entsize)
    }

    /// Appends a section header.
    pub fn push_section(self, out: &mut Vec<u8>, s: SectionRecord)
        ensures
            final(out)@ == old(out)@ + self.section(s),
    {
        self.push_word(out, s.sh_name);
        self.push_word(out, s.sh_type);
        self.push_address(out, s.sh_flags);
        self.push_address(out, s.sh_addr);
        self.push_address(out, s.sh_offset);
        self.push_address(out, s.sh_size);
        self.push_word(out, s.sh_link);
        self.push_word(out, s.sh_info);
        self.push_address(out, s.sh_addralign);
        self.push_address(out, s.sh_entsize);
        reveal(Format::section);
        assert(out@ =~= old(out)@ + self.section(s));
    }

    /// The identification of a file.
    pub open spec fn ident(self) -> Seq<u8> {
        seq![
            0x7f,
            0x45,
            0x4c,
            0x46,
            if self.wide {
                2u8
            } else {
                1u8
            },
            if self.big {
                2u8
            } else {
                1u8
            },
            1,
            0,
            0,
            0,
            0,
            0,
            0,
            0,
            0,
            0,
        ]
    }

    /// The file header of a relocatable object.
    #[verifier::opaque]
    pub open spec fn file(self, f: FileRecord) -> Seq<u8> {
        Seq::<u8>::empty() + self.ident() + self.half(1) + self.half(f.e_machine) + self.word(1) + self.address(0)
            + self.address(0) + self.address(f.e_shoff) + self.word(0) + self.half(
            self.file_size() as u16,
        ) + self.half(0) + self.half(0) + self.half(self.section_size() as u16) + self.half(
            f.e_shnum,
        ) + self.half(f.e_shstrndx)
    }

    /// The file header of a relocatable object.
    pub fn file_bytes(self, f: FileRecord) -> (r: Vec<u8>)
        ensures
            r@ == self.file(f),
    {
        reveal(Format::file);
        let mut out: Vec<u8> = Vec::new();
        let class: u8 = if self.wide {
            2
        } else {
            1
        };
        let order: u8 = if self.big {
            2
        } else {
            1
        };
        let ident: [u8; 16] = [
            0x7f,
            0x45,
            0x4c,
            0x46,
            class,
            order,
            1,
            0,
            0,
            0,
            0,
            0,
            0,
            0,
            0,
            0,
        ];
        assert(ident@ =~= self.ident());
        push_all(&mut out, &ident);
        self.push_half(&mut out, 1);
        self.push_half(&mut out, f.e_machine);
        self.push_word(&mut out, 1);
        self.push_address(&mut out, 0);
        self.push_address(&mut out, 0);
        self.push_address(&mut out, f.e_shoff);
        self.push_word(&mut out, 0);
        self.push_half(&mut out, self.file_size() as u16);
        self.push_half(&mut out, 0);
        self.push_half(&mut out, 0);
        self.push_half(&mut out, self.section_size() as u16);
        self.push_half(&mut out, f.e_shnum);
        self.push_half(&mut out, f.e_shstrndx);
        out
    }
}

/// Every record has the size its class gives it.
pub proof fn records_have_their_size(
    format: Format,
    s: SymbolRecord,
    h: SectionRecord,
    f: FileRecord,
)
    ensures
        format.symbol(s).len() == format.symbol_size(),
        format.section(h).len() == format.section_size(),
        format.file(f).len() == format.file_size(),
{
    reveal(Format::symbol);
    reveal(Format::section);
    reveal(Format::file);
}

} // verus!
