//! Binary inputs (`-b binary`, `--format=binary`).
//!
//! GNU ld reads a file named after `-b binary` as a raw blob: one `.data`
//! section (allocated, writable, alignment 1) holding the file, and three
//! global symbols named after the file as it was given on the command line,
//! with every byte that is not an ASCII letter or digit turned into `_`:
//!
//! - `_binary_<name>_start` at the start of the section,
//! - `_binary_<name>_end` at its end,
//! - `_binary_<name>_size`, an absolute symbol whose value is the size.
//!
//! [`convert`] wraps the bytes in an ELF relocatable object with exactly
//! that content, in the link's class and byte order, so the rest of the
//! link treats it like any other object.

use vstd::prelude::*;

use super::consts::{
    EM_NONE, SHF_ALLOC, SHF_WRITE, SHN_ABS, SHT_PROGBITS, SHT_STRTAB, SHT_SYMTAB, STB_GLOBAL,
    STT_NOTYPE,
};
use super::format::{FileRecord, Format, SectionRecord, SymbolRecord};
use crate::bytes::{push_all, write_over};
use crate::error::Error;

verus! {

/// Whether a byte is an ASCII letter or digit.
#[verifier::allow_in_spec]
pub fn is_alphanumeric(b: u8) -> bool
    returns
        ((0x30 <= b && b <= 0x39) || (0x41 <= b && b <= 0x5a) || (0x61 <= b && b <= 0x7a)),
{
    (0x30 <= b && b <= 0x39) || (0x41 <= b && b <= 0x5a) || (0x61 <= b && b <= 0x7a)
}

/// A byte of a symbol name.
#[verifier::allow_in_spec]
pub fn mangled_byte(b: u8) -> u8
    returns
        (if is_alphanumeric(b) {
            b
        } else {
            0x5f
        }),
{
    if is_alphanumeric(b) {
        b
    } else {
        0x5f
    }
}

/// `_binary_`, the path, `_` and the suffix.
pub open spec fn unmangled(path: Seq<u8>, suffix: Seq<u8>) -> Seq<u8> {
    seq![0x5f, 0x62, 0x69, 0x6e, 0x61, 0x72, 0x79, 0x5f] + path + seq![0x5f] + suffix
}

/// What [`mangle`] gives.
pub open spec fn spec_mangle(path: Seq<u8>, suffix: Seq<u8>) -> Seq<u8> {
    unmangled(path, suffix).map_values(|b: u8| mangled_byte(b))
}

/// The symbol name GNU ld derives from `path` and `suffix`: `_binary_`, the
/// path, `_`, the suffix, with every non-alphanumeric byte replaced by `_`.
pub fn mangle(path: &[u8], suffix: &str) -> (r: Vec<u8>)
    ensures
        r@ == spec_mangle(path@, vstd::utf8::encode_utf8(suffix@)),
{
    let mut text: Vec<u8> = Vec::new();
    let prefix: [u8; 8] = [0x5f, 0x62, 0x69, 0x6e, 0x61, 0x72, 0x79, 0x5f];
    push_all(&mut text, &prefix);
    push_all(&mut text, path);
    text.push(0x5f);
    push_all(&mut text, suffix.as_bytes());
    assert(text@ =~= unmangled(path@, vstd::utf8::encode_utf8(suffix@)));
    let mut name: Vec<u8> = Vec::new();
    let mut i: usize = 0;
    while i < text.len()
        invariant
            i <= text@.len(),
            name@ == text@.take(i as int).map_values(|b: u8| mangled_byte(b)),
        decreases text@.len() - i,
    {
        name.push(mangled_byte(text[i]));
        i += 1;
        assert(name@ =~= text@.take(i as int).map_values(|b: u8| mangled_byte(b)));
    }
    assert(text@.take(i as int) =~= text@);
    name
}

/// Zeros.
pub open spec fn zeros(n: nat) -> Seq<u8> {
    Seq::new(n, |i: int| 0u8)
}

/// The bytes from `len` to the next multiple of `align`.
pub open spec fn padding(len: nat, align: nat) -> nat {
    if len % align == 0 {
        0
    } else {
        (align - len % align) as nat
    }
}

/// `s` with zeros up to the next multiple of `align`.
pub open spec fn padded(s: Seq<u8>, align: nat) -> Seq<u8> {
    s + zeros(padding(s.len(), align))
}

/// Appends `n` zeros.
fn push_zeros(out: &mut Vec<u8>, n: usize)
    ensures
        final(out)@ == old(out)@ + zeros(n as nat),
{
    let mut i: usize = 0;
    while i < n
        invariant
            i <= n,
            out@ == old(out)@ + zeros(i as nat),
        decreases n - i,
    {
        out.push(0);
        i += 1;
        assert(out@ =~= old(out)@ + zeros(i as nat));
    }
}

/// Appends zeros up to the next multiple of `align`.
fn pad_to(out: &mut Vec<u8>, align: usize)
    requires
        align > 0,
    ensures
        final(out)@ == padded(old(out)@, align as nat),
{
    let over: usize = out.len() % align;
    if over != 0 {
        push_zeros(out, align - over);
    }
    assert(out@ =~= padded(old(out)@, align as nat));
}

/// A string table: a NUL, then every name with a NUL behind it.
pub open spec fn string_table(names: Seq<Seq<u8>>) -> Seq<u8>
    decreases names.len(),
{
    if names.len() == 0 {
        seq![0]
    } else {
        string_table(names.drop_last()) + names.last() + seq![0]
    }
}

/// The names of the three symbols.
pub open spec fn symbol_names(name: Seq<u8>) -> Seq<Seq<u8>> {
    seq![
        spec_mangle(name, vstd::utf8::encode_utf8("start"@)),
        spec_mangle(name, vstd::utf8::encode_utf8("end"@)),
        spec_mangle(name, vstd::utf8::encode_utf8("size"@)),
    ]
}

/// Where the name of symbol `i` is in the string table.
pub open spec fn name_offset(name: Seq<u8>, i: int) -> nat {
    string_table(symbol_names(name).take(i)).len()
}

/// The symbol at `name` of the string table.
#[verifier::allow_in_spec]
pub fn blob_symbol(st_name: u32, st_value: u64, st_shndx: u16) -> SymbolRecord
    returns
        (SymbolRecord {
            st_name,
            st_info: (STB_GLOBAL << 4) | STT_NOTYPE,
            st_other: 0,
            st_shndx,
            st_value,
            st_size: 0,
        }),
{
    SymbolRecord {
        st_name,
        st_info: (STB_GLOBAL << 4) | STT_NOTYPE,
        st_other: 0,
        st_shndx,
        st_value,
        st_size: 0,
    }
}

/// The symbol table behind `s`: a null symbol, then the start and the end of
/// `.data` and its size.
pub open spec fn symbol_table(s: Seq<u8>, format: Format, name: Seq<u8>, size: u64) -> Seq<u8> {
    s + format.symbol(SymbolRecord::null()) + format.symbol(
        blob_symbol(name_offset(name, 0) as u32, 0, 1),
    ) + format.symbol(blob_symbol(name_offset(name, 1) as u32, size, 1)) + format.symbol(
        blob_symbol(name_offset(name, 2) as u32, size, SHN_ABS),
    )
}

/// The section name table: `.data`, `.symtab`, `.strtab` and `.shstrtab`.
pub open spec fn section_names() -> Seq<u8> {
    seq![
        0, 0x2e, 0x64, 0x61, 0x74, 0x61, 0, 0x2e, 0x73, 0x79, 0x6d, 0x74, 0x61, 0x62, 0, 0x2e, 0x73,
        0x74, 0x72, 0x74, 0x61, 0x62, 0, 0x2e, 0x73, 0x68, 0x73, 0x74, 0x72, 0x74, 0x61, 0x62, 0,
    ]
}

/// Where the parts of an object are.
#[derive(Clone, Copy, Debug, PartialEq, Eq, Structural)]
pub struct Parts {
    /// The contents.
    pub data: u64,
    /// Their size.
    pub size: u64,
    /// The symbol table.
    pub symbols: u64,
    /// The string table.
    pub strings: u64,
    /// The section name table.
    pub names: u64,
}

/// The `.data` section.
#[verifier::allow_in_spec]
pub fn data_section(parts: Parts) -> SectionRecord
    returns
        (SectionRecord {
            sh_name: 1,
            sh_type: SHT_PROGBITS,
            sh_flags: SHF_ALLOC | SHF_WRITE,
            sh_offset: parts.data,
            sh_size: parts.size,
            sh_addralign: 1,
            ..SectionRecord::null()
        }),
{
    SectionRecord {
        sh_name: 1,
        sh_type: SHT_PROGBITS,
        sh_flags: SHF_ALLOC | SHF_WRITE,
        sh_offset: parts.data,
        sh_size: parts.size,
        sh_addralign: 1,
        ..SectionRecord::null()
    }
}

/// The `.symtab` section.
#[verifier::allow_in_spec]
pub fn symbol_section(format: Format, parts: Parts) -> SectionRecord
    returns
        (SectionRecord {
            sh_name: 7,
            sh_type: SHT_SYMTAB,
            sh_offset: parts.symbols,
            sh_size: parts.strings.wrapping_sub(parts.symbols),
            sh_link: 3,
            sh_info: 1,
            sh_addralign: format.word_size() as u64,
            sh_entsize: format.symbol_size() as u64,
            ..SectionRecord::null()
        }),
{
    SectionRecord {
        sh_name: 7,
        sh_type: SHT_SYMTAB,
        sh_offset: parts.symbols,
        sh_size: parts.strings.wrapping_sub(parts.symbols),
        sh_link: 3,
        sh_info: 1,
        sh_addralign: format.word_size() as u64,
        sh_entsize: format.symbol_size() as u64,
        ..SectionRecord::null()
    }
}

/// A string table section.
#[verifier::allow_in_spec]
pub fn string_section(sh_name: u32, sh_offset: u64, sh_size: u64) -> SectionRecord
    returns
        (SectionRecord {
            sh_name,
            sh_type: SHT_STRTAB,
            sh_offset,
            sh_size,
            sh_addralign: 1,
            ..SectionRecord::null()
        }),
{
    SectionRecord {
        sh_name,
        sh_type: SHT_STRTAB,
        sh_offset,
        sh_size,
        sh_addralign: 1,
        ..SectionRecord::null()
    }
}

/// The section headers behind `s`: null, `.data`, `.symtab`, `.strtab` and
/// `.shstrtab`.
pub open spec fn section_headers(s: Seq<u8>, format: Format, parts: Parts) -> Seq<u8> {
    s + format.section(SectionRecord::null()) + format.section(data_section(parts)) + format.section(
        symbol_section(format, parts),
    ) + format.section(
        string_section(15, parts.strings, parts.names.wrapping_sub(parts.strings)),
    ) + format.section(string_section(23, parts.names, 33))
}

/// The file header.
#[verifier::allow_in_spec]
pub fn file_header(e_shoff: u64) -> FileRecord
    returns
        (FileRecord { e_machine: EM_NONE, e_shoff, e_shnum: 5, e_shstrndx: 4 }),
{
    FileRecord { e_machine: EM_NONE, e_shoff, e_shnum: 5, e_shstrndx: 4 }
}

/// The contents after room for the file header.
pub open spec fn with_data(format: Format, data: Seq<u8>) -> Seq<u8> {
    padded(zeros(format.file_size() as nat) + data, format.word_size() as nat)
}

/// The contents and the symbols.
pub open spec fn with_symbols(format: Format, name: Seq<u8>, data: Seq<u8>) -> Seq<u8> {
    symbol_table(with_data(format, data), format, name, data.len() as u64)
}

/// The contents, the symbols and their names.
pub open spec fn with_strings(format: Format, name: Seq<u8>, data: Seq<u8>) -> Seq<u8> {
    with_symbols(format, name, data) + string_table(symbol_names(name))
}

/// Everything but the headers.
pub open spec fn with_names(format: Format, name: Seq<u8>, data: Seq<u8>) -> Seq<u8> {
    padded(with_strings(format, name, data) + section_names(), format.word_size() as nat)
}

/// Where the parts are.
pub open spec fn parts_of(format: Format, name: Seq<u8>, data: Seq<u8>) -> Parts {
    Parts {
        data: format.file_size() as u64,
        size: data.len() as u64,
        symbols: with_data(format, data).len() as u64,
        strings: with_symbols(format, name, data).len() as u64,
        names: with_strings(format, name, data).len() as u64,
    }
}

/// The object that holds `data`.
pub open spec fn object_of(format: Format, name: Seq<u8>, data: Seq<u8>) -> Seq<u8> {
    let body = with_names(format, name, data);
    crate::bytes::overlay(
        section_headers(body, format, parts_of(format, name, data)),
        0,
        format.file(file_header(body.len() as u64)),
    )
}

/// Whether a file of these contents and this name fits the format: the
/// names' offsets take 32 bits, and so do the offsets and sizes of a 32-bit
/// file, the highest of which is where the section headers are.
pub open spec fn fits(format: Format, name: Seq<u8>, data: Seq<u8>) -> bool {
    name_offset(name, 2) <= u32::MAX && (format.wide || with_names(format, name, data).len()
        <= u32::MAX)
}

/// The error of an input that does not fit the format.
pub fn too_large() -> (r: Error)
    ensures
        r == Error::Limit("binary input larger than the address space"),
{
    Error::Limit("binary input larger than the address space")
}

/// Appends a name and a NUL to a string table, and says where it is.
///
/// # Errors
///
/// [`Error::Limit`] when the offset takes more than 32 bits.
fn push_name(table: &mut Vec<u8>, name: &[u8]) -> (r: Result<u32, Error>)
    ensures
        if old(table)@.len() <= u32::MAX {
            r == Ok::<u32, Error>(old(table)@.len() as u32) && final(table)@ == old(table)@ + name@
                + seq![0]
        } else {
            r == Err::<u32, Error>(Error::Limit("binary input larger than the address space"))
        },
{
    let at: usize = table.len();
    if at as u64 > u32::MAX as u64 {
        return Err(too_large());
    }
    push_all(table, name);
    table.push(0);
    assert(table@ =~= old(table)@ + name@ + seq![0]);
    Ok(at as u32)
}

/// The three names fit as string table names do.
proof fn names_in_order(name: Seq<u8>)
    ensures
        string_table(symbol_names(name).take(0)) == seq![0u8],
        string_table(symbol_names(name).take(1)) == seq![0u8] + symbol_names(name)[0] + seq![0],
        string_table(symbol_names(name).take(2)) == string_table(symbol_names(name).take(1))
            + symbol_names(name)[1] + seq![0],
        string_table(symbol_names(name)) == string_table(symbol_names(name).take(2))
            + symbol_names(name)[2] + seq![0],
{
    let all = symbol_names(name);
    assert(all.take(1).drop_last() =~= all.take(0));
    assert(all.take(2).drop_last() =~= all.take(1));
    assert(all.drop_last() =~= all.take(2));
}

/// Wraps `data` in an ELF relocatable object as GNU ld's binary input
/// format would present it, in the link's class and byte order and
/// machine-neutral (`EM_NONE`): it has no code and no relocations, so it
/// links into any target, and names none. `name` is the input path as
/// given on the command line.
///
/// # Errors
///
/// [`Error::Limit`] when the file or its name does not fit the format.
pub fn convert(format: Format, name: &[u8], data: &[u8]) -> (r: Result<Vec<u8>, Error>)
    ensures
        if fits(format, name@, data@) {
            match r {
                Ok(object) => object@ == object_of(format, name@, data@),
                Err(_) => false,
            }
        } else {
            r == Err::<Vec<u8>, Error>(
                Error::Limit("binary input larger than the address space"),
            )
        },
{
    proof {
        names_in_order(name@);
    }
    let size: u64 = data.len() as u64;
    // String tables.
    let mut strtab: Vec<u8> = Vec::new();
    strtab.push(0);
    assert(strtab@ =~= string_table(symbol_names(name@).take(0)));
    let start: u32 = match push_name(&mut strtab, &mangle(name, "start")) {
        Ok(at) => at,
        Err(error) => {
            return Err(error);
        },
    };
    let end: u32 = match push_name(&mut strtab, &mangle(name, "end")) {
        Ok(at) => at,
        Err(error) => {
            return Err(error);
        },
    };
    let total: u32 = match push_name(&mut strtab, &mangle(name, "size")) {
        Ok(at) => at,
        Err(error) => {
            return Err(error);
        },
    };
    assert(strtab@ == string_table(symbol_names(name@)));
    let shstrtab: [u8; 33] = [
        0, 0x2e, 0x64, 0x61, 0x74, 0x61, 0, 0x2e, 0x73, 0x79, 0x6d, 0x74, 0x61, 0x62, 0, 0x2e, 0x73,
        0x74, 0x72, 0x74, 0x61, 0x62, 0, 0x2e, 0x73, 0x68, 0x73, 0x74, 0x72, 0x74, 0x61, 0x62, 0,
    ];
    assert(shstrtab@ =~= section_names());
    let mut out: Vec<u8> = Vec::new();
    push_zeros(&mut out, format.file_size());
    assert(out@ =~= zeros(format.file_size() as nat));
    // .data
    let data_offset: usize = out.len();
    push_all(&mut out, data);
    pad_to(&mut out, format.word_size());
    assert(out@ == with_data(format, data@));
    // .symtab: null, then the three globals.
    let symtab_offset: usize = out.len();
    format.push_symbol(&mut out, SymbolRecord::null());
    format.push_symbol(&mut out, blob_symbol(start, 0, 1));
    format.push_symbol(&mut out, blob_symbol(end, size, 1));
    format.push_symbol(&mut out, blob_symbol(total, size, SHN_ABS));
    assert(out@ == with_symbols(format, name@, data@));
    let strtab_offset: usize = out.len();
    push_all(&mut out, &strtab);
    let shstrtab_offset: usize = out.len();
    push_all(&mut out, &shstrtab);
    pad_to(&mut out, format.word_size());
    assert(out@ == with_names(format, name@, data@));
    let shoff: usize = out.len();
    if !format.holds(shoff as u64) {
        return Err(too_large());
    }
    // Section headers: null, .data, .symtab, .strtab, .shstrtab.
    let parts: Parts = Parts {
        data: data_offset as u64,
        size,
        symbols: symtab_offset as u64,
        strings: strtab_offset as u64,
        names: shstrtab_offset as u64,
    };
    format.push_section(&mut out, SectionRecord::null());
    format.push_section(&mut out, data_section(parts));
    format.push_section(&mut out, symbol_section(format, parts));
    format.push_section(
        &mut out,
        string_section(15, parts.strings, parts.names.wrapping_sub(parts.strings)),
    );
    format.push_section(&mut out, string_section(23, parts.names, 33));
    assert(out@ == section_headers(with_names(format, name@, data@), format, parts));
    // ELF header.
    let header: Vec<u8> = format.file_bytes(file_header(shoff as u64));
    proof {
        crate::elf::format::records_have_their_size(
            format,
            SymbolRecord::null(),
            SectionRecord::null(),
            file_header(shoff as u64),
        );
    }
    write_over(out.as_mut_slice(), 0, &header);
    Ok(out)
}

/// The object of a blob holds it whole, in the section that says so; where
/// the blob fits the format, the section's header can say so.
pub proof fn objects_hold_their_data(format: Format, name: Seq<u8>, data: Seq<u8>)
    requires
        data.len() <= usize::MAX,
    ensures
        ({
            let section = data_section(parts_of(format, name, data));
            &&& section.sh_size == data.len()
            &&& object_of(format, name, data).subrange(
                section.sh_offset as int,
                section.sh_offset + section.sh_size,
            ) == data
            &&& fits(format, name, data) ==> format.holds(section.sh_offset) && format.holds(
                section.sh_size,
            )
        }),
{
    let section = data_section(parts_of(format, name, data));
    crate::elf::format::records_have_their_size(
        format,
        SymbolRecord::null(),
        SectionRecord::null(),
        file_header(with_names(format, name, data).len() as u64),
    );
    let start = with_data(format, data);
    let object = object_of(format, name, data);
    assert(start.subrange(section.sh_offset as int, section.sh_offset + section.sh_size) =~= data);
    assert forall|i: int| format.file_size() <= i < start.len() implies #[trigger] object[i]
        == start[i] by {
        let symbols = with_symbols(format, name, data);
        assert(symbols[i] == start[i]);
        let strings = with_strings(format, name, data);
        assert(strings[i] == symbols[i]);
        let body = with_names(format, name, data);
        assert(body[i] == strings[i]);
        let all = section_headers(body, format, parts_of(format, name, data));
        assert(all[i] == body[i]);
    }
    assert(object.subrange(section.sh_offset as int, section.sh_offset + section.sh_size) =~= data);
}

} // verus!
