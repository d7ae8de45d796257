# qld

The ELF parts of a linker, verified with Verus: what each architecture's
relocations mean and how they are written, relaxed and reached, which shared
libraries a link needs, and the dynamic symbol table.

- `src/arch`: instruction encodings of the architectures.
- `src/elf/arch`: relocations, relaxation, PLT entries, thunks and build
  attributes of the architectures, and what chooses between them.
- `src/elf/dso.rs` and below: shared libraries as inputs, which of them are
  needed, and what they leave undefined.
- `src/elf/defined.rs` and below: the symbols the linker defines itself, those
  of linker scripts and of `--defsym`.
- `src/elf/dynsym.rs` and below: `.dynsym`, `.dynstr`, the hash and version
  tables and `.dynamic`.
- `src/elf/common.rs`, `src/elf/binary_input.rs`: common symbols, and binary
  files as inputs.
- `src/elf/inputs.rs`, `refs.rs`, `layout.rs`, `src/symbols.rs`,
  `src/options.rs`: what these work on.
- `app`: the search for the dependencies of libraries on disk.

Proofs are about what is computed from these values. Reading files is left to
the callers; hash tables and parallel loops come from `hashbrown`, `foldhash`
and `rayon`, and sorting and lossy UTF-8 decoding from the standard library:
what they do is stated in `src/names.rs`, `src/parallel.rs`, `src/order.rs` and
`src/text.rs` and not proved.
