//! Shared object inputs.
//!
//! A shared object named on the command line (or found by `-l`, or listed
//! in a `GROUP` script) takes part in resolution through its dynamic symbol
//! table ([`SharedInput`]):
//!
//! - every defined global symbol with a default (or no) version is offered
//!   under its plain name, with [`DefinitionKind::Shared`] precedence;
//! - every versioned definition is also offered as `name@VERSION`, so a
//!   reference that names a version explicitly binds to it; a hidden
//!   (non-default) version is offered only that way;
//! - undefined symbols are references, so they extract archive members and
//!   export executable symbols the library needs.
//!
//! After resolution, [`plan_needed`] decides which shared objects get a
//! `DT_NEEDED` entry: all of them, except `--as-needed` ones that satisfy no
//! non-weak reference from a regular object or from another needed library
//! (as GNU ld decides). Symbols that bound to an unneeded library are bound
//! again to a needed one, or become undefined.
//!
//! [`check_shlib_undefined`] implements `--no-allow-shlib-undefined` (the
//! default for executables): undefined references of the needed libraries
//! must be defined by the link or by the libraries' own dependencies, which
//! are found, as GNU ld finds them, through `-rpath-link`, `-rpath`, the
//! libraries' `DT_RUNPATH`/`DT_RPATH`, `LD_LIBRARY_PATH`, the default
//! directories and `-L`.

pub mod dependencies;
pub mod needed;

pub use dependencies::{check_shlib_undefined, defined_in_dependencies};
pub use needed::{bind_unextracted, plan_needed, Needed};

use vstd::prelude::*;

use super::consts::{
    DT_RPATH, DT_RUNPATH, EM_X86_64, SHN_UNDEF, STB_LOCAL, STB_WEAK, VER_NDX_GLOBAL, VER_NDX_LOCAL,
};
use super::inputs::RawSymbol;
use crate::bytes::copied;
use crate::error::Error;
use crate::symbols::{DefinitionKind, SymbolName, SymbolUse};

verus! {

/// What a version of a shared object's symbol is.
#[derive(Clone, Copy, Debug, PartialEq, Eq, Structural)]
pub enum VersionKind {
    /// The library defines it.
    Defined,
    /// The library needs it.
    Needed,
}

/// A version of a shared object.
#[derive(Debug, PartialEq, Eq)]
pub struct VersionInfo {
    /// Its name.
    pub name: Vec<u8>,
    /// Whether it stands for the library itself.
    pub base: bool,
    /// Whether the library defines or needs it.
    pub kind: VersionKind,
}

/// The version of a dynamic symbol.
#[derive(Debug, PartialEq, Eq)]
pub struct SymbolVersion {
    /// Its index.
    pub index: u16,
    /// Whether it is not the default version.
    pub hidden: bool,
    /// What the index names.
    pub info: Option<VersionInfo>,
}

/// A dynamic symbol.
#[derive(Debug, PartialEq, Eq)]
pub struct DynSymbol {
    /// Its entry.
    pub raw: RawSymbol,
    /// Its name, when it could be read.
    pub name: Option<Vec<u8>>,
    /// Its version, when it could be read.
    pub version: Option<SymbolVersion>,
}

/// What a shared object file says.
#[derive(Debug, PartialEq, Eq)]
pub struct SharedObject {
    /// The file's name, for messages.
    pub file: String,
    /// Its ELF machine.
    pub machine: u16,
    /// Its `DT_SONAME`.
    pub soname: Option<Vec<u8>>,
    /// Its dynamic symbols.
    pub symbols: Vec<DynSymbol>,
    /// The index of its first global symbol.
    pub first_global: usize,
    /// The libraries it needs.
    pub needed: Vec<Vec<u8>>,
    /// The tags of its dynamic section, each with the string its value
    /// names, when it could be read.
    pub dynamic: Vec<(i64, Option<Vec<u8>>)>,
    /// Its versions.
    pub versions: Vec<VersionInfo>,
}

/// A shared object in the link.
#[derive(Debug, PartialEq, Eq)]
pub struct SharedInput {
    /// The parsed shared object.
    pub elf: SharedObject,
    /// The `DT_NEEDED` string for this library: its `DT_SONAME`, or the
    /// name it was found by.
    pub needed_name: Vec<u8>,
    /// `--as-needed` was in effect.
    pub as_needed: bool,
    /// Names offered to resolution.
    pub names: Vec<SymbolName>,
    /// How each name takes part in resolution.
    pub uses: Vec<SymbolUse>,
    /// The dynamic symbol index behind each name.
    pub symbols: Vec<u32>,
}

/// A name a shared object offers to resolution.
#[verifier::ext_equal]
pub struct Offer {
    /// The name.
    pub name: Seq<u8>,
    /// The version it names explicitly.
    pub version: Option<Seq<u8>>,
    /// How it takes part in resolution.
    pub role: SymbolUse,
    /// The dynamic symbol behind it.
    pub symbol: u32,
}

/// The version a definition is offered under besides its plain name: one the
/// library defines, not the library's own.
pub open spec fn offered_version(version: SymbolVersion) -> Option<Seq<u8>> {
    match version.info {
        Some(info) => if version.index > VER_NDX_GLOBAL && !info.base && info.kind
            == VersionKind::Defined {
            Some(info.name@)
        } else {
            None
        },
        None => None,
    }
}

/// What a definition is offered as.
pub open spec fn definition_offers(name: Seq<u8>, version: SymbolVersion, symbol: u32) -> Seq<
    Offer,
> {
    let role = SymbolUse::Definition { kind: DefinitionKind::Shared, aux: 0 };
    let plain = Offer { name, version: None, role, symbol };
    match offered_version(version) {
        None => seq![plain],
        Some(v) => if version.hidden {
            seq![Offer { version: Some(v), ..plain }]
        } else {
            seq![plain, Offer { version: Some(v), ..plain }]
        },
    }
}

/// What is wrong with a dynamic symbol.
#[derive(Clone, Copy, Debug, PartialEq, Eq, Structural)]
pub enum SymbolProblem {
    /// The name of the symbol of this number cannot be read.
    Name(u64),
    /// Its number takes more than 32 bits.
    Number,
    /// The version of the symbol of this number cannot be read.
    Version(u64),
}

impl SharedObject {
    /// What dynamic symbol `i` is offered as, or what is wrong with it.
    pub open spec fn offers_of(self, i: int) -> Result<Seq<Offer>, SymbolProblem> {
        let symbol = self.symbols@[i];
        if symbol.raw.binding() == STB_LOCAL {
            Ok(Seq::empty())
        } else {
            match symbol.name {
                None => Err(SymbolProblem::Name(i as u64)),
                Some(name) => if name@.len() == 0 {
                    Ok(Seq::empty())
                } else if i > u32::MAX {
                    Err(SymbolProblem::Number)
                } else if symbol.raw.st_shndx == SHN_UNDEF {
                    Ok(
                        seq![
                            Offer {
                                name: name@,
                                version: None,
                                role: SymbolUse::Reference {
                                    weak: symbol.raw.binding() == STB_WEAK,
                                },
                                symbol: i as u32,
                            },
                        ],
                    )
                } else {
                    match symbol.version {
                        None => Err(SymbolProblem::Version(i as u64)),
                        Some(version) => if version.index == VER_NDX_LOCAL {
                            Ok(Seq::empty())
                        } else {
                            Ok(definition_offers(name@, version, i as u32))
                        },
                    }
                },
            }
        }
    }

    /// What the dynamic symbols from `i` on are offered as, or what is wrong
    /// with the first that cannot be.
    pub open spec fn offers_from(self, i: int) -> Result<Seq<Offer>, SymbolProblem>
        decreases self.symbols@.len() - i,
    {
        if i < 0 || i >= self.symbols@.len() {
            Ok(Seq::empty())
        } else {
            match self.offers_of(i) {
                Err(problem) => Err(problem),
                Ok(here) => match self.offers_from(i + 1) {
                    Err(problem) => Err(problem),
                    Ok(rest) => Ok(here + rest),
                },
            }
        }
    }

    /// The first symbol that is offered; there is always a null symbol.
    pub open spec fn spec_first(self) -> int {
        if self.first_global > 1 {
            self.first_global as int
        } else {
            1
        }
    }

    /// The first `DT_RUNPATH` from entry `i` on or, without one, the last
    /// `DT_RPATH`; `rpath` is the last before `i`.
    pub open spec fn path_from(self, i: int, rpath: Option<Seq<u8>>) -> Option<Seq<u8>>
        decreases self.dynamic@.len() - i,
    {
        if i < 0 || i >= self.dynamic@.len() {
            rpath
        } else {
            let text = match self.dynamic@[i].1 {
                Some(text) => Some(text@),
                None => None,
            };
            if self.dynamic@[i].0 == DT_RUNPATH {
                text
            } else if self.dynamic@[i].0 == DT_RPATH {
                self.path_from(i + 1, text)
            } else {
                self.path_from(i + 1, rpath)
            }
        }
    }

    /// The `DT_RUNPATH` (or, without one, `DT_RPATH`) of the library.
    pub fn search_path(&self) -> (r: Option<&Vec<u8>>)
        ensures
            (match r {
                Some(path) => Some(path@),
                None => None,
            }) == self.path_from(0, None),
    {
        let mut rpath: Option<&Vec<u8>> = None;
        let mut i: usize = 0;
        while i < self.dynamic.len()
            invariant
                i <= self.dynamic@.len(),
                self.path_from(0, None) == self.path_from(
                    i as int,
                    match rpath {
                        Some(path) => Some(path@),
                        None => None,
                    },
                ),
            decreases self.dynamic@.len() - i,
        {
            let tag: i64 = self.dynamic[i].0;
            if tag == DT_RUNPATH {
                return self.dynamic[i].1.as_ref();
            }
            if tag == DT_RPATH {
                rpath = self.dynamic[i].1.as_ref();
            }
            i += 1;
        }
        rpath
    }
}

/// What names, roles and symbol numbers are offered, as lists of one length.
pub open spec fn is_offered(
    offers: Seq<Offer>,
    names: Seq<SymbolName>,
    uses: Seq<SymbolUse>,
    symbols: Seq<u32>,
) -> bool {
    &&& names.len() == offers.len()
    &&& uses == Seq::new(offers.len(), |i: int| offers[i].role)
    &&& symbols == Seq::new(offers.len(), |i: int| offers[i].symbol)
    &&& forall|i: int|
        0 <= i < names.len() ==> (#[trigger] names[i]).bytes@ == offers[i].name && (
        match (names[i].version, offers[i].version) {
            (Some(a), Some(b)) => a@ == b,
            (None, None) => true,
            _ => false,
        })
}

/// The error of a dynamic symbol.
pub open spec fn is_symbol_error(problem: SymbolProblem, file: Seq<char>, error: Error) -> bool {
    match problem {
        SymbolProblem::Number => error == Error::Limit("too many dynamic symbols"),
        SymbolProblem::Name(index) => match error {
            Error::Malformed { file: f, offset, what } => f@ == file && offset == index && what@
                == "dynamic symbol name"@,
            _ => false,
        },
        SymbolProblem::Version(index) => match error {
            Error::Malformed { file: f, offset, what } => f@ == file && offset == index && what@
                == "dynamic symbol version"@,
            _ => false,
        },
    }
}

/// The names, roles and numbers a shared object offers while they are read.
#[derive(Debug)]
struct Offered {
    names: Vec<SymbolName>,
    uses: Vec<SymbolUse>,
    symbols: Vec<u32>,
}

impl Offered {
    /// What is offered so far.
    spec fn holds(self, offers: Seq<Offer>) -> bool {
        is_offered(offers, self.names@, self.uses@, self.symbols@)
    }

    /// Offers a name.
    fn push(
        &mut self,
        name: &Vec<u8>,
        version: Option<&Vec<u8>>,
        role: SymbolUse,
        symbol: u32,
        Ghost(offers): Ghost<Seq<Offer>>,
    )
        requires
            old(self).holds(offers),
        ensures
            final(self).holds(
                offers.push(
                    Offer {
                        name: name@,
                        version: (match version {
                            Some(v) => Some(v@),
                            None => None,
                        }),
                        role,
                        symbol,
                    },
                ),
            ),
    {
        let bytes: Vec<u8> = copied(name);
        let named: Option<Vec<u8>> = match version {
            Some(v) => Some(copied(v)),
            None => None,
        };
        self.names.push(SymbolName { bytes, version: named });
        self.uses.push(role);
        self.symbols.push(symbol);
        proof {
            let now = offers.push(
                Offer {
                    name: name@,
                    version: (match version {
                        Some(v) => Some(v@),
                        None => None,
                    }),
                    role,
                    symbol,
                },
            );
            assert(self.uses@ =~= Seq::new(now.len(), |i: int| now[i].role));
            assert(self.symbols@ =~= Seq::new(now.len(), |i: int| now[i].symbol));
        }
    }
}

impl SharedInput {
    /// Takes a shared object into the link; symbols are read by
    /// [`load_symbols`](Self::load_symbols).
    ///
    /// `found_as` is the name the library was found by, used as its
    /// `DT_NEEDED` string when it has no `DT_SONAME`.
    ///
    /// # Errors
    ///
    /// Returns [`Error::Malformed`] for non-x86-64 files.
    pub fn parse(elf: SharedObject, found_as: &[u8], as_needed: bool) -> (r: Result<Self, Error>)
        ensures
            if elf.machine == EM_X86_64 {
                match r {
                    Ok(s) => s.elf == elf && s.as_needed == as_needed && s.needed_name@ == (
                    match elf.soname {
                        Some(name) => name@,
                        None => found_as@,
                    }) && s.names@.len() == 0 && s.uses@.len() == 0 && s.symbols@.len() == 0,
                    Err(_) => false,
                }
            } else {
                match r {
                    Err(Error::Malformed { file, offset, what }) => file@ == elf.file@ && offset
                        == 18 && what@ == "ELF machine (incompatible with elf_x86_64)"@,
                    _ => false,
                }
            },
    {
        if elf.machine != EM_X86_64 {
            return Err(
                Error::Malformed {
                    file: elf.file.clone(),
                    offset: 18,
                    what: "ELF machine (incompatible with elf_x86_64)".to_owned(),
                },
            );
        }
        let needed_name: Vec<u8> = match &elf.soname {
            Some(name) => copied(name),
            None => copied(found_as),
        };
        Ok(
            SharedInput {
                elf,
                needed_name,
                as_needed,
                names: Vec::new(),
                uses: Vec::new(),
                symbols: Vec::new(),
            },
        )
    }

    /// Reads the dynamic symbols into [`names`](Self::names),
    /// [`uses`](Self::uses) and [`symbols`](Self::symbols).
    ///
    /// # Errors
    ///
    /// Returns [`Error::Malformed`] for malformed symbol or version tables.
    pub fn load_symbols(&mut self) -> (r: Result<(), Error>)
        ensures
            final(self).elf == old(self).elf,
            final(self).needed_name == old(self).needed_name,
            final(self).as_needed == old(self).as_needed,
            match old(self).elf.offers_from(old(self).elf.spec_first()) {
                Ok(offers) => r is Ok && is_offered(
                    offers,
                    final(self).names@,
                    final(self).uses@,
                    final(self).symbols@,
                ),
                Err(problem) => *final(self) == *old(self) && match r {
                    Err(error) => is_symbol_error(problem, old(self).elf.file@, error),
                    Ok(_) => false,
                },
            },
    {
        let mut offered: Offered = Offered {
            names: Vec::new(),
            uses: Vec::new(),
            symbols: Vec::new(),
        };
        let first: usize = if self.elf.first_global > 1 {
            self.elf.first_global
        } else {
            1
        };
        let ghost all = self.elf.offers_from(first as int);
        let ghost mut offers: Seq<Offer> = Seq::empty();
        assert(offered.uses@ =~= Seq::new(offers.len(), |i: int| offers[i].role));
        assert(offered.symbols@ =~= Seq::new(offers.len(), |i: int| offers[i].symbol));
        proof {
            if all is Ok {
                assert(offers + all->Ok_0 =~= all->Ok_0);
            }
        }
        let mut index: usize = first;
        while index < self.elf.symbols.len()
            invariant
                *self == *old(self),
                1 <= index,
                offered.holds(offers),
                all == self.elf.offers_from(self.elf.spec_first()),
                match self.elf.offers_from(index as int) {
                    Ok(rest) => all == Ok::<Seq<Offer>, SymbolProblem>(offers + rest),
                    Err(problem) => all == Err::<Seq<Offer>, SymbolProblem>(problem),
                },
            decreases self.elf.symbols@.len() - index,
        {
            let ghost before = offers;
            let symbol: &DynSymbol = &self.elf.symbols[index];
            if symbol.raw.binding() != STB_LOCAL {
                let Some(name) = &symbol.name else {
                    return Err(
                        Error::Malformed {
                            file: self.elf.file.clone(),
                            offset: index as u64,
                            what: "dynamic symbol name".to_owned(),
                        },
                    );
                };
                if name.len() != 0 {
                    if index as u64 > u32::MAX as u64 {
                        return Err(Error::Limit("too many dynamic symbols"));
                    }
                    let number: u32 = index as u32;
                    if symbol.raw.st_shndx == SHN_UNDEF {
                        let role: SymbolUse = SymbolUse::Reference {
                            weak: symbol.raw.binding() == STB_WEAK,
                        };
                        offered.push(name, None, role, number, Ghost(offers));
                        proof {
                            offers = offers.push(
                                Offer { name: name@, version: None, role, symbol: number },
                            );
                        }
                    } else {
                        let Some(version) = &symbol.version else {
                            return Err(
                                Error::Malformed {
                                    file: self.elf.file.clone(),
                                    offset: index as u64,
                                    what: "dynamic symbol version".to_owned(),
                                },
                            );
                        };
                        if version.index != VER_NDX_LOCAL {
                            let role: SymbolUse = SymbolUse::Definition {
                                kind: DefinitionKind::Shared,
                                aux: 0,
                            };
                            let versioned: Option<&Vec<u8>> = match &version.info {
                                Some(info) => if version.index > VER_NDX_GLOBAL && !info.base
                                    && info.kind == VersionKind::Defined {
                                    Some(&info.name)
                                } else {
                                    None
                                },
                                None => None,
                            };
                            if !version.hidden || versioned.is_none() {
                                offered.push(name, None, role, number, Ghost(offers));
                                proof {
                                    offers = offers.push(
                                        Offer { name: name@, version: None, role, symbol: number },
                                    );
                                }
                            }
                            if let Some(version_name) = versioned {
                                offered.push(name, Some(version_name), role, number, Ghost(offers));
                                proof {
                                    offers = offers.push(
                                        Offer {
                                            name: name@,
                                            version: Some(version_name@),
                                            role,
                                            symbol: number,
                                        },
                                    );
                                }
                            }
                        }
                    }
                }
            }
            proof {
                let here = self.elf.offers_of(index as int)->Ok_0;
                assert(offers =~= before + here);
                match self.elf.offers_from(index + 1) {
                    Ok(rest) => {
                        assert(before + (here + rest) =~= offers + rest);
                    },
                    Err(_) => {},
                }
            }
            index += 1;
        }
        assert(offers + Seq::<Offer>::empty() =~= offers);
        self.names = offered.names;
        self.uses = offered.uses;
        self.symbols = offered.symbols;
        Ok(())
    }

    /// The `DT_RUNPATH` (or, without one, `DT_RPATH`) of the library.
    pub fn search_path(&self) -> (r: Option<&Vec<u8>>)
        ensures
            (match r {
                Some(path) => Some(path@),
                None => None,
            }) == self.elf.path_from(0, None),
    {
        self.elf.search_path()
    }
}

/// A hidden version is offered under its full name only, and an unversioned
/// definition under its plain name only.
pub proof fn hidden_versions_are_named(name: Seq<u8>, version: SymbolVersion, symbol: u32, i: int)
    requires
        0 <= i < definition_offers(name, version, symbol).len(),
    ensures
        ({
            let offer = definition_offers(name, version, symbol)[i];
            &&& offer.name == name
            &&& offer.symbol == symbol
            &&& offer.version is None ==> !version.hidden || offered_version(version) is None
            &&& offer.version is Some ==> offer.version == offered_version(version)
        }),
{
}

/// A definition with a version of the library's own is offered under that
/// version, and without one too unless it is hidden; any other is offered
/// without a version only.
pub proof fn definitions_are_offered_with_their_version(
    name: Seq<u8>,
    version: SymbolVersion,
    symbol: u32,
)
    ensures
        ({
            let offers = definition_offers(name, version, symbol);
            let named = version.index > 1 && (version.info matches Some(info) && !info.base
                && info.kind == VersionKind::Defined);
            let plain = exists|i: int|
                0 <= i < offers.len() && (#[trigger] offers[i]).version is None;
            let versioned = exists|i: int|
                0 <= i < offers.len() && (#[trigger] offers[i]).version == Some(
                    version.info->0.name@,
                );
            &&& plain <==> !named || !version.hidden
            &&& named ==> versioned
            &&& !named ==> offers.len() == 1
            &&& forall|i: int|
                0 <= i < offers.len() ==> (#[trigger] offers[i]).name == name && offers[i].symbol
                    == symbol && offers[i].role == (SymbolUse::Definition {
                    kind: DefinitionKind::Shared,
                    aux: 0,
                })
        }),
{
    let offers = definition_offers(name, version, symbol);
    assert(offers.len() > 0);
    let first = offers[0];
    let last = offers[offers.len() - 1];
    assert(0 <= offers.len() - 1 < offers.len());
}

/// What a dynamic symbol offers: nothing if it is local or has no name; a
/// reference if it is undefined, weak as its binding is; else a definition.
pub proof fn symbols_offer_what_they_are(elf: SharedObject, i: int)
    requires
        0 <= i < elf.symbols@.len(),
        i <= u32::MAX,
        elf.symbols@[i].name is Some,
    ensures
        ({
            let s = elf.symbols@[i];
            let name = elf.symbols@[i].name->0@;
            if s.raw.binding() == 0 || name.len() == 0 {
                elf.offers_of(i) == Ok::<Seq<Offer>, SymbolProblem>(Seq::empty())
            } else if s.raw.st_shndx == 0 {
                &&& elf.offers_of(i) matches Ok(offers)
                &&& offers.len() == 1
                &&& offers[0].name == name
                &&& offers[0].version is None
                &&& offers[0].symbol == i
                &&& offers[0].role == (SymbolUse::Reference { weak: s.raw.binding() == 2 })
            } else {
                match s.version {
                    None => elf.offers_of(i) is Err,
                    Some(version) => if version.index == 0 {
                        elf.offers_of(i) == Ok::<Seq<Offer>, SymbolProblem>(Seq::empty())
                    } else {
                        elf.offers_of(i) == Ok::<Seq<Offer>, SymbolProblem>(
                            definition_offers(name, version, i as u32),
                        )
                    },
                }
            }
        }),
{
}

/// Where the libraries of a library are searched: what the first
/// `DT_RUNPATH` says, and only without one what the last `DT_RPATH` does.
pub proof fn run_paths_go_first(elf: SharedObject, i: int, rpath: Option<Seq<u8>>, k: int)
    requires
        0 <= i <= k < elf.dynamic@.len(),
        forall|n: int| i <= n < k ==> (#[trigger] elf.dynamic@[n]).0 != 29,
        elf.dynamic@[k].0 == 29 || (elf.dynamic@[k].0 == 15 && forall|n: int|
            k < n < elf.dynamic@.len() ==> (#[trigger] elf.dynamic@[n]).0 != 29
                && elf.dynamic@[n].0 != 15),
    ensures
        elf.path_from(i, rpath) == (match elf.dynamic@[k].1 {
            Some(text) => Some(text@),
            None => None,
        }),
    decreases k - i,
{
    if i < k {
        let text = match elf.dynamic@[i].1 {
            Some(text) => Some(text@),
            None => None,
        };
        run_paths_go_first(
            elf,
            i + 1,
            if elf.dynamic@[i].0 == 15 {
                text
            } else {
                rpath
            },
            k,
        );
    } else if elf.dynamic@[k].0 == 15 {
        let text = match elf.dynamic@[k].1 {
            Some(text) => Some(text@),
            None => None,
        };
        paths_stay(elf, k + 1, text);
    }
}

/// Entries that are no search paths change nothing.
proof fn paths_stay(elf: SharedObject, i: int, rpath: Option<Seq<u8>>)
    requires
        0 <= i <= elf.dynamic@.len(),
        forall|n: int|
            i <= n < elf.dynamic@.len() ==> (#[trigger] elf.dynamic@[n]).0 != 29
                && elf.dynamic@[n].0 != 15,
    ensures
        elf.path_from(i, rpath) == rpath,
    decreases elf.dynamic@.len() - i,
{
    if i < elf.dynamic@.len() {
        paths_stay(elf, i + 1, rpath);
    }
}

} // verus!
