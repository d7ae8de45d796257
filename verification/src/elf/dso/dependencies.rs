//! The dependencies of needed libraries, and the symbols they leave
//! undefined.
//!
//! Finding a library takes reading files, which callers do: [`Search`] says
//! what to look for next and takes what was found.

use vstd::prelude::*;
use vstd::string::StringExecFns;

use super::{DynSymbol, SharedObject};
use super::needed::Needed;
use crate::bytes::{copied, push_all, same};
use crate::elf::consts::{SHN_UNDEF, STB_LOCAL};
use crate::elf::defined::number_set;
use crate::elf::inputs::ElfInput;
use crate::ids::SymbolId;
use crate::names::{add_name, has_name, no_names, NameSet};
use crate::options::{LinkOptions, OutputKind, UnresolvedSymbols};
use crate::order::first_of_each;
use crate::parallel::{concatenated, map_all, numbers};
use crate::symbols::{DefinitionKind, Resolution, Symbol, SymbolTable};
use crate::text::lossy_text;

verus! {

/// A library that another one needs.
#[derive(Debug, PartialEq, Eq)]
pub struct Request {
    /// Its name.
    pub name: Vec<u8>,
    /// The file that needs it.
    pub requester: Vec<u8>,
    /// The run path of that file.
    pub run_path: Option<Vec<u8>>,
    /// The input file that led there.
    pub owner: usize,
}

/// What a [`Request`] holds.
#[verifier::ext_equal]
pub struct RequestView {
    /// The library's name.
    pub name: Seq<u8>,
    /// The file that needs it.
    pub requester: Seq<u8>,
    /// The run path of that file.
    pub run_path: Option<Seq<u8>>,
    /// The input file that led there.
    pub owner: usize,
}

impl View for Request {
    type V = RequestView;

    open spec fn view(&self) -> RequestView {
        RequestView {
            name: self.name@,
            requester: self.requester@,
            run_path: match self.run_path {
                Some(path) => Some(path@),
                None => None,
            },
            owner: self.owner,
        }
    }
}

/// What requests hold.
pub open spec fn requests_view(queue: Seq<Request>) -> Seq<RequestView> {
    Seq::new(queue.len(), |i: int| queue[i]@)
}

/// The requests for what a library needs, from entry `i` on.
pub open spec fn requests_from(
    object: SharedObject,
    requester: Seq<u8>,
    owner: usize,
    i: int,
) -> Seq<
    RequestView,
>
    decreases object.needed@.len() - i,
{
    if i < 0 || i >= object.needed@.len() {
        Seq::empty()
    } else {
        seq![
            RequestView {
                name: object.needed@[i]@,
                requester,
                run_path: object.path_from(0, None),
                owner,
            },
        ] + requests_from(object, requester, owner, i + 1)
    }
}

/// Appends requests for what a library needs.
fn push_requests(queue: &mut Vec<Request>, object: &SharedObject, requester: &[u8], owner: usize)
    ensures
        requests_view(final(queue)@) == requests_view(old(queue)@) + requests_from(
            *object,
            requester@,
            owner,
            0,
        ),
{
    let ghost start = requests_view(queue@);
    let ghost whole = requests_from(*object, requester@, owner, 0);
    let mut i: usize = 0;
    while i < object.needed.len()
        invariant
            i <= object.needed@.len(),
            start + whole == requests_view(queue@) + requests_from(
                *object,
                requester@,
                owner,
                i as int,
            ),
        decreases object.needed@.len() - i,
    {
        let ghost before = requests_view(queue@);
        let run_path: Option<Vec<u8>> = match object.search_path() {
            Some(path) => Some(copied(path)),
            None => None,
        };
        let request: Request = Request {
            name: copied(&object.needed[i]),
            requester: copied(requester),
            run_path,
            owner,
        };
        let ghost view = request@;
        queue.push(request);
        proof {
            let rest = requests_from(*object, requester@, owner, i + 1);
            assert(view == (RequestView {
                name: object.needed@[i as int]@,
                requester: requester@,
                run_path: object.path_from(0, None),
                owner,
            }));
            assert(requests_view(queue@) =~= before.push(view));
            assert(before + (seq![view] + rest) =~= requests_view(queue@) + rest);
        }
        i += 1;
    }
    assert(requests_view(queue@) =~= start + whole);
}

/// The search for the transitive dependencies of the needed libraries that
/// are not in the link.
pub struct Search {
    /// The names of libraries that are in the link or were asked for.
    known: NameSet,
    /// What is asked for.
    queue: Vec<Request>,
    /// How much of it was looked at.
    cursor: usize,
    /// The input files some of whose dependencies were not found.
    incomplete: Vec<u32>,
}

/// The names of the libraries among the first `n` files.
pub open spec fn library_names(files: Seq<ElfInput>, n: int) -> Set<Seq<u8>>
    decreases n,
{
    if n <= 0 {
        Set::empty()
    } else {
        match files[n - 1].shared {
            Some(shared) => library_names(files, n - 1).insert(shared.needed_name@),
            None => library_names(files, n - 1),
        }
    }
}

/// The requests of the needed libraries among the first `n` files.
pub open spec fn first_requests(files: Seq<ElfInput>, needed: Seq<bool>, n: int) -> Seq<RequestView>
    decreases n,
{
    if n <= 0 {
        Seq::empty()
    } else {
        match files[n - 1].shared {
            Some(shared) => if super::needed::is_set(needed, n - 1) {
                first_requests(files, needed, n - 1) + requests_from(
                    shared.elf,
                    vstd::utf8::encode_utf8(files[n - 1].name@),
                    (n - 1) as usize,
                    0,
                )
            } else {
                first_requests(files, needed, n - 1)
            },
            None => first_requests(files, needed, n - 1),
        }
    }
}

/// Where the next request for a library that is not known is, from `cursor`
/// on.
pub open spec fn next_unknown(known: Set<Seq<u8>>, queue: Seq<RequestView>, cursor: int) -> Option<
    int,
>
    decreases queue.len() - cursor,
{
    if cursor < 0 || cursor >= queue.len() {
        None
    } else if known.contains(queue[cursor].name) {
        next_unknown(known, queue, cursor + 1)
    } else {
        Some(cursor)
    }
}

impl Search {
    /// The names of libraries that are in the link or were asked for.
    pub closed spec fn known(self) -> Set<Seq<u8>> {
        crate::names::names_in(self.known)
    }

    /// What is asked for.
    pub closed spec fn queue(self) -> Seq<RequestView> {
        requests_view(self.queue@)
    }

    /// How much of it was looked at.
    pub closed spec fn cursor(self) -> int {
        self.cursor as int
    }

    /// The input files some of whose dependencies were not found, as they
    /// were told.
    pub closed spec fn incomplete(self) -> Seq<u32> {
        self.incomplete@
    }

    /// A search for the dependencies of the needed libraries.
    pub fn new(files: &[ElfInput], needed: &Needed) -> (r: Search)
        ensures
            r.known() == library_names(files@, files@.len() as int),
            r.queue() == first_requests(files@, needed.needed@, files@.len() as int),
            r.cursor() == 0,
            r.incomplete().len() == 0,
    {
        let mut known: NameSet = no_names(0x6465_7073);
        let mut queue: Vec<Request> = Vec::new();
        assert(requests_view(queue@) =~= Seq::empty());
        let mut n: usize = 0;
        while n < files.len()
            invariant
                n <= files@.len(),
                crate::names::names_in(known) == library_names(files@, n as int),
                requests_view(queue@) == first_requests(files@, needed.needed@, n as int),
            decreases files@.len() - n,
        {
            if let Some(shared) = &files[n].shared {
                let _ = add_name(&mut known, copied(&shared.needed_name));
                if needed.is_needed(n) {
                    push_requests(&mut queue, &shared.elf, files[n].name.as_str().as_bytes(), n);
                }
            }
            n += 1;
        }
        Search { known, queue, cursor: 0, incomplete: Vec::new() }
    }

    /// The number of the next library to look for: one that is neither in
    /// the link nor was asked for before.
    pub fn next(&mut self) -> (r: Option<usize>)
        ensures
            final(self).queue() == old(self).queue(),
            final(self).incomplete() == old(self).incomplete(),
            match (
                r,
                next_unknown(old(self).known(), old(self).queue(), old(self).cursor()),
            ) {
                (Some(at), Some(i)) => at == i && at < final(self).queue().len()
                    && final(self).cursor() == i + 1 && final(self).known() == old(
                    self,
                ).known().insert(old(self).queue()[i].name),
                (None, None) => final(self).known() == old(self).known(),
                _ => false,
            },
    {
        let ghost known = self.known();
        let ghost queue = self.queue();
        while self.cursor < self.queue.len()
            invariant
                known == old(self).known(),
                queue == old(self).queue(),
                self.known() == known,
                self.queue() == queue,
                self.incomplete() == old(self).incomplete(),
                next_unknown(known, queue, old(self).cursor()) == next_unknown(
                    known,
                    queue,
                    self.cursor as int,
                ),
            decreases self.queue@.len() - self.cursor,
        {
            let at: usize = self.cursor;
            self.cursor += 1;
            let name: Vec<u8> = copied(&self.queue[at].name);
            assert(queue[at as int].name == name@);
            if !has_name(&self.known, &name) {
                let _ = add_name(&mut self.known, name);
                return Some(at);
            }
        }
        None
    }

    /// The request at a number.
    pub fn request(&self, at: usize) -> (r: &Request)
        requires
            at < self.queue().len(),
        ensures
            r@ == self.queue()[at as int],
    {
        &self.queue[at]
    }

    /// Takes what was found for the request at `at`: the file, and what it
    /// says if it is a shared object.
    pub fn found(&mut self, at: usize, path: &[u8], object: Option<&SharedObject>)
        requires
            at < old(self).queue().len(),
        ensures
            final(self).known() == old(self).known(),
            final(self).cursor() == old(self).cursor(),
            final(self).incomplete() == old(self).incomplete(),
            final(self).queue() == (match object {
                Some(so) => old(self).queue() + requests_from(
                    *so,
                    path@,
                    old(self).queue()[at as int].owner,
                    0,
                ),
                None => old(self).queue(),
            }),
    {
        let owner: usize = self.queue[at].owner;
        if let Some(so) = object {
            push_requests(&mut self.queue, so, path, owner);
        }
    }

    /// Takes that nothing was found for the request at `at`.
    pub fn missing(&mut self, at: usize)
        requires
            at < old(self).queue().len(),
        ensures
            final(self).known() == old(self).known(),
            final(self).cursor() == old(self).cursor(),
            final(self).queue() == old(self).queue(),
            final(self).incomplete() == (if old(self).queue()[at as int].owner <= u32::MAX {
                old(self).incomplete().push(old(self).queue()[at as int].owner as u32)
            } else {
                old(self).incomplete()
            }),
    {
        let owner: usize = self.queue[at].owner;
        if owner as u64 <= u32::MAX as u64 {
            self.incomplete.push(owner as u32);
        }
    }

    /// The input files some of whose dependencies were not found, in order.
    pub fn finish(&self) -> (r: Vec<u32>)
        ensures
            crate::elf::defined::is_number_set(self.incomplete(), r@),
    {
        number_set(&self.incomplete)
    }
}

/// No library is asked for twice, nor one that is in the link.
pub proof fn searches_are_new(known: Set<Seq<u8>>, queue: Seq<RequestView>, cursor: int)
    ensures
        match next_unknown(known, queue, cursor) {
            Some(i) => cursor <= i < queue.len() && !known.contains(queue[i].name),
            None => true,
        },
    decreases queue.len() - cursor,
{
    if 0 <= cursor < queue.len() && known.contains(queue[cursor].name) {
        searches_are_new(known, queue, cursor + 1);
    }
}

/// The warning about a library that was not found.
pub fn not_found_text(name: &str, requester: &str) -> (r: String)
    ensures
        r@ == name@ + ", needed by "@ + requester@
            + ", not found (try using -rpath or -rpath-link)"@,
{
    let mut text: String = String::new();
    text.append(name);
    text.append(", needed by ");
    text.append(requester);
    text.append(", not found (try using -rpath or -rpath-link)");
    assert(text@ =~= name@ + ", needed by "@ + requester@
        + ", not found (try using -rpath or -rpath-link)"@);
    text
}

/// The parts of a run path from byte `i` on; `part` is what of the first is
/// before `i`. Empty parts are left out.
pub open spec fn parts_from(path: Seq<u8>, part: Seq<u8>, i: int) -> Seq<Seq<u8>>
    decreases path.len() - i,
{
    if i < 0 || i >= path.len() {
        if part.len() == 0 {
            Seq::empty()
        } else {
            seq![part]
        }
    } else if path[i] == 0x3a {
        (if part.len() == 0 {
            Seq::empty()
        } else {
            seq![part]
        }) + parts_from(path, Seq::empty(), i + 1)
    } else {
        parts_from(path, part.push(path[i]), i + 1)
    }
}

/// What lists of bytes hold.
pub open spec fn bytes_view(list: Seq<Vec<u8>>) -> Seq<Seq<u8>> {
    Seq::new(list.len(), |i: int| list[i]@)
}

/// The directories of a run path, which colons part.
pub fn split_run_path(path: &[u8]) -> (r: Vec<Vec<u8>>)
    ensures
        bytes_view(r@) == parts_from(path@, Seq::empty(), 0),
{
    let mut out: Vec<Vec<u8>> = Vec::new();
    let mut part: Vec<u8> = Vec::new();
    let ghost whole = parts_from(path@, Seq::empty(), 0);
    assert(part@ =~= Seq::empty());
    assert(whole =~= bytes_view(out@) + whole);
    let mut i: usize = 0;
    while i < path.len()
        invariant
            i <= path@.len(),
            whole == bytes_view(out@) + parts_from(path@, part@, i as int),
        decreases path@.len() - i,
    {
        let ghost before = bytes_view(out@);
        if path[i] == 0x3a {
            let ghost rest = parts_from(path@, Seq::empty(), i + 1);
            let ghost done = part@;
            if part.len() != 0 {
                out.push(part);
                assert(bytes_view(out@) =~= before.push(done));
                assert(before + (seq![done] + rest) =~= bytes_view(out@) + rest);
            } else {
                assert(before + (Seq::<Seq<u8>>::empty() + rest) =~= bytes_view(out@) + rest);
            }
            part = Vec::new();
            assert(part@ =~= Seq::empty());
        } else {
            part.push(path[i]);
        }
        i += 1;
    }
    let ghost before = bytes_view(out@);
    let ghost done = part@;
    if part.len() != 0 {
        out.push(part);
        assert(bytes_view(out@) =~= before.push(done));
    }
    assert(whole =~= bytes_view(out@));
    out
}

/// Whether `pattern` stands at `i`.
pub open spec fn stands_at(s: Seq<u8>, pattern: Seq<u8>, i: int) -> bool {
    0 <= i && i + pattern.len() <= s.len() && s.subrange(i, i + pattern.len()) == pattern
}

/// `s` from `i` on with every `pattern` replaced.
pub open spec fn replaced_from(s: Seq<u8>, pattern: Seq<u8>, with: Seq<u8>, i: int) -> Seq<u8>
    decreases s.len() - i,
{
    if i < 0 || i >= s.len() {
        Seq::empty()
    } else if pattern.len() > 0 && stands_at(s, pattern, i) {
        with + replaced_from(s, pattern, with, i + pattern.len())
    } else {
        seq![s[i]] + replaced_from(s, pattern, with, i + 1)
    }
}

/// Whether `pattern` stands at `i`.
fn is_at(s: &[u8], pattern: &[u8], i: usize) -> (r: bool)
    requires
        i <= s@.len(),
    ensures
        r == stands_at(s@, pattern@, i as int),
{
    if pattern.len() > s.len() - i {
        return false;
    }
    same(vstd::slice::slice_subrange(s, i, i + pattern.len()), pattern)
}

/// `s` with every `pattern` replaced.
fn replaced(s: &[u8], pattern: &[u8], with: &[u8]) -> (r: Vec<u8>)
    requires
        pattern@.len() > 0,
    ensures
        r@ == replaced_from(s@, pattern@, with@, 0),
{
    let mut out: Vec<u8> = Vec::new();
    let ghost whole = replaced_from(s@, pattern@, with@, 0);
    assert(whole =~= out@ + whole);
    let mut i: usize = 0;
    while i < s.len()
        invariant
            i <= s@.len(),
            pattern@.len() > 0,
            whole == out@ + replaced_from(s@, pattern@, with@, i as int),
        decreases s@.len() - i,
    {
        let ghost before = out@;
        if is_at(s, pattern, i) {
            push_all(&mut out, with);
            proof {
                let rest = replaced_from(s@, pattern@, with@, i + pattern@.len());
                assert(before + (with@ + rest) =~= out@ + rest);
            }
            i += pattern.len();
        } else {
            out.push(s[i]);
            proof {
                let rest = replaced_from(s@, pattern@, with@, i + 1);
                assert(before + (seq![s@[i as int]] + rest) =~= out@ + rest);
            }
            i += 1;
        }
    }
    assert(whole =~= out@);
    out
}

/// `${ORIGIN}`.
pub open spec fn braced_origin() -> Seq<u8> {
    seq![0x24, 0x7b, 0x4f, 0x52, 0x49, 0x47, 0x49, 0x4e, 0x7d]
}

/// `$ORIGIN`.
pub open spec fn bare_origin() -> Seq<u8> {
    seq![0x24, 0x4f, 0x52, 0x49, 0x47, 0x49, 0x4e]
}

/// Expands `$ORIGIN` in a run path entry: `origin` is the directory of the
/// library it is in.
pub fn expand_origin(entry: &[u8], origin: &[u8]) -> (r: Vec<u8>)
    ensures
        r@ == replaced_from(
            replaced_from(entry@, braced_origin(), origin@, 0),
            bare_origin(),
            origin@,
            0,
        ),
{
    let braced: [u8; 9] = [0x24, 0x7b, 0x4f, 0x52, 0x49, 0x47, 0x49, 0x4e, 0x7d];
    let bare: [u8; 7] = [0x24, 0x4f, 0x52, 0x49, 0x47, 0x49, 0x4e];
    assert(braced@ =~= braced_origin());
    assert(bare@ =~= bare_origin());
    let first: Vec<u8> = replaced(entry, &braced, origin);
    replaced(&first, &bare, origin)
}

/// The parts of a run path with `$ORIGIN` expanded.
pub open spec fn expanded(parts: Seq<Seq<u8>>, origin: Seq<u8>) -> Seq<Seq<u8>> {
    Seq::new(
        parts.len(),
        |i: int|
            replaced_from(
                replaced_from(parts[i], braced_origin(), origin, 0),
                bare_origin(),
                origin,
                0,
            ),
    )
}

/// Appends directories.
fn push_dirs(out: &mut Vec<Vec<u8>>, dirs: &Vec<Vec<u8>>)
    ensures
        bytes_view(final(out)@) == bytes_view(old(out)@) + bytes_view(dirs@),
{
    let ghost start = bytes_view(out@);
    let mut i: usize = 0;
    while i < dirs.len()
        invariant
            i <= dirs@.len(),
            bytes_view(out@) =~= start + bytes_view(dirs@).take(i as int),
        decreases dirs@.len() - i,
    {
        let ghost before = bytes_view(out@);
        out.push(copied(&dirs[i]));
        assert(bytes_view(out@) =~= before.push(dirs@[i as int]@));
        i += 1;
    }
    assert(bytes_view(dirs@).take(i as int) =~= bytes_view(dirs@));
}

/// The directories a library is searched for in, where the run path of the
/// library that needs it is the text `path`, and that library lies in
/// `origin`: those of the run path, then those of the link.
pub fn run_path_directories(path: &[u8], origin: &[u8], base: &Vec<Vec<u8>>) -> (r: Vec<Vec<u8>>)
    ensures
        bytes_view(r@) == expanded(parts_from(path@, Seq::empty(), 0), origin@) + bytes_view(base@),
{
    let mut out: Vec<Vec<u8>> = Vec::new();
    assert(bytes_view(out@) =~= Seq::empty());
    let parts: Vec<Vec<u8>> = split_run_path(path);
    let ghost whole = expanded(bytes_view(parts@), origin@);
    let mut i: usize = 0;
    while i < parts.len()
        invariant
            i <= parts@.len(),
            whole == expanded(bytes_view(parts@), origin@),
            bytes_view(out@) =~= whole.take(i as int),
        decreases parts@.len() - i,
    {
        let ghost before = bytes_view(out@);
        out.push(expand_origin(&parts[i], origin));
        proof {
            let last = out@[i as int]@;
            assert(bytes_view(out@) =~= before.push(last));
            assert(whole[i as int] == last);
        }
        i += 1;
    }
    assert(whole.take(i as int) =~= whole);
    push_dirs(&mut out, base);
    out
}

/// A run path as text: its own bytes where they are valid UTF-8.
pub open spec fn run_path_text(path: Seq<u8>) -> Seq<u8> {
    if vstd::utf8::valid_utf8(path) {
        path
    } else {
        vstd::utf8::encode_utf8(crate::text::utf8_lossy(path))
    }
}

/// The directories a library is searched for in: the run path of the
/// library that needs it, which lies in `origin`, then those of the link.
pub fn directories(request: &Request, origin: &[u8], base: &Vec<Vec<u8>>) -> (r: Vec<Vec<u8>>)
    ensures
        bytes_view(r@) == (match request.run_path {
            Some(path) => expanded(parts_from(run_path_text(path@), Seq::empty(), 0), origin@),
            None => Seq::empty(),
        }) + bytes_view(base@),
{
    match &request.run_path {
        Some(path) => {
            let text: String = lossy_text(path);
            proof {
                if vstd::utf8::valid_utf8(path@) {
                    vstd::utf8::decode_utf8_encode_utf8(path@);
                }
            }
            run_path_directories(text.as_str().as_bytes(), origin, base)
        },
        None => {
            let mut out: Vec<Vec<u8>> = Vec::new();
            assert(bytes_view(out@) =~= Seq::empty());
            push_dirs(&mut out, base);
            out
        },
    }
}

/// Where a link searches for dependencies, by what names the directories.
#[derive(Debug, PartialEq, Eq)]
pub struct SearchDirs {
    /// `-rpath-link`.
    pub rpath_links: Vec<Vec<u8>>,
    /// `-rpath`.
    pub rpaths: Vec<Vec<u8>>,
    /// `LD_RUN_PATH`, which counts where there is no `-rpath`.
    pub run_path: Vec<Vec<u8>>,
    /// `LD_LIBRARY_PATH`.
    pub library_path: Vec<Vec<u8>>,
    /// The default directories.
    pub defaults: Vec<Vec<u8>>,
    /// `-L`.
    pub search_paths: Vec<Vec<u8>>,
}

/// The directories searched for a library's dependencies, in GNU ld's
/// order, except the library's own run path, which is added per library.
pub fn dependency_dirs(dirs: &SearchDirs) -> (r: Vec<Vec<u8>>)
    ensures
        bytes_view(r@) == Seq::empty() + bytes_view(dirs.rpath_links@) + bytes_view(dirs.rpaths@)
            + (if dirs.rpaths@.len() == 0 {
            bytes_view(dirs.run_path@)
        } else {
            Seq::empty()
        }) + bytes_view(dirs.library_path@) + bytes_view(dirs.defaults@) + bytes_view(
            dirs.search_paths@,
        ),
{
    let mut out: Vec<Vec<u8>> = Vec::new();
    assert(bytes_view(out@) =~= Seq::empty());
    push_dirs(&mut out, &dirs.rpath_links);
    push_dirs(&mut out, &dirs.rpaths);
    if dirs.rpaths.len() == 0 {
        push_dirs(&mut out, &dirs.run_path);
    } else {
        assert(bytes_view(out@) =~= bytes_view(out@) + Seq::empty());
    }
    push_dirs(&mut out, &dirs.library_path);
    push_dirs(&mut out, &dirs.defaults);
    push_dirs(&mut out, &dirs.search_paths);
    out
}

/// Whether a needed name is a path, which is not searched for.
pub fn is_path(name: &[u8]) -> (r: bool)
    ensures
        r == name@.contains(0x2f),
{
    let mut i: usize = 0;
    while i < name.len()
        invariant
            i <= name@.len(),
            forall|k: int| 0 <= k < i ==> #[trigger] name@[k] != 0x2f,
        decreases name@.len() - i,
    {
        if name[i] == 0x2f {
            assert(name@[i as int] == 0x2f);
            return true;
        }
        i += 1;
    }
    false
}

/// Whether a dynamic symbol defines `name` for others.
pub open spec fn symbol_defines(symbol: DynSymbol, name: Seq<u8>) -> bool {
    symbol.raw.st_shndx != SHN_UNDEF && symbol.raw.binding() != STB_LOCAL && match symbol.name {
        Some(n) => n@ == name,
        None => false,
    }
}

/// Whether one of the first `n` dynamic symbols of a library defines `name`.
pub open spec fn object_defines(object: SharedObject, name: Seq<u8>, n: int) -> bool {
    exists|i: int| 0 <= i < n && symbol_defines(#[trigger] object.symbols@[i], name)
}

/// Adds the names a library defines.
fn add_defined(names: &mut NameSet, object: &SharedObject)
    ensures
        forall|name: Seq<u8>| #[trigger]
            crate::names::names_in(*final(names)).contains(name) <==> (crate::names::names_in(
                *old(names),
            ).contains(name) || object_defines(*object, name, object.symbols@.len() as int)),
{
    let mut i: usize = 0;
    while i < object.symbols.len()
        invariant
            i <= object.symbols@.len(),
            forall|name: Seq<u8>| #[trigger]
                crate::names::names_in(*names).contains(name) <==> (crate::names::names_in(
                    *old(names),
                ).contains(name) || object_defines(*object, name, i as int)),
        decreases object.symbols@.len() - i,
    {
        let ghost before = crate::names::names_in(*names);
        let symbol: &DynSymbol = &object.symbols[i];
        if symbol.raw.st_shndx != SHN_UNDEF && symbol.raw.binding() != STB_LOCAL {
            if let Some(name) = &symbol.name {
                let _ = add_name(names, copied(name));
            }
        }
        proof {
            assert forall|name: Seq<u8>| #[trigger]
                crate::names::names_in(*names).contains(name) <==> (crate::names::names_in(
                    *old(names),
                ).contains(name) || object_defines(*object, name, i + 1)) by {
                assert(before.contains(name) <==> (crate::names::names_in(*old(names)).contains(
                    name,
                ) || object_defines(*object, name, i as int)));
                if object_defines(*object, name, i as int) {
                    let k = choose|k: int|
                        0 <= k < i && symbol_defines(#[trigger] object.symbols@[k], name);
                    assert(symbol_defines(object.symbols@[k], name));
                }
                if symbol_defines(object.symbols@[i as int], name) {
                    assert(object_defines(*object, name, i + 1));
                }
                if object_defines(*object, name, i + 1) {
                    let k = choose|k: int|
                        0 <= k < i + 1 && symbol_defines(#[trigger] object.symbols@[k], name);
                    if k < i {
                        assert(object_defines(*object, name, i as int));
                    }
                }
            }
        }
        i += 1;
    }
}

/// The first library from `d` on that defines `name`.
pub open spec fn first_defining(dependencies: Seq<SharedObject>, name: Seq<u8>, d: int) -> Option<
    usize,
>
    decreases dependencies.len() - d,
{
    if d < 0 || d >= dependencies.len() {
        None
    } else if object_defines(dependencies[d], name, dependencies[d].symbols@.len() as int) {
        Some(d as usize)
    } else {
        first_defining(dependencies, name, d + 1)
    }
}

/// For each of `names` (undefined symbols of the link), the dependency of
/// the needed libraries that is not itself in the link and defines it: GNU
/// ld's "DSO missing from command line" case.
pub fn defined_in_dependencies(
    needed: &Needed,
    names: &Vec<Vec<u8>>,
    dependencies: &Vec<SharedObject>,
) -> (r: Vec<Option<usize>>)
    ensures
        r@.len() == names@.len(),
        forall|i: int|
            0 <= i < r@.len() ==> #[trigger] r@[i] == (if exists|f: int| #[trigger]
                super::needed::is_set(needed.needed@, f) {
                first_defining(dependencies@, names@[i]@, 0)
            } else {
                None
            }),
{
    let total: usize = names.len();
    let mut found: Vec<Option<usize>> = Vec::new();
    let mut k: usize = 0;
    while k < total
        invariant
            k <= total,
            found@ == Seq::new(k as nat, |i: int| None::<usize>),
        decreases total - k,
    {
        found.push(None);
        k += 1;
        assert(found@ =~= Seq::new(k as nat, |i: int| None::<usize>));
    }
    if !needed.any_needed() {
        return found;
    }
    let mut d: usize = 0;
    while d < dependencies.len()
        invariant
            d <= dependencies@.len(),
            total == names@.len(),
            found@.len() == total,
            forall|i: int|
                0 <= i < total ==> (match #[trigger] found@[i] {
                    Some(at) => first_defining(dependencies@, names@[i]@, 0) == Some(at),
                    None => first_defining(dependencies@, names@[i]@, 0) == first_defining(
                        dependencies@,
                        names@[i]@,
                        d as int,
                    ),
                }),
        decreases dependencies@.len() - d,
    {
        let mut defined: NameSet = no_names(0x756e_6466);
        add_defined(&mut defined, &dependencies[d]);
        let mut i: usize = 0;
        let ghost before = found@;
        while i < total
            invariant
                i <= total,
                d < dependencies@.len(),
                total == names@.len(),
                found@.len() == total,
                before.len() == total,
                forall|name: Seq<u8>| #[trigger]
                    crate::names::names_in(defined).contains(name) <==> object_defines(
                        dependencies@[d as int],
                        name,
                        dependencies@[d as int].symbols@.len() as int,
                    ),
                forall|j: int|
                    0 <= j < total ==> (match #[trigger] before[j] {
                        Some(at) => first_defining(dependencies@, names@[j]@, 0) == Some(at),
                        None => first_defining(dependencies@, names@[j]@, 0) == first_defining(
                            dependencies@,
                            names@[j]@,
                            d as int,
                        ),
                    }),
                forall|j: int| i <= j < total ==> #[trigger] found@[j] == before[j],
                forall|j: int|
                    0 <= j < i ==> (match #[trigger] found@[j] {
                        Some(at) => first_defining(dependencies@, names@[j]@, 0) == Some(at),
                        None => first_defining(dependencies@, names@[j]@, 0) == first_defining(
                            dependencies@,
                            names@[j]@,
                            d + 1,
                        ),
                    }),
            decreases total - i,
        {
            assert(found@[i as int] == before[i as int]);
            if found[i].is_none() && has_name(&defined, &names[i]) {
                found.set(i, Some(d));
            }
            i += 1;
        }
        d += 1;
    }
    found
}

/// Whether undefined symbols of shared libraries are reported.
#[verifier::allow_in_spec]
pub fn is_checked(options: &LinkOptions) -> bool
    returns
        ((match options.allow_shlib_undefined {
            Some(allow) => !allow,
            None => options.kind != OutputKind::Shared,
        }) && (match options.unresolved_symbols {
            Some(UnresolvedSymbols::IgnoreAll) => false,
            Some(UnresolvedSymbols::IgnoreInSharedLibs) => false,
            _ => true,
        })),
{
    (match options.allow_shlib_undefined {
        Some(allow) => !allow,
        None => options.kind != OutputKind::Shared,
    }) && (match options.unresolved_symbols {
        Some(UnresolvedSymbols::IgnoreAll) => false,
        Some(UnresolvedSymbols::IgnoreInSharedLibs) => false,
        _ => true,
    })
}

/// The symbols that library `f` refers to from name `local` on and nothing
/// in the link defines.
pub open spec fn missing_from(
    files: Seq<ElfInput>,
    symbols: Seq<Symbol>,
    resolution: Resolution,
    f: int,
    local: int,
) -> Seq<(usize, SymbolId)>
    decreases resolution.ids_of(f).len() - local,
{
    if local < 0 || local >= resolution.ids_of(f).len() {
        Seq::empty()
    } else {
        let rest = missing_from(files, symbols, resolution, f, local + 1);
        let id = resolution.ids_of(f)[local];
        let kind = crate::symbols::definition_in(symbols, id).kind;
        if super::needed::is_strong(super::needed::shared_use(files[f], local)) && (kind
            == DefinitionKind::Undefined || kind == DefinitionKind::Lazy) {
            seq![(f as usize, id)] + rest
        } else {
            rest
        }
    }
}

/// The symbols that library `f` refers to, when it is needed, and nothing in
/// the link defines.
pub open spec fn missing_in(
    files: Seq<ElfInput>,
    symbols: Seq<Symbol>,
    resolution: Resolution,
    needed: Seq<bool>,
    f: int,
) -> Seq<(usize, SymbolId)> {
    if super::needed::is_set(needed, f) {
        missing_from(files, symbols, resolution, f, 0)
    } else {
        Seq::empty()
    }
}

/// The symbols that needed libraries refer to and nothing in the link
/// defines.
pub open spec fn all_missing(
    files: Seq<ElfInput>,
    symbols: Seq<Symbol>,
    resolution: Resolution,
    needed: Seq<bool>,
) -> Seq<(usize, SymbolId)> {
    crate::parallel::flattened(
        Seq::new(files.len(), |f: int| missing_in(files, symbols, resolution, needed, f)),
    )
}

/// The symbols that library `f` refers to and nothing in the link defines.
fn list_missing(
    files: &[ElfInput],
    symbols: &SymbolTable,
    resolution: &Resolution,
    needed: &Needed,
    f: usize,
) -> (r: Vec<(usize, SymbolId)>)
    requires
        f < files@.len(),
    ensures
        r@ == missing_in(files@, symbols.symbols@, *resolution, needed.needed@, f as int),
{
    let mut out: Vec<(usize, SymbolId)> = Vec::new();
    if !needed.is_needed(f) {
        return out;
    }
    let ghost whole = missing_from(files@, symbols.symbols@, *resolution, f as int, 0);
    assert(whole =~= out@ + whole);
    let total: usize = resolution.count(f);
    let mut local: usize = 0;
    while local < total
        invariant
            local <= total,
            f < files@.len(),
            total == resolution.ids_of(f as int).len(),
            whole == out@ + missing_from(
                files@,
                symbols.symbols@,
                *resolution,
                f as int,
                local as int,
            ),
        decreases total - local,
    {
        let ghost before = out@;
        let ghost rest = missing_from(
            files@,
            symbols.symbols@,
            *resolution,
            f as int,
            local + 1,
        );
        let id: SymbolId = resolution.symbol_id(f, local);
        let strong: bool = match &files[f].shared {
            Some(shared) => local < shared.uses.len() && super::needed::is_strong(
                shared.uses[local],
            ),
            None => false,
        };
        let kind: DefinitionKind = symbols.definition_kind(id);
        if strong && (kind == DefinitionKind::Undefined || kind == DefinitionKind::Lazy) {
            out.push((f, id));
            assert(before + (seq![(f, id)] + rest) =~= out@ + rest);
        }
        local += 1;
    }
    assert(whole =~= out@);
    out
}

/// The symbols that needed libraries refer to and nothing in the link
/// defines, when they are reported at all. Where there are some, the
/// libraries' dependencies have to be found before
/// [`check_shlib_undefined`] can tell what is undefined.
pub fn missing_references(
    files: &[ElfInput],
    symbols: &SymbolTable,
    resolution: &Resolution,
    needed: &Needed,
    options: &LinkOptions,
) -> (r: Vec<(usize, SymbolId)>)
    ensures
        r@ == (if is_checked(options) {
            all_missing(files@, symbols.symbols@, *resolution, needed.needed@)
        } else {
            Seq::empty()
        }),
{
    if !is_checked(options) {
        return Vec::new();
    }
    let positions: Vec<usize> = numbers(files.len());
    let each = |f: &usize| -> (one: Vec<(usize, SymbolId)>)
        requires
            *f < files@.len(),
        ensures
            one@ == missing_in(
                files@,
                symbols.symbols@,
                *resolution,
                needed.needed@,
                *f as int,
            ),
        { list_missing(files, symbols, resolution, needed, *f) };
    let lists: Vec<Vec<(usize, SymbolId)>> = map_all(&positions, each);
    proof {
        assert forall|f: int| 0 <= f < lists@.len() implies (#[trigger] lists@[f])@ == missing_in(
            files@,
            symbols.symbols@,
            *resolution,
            needed.needed@,
            f,
        ) by {
            assert(each.ensures((&positions@[f],), lists@[f]));
        }
        assert(crate::parallel::lists_view(lists@) =~= Seq::new(
            files@.len(),
            |f: int|
                missing_in(files@, symbols.symbols@, *resolution, needed.needed@, f),
        ));
    }
    concatenated(&lists)
}

/// Whether a library of the link defines `name`.
pub open spec fn link_defines(files: Seq<ElfInput>, name: Seq<u8>, n: int) -> bool {
    exists|f: int| 0 <= f < n && file_defines(#[trigger] files[f], name)
}

/// Whether a library defines `name`.
pub open spec fn file_defines(file: ElfInput, name: Seq<u8>) -> bool {
    match file.shared {
        Some(shared) => object_defines(shared.elf, name, shared.elf.symbols@.len() as int),
        None => false,
    }
}

/// Whether one of the first `n` dependencies defines `name`.
pub open spec fn dependency_defines(
    dependencies: Seq<SharedObject>,
    name: Seq<u8>,
    n: int,
) -> bool {
    exists|d: int|
        0 <= d < n && object_defines(
            #[trigger] dependencies[d],
            name,
            dependencies[d].symbols@.len() as int,
        )
}

/// Whether `name` is among names.
pub open spec fn is_ignored(names: Seq<Vec<u8>>, name: Seq<u8>) -> bool {
    exists|i: int| 0 <= i < names.len() && (#[trigger] names[i])@ == name
}

/// The names that the libraries of the link, needed or not, and the
/// dependencies loaded for the check define.
fn defined_names(files: &[ElfInput], dependencies: &Vec<SharedObject>) -> (r: NameSet)
    ensures
        forall|name: Seq<u8>| #[trigger]
            crate::names::names_in(r).contains(name) <==> (dependency_defines(
                dependencies@,
                name,
                dependencies@.len() as int,
            ) || link_defines(files@, name, files@.len() as int)),
{
    let mut names: NameSet = no_names(0x756e_6466);
    let mut d: usize = 0;
    while d < dependencies.len()
        invariant
            d <= dependencies@.len(),
            forall|name: Seq<u8>| #[trigger]
                crate::names::names_in(names).contains(name) <==> dependency_defines(
                    dependencies@,
                    name,
                    d as int,
                ),
        decreases dependencies@.len() - d,
    {
        let ghost before = crate::names::names_in(names);
        add_defined(&mut names, &dependencies[d]);
        proof {
            assert forall|name: Seq<u8>| #[trigger]
                crate::names::names_in(names).contains(name) <==> dependency_defines(
                    dependencies@,
                    name,
                    d + 1,
                ) by {
                let here = object_defines(
                    dependencies@[d as int],
                    name,
                    dependencies@[d as int].symbols@.len() as int,
                );
                assert(before.contains(name) <==> dependency_defines(
                    dependencies@,
                    name,
                    d as int,
                ));
                if dependency_defines(dependencies@, name, d as int) {
                    let k = choose|k: int|
                        0 <= k < d && object_defines(
                            #[trigger] dependencies@[k],
                            name,
                            dependencies@[k].symbols@.len() as int,
                        );
                    assert(object_defines(
                        dependencies@[k],
                        name,
                        dependencies@[k].symbols@.len() as int,
                    ));
                }
            }
        }
        d += 1;
    }
    let ghost loaded = crate::names::names_in(names);
    let mut f: usize = 0;
    while f < files.len()
        invariant
            f <= files@.len(),
            forall|name: Seq<u8>| #[trigger]
                crate::names::names_in(names).contains(name) <==> (loaded.contains(name)
                    || link_defines(files@, name, f as int)),
        decreases files@.len() - f,
    {
        let ghost before = crate::names::names_in(names);
        if let Some(shared) = &files[f].shared {
            add_defined(&mut names, &shared.elf);
        }
        proof {
            assert forall|name: Seq<u8>| #[trigger]
                crate::names::names_in(names).contains(name) <==> (loaded.contains(name)
                    || link_defines(files@, name, f + 1)) by {
                assert(before.contains(name) <==> (loaded.contains(name) || link_defines(
                    files@,
                    name,
                    f as int,
                )));
                if link_defines(files@, name, f as int) {
                    let k = choose|k: int| 0 <= k < f && file_defines(#[trigger] files@[k], name);
                    assert(file_defines(files@[k], name));
                }
                if file_defines(files@[f as int], name) {
                    assert(link_defines(files@, name, f + 1));
                }
                if link_defines(files@, name, f + 1) {
                    let k = choose|k: int| 0 <= k < f + 1 && file_defines(#[trigger] files@[k], name);
                    if k < f {
                        assert(link_defines(files@, name, f as int));
                    }
                }
            }
        }
        f += 1;
    }
    names
}

/// Whether a reference that the link leaves undefined is reported: its
/// library's dependencies were all found, none of them nor a library of the
/// link defines it, and the options do not say to ignore it.
pub open spec fn is_reported(
    files: Seq<ElfInput>,
    symbols: SymbolTable,
    options: LinkOptions,
    dependencies: Seq<SharedObject>,
    incomplete: Seq<u32>,
    entry: (usize, SymbolId),
) -> bool {
    let name = symbols.name_of(entry.1);
    !(entry.0 <= u32::MAX && incomplete.contains(entry.0 as u32)) && !dependency_defines(
        dependencies,
        name,
        dependencies.len() as int,
    ) && !link_defines(files, name, files.len() as int) && !is_ignored(
        options.ignore_unresolved_symbols@,
        name,
    )
}

/// What the references of `missing` from `i` on that are reported are sorted
/// by.
pub open spec fn reported_rows(
    files: Seq<ElfInput>,
    symbols: SymbolTable,
    options: LinkOptions,
    dependencies: Seq<SharedObject>,
    incomplete: Seq<u32>,
    missing: Seq<(usize, SymbolId)>,
    i: int,
) -> Seq<(u64, u64, u64)>
    decreases missing.len() - i,
{
    if i < 0 || i >= missing.len() {
        Seq::empty()
    } else {
        let rest = reported_rows(
            files,
            symbols,
            options,
            dependencies,
            incomplete,
            missing,
            i + 1,
        );
        if is_reported(files, symbols, options, dependencies, incomplete, missing[i]) {
            seq![(missing[i].1.position as u64, missing[i].0 as u64, 0u64)] + rest
        } else {
            rest
        }
    }
}

/// What is undefined: the library that refers to it, and the symbol.
pub open spec fn undefined_of(rows: Seq<(u64, u64, u64)>) -> Seq<(usize, SymbolId)> {
    Seq::new(
        rows.len(),
        |i: int| (rows[i].1 as usize, SymbolId { position: rows[i].0 as usize }),
    )
}

/// What [`check_shlib_undefined`] finds.
#[derive(Debug, PartialEq, Eq)]
pub struct Undefined {
    /// The undefined symbols, each with the first library that refers to it.
    pub references: Vec<(usize, SymbolId)>,
    /// How many of them are errors.
    pub errors: usize,
}

/// Whether a name is among those to ignore.
fn ignores(names: &Vec<Vec<u8>>, name: &[u8]) -> (r: bool)
    ensures
        r == is_ignored(names@, name@),
{
    let mut i: usize = 0;
    while i < names.len()
        invariant
            i <= names@.len(),
            forall|k: int| 0 <= k < i ==> (#[trigger] names@[k])@ != name@,
        decreases names@.len() - i,
    {
        if same(&names[i], name) {
            assert(names@[i as int]@ == name@);
            return true;
        }
        i += 1;
    }
    false
}

/// Whether a number is in a list.
fn holds_number(list: &[u32], n: usize) -> (r: bool)
    ensures
        r == (n <= u32::MAX && list@.contains(n as u32)),
{
    if n as u64 > u32::MAX as u64 {
        return false;
    }
    let mut i: usize = 0;
    while i < list.len()
        invariant
            i <= list@.len(),
            n <= u32::MAX,
            forall|k: int| 0 <= k < i ==> #[trigger] list@[k] != n,
        decreases list@.len() - i,
    {
        if list[i] == n as u32 {
            assert(list@[i as int] == n as u32);
            return true;
        }
        i += 1;
    }
    false
}

/// Finds the undefined symbols of needed shared libraries that nothing in
/// the link, nor the libraries' own dependencies, defines: of `missing`
/// (from [`missing_references`]), those that `dependencies` do not define;
/// `incomplete` tells the libraries whose dependencies were not all found.
pub fn check_shlib_undefined(
    files: &[ElfInput],
    symbols: &SymbolTable,
    options: &LinkOptions,
    missing: &Vec<(usize, SymbolId)>,
    dependencies: &Vec<SharedObject>,
    incomplete: &[u32],
) -> (r: Undefined)
    ensures
        exists|rows: Seq<(u64, u64, u64)>| #[trigger]
            crate::order::is_first_of_each(
                reported_rows(
                    files@,
                    *symbols,
                    *options,
                    dependencies@,
                    incomplete@,
                    missing@,
                    0,
                ),
                rows,
            ) && r.references@ == undefined_of(rows),
        r.errors == (if options.warn_unresolved_symbols {
            0
        } else {
            r.references@.len()
        }),
{
    let defined: NameSet = defined_names(files, dependencies);
    let mut listed: Vec<(u64, u64, u64)> = Vec::new();
    let ghost whole = reported_rows(
        files@,
        *symbols,
        *options,
        dependencies@,
        incomplete@,
        missing@,
        0,
    );
    assert(whole =~= listed@ + whole);
    let mut i: usize = 0;
    while i < missing.len()
        invariant
            i <= missing@.len(),
            forall|name: Seq<u8>| #[trigger]
                crate::names::names_in(defined).contains(name) <==> (dependency_defines(
                    dependencies@,
                    name,
                    dependencies@.len() as int,
                ) || link_defines(files@, name, files@.len() as int)),
            whole == listed@ + reported_rows(
                files@,
                *symbols,
                *options,
                dependencies@,
                incomplete@,
                missing@,
                i as int,
            ),
        decreases missing@.len() - i,
    {
        let ghost before = listed@;
        let ghost rest = reported_rows(
            files@,
            *symbols,
            *options,
            dependencies@,
            incomplete@,
            missing@,
            i + 1,
        );
        let (file, id) = missing[i];
        let empty: Vec<u8> = Vec::new();
        assert(empty@ =~= Seq::empty());
        let name: &Vec<u8> = if id.position < symbols.symbols.len() {
            &symbols.symbols[id.position].name.bytes
        } else {
            &empty
        };
        assert(name@ == symbols.name_of(id));
        if !holds_number(incomplete, file) && !has_name(&defined, name) && !ignores(
            &options.ignore_unresolved_symbols,
            name,
        ) {
            let row: (u64, u64, u64) = (id.position as u64, file as u64, 0);
            listed.push(row);
            assert(before + (seq![row] + rest) =~= listed@ + rest);
        }
        i += 1;
    }
    assert(whole =~= listed@);
    let rows: Vec<(u64, u64, u64)> = first_of_each(listed);
    let mut references: Vec<(usize, SymbolId)> = Vec::new();
    let mut k: usize = 0;
    while k < rows.len()
        invariant
            k <= rows@.len(),
            references@ == undefined_of(rows@).take(k as int),
        decreases rows@.len() - k,
    {
        references.push((rows[k].1 as usize, SymbolId { position: rows[k].0 as usize }));
        k += 1;
        assert(references@ =~= undefined_of(rows@).take(k as int));
    }
    assert(references@ =~= undefined_of(rows@));
    let errors: usize = if options.warn_unresolved_symbols {
        0
    } else {
        references.len()
    };
    Undefined { references, errors }
}

/// A library asks for each library it lists, along its own search path.
pub proof fn listed_libraries_are_requested(
    object: SharedObject,
    requester: Seq<u8>,
    owner: usize,
    i: int,
    k: int,
)
    requires
        0 <= i <= object.needed@.len(),
    ensures
        requests_from(object, requester, owner, i).len() == object.needed@.len() - i,
        i <= k < object.needed@.len() ==> requests_from(object, requester, owner, i)[k - i] == (
        RequestView {
            name: object.needed@[k]@,
            requester,
            run_path: object.path_from(0, None),
            owner,
        }),
    decreases object.needed@.len() - i,
{
    if i < object.needed@.len() {
        listed_libraries_are_requested(object, requester, owner, i + 1, k);
    }
}

/// The libraries that are known are those of the link.
pub proof fn libraries_of_the_link_are_known(files: Seq<ElfInput>, n: int, name: Seq<u8>)
    requires
        0 <= n <= files.len(),
    ensures
        library_names(files, n).contains(name) <==> exists|k: int|
            0 <= k < n && ((#[trigger] files[k]).shared matches Some(shared) && shared.needed_name@
                == name),
    decreases n,
{
    if n > 0 {
        libraries_of_the_link_are_known(files, n - 1, name);
    }
}

/// What a needed library lists is asked for at first.
pub proof fn needed_libraries_ask_first(
    files: Seq<ElfInput>,
    needed: Seq<bool>,
    n: int,
    f: int,
    k: int,
    shared: super::SharedInput,
)
    requires
        0 <= f < n <= files.len(),
        f < needed.len(),
        needed[f],
        files[f].shared == Some(shared),
        0 <= k < shared.elf.needed@.len(),
    ensures
        exists|i: int|
            0 <= i < first_requests(files, needed, n).len() && (#[trigger] first_requests(
                files,
                needed,
                n,
            )[i]).name == shared.elf.needed@[k]@ && first_requests(files, needed, n)[i].owner
                == f as usize,
    decreases n,
{
    let all = first_requests(files, needed, n);
    let before = first_requests(files, needed, n - 1);
    if f == n - 1 {
        let requester = vstd::utf8::encode_utf8(files[n - 1].name@);
        listed_libraries_are_requested(shared.elf, requester, f as usize, 0, k);
        let more = requests_from(shared.elf, requester, f as usize, 0);
        assert(all[before.len() + k] == more[k]);
    } else {
        needed_libraries_ask_first(files, needed, n - 1, f, k, shared);
        let i = choose|i: int|
            0 <= i < before.len() && (#[trigger] before[i]).name == shared.elf.needed@[k]@
                && before[i].owner == f as usize;
        assert(all[i] == before[i]);
    }
}

/// A search path is split at its colons, and empty parts are left out.
pub proof fn paths_are_split_at_colons(path: Seq<u8>, part: Seq<u8>, i: int, k: int)
    requires
        0 <= i <= path.len(),
        forall|n: int| 0 <= n < part.len() ==> part[n] != 0x3a,
        0 <= k < parts_from(path, part, i).len(),
    ensures
        parts_from(path, part, i)[k].len() > 0,
        forall|n: int|
            0 <= n < parts_from(path, part, i)[k].len() ==> parts_from(path, part, i)[k][n] != 0x3a,
    decreases path.len() - i,
{
    if i < path.len() {
        if path[i] == 0x3a {
            let rest = parts_from(path, Seq::empty(), i + 1);
            let here: Seq<Seq<u8>> = if part.len() == 0 {
                Seq::empty()
            } else {
                seq![part]
            };
            if k >= here.len() {
                paths_are_split_at_colons(path, Seq::empty(), i + 1, k - here.len());
            }
        } else {
            paths_are_split_at_colons(path, part.push(path[i]), i + 1, k);
        }
    }
}

/// A path without a colon is one part, and a path in front of a colon has
/// its parts in front of those behind it.
pub proof fn parts_stand_between_colons(path: Seq<u8>, part: Seq<u8>, i: int, k: int)
    requires
        0 <= i <= k <= path.len(),
        forall|n: int| i <= n < k ==> path[n] != 0x3a,
    ensures
        ({
            let here = part + path.subrange(i, k);
            let one: Seq<Seq<u8>> = if here.len() == 0 {
                Seq::empty()
            } else {
                seq![here]
            };
            &&& k == path.len() ==> parts_from(path, part, i) == one
            &&& k < path.len() && path[k] == 0x3a ==> parts_from(path, part, i) == one + parts_from(
                path,
                Seq::empty(),
                k + 1,
            )
        }),
    decreases k - i,
{
    if i < k {
        parts_stand_between_colons(path, part.push(path[i]), i + 1, k);
        assert(part.push(path[i]) + path.subrange(i + 1, k) =~= part + path.subrange(i, k));
    } else {
        assert(part + path.subrange(i, k) =~= part);
    }
}

/// Text in which a pattern does not stand stays as it is, up to where it
/// does; there the other text takes its place.
pub proof fn only_the_pattern_is_replaced(
    s: Seq<u8>,
    pattern: Seq<u8>,
    with: Seq<u8>,
    i: int,
    k: int,
)
    requires
        0 <= i <= k <= s.len(),
        pattern.len() > 0,
        forall|n: int| i <= n < k ==> !(#[trigger] stands_at(s, pattern, n)),
    ensures
        k == s.len() ==> replaced_from(s, pattern, with, i) == s.subrange(i, k),
        stands_at(s, pattern, k) ==> replaced_from(s, pattern, with, i) == s.subrange(i, k) + with
            + replaced_from(s, pattern, with, k + pattern.len()),
    decreases k - i,
{
    if i < k {
        assert(!stands_at(s, pattern, i));
        only_the_pattern_is_replaced(s, pattern, with, i + 1, k);
        assert(seq![s[i]] + s.subrange(i + 1, k) =~= s.subrange(i, k));
        if stands_at(s, pattern, k) {
            assert(replaced_from(s, pattern, with, i) =~= s.subrange(i, k) + with + replaced_from(
                s,
                pattern,
                with,
                k + pattern.len(),
            ));
        }
    } else {
        assert(s.subrange(i, k) =~= Seq::<u8>::empty());
        if stands_at(s, pattern, k) {
            assert(replaced_from(s, pattern, with, i) =~= s.subrange(i, k) + with + replaced_from(
                s,
                pattern,
                with,
                k + pattern.len(),
            ));
        }
    }
}

/// The two spellings of the origin are the same word, with braces and
/// without.
pub proof fn origins_are_one_word()
    ensures
        bare_origin() == seq![0x24u8] + seq![0x4fu8, 0x52, 0x49, 0x47, 0x49, 0x4e],
        braced_origin() == seq![0x24u8, 0x7b] + bare_origin().skip(1) + seq![0x7du8],
{
    assert(bare_origin() =~= seq![0x24u8] + seq![0x4fu8, 0x52, 0x49, 0x47, 0x49, 0x4e]);
    assert(braced_origin() =~= seq![0x24u8, 0x7b] + bare_origin().skip(1) + seq![0x7du8]);
}

/// The library that defines a name is the first that does.
pub proof fn the_first_library_defines(
    dependencies: Seq<SharedObject>,
    name: Seq<u8>,
    d: int,
    k: int,
    s: int,
)
    requires
        0 <= d <= k < dependencies.len() <= usize::MAX,
        0 <= s < dependencies[k].symbols@.len(),
        dependencies[k].symbols@[s].raw.st_shndx != 0,
        dependencies[k].symbols@[s].raw.binding() != 0,
        dependencies[k].symbols@[s].name matches Some(n) && n@ == name,
    ensures
        first_defining(dependencies, name, d) matches Some(at) && d <= at <= k && object_defines(
            dependencies[at as int],
            name,
            dependencies[at as int].symbols@.len() as int,
        ),
    decreases k - d,
{
    if d == k {
        assert(symbol_defines(dependencies[k].symbols@[s], name));
    } else if !object_defines(dependencies[d], name, dependencies[d].symbols@.len() as int) {
        the_first_library_defines(dependencies, name, d + 1, k, s);
    }
}

/// A symbol is missing that a library has a strong reference to and nothing
/// defines.
pub proof fn undefined_references_are_missing(
    files: Seq<ElfInput>,
    symbols: Seq<Symbol>,
    resolution: Resolution,
    f: int,
    local: int,
    id: SymbolId,
)
    requires
        0 <= local <= resolution.ids_of(f).len(),
        id.position < symbols.len(),
    ensures
        missing_from(files, symbols, resolution, f, local).contains((f as usize, id)) <==> (
        symbols[id.position as int].definition.kind == DefinitionKind::Undefined
            || symbols[id.position as int].definition.kind == DefinitionKind::Lazy) && exists|k: int|
            local <= k < resolution.ids_of(f).len() && #[trigger] resolution.ids_of(f)[k] == id
                && super::needed::shared_use(files[f], k) == (crate::symbols::SymbolUse::Reference {
                weak: false,
            }),
    decreases resolution.ids_of(f).len() - local,
{
    if local < resolution.ids_of(f).len() {
        undefined_references_are_missing(files, symbols, resolution, f, local + 1, id);
        let rest = missing_from(files, symbols, resolution, f, local + 1);
        let all = missing_from(files, symbols, resolution, f, local);
        let e = (f as usize, id);
        if all.len() > rest.len() {
            assert(all[0] == (f as usize, resolution.ids_of(f)[local]));
            if rest.contains(e) {
                let k = choose|k: int| 0 <= k < rest.len() && rest[k] == e;
                assert(all[k + 1] == e);
            }
            if all.contains(e) {
                let k = choose|k: int| 0 <= k < all.len() && all[k] == e;
                if k > 0 {
                    assert(rest[k - 1] == e);
                }
            }
        }
        if resolution.ids_of(f)[local] == id {
            assert(all.len() > rest.len() ==> all.contains(e));
        }
    }
}

/// Of the missing symbols those are reported whose library had all its
/// libraries found, that no library defines and that are not to be ignored.
pub proof fn missing_symbols_are_reported(
    files: Seq<ElfInput>,
    symbols: SymbolTable,
    options: LinkOptions,
    dependencies: Seq<SharedObject>,
    incomplete: Seq<u32>,
    missing: Seq<(usize, SymbolId)>,
    i: int,
    k: int,
)
    requires
        0 <= i <= k < missing.len(),
    ensures
        is_reported(files, symbols, options, dependencies, incomplete, missing[k])
            ==> reported_rows(
            files,
            symbols,
            options,
            dependencies,
            incomplete,
            missing,
            i,
        ).contains((missing[k].1.position as u64, missing[k].0 as u64, 0)),
        missing[k].0 <= u32::MAX && incomplete.contains(missing[k].0 as u32) ==> !is_reported(
            files,
            symbols,
            options,
            dependencies,
            incomplete,
            missing[k],
        ),
    decreases k - i,
{
    let all = reported_rows(files, symbols, options, dependencies, incomplete, missing, i);
    let rest = reported_rows(files, symbols, options, dependencies, incomplete, missing, i + 1);
    let row = (missing[k].1.position as u64, missing[k].0 as u64, 0u64);
    if i < k {
        missing_symbols_are_reported(
            files,
            symbols,
            options,
            dependencies,
            incomplete,
            missing,
            i + 1,
            k,
        );
        if rest.contains(row) {
            let n = choose|n: int| 0 <= n < rest.len() && rest[n] == row;
            if all.len() > rest.len() {
                assert(all[n + 1] == row);
            }
        }
    } else if is_reported(files, symbols, options, dependencies, incomplete, missing[k]) {
        assert(all[0] == row);
    }
}

} // verus!
