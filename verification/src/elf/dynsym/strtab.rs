//! String tables under construction.

use vstd::prelude::*;

use crate::bytes::{copied, push_all};
use crate::error::Error;
use crate::names::{add_text, find_text, no_texts, TextIndex};
use crate::parallel::{concatenated, map_all};

verus! {

/// What a string table holds.
#[verifier::ext_equal]
pub struct Table {
    /// Its contents.
    pub data: Seq<u8>,
    /// The offset of each string.
    pub index: Map<Seq<u8>, u32>,
}

/// Whether `text` stands at `offset`, with its terminator.
pub open spec fn holds(data: Seq<u8>, offset: int, text: Seq<u8>) -> bool {
    &&& 0 <= offset
    &&& offset + text.len() < data.len()
    &&& data.subrange(offset, offset + text.len()) == text
    &&& data[offset + text.len()] == 0
}

impl Table {
    /// A table with no string but the empty one.
    pub open spec fn empty() -> Table {
        Table { data: seq![0u8], index: Map::empty() }
    }

    /// Whether a string is in the table; the empty one always is.
    pub open spec fn has(self, text: Seq<u8>) -> bool {
        text.len() == 0 || self.index.dom().contains(text)
    }

    /// The offset of a string of the table.
    pub open spec fn at(self, text: Seq<u8>) -> u32 {
        if text.len() == 0 {
            0
        } else {
            self.index[text]
        }
    }

    /// Whether every string of an earlier table is where it was.
    pub open spec fn extends(self, earlier: Table) -> bool {
        forall|text: Seq<u8>| #[trigger]
            earlier.has(text) ==> self.has(text) && self.at(text) == earlier.at(text)
    }

    /// The offset of a string, 0 where it is not in the table.
    pub open spec fn lookup(self, text: Seq<u8>) -> u32 {
        if self.has(text) {
            self.at(text)
        } else {
            0
        }
    }

    /// The table with a string.
    pub open spec fn with(self, text: Seq<u8>) -> Table {
        if self.has(text) {
            self
        } else {
            Table {
                data: self.data + text + seq![0u8],
                index: self.index.insert(text, self.data.len() as u32),
            }
        }
    }

    /// The table with the strings from `i` on.
    pub open spec fn with_all(self, texts: Seq<Seq<u8>>, i: int) -> Table
        decreases texts.len() - i,
    {
        if i < 0 || i >= texts.len() {
            self
        } else {
            self.with(texts[i]).with_all(texts, i + 1)
        }
    }

    /// The table with a string, unless that starts past what an offset can
    /// say.
    pub open spec fn add(self, text: Seq<u8>) -> Option<Table> {
        if !self.has(text) && self.data.len() > u32::MAX {
            None
        } else {
            Some(self.with(text))
        }
    }

    /// The table with the strings from `i` on added one by one, unless one
    /// cannot be.
    pub open spec fn add_each(self, texts: Seq<Seq<u8>>, i: int) -> Option<Table>
        decreases texts.len() - i,
    {
        if i < 0 || i >= texts.len() {
            Some(self)
        } else {
            match self.add(texts[i]) {
                Some(t) => t.add_each(texts, i + 1),
                None => None,
            }
        }
    }

    /// The table with strings, unless it would be larger than offsets can
    /// say.
    pub open spec fn add_all(self, texts: Seq<Seq<u8>>) -> Option<Table> {
        let t = self.with_all(texts, 0);
        if t.data.len() > u32::MAX {
            None
        } else {
            Some(t)
        }
    }

    /// The first byte is a terminator, and every string stands where the
    /// index says.
    pub open spec fn is_sound(self) -> bool {
        &&& self.data.len() > 0 && self.data[0] == 0
        &&& forall|text: Seq<u8>| #[trigger]
            self.index.dom().contains(text) ==> holds(self.data, self.index[text] as int, text)
    }
}

/// Strings stay where they are.
pub proof fn strings_stay(t: Table, texts: Seq<Seq<u8>>, i: int, text: Seq<u8>)
    requires
        t.has(text),
    ensures
        t.with_all(texts, i).has(text),
        t.with_all(texts, i).at(text) == t.at(text),
    decreases texts.len() - i,
{
    if 0 <= i < texts.len() {
        strings_stay(t.with(texts[i]), texts, i + 1, text);
    }
}

/// Adding strings one by one keeps the others.
pub proof fn additions_extend(t: Table, texts: Seq<Seq<u8>>)
    ensures
        t.with_all(texts, 0).extends(t),
        match t.add_each(texts, 0) {
            Some(r) => r.extends(t),
            None => true,
        },
{
    each_adds(t, texts, 0);
    assert forall|text: Seq<u8>| #[trigger] t.has(text) implies t.with_all(texts, 0).has(text)
        && t.with_all(texts, 0).at(text) == t.at(text) by {
        strings_stay(t, texts, 0, text);
    }
}

/// Strings that were added are there.
pub proof fn strings_are_there(t: Table, texts: Seq<Seq<u8>>, i: int, k: int)
    requires
        0 <= i <= k < texts.len(),
    ensures
        t.with_all(texts, i).has(texts[k]),
    decreases k - i,
{
    let next = t.with(texts[i]);
    if i == k {
        strings_stay(next, texts, i + 1, texts[k]);
    } else {
        strings_are_there(next, texts, i + 1, k);
    }
}

/// Tables only grow.
pub proof fn tables_grow(t: Table, texts: Seq<Seq<u8>>, i: int)
    ensures
        t.with_all(texts, i).data.len() >= t.data.len(),
    decreases texts.len() - i,
{
    if 0 <= i < texts.len() {
        tables_grow(t.with(texts[i]), texts, i + 1);
    }
}

/// Adding strings at once is adding them one by one.
pub proof fn all_is_one_by_one(t: Table, texts: Seq<Seq<u8>>)
    ensures
        match t.add_all(texts) {
            Some(r) => t.add_each(texts, 0) == Some(r),
            None => true,
        },
{
    if t.with_all(texts, 0).data.len() <= u32::MAX {
        each_is_with(t, texts, 0);
    }
}

/// Adding one by one succeeds where the result is not too large.
proof fn each_is_with(t: Table, texts: Seq<Seq<u8>>, i: int)
    requires
        t.with_all(texts, i).data.len() <= u32::MAX,
    ensures
        t.add_each(texts, i) == Some(t.with_all(texts, i)),
    decreases texts.len() - i,
{
    if 0 <= i < texts.len() {
        tables_grow(t.with(texts[i]), texts, i + 1);
        each_is_with(t.with(texts[i]), texts, i + 1);
    }
}

/// Where adding one by one succeeds, it adds every string.
pub proof fn each_adds(t: Table, texts: Seq<Seq<u8>>, i: int)
    ensures
        match t.add_each(texts, i) {
            Some(r) => r == t.with_all(texts, i),
            None => true,
        },
    decreases texts.len() - i,
{
    if 0 <= i < texts.len() {
        if let Some(next) = t.add(texts[i]) {
            each_adds(next, texts, i + 1);
        }
    }
}

/// A string that is added stands where the index says, and so do the
/// others.
pub proof fn strings_are_held(t: Table, text: Seq<u8>)
    requires
        t.is_sound(),
        t.has(text) || t.data.len() <= u32::MAX,
    ensures
        t.with(text).is_sound(),
        holds(t.with(text).data, t.with(text).at(text) as int, text),
{
    let r = t.with(text);
    if t.has(text) {
        if text.len() == 0 {
            assert(t.data.subrange(0, 0) =~= text);
        }
    } else {
        assert(r.data.subrange(t.data.len() as int, (t.data.len() + text.len()) as int) =~= text);
        assert forall|other: Seq<u8>| #[trigger] r.index.dom().contains(other) implies holds(
            r.data,
            r.index[other] as int,
            other,
        ) by {
            if other != text {
                assert(t.index.dom().contains(other));
                let at = t.index[other] as int;
                assert(r.data.subrange(at, at + other.len()) =~= t.data.subrange(
                    at,
                    at + other.len(),
                ));
            }
        }
    }
}

/// What lists of bytes hold.
pub open spec fn texts_view(texts: Seq<&[u8]>) -> Seq<Seq<u8>> {
    Seq::new(texts.len(), |i: int| texts[i]@)
}

/// A string table under construction, deduplicating whole strings.
pub struct StrTab {
    data: Vec<u8>,
    index: TextIndex,
}

impl View for StrTab {
    type V = Table;

    closed spec fn view(&self) -> Table {
        Table { data: self.data@, index: crate::names::numbers_in(self.index) }
    }
}

/// The strings of `texts` at positions, each with its terminator.
spec fn pieces(texts: Seq<Seq<u8>>, positions: Seq<usize>) -> Seq<Seq<u8>> {
    Seq::new(positions.len(), |k: int| texts[positions[k] as int] + seq![0u8])
}

/// Whether a string is among those of `texts` at positions.
spec fn is_copied(texts: Seq<Seq<u8>>, positions: Seq<usize>, text: Seq<u8>) -> bool {
    exists|k: int| 0 <= k < positions.len() && texts[#[trigger] positions[k] as int] == text
}

impl StrTab {
    /// A table with no string but the empty one.
    pub fn new() -> (r: StrTab)
        ensures
            r@ == Table::empty(),
    {
        let mut data: Vec<u8> = Vec::new();
        data.push(0);
        assert(data@ =~= seq![0u8]);
        StrTab { data, index: no_texts(0x6479_6e73) }
    }

    /// The contents.
    pub fn bytes(&self) -> (r: &Vec<u8>)
        ensures
            r@ == self@.data,
    {
        &self.data
    }

    /// The offset of `text` if it was added already.
    pub fn find(&self, text: &[u8]) -> (r: Option<u32>)
        ensures
            r == (if self@.has(text@) {
                Some(self@.at(text@))
            } else {
                None
            }),
    {
        if text.len() == 0 {
            return Some(0);
        }
        find_text(&self.index, text)
    }

    /// The offset of `text`, 0 where it is not in the table.
    pub fn offset_of(&self, text: &[u8]) -> (r: u32)
        ensures
            r == self@.lookup(text@),
    {
        match self.find(text) {
            Some(offset) => offset,
            None => 0,
        }
    }

    /// Adds a string, and gives its offset.
    pub fn add(&mut self, text: &[u8]) -> (r: Result<u32, Error>)
        ensures
            match r {
                Ok(offset) => old(self)@.add(text@) == Some(final(self)@) && final(self)@.has(text@)
                    && offset == final(self)@.at(text@),
                Err(e) => old(self)@.add(text@) is None && final(self)@ == old(self)@ && e
                    == Error::Limit("dynamic string table larger than 4 GiB"),
            },
    {
        if let Some(offset) = self.find(text) {
            return Ok(offset);
        }
        let len: usize = self.data.len();
        if len as u64 > u32::MAX as u64 {
            return Err(Error::Limit("dynamic string table larger than 4 GiB"));
        }
        push_all(&mut self.data, text);
        self.data.push(0);
        add_text(&mut self.index, copied(text), len as u32);
        assert(self.data@ =~= old(self).data@ + text@ + seq![0u8]);
        Ok(len as u32)
    }

    /// Adds `texts` one by one and gives their offsets.
    pub fn add_each(&mut self, texts: &[&[u8]]) -> (r: Result<Vec<u32>, Error>)
        ensures
            match r {
                Ok(offsets) => old(self)@.add_each(texts_view(texts@), 0) == Some(final(self)@)
                    && offsets@ == Seq::new(texts@.len(), |i: int| final(self)@.at(texts@[i]@))
                    && forall|i: int|
                    0 <= i < texts@.len() ==> final(self)@.has((#[trigger] texts@[i])@),
                Err(e) => e == Error::Limit("dynamic string table larger than 4 GiB") && exists|
                    k: int,
                |
                    0 <= k < texts@.len() && #[trigger] old(self)@.add_each(
                        texts_view(texts@).take(k),
                        0,
                    ) == Some(final(self)@) && final(self)@.add(texts@[k]@) is None,
            },
            r is Err <==> old(self)@.add_each(texts_view(texts@), 0) is None,
    {
        let ghost views = texts_view(texts@);
        let mut offsets: Vec<u32> = Vec::new();
        let mut i: usize = 0;
        while i < texts.len()
            invariant
                i <= texts@.len(),
                views == texts_view(texts@),
                old(self)@.add_each(views, 0) == self@.add_each(views, i as int),
                forall|k: int|
                    i <= k <= views.len() ==> #[trigger] old(self)@.add_each(views.take(k), 0)
                        == self@.add_each(views.take(k), i as int),
                offsets@.len() == i,
                forall|k: int|
                    0 <= k < i ==> self@.has(#[trigger] views[k]) && offsets@[k] == self@.at(
                        views[k],
                    ),
            decreases texts@.len() - i,
        {
            let ghost before = self@;
            assert(views[i as int] == texts@[i as int]@);
            let offset: u32 = match self.add(texts[i]) {
                Ok(offset) => offset,
                Err(error) => {
                    assert(old(self)@.add_each(views.take(i as int), 0) == Some(self@));
                    return Err(error);
                },
            };
            offsets.push(offset);
            proof {
                assert forall|k: int| i + 1 <= k <= views.len() implies #[trigger] old(
                    self,
                )@.add_each(views.take(k), 0) == self@.add_each(views.take(k), i + 1) by {
                    assert(views.take(k)[i as int] == views[i as int]);
                }
                assert forall|k: int| 0 <= k < i + 1 implies self@.has(#[trigger] views[k])
                    && offsets@[k] == self@.at(views[k]) by {
                    if k < i {
                        assert(before.has(views[k]));
                    }
                }
            }
            i += 1;
        }
        proof {
            assert forall|k: int| 0 <= k < texts@.len() implies self@.has(
                (#[trigger] texts@[k])@,
            ) && offsets@[k] == self@.at(texts@[k]@) by {
                assert(self@.has(views[k]));
            }
            assert(offsets@ =~= Seq::new(texts@.len(), |i: int| self@.at(texts@[i]@)));
        }
        Ok(offsets)
    }

    /// Adds `texts` in order and gives their offsets: the same offsets and
    /// contents as calling [`add`](Self::add) on each. Finding strings
    /// already present and copying run in parallel.
    pub fn add_all(&mut self, texts: &[&[u8]]) -> (r: Result<Vec<u32>, Error>)
        ensures
            match r {
                Ok(offsets) => old(self)@.add_all(texts_view(texts@)) == Some(final(self)@)
                    && offsets@ == Seq::new(texts@.len(), |i: int| final(self)@.at(texts@[i]@)),
                Err(e) => old(self)@.add_all(texts_view(texts@)) is None
                    && final(self)@ == old(self)@ && e == Error::Limit(
                    "dynamic string table larger than 4 GiB",
                ),
            },
    {
        let ghost start = self@;
        let ghost views = texts_view(texts@);
        let found: Vec<Option<u32>> = {
            let this: &StrTab = self;
            let each = |text: &&[u8]| -> (one: Option<u32>)
                ensures
                    one == (if this@.has((*text)@) {
                        Some(this@.at((*text)@))
                    } else {
                        None
                    }),
                { this.find(*text) };
            let found: Vec<Option<u32>> = map_all(texts, each);
            assert forall|i: int| 0 <= i < found@.len() implies #[trigger] found@[i] == (
            if start.has(views[i]) {
                Some(start.at(views[i]))
            } else {
                None
            }) by {
                assert(each.ensures((&texts@[i],), found@[i]));
            }
            found
        };
        // New strings, in order, with their offsets: what to copy.
        let mut copies: Vec<usize> = Vec::new();
        let mut fresh: TextIndex = no_texts(0x6479_6e73);
        let mut offsets: Vec<u32> = Vec::new();
        let mut cursor: usize = self.data.len();
        let ghost mut t = start;
        let mut i: usize = 0;
        proof {
            assert(pieces(views, copies@) =~= Seq::empty());
            assert(t.data =~= start.data + crate::parallel::flattened(pieces(views, copies@)));
        }
        while i < texts.len()
            invariant
                i <= texts@.len(),
                self@ == start,
                old(self)@ == start,
                views == texts_view(texts@),
                found@.len() == texts@.len(),
                forall|k: int|
                    0 <= k < found@.len() ==> #[trigger] found@[k] == (if start.has(views[k]) {
                        Some(start.at(views[k]))
                    } else {
                        None
                    }),
                start.with_all(views, 0) == t.with_all(views, i as int),
                cursor == t.data.len(),
                t.index == start.index.union_prefer_right(crate::names::numbers_in(fresh)),
                forall|text: Seq<u8>| #[trigger]
                    crate::names::numbers_in(fresh).dom().contains(text) ==> text.len() > 0
                        && !start.index.dom().contains(text) && is_copied(views, copies@, text),
                t.data == start.data + crate::parallel::flattened(pieces(views, copies@)),
                forall|k: int|
                    0 <= k < copies@.len() ==> (#[trigger] copies@[k]) < texts@.len()
                        && views[copies@[k] as int].len() > 0,
                offsets@.len() == i,
                forall|k: int| 0 <= k < i ==> t.has(#[trigger] views[k]),
                forall|k: int| 0 <= k < i ==> #[trigger] offsets@[k] == t.at(views[k]),
            decreases texts@.len() - i,
        {
            let ghost before = t;
            let text: &[u8] = texts[i];
            assert(views[i as int] == text@);
            let known: Option<u32> = match found[i] {
                Some(offset) => Some(offset),
                None => find_text(&fresh, text),
            };
            match known {
                Some(offset) => {
                    assert(t.has(text@));
                    assert(offset == t.at(text@));
                    offsets.push(offset);
                },
                None => {
                    assert(!t.has(text@));
                    proof {
                        t = t.with(text@);
                        tables_grow(t, views, i + 1);
                    }
                    if cursor as u64 > u32::MAX as u64 {
                        return Err(Error::Limit("dynamic string table larger than 4 GiB"));
                    }
                    let offset: u32 = cursor as u32;
                    let next: usize = match cursor.checked_add(text.len()) {
                        Some(end) => match end.checked_add(1) {
                            Some(n) => n,
                            None => {
                                return Err(
                                    Error::Limit("dynamic string table larger than 4 GiB"),
                                );
                            },
                        },
                        None => {
                            return Err(Error::Limit("dynamic string table larger than 4 GiB"));
                        },
                    };
                    cursor = next;
                    let ghost earlier = copies@;
                    copies.push(i);
                    add_text(&mut fresh, copied(text), offset);
                    offsets.push(offset);
                    proof {
                        let p = pieces(views, copies@);
                        assert(p.drop_last() =~= pieces(views, earlier));
                        assert(p.last() == text@ + seq![0u8]);
                        assert(t.data =~= start.data + crate::parallel::flattened(p));
                        assert(t.index =~= start.index.union_prefer_right(
                            crate::names::numbers_in(fresh),
                        ));
                        assert forall|other: Seq<u8>| #[trigger]
                            crate::names::numbers_in(fresh).dom().contains(
                            other,
                        ) implies is_copied(views, copies@, other) by {
                            if other == text@ {
                                assert(views[copies@[earlier.len() as int] as int] == other);
                            } else {
                                assert(is_copied(views, earlier, other));
                                let j = choose|j: int|
                                    0 <= j < earlier.len() && views[#[trigger] earlier[j] as int]
                                        == other;
                                assert(views[copies@[j] as int] == other);
                            }
                        }
                    }
                },
            }
            proof {
                assert forall|k: int| 0 <= k < i implies t.has(#[trigger] views[k])
                    && t.at(views[k]) == before.at(views[k]) by {
                    assert(before.has(views[k]));
                }
            }
            i += 1;
        }
        if cursor as u64 > u32::MAX as u64 {
            return Err(Error::Limit("dynamic string table larger than 4 GiB"));
        }
        let each = |at: &usize| -> (one: Vec<u8>)
            requires
                *at < texts@.len(),
            ensures
                one@ == texts@[*at as int]@ + seq![0u8],
            {
                let mut piece: Vec<u8> = copied(texts[*at]);
                piece.push(0);
                assert(piece@ =~= texts@[*at as int]@ + seq![0u8]);
                piece
            };
        let parts: Vec<Vec<u8>> = map_all(&copies, each);
        proof {
            assert forall|k: int| 0 <= k < parts@.len() implies (#[trigger] parts@[k])@ == pieces(
                views,
                copies@,
            )[k] by {
                assert(each.ensures((&copies@[k],), parts@[k]));
            }
            assert(crate::parallel::lists_view(parts@) =~= pieces(views, copies@));
        }
        push_all(&mut self.data, &concatenated(&parts));
        assert(self.data@ == t.data);
        let mut k: usize = 0;
        while k < copies.len()
            invariant
                k <= copies@.len(),
                views == texts_view(texts@),
                offsets@.len() == texts@.len(),
                self.data@ == t.data,
                forall|j: int|
                    0 <= j < copies@.len() ==> (#[trigger] copies@[j]) < texts@.len()
                        && views[copies@[j] as int].len() > 0,
                forall|j: int| 0 <= j < texts@.len() ==> t.has(#[trigger] views[j]),
                forall|j: int| 0 <= j < texts@.len() ==> #[trigger] offsets@[j] == t.at(views[j]),
                forall|text: Seq<u8>| #[trigger]
                    self@.index.dom().contains(text) ==> t.index.dom().contains(text)
                        && t.index[text] == self@.index[text],
                forall|text: Seq<u8>| #[trigger]
                    start.index.dom().contains(text) ==> self@.index.dom().contains(text),
                forall|j: int|
                    0 <= j < k ==> self@.index.dom().contains(
                        views[#[trigger] copies@[j] as int],
                    ),
            decreases copies@.len() - k,
        {
            let at: usize = copies[k];
            assert(t.has(views[at as int]));
            assert(views[copies@[k as int] as int].len() > 0);
            assert(offsets@[at as int] == t.index[views[at as int]]);
            assert(texts@[at as int]@ == views[at as int]);
            let ghost before = self@.index;
            add_text(&mut self.index, copied(texts[at]), offsets[at]);
            assert(self@.index == before.insert(views[at as int], offsets@[at as int]));
            assert forall|text: Seq<u8>| #[trigger] self@.index.dom().contains(
                text,
            ) implies t.index.dom().contains(text) && t.index[text] == self@.index[text] by {
                if text != views[at as int] {
                    assert(before.dom().contains(text));
                }
            }
            k += 1;
        }
        proof {
            assert forall|text: Seq<u8>| #[trigger] t.index.dom().contains(
                text,
            ) implies self@.index.dom().contains(text) by {
                if !start.index.dom().contains(text) {
                    assert(crate::names::numbers_in(fresh).dom().contains(text));
                    assert(is_copied(views, copies@, text));
                    let j = choose|j: int|
                        0 <= j < copies@.len() && views[#[trigger] copies@[j] as int] == text;
                    assert(self@.index.dom().contains(views[copies@[j] as int]));
                }
            }
            assert(self@.index =~= t.index);
            assert(self@ == t);
            assert(offsets@ =~= Seq::new(texts@.len(), |i: int| self@.at(texts@[i]@))) by {
                assert forall|j: int| 0 <= j < texts@.len() implies #[trigger] offsets@[j]
                    == self@.at(texts@[j]@) by {
                    assert(views[j] == texts@[j]@);
                }
            }
        }
        Ok(offsets)
    }
}

/// Strings that are added one by one stand where the index says, and so do
/// the others.
pub proof fn each_is_held(t: Table, texts: Seq<Seq<u8>>, i: int)
    requires
        t.is_sound(),
    ensures
        match t.add_each(texts, i) {
            Some(r) => r.is_sound(),
            None => true,
        },
    decreases texts.len() - i,
{
    if 0 <= i < texts.len() {
        if let Some(next) = t.add(texts[i]) {
            strings_are_held(t, texts[i]);
            each_is_held(next, texts, i + 1);
        }
    }
}

/// A string of a sound table stands where the index says.
pub proof fn sound_tables_hold(t: Table, text: Seq<u8>)
    requires
        t.is_sound(),
        t.has(text),
    ensures
        holds(t.data, t.lookup(text) as int, text),
{
    strings_are_held(t, text);
}

} // verus!
