//! Atom table: interns atom names and hands out their indices.
//!
//! Indices start at 1 and follow the order of interning; 0 is never handed
//! out. Each table is independent of every other.

use vstd::prelude::*;
use vstd::string::*;
use crate::text::str_equal;

verus! {

/// Index of an atom within the table that produced it.
#[derive(Debug, Clone, Copy, PartialEq, Eq, Structural)]
pub struct AtomIndex(pub u32);

/// Failures of atom-table operations.
#[derive(Debug, Clone, Copy, PartialEq, Eq, Structural)]
pub enum AtomError {
    NotFound,
    InvalidAtomData,
    AllocationFailed,
}

/// Encoding options of a bulk interning request.
#[derive(Debug, Clone, Copy, PartialEq, Eq, Structural)]
pub enum EnsureAtomsOpt {
    Standard,
    LongLength,
}

/// What `core::str::from_utf8` makes of a byte string: its characters when
/// the bytes are valid UTF-8.
pub uninterp spec fn utf8_decode(b: Seq<u8>) -> Option<Seq<char>>;

/// Relies on `core::str::from_utf8`: `Some` exactly for valid UTF-8, holding
/// the decoded text.
#[verifier::external_body]
fn decode_utf8<'a>(b: &'a [u8]) -> (r: Option<&'a str>)
    ensures
        r.is_some() == utf8_decode(b@).is_some(),
        r matches Some(s) ==> utf8_decode(b@) == Some(s@),
{
    core::str::from_utf8(b).ok()
}

/// Lexicographic comparison of two names: -1, 0 or 1.
pub open spec fn lex_cmp(a: Seq<char>, b: Seq<char>) -> i32
    decreases a.len(),
{
    if a.len() == 0 && b.len() == 0 {
        0i32
    } else if a.len() == 0 {
        -1i32
    } else if b.len() == 0 {
        1i32
    } else if (a[0] as u32) < (b[0] as u32) {
        -1i32
    } else if (a[0] as u32) > (b[0] as u32) {
        1i32
    } else {
        lex_cmp(a.drop_first(), b.drop_first())
    }
}

/// Atom names interned by a fresh table, in order.
pub open spec fn common_atoms() -> Seq<Seq<char>> {
    seq![
        "ok"@, "error"@, "true"@, "false"@, "undefined"@, "badarg"@, "nil"@, "atom"@,
        "binary"@, "bitstring"@, "boolean"@, "float"@, "function"@, "integer"@, "list"@,
        "map"@, "pid"@, "port"@, "reference"@, "tuple"@,
    ]
}

/// Whether `name` is one of `atoms`.
pub open spec fn listed(atoms: Seq<&str>, name: Seq<char>) -> bool {
    exists|k: int| 0 <= k < atoms.len() && (#[trigger] atoms[k])@ == name
}

/// An atom table.
#[derive(Debug)]
pub struct MockAtomTable {
    /// Interned names; the atom at position `i` has index `i + 1`.
    pub names: Vec<String>,
}

impl MockAtomTable {
    /// The interned names, by position.
    pub open spec fn view_names(&self) -> Seq<Seq<char>> {
        self.names@.map_values(|s: String| s@)
    }

    /// Names are unique and every index fits in a `u32`.
    pub open spec fn wf(&self) -> bool {
        &&& self.names@.len() < u32::MAX
        &&& forall|i: int, j: int|
            0 <= i < j < self.names@.len() ==> (#[trigger] self.names@[i])@
                != (#[trigger] self.names@[j])@
    }

    /// Whether `name` is interned.
    pub open spec fn has_name(&self, name: Seq<char>) -> bool {
        exists|i: int| 0 <= i < self.names@.len() && (#[trigger] self.names@[i])@ == name
    }

    /// Whether `idx` names an interned atom.
    pub open spec fn valid_index(&self, idx: AtomIndex) -> bool {
        1 <= idx.0 <= self.names@.len()
    }

    /// The name of a valid index.
    pub open spec fn name_at(&self, idx: AtomIndex) -> Seq<char> {
        self.names@[idx.0 - 1]@
    }

    /// A table holding no atoms.
    pub fn new_empty() -> (r: MockAtomTable)
        ensures
            r.wf(),
            r.names@.len() == 0,
    {
        MockAtomTable { names: Vec::new() }
    }

    /// A table holding the common atoms, in order.
    pub fn new() -> (r: MockAtomTable)
        ensures
            r.wf(),
            r.view_names() == common_atoms(),
    {
        let mut table = MockAtomTable::new_empty();
        table.pre_populate_common_atoms();
        table
    }

    fn pre_populate_common_atoms(&mut self)
        requires
            old(self).names@.len() == 0,
        ensures
            final(self).wf(),
            final(self).view_names() == common_atoms(),
    {
        self.names = vec![
            String::from_str("ok"), String::from_str("error"), String::from_str("true"),
            String::from_str("false"), String::from_str("undefined"), String::from_str("badarg"),
            String::from_str("nil"), String::from_str("atom"), String::from_str("binary"),
            String::from_str("bitstring"), String::from_str("boolean"), String::from_str("float"),
            String::from_str("function"), String::from_str("integer"), String::from_str("list"),
            String::from_str("map"), String::from_str("pid"), String::from_str("port"),
            String::from_str("reference"), String::from_str("tuple"),
        ];
        proof {
            reveal_strlit("ok");
            reveal_strlit("error");
            reveal_strlit("true");
            reveal_strlit("false");
            reveal_strlit("undefined");
            reveal_strlit("badarg");
            reveal_strlit("nil");
            reveal_strlit("atom");
            reveal_strlit("binary");
            reveal_strlit("bitstring");
            reveal_strlit("boolean");
            reveal_strlit("float");
            reveal_strlit("function");
            reveal_strlit("integer");
            reveal_strlit("list");
            reveal_strlit("map");
            reveal_strlit("pid");
            reveal_strlit("port");
            reveal_strlit("reference");
            reveal_strlit("tuple");
            assert(self.view_names() =~= common_atoms());
            assert forall|i: int, j: int|
                0 <= i < j < self.names@.len() implies (#[trigger] self.names@[i])@
                != (#[trigger] self.names@[j])@ by {
                assert(self.view_names()[i] == self.names@[i]@);
                assert(self.view_names()[j] == self.names@[j]@);
                let x = common_atoms()[i];
                let y = common_atoms()[j];
                assert(x.len() != y.len() || x[0] != y[0] || x[1] != y[1] || x[2] != y[2]
                    || x[3] != y[3]);
            }
        }
    }

    /// A table holding the given atoms, each once, in order of first
    /// appearance.
    pub fn new_with_atoms(atoms: &[&str]) -> (r: MockAtomTable)
        ensures
            r.wf(),
            forall|i: int|
                0 <= i < atoms@.len() && (#[trigger] atoms@[i])@.len() > 0 && atoms@[i].len() <= 255
                    && atoms@.len() < u32::MAX ==> r.has_name(atoms@[i]@),
            forall|j: int| 0 <= j < r.names@.len() ==> listed(atoms@, (#[trigger] r.names@[j])@),
    {
        let mut table = MockAtomTable::new_empty();
        let mut i: usize = 0;
        while i < atoms.len()
            invariant
                table.wf(),
                i <= atoms@.len(),
                table.names@.len() <= i,
                forall|k: int|
                    0 <= k < i && (#[trigger] atoms@[k])@.len() > 0 && atoms@[k].len()
                        <= 255 && atoms@.len() < u32::MAX ==> table.has_name(atoms@[k]@),
                forall|j: int|
                    0 <= j < table.names@.len() ==> listed(atoms@, (#[trigger] table.names@[j])@),
            decreases atoms@.len() - i,
        {
            let ghost before = table.names@;
            let _ = table.ensure_atom_str(atoms[i]);
            proof {
                assert forall|j: int| 0 <= j < table.names@.len() implies listed(
                    atoms@,
                    (#[trigger] table.names@[j])@,
                ) by {
                    if j < before.len() {
                        assert(table.names@[j] == before[j]);
                    } else {
                        assert(atoms@[i as int]@ == table.names@[j]@);
                    }
                }
                assert forall|k: int|
                    0 <= k < i + 1 && (#[trigger] atoms@[k])@.len() > 0 && atoms@[k].len()
                        <= 255 && atoms@.len() < u32::MAX implies table.has_name(atoms@[k]@) by {
                    if k < i {
                        let w = choose|w: int|
                            0 <= w < before.len() && (#[trigger] before[w])@ == atoms@[k]@;
                        assert(table.names@[w] == before[w]);
                    }
                }
            }
            i = i + 1;
        }
        table
    }

    /// Number of interned atoms.
    pub fn count(&self) -> (r: usize)
        ensures
            r == self.names@.len(),
    {
        self.names.len()
    }

    /// Position of `name`, if interned.
    fn position_of(&self, name: &str) -> (r: Option<usize>)
        requires
            self.wf(),
        ensures
            r.is_none() <==> !self.has_name(name@),
            r matches Some(i) ==> i < self.names@.len() && self.names@[i as int]@ == name@,
    {
        let mut i: usize = 0;
        while i < self.names.len()
            invariant
                i <= self.names@.len(),
                forall|k: int| 0 <= k < i ==> (#[trigger] self.names@[k])@ != name@,
            decreases self.names@.len() - i,
        {
            if str_equal(self.names[i].as_str(), name) {
                return Some(i);
            }
            i = i + 1;
        }
        None
    }

    /// Interns `name` (at most 255 bytes) and returns its index; a name
    /// already interned keeps its index.
    pub fn ensure_atom_str(&mut self, name: &str) -> (r: Result<AtomIndex, AtomError>)
        requires
            old(self).wf(),
        ensures
            final(self).wf(),
            final(self).names@.len() >= old(self).names@.len(),
            forall|k: int|
                0 <= k < old(self).names@.len() ==> final(self).names@[k] == old(self).names@[k],
            name.len() > 255 ==> r == Err::<AtomIndex, AtomError>(
                AtomError::InvalidAtomData,
            ) && final(self).names == old(self).names,
            name.len() <= 255 && old(self).has_name(name@) ==> final(self).names
                == old(self).names && (r matches Ok(idx) && final(self).valid_index(idx)
                && final(self).name_at(idx) == name@),
            name.len() <= 255 && !old(self).has_name(name@) && old(self).names@.len()
                + 1 < u32::MAX ==> r == Ok::<AtomIndex, AtomError>(
                AtomIndex((old(self).names@.len() + 1) as u32),
            ) && final(self).names@.len() == old(self).names@.len() + 1
                && final(self).names@.drop_last() == old(self).names@
                && final(self).names@.last()@ == name@,
            name.len() <= 255 && !old(self).has_name(name@) && old(self).names@.len()
                + 1 >= u32::MAX ==> r == Err::<AtomIndex, AtomError>(AtomError::AllocationFailed)
                && final(self).names == old(self).names,
    {
        if name.len() > 255 {
            return Err(AtomError::InvalidAtomData);
        }
        match self.position_of(name) {
            Some(i) => Ok(AtomIndex((i + 1) as u32)),
            None => {
                let n = self.names.len();
                if n + 1 >= 0xFFFF_FFFF {
                    return Err(AtomError::AllocationFailed);
                }
                let ghost before = self.names@;
                self.names.push(String::from_str(name));
                proof {
                    assert(self.names@.drop_last() =~= before);
                    assert forall|a: int, b: int|
                        0 <= a < b < self.names@.len() implies (#[trigger] self.names@[a])@
                        != (#[trigger] self.names@[b])@ by {
                        assert(self.names@[a] == before[a]);
                        if b < before.len() {
                            assert(self.names@[b] == before[b]);
                        }
                    }
                }
                Ok(AtomIndex((n + 1) as u32))
            },
        }
    }

    /// Interns a name given as bytes, which must be valid UTF-8.
    pub fn ensure_atom(&mut self, name: &[u8]) -> (r: Result<AtomIndex, AtomError>)
        requires
            old(self).wf(),
        ensures
            final(self).wf(),
            utf8_decode(name@).is_none() ==> r == Err::<AtomIndex, AtomError>(
                AtomError::InvalidAtomData,
            ) && final(self).names == old(self).names,
            r matches Ok(idx) ==> final(self).valid_index(idx) && Some(final(self).name_at(idx))
                == utf8_decode(name@),
    {
        match decode_utf8(name) {
            None => Err(AtomError::InvalidAtomData),
            Some(s) => {
                let r = self.ensure_atom_str(s);
                proof {
                    if r is Ok && !old(self).has_name(s@) {
                        assert(self.names@[self.names@.len() - 1] == self.names@.last());
                    }
                }
                r
            },
        }
    }

    /// Index of `name` if interned.
    pub fn find_atom_str(&self, name: &str) -> (r: Result<AtomIndex, AtomError>)
        requires
            self.wf(),
        ensures
            r is Err <==> !self.has_name(name@),
            r is Err ==> r == Err::<AtomIndex, AtomError>(AtomError::NotFound),
            r matches Ok(idx) ==> self.valid_index(idx) && self.name_at(idx) == name@,
    {
        match self.position_of(name) {
            Some(i) => Ok(AtomIndex((i + 1) as u32)),
            None => Err(AtomError::NotFound),
        }
    }

    /// Index of a name given as bytes, if it is valid UTF-8 and interned.
    pub fn find_atom(&self, name: &[u8]) -> (r: Result<AtomIndex, AtomError>)
        requires
            self.wf(),
        ensures
            utf8_decode(name@).is_none() ==> r == Err::<AtomIndex, AtomError>(
                AtomError::InvalidAtomData,
            ),
            utf8_decode(name@) matches Some(s) ==> (r is Err <==> !self.has_name(s)),
            r matches Ok(idx) ==> self.valid_index(idx) && Some(self.name_at(idx)) == utf8_decode(
                name@,
            ),
    {
        match decode_utf8(name) {
            None => Err(AtomError::InvalidAtomData),
            Some(s) => self.find_atom_str(s),
        }
    }

    /// Whether `idx` is interned under `name`.
    pub fn atom_equals_str(&self, idx: AtomIndex, name: &str) -> (r: bool)
        ensures
            r == (self.valid_index(idx) && self.name_at(idx) == name@),
    {
        if idx.0 >= 1 && (idx.0 as usize) <= self.names.len() {
            str_equal(self.names[(idx.0 - 1) as usize].as_str(), name)
        } else {
            false
        }
    }

    /// Whether `idx` is interned under the name given as bytes.
    pub fn atom_equals(&self, idx: AtomIndex, name: &[u8]) -> (r: bool)
        ensures
            r == (self.valid_index(idx) && Some(self.name_at(idx)) == utf8_decode(name@)),
    {
        match decode_utf8(name) {
            None => false,
            Some(s) => self.atom_equals_str(idx, s),
        }
    }

    /// Orders two atoms by name; an interned atom is above one that is not.
    pub fn compare_atoms(&self, a: AtomIndex, b: AtomIndex) -> (r: i32)
        ensures
            r == (if self.valid_index(a) && self.valid_index(b) {
                lex_cmp(self.name_at(a), self.name_at(b))
            } else if self.valid_index(a) {
                1i32
            } else if self.valid_index(b) {
                -1i32
            } else {
                0i32
            }),
    {
        let va = a.0 >= 1 && (a.0 as usize) <= self.names.len();
        let vb = b.0 >= 1 && (b.0 as usize) <= self.names.len();
        if va && vb {
            compare_names(
                self.names[(a.0 - 1) as usize].as_str(),
                self.names[(b.0 - 1) as usize].as_str(),
            )
        } else if va {
            1
        } else if vb {
            -1
        } else {
            0
        }
    }

    /// Bulk interning is not offered by this table.
    pub fn ensure_atoms_bulk(&self, data: &[u8], count: usize, opt: EnsureAtomsOpt) -> (r: Result<
        Vec<AtomIndex>,
        AtomError,
    >)
        ensures
            r == Err::<Vec<AtomIndex>, AtomError>(AtomError::AllocationFailed),
    {
        Err(AtomError::AllocationFailed)
    }

    /// Name of an interned atom.
    pub fn get_atom_name(&self, idx: AtomIndex) -> (r: Option<String>)
        ensures
            r.is_some() == self.valid_index(idx),
            r matches Some(s) ==> s@ == self.name_at(idx),
    {
        if idx.0 >= 1 && (idx.0 as usize) <= self.names.len() {
            Some(self.names[(idx.0 - 1) as usize].clone())
        } else {
            None
        }
    }

    /// Every atom with its index, by index.
    pub fn list_all_atoms(&self) -> (r: Vec<(AtomIndex, String)>)
        requires
            self.wf(),
        ensures
            r@.len() == self.names@.len(),
            forall|i: int|
                0 <= i < r@.len() ==> (#[trigger] r@[i]).0 == AtomIndex((i + 1) as u32) && r@[i].1@
                    == self.names@[i]@,
    {
        let mut out: Vec<(AtomIndex, String)> = Vec::new();
        let mut i: usize = 0;
        while i < self.names.len()
            invariant
                self.wf(),
                i <= self.names@.len(),
                out@.len() == i,
                forall|k: int|
                    0 <= k < i ==> (#[trigger] out@[k]).0 == AtomIndex((k + 1) as u32) && out@[k].1@
                        == self.names@[k]@,
            decreases self.names@.len() - i,
        {
            out.push((AtomIndex((i + 1) as u32), self.names[i].clone()));
            i = i + 1;
        }
        out
    }

    /// Forgets every atom; indices start over at 1.
    pub fn clear(&mut self)
        ensures
            final(self).wf(),
            final(self).names@.len() == 0,
    {
        self.names.clear();
    }
}

/// Lexicographic comparison of two strings by character code.
pub fn compare_names(a: &str, b: &str) -> (r: i32)
    ensures
        r == lex_cmp(a@, b@),
{
    let la = a.unicode_len();
    let lb = b.unicode_len();
    let mut i: usize = 0;
    proof {
        assert(a@.skip(0) =~= a@);
        assert(b@.skip(0) =~= b@);
    }
    while i < la && i < lb
        invariant
            la == a@.len(),
            lb == b@.len(),
            i <= la,
            i <= lb,
            lex_cmp(a@, b@) == lex_cmp(a@.skip(i as int), b@.skip(i as int)),
        decreases la - i,
    {
        let ca = a.get_char(i) as u32;
        let cb = b.get_char(i) as u32;
        proof {
            assert(a@.skip(i as int)[0] == a@[i as int]);
            assert(b@.skip(i as int)[0] == b@[i as int]);
            assert(a@.skip(i as int).drop_first() =~= a@.skip(i + 1));
            assert(b@.skip(i as int).drop_first() =~= b@.skip(i + 1));
        }
        if ca < cb {
            return -1;
        }
        if ca > cb {
            return 1;
        }
        i = i + 1;
    }
    if la == lb {
        0i32
    } else if i == la {
        -1i32
    } else {
        1i32
    }
}

} // verus!
