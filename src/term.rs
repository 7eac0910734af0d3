//! Term codec: values that cross the boundary, and their encoding onto a
//! bounded per-call arena.
//!
//! A term handle is the offset in the arena at which a value's encoding
//! starts. The encoding is a sequence of words:
//!
//! | value              | words                                  |
//! |--------------------|----------------------------------------|
//! | `Nil`              | `0`                                    |
//! | `SmallInt(i)`      | `1, i + 2^31`                          |
//! | `Atom(a)`          | `2, a`                                 |
//! | `Tuple(items)`     | `3, n, items...`                       |
//! | `List(items)`      | `4, n, items...`                       |
//! | `Binary(bytes)`    | `5, n, bytes...` (one word per byte)   |
//! | `Float(bits)`      | `6, bits`                              |
//! | `Resource(t, h)`   | `7, t, h`                              |
//! | `Invalid`          | `8`                                    |

use vstd::prelude::*;
use crate::atom_table::AtomIndex;

verus! {

broadcast use vstd::std_specs::vec::group_vec_axioms;

/// Smallest integer a small-integer term holds.
pub const SMALL_INT_MIN: i32 = -134217728;

/// Largest integer a small-integer term holds.
pub const SMALL_INT_MAX: i32 = 134217727;

/// Offset that makes a small integer's word non-negative.
pub const INT_BIAS: u64 = 0x8000_0000;

/// A resource as a term carries it: its type tag and an opaque handle.
#[derive(Debug, Clone, Copy, PartialEq, Eq, Structural)]
pub struct ResourceRef {
    pub type_id: usize,
    pub handle: usize,
}

/// A value exchanged across the boundary.
#[derive(Debug)]
pub enum TermValue {
    Nil,
    SmallInt(i32),
    Atom(AtomIndex),
    Tuple(Vec<TermValue>),
    List(Vec<TermValue>),
    Binary(Vec<u8>),
    /// A double, held as its IEEE-754 bit pattern.
    Float(u64),
    Resource(ResourceRef),
    Invalid,
}

/// The mathematical model of a term value.
pub enum Value {
    Nil,
    SmallInt(int),
    Atom(u32),
    Tuple(Seq<Value>),
    List(Seq<Value>),
    Binary(Seq<u8>),
    Float(u64),
    Resource(usize, usize),
    Invalid,
}

/// Failures of the codec.
#[derive(Debug, Clone, Copy, PartialEq, Eq, Structural)]
pub enum CodecError {
    /// An integer lies outside the small-integer range.
    Overflow,
    /// The arena has no room for the encoding.
    ArenaExhausted,
    /// The words at a handle are not a well-formed encoding.
    Corrupt,
    /// The value is not of the kind asked for.
    TypeMismatch,
}

/// The model of a term value.
pub open spec fn model(t: TermValue) -> Value
    decreases t,
{
    match t {
        TermValue::Nil => Value::Nil,
        TermValue::SmallInt(i) => Value::SmallInt(i as int),
        TermValue::Atom(a) => Value::Atom(a.0),
        TermValue::Tuple(v) => Value::Tuple(models(v@)),
        TermValue::List(v) => Value::List(models(v@)),
        TermValue::Binary(b) => Value::Binary(b@),
        TermValue::Float(bits) => Value::Float(bits),
        TermValue::Resource(r) => Value::Resource(r.type_id, r.handle),
        TermValue::Invalid => Value::Invalid,
    }
}

/// The models of a sequence of term values.
pub open spec fn models(s: Seq<TermValue>) -> Seq<Value>
    decreases s,
{
    if s.len() == 0 {
        Seq::empty()
    } else {
        models(s.drop_last()).push(model(s.last()))
    }
}

impl View for TermValue {
    type V = Value;

    open spec fn view(&self) -> Value {
        model(*self)
    }
}

/// Whether an integer fits a small-integer term.
pub open spec fn small_int_ok(i: int) -> bool {
    SMALL_INT_MIN <= i <= SMALL_INT_MAX
}

/// Whether every integer in a value fits, and every length fits a word.
pub open spec fn encodable(v: Value) -> bool
    decreases v,
{
    match v {
        Value::SmallInt(i) => small_int_ok(i),
        Value::Tuple(items) => items.len() <= u64::MAX && all_encodable(items),
        Value::List(items) => items.len() <= u64::MAX && all_encodable(items),
        Value::Binary(b) => b.len() <= u64::MAX,
        _ => true,
    }
}

/// Whether every value of a sequence is encodable.
pub open spec fn all_encodable(s: Seq<Value>) -> bool
    decreases s,
{
    if s.len() == 0 {
        true
    } else {
        encodable(s[0]) && all_encodable(s.drop_first())
    }
}

/// The words a value encodes to.
pub open spec fn enc(v: Value) -> Seq<u64>
    decreases v,
{
    match v {
        Value::Nil => seq![0u64],
        Value::SmallInt(i) => seq![1u64, (i + INT_BIAS) as u64],
        Value::Atom(a) => seq![2u64, a as u64],
        Value::Tuple(items) => seq![3u64, items.len() as u64] + enc_all(items),
        Value::List(items) => seq![4u64, items.len() as u64] + enc_all(items),
        Value::Binary(b) => seq![5u64, b.len() as u64] + b.map_values(|x: u8| x as u64),
        Value::Float(bits) => seq![6u64, bits],
        Value::Resource(t, h) => seq![7u64, t as u64, h as u64],
        Value::Invalid => seq![8u64],
    }
}

/// The words a sequence of values encodes to, one after the other.
pub open spec fn enc_all(s: Seq<Value>) -> Seq<u64>
    decreases s,
{
    if s.len() == 0 {
        Seq::empty()
    } else {
        enc(s[0]) + enc_all(s.drop_first())
    }
}

/// Reads the value whose encoding starts at `pos`, with the position after it.
pub open spec fn parse(w: Seq<u64>, pos: int) -> Option<(Value, int)>
    decreases w.len() - pos, 0int,
{
    if pos < 0 || pos >= w.len() {
        None
    } else {
        let tag = w[pos];
        if tag == 0 {
            Some((Value::Nil, pos + 1))
        } else if tag == 8 {
            Some((Value::Invalid, pos + 1))
        } else if pos + 1 >= w.len() {
            None
        } else {
            let a = w[pos + 1];
            if tag == 1 {
                if small_int_ok(a - INT_BIAS) {
                    Some((Value::SmallInt(a - INT_BIAS), pos + 2))
                } else {
                    None
                }
            } else if tag == 2 {
                if a <= u32::MAX {
                    Some((Value::Atom(a as u32), pos + 2))
                } else {
                    None
                }
            } else if tag == 6 {
                Some((Value::Float(a), pos + 2))
            } else if tag == 7 {
                if pos + 2 < w.len() && a <= usize::MAX && w[pos + 2] <= usize::MAX {
                    Some((Value::Resource(a as usize, w[pos + 2] as usize), pos + 3))
                } else {
                    None
                }
            } else if tag == 5 {
                if pos + 2 + a <= w.len() && forall|k: int|
                    pos + 2 <= k < pos + 2 + a ==> #[trigger] w[k] < 256 {
                    Some(
                        (
                            Value::Binary(Seq::new(a as nat, |k: int| w[pos + 2 + k] as u8)),
                            pos + 2 + a,
                        ),
                    )
                } else {
                    None
                }
            } else if tag == 3 || tag == 4 {
                match parse_all(w, pos + 2, a as nat) {
                    Some((items, next)) => Some(
                        (if tag == 3 {
                            Value::Tuple(items)
                        } else {
                            Value::List(items)
                        }, next),
                    ),
                    None => None,
                }
            } else {
                None
            }
        }
    }
}

/// Reads `n` values one after the other from `pos`.
pub open spec fn parse_all(w: Seq<u64>, pos: int, n: nat) -> Option<(Seq<Value>, int)>
    decreases w.len() - pos, 1int,
{
    if n == 0 {
        if 0 <= pos <= w.len() {
            Some((Seq::empty(), pos))
        } else {
            None
        }
    } else if pos < 0 || pos >= w.len() {
        None
    } else {
        match parse(w, pos) {
            Some((v, next)) => if next <= pos || next > w.len() {
                None
            } else {
                match parse_all(w, next, (n - 1) as nat) {
                    Some((rest, end)) => Some((seq![v] + rest, end)),
                    None => None,
                }
            },
            None => None,
        }
    }
}


/// Every encoding takes at least one word.
pub proof fn lemma_enc_nonempty(v: Value)
    ensures
        enc(v).len() >= 1,
{
    reveal_with_fuel(enc, 1);
}

/// Reading back the words a value encodes to, wherever they stand, gives
/// the value and the position just after them.
pub proof fn lemma_parse_enc(v: Value, w: Seq<u64>, pos: int)
    requires
        encodable(v),
        0 <= pos,
        pos + enc(v).len() <= w.len(),
        w.subrange(pos, pos + enc(v).len()) == enc(v),
    ensures
        parse(w, pos) == Some((v, pos + enc(v).len())),
    decreases v,
{
    let e = enc(v);
    assert(w[pos] == e[0]) by {
        assert(w.subrange(pos, pos + e.len())[0] == w[pos]);
    }
    if e.len() > 1 {
        assert(w[pos + 1] == e[1]) by {
            assert(w.subrange(pos, pos + e.len())[1] == w[pos + 1]);
        }
    }
    match v {
        Value::Nil => {},
        Value::Invalid => {},
        Value::SmallInt(i) => {},
        Value::Atom(a) => {},
        Value::Float(bits) => {},
        Value::Resource(t, h) => {
            assert(w[pos + 2] == e[2]) by {
                assert(w.subrange(pos, pos + e.len())[2] == w[pos + 2]);
            }
        },
        Value::Binary(b) => {
            let n = b.len() as int;
            assert forall|k: int| pos + 2 <= k < pos + 2 + n implies #[trigger] w[k] < 256 by {
                assert(w.subrange(pos, pos + e.len())[k - pos] == w[k]);
                assert(e[k - pos] == b[k - pos - 2] as u64);
            }
            assert(Seq::new(n as nat, |k: int| w[pos + 2 + k] as u8) =~= b) by {
                assert forall|k: int| 0 <= k < n implies w[pos + 2 + k] as u8 == b[k] by {
                    assert(w.subrange(pos, pos + e.len())[k + 2] == w[pos + 2 + k]);
                    assert(e[k + 2] == b[k] as u64);
                }
            }
        },
        Value::Tuple(items) => {
            let body = enc_all(items);
            assert(w.subrange(pos + 2, pos + 2 + body.len()) =~= body) by {
                assert forall|k: int| 0 <= k < body.len() implies w.subrange(
                    pos + 2,
                    pos + 2 + body.len(),
                )[k] == body[k] by {
                    assert(w.subrange(pos, pos + e.len())[k + 2] == w[pos + 2 + k]);
                    assert(e[k + 2] == body[k]);
                }
            }
            lemma_parse_enc_all(items, w, pos + 2);
        },
        Value::List(items) => {
            let body = enc_all(items);
            assert(w.subrange(pos + 2, pos + 2 + body.len()) =~= body) by {
                assert forall|k: int| 0 <= k < body.len() implies w.subrange(
                    pos + 2,
                    pos + 2 + body.len(),
                )[k] == body[k] by {
                    assert(w.subrange(pos, pos + e.len())[k + 2] == w[pos + 2 + k]);
                    assert(e[k + 2] == body[k]);
                }
            }
            lemma_parse_enc_all(items, w, pos + 2);
        },
    }
}

/// Reading back the words a sequence of values encodes to gives the
/// sequence and the position just after them.
pub proof fn lemma_parse_enc_all(s: Seq<Value>, w: Seq<u64>, pos: int)
    requires
        all_encodable(s),
        0 <= pos,
        pos + enc_all(s).len() <= w.len(),
        w.subrange(pos, pos + enc_all(s).len()) == enc_all(s),
    ensures
        parse_all(w, pos, s.len()) == Some((s, pos + enc_all(s).len())),
    decreases s,
{
    if s.len() > 0 {
        let e0 = enc(s[0]);
        let rest = enc_all(s.drop_first());
        let all = enc_all(s);
        lemma_enc_nonempty(s[0]);
        assert(w.subrange(pos, pos + e0.len()) =~= e0) by {
            assert forall|k: int| 0 <= k < e0.len() implies w.subrange(pos, pos + e0.len())[k]
                == e0[k] by {
                assert(w.subrange(pos, pos + all.len())[k] == w[pos + k]);
                assert(all[k] == e0[k]);
            }
        }
        lemma_parse_enc(s[0], w, pos);
        let next = pos + e0.len();
        assert(w.subrange(next, next + rest.len()) =~= rest) by {
            assert forall|k: int| 0 <= k < rest.len() implies w.subrange(next, next + rest.len())[k]
                == rest[k] by {
                assert(w.subrange(pos, pos + all.len())[e0.len() + k] == w[next + k]);
                assert(all[e0.len() + k] == rest[k]);
            }
        }
        lemma_parse_enc_all(s.drop_first(), w, next);
        assert(seq![s[0]] + s.drop_first() =~= s);
    }
}


/// Encoding a concatenation encodes each part in turn.
pub proof fn lemma_enc_all_append(a: Seq<Value>, b: Seq<Value>)
    ensures
        enc_all(a + b) == enc_all(a) + enc_all(b),
    decreases a.len(),
{
    if a.len() == 0 {
        assert(a + b =~= b);
        assert(enc_all(a) + enc_all(b) =~= enc_all(b));
    } else {
        assert((a + b).drop_first() =~= a.drop_first() + b);
        lemma_enc_all_append(a.drop_first(), b);
        assert(enc_all(a + b) =~= enc_all(a) + enc_all(b));
    }
}

/// Encoding one more value appends its encoding.
pub proof fn lemma_enc_all_push(a: Seq<Value>, x: Value)
    ensures
        enc_all(a.push(x)) == enc_all(a) + enc(x),
{
    lemma_enc_all_append(a, seq![x]);
    assert(a + seq![x] =~= a.push(x));
    assert(seq![x].drop_first() =~= Seq::<Value>::empty());
    assert(enc_all(Seq::<Value>::empty()) =~= Seq::<u64>::empty());
    assert(seq![x][0] == x);
    assert(enc_all(seq![x]) =~= enc(x));
}

/// `all_encodable` holds exactly when every element is encodable.
pub proof fn lemma_all_encodable(s: Seq<Value>)
    ensures
        all_encodable(s) == forall|i: int| 0 <= i < s.len() ==> encodable(#[trigger] s[i]),
    decreases s.len(),
{
    if s.len() > 0 {
        lemma_all_encodable(s.drop_first());
        if forall|i: int| 0 <= i < s.len() ==> encodable(#[trigger] s[i]) {
            assert forall|i: int| 0 <= i < s.drop_first().len() implies encodable(
                #[trigger] s.drop_first()[i],
            ) by {
                assert(s.drop_first()[i] == s[i + 1]);
            }
        }
        if all_encodable(s) {
            assert forall|i: int| 0 <= i < s.len() implies encodable(#[trigger] s[i]) by {
                if i > 0 {
                    assert(s[i] == s.drop_first()[i - 1]);
                }
            }
        }
    }
}

/// The models of a sequence, element by element.
pub proof fn lemma_models(s: Seq<TermValue>)
    ensures
        models(s).len() == s.len(),
        forall|i: int| 0 <= i < s.len() ==> #[trigger] models(s)[i] == model(s[i]),
    decreases s.len(),
{
    if s.len() > 0 {
        lemma_models(s.drop_last());
    }
}

/// The models of a sequence with one more term.
pub proof fn lemma_models_push(s: Seq<TermValue>, t: TermValue)
    ensures
        models(s.push(t)) == models(s).push(model(t)),
{
    assert(s.push(t).drop_last() =~= s);
}

/// Decoding what was encoded gives the value back: whatever the arena held
/// before the encoding and whatever was written after it, the value read
/// at the handle the encoder returned (the arena's length before encoding)
/// is the value encoded, and reading ends just after its words.
pub proof fn lemma_round_trip(v: Value, before: Seq<u64>, after: Seq<u64>)
    requires
        encodable(v),
    ensures
        parse(before + enc(v) + after, before.len() as int) == Some(
            (v, before.len() + enc(v).len() as int),
        ),
{
    let w = before + enc(v) + after;
    let pos = before.len() as int;
    assert(w.subrange(pos, pos + enc(v).len()) =~= enc(v));
    lemma_parse_enc(v, w, pos);
}

/// Added words in front of `pos`.
pub open spec fn prepend(acc: Seq<Value>, o: Option<(Seq<Value>, int)>) -> Option<(Seq<Value>, int)> {
    match o {
        Some((rest, end)) => Some((acc + rest, end)),
        None => None,
    }
}

/// Whether every integer in a term fits a small-integer term.
pub fn is_encodable(v: &TermValue) -> (r: bool)
    ensures
        r == encodable(v@),
    decreases v,
{
    match v {
        TermValue::SmallInt(i) => {
            assert(v@ == Value::SmallInt(*i as int));
            SMALL_INT_MIN <= *i && *i <= SMALL_INT_MAX
        },
        TermValue::Tuple(items) => {
            let n = items.len();
            assert(n as int <= u64::MAX);
            proof {
                lemma_models(items@);
            }
            are_encodable(items)
        },
        TermValue::List(items) => {
            let n = items.len();
            assert(n as int <= u64::MAX);
            proof {
                lemma_models(items@);
            }
            are_encodable(items)
        },
        TermValue::Binary(b) => {
            let n = b.len();
            assert(n as int <= u64::MAX);
            true
        },
        _ => true,
    }
}

/// Whether every term of `items` is encodable.
pub fn are_encodable(items: &Vec<TermValue>) -> (r: bool)
    ensures
        r == all_encodable(models(items@)),
    decreases items,
{
    proof {
        lemma_models(items@);
        lemma_all_encodable(models(items@));
    }
    let mut i: usize = 0;
    while i < items.len()
        invariant
            i <= items@.len(),
            models(items@).len() == items@.len(),
            forall|k: int| 0 <= k < items@.len() ==> #[trigger] models(items@)[k] == model(items@[k]),
            forall|k: int| 0 <= k < i ==> encodable(#[trigger] models(items@)[k]),
            all_encodable(models(items@)) == forall|k: int|
                0 <= k < models(items@).len() ==> encodable(#[trigger] models(items@)[k]),
        decreases items@.len() - i,
    {
        proof {
            assert(decreases_to!(*items => items@[i as int]));
        }
        if !is_encodable(&items[i]) {
            assert(!encodable(models(items@)[i as int]));
            return false;
        }
        i = i + 1;
    }
    true
}

/// `Some(room - n)` when the encoding of `v`, `n` words long, fits in
/// `room` words; `None` otherwise.
pub fn fit(v: &TermValue, room: usize) -> (r: Option<usize>)
    ensures
        r == (if enc(v@).len() <= room {
            Some((room - enc(v@).len()) as usize)
        } else {
            None::<usize>
        }),
    decreases v,
{
    match v {
        TermValue::Nil | TermValue::Invalid => if room >= 1 {
            Some(room - 1)
        } else {
            None
        },
        TermValue::SmallInt(_) | TermValue::Atom(_) | TermValue::Float(_) => if room >= 2 {
            Some(room - 2)
        } else {
            None
        },
        TermValue::Resource(_) => if room >= 3 {
            Some(room - 3)
        } else {
            None
        },
        TermValue::Binary(b) => if room >= 2 && room - 2 >= b.len() {
            Some(room - 2 - b.len())
        } else {
            None
        },
        TermValue::Tuple(items) => if room >= 2 {
            fit_all(items, room - 2)
        } else {
            None
        },
        TermValue::List(items) => if room >= 2 {
            fit_all(items, room - 2)
        } else {
            None
        },
    }
}

/// `Some(room - n)` when the encodings of `items`, `n` words in all, fit
/// in `room` words; `None` otherwise.
pub fn fit_all(items: &Vec<TermValue>, room: usize) -> (r: Option<usize>)
    ensures
        r == (if enc_all(models(items@)).len() <= room {
            Some((room - enc_all(models(items@)).len()) as usize)
        } else {
            None::<usize>
        }),
    decreases items,
{
    proof {
        lemma_models(items@);
    }
    let ghost ms = models(items@);
    proof {
        assert(ms.take(0) =~= Seq::<Value>::empty());
    }
    let mut left: usize = room;
    let mut i: usize = 0;
    while i < items.len()
        invariant
            i <= items@.len(),
            ms == models(items@),
            ms.len() == items@.len(),
            forall|k: int| 0 <= k < items@.len() ==> #[trigger] ms[k] == model(items@[k]),
            left == room - enc_all(ms.take(i as int)).len(),
        decreases items@.len() - i,
    {
        proof {
            assert(ms.take(i + 1) =~= ms.take(i as int).push(ms[i as int]));
            lemma_enc_all_push(ms.take(i as int), ms[i as int]);
            assert(decreases_to!(*items => items@[i as int]));
        }
        match fit(&items[i], left) {
            None => {
                proof {
                    assert(ms =~= ms.take(i + 1) + ms.skip(i + 1));
                    lemma_enc_all_append(ms.take(i + 1), ms.skip(i + 1));
                }
                return None;
            },
            Some(l) => {
                left = l;
            },
        }
        i = i + 1;
    }
    proof {
        assert(ms.take(i as int) =~= ms);
    }
    Some(left)
}

/// Appends the encoding of `v` to `out`.
pub fn encode_into(v: &TermValue, out: &mut Vec<u64>)
    requires
        encodable(v@),
    ensures
        final(out)@ == old(out)@ + enc(v@),
    decreases v,
{
    let ghost before = out@;
    match v {
        TermValue::Nil => out.push(0),
        TermValue::Invalid => out.push(8),
        TermValue::SmallInt(i) => {
            out.push(1);
            out.push((*i as i64 + 0x8000_0000i64) as u64);
        },
        TermValue::Atom(a) => {
            out.push(2);
            out.push(a.0 as u64);
        },
        TermValue::Float(bits) => {
            out.push(6);
            out.push(*bits);
        },
        TermValue::Resource(r) => {
            out.push(7);
            out.push(r.type_id as u64);
            out.push(r.handle as u64);
        },
        TermValue::Binary(b) => {
            out.push(5);
            out.push(b.len() as u64);
            let ghost base = out@;
            let mut i: usize = 0;
            while i < b.len()
                invariant
                    i <= b@.len(),
                    out@ == base + b@.take(i as int).map_values(|x: u8| x as u64),
                decreases b@.len() - i,
            {
                out.push(b[i] as u64);
                proof {
                    assert(b@.take(i + 1).map_values(|x: u8| x as u64) =~= b@.take(
                        i as int,
                    ).map_values(|x: u8| x as u64).push(b@[i as int] as u64));
                }
                i = i + 1;
            }
            proof {
                assert(b@.take(i as int) =~= b@);
            }
        },
        TermValue::Tuple(items) => {
            proof {
                lemma_models(items@);
            }
            out.push(3);
            out.push(items.len() as u64);
            encode_all_into(items, out);
        },
        TermValue::List(items) => {
            proof {
                lemma_models(items@);
            }
            out.push(4);
            out.push(items.len() as u64);
            encode_all_into(items, out);
        },
    }
    proof {
        assert(out@ =~= before + enc(v@));
    }
}

/// Appends the encodings of `items`, one after the other, to `out`.
pub fn encode_all_into(items: &Vec<TermValue>, out: &mut Vec<u64>)
    requires
        all_encodable(models(items@)),
    ensures
        final(out)@ == old(out)@ + enc_all(models(items@)),
    decreases items,
{
    proof {
        lemma_models(items@);
        lemma_all_encodable(models(items@));
    }
    let ghost base = out@;
    let ghost ms = models(items@);
    proof {
        assert(ms.take(0) =~= Seq::<Value>::empty());
        assert(base + enc_all(ms.take(0)) =~= base);
    }
    let mut i: usize = 0;
    while i < items.len()
        invariant
            i <= items@.len(),
            ms == models(items@),
            ms.len() == items@.len(),
            forall|k: int| 0 <= k < items@.len() ==> #[trigger] ms[k] == model(items@[k]),
            forall|k: int| 0 <= k < ms.len() ==> encodable(#[trigger] ms[k]),
            out@ == base + enc_all(ms.take(i as int)),
        decreases items@.len() - i,
    {
        proof {
            assert(ms.take(i + 1) =~= ms.take(i as int).push(ms[i as int]));
            lemma_enc_all_push(ms.take(i as int), ms[i as int]);
            assert(encodable(ms[i as int]));
            assert(decreases_to!(*items => items@[i as int]));
        }
        encode_into(&items[i], out);
        proof {
            assert(out@ =~= base + enc_all(ms.take(i + 1)));
        }
        i = i + 1;
    }
    proof {
        assert(ms.take(i as int) =~= ms);
    }
}


/// One step of reading a run of values.
pub proof fn lemma_parse_all_step(w: Seq<u64>, p: int, m: nat, acc: Seq<Value>, v: Value, q: int)
    requires
        m > 0,
        0 <= p < w.len(),
        parse(w, p) == Some((v, q)),
        p < q <= w.len(),
    ensures
        prepend(acc, parse_all(w, p, m)) == prepend(acc.push(v), parse_all(w, q, (m - 1) as nat)),
{
    match parse_all(w, q, (m - 1) as nat) {
        Some((rest, end)) => {
            assert(acc + (seq![v] + rest) =~= acc.push(v) + rest);
        },
        None => {},
    }
}

/// Reads the value encoded at `pos`, with the position just after it.
pub fn decode_at(w: &Vec<u64>, pos: usize) -> (r: Option<(TermValue, usize)>)
    ensures
        r matches Some((t, next)) ==> parse(w@, pos as int) == Some((t@, next as int)),
        r is None ==> parse(w@, pos as int) is None,
    decreases w@.len() - pos,
{
    let len = w.len();
    if pos >= len {
        return None;
    }
    let tag = w[pos];
    if tag == 0 {
        return Some((TermValue::Nil, pos + 1));
    }
    if tag == 8 {
        return Some((TermValue::Invalid, pos + 1));
    }
    if pos + 1 >= len {
        return None;
    }
    let a = w[pos + 1];
    if tag == 1 {
        if a >= 0x7800_0000 && a <= 0x87FF_FFFF {
            let i = (a as i64 - 0x8000_0000i64) as i32;
            return Some((TermValue::SmallInt(i), pos + 2));
        }
        return None;
    }
    if tag == 2 {
        if a <= 0xFFFF_FFFF {
            return Some((TermValue::Atom(AtomIndex(a as u32)), pos + 2));
        }
        return None;
    }
    if tag == 6 {
        return Some((TermValue::Float(a), pos + 2));
    }
    if tag == 7 {
        if pos + 2 < len && a <= usize::MAX as u64 && w[pos + 2] <= usize::MAX as u64 {
            let r = ResourceRef { type_id: a as usize, handle: w[pos + 2] as usize };
            return Some((TermValue::Resource(r), pos + 3));
        }
        return None;
    }
    if tag == 5 {
        if a > (len - pos - 2) as u64 {
            return None;
        }
        let n = a as usize;
        let mut bytes: Vec<u8> = Vec::new();
        let mut k: usize = 0;
        while k < n
            invariant
                len == w@.len(),
                pos + 1 < len,
                w@[pos as int] == tag,
                w@[pos + 1] == a,
                tag == 5,
                pos + 2 + n <= len,
                n == a,
                k <= n,
                bytes@.len() == k,
                forall|j: int| 0 <= j < k ==> #[trigger] bytes@[j] == w@[pos + 2 + j] as u8 && w@[pos
                    + 2 + j] < 256,
            decreases n - k,
        {
            let x = w[pos + 2 + k];
            if x >= 256 {
                proof {
                    assert(!(w@[pos + 2 + k as int] < 256));
                    assert(!(forall|j: int| pos + 2 <= j < pos + 2 + a ==> #[trigger] w@[j] < 256));
                    assert(w@[pos as int] == tag && w@[pos + 1] == a);
                    assert(parse(w@, pos as int) is None);
                }
                return None;
            }
            bytes.push(x as u8);
            k = k + 1;
        }
        proof {
            assert forall|j: int| pos + 2 <= j < pos + 2 + a implies #[trigger] w@[j] < 256 by {
                assert(bytes@[j - pos - 2] == w@[pos + 2 + (j - pos - 2)] as u8);
            }
            assert(bytes@ =~= Seq::new(a as nat, |j: int| w@[pos + 2 + j] as u8));
        }
        return Some((TermValue::Binary(bytes), pos + 2 + n));
    }
    if tag == 3 || tag == 4 {
        let mut items: Vec<TermValue> = Vec::new();
        let mut p: usize = pos + 2;
        let mut k: u64 = 0;
        proof {
            assert(models(items@) =~= Seq::<Value>::empty());
            assert(prepend(Seq::empty(), parse_all(w@, p as int, a as nat)) == parse_all(
                w@,
                pos + 2,
                a as nat,
            )) by {
                match parse_all(w@, p as int, a as nat) {
                    Some((rest, end)) => {
                        assert(Seq::<Value>::empty() + rest =~= rest);
                    },
                    None => {},
                }
            }
        }
        while k < a
            invariant
                len == w@.len(),
                pos + 1 < len,
                w@[pos as int] == tag,
                w@[pos + 1] == a,
                tag == 3 || tag == 4,
                pos < p <= len,
                k <= a,
                parse_all(w@, pos + 2, a as nat) == prepend(
                    models(items@),
                    parse_all(w@, p as int, (a - k) as nat),
                ),
            decreases len - p,
        {
            if p >= len {
                proof {
                    assert(parse_all(w@, p as int, (a - k) as nat) is None);
                    assert(parse_all(w@, pos + 2, a as nat) is None);
                    assert(w@[pos as int] == tag && w@[pos + 1] == a);
                    assert(parse(w@, pos as int) is None);
                }
                return None;
            }
            match decode_at(w, p) {
                None => {
                    proof {
                        assert(parse_all(w@, p as int, (a - k) as nat) is None);
                        assert(parse_all(w@, pos + 2, a as nat) is None);
                    }
                    return None;
                },
                Some((t, q)) => {
                    if q <= p || q > len {
                        proof {
                            assert(parse_all(w@, p as int, (a - k) as nat) is None);
                            assert(parse_all(w@, pos + 2, a as nat) is None);
                            assert(w@[pos as int] == tag && w@[pos + 1] == a);
                            assert(parse(w@, pos as int) is None);
                        }
                        return None;
                    }
                    proof {
                        lemma_parse_all_step(w@, p as int, (a - k) as nat, models(items@), t@, q as int);
                        lemma_models_push(items@, t);
                    }
                    items.push(t);
                    p = q;
                    k = k + 1;
                },
            }
        }
        proof {
            assert(models(items@) + Seq::<Value>::empty() =~= models(items@));
        }
        if tag == 3 {
            return Some((TermValue::Tuple(items), p));
        } else {
            return Some((TermValue::List(items), p));
        }
    }
    None
}


/// Number of words a fresh arena holds.
pub const DEFAULT_HEAP_WORDS: usize = 65536;

/// A per-call arena of words that terms are encoded onto.
#[derive(Debug)]
pub struct MockHeap {
    pub words: Vec<u64>,
    pub capacity: usize,
}

impl MockHeap {
    /// The arena never holds more words than its capacity.
    pub open spec fn wf(&self) -> bool {
        self.words@.len() <= self.capacity
    }

    pub fn new() -> (r: MockHeap)
        ensures
            r.wf(),
            r.words@.len() == 0,
            r.capacity == DEFAULT_HEAP_WORDS,
    {
        MockHeap { words: Vec::new(), capacity: DEFAULT_HEAP_WORDS }
    }

    pub fn with_capacity(capacity: usize) -> (r: MockHeap)
        ensures
            r.wf(),
            r.words@.len() == 0,
            r.capacity == capacity,
    {
        MockHeap { words: Vec::new(), capacity }
    }

    /// Number of words in use.
    pub fn used(&self) -> (r: usize)
        ensures
            r == self.words@.len(),
    {
        self.words.len()
    }
}

/// A calling context: owns the arena of one call.
#[derive(Debug)]
pub struct MockContext {
    pub heap: MockHeap,
}

impl MockContext {
    pub fn new() -> (r: MockContext)
        ensures
            r.heap.wf(),
            r.heap.words@.len() == 0,
    {
        MockContext { heap: MockHeap::new() }
    }

    /// The context's arena.
    pub fn heap_mut(&mut self) -> (r: &mut MockHeap)
        ensures
            *r == old(self).heap,
            final(self).heap == *final(r),
    {
        &mut self.heap
    }
}

/// A term handle: the offset of a value's encoding in an arena.
#[derive(Debug, Clone, Copy, PartialEq, Eq, Structural)]
pub struct Term(pub u64);

/// What encoding `v` onto an arena holding `used` of `capacity` words gives.
pub open spec fn encode_outcome(used: nat, capacity: usize, v: Value) -> Result<Term, CodecError> {
    if !encodable(v) {
        Err(CodecError::Overflow)
    } else if used + enc(v).len() > capacity {
        Err(CodecError::ArenaExhausted)
    } else {
        Ok(Term(used as u64))
    }
}

/// What decoding the term at `handle` of the arena words `w` gives.
pub open spec fn decode_outcome(w: Seq<u64>, handle: u64) -> Result<Value, CodecError> {
    match parse(w, handle as int) {
        Some((v, _)) => Ok(v),
        None => Err(CodecError::Corrupt),
    }
}

impl Term {
    /// Encodes `value` onto the arena. Fails with `Overflow` when an integer
    /// is out of the small-integer range and with `ArenaExhausted` when the
    /// arena has no room; the arena is then left as it was.
    pub fn from_value(value: TermValue, heap: &mut MockHeap) -> (r: Result<Term, CodecError>)
        requires
            old(heap).wf(),
        ensures
            final(heap).wf(),
            final(heap).capacity == old(heap).capacity,
            r == encode_outcome(old(heap).words@.len(), old(heap).capacity, value@),
            r is Err ==> final(heap).words@ == old(heap).words@,
            r is Ok ==> final(heap).words@ == old(heap).words@ + enc(value@),
    {
        if !is_encodable(&value) {
            return Err(CodecError::Overflow);
        }
        let used = heap.words.len();
        match fit(&value, heap.capacity - used) {
            None => Err(CodecError::ArenaExhausted),
            Some(_) => {
                encode_into(&value, &mut heap.words);
                Ok(Term(used as u64))
            },
        }
    }

    /// Decodes the value whose encoding starts at this handle. Fails with
    /// `Corrupt` when the words there are no well-formed encoding.
    pub fn to_value(&self, heap: &MockHeap) -> (r: Result<TermValue, CodecError>)
        ensures
            match decode_outcome(heap.words@, self.0) {
                Ok(v) => r matches Ok(t) && t@ == v,
                Err(e) => r == Err::<TermValue, CodecError>(e),
            },
    {
        let n = heap.words.len();
        if self.0 > usize::MAX as u64 {
            assert(self.0 >= n);
            return Err(CodecError::Corrupt);
        }
        match decode_at(&heap.words, self.0 as usize) {
            Some((t, _)) => Ok(t),
            None => Err(CodecError::Corrupt),
        }
    }

    /// Decodes the term and reads it as a small integer.
    pub fn to_int(&self, heap: &MockHeap) -> (r: Result<i32, CodecError>)
        ensures
            match decode_outcome(heap.words@, self.0) {
                Ok(Value::SmallInt(i)) => r == Ok::<i32, CodecError>(i as i32),
                Ok(_) => r == Err::<i32, CodecError>(CodecError::TypeMismatch),
                Err(e) => r == Err::<i32, CodecError>(e),
            },
    {
        match self.to_value(heap) {
            Ok(TermValue::SmallInt(i)) => Ok(i),
            Ok(_) => Err(CodecError::TypeMismatch),
            Err(e) => Err(e),
        }
    }
}

impl TermValue {
    pub fn integer(value: i32) -> (r: TermValue)
        ensures
            r@ == Value::SmallInt(value as int),
    {
        TermValue::SmallInt(value)
    }

    pub fn tuple(items: Vec<TermValue>) -> (r: TermValue)
        ensures
            r@ == Value::Tuple(models(items@)),
    {
        TermValue::Tuple(items)
    }

    pub fn list(items: Vec<TermValue>) -> (r: TermValue)
        ensures
            r@ == Value::List(models(items@)),
    {
        TermValue::List(items)
    }

    pub fn as_int(&self) -> (r: Option<i32>)
        ensures
            r == (match self@ {
                Value::SmallInt(i) => Some(i as i32),
                _ => None::<i32>,
            }),
    {
        match self {
            TermValue::SmallInt(i) => Some(*i),
            _ => None,
        }
    }

    pub fn as_atom(&self) -> (r: Option<AtomIndex>)
        ensures
            r == (match self@ {
                Value::Atom(a) => Some(AtomIndex(a)),
                _ => None::<AtomIndex>,
            }),
    {
        match self {
            TermValue::Atom(a) => Some(*a),
            _ => None,
        }
    }

    /// A copy of the value, all the way down.
    pub fn deep_clone(&self) -> (r: TermValue)
        ensures
            r@ == self@,
        decreases self,
    {
        match self {
            TermValue::Nil => TermValue::Nil,
            TermValue::Invalid => TermValue::Invalid,
            TermValue::SmallInt(i) => TermValue::SmallInt(*i),
            TermValue::Atom(a) => TermValue::Atom(*a),
            TermValue::Float(bits) => TermValue::Float(*bits),
            TermValue::Resource(r) => TermValue::Resource(*r),
            TermValue::Binary(b) => TermValue::Binary(b.clone()),
            TermValue::Tuple(items) => TermValue::Tuple(clone_all(items)),
            TermValue::List(items) => TermValue::List(clone_all(items)),
        }
    }

    /// The elements of a list, copied; empty for any other value.
    pub fn list_to_vec(&self) -> (r: Vec<TermValue>)
        ensures
            match self@ {
                Value::List(items) => models(r@) == items,
                _ => r@.len() == 0,
            },
    {
        match self {
            TermValue::List(items) => clone_all(items),
            _ => Vec::new(),
        }
    }
}

/// Copies of every term of `items`.
pub fn clone_all(items: &Vec<TermValue>) -> (r: Vec<TermValue>)
    ensures
        models(r@) == models(items@),
    decreases items,
{
    let mut out: Vec<TermValue> = Vec::new();
    let mut i: usize = 0;
    proof {
        assert(items@.take(0) =~= Seq::<TermValue>::empty());
        assert(models(out@) =~= models(items@.take(0)));
    }
    while i < items.len()
        invariant
            i <= items@.len(),
            models(out@) == models(items@.take(i as int)),
        decreases items@.len() - i,
    {
        proof {
            assert(decreases_to!(*items => items@[i as int]));
        }
        let c = items[i].deep_clone();
        proof {
            lemma_models_push(out@, c);
            lemma_models_push(items@.take(i as int), items@[i as int]);
            assert(items@.take(i + 1) =~= items@.take(i as int).push(items@[i as int]));
        }
        out.push(c);
        i = i + 1;
    }
    proof {
        assert(items@.take(i as int) =~= items@);
    }
    out
}

} // verus!
