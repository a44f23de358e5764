//! The field layer of the payload format: each field kind, how a value of it
//! is laid out in bytes, and how it is read back.
//!
//! Integers are little-endian, a byte string or text is a little-endian
//! 32-bit length followed by its bytes (text as UTF-8), a list is a 32-bit
//! count followed by its items, an optional value is a 0 or 1 byte followed by
//! the value when it is there, a boolean is one byte 0 or 1, and a choice
//! among `n` named cases is one byte below `n`.
use vstd::prelude::*;
use vstd::utf8::*;
use crate::bytes::{
    le_i64, le_u32, le_u64, lemma_i64_bits, lemma_le_u32_of_bytes, lemma_le_u32_round_trip,
    lemma_le_u64_of_bytes, lemma_le_u64_round_trip, u32_of_le, u64_of_le,
};
use crate::pubkey::Pubkey;

verus! {

/// The kinds of field a payload is made of.
#[derive(Clone, Copy, Debug, PartialEq, Eq, Structural)]
pub enum FieldKind {
    U8,
    Bool,
    U32,
    U64,
    I64,
    Key,
    Bytes,
    Text,
    Keys,
    Amounts,
    OptKey,
    OptU64,
    OptBytes,
    /// One byte naming one of `n` cases, `0..n`.
    Choice(u8),
}

/// A field value, as the contracts speak of it.
pub enum FieldValue {
    U8(u8),
    Bool(bool),
    U32(u32),
    U64(u64),
    I64(i64),
    Key(Seq<u8>),
    Bytes(Seq<u8>),
    Text(Seq<char>),
    Keys(Seq<Seq<u8>>),
    Amounts(Seq<u64>),
    OptKey(Option<Seq<u8>>),
    OptU64(Option<u64>),
    OptBytes(Option<Seq<u8>>),
    Choice(u8),
}

pub open spec fn key_bytes_all(ks: Seq<Seq<u8>>) -> Seq<u8>
    decreases ks.len(),
{
    if ks.len() == 0 {
        Seq::empty()
    } else {
        ks[0] + key_bytes_all(ks.drop_first())
    }
}

pub open spec fn amount_bytes_all(xs: Seq<u64>) -> Seq<u8>
    decreases xs.len(),
{
    if xs.len() == 0 {
        Seq::empty()
    } else {
        le_u64(xs[0]) + amount_bytes_all(xs.drop_first())
    }
}

/// A length or count as its 32-bit little-endian prefix.
pub open spec fn len_prefix(n: nat) -> Seq<u8> {
    le_u32(n as u32)
}

/// The bytes of one field.
pub open spec fn field_bytes(f: FieldValue) -> Seq<u8> {
    match f {
        FieldValue::U8(v) => seq![v],
        FieldValue::Bool(v) => seq![if v { 1u8 } else { 0u8 }],
        FieldValue::U32(v) => le_u32(v),
        FieldValue::U64(v) => le_u64(v),
        FieldValue::I64(v) => le_i64(v),
        FieldValue::Key(k) => k,
        FieldValue::Bytes(s) => len_prefix(s.len()) + s,
        FieldValue::Text(t) => len_prefix(encode_utf8(t).len()) + encode_utf8(t),
        FieldValue::Keys(ks) => len_prefix(ks.len()) + key_bytes_all(ks),
        FieldValue::Amounts(xs) => len_prefix(xs.len()) + amount_bytes_all(xs),
        FieldValue::OptKey(o) => match o {
            None => seq![0u8],
            Some(k) => seq![1u8] + k,
        },
        FieldValue::OptU64(o) => match o {
            None => seq![0u8],
            Some(v) => seq![1u8] + le_u64(v),
        },
        FieldValue::OptBytes(o) => match o {
            None => seq![0u8],
            Some(s) => seq![1u8] + len_prefix(s.len()) + s,
        },
        FieldValue::Choice(c) => seq![c],
    }
}

/// `f` is a value of kind `k` that the format can hold: keys are 32 bytes,
/// lengths and counts fit in 32 bits, a choice is below its bound.
pub open spec fn field_has_kind(f: FieldValue, k: FieldKind) -> bool {
    match (f, k) {
        (FieldValue::U8(_), FieldKind::U8) => true,
        (FieldValue::Bool(_), FieldKind::Bool) => true,
        (FieldValue::U32(_), FieldKind::U32) => true,
        (FieldValue::U64(_), FieldKind::U64) => true,
        (FieldValue::I64(_), FieldKind::I64) => true,
        (FieldValue::Key(key), FieldKind::Key) => key.len() == 32,
        (FieldValue::Bytes(s), FieldKind::Bytes) => s.len() <= u32::MAX,
        (FieldValue::Text(t), FieldKind::Text) => encode_utf8(t).len() <= u32::MAX,
        (FieldValue::Keys(ks), FieldKind::Keys) => ks.len() <= u32::MAX && forall|i: int|
            0 <= i < ks.len() ==> (#[trigger] ks[i]).len() == 32,
        (FieldValue::Amounts(xs), FieldKind::Amounts) => xs.len() <= u32::MAX,
        (FieldValue::OptKey(o), FieldKind::OptKey) => match o {
            None => true,
            Some(key) => key.len() == 32,
        },
        (FieldValue::OptU64(_), FieldKind::OptU64) => true,
        (FieldValue::OptBytes(o), FieldKind::OptBytes) => match o {
            None => true,
            Some(s) => s.len() <= u32::MAX,
        },
        (FieldValue::Choice(c), FieldKind::Choice(n)) => c < n,
        _ => false,
    }
}

/// The bytes of a run of fields, one after another.
pub open spec fn fields_bytes(fs: Seq<FieldValue>) -> Seq<u8>
    decreases fs.len(),
{
    if fs.len() == 0 {
        Seq::empty()
    } else {
        field_bytes(fs[0]) + fields_bytes(fs.drop_first())
    }
}

/// Each of `fs` has the kind at its place in `ks`.
pub open spec fn fields_match(fs: Seq<FieldValue>, ks: Seq<FieldKind>) -> bool {
    &&& fs.len() == ks.len()
    &&& forall|i: int| 0 <= i < fs.len() ==> #[trigger] field_has_kind(fs[i], ks[i])
}

/// The 32-bit value of the first four bytes of `s`, least significant first.
pub open spec fn prefix_u32(s: Seq<u8>) -> u32 {
    u32_of_le(s[0], s[1], s[2], s[3])
}

pub open spec fn prefix_u64(s: Seq<u8>) -> u64 {
    u64_of_le(s[0], s[1], s[2], s[3], s[4], s[5], s[6], s[7])
}

/// The first `n` runs of 32 bytes of `s`.
pub open spec fn key_chunks(s: Seq<u8>, n: nat) -> Seq<Seq<u8>> {
    Seq::new(n, |i: int| s.subrange(32 * i, 32 * i + 32))
}

/// The first `n` little-endian 64-bit values of `s`.
pub open spec fn amount_chunks(s: Seq<u8>, n: nat) -> Seq<u64> {
    Seq::new(n, |i: int| prefix_u64(s.skip(8 * i)))
}

/// Reading a field of kind `k` at the front of `s`: the value and the number
/// of bytes it took, or `None` where `s` does not start with one.
pub open spec fn parse_field(k: FieldKind, s: Seq<u8>) -> Option<(FieldValue, int)> {
    match k {
        FieldKind::U8 => if s.len() >= 1 {
            Some((FieldValue::U8(s[0]), 1))
        } else {
            None
        },
        FieldKind::Bool => if s.len() >= 1 && s[0] <= 1 {
            Some((FieldValue::Bool(s[0] == 1), 1))
        } else {
            None
        },
        FieldKind::U32 => if s.len() >= 4 {
            Some((FieldValue::U32(prefix_u32(s)), 4))
        } else {
            None
        },
        FieldKind::U64 => if s.len() >= 8 {
            Some((FieldValue::U64(prefix_u64(s)), 8))
        } else {
            None
        },
        FieldKind::I64 => if s.len() >= 8 {
            Some((FieldValue::I64(prefix_u64(s) as i64), 8))
        } else {
            None
        },
        FieldKind::Key => if s.len() >= 32 {
            Some((FieldValue::Key(s.subrange(0, 32)), 32))
        } else {
            None
        },
        FieldKind::Bytes => if s.len() >= 4 && 4 + prefix_u32(s) <= s.len() {
            Some((FieldValue::Bytes(s.subrange(4, 4 + prefix_u32(s))), 4 + prefix_u32(s)))
        } else {
            None
        },
        FieldKind::Text => if s.len() >= 4 && 4 + prefix_u32(s) <= s.len() && valid_utf8(
            s.subrange(4, 4 + prefix_u32(s)),
        ) {
            Some(
                (
                    FieldValue::Text(decode_utf8(s.subrange(4, 4 + prefix_u32(s)))),
                    4 + prefix_u32(s),
                ),
            )
        } else {
            None
        },
        FieldKind::Keys => if s.len() >= 4 && 4 + 32 * prefix_u32(s) <= s.len() {
            Some(
                (
                    FieldValue::Keys(key_chunks(s.skip(4), prefix_u32(s) as nat)),
                    4 + 32 * prefix_u32(s),
                ),
            )
        } else {
            None
        },
        FieldKind::Amounts => if s.len() >= 4 && 4 + 8 * prefix_u32(s) <= s.len() {
            Some(
                (
                    FieldValue::Amounts(amount_chunks(s.skip(4), prefix_u32(s) as nat)),
                    4 + 8 * prefix_u32(s),
                ),
            )
        } else {
            None
        },
        FieldKind::OptKey => if s.len() >= 1 && s[0] == 0 {
            Some((FieldValue::OptKey(None), 1))
        } else if s.len() >= 33 && s[0] == 1 {
            Some((FieldValue::OptKey(Some(s.subrange(1, 33))), 33))
        } else {
            None
        },
        FieldKind::OptU64 => if s.len() >= 1 && s[0] == 0 {
            Some((FieldValue::OptU64(None), 1))
        } else if s.len() >= 9 && s[0] == 1 {
            Some((FieldValue::OptU64(Some(prefix_u64(s.skip(1)))), 9))
        } else {
            None
        },
        FieldKind::OptBytes => if s.len() >= 1 && s[0] == 0 {
            Some((FieldValue::OptBytes(None), 1))
        } else if s.len() >= 5 && s[0] == 1 && 5 + prefix_u32(s.skip(1)) <= s.len() {
            Some(
                (
                    FieldValue::OptBytes(Some(s.subrange(5, 5 + prefix_u32(s.skip(1))))),
                    5 + prefix_u32(s.skip(1)),
                ),
            )
        } else {
            None
        },
        FieldKind::Choice(n) => if s.len() >= 1 && s[0] < n {
            Some((FieldValue::Choice(s[0]), 1))
        } else {
            None
        },
    }
}

/// Reading the fields of kinds `ks` one after another at the front of `s`.
pub open spec fn parse_fields(ks: Seq<FieldKind>, s: Seq<u8>) -> Option<(Seq<FieldValue>, int)>
    decreases ks.len(),
{
    if ks.len() == 0 {
        Some((Seq::empty(), 0))
    } else {
        match parse_field(ks[0], s) {
            None => None,
            Some((f, n)) => match parse_fields(ks.drop_first(), s.skip(n)) {
                None => None,
                Some((fs, m)) => Some((seq![f] + fs, n + m)),
            },
        }
    }
}

proof fn lemma_key_bytes_all(ks: Seq<Seq<u8>>)
    requires
        forall|i: int| 0 <= i < ks.len() ==> (#[trigger] ks[i]).len() == 32,
    ensures
        key_bytes_all(ks).len() == 32 * ks.len(),
        key_chunks(key_bytes_all(ks), ks.len()) == ks,
    decreases ks.len(),
{
    if ks.len() > 0 {
        let tail = ks.drop_first();
        lemma_key_bytes_all(tail);
        let all = key_bytes_all(ks);
        assert(all == ks[0] + key_bytes_all(tail));
        assert forall|i: int| 0 <= i < ks.len() implies #[trigger] all.subrange(32 * i, 32 * i + 32)
            == ks[i] by {
            if i == 0 {
                assert(all.subrange(0, 32) =~= ks[0]);
            } else {
                assert(key_chunks(key_bytes_all(tail), tail.len())[i - 1] == tail[i - 1]);
                assert(all.subrange(32 * i, 32 * i + 32) =~= key_bytes_all(tail).subrange(
                    32 * (i - 1),
                    32 * (i - 1) + 32,
                ));
            }
        }
        assert(key_chunks(all, ks.len()) =~= ks);
    }
}

proof fn lemma_key_chunks_bytes(s: Seq<u8>, n: nat)
    requires
        32 * n <= s.len(),
    ensures
        key_bytes_all(key_chunks(s, n)) == s.subrange(0, 32 * n as int),
        forall|i: int| 0 <= i < n ==> (#[trigger] key_chunks(s, n)[i]).len() == 32,
    decreases n,
{
    if n > 0 {
        let rest = s.skip(32);
        lemma_key_chunks_bytes(rest, (n - 1) as nat);
        let ks = key_chunks(s, n);
        assert forall|i: int| 0 <= i < n - 1 implies #[trigger] ks.drop_first()[i] == key_chunks(
            rest,
            (n - 1) as nat,
        )[i] by {
            assert(ks.drop_first()[i] =~= key_chunks(rest, (n - 1) as nat)[i]);
        }
        assert(ks.drop_first() =~= key_chunks(rest, (n - 1) as nat));
        assert(key_bytes_all(ks) == ks[0] + key_bytes_all(ks.drop_first()));
        assert(key_bytes_all(ks) =~= s.subrange(0, 32 * n as int));
    } else {
        assert(key_bytes_all(key_chunks(s, n)) =~= s.subrange(0, 32 * n as int));
    }
}

proof fn lemma_amount_bytes_all(xs: Seq<u64>)
    ensures
        amount_bytes_all(xs).len() == 8 * xs.len(),
        amount_chunks(amount_bytes_all(xs), xs.len()) == xs,
    decreases xs.len(),
{
    if xs.len() > 0 {
        let tail = xs.drop_first();
        lemma_amount_bytes_all(tail);
        let all = amount_bytes_all(xs);
        assert(all == le_u64(xs[0]) + amount_bytes_all(tail));
        assert forall|i: int| 0 <= i < xs.len() implies #[trigger] prefix_u64(all.skip(8 * i))
            == xs[i] by {
            if i == 0 {
                lemma_le_u64_round_trip(xs[0]);
            } else {
                assert(amount_chunks(amount_bytes_all(tail), tail.len())[i - 1] == tail[i - 1]);
                assert(all.skip(8 * i) =~= amount_bytes_all(tail).skip(8 * (i - 1)));
            }
        }
        assert(amount_chunks(all, xs.len()) =~= xs);
    }
}

proof fn lemma_amount_chunks_bytes(s: Seq<u8>, n: nat)
    requires
        8 * n <= s.len(),
    ensures
        amount_bytes_all(amount_chunks(s, n)) == s.subrange(0, 8 * n as int),
    decreases n,
{
    if n > 0 {
        let rest = s.skip(8);
        lemma_amount_chunks_bytes(rest, (n - 1) as nat);
        let xs = amount_chunks(s, n);
        assert forall|i: int| 0 <= i < n - 1 implies #[trigger] xs.drop_first()[i]
            == amount_chunks(rest, (n - 1) as nat)[i] by {
            assert(s.skip(8 * (i + 1)) =~= rest.skip(8 * i));
        }
        assert(xs.drop_first() =~= amount_chunks(rest, (n - 1) as nat));
        lemma_le_u64_of_bytes(s[0], s[1], s[2], s[3], s[4], s[5], s[6], s[7]);
        assert(s.skip(0) =~= s);
        assert(amount_bytes_all(xs) == le_u64(xs[0]) + amount_bytes_all(xs.drop_first()));
        assert(amount_bytes_all(xs) =~= s.subrange(0, 8 * n as int));
    } else {
        assert(amount_bytes_all(amount_chunks(s, n)) =~= s.subrange(0, 8 * n as int));
    }
}

pub proof fn lemma_u32_prefix(v: u32, rest: Seq<u8>)
    ensures
        prefix_u32(le_u32(v) + rest) == v,
{
    lemma_le_u32_round_trip(v);
    let s = le_u32(v) + rest;
    assert(s[0] == le_u32(v)[0] && s[1] == le_u32(v)[1] && s[2] == le_u32(v)[2] && s[3] == le_u32(
        v,
    )[3]);
}

pub proof fn lemma_u64_prefix(v: u64, rest: Seq<u8>)
    ensures
        prefix_u64(le_u64(v) + rest) == v,
{
    lemma_le_u64_round_trip(v);
    let s = le_u64(v) + rest;
    assert forall|i: int| 0 <= i < 8 implies s[i] == le_u64(v)[i] by {}
}

proof fn lemma_u32_prefix_bytes(s: Seq<u8>)
    requires
        s.len() >= 4,
    ensures
        le_u32(prefix_u32(s)) == s.subrange(0, 4),
{
    lemma_le_u32_of_bytes(s[0], s[1], s[2], s[3]);
    assert(s.subrange(0, 4) =~= seq![s[0], s[1], s[2], s[3]]);
}

proof fn lemma_u64_prefix_bytes(s: Seq<u8>)
    requires
        s.len() >= 8,
    ensures
        le_u64(prefix_u64(s)) == s.subrange(0, 8),
{
    lemma_le_u64_of_bytes(s[0], s[1], s[2], s[3], s[4], s[5], s[6], s[7]);
    assert(s.subrange(0, 8) =~= seq![s[0], s[1], s[2], s[3], s[4], s[5], s[6], s[7]]);
}

proof fn lemma_bytes_round_trip(b: Seq<u8>, rest: Seq<u8>)
    requires
        b.len() <= u32::MAX,
    ensures
        parse_field(FieldKind::Bytes, field_bytes(FieldValue::Bytes(b)) + rest) == Some(
            (FieldValue::Bytes(b), field_bytes(FieldValue::Bytes(b)).len() as int),
        ),
{
    let s = field_bytes(FieldValue::Bytes(b)) + rest;
    lemma_u32_prefix(b.len() as u32, b + rest);
    assert(s =~= le_u32(b.len() as u32) + (b + rest));
    assert(s.subrange(4, 4 + b.len() as int) =~= b);
}

proof fn lemma_text_round_trip(t: Seq<char>, rest: Seq<u8>)
    requires
        encode_utf8(t).len() <= u32::MAX,
    ensures
        parse_field(FieldKind::Text, field_bytes(FieldValue::Text(t)) + rest) == Some(
            (FieldValue::Text(t), field_bytes(FieldValue::Text(t)).len() as int),
        ),
{
    let s = field_bytes(FieldValue::Text(t)) + rest;
    let e = encode_utf8(t);
    lemma_u32_prefix(e.len() as u32, e + rest);
    assert(s =~= le_u32(e.len() as u32) + (e + rest));
    assert(s.subrange(4, 4 + e.len() as int) =~= e);
    encode_utf8_valid_utf8(t);
    encode_utf8_decode_utf8(t);
}

proof fn lemma_keys_round_trip(ks: Seq<Seq<u8>>, rest: Seq<u8>)
    requires
        field_has_kind(FieldValue::Keys(ks), FieldKind::Keys),
    ensures
        parse_field(FieldKind::Keys, field_bytes(FieldValue::Keys(ks)) + rest) == Some(
            (FieldValue::Keys(ks), field_bytes(FieldValue::Keys(ks)).len() as int),
        ),
{
    let s = field_bytes(FieldValue::Keys(ks)) + rest;
    let kb = key_bytes_all(ks);
    lemma_key_bytes_all(ks);
    lemma_u32_prefix(ks.len() as u32, kb + rest);
    assert(s =~= le_u32(ks.len() as u32) + (kb + rest));
    assert forall|i: int| 0 <= i < ks.len() implies #[trigger] s.skip(4).subrange(
        32 * i,
        32 * i + 32,
    ) == kb.subrange(32 * i, 32 * i + 32) by {
        assert(s.skip(4).subrange(32 * i, 32 * i + 32) =~= kb.subrange(32 * i, 32 * i + 32));
    }
    assert(key_chunks(s.skip(4), ks.len()) =~= key_chunks(kb, ks.len()));
}

proof fn lemma_amounts_round_trip(xs: Seq<u64>, rest: Seq<u8>)
    requires
        xs.len() <= u32::MAX,
    ensures
        parse_field(FieldKind::Amounts, field_bytes(FieldValue::Amounts(xs)) + rest) == Some(
            (FieldValue::Amounts(xs), field_bytes(FieldValue::Amounts(xs)).len() as int),
        ),
{
    let s = field_bytes(FieldValue::Amounts(xs)) + rest;
    let ab = amount_bytes_all(xs);
    lemma_amount_bytes_all(xs);
    lemma_u32_prefix(xs.len() as u32, ab + rest);
    assert(s =~= le_u32(xs.len() as u32) + (ab + rest));
    assert forall|i: int| 0 <= i < xs.len() implies #[trigger] prefix_u64(s.skip(4).skip(8 * i))
        == prefix_u64(ab.skip(8 * i)) by {
        assert forall|j: int| 0 <= j < 8 implies #[trigger] s.skip(4).skip(8 * i)[j] == ab.skip(
            8 * i,
        )[j] by {}
    }
    assert(amount_chunks(s.skip(4), xs.len()) =~= amount_chunks(ab, xs.len()));
}

proof fn lemma_option_round_trip(f: FieldValue, k: FieldKind, rest: Seq<u8>)
    requires
        field_has_kind(f, k),
        f is OptKey || f is OptU64 || f is OptBytes,
    ensures
        parse_field(k, field_bytes(f) + rest) == Some((f, field_bytes(f).len() as int)),
{
    let s = field_bytes(f) + rest;
    match f {
        FieldValue::OptKey(o) => {
            if let Some(key) = o {
                assert(s.subrange(1, 33) =~= key);
            }
        },
        FieldValue::OptU64(o) => {
            if let Some(v) = o {
                lemma_u64_prefix(v, rest);
                assert(s.skip(1) =~= le_u64(v) + rest);
            }
        },
        FieldValue::OptBytes(o) => {
            if let Some(b) = o {
                lemma_u32_prefix(b.len() as u32, b + rest);
                assert(s.skip(1) =~= le_u32(b.len() as u32) + (b + rest));
                assert(s.subrange(5, 5 + b.len() as int) =~= b);
            }
        },
        _ => {},
    }
}

/// A field is read back from its own bytes, whatever follows them.
#[verifier::spinoff_prover]
pub proof fn lemma_parse_field_round_trip(f: FieldValue, k: FieldKind, rest: Seq<u8>)
    requires
        field_has_kind(f, k),
    ensures
        parse_field(k, field_bytes(f) + rest) == Some((f, field_bytes(f).len() as int)),
{
    let s = field_bytes(f) + rest;
    match f {
        FieldValue::U32(v) => {
            lemma_u32_prefix(v, rest);
        },
        FieldValue::U64(v) => {
            lemma_u64_prefix(v, rest);
        },
        FieldValue::I64(v) => {
            lemma_u64_prefix(v as u64, rest);
            lemma_i64_bits(v, 0);
        },
        FieldValue::Key(key) => {
            assert(s.subrange(0, 32) =~= key);
        },
        FieldValue::Bytes(b) => {
            lemma_bytes_round_trip(b, rest);
        },
        FieldValue::Text(t) => {
            lemma_text_round_trip(t, rest);
        },
        FieldValue::Keys(ks) => {
            lemma_keys_round_trip(ks, rest);
        },
        FieldValue::Amounts(xs) => {
            lemma_amounts_round_trip(xs, rest);
        },
        FieldValue::OptKey(_) => {
            lemma_option_round_trip(f, k, rest);
        },
        FieldValue::OptU64(_) => {
            lemma_option_round_trip(f, k, rest);
        },
        FieldValue::OptBytes(_) => {
            lemma_option_round_trip(f, k, rest);
        },
        _ => {},
    }
}

/// What is read is a value of the kind asked for, laid out as the bytes it
/// was read from.
pub proof fn lemma_parse_field_sound(k: FieldKind, s: Seq<u8>)
    requires
        parse_field(k, s) is Some,
    ensures
        field_has_kind(parse_field(k, s).unwrap().0, k),
        0 <= parse_field(k, s).unwrap().1 <= s.len(),
        field_bytes(parse_field(k, s).unwrap().0) == s.subrange(0, parse_field(k, s).unwrap().1),
{
    let (f, n) = parse_field(k, s).unwrap();
    match k {
        FieldKind::U8 => {
            assert(s.subrange(0, 1) =~= seq![s[0]]);
        },
        FieldKind::Bool => {
            assert(s.subrange(0, 1) =~= seq![s[0]]);
        },
        FieldKind::Choice(_) => {
            assert(s.subrange(0, 1) =~= seq![s[0]]);
        },
        FieldKind::U32 => {
            lemma_u32_prefix_bytes(s);
        },
        FieldKind::U64 => {
            lemma_u64_prefix_bytes(s);
        },
        FieldKind::I64 => {
            lemma_u64_prefix_bytes(s);
            lemma_i64_bits(0, prefix_u64(s));
        },
        FieldKind::Key => {},
        FieldKind::Bytes => {
            lemma_u32_prefix_bytes(s);
            assert(s.subrange(0, n) =~= s.subrange(0, 4) + s.subrange(4, n));
        },
        FieldKind::Text => {
            let b = s.subrange(4, n);
            lemma_u32_prefix_bytes(s);
            decode_utf8_encode_utf8(b);
            assert(s.subrange(0, n) =~= s.subrange(0, 4) + b);
        },
        FieldKind::Keys => {
            let c = prefix_u32(s) as nat;
            lemma_u32_prefix_bytes(s);
            lemma_key_chunks_bytes(s.skip(4), c);
            assert(s.subrange(0, n) =~= s.subrange(0, 4) + s.skip(4).subrange(0, 32 * c as int));
        },
        FieldKind::Amounts => {
            let c = prefix_u32(s) as nat;
            lemma_u32_prefix_bytes(s);
            lemma_amount_chunks_bytes(s.skip(4), c);
            assert(s.subrange(0, n) =~= s.subrange(0, 4) + s.skip(4).subrange(0, 8 * c as int));
        },
        FieldKind::OptKey => {
            if n == 1 {
                assert(s.subrange(0, 1) =~= seq![0u8]);
            } else {
                assert(s.subrange(0, 33) =~= seq![1u8] + s.subrange(1, 33));
            }
        },
        FieldKind::OptU64 => {
            if n == 1 {
                assert(s.subrange(0, 1) =~= seq![0u8]);
            } else {
                lemma_u64_prefix_bytes(s.skip(1));
                assert(s.subrange(0, 9) =~= seq![1u8] + s.skip(1).subrange(0, 8));
            }
        },
        FieldKind::OptBytes => {
            if n == 1 {
                assert(s.subrange(0, 1) =~= seq![0u8]);
            } else {
                lemma_u32_prefix_bytes(s.skip(1));
                assert(s.subrange(0, n) =~= seq![1u8] + s.skip(1).subrange(0, 4) + s.subrange(
                    5,
                    n,
                ));
            }
        },
    }
}

/// Read back from its own bytes, a run of fields is the same run.
pub proof fn lemma_parse_fields_round_trip(fs: Seq<FieldValue>, ks: Seq<FieldKind>, rest: Seq<u8>)
    requires
        fields_match(fs, ks),
    ensures
        parse_fields(ks, fields_bytes(fs) + rest) == Some((fs, fields_bytes(fs).len() as int)),
    decreases fs.len(),
{
    if fs.len() > 0 {
        let tail = fs.drop_first();
        let tail_rest = fields_bytes(tail) + rest;
        assert(field_has_kind(fs[0], ks[0]));
        lemma_parse_field_round_trip(fs[0], ks[0], tail_rest);
        assert(fields_bytes(fs) + rest =~= field_bytes(fs[0]) + tail_rest);
        let n0 = field_bytes(fs[0]).len() as int;
        assert((fields_bytes(fs) + rest).skip(n0) =~= tail_rest);
        assert forall|i: int| 0 <= i < tail.len() implies #[trigger] field_has_kind(
            tail[i],
            ks.drop_first()[i],
        ) by {
            assert(field_has_kind(fs[i + 1], ks[i + 1]));
        }
        lemma_parse_fields_round_trip(tail, ks.drop_first(), rest);
        assert(seq![fs[0]] + tail =~= fs);
    }
}

/// What a run of fields is read as is a run of the kinds asked for, laid out
/// as the bytes it was read from.
pub proof fn lemma_parse_fields_sound(ks: Seq<FieldKind>, s: Seq<u8>)
    requires
        parse_fields(ks, s) is Some,
    ensures
        fields_match(parse_fields(ks, s).unwrap().0, ks),
        0 <= parse_fields(ks, s).unwrap().1 <= s.len(),
        fields_bytes(parse_fields(ks, s).unwrap().0) == s.subrange(
            0,
            parse_fields(ks, s).unwrap().1,
        ),
    decreases ks.len(),
{
    if ks.len() == 0 {
        assert(s.subrange(0, 0) =~= Seq::<u8>::empty());
    } else {
        let (f, n) = parse_field(ks[0], s).unwrap();
        lemma_parse_field_sound(ks[0], s);
        let rest = s.skip(n);
        lemma_parse_fields_sound(ks.drop_first(), rest);
        let (fs, m) = parse_fields(ks.drop_first(), rest).unwrap();
        let all = seq![f] + fs;
        assert(all.drop_first() =~= fs);
        assert forall|i: int| 0 <= i < all.len() implies #[trigger] field_has_kind(all[i], ks[i]) by {
            if i > 0 {
                assert(field_has_kind(fs[i - 1], ks.drop_first()[i - 1]));
            }
        }
        assert(s.subrange(0, n + m) =~= s.subrange(0, n) + rest.subrange(0, m));
    }
}

pub proof fn lemma_fields_bytes_append(a: Seq<FieldValue>, b: Seq<FieldValue>)
    ensures
        fields_bytes(a + b) == fields_bytes(a) + fields_bytes(b),
    decreases a.len(),
{
    if a.len() == 0 {
        assert(a + b =~= b);
        assert(fields_bytes(a) + fields_bytes(b) =~= fields_bytes(b));
    } else {
        lemma_fields_bytes_append(a.drop_first(), b);
        assert((a + b).drop_first() =~= a.drop_first() + b);
        assert(fields_bytes(a + b) =~= fields_bytes(a) + fields_bytes(b));
    }
}

pub proof fn lemma_key_bytes_all_push(ks: Seq<Seq<u8>>, k: Seq<u8>)
    ensures
        key_bytes_all(ks.push(k)) == key_bytes_all(ks) + k,
    decreases ks.len(),
{
    if ks.len() == 0 {
        assert(ks.push(k).drop_first() =~= Seq::<Seq<u8>>::empty());
        assert(key_bytes_all(ks.push(k).drop_first()) == Seq::<u8>::empty());
        assert(key_bytes_all(ks) == Seq::<u8>::empty());
        assert(key_bytes_all(ks.push(k)) == ks.push(k)[0] + key_bytes_all(ks.push(k).drop_first()));
        assert(key_bytes_all(ks.push(k)) =~= key_bytes_all(ks) + k);
    } else {
        lemma_key_bytes_all_push(ks.drop_first(), k);
        assert(ks.push(k).drop_first() =~= ks.drop_first().push(k));
        assert(ks.push(k)[0] == ks[0]);
        assert(key_bytes_all(ks.push(k)) == ks[0] + key_bytes_all(ks.drop_first().push(k)));
        assert(key_bytes_all(ks) == ks[0] + key_bytes_all(ks.drop_first()));
        assert(key_bytes_all(ks.push(k)) =~= key_bytes_all(ks) + k);
    }
}

pub proof fn lemma_amount_bytes_all_push(xs: Seq<u64>, x: u64)
    ensures
        amount_bytes_all(xs.push(x)) == amount_bytes_all(xs) + le_u64(x),
    decreases xs.len(),
{
    if xs.len() == 0 {
        assert(xs.push(x).drop_first() =~= Seq::<u64>::empty());
        assert(amount_bytes_all(xs.push(x).drop_first()) == Seq::<u8>::empty());
        assert(amount_bytes_all(xs) == Seq::<u8>::empty());
        assert(amount_bytes_all(xs.push(x)) == le_u64(xs.push(x)[0]) + amount_bytes_all(
            xs.push(x).drop_first(),
        ));
        assert(amount_bytes_all(xs.push(x)) =~= amount_bytes_all(xs) + le_u64(x));
    } else {
        lemma_amount_bytes_all_push(xs.drop_first(), x);
        assert(xs.push(x).drop_first() =~= xs.drop_first().push(x));
        assert(xs.push(x)[0] == xs[0]);
        assert(amount_bytes_all(xs.push(x)) == le_u64(xs[0]) + amount_bytes_all(
            xs.drop_first().push(x),
        ));
        assert(amount_bytes_all(xs) == le_u64(xs[0]) + amount_bytes_all(xs.drop_first()));
        assert(amount_bytes_all(xs.push(x)) =~= amount_bytes_all(xs) + le_u64(x));
    }
}

} // verus!
