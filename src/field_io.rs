//! Reading and writing fields in buffers.
use vstd::prelude::*;
use vstd::utf8::{decode_utf8, valid_utf8};
use crate::bytes::{
    le_u32, push_i64_le, push_u32_le, push_u64_le, read_u32_le, read_u64_le,
};
use crate::bytes::lemma_i64_bits;
use crate::fields::{
    amount_bytes_all, key_bytes_all, lemma_amount_bytes_all_push, lemma_key_bytes_all_push,
    amount_chunks, field_bytes, key_chunks, lemma_u32_prefix, lemma_u64_prefix, parse_field,
    prefix_u32, FieldKind, FieldValue,
};
use crate::pubkey::Pubkey;

verus! {

/// A field value held in memory.
#[derive(Debug)]
pub enum Field {
    U8(u8),
    Bool(bool),
    U32(u32),
    U64(u64),
    I64(i64),
    Key(Pubkey),
    Bytes(Vec<u8>),
    Text(String),
    Keys(Vec<Pubkey>),
    Amounts(Vec<u64>),
    OptKey(Option<Pubkey>),
    OptU64(Option<u64>),
    OptBytes(Option<Vec<u8>>),
    Choice(u8),
}

pub open spec fn keys_view(ks: Seq<Pubkey>) -> Seq<Seq<u8>> {
    ks.map_values(|k: Pubkey| k@)
}

pub open spec fn opt_key_view(o: Option<Pubkey>) -> Option<Seq<u8>> {
    match o {
        None => None,
        Some(k) => Some(k@),
    }
}

pub open spec fn opt_bytes_view(o: Option<Vec<u8>>) -> Option<Seq<u8>> {
    match o {
        None => None,
        Some(b) => Some(b@),
    }
}

impl View for Field {
    type V = FieldValue;

    open spec fn view(&self) -> FieldValue {
        match self {
            Field::U8(v) => FieldValue::U8(*v),
            Field::Bool(v) => FieldValue::Bool(*v),
            Field::U32(v) => FieldValue::U32(*v),
            Field::U64(v) => FieldValue::U64(*v),
            Field::I64(v) => FieldValue::I64(*v),
            Field::Key(k) => FieldValue::Key(k@),
            Field::Bytes(b) => FieldValue::Bytes(b@),
            Field::Text(t) => FieldValue::Text(t@),
            Field::Keys(ks) => FieldValue::Keys(keys_view(ks@)),
            Field::Amounts(xs) => FieldValue::Amounts(xs@),
            Field::OptKey(o) => FieldValue::OptKey(opt_key_view(*o)),
            Field::OptU64(o) => FieldValue::OptU64(*o),
            Field::OptBytes(o) => FieldValue::OptBytes(opt_bytes_view(*o)),
            Field::Choice(c) => FieldValue::Choice(*c),
        }
    }
}

/// Lengths and counts that a 32-bit prefix can state.
pub open spec fn writable(f: FieldValue) -> bool {
    match f {
        FieldValue::Bytes(b) => b.len() <= u32::MAX,
        FieldValue::Text(t) => vstd::utf8::encode_utf8(t).len() <= u32::MAX,
        FieldValue::Keys(ks) => ks.len() <= u32::MAX,
        FieldValue::Amounts(xs) => xs.len() <= u32::MAX,
        FieldValue::OptBytes(o) => match o {
            None => true,
            Some(b) => b.len() <= u32::MAX,
        },
        _ => true,
    }
}

/// Relies on std::str::from_utf8: it accepts exactly the well-formed UTF-8
/// byte strings, and the text it returns is the one those bytes spell.
#[verifier::external_body]
pub(crate) fn utf8_text(b: &[u8]) -> (r: Option<String>)
    ensures
        r is Some <==> valid_utf8(b@),
        r matches Some(t) ==> t@ == decode_utf8(b@),
{
    match std::str::from_utf8(b) {
        Ok(t) => Some(t.to_string()),
        Err(_) => None,
    }
}

/// Appends all of `b`.
pub fn push_slice(out: &mut Vec<u8>, b: &[u8])
    ensures
        final(out)@ == old(out)@ + b@,
{
    let mut i: usize = 0;
    while i < b.len()
        invariant
            0 <= i <= b@.len(),
            out@ == old(out)@ + b@.subrange(0, i as int),
        decreases b@.len() - i,
    {
        out.push(b[i]);
        i += 1;
        assert(out@ =~= old(out)@ + b@.subrange(0, i as int));
    }
    assert(b@.subrange(0, i as int) =~= b@);
}

/// A copy of `b[start..end]`.
pub fn copy_range(b: &[u8], start: usize, end: usize) -> (r: Vec<u8>)
    requires
        start <= end <= b@.len(),
    ensures
        r@ == b@.subrange(start as int, end as int),
{
    let mut r: Vec<u8> = Vec::new();
    let mut i: usize = start;
    while i < end
        invariant
            start <= i <= end <= b@.len(),
            r@ == b@.subrange(start as int, i as int),
        decreases end - i,
    {
        r.push(b[i]);
        i += 1;
        assert(r@ =~= b@.subrange(start as int, i as int));
    }
    r
}

/// The 32 bytes at `pos` as an identity.
pub fn read_key(b: &[u8], pos: usize) -> (r: Pubkey)
    requires
        pos + 32 <= b.len(),
    ensures
        r@ == b@.subrange(pos as int, pos + 32),
{
    let mut a = [0u8; 32];
    let mut i: usize = 0;
    while i < 32
        invariant
            0 <= i <= 32,
            pos + 32 <= b.len(),
            a@.len() == 32,
            forall|j: int| 0 <= j < i ==> a@[j] == b@[pos + j],
        decreases 32 - i,
    {
        a[i] = b[pos + i];
        i += 1;
    }
    assert(a@ =~= b@.subrange(pos as int, pos + 32));
    Pubkey { bytes: a }
}

/// Appends the bytes of `k`.
pub fn push_key(out: &mut Vec<u8>, k: &Pubkey)
    ensures
        final(out)@ == old(out)@ + k@,
{
    push_slice(out, k.bytes.as_slice());
}

/// `r` is what reading a field of kind `k` at `pos` of `b` gives: nothing
/// where `b` holds no such field there, else the value and the position after it.
pub open spec fn read_result(k: FieldKind, b: Seq<u8>, pos: usize, r: Option<(Field, usize)>) -> bool {
    match parse_field(k, b.subrange(pos as int, b.len() as int)) {
        None => r is None,
        Some((v, n)) => r matches Some((f, p)) && f@ == v && p == pos + n,
    }
}

fn read_u32_field(b: &[u8], pos: usize) -> (r: Option<(Field, usize)>)
    requires
        pos <= b.len(),
    ensures
        read_result(FieldKind::U32, b@, pos, r),
{
    let ghost s = b@.subrange(pos as int, b@.len() as int);
    if b.len() - pos < 4 {
        return None;
    }
    let v = read_u32_le(b, pos);
    proof {
        assert(s =~= le_u32(v) + s.skip(4));
        lemma_u32_prefix(v, s.skip(4));
    }
    Some((Field::U32(v), pos + 4))
}

fn read_u64_field(b: &[u8], pos: usize, signed: bool) -> (r: Option<(Field, usize)>)
    requires
        pos <= b.len(),
    ensures
        read_result(if signed { FieldKind::I64 } else { FieldKind::U64 }, b@, pos, r),
{
    let ghost s = b@.subrange(pos as int, b@.len() as int);
    if b.len() - pos < 8 {
        return None;
    }
    let v = read_u64_le(b, pos);
    proof {
        assert(s =~= crate::bytes::le_u64(v) + s.skip(8));
        lemma_u64_prefix(v, s.skip(8));
        lemma_i64_bits(0, v);
    }
    if signed {
        Some((Field::I64(v as i64), pos + 8))
    } else {
        Some((Field::U64(v), pos + 8))
    }
}

/// Reads the 32-bit length at `pos` and the run of bytes it announces;
/// returns the run's bounds.
fn read_len_prefixed(b: &[u8], pos: usize) -> (r: Option<(usize, usize)>)
    requires
        pos <= b.len(),
    ensures
        ({
            let s = b@.subrange(pos as int, b@.len() as int);
            if s.len() >= 4 && 4 + prefix_u32(s) <= s.len() {
                r == Some(((pos + 4) as usize, (pos + 4 + prefix_u32(s)) as usize))
            } else {
                r is None
            }
        }),
{
    let ghost s = b@.subrange(pos as int, b@.len() as int);
    if b.len() - pos < 4 {
        return None;
    }
    let n = read_u32_le(b, pos);
    proof {
        assert(s =~= le_u32(n) + s.skip(4));
        lemma_u32_prefix(n, s.skip(4));
    }
    let start = pos + 4;
    match start.checked_add(n as usize) {
        Some(end) => {
            if end <= b.len() {
                Some((start, end))
            } else {
                None
            }
        },
        None => None,
    }
}

fn read_bytes_field(b: &[u8], pos: usize) -> (r: Option<(Field, usize)>)
    requires
        pos <= b.len(),
    ensures
        read_result(FieldKind::Bytes, b@, pos, r),
{
    let ghost s = b@.subrange(pos as int, b@.len() as int);
    match read_len_prefixed(b, pos) {
        None => None,
        Some((start, end)) => {
            let v = copy_range(b, start, end);
            assert(v@ =~= s.subrange(4, 4 + prefix_u32(s)));
            Some((Field::Bytes(v), end))
        },
    }
}

fn read_text_field(b: &[u8], pos: usize) -> (r: Option<(Field, usize)>)
    requires
        pos <= b.len(),
    ensures
        read_result(FieldKind::Text, b@, pos, r),
{
    let ghost s = b@.subrange(pos as int, b@.len() as int);
    match read_len_prefixed(b, pos) {
        None => None,
        Some((start, end)) => {
            let run = &b[start..end];
            assert(run@ =~= s.subrange(4, 4 + prefix_u32(s)));
            match utf8_text(run) {
                None => None,
                Some(t) => Some((Field::Text(t), end)),
            }
        },
    }
}

fn read_keys_field(b: &[u8], pos: usize) -> (r: Option<(Field, usize)>)
    requires
        pos <= b.len(),
    ensures
        read_result(FieldKind::Keys, b@, pos, r),
{
    let ghost s = b@.subrange(pos as int, b@.len() as int);
    if b.len() - pos < 4 {
        return None;
    }
    let c = read_u32_le(b, pos);
    proof {
        assert(s =~= le_u32(c) + s.skip(4));
        lemma_u32_prefix(c, s.skip(4));
    }
    let start = pos + 4;
    let size = match (c as usize).checked_mul(32) {
        Some(x) => x,
        None => return None,
    };
    let end = match start.checked_add(size) {
        Some(x) => x,
        None => return None,
    };
    if end > b.len() {
        return None;
    }
    let mut keys: Vec<Pubkey> = Vec::new();
    let mut i: usize = 0;
    while i < c as usize
        invariant
            0 <= i <= c,
            end == start + 32 * c <= b.len(),
            start == pos + 4,
            s == b@.subrange(pos as int, b@.len() as int),
            keys@.len() == i,
            forall|j: int|
                0 <= j < i ==> (#[trigger] keys@[j])@ == key_chunks(s.skip(4), c as nat)[j],
        decreases c - i,
    {
        let k = read_key(b, start + 32 * i);
        proof {
            assert(k@ =~= key_chunks(s.skip(4), c as nat)[i as int]);
        }
        keys.push(k);
        i += 1;
    }
    assert(keys_view(keys@) =~= key_chunks(s.skip(4), c as nat));
    Some((Field::Keys(keys), end))
}

fn read_amounts_field(b: &[u8], pos: usize) -> (r: Option<(Field, usize)>)
    requires
        pos <= b.len(),
    ensures
        read_result(FieldKind::Amounts, b@, pos, r),
{
    let ghost s = b@.subrange(pos as int, b@.len() as int);
    if b.len() - pos < 4 {
        return None;
    }
    let c = read_u32_le(b, pos);
    proof {
        assert(s =~= le_u32(c) + s.skip(4));
        lemma_u32_prefix(c, s.skip(4));
    }
    let start = pos + 4;
    let size = match (c as usize).checked_mul(8) {
        Some(x) => x,
        None => return None,
    };
    let end = match start.checked_add(size) {
        Some(x) => x,
        None => return None,
    };
    if end > b.len() {
        return None;
    }
    let mut xs: Vec<u64> = Vec::new();
    let mut i: usize = 0;
    while i < c as usize
        invariant
            0 <= i <= c,
            end == start + 8 * c <= b.len(),
            start == pos + 4,
            s == b@.subrange(pos as int, b@.len() as int),
            xs@.len() == i,
            forall|j: int| 0 <= j < i ==> #[trigger] xs@[j] == amount_chunks(s.skip(4), c as nat)[j],
        decreases c - i,
    {
        let x = read_u64_le(b, start + 8 * i);
        proof {
            let t = s.skip(4).skip(8 * i);
            assert(t =~= crate::bytes::le_u64(x) + t.skip(8));
            lemma_u64_prefix(x, t.skip(8));
        }
        xs.push(x);
        i += 1;
    }
    assert(xs@ =~= amount_chunks(s.skip(4), c as nat));
    Some((Field::Amounts(xs), end))
}

fn read_option_field(b: &[u8], pos: usize, k: FieldKind) -> (r: Option<(Field, usize)>)
    requires
        pos <= b.len(),
        k == FieldKind::OptKey || k == FieldKind::OptU64 || k == FieldKind::OptBytes,
    ensures
        read_result(k, b@, pos, r),
{
    let ghost s = b@.subrange(pos as int, b@.len() as int);
    if b.len() - pos < 1 {
        return None;
    }
    let flag = b[pos];
    if flag == 0 {
        let f = match k {
            FieldKind::OptKey => Field::OptKey(None),
            FieldKind::OptU64 => Field::OptU64(None),
            _ => Field::OptBytes(None),
        };
        return Some((f, pos + 1));
    }
    if flag != 1 {
        return None;
    }
    match k {
        FieldKind::OptKey => {
            if b.len() - pos < 33 {
                return None;
            }
            let key = read_key(b, pos + 1);
            assert(key@ =~= s.subrange(1, 33));
            Some((Field::OptKey(Some(key)), pos + 33))
        },
        FieldKind::OptU64 => {
            if b.len() - pos < 9 {
                return None;
            }
            let x = read_u64_le(b, pos + 1);
            proof {
                let t = s.skip(1);
                assert(t =~= crate::bytes::le_u64(x) + t.skip(8));
                lemma_u64_prefix(x, t.skip(8));
            }
            Some((Field::OptU64(Some(x)), pos + 9))
        },
        _ => {
            assert(s.skip(1) =~= b@.subrange(pos + 1, b@.len() as int));
            match read_len_prefixed(b, pos + 1) {
                None => None,
                Some((start, end)) => {
                    let v = copy_range(b, start, end);
                    assert(v@ =~= s.subrange(5, 5 + prefix_u32(s.skip(1))));
                    Some((Field::OptBytes(Some(v)), end))
                },
            }
        },
    }
}

/// Reads one field of kind `k` at `pos`.
pub fn read_field(b: &[u8], pos: usize, k: FieldKind) -> (r: Option<(Field, usize)>)
    requires
        pos <= b.len(),
    ensures
        read_result(k, b@, pos, r),
{
    let ghost s = b@.subrange(pos as int, b@.len() as int);
    match k {
        FieldKind::U8 => {
            if b.len() - pos < 1 {
                None
            } else {
                Some((Field::U8(b[pos]), pos + 1))
            }
        },
        FieldKind::Bool => {
            if b.len() - pos < 1 || b[pos] > 1 {
                None
            } else {
                Some((Field::Bool(b[pos] == 1), pos + 1))
            }
        },
        FieldKind::Choice(n) => {
            if b.len() - pos < 1 || b[pos] >= n {
                None
            } else {
                Some((Field::Choice(b[pos]), pos + 1))
            }
        },
        FieldKind::U32 => read_u32_field(b, pos),
        FieldKind::U64 => read_u64_field(b, pos, false),
        FieldKind::I64 => read_u64_field(b, pos, true),
        FieldKind::Key => {
            if b.len() - pos < 32 {
                None
            } else {
                let key = read_key(b, pos);
                assert(key@ =~= s.subrange(0, 32));
                Some((Field::Key(key), pos + 32))
            }
        },
        FieldKind::Bytes => read_bytes_field(b, pos),
        FieldKind::Text => read_text_field(b, pos),
        FieldKind::Keys => read_keys_field(b, pos),
        FieldKind::Amounts => read_amounts_field(b, pos),
        FieldKind::OptKey => read_option_field(b, pos, k),
        FieldKind::OptU64 => read_option_field(b, pos, k),
        FieldKind::OptBytes => read_option_field(b, pos, k),
    }
}

fn push_keys(out: &mut Vec<u8>, ks: &Vec<Pubkey>)
    ensures
        final(out)@ == old(out)@ + key_bytes_all(keys_view(ks@)),
{
    let mut i: usize = 0;
    while i < ks.len()
        invariant
            0 <= i <= ks@.len(),
            out@ == old(out)@ + key_bytes_all(keys_view(ks@).take(i as int)),
        decreases ks@.len() - i,
    {
        push_key(out, &ks[i]);
        proof {
            lemma_key_bytes_all_push(keys_view(ks@).take(i as int), ks@[i as int]@);
            assert(keys_view(ks@).take(i + 1) =~= keys_view(ks@).take(i as int).push(ks@[i as int]@));
        }
        i += 1;
    }
    assert(keys_view(ks@).take(i as int) =~= keys_view(ks@));
}

fn push_amounts(out: &mut Vec<u8>, xs: &Vec<u64>)
    ensures
        final(out)@ == old(out)@ + amount_bytes_all(xs@),
{
    let mut i: usize = 0;
    while i < xs.len()
        invariant
            0 <= i <= xs@.len(),
            out@ == old(out)@ + amount_bytes_all(xs@.take(i as int)),
        decreases xs@.len() - i,
    {
        push_u64_le(out, xs[i]);
        proof {
            lemma_amount_bytes_all_push(xs@.take(i as int), xs@[i as int]);
            assert(xs@.take(i + 1) =~= xs@.take(i as int).push(xs@[i as int]));
        }
        i += 1;
    }
    assert(xs@.take(i as int) =~= xs@);
}

/// Appends the bytes of `f`.
pub fn write_field(out: &mut Vec<u8>, f: &Field)
    requires
        writable(f@),
    ensures
        final(out)@ == old(out)@ + field_bytes(f@),
{
    let ghost start = out@;
    match f {
        Field::U8(v) => {
            out.push(*v);
        },
        Field::Bool(v) => {
            out.push(if *v { 1u8 } else { 0u8 });
        },
        Field::Choice(c) => {
            out.push(*c);
        },
        Field::U32(v) => {
            push_u32_le(out, *v);
        },
        Field::U64(v) => {
            push_u64_le(out, *v);
        },
        Field::I64(v) => {
            push_i64_le(out, *v);
        },
        Field::Key(k) => {
            push_key(out, k);
        },
        Field::Bytes(b) => {
            push_u32_le(out, b.len() as u32);
            push_slice(out, b.as_slice());
        },
        Field::Text(t) => {
            let bs = t.as_str().as_bytes();
            push_u32_le(out, bs.len() as u32);
            push_slice(out, bs);
        },
        Field::Keys(ks) => {
            push_u32_le(out, ks.len() as u32);
            push_keys(out, ks);
        },
        Field::Amounts(xs) => {
            push_u32_le(out, xs.len() as u32);
            push_amounts(out, xs);
        },
        Field::OptKey(o) => {
            match o {
                None => out.push(0u8),
                Some(k) => {
                    out.push(1u8);
                    push_key(out, k);
                },
            }
        },
        Field::OptU64(o) => {
            match o {
                None => out.push(0u8),
                Some(x) => {
                    out.push(1u8);
                    push_u64_le(out, *x);
                },
            }
        },
        Field::OptBytes(o) => {
            match o {
                None => out.push(0u8),
                Some(b) => {
                    out.push(1u8);
                    push_u32_le(out, b.len() as u32);
                    push_slice(out, b.as_slice());
                },
            }
        },
    }
    assert(out@ =~= start + field_bytes(f@));
}

} // verus!
