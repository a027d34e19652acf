//! The standard binary codec: values, method calls and result envelopes.
use vstd::prelude::*;
use vstd::bytes::*;
use vstd::utf8::*;
use crate::codec::{MethodCall, MethodCallResult, MethodCodec, ResultModel};
use crate::value::{Value, ValueModel, lemma_models_of, lemma_pair_models_of};
use crate::wire_proofs::{holds, lemma_parse_enc};
use crate::wire::{
    concat_chunks, enc, enc_pairs, enc_seq, fits, fits_pairs, fits_seq, i32_chunks,
    i64_chunks, padding, parse, parse_pairs, parse_seq, read_size, size_prefix, u64_chunks,
    word16_at, word32_at, word64_at, zeros, MAX_LEN, TAG_F64, TAG_F64_LIST, TAG_FALSE, TAG_I32,
    TAG_I32_LIST, TAG_I64, TAG_I64_LIST, TAG_LIST, TAG_MAP, TAG_NULL, TAG_STRING, TAG_TRUE,
    TAG_U8_LIST,
};

verus! {

broadcast use {
    vstd::std_specs::vec::group_vec_axioms,
    vstd::seq::group_seq_axioms,
};

/// Every element of a sequence that fits, fits.
proof fn lemma_fits_seq(s: Seq<ValueModel>)
    ensures
        fits_seq(s) <==> forall|i: int| 0 <= i < s.len() ==> fits(#[trigger] s[i]),
    decreases s.len(),
{
    if s.len() > 0 {
        let rest = s.subrange(1, s.len() as int);
        lemma_fits_seq(rest);
        assert forall|i: int| 1 <= i < s.len() implies rest[i - 1] == #[trigger] s[i] by {}
        if forall|i: int| 0 <= i < s.len() ==> fits(#[trigger] s[i]) {
            assert forall|i: int| 0 <= i < rest.len() implies fits(#[trigger] rest[i]) by {
                assert(rest[i] == s[i + 1]);
            }
        }
    }
}

proof fn lemma_fits_pairs(m: Seq<(ValueModel, ValueModel)>)
    ensures
        fits_pairs(m) <==> forall|i: int|
            0 <= i < m.len() ==> fits((#[trigger] m[i]).0) && fits(m[i].1),
    decreases m.len(),
{
    if m.len() > 0 {
        let rest = m.subrange(1, m.len() as int);
        lemma_fits_pairs(rest);
        assert forall|i: int| 1 <= i < m.len() implies rest[i - 1] == #[trigger] m[i] by {}
        if forall|i: int| 0 <= i < m.len() ==> fits((#[trigger] m[i]).0) && fits(m[i].1) {
            assert forall|i: int| 0 <= i < rest.len() implies fits((#[trigger] rest[i]).0) && fits(
                rest[i].1,
            ) by {
                assert(rest[i] == m[i + 1]);
            }
        }
    }
}

fn append_bytes(buf: &mut Vec<u8>, mut more: Vec<u8>)
    ensures
        final(buf)@ == old(buf)@ + more@,
{
    buf.append(&mut more);
}

fn write_size(buf: &mut Vec<u8>, n: usize)
    requires
        n <= MAX_LEN,
    ensures
        final(buf)@ == old(buf)@ + size_prefix(n as nat),
{
    if n < 254 {
        buf.push(n as u8);
    } else if n <= 0xffff {
        buf.push(254u8);
        append_bytes(buf, u16_to_le_bytes(n as u16));
    } else {
        buf.push(255u8);
        append_bytes(buf, u32_to_le_bytes(n as u32));
    }
}

/// Zero bytes up to the next multiple of `align` of the buffer's length.
fn write_padding(buf: &mut Vec<u8>, align: usize)
    requires
        align == 4 || align == 8,
    ensures
        final(buf)@ == old(buf)@ + zeros(padding(old(buf)@.len() as int, align as int)),
{
    let k: usize = (align - buf.len() % align) % align;
    let ghost start = buf@;
    let mut i: usize = 0;
    while i < k
        invariant
            i <= k,
            k == padding(start.len() as int, align as int),
            buf@ == start + zeros(i as int),
        decreases k - i,
    {
        buf.push(0u8);
        i = i + 1;
        assert(buf@ =~= start + zeros(i as int));
    }
}

fn write_str(buf: &mut Vec<u8>, s: &String)
    requires
        encode_utf8(s@).len() <= MAX_LEN,
    ensures
        final(buf)@ == old(buf)@ + enc(ValueModel::Str(s@), old(buf)@.len() as int),
{
    let ghost start = buf@;
    let bytes = s.as_str().as_bytes();
    buf.push(TAG_STRING);
    write_size(buf, bytes.len());
    let mut i: usize = 0;
    let ghost mid = buf@;
    while i < bytes.len()
        invariant
            i <= bytes@.len(),
            bytes@ == encode_utf8(s@),
            buf@ == mid + bytes@.subrange(0, i as int),
        decreases bytes@.len() - i,
    {
        buf.push(bytes[i]);
        i = i + 1;
        assert(buf@ =~= mid + bytes@.subrange(0, i as int));
    }
    assert(bytes@.subrange(0, i as int) =~= bytes@);
    assert(buf@ =~= start + enc(ValueModel::Str(s@), start.len() as int));
}

fn write_u8_list(buf: &mut Vec<u8>, l: &Vec<u8>)
    requires
        l@.len() <= MAX_LEN,
    ensures
        final(buf)@ == old(buf)@ + enc(ValueModel::U8List(l@), old(buf)@.len() as int),
{
    let ghost start = buf@;
    buf.push(TAG_U8_LIST);
    write_size(buf, l.len());
    let ghost mid = buf@;
    let mut i: usize = 0;
    while i < l.len()
        invariant
            i <= l@.len(),
            buf@ == mid + l@.subrange(0, i as int),
        decreases l@.len() - i,
    {
        buf.push(l[i]);
        i = i + 1;
        assert(buf@ =~= mid + l@.subrange(0, i as int));
    }
    assert(l@.subrange(0, i as int) =~= l@);
    assert(buf@ =~= start + enc(ValueModel::U8List(l@), start.len() as int));
}

/// `concat_chunks` of a prefix grows by one chunk.
proof fn lemma_chunks_take(c: Seq<Seq<u8>>, i: int)
    requires
        0 <= i < c.len(),
    ensures
        concat_chunks(c.take(i + 1)) == concat_chunks(c.take(i)) + c[i],
{
    assert(c.take(i + 1).drop_last() =~= c.take(i));
}

fn write_i32_list(buf: &mut Vec<u8>, l: &Vec<i32>)
    requires
        l@.len() <= MAX_LEN,
    ensures
        final(buf)@ == old(buf)@ + enc(ValueModel::I32List(l@), old(buf)@.len() as int),
{
    let ghost start = buf@;
    let ghost c = i32_chunks(l@);
    buf.push(TAG_I32_LIST);
    write_size(buf, l.len());
    write_padding(buf, 4);
    let ghost mid = buf@;
    let mut i: usize = 0;
    assert(c.take(0) =~= Seq::<Seq<u8>>::empty());
    while i < l.len()
        invariant
            i <= l@.len(),
            c == i32_chunks(l@),
            buf@ == mid + concat_chunks(c.take(i as int)),
        decreases l@.len() - i,
    {
        append_bytes(buf, u32_to_le_bytes(l[i] as u32));
        proof {
            lemma_chunks_take(c, i as int);
        }
        i = i + 1;
        assert(buf@ =~= mid + concat_chunks(c.take(i as int)));
    }
    assert(c.take(i as int) =~= c);
    assert(buf@ =~= start + enc(ValueModel::I32List(l@), start.len() as int));
}

fn write_i64_list(buf: &mut Vec<u8>, l: &Vec<i64>)
    requires
        l@.len() <= MAX_LEN,
    ensures
        final(buf)@ == old(buf)@ + enc(ValueModel::I64List(l@), old(buf)@.len() as int),
{
    let ghost start = buf@;
    let ghost c = i64_chunks(l@);
    buf.push(TAG_I64_LIST);
    write_size(buf, l.len());
    write_padding(buf, 8);
    let ghost mid = buf@;
    let mut i: usize = 0;
    assert(c.take(0) =~= Seq::<Seq<u8>>::empty());
    while i < l.len()
        invariant
            i <= l@.len(),
            c == i64_chunks(l@),
            buf@ == mid + concat_chunks(c.take(i as int)),
        decreases l@.len() - i,
    {
        append_bytes(buf, u64_to_le_bytes(l[i] as u64));
        proof {
            lemma_chunks_take(c, i as int);
        }
        i = i + 1;
        assert(buf@ =~= mid + concat_chunks(c.take(i as int)));
    }
    assert(c.take(i as int) =~= c);
    assert(buf@ =~= start + enc(ValueModel::I64List(l@), start.len() as int));
}

fn write_f64_list(buf: &mut Vec<u8>, l: &Vec<u64>)
    requires
        l@.len() <= MAX_LEN,
    ensures
        final(buf)@ == old(buf)@ + enc(ValueModel::F64List(l@), old(buf)@.len() as int),
{
    let ghost start = buf@;
    let ghost c = u64_chunks(l@);
    buf.push(TAG_F64_LIST);
    write_size(buf, l.len());
    write_padding(buf, 8);
    let ghost mid = buf@;
    let mut i: usize = 0;
    assert(c.take(0) =~= Seq::<Seq<u8>>::empty());
    while i < l.len()
        invariant
            i <= l@.len(),
            c == u64_chunks(l@),
            buf@ == mid + concat_chunks(c.take(i as int)),
        decreases l@.len() - i,
    {
        append_bytes(buf, u64_to_le_bytes(l[i]));
        proof {
            lemma_chunks_take(c, i as int);
        }
        i = i + 1;
        assert(buf@ =~= mid + concat_chunks(c.take(i as int)));
    }
    assert(c.take(i as int) =~= c);
    assert(buf@ =~= start + enc(ValueModel::F64List(l@), start.len() as int));
}

/// Appends the encoding of `v` to `buf`; alignment counts from the start of `buf`.
pub fn write_value(buf: &mut Vec<u8>, v: &Value)
    requires
        fits(v@),
    ensures
        final(buf)@ == old(buf)@ + enc(v@, old(buf)@.len() as int),
    decreases v,
{
    let ghost start = buf@;
    match v {
        Value::Null => {
            buf.push(TAG_NULL);
        },
        Value::Boolean(b) => {
            if *b {
                buf.push(TAG_TRUE);
            } else {
                buf.push(TAG_FALSE);
            }
        },
        Value::I32(x) => {
            buf.push(TAG_I32);
            append_bytes(buf, u32_to_le_bytes(*x as u32));
        },
        Value::I64(x) => {
            buf.push(TAG_I64);
            append_bytes(buf, u64_to_le_bytes(*x as u64));
        },
        Value::F64(x) => {
            buf.push(TAG_F64);
            write_padding(buf, 8);
            append_bytes(buf, u64_to_le_bytes(*x));
        },
        Value::String(s) => write_str(buf, s),
        Value::U8List(l) => write_u8_list(buf, l),
        Value::I32List(l) => write_i32_list(buf, l),
        Value::I64List(l) => write_i64_list(buf, l),
        Value::F64List(l) => write_f64_list(buf, l),
        Value::List(l) => {
            let ghost ms = crate::value::models_of(l@);
            proof {
                lemma_models_of(l@);
                lemma_fits_seq(ms);
            }
            buf.push(TAG_LIST);
            write_size(buf, l.len());
            let ghost target = buf@ + enc_seq(ms, buf@.len() as int);
            let mut i: usize = 0;
            assert(ms.subrange(0, ms.len() as int) =~= ms);
            while i < l.len()
                invariant
                    *v == Value::List(*l),
                    i <= l@.len(),
                    ms.len() == l@.len(),
                    forall|j: int| 0 <= j < l@.len() ==> #[trigger] ms[j] == l@[j]@,
                    forall|j: int| 0 <= j < ms.len() ==> fits(#[trigger] ms[j]),
                    buf@ + enc_seq(ms.subrange(i as int, ms.len() as int), buf@.len() as int)
                        == target,
                decreases l@.len() - i,
            {
                let ghost before = buf@;
                let ghost rest = ms.subrange(i as int, ms.len() as int);
                assert(rest[0] == ms[i as int]);
                assert(rest.subrange(1, rest.len() as int) =~= ms.subrange(
                    i + 1,
                    ms.len() as int,
                ));
                proof {
                    assert(decreases_to!(*v => (*v)->List_0));
                    assert(decreases_to!(*l => l[i as int]));
                }
                write_value(buf, &l[i]);
                i = i + 1;
                assert(buf@ + enc_seq(ms.subrange(i as int, ms.len() as int), buf@.len() as int)
                    =~= before + enc_seq(rest, before.len() as int));
            }
            assert(ms.subrange(i as int, ms.len() as int) =~= Seq::<ValueModel>::empty());
            assert(buf@ =~= target);
        },
        Value::Dict(m) => {
            let ghost ms = crate::value::pair_models_of(m@);
            proof {
                lemma_pair_models_of(m@);
                lemma_fits_pairs(ms);
            }
            buf.push(TAG_MAP);
            write_size(buf, m.len());
            let ghost target = buf@ + enc_pairs(ms, buf@.len() as int);
            let mut i: usize = 0;
            assert(ms.subrange(0, ms.len() as int) =~= ms);
            while i < m.len()
                invariant
                    *v == Value::Dict(*m),
                    i <= m@.len(),
                    ms.len() == m@.len(),
                    forall|j: int|
                        0 <= j < m@.len() ==> #[trigger] ms[j] == (m@[j].0@, m@[j].1@),
                    forall|j: int| 0 <= j < ms.len() ==> fits((#[trigger] ms[j]).0) && fits(ms[j].1),
                    buf@ + enc_pairs(ms.subrange(i as int, ms.len() as int), buf@.len() as int)
                        == target,
                decreases m@.len() - i,
            {
                let ghost before = buf@;
                let ghost rest = ms.subrange(i as int, ms.len() as int);
                assert(rest[0] == ms[i as int]);
                assert(rest.subrange(1, rest.len() as int) =~= ms.subrange(
                    i + 1,
                    ms.len() as int,
                ));
                let entry = &m[i];
                proof {
                    assert(decreases_to!(*v => (*v)->Dict_0));
                    assert(decreases_to!(*m => m[i as int]));
                    assert(decreases_to!(m[i as int] => m[i as int].0));
                    assert(decreases_to!(m[i as int] => m[i as int].1));
                }
                write_value(buf, &entry.0);
                write_value(buf, &entry.1);
                i = i + 1;
                assert(buf@ + enc_pairs(ms.subrange(i as int, ms.len() as int), buf@.len() as int)
                    =~= before + enc_pairs(rest, before.len() as int));
            }
            assert(ms.subrange(i as int, ms.len() as int) =~= Seq::<
                (ValueModel, ValueModel),
            >::empty());
            assert(buf@ =~= target);
        },
    }
    assert(buf@ =~= start + enc(v@, start.len() as int));
}

/// Relies on `String::from_utf8`: it accepts exactly the byte sequences that
/// are valid UTF-8, and the string it returns holds those bytes.
#[verifier::external_body]
fn string_from_utf8(bytes: Vec<u8>) -> (r: Option<String>)
    ensures
        r is Some <==> valid_utf8(bytes@),
        r matches Some(s) ==> encode_utf8(s@) == bytes@,
{
    String::from_utf8(bytes).ok()
}

fn read_word16(b: &[u8], p: usize) -> (r: u16)
    requires
        p + 2 <= b@.len(),
    ensures
        r == word16_at(b@, p as int),
{
    let v: Vec<u8> = vec![b[p], b[p + 1]];
    assert(v@ =~= b@.subrange(p as int, p + 2));
    u16_from_le_bytes(v.as_slice())
}

fn read_word32(b: &[u8], p: usize) -> (r: u32)
    requires
        p + 4 <= b@.len(),
    ensures
        r == word32_at(b@, p as int),
{
    let v: Vec<u8> = vec![b[p], b[p + 1], b[p + 2], b[p + 3]];
    assert(v@ =~= b@.subrange(p as int, p + 4));
    u32_from_le_bytes(v.as_slice())
}

fn read_word64(b: &[u8], p: usize) -> (r: u64)
    requires
        p + 8 <= b@.len(),
    ensures
        r == word64_at(b@, p as int),
{
    let v: Vec<u8> = vec![b[p], b[p + 1], b[p + 2], b[p + 3], b[p + 4], b[p + 5], b[p + 6], b[p + 7]];
    assert(v@ =~= b@.subrange(p as int, p + 8));
    u64_from_le_bytes(v.as_slice())
}

fn read_size_at(b: &[u8], pos: usize) -> (r: Option<(usize, usize)>)
    ensures
        r is None <==> read_size(b@, pos as int) is None,
        r matches Some((n, q)) ==> read_size(b@, pos as int) == Some((n as nat, q as int)),
{
    if pos >= b.len() {
        None
    } else if b[pos] < 254 {
        Some((b[pos] as usize, pos + 1))
    } else if b[pos] == 254 {
        if b.len() - pos >= 3 {
            Some((read_word16(b, pos + 1) as usize, pos + 3))
        } else {
            None
        }
    } else if b.len() - pos >= 5 {
        Some((read_word32(b, pos + 1) as usize, pos + 5))
    } else {
        None
    }
}

fn copy_range(b: &[u8], from: usize, to: usize) -> (r: Vec<u8>)
    requires
        from <= to <= b@.len(),
    ensures
        r@ == b@.subrange(from as int, to as int),
{
    let mut out: Vec<u8> = Vec::new();
    let mut i: usize = from;
    while i < to
        invariant
            from <= i <= to <= b@.len(),
            out@ == b@.subrange(from as int, i as int),
        decreases to - i,
    {
        out.push(b[i]);
        i = i + 1;
        assert(out@ =~= b@.subrange(from as int, i as int));
    }
    out
}

/// Whether `n` words of `w` bytes fit between `r` and `len`.
fn words_fit(len: usize, r: usize, n: usize, w: usize) -> (ok: bool)
    requires
        r <= len,
        w == 4 || w == 8,
    ensures
        ok == (r + w * n <= len),
{
    let room = len - r;
    proof {
        assert((n <= room / w) == (w * n <= room)) by (nonlinear_arith)
            requires
                w > 0,
        ;
    }
    n <= room / w
}

fn read_i32_words(b: &[u8], r: usize, n: usize) -> (out: Vec<i32>)
    requires
        r + 4 * n <= b@.len(),
    ensures
        out@ == Seq::new(n as nat, |i: int| word32_at(b@, r + 4 * i) as i32),
{
    let mut out: Vec<i32> = Vec::new();
    let mut i: usize = 0;
    let len = b.len();
    while i < n
        invariant
            i <= n,
            len == b@.len(),
            r + 4 * n <= b@.len(),
            out@ == Seq::new(i as nat, |k: int| word32_at(b@, r + 4 * k) as i32),
        decreases n - i,
    {
        assert(r + 4 * i + 4 <= b@.len()) by (nonlinear_arith)
            requires
                i < n,
                r + 4 * n <= b@.len(),
        ;
        out.push(read_word32(b, r + 4 * i) as i32);
        i = i + 1;
        assert(out@ =~= Seq::new(i as nat, |k: int| word32_at(b@, r + 4 * k) as i32));
    }
    out
}

fn read_u64_words(b: &[u8], r: usize, n: usize) -> (out: Vec<u64>)
    requires
        r + 8 * n <= b@.len(),
    ensures
        out@ == Seq::new(n as nat, |i: int| word64_at(b@, r + 8 * i)),
{
    let mut out: Vec<u64> = Vec::new();
    let mut i: usize = 0;
    let len = b.len();
    while i < n
        invariant
            i <= n,
            len == b@.len(),
            r + 8 * n <= b@.len(),
            out@ == Seq::new(i as nat, |k: int| word64_at(b@, r + 8 * k)),
        decreases n - i,
    {
        assert(r + 8 * i + 8 <= b@.len()) by (nonlinear_arith)
            requires
                i < n,
                r + 8 * n <= b@.len(),
        ;
        out.push(read_word64(b, r + 8 * i));
        i = i + 1;
        assert(out@ =~= Seq::new(i as nat, |k: int| word64_at(b@, r + 8 * k)));
    }
    out
}

fn signed_words(w: Vec<u64>) -> (out: Vec<i64>)
    ensures
        out@ == Seq::new(w@.len(), |i: int| w@[i] as i64),
{
    let mut out: Vec<i64> = Vec::new();
    let mut i: usize = 0;
    while i < w.len()
        invariant
            i <= w@.len(),
            out@ == Seq::new(i as nat, |k: int| w@[k] as i64),
        decreases w@.len() - i,
    {
        out.push(w[i] as i64);
        i = i + 1;
        assert(out@ =~= Seq::new(i as nat, |k: int| w@[k] as i64));
    }
    out
}

/// `r` with the values `a` put in front of what it read.
pub open spec fn prefixed<T>(a: Seq<T>, r: Option<(Seq<T>, int)>) -> Option<(Seq<T>, int)> {
    match r {
        None => None,
        Some((s, e)) => Some((a + s, e)),
    }
}

proof fn lemma_prefixed_empty<T>(r: Option<(Seq<T>, int)>)
    ensures
        prefixed(Seq::<T>::empty(), r) == r,
{
    if let Some((s, e)) = r {
        assert(Seq::<T>::empty() + s =~= s);
    }
}

proof fn lemma_prefixed_push<T>(a: Seq<T>, x: T, r: Option<(Seq<T>, int)>)
    ensures
        prefixed(a, prefixed(seq![x], r)) == prefixed(a.push(x), r),
{
    if let Some((s, e)) = r {
        assert(a + (seq![x] + s) =~= a.push(x) + s);
    }
}

/// Reads `n` values one after another from `pos`.
fn read_list(b: &[u8], pos: usize, n: usize) -> (r: Option<(Vec<Value>, usize)>)
    ensures
        r is None <==> parse_seq(b@, pos as int, n as nat) is None,
        r matches Some((l, e)) ==> parse_seq(b@, pos as int, n as nat) == Some(
            (crate::value::models_of(l@), e as int),
        ),
    decreases b@.len() - pos, 1int, n,
{
    if pos > b.len() {
        return None;
    }
    let mut acc: Vec<Value> = Vec::new();
    let mut p: usize = pos;
    let mut i: usize = 0;
    proof {
        lemma_models_of(acc@);
        assert(crate::value::models_of(acc@) =~= Seq::<ValueModel>::empty());
        lemma_prefixed_empty(parse_seq(b@, pos as int, n as nat));
    }
    while i < n
        invariant
            pos <= p <= b@.len(),
            i <= n,
            parse_seq(b@, pos as int, n as nat) == prefixed(
                crate::value::models_of(acc@),
                parse_seq(b@, p as int, (n - i) as nat),
            ),
        decreases n - i,
    {
        match read_value(b, p) {
            None => {
                return None;
            },
            Some((v, at1)) => {
                if at1 <= p || at1 > b.len() {
                    return None;
                }
                proof {
                    lemma_models_of(acc@);
                    lemma_models_of(acc@.push(v));
                    assert(crate::value::models_of(acc@.push(v)) =~= crate::value::models_of(
                        acc@,
                    ).push(v@));
                    lemma_prefixed_push(
                        crate::value::models_of(acc@),
                        v@,
                        parse_seq(b@, at1 as int, (n - i - 1) as nat),
                    );
                }
                acc.push(v);
                p = at1;
                i = i + 1;
            },
        }
    }
    proof {
        assert(crate::value::models_of(acc@) + Seq::<ValueModel>::empty() =~= crate::value::models_of(acc@));
    }
    Some((acc, p))
}

/// Reads `n` key/value entries one after another from `pos`.
fn read_pairs(b: &[u8], pos: usize, n: usize) -> (r: Option<(Vec<(Value, Value)>, usize)>)
    ensures
        r is None <==> parse_pairs(b@, pos as int, n as nat) is None,
        r matches Some((m, e)) ==> parse_pairs(b@, pos as int, n as nat) == Some(
            (crate::value::pair_models_of(m@), e as int),
        ),
    decreases b@.len() - pos, 1int, n,
{
    if pos > b.len() {
        return None;
    }
    let mut acc: Vec<(Value, Value)> = Vec::new();
    let mut p: usize = pos;
    let mut i: usize = 0;
    proof {
        lemma_pair_models_of(acc@);
        assert(crate::value::pair_models_of(acc@) =~= Seq::<(ValueModel, ValueModel)>::empty());
        lemma_prefixed_empty(parse_pairs(b@, pos as int, n as nat));
    }
    while i < n
        invariant
            pos <= p <= b@.len(),
            i <= n,
            parse_pairs(b@, pos as int, n as nat) == prefixed(
                crate::value::pair_models_of(acc@),
                parse_pairs(b@, p as int, (n - i) as nat),
            ),
        decreases n - i,
    {
        let (k, at1) = match read_value(b, p) {
            None => {
                return None;
            },
            Some(kp) => kp,
        };
        if at1 <= p || at1 > b.len() {
            return None;
        }
        let (v, at2) = match read_value(b, at1) {
            None => {
                return None;
            },
            Some(vp) => vp,
        };
        if at2 <= at1 || at2 > b.len() {
            return None;
        }
        proof {
            lemma_pair_models_of(acc@);
            lemma_pair_models_of(acc@.push((k, v)));
            assert(crate::value::pair_models_of(acc@.push((k, v))) =~= crate::value::pair_models_of(
                acc@,
            ).push((k@, v@)));
            lemma_prefixed_push(
                crate::value::pair_models_of(acc@),
                (k@, v@),
                parse_pairs(b@, at2 as int, (n - i - 1) as nat),
            );
        }
        acc.push((k, v));
        p = at2;
        i = i + 1;
    }
    proof {
        assert(crate::value::pair_models_of(acc@) + Seq::<(ValueModel, ValueModel)>::empty()
            =~= crate::value::pair_models_of(acc@));
    }
    Some((acc, p))
}

/// Reads one value at `pos` of `b`: the value and the offset just after it,
/// or `None` where the bytes there encode no value.
pub fn read_value(b: &[u8], pos: usize) -> (r: Option<(Value, usize)>)
    ensures
        r is None <==> parse(b@, pos as int) is None,
        r matches Some((v, e)) ==> parse(b@, pos as int) == Some((v@, e as int)),
    decreases b@.len() - pos, 0int, 0int,
{
    if pos >= b.len() {
        return None;
    }
    let tag = b[pos];
    let p = pos + 1;
    if tag == TAG_NULL {
        Some((Value::Null, p))
    } else if tag == TAG_TRUE {
        Some((Value::Boolean(true), p))
    } else if tag == TAG_FALSE {
        Some((Value::Boolean(false), p))
    } else if tag == TAG_I32 {
        if b.len() - p >= 4 {
            Some((Value::I32(read_word32(b, p) as i32), p + 4))
        } else {
            None
        }
    } else if tag == TAG_I64 {
        if b.len() - p >= 8 {
            Some((Value::I64(read_word64(b, p) as i64), p + 8))
        } else {
            None
        }
    } else if tag == TAG_F64 {
        let pad: usize = (8 - p % 8) % 8;
        if b.len() - p >= pad && b.len() - p - pad >= 8 {
            Some((Value::F64(read_word64(b, p + pad)), p + pad + 8))
        } else {
            None
        }
    } else if tag == TAG_STRING || tag == TAG_U8_LIST {
        match read_size_at(b, p) {
            None => None,
            Some((n, q)) => {
                if b.len() - q >= n {
                    let bytes = copy_range(b, q, q + n);
                    if tag == TAG_U8_LIST {
                        Some((Value::U8List(bytes), q + n))
                    } else {
                        match string_from_utf8(bytes) {
                            Some(s) => {
                                proof {
                                    encode_utf8_decode_utf8(s@);
                                }
                                Some((Value::String(s), q + n))
                            },
                            None => None,
                        }
                    }
                } else {
                    None
                }
            },
        }
    } else if tag == TAG_I32_LIST {
        match read_size_at(b, p) {
            None => None,
            Some((n, q)) => {
                let pad: usize = (4 - q % 4) % 4;
                if b.len() - q >= pad && words_fit(b.len(), q + pad, n, 4) {
                    Some((Value::I32List(read_i32_words(b, q + pad, n)), q + pad + 4 * n))
                } else {
                    None
                }
            },
        }
    } else if tag == TAG_I64_LIST || tag == TAG_F64_LIST {
        match read_size_at(b, p) {
            None => None,
            Some((n, q)) => {
                let pad: usize = (8 - q % 8) % 8;
                if b.len() - q >= pad && words_fit(b.len(), q + pad, n, 8) {
                    let words = read_u64_words(b, q + pad, n);
                    if tag == TAG_I64_LIST {
                        Some((Value::I64List(signed_words(words)), q + pad + 8 * n))
                    } else {
                        Some((Value::F64List(words), q + pad + 8 * n))
                    }
                } else {
                    None
                }
            },
        }
    } else if tag == TAG_LIST {
        match read_size_at(b, p) {
            None => None,
            Some((n, q)) => match read_list(b, q, n) {
                None => None,
                Some((l, e)) => Some((Value::List(l), e)),
            },
        }
    } else if tag == TAG_MAP {
        match read_size_at(b, p) {
            None => None,
            Some((n, q)) => match read_pairs(b, q, n) {
                None => None,
                Some((m, e)) => Some((Value::Dict(m), e)),
            },
        }
    } else {
        None
    }
}

/// The value that fills the whole of `b`, if any.
pub open spec fn message_of(b: Seq<u8>) -> Option<ValueModel> {
    match parse(b, 0) {
        Some((v, e)) => if e == b.len() {
            Some(v)
        } else {
            None
        },
        None => None,
    }
}

/// The bytes of a method call: its name as a string value, then its arguments.
pub open spec fn call_bytes(method: Seq<char>, args: ValueModel) -> Seq<u8> {
    let m = enc(ValueModel::Str(method), 0);
    m + enc(args, m.len() as int)
}

/// The method call (name and arguments) that fills the whole of `b`, if any.
pub open spec fn method_call_of(b: Seq<u8>) -> Option<(Seq<char>, ValueModel)> {
    match parse(b, 0) {
        Some((ValueModel::Str(m), p)) => match parse(b, p) {
            Some((a, e)) => if e == b.len() {
                Some((m, a))
            } else {
                None
            },
            None => None,
        },
        _ => None,
    }
}

/// A success envelope: a zero byte, then the value.
pub open spec fn success_bytes(v: ValueModel) -> Seq<u8> {
    seq![0u8] + enc(v, 1)
}

/// An error envelope: a one byte, then code, message and details.
pub open spec fn error_bytes(code: Seq<char>, message: Seq<char>, details: ValueModel) -> Seq<u8> {
    let c = enc(ValueModel::Str(code), 1);
    let m = enc(ValueModel::Str(message), 1 + c.len() as int);
    seq![1u8] + c + m + enc(details, 1 + c.len() as int + m.len() as int)
}

/// The result that the envelope `b` holds: no bytes at all mean that the call
/// was not implemented.
pub open spec fn envelope_of(b: Seq<u8>) -> Option<ResultModel> {
    if b.len() == 0 {
        Some(ResultModel::NotImplemented)
    } else if b[0] == 0 {
        match parse(b, 1) {
            Some((v, e)) => if e == b.len() {
                Some(ResultModel::Success(v))
            } else {
                None
            },
            None => None,
        }
    } else if b[0] == 1 {
        match parse(b, 1) {
            Some((ValueModel::Str(c), at1)) => match parse(b, at1) {
                Some((ValueModel::Str(m), at2)) => match parse(b, at2) {
                    Some((d, e)) => if e == b.len() {
                        Some(ResultModel::Error(c, m, d))
                    } else {
                        None
                    },
                    None => None,
                },
                _ => None,
            },
            _ => None,
        }
    } else {
        None
    }
}

/// The bytes that answer a call with `r`.
pub open spec fn result_bytes(r: ResultModel) -> Seq<u8> {
    match r {
        ResultModel::Success(v) => success_bytes(v),
        ResultModel::Error(c, m, d) => error_bytes(c, m, d),
        ResultModel::NotImplemented => Seq::empty(),
    }
}

/// Whether every length in `r` fits a size prefix.
pub open spec fn result_fits(r: ResultModel) -> bool {
    match r {
        ResultModel::Success(v) => fits(v),
        ResultModel::Error(c, m, d) => fits(ValueModel::Str(c)) && fits(ValueModel::Str(m)) && fits(d),
        ResultModel::NotImplemented => true,
    }
}

/// Whether every length inside `v` fits a size prefix.
pub fn value_fits(v: &Value) -> (r: bool)
    ensures
        r == fits(v@),
    decreases v,
{
    match v {
        Value::String(s) => s.as_str().as_bytes().len() as u64 <= MAX_LEN,
        Value::U8List(l) => l.len() as u64 <= MAX_LEN,
        Value::I32List(l) => l.len() as u64 <= MAX_LEN,
        Value::I64List(l) => l.len() as u64 <= MAX_LEN,
        Value::F64List(l) => l.len() as u64 <= MAX_LEN,
        Value::List(l) => {
            let ghost ms = crate::value::models_of(l@);
            proof {
                lemma_models_of(l@);
                lemma_fits_seq(ms);
            }
            if l.len() as u64 > MAX_LEN {
                return false;
            }
            let mut i: usize = 0;
            while i < l.len()
                invariant
                    *v == Value::List(*l),
                    ms == crate::value::models_of(l@),
                    i <= l@.len(),
                    ms.len() == l@.len(),
                    forall|j: int| 0 <= j < l@.len() ==> #[trigger] ms[j] == l@[j]@,
                    forall|j: int| 0 <= j < i ==> fits(#[trigger] ms[j]),
                    fits_seq(ms) <==> forall|j: int| 0 <= j < ms.len() ==> fits(#[trigger] ms[j]),
                decreases l@.len() - i,
            {
                proof {
                    assert(decreases_to!(*v => (*v)->List_0));
                    assert(decreases_to!(*l => l[i as int]));
                }
                if !value_fits(&l[i]) {
                    assert(!fits(ms[i as int]));
                    assert(v@ == ValueModel::List(ms));
                    return false;
                }
                i = i + 1;
            }
            true
        },
        Value::Dict(m) => {
            let ghost ms = crate::value::pair_models_of(m@);
            proof {
                lemma_pair_models_of(m@);
                lemma_fits_pairs(ms);
            }
            if m.len() as u64 > MAX_LEN {
                return false;
            }
            let mut i: usize = 0;
            while i < m.len()
                invariant
                    *v == Value::Dict(*m),
                    ms == crate::value::pair_models_of(m@),
                    i <= m@.len(),
                    ms.len() == m@.len(),
                    forall|j: int|
                        0 <= j < m@.len() ==> #[trigger] ms[j] == (m@[j].0@, m@[j].1@),
                    forall|j: int| 0 <= j < i ==> fits((#[trigger] ms[j]).0) && fits(ms[j].1),
                    fits_pairs(ms) <==> forall|j: int|
                        0 <= j < ms.len() ==> fits((#[trigger] ms[j]).0) && fits(ms[j].1),
                decreases m@.len() - i,
            {
                let entry = &m[i];
                proof {
                    assert(decreases_to!(*v => (*v)->Dict_0));
                    assert(decreases_to!(*m => m[i as int]));
                    assert(decreases_to!(m[i as int] => m[i as int].0));
                    assert(decreases_to!(m[i as int] => m[i as int].1));
                }
                if !value_fits(&entry.0) || !value_fits(&entry.1) {
                    assert(!(fits(ms[i as int].0) && fits(ms[i as int].1)));
                    assert(v@ == ValueModel::Dict(ms));
                    return false;
                }
                i = i + 1;
            }
            true
        },
        _ => true,
    }
}

/// Whether every length in a result fits a size prefix.
pub fn result_fits_exec(r: &MethodCallResult) -> (ok: bool)
    ensures
        ok == result_fits(r@),
{
    match r {
        MethodCallResult::Success(v) => value_fits(v),
        MethodCallResult::Error { code, message, details } => {
            code.as_str().as_bytes().len() as u64 <= MAX_LEN && message.as_str().as_bytes().len() as u64
                <= MAX_LEN && value_fits(details)
        },
        MethodCallResult::NotImplemented => true,
    }
}

/// The encoding of a single value.
pub fn encode_message(v: &Value) -> (r: Vec<u8>)
    requires
        fits(v@),
    ensures
        r@ == enc(v@, 0),
{
    let mut buf: Vec<u8> = Vec::new();
    write_value(&mut buf, v);
    assert(buf@ =~= enc(v@, 0));
    buf
}

/// The value that fills the whole of `b`; `None` where `b` is malformed or
/// has bytes left over.
pub fn decode_message(b: &[u8]) -> (r: Option<Value>)
    ensures
        r is None <==> message_of(b@) is None,
        r matches Some(v) ==> message_of(b@) == Some(v@),
{
    match read_value(b, 0) {
        Some((v, e)) => if e == b.len() {
            Some(v)
        } else {
            None
        },
        None => None,
    }
}

/// The encoding of a method call: name, then arguments.
pub fn encode_method_call(call: &MethodCall) -> (r: Vec<u8>)
    requires
        fits(ValueModel::Str(call.method@)),
        fits(call.args@),
    ensures
        r@ == call_bytes(call.method@, call.args@),
{
    let mut buf: Vec<u8> = Vec::new();
    write_str(&mut buf, &call.method);
    write_value(&mut buf, &call.args);
    assert(buf@ =~= call_bytes(call.method@, call.args@));
    buf
}

/// The method call that fills the whole of `b`; `None` where the bytes are
/// malformed, the name is no string, or bytes are left over.
pub fn decode_method_call(b: &[u8]) -> (r: Option<MethodCall>)
    ensures
        r is None <==> method_call_of(b@) is None,
        r matches Some(c) ==> method_call_of(b@) == Some((c.method@, c.args@)),
{
    match read_value(b, 0) {
        Some((Value::String(method), p)) => match read_value(b, p) {
            Some((args, e)) => if e == b.len() {
                Some(MethodCall { method, args })
            } else {
                None
            },
            None => None,
        },
        _ => None,
    }
}

/// A success envelope for `v`.
pub fn encode_success_envelope(v: &Value) -> (r: Vec<u8>)
    requires
        fits(v@),
    ensures
        r@ == success_bytes(v@),
{
    let mut buf: Vec<u8> = Vec::new();
    buf.push(0u8);
    write_value(&mut buf, v);
    assert(buf@ =~= success_bytes(v@));
    buf
}

/// An error envelope with the given code, message and details.
pub fn encode_error_envelope(code: &String, message: &String, details: &Value) -> (r: Vec<u8>)
    requires
        fits(ValueModel::Str(code@)),
        fits(ValueModel::Str(message@)),
        fits(details@),
    ensures
        r@ == error_bytes(code@, message@, details@),
{
    let mut buf: Vec<u8> = Vec::new();
    buf.push(1u8);
    write_str(&mut buf, code);
    write_str(&mut buf, message);
    write_value(&mut buf, details);
    assert(buf@ =~= error_bytes(code@, message@, details@));
    buf
}

/// The result that the envelope `b` holds; `None` where it is malformed.
pub fn decode_envelope(b: &[u8]) -> (r: Option<MethodCallResult>)
    ensures
        r is None <==> envelope_of(b@) is None,
        r matches Some(x) ==> envelope_of(b@) == Some(x@),
{
    if b.len() == 0 {
        Some(MethodCallResult::NotImplemented)
    } else if b[0] == 0 {
        match read_value(b, 1) {
            Some((v, e)) => if e == b.len() {
                Some(MethodCallResult::Success(v))
            } else {
                None
            },
            None => None,
        }
    } else if b[0] == 1 {
        match read_value(b, 1) {
            Some((Value::String(code), at1)) => match read_value(b, at1) {
                Some((Value::String(message), at2)) => match read_value(b, at2) {
                    Some((details, e)) => if e == b.len() {
                        Some(MethodCallResult::Error { code, message, details })
                    } else {
                        None
                    },
                    None => None,
                },
                _ => None,
            },
            _ => None,
        }
    } else {
        None
    }
}

/// The bytes that answer a call with `r`.
pub fn encode_result(r: &MethodCallResult) -> (b: Vec<u8>)
    requires
        result_fits(r@),
    ensures
        b@ == result_bytes(r@),
{
    match r {
        MethodCallResult::Success(v) => encode_success_envelope(v),
        MethodCallResult::Error { code, message, details } => encode_error_envelope(
            code,
            message,
            details,
        ),
        MethodCallResult::NotImplemented => Vec::new(),
    }
}

/// Decoding the encoding of any value whose lengths fit the format gives the
/// same value back.
pub proof fn lemma_message_round_trip(v: ValueModel)
    requires
        fits(v),
    ensures
        message_of(enc(v, 0)) == Some(v),
{
    let b = enc(v, 0);
    assert(b.subrange(0, b.len() as int) =~= b);
    lemma_parse_enc(v, b, 0);
}

/// Decoding the encoding of a method call gives its name and arguments back.
pub proof fn lemma_method_call_round_trip(method: Seq<char>, args: ValueModel)
    requires
        fits(ValueModel::Str(method)),
        fits(args),
    ensures
        method_call_of(call_bytes(method, args)) == Some((method, args)),
{
    let m = enc(ValueModel::Str(method), 0);
    let a = enc(args, m.len() as int);
    let b = call_bytes(method, args);
    assert(b.subrange(0, m.len() as int) =~= m);
    assert(b.subrange(m.len() as int, b.len() as int) =~= a);
    lemma_parse_enc(ValueModel::Str(method), b, 0);
    lemma_parse_enc(args, b, m.len() as int);
}

/// Decoding the envelope of any result gives the same result back.
pub proof fn lemma_envelope_round_trip(r: ResultModel)
    requires
        result_fits(r),
    ensures
        envelope_of(result_bytes(r)) == Some(r),
{
    let b = result_bytes(r);
    match r {
        ResultModel::Success(v) => {
            let e = enc(v, 1);
            assert(b[0] == 0u8);
            assert(b.subrange(1, b.len() as int) =~= e);
            lemma_parse_enc(v, b, 1);
        },
        ResultModel::Error(code, message, details) => {
            let c = enc(ValueModel::Str(code), 1);
            let at1 = 1 + c.len() as int;
            let m = enc(ValueModel::Str(message), at1);
            let at2 = at1 + m.len() as int;
            let d = enc(details, at2);
            assert(b[0] == 1u8);
            assert(b.subrange(1, at1) =~= c);
            assert(b.subrange(at1, at2) =~= m);
            assert(b.subrange(at2, b.len() as int) =~= d);
            lemma_parse_enc(ValueModel::Str(code), b, 1);
            lemma_parse_enc(ValueModel::Str(message), b, at1);
            lemma_parse_enc(details, b, at2);
        },
        ResultModel::NotImplemented => {},
    }
}

/// A handler that declines and a handler that fails give different envelopes:
/// the first is empty and decodes to `NotImplemented`, the second decodes to
/// the error with its code, message and details.
pub proof fn lemma_declined_and_failed_differ(code: Seq<char>, message: Seq<char>, details: ValueModel)
    requires
        fits(ValueModel::Str(code)),
        fits(ValueModel::Str(message)),
        fits(details),
    ensures
        result_bytes(ResultModel::NotImplemented).len() == 0,
        envelope_of(result_bytes(ResultModel::NotImplemented)) == Some(ResultModel::NotImplemented),
        envelope_of(error_bytes(code, message, details)) == Some(
            ResultModel::Error(code, message, details),
        ),
        result_bytes(ResultModel::NotImplemented) != error_bytes(code, message, details),
{
    lemma_envelope_round_trip(ResultModel::Error(code, message, details));
    assert(error_bytes(code, message, details).len() > 0);
}

/// The standard binary codec as a `MethodCodec`; each method is the free
/// function of the same name.
#[derive(Debug, Clone, Copy)]
pub struct StandardMethodCodec;

impl MethodCodec for StandardMethodCodec {
    fn encode_method_call(&self, call: &MethodCall) -> Vec<u8> {
        encode_method_call(call)
    }

    fn decode_method_call(&self, buf: &[u8]) -> Option<MethodCall> {
        decode_method_call(buf)
    }

    fn encode_success_envelope(&self, v: &Value) -> Vec<u8> {
        encode_success_envelope(v)
    }

    fn encode_error_envelope(&self, code: &String, message: &String, details: &Value) -> Vec<u8> {
        encode_error_envelope(code, message, details)
    }

    fn decode_envelope(&self, buf: &[u8]) -> Option<MethodCallResult> {
        decode_envelope(buf)
    }
}

} // verus!
