//! Facts about the wire format: what `enc` writes, `parse` reads back.
use vstd::prelude::*;
use vstd::bytes::*;
use vstd::utf8::*;
use crate::value::ValueModel;
use crate::wire::{
    aligned, concat_chunks, enc, enc_pairs, enc_seq, fits, fits_pairs, fits_seq, i32_chunks,
    i64_chunks, padding, parse, parse_pairs, parse_seq, read_size, size_prefix, u64_chunks,
    word32_at, word64_at, zeros, MAX_LEN, TAG_F64, TAG_F64_LIST, TAG_FALSE, TAG_I32,
    TAG_I32_LIST, TAG_I64, TAG_I64_LIST, TAG_LIST, TAG_MAP, TAG_NULL, TAG_STRING, TAG_TRUE,
    TAG_U8_LIST,
};

verus! {

broadcast use vstd::seq::group_seq_axioms;

/// The buffer `b` holds the bytes `x` from offset `pos` on.
pub open spec fn holds(b: Seq<u8>, pos: int, x: Seq<u8>) -> bool {
    &&& 0 <= pos
    &&& pos + x.len() <= b.len()
    &&& b.subrange(pos, pos + x.len()) == x
}

pub proof fn lemma_holds_split(b: Seq<u8>, pos: int, x: Seq<u8>, y: Seq<u8>)
    requires
        holds(b, pos, x + y),
    ensures
        holds(b, pos, x),
        holds(b, pos + x.len(), y),
{
    let whole = b.subrange(pos, pos + x.len() + y.len());
    assert(b.subrange(pos, pos + x.len()) =~= whole.subrange(0, x.len() as int));
    assert(whole.subrange(0, x.len() as int) =~= x);
    assert(b.subrange(pos + x.len(), pos + x.len() + y.len()) =~= whole.subrange(
        x.len() as int,
        (x.len() + y.len()) as int,
    ));
    assert(whole.subrange(x.len() as int, (x.len() + y.len()) as int) =~= y);
}

pub proof fn lemma_casts()
    ensures
        forall|x: i32| #[trigger] ((x as u32) as i32) == x,
        forall|x: i64| #[trigger] ((x as u64) as i64) == x,
{
    assert forall|x: i32| #[trigger] ((x as u32) as i32) == x by {
        assert(((x as u32) as i32) == x) by (bit_vector);
    }
    assert forall|x: i64| #[trigger] ((x as u64) as i64) == x by {
        assert(((x as u64) as i64) == x) by (bit_vector);
    }
}

pub proof fn lemma_holds_tag(b: Seq<u8>, pos: int, t: u8, rest: Seq<u8>)
    requires
        holds(b, pos, seq![t] + rest),
    ensures
        pos < b.len(),
        b[pos] == t,
        holds(b, pos + 1, rest),
{
    lemma_holds_split(b, pos, seq![t], rest);
    assert(b.subrange(pos, pos + 1)[0] == b[pos]);
}

pub proof fn lemma_holds_sub(b: Seq<u8>, pos: int, x: Seq<u8>, i: int, j: int)
    requires
        holds(b, pos, x),
        0 <= i <= j <= x.len(),
    ensures
        holds(b, pos + i, x.subrange(i, j)),
{
    assert(b.subrange(pos + i, pos + j) =~= x.subrange(i, j));
}

pub proof fn lemma_le_bytes()
    ensures
        forall|x: u16|
            {
                &&& #[trigger] spec_u16_to_le_bytes(x).len() == 2
                &&& spec_u16_from_le_bytes(spec_u16_to_le_bytes(x)) == x
            },
        forall|x: u32|
            {
                &&& #[trigger] spec_u32_to_le_bytes(x).len() == 4
                &&& spec_u32_from_le_bytes(spec_u32_to_le_bytes(x)) == x
            },
        forall|x: u64|
            {
                &&& #[trigger] spec_u64_to_le_bytes(x).len() == 8
                &&& spec_u64_from_le_bytes(spec_u64_to_le_bytes(x)) == x
            },
{
    lemma_auto_spec_u16_to_from_le_bytes();
    lemma_auto_spec_u32_to_from_le_bytes();
    lemma_auto_spec_u64_to_from_le_bytes();
}

pub proof fn lemma_read_size(b: Seq<u8>, pos: int, n: nat)
    requires
        n <= MAX_LEN,
        holds(b, pos, size_prefix(n)),
    ensures
        read_size(b, pos) == Some((n, pos + size_prefix(n).len())),
        1 <= size_prefix(n).len() <= 5,
{
    lemma_le_bytes();
    if n < 254 {
        assert(b.subrange(pos, pos + 1)[0] == b[pos]);
    } else if n <= 0xffff {
        lemma_holds_tag(b, pos, 254u8, spec_u16_to_le_bytes(n as u16));
    } else {
        lemma_holds_tag(b, pos, 255u8, spec_u32_to_le_bytes(n as u32));
    }
}

/// Chunks of one width `w` laid end to end: chunk `i` sits at `w * i`.
pub proof fn lemma_chunks(c: Seq<Seq<u8>>, w: nat)
    requires
        forall|i: int| 0 <= i < c.len() ==> (#[trigger] c[i]).len() == w,
    ensures
        concat_chunks(c).len() == w * c.len(),
        forall|i: int|
            0 <= i < c.len() ==> concat_chunks(c).subrange(w * i, w * i + w) == #[trigger] c[i],
    decreases c.len(),
{
    if c.len() > 0 {
        let d = c.drop_last();
        lemma_chunks(d, w);
        let n = c.len() as int;
        assert(w * (n - 1) + w == w * n) by (nonlinear_arith);
        assert forall|i: int| 0 <= i < c.len() implies concat_chunks(c).subrange(
            w * i,
            w * i + w,
        ) == #[trigger] c[i] by {
            if i < n - 1 {
                assert(w * i + w <= w * (n - 1)) by (nonlinear_arith)
                    requires
                        i < n - 1,
                ;
                assert(0 <= w * i) by (nonlinear_arith)
                    requires
                        0 <= i,
                ;
                assert(concat_chunks(c).subrange(w * i, w * i + w) =~= concat_chunks(d).subrange(
                    w * i,
                    w * i + w,
                ));
                assert(d[i] == c[i]);
            } else {
                assert(concat_chunks(c).subrange(w * i, w * i + w) =~= c.last());
            }
        }
    }
}

/// Reading `w`-byte words at `r, r + w, ...` gives back the chunks of `body`.
pub proof fn lemma_chunk_at(b: Seq<u8>, r: int, c: Seq<Seq<u8>>, w: nat, i: int)
    requires
        forall|k: int| 0 <= k < c.len() ==> (#[trigger] c[k]).len() == w,
        holds(b, r, concat_chunks(c)),
        0 <= i < c.len(),
    ensures
        b.subrange(r + w * i, r + w * i + w) == c[i],
{
    lemma_chunks(c, w);
    assert(0 <= w * i && w * i + w <= w * c.len()) by (nonlinear_arith)
        requires
            0 <= i < c.len(),
    ;
    lemma_holds_sub(b, r, concat_chunks(c), w * i, w * i + w);
}

/// Reading at `pos` a buffer that holds the encoding of `v` there gives `v`
/// back, and the offset just past its encoding.
pub proof fn lemma_parse_enc(v: ValueModel, b: Seq<u8>, pos: int)
    requires
        fits(v),
        holds(b, pos, enc(v, pos)),
    ensures
        enc(v, pos).len() >= 1,
        parse(b, pos) == Some((v, pos + enc(v, pos).len())),
    decreases v,
{
    lemma_le_bytes();
    lemma_casts();
    let e = enc(v, pos);
    match v {
        ValueModel::Null => {
            lemma_holds_tag(b, pos, TAG_NULL, Seq::empty());
        },
        ValueModel::Boolean(x) => {
            if x {
                lemma_holds_tag(b, pos, TAG_TRUE, Seq::empty());
            } else {
                lemma_holds_tag(b, pos, TAG_FALSE, Seq::empty());
            }
        },
        ValueModel::I32(x) => {
            lemma_holds_tag(b, pos, TAG_I32, spec_u32_to_le_bytes(x as u32));
        },
        ValueModel::I64(x) => {
            lemma_holds_tag(b, pos, TAG_I64, spec_u64_to_le_bytes(x as u64));
        },
        ValueModel::F64(x) => {
            let z = zeros(padding(pos + 1, 8));
            assert(e =~= seq![TAG_F64] + (z + spec_u64_to_le_bytes(x)));
            lemma_holds_tag(b, pos, TAG_F64, z + spec_u64_to_le_bytes(x));
            lemma_holds_split(b, pos + 1, z, spec_u64_to_le_bytes(x));
        },
        ValueModel::Str(s) => {
            let bytes = encode_utf8(s);
            let sp = size_prefix(bytes.len());
            assert(e =~= seq![TAG_STRING] + (sp + bytes));
            lemma_holds_tag(b, pos, TAG_STRING, sp + bytes);
            lemma_holds_split(b, pos + 1, sp, bytes);
            lemma_read_size(b, pos + 1, bytes.len());
            encode_utf8_valid_utf8(s);
            encode_utf8_decode_utf8(s);
        },
        ValueModel::U8List(bytes) => {
            let sp = size_prefix(bytes.len());
            assert(e =~= seq![TAG_U8_LIST] + (sp + bytes));
            lemma_holds_tag(b, pos, TAG_U8_LIST, sp + bytes);
            lemma_holds_split(b, pos + 1, sp, bytes);
            lemma_read_size(b, pos + 1, bytes.len());
        },
        ValueModel::I32List(s) => {
            lemma_parse_i32_list(s, b, pos);
        },
        ValueModel::I64List(s) => {
            lemma_parse_i64_list(s, b, pos);
        },
        ValueModel::F64List(s) => {
            lemma_parse_f64_list(s, b, pos);
        },
        ValueModel::List(s) => {
            let sp = size_prefix(s.len());
            let q = pos + 1 + sp.len();
            let body = enc_seq(s, q);
            assert(e =~= seq![TAG_LIST] + (sp + body));
            lemma_holds_tag(b, pos, TAG_LIST, sp + body);
            lemma_holds_split(b, pos + 1, sp, body);
            lemma_read_size(b, pos + 1, s.len());
            lemma_parse_seq_enc(s, b, q);
        },
        ValueModel::Dict(m) => {
            let sp = size_prefix(m.len());
            let q = pos + 1 + sp.len();
            let body = enc_pairs(m, q);
            assert(e =~= seq![TAG_MAP] + (sp + body));
            lemma_holds_tag(b, pos, TAG_MAP, sp + body);
            lemma_holds_split(b, pos + 1, sp, body);
            lemma_read_size(b, pos + 1, m.len());
            lemma_parse_pairs_enc(m, b, q);
        },
    }
}

proof fn lemma_parse_i32_list(s: Seq<i32>, b: Seq<u8>, pos: int)
    requires
        s.len() <= MAX_LEN,
        holds(b, pos, enc(ValueModel::I32List(s), pos)),
    ensures
        parse(b, pos) == Some(
            (ValueModel::I32List(s), pos + enc(ValueModel::I32List(s), pos).len()),
        ),
{
    lemma_le_bytes();
    lemma_casts();
    let c = i32_chunks(s);
    let (q, r) = lemma_aligned(b, pos, TAG_I32_LIST, s.len(), 4, c);
    let got = Seq::new(s.len(), |i: int| word32_at(b, r + 4 * i) as i32);
    assert forall|i: int| 0 <= i < s.len() implies got[i] == s[i] by {
        lemma_chunk_at(b, r, c, 4, i);
        assert(c[i] == spec_u32_to_le_bytes(s[i] as u32));
        assert(word32_at(b, r + 4 * i) == s[i] as u32);
    }
    assert(got =~= s);
}

proof fn lemma_parse_i64_list(s: Seq<i64>, b: Seq<u8>, pos: int)
    requires
        s.len() <= MAX_LEN,
        holds(b, pos, enc(ValueModel::I64List(s), pos)),
    ensures
        parse(b, pos) == Some(
            (ValueModel::I64List(s), pos + enc(ValueModel::I64List(s), pos).len()),
        ),
{
    lemma_le_bytes();
    lemma_casts();
    let c = i64_chunks(s);
    let (q, r) = lemma_aligned(b, pos, TAG_I64_LIST, s.len(), 8, c);
    let words = Seq::new(s.len(), |i: int| word64_at(b, r + 8 * i));
    let got = Seq::new(s.len(), |i: int| words[i] as i64);
    assert forall|i: int| 0 <= i < s.len() implies got[i] == s[i] by {
        lemma_chunk_at(b, r, c, 8, i);
        assert(c[i] == spec_u64_to_le_bytes(s[i] as u64));
        assert(words[i] == s[i] as u64);
    }
    assert(got =~= s);
}

proof fn lemma_parse_f64_list(s: Seq<u64>, b: Seq<u8>, pos: int)
    requires
        s.len() <= MAX_LEN,
        holds(b, pos, enc(ValueModel::F64List(s), pos)),
    ensures
        parse(b, pos) == Some(
            (ValueModel::F64List(s), pos + enc(ValueModel::F64List(s), pos).len()),
        ),
{
    lemma_le_bytes();
    let c = u64_chunks(s);
    let (q, r) = lemma_aligned(b, pos, TAG_F64_LIST, s.len(), 8, c);
    let words = Seq::new(s.len(), |i: int| word64_at(b, r + 8 * i));
    assert forall|i: int| 0 <= i < s.len() implies words[i] == s[i] by {
        lemma_chunk_at(b, r, c, 8, i);
        assert(c[i] == spec_u64_to_le_bytes(s[i]));
        assert(words[i] == s[i]);
    }
    assert(words =~= s);
}

/// The head of a typed list: its size prefix is read back, and the words
/// start at the padded offset `r` that `parse` computes.
pub proof fn lemma_aligned(b: Seq<u8>, pos: int, tag: u8, n: nat, w: nat, c: Seq<Seq<u8>>) -> (qr: (
    int,
    int,
))
    requires
        n <= MAX_LEN,
        w == 4 || w == 8,
        c.len() == n,
        forall|k: int| 0 <= k < c.len() ==> (#[trigger] c[k]).len() == w,
        holds(b, pos, aligned(tag, n, pos, w as int, concat_chunks(c))),
    ensures
        pos < b.len(),
        b[pos] == tag,
        read_size(b, pos + 1) == Some((n, qr.0)),
        qr.0 == pos + 1 + size_prefix(n).len(),
        qr.1 == qr.0 + padding(qr.0, w as int),
        holds(b, qr.1, concat_chunks(c)),
        qr.1 + w * n == pos + aligned(tag, n, pos, w as int, concat_chunks(c)).len(),
{
    let sp = size_prefix(n);
    let body = concat_chunks(c);
    let q = pos + 1 + sp.len();
    let z = zeros(padding(q, w as int));
    lemma_chunks(c, w);
    assert(aligned(tag, n, pos, w as int, body) =~= seq![tag] + (sp + (z + body)));
    lemma_holds_tag(b, pos, tag, sp + (z + body));
    lemma_holds_split(b, pos + 1, sp, z + body);
    lemma_holds_split(b, q, z, body);
    lemma_read_size(b, pos + 1, n);
    (q, q + padding(q, w as int))
}

pub proof fn lemma_parse_seq_enc(s: Seq<ValueModel>, b: Seq<u8>, pos: int)
    requires
        fits_seq(s),
        holds(b, pos, enc_seq(s, pos)),
    ensures
        parse_seq(b, pos, s.len()) == Some((s, pos + enc_seq(s, pos).len())),
    decreases s,
{
    if s.len() == 0 {
        assert(s =~= Seq::<ValueModel>::empty());
    } else {
        let first = enc(s[0], pos);
        let rest = s.subrange(1, s.len() as int);
        let at1 = pos + first.len();
        lemma_holds_split(b, pos, first, enc_seq(rest, at1));
        lemma_parse_enc(s[0], b, pos);
        lemma_parse_seq_enc(rest, b, at1);
        assert(seq![s[0]] + rest =~= s);
    }
}

pub proof fn lemma_parse_pairs_enc(m: Seq<(ValueModel, ValueModel)>, b: Seq<u8>, pos: int)
    requires
        fits_pairs(m),
        holds(b, pos, enc_pairs(m, pos)),
    ensures
        parse_pairs(b, pos, m.len()) == Some((m, pos + enc_pairs(m, pos).len())),
    decreases m,
{
    if m.len() == 0 {
        assert(m =~= Seq::<(ValueModel, ValueModel)>::empty());
    } else {
        let k = enc(m[0].0, pos);
        let at1 = pos + k.len();
        let v = enc(m[0].1, at1);
        let at2 = at1 + v.len();
        let rest = m.subrange(1, m.len() as int);
        lemma_holds_split(b, pos, k + v, enc_pairs(rest, at2));
        lemma_holds_split(b, pos, k, v);
        lemma_parse_enc(m[0].0, b, pos);
        lemma_parse_enc(m[0].1, b, at1);
        lemma_parse_pairs_enc(rest, b, at2);
        assert(seq![(m[0].0, m[0].1)] + rest =~= m);
    }
}

} // verus!
