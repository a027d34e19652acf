//! The standard binary wire format, stated as spec functions: `enc` writes a
//! value at a given offset of the buffer, `parse` reads one back.
use vstd::prelude::*;
use vstd::bytes::*;
use vstd::utf8::*;
use crate::value::ValueModel;

verus! {

broadcast use vstd::seq::group_seq_axioms;

pub const TAG_NULL: u8 = 0;
pub const TAG_TRUE: u8 = 1;
pub const TAG_FALSE: u8 = 2;
pub const TAG_I32: u8 = 3;
pub const TAG_I64: u8 = 4;
pub const TAG_F64: u8 = 6;
pub const TAG_STRING: u8 = 7;
pub const TAG_U8_LIST: u8 = 8;
pub const TAG_I32_LIST: u8 = 9;
pub const TAG_I64_LIST: u8 = 10;
pub const TAG_F64_LIST: u8 = 11;
pub const TAG_LIST: u8 = 12;
pub const TAG_MAP: u8 = 13;

/// The largest length that a size prefix can carry.
pub const MAX_LEN: u64 = 0xffff_ffff;

/// A length prefix: one byte below 254, else a marker byte and a
/// little-endian `u16` (254) or `u32` (255).
pub open spec fn size_prefix(n: nat) -> Seq<u8> {
    if n < 254 {
        seq![n as u8]
    } else if n <= 0xffff {
        seq![254u8] + spec_u16_to_le_bytes(n as u16)
    } else {
        seq![255u8] + spec_u32_to_le_bytes(n as u32)
    }
}

/// How many bytes bring offset `pos` up to a multiple of `align`.
pub open spec fn padding(pos: int, align: int) -> int {
    (align - pos % align) % align
}

pub open spec fn zeros(n: int) -> Seq<u8> {
    Seq::new(n as nat, |i: int| 0u8)
}

/// The chunks laid end to end.
pub open spec fn concat_chunks(c: Seq<Seq<u8>>) -> Seq<u8>
    decreases c.len(),
{
    if c.len() == 0 {
        Seq::empty()
    } else {
        concat_chunks(c.drop_last()) + c.last()
    }
}

pub open spec fn i32_chunks(s: Seq<i32>) -> Seq<Seq<u8>> {
    Seq::new(s.len(), |i: int| spec_u32_to_le_bytes(s[i] as u32))
}

pub open spec fn i64_chunks(s: Seq<i64>) -> Seq<Seq<u8>> {
    Seq::new(s.len(), |i: int| spec_u64_to_le_bytes(s[i] as u64))
}

pub open spec fn u64_chunks(s: Seq<u64>) -> Seq<Seq<u8>> {
    Seq::new(s.len(), |i: int| spec_u64_to_le_bytes(s[i]))
}

/// A tag and a size prefix followed by padding to `align` and the body.
pub open spec fn aligned(tag: u8, n: nat, pos: int, align: int, body: Seq<u8>) -> Seq<u8> {
    let head = seq![tag] + size_prefix(n);
    head + zeros(padding(pos + head.len(), align)) + body
}

/// The bytes that encode `v` when its first byte lands at offset `pos` of the
/// buffer (alignment is relative to the start of the buffer).
pub open spec fn enc(v: ValueModel, pos: int) -> Seq<u8>
    decreases v,
{
    match v {
        ValueModel::Null => seq![TAG_NULL],
        ValueModel::Boolean(b) => if b {
            seq![TAG_TRUE]
        } else {
            seq![TAG_FALSE]
        },
        ValueModel::I32(x) => seq![TAG_I32] + spec_u32_to_le_bytes(x as u32),
        ValueModel::I64(x) => seq![TAG_I64] + spec_u64_to_le_bytes(x as u64),
        ValueModel::F64(x) => seq![TAG_F64] + zeros(padding(pos + 1, 8)) + spec_u64_to_le_bytes(x),
        ValueModel::Str(s) => seq![TAG_STRING] + size_prefix(encode_utf8(s).len()) + encode_utf8(
            s,
        ),
        ValueModel::U8List(b) => seq![TAG_U8_LIST] + size_prefix(b.len()) + b,
        ValueModel::I32List(s) => aligned(TAG_I32_LIST, s.len(), pos, 4, concat_chunks(i32_chunks(s))),
        ValueModel::I64List(s) => aligned(TAG_I64_LIST, s.len(), pos, 8, concat_chunks(i64_chunks(s))),
        ValueModel::F64List(s) => aligned(TAG_F64_LIST, s.len(), pos, 8, concat_chunks(u64_chunks(s))),
        ValueModel::List(s) => {
            let head = seq![TAG_LIST] + size_prefix(s.len());
            head + enc_seq(s, pos + head.len())
        },
        ValueModel::Dict(m) => {
            let head = seq![TAG_MAP] + size_prefix(m.len());
            head + enc_pairs(m, pos + head.len())
        },
    }
}

/// The values of `s` encoded one after another from offset `pos`.
pub open spec fn enc_seq(s: Seq<ValueModel>, pos: int) -> Seq<u8>
    decreases s,
{
    if s.len() == 0 {
        Seq::empty()
    } else {
        let first = enc(s[0], pos);
        first + enc_seq(s.subrange(1, s.len() as int), pos + first.len())
    }
}

/// Each key followed by its value, entry after entry, from offset `pos`.
pub open spec fn enc_pairs(m: Seq<(ValueModel, ValueModel)>, pos: int) -> Seq<u8>
    decreases m,
{
    if m.len() == 0 {
        Seq::empty()
    } else {
        let k = enc(m[0].0, pos);
        let v = enc(m[0].1, pos + k.len());
        k + v + enc_pairs(m.subrange(1, m.len() as int), pos + k.len() + v.len())
    }
}

/// Whether every length inside `v` fits a size prefix.
pub open spec fn fits(v: ValueModel) -> bool
    decreases v,
{
    match v {
        ValueModel::Str(s) => encode_utf8(s).len() <= MAX_LEN,
        ValueModel::U8List(b) => b.len() <= MAX_LEN,
        ValueModel::I32List(s) => s.len() <= MAX_LEN,
        ValueModel::I64List(s) => s.len() <= MAX_LEN,
        ValueModel::F64List(s) => s.len() <= MAX_LEN,
        ValueModel::List(s) => s.len() <= MAX_LEN && fits_seq(s),
        ValueModel::Dict(m) => m.len() <= MAX_LEN && fits_pairs(m),
        _ => true,
    }
}

pub open spec fn fits_seq(s: Seq<ValueModel>) -> bool
    decreases s,
{
    s.len() == 0 || (fits(s[0]) && fits_seq(s.subrange(1, s.len() as int)))
}

pub open spec fn fits_pairs(m: Seq<(ValueModel, ValueModel)>) -> bool
    decreases m,
{
    m.len() == 0 || (fits(m[0].0) && fits(m[0].1) && fits_pairs(m.subrange(1, m.len() as int)))
}

pub open spec fn word16_at(b: Seq<u8>, p: int) -> u16 {
    spec_u16_from_le_bytes(b.subrange(p, p + 2))
}

pub open spec fn word32_at(b: Seq<u8>, p: int) -> u32 {
    spec_u32_from_le_bytes(b.subrange(p, p + 4))
}

pub open spec fn word64_at(b: Seq<u8>, p: int) -> u64 {
    spec_u64_from_le_bytes(b.subrange(p, p + 8))
}

/// Reads a size prefix at `pos`: the size and the offset after it.
pub open spec fn read_size(b: Seq<u8>, pos: int) -> Option<(nat, int)> {
    if pos < 0 || pos >= b.len() {
        None
    } else if b[pos] < 254 {
        Some((b[pos] as nat, pos + 1))
    } else if b[pos] == 254 {
        if pos + 3 <= b.len() {
            Some((word16_at(b, pos + 1) as nat, pos + 3))
        } else {
            None
        }
    } else if pos + 5 <= b.len() {
        Some((word32_at(b, pos + 1) as nat, pos + 5))
    } else {
        None
    }
}

/// Reads one value at `pos`: the value and the offset after it, or `None`
/// where the bytes there are no encoding of a value.
pub open spec fn parse(b: Seq<u8>, pos: int) -> Option<(ValueModel, int)>
    decreases b.len() - pos, 0int, 0int,
{
    if pos < 0 || pos >= b.len() {
        None
    } else {
        let tag = b[pos];
        let p = pos + 1;
        if tag == TAG_NULL {
            Some((ValueModel::Null, p))
        } else if tag == TAG_TRUE {
            Some((ValueModel::Boolean(true), p))
        } else if tag == TAG_FALSE {
            Some((ValueModel::Boolean(false), p))
        } else if tag == TAG_I32 {
            if p + 4 <= b.len() {
                Some((ValueModel::I32(word32_at(b, p) as i32), p + 4))
            } else {
                None
            }
        } else if tag == TAG_I64 {
            if p + 8 <= b.len() {
                Some((ValueModel::I64(word64_at(b, p) as i64), p + 8))
            } else {
                None
            }
        } else if tag == TAG_F64 {
            let q = p + padding(p, 8);
            if q + 8 <= b.len() {
                Some((ValueModel::F64(word64_at(b, q)), q + 8))
            } else {
                None
            }
        } else if tag == TAG_STRING || tag == TAG_U8_LIST {
            match read_size(b, p) {
                None => None,
                Some((n, q)) => if q + n <= b.len() {
                    let bytes = b.subrange(q, q + n);
                    if tag == TAG_U8_LIST {
                        Some((ValueModel::U8List(bytes), q + n))
                    } else if valid_utf8(bytes) {
                        Some((ValueModel::Str(decode_utf8(bytes)), q + n))
                    } else {
                        None
                    }
                } else {
                    None
                },
            }
        } else if tag == TAG_I32_LIST {
            match read_size(b, p) {
                None => None,
                Some((n, q)) => {
                    let r = q + padding(q, 4);
                    if r + 4 * n <= b.len() {
                        Some(
                            (
                                ValueModel::I32List(
                                    Seq::new(n, |i: int| word32_at(b, r + 4 * i) as i32),
                                ),
                                r + 4 * n,
                            ),
                        )
                    } else {
                        None
                    }
                },
            }
        } else if tag == TAG_I64_LIST || tag == TAG_F64_LIST {
            match read_size(b, p) {
                None => None,
                Some((n, q)) => {
                    let r = q + padding(q, 8);
                    if r + 8 * n <= b.len() {
                        let words = Seq::new(n, |i: int| word64_at(b, r + 8 * i));
                        if tag == TAG_I64_LIST {
                            Some(
                                (
                                    ValueModel::I64List(
                                        Seq::new(n, |i: int| words[i] as i64),
                                    ),
                                    r + 8 * n,
                                ),
                            )
                        } else {
                            Some((ValueModel::F64List(words), r + 8 * n))
                        }
                    } else {
                        None
                    }
                },
            }
        } else if tag == TAG_LIST {
            match read_size(b, p) {
                None => None,
                Some((n, q)) => match parse_seq(b, q, n) {
                    None => None,
                    Some((s, e)) => Some((ValueModel::List(s), e)),
                },
            }
        } else if tag == TAG_MAP {
            match read_size(b, p) {
                None => None,
                Some((n, q)) => match parse_pairs(b, q, n) {
                    None => None,
                    Some((m, e)) => Some((ValueModel::Dict(m), e)),
                },
            }
        } else {
            None
        }
    }
}

/// Reads `n` values one after another from `pos`.
pub open spec fn parse_seq(b: Seq<u8>, pos: int, n: nat) -> Option<(Seq<ValueModel>, int)>
    decreases b.len() - pos, 1int, n,
{
    if pos < 0 || pos > b.len() {
        None
    } else if n == 0 {
        Some((Seq::empty(), pos))
    } else {
        match parse(b, pos) {
            None => None,
            Some((v, at1)) => if at1 <= pos || at1 > b.len() {
                None
            } else {
                match parse_seq(b, at1, (n - 1) as nat) {
                    None => None,
                    Some((rest, e)) => Some((seq![v] + rest, e)),
                }
            },
        }
    }
}

/// Reads `n` key/value entries one after another from `pos`.
pub open spec fn parse_pairs(b: Seq<u8>, pos: int, n: nat) -> Option<
    (Seq<(ValueModel, ValueModel)>, int),
>
    decreases b.len() - pos, 1int, n,
{
    if pos < 0 || pos > b.len() {
        None
    } else if n == 0 {
        Some((Seq::empty(), pos))
    } else {
        match parse(b, pos) {
            None => None,
            Some((k, at1)) => if at1 <= pos || at1 > b.len() {
                None
            } else {
                match parse(b, at1) {
                    None => None,
                    Some((v, at2)) => if at2 <= at1 || at2 > b.len() {
                        None
                    } else {
                        match parse_pairs(b, at2, (n - 1) as nat) {
                            None => None,
                            Some((rest, e)) => Some((seq![(k, v)] + rest, e)),
                        }
                    },
                }
            },
        }
    }
}

} // verus!
