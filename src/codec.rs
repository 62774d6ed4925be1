//! The wire format of tensors: fixed-width little-endian elements, widened
//! half-precision values and length-prefixed byte strings.

use vstd::prelude::*;
use vstd::arithmetic::div_mod::{
    lemma_div_denominator, lemma_div_multiples_vanish, lemma_fundamental_div_mod,
    lemma_mod_multiples_basic,
};
use crate::error::Error;
use crate::tensor::{
    bytes_view, element_count, lemma_product_nonnegative, shape_product, value_len,
    value_shape, value_type, ArrayOutputOneOf, ArrayValue, Tensor,
};
use crate::types::{Bytes, TritonDataTypes};

verus! {

/// `256^k`.
pub open spec fn pow256(k: nat) -> nat
    decreases k,
{
    if k == 0 {
        1
    } else {
        256 * pow256((k - 1) as nat)
    }
}

/// The number that `b` encodes with its least significant byte first.
pub open spec fn le_value(b: Seq<u8>) -> nat
    decreases b.len(),
{
    if b.len() == 0 {
        0
    } else {
        b[0] as nat + 256 * le_value(b.drop_first())
    }
}

/// The `w` bytes that encode `x` least significant byte first.
pub open spec fn le_bytes(x: nat, w: nat) -> Seq<u8> {
    Seq::new(w, |k: int| ((x / pow256(k as nat)) % 256) as u8)
}

/// The `i`-th little-endian word of width `w` in `raw`.
pub open spec fn word_at(raw: Seq<u8>, w: nat, i: int) -> u64 {
    le_value(raw.subrange(i * w, i * w + w)) as u64
}

/// `raw` read as consecutive little-endian words of width `w`.
pub open spec fn words(raw: Seq<u8>, w: nat) -> Seq<u64>
    recommends
        w > 0,
{
    Seq::new(raw.len() / w, |i: int| word_at(raw, w, i))
}

/// A 16-bit floating-point value widened to the bit pattern of a 32-bit float: the
/// two bytes become the low half of a big-endian 32-bit word whose high half is zero.
pub open spec fn widen_half(b0: u8, b1: u8) -> u32 {
    (b0 as int * 256 + b1 as int) as u32
}

/// `raw` read as consecutive 16-bit values, each widened.
pub open spec fn widened(raw: Seq<u8>) -> Seq<u32> {
    Seq::new(raw.len() / 2, |i: int| widen_half(raw[2 * i], raw[2 * i + 1]))
}

/// The frame length that the first four bytes of `s` give, most significant first.
pub open spec fn be_u32(s: Seq<u8>) -> nat {
    s[0] as nat * 0x100_0000 + s[1] as nat * 0x1_0000 + s[2] as nat * 0x100 + s[3] as nat
}

/// `s` read as a stream of frames, each a four-byte big-endian length followed by
/// that many bytes; `None` where a frame runs past the end.
pub open spec fn parse_frames(s: Seq<u8>) -> Option<Seq<Seq<u8>>>
    decreases s.len(),
{
    if s.len() == 0 {
        Some(Seq::empty())
    } else if s.len() < 4 {
        None
    } else if s.len() < 4 + be_u32(s) {
        None
    } else {
        match parse_frames(s.subrange(4 + be_u32(s) as int, s.len() as int)) {
            Some(rest) => Some(seq![s.subrange(4, 4 + be_u32(s) as int)] + rest),
            None => None,
        }
    }
}

/// The bytes per element on the wire (frames have no fixed width).
pub open spec fn elem_width(t: TritonDataTypes) -> nat {
    match t {
        TritonDataTypes::BOOL | TritonDataTypes::INT8 | TritonDataTypes::UINT8 => 1,
        TritonDataTypes::INT16 | TritonDataTypes::UINT16 => 2,
        TritonDataTypes::FP16 | TritonDataTypes::BF16 => 2,
        TritonDataTypes::INT32 | TritonDataTypes::UINT32 | TritonDataTypes::FP32 => 4,
        TritonDataTypes::INT64 | TritonDataTypes::UINT64 | TritonDataTypes::FP64 => 8,
        TritonDataTypes::BYTES => 0,
    }
}

/// Whether a buffer of type `t` decodes over `shape`.
pub open spec fn decode_ok(t: TritonDataTypes, shape: Seq<usize>, raw: Seq<u8>) -> bool {
    if t == TritonDataTypes::BYTES {
        parse_frames(raw) matches Some(f) && f.len() == shape_product(shape)
    } else {
        raw.len() == shape_product(shape) * elem_width(t)
    }
}

/// Why a buffer does not decode: a frame cut short, or a length that disagrees
/// with the shape.
pub open spec fn decode_error(t: TritonDataTypes, shape: Seq<usize>, raw: Seq<u8>) -> Error {
    if t == TritonDataTypes::BYTES && parse_frames(raw) is None {
        Error::Truncated
    } else {
        Error::ShapeMismatch
    }
}

/// The array that a buffer of type `t` decodes to over `shape`. Half-precision
/// types widen to 32-bit float bit patterns.
pub open spec fn decode_value(t: TritonDataTypes, shape: Seq<usize>, raw: Seq<u8>) -> ArrayValue {
    match t {
        TritonDataTypes::BOOL => ArrayValue::BOOL(shape, words(raw, 1).map_values(|x: u64| x != 0)),
        TritonDataTypes::INT8 => ArrayValue::INT8(shape, words(raw, 1).map_values(|x: u64| x as i8)),
        TritonDataTypes::INT16 => ArrayValue::INT16(shape, words(raw, 2).map_values(|x: u64| x as i16)),
        TritonDataTypes::INT32 => ArrayValue::INT32(shape, words(raw, 4).map_values(|x: u64| x as i32)),
        TritonDataTypes::INT64 => ArrayValue::INT64(shape, words(raw, 8).map_values(|x: u64| x as i64)),
        TritonDataTypes::UINT8 => ArrayValue::UINT8(shape, words(raw, 1).map_values(|x: u64| x as u8)),
        TritonDataTypes::UINT16 => ArrayValue::UINT16(shape, words(raw, 2).map_values(|x: u64| x as u16)),
        TritonDataTypes::UINT32 => ArrayValue::UINT32(shape, words(raw, 4).map_values(|x: u64| x as u32)),
        TritonDataTypes::UINT64 => ArrayValue::UINT64(shape, words(raw, 8)),
        TritonDataTypes::FP32 => ArrayValue::FP32(shape, words(raw, 4).map_values(|x: u64| x as u32)),
        TritonDataTypes::FP64 => ArrayValue::FP64(shape, words(raw, 8)),
        TritonDataTypes::FP16 | TritonDataTypes::BF16 => ArrayValue::FP32(shape, widened(raw)),
        TritonDataTypes::BYTES => ArrayValue::BYTES(
            shape,
            match parse_frames(raw) {
                Some(f) => f,
                None => Seq::empty(),
            },
        ),
    }
}

proof fn lemma_pow256_facts()
    ensures
        pow256(0) == 1,
        pow256(1) == 0x100,
        pow256(2) == 0x1_0000,
        pow256(3) == 0x100_0000,
        pow256(4) == 0x1_0000_0000,
        pow256(5) == 0x100_0000_0000,
        pow256(6) == 0x1_0000_0000_0000,
        pow256(7) == 0x100_0000_0000_0000,
        pow256(8) == 0x1_0000_0000_0000_0000,
{
    reveal_with_fuel(pow256, 9);
}

proof fn lemma_pow256_mono(a: nat, b: nat)
    requires
        a <= b,
    ensures
        pow256(a) <= pow256(b),
    decreases b,
{
    if a < b {
        lemma_pow256_mono(a, (b - 1) as nat);
    }
}

/// A little-endian value of `n` bytes is below `256^n`.
proof fn lemma_le_value_bound(b: Seq<u8>)
    ensures
        le_value(b) < pow256(b.len()),
    decreases b.len(),
{
    if b.len() > 0 {
        lemma_le_value_bound(b.drop_first());
    }
}

proof fn lemma_chunk_in_bounds(i: int, n: int, w: int)
    requires
        0 <= i < n,
        w > 0,
    ensures
        i * w + w <= n * w,
        0 <= i * w,
{
    assert(i * w + w <= n * w) by (nonlinear_arith)
        requires
            i < n,
            w > 0,
    ;
    assert(0 <= i * w) by (nonlinear_arith)
        requires
            0 <= i,
            w > 0,
    ;
}

/// Reads the little-endian word of width `w` that starts at `start`.
fn read_le(raw: &Vec<u8>, start: usize, w: usize) -> (r: u64)
    requires
        1 <= w <= 8,
        start + w <= raw@.len(),
    ensures
        r as nat == le_value(raw@.subrange(start as int, start + w)),
{
    proof {
        lemma_pow256_facts();
    }
    let len = raw.len();
    let mut acc: u64 = 0;
    let mut k: usize = w;
    while k > 0
        invariant
            k <= w <= 8,
            start + w <= raw@.len() == len,
            acc as nat == le_value(raw@.subrange(start + k, start + w)),
            acc < pow256((w - k) as nat),
            pow256(7) == 0x100_0000_0000_0000,
        decreases k,
    {
        let ghost tail = raw@.subrange(start + k, start + w);
        let ghost s = raw@.subrange(start + k - 1, start + w);
        proof {
            assert(s.drop_first() =~= tail);
            lemma_pow256_mono((w - k) as nat, 7);
        }
        let b = raw[start + k - 1];
        acc = acc * 256 + b as u64;
        k = k - 1;
    }
    acc
}

/// Reads `raw` as little-endian words of width `w`.
pub fn vec_u8_to_words(raw: &Vec<u8>, w: usize) -> (r: Vec<u64>)
    requires
        1 <= w <= 8,
    ensures
        r@ == words(raw@, w as nat),
{
    let len = raw.len();
    let n = len / w;
    proof {
        lemma_fundamental_div_mod(len as int, w as int);
        assert(n * w <= len) by (nonlinear_arith)
            requires
                len == w * (len / w) + len % w,
                n == len / w,
                len % w >= 0,
        ;
    }
    let mut out: Vec<u64> = Vec::with_capacity(n);
    let mut i: usize = 0;
    while i < n
        invariant
            n == raw@.len() / (w as nat),
            n * w <= raw@.len() == len,
            1 <= w <= 8,
            i <= n,
            out@ =~= words(raw@, w as nat).take(i as int),
        decreases n - i,
    {
        proof {
            lemma_chunk_in_bounds(i as int, n as int, w as int);
        }
        let x = read_le(raw, i * w, w);
        out.push(x);
        i = i + 1;
    }
    out
}

/// Widens consecutive 16-bit floating-point values to 32-bit float bit patterns.
pub fn vec_u8_base_16bits_to_vec_f32(raw: &Vec<u8>) -> (r: Vec<u32>)
    ensures
        r@ == widened(raw@),
{
    let len = raw.len();
    let n = len / 2;
    let mut out: Vec<u32> = Vec::with_capacity(n);
    let mut i: usize = 0;
    while i < n
        invariant
            n == raw@.len() / 2,
            len == raw@.len(),
            i <= n,
            out@ =~= widened(raw@).take(i as int),
        decreases n - i,
    {
        let hi = raw[2 * i] as u32;
        let lo = raw[2 * i + 1] as u32;
        out.push(hi * 256 + lo);
        i = i + 1;
    }
    out
}

fn words_to_bool(ws: &Vec<u64>) -> (r: Vec<bool>)
    ensures
        r@ == ws@.map_values(|x: u64| x != 0),
{
    let mut out: Vec<bool> = Vec::with_capacity(ws.len());
    let mut i: usize = 0;
    while i < ws.len()
        invariant
            i <= ws@.len(),
            out@ =~= ws@.take(i as int).map_values(|x: u64| x != 0),
        decreases ws.len() - i,
    {
        let x = ws[i];
        out.push(x != 0);
        i = i + 1;
    }
    proof {
        assert(ws@.take(i as int) =~= ws@);
    }
    out
}

fn words_to_i8(ws: &Vec<u64>) -> (r: Vec<i8>)
    ensures
        r@ == ws@.map_values(|x: u64| x as i8),
{
    let mut out: Vec<i8> = Vec::with_capacity(ws.len());
    let mut i: usize = 0;
    while i < ws.len()
        invariant
            i <= ws@.len(),
            out@ =~= ws@.take(i as int).map_values(|x: u64| x as i8),
        decreases ws.len() - i,
    {
        let x = ws[i];
        out.push(x as i8);
        i = i + 1;
    }
    proof {
        assert(ws@.take(i as int) =~= ws@);
    }
    out
}

fn words_to_i16(ws: &Vec<u64>) -> (r: Vec<i16>)
    ensures
        r@ == ws@.map_values(|x: u64| x as i16),
{
    let mut out: Vec<i16> = Vec::with_capacity(ws.len());
    let mut i: usize = 0;
    while i < ws.len()
        invariant
            i <= ws@.len(),
            out@ =~= ws@.take(i as int).map_values(|x: u64| x as i16),
        decreases ws.len() - i,
    {
        let x = ws[i];
        out.push(x as i16);
        i = i + 1;
    }
    proof {
        assert(ws@.take(i as int) =~= ws@);
    }
    out
}

fn words_to_i32(ws: &Vec<u64>) -> (r: Vec<i32>)
    ensures
        r@ == ws@.map_values(|x: u64| x as i32),
{
    let mut out: Vec<i32> = Vec::with_capacity(ws.len());
    let mut i: usize = 0;
    while i < ws.len()
        invariant
            i <= ws@.len(),
            out@ =~= ws@.take(i as int).map_values(|x: u64| x as i32),
        decreases ws.len() - i,
    {
        let x = ws[i];
        out.push(x as i32);
        i = i + 1;
    }
    proof {
        assert(ws@.take(i as int) =~= ws@);
    }
    out
}

fn words_to_i64(ws: &Vec<u64>) -> (r: Vec<i64>)
    ensures
        r@ == ws@.map_values(|x: u64| x as i64),
{
    let mut out: Vec<i64> = Vec::with_capacity(ws.len());
    let mut i: usize = 0;
    while i < ws.len()
        invariant
            i <= ws@.len(),
            out@ =~= ws@.take(i as int).map_values(|x: u64| x as i64),
        decreases ws.len() - i,
    {
        let x = ws[i];
        out.push(x as i64);
        i = i + 1;
    }
    proof {
        assert(ws@.take(i as int) =~= ws@);
    }
    out
}

fn words_to_u8(ws: &Vec<u64>) -> (r: Vec<u8>)
    ensures
        r@ == ws@.map_values(|x: u64| x as u8),
{
    let mut out: Vec<u8> = Vec::with_capacity(ws.len());
    let mut i: usize = 0;
    while i < ws.len()
        invariant
            i <= ws@.len(),
            out@ =~= ws@.take(i as int).map_values(|x: u64| x as u8),
        decreases ws.len() - i,
    {
        let x = ws[i];
        out.push(x as u8);
        i = i + 1;
    }
    proof {
        assert(ws@.take(i as int) =~= ws@);
    }
    out
}

fn words_to_u16(ws: &Vec<u64>) -> (r: Vec<u16>)
    ensures
        r@ == ws@.map_values(|x: u64| x as u16),
{
    let mut out: Vec<u16> = Vec::with_capacity(ws.len());
    let mut i: usize = 0;
    while i < ws.len()
        invariant
            i <= ws@.len(),
            out@ =~= ws@.take(i as int).map_values(|x: u64| x as u16),
        decreases ws.len() - i,
    {
        let x = ws[i];
        out.push(x as u16);
        i = i + 1;
    }
    proof {
        assert(ws@.take(i as int) =~= ws@);
    }
    out
}

fn words_to_u32(ws: &Vec<u64>) -> (r: Vec<u32>)
    ensures
        r@ == ws@.map_values(|x: u64| x as u32),
{
    let mut out: Vec<u32> = Vec::with_capacity(ws.len());
    let mut i: usize = 0;
    while i < ws.len()
        invariant
            i <= ws@.len(),
            out@ =~= ws@.take(i as int).map_values(|x: u64| x as u32),
        decreases ws.len() - i,
    {
        let x = ws[i];
        out.push(x as u32);
        i = i + 1;
    }
    proof {
        assert(ws@.take(i as int) =~= ws@);
    }
    out
}

fn read_be_u32(raw: &Vec<u8>, at: usize) -> (r: usize)
    requires
        at + 4 <= raw@.len(),
    ensures
        r as nat == be_u32(raw@.subrange(at as int, raw@.len() as int)),
{
    let len = raw.len();
    proof {
        assert(at + 4 <= len);
    }
    let b0 = raw[at] as usize;
    let b1 = raw[at + 1] as usize;
    let b2 = raw[at + 2] as usize;
    let b3 = raw[at + 3] as usize;
    b0 * 0x100_0000 + b1 * 0x1_0000 + b2 * 0x100 + b3
}

/// Splits a stream of length-prefixed frames into its byte strings; fails with
/// `Truncated` where a frame runs past the end of the buffer.
pub fn vec_u8_to_bytes(data: &Vec<u8>) -> (r: Result<Vec<Bytes>, Error>)
    ensures
        r matches Ok(v) ==> parse_frames(data@) == Some(bytes_view(v@)),
        r matches Err(e) ==> parse_frames(data@) is None && e == Error::Truncated,
{
    let len = data.len();
    let mut offset: usize = 0;
    let mut out: Vec<Bytes> = Vec::new();
    proof {
        assert(data@.subrange(0, len as int) =~= data@);
        match parse_frames(data@) {
            Some(rest) => assert(bytes_view(out@) + rest =~= rest),
            None => {},
        }
    }
    while offset < len
        invariant
            len == data@.len(),
            offset <= len,
            parse_frames(data@) == match parse_frames(data@.subrange(offset as int, len as int)) {
                Some(rest) => Some(bytes_view(out@) + rest),
                None => None::<Seq<Seq<u8>>>,
            },
        decreases len - offset,
    {
        let ghost s = data@.subrange(offset as int, len as int);
        if len - offset < 4 {
            return Err(Error::Truncated);
        }
        let n = read_be_u32(data, offset);
        proof {
            assert(be_u32(data@.subrange(offset as int, len as int)) == be_u32(s));
        }
        if len - offset - 4 < n {
            return Err(Error::Truncated);
        }
        let start = offset + 4;
        let mut frame: Vec<u8> = Vec::with_capacity(n);
        let mut k: usize = 0;
        while k < n
            invariant
                start + n <= len == data@.len(),
                k <= n,
                frame@ =~= data@.subrange(start as int, start + k),
            decreases n - k,
        {
            frame.push(data[start + k]);
            k = k + 1;
        }
        proof {
            assert(s.subrange(4, 4 + be_u32(s) as int) =~= frame@);
            assert(s.subrange(4 + be_u32(s) as int, s.len() as int) =~= data@.subrange(
                start + n,
                len as int,
            ));
            assert(bytes_view(out@.push(frame)) =~= bytes_view(out@).push(frame@));
            match parse_frames(data@.subrange(start + n, len as int)) {
                Some(rest) => {
                    assert(bytes_view(out@) + (seq![frame@] + rest) =~= bytes_view(out@).push(
                        frame@,
                    ) + rest);
                },
                None => {},
            }
        }
        out.push(frame);
        offset = start + n;
    }
    proof {
        assert(data@.subrange(offset as int, len as int) =~= Seq::<u8>::empty());
        assert(bytes_view(out@) + Seq::<Seq<u8>>::empty() =~= bytes_view(out@));
    }
    Ok(out)
}


/// The bytes per element of a fixed-width type (0 for `BYTES`).
pub fn elem_width_of(t: TritonDataTypes) -> (r: usize)
    ensures
        r as nat == elem_width(t),
{
    match t {
        TritonDataTypes::BOOL | TritonDataTypes::INT8 | TritonDataTypes::UINT8 => 1,
        TritonDataTypes::INT16 | TritonDataTypes::UINT16 => 2,
        TritonDataTypes::FP16 | TritonDataTypes::BF16 => 2,
        TritonDataTypes::INT32 | TritonDataTypes::UINT32 | TritonDataTypes::FP32 => 4,
        TritonDataTypes::INT64 | TritonDataTypes::UINT64 | TritonDataTypes::FP64 => 8,
        TritonDataTypes::BYTES => 0,
    }
}

/// Decodes the raw buffer of one tensor of element type `datatype` over `shape`.
pub fn decode_tensor(datatype: TritonDataTypes, shape: Vec<usize>, raw: &Vec<u8>) -> (r: Result<
    ArrayOutputOneOf,
    Error,
>)
    ensures
        r is Ok <==> decode_ok(datatype, shape@, raw@),
        r matches Ok(a) ==> a@ == decode_value(datatype, shape@, raw@),
        r matches Err(e) ==> e == decode_error(datatype, shape@, raw@),
{
    proof {
        lemma_product_nonnegative(shape@);
    }
    if datatype == TritonDataTypes::BYTES {
        let items = match vec_u8_to_bytes(raw) {
            Ok(v) => v,
            Err(e) => return Err(e),
        };
        return match Tensor::from_shape_vec(shape, items) {
            Ok(t) => Ok(ArrayOutputOneOf::BYTES(t)),
            Err(e) => Err(e),
        };
    }
    let w = elem_width_of(datatype);
    let len = raw.len();
    let n = match element_count(&shape) {
        Some(n) => n,
        None => {
            proof {
                let p = shape_product(shape@);
                assert(p * w > len) by (nonlinear_arith)
                    requires
                        p > len,
                        w >= 1,
                ;
            }
            return Err(Error::ShapeMismatch);
        },
    };
    let m = match n.checked_mul(w) {
        Some(m) => m,
        None => return Err(Error::ShapeMismatch),
    };
    if m != len {
        return Err(Error::ShapeMismatch);
    }
    proof {
        lemma_div_multiples_vanish(n as int, w as int);
        assert(n * w == w * n) by (nonlinear_arith);
    }
    match datatype {
        TritonDataTypes::BOOL => {
            let ws = vec_u8_to_words(raw, 1);
            match Tensor::from_shape_vec(shape, words_to_bool(&ws)) {
                Ok(t) => Ok(ArrayOutputOneOf::BOOL(t)),
                Err(e) => Err(e),
            }
        },
        TritonDataTypes::INT8 => {
            let ws = vec_u8_to_words(raw, 1);
            match Tensor::from_shape_vec(shape, words_to_i8(&ws)) {
                Ok(t) => Ok(ArrayOutputOneOf::INT8(t)),
                Err(e) => Err(e),
            }
        },
        TritonDataTypes::INT16 => {
            let ws = vec_u8_to_words(raw, 2);
            match Tensor::from_shape_vec(shape, words_to_i16(&ws)) {
                Ok(t) => Ok(ArrayOutputOneOf::INT16(t)),
                Err(e) => Err(e),
            }
        },
        TritonDataTypes::INT32 => {
            let ws = vec_u8_to_words(raw, 4);
            match Tensor::from_shape_vec(shape, words_to_i32(&ws)) {
                Ok(t) => Ok(ArrayOutputOneOf::INT32(t)),
                Err(e) => Err(e),
            }
        },
        TritonDataTypes::INT64 => {
            let ws = vec_u8_to_words(raw, 8);
            match Tensor::from_shape_vec(shape, words_to_i64(&ws)) {
                Ok(t) => Ok(ArrayOutputOneOf::INT64(t)),
                Err(e) => Err(e),
            }
        },
        TritonDataTypes::UINT8 => {
            let ws = vec_u8_to_words(raw, 1);
            match Tensor::from_shape_vec(shape, words_to_u8(&ws)) {
                Ok(t) => Ok(ArrayOutputOneOf::UINT8(t)),
                Err(e) => Err(e),
            }
        },
        TritonDataTypes::UINT16 => {
            let ws = vec_u8_to_words(raw, 2);
            match Tensor::from_shape_vec(shape, words_to_u16(&ws)) {
                Ok(t) => Ok(ArrayOutputOneOf::UINT16(t)),
                Err(e) => Err(e),
            }
        },
        TritonDataTypes::UINT32 => {
            let ws = vec_u8_to_words(raw, 4);
            match Tensor::from_shape_vec(shape, words_to_u32(&ws)) {
                Ok(t) => Ok(ArrayOutputOneOf::UINT32(t)),
                Err(e) => Err(e),
            }
        },
        TritonDataTypes::UINT64 => {
            let ws = vec_u8_to_words(raw, 8);
            match Tensor::from_shape_vec(shape, ws) {
                Ok(t) => Ok(ArrayOutputOneOf::UINT64(t)),
                Err(e) => Err(e),
            }
        },
        TritonDataTypes::FP32 => {
            let ws = vec_u8_to_words(raw, 4);
            match Tensor::from_shape_vec(shape, words_to_u32(&ws)) {
                Ok(t) => Ok(ArrayOutputOneOf::FP32(t)),
                Err(e) => Err(e),
            }
        },
        TritonDataTypes::FP64 => {
            let ws = vec_u8_to_words(raw, 8);
            match Tensor::from_shape_vec(shape, ws) {
                Ok(t) => Ok(ArrayOutputOneOf::FP64(t)),
                Err(e) => Err(e),
            }
        },
        _ => {
            let bits = vec_u8_base_16bits_to_vec_f32(raw);
            match Tensor::from_shape_vec(shape, bits) {
                Ok(t) => Ok(ArrayOutputOneOf::FP32(t)),
                Err(e) => Err(e),
            }
        },
    }
}


/// The word that holds each element of an array on the wire.
pub open spec fn value_words(v: ArrayValue) -> Seq<u64> {
    match v {
        ArrayValue::BOOL(_, d) => d.map_values(|x: bool| if x { 1u64 } else { 0u64 }),
        ArrayValue::INT8(_, d) => d.map_values(|x: i8| (x as u8) as u64),
        ArrayValue::INT16(_, d) => d.map_values(|x: i16| (x as u16) as u64),
        ArrayValue::INT32(_, d) => d.map_values(|x: i32| (x as u32) as u64),
        ArrayValue::INT64(_, d) => d.map_values(|x: i64| x as u64),
        ArrayValue::UINT8(_, d) => d.map_values(|x: u8| x as u64),
        ArrayValue::UINT16(_, d) => d.map_values(|x: u16| x as u64),
        ArrayValue::UINT32(_, d) => d.map_values(|x: u32| x as u64),
        ArrayValue::UINT64(_, d) => d,
        ArrayValue::FP32(_, d) => d.map_values(|x: u32| x as u64),
        ArrayValue::FP64(_, d) => d,
        ArrayValue::BYTES(_, _) => Seq::empty(),
    }
}

/// Words of width `w`, each written least significant byte first.
pub open spec fn raw_of_words(ws: Seq<u64>, w: nat) -> Seq<u8>
    decreases ws.len(),
{
    if ws.len() == 0 {
        Seq::empty()
    } else {
        raw_of_words(ws.drop_last(), w) + le_bytes(ws.last() as nat, w)
    }
}

/// The four-byte big-endian length prefix of a frame.
pub open spec fn be_bytes_u32(n: nat) -> Seq<u8> {
    seq![
        (n / 0x100_0000 % 256) as u8,
        (n / 0x1_0000 % 256) as u8,
        (n / 0x100 % 256) as u8,
        (n % 256) as u8,
    ]
}

/// One frame: the length prefix, then the bytes.
pub open spec fn frame_of(item: Seq<u8>) -> Seq<u8> {
    be_bytes_u32(item.len()) + item
}

/// Byte strings written as consecutive frames.
pub open spec fn frames_of(items: Seq<Seq<u8>>) -> Seq<u8>
    decreases items.len(),
{
    if items.len() == 0 {
        Seq::empty()
    } else {
        frame_of(items[0]) + frames_of(items.drop_first())
    }
}

/// Whether every byte string fits a frame's four-byte length prefix.
pub open spec fn frames_fit(items: Seq<Seq<u8>>) -> bool {
    forall|i: int| 0 <= i < items.len() ==> #[trigger] items[i].len() <= u32::MAX
}

/// The raw wire buffer of an array: fixed-width elements least significant byte
/// first, or frames for byte strings.
pub open spec fn raw_bytes_of(v: ArrayValue) -> Seq<u8> {
    match v {
        ArrayValue::BYTES(_, d) => frames_of(d),
        _ => raw_of_words(value_words(v), elem_width(value_type(v))),
    }
}

/// Whether an array can be written as a raw buffer.
pub open spec fn raw_encodable(v: ArrayValue) -> bool {
    match v {
        ArrayValue::BYTES(_, d) => frames_fit(d),
        _ => true,
    }
}

proof fn lemma_pow256_step(k: nat)
    ensures
        pow256(k + 1) == 256 * pow256(k),
        pow256(k) > 0,
    decreases k,
{
    if k > 0 {
        lemma_pow256_step((k - 1) as nat);
    }
}

/// Appends the `w` little-endian bytes of `x`.
fn push_le(out: &mut Vec<u8>, x: u64, w: usize)
    requires
        w <= 8,
    ensures
        final(out)@ == old(out)@ + le_bytes(x as nat, w as nat),
{
    let mut v: u64 = x;
    let mut k: usize = 0;
    proof {
        assert(pow256(0) == 1);
        assert(x as nat / 1 == x as nat);
        assert(le_bytes(x as nat, 0) =~= Seq::<u8>::empty());
    }
    while k < w
        invariant
            k <= w,
            out@ =~= old(out)@ + le_bytes(x as nat, k as nat),
            v as nat == x as nat / pow256(k as nat),
        decreases w - k,
    {
        proof {
            lemma_pow256_step(k as nat);
            lemma_div_denominator(x as int, pow256(k as nat) as int, 256);
            assert(pow256(k as nat) * 256 == 256 * pow256(k as nat)) by (nonlinear_arith);
            assert(le_bytes(x as nat, (k + 1) as nat) =~= le_bytes(x as nat, k as nat).push(
                (v % 256) as u8,
            ));
        }
        out.push((v % 256) as u8);
        v = v / 256;
        k = k + 1;
    }
}

/// Writes words of width `w`, least significant byte first.
pub fn words_to_vec_u8(ws: &Vec<u64>, w: usize) -> (r: Vec<u8>)
    requires
        w <= 8,
    ensures
        r@ == raw_of_words(ws@, w as nat),
{
    let mut out: Vec<u8> = Vec::new();
    let mut i: usize = 0;
    while i < ws.len()
        invariant
            i <= ws@.len(),
            w <= 8,
            out@ == raw_of_words(ws@.take(i as int), w as nat),
        decreases ws.len() - i,
    {
        proof {
            assert(ws@.take(i as int + 1).drop_last() =~= ws@.take(i as int));
        }
        push_le(&mut out, ws[i], w);
        i = i + 1;
    }
    proof {
        assert(ws@.take(i as int) =~= ws@);
    }
    out
}

fn bool_to_words(d: &Vec<bool>) -> (r: Vec<u64>)
    ensures
        r@ == d@.map_values(|x: bool| if x { 1u64 } else { 0u64 }),
{
    let mut out: Vec<u64> = Vec::with_capacity(d.len());
    let mut i: usize = 0;
    while i < d.len()
        invariant
            i <= d@.len(),
            out@ =~= d@.take(i as int).map_values(|x: bool| if x { 1u64 } else { 0u64 }),
        decreases d.len() - i,
    {
        let x = d[i];
        out.push(if x { 1u64 } else { 0u64 });
        i = i + 1;
    }
    proof {
        assert(d@.take(i as int) =~= d@);
    }
    out
}

fn i8_to_words(d: &Vec<i8>) -> (r: Vec<u64>)
    ensures
        r@ == d@.map_values(|x: i8| (x as u8) as u64),
{
    let mut out: Vec<u64> = Vec::with_capacity(d.len());
    let mut i: usize = 0;
    while i < d.len()
        invariant
            i <= d@.len(),
            out@ =~= d@.take(i as int).map_values(|x: i8| (x as u8) as u64),
        decreases d.len() - i,
    {
        let x = d[i];
        out.push(x as u8 as u64);
        i = i + 1;
    }
    proof {
        assert(d@.take(i as int) =~= d@);
    }
    out
}

fn i16_to_words(d: &Vec<i16>) -> (r: Vec<u64>)
    ensures
        r@ == d@.map_values(|x: i16| (x as u16) as u64),
{
    let mut out: Vec<u64> = Vec::with_capacity(d.len());
    let mut i: usize = 0;
    while i < d.len()
        invariant
            i <= d@.len(),
            out@ =~= d@.take(i as int).map_values(|x: i16| (x as u16) as u64),
        decreases d.len() - i,
    {
        let x = d[i];
        out.push(x as u16 as u64);
        i = i + 1;
    }
    proof {
        assert(d@.take(i as int) =~= d@);
    }
    out
}

fn i32_to_words(d: &Vec<i32>) -> (r: Vec<u64>)
    ensures
        r@ == d@.map_values(|x: i32| (x as u32) as u64),
{
    let mut out: Vec<u64> = Vec::with_capacity(d.len());
    let mut i: usize = 0;
    while i < d.len()
        invariant
            i <= d@.len(),
            out@ =~= d@.take(i as int).map_values(|x: i32| (x as u32) as u64),
        decreases d.len() - i,
    {
        let x = d[i];
        out.push(x as u32 as u64);
        i = i + 1;
    }
    proof {
        assert(d@.take(i as int) =~= d@);
    }
    out
}

fn i64_to_words(d: &Vec<i64>) -> (r: Vec<u64>)
    ensures
        r@ == d@.map_values(|x: i64| x as u64),
{
    let mut out: Vec<u64> = Vec::with_capacity(d.len());
    let mut i: usize = 0;
    while i < d.len()
        invariant
            i <= d@.len(),
            out@ =~= d@.take(i as int).map_values(|x: i64| x as u64),
        decreases d.len() - i,
    {
        let x = d[i];
        out.push(x as u64);
        i = i + 1;
    }
    proof {
        assert(d@.take(i as int) =~= d@);
    }
    out
}

fn u8_to_words(d: &Vec<u8>) -> (r: Vec<u64>)
    ensures
        r@ == d@.map_values(|x: u8| x as u64),
{
    let mut out: Vec<u64> = Vec::with_capacity(d.len());
    let mut i: usize = 0;
    while i < d.len()
        invariant
            i <= d@.len(),
            out@ =~= d@.take(i as int).map_values(|x: u8| x as u64),
        decreases d.len() - i,
    {
        let x = d[i];
        out.push(x as u64);
        i = i + 1;
    }
    proof {
        assert(d@.take(i as int) =~= d@);
    }
    out
}

fn u16_to_words(d: &Vec<u16>) -> (r: Vec<u64>)
    ensures
        r@ == d@.map_values(|x: u16| x as u64),
{
    let mut out: Vec<u64> = Vec::with_capacity(d.len());
    let mut i: usize = 0;
    while i < d.len()
        invariant
            i <= d@.len(),
            out@ =~= d@.take(i as int).map_values(|x: u16| x as u64),
        decreases d.len() - i,
    {
        let x = d[i];
        out.push(x as u64);
        i = i + 1;
    }
    proof {
        assert(d@.take(i as int) =~= d@);
    }
    out
}

fn u32_to_words(d: &Vec<u32>) -> (r: Vec<u64>)
    ensures
        r@ == d@.map_values(|x: u32| x as u64),
{
    let mut out: Vec<u64> = Vec::with_capacity(d.len());
    let mut i: usize = 0;
    while i < d.len()
        invariant
            i <= d@.len(),
            out@ =~= d@.take(i as int).map_values(|x: u32| x as u64),
        decreases d.len() - i,
    {
        let x = d[i];
        out.push(x as u64);
        i = i + 1;
    }
    proof {
        assert(d@.take(i as int) =~= d@);
    }
    out
}

proof fn lemma_frames_push(items: Seq<Seq<u8>>, x: Seq<u8>)
    ensures
        frames_of(items.push(x)) == frames_of(items) + frame_of(x),
    decreases items.len(),
{
    if items.len() == 0 {
        assert(items.push(x).drop_first() =~= Seq::<Seq<u8>>::empty());
        assert(items.push(x)[0] == x);
        assert(frames_of(Seq::<Seq<u8>>::empty()) == Seq::<u8>::empty());
        assert(frames_of(items) == Seq::<u8>::empty());
        assert(frames_of(items.push(x)) =~= frame_of(x) + Seq::<u8>::empty());
        assert(frames_of(items.push(x)) =~= frames_of(items) + frame_of(x));
    } else {
        assert(items.push(x).drop_first() =~= items.drop_first().push(x));
        lemma_frames_push(items.drop_first(), x);
        assert(frames_of(items.push(x)) =~= frames_of(items) + frame_of(x));
    }
}

/// Writes byte strings as length-prefixed frames; `None` where one is too long
/// for a four-byte length.
pub fn bytes_to_vec_u8(items: &Vec<Bytes>) -> (r: Option<Vec<u8>>)
    ensures
        r is Some <==> frames_fit(bytes_view(items@)),
        r matches Some(v) ==> v@ == frames_of(bytes_view(items@)),
{
    let mut out: Vec<u8> = Vec::new();
    let mut i: usize = 0;
    while i < items.len()
        invariant
            i <= items@.len(),
            frames_fit(bytes_view(items@.take(i as int))),
            out@ == frames_of(bytes_view(items@.take(i as int))),
        decreases items.len() - i,
    {
        let item = &items[i];
        let n = item.len();
        if n > 0xFFFF_FFFF {
            proof {
                assert(bytes_view(items@)[i as int].len() > u32::MAX);
            }
            return None;
        }
        let ghost before = out@;
        out.push((n / 0x100_0000 % 256) as u8);
        out.push((n / 0x1_0000 % 256) as u8);
        out.push((n / 0x100 % 256) as u8);
        out.push((n % 256) as u8);
        let mut k: usize = 0;
        while k < n
            invariant
                k <= n == item@.len(),
                out@ =~= before + be_bytes_u32(n as nat) + item@.take(k as int),
            decreases n - k,
        {
            out.push(item[k]);
            k = k + 1;
        }
        proof {
            assert(item@.take(k as int) =~= item@);
            assert(bytes_view(items@.take(i as int + 1)) =~= bytes_view(items@.take(i as int)).push(
                item@,
            ));
            lemma_frames_push(bytes_view(items@.take(i as int)), item@);
            assert(out@ =~= before + frame_of(item@));
        }
        i = i + 1;
    }
    proof {
        assert(items@.take(i as int) =~= items@);
    }
    Some(out)
}

/// The raw wire buffer of an array; `None` where a byte string is too long for a
/// frame.
pub fn to_raw_bytes(a: &ArrayOutputOneOf) -> (r: Option<Vec<u8>>)
    ensures
        r is Some <==> raw_encodable(a@),
        r matches Some(v) ==> v@ == raw_bytes_of(a@),
{
    match a {
        ArrayOutputOneOf::BOOL(t) => Some(words_to_vec_u8(&bool_to_words(t.data()), 1)),
        ArrayOutputOneOf::INT8(t) => Some(words_to_vec_u8(&i8_to_words(t.data()), 1)),
        ArrayOutputOneOf::INT16(t) => Some(words_to_vec_u8(&i16_to_words(t.data()), 2)),
        ArrayOutputOneOf::INT32(t) => Some(words_to_vec_u8(&i32_to_words(t.data()), 4)),
        ArrayOutputOneOf::INT64(t) => Some(words_to_vec_u8(&i64_to_words(t.data()), 8)),
        ArrayOutputOneOf::UINT8(t) => Some(words_to_vec_u8(&u8_to_words(t.data()), 1)),
        ArrayOutputOneOf::UINT16(t) => Some(words_to_vec_u8(&u16_to_words(t.data()), 2)),
        ArrayOutputOneOf::UINT32(t) => Some(words_to_vec_u8(&u32_to_words(t.data()), 4)),
        ArrayOutputOneOf::UINT64(t) => Some(words_to_vec_u8(t.data(), 8)),
        ArrayOutputOneOf::FP32(t) => Some(words_to_vec_u8(&u32_to_words(t.data()), 4)),
        ArrayOutputOneOf::FP64(t) => Some(words_to_vec_u8(t.data(), 8)),
        ArrayOutputOneOf::BYTES(t) => bytes_to_vec_u8(t.data()),
    }
}


proof fn lemma_le_round_trip(x: nat, w: nat)
    requires
        x < pow256(w),
    ensures
        le_value(le_bytes(x, w)) == x,
    decreases w,
{
    if w == 0 {
        assert(pow256(0) == 1);
    } else {
        let y = x / 256;
        lemma_pow256_step((w - 1) as nat);
        assert forall|k: int| 0 <= k < w - 1 implies #[trigger] le_bytes(x, w)[k + 1] == le_bytes(
            y,
            (w - 1) as nat,
        )[k] by {
            lemma_pow256_step(k as nat);
            lemma_div_denominator(x as int, 256, pow256(k as nat) as int);
        }
        assert(le_bytes(x, w).drop_first() =~= le_bytes(y, (w - 1) as nat));
        lemma_fundamental_div_mod(x as int, 256);
        assert(y < pow256((w - 1) as nat)) by (nonlinear_arith)
            requires
                x == 256 * y + x % 256,
                x % 256 >= 0,
                x < 256 * pow256((w - 1) as nat),
        ;
        lemma_le_round_trip(y, (w - 1) as nat);
        assert(pow256(0) == 1);
        assert(x / 1 == x);
    }
}

proof fn lemma_raw_of_words(ws: Seq<u64>, w: nat, i: int)
    requires
        0 <= i < ws.len(),
    ensures
        raw_of_words(ws, w).len() == ws.len() * w,
        raw_of_words(ws, w).subrange(i * w, i * w + w) == le_bytes(ws[i] as nat, w),
    decreases ws.len(),
{
    let n = ws.len() as int;
    let prefix = raw_of_words(ws.drop_last(), w);
    if n > 1 {
        lemma_raw_of_words(ws.drop_last(), w, 0);
    } else {
        assert(prefix =~= Seq::<u8>::empty());
        assert((n - 1) * w == 0) by (nonlinear_arith)
            requires
                n == 1,
        ;
    }
    assert(prefix.len() == (n - 1) * w);
    assert(raw_of_words(ws, w).len() == ws.len() * w) by (nonlinear_arith)
        requires
            raw_of_words(ws, w).len() == prefix.len() + w,
            prefix.len() == (n - 1) * w,
            n == ws.len(),
    ;
    if i < n - 1 {
        lemma_raw_of_words(ws.drop_last(), w, i);
        assert(i * w + w <= (n - 1) * w) by (nonlinear_arith)
            requires
                i < n - 1,
        ;
        assert(0 <= i * w) by (nonlinear_arith)
            requires
                0 <= i,
        ;
        assert(raw_of_words(ws, w).subrange(i * w, i * w + w) =~= prefix.subrange(i * w, i * w + w));
    } else {
        assert(i * w == (n - 1) * w);
        assert(raw_of_words(ws, w).subrange(i * w, i * w + w) =~= le_bytes(ws[i] as nat, w));
    }
}

/// Words written least significant byte first read back as the same words.
proof fn lemma_words_round_trip(ws: Seq<u64>, w: nat)
    requires
        1 <= w <= 8,
        forall|i: int| 0 <= i < ws.len() ==> (#[trigger] ws[i]) < pow256(w),
    ensures
        raw_of_words(ws, w).len() == ws.len() * w,
        words(raw_of_words(ws, w), w) == ws,
{
    let raw = raw_of_words(ws, w);
    if ws.len() > 0 {
        lemma_raw_of_words(ws, w, 0);
    } else {
        assert(raw =~= Seq::<u8>::empty());
    }
    lemma_div_multiples_vanish(ws.len() as int, w as int);
    assert(ws.len() * w == w * ws.len()) by (nonlinear_arith);
    assert forall|i: int| 0 <= i < ws.len() implies #[trigger] word_at(raw, w, i) == ws[i] by {
        lemma_raw_of_words(ws, w, i);
        lemma_le_round_trip(ws[i] as nat, w);
    }
    assert(words(raw, w) =~= ws);
}

proof fn lemma_i8_word(x: i8)
    by (bit_vector)
    ensures
        ((x as u8) as u64) as i8 == x,
        ((x as u8) as u64) < 0x100,
{
}

proof fn lemma_i16_word(x: i16)
    by (bit_vector)
    ensures
        ((x as u16) as u64) as i16 == x,
        ((x as u16) as u64) < 0x1_0000,
{
}

proof fn lemma_i32_word(x: i32)
    by (bit_vector)
    ensures
        ((x as u32) as u64) as i32 == x,
        ((x as u32) as u64) < 0x1_0000_0000,
{
}

proof fn lemma_i64_word(x: i64)
    by (bit_vector)
    ensures
        (x as u64) as i64 == x,
{
}

proof fn lemma_u8_word(x: u8)
    by (bit_vector)
    ensures
        (x as u64) as u8 == x,
        (x as u64) < 0x100,
{
}

proof fn lemma_u16_word(x: u16)
    by (bit_vector)
    ensures
        (x as u64) as u16 == x,
        (x as u64) < 0x1_0000,
{
}

proof fn lemma_u32_word(x: u32)
    by (bit_vector)
    ensures
        (x as u64) as u32 == x,
        (x as u64) < 0x1_0000_0000,
{
}

proof fn lemma_be_u32_round_trip(n: u32)
    ensures
        be_u32(be_bytes_u32(n as nat)) == n,
{
    let b = be_bytes_u32(n as nat);
    assert(b[0] as nat == n / 0x100_0000 % 256);
    assert(b[1] as nat == n / 0x1_0000 % 256);
    assert(b[2] as nat == n / 0x100 % 256);
    assert(b[3] as nat == n % 256);
    assert((n / 0x100_0000 % 256) * 0x100_0000 + (n / 0x1_0000 % 256) * 0x1_0000 + (n / 0x100
        % 256) * 0x100 + n % 256 == n) by (bit_vector);
}

/// Byte strings written as frames read back as the same byte strings.
pub proof fn lemma_frames_round_trip(items: Seq<Seq<u8>>)
    requires
        frames_fit(items),
    ensures
        parse_frames(frames_of(items)) == Some(items),
    decreases items.len(),
{
    let s = frames_of(items);
    if items.len() == 0 {
        assert(items =~= Seq::<Seq<u8>>::empty());
    } else {
        let first = items[0];
        let rest = items.drop_first();
        assert(frames_fit(rest)) by {
            assert forall|i: int| 0 <= i < rest.len() implies #[trigger] rest[i].len() <= u32::MAX by {
                assert(rest[i] == items[i + 1]);
            }
        }
        lemma_frames_round_trip(rest);
        let n = first.len();
        assert(n <= u32::MAX);
        let head = be_bytes_u32(n);
        assert(s == head + first + frames_of(rest));
        lemma_be_u32_round_trip(n as u32);
        assert(s[0] == head[0] && s[1] == head[1] && s[2] == head[2] && s[3] == head[3]);
        assert(be_u32(s) == n);
        assert(s.subrange(4, 4 + n as int) =~= first);
        assert(s.subrange(4 + n as int, s.len() as int) =~= frames_of(rest));
        assert(seq![first] + rest =~= items);
    }
}

/// Frames followed by a frame cut short, anywhere inside it, do not parse: such a
/// buffer decodes to `Truncated`, never to part of its byte strings.
pub proof fn lemma_truncated_frame_rejected(items: Seq<Seq<u8>>, x: Seq<u8>, k: int)
    requires
        frames_fit(items),
        x.len() <= u32::MAX,
        0 < k < frame_of(x).len(),
    ensures
        parse_frames(frames_of(items) + frame_of(x).take(k)) is None,
    decreases items.len(),
{
    let tail = frame_of(x).take(k);
    let s = frames_of(items) + tail;
    if items.len() == 0 {
        assert(frames_of(items) =~= Seq::<u8>::empty());
        assert(s =~= tail);
        if k >= 4 {
            lemma_be_u32_round_trip(x.len() as u32);
            assert(be_u32(s) == be_u32(be_bytes_u32(x.len())));
        }
    } else {
        let first = items[0];
        let rest = items.drop_first();
        assert(frames_fit(rest)) by {
            assert forall|i: int| 0 <= i < rest.len() implies #[trigger] rest[i].len() <= u32::MAX by {
                assert(rest[i] == items[i + 1]);
            }
        }
        lemma_truncated_frame_rejected(rest, x, k);
        assert(first.len() <= u32::MAX);
        lemma_be_u32_round_trip(first.len() as u32);
        assert(be_u32(s) == be_u32(be_bytes_u32(first.len())));
        assert(s.subrange(4 + first.len() as int, s.len() as int) =~= frames_of(rest) + tail);
    }
}

/// Writing an array as a raw buffer and decoding that buffer with the array's own
/// element type and shape gives the array back, element for element.
pub proof fn lemma_raw_round_trip(v: ArrayValue)
    requires
        value_len(v) == shape_product(value_shape(v)),
        raw_encodable(v),
    ensures
        decode_ok(value_type(v), value_shape(v), raw_bytes_of(v)),
        decode_value(value_type(v), value_shape(v), raw_bytes_of(v)) == v,
{
    lemma_pow256_facts();
    let raw = raw_bytes_of(v);
    match v {
        ArrayValue::BOOL(shape, d) => {
            let ws = value_words(v);
            assert forall|i: int| 0 <= i < ws.len() implies (#[trigger] ws[i]) < pow256(1) && (ws[i]
                != 0) == d[i] by {}
            lemma_words_round_trip(ws, 1);
            assert(words(raw, 1).map_values(|x: u64| x != 0) =~= d);
        },
        ArrayValue::INT8(shape, d) => {
            let ws = value_words(v);
            assert forall|i: int| 0 <= i < ws.len() implies (#[trigger] ws[i]) < pow256(1) && ws[i] as i8 == d[i] by {
                lemma_i8_word(d[i]);
            }
            lemma_words_round_trip(ws, 1);
            assert(words(raw, 1).map_values(|x: u64| x as i8) =~= d);
        },
        ArrayValue::INT16(shape, d) => {
            let ws = value_words(v);
            assert forall|i: int| 0 <= i < ws.len() implies (#[trigger] ws[i]) < pow256(2) && ws[i] as i16 == d[i] by {
                lemma_i16_word(d[i]);
            }
            lemma_words_round_trip(ws, 2);
            assert(words(raw, 2).map_values(|x: u64| x as i16) =~= d);
        },
        ArrayValue::INT32(shape, d) => {
            let ws = value_words(v);
            assert forall|i: int| 0 <= i < ws.len() implies (#[trigger] ws[i]) < pow256(4) && ws[i] as i32 == d[i] by {
                lemma_i32_word(d[i]);
            }
            lemma_words_round_trip(ws, 4);
            assert(words(raw, 4).map_values(|x: u64| x as i32) =~= d);
        },
        ArrayValue::INT64(shape, d) => {
            let ws = value_words(v);
            assert forall|i: int| 0 <= i < ws.len() implies (#[trigger] ws[i]) < pow256(8) && ws[i] as i64 == d[i] by {
                lemma_i64_word(d[i]);
            }
            lemma_words_round_trip(ws, 8);
            assert(words(raw, 8).map_values(|x: u64| x as i64) =~= d);
        },
        ArrayValue::UINT8(shape, d) => {
            let ws = value_words(v);
            assert forall|i: int| 0 <= i < ws.len() implies (#[trigger] ws[i]) < pow256(1) && ws[i] as u8 == d[i] by {
                lemma_u8_word(d[i]);
            }
            lemma_words_round_trip(ws, 1);
            assert(words(raw, 1).map_values(|x: u64| x as u8) =~= d);
        },
        ArrayValue::UINT16(shape, d) => {
            let ws = value_words(v);
            assert forall|i: int| 0 <= i < ws.len() implies (#[trigger] ws[i]) < pow256(2) && ws[i] as u16 == d[i] by {
                lemma_u16_word(d[i]);
            }
            lemma_words_round_trip(ws, 2);
            assert(words(raw, 2).map_values(|x: u64| x as u16) =~= d);
        },
        ArrayValue::UINT32(shape, d) => {
            let ws = value_words(v);
            assert forall|i: int| 0 <= i < ws.len() implies (#[trigger] ws[i]) < pow256(4) && ws[i] as u32 == d[i] by {
                lemma_u32_word(d[i]);
            }
            lemma_words_round_trip(ws, 4);
            assert(words(raw, 4).map_values(|x: u64| x as u32) =~= d);
        },
        ArrayValue::UINT64(shape, d) => {
            let ws = value_words(v);
            assert forall|i: int| 0 <= i < ws.len() implies (#[trigger] ws[i]) < pow256(8) by {}
            lemma_words_round_trip(ws, 8);
        },
        ArrayValue::FP32(shape, d) => {
            let ws = value_words(v);
            assert forall|i: int| 0 <= i < ws.len() implies (#[trigger] ws[i]) < pow256(4) && ws[i] as u32 == d[i] by {
                lemma_u32_word(d[i]);
            }
            lemma_words_round_trip(ws, 4);
            assert(words(raw, 4).map_values(|x: u64| x as u32) =~= d);
        },
        ArrayValue::FP64(shape, d) => {
            let ws = value_words(v);
            assert forall|i: int| 0 <= i < ws.len() implies (#[trigger] ws[i]) < pow256(8) by {}
            lemma_words_round_trip(ws, 8);
        },
        ArrayValue::BYTES(shape, d) => {
            lemma_frames_round_trip(d);
        },
    }
}

/// A fixed-width buffer whose length is not a whole number of elements is
/// rejected as a shape mismatch, whatever the shape.
pub proof fn lemma_misaligned_buffer_rejected(t: TritonDataTypes, shape: Seq<usize>, raw: Seq<u8>)
    requires
        t != TritonDataTypes::BYTES,
        raw.len() % elem_width(t) != 0,
    ensures
        !decode_ok(t, shape, raw),
        decode_error(t, shape, raw) == Error::ShapeMismatch,
{
    lemma_product_nonnegative(shape);
    if raw.len() == shape_product(shape) * elem_width(t) {
        lemma_mod_multiples_basic(shape_product(shape), elem_width(t) as int);
    }
}

} // verus!
