//! N-dimensional arrays and their mathematical values.

use vstd::prelude::*;
use vstd::arithmetic::mul::lemma_mul_nonnegative;
use crate::error::Error;
use crate::types::{Bytes, TritonDataTypes};

verus! {

/// The number of elements of an array with the given dimensions (1 for a scalar).
pub open spec fn shape_product(s: Seq<usize>) -> int
    decreases s.len(),
{
    if s.len() == 0 {
        1
    } else {
        shape_product(s.drop_last()) * s.last()
    }
}

pub proof fn lemma_product_nonnegative(s: Seq<usize>)
    ensures
        shape_product(s) >= 0,
    decreases s.len(),
{
    if s.len() > 0 {
        lemma_product_nonnegative(s.drop_last());
        lemma_mul_nonnegative(shape_product(s.drop_last()), s.last() as int);
    }
}

/// A dimension of zero makes the array empty.
pub proof fn lemma_product_zero(s: Seq<usize>, k: int)
    requires
        0 <= k < s.len(),
        s[k] == 0,
    ensures
        shape_product(s) == 0,
    decreases s.len(),
{
    let p = shape_product(s.drop_last());
    if k < s.len() - 1 {
        assert(s.drop_last()[k] == s[k]);
        lemma_product_zero(s.drop_last(), k);
        assert(p * s.last() == 0) by (nonlinear_arith)
            requires
                p == 0,
        ;
    } else {
        assert(p * s.last() == 0) by (nonlinear_arith)
            requires
                s.last() == 0,
        ;
    }
}

/// With no zero dimension, a prefix never has more elements than the whole.
pub proof fn lemma_product_prefix(s: Seq<usize>, i: int)
    requires
        0 <= i <= s.len(),
        forall|k: int| 0 <= k < s.len() ==> s[k] >= 1,
    ensures
        shape_product(s.take(i)) <= shape_product(s),
    decreases s.len(),
{
    if i < s.len() {
        lemma_product_prefix(s.drop_last(), i);
        assert(s.drop_last().take(i) =~= s.take(i));
        lemma_product_nonnegative(s.drop_last());
        let p = shape_product(s.drop_last());
        let l = s.last() as int;
        assert(s.last() == s[s.len() - 1]);
        assert(p <= p * l) by (nonlinear_arith)
            requires
                p >= 0,
                l >= 1,
        ;
    } else {
        assert(s.take(i) =~= s);
    }
}

/// The element count of `shape`, or `None` where it exceeds `usize`.
pub fn element_count(shape: &Vec<usize>) -> (r: Option<usize>)
    ensures
        r == (if shape_product(shape@) <= usize::MAX {
            Some(shape_product(shape@) as usize)
        } else {
            None
        }),
{
    proof {
        lemma_product_nonnegative(shape@);
    }
    let mut z: usize = 0;
    while z < shape.len()
        invariant
            z <= shape.len(),
            forall|k: int| 0 <= k < z ==> shape@[k] >= 1,
        decreases shape.len() - z,
    {
        if shape[z] == 0 {
            proof {
                lemma_product_zero(shape@, z as int);
            }
            return Some(0);
        }
        z = z + 1;
    }
    let mut acc: usize = 1;
    let mut i: usize = 0;
    while i < shape.len()
        invariant
            i <= shape.len(),
            forall|k: int| 0 <= k < shape@.len() ==> shape@[k] >= 1,
            acc as int == shape_product(shape@.take(i as int)),
        decreases shape.len() - i,
    {
        proof {
            assert(shape@.take(i as int + 1).drop_last() =~= shape@.take(i as int));
        }
        match acc.checked_mul(shape[i]) {
            Some(p) => {
                acc = p;
            },
            None => {
                proof {
                    lemma_product_prefix(shape@, i as int + 1);
                }
                return None;
            },
        }
        i = i + 1;
    }
    proof {
        assert(shape@.take(i as int) =~= shape@);
    }
    Some(acc)
}

/// An n-dimensional array: its dimensions and its elements in row-major order.
pub struct Tensor<T> {
    shape: Vec<usize>,
    data: Vec<T>,
}

impl<T> View for Tensor<T> {
    type V = (Seq<usize>, Seq<T>);

    closed spec fn view(&self) -> (Seq<usize>, Seq<T>) {
        (self.shape@, self.data@)
    }
}

impl<T> Tensor<T> {
    #[verifier::type_invariant]
    spec fn inv(&self) -> bool {
        self.data@.len() == shape_product(self.shape@)
    }

    /// The number of elements, which is always what the shape calls for.
    pub fn len(&self) -> (r: usize)
        ensures
            r == self@.1.len(),
            self@.1.len() == shape_product(self@.0),
    {
        proof {
            use_type_invariant(self);
        }
        self.data.len()
    }

    /// Builds a tensor; fails where `data` does not hold exactly the elements that
    /// `shape` calls for.
    pub fn from_shape_vec(shape: Vec<usize>, data: Vec<T>) -> (r: Result<Tensor<T>, Error>)
        ensures
            (r is Ok) <==> (data@.len() == shape_product(shape@)),
            r matches Ok(t) ==> t@ == (shape@, data@),
            r matches Err(e) ==> e == Error::ShapeMismatch,
    {
        proof {
            lemma_product_nonnegative(shape@);
        }
        let len = data.len();
        match element_count(&shape) {
            Some(n) => {
                if n == len {
                    Ok(Tensor { shape, data })
                } else {
                    Err(Error::ShapeMismatch)
                }
            },
            None => Err(Error::ShapeMismatch),
        }
    }

    pub fn shape(&self) -> (r: &Vec<usize>)
        ensures
            r@ == self@.0,
    {
        &self.shape
    }

    pub fn data(&self) -> (r: &Vec<T>)
        ensures
            r@ == self@.1,
    {
        &self.data
    }

    /// Hands out the dimensions and the elements.
    pub fn into_parts(self) -> (r: (Vec<usize>, Vec<T>))
        ensures
            (r.0@, r.1@) == self@,
    {
        (self.shape, self.data)
    }
}

/// A decoded array, one variant per element type. Floating-point elements are
/// held as their IEEE-754 bit patterns.
#[allow(non_camel_case_types)]
pub enum ArrayOutputOneOf {
    BOOL(Tensor<bool>),
    INT8(Tensor<i8>),
    INT16(Tensor<i16>),
    INT32(Tensor<i32>),
    INT64(Tensor<i64>),
    UINT8(Tensor<u8>),
    UINT16(Tensor<u16>),
    UINT32(Tensor<u32>),
    UINT64(Tensor<u64>),
    FP32(Tensor<u32>),
    FP64(Tensor<u64>),
    BYTES(Tensor<Bytes>),
}

/// The mathematical value of an [`ArrayOutputOneOf`]: dimensions and elements.
#[allow(non_camel_case_types)]
pub enum ArrayValue {
    BOOL(Seq<usize>, Seq<bool>),
    INT8(Seq<usize>, Seq<i8>),
    INT16(Seq<usize>, Seq<i16>),
    INT32(Seq<usize>, Seq<i32>),
    INT64(Seq<usize>, Seq<i64>),
    UINT8(Seq<usize>, Seq<u8>),
    UINT16(Seq<usize>, Seq<u16>),
    UINT32(Seq<usize>, Seq<u32>),
    UINT64(Seq<usize>, Seq<u64>),
    FP32(Seq<usize>, Seq<u32>),
    FP64(Seq<usize>, Seq<u64>),
    BYTES(Seq<usize>, Seq<Seq<u8>>),
}

/// The byte strings held by a vector of byte vectors.
pub open spec fn bytes_view(v: Seq<Bytes>) -> Seq<Seq<u8>> {
    v.map_values(|b: Bytes| b@)
}

impl View for ArrayOutputOneOf {
    type V = ArrayValue;

    open spec fn view(&self) -> ArrayValue {
        match self {
            ArrayOutputOneOf::BOOL(t) => ArrayValue::BOOL(t@.0, t@.1),
            ArrayOutputOneOf::INT8(t) => ArrayValue::INT8(t@.0, t@.1),
            ArrayOutputOneOf::INT16(t) => ArrayValue::INT16(t@.0, t@.1),
            ArrayOutputOneOf::INT32(t) => ArrayValue::INT32(t@.0, t@.1),
            ArrayOutputOneOf::INT64(t) => ArrayValue::INT64(t@.0, t@.1),
            ArrayOutputOneOf::UINT8(t) => ArrayValue::UINT8(t@.0, t@.1),
            ArrayOutputOneOf::UINT16(t) => ArrayValue::UINT16(t@.0, t@.1),
            ArrayOutputOneOf::UINT32(t) => ArrayValue::UINT32(t@.0, t@.1),
            ArrayOutputOneOf::UINT64(t) => ArrayValue::UINT64(t@.0, t@.1),
            ArrayOutputOneOf::FP32(t) => ArrayValue::FP32(t@.0, t@.1),
            ArrayOutputOneOf::FP64(t) => ArrayValue::FP64(t@.0, t@.1),
            ArrayOutputOneOf::BYTES(t) => ArrayValue::BYTES(t@.0, bytes_view(t@.1)),
        }
    }
}

/// The element type of an array value.
pub open spec fn value_type(v: ArrayValue) -> TritonDataTypes {
    match v {
        ArrayValue::BOOL(..) => TritonDataTypes::BOOL,
        ArrayValue::INT8(..) => TritonDataTypes::INT8,
        ArrayValue::INT16(..) => TritonDataTypes::INT16,
        ArrayValue::INT32(..) => TritonDataTypes::INT32,
        ArrayValue::INT64(..) => TritonDataTypes::INT64,
        ArrayValue::UINT8(..) => TritonDataTypes::UINT8,
        ArrayValue::UINT16(..) => TritonDataTypes::UINT16,
        ArrayValue::UINT32(..) => TritonDataTypes::UINT32,
        ArrayValue::UINT64(..) => TritonDataTypes::UINT64,
        ArrayValue::FP32(..) => TritonDataTypes::FP32,
        ArrayValue::FP64(..) => TritonDataTypes::FP64,
        ArrayValue::BYTES(..) => TritonDataTypes::BYTES,
    }
}

/// The dimensions of an array value.
pub open spec fn value_shape(v: ArrayValue) -> Seq<usize> {
    match v {
        ArrayValue::BOOL(s, _) => s,
        ArrayValue::INT8(s, _) => s,
        ArrayValue::INT16(s, _) => s,
        ArrayValue::INT32(s, _) => s,
        ArrayValue::INT64(s, _) => s,
        ArrayValue::UINT8(s, _) => s,
        ArrayValue::UINT16(s, _) => s,
        ArrayValue::UINT32(s, _) => s,
        ArrayValue::UINT64(s, _) => s,
        ArrayValue::FP32(s, _) => s,
        ArrayValue::FP64(s, _) => s,
        ArrayValue::BYTES(s, _) => s,
    }
}

/// The number of elements of an array value.
pub open spec fn value_len(v: ArrayValue) -> int {
    match v {
        ArrayValue::BOOL(_, d) => d.len() as int,
        ArrayValue::INT8(_, d) => d.len() as int,
        ArrayValue::INT16(_, d) => d.len() as int,
        ArrayValue::INT32(_, d) => d.len() as int,
        ArrayValue::INT64(_, d) => d.len() as int,
        ArrayValue::UINT8(_, d) => d.len() as int,
        ArrayValue::UINT16(_, d) => d.len() as int,
        ArrayValue::UINT32(_, d) => d.len() as int,
        ArrayValue::UINT64(_, d) => d.len() as int,
        ArrayValue::FP32(_, d) => d.len() as int,
        ArrayValue::FP64(_, d) => d.len() as int,
        ArrayValue::BYTES(_, d) => d.len() as int,
    }
}

impl ArrayOutputOneOf {
    /// The element type of this array.
    pub fn datatype(&self) -> (r: TritonDataTypes)
        ensures
            r == value_type(self@),
    {
        match self {
            ArrayOutputOneOf::BOOL(_) => TritonDataTypes::BOOL,
            ArrayOutputOneOf::INT8(_) => TritonDataTypes::INT8,
            ArrayOutputOneOf::INT16(_) => TritonDataTypes::INT16,
            ArrayOutputOneOf::INT32(_) => TritonDataTypes::INT32,
            ArrayOutputOneOf::INT64(_) => TritonDataTypes::INT64,
            ArrayOutputOneOf::UINT8(_) => TritonDataTypes::UINT8,
            ArrayOutputOneOf::UINT16(_) => TritonDataTypes::UINT16,
            ArrayOutputOneOf::UINT32(_) => TritonDataTypes::UINT32,
            ArrayOutputOneOf::UINT64(_) => TritonDataTypes::UINT64,
            ArrayOutputOneOf::FP32(_) => TritonDataTypes::FP32,
            ArrayOutputOneOf::FP64(_) => TritonDataTypes::FP64,
            ArrayOutputOneOf::BYTES(_) => TritonDataTypes::BYTES,
        }
    }

    /// The dimensions of this array.
    pub fn shape(&self) -> (r: &Vec<usize>)
        ensures
            r@ == value_shape(self@),
    {
        match self {
            ArrayOutputOneOf::BOOL(t) => t.shape(),
            ArrayOutputOneOf::INT8(t) => t.shape(),
            ArrayOutputOneOf::INT16(t) => t.shape(),
            ArrayOutputOneOf::INT32(t) => t.shape(),
            ArrayOutputOneOf::INT64(t) => t.shape(),
            ArrayOutputOneOf::UINT8(t) => t.shape(),
            ArrayOutputOneOf::UINT16(t) => t.shape(),
            ArrayOutputOneOf::UINT32(t) => t.shape(),
            ArrayOutputOneOf::UINT64(t) => t.shape(),
            ArrayOutputOneOf::FP32(t) => t.shape(),
            ArrayOutputOneOf::FP64(t) => t.shape(),
            ArrayOutputOneOf::BYTES(t) => t.shape(),
        }
    }

    /// The number of elements, which is always what the shape calls for.
    pub fn len(&self) -> (r: usize)
        ensures
            r == value_len(self@),
            value_len(self@) == shape_product(value_shape(self@)),
    {
        match self {
            ArrayOutputOneOf::BOOL(t) => t.len(),
            ArrayOutputOneOf::INT8(t) => t.len(),
            ArrayOutputOneOf::INT16(t) => t.len(),
            ArrayOutputOneOf::INT32(t) => t.len(),
            ArrayOutputOneOf::INT64(t) => t.len(),
            ArrayOutputOneOf::UINT8(t) => t.len(),
            ArrayOutputOneOf::UINT16(t) => t.len(),
            ArrayOutputOneOf::UINT32(t) => t.len(),
            ArrayOutputOneOf::UINT64(t) => t.len(),
            ArrayOutputOneOf::FP32(t) => t.len(),
            ArrayOutputOneOf::FP64(t) => t.len(),
            ArrayOutputOneOf::BYTES(t) => t.len(),
        }
    }
}

} // verus!
