//! Building inference requests.

use vstd::prelude::*;
use std::collections::HashMap;
use crate::tensor::{bytes_view, value_shape, ArrayOutputOneOf, ArrayValue};
use crate::types::{wire_tag, Bytes, TritonDataTypes};

verus! {

/// A request parameter's value. A `DoubleParam` holds the bit pattern of a 64-bit
/// float.
#[derive(Clone, Debug)]
pub enum InferParameter {
    BoolParam(bool),
    Int64Param(i64),
    StringParam(String),
    DoubleParam(u64),
    Uint64Param(u64),
}

/// Inline tensor contents of a request, one list per wire slot. Narrow integers
/// travel widened to 32 bits; 32- and 64-bit floats travel as bit patterns.
#[derive(Clone, Debug)]
pub struct InferTensorContents {
    pub bool_contents: Vec<bool>,
    pub int_contents: Vec<i32>,
    pub int64_contents: Vec<i64>,
    pub uint_contents: Vec<u32>,
    pub uint64_contents: Vec<u64>,
    pub fp32_contents: Vec<u32>,
    pub fp64_contents: Vec<u64>,
    pub bytes_contents: Vec<Bytes>,
}

/// The lists of an [`InferTensorContents`].
pub struct ContentsValue {
    pub bool_contents: Seq<bool>,
    pub int_contents: Seq<i32>,
    pub int64_contents: Seq<i64>,
    pub uint_contents: Seq<u32>,
    pub uint64_contents: Seq<u64>,
    pub fp32_contents: Seq<u32>,
    pub fp64_contents: Seq<u64>,
    pub bytes_contents: Seq<Seq<u8>>,
}

impl View for InferTensorContents {
    type V = ContentsValue;

    open spec fn view(&self) -> ContentsValue {
        ContentsValue {
            bool_contents: self.bool_contents@,
            int_contents: self.int_contents@,
            int64_contents: self.int64_contents@,
            uint_contents: self.uint_contents@,
            uint64_contents: self.uint64_contents@,
            fp32_contents: self.fp32_contents@,
            fp64_contents: self.fp64_contents@,
            bytes_contents: bytes_view(self.bytes_contents@),
        }
    }
}

/// Contents with every list empty.
pub open spec fn empty_contents() -> ContentsValue {
    ContentsValue {
        bool_contents: Seq::empty(),
        int_contents: Seq::empty(),
        int64_contents: Seq::empty(),
        uint_contents: Seq::empty(),
        uint64_contents: Seq::empty(),
        fp32_contents: Seq::empty(),
        fp64_contents: Seq::empty(),
        bytes_contents: Seq::empty(),
    }
}

/// The inline contents that carry an array: its elements in the wire slot of its
/// element type, every other slot empty.
pub open spec fn contents_of(v: ArrayValue) -> ContentsValue {
    match v {
        ArrayValue::BOOL(_, d) => ContentsValue { bool_contents: d, ..empty_contents() },
        ArrayValue::INT8(_, d) => ContentsValue {
            int_contents: d.map_values(|x: i8| x as i32),
            ..empty_contents()
        },
        ArrayValue::INT16(_, d) => ContentsValue {
            int_contents: d.map_values(|x: i16| x as i32),
            ..empty_contents()
        },
        ArrayValue::INT32(_, d) => ContentsValue { int_contents: d, ..empty_contents() },
        ArrayValue::INT64(_, d) => ContentsValue { int64_contents: d, ..empty_contents() },
        ArrayValue::UINT8(_, d) => ContentsValue {
            uint_contents: d.map_values(|x: u8| x as u32),
            ..empty_contents()
        },
        ArrayValue::UINT16(_, d) => ContentsValue {
            uint_contents: d.map_values(|x: u16| x as u32),
            ..empty_contents()
        },
        ArrayValue::UINT32(_, d) => ContentsValue { uint_contents: d, ..empty_contents() },
        ArrayValue::UINT64(_, d) => ContentsValue { uint64_contents: d, ..empty_contents() },
        ArrayValue::FP32(_, d) => ContentsValue { fp32_contents: d, ..empty_contents() },
        ArrayValue::FP64(_, d) => ContentsValue { fp64_contents: d, ..empty_contents() },
        ArrayValue::BYTES(_, d) => ContentsValue { bytes_contents: d, ..empty_contents() },
    }
}

fn new_contents() -> (r: InferTensorContents)
    ensures
        r@ == empty_contents(),
{
    let r = InferTensorContents {
        bool_contents: Vec::new(),
        int_contents: Vec::new(),
        int64_contents: Vec::new(),
        uint_contents: Vec::new(),
        uint64_contents: Vec::new(),
        fp32_contents: Vec::new(),
        fp64_contents: Vec::new(),
        bytes_contents: Vec::new(),
    };
    proof {
        assert(bytes_view(r.bytes_contents@) =~= Seq::<Seq<u8>>::empty());
    }
    r
}

fn widen_i8(d: &Vec<i8>) -> (r: Vec<i32>)
    ensures
        r@ == d@.map_values(|x: i8| x as i32),
{
    let mut out: Vec<i32> = Vec::with_capacity(d.len());
    let mut i: usize = 0;
    while i < d.len()
        invariant
            i <= d@.len(),
            out@ =~= d@.take(i as int).map_values(|x: i8| x as i32),
        decreases d.len() - i,
    {
        out.push(d[i] as i32);
        i = i + 1;
    }
    proof {
        assert(d@.take(i as int) =~= d@);
    }
    out
}

fn widen_i16(d: &Vec<i16>) -> (r: Vec<i32>)
    ensures
        r@ == d@.map_values(|x: i16| x as i32),
{
    let mut out: Vec<i32> = Vec::with_capacity(d.len());
    let mut i: usize = 0;
    while i < d.len()
        invariant
            i <= d@.len(),
            out@ =~= d@.take(i as int).map_values(|x: i16| x as i32),
        decreases d.len() - i,
    {
        out.push(d[i] as i32);
        i = i + 1;
    }
    proof {
        assert(d@.take(i as int) =~= d@);
    }
    out
}

fn widen_u8(d: &Vec<u8>) -> (r: Vec<u32>)
    ensures
        r@ == d@.map_values(|x: u8| x as u32),
{
    let mut out: Vec<u32> = Vec::with_capacity(d.len());
    let mut i: usize = 0;
    while i < d.len()
        invariant
            i <= d@.len(),
            out@ =~= d@.take(i as int).map_values(|x: u8| x as u32),
        decreases d.len() - i,
    {
        out.push(d[i] as u32);
        i = i + 1;
    }
    proof {
        assert(d@.take(i as int) =~= d@);
    }
    out
}

fn widen_u16(d: &Vec<u16>) -> (r: Vec<u32>)
    ensures
        r@ == d@.map_values(|x: u16| x as u32),
{
    let mut out: Vec<u32> = Vec::with_capacity(d.len());
    let mut i: usize = 0;
    while i < d.len()
        invariant
            i <= d@.len(),
            out@ =~= d@.take(i as int).map_values(|x: u16| x as u32),
        decreases d.len() - i,
    {
        out.push(d[i] as u32);
        i = i + 1;
    }
    proof {
        assert(d@.take(i as int) =~= d@);
    }
    out
}

fn copy_vec<T: Copy>(d: &Vec<T>) -> (r: Vec<T>)
    ensures
        r@ == d@,
{
    let mut out: Vec<T> = Vec::with_capacity(d.len());
    let mut i: usize = 0;
    while i < d.len()
        invariant
            i <= d@.len(),
            out@ =~= d@.take(i as int),
        decreases d.len() - i,
    {
        out.push(d[i]);
        i = i + 1;
    }
    proof {
        assert(d@.take(i as int) =~= d@);
    }
    out
}

fn copy_bytes(d: &Vec<Bytes>) -> (r: Vec<Bytes>)
    ensures
        bytes_view(r@) == bytes_view(d@),
{
    let mut out: Vec<Bytes> = Vec::with_capacity(d.len());
    let mut i: usize = 0;
    while i < d.len()
        invariant
            i <= d@.len(),
            bytes_view(out@) =~= bytes_view(d@.take(i as int)),
        decreases d.len() - i,
    {
        let ghost before = out@;
        let item = copy_vec(&d[i]);
        out.push(item);
        proof {
            assert(d@.take(i + 1) =~= d@.take(i as int).push(d@[i as int]));
            assert(out@ =~= before.push(item));
            assert(bytes_view(out@) =~= bytes_view(before).push(item@));
            assert(bytes_view(d@.take(i + 1)) =~= bytes_view(d@.take(i as int)).push(d@[i as int]@));
        }
        i = i + 1;
    }
    proof {
        assert(d@.take(i as int) =~= d@);
    }
    out
}

/// Packs an array into the inline contents of a request.
pub fn transform(array: &ArrayOutputOneOf) -> (r: InferTensorContents)
    ensures
        r@ == contents_of(array@),
{
    let mut c = new_contents();
    match array {
        ArrayOutputOneOf::BOOL(t) => {
            c.bool_contents = copy_vec(t.data());
        },
        ArrayOutputOneOf::INT8(t) => {
            c.int_contents = widen_i8(t.data());
        },
        ArrayOutputOneOf::INT16(t) => {
            c.int_contents = widen_i16(t.data());
        },
        ArrayOutputOneOf::INT32(t) => {
            c.int_contents = copy_vec(t.data());
        },
        ArrayOutputOneOf::INT64(t) => {
            c.int64_contents = copy_vec(t.data());
        },
        ArrayOutputOneOf::UINT8(t) => {
            c.uint_contents = widen_u8(t.data());
        },
        ArrayOutputOneOf::UINT16(t) => {
            c.uint_contents = widen_u16(t.data());
        },
        ArrayOutputOneOf::UINT32(t) => {
            c.uint_contents = copy_vec(t.data());
        },
        ArrayOutputOneOf::UINT64(t) => {
            c.uint64_contents = copy_vec(t.data());
        },
        ArrayOutputOneOf::FP32(t) => {
            c.fp32_contents = copy_vec(t.data());
        },
        ArrayOutputOneOf::FP64(t) => {
            c.fp64_contents = copy_vec(t.data());
        },
        ArrayOutputOneOf::BYTES(t) => {
            c.bytes_contents = copy_bytes(t.data());
        },
    }
    proof {
        assert(c@ =~= contents_of(array@)) by {
            assert(c@.bool_contents =~= contents_of(array@).bool_contents);
            assert(c@.bytes_contents =~= contents_of(array@).bytes_contents);
        }
    }
    c
}


/// What a request declares of one input tensor, with its inline contents if any.
#[derive(Clone, Debug)]
pub struct InferInputTensor {
    pub name: String,
    pub datatype: String,
    pub shape: Vec<i64>,
    pub parameters: HashMap<String, InferParameter>,
    pub contents: Option<InferTensorContents>,
}

/// An output that a request asks for by name.
#[derive(Clone, Debug)]
pub struct InferRequestedOutputTensor {
    pub name: String,
    pub parameters: HashMap<String, InferParameter>,
}

/// An inference request.
#[derive(Clone, Debug)]
pub struct ModelInferRequest {
    pub model_name: String,
    pub model_version: String,
    pub id: String,
    pub parameters: HashMap<String, InferParameter>,
    pub inputs: Vec<InferInputTensor>,
    pub outputs: Vec<InferRequestedOutputTensor>,
    pub raw_input_contents: Vec<Bytes>,
}

/// The digit `d` as a character.
pub open spec fn digit_char(d: nat) -> char {
    ('0' as nat + d) as char
}

/// The decimal digits of `n`, most significant first, with no leading zero.
pub open spec fn digits_of(n: nat) -> Seq<char>
    decreases n,
{
    if n < 10 {
        seq![digit_char(n)]
    } else {
        digits_of(n / 10).push(digit_char(n % 10))
    }
}

/// The decimal text of `v`, with a leading `-` where it is negative.
pub open spec fn decimal_of(v: int) -> Seq<char> {
    if v < 0 {
        seq!['-'] + digits_of((-v) as nat)
    } else {
        digits_of(v as nat)
    }
}

/// The one-character text of the digit `d`.
fn digit_str(d: u32) -> (r: &'static str)
    requires
        d < 10,
    ensures
        r@ == seq![digit_char(d as nat)],
{
    proof {
        reveal_strlit("0");
        reveal_strlit("1");
        reveal_strlit("2");
        reveal_strlit("3");
        reveal_strlit("4");
        reveal_strlit("5");
        reveal_strlit("6");
        reveal_strlit("7");
        reveal_strlit("8");
        reveal_strlit("9");
    }
    match d {
        0 => "0",
        1 => "1",
        2 => "2",
        3 => "3",
        4 => "4",
        5 => "5",
        6 => "6",
        7 => "7",
        8 => "8",
        _ => "9",
    }
}

/// The decimal digits of `n`.
fn digits_string(n: u32) -> (r: String)
    ensures
        r@ == digits_of(n as nat),
    decreases n,
{
    if n < 10 {
        String::from_str(digit_str(n))
    } else {
        digits_string(n / 10).concat(digit_str(n % 10))
    }
}

/// The decimal text of `v`, with a leading `-` where it is negative.
fn i32_to_string(v: i32) -> (r: String)
    ensures
        r@ == decimal_of(v as int),
{
    if v < 0 {
        let m = (0 - (v as i64)) as u32;
        proof {
            reveal_strlit("-");
        }
        String::from_str("-").concat(digits_string(m).as_str())
    } else {
        digits_string(v as u32)
    }
}

/// The declared shape of an array, each dimension as a signed count.
pub open spec fn signed_shape(s: Seq<usize>) -> Seq<i64> {
    s.map_values(|d: usize| d as i64)
}

fn shape_to_signed(s: &Vec<usize>) -> (r: Vec<i64>)
    ensures
        r@ == signed_shape(s@),
{
    let mut out: Vec<i64> = Vec::with_capacity(s.len());
    let mut i: usize = 0;
    while i < s.len()
        invariant
            i <= s@.len(),
            out@ =~= signed_shape(s@.take(i as int)),
        decreases s.len() - i,
    {
        out.push(s[i] as i64);
        i = i + 1;
    }
    proof {
        assert(s@.take(i as int) =~= s@);
    }
    out
}

/// Builds one input tensor of a request.
#[derive(Clone, Debug)]
pub struct InferInput {
    inner: InferInputTensor,
}

impl InferInput {
    /// The input tensor built so far.
    pub closed spec fn tensor(&self) -> InferInputTensor {
        self.inner
    }

    /// An input with no name, type, shape, parameters or contents.
    pub fn new() -> (r: Self)
        ensures
            r.tensor().name@.len() == 0,
            r.tensor().datatype@.len() == 0,
            r.tensor().shape@.len() == 0,
            r.tensor().parameters@.len() == 0,
            r.tensor().contents is None,
    {
        InferInput {
            inner: InferInputTensor {
                name: String::new(),
                datatype: String::new(),
                shape: Vec::new(),
                parameters: HashMap::new(),
                contents: None,
            },
        }
    }

    pub fn set_name(&mut self, name: String)
        ensures
            final(self).tensor() == (InferInputTensor { name, ..old(self).tensor() }),
    {
        self.inner.name = name;
    }

    pub fn name(self, name: String) -> (r: Self)
        ensures
            r.tensor() == (InferInputTensor { name, ..self.tensor() }),
    {
        let mut s = self;
        s.set_name(name);
        s
    }

    /// Declares the element type by its wire tag.
    pub fn set_datatype(&mut self, datatype: TritonDataTypes)
        ensures
            final(self).tensor().datatype@ == wire_tag(datatype),
            final(self).tensor() == (InferInputTensor {
                datatype: final(self).tensor().datatype,
                ..old(self).tensor()
            }),
    {
        self.inner.datatype = datatype.to_string();
    }

    pub fn datatype(self, datatype: TritonDataTypes) -> (r: Self)
        ensures
            r.tensor().datatype@ == wire_tag(datatype),
            r.tensor() == (InferInputTensor { datatype: r.tensor().datatype, ..self.tensor() }),
    {
        let mut s = self;
        s.set_datatype(datatype);
        s
    }

    pub fn set_parameters(&mut self, parameters: HashMap<String, InferParameter>)
        ensures
            final(self).tensor() == (InferInputTensor { parameters, ..old(self).tensor() }),
    {
        self.inner.parameters = parameters;
    }

    pub fn parameters(self, parameters: HashMap<String, InferParameter>) -> (r: Self)
        ensures
            r.tensor() == (InferInputTensor { parameters, ..self.tensor() }),
    {
        let mut s = self;
        s.set_parameters(parameters);
        s
    }

    /// Sets the shape and the inline contents from an array.
    pub fn set_data_from_ndarray(&mut self, array: ArrayOutputOneOf)
        ensures
            final(self).tensor().shape@ == signed_shape(value_shape(array@)),
            final(self).tensor().contents matches Some(c) && c@ == contents_of(array@),
            final(self).tensor() == (InferInputTensor {
                shape: final(self).tensor().shape,
                contents: final(self).tensor().contents,
                ..old(self).tensor()
            }),
    {
        self.inner.shape = shape_to_signed(array.shape());
        self.inner.contents = Some(transform(&array));
    }

    pub fn data_from_ndarray(self, array: ArrayOutputOneOf) -> (r: Self)
        ensures
            r.tensor().shape@ == signed_shape(value_shape(array@)),
            r.tensor().contents matches Some(c) && c@ == contents_of(array@),
            r.tensor() == (InferInputTensor {
                shape: r.tensor().shape,
                contents: r.tensor().contents,
                ..self.tensor()
            }),
    {
        let mut s = self;
        s.set_data_from_ndarray(array);
        s
    }

    /// Sets the shape; not needed after the contents were set from an array.
    pub fn set_shape(&mut self, shape: Vec<i64>)
        ensures
            final(self).tensor() == (InferInputTensor { shape, ..old(self).tensor() }),
    {
        self.inner.shape = shape;
    }

    /// Sets the shape; not needed after the contents were set from an array.
    pub fn shape(self, shape: Vec<i64>) -> (r: Self)
        ensures
            r.tensor() == (InferInputTensor { shape, ..self.tensor() }),
    {
        let mut s = self;
        s.set_shape(shape);
        s
    }

    /// The input tensor as it goes into a request.
    pub fn build(self) -> (r: InferInputTensor)
        ensures
            r == self.tensor(),
    {
        self.inner
    }
}

/// Builds an inference request.
#[derive(Clone, Debug)]
pub struct ModelInput {
    inner: ModelInferRequest,
}

impl ModelInput {
    /// The request built so far.
    pub closed spec fn request(&self) -> ModelInferRequest {
        self.inner
    }

    /// A request with every field empty.
    pub fn new() -> (r: Self)
        ensures
            r.request().model_name@.len() == 0,
            r.request().model_version@.len() == 0,
            r.request().id@.len() == 0,
            r.request().parameters@.len() == 0,
            r.request().inputs@.len() == 0,
            r.request().outputs@.len() == 0,
            r.request().raw_input_contents@.len() == 0,
    {
        ModelInput {
            inner: ModelInferRequest {
                model_name: String::new(),
                model_version: String::new(),
                id: String::new(),
                parameters: HashMap::new(),
                inputs: Vec::new(),
                outputs: Vec::new(),
                raw_input_contents: Vec::new(),
            },
        }
    }

    pub fn set_model_name(&mut self, model_name: String)
        ensures
            final(self).request() == (ModelInferRequest { model_name, ..old(self).request() }),
    {
        self.inner.model_name = model_name;
    }

    pub fn model_name(self, model_name: String) -> (r: Self)
        ensures
            r.request() == (ModelInferRequest { model_name, ..self.request() }),
    {
        let mut s = self;
        s.set_model_name(model_name);
        s
    }

    /// Appends one input.
    pub fn set_input(&mut self, input: InferInput)
        ensures
            final(self).request().inputs@ == old(self).request().inputs@.push(input.tensor()),
            final(self).request() == (ModelInferRequest {
                inputs: final(self).request().inputs,
                ..old(self).request()
            }),
    {
        self.inner.inputs.push(input.build());
    }

    /// Appends one input.
    pub fn input(self, input: InferInput) -> (r: Self)
        ensures
            r.request().inputs@ == self.request().inputs@.push(input.tensor()),
            r.request() == (ModelInferRequest { inputs: r.request().inputs, ..self.request() }),
    {
        let mut s = self;
        s.set_input(input);
        s
    }

    /// Replaces the inputs.
    pub fn set_inputs(&mut self, inputs: Vec<InferInput>)
        ensures
            final(self).request().inputs@ == inputs@.map_values(|i: InferInput| i.tensor()),
            final(self).request() == (ModelInferRequest {
                inputs: final(self).request().inputs,
                ..old(self).request()
            }),
    {
        let mut built: Vec<InferInputTensor> = Vec::with_capacity(inputs.len());
        let mut rest = inputs;
        let ghost all = rest@;
        let n = rest.len();
        let mut taken: usize = 0;
        while rest.len() > 0
            invariant
                taken + rest@.len() == all.len() == n,
                rest@ == all.skip(taken as int),
                built@ =~= all.take(taken as int).map_values(|i: InferInput| i.tensor()),
            decreases rest.len(),
        {
            let item = rest.remove(0);
            proof {
                assert(rest@ =~= all.skip(taken + 1));
            }
            built.push(item.build());
            taken = taken + 1;
        }
        proof {
            assert(all.take(taken as int) =~= all);
        }
        self.inner.inputs = built;
    }

    /// Replaces the inputs.
    pub fn inputs(self, inputs: Vec<InferInput>) -> (r: Self)
        ensures
            r.request().inputs@ == inputs@.map_values(|i: InferInput| i.tensor()),
            r.request() == (ModelInferRequest { inputs: r.request().inputs, ..self.request() }),
    {
        let mut s = self;
        s.set_inputs(inputs);
        s
    }

    pub fn set_id(&mut self, id: String)
        ensures
            final(self).request() == (ModelInferRequest { id, ..old(self).request() }),
    {
        self.inner.id = id;
    }

    pub fn id(self, id: String) -> (r: Self)
        ensures
            r.request() == (ModelInferRequest { id, ..self.request() }),
    {
        let mut s = self;
        s.set_id(id);
        s
    }

    /// Sets the model version, written in decimal.
    pub fn set_model_version(&mut self, model_version: i32)
        ensures
            final(self).request().model_version@ == decimal_of(model_version as int),
            final(self).request() == (ModelInferRequest {
                model_version: final(self).request().model_version,
                ..old(self).request()
            }),
    {
        self.inner.model_version = i32_to_string(model_version);
    }

    /// Sets the model version, written in decimal.
    pub fn model_version(self, model_version: i32) -> (r: Self)
        ensures
            r.request().model_version@ == decimal_of(model_version as int),
            r.request() == (ModelInferRequest {
                model_version: r.request().model_version,
                ..self.request()
            }),
    {
        let mut s = self;
        s.set_model_version(model_version);
        s
    }

    pub fn set_parameters(&mut self, parameters: HashMap<String, InferParameter>)
        ensures
            final(self).request() == (ModelInferRequest { parameters, ..old(self).request() }),
    {
        self.inner.parameters = parameters;
    }

    pub fn parameters(self, parameters: HashMap<String, InferParameter>) -> (r: Self)
        ensures
            r.request() == (ModelInferRequest { parameters, ..self.request() }),
    {
        let mut s = self;
        s.set_parameters(parameters);
        s
    }

    pub fn set_outputs(&mut self, outputs: Vec<InferRequestedOutputTensor>)
        ensures
            final(self).request() == (ModelInferRequest { outputs, ..old(self).request() }),
    {
        self.inner.outputs = outputs;
    }

    pub fn outputs(self, outputs: Vec<InferRequestedOutputTensor>) -> (r: Self)
        ensures
            r.request() == (ModelInferRequest { outputs, ..self.request() }),
    {
        let mut s = self;
        s.set_outputs(outputs);
        s
    }

    pub fn set_raw_input_contents(&mut self, raw_input_contents: Vec<Bytes>)
        ensures
            final(self).request() == (ModelInferRequest {
                raw_input_contents,
                ..old(self).request()
            }),
    {
        self.inner.raw_input_contents = raw_input_contents;
    }

    pub fn raw_input_contents(self, raw_input_contents: Vec<Bytes>) -> (r: Self)
        ensures
            r.request() == (ModelInferRequest { raw_input_contents, ..self.request() }),
    {
        let mut s = self;
        s.set_raw_input_contents(raw_input_contents);
        s
    }

    /// The request as it goes to the server.
    pub fn build(self) -> (r: ModelInferRequest)
        ensures
            r == self.request(),
    {
        self.inner
    }
}

} // verus!
