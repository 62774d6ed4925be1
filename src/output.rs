//! Decoding the outputs of an inference response.

use vstd::prelude::*;
use crate::codec::{
    decode_error, decode_ok, decode_tensor, decode_value, elem_width, lemma_misaligned_buffer_rejected,
    lemma_raw_round_trip, raw_bytes_of, raw_encodable,
};
use crate::input::signed_shape;
use crate::error::Error;
use crate::tensor::{
    bytes_view, shape_product, value_len, value_shape, value_type, ArrayOutputOneOf, ArrayValue,
};
use crate::types::{lemma_tag_round_trip, str_eq, type_of_tag, wire_tag, Bytes, TritonDataTypes};

verus! {

/// What a response declares of one output tensor.
#[derive(Clone, Debug)]
pub struct InferOutputTensor {
    pub name: String,
    pub datatype: String,
    pub shape: Vec<i64>,
}

/// A response to an inference request: output descriptors and, position by
/// position, their raw buffers.
#[derive(Clone, Debug)]
pub struct ModelInferResponse {
    pub model_name: String,
    pub model_version: String,
    pub id: String,
    pub outputs: Vec<InferOutputTensor>,
    pub raw_output_contents: Vec<Bytes>,
}

/// A declared shape as element counts.
pub open spec fn dims(shape: Seq<i64>) -> Seq<usize> {
    shape.map_values(|d: i64| d as usize)
}

/// The array one descriptor and its buffer decode to, or the first thing wrong
/// with them: the tag, then the shape, then the buffer.
pub open spec fn decode_output(desc: InferOutputTensor, raw: Seq<u8>) -> Result<ArrayValue, Error> {
    match type_of_tag(desc.datatype@) {
        None => Err(Error::UnknownType(desc.datatype)),
        Some(t) => if exists|k: int| 0 <= k < desc.shape@.len() && #[trigger] desc.shape@[k] < 0 {
            Err(Error::NegativeDimension)
        } else if exists|k: int|
            0 <= k < desc.shape@.len() && #[trigger] desc.shape@[k] > usize::MAX {
            Err(Error::ShapeMismatch)
        } else if decode_ok(t, dims(desc.shape@), raw) {
            Ok(decode_value(t, dims(desc.shape@), raw))
        } else {
            Err(decode_error(t, dims(desc.shape@), raw))
        },
    }
}

/// The outputs of a response by name, later names overwriting earlier ones, or
/// the first failure in order.
pub open spec fn build_outputs(descs: Seq<InferOutputTensor>, raws: Seq<Seq<u8>>) -> Result<
    Map<Seq<char>, ArrayValue>,
    Error,
>
    decreases descs.len(),
{
    if descs.len() != raws.len() {
        Err(Error::CountMismatch)
    } else if descs.len() == 0 {
        Ok(Map::empty())
    } else {
        match build_outputs(descs.drop_last(), raws.drop_last()) {
            Err(e) => Err(e),
            Ok(m) => match decode_output(descs.last(), raws.last()) {
                Err(e) => Err(e),
                Ok(v) => Ok(m.insert(descs.last().name@, v)),
            },
        }
    }
}

/// Entries keyed by name, a later entry overwriting an earlier one.
pub open spec fn to_map(s: Seq<(Seq<char>, ArrayValue)>) -> Map<Seq<char>, ArrayValue>
    decreases s.len(),
{
    if s.len() == 0 {
        Map::empty()
    } else {
        to_map(s.drop_last()).insert(s.last().0, s.last().1)
    }
}

pub open spec fn names_unique(s: Seq<(Seq<char>, ArrayValue)>) -> bool {
    forall|i: int, j: int| 0 <= i < j < s.len() ==> s[i].0 != s[j].0
}

pub open spec fn entries_view(s: Seq<(String, ArrayOutputOneOf)>) -> Seq<(Seq<char>, ArrayValue)> {
    s.map_values(|e: (String, ArrayOutputOneOf)| (e.0@, e.1@))
}

proof fn lemma_to_map_absent(s: Seq<(Seq<char>, ArrayValue)>, k: Seq<char>)
    requires
        forall|i: int| 0 <= i < s.len() ==> s[i].0 != k,
    ensures
        !to_map(s).contains_key(k),
    decreases s.len(),
{
    if s.len() > 0 {
        lemma_to_map_absent(s.drop_last(), k);
    }
}

proof fn lemma_to_map_index(s: Seq<(Seq<char>, ArrayValue)>, i: int)
    requires
        names_unique(s),
        0 <= i < s.len(),
    ensures
        to_map(s).contains_key(s[i].0),
        to_map(s)[s[i].0] == s[i].1,
    decreases s.len(),
{
    if i < s.len() - 1 {
        lemma_to_map_index(s.drop_last(), i);
    }
}

proof fn lemma_to_map_remove(s: Seq<(Seq<char>, ArrayValue)>, i: int)
    requires
        names_unique(s),
        0 <= i < s.len(),
    ensures
        to_map(s.remove(i)) == to_map(s).remove(s[i].0),
        names_unique(s.remove(i)),
    decreases s.len(),
{
    let k = s[i].0;
    if i == s.len() - 1 {
        assert(s.remove(i) =~= s.drop_last());
        lemma_to_map_absent(s.drop_last(), k);
        assert(to_map(s.drop_last()) =~= to_map(s).remove(k));
    } else {
        let t = s.drop_last();
        lemma_to_map_remove(t, i);
        assert(s.remove(i) =~= t.remove(i).push(s.last()));
        assert(s.remove(i).drop_last() =~= t.remove(i));
        assert(to_map(s.remove(i)) =~= to_map(s).remove(k));
    }
}

/// Once a prefix of a response fails, the whole response fails the same way.
proof fn lemma_build_prefix_error(
    descs: Seq<InferOutputTensor>,
    raws: Seq<Seq<u8>>,
    n: int,
    e: Error,
)
    requires
        descs.len() == raws.len(),
        0 <= n <= descs.len(),
        build_outputs(descs.take(n), raws.take(n)) == Err::<Map<Seq<char>, ArrayValue>, Error>(e),
    ensures
        build_outputs(descs, raws) == Err::<Map<Seq<char>, ArrayValue>, Error>(e),
    decreases descs.len() - n,
{
    if n == descs.len() {
        assert(descs.take(n) =~= descs);
        assert(raws.take(n) =~= raws);
    } else {
        assert(descs.take(n + 1).drop_last() =~= descs.take(n));
        assert(raws.take(n + 1).drop_last() =~= raws.take(n));
        lemma_build_prefix_error(descs, raws, n + 1, e);
    }
}

/// The position of the entry named `name`.
fn find_entry(entries: &Vec<(String, ArrayOutputOneOf)>, name: &str) -> (r: Option<usize>)
    ensures
        r matches Some(i) ==> i < entries@.len() && entries@[i as int].0@ == name@,
        r is None ==> forall|i: int| 0 <= i < entries@.len() ==> entries@[i].0@ != name@,
{
    let mut i: usize = 0;
    while i < entries.len()
        invariant
            i <= entries@.len(),
            forall|k: int| 0 <= k < i ==> entries@[k].0@ != name@,
        decreases entries.len() - i,
    {
        if str_eq(entries[i].0.as_str(), name) {
            return Some(i);
        }
        i = i + 1;
    }
    None
}

/// A response with one output that carries an array written as its raw buffer,
/// under the array's own tag and shape, decodes to exactly that array.
pub proof fn lemma_output_round_trip(desc: InferOutputTensor, v: ArrayValue)
    requires
        value_len(v) == shape_product(value_shape(v)),
        raw_encodable(v),
        desc.datatype@ == wire_tag(value_type(v)),
        forall|k: int| 0 <= k < value_shape(v).len() ==> #[trigger] value_shape(v)[k] <= i64::MAX,
        desc.shape@ == signed_shape(value_shape(v)),
    ensures
        build_outputs(seq![desc], seq![raw_bytes_of(v)]) == Ok::<Map<Seq<char>, ArrayValue>, Error>(
            Map::<Seq<char>, ArrayValue>::empty().insert(desc.name@, v),
        ),
{
    let t = value_type(v);
    lemma_tag_round_trip(t);
    let shape = value_shape(v);
    assert forall|k: int| 0 <= k < desc.shape@.len() implies 0 <= #[trigger] desc.shape@[k]
        <= usize::MAX && desc.shape@[k] as usize == shape[k] by {
        assert(desc.shape@[k] == shape[k] as i64);
    }
    assert(dims(desc.shape@) =~= shape);
    lemma_raw_round_trip(v);
    assert(seq![desc].drop_last() =~= Seq::<InferOutputTensor>::empty());
    assert(seq![raw_bytes_of(v)].drop_last() =~= Seq::<Seq<u8>>::empty());
    assert(seq![desc].last() == desc);
    assert(seq![raw_bytes_of(v)].last() == raw_bytes_of(v));
    assert(build_outputs(Seq::<InferOutputTensor>::empty(), Seq::<Seq<u8>>::empty()) == Ok::<
        Map<Seq<char>, ArrayValue>,
        Error,
    >(Map::<Seq<char>, ArrayValue>::empty()));
    assert(!(exists|k: int| 0 <= k < desc.shape@.len() && #[trigger] desc.shape@[k] < 0));
    assert(!(exists|k: int| 0 <= k < desc.shape@.len() && #[trigger] desc.shape@[k] > usize::MAX));
    assert(decode_output(desc, raw_bytes_of(v)) == Ok::<ArrayValue, Error>(v));
}

/// A response with one fixed-width output whose declared shape is sound but whose
/// buffer is not a whole number of elements fails with a shape mismatch.
pub proof fn lemma_output_misaligned(desc: InferOutputTensor, raw: Seq<u8>, t: TritonDataTypes)
    requires
        type_of_tag(desc.datatype@) == Some(t),
        t != TritonDataTypes::BYTES,
        forall|k: int| 0 <= k < desc.shape@.len() ==> 0 <= #[trigger] desc.shape@[k] <= usize::MAX,
        raw.len() % elem_width(t) != 0,
    ensures
        build_outputs(seq![desc], seq![raw]) == Err::<Map<Seq<char>, ArrayValue>, Error>(
            Error::ShapeMismatch,
        ),
{
    lemma_misaligned_buffer_rejected(t, dims(desc.shape@), raw);
    assert(seq![desc].drop_last() =~= Seq::<InferOutputTensor>::empty());
    assert(seq![raw].drop_last() =~= Seq::<Seq<u8>>::empty());
    assert(seq![desc].last() == desc);
    assert(seq![raw].last() == raw);
    assert(build_outputs(Seq::<InferOutputTensor>::empty(), Seq::<Seq<u8>>::empty()) == Ok::<
        Map<Seq<char>, ArrayValue>,
        Error,
    >(Map::<Seq<char>, ArrayValue>::empty()));
    assert(!(exists|k: int| 0 <= k < desc.shape@.len() && #[trigger] desc.shape@[k] < 0));
    assert(!(exists|k: int| 0 <= k < desc.shape@.len() && #[trigger] desc.shape@[k] > usize::MAX));
    assert(decode_output(desc, raw) == Err::<ArrayValue, Error>(Error::ShapeMismatch));
}

/// The decoded outputs of one response, by name.
pub struct ModelOutput {
    inner: Vec<(String, ArrayOutputOneOf)>,
}

impl View for ModelOutput {
    type V = Map<Seq<char>, ArrayValue>;

    closed spec fn view(&self) -> Map<Seq<char>, ArrayValue> {
        to_map(entries_view(self.inner@))
    }
}

/// Reads a declared shape as element counts; the error says what is wrong with it.
fn shape_to_dims(shape: &Vec<i64>) -> (r: Result<Vec<usize>, Error>)
    ensures
        r matches Ok(v) ==> v@ == dims(shape@) && !(exists|k: int|
            0 <= k < shape@.len() && #[trigger] shape@[k] < 0) && !(exists|k: int|
            0 <= k < shape@.len() && #[trigger] shape@[k] > usize::MAX),
        r matches Err(e) ==> ((exists|k: int| 0 <= k < shape@.len() && #[trigger] shape@[k] < 0)
            && e == Error::NegativeDimension) || (!(exists|k: int|
            0 <= k < shape@.len() && #[trigger] shape@[k] < 0) && (exists|k: int|
            0 <= k < shape@.len() && #[trigger] shape@[k] > usize::MAX) && e
            == Error::ShapeMismatch),
{
    let mut i: usize = 0;
    while i < shape.len()
        invariant
            i <= shape@.len(),
            forall|k: int| 0 <= k < i ==> shape@[k] >= 0,
        decreases shape.len() - i,
    {
        if shape[i] < 0 {
            return Err(Error::NegativeDimension);
        }
        i = i + 1;
    }
    let mut out: Vec<usize> = Vec::with_capacity(shape.len());
    let mut j: usize = 0;
    while j < shape.len()
        invariant
            j <= shape@.len(),
            forall|k: int| 0 <= k < shape@.len() ==> shape@[k] >= 0,
            forall|k: int| 0 <= k < j ==> shape@[k] <= usize::MAX,
            out@ =~= dims(shape@.take(j as int)),
        decreases shape.len() - j,
    {
        let d = shape[j];
        if d as u64 > usize::MAX as u64 {
            return Err(Error::ShapeMismatch);
        }
        out.push(d as usize);
        j = j + 1;
    }
    proof {
        assert(shape@.take(j as int) =~= shape@);
    }
    Ok(out)
}

/// Decodes one descriptor and its buffer.
fn decode_one(desc: &InferOutputTensor, raw: &Vec<u8>) -> (r: Result<ArrayOutputOneOf, Error>)
    ensures
        r matches Ok(a) ==> decode_output(*desc, raw@) == Ok::<ArrayValue, Error>(a@),
        r matches Err(e) ==> decode_output(*desc, raw@) == Err::<ArrayValue, Error>(e),
{
    let t = match TritonDataTypes::from_name(desc.datatype.as_str()) {
        Some(t) => t,
        None => return Err(Error::UnknownType(desc.datatype.clone())),
    };
    let shape = match shape_to_dims(&desc.shape) {
        Ok(v) => v,
        Err(e) => return Err(e),
    };
    decode_tensor(t, shape, raw)
}

impl ModelOutput {
    #[verifier::type_invariant]
    spec fn inv(&self) -> bool {
        names_unique(entries_view(self.inner@))
    }

    /// Pairs each output descriptor with the raw buffer at the same position and
    /// decodes it. All or nothing: the first failure is returned.
    pub fn new(response: ModelInferResponse) -> (r: Result<ModelOutput, Error>)
        ensures
            r matches Ok(o) ==> build_outputs(response.outputs@, bytes_view(
                response.raw_output_contents@,
            )) == Ok::<Map<Seq<char>, ArrayValue>, Error>(o@),
            r matches Err(e) ==> build_outputs(response.outputs@, bytes_view(
                response.raw_output_contents@,
            )) == Err::<Map<Seq<char>, ArrayValue>, Error>(e),
    {
        let descs = &response.outputs;
        let raws = &response.raw_output_contents;
        let ghost rv = bytes_view(raws@);
        if descs.len() != raws.len() {
            return Err(Error::CountMismatch);
        }
        let mut entries: Vec<(String, ArrayOutputOneOf)> = Vec::new();
        let mut i: usize = 0;
        proof {
            assert(descs@.take(0) =~= Seq::<InferOutputTensor>::empty());
            assert(rv.take(0) =~= Seq::<Seq<u8>>::empty());
            assert(to_map(entries_view(entries@)) =~= Map::<Seq<char>, ArrayValue>::empty());
        }
        while i < descs.len()
            invariant
                descs@.len() == raws@.len() == rv.len(),
                rv == bytes_view(raws@),
                descs@ == response.outputs@,
                raws@ == response.raw_output_contents@,
                i <= descs@.len(),
                names_unique(entries_view(entries@)),
                build_outputs(descs@.take(i as int), rv.take(i as int)) == Ok::<
                    Map<Seq<char>, ArrayValue>,
                    Error,
                >(to_map(entries_view(entries@))),
            decreases descs.len() - i,
        {
            let desc = &descs[i];
            let ghost m = to_map(entries_view(entries@));
            proof {
                assert(descs@.take(i + 1).drop_last() =~= descs@.take(i as int));
                assert(rv.take(i + 1).drop_last() =~= rv.take(i as int));
                assert(rv.take(i + 1).last() == raws@[i as int]@);
            }
            let a = match decode_one(desc, &raws[i]) {
                Ok(a) => a,
                Err(e) => {
                    proof {
                        assert(descs@.take(i + 1).last() == *desc);
                        assert(build_outputs(descs@.take(i + 1), rv.take(i + 1)) == Err::<
                            Map<Seq<char>, ArrayValue>,
                            Error,
                        >(e));
                        lemma_build_prefix_error(descs@, rv, (i + 1) as int, e);
                    }
                    return Err(e);
                },
            };
            let ghost v = a@;
            let ghost k = desc.name@;
            match find_entry(&entries, desc.name.as_str()) {
                Some(p) => {
                    let ghost ev = entries_view(entries@);
                    proof {
                        lemma_to_map_remove(ev, p as int);
                    }
                    entries.remove(p);
                    proof {
                        assert(entries_view(entries@) =~= ev.remove(p as int));
                    }
                },
                None => {
                    proof {
                        lemma_to_map_absent(entries_view(entries@), k);
                    }
                },
            }
            let ghost before = entries_view(entries@);
            entries.push((desc.name.clone(), a));
            proof {
                assert(entries_view(entries@) =~= before.push((k, v)));
                assert(entries_view(entries@).drop_last() =~= before);
                assert(to_map(entries_view(entries@)) =~= m.insert(k, v));
                assert forall|x: int, y: int|
                    0 <= x < y < entries_view(entries@).len() implies entries_view(entries@)[x].0
                    != entries_view(entries@)[y].0 by {
                    if y == entries_view(entries@).len() - 1 {
                        assert(entries_view(entries@)[x] == before[x]);
                    }
                }
            }
            i = i + 1;
        }
        proof {
            assert(descs@.take(i as int) =~= descs@);
            assert(rv.take(i as int) =~= rv);
        }
        Ok(ModelOutput { inner: entries })
    }

    /// The array named `name`, if the response held one.
    pub fn as_ndarray(&self, name: &str) -> (r: Option<&ArrayOutputOneOf>)
        ensures
            r is Some <==> self@.contains_key(name@),
            r matches Some(a) ==> a@ == self@[name@],
    {
        proof {
            use_type_invariant(self);
        }
        match find_entry(&self.inner, name) {
            Some(i) => {
                proof {
                    lemma_to_map_index(entries_view(self.inner@), i as int);
                }
                Some(&self.inner[i].1)
            },
            None => {
                proof {
                    lemma_to_map_absent(entries_view(self.inner@), name@);
                }
                None
            },
        }
    }

    /// Takes the array named `name` out of the set.
    pub fn pop(&mut self, name: &str) -> (r: Option<ArrayOutputOneOf>)
        ensures
            r is Some <==> old(self)@.contains_key(name@),
            r matches Some(a) ==> a@ == old(self)@[name@],
            final(self)@ == old(self)@.remove(name@),
    {
        proof {
            use_type_invariant(&*self);
        }
        match find_entry(&self.inner, name) {
            Some(i) => {
                let ghost ev = entries_view(self.inner@);
                proof {
                    lemma_to_map_index(ev, i as int);
                    lemma_to_map_remove(ev, i as int);
                }
                let mut taken = ModelOutput { inner: Vec::new() };
                std::mem::swap(self, &mut taken);
                let mut entries = taken.inner;
                let (_, a) = entries.remove(i);
                proof {
                    assert(entries_view(entries@) =~= ev.remove(i as int));
                }
                *self = ModelOutput { inner: entries };
                Some(a)
            },
            None => {
                proof {
                    lemma_to_map_absent(entries_view(self.inner@), name@);
                    assert(self@.remove(name@) =~= self@);
                }
                None
            },
        }
    }

    /// Hands out the entries, names unique, in the order the response gave them.
    pub fn into_inner(self) -> (r: Vec<(String, ArrayOutputOneOf)>)
        ensures
            names_unique(entries_view(r@)),
            to_map(entries_view(r@)) == self@,
    {
        proof {
            use_type_invariant(&self);
        }
        self.inner
    }
}

} // verus!
