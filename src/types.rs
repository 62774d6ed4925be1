//! The protocol's element types and their wire tags.

use vstd::prelude::*;
use vstd::string::*;

verus! {

/// Element types of the inference protocol, one per wire tag.
#[allow(non_camel_case_types)]
#[derive(Clone, Copy, Debug, PartialEq, Eq, Structural)]
pub enum TritonDataTypes {
    BOOL,
    INT8,
    INT16,
    INT32,
    INT64,
    UINT8,
    UINT16,
    UINT32,
    UINT64,
    FP16,
    BF16,
    FP32,
    FP64,
    BYTES,
}

/// A variable-length byte string, the element of a `BYTES` tensor.
pub type Bytes = Vec<u8>;

/// The wire tag of each element type.
pub open spec fn wire_tag(t: TritonDataTypes) -> Seq<char> {
    match t {
        TritonDataTypes::BOOL => "BOOL"@,
        TritonDataTypes::INT8 => "INT8"@,
        TritonDataTypes::INT16 => "INT16"@,
        TritonDataTypes::INT32 => "INT32"@,
        TritonDataTypes::INT64 => "INT64"@,
        TritonDataTypes::UINT8 => "UINT8"@,
        TritonDataTypes::UINT16 => "UINT16"@,
        TritonDataTypes::UINT32 => "UINT32"@,
        TritonDataTypes::UINT64 => "UINT64"@,
        TritonDataTypes::FP16 => "FP16"@,
        TritonDataTypes::BF16 => "BF16"@,
        TritonDataTypes::FP32 => "FP32"@,
        TritonDataTypes::FP64 => "FP64"@,
        TritonDataTypes::BYTES => "BYTES"@,
    }
}

/// The element type whose tag is `s`, if any.
pub open spec fn type_of_tag(s: Seq<char>) -> Option<TritonDataTypes> {
    if s == "BOOL"@ {
        Some(TritonDataTypes::BOOL)
    } else if s == "INT8"@ {
        Some(TritonDataTypes::INT8)
    } else if s == "INT16"@ {
        Some(TritonDataTypes::INT16)
    } else if s == "INT32"@ {
        Some(TritonDataTypes::INT32)
    } else if s == "INT64"@ {
        Some(TritonDataTypes::INT64)
    } else if s == "UINT8"@ {
        Some(TritonDataTypes::UINT8)
    } else if s == "UINT16"@ {
        Some(TritonDataTypes::UINT16)
    } else if s == "UINT32"@ {
        Some(TritonDataTypes::UINT32)
    } else if s == "UINT64"@ {
        Some(TritonDataTypes::UINT64)
    } else if s == "FP16"@ {
        Some(TritonDataTypes::FP16)
    } else if s == "BF16"@ {
        Some(TritonDataTypes::BF16)
    } else if s == "FP32"@ {
        Some(TritonDataTypes::FP32)
    } else if s == "FP64"@ {
        Some(TritonDataTypes::FP64)
    } else if s == "BYTES"@ {
        Some(TritonDataTypes::BYTES)
    } else {
        None
    }
}

pub(crate) fn str_eq(a: &str, b: &str) -> (r: bool)
    ensures
        r == (a@ == b@),
{
    let x = String::from_str(a);
    let y = String::from_str(b);
    x == y
}

impl TritonDataTypes {
    /// The wire tag of this element type.
    pub fn as_str(&self) -> (r: &'static str)
        ensures
            r@ == wire_tag(*self),
    {
        match self {
            TritonDataTypes::BOOL => "BOOL",
            TritonDataTypes::INT8 => "INT8",
            TritonDataTypes::INT16 => "INT16",
            TritonDataTypes::INT32 => "INT32",
            TritonDataTypes::INT64 => "INT64",
            TritonDataTypes::UINT8 => "UINT8",
            TritonDataTypes::UINT16 => "UINT16",
            TritonDataTypes::UINT32 => "UINT32",
            TritonDataTypes::UINT64 => "UINT64",
            TritonDataTypes::FP16 => "FP16",
            TritonDataTypes::BF16 => "BF16",
            TritonDataTypes::FP32 => "FP32",
            TritonDataTypes::FP64 => "FP64",
            TritonDataTypes::BYTES => "BYTES",
        }
    }

    /// The wire tag of this element type, as an owned string.
    pub fn to_string(&self) -> (r: String)
        ensures
            r@ == wire_tag(*self),
    {
        String::from_str(self.as_str())
    }

    /// Parses a wire tag; `None` for a tag outside the protocol's vocabulary.
    pub fn from_name(s: &str) -> (r: Option<TritonDataTypes>)
        ensures
            r == type_of_tag(s@),
    {
        if str_eq(s, "BOOL") {
            Some(TritonDataTypes::BOOL)
        } else if str_eq(s, "INT8") {
            Some(TritonDataTypes::INT8)
        } else if str_eq(s, "INT16") {
            Some(TritonDataTypes::INT16)
        } else if str_eq(s, "INT32") {
            Some(TritonDataTypes::INT32)
        } else if str_eq(s, "INT64") {
            Some(TritonDataTypes::INT64)
        } else if str_eq(s, "UINT8") {
            Some(TritonDataTypes::UINT8)
        } else if str_eq(s, "UINT16") {
            Some(TritonDataTypes::UINT16)
        } else if str_eq(s, "UINT32") {
            Some(TritonDataTypes::UINT32)
        } else if str_eq(s, "UINT64") {
            Some(TritonDataTypes::UINT64)
        } else if str_eq(s, "FP16") {
            Some(TritonDataTypes::FP16)
        } else if str_eq(s, "BF16") {
            Some(TritonDataTypes::BF16)
        } else if str_eq(s, "FP32") {
            Some(TritonDataTypes::FP32)
        } else if str_eq(s, "FP64") {
            Some(TritonDataTypes::FP64)
        } else if str_eq(s, "BYTES") {
            Some(TritonDataTypes::BYTES)
        } else {
            None
        }
    }
}

/// Parsing the tag of an element type gives that element type back.
pub proof fn lemma_tag_round_trip(t: TritonDataTypes)
    ensures
        type_of_tag(wire_tag(t)) == Some(t),
{
    reveal_strlit("BOOL");
    reveal_strlit("INT8");
    reveal_strlit("INT16");
    reveal_strlit("INT32");
    reveal_strlit("INT64");
    reveal_strlit("UINT8");
    reveal_strlit("UINT16");
    reveal_strlit("UINT32");
    reveal_strlit("UINT64");
    reveal_strlit("FP16");
    reveal_strlit("BF16");
    reveal_strlit("FP32");
    reveal_strlit("FP64");
    reveal_strlit("BYTES");
    match t {
        TritonDataTypes::BOOL => {
        },
        TritonDataTypes::INT8 => {
            assert("INT8"@[0] != "BOOL"@[0]);
        },
        TritonDataTypes::INT16 => {
            assert("INT16"@.len() != "BOOL"@.len());
            assert("INT16"@.len() != "INT8"@.len());
        },
        TritonDataTypes::INT32 => {
            assert("INT32"@.len() != "BOOL"@.len());
            assert("INT32"@.len() != "INT8"@.len());
            assert("INT32"@[3] != "INT16"@[3]);
        },
        TritonDataTypes::INT64 => {
            assert("INT64"@.len() != "BOOL"@.len());
            assert("INT64"@.len() != "INT8"@.len());
            assert("INT64"@[3] != "INT16"@[3]);
            assert("INT64"@[3] != "INT32"@[3]);
        },
        TritonDataTypes::UINT8 => {
            assert("UINT8"@.len() != "BOOL"@.len());
            assert("UINT8"@.len() != "INT8"@.len());
            assert("UINT8"@[0] != "INT16"@[0]);
            assert("UINT8"@[0] != "INT32"@[0]);
            assert("UINT8"@[0] != "INT64"@[0]);
        },
        TritonDataTypes::UINT16 => {
            assert("UINT16"@.len() != "BOOL"@.len());
            assert("UINT16"@.len() != "INT8"@.len());
            assert("UINT16"@.len() != "INT16"@.len());
            assert("UINT16"@.len() != "INT32"@.len());
            assert("UINT16"@.len() != "INT64"@.len());
            assert("UINT16"@.len() != "UINT8"@.len());
        },
        TritonDataTypes::UINT32 => {
            assert("UINT32"@.len() != "BOOL"@.len());
            assert("UINT32"@.len() != "INT8"@.len());
            assert("UINT32"@.len() != "INT16"@.len());
            assert("UINT32"@.len() != "INT32"@.len());
            assert("UINT32"@.len() != "INT64"@.len());
            assert("UINT32"@.len() != "UINT8"@.len());
            assert("UINT32"@[4] != "UINT16"@[4]);
        },
        TritonDataTypes::UINT64 => {
            assert("UINT64"@.len() != "BOOL"@.len());
            assert("UINT64"@.len() != "INT8"@.len());
            assert("UINT64"@.len() != "INT16"@.len());
            assert("UINT64"@.len() != "INT32"@.len());
            assert("UINT64"@.len() != "INT64"@.len());
            assert("UINT64"@.len() != "UINT8"@.len());
            assert("UINT64"@[4] != "UINT16"@[4]);
            assert("UINT64"@[4] != "UINT32"@[4]);
        },
        TritonDataTypes::FP16 => {
            assert("FP16"@[0] != "BOOL"@[0]);
            assert("FP16"@[0] != "INT8"@[0]);
            assert("FP16"@.len() != "INT16"@.len());
            assert("FP16"@.len() != "INT32"@.len());
            assert("FP16"@.len() != "INT64"@.len());
            assert("FP16"@.len() != "UINT8"@.len());
            assert("FP16"@.len() != "UINT16"@.len());
            assert("FP16"@.len() != "UINT32"@.len());
            assert("FP16"@.len() != "UINT64"@.len());
        },
        TritonDataTypes::BF16 => {
            assert("BF16"@[1] != "BOOL"@[1]);
            assert("BF16"@[0] != "INT8"@[0]);
            assert("BF16"@.len() != "INT16"@.len());
            assert("BF16"@.len() != "INT32"@.len());
            assert("BF16"@.len() != "INT64"@.len());
            assert("BF16"@.len() != "UINT8"@.len());
            assert("BF16"@.len() != "UINT16"@.len());
            assert("BF16"@.len() != "UINT32"@.len());
            assert("BF16"@.len() != "UINT64"@.len());
            assert("BF16"@[0] != "FP16"@[0]);
        },
        TritonDataTypes::FP32 => {
            assert("FP32"@[0] != "BOOL"@[0]);
            assert("FP32"@[0] != "INT8"@[0]);
            assert("FP32"@.len() != "INT16"@.len());
            assert("FP32"@.len() != "INT32"@.len());
            assert("FP32"@.len() != "INT64"@.len());
            assert("FP32"@.len() != "UINT8"@.len());
            assert("FP32"@.len() != "UINT16"@.len());
            assert("FP32"@.len() != "UINT32"@.len());
            assert("FP32"@.len() != "UINT64"@.len());
            assert("FP32"@[2] != "FP16"@[2]);
            assert("FP32"@[0] != "BF16"@[0]);
        },
        TritonDataTypes::FP64 => {
            assert("FP64"@[0] != "BOOL"@[0]);
            assert("FP64"@[0] != "INT8"@[0]);
            assert("FP64"@.len() != "INT16"@.len());
            assert("FP64"@.len() != "INT32"@.len());
            assert("FP64"@.len() != "INT64"@.len());
            assert("FP64"@.len() != "UINT8"@.len());
            assert("FP64"@.len() != "UINT16"@.len());
            assert("FP64"@.len() != "UINT32"@.len());
            assert("FP64"@.len() != "UINT64"@.len());
            assert("FP64"@[2] != "FP16"@[2]);
            assert("FP64"@[0] != "BF16"@[0]);
            assert("FP64"@[2] != "FP32"@[2]);
        },
        TritonDataTypes::BYTES => {
            assert("BYTES"@.len() != "BOOL"@.len());
            assert("BYTES"@.len() != "INT8"@.len());
            assert("BYTES"@[0] != "INT16"@[0]);
            assert("BYTES"@[0] != "INT32"@[0]);
            assert("BYTES"@[0] != "INT64"@[0]);
            assert("BYTES"@[0] != "UINT8"@[0]);
            assert("BYTES"@.len() != "UINT16"@.len());
            assert("BYTES"@.len() != "UINT32"@.len());
            assert("BYTES"@.len() != "UINT64"@.len());
            assert("BYTES"@.len() != "FP16"@.len());
            assert("BYTES"@.len() != "BF16"@.len());
            assert("BYTES"@.len() != "FP32"@.len());
            assert("BYTES"@.len() != "FP64"@.len());
        },
    }
}

} // verus!
