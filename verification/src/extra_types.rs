//! Explicit wrapper values for ambiguous wire types: the three integer
//! widths, text and varchar, UUIDs, JSON and JSONB trees, and the two
//! MAC address widths.  A wrapper pins the wire type a caller means,
//! with top priority over the codec's shape inference.

use vstd::prelude::*;
use vstd::utf8::encode_utf8;
use crate::codec::{dynamic_to_json, dyn_json_chars, json_convertible, DynamicValue};
use crate::errors::{DriverError, ErrorKind};
use crate::json::{json_chars, JsonValue};
use crate::wire::{be_val, pow256, read_be};

verus! {

/// What `uuid::Uuid::from_str` yields on a string: the 128-bit value of
/// the UUID, big-endian over its sixteen bytes, or nothing when the
/// string is in none of the accepted formats.  The result depends on
/// the characters alone.
pub uninterp spec fn uuid_parse_of(s: Seq<char>) -> Option<u128>;

/// Relies on `uuid::Uuid::from_str` (and `Uuid::as_u128`): parses the
/// simple, hyphenated, braced and URN formats; any input whose byte
/// length is not 32, 36, 38 or 45 is rejected outright.
#[verifier::external_body]
fn parse_uuid(s: &str) -> (r: Option<u128>)
    ensures
        r == uuid_parse_of(s@),
        ({
            let n = encode_utf8(s@).len();
            n != 32 && n != 36 && n != 38 && n != 45
        }) ==> r is None,
{
    match <uuid::Uuid as core::str::FromStr>::from_str(s) {
        Ok(u) => Some(u.as_u128()),
        Err(_) => None,
    }
}

/// What `macaddr::MacAddr6::from_str` yields: the six address bytes, or
/// nothing when the string is not a recognized six-byte MAC format.
/// The result depends on the characters alone.
pub uninterp spec fn mac6_parse_of(s: Seq<char>) -> Option<Seq<u8>>;

/// Relies on `macaddr::MacAddr6::from_str` (and `into_array`): the
/// parsed address is exactly six bytes.
#[verifier::external_body]
fn parse_mac6(s: &str) -> (r: Option<Vec<u8>>)
    ensures
        match r {
            Some(v) => mac6_parse_of(s@) == Some(v@) && v@.len() == 6,
            None => mac6_parse_of(s@) is None,
        },
{
    match <macaddr::MacAddr6 as core::str::FromStr>::from_str(s) {
        Ok(m) => Some(m.into_array().to_vec()),
        Err(_) => None,
    }
}

/// What `macaddr::MacAddr8::from_str` yields: the eight address bytes,
/// or nothing.  The result depends on the characters alone.
pub uninterp spec fn mac8_parse_of(s: Seq<char>) -> Option<Seq<u8>>;

/// Relies on `macaddr::MacAddr8::from_str` (and `into_array`): the
/// parsed address is exactly eight bytes.
#[verifier::external_body]
fn parse_mac8(s: &str) -> (r: Option<Vec<u8>>)
    ensures
        match r {
            Some(v) => mac8_parse_of(s@) == Some(v@) && v@.len() == 8,
            None => mac8_parse_of(s@) is None,
        },
{
    match <macaddr::MacAddr8 as core::str::FromStr>::from_str(s) {
        Ok(m) => Some(m.into_array().to_vec()),
        Err(_) => None,
    }
}

fn conversion_error() -> (r: DriverError)
    ensures
        r.kind == ErrorKind::Conversion,
{
    DriverError::new(
        ErrorKind::Conversion,
        String::from_str("value cannot be converted to the wrapper's type"),
    )
}

/// An explicit two-byte integer.
#[derive(Clone, Copy, Debug, PartialEq, Eq, Structural)]
pub struct SmallInt {
    pub inner_value: i16,
}

impl SmallInt {
    /// Wrap a value.
    pub fn new_class(inner_value: i16) -> (r: SmallInt)
        ensures
            r.inner_value == inner_value,
    {
        SmallInt { inner_value }
    }

    /// The wrapped value.
    pub fn retrieve_value(&self) -> (r: i16)
        ensures
            r == self.inner_value,
    {
        self.inner_value
    }

    /// The wrapper as a caller value for the codec.
    pub fn value(&self) -> (r: DynamicValue)
        ensures
            r == DynamicValue::SmallInt(self.inner_value),
    {
        DynamicValue::SmallInt(self.inner_value)
    }
}

/// An explicit four-byte integer.
#[derive(Clone, Copy, Debug, PartialEq, Eq, Structural)]
pub struct Integer {
    pub inner_value: i32,
}

impl Integer {
    /// Wrap a value.
    pub fn new_class(inner_value: i32) -> (r: Integer)
        ensures
            r.inner_value == inner_value,
    {
        Integer { inner_value }
    }

    /// The wrapped value.
    pub fn retrieve_value(&self) -> (r: i32)
        ensures
            r == self.inner_value,
    {
        self.inner_value
    }

    /// The wrapper as a caller value for the codec.
    pub fn value(&self) -> (r: DynamicValue)
        ensures
            r == DynamicValue::Integer(self.inner_value),
    {
        DynamicValue::Integer(self.inner_value)
    }
}

/// An explicit eight-byte integer.
#[derive(Clone, Copy, Debug, PartialEq, Eq, Structural)]
pub struct BigInt {
    pub inner_value: i64,
}

impl BigInt {
    /// Wrap a value.
    pub fn new_class(inner_value: i64) -> (r: BigInt)
        ensures
            r.inner_value == inner_value,
    {
        BigInt { inner_value }
    }

    /// The wrapped value.
    pub fn retrieve_value(&self) -> (r: i64)
        ensures
            r == self.inner_value,
    {
        self.inner_value
    }

    /// The wrapper as a caller value for the codec.
    pub fn value(&self) -> (r: DynamicValue)
        ensures
            r == DynamicValue::BigInt(self.inner_value),
    {
        DynamicValue::BigInt(self.inner_value)
    }
}

/// An explicit text value.
#[derive(Debug)]
pub struct PyText {
    pub inner: String,
}

impl PyText {
    /// Create a text wrapper from a string.
    pub fn new_pytext(text_value: String) -> (r: PyText)
        ensures
            r.inner@ == text_value@,
    {
        PyText { inner: text_value }
    }

    /// The wrapped string.
    pub fn inner(&self) -> (r: String)
        ensures
            r@ == self.inner@,
    {
        self.inner.clone()
    }

    /// The wrapper as a caller value for the codec.
    pub fn value(&self) -> (r: DynamicValue)
        ensures
            r matches DynamicValue::Text(s) && s@ == self.inner@,
    {
        DynamicValue::Text(self.inner.clone())
    }
}

/// An explicit varchar value.
#[derive(Debug)]
pub struct PyVarChar {
    pub inner: String,
}

impl PyVarChar {
    /// Create a varchar wrapper from a string.
    pub fn new_varchar(text_value: String) -> (r: PyVarChar)
        ensures
            r.inner@ == text_value@,
    {
        PyVarChar { inner: text_value }
    }

    /// The wrapped string.
    pub fn inner(&self) -> (r: String)
        ensures
            r@ == self.inner@,
    {
        self.inner.clone()
    }

    /// The wrapper as a caller value for the codec.
    pub fn value(&self) -> (r: DynamicValue)
        ensures
            r matches DynamicValue::VarChar(s) && s@ == self.inner@,
    {
        DynamicValue::VarChar(self.inner.clone())
    }
}

/// An explicit UUID value, held as its 128-bit big-endian content.
#[derive(Clone, Copy, Debug, PartialEq, Eq, Structural)]
pub struct PyUUID {
    pub inner: u128,
}

impl PyUUID {
    /// Parse a UUID wrapper from a string.  Succeeds exactly when the
    /// UUID parser accepts the string, with the parsed value.
    pub fn new_uuid(uuid_value: &str) -> (r: Result<PyUUID, DriverError>)
        ensures
            match r {
                Ok(p) => uuid_parse_of(uuid_value@) == Some(p.inner),
                Err(e) => uuid_parse_of(uuid_value@) is None && e.kind == ErrorKind::Conversion,
            },
    {
        match parse_uuid(uuid_value) {
            Some(u) => Ok(PyUUID { inner: u }),
            None => Err(conversion_error()),
        }
    }

    /// The wrapped value.
    pub fn inner(&self) -> (r: u128)
        ensures
            r == self.inner,
    {
        self.inner
    }

    /// The wrapper as a caller value for the codec.
    pub fn value(&self) -> (r: DynamicValue)
        ensures
            r == DynamicValue::Uuid(self.inner),
    {
        DynamicValue::Uuid(self.inner)
    }
}

/// An explicit JSON tree (sent as `json`).
#[derive(Debug)]
pub struct PyJSON {
    pub inner: JsonValue,
}

impl PyJSON {
    /// Build a JSON wrapper from a JSON-compatible caller value; any
    /// other value is a conversion error.
    pub fn new_class(value: &DynamicValue) -> (r: Result<PyJSON, DriverError>)
        ensures
            match r {
                Ok(p) => json_convertible(*value) && json_chars(p.inner) == dyn_json_chars(
                    *value,
                ),
                Err(e) => !json_convertible(*value) && e.kind == ErrorKind::Conversion,
            },
    {
        match dynamic_to_json(value) {
            Some(j) => Ok(PyJSON { inner: j }),
            None => Err(conversion_error()),
        }
    }

    /// The wrapped tree.
    pub fn inner(&self) -> (r: &JsonValue)
        ensures
            r == &self.inner,
    {
        &self.inner
    }
}

/// An explicit JSONB tree (sent as `jsonb`).
#[derive(Debug)]
pub struct PyJSONB {
    pub inner: JsonValue,
}

impl PyJSONB {
    /// Build a JSONB wrapper from a JSON-compatible caller value; any
    /// other value is a conversion error.
    pub fn new_class(value: &DynamicValue) -> (r: Result<PyJSONB, DriverError>)
        ensures
            match r {
                Ok(p) => json_convertible(*value) && json_chars(p.inner) == dyn_json_chars(
                    *value,
                ),
                Err(e) => !json_convertible(*value) && e.kind == ErrorKind::Conversion,
            },
    {
        match dynamic_to_json(value) {
            Some(j) => Ok(PyJSONB { inner: j }),
            None => Err(conversion_error()),
        }
    }

    /// The wrapped tree.
    pub fn inner(&self) -> (r: &JsonValue)
        ensures
            r == &self.inner,
    {
        &self.inner
    }
}

/// An explicit six-byte MAC address, held as its 48-bit value.
#[derive(Clone, Copy, Debug, PartialEq, Eq, Structural)]
pub struct PyMacAddr6 {
    pub inner: u64,
}

impl PyMacAddr6 {
    /// A six-byte address values below `2^48`.
    pub open spec fn wf(&self) -> bool {
        self.inner < 0x1000000000000
    }

    /// Parse a six-byte MAC address wrapper from a string.  Succeeds
    /// exactly when the MAC parser accepts the string; the value is the
    /// big-endian reading of the six address bytes.
    pub fn new_class(value: &str) -> (r: Result<PyMacAddr6, DriverError>)
        ensures
            match r {
                Ok(p) => p.wf() && (mac6_parse_of(value@) matches Some(b) && p.inner as int
                    == be_val(b)),
                Err(e) => mac6_parse_of(value@) is None && e.kind == ErrorKind::Conversion,
            },
    {
        match parse_mac6(value) {
            Some(bytes) => {
                let raw: u128 = read_be(bytes.as_slice());
                proof {
                    crate::wire::lemma_be_val_bound(bytes@);
                    assert(pow256(6) == 0x1000000000000) by {
                        reveal_with_fuel(pow256, 7);
                    };
                }
                Ok(PyMacAddr6 { inner: raw as u64 })
            },
            None => Err(conversion_error()),
        }
    }

    /// The wrapped value.
    pub fn inner(&self) -> (r: u64)
        ensures
            r == self.inner,
    {
        self.inner
    }

    /// The wrapper as a caller value for the codec.
    pub fn value(&self) -> (r: DynamicValue)
        ensures
            r == DynamicValue::MacAddr6(self.inner),
    {
        DynamicValue::MacAddr6(self.inner)
    }
}

/// An explicit eight-byte MAC address, held as its 64-bit value.
#[derive(Clone, Copy, Debug, PartialEq, Eq, Structural)]
pub struct PyMacAddr8 {
    pub inner: u64,
}

impl PyMacAddr8 {
    /// Parse an eight-byte MAC address wrapper from a string.  Succeeds
    /// exactly when the MAC parser accepts the string; the value is the
    /// big-endian reading of the eight address bytes.
    pub fn new_class(value: &str) -> (r: Result<PyMacAddr8, DriverError>)
        ensures
            match r {
                Ok(p) => mac8_parse_of(value@) matches Some(b) && p.inner as int == be_val(b),
                Err(e) => mac8_parse_of(value@) is None && e.kind == ErrorKind::Conversion,
            },
    {
        match parse_mac8(value) {
            Some(bytes) => {
                let raw: u128 = read_be(bytes.as_slice());
                proof {
                    crate::wire::lemma_be_val_bound(bytes@);
                    assert(pow256(8) == 0x10000000000000000) by {
                        reveal_with_fuel(pow256, 9);
                    };
                }
                Ok(PyMacAddr8 { inner: raw as u64 })
            },
            None => Err(conversion_error()),
        }
    }

    /// The wrapped value.
    pub fn inner(&self) -> (r: u64)
        ensures
            r == self.inner,
    {
        self.inner
    }

    /// The wrapper as a caller value for the codec.
    pub fn value(&self) -> (r: DynamicValue)
        ensures
            r == DynamicValue::MacAddr8(self.inner),
    {
        DynamicValue::MacAddr8(self.inner)
    }
}

} // verus!
