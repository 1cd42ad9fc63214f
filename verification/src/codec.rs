//! The typed value codec: maps caller values (with an optional explicit
//! type tag) to unambiguous wire-level parameters, and wire-level column
//! values back to typed host values.
//!
//! Encoding resolves a wire type by a fixed precedence — an explicit tag
//! always wins, and inference picks the most specific match, defaulting
//! integers without a width wrapper to the widest width — and then lays
//! the value out in the binary wire format.  Decoding dispatches strictly
//! on the column's declared OID; an unrecognized OID is a hard error.

use vstd::prelude::*;
use vstd::string::StrSliceExecFns;
use vstd::utf8::{decode_utf8, encode_utf8, valid_utf8};
use crate::errors::{DriverError, ErrorKind};
use crate::json::{
    arr_body_chars, entry_chars, int_chars, json_chars, json_string, lemma_strip_canonical,
    obj_body_chars, parse_json, quoted_chars, strip_json_ws, JsonValue,
};
use crate::strutil::bytes_to_string;
use crate::wire::{be_bytes, be_val, push_be, read_be};

verus! {

/// A wire type the codec can produce or consume.  `Unspecified` stands
/// for OID zero: a null parameter without a tag, whose type the server
/// infers.
#[derive(Clone, Copy, Debug, PartialEq, Eq, Structural)]
pub enum PgType {
    Bool,
    Bytea,
    Int2,
    Int4,
    Int8,
    Text,
    VarChar,
    Uuid,
    Json,
    Jsonb,
    MacAddr6,
    MacAddr8,
    Unspecified,
}

/// The OID of each wire type.
pub open spec fn spec_type_oid(t: PgType) -> u32 {
    match t {
        PgType::Bool => 16,
        PgType::Bytea => 17,
        PgType::Int2 => 21,
        PgType::Int4 => 23,
        PgType::Int8 => 20,
        PgType::Text => 25,
        PgType::VarChar => 1043,
        PgType::Uuid => 2950,
        PgType::Json => 114,
        PgType::Jsonb => 3802,
        PgType::MacAddr6 => 829,
        PgType::MacAddr8 => 774,
        PgType::Unspecified => 0,
    }
}

/// The wire type for an OID, if the codec knows it.
pub open spec fn spec_type_of_oid(oid: u32) -> Option<PgType> {
    if oid == 16 {
        Some(PgType::Bool)
    } else if oid == 17 {
        Some(PgType::Bytea)
    } else if oid == 21 {
        Some(PgType::Int2)
    } else if oid == 23 {
        Some(PgType::Int4)
    } else if oid == 20 {
        Some(PgType::Int8)
    } else if oid == 25 {
        Some(PgType::Text)
    } else if oid == 1043 {
        Some(PgType::VarChar)
    } else if oid == 2950 {
        Some(PgType::Uuid)
    } else if oid == 114 {
        Some(PgType::Json)
    } else if oid == 3802 {
        Some(PgType::Jsonb)
    } else if oid == 829 {
        Some(PgType::MacAddr6)
    } else if oid == 774 {
        Some(PgType::MacAddr8)
    } else {
        None
    }
}

impl PgType {
    /// The OID of this wire type.
    pub fn oid(&self) -> (r: u32)
        ensures
            r == spec_type_oid(*self),
    {
        match self {
            PgType::Bool => 16,
            PgType::Bytea => 17,
            PgType::Int2 => 21,
            PgType::Int4 => 23,
            PgType::Int8 => 20,
            PgType::Text => 25,
            PgType::VarChar => 1043,
            PgType::Uuid => 2950,
            PgType::Json => 114,
            PgType::Jsonb => 3802,
            PgType::MacAddr6 => 829,
            PgType::MacAddr8 => 774,
            PgType::Unspecified => 0,
        }
    }

    /// The wire type for an OID, if known.
    pub fn of_oid(oid: u32) -> (r: Option<PgType>)
        ensures
            r == spec_type_of_oid(oid),
    {
        if oid == 16 {
            Some(PgType::Bool)
        } else if oid == 17 {
            Some(PgType::Bytea)
        } else if oid == 21 {
            Some(PgType::Int2)
        } else if oid == 23 {
            Some(PgType::Int4)
        } else if oid == 20 {
            Some(PgType::Int8)
        } else if oid == 25 {
            Some(PgType::Text)
        } else if oid == 1043 {
            Some(PgType::VarChar)
        } else if oid == 2950 {
            Some(PgType::Uuid)
        } else if oid == 114 {
            Some(PgType::Json)
        } else if oid == 3802 {
            Some(PgType::Jsonb)
        } else if oid == 829 {
            Some(PgType::MacAddr6)
        } else if oid == 774 {
            Some(PgType::MacAddr8)
        } else {
            None
        }
    }
}

/// A dynamic caller value.  The width-tagged integer variants, the
/// `Text`/`VarChar` wrappers, and the network/JSON wrappers are the
/// explicit wrapper values callers use to disambiguate a wire type;
/// `Int`, `Str`, `Bytes`, `Sequence` and `Mapping` are native shapes
/// subject to inference.
#[derive(Debug)]
pub enum DynamicValue {
    Null,
    Boolean(bool),
    Int(i64),
    SmallInt(i16),
    Integer(i32),
    BigInt(i64),
    Str(String),
    Text(String),
    VarChar(String),
    Bytes(Vec<u8>),
    Uuid(u128),
    Json(JsonValue),
    Jsonb(JsonValue),
    MacAddr6(u64),
    MacAddr8(u64),
    Sequence(Vec<DynamicValue>),
    Mapping(Vec<(String, DynamicValue)>),
}

/// A wire-ready parameter: a resolved type and the binary datum
/// (`None` is the SQL null).
#[derive(Debug)]
pub struct QueryParameter {
    pub ty: PgType,
    pub data: Option<Vec<u8>>,
}

/// The datum of a parameter as a mathematical value.
pub open spec fn datum_view(data: Option<Vec<u8>>) -> Option<Seq<u8>> {
    match data {
        Some(b) => Some(b@),
        None => None,
    }
}

/// The wire type inferred from a value's native shape alone.  Integers
/// without a width wrapper default to the widest width; native strings
/// to text; sequences and mappings to JSON (not JSONB); a bare null has
/// no type of its own and is left for the server to infer.
pub open spec fn spec_infer_type(v: DynamicValue) -> PgType {
    match v {
        DynamicValue::Null => PgType::Unspecified,
        DynamicValue::Boolean(_) => PgType::Bool,
        DynamicValue::Int(_) => PgType::Int8,
        DynamicValue::SmallInt(_) => PgType::Int2,
        DynamicValue::Integer(_) => PgType::Int4,
        DynamicValue::BigInt(_) => PgType::Int8,
        DynamicValue::Str(_) => PgType::Text,
        DynamicValue::Text(_) => PgType::Text,
        DynamicValue::VarChar(_) => PgType::VarChar,
        DynamicValue::Bytes(_) => PgType::Bytea,
        DynamicValue::Uuid(_) => PgType::Uuid,
        DynamicValue::Json(_) => PgType::Json,
        DynamicValue::Jsonb(_) => PgType::Jsonb,
        DynamicValue::MacAddr6(_) => PgType::MacAddr6,
        DynamicValue::MacAddr8(_) => PgType::MacAddr8,
        DynamicValue::Sequence(_) => PgType::Json,
        DynamicValue::Mapping(_) => PgType::Json,
    }
}

/// The wire type an encoding targets: the explicit tag when given,
/// otherwise the inferred type.
pub open spec fn spec_target_type(v: DynamicValue, tag: Option<PgType>) -> PgType {
    match tag {
        Some(t) => t,
        None => spec_infer_type(v),
    }
}

/// The numeric content of an integer-shaped value.
pub open spec fn spec_int_value(v: DynamicValue) -> Option<int> {
    match v {
        DynamicValue::Int(x) => Some(x as int),
        DynamicValue::SmallInt(x) => Some(x as int),
        DynamicValue::Integer(x) => Some(x as int),
        DynamicValue::BigInt(x) => Some(x as int),
        _ => None,
    }
}

/// The textual content of a string-shaped value.
pub open spec fn spec_text_value(v: DynamicValue) -> Option<Seq<char>> {
    match v {
        DynamicValue::Str(s) => Some(s@),
        DynamicValue::Text(s) => Some(s@),
        DynamicValue::VarChar(s) => Some(s@),
        _ => None,
    }
}

/// Whether a value lies in the JSON-compatible fragment: null, booleans,
/// integers, strings, JSON wrappers, and sequences/mappings thereof.
pub open spec fn json_convertible(v: DynamicValue) -> bool
    decreases v,
{
    match v {
        DynamicValue::Null => true,
        DynamicValue::Boolean(_) => true,
        DynamicValue::Int(_) => true,
        DynamicValue::SmallInt(_) => true,
        DynamicValue::Integer(_) => true,
        DynamicValue::BigInt(_) => true,
        DynamicValue::Str(_) => true,
        DynamicValue::Text(_) => true,
        DynamicValue::VarChar(_) => true,
        DynamicValue::Json(_) => true,
        DynamicValue::Jsonb(_) => true,
        DynamicValue::Sequence(elems) => seq_json_convertible(elems@),
        DynamicValue::Mapping(entries) => map_json_convertible(entries@),
        _ => false,
    }
}

pub open spec fn seq_json_convertible(elems: Seq<DynamicValue>) -> bool
    decreases elems,
{
    if elems.len() == 0 {
        true
    } else {
        json_convertible(elems[0]) && seq_json_convertible(elems.drop_first())
    }
}

pub open spec fn map_json_convertible(entries: Seq<(String, DynamicValue)>) -> bool
    decreases entries,
{
    if entries.len() == 0 {
        true
    } else {
        json_convertible(entries[0].1) && map_json_convertible(entries.drop_first())
    }
}

/// The canonical JSON text of a JSON-compatible value.
pub open spec fn dyn_json_chars(v: DynamicValue) -> Seq<char>
    decreases v,
{
    match v {
        DynamicValue::Null => seq!['n', 'u', 'l', 'l'],
        DynamicValue::Boolean(b) => if b {
            seq!['t', 'r', 'u', 'e']
        } else {
            seq!['f', 'a', 'l', 's', 'e']
        },
        DynamicValue::Int(x) => int_chars(x as int),
        DynamicValue::SmallInt(x) => int_chars(x as int),
        DynamicValue::Integer(x) => int_chars(x as int),
        DynamicValue::BigInt(x) => int_chars(x as int),
        DynamicValue::Str(s) => quoted_chars(s@),
        DynamicValue::Text(s) => quoted_chars(s@),
        DynamicValue::VarChar(s) => quoted_chars(s@),
        DynamicValue::Json(j) => json_chars(j),
        DynamicValue::Jsonb(j) => json_chars(j),
        DynamicValue::Sequence(elems) => seq!['['] + dyn_arr_chars(elems@) + seq![']'],
        DynamicValue::Mapping(entries) => seq!['{'] + dyn_obj_chars(entries@) + seq!['}'],
        _ => Seq::<char>::empty(),
    }
}

pub open spec fn dyn_arr_chars(elems: Seq<DynamicValue>) -> Seq<char>
    decreases elems,
{
    if elems.len() == 0 {
        Seq::<char>::empty()
    } else if elems.len() == 1 {
        dyn_json_chars(elems[0])
    } else {
        dyn_json_chars(elems[0]) + seq![','] + dyn_arr_chars(elems.drop_first())
    }
}

pub open spec fn dyn_obj_chars(entries: Seq<(String, DynamicValue)>) -> Seq<char>
    decreases entries,
{
    if entries.len() == 0 {
        Seq::<char>::empty()
    } else if entries.len() == 1 {
        quoted_chars(entries[0].0@) + seq![':'] + dyn_json_chars(entries[0].1)
    } else {
        quoted_chars(entries[0].0@) + seq![':'] + dyn_json_chars(entries[0].1) + seq![',']
            + dyn_obj_chars(entries.drop_first())
    }
}

/// The unsigned two's-complement image of a signed value, as laid out on
/// the wire.
pub open spec fn u16_image(x: int) -> int {
    (((x as i16) as u16)) as int
}

pub open spec fn u32_image(x: int) -> int {
    (((x as i32) as u32)) as int
}

pub open spec fn u64_image(x: int) -> int {
    (((x as i64) as u64)) as int
}

/// The binary datum that encoding `v` at type `t` produces: `None` when
/// the pair is not encodable, `Some(None)` for the SQL null, and
/// `Some(Some(bytes))` otherwise.
pub open spec fn spec_encodes(v: DynamicValue, t: PgType) -> Option<Option<Seq<u8>>> {
    if v is Null {
        Some(None)
    } else {
        match t {
            PgType::Bool => match v {
                DynamicValue::Boolean(b) => Some(
                    Some(seq![if b { 1u8 } else { 0u8 }]),
                ),
                _ => None,
            },
            PgType::Int2 => match spec_int_value(v) {
                Some(x) => if -0x8000 <= x < 0x8000 {
                    Some(Some(be_bytes(u16_image(x), 2)))
                } else {
                    None
                },
                None => None,
            },
            PgType::Int4 => match spec_int_value(v) {
                Some(x) => if -0x80000000 <= x < 0x80000000 {
                    Some(Some(be_bytes(u32_image(x), 4)))
                } else {
                    None
                },
                None => None,
            },
            PgType::Int8 => match spec_int_value(v) {
                Some(x) => if -0x8000000000000000 <= x < 0x8000000000000000 {
                    Some(Some(be_bytes(u64_image(x), 8)))
                } else {
                    None
                },
                None => None,
            },
            PgType::Text => match spec_text_value(v) {
                Some(s) => Some(Some(encode_utf8(s))),
                None => None,
            },
            PgType::VarChar => match spec_text_value(v) {
                Some(s) => Some(Some(encode_utf8(s))),
                None => None,
            },
            PgType::Bytea => match v {
                DynamicValue::Bytes(b) => Some(Some(b@)),
                _ => None,
            },
            PgType::Uuid => match v {
                DynamicValue::Uuid(u) => Some(Some(be_bytes(u as int, 16))),
                _ => None,
            },
            PgType::Json => if json_convertible(v) {
                Some(Some(encode_utf8(dyn_json_chars(v))))
            } else {
                None
            },
            PgType::Jsonb => if json_convertible(v) {
                Some(Some(seq![1u8] + encode_utf8(dyn_json_chars(v))))
            } else {
                None
            },
            PgType::MacAddr6 => match v {
                DynamicValue::MacAddr6(m) => if m < 0x1000000000000 {
                    Some(Some(be_bytes(m as int, 6)))
                } else {
                    None
                },
                _ => None,
            },
            PgType::MacAddr8 => match v {
                DynamicValue::MacAddr8(m) => Some(Some(be_bytes(m as int, 8))),
                _ => None,
            },
            PgType::Unspecified => None,
        }
    }
}


/// A fresh conversion error.
fn conversion_error() -> (r: DriverError)
    ensures
        r.kind == ErrorKind::Conversion,
{
    DriverError::new(
        ErrorKind::Conversion,
        String::from_str("value cannot be converted at the requested wire type"),
    )
}

/// Copy a byte slice into a fresh vector.
fn copy_bytes(b: &[u8]) -> (r: Vec<u8>)
    ensures
        r@ == b@,
{
    vstd::slice::slice_to_vec(b)
}

impl DynamicValue {
    /// The wire type inferred from this value's native shape.
    pub fn infer_type(&self) -> (r: PgType)
        ensures
            r == spec_infer_type(*self),
    {
        match self {
            DynamicValue::Null => PgType::Unspecified,
            DynamicValue::Boolean(_) => PgType::Bool,
            DynamicValue::Int(_) => PgType::Int8,
            DynamicValue::SmallInt(_) => PgType::Int2,
            DynamicValue::Integer(_) => PgType::Int4,
            DynamicValue::BigInt(_) => PgType::Int8,
            DynamicValue::Str(_) => PgType::Text,
            DynamicValue::Text(_) => PgType::Text,
            DynamicValue::VarChar(_) => PgType::VarChar,
            DynamicValue::Bytes(_) => PgType::Bytea,
            DynamicValue::Uuid(_) => PgType::Uuid,
            DynamicValue::Json(_) => PgType::Json,
            DynamicValue::Jsonb(_) => PgType::Jsonb,
            DynamicValue::MacAddr6(_) => PgType::MacAddr6,
            DynamicValue::MacAddr8(_) => PgType::MacAddr8,
            DynamicValue::Sequence(_) => PgType::Json,
            DynamicValue::Mapping(_) => PgType::Json,
        }
    }

    /// The numeric content of an integer-shaped value.
    fn int_value(&self) -> (r: Option<i64>)
        ensures
            match r {
                Some(x) => spec_int_value(*self) == Some(x as int),
                None => spec_int_value(*self) is None,
            },
    {
        match self {
            DynamicValue::Int(x) => Some(*x),
            DynamicValue::SmallInt(x) => Some(*x as i64),
            DynamicValue::Integer(x) => Some(*x as i64),
            DynamicValue::BigInt(x) => Some(*x),
            _ => None,
        }
    }
}

/// Deep copy of a JSON tree, exact up to the canonical text.
fn clone_json(j: &JsonValue) -> (r: JsonValue)
    ensures
        json_chars(r) == json_chars(*j),
    decreases *j,
{
    match j {
        JsonValue::Null => JsonValue::Null,
        JsonValue::Bool(b) => JsonValue::Bool(*b),
        JsonValue::Int(x) => JsonValue::Int(*x),
        JsonValue::Str(s) => JsonValue::Str(s.clone()),
        JsonValue::Arr(v) => JsonValue::Arr(clone_json_vec(v)),
        JsonValue::Obj(v) => JsonValue::Obj(clone_json_entries(v)),
    }
}

fn clone_json_vec(v: &Vec<JsonValue>) -> (r: Vec<JsonValue>)
    ensures
        arr_body_chars(r@) == arr_body_chars(v@),
        r@.len() == v@.len(),
        forall|k: int| 0 <= k < v@.len() ==> json_chars(#[trigger] r@[k]) == json_chars(v@[k]),
    decreases *v,
{
    let n: usize = v.len();
    let mut out: Vec<JsonValue> = Vec::new();
    let mut i: usize = 0;
    while i < n
        invariant
            i <= n,
            n == v@.len(),
            out@.len() == i,
            forall|k: int| 0 <= k < i ==> json_chars(#[trigger] out@[k]) == json_chars(v@[k]),
        decreases n - i,
    {
        proof {
            vstd::std_specs::vec::axiom_vec_index_decreases::<JsonValue>(*v, i as int);
        }
        let c = clone_json(&v[i]);
        out.push(c);
        i = i + 1;
    }
    proof {
        lemma_arr_body_congruence(out@, v@);
    }
    out
}

fn clone_json_entries(v: &Vec<(String, JsonValue)>) -> (r: Vec<(String, JsonValue)>)
    ensures
        obj_body_chars(r@) == obj_body_chars(v@),
    decreases *v,
{
    let n: usize = v.len();
    let mut out: Vec<(String, JsonValue)> = Vec::new();
    let mut i: usize = 0;
    while i < n
        invariant
            i <= n,
            n == v@.len(),
            out@.len() == i,
            forall|k: int| 0 <= k < i ==> entry_chars(#[trigger] out@[k]) == entry_chars(v@[k]),
        decreases n - i,
    {
        proof {
            vstd::std_specs::vec::axiom_vec_index_decreases::<(String, JsonValue)>(*v, i as int);
        }
        let c = clone_entry(&v[i]);
        out.push(c);
        i = i + 1;
    }
    proof {
        lemma_obj_body_congruence(out@, v@);
    }
    out
}

fn clone_entry(e: &(String, JsonValue)) -> (r: (String, JsonValue))
    ensures
        entry_chars(r) == entry_chars(*e),
    decreases *e,
{
    (e.0.clone(), clone_json(&e.1))
}

/// Array bodies agree when the element texts agree pointwise.
proof fn lemma_arr_body_congruence(a: Seq<JsonValue>, b: Seq<JsonValue>)
    requires
        a.len() == b.len(),
        forall|k: int| 0 <= k < a.len() ==> json_chars(#[trigger] a[k]) == json_chars(b[k]),
    ensures
        arr_body_chars(a) == arr_body_chars(b),
    decreases a.len(),
{
    if a.len() > 1 {
        assert(forall|k: int|
            0 <= k < a.drop_first().len() ==> json_chars(#[trigger] a.drop_first()[k])
                == json_chars(b.drop_first()[k]));
        lemma_arr_body_congruence(a.drop_first(), b.drop_first());
    }
}

/// Object bodies agree when the member texts agree pointwise.
proof fn lemma_obj_body_congruence(a: Seq<(String, JsonValue)>, b: Seq<(String, JsonValue)>)
    requires
        a.len() == b.len(),
        forall|k: int| 0 <= k < a.len() ==> entry_chars(#[trigger] a[k]) == entry_chars(b[k]),
    ensures
        obj_body_chars(a) == obj_body_chars(b),
    decreases a.len(),
{
    if a.len() > 1 {
        assert(forall|k: int|
            0 <= k < a.drop_first().len() ==> entry_chars(#[trigger] a.drop_first()[k])
                == entry_chars(b.drop_first()[k]));
        lemma_obj_body_congruence(a.drop_first(), b.drop_first());
    }
}

/// Build the JSON tree of a JSON-compatible value; `None` exactly on
/// values outside the JSON-compatible fragment.
pub fn dynamic_to_json(v: &DynamicValue) -> (r: Option<JsonValue>)
    ensures
        match r {
            Some(j) => json_convertible(*v) && json_chars(j) == dyn_json_chars(*v),
            None => !json_convertible(*v),
        },
    decreases *v,
{
    match v {
        DynamicValue::Null => Some(JsonValue::Null),
        DynamicValue::Boolean(b) => Some(JsonValue::Bool(*b)),
        DynamicValue::Int(x) => Some(JsonValue::Int(*x)),
        DynamicValue::SmallInt(x) => Some(JsonValue::Int(*x as i64)),
        DynamicValue::Integer(x) => Some(JsonValue::Int(*x as i64)),
        DynamicValue::BigInt(x) => Some(JsonValue::Int(*x)),
        DynamicValue::Str(s) => Some(JsonValue::Str(s.clone())),
        DynamicValue::Text(s) => Some(JsonValue::Str(s.clone())),
        DynamicValue::VarChar(s) => Some(JsonValue::Str(s.clone())),
        DynamicValue::Json(j) => Some(clone_json(j)),
        DynamicValue::Jsonb(j) => Some(clone_json(j)),
        DynamicValue::Sequence(elems) => match dyn_seq_to_json(elems) {
            Some(jv) => Some(JsonValue::Arr(jv)),
            None => None,
        },
        DynamicValue::Mapping(entries) => match dyn_map_to_json(entries) {
            Some(jv) => Some(JsonValue::Obj(jv)),
            None => None,
        },
        _ => None,
    }
}

fn dyn_seq_to_json(elems: &Vec<DynamicValue>) -> (r: Option<Vec<JsonValue>>)
    ensures
        match r {
            Some(jv) => seq_json_convertible(elems@) && arr_body_chars(jv@) == dyn_arr_chars(
                elems@,
            ),
            None => !seq_json_convertible(elems@),
        },
    decreases *elems,
{
    let n: usize = elems.len();
    let mut out: Vec<JsonValue> = Vec::new();
    let mut i: usize = 0;
    while i < n
        invariant
            i <= n,
            n == elems@.len(),
            out@.len() == i,
            seq_json_convertible(elems@.subrange(0, i as int)),
            arr_body_chars(out@) == dyn_arr_chars(elems@.subrange(0, i as int)),
        decreases n - i,
    {
        proof {
            vstd::std_specs::vec::axiom_vec_index_decreases::<DynamicValue>(*elems, i as int);
        }
        let converted: Option<JsonValue> = dynamic_to_json(&elems[i]);
        match converted {
            Some(j) => {
                let ghost pre_out = out@;
                let ghost jc = json_chars(j);
                out.push(j);
                proof {
                    assert(out@ =~= pre_out.push(out@.last()));
                    assert(json_chars(out@.last()) == jc);
                    assert(elems@.subrange(0, i + 1) =~= elems@.subrange(0, i as int).push(
                        elems@[i as int],
                    ));
                    lemma_dyn_seq_snoc(elems@.subrange(0, i as int), elems@[i as int]);
                    crate::json::lemma_arr_body_snoc(pre_out, out@.last());
                    assert(arr_body_chars(out@) == dyn_arr_chars(elems@.subrange(0, i + 1)));
                }
            },
            None => {
                proof {
                    lemma_dyn_seq_prefix_not(elems@, i as int);
                }
                return None;
            },
        }
        i = i + 1;
    }
    proof {
        assert(elems@.subrange(0, n as int) =~= elems@);
    }
    Some(out)
}

fn dyn_map_to_json(entries: &Vec<(String, DynamicValue)>) -> (r: Option<
    Vec<(String, JsonValue)>,
>)
    ensures
        match r {
            Some(jv) => map_json_convertible(entries@) && obj_body_chars(jv@) == dyn_obj_chars(
                entries@,
            ),
            None => !map_json_convertible(entries@),
        },
    decreases *entries,
{
    let n: usize = entries.len();
    let mut out: Vec<(String, JsonValue)> = Vec::new();
    let mut i: usize = 0;
    while i < n
        invariant
            i <= n,
            n == entries@.len(),
            out@.len() == i,
            map_json_convertible(entries@.subrange(0, i as int)),
            obj_body_chars(out@) == dyn_obj_chars(entries@.subrange(0, i as int)),
        decreases n - i,
    {
        proof {
            vstd::std_specs::vec::axiom_vec_index_decreases::<(String, DynamicValue)>(
                *entries,
                i as int,
            );
        }
        let converted: Option<(String, JsonValue)> = dyn_map_entry_to_json(&entries[i]);
        match converted {
            Some(j) => {
                let ghost pre_out = out@;
                let ghost jc = entry_chars(j);
                out.push(j);
                proof {
                    assert(out@ =~= pre_out.push(out@.last()));
                    assert(entry_chars(out@.last()) == jc);
                    assert(entries@.subrange(0, i + 1) =~= entries@.subrange(0, i as int).push(
                        entries@[i as int],
                    ));
                    lemma_dyn_map_snoc(entries@.subrange(0, i as int), entries@[i as int]);
                    crate::json::lemma_obj_body_snoc(pre_out, out@.last());
                    assert(obj_body_chars(out@) == dyn_obj_chars(entries@.subrange(0, i + 1)));
                }
            },
            None => {
                proof {
                    lemma_dyn_map_prefix_not(entries@, i as int);
                }
                return None;
            },
        }
        i = i + 1;
    }
    proof {
        assert(entries@.subrange(0, n as int) =~= entries@);
    }
    Some(out)
}

fn dyn_map_entry_to_json(e: &(String, DynamicValue)) -> (r: Option<(String, JsonValue)>)
    ensures
        match r {
            Some(p) => json_convertible(e.1) && entry_chars(p) == quoted_chars(e.0@) + seq![':']
                + dyn_json_chars(e.1),
            None => !json_convertible(e.1),
        },
    decreases *e,
{
    match dynamic_to_json(&e.1) {
        Some(j) => Some((e.0.clone(), j)),
        None => None,
    }
}

proof fn lemma_dyn_seq_snoc(elems: Seq<DynamicValue>, e: DynamicValue)
    ensures
        dyn_arr_chars(elems.push(e)) == if elems.len() == 0 {
            dyn_json_chars(e)
        } else {
            dyn_arr_chars(elems) + seq![','] + dyn_json_chars(e)
        },
        seq_json_convertible(elems.push(e)) == (seq_json_convertible(elems) && json_convertible(
            e,
        )),
    decreases elems.len(),
{
    let snoc = elems.push(e);
    if elems.len() == 0 {
        assert(snoc.len() == 1);
        assert(snoc[0] == e);
        assert(snoc.drop_first() =~= Seq::<DynamicValue>::empty());
        assert(seq_json_convertible(snoc.drop_first()));
        assert(seq_json_convertible(elems));
        assert(seq_json_convertible(snoc) == (json_convertible(snoc[0]) && seq_json_convertible(
            snoc.drop_first(),
        )));
        assert(dyn_arr_chars(snoc) == dyn_json_chars(e));
    } else {
        assert(snoc[0] == elems[0]);
        assert(snoc.drop_first() =~= elems.drop_first().push(e));
        lemma_dyn_seq_snoc(elems.drop_first(), e);
        assert(seq_json_convertible(snoc) == (json_convertible(snoc[0]) && seq_json_convertible(
            snoc.drop_first(),
        )));
        assert(seq_json_convertible(elems) == (json_convertible(elems[0]) && seq_json_convertible(
            elems.drop_first(),
        )));
        if elems.len() == 1 {
            assert(dyn_arr_chars(snoc) =~= dyn_arr_chars(elems) + seq![','] + dyn_json_chars(e));
        } else {
            assert(dyn_arr_chars(snoc) =~= dyn_arr_chars(elems) + seq![','] + dyn_json_chars(e));
        }
    }
}

proof fn lemma_dyn_map_snoc(entries: Seq<(String, DynamicValue)>, e: (String, DynamicValue))
    ensures
        dyn_obj_chars(entries.push(e)) == if entries.len() == 0 {
            quoted_chars(e.0@) + seq![':'] + dyn_json_chars(e.1)
        } else {
            dyn_obj_chars(entries) + seq![','] + quoted_chars(e.0@) + seq![':'] + dyn_json_chars(
                e.1,
            )
        },
        map_json_convertible(entries.push(e)) == (map_json_convertible(entries)
            && json_convertible(e.1)),
    decreases entries.len(),
{
    let snoc = entries.push(e);
    if entries.len() == 0 {
        assert(snoc.len() == 1);
        assert(snoc[0] == e);
        assert(snoc.drop_first() =~= Seq::<(String, DynamicValue)>::empty());
        assert(map_json_convertible(snoc.drop_first()));
        assert(map_json_convertible(entries));
        assert(map_json_convertible(snoc) == (json_convertible(snoc[0].1) && map_json_convertible(
            snoc.drop_first(),
        )));
        assert(dyn_obj_chars(snoc) == quoted_chars(e.0@) + seq![':'] + dyn_json_chars(e.1));
    } else {
        assert(snoc[0] == entries[0]);
        assert(snoc.drop_first() =~= entries.drop_first().push(e));
        lemma_dyn_map_snoc(entries.drop_first(), e);
        assert(map_json_convertible(snoc) == (json_convertible(snoc[0].1) && map_json_convertible(
            snoc.drop_first(),
        )));
        assert(map_json_convertible(entries) == (json_convertible(entries[0].1)
            && map_json_convertible(entries.drop_first())));
        if entries.len() == 1 {
            assert(dyn_obj_chars(snoc) =~= dyn_obj_chars(entries) + seq![','] + quoted_chars(e.0@)
                + seq![':'] + dyn_json_chars(e.1));
        } else {
            assert(dyn_obj_chars(snoc) =~= dyn_obj_chars(entries) + seq![','] + quoted_chars(e.0@)
                + seq![':'] + dyn_json_chars(e.1));
        }
    }
}

proof fn lemma_dyn_seq_prefix_not(elems: Seq<DynamicValue>, i: int)
    requires
        0 <= i < elems.len(),
        seq_json_convertible(elems.subrange(0, i)),
        !json_convertible(elems[i]),
    ensures
        !seq_json_convertible(elems),
    decreases i,
{
    if i == 0 {
        assert(elems[0] == elems[0]);
    } else {
        assert(elems.subrange(0, i)[0] == elems[0]);
        assert(elems.drop_first().subrange(0, i - 1) =~= elems.subrange(0, i).drop_first());
        assert(elems.drop_first()[i - 1] == elems[i]);
        lemma_dyn_seq_prefix_not(elems.drop_first(), i - 1);
    }
}

proof fn lemma_dyn_map_prefix_not(entries: Seq<(String, DynamicValue)>, i: int)
    requires
        0 <= i < entries.len(),
        map_json_convertible(entries.subrange(0, i)),
        !json_convertible(entries[i].1),
    ensures
        !map_json_convertible(entries),
    decreases i,
{
    if i == 0 {
        assert(entries[0] == entries[0]);
    } else {
        assert(entries.subrange(0, i)[0] == entries[0]);
        assert(entries.drop_first().subrange(0, i - 1) =~= entries.subrange(0, i).drop_first());
        assert(entries.drop_first()[i - 1] == entries[i]);
        lemma_dyn_map_prefix_not(entries.drop_first(), i - 1);
    }
}

/// Convert a caller value, with an optional explicit type tag, into a
/// wire-ready parameter.  The tag always wins over inference; absent a
/// tag, the inferred type of the value's native shape is used.  Returns
/// a conversion error exactly when the value cannot be laid out at the
/// targeted wire type.
pub fn encode(v: &DynamicValue, tag: Option<PgType>) -> (r: Result<QueryParameter, DriverError>)
    ensures
        match r {
            Ok(p) => {
                &&& p.ty == spec_target_type(*v, tag)
                &&& spec_encodes(*v, spec_target_type(*v, tag)) == Some(datum_view(p.data))
            },
            Err(e) => {
                &&& spec_encodes(*v, spec_target_type(*v, tag)) is None
                &&& e.kind == ErrorKind::Conversion
            },
        },
{
    let t: PgType = match tag {
        Some(t0) => t0,
        None => v.infer_type(),
    };
    if let DynamicValue::Null = v {
        return Ok(QueryParameter { ty: t, data: None });
    }
    match t {
        PgType::Bool => match v {
            DynamicValue::Boolean(b) => {
                let mut d: Vec<u8> = Vec::new();
                if *b {
                    d.push(1);
                } else {
                    d.push(0);
                }
                proof {
                    assert(d@ =~= seq![if *b { 1u8 } else { 0u8 }]);
                }
                Ok(QueryParameter { ty: t, data: Some(d) })
            },
            _ => Err(conversion_error()),
        },
        PgType::Int2 => match v.int_value() {
            Some(x) => if -0x8000 <= x && x < 0x8000 {
                let mut d: Vec<u8> = Vec::new();
                push_be(&mut d, ((x as i16) as u16) as u128, 2);
                Ok(QueryParameter { ty: t, data: Some(d) })
            } else {
                Err(conversion_error())
            },
            None => Err(conversion_error()),
        },
        PgType::Int4 => match v.int_value() {
            Some(x) => if -0x80000000 <= x && x < 0x80000000 {
                let mut d: Vec<u8> = Vec::new();
                push_be(&mut d, ((x as i32) as u32) as u128, 4);
                Ok(QueryParameter { ty: t, data: Some(d) })
            } else {
                Err(conversion_error())
            },
            None => Err(conversion_error()),
        },
        PgType::Int8 => match v.int_value() {
            Some(x) => {
                let mut d: Vec<u8> = Vec::new();
                push_be(&mut d, (x as u64) as u128, 8);
                Ok(QueryParameter { ty: t, data: Some(d) })
            },
            None => Err(conversion_error()),
        },
        PgType::Text => match v {
            DynamicValue::Str(s) | DynamicValue::Text(s) | DynamicValue::VarChar(s) => Ok(
                QueryParameter { ty: t, data: Some(s.as_str().as_bytes_vec()) },
            ),
            _ => Err(conversion_error()),
        },
        PgType::VarChar => match v {
            DynamicValue::Str(s) | DynamicValue::Text(s) | DynamicValue::VarChar(s) => Ok(
                QueryParameter { ty: t, data: Some(s.as_str().as_bytes_vec()) },
            ),
            _ => Err(conversion_error()),
        },
        PgType::Bytea => match v {
            DynamicValue::Bytes(b) => Ok(
                QueryParameter { ty: t, data: Some(copy_bytes(b.as_slice())) },
            ),
            _ => Err(conversion_error()),
        },
        PgType::Uuid => match v {
            DynamicValue::Uuid(u) => {
                let mut d: Vec<u8> = Vec::new();
                push_be(&mut d, *u, 16);
                Ok(QueryParameter { ty: t, data: Some(d) })
            },
            _ => Err(conversion_error()),
        },
        PgType::Json => match dynamic_to_json(v) {
            Some(j) => {
                let text: String = json_string(&j);
                Ok(QueryParameter { ty: t, data: Some(text.as_str().as_bytes_vec()) })
            },
            None => Err(conversion_error()),
        },
        PgType::Jsonb => match dynamic_to_json(v) {
            Some(j) => {
                let text: String = json_string(&j);
                let payload: Vec<u8> = text.as_str().as_bytes_vec();
                let mut d: Vec<u8> = Vec::new();
                d.push(1);
                let mut k: usize = 0;
                let m: usize = payload.len();
                while k < m
                    invariant
                        k <= m,
                        m == payload@.len(),
                        d@ == seq![1u8] + payload@.subrange(0, k as int),
                    decreases m - k,
                {
                    let byte: u8 = payload[k];
                    d.push(byte);
                    proof {
                        assert(payload@.subrange(0, k + 1) =~= payload@.subrange(
                            0,
                            k as int,
                        ).push(payload@[k as int]));
                        assert(d@ =~= seq![1u8] + payload@.subrange(0, k + 1));
                    }
                    k = k + 1;
                }
                proof {
                    assert(payload@.subrange(0, m as int) =~= payload@);
                }
                Ok(QueryParameter { ty: t, data: Some(d) })
            },
            None => Err(conversion_error()),
        },
        PgType::MacAddr6 => match v {
            DynamicValue::MacAddr6(m) => if *m < 0x1000000000000 {
                let mut d: Vec<u8> = Vec::new();
                push_be(&mut d, *m as u128, 6);
                Ok(QueryParameter { ty: t, data: Some(d) })
            } else {
                Err(conversion_error())
            },
            _ => Err(conversion_error()),
        },
        PgType::MacAddr8 => match v {
            DynamicValue::MacAddr8(m) => {
                let mut d: Vec<u8> = Vec::new();
                push_be(&mut d, *m as u128, 8);
                Ok(QueryParameter { ty: t, data: Some(d) })
            },
            _ => Err(conversion_error()),
        },
        PgType::Unspecified => Err(conversion_error()),
    }
}

/// What it means for a typed host value to be the decoding of a wire
/// column datum at a known wire type.
pub open spec fn wire_decodes(t: PgType, datum: Option<Seq<u8>>, v: DynamicValue) -> bool {
    match datum {
        None => v is Null,
        Some(b) => match t {
            PgType::Bool => (b == seq![0u8] && v == DynamicValue::Boolean(false)) || (b == seq![
                1u8,
            ] && v == DynamicValue::Boolean(true)),
            PgType::Int2 => b.len() == 2 && (v matches DynamicValue::SmallInt(x) && u16_image(
                x as int,
            ) == be_val(b)),
            PgType::Int4 => b.len() == 4 && (v matches DynamicValue::Integer(x) && u32_image(
                x as int,
            ) == be_val(b)),
            PgType::Int8 => b.len() == 8 && (v matches DynamicValue::BigInt(x) && u64_image(
                x as int,
            ) == be_val(b)),
            PgType::Text => v matches DynamicValue::Str(s) && encode_utf8(s@) == b,
            PgType::VarChar => v matches DynamicValue::VarChar(s) && encode_utf8(s@) == b,
            PgType::Bytea => v matches DynamicValue::Bytes(bb) && bb@ == b,
            PgType::Uuid => b.len() == 16 && (v matches DynamicValue::Uuid(u) && u as int
                == be_val(b)),
            PgType::Json => v matches DynamicValue::Json(j) && valid_utf8(b) && json_chars(j)
                == strip_json_ws(decode_utf8(b)),
            PgType::Jsonb => b.len() >= 1 && b[0] == 1 && (v matches DynamicValue::Jsonb(j)
                && valid_utf8(b.drop_first()) && json_chars(j) == strip_json_ws(
                decode_utf8(b.drop_first()),
            )),
            PgType::MacAddr6 => b.len() == 6 && (v matches DynamicValue::MacAddr6(m) && m as int
                == be_val(b)),
            PgType::MacAddr8 => b.len() == 8 && (v matches DynamicValue::MacAddr8(m) && m as int
                == be_val(b)),
            PgType::Unspecified => false,
        },
    }
}

/// The data for which decoding promises success outright: every
/// well-formed datum of the fixed-layout and textual types.  For the
/// JSON types success additionally needs the payload to be the canonical
/// text of a value, which this predicate does not capture.
pub open spec fn basic_decodable(t: PgType, datum: Option<Seq<u8>>) -> bool {
    match datum {
        None => true,
        Some(b) => match t {
            PgType::Bool => b == seq![0u8] || b == seq![1u8],
            PgType::Int2 => b.len() == 2,
            PgType::Int4 => b.len() == 4,
            PgType::Int8 => b.len() == 8,
            PgType::Text => vstd::utf8::valid_utf8(b),
            PgType::VarChar => vstd::utf8::valid_utf8(b),
            PgType::Bytea => true,
            PgType::Uuid => b.len() == 16,
            PgType::Json => false,
            PgType::Jsonb => false,
            PgType::MacAddr6 => b.len() == 6,
            PgType::MacAddr8 => b.len() == 8,
            PgType::Unspecified => false,
        },
    }
}

/// The mathematical view of an optional byte-slice datum.
pub open spec fn slice_datum_view(data: Option<&[u8]>) -> Option<Seq<u8>> {
    match data {
        Some(b) => Some(b@),
        None => None,
    }
}

/// Decode a wire column value, dispatching strictly on the column's
/// declared OID.  An unrecognized OID, or a datum that is not a valid
/// layout of the column's type, is a conversion error.
pub fn decode(oid: u32, data: Option<&[u8]>) -> (r: Result<DynamicValue, DriverError>)
    ensures
        match r {
            Ok(v) => spec_type_of_oid(oid) matches Some(t) && wire_decodes(
                t,
                slice_datum_view(data),
                v,
            ),
            Err(e) => e.kind == ErrorKind::Conversion,
        },
        (spec_type_of_oid(oid) matches Some(t) && basic_decodable(t, slice_datum_view(data)))
            ==> r is Ok,
{
    let t: PgType = match PgType::of_oid(oid) {
        Some(t0) => t0,
        None => {
            return Err(conversion_error());
        },
    };
    let b: &[u8] = match data {
        Some(b0) => b0,
        None => {
            return Ok(DynamicValue::Null);
        },
    };
    let n: usize = b.len();
    match t {
        PgType::Bool => {
            if n == 1 {
                let byte: u8 = *vstd::slice::slice_index_get(b, 0);
                if byte == 0 {
                    proof {
                        assert(b@ =~= seq![0u8]);
                    }
                    Ok(DynamicValue::Boolean(false))
                } else if byte == 1 {
                    proof {
                        assert(b@ =~= seq![1u8]);
                    }
                    Ok(DynamicValue::Boolean(true))
                } else {
                    proof {
                        assert(b@ != seq![0u8] && b@ != seq![1u8]) by {
                            assert(b@[0] != 0 && b@[0] != 1);
                        };
                    }
                    Err(conversion_error())
                }
            } else {
                proof {
                    assert(b@ != seq![0u8] && b@ != seq![1u8]);
                }
                Err(conversion_error())
            }
        },
        PgType::Int2 => {
            if n == 2 {
                let raw: u128 = read_be(b);
                proof {
                    crate::wire::lemma_be_val_bound(b@);
                    assert(crate::wire::pow256(2) == 65536) by {
                        reveal_with_fuel(crate::wire::pow256, 3);
                    };
                }
                let w: u16 = raw as u16;
                let x: i16 = w as i16;
                proof {
                    assert(w as int == be_val(b@));
                    assert((x as u16) == w) by (bit_vector)
                        requires
                            x == w as i16,
                    ;
                }
                Ok(DynamicValue::SmallInt(x))
            } else {
                Err(conversion_error())
            }
        },
        PgType::Int4 => {
            if n == 4 {
                let raw: u128 = read_be(b);
                proof {
                    crate::wire::lemma_be_val_bound(b@);
                    assert(crate::wire::pow256(4) == 0x100000000) by {
                        reveal_with_fuel(crate::wire::pow256, 5);
                    };
                }
                let w: u32 = raw as u32;
                let x: i32 = w as i32;
                proof {
                    assert((x as u32) == w) by (bit_vector)
                        requires
                            x == w as i32,
                    ;
                }
                Ok(DynamicValue::Integer(x))
            } else {
                Err(conversion_error())
            }
        },
        PgType::Int8 => {
            if n == 8 {
                let raw: u128 = read_be(b);
                proof {
                    crate::wire::lemma_be_val_bound(b@);
                    assert(crate::wire::pow256(8) == 0x10000000000000000) by {
                        reveal_with_fuel(crate::wire::pow256, 9);
                    };
                }
                let w: u64 = raw as u64;
                let x: i64 = w as i64;
                proof {
                    assert((x as u64) == w) by (bit_vector)
                        requires
                            x == w as i64,
                    ;
                }
                Ok(DynamicValue::BigInt(x))
            } else {
                Err(conversion_error())
            }
        },
        PgType::Text => match bytes_to_string(b) {
            Some(text) => Ok(DynamicValue::Str(text)),
            None => Err(conversion_error()),
        },
        PgType::VarChar => match bytes_to_string(b) {
            Some(text) => Ok(DynamicValue::VarChar(text)),
            None => Err(conversion_error()),
        },
        PgType::Bytea => Ok(DynamicValue::Bytes(copy_bytes(b))),
        PgType::Uuid => {
            if n == 16 {
                let raw: u128 = read_be(b);
                Ok(DynamicValue::Uuid(raw))
            } else {
                Err(conversion_error())
            }
        },
        PgType::Json => match bytes_to_string(b) {
            Some(text) => match parse_json(text.as_str()) {
                Some(j) => {
                    proof {
                        vstd::utf8::encode_utf8_decode_utf8(text@);
                    }
                    Ok(DynamicValue::Json(j))
                },
                None => Err(conversion_error()),
            },
            None => Err(conversion_error()),
        },
        PgType::Jsonb => {
            if n >= 1 {
                let version: u8 = *vstd::slice::slice_index_get(b, 0);
                if version == 1 {
                    let rest: &[u8] = vstd::slice::slice_subrange(b, 1, n);
                    match bytes_to_string(rest) {
                        Some(text) => match parse_json(text.as_str()) {
                            Some(j) => {
                                proof {
                                    vstd::utf8::encode_utf8_decode_utf8(text@);
                                    assert(b@.drop_first() =~= rest@);
                                }
                                Ok(DynamicValue::Jsonb(j))
                            },
                            None => Err(conversion_error()),
                        },
                        None => Err(conversion_error()),
                    }
                } else {
                    Err(conversion_error())
                }
            } else {
                Err(conversion_error())
            }
        },
        PgType::MacAddr6 => {
            if n == 6 {
                let raw: u128 = read_be(b);
                proof {
                    crate::wire::lemma_be_val_bound(b@);
                    assert(crate::wire::pow256(6) == 0x1000000000000) by {
                        reveal_with_fuel(crate::wire::pow256, 7);
                    };
                }
                Ok(DynamicValue::MacAddr6(raw as u64))
            } else {
                Err(conversion_error())
            }
        },
        PgType::MacAddr8 => {
            if n == 8 {
                let raw: u128 = read_be(b);
                proof {
                    crate::wire::lemma_be_val_bound(b@);
                    assert(crate::wire::pow256(8) == 0x10000000000000000) by {
                        reveal_with_fuel(crate::wire::pow256, 9);
                    };
                }
                Ok(DynamicValue::MacAddr8(raw as u64))
            } else {
                Err(conversion_error())
            }
        },
        PgType::Unspecified => Err(conversion_error()),
    }
}


/// The values that decoding can produce: the width-faithful host forms
/// of each wire type.
pub open spec fn canonical_value(v: DynamicValue) -> bool {
    match v {
        DynamicValue::Null => true,
        DynamicValue::Boolean(_) => true,
        DynamicValue::SmallInt(_) => true,
        DynamicValue::Integer(_) => true,
        DynamicValue::BigInt(_) => true,
        DynamicValue::Str(_) => true,
        DynamicValue::VarChar(_) => true,
        DynamicValue::Bytes(_) => true,
        DynamicValue::Uuid(_) => true,
        DynamicValue::Json(_) => true,
        DynamicValue::Jsonb(_) => true,
        DynamicValue::MacAddr6(m) => m < 0x1000000000000,
        DynamicValue::MacAddr8(_) => true,
        _ => false,
    }
}

/// Equality of host values up to the mathematical content: strings by
/// their character sequences, byte buffers by their bytes, JSON trees by
/// their canonical text, every other variant by its fields.
pub open spec fn same_dynamic(a: DynamicValue, b: DynamicValue) -> bool {
    match (a, b) {
        (DynamicValue::Null, DynamicValue::Null) => true,
        (DynamicValue::Boolean(x), DynamicValue::Boolean(y)) => x == y,
        (DynamicValue::SmallInt(x), DynamicValue::SmallInt(y)) => x == y,
        (DynamicValue::Integer(x), DynamicValue::Integer(y)) => x == y,
        (DynamicValue::BigInt(x), DynamicValue::BigInt(y)) => x == y,
        (DynamicValue::Str(x), DynamicValue::Str(y)) => x@ == y@,
        (DynamicValue::VarChar(x), DynamicValue::VarChar(y)) => x@ == y@,
        (DynamicValue::Bytes(x), DynamicValue::Bytes(y)) => x@ == y@,
        (DynamicValue::Uuid(x), DynamicValue::Uuid(y)) => x == y,
        (DynamicValue::Json(x), DynamicValue::Json(y)) => json_chars(x) == json_chars(y),
        (DynamicValue::Jsonb(x), DynamicValue::Jsonb(y)) => json_chars(x) == json_chars(y),
        (DynamicValue::MacAddr6(x), DynamicValue::MacAddr6(y)) => x == y,
        (DynamicValue::MacAddr8(x), DynamicValue::MacAddr8(y)) => x == y,
        _ => false,
    }
}

/// Round trip, uniqueness direction: whatever value decoding assigns to
/// the datum that encoding a canonical value produced is that canonical
/// value, content for content.  Holds for every supported wire type,
/// the JSON types included.
pub proof fn lemma_round_trip_value(v: DynamicValue, datum: Option<Seq<u8>>, d: DynamicValue)
    requires
        canonical_value(v),
        spec_encodes(v, spec_infer_type(v)) == Some(datum),
        wire_decodes(spec_infer_type(v), datum, d),
    ensures
        same_dynamic(d, v),
{
    broadcast use vstd::utf8::encode_utf8_decode_utf8;

    match v {
        DynamicValue::Boolean(flag) => {
            let b = datum->Some_0;
            assert(seq![0u8][0] == 0u8);
            assert(seq![1u8][0] == 1u8);
            if flag {
                assert(b == seq![1u8]);
            } else {
                assert(b == seq![0u8]);
            }
            assert(same_dynamic(d, v));
        },
        DynamicValue::SmallInt(x) => {
            let b = datum->Some_0;
            assert(crate::wire::pow256(2) == 65536) by {
                reveal_with_fuel(crate::wire::pow256, 3);
            };
            assert(u16_image(x as int) < 65536);
            crate::wire::lemma_be_round_trip(u16_image(x as int), 2);
            let y = d->SmallInt_0;
            assert((x as int) as i16 == x);
            assert((y as int) as i16 == y);
            assert(u16_image(x as int) == u16_image(y as int));
            assert((x as u16) as int == (y as u16) as int);
            assert(x as u16 == y as u16);
            assert(x == y) by (bit_vector)
                requires
                    x as u16 == y as u16,
            ;
        },
        DynamicValue::Integer(x) => {
            let b = datum->Some_0;
            assert(crate::wire::pow256(4) == 0x100000000) by {
                reveal_with_fuel(crate::wire::pow256, 5);
            };
            assert(u32_image(x as int) < 0x100000000);
            crate::wire::lemma_be_round_trip(u32_image(x as int), 4);
            let y = d->Integer_0;
            assert((x as int) as i32 == x);
            assert((y as int) as i32 == y);
            assert(u32_image(x as int) == u32_image(y as int));
            assert((x as u32) as int == (y as u32) as int);
            assert(x as u32 == y as u32);
            assert(x == y) by (bit_vector)
                requires
                    x as u32 == y as u32,
            ;
        },
        DynamicValue::BigInt(x) => {
            let b = datum->Some_0;
            assert(crate::wire::pow256(8) == 0x10000000000000000) by {
                reveal_with_fuel(crate::wire::pow256, 9);
            };
            assert(u64_image(x as int) < 0x10000000000000000);
            crate::wire::lemma_be_round_trip(u64_image(x as int), 8);
            let y = d->BigInt_0;
            assert((x as int) as i64 == x);
            assert((y as int) as i64 == y);
            assert(u64_image(x as int) == u64_image(y as int));
            assert((x as u64) as int == (y as u64) as int);
            assert(x as u64 == y as u64);
            assert(x == y) by (bit_vector)
                requires
                    x as u64 == y as u64,
            ;
        },
        DynamicValue::Str(x) => {
            let y = d->Str_0;
            assert(decode_utf8(encode_utf8(x@)) == x@);
            assert(decode_utf8(encode_utf8(y@)) == y@);
        },
        DynamicValue::VarChar(x) => {
            let y = d->VarChar_0;
            assert(decode_utf8(encode_utf8(x@)) == x@);
            assert(decode_utf8(encode_utf8(y@)) == y@);
        },
        DynamicValue::Uuid(x) => {
            assert(crate::wire::pow256(16) == 0x100000000000000000000000000000000) by {
                reveal_with_fuel(crate::wire::pow256, 17);
            };
            crate::wire::lemma_be_round_trip(x as int, 16);
        },
        DynamicValue::Json(j) => {
            let b = datum->Some_0;
            let j2 = d->Json_0;
            assert(b == encode_utf8(json_chars(j)));
            assert(decode_utf8(b) == json_chars(j));
            lemma_strip_canonical(j);
            assert(json_chars(j2) == json_chars(j));
        },
        DynamicValue::Jsonb(j) => {
            let b = datum->Some_0;
            let j2 = d->Jsonb_0;
            assert(encode_utf8(json_chars(j)) =~= b.drop_first());
            assert(decode_utf8(b.drop_first()) == json_chars(j));
            lemma_strip_canonical(j);
            assert(json_chars(j2) == json_chars(j));
        },
        DynamicValue::MacAddr6(m) => {
            assert(crate::wire::pow256(6) == 0x1000000000000) by {
                reveal_with_fuel(crate::wire::pow256, 7);
            };
            crate::wire::lemma_be_round_trip(m as int, 6);
        },
        DynamicValue::MacAddr8(m) => {
            assert(crate::wire::pow256(8) == 0x10000000000000000) by {
                reveal_with_fuel(crate::wire::pow256, 9);
            };
            crate::wire::lemma_be_round_trip(m as int, 8);
        },
        _ => {},
    }
}

/// Round trip, success direction: the datum that encoding a canonical
/// non-JSON value produces is one that decoding promises to accept.
/// (For the JSON types acceptance is established by the reader itself
/// and exercised by tests, not promised here.)
pub proof fn lemma_round_trip_decodable(v: DynamicValue, datum: Option<Seq<u8>>)
    requires
        canonical_value(v),
        !(v is Json),
        !(v is Jsonb),
        spec_encodes(v, spec_infer_type(v)) == Some(datum),
    ensures
        basic_decodable(spec_infer_type(v), datum),
{
    broadcast use vstd::utf8::encode_utf8_valid_utf8;

    match v {
        DynamicValue::SmallInt(x) => {
            crate::wire::lemma_be_bytes_len(u16_image(x as int), 2);
        },
        DynamicValue::Integer(x) => {
            crate::wire::lemma_be_bytes_len(u32_image(x as int), 4);
        },
        DynamicValue::BigInt(x) => {
            crate::wire::lemma_be_bytes_len(u64_image(x as int), 8);
        },
        DynamicValue::Uuid(x) => {
            crate::wire::lemma_be_bytes_len(x as int, 16);
        },
        DynamicValue::MacAddr6(m) => {
            crate::wire::lemma_be_bytes_len(m as int, 6);
        },
        DynamicValue::MacAddr8(m) => {
            crate::wire::lemma_be_bytes_len(m as int, 8);
        },
        _ => {},
    }
}

/// A datum with the JSON types' text put in canonical form: the
/// version framing and every other type's bytes stand untouched.
pub open spec fn canonical_datum(t: PgType, datum: Option<Seq<u8>>) -> Option<Seq<u8>> {
    match datum {
        None => None,
        Some(b) => match t {
            PgType::Json => Some(encode_utf8(strip_json_ws(decode_utf8(b)))),
            PgType::Jsonb => Some(
                seq![1u8] + encode_utf8(strip_json_ws(decode_utf8(b.drop_first()))),
            ),
            _ => Some(b),
        },
    }
}

/// Wire fidelity: re-encoding the decoded value of any datum, at the
/// wire type the datum was decoded at, reproduces the datum bit for
/// bit — with a JSON datum's text put in its canonical form.  Nothing
/// of the value's width or content is lost in a decode.
pub proof fn lemma_wire_fidelity(t: PgType, datum: Option<Seq<u8>>, d: DynamicValue)
    requires
        wire_decodes(t, datum, d),
    ensures
        spec_encodes(d, t) == Some(canonical_datum(t, datum)),
{
    match datum {
        None => {},
        Some(b) => match t {
            PgType::Int2 => {
                let x = d->SmallInt_0;
                crate::wire::lemma_be_bytes_of_val(b);
            },
            PgType::Int4 => {
                let x = d->Integer_0;
                crate::wire::lemma_be_bytes_of_val(b);
            },
            PgType::Int8 => {
                let x = d->BigInt_0;
                crate::wire::lemma_be_bytes_of_val(b);
            },
            PgType::Uuid => {
                crate::wire::lemma_be_bytes_of_val(b);
            },
            PgType::MacAddr6 => {
                crate::wire::lemma_be_val_bound(b);
                assert(crate::wire::pow256(6) == 0x1000000000000) by {
                    reveal_with_fuel(crate::wire::pow256, 7);
                };
                crate::wire::lemma_be_bytes_of_val(b);
            },
            PgType::MacAddr8 => {
                crate::wire::lemma_be_val_bound(b);
                assert(crate::wire::pow256(8) == 0x10000000000000000) by {
                    reveal_with_fuel(crate::wire::pow256, 9);
                };
                crate::wire::lemma_be_bytes_of_val(b);
            },
            PgType::Jsonb => {
                let j = d->Jsonb_0;
                assert(canonical_datum(t, datum) == Some(
                    seq![1u8] + encode_utf8(json_chars(j)),
                ));
            },
            _ => {},
        },
    }
}


/// Whether every value of a parameter list is encodable at its inferred
/// wire type.
pub open spec fn params_encodable(vs: Seq<DynamicValue>) -> bool {
    forall|i: int|
        0 <= i < vs.len() ==> spec_encodes(#[trigger] vs[i], spec_infer_type(vs[i])) is Some
}

/// The pointwise relation between caller values and the wire parameters
/// their conversion produced.
pub open spec fn params_encoded(vs: Seq<DynamicValue>, ps: Seq<QueryParameter>) -> bool {
    &&& ps.len() == vs.len()
    &&& forall|i: int|
        0 <= i < vs.len() ==> {
            &&& (#[trigger] ps[i]).ty == spec_infer_type(vs[i])
            &&& spec_encodes(vs[i], spec_infer_type(vs[i])) == Some(datum_view(ps[i].data))
        }
}

/// Convert a list of caller values to wire parameters, each at its
/// inferred type.  Fails with a conversion error exactly when some
/// value is not encodable.
pub fn convert_parameters(values: &Vec<DynamicValue>) -> (r: Result<
    Vec<QueryParameter>,
    DriverError,
>)
    ensures
        match r {
            Ok(ps) => params_encodable(values@) && params_encoded(values@, ps@),
            Err(e) => !params_encodable(values@) && e.kind == ErrorKind::Conversion,
        },
{
    let n: usize = values.len();
    let mut out: Vec<QueryParameter> = Vec::new();
    let mut i: usize = 0;
    while i < n
        invariant
            i <= n,
            n == values@.len(),
            out@.len() == i,
            forall|k: int|
                0 <= k < i ==> {
                    &&& (#[trigger] out@[k]).ty == spec_infer_type(values@[k])
                    &&& spec_encodes(values@[k], spec_infer_type(values@[k])) == Some(
                        datum_view(out@[k].data),
                    )
                },
        decreases n - i,
    {
        match encode(&values[i], None) {
            Ok(p) => {
                out.push(p);
            },
            Err(e) => {
                proof {
                    assert(spec_encodes(values@[i as int], spec_infer_type(values@[i as int]))
                        is None);
                }
                return Err(e);
            },
        }
        i = i + 1;
    }
    proof {
        assert forall|k: int|
            0 <= k < values@.len() implies spec_encodes(
            #[trigger] values@[k],
            spec_infer_type(values@[k]),
        ) is Some by {
            assert(spec_encodes(values@[k], spec_infer_type(values@[k])) == Some(
                datum_view(out@[k].data),
            ));
        };
        assert(params_encoded(values@, out@));
    }
    Ok(out)
}

} // verus!
