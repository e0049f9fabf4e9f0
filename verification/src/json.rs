//! The JSON document tree the renderers produce.
//!
//! Numbers keep the three shapes a JSON number can have on the wire: a
//! non-negative integer, a negative integer, or a finite double, the last
//! held as its IEEE-754 bit pattern. Objects keep insertion order.

use vstd::prelude::*;
use crate::ordered_map::{OrderedMap, index_in, lemma_index_in, pairs_model, mget, model_keys, minsert, pair_keys, lemma_pairs_insert_model};

verus! {

/// A JSON number.
#[derive(Debug, Clone, Copy, PartialEq, Eq)]
pub enum JsonNumber {
    PosInt(u64),
    NegInt(i64),
    /// A double, as its IEEE-754 bit pattern.
    Float(u64),
}

/// A JSON value.
#[derive(Debug, PartialEq)]
pub enum Json {
    Null,
    Bool(bool),
    Number(JsonNumber),
    Text(String),
    Array(Vec<Json>),
    Object(OrderedMap<Json>),
}

/// The mathematical content of a [`Json`] value.
pub enum JsonModel {
    Null,
    Bool(bool),
    Number(JsonNumber),
    Text(Seq<char>),
    Array(Seq<JsonModel>),
    Object(Seq<(Seq<char>, JsonModel)>),
}

pub closed spec fn json_model(j: Json) -> JsonModel
    decreases j,
{
    match j {
        Json::Null => JsonModel::Null,
        Json::Bool(b) => JsonModel::Bool(b),
        Json::Number(n) => JsonModel::Number(n),
        Json::Text(s) => JsonModel::Text(s@),
        Json::Array(items) => JsonModel::Array(
            Seq::new(
                items@.len(),
                |i: int|
                    if 0 <= i < items@.len() {
                        proof {
                            assert(decreases_to!(items => items@[i]));
                        }
                        json_model(items@[i])
                    } else {
                        JsonModel::Null
                    },
            ),
        ),
        Json::Object(m) => JsonModel::Object(
            Seq::new(
                m.entries@.len(),
                |i: int|
                    if 0 <= i < m.entries@.len() {
                        proof {
                            assert(decreases_to!(m.entries => m.entries@[i].1));
                        }
                        (m.entries@[i].0@, json_model(m.entries@[i].1))
                    } else {
                        (Seq::empty(), JsonModel::Null)
                    },
            ),
        ),
    }
}

impl View for Json {
    type V = JsonModel;

    open spec fn view(&self) -> JsonModel {
        json_model(*self)
    }
}

/// The model of the items of an array.
pub open spec fn items_model(items: Seq<Json>) -> Seq<JsonModel> {
    items.map_values(|j: Json| j@)
}

/// The model of an object's entries.
pub open spec fn object_model(m: OrderedMap<Json>) -> Seq<(Seq<char>, JsonModel)> {
    pairs_model(m.pairs())
}

/// How the model sees scalars, arrays and objects.
pub proof fn lemma_json_view(j: Json)
    ensures
        j matches Json::Null ==> j@ == JsonModel::Null,
        j matches Json::Bool(b) ==> j@ == JsonModel::Bool(b),
        j matches Json::Number(n) ==> j@ == JsonModel::Number(n),
        j matches Json::Text(s) ==> j@ == JsonModel::Text(s@),
        j matches Json::Array(items) ==> j@ == JsonModel::Array(items_model(items@)),
        j matches Json::Object(m) ==> j@ == JsonModel::Object(object_model(m)),
{
    match j {
        Json::Array(items) => {
            assert(json_model(j)->Array_0 =~= items_model(items@));
        },
        Json::Object(m) => {
            m.lemma_pairs_are_entries();
            assert(json_model(j)->Object_0 =~= object_model(m));
        },
        _ => {},
    }
}

/// Whether a double's bit pattern is finite (its exponent is not all ones).
pub open spec fn float_is_finite(bits: u64) -> bool {
    (bits >> 52u64) & 0x7ffu64 != 0x7ffu64
}

pub fn is_finite_bits(bits: u64) -> (r: bool)
    ensures
        r == float_is_finite(bits),
{
    (bits >> 52u64) & 0x7ffu64 != 0x7ffu64
}

/// The JSON number of a signed integer.
pub open spec fn number_of_i64(n: i64) -> JsonNumber {
    if n < 0 {
        JsonNumber::NegInt(n)
    } else {
        JsonNumber::PosInt(n as u64)
    }
}

pub fn number_from_i64(n: i64) -> (r: JsonNumber)
    ensures
        r == number_of_i64(n),
{
    if n < 0 {
        JsonNumber::NegInt(n)
    } else {
        JsonNumber::PosInt(n as u64)
    }
}

/// A number read as a signed integer, where it is one.
pub open spec fn number_as_i64(n: JsonNumber) -> Option<i64> {
    match n {
        JsonNumber::PosInt(u) => if u <= i64::MAX {
            Some(u as i64)
        } else {
            None
        },
        JsonNumber::NegInt(i) => Some(i),
        JsonNumber::Float(_) => None,
    }
}

pub fn as_i64(n: JsonNumber) -> (r: Option<i64>)
    ensures
        r == number_as_i64(n),
{
    match n {
        JsonNumber::PosInt(u) => if u <= i64::MAX as u64 {
            Some(u as i64)
        } else {
            None
        },
        JsonNumber::NegInt(i) => Some(i),
        JsonNumber::Float(_) => None,
    }
}

/// The double nearest to an unsigned integer of at least 2^63, as its bit
/// pattern (round to nearest, ties to even).
pub open spec fn large_u64_float_bits(u: u64) -> u64 {
    let q = u >> 11u64;
    let r = u & 0x7ffu64;
    let up = r > 0x400u64 || (r == 0x400u64 && q & 1u64 == 1u64);
    let m: int = if up { q + 1 } else { q as int };
    if m == 0x20_0000_0000_0000int {
        0x43F0_0000_0000_0000u64
    } else {
        (0x43E0_0000_0000_0000u64 | ((m - 0x10_0000_0000_0000int) as u64)) as u64
    }
}

pub fn large_u64_to_float_bits(u: u64) -> (r: u64)
    requires
        u > i64::MAX,
    ensures
        r == large_u64_float_bits(u),
{
    let q = u >> 11u64;
    let rem = u & 0x7ffu64;
    let up = rem > 0x400u64 || (rem == 0x400u64 && q & 1u64 == 1u64);
    assert(q <= 0x1F_FFFF_FFFF_FFFFu64) by (bit_vector)
        requires
            q == u >> 11u64,
    ;
    assert(q >= 0x10_0000_0000_0000u64) by (bit_vector)
        requires
            q == u >> 11u64,
            u > 0x7FFF_FFFF_FFFF_FFFFu64,
    ;
    let m: u64 = if up { q + 1 } else { q };
    if m == 0x20_0000_0000_0000u64 {
        0x43F0_0000_0000_0000u64
    } else {
        0x43E0_0000_0000_0000u64 | (m - 0x10_0000_0000_0000u64)
    }
}

/// A number read as a double (bit pattern); `None` stands for a negative
/// integer, which the renderers never read this way.
pub open spec fn number_as_float_bits(n: JsonNumber) -> Option<u64> {
    match n {
        JsonNumber::PosInt(u) => if u > i64::MAX {
            Some(large_u64_float_bits(u))
        } else {
            None
        },
        JsonNumber::NegInt(_) => None,
        JsonNumber::Float(b) => Some(b),
    }
}

impl Json {
    /// Object lookup; `None` for a missing key or a value that is not an object.
    pub fn get(&self, k: &str) -> (r: Option<&Json>)
        ensures
            match self@ {
                JsonModel::Object(entries) => match mget(entries, k@) {
                    Some(v) => r is Some && r->0@ == v,
                    None => r is None,
                },
                _ => r is None,
            },
    {
        proof { lemma_json_view(*self); }
        match self {
            Json::Object(m) => {
                let r = m.get(k);
                proof {
                    assert(pair_keys(m.pairs()) =~= model_keys(object_model(*m)));
                    let i = index_in(pair_keys(m.pairs()), k@);
                    if i >= 0 {
                        lemma_index_in(pair_keys(m.pairs()), k@);
                        assert(object_model(*m)[i].1 == m.pairs()[i].1@);
                    }
                }
                r
            },
            _ => None,
        }
    }

    /// The entries of an object.
    pub fn as_object(&self) -> (r: Option<&OrderedMap<Json>>)
        ensures
            match self@ {
                JsonModel::Object(entries) => r is Some && object_model(*r->0) == entries,
                _ => r is None,
            },
    {
        proof { lemma_json_view(*self); }
        match self {
            Json::Object(m) => Some(m),
            _ => None,
        }
    }
}

/// Insert a field into an object under construction.
pub fn insert_field(m: &mut OrderedMap<Json>, k: String, v: Json)
    ensures
        object_model(*final(m)) == minsert(object_model(*old(m)), k@, v@),
{
    proof { lemma_pairs_insert_model(m.pairs(), k, v); }
    m.insert(k, v);
}

} // verus!
