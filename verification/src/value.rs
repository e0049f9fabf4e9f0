//! The typed document tree of the authoring layer.
//!
//! Genuinely recursive: a [`ResourceRef`] survives at any depth, inside
//! lists and maps alike, and is projected to `${type.name.attribute}` only
//! when the tree is rendered to JSON.

use vstd::prelude::*;
use crate::json::{
    as_i64, float_is_finite, is_finite_bits, items_model, large_u64_to_float_bits, lemma_json_view, number_as_float_bits, number_as_i64, number_from_i64,
    number_of_i64, object_model, Json, JsonModel, JsonNumber,
};
use crate::ordered_map::{pair_keys, pairs_insert_all, pairs_map, pairs_model, OrderedMap};
use crate::reference::{
    interpolation, is_coordinate, is_interpolation, law_interpolation_round_trip,
    law_parse_is_exact, parse_interpolation, RefView, ResourceRef,
};
use crate::text::owned;

verus! {

/// A typed document value. Floating-point numbers are held as their
/// IEEE-754 bit pattern.
#[derive(Debug, PartialEq)]
pub enum Value {
    Null,
    Bool(bool),
    Int(i64),
    Float(u64),
    Str(String),
    Ref(ResourceRef),
    List(Vec<Value>),
    Mapping(OrderedMap<Value>),
}

/// The mathematical content of a [`Value`].
pub enum ValueModel {
    Null,
    Bool(bool),
    Int(i64),
    Float(u64),
    Str(Seq<char>),
    Ref(RefView),
    List(Seq<ValueModel>),
    Mapping(Seq<(Seq<char>, ValueModel)>),
}

pub closed spec fn value_model(v: Value) -> ValueModel
    decreases v,
{
    match v {
        Value::Null => ValueModel::Null,
        Value::Bool(b) => ValueModel::Bool(b),
        Value::Int(n) => ValueModel::Int(n),
        Value::Float(b) => ValueModel::Float(b),
        Value::Str(s) => ValueModel::Str(s@),
        Value::Ref(r) => ValueModel::Ref(r@),
        Value::List(items) => ValueModel::List(
            Seq::new(
                items@.len(),
                |i: int|
                    if 0 <= i < items@.len() {
                        proof {
                            assert(decreases_to!(items => items@[i]));
                        }
                        value_model(items@[i])
                    } else {
                        ValueModel::Null
                    },
            ),
        ),
        Value::Mapping(m) => ValueModel::Mapping(
            Seq::new(
                m.entries@.len(),
                |i: int|
                    if 0 <= i < m.entries@.len() {
                        proof {
                            assert(decreases_to!(m.entries => m.entries@[i].1));
                        }
                        (m.entries@[i].0@, value_model(m.entries@[i].1))
                    } else {
                        (Seq::empty(), ValueModel::Null)
                    },
            ),
        ),
    }
}

impl View for Value {
    type V = ValueModel;

    open spec fn view(&self) -> ValueModel {
        value_model(*self)
    }
}

/// The models of a list's items.
pub open spec fn values_model(items: Seq<Value>) -> Seq<ValueModel> {
    items.map_values(|v: Value| v@)
}

/// The JSON projection of every value of a map, keys unchanged.
pub open spec fn values_json(m: OrderedMap<Value>) -> Seq<(Seq<char>, JsonModel)> {
    pairs_map(m.pairs(), |v: Value| value_to_json(v@))
}

/// How the model sees each kind of value.
pub proof fn lemma_value_view(v: Value)
    ensures
        v matches Value::Null ==> v@ == ValueModel::Null,
        v matches Value::Bool(b) ==> v@ == ValueModel::Bool(b),
        v matches Value::Int(n) ==> v@ == ValueModel::Int(n),
        v matches Value::Float(b) ==> v@ == ValueModel::Float(b),
        v matches Value::Str(s) ==> v@ == ValueModel::Str(s@),
        v matches Value::Ref(r) ==> v@ == ValueModel::Ref(r@),
        v matches Value::List(items) ==> v@ == ValueModel::List(values_model(items@)),
        v matches Value::Mapping(m) ==> v@ == ValueModel::Mapping(pairs_model(m.pairs())),
{
    match v {
        Value::List(items) => {
            assert(value_model(v)->List_0 =~= values_model(items@));
        },
        Value::Mapping(m) => {
            m.lemma_pairs_are_entries();
            assert(value_model(v)->Mapping_0 =~= pairs_model(m.pairs()));
        },
        _ => {},
    }
}

/// The JSON projection of a value: references render as
/// `${type.name.attribute}` at whatever depth they sit; a double that is
/// not finite renders as `null`; maps keep their order.
pub open spec fn value_to_json(v: ValueModel) -> JsonModel
    decreases v,
{
    match v {
        ValueModel::Null => JsonModel::Null,
        ValueModel::Bool(b) => JsonModel::Bool(b),
        ValueModel::Int(n) => JsonModel::Number(number_of_i64(n)),
        ValueModel::Float(b) => if float_is_finite(b) {
            JsonModel::Number(JsonNumber::Float(b))
        } else {
            JsonModel::Null
        },
        ValueModel::Str(s) => JsonModel::Text(s),
        ValueModel::Ref(r) => JsonModel::Text(interpolation(r)),
        ValueModel::List(items) => JsonModel::Array(
            Seq::new(
                items.len(),
                |i: int|
                    if 0 <= i < items.len() {
                        proof {
                            assert(decreases_to!(items => items[i]));
                        }
                        value_to_json(items[i])
                    } else {
                        JsonModel::Null
                    },
            ),
        ),
        ValueModel::Mapping(es) => JsonModel::Object(
            Seq::new(
                es.len(),
                |i: int|
                    if 0 <= i < es.len() {
                        proof {
                            assert(decreases_to!(es => es[i]));
                        }
                        (es[i].0, value_to_json(es[i].1))
                    } else {
                        (Seq::empty(), JsonModel::Null)
                    },
            ),
        ),
    }
}

/// What a JSON number lifts to: an integer where it is one, otherwise a
/// double.
pub open spec fn number_to_value(n: JsonNumber) -> ValueModel {
    match number_as_i64(n) {
        Some(i) => ValueModel::Int(i),
        None => ValueModel::Float(
            match number_as_float_bits(n) {
                Some(b) => b,
                None => 0,
            },
        ),
    }
}

/// Lifting JSON back into the tree: a string of the exact shape `${a.b.c}`
/// becomes a reference; every other string stays a string.
pub open spec fn json_to_value(j: JsonModel) -> ValueModel
    decreases j,
{
    match j {
        JsonModel::Null => ValueModel::Null,
        JsonModel::Bool(b) => ValueModel::Bool(b),
        JsonModel::Number(n) => number_to_value(n),
        JsonModel::Text(s) => match parse_interpolation(s) {
            Some(r) => ValueModel::Ref(r),
            None => ValueModel::Str(s),
        },
        JsonModel::Array(items) => ValueModel::List(
            Seq::new(
                items.len(),
                |i: int|
                    if 0 <= i < items.len() {
                        proof {
                            assert(decreases_to!(items => items[i]));
                        }
                        json_to_value(items[i])
                    } else {
                        ValueModel::Null
                    },
            ),
        ),
        JsonModel::Object(es) => ValueModel::Mapping(
            Seq::new(
                es.len(),
                |i: int|
                    if 0 <= i < es.len() {
                        proof {
                            assert(decreases_to!(es => es[i]));
                        }
                        (es[i].0, json_to_value(es[i].1))
                    } else {
                        (Seq::empty(), ValueModel::Null)
                    },
            ),
        ),
    }
}

/// A value that reads back unchanged from its JSON projection: no string
/// that looks like a reference, every reference well formed, every double
/// finite.
pub open spec fn survives_json(v: ValueModel) -> bool
    decreases v,
{
    match v {
        ValueModel::Float(b) => float_is_finite(b),
        ValueModel::Str(s) => !is_interpolation(s),
        ValueModel::Ref(r) => is_coordinate(r),
        ValueModel::List(items) => forall|i: int| 0 <= i < items.len() ==> survives_json(#[trigger] items[i]),
        ValueModel::Mapping(es) => forall|i: int| 0 <= i < es.len() ==> survives_json(#[trigger] es[i].1),
        _ => true,
    }
}

/// JSON in the shape the projection produces: integers that fit a signed
/// 64-bit integer, negative integers marked as such, finite doubles.
pub open spec fn is_projection_shaped(j: JsonModel) -> bool
    decreases j,
{
    match j {
        JsonModel::Number(JsonNumber::PosInt(u)) => u <= i64::MAX,
        JsonModel::Number(JsonNumber::NegInt(i)) => i < 0,
        JsonModel::Number(JsonNumber::Float(b)) => float_is_finite(b),
        JsonModel::Array(items) => forall|i: int| 0 <= i < items.len() ==> is_projection_shaped(#[trigger] items[i]),
        JsonModel::Object(es) => forall|i: int| 0 <= i < es.len() ==> is_projection_shaped(#[trigger] es[i].1),
        _ => true,
    }
}

/// Law: projecting a value to JSON and lifting it back gives the same
/// value, at every depth, whenever the value can survive the trip (no
/// string that looks like a reference, well-formed references, finite
/// doubles). In particular a reference comes back a reference and a map
/// whose keys happen to be `type_id`, `name`, `attribute` comes back a map.
pub proof fn law_value_json_round_trip(v: ValueModel)
    requires
        survives_json(v),
    ensures
        json_to_value(value_to_json(v)) == v,
    decreases v,
{
    match v {
        ValueModel::Ref(r) => {
            law_interpolation_round_trip(r);
        },
        ValueModel::List(items) => {
            let back = json_to_value(value_to_json(v))->List_0;
            assert forall|i: int| 0 <= i < items.len() implies back[i] == items[i] by {
                assert(survives_json(items[i]));
                law_value_json_round_trip(items[i]);
            }
            assert(back =~= items);
        },
        ValueModel::Mapping(es) => {
            let back = json_to_value(value_to_json(v))->Mapping_0;
            assert forall|i: int| 0 <= i < es.len() implies back[i] == es[i] by {
                assert(survives_json(es[i].1));
                law_value_json_round_trip(es[i].1);
            }
            assert(back =~= es);
        },
        _ => {},
    }
}

/// Law: lifting JSON of the projection's shape into the tree and projecting
/// it again gives the same JSON; a string `${a.b.c}` that became a
/// reference renders back to the same characters.
pub proof fn law_json_value_round_trip(j: JsonModel)
    requires
        is_projection_shaped(j),
    ensures
        value_to_json(json_to_value(j)) == j,
    decreases j,
{
    match j {
        JsonModel::Text(s) => {
            if parse_interpolation(s) is Some {
                law_parse_is_exact(s);
            }
        },
        JsonModel::Array(items) => {
            let back = value_to_json(json_to_value(j))->Array_0;
            assert forall|i: int| 0 <= i < items.len() implies back[i] == items[i] by {
                assert(is_projection_shaped(items[i]));
                law_json_value_round_trip(items[i]);
            }
            assert(back =~= items);
        },
        JsonModel::Object(es) => {
            let back = value_to_json(json_to_value(j))->Object_0;
            assert forall|i: int| 0 <= i < es.len() implies back[i] == es[i] by {
                assert(is_projection_shaped(es[i].1));
                law_json_value_round_trip(es[i].1);
            }
            assert(back =~= es);
        },
        _ => {},
    }
}

impl Value {
    pub fn s(v: &str) -> (r: Value)
        ensures
            r@ == ValueModel::Str(v@),
    {
        let r = Value::Str(owned(v));
        proof { lemma_value_view(r); }
        r
    }

    pub fn b(v: bool) -> (r: Value)
        ensures
            r@ == ValueModel::Bool(v),
    {
        proof { lemma_value_view(Value::Bool(v)); }
        Value::Bool(v)
    }

    pub fn n(v: i64) -> (r: Value)
        ensures
            r@ == ValueModel::Int(v),
    {
        proof { lemma_value_view(Value::Int(v)); }
        Value::Int(v)
    }

    /// Build a list. The items are kept as they are: a `Ref` inside a list
    /// stays a `Ref`.
    pub fn arr(items: Vec<Value>) -> (r: Value)
        ensures
            r@ == ValueModel::List(values_model(items@)),
    {
        let r = Value::List(items);
        proof { lemma_value_view(r); }
        r
    }

    /// Build a map by inserting the entries in order; a repeated key keeps
    /// its first position and takes the later value.
    pub fn map(entries: Vec<(String, Value)>) -> (r: Value)
        ensures
            r@ == ValueModel::Mapping(pairs_model(pairs_insert_all(Seq::empty(), entries@))),
    {
        let r = Value::Mapping(OrderedMap::from_pairs(entries));
        proof { lemma_value_view(r); }
        r
    }

    /// Project to JSON for emission. References render as
    /// `${type.name.attribute}` at whatever depth they sit; map order is
    /// insertion order.
    pub fn to_json(&self) -> (r: Json)
        ensures
            r@ == value_to_json(self@),
        decreases self,
    {
        proof { lemma_value_view(*self); }
        let r = match self {
            Value::Null => Json::Null,
            Value::Bool(b) => Json::Bool(*b),
            Value::Int(n) => Json::Number(number_from_i64(*n)),
            Value::Float(b) => if is_finite_bits(*b) {
                Json::Number(JsonNumber::Float(*b))
            } else {
                Json::Null
            },
            Value::Str(s) => Json::Text(s.clone()),
            Value::Ref(rr) => Json::Text(rr.to_interpolation()),
            Value::List(items) => {
                let mut out: Vec<Json> = Vec::new();
                let mut i: usize = 0;
                while i < items.len()
                    invariant
                        *self == Value::List(*items),
                        i <= items@.len(),
                        out@.len() == i,
                        forall|j: int| 0 <= j < i ==> #[trigger] out@[j]@ == value_to_json(items@[j]@),
                    decreases items@.len() - i,
                {
                    proof {
                        assert(decreases_to!(*self => (*self)->List_0));
                        assert(decreases_to!(*items => items@));
                        assert(decreases_to!(items@ => items@[i as int]));
                    }
                    let item = items[i].to_json();
                    out.push(item);
                    i = i + 1;
                }
                proof {
                    let r = Json::Array(out);
                    lemma_json_view(r);
                    assert(items_model(out@) =~= value_to_json(self@)->Array_0);
                }
                Json::Array(out)
            },
            Value::Mapping(m) => {
                proof { use_type_invariant(m); }
                let entries = m.entries();
                let mut out: Vec<(String, Json)> = Vec::new();
                let mut i: usize = 0;
                while i < entries.len()
                    invariant
                        *self == Value::Mapping(*m),
                        entries@ == m.pairs(),
                        i <= entries@.len(),
                        out@.len() == i,
                        forall|j: int| 0 <= j < i ==> #[trigger] out@[j].0@ == entries@[j].0@,
                        forall|j: int| 0 <= j < i ==> #[trigger] out@[j].1@ == value_to_json(entries@[j].1@),
                    decreases entries@.len() - i,
                {
                    proof {
                        m.lemma_pairs_are_entries();
                        assert(decreases_to!(*self => (*self)->Mapping_0));
                        assert(decreases_to!(*m => m.entries));
                        assert(decreases_to!(m.entries => m.entries@));
                        assert(decreases_to!(m.entries@ => m.entries@[i as int]));
                        assert(decreases_to!(m.entries@[i as int] => m.entries@[i as int].1));
                    }
                    let key = entries[i].0.clone();
                    let item = entries[i].1.to_json();
                    out.push((key, item));
                    i = i + 1;
                }
                proof {
                    m.lemma_pairs_are_entries();
                    assert(pair_keys(out@) =~= pair_keys(m.entries@));
                }
                let om = OrderedMap { entries: out };
                proof {
                    om.lemma_pairs_are_entries();
                    lemma_json_view(Json::Object(om));
                    assert(object_model(om) =~= value_to_json(self@)->Object_0);
                }
                Json::Object(om)
            },
        };
        proof { lemma_json_view(r); }
        r
    }

    /// Project to JSON, consuming the value.
    pub fn into_json(self) -> (r: Json)
        ensures
            r@ == value_to_json(self@),
    {
        self.to_json()
    }

    /// Lift a JSON document back into the tree. A string of the exact shape
    /// `${a.b.c}` becomes a [`Value::Ref`]; every other string stays a
    /// [`Value::Str`].
    pub fn from_json(v: Json) -> (r: Value)
        ensures
            r@ == json_to_value(v@),
    {
        Self::lift(&v)
    }

    fn lift(j: &Json) -> (r: Value)
        ensures
            r@ == json_to_value(j@),
        decreases j,
    {
        proof { lemma_json_view(*j); }
        let r = match j {
            Json::Null => Value::Null,
            Json::Bool(b) => Value::Bool(*b),
            Json::Number(n) => match as_i64(*n) {
                Some(i) => Value::Int(i),
                None => match n {
                    JsonNumber::PosInt(u) => Value::Float(large_u64_to_float_bits(*u)),
                    JsonNumber::NegInt(_) => Value::Float(0),
                    JsonNumber::Float(b) => Value::Float(*b),
                },
            },
            Json::Text(s) => match ResourceRef::from_interpolation(s.as_str()) {
                Some(rr) => Value::Ref(rr),
                None => Value::Str(s.clone()),
            },
            Json::Array(items) => {
                let mut out: Vec<Value> = Vec::new();
                let mut i: usize = 0;
                while i < items.len()
                    invariant
                        *j == Json::Array(*items),
                        i <= items@.len(),
                        out@.len() == i,
                        forall|k: int| 0 <= k < i ==> #[trigger] out@[k]@ == json_to_value(items@[k]@),
                    decreases items@.len() - i,
                {
                    proof {
                        assert(decreases_to!(*j => (*j)->Array_0));
                        assert(decreases_to!(*items => items@));
                        assert(decreases_to!(items@ => items@[i as int]));
                    }
                    let item = Self::lift(&items[i]);
                    out.push(item);
                    i = i + 1;
                }
                proof {
                    lemma_value_view(Value::List(out));
                    assert(values_model(out@) =~= json_to_value(j@)->List_0);
                }
                Value::List(out)
            },
            Json::Object(m) => {
                proof { use_type_invariant(m); }
                let entries = m.entries();
                let mut out: Vec<(String, Value)> = Vec::new();
                let mut i: usize = 0;
                while i < entries.len()
                    invariant
                        *j == Json::Object(*m),
                        entries@ == m.pairs(),
                        i <= entries@.len(),
                        out@.len() == i,
                        forall|k: int| 0 <= k < i ==> #[trigger] out@[k].0@ == entries@[k].0@,
                        forall|k: int| 0 <= k < i ==> #[trigger] out@[k].1@ == json_to_value(entries@[k].1@),
                    decreases entries@.len() - i,
                {
                    proof {
                        m.lemma_pairs_are_entries();
                        assert(decreases_to!(*j => (*j)->Object_0));
                        assert(decreases_to!(*m => m.entries));
                        assert(decreases_to!(m.entries => m.entries@));
                        assert(decreases_to!(m.entries@ => m.entries@[i as int]));
                        assert(decreases_to!(m.entries@[i as int] => m.entries@[i as int].1));
                    }
                    let key = entries[i].0.clone();
                    let item = Self::lift(&entries[i].1);
                    out.push((key, item));
                    i = i + 1;
                }
                proof {
                    m.lemma_pairs_are_entries();
                    assert(pair_keys(out@) =~= pair_keys(m.entries@));
                }
                let om = OrderedMap { entries: out };
                proof {
                    om.lemma_pairs_are_entries();
                    lemma_value_view(Value::Mapping(om));
                    assert(pairs_model(om.pairs()) =~= json_to_value(j@)->Mapping_0);
                }
                Value::Mapping(om)
            },
        };
        proof { lemma_value_view(r); }
        r
    }
}

impl Clone for Value {
    /// A deep copy with the same content.
    fn clone(&self) -> (r: Self)
        ensures
            r@ == self@,
        decreases self,
    {
        proof { lemma_value_view(*self); }
        let r = match self {
            Value::Null => Value::Null,
            Value::Bool(b) => Value::Bool(*b),
            Value::Int(n) => Value::Int(*n),
            Value::Float(b) => Value::Float(*b),
            Value::Str(s) => Value::Str(s.clone()),
            Value::Ref(rr) => Value::Ref(
                ResourceRef {
                    type_id: rr.type_id.clone(),
                    name: rr.name.clone(),
                    attribute: rr.attribute.clone(),
                },
            ),
            Value::List(items) => {
                let mut out: Vec<Value> = Vec::new();
                let mut i: usize = 0;
                while i < items.len()
                    invariant
                        *self == Value::List(*items),
                        i <= items@.len(),
                        out@.len() == i,
                        forall|j: int| 0 <= j < i ==> #[trigger] out@[j]@ == items@[j]@,
                    decreases items@.len() - i,
                {
                    proof {
                        assert(decreases_to!(*self => (*self)->List_0));
                        assert(decreases_to!(*items => items@));
                        assert(decreases_to!(items@ => items@[i as int]));
                    }
                    let item = items[i].clone();
                    out.push(item);
                    i = i + 1;
                }
                proof {
                    lemma_value_view(Value::List(out));
                    assert(values_model(out@) =~= values_model(items@));
                }
                Value::List(out)
            },
            Value::Mapping(m) => {
                proof { use_type_invariant(m); }
                let entries = m.entries();
                let mut out: Vec<(String, Value)> = Vec::new();
                let mut i: usize = 0;
                while i < entries.len()
                    invariant
                        *self == Value::Mapping(*m),
                        entries@ == m.pairs(),
                        i <= entries@.len(),
                        out@.len() == i,
                        forall|j: int| 0 <= j < i ==> #[trigger] out@[j].0@ == entries@[j].0@,
                        forall|j: int| 0 <= j < i ==> #[trigger] out@[j].1@ == entries@[j].1@,
                    decreases entries@.len() - i,
                {
                    proof {
                        m.lemma_pairs_are_entries();
                        assert(decreases_to!(*self => (*self)->Mapping_0));
                        assert(decreases_to!(*m => m.entries));
                        assert(decreases_to!(m.entries => m.entries@));
                        assert(decreases_to!(m.entries@ => m.entries@[i as int]));
                        assert(decreases_to!(m.entries@[i as int] => m.entries@[i as int].1));
                    }
                    let key = entries[i].0.clone();
                    let item = entries[i].1.clone();
                    out.push((key, item));
                    i = i + 1;
                }
                proof {
                    m.lemma_pairs_are_entries();
                    assert(pair_keys(out@) =~= pair_keys(m.entries@));
                }
                let om = OrderedMap { entries: out };
                proof {
                    om.lemma_pairs_are_entries();
                    lemma_value_view(Value::Mapping(om));
                    assert(pairs_model(om.pairs()) =~= pairs_model(m.pairs()));
                }
                Value::Mapping(om)
            },
        };
        proof { lemma_value_view(r); }
        r
    }
}

} // verus!
