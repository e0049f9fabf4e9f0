//! YAML document trees, and the conversion of JSON documents into them.
//!
//! Mappings keep insertion order with distinct keys, as JSON objects do.
//! Numbers keep the two shapes a YAML scalar number takes here: a signed
//! integer, or a double held as its IEEE-754 bit pattern.

use vstd::prelude::*;
use crate::json::{as_i64, large_u64_to_float_bits, lemma_json_view, number_as_float_bits, number_as_i64, Json, JsonModel, JsonNumber};
use crate::ordered_map::{minsert, pair_keys, pairs_model, lemma_pairs_insert_model, OrderedMap};

verus! {

/// A YAML value.
#[derive(Debug, PartialEq)]
pub enum Yaml {
    Null,
    Bool(bool),
    Int(i64),
    /// A double, as its IEEE-754 bit pattern.
    Float(u64),
    Text(String),
    Sequence(Vec<Yaml>),
    Mapping(OrderedMap<Yaml>),
}

/// The mathematical content of a [`Yaml`] value.
pub enum YamlModel {
    Null,
    Bool(bool),
    Int(i64),
    Float(u64),
    Text(Seq<char>),
    Sequence(Seq<YamlModel>),
    Mapping(Seq<(Seq<char>, YamlModel)>),
}

pub closed spec fn yaml_model(y: Yaml) -> YamlModel
    decreases y,
{
    match y {
        Yaml::Null => YamlModel::Null,
        Yaml::Bool(b) => YamlModel::Bool(b),
        Yaml::Int(i) => YamlModel::Int(i),
        Yaml::Float(b) => YamlModel::Float(b),
        Yaml::Text(s) => YamlModel::Text(s@),
        Yaml::Sequence(items) => YamlModel::Sequence(
            Seq::new(
                items@.len(),
                |i: int|
                    if 0 <= i < items@.len() {
                        proof {
                            assert(decreases_to!(items => items@[i]));
                        }
                        yaml_model(items@[i])
                    } else {
                        YamlModel::Null
                    },
            ),
        ),
        Yaml::Mapping(m) => YamlModel::Mapping(
            Seq::new(
                m.entries@.len(),
                |i: int|
                    if 0 <= i < m.entries@.len() {
                        proof {
                            assert(decreases_to!(m.entries => m.entries@[i].1));
                        }
                        (m.entries@[i].0@, yaml_model(m.entries@[i].1))
                    } else {
                        (Seq::empty(), YamlModel::Null)
                    },
            ),
        ),
    }
}

impl View for Yaml {
    type V = YamlModel;

    open spec fn view(&self) -> YamlModel {
        yaml_model(*self)
    }
}

/// The model of the items of a sequence.
pub open spec fn yaml_items(items: Seq<Yaml>) -> Seq<YamlModel> {
    items.map_values(|y: Yaml| y@)
}

/// The model of a mapping's entries.
pub open spec fn mapping_model(m: OrderedMap<Yaml>) -> Seq<(Seq<char>, YamlModel)> {
    pairs_model(m.pairs())
}

/// How the model sees scalars, sequences and mappings.
pub proof fn lemma_yaml_view(y: Yaml)
    ensures
        y matches Yaml::Null ==> y@ == YamlModel::Null,
        y matches Yaml::Bool(b) ==> y@ == YamlModel::Bool(b),
        y matches Yaml::Int(i) ==> y@ == YamlModel::Int(i),
        y matches Yaml::Float(b) ==> y@ == YamlModel::Float(b),
        y matches Yaml::Text(s) ==> y@ == YamlModel::Text(s@),
        y matches Yaml::Sequence(items) ==> y@ == YamlModel::Sequence(yaml_items(items@)),
        y matches Yaml::Mapping(m) ==> y@ == YamlModel::Mapping(mapping_model(m)),
{
    match y {
        Yaml::Sequence(items) => {
            assert(yaml_model(y)->Sequence_0 =~= yaml_items(items@));
        },
        Yaml::Mapping(m) => {
            m.lemma_pairs_are_entries();
            assert(yaml_model(y)->Mapping_0 =~= mapping_model(m));
        },
        _ => {},
    }
}

/// What a JSON number becomes: a signed integer where it is one, else a
/// double.
pub open spec fn yaml_of_number(n: JsonNumber) -> YamlModel {
    match number_as_i64(n) {
        Some(i) => YamlModel::Int(i),
        None => match number_as_float_bits(n) {
            Some(b) => YamlModel::Float(b),
            None => YamlModel::Null,
        },
    }
}

/// The YAML tree of a JSON document: same shape, same order.
pub open spec fn yaml_of_json(j: JsonModel) -> YamlModel
    decreases j,
{
    match j {
        JsonModel::Null => YamlModel::Null,
        JsonModel::Bool(b) => YamlModel::Bool(b),
        JsonModel::Number(n) => yaml_of_number(n),
        JsonModel::Text(s) => YamlModel::Text(s),
        JsonModel::Array(items) => YamlModel::Sequence(
            Seq::new(
                items.len(),
                |i: int|
                    if 0 <= i < items.len() {
                        proof {
                            assert(decreases_to!(items => items[i]));
                        }
                        yaml_of_json(items[i])
                    } else {
                        YamlModel::Null
                    },
            ),
        ),
        JsonModel::Object(es) => YamlModel::Mapping(
            Seq::new(
                es.len(),
                |i: int|
                    if 0 <= i < es.len() {
                        proof {
                            assert(decreases_to!(es => es[i]));
                        }
                        (es[i].0, yaml_of_json(es[i].1))
                    } else {
                        (Seq::empty(), YamlModel::Null)
                    },
            ),
        ),
    }
}

fn number_to_yaml(n: JsonNumber) -> (r: Yaml)
    ensures
        r@ == yaml_of_number(n),
{
    let r = match as_i64(n) {
        Some(i) => Yaml::Int(i),
        None => match n {
            JsonNumber::PosInt(u) => Yaml::Float(large_u64_to_float_bits(u)),
            JsonNumber::NegInt(_) => Yaml::Null,
            JsonNumber::Float(b) => Yaml::Float(b),
        },
    };
    proof { lemma_yaml_view(r); }
    r
}

/// Convert a JSON document into the YAML tree of the same shape.
pub fn json_to_yaml(j: &Json) -> (r: Yaml)
    ensures
        r@ == yaml_of_json(j@),
    decreases j,
{
    proof { lemma_json_view(*j); }
    let r = match j {
        Json::Null => Yaml::Null,
        Json::Bool(b) => Yaml::Bool(*b),
        Json::Number(n) => number_to_yaml(*n),
        Json::Text(s) => Yaml::Text(s.clone()),
        Json::Array(items) => {
            let mut out: Vec<Yaml> = Vec::new();
            let mut i: usize = 0;
            while i < items.len()
                invariant
                    *j == Json::Array(*items),
                    i <= items@.len(),
                    out@.len() == i,
                    forall|k: int| 0 <= k < i ==> #[trigger] out@[k]@ == yaml_of_json(items@[k]@),
                decreases items@.len() - i,
            {
                proof {
                    assert(decreases_to!(*j => (*j)->Array_0));
                    assert(decreases_to!(*items => items@));
                    assert(decreases_to!(items@ => items@[i as int]));
                }
                let item = json_to_yaml(&items[i]);
                out.push(item);
                i = i + 1;
            }
            proof {
                lemma_yaml_view(Yaml::Sequence(out));
                assert(yaml_items(out@) =~= yaml_of_json(j@)->Sequence_0);
            }
            Yaml::Sequence(out)
        },
        Json::Object(m) => {
            proof { use_type_invariant(m); }
            let entries = m.entries();
            let mut out: Vec<(String, Yaml)> = Vec::new();
            let mut i: usize = 0;
            while i < entries.len()
                invariant
                    *j == Json::Object(*m),
                    entries@ == m.pairs(),
                    i <= entries@.len(),
                    out@.len() == i,
                    forall|k: int| 0 <= k < i ==> #[trigger] out@[k].0@ == entries@[k].0@,
                    forall|k: int| 0 <= k < i ==> #[trigger] out@[k].1@ == yaml_of_json(entries@[k].1@),
                decreases entries@.len() - i,
            {
                proof {
                    m.lemma_pairs_are_entries();
                    assert(decreases_to!(*j => (*j)->Object_0));
                    assert(decreases_to!(*m => m.entries));
                    assert(decreases_to!(m.entries => m.entries@));
                    assert(decreases_to!(m.entries@ => m.entries@[i as int]));
                    assert(decreases_to!(m.entries@[i as int] => m.entries@[i as int].1));
                }
                let key = entries[i].0.clone();
                let item = json_to_yaml(&entries[i].1);
                out.push((key, item));
                i = i + 1;
            }
            proof {
                m.lemma_pairs_are_entries();
                assert(pair_keys(out@) =~= pair_keys(m.entries@));
            }
            let ym = OrderedMap { entries: out };
            proof {
                ym.lemma_pairs_are_entries();
                lemma_yaml_view(Yaml::Mapping(ym));
                assert(mapping_model(ym) =~= yaml_of_json(j@)->Mapping_0);
            }
            Yaml::Mapping(ym)
        },
    };
    proof { lemma_yaml_view(r); }
    r
}

/// Insert a field into a mapping under construction.
pub fn insert_entry(m: &mut OrderedMap<Yaml>, k: String, v: Yaml)
    ensures
        mapping_model(*final(m)) == minsert(mapping_model(*old(m)), k@, v@),
{
    proof { lemma_pairs_insert_model(m.pairs(), k, v); }
    m.insert(k, v);
}

} // verus!
