use lava_core::architecture::{Architecture, Resource};
use lava_core::json::{Json, JsonNumber};
use lava_core::ordered_map::OrderedMap;
use lava_core::synthesizer::{
    arch_kind, join_documents, CrossplaneYaml, MagmaPlan, Synthesizer, TerraformJson,
};
use lava_core::value::Value;
use lava_core::yaml::Yaml;
use serde::Deserialize;

/// The wire form of a rendered JSON document.
fn wire(j: &Json) -> serde_json::Value {
    match j {
        Json::Null => serde_json::Value::Null,
        Json::Bool(b) => serde_json::Value::Bool(*b),
        Json::Number(JsonNumber::PosInt(u)) => serde_json::Value::from(*u),
        Json::Number(JsonNumber::NegInt(i)) => serde_json::Value::from(*i),
        Json::Number(JsonNumber::Float(bits)) => serde_json::Number::from_f64(f64::from_bits(*bits))
            .map_or(serde_json::Value::Null, serde_json::Value::Number),
        Json::Text(s) => serde_json::Value::String(s.clone()),
        Json::Array(items) => serde_json::Value::Array(items.iter().map(wire).collect()),
        Json::Object(m) => {
            let mut out = serde_json::Map::new();
            for (k, v) in m.entries() {
                out.insert(k.clone(), wire(v));
            }
            serde_json::Value::Object(out)
        }
    }
}

/// The serde_yaml form of a YAML document.
fn yaml_value(y: &Yaml) -> serde_yaml::Value {
    match y {
        Yaml::Null => serde_yaml::Value::Null,
        Yaml::Bool(b) => serde_yaml::Value::Bool(*b),
        Yaml::Int(i) => serde_yaml::Value::Number(serde_yaml::Number::from(*i)),
        Yaml::Float(bits) => serde_yaml::Value::Number(serde_yaml::Number::from(f64::from_bits(*bits))),
        Yaml::Text(s) => serde_yaml::Value::String(s.clone()),
        Yaml::Sequence(items) => serde_yaml::Value::Sequence(items.iter().map(yaml_value).collect()),
        Yaml::Mapping(m) => {
            let mut out = serde_yaml::Mapping::new();
            for (k, v) in m.entries() {
                out.insert(serde_yaml::Value::String(k.clone()), yaml_value(v));
            }
            serde_yaml::Value::Mapping(out)
        }
    }
}

/// The multi-document YAML text of the Crossplane target.
fn crossplane_text(arch: &Architecture) -> String {
    let docs = Synthesizer::<CrossplaneYaml>::synthesize(arch).unwrap();
    let bodies: Vec<String> =
        docs.iter().map(|d| serde_yaml::to_string(&yaml_value(d)).unwrap_or_default()).collect();
    join_documents(&bodies)
}

fn tiny_vpc() -> Architecture {
    let mut arch = Architecture::new("vpc");
    let mut attrs = OrderedMap::new();
    attrs.insert("cidr_block".to_string(), Value::s("10.0.0.0/16"));
    arch.resources.push(Resource {
        type_id: "aws_vpc".to_string(),
        name: "main".to_string(),
        attributes: attrs,
        depends_on: vec![],
        provider: None,
        multiplicity: None,
    });
    arch
}

#[test]
fn synthesize_to_terraform_json_via_trait() {
    let arch = tiny_vpc();
    let json = wire(&Synthesizer::<TerraformJson>::synthesize(&arch).unwrap());
    assert_eq!(json["resource"]["aws_vpc"]["main"]["cidr_block"], "10.0.0.0/16");
}

#[test]
fn synthesize_to_magma_plan_via_trait() {
    let arch = tiny_vpc();
    let plan = wire(&Synthesizer::<MagmaPlan>::synthesize(&arch).unwrap());
    assert_eq!(plan["resource"]["aws_vpc"]["main"]["cidr_block"], "10.0.0.0/16");
}

#[test]
fn synthesize_to_crossplane_yaml_emits_xrd_and_composition() {
    let arch = tiny_vpc();
    let yaml: String = crossplane_text(&arch);
    assert!(yaml.contains("kind: CompositeResourceDefinition"));
    assert!(yaml.contains("name: vpc.lava.pleme.io"));
    assert!(yaml.contains("kind: Composition"));
    assert!(yaml.contains("name: vpc-composition"));
    assert!(yaml.contains("name: aws_vpc.main"));
    assert!(yaml.contains("cidr_block: 10.0.0.0/16"));
    assert!(yaml.contains("---"));
}

#[test]
fn arch_kind_converts_kebab_to_pascal() {
    assert_eq!(arch_kind("aws-vpc-network"), "AwsVpcNetwork");
    assert_eq!(arch_kind("cloudflare_dns_records"), "CloudflareDnsRecords");
    assert_eq!(arch_kind("simple"), "Simple");
}

#[test]
fn crossplane_yaml_parses_as_two_valid_yaml_documents() {
    let arch = tiny_vpc();
    let yaml = crossplane_text(&arch);
    let docs: Vec<serde_yaml::Value> = serde_yaml::Deserializer::from_str(&yaml)
        .map(|d| serde_yaml::Value::deserialize(d).unwrap())
        .collect();
    assert_eq!(docs.len(), 2, "expected XRD + Composition pair");
    assert_eq!(docs[0]["kind"], "CompositeResourceDefinition");
    assert_eq!(docs[1]["kind"], "Composition");
}
