use lava_core::architecture::{Architecture, Import, ProviderRef, Resource};
use lava_core::json::{Json, JsonNumber};
use lava_core::ordered_map::OrderedMap;
use lava_core::reference::ResourceRef;
use lava_core::value::Value;

/// The wire form of a rendered document.
fn wire(j: &Json) -> serde_json::Value {
    match j {
        Json::Null => serde_json::Value::Null,
        Json::Bool(b) => serde_json::Value::Bool(*b),
        Json::Number(JsonNumber::PosInt(u)) => serde_json::Value::from(*u),
        Json::Number(JsonNumber::NegInt(i)) => serde_json::Value::from(*i),
        Json::Number(JsonNumber::Float(bits)) => serde_json::Number::from_f64(f64::from_bits(*bits))
            .map_or(serde_json::Value::Null, serde_json::Value::Number),
        Json::Text(s) => serde_json::Value::String(s.clone()),
        Json::Array(items) => serde_json::Value::Array(items.iter().map(wire).collect()),
        Json::Object(m) => {
            let mut out = serde_json::Map::new();
            for (k, v) in m.entries() {
                out.insert(k.clone(), wire(v));
            }
            serde_json::Value::Object(out)
        }
    }
}

/// A wire document read back into the library's tree.
fn unwire(v: &serde_json::Value) -> Json {
    match v {
        serde_json::Value::Null => Json::Null,
        serde_json::Value::Bool(b) => Json::Bool(*b),
        serde_json::Value::Number(n) => {
            if let Some(u) = n.as_u64() {
                Json::Number(JsonNumber::PosInt(u))
            } else if let Some(i) = n.as_i64() {
                Json::Number(JsonNumber::NegInt(i))
            } else {
                Json::Number(JsonNumber::Float(n.as_f64().unwrap_or(0.0).to_bits()))
            }
        }
        serde_json::Value::String(s) => Json::Text(s.clone()),
        serde_json::Value::Array(items) => Json::Array(items.iter().map(unwire).collect()),
        serde_json::Value::Object(map) => {
            let mut m = OrderedMap::new();
            for (k, x) in map {
                m.insert(k.clone(), unwire(x));
            }
            Json::Object(m)
        }
    }
}

/// `Value` goes to and from text through its JSON projection.
fn to_text(v: &Value) -> String {
    serde_json::to_string(&wire(&v.to_json())).unwrap()
}

fn from_text(s: &str) -> Value {
    Value::from_json(unwire(&serde_json::from_str::<serde_json::Value>(s).unwrap()))
}

fn attrs(entries: Vec<(&str, Value)>) -> OrderedMap<Value> {
    let mut m = OrderedMap::new();
    for (k, v) in entries {
        m.insert(k.to_string(), v);
    }
    m
}

fn resource(type_id: &str, name: &str, attributes: OrderedMap<Value>) -> Resource {
    Resource {
        type_id: type_id.to_string(),
        name: name.to_string(),
        attributes,
        depends_on: vec![],
        provider: None,
        multiplicity: None,
    }
}

fn vpc_id_ref() -> ResourceRef {
    ResourceRef { type_id: "aws_vpc".into(), name: "main".into(), attribute: "id".into() }
}

#[test]
fn empty_architecture_renders_empty_json_object() {
    let arch = Architecture::new("empty");
    let json = arch.render_terraform_json().unwrap();
    assert_eq!(wire(&json), serde_json::Value::Object(serde_json::Map::new()));
}

#[test]
fn single_resource_renders_terraform_shape() {
    let mut arch = Architecture::new("vpc-only");
    arch.resources.push(resource(
        "aws_vpc",
        "main",
        attrs(vec![("cidr_block", Value::s("10.0.0.0/16")), ("enable_dns_support", Value::b(true))]),
    ));
    let json = arch.render_terraform_json().unwrap();
    let mut main = serde_json::Map::new();
    main.insert("cidr_block".into(), serde_json::Value::from("10.0.0.0/16"));
    main.insert("enable_dns_support".into(), serde_json::Value::Bool(true));
    let mut aws_vpc = serde_json::Map::new();
    aws_vpc.insert("main".into(), serde_json::Value::Object(main));
    let mut resource_block = serde_json::Map::new();
    resource_block.insert("aws_vpc".into(), serde_json::Value::Object(aws_vpc));
    let mut expected = serde_json::Map::new();
    expected.insert("resource".into(), serde_json::Value::Object(resource_block));
    assert_eq!(wire(&json), serde_json::Value::Object(expected));
}

#[test]
fn resource_reference_renders_as_terraform_interpolation() {
    let mut arch = Architecture::new("vpc-with-igw");
    arch.resources.push(resource("aws_vpc", "main", attrs(vec![("cidr_block", Value::s("10.0.0.0/16"))])));
    arch.resources.push(resource(
        "aws_internet_gateway",
        "igw",
        attrs(vec![(
            "vpc_id",
            Value::Ref(ResourceRef {
                type_id: "aws_vpc".to_string(),
                name: "main".to_string(),
                attribute: "id".to_string(),
            }),
        )]),
    ));
    let json = wire(&arch.render_terraform_json().unwrap());
    assert_eq!(json["resource"]["aws_internet_gateway"]["igw"]["vpc_id"], "${aws_vpc.main.id}");
}

#[test]
fn outputs_render_as_terraform_output_block() {
    let mut arch = Architecture::new("vpc-out");
    arch.outputs.insert(
        "vpc_id".to_string(),
        Value::Ref(ResourceRef {
            type_id: "aws_vpc".to_string(),
            name: "main".to_string(),
            attribute: "id".to_string(),
        }),
    );
    let json = wire(&arch.render_terraform_json().unwrap());
    assert_eq!(json["output"]["vpc_id"]["value"], "${aws_vpc.main.id}");
}

#[test]
fn data_sources_render_under_top_level_data_block() {
    let mut arch = Architecture::new("net");
    arch.data_sources.push(resource(
        "aws_ami",
        "default",
        attrs(vec![("name", Value::s("amazon-linux-2")), ("most_recent", Value::b(true))]),
    ));
    let json = wire(&arch.render_terraform_json().unwrap());
    assert_eq!(json["data"]["aws_ami"]["default"]["name"], "amazon-linux-2");
    assert_eq!(json["data"]["aws_ami"]["default"]["most_recent"], true);
}

#[test]
fn locals_render_under_top_level_locals_block() {
    let mut arch = Architecture::new("net");
    arch.locals.insert("env".to_string(), Value::s("prod"));
    arch.locals.insert("retries".to_string(), Value::n(3));
    let json = wire(&arch.render_terraform_json().unwrap());
    assert_eq!(json["locals"]["env"], "prod");
    assert_eq!(json["locals"]["retries"], 3);
}

#[test]
fn providers_with_config_render_inside_provider_block() {
    let mut arch = Architecture::new("net");
    arch.providers.push(ProviderRef {
        source: "hashicorp/aws".to_string(),
        name: "aws".to_string(),
        alias: None,
        config: attrs(vec![("region", Value::s("us-east-2")), ("profile", Value::s("prod"))]),
    });
    let json = wire(&arch.render_terraform_json().unwrap());
    assert_eq!(json["provider"]["aws"]["region"], "us-east-2");
    assert_eq!(json["provider"]["aws"]["profile"], "prod");
}

#[test]
fn multiple_provider_configs_render_as_array() {
    let mut arch = Architecture::new("net");
    arch.providers.push(ProviderRef {
        source: "hashicorp/aws".into(),
        name: "aws".into(),
        alias: None,
        config: attrs(vec![("region", Value::s("us-east-2"))]),
    });
    arch.providers.push(ProviderRef {
        source: "hashicorp/aws".into(),
        name: "aws".into(),
        alias: Some("west".into()),
        config: attrs(vec![("region", Value::s("us-west-2"))]),
    });
    let json = wire(&arch.render_terraform_json().unwrap());
    assert!(json["provider"]["aws"].is_array());
    let arr = json["provider"]["aws"].as_array().unwrap();
    assert_eq!(arr.len(), 2);
    assert_eq!(arr[0]["region"], "us-east-2");
    assert_eq!(arr[1]["region"], "us-west-2");
    assert_eq!(arr[1]["alias"], "west");
}

#[test]
fn a_ref_survives_typed_inside_a_list() {
    let v = Value::arr(vec![Value::s("literal"), Value::Ref(vpc_id_ref())]);
    let Value::List(items) = &v else {
        panic!("expected a list, got {v:?}");
    };
    assert_eq!(items.len(), 2);
    assert!(
        matches!(&items[1], Value::Ref(r) if r == &vpc_id_ref()),
        "the reference was flattened to {:?} instead of staying typed",
        items[1]
    );
    assert_eq!(wire(&v.into_json())[1], "${aws_vpc.main.id}");
}

#[test]
fn a_ref_survives_typed_inside_a_map_at_depth() {
    let inner = Value::map(vec![("vpc_id".to_string(), Value::Ref(vpc_id_ref()))]);
    let outer = Value::map(vec![("network".to_string(), inner)]);
    let Value::Mapping(top) = &outer else {
        panic!("expected a map, got {outer:?}");
    };
    let Some(Value::Mapping(nested)) = top.get("network") else {
        panic!("expected a nested map");
    };
    assert!(matches!(nested.get("vpc_id"), Some(Value::Ref(r)) if r == &vpc_id_ref()));
    assert_eq!(wire(&outer.into_json())["network"]["vpc_id"], "${aws_vpc.main.id}");
}

#[test]
fn map_keys_render_in_insertion_order_not_alphabetically() {
    let tags = Value::map(vec![
        ("Zulu".to_string(), Value::s("last-alphabetically")),
        ("Alpha".to_string(), Value::s("first-alphabetically")),
        ("Name".to_string(), Value::s("middle")),
    ]);
    let rendered = serde_json::to_string(&wire(&tags.into_json())).unwrap();
    assert_eq!(
        rendered,
        r#"{"Zulu":"last-alphabetically","Alpha":"first-alphabetically","Name":"middle"}"#
    );
}

#[test]
fn rendering_is_byte_identical_across_repeated_calls() {
    let v = Value::map(vec![
        ("b".to_string(), Value::arr(vec![Value::n(2), Value::n(1)])),
        ("a".to_string(), Value::Ref(vpc_id_ref())),
    ]);
    let first = serde_json::to_string(&wire(&v.clone().into_json())).unwrap();
    for _ in 0..16 {
        assert_eq!(serde_json::to_string(&wire(&v.clone().into_json())).unwrap(), first);
    }
}

#[test]
fn interpolation_round_trips_through_serde() {
    let v = Value::Ref(vpc_id_ref());
    let json = to_text(&v);
    assert_eq!(json, r#""${aws_vpc.main.id}""#);
    let back: Value = from_text(&json);
    assert_eq!(back, v);
}

#[test]
fn a_three_key_map_is_not_mistaken_for_a_reference() {
    let map = Value::map(vec![
        ("type_id".to_string(), Value::s("aws_vpc")),
        ("name".to_string(), Value::s("main")),
        ("attribute".to_string(), Value::s("id")),
    ]);
    let round_tripped: Value = from_text(&to_text(&map));
    assert_eq!(round_tripped, map, "a plain map came back as {round_tripped:?}");
    assert!(matches!(round_tripped, Value::Mapping(_)));
}

#[test]
fn only_an_exact_three_segment_interpolation_parses_as_a_reference() {
    assert_eq!(ResourceRef::from_interpolation("${aws_vpc.main.id}"), Some(vpc_id_ref()));
    for not_a_ref in [
        "${var.foo}",
        "${aws_vpc.main.id.sub}",
        "prefix-${aws_vpc.main.id}",
        "${aws_vpc.main.id}-suffix",
        "${}",
        "${..}",
        "${aws_vpc..id}",
        "aws_vpc.main.id",
        "${a.b.c}${d.e.f}",
    ] {
        assert_eq!(
            ResourceRef::from_interpolation(not_a_ref),
            None,
            "{not_a_ref:?} should not parse as a reference"
        );
        let v = Value::s(not_a_ref);
        let back: Value = from_text(&to_text(&v));
        assert_eq!(back, v);
    }
}

#[test]
fn imports_render_as_a_top_level_array() {
    let mut arch = Architecture::new("adopt");
    arch.imports.push(Import { to: "github_repository.alpha".into(), id: "alpha".into() });
    arch.imports.push(Import { to: "github_repository.beta".into(), id: "beta".into() });
    let json = wire(&arch.render_terraform_json().unwrap());
    assert!(json["import"].is_array(), "got {}", json["import"]);
    assert_eq!(json["import"][0]["to"], "github_repository.alpha");
    assert_eq!(json["import"][0]["id"], "alpha");
    assert_eq!(json["import"].as_array().unwrap().len(), 2);
}

#[test]
fn no_imports_emits_no_import_key() {
    let arch = Architecture::new("greenfield");
    let json = wire(&arch.render_terraform_json().unwrap());
    assert!(json.get("import").is_none(), "got {json}");
}
