use lava_core::architecture::Architecture;
use lava_core::dashboard::{
    Annotation, Dashboard, Datasource, Datasources, Panel, PanelKind, Query, QueryLang, Role, Row,
    Theme, Threshold, Variable, VariableKind,
};
use lava_core::json::{Json, JsonNumber};
use lava_core::layout::layout_within_limits;
use lava_core::ordered_map::OrderedMap;
use lava_core::reference::ResourceRef;
use lava_core::synthesizer::{arch_kind, crossplane_yaml_from, join_documents, GrafanaJson, Synthesizer};
use lava_core::validation::{blank_string_literals, classify, DashboardError};
use lava_core::architecture::RenderError;
use lava_core::value::Value;
use lava_core::yaml::{json_to_yaml, Yaml};

fn wire(j: &Json) -> serde_json::Value {
    match j {
        Json::Null => serde_json::Value::Null,
        Json::Bool(b) => serde_json::Value::Bool(*b),
        Json::Number(JsonNumber::PosInt(u)) => serde_json::Value::from(*u),
        Json::Number(JsonNumber::NegInt(i)) => serde_json::Value::from(*i),
        Json::Number(JsonNumber::Float(bits)) => serde_json::Number::from_f64(f64::from_bits(*bits))
            .map_or(serde_json::Value::Null, serde_json::Value::Number),
        Json::Text(s) => serde_json::Value::String(s.clone()),
        Json::Array(items) => serde_json::Value::Array(items.iter().map(wire).collect()),
        Json::Object(m) => {
            let mut out = serde_json::Map::new();
            for (k, v) in m.entries() {
                out.insert(k.clone(), wire(v));
            }
            serde_json::Value::Object(out)
        }
    }
}

fn obj(entries: Vec<(&str, Json)>) -> Json {
    let mut m = OrderedMap::new();
    for (k, v) in entries {
        m.insert(k.to_string(), v);
    }
    Json::Object(m)
}

fn text(s: &str) -> Json {
    Json::Text(s.to_string())
}

fn prom() -> Datasource {
    Datasource::new("mimir", "prometheus", QueryLang::PromQl)
}

fn sized(id: &str, w: u16, h: u16) -> Panel {
    Panel::new(id, PanelKind::TimeSeries, id).query(Query::new("A", "up", "mimir")).size(w, h)
}

// ── ordered maps ─────────────────────────────────────────────────────────

#[test]
fn a_read_after_an_insert_finds_the_value_and_leaves_other_keys_alone() {
    let mut m: OrderedMap<u32> = OrderedMap::new();
    assert_eq!(m.insert("b".to_string(), 1), None);
    assert_eq!(m.insert("a".to_string(), 2), None);
    assert_eq!(m.insert("b".to_string(), 3), Some(1));
    assert_eq!(m.get("b"), Some(&3));
    assert_eq!(m.get("a"), Some(&2));
    assert_eq!(m.get("c"), None);
    let keys: Vec<&str> = m.entries().iter().map(|(k, _)| k.as_str()).collect();
    assert_eq!(keys, vec!["b", "a"]);
    assert_eq!(m.len(), 2);
}

#[test]
fn from_pairs_keeps_the_first_place_and_the_last_value_of_a_key() {
    let m = OrderedMap::from_pairs(vec![
        ("x".to_string(), 1),
        ("y".to_string(), 2),
        ("x".to_string(), 3),
    ]);
    let got: Vec<(String, i32)> = m.into_entries();
    assert_eq!(got, vec![("x".to_string(), 3), ("y".to_string(), 2)]);
}

// ── references and values ────────────────────────────────────────────────

#[test]
fn a_reference_round_trips_through_its_interpolation() {
    let r = ResourceRef { type_id: "aws_subnet".into(), name: "private_a".into(), attribute: "arn".into() };
    let s = r.to_interpolation();
    assert_eq!(s, "${aws_subnet.private_a.arn}");
    assert_eq!(ResourceRef::from_interpolation(&s), Some(r));
}

#[test]
fn a_value_round_trips_through_json() {
    let v = Value::map(vec![
        ("n".to_string(), Value::n(-7)),
        ("r".to_string(), Value::Ref(ResourceRef { type_id: "a".into(), name: "b".into(), attribute: "c".into() })),
        ("l".to_string(), Value::arr(vec![Value::b(false), Value::Null, Value::s("x")])),
    ]);
    let back = Value::from_json(v.to_json());
    assert_eq!(back, v);
}

#[test]
fn a_non_finite_float_renders_as_null() {
    let v = Value::arr(vec![Value::Float(f64::NAN.to_bits()), Value::Float(2.5f64.to_bits())]);
    let j = wire(&v.into_json());
    assert!(j[0].is_null());
    assert_eq!(j[1], 2.5);
}

// ── datasources and validation ───────────────────────────────────────────

#[test]
fn registering_a_uid_again_replaces_it_in_place() {
    let mut reg = Datasources::default();
    reg.register(Datasource::new("a", "prometheus", QueryLang::PromQl));
    reg.register(Datasource::new("b", "loki", QueryLang::LogsQl));
    reg.register(Datasource::new("a", "clickhouse", QueryLang::Sql));
    assert_eq!(reg.0.len(), 2);
    assert_eq!(reg.0[0].uid, "a");
    assert_eq!(reg.get("a").unwrap().query_lang, QueryLang::Sql);
    assert_eq!(reg.get("b").unwrap().wire_type, "loki");
    assert!(reg.get("c").is_none());
}

#[test]
fn blanking_keeps_every_position_and_hides_only_literal_text() {
    let s = "sum{a=\"x|y\"} | b";
    let blanked = blank_string_literals(s);
    assert_eq!(blanked, "sum{a=\"   \"} | b");
    assert_eq!(blanked.chars().count(), s.chars().count());
}

#[test]
fn classification_identifies_each_language_and_stays_silent_otherwise() {
    assert_eq!(classify("SELECT a FROM t"), Some(QueryLang::Sql));
    assert_eq!(classify("rate(x[5m])"), Some(QueryLang::PromQl));
    assert_eq!(classify("{job=\"x\"} | json"), Some(QueryLang::LogsQl));
    assert_eq!(classify("up{code=\"a|b\"}"), None);
    assert_eq!(classify("up"), None);
}

#[test]
fn every_validation_error_has_an_input_and_a_message() {
    let cases: Vec<(Dashboard, DashboardError, &str)> = vec![
        (
            Dashboard::new("", "t"),
            DashboardError::MissingUid,
            "dashboard has no uid",
        ),
        (
            Dashboard::new("u", ""),
            DashboardError::MissingTitle { uid: "u".into() },
            "dashboard u has no title",
        ),
        (
            Dashboard::new("u", "t").datasource(prom()).row(Row::new("r").panel(
                Panel::new("p", PanelKind::Stat, "").query(Query::new("A", "up", "mimir")),
            )),
            DashboardError::MissingPanelTitle { panel: "p".into() },
            "panel p has no title",
        ),
        (
            Dashboard::new("u", "t").datasource(prom()).row(Row::new("r").panel(Panel::new("p", PanelKind::Stat, "P"))),
            DashboardError::PanelWithoutQuery { panel: "p".into() },
            "panel p has no query — it would render as an empty box",
        ),
        (
            Dashboard::new("u", "t").row(Row::new("r").panel(
                Panel::new("p", PanelKind::Stat, "P").query(Query::new("A", "up", "nope")),
            )),
            DashboardError::UnknownDatasource { panel: "p".into(), uid: "nope".into() },
            "panel p references unregistered datasource nope",
        ),
        (
            Dashboard::new("u", "t").datasource(prom()).row(Row::new("r").panel(
                Panel::new("p", PanelKind::Stat, "P").query(Query::new("A", "SELECT a FROM b", "mimir")),
            )),
            DashboardError::QueryLanguageMismatch {
                panel: "p".into(),
                uid: "mimir".into(),
                declared: QueryLang::PromQl,
                found: QueryLang::Sql,
            },
            "panel p: datasource mimir speaks PromQl but the query looks like Sql",
        ),
        (
            Dashboard::new("u", "t").datasource(prom()).row(Row::new("r").panel(sized("p", 25, 4))),
            DashboardError::PanelWidth { panel: "p".into(), width: 25 },
            "panel p: width 25 is outside 1..=24",
        ),
        (
            Dashboard::new("u", "t").datasource(prom()).row(Row::new("r").panel(sized("p", 0, 4))),
            DashboardError::PanelWidth { panel: "p".into(), width: 0 },
            "panel p: width 0 is outside 1..=24",
        ),
    ];
    for (d, e, msg) in cases {
        assert_eq!(d.validate(), Err(e.clone()));
        assert_eq!(d.render_grafana_json(&Theme::tundra()), Err(e.clone()));
        assert_eq!(e.message(), msg);
        match Synthesizer::<GrafanaJson>::synthesize(&d) {
            Err(RenderError::Invalid(m)) => assert_eq!(m, msg),
            other => panic!("expected the validation message, got {other:?}"),
        }
    }
}

// ── layout ───────────────────────────────────────────────────────────────

fn positions(j: &serde_json::Value) -> Vec<(u64, u64, u64, u64, u64)> {
    j["panels"]
        .as_array()
        .unwrap()
        .iter()
        .map(|p| {
            let g = &p["gridPos"];
            (
                p["id"].as_u64().unwrap(),
                g["x"].as_u64().unwrap(),
                g["y"].as_u64().unwrap(),
                g["w"].as_u64().unwrap(),
                g["h"].as_u64().unwrap(),
            )
        })
        .collect()
}

#[test]
fn panels_stay_inside_the_grid_and_never_overlap() {
    let row = Row::new("r")
        .panel(sized("a", 20, 3))
        .panel(sized("b", 10, 5))
        .panel(sized("c", 14, 2))
        .panel(sized("d", 24, 1))
        .panel(sized("e", 1, 7));
    let d = Dashboard::new("u", "t").datasource(prom()).row(row);
    let j = wire(&d.render_grafana_json(&Theme::tundra()).unwrap());
    let p = positions(&j);
    // Row header first, then (id, x, y, w, h) of each child.
    assert_eq!(p[0], (6, 0, 0, 24, 1));
    assert_eq!(&p[1..], &[(1, 0, 1, 20, 3), (2, 0, 4, 10, 5), (3, 10, 4, 14, 2), (4, 0, 9, 24, 1), (5, 0, 10, 1, 7)]);
    for (i, a) in p[1..].iter().enumerate() {
        assert!(a.1 + a.3 <= 24);
        for b in &p[i + 2..] {
            assert!(a.2 + a.4 <= b.2 || (a.2 == b.2 && a.1 + a.3 <= b.1));
        }
    }
}

#[test]
fn rows_stack_below_each_other_and_ids_run_on() {
    let d = Dashboard::new("u", "t")
        .datasource(prom())
        .row(Row::new("one").panel(sized("a", 12, 4)).panel(sized("b", 12, 6)))
        .row(Row { collapsed: true, ..Row::new("two").panel(sized("c", 6, 9)) })
        .row(Row::new("three").panel(sized("d", 6, 2)));
    let j = wire(&d.render_grafana_json(&Theme::tundra()).unwrap());
    let p = positions(&j);
    assert_eq!(p.len(), 6);
    assert_eq!(p[0], (3, 0, 0, 24, 1));
    assert_eq!(p[1], (1, 0, 1, 12, 4));
    assert_eq!(p[2], (2, 12, 1, 12, 6));
    // Expanded row "one" ends at line 7; the collapsed row takes line 7 only.
    assert_eq!(p[3], (5, 0, 7, 24, 1));
    assert_eq!(j["panels"][3]["panels"][0]["id"], 4);
    assert_eq!(j["panels"][3]["panels"][0]["gridPos"]["y"], 8);
    assert_eq!(p[4], (7, 0, 8, 24, 1));
    assert_eq!(p[5], (6, 0, 9, 6, 2));
    assert_eq!(j["panels"][4]["panels"].as_array().unwrap().len(), 0);
}

#[test]
fn the_layout_limits_are_checked_exactly() {
    let ok = vec![Row::new("r").panel(sized("a", 12, 65533))];
    assert!(layout_within_limits(&ok));
    let too_tall = vec![Row::new("r").panel(sized("a", 12, 65535))];
    assert!(!layout_within_limits(&too_tall));
    let stacked = vec![
        Row::new("r").panel(sized("a", 12, 65000)),
        Row::new("s").panel(sized("b", 12, 600)),
    ];
    assert!(!layout_within_limits(&stacked));
    assert!(layout_within_limits(&vec![]));
}

// ── the Grafana document ─────────────────────────────────────────────────

#[test]
fn document_fields_come_in_the_wire_order() {
    let d = Dashboard::new("u", "Title").tag("a").tag("b");
    let j = wire(&d.render_grafana_json(&Theme::tundra()).unwrap());
    let keys: Vec<&str> = j.as_object().unwrap().keys().map(String::as_str).collect();
    assert_eq!(
        keys,
        vec![
            "annotations", "description", "editable", "fiscalYearStartMonth", "graphTooltip", "id",
            "links", "panels", "refresh", "schemaVersion", "tags", "templating", "time",
            "timepicker", "timezone", "title", "uid", "version",
        ]
    );
    assert_eq!(j["description"], "");
    assert!(j["id"].is_null());
    assert_eq!(j["graphTooltip"], 1);
    assert_eq!(j["version"], 1);
    assert_eq!(j["tags"], serde_json::Value::from(vec!["a", "b"]));
    assert_eq!(j["time"]["from"], "now-1h");
    assert_eq!(j["timezone"], "utc");
}

#[test]
fn no_refresh_emits_no_refresh_key() {
    let mut d = Dashboard::new("u", "t");
    d.refresh = None;
    let j = wire(&d.render_grafana_json(&Theme::tundra()).unwrap());
    assert!(j.get("refresh").is_none());
}

#[test]
fn variables_and_annotations_render_with_their_references() {
    let mut d = Dashboard::new("u", "t").datasource(prom());
    let mut v = Variable::new("env", VariableKind::Query);
    v.datasource_uid = Some("mimir".into());
    v.options = vec!["prod".into(), "dev".into()];
    d.variables.push(v);
    d.variables.push(Variable::new("step", VariableKind::Interval));
    d.annotations.push(Annotation {
        name: "deploys".into(),
        datasource_uid: "other".into(),
        expr: "changes(x[1m])".into(),
        color: Role::Warning,
        enable: true,
    });
    let j = wire(&d.render_grafana_json(&Theme::tundra()).unwrap());
    let vars = &j["templating"]["list"];
    assert_eq!(vars[0]["type"], "query");
    assert_eq!(vars[0]["refresh"], 1);
    assert_eq!(vars[0]["datasource"]["uid"], "mimir");
    assert_eq!(vars[0]["options"][0]["selected"], true);
    assert_eq!(vars[0]["options"][1]["selected"], false);
    assert_eq!(vars[0]["options"][1]["text"], "dev");
    assert_eq!(vars[1]["type"], "interval");
    assert_eq!(vars[1]["refresh"], 0);
    assert!(vars[1].get("datasource").is_none());
    let a = &j["annotations"]["list"][0];
    assert_eq!(a["iconColor"], "#EBCB8B");
    assert_eq!(a["datasource"]["type"], "prometheus");
    assert_eq!(a["datasource"]["uid"], "other");
}

#[test]
fn later_threshold_steps_keep_their_value_and_non_finite_ones_are_null() {
    let p = Panel::new("p", PanelKind::Gauge, "P")
        .query(Query::new("A", "up", "mimir"))
        .thresholds(vec![
            Threshold { value: Some(5.0f64.to_bits()), color: Role::Neutral },
            Threshold { value: Some(f64::INFINITY.to_bits()), color: Role::Info },
            Threshold { value: Some(0.5f64.to_bits()), color: Role::Primary },
        ]);
    let d = Dashboard::new("u", "t").datasource(prom()).row(Row::new("r").panel(p));
    let j = wire(&d.render_grafana_json(&Theme::tundra()).unwrap());
    let defaults = &j["panels"][1]["fieldConfig"]["defaults"];
    assert_eq!(defaults["color"]["mode"], "thresholds");
    assert_eq!(defaults["thresholds"]["mode"], "absolute");
    let steps = &defaults["thresholds"]["steps"];
    assert!(steps[0]["value"].is_null());
    assert!(steps[1]["value"].is_null());
    assert_eq!(steps[2]["value"], 0.5);
    assert_eq!(steps[2]["color"], "#88C0D0");
    assert_eq!(j["panels"][1]["options"]["reduceOptions"]["calcs"][0], "lastNotNull");
}

#[test]
fn a_metrics_target_carries_expr_and_no_raw_sql() {
    let d = Dashboard::new("u", "t")
        .datasource(prom())
        .row(Row::new("r").panel(Panel::new("p", PanelKind::Stat, "P").query(Query::new("A", "up", "mimir").legend("{{pod}}").instant())));
    let j = wire(&d.render_grafana_json(&Theme::tundra()).unwrap());
    let t = &j["panels"][1]["targets"][0];
    assert_eq!(t["expr"], "up");
    assert!(t.get("rawSql").is_none());
    assert!(t.get("queryType").is_none());
    assert_eq!(t["legendFormat"], "{{pod}}");
    assert_eq!(t["instant"], true);
    assert!(t.get("hide").is_none());
    // All queries instant: the stat panel draws no sparkline.
    assert_eq!(j["panels"][1]["options"]["graphMode"], "none");
    assert_eq!(j["panels"][1]["options"]["colorMode"], "value");
    assert_eq!(j["panels"][1]["fieldConfig"]["defaults"]["color"]["mode"], "palette-classic");
}

#[test]
fn time_series_panels_carry_a_legend_and_a_tooltip() {
    let d = Dashboard::new("u", "t").datasource(prom()).row(Row::new("r").panel(sized("ts", 12, 8)));
    let j = wire(&d.render_grafana_json(&Theme::tundra()).unwrap());
    let o = &j["panels"][1]["options"];
    assert_eq!(o["legend"]["displayMode"], "table");
    assert_eq!(o["legend"]["calcs"], serde_json::Value::from(vec!["lastNotNull", "max", "mean"]));
    assert_eq!(o["tooltip"]["sort"], "desc");
    assert_eq!(j["panels"][1]["type"], "timeseries");
    assert_eq!(j["panels"][1]["targets"][0]["refId"], "A");
}

// ── Crossplane ───────────────────────────────────────────────────────────

#[test]
fn arch_kind_upper_cases_the_first_letter_of_each_word() {
    assert_eq!(arch_kind("a-b_c"), "ABC");
    assert_eq!(arch_kind("--x"), "X");
    assert_eq!(arch_kind("ßx"), "SSx");
    assert_eq!(arch_kind(""), "");
}

#[test]
fn crossplane_documents_list_every_resource_of_every_type() {
    let tf = obj(vec![(
        "resource",
        obj(vec![
            ("aws_vpc", obj(vec![("main", obj(vec![("cidr", text("10.0.0.0/16"))])), ("b", obj(vec![]))])),
            ("odd", text("not an object")),
            ("aws_subnet", obj(vec![("a", obj(vec![("n", Json::Number(JsonNumber::NegInt(-2)))]))])),
        ]),
    )]);
    let docs = crossplane_yaml_from("My-Arch", &tf);
    assert_eq!(docs.len(), 2);
    let Yaml::Mapping(xrd) = &docs[0] else { panic!() };
    let Some(Yaml::Mapping(meta)) = xrd.get("metadata") else { panic!() };
    assert_eq!(meta.get("name"), Some(&Yaml::Text("my-arch.lava.pleme.io".into())));
    let Some(Yaml::Mapping(spec)) = xrd.get("spec") else { panic!() };
    let Some(Yaml::Mapping(names)) = spec.get("names") else { panic!() };
    assert_eq!(names.get("kind"), Some(&Yaml::Text("MyArch".into())));
    assert_eq!(names.get("plural"), Some(&Yaml::Text("myarchs".into())));
    let Yaml::Mapping(comp) = &docs[1] else { panic!() };
    let Some(Yaml::Mapping(cspec)) = comp.get("spec") else { panic!() };
    let Some(Yaml::Sequence(resources)) = cspec.get("resources") else { panic!() };
    let names: Vec<String> = resources
        .iter()
        .map(|r| match r {
            Yaml::Mapping(m) => match m.get("name") {
                Some(Yaml::Text(s)) => s.clone(),
                _ => panic!(),
            },
            _ => panic!(),
        })
        .collect();
    assert_eq!(names, vec!["aws_vpc.main", "aws_vpc.b", "aws_subnet.a"]);
    let Yaml::Mapping(first) = &resources[0] else { panic!() };
    let Some(Yaml::Mapping(base)) = first.get("base") else { panic!() };
    assert_eq!(base.get("kind"), Some(&Yaml::Text("AwsVpc".into())));
    assert_eq!(base.get("apiVersion"), Some(&Yaml::Text("aws_vpc.crossplane.io/v1alpha1".into())));
}

#[test]
fn crossplane_has_no_resources_without_a_resource_block() {
    let arch = Architecture::new("empty");
    let docs = crossplane_yaml_from("empty", &arch.render_terraform_json().unwrap());
    let Yaml::Mapping(comp) = &docs[1] else { panic!() };
    let Some(Yaml::Mapping(cspec)) = comp.get("spec") else { panic!() };
    assert_eq!(cspec.get("resources"), Some(&Yaml::Sequence(vec![])));
}

#[test]
fn json_numbers_become_integers_where_they_fit_and_doubles_otherwise() {
    assert_eq!(json_to_yaml(&Json::Number(JsonNumber::PosInt(7))), Yaml::Int(7));
    assert_eq!(json_to_yaml(&Json::Number(JsonNumber::NegInt(-7))), Yaml::Int(-7));
    let big = u64::MAX - 5;
    assert_eq!(json_to_yaml(&Json::Number(JsonNumber::PosInt(big))), Yaml::Float((big as f64).to_bits()));
    let odd = (1u64 << 63) + 1025;
    assert_eq!(json_to_yaml(&Json::Number(JsonNumber::PosInt(odd))), Yaml::Float((odd as f64).to_bits()));
    assert_eq!(
        json_to_yaml(&Json::Number(JsonNumber::Float(1.25f64.to_bits()))),
        Yaml::Float(1.25f64.to_bits())
    );
    let y = json_to_yaml(&obj(vec![("k", Json::Array(vec![Json::Null, Json::Bool(true), text("s")]))]));
    let Yaml::Mapping(m) = y else { panic!() };
    assert_eq!(m.get("k"), Some(&Yaml::Sequence(vec![Yaml::Null, Yaml::Bool(true), Yaml::Text("s".into())])));
}

#[test]
fn documents_are_joined_with_a_separator_line() {
    assert_eq!(join_documents(&vec![]), "");
    assert_eq!(join_documents(&vec!["a: 1\n".to_string()]), "a: 1\n");
    assert_eq!(
        join_documents(&vec!["a: 1\n".to_string(), "b: 2\n".to_string(), "c: 3\n".to_string()]),
        "a: 1\n---\nb: 2\n---\nc: 3\n"
    );
}

#[test]
fn only_blocks_with_content_are_emitted_in_their_fixed_order() {
    let mut arch = Architecture::new("partial");
    arch.imports.push(lava_core::architecture::Import { to: "a.b".into(), id: "b".into() });
    arch.locals.insert("env".to_string(), Value::s("prod"));
    let j = wire(&arch.render_terraform_json().unwrap());
    let keys: Vec<&str> = j.as_object().unwrap().keys().map(String::as_str).collect();
    assert_eq!(keys, vec!["locals", "import"]);
}

#[test]
fn maps_compare_as_maps_whatever_the_order_of_their_entries() {
    let a = OrderedMap::from_pairs(vec![("x".to_string(), 1), ("y".to_string(), 2)]);
    let b = OrderedMap::from_pairs(vec![("y".to_string(), 2), ("x".to_string(), 1)]);
    let c = OrderedMap::from_pairs(vec![("y".to_string(), 3), ("x".to_string(), 1)]);
    let d = OrderedMap::from_pairs(vec![("x".to_string(), 1)]);
    assert_eq!(a, b);
    assert_ne!(a, c);
    assert_ne!(a, d);
    assert_ne!(d, a);
    let v1 = Value::map(vec![("p".to_string(), Value::n(1)), ("q".to_string(), Value::s("z"))]);
    let v2 = Value::map(vec![("q".to_string(), Value::s("z")), ("p".to_string(), Value::n(1))]);
    assert_eq!(v1, v2);
    assert_eq!(obj(vec![("a", Json::Null), ("b", Json::Bool(true))]), obj(vec![("b", Json::Bool(true)), ("a", Json::Null)]));
}
