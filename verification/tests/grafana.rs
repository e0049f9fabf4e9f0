use lava_core::dashboard::{
    Dashboard, Datasource, Panel, PanelKind, Query, QueryLang, Role, Row, Theme, Threshold,
};
use lava_core::json::{Json, JsonNumber};
use lava_core::synthesizer::{GrafanaJson, Synthesizer};
use lava_core::validation::DashboardError;

/// The wire form of a rendered document.
fn wire(j: &Json) -> serde_json::Value {
    match j {
        Json::Null => serde_json::Value::Null,
        Json::Bool(b) => serde_json::Value::Bool(*b),
        Json::Number(JsonNumber::PosInt(u)) => serde_json::Value::from(*u),
        Json::Number(JsonNumber::NegInt(i)) => serde_json::Value::from(*i),
        Json::Number(JsonNumber::Float(bits)) => serde_json::Number::from_f64(f64::from_bits(*bits))
            .map_or(serde_json::Value::Null, serde_json::Value::Number),
        Json::Text(s) => serde_json::Value::String(s.clone()),
        Json::Array(items) => serde_json::Value::Array(items.iter().map(wire).collect()),
        Json::Object(m) => {
            let mut out = serde_json::Map::new();
            for (k, v) in m.entries() {
                out.insert(k.clone(), wire(v));
            }
            serde_json::Value::Object(out)
        }
    }
}

fn render(b: &Dashboard, theme: &Theme) -> Result<serde_json::Value, DashboardError> {
    b.render_grafana_json(theme).map(|j| wire(&j))
}

fn ds() -> Datasource {
    Datasource::new("mimir", "prometheus", QueryLang::PromQl)
}

fn board() -> Dashboard {
    Dashboard::new("fedramp-audit", "FedRAMP · audit pipeline")
        .tag("fedramp")
        .datasource(ds())
        .row(
            Row::new("audit sink").panel(
                Panel::new("sink_errors", PanelKind::Stat, "Sink errors /5m")
                    .query(Query::new(
                        "A",
                        "sum(increase(vector_component_errors_total[5m]))",
                        "mimir",
                    ))
                    .thresholds(vec![
                        Threshold { value: None, color: Role::Success },
                        Threshold { value: Some(1.0f64.to_bits()), color: Role::Danger },
                    ]),
            ),
        )
}

#[test]
fn renders_schema_39_with_the_object_datasource_form() {
    let j = render(&board(), &Theme::tundra()).unwrap();
    assert_eq!(j["schemaVersion"], 39);
    let target_ds = &j["panels"][1]["targets"][0]["datasource"];
    assert_eq!(target_ds["type"], "prometheus");
    assert_eq!(target_ds["uid"], "mimir");
    assert!(!target_ds.is_string());
}

#[test]
fn refresh_is_actually_emitted() {
    let j = render(&board(), &Theme::tundra()).unwrap();
    assert_eq!(j["refresh"], "30s");
}

#[test]
fn the_base_threshold_step_is_null_whatever_the_author_wrote() {
    let mut b = board();
    b.rows[0].panels[0].thresholds.steps[0].value = Some(999.0f64.to_bits());
    let j = render(&b, &Theme::tundra()).unwrap();
    let steps = &j["panels"][1]["fieldConfig"]["defaults"]["thresholds"]["steps"];
    assert!(steps[0]["value"].is_null(), "base step must be null");
    assert_eq!(steps[1]["value"], 1.0);
    assert_eq!(steps[0]["color"], "#A3BE8C");
    assert_eq!(steps[1]["color"], "#BF616A");
}

#[test]
fn a_collapsed_row_nests_its_children_instead_of_orphaning_them() {
    let mut b = board();
    b.rows[0].collapsed = true;
    let j = render(&b, &Theme::tundra()).unwrap();
    let panels = j["panels"].as_array().unwrap();
    assert_eq!(panels.len(), 1, "the row must be the only top-level panel");
    assert_eq!(panels[0]["type"], "row");
    assert_eq!(panels[0]["collapsed"], true);
    assert_eq!(panels[0]["panels"].as_array().unwrap().len(), 1);
    assert_eq!(panels[0]["panels"][0]["title"], "Sink errors /5m");
}

#[test]
fn an_expanded_row_leaves_its_children_as_siblings() {
    let j = render(&board(), &Theme::tundra()).unwrap();
    let panels = j["panels"].as_array().unwrap();
    assert_eq!(panels.len(), 2);
    assert_eq!(panels[0]["type"], "row");
    assert!(panels[0]["panels"].as_array().unwrap().is_empty());
    assert_eq!(panels[1]["title"], "Sink errors /5m");
}

#[test]
fn panels_wrap_at_the_24_column_boundary() {
    let wide = |id: &str| {
        Panel::new(id, PanelKind::TimeSeries, id).query(Query::new("A", "up", "mimir")).size(12, 8)
    };
    let b = Dashboard::new("grid", "grid")
        .datasource(ds())
        .row(Row::new("r").panel(wide("a")).panel(wide("b")).panel(wide("c")));
    let j = render(&b, &Theme::tundra()).unwrap();
    let p = j["panels"].as_array().unwrap();
    assert_eq!((p[1]["gridPos"]["x"].as_u64(), p[1]["gridPos"]["y"].as_u64()), (Some(0), Some(1)));
    assert_eq!((p[2]["gridPos"]["x"].as_u64(), p[2]["gridPos"]["y"].as_u64()), (Some(12), Some(1)));
    assert_eq!((p[3]["gridPos"]["x"].as_u64(), p[3]["gridPos"]["y"].as_u64()), (Some(0), Some(9)));
}

#[test]
fn rendering_is_byte_stable_across_repeated_calls() {
    let b = board();
    let first = serde_json::to_string(&render(&b, &Theme::tundra()).unwrap()).unwrap();
    for _ in 0..16 {
        let again = serde_json::to_string(&render(&b, &Theme::tundra()).unwrap()).unwrap();
        assert_eq!(again, first);
    }
}

#[test]
fn a_panel_with_no_query_is_refused() {
    let b = Dashboard::new("x", "x")
        .datasource(ds())
        .row(Row::new("r").panel(Panel::new("empty", PanelKind::Stat, "Empty")));
    assert!(matches!(
        b.render_grafana_json(&Theme::tundra()),
        Err(DashboardError::PanelWithoutQuery { .. })
    ));
}

#[test]
fn an_unregistered_datasource_is_refused() {
    let b = Dashboard::new("x", "x").row(
        Row::new("r").panel(Panel::new("p", PanelKind::Stat, "P").query(Query::new("A", "up", "nope"))),
    );
    assert!(matches!(
        b.render_grafana_json(&Theme::tundra()),
        Err(DashboardError::UnknownDatasource { .. })
    ));
}

#[test]
fn a_logs_query_against_a_metrics_datasource_is_refused() {
    let b = Dashboard::new("x", "x").datasource(ds()).row(
        Row::new("r").panel(
            Panel::new("p", PanelKind::Table, "Logs")
                .query(Query::new("A", "{job=\"x\"} | json | line_format \"{{.msg}}\"", "mimir")),
        ),
    );
    assert!(matches!(
        b.render_grafana_json(&Theme::tundra()),
        Err(DashboardError::QueryLanguageMismatch { .. })
    ));
}

#[test]
fn a_promql_regex_alternation_is_not_mistaken_for_a_logsql_pipe() {
    let b = Dashboard::new("x", "x").datasource(ds()).row(
        Row::new("r").panel(
            Panel::new("p", PanelKind::Stat, "P")
                .query(Query::new("A", "sum(rate(http_total{status=~\"500|503\"}[5m]))", "mimir")),
        ),
    );
    assert!(b.render_grafana_json(&Theme::tundra()).is_ok());
}

#[test]
fn a_sql_datasource_emits_rawsql_not_expr() {
    let b = Dashboard::new("ch", "ch")
        .datasource(Datasource::new("clickhouse", "grafana-clickhouse-datasource", QueryLang::Sql))
        .row(Row::new("r").panel(
            Panel::new("p", PanelKind::Table, "Rows").query(Query::new(
                "A",
                "SELECT count() FROM audit",
                "clickhouse",
            )),
        ));
    let j = render(&b, &Theme::tundra()).unwrap();
    let t = &j["panels"][1]["targets"][0];
    assert_eq!(t["rawSql"], "SELECT count() FROM audit");
    assert!(t["expr"].is_null());
    assert_eq!(t["queryType"], "table");
}

#[test]
fn the_synthesizer_target_renders_the_same_document() {
    let b = board();
    let via_trait: Json = Synthesizer::<GrafanaJson>::synthesize(&b).unwrap();
    assert_eq!(via_trait, b.render_grafana_json(&Theme::default()).unwrap());
}
