//! Grafana dashboard JSON, schemaVersion 39.
//!
//! The wire shape is owned here: field order is fixed, optional fields are
//! omitted when absent, layout and panel ids are computed at render time.

use vstd::prelude::*;
use crate::dashboard::{
    lookup, Annotation, Dashboard, Datasource, DisplayMode, GraphMode, Panel, PanelKind,
    Query, QueryLang, Role, Row, Theme, Threshold, ThresholdMode, Variable, VariableKind,
};
use crate::json::{
    float_is_finite, insert_field, is_finite_bits, items_model, lemma_json_view, object_model, Json,
    JsonModel, JsonNumber,
};
use crate::ordered_map::{law_get_after_insert, lemma_index_in, mget, minsert, model_keys, OrderedMap};
use crate::text::owned;
use crate::layout::{
    layout_fits, lemma_line_state_bounds, lemma_valid_widths, line_fits, panel_place, row_bottom, rows_layout,
    row_fits, widths_valid, line_state,
};
use crate::validation::{dashboard_verdict, DashboardError, GRID};

verus! {

/// The schema version this renderer targets.
pub const SCHEMA_VERSION: u32 = 39;

// ── small pieces of JSON ────────────────────────────────────────────────

pub open spec fn jtext(s: Seq<char>) -> JsonModel {
    JsonModel::Text(s)
}

pub open spec fn jnum(n: int) -> JsonModel {
    JsonModel::Number(JsonNumber::PosInt(n as u64))
}

/// A double: finite ones render as numbers, others as `null`.
pub open spec fn jfloat(bits: u64) -> JsonModel {
    if float_is_finite(bits) {
        JsonModel::Number(JsonNumber::Float(bits))
    } else {
        JsonModel::Null
    }
}

/// Insert a field that is present only when `v` is.
pub open spec fn put_opt(
    m: Seq<(Seq<char>, JsonModel)>,
    k: Seq<char>,
    v: Option<JsonModel>,
) -> Seq<(Seq<char>, JsonModel)> {
    match v {
        Some(x) => minsert(m, k, x),
        None => m,
    }
}

pub open spec fn empty_fields() -> Seq<(Seq<char>, JsonModel)> {
    Seq::empty()
}

/// The texts of a sequence of strings, as a JSON array.
pub open spec fn texts(ss: Seq<String>) -> JsonModel {
    JsonModel::Array(ss.map_values(|s: String| jtext(s@)))
}

fn text(s: &str) -> (r: Json)
    ensures
        r@ == jtext(s@),
{
    let r = Json::Text(owned(s));
    proof { lemma_json_view(r); }
    r
}

fn text_of(s: &String) -> (r: Json)
    ensures
        r@ == jtext(s@),
{
    let r = Json::Text(s.clone());
    proof { lemma_json_view(r); }
    r
}

fn num(n: u64) -> (r: Json)
    ensures
        r@ == jnum(n as int),
{
    let r = Json::Number(JsonNumber::PosInt(n));
    proof { lemma_json_view(r); }
    r
}

fn boolean(b: bool) -> (r: Json)
    ensures
        r@ == JsonModel::Bool(b),
{
    let r = Json::Bool(b);
    proof { lemma_json_view(r); }
    r
}

fn null() -> (r: Json)
    ensures
        r@ == JsonModel::Null,
{
    let r = Json::Null;
    proof { lemma_json_view(r); }
    r
}

fn float(bits: u64) -> (r: Json)
    ensures
        r@ == jfloat(bits),
{
    let r = if is_finite_bits(bits) {
        Json::Number(JsonNumber::Float(bits))
    } else {
        Json::Null
    };
    proof { lemma_json_view(r); }
    r
}

fn new_object() -> (m: OrderedMap<Json>)
    ensures
        object_model(m) == empty_fields(),
{
    let m = OrderedMap::new();
    proof { assert(object_model(m) =~= empty_fields()); }
    m
}

fn object(m: OrderedMap<Json>) -> (r: Json)
    ensures
        r@ == JsonModel::Object(object_model(m)),
{
    let r = Json::Object(m);
    proof { lemma_json_view(r); }
    r
}

fn array(v: Vec<Json>) -> (r: Json)
    ensures
        r@ == JsonModel::Array(items_model(v@)),
{
    let r = Json::Array(v);
    proof { lemma_json_view(r); }
    r
}

fn texts_of(ss: &Vec<String>) -> (r: Json)
    ensures
        r@ == texts(ss@),
{
    let mut out: Vec<Json> = Vec::new();
    let mut i: usize = 0;
    while i < ss.len()
        invariant
            i <= ss@.len(),
            out@.len() == i,
            forall|j: int| 0 <= j < i ==> #[trigger] out@[j]@ == jtext(ss@[j]@),
        decreases ss@.len() - i,
    {
        out.push(text_of(&ss[i]));
        i = i + 1;
    }
    let r = array(out);
    assert(items_model(out@) =~= ss@.map_values(|s: String| jtext(s@)));
    r
}

// ── names ───────────────────────────────────────────────────────────────

/// Grafana's plugin id for a panel kind.
pub open spec fn panel_type_name(k: PanelKind) -> Seq<char> {
    match k {
        PanelKind::Stat => "stat"@,
        PanelKind::TimeSeries => "timeseries"@,
        PanelKind::Gauge => "gauge"@,
        PanelKind::Table => "table"@,
        PanelKind::Heatmap => "heatmap"@,
        PanelKind::Text => "text"@,
        PanelKind::Pie => "piechart"@,
    }
}

fn kind_name(k: PanelKind) -> (r: &'static str)
    ensures
        r@ == panel_type_name(k),
{
    match k {
        PanelKind::Stat => "stat",
        PanelKind::TimeSeries => "timeseries",
        PanelKind::Gauge => "gauge",
        PanelKind::Table => "table",
        PanelKind::Heatmap => "heatmap",
        PanelKind::Text => "text",
        PanelKind::Pie => "piechart",
    }
}

/// Grafana's name for a template variable kind.
pub open spec fn variable_type_name(k: VariableKind) -> Seq<char> {
    match k {
        VariableKind::Query => "query"@,
        VariableKind::Constant => "constant"@,
        VariableKind::Custom => "custom"@,
        VariableKind::Datasource => "datasource"@,
        VariableKind::Textbox => "textbox"@,
        VariableKind::Interval => "interval"@,
    }
}

fn variable_kind_name(k: VariableKind) -> (r: &'static str)
    ensures
        r@ == variable_type_name(k),
{
    match k {
        VariableKind::Query => "query",
        VariableKind::Constant => "constant",
        VariableKind::Custom => "custom",
        VariableKind::Datasource => "datasource",
        VariableKind::Textbox => "textbox",
        VariableKind::Interval => "interval",
    }
}

// ── datasources and targets ─────────────────────────────────────────────

/// `{type, uid}`: the registered plugin type, `prometheus` when the uid is
/// not registered.
pub open spec fn dsref_json(dss: Seq<Datasource>, uid: Seq<char>) -> JsonModel {
    let wire = match lookup(dss, uid) {
        Some(d) => d.wire_type@,
        None => "prometheus"@,
    };
    JsonModel::Object(minsert(minsert(empty_fields(), "type"@, jtext(wire)), "uid"@, jtext(uid)))
}

/// Whether the datasource of `uid` speaks SQL.
pub open spec fn is_sql(dss: Seq<Datasource>, uid: Seq<char>) -> bool {
    match lookup(dss, uid) {
        Some(d) => d.query_lang == QueryLang::Sql,
        None => false,
    }
}

/// One query target: SQL datasources get `rawSql` + `queryType` +
/// `editorType`, every other one gets `expr`.
pub open spec fn target_json(dss: Seq<Datasource>, q: Query) -> JsonModel {
    let sql = is_sql(dss, q.datasource_uid@);
    let m0 = minsert(empty_fields(), "refId"@, jtext(q.reference@));
    let m1 = put_opt(m0, "expr"@, if sql { None } else { Some(jtext(q.expr@)) });
    let m2 = put_opt(m1, "rawSql"@, if sql { Some(jtext(q.expr@)) } else { None });
    let m3 = put_opt(m2, "queryType"@, if sql { Some(jtext("table"@)) } else { None });
    let m4 = put_opt(m3, "editorType"@, if sql { Some(jtext("sql"@)) } else { None });
    let m5 = minsert(m4, "datasource"@, dsref_json(dss, q.datasource_uid@));
    let m6 = put_opt(
        m5,
        "legendFormat"@,
        match q.legend {
            Some(l) => Some(jtext(l@)),
            None => None,
        },
    );
    let m7 = put_opt(m6, "instant"@, if q.instant { Some(JsonModel::Bool(true)) } else { None });
    let m8 = put_opt(m7, "hide"@, if q.hide { Some(JsonModel::Bool(true)) } else { None });
    JsonModel::Object(m8)
}

/// The colours of a theme, as a function of the role.
pub open spec fn palette(theme: Theme) -> spec_fn(Role) -> Seq<char> {
    |r: Role| theme.color_of(r)
}

// ── field config and options ────────────────────────────────────────────

/// One threshold step: colour from the theme, and a null value for the
/// base (first) step whatever the author wrote.
pub open spec fn step_json(colors: spec_fn(Role) -> Seq<char>, k: int, s: Threshold) -> JsonModel {
    JsonModel::Object(
        minsert(
            minsert(empty_fields(), "color"@, jtext(colors(s.color))),
            "value"@,
            if k == 0 {
                JsonModel::Null
            } else {
                match s.value {
                    Some(b) => jfloat(b),
                    None => JsonModel::Null,
                }
            },
        ),
    )
}

pub open spec fn threshold_mode_name(m: ThresholdMode) -> Seq<char> {
    match m {
        ThresholdMode::Absolute => "absolute"@,
        ThresholdMode::Percentage => "percentage"@,
    }
}

pub open spec fn thresholds_json(colors: spec_fn(Role) -> Seq<char>, p: Panel) -> JsonModel {
    let steps = p.thresholds.steps@;
    JsonModel::Object(
        minsert(
            minsert(empty_fields(), "mode"@, jtext(threshold_mode_name(p.thresholds.mode))),
            "steps"@,
            JsonModel::Array(Seq::new(steps.len(), |k: int| step_json(colors, k, steps[k]))),
        ),
    )
}

/// `fieldConfig.defaults`.
pub open spec fn defaults_json(colors: spec_fn(Role) -> Seq<char>, p: Panel) -> JsonModel {
    let has = p.thresholds.steps@.len() > 0;
    let m0 = put_opt(
        empty_fields(),
        "unit"@,
        match p.unit {
            Some(u) => Some(jtext(u@)),
            None => None,
        },
    );
    let m1 = put_opt(
        m0,
        "min"@,
        match p.min {
            Some(b) => Some(jfloat(b)),
            None => None,
        },
    );
    let m2 = put_opt(
        m1,
        "max"@,
        match p.max {
            Some(b) => Some(jfloat(b)),
            None => None,
        },
    );
    let m3 = put_opt(
        m2,
        "decimals"@,
        match p.decimals {
            Some(d) => Some(jnum(d as int)),
            None => None,
        },
    );
    let m4 = minsert(
        m3,
        "color"@,
        JsonModel::Object(
            minsert(empty_fields(), "mode"@, jtext(if has { "thresholds"@ } else { "palette-classic"@ })),
        ),
    );
    let m5 = put_opt(m4, "thresholds"@, if has { Some(thresholds_json(colors, p)) } else { None });
    JsonModel::Object(m5)
}

pub open spec fn field_config_json(colors: spec_fn(Role) -> Seq<char>, p: Panel) -> JsonModel {
    JsonModel::Object(
        minsert(
            minsert(empty_fields(), "defaults"@, defaults_json(colors, p)),
            "overrides"@,
            JsonModel::Array(Seq::empty()),
        ),
    )
}

/// `reduceOptions` of stat and gauge panels.
pub open spec fn reduce_options_json() -> JsonModel {
    JsonModel::Object(
        minsert(
            minsert(
                minsert(empty_fields(), "calcs"@, JsonModel::Array(seq![jtext("lastNotNull"@)])),
                "fields"@,
                jtext(""@),
            ),
            "values"@,
            JsonModel::Bool(false),
        ),
    )
}

/// Every query of the panel is instant.
pub open spec fn all_instant(qs: Seq<Query>) -> bool {
    forall|i: int| 0 <= i < qs.len() ==> #[trigger] qs[i].instant
}

pub open spec fn color_mode_name(m: DisplayMode) -> Seq<char> {
    match m {
        DisplayMode::Background => "background"@,
        DisplayMode::Off => "none"@,
        DisplayMode::Value | DisplayMode::Auto => "value"@,
    }
}

/// A one-point sparkline is noise, so an all-instant stat panel gets no
/// graph unless the author asked for one.
pub open spec fn graph_mode_name(p: Panel) -> Seq<char> {
    match p.graph {
        GraphMode::Off => "none"@,
        GraphMode::Area => "area"@,
        GraphMode::Auto => if all_instant(p.queries@) {
            "none"@
        } else {
            "area"@
        },
    }
}

/// The per-kind `options` block, if the kind has one.
pub open spec fn options_json(p: Panel) -> Option<JsonModel> {
    match p.kind {
        PanelKind::Stat => Some(
            JsonModel::Object(
                minsert(
                    minsert(
                        minsert(empty_fields(), "reduceOptions"@, reduce_options_json()),
                        "colorMode"@,
                        jtext(color_mode_name(p.display_mode)),
                    ),
                    "graphMode"@,
                    jtext(graph_mode_name(p)),
                ),
            ),
        ),
        PanelKind::Gauge => Some(
            JsonModel::Object(minsert(empty_fields(), "reduceOptions"@, reduce_options_json())),
        ),
        PanelKind::TimeSeries => Some(
            JsonModel::Object(
                minsert(
                    minsert(
                        empty_fields(),
                        "legend"@,
                        JsonModel::Object(
                            minsert(
                                minsert(
                                    minsert(empty_fields(), "displayMode"@, jtext("table"@)),
                                    "placement"@,
                                    jtext("bottom"@),
                                ),
                                "calcs"@,
                                JsonModel::Array(
                                    seq![jtext("lastNotNull"@), jtext("max"@), jtext("mean"@)],
                                ),
                            ),
                        ),
                    ),
                    "tooltip"@,
                    JsonModel::Object(
                        minsert(
                            minsert(empty_fields(), "mode"@, jtext("multi"@)),
                            "sort"@,
                            jtext("desc"@),
                        ),
                    ),
                ),
            ),
        ),
        _ => None,
    }
}

// ── building objects ────────────────────────────────────────────────────

/// The model of an optional JSON value.
pub open spec fn opt_model(o: Option<Json>) -> Option<JsonModel> {
    match o {
        Some(j) => Some(j@),
        None => None,
    }
}

fn put(m: &mut OrderedMap<Json>, k: &str, v: Json)
    ensures
        object_model(*final(m)) == minsert(object_model(*old(m)), k@, v@),
{
    insert_field(m, owned(k), v);
}

fn put_some(m: &mut OrderedMap<Json>, k: &str, v: Option<Json>)
    ensures
        object_model(*final(m)) == put_opt(object_model(*old(m)), k@, opt_model(v)),
{
    match v {
        Some(j) => put(m, k, j),
        None => {},
    }
}

fn opt_text(s: &Option<String>) -> (r: Option<Json>)
    ensures
        opt_model(r) == match *s {
            Some(t) => Some(jtext(t@)),
            None => None::<JsonModel>,
        },
{
    match s {
        Some(t) => Some(text_of(t)),
        None => None,
    }
}

fn opt_float(b: Option<u64>) -> (r: Option<Json>)
    ensures
        opt_model(r) == match b {
            Some(x) => Some(jfloat(x)),
            None => None::<JsonModel>,
        },
{
    match b {
        Some(x) => Some(float(x)),
        None => None,
    }
}

impl Dashboard {
    /// The `{type, uid}` reference for a datasource uid.
    fn dsref(&self, uid: &str) -> (r: Json)
        ensures
            r@ == dsref_json(self.datasources.0@, uid@),
    {
        let wire = match self.datasources.get(uid) {
            Some(d) => d.wire_type.clone(),
            None => owned("prometheus"),
        };
        let mut m = new_object();
        put(&mut m, "type", text_of(&wire));
        put(&mut m, "uid", text(uid));
        object(m)
    }

    fn speaks_sql(&self, uid: &str) -> (r: bool)
        ensures
            r == is_sql(self.datasources.0@, uid@),
    {
        match self.datasources.get(uid) {
            Some(d) => d.query_lang == QueryLang::Sql,
            None => false,
        }
    }

    fn target(&self, q: &Query) -> (r: Json)
        ensures
            r@ == target_json(self.datasources.0@, *q),
    {
        let sql = self.speaks_sql(q.datasource_uid.as_str());
        let mut m = new_object();
        put(&mut m, "refId", text_of(&q.reference));
        put_some(&mut m, "expr", if sql { None } else { Some(text_of(&q.expr)) });
        put_some(&mut m, "rawSql", if sql { Some(text_of(&q.expr)) } else { None });
        put_some(&mut m, "queryType", if sql { Some(text("table")) } else { None });
        put_some(&mut m, "editorType", if sql { Some(text("sql")) } else { None });
        put(&mut m, "datasource", self.dsref(q.datasource_uid.as_str()));
        put_some(&mut m, "legendFormat", opt_text(&q.legend));
        put_some(&mut m, "instant", if q.instant { Some(boolean(true)) } else { None });
        put_some(&mut m, "hide", if q.hide { Some(boolean(true)) } else { None });
        object(m)
    }
}

fn step(theme: &Theme, k: usize, s: &Threshold) -> (r: Json)
    ensures
        r@ == step_json(palette(*theme), k as int, *s),
{
    let mut m = new_object();
    put(&mut m, "color", text(theme.color(s.color)));
    let v = if k == 0 {
        null()
    } else {
        match s.value {
            Some(b) => float(b),
            None => null(),
        }
    };
    put(&mut m, "value", v);
    object(m)
}

fn thresholds_block(theme: &Theme, p: &Panel) -> (r: Json)
    ensures
        r@ == thresholds_json(palette(*theme), *p),
{
    let ghost steps = p.thresholds.steps@;
    let mut out: Vec<Json> = Vec::new();
    let mut k: usize = 0;
    while k < p.thresholds.steps.len()
        invariant
            steps == p.thresholds.steps@,
            k <= steps.len(),
            out@.len() == k,
            forall|j: int| 0 <= j < k ==> #[trigger] out@[j]@ == step_json(palette(*theme), j, steps[j]),
        decreases steps.len() - k,
    {
        out.push(step(theme, k, &p.thresholds.steps[k]));
        k = k + 1;
    }
    let mode = match p.thresholds.mode {
        ThresholdMode::Absolute => text("absolute"),
        ThresholdMode::Percentage => text("percentage"),
    };
    let mut m = new_object();
    put(&mut m, "mode", mode);
    assert(items_model(out@) =~= Seq::new(steps.len(), |j: int| step_json(palette(*theme), j, steps[j])));
    put(&mut m, "steps", array(out));
    object(m)
}

fn field_config(theme: &Theme, p: &Panel) -> (r: Json)
    ensures
        r@ == field_config_json(palette(*theme), *p),
{
    let has = p.thresholds.steps.len() > 0;
    let mut d = new_object();
    put_some(&mut d, "unit", opt_text(&p.unit));
    put_some(&mut d, "min", opt_float(p.min));
    put_some(&mut d, "max", opt_float(p.max));
    put_some(
        &mut d,
        "decimals",
        match p.decimals {
            Some(n) => Some(num(n as u64)),
            None => None,
        },
    );
    let mut c = new_object();
    put(&mut c, "mode", if has { text("thresholds") } else { text("palette-classic") });
    put(&mut d, "color", object(c));
    put_some(&mut d, "thresholds", if has { Some(thresholds_block(theme, p)) } else { None });
    let mut m = new_object();
    put(&mut m, "defaults", object(d));
    let none: Vec<Json> = Vec::new();
    assert(items_model(none@) =~= Seq::<JsonModel>::empty());
    put(&mut m, "overrides", array(none));
    object(m)
}

fn reduce_options() -> (r: Json)
    ensures
        r@ == reduce_options_json(),
{
    let calcs = vec![text("lastNotNull")];
    assert(items_model(calcs@) =~= seq![jtext("lastNotNull"@)]);
    let mut m = new_object();
    put(&mut m, "calcs", array(calcs));
    put(&mut m, "fields", text(""));
    put(&mut m, "values", boolean(false));
    object(m)
}

fn every_query_instant(qs: &Vec<Query>) -> (r: bool)
    ensures
        r == all_instant(qs@),
{
    let mut i: usize = 0;
    while i < qs.len()
        invariant
            i <= qs@.len(),
            forall|j: int| 0 <= j < i ==> #[trigger] qs@[j].instant,
        decreases qs@.len() - i,
    {
        if !qs[i].instant {
            return false;
        }
        i = i + 1;
    }
    true
}

fn options_for(p: &Panel) -> (r: Option<Json>)
    ensures
        opt_model(r) == options_json(*p),
{
    match p.kind {
        PanelKind::Stat => {
            let color_mode = match p.display_mode {
                DisplayMode::Background => text("background"),
                DisplayMode::Off => text("none"),
                DisplayMode::Value => text("value"),
                DisplayMode::Auto => text("value"),
            };
            let graph_mode = match p.graph {
                GraphMode::Off => text("none"),
                GraphMode::Area => text("area"),
                GraphMode::Auto => if every_query_instant(&p.queries) {
                    text("none")
                } else {
                    text("area")
                },
            };
            let mut m = new_object();
            put(&mut m, "reduceOptions", reduce_options());
            put(&mut m, "colorMode", color_mode);
            put(&mut m, "graphMode", graph_mode);
            Some(object(m))
        },
        PanelKind::Gauge => {
            let mut m = new_object();
            put(&mut m, "reduceOptions", reduce_options());
            Some(object(m))
        },
        PanelKind::TimeSeries => {
            let calcs = vec![text("lastNotNull"), text("max"), text("mean")];
            assert(items_model(calcs@) =~= seq![jtext("lastNotNull"@), jtext("max"@), jtext("mean"@)]);
            let mut legend = new_object();
            put(&mut legend, "displayMode", text("table"));
            put(&mut legend, "placement", text("bottom"));
            put(&mut legend, "calcs", array(calcs));
            let mut tooltip = new_object();
            put(&mut tooltip, "mode", text("multi"));
            put(&mut tooltip, "sort", text("desc"));
            let mut m = new_object();
            put(&mut m, "legend", object(legend));
            put(&mut m, "tooltip", object(tooltip));
            Some(object(m))
        },
        _ => None,
    }
}

// ── panels ──────────────────────────────────────────────────────────────

pub open spec fn grid_pos_json(h: int, w: int, x: int, y: int) -> JsonModel {
    JsonModel::Object(
        minsert(minsert(minsert(minsert(empty_fields(), "h"@, jnum(h)), "w"@, jnum(w)), "x"@, jnum(x)), "y"@, jnum(y)),
    )
}

pub open spec fn targets_json(dss: Seq<Datasource>, qs: Seq<Query>) -> JsonModel {
    JsonModel::Array(qs.map_values(|q: Query| target_json(dss, q)))
}

/// One panel with its integer id and its place on the grid.
pub open spec fn panel_json(dss: Seq<Datasource>, colors: spec_fn(Role) -> Seq<char>, p: Panel, id: int, at: (int, int)) -> JsonModel {
    let m0 = minsert(empty_fields(), "id"@, jnum(id));
    let m1 = minsert(m0, "title"@, jtext(p.title@));
    let m2 = minsert(m1, "type"@, jtext(panel_type_name(p.kind)));
    let m3 = minsert(m2, "gridPos"@, grid_pos_json(p.height as int, p.width as int, at.0, at.1));
    let m4 = put_opt(
        m3,
        "description"@,
        match p.description {
            Some(t) => Some(jtext(t@)),
            None => None,
        },
    );
    let m5 = minsert(m4, "targets"@, targets_json(dss, p.queries@));
    let m6 = minsert(m5, "fieldConfig"@, field_config_json(colors, p));
    let m7 = put_opt(m6, "options"@, options_json(p));
    JsonModel::Object(m7)
}

/// The panels of a row, numbered from `first_id` and laid out from `start_y`.
pub open spec fn row_children(
    dss: Seq<Datasource>,
    colors: spec_fn(Role) -> Seq<char>,
    ps: Seq<Panel>,
    first_id: int,
    start_y: int,
) -> Seq<JsonModel> {
    Seq::new(ps.len(), |k: int| panel_json(dss, colors, ps[k], first_id + k, panel_place(ps, k, start_y)))
}

fn grid_pos(h: u16, w: u16, x: u16, y: u16) -> (r: Json)
    ensures
        r@ == grid_pos_json(h as int, w as int, x as int, y as int),
{
    let mut m = new_object();
    put(&mut m, "h", num(h as u64));
    put(&mut m, "w", num(w as u64));
    put(&mut m, "x", num(x as u64));
    put(&mut m, "y", num(y as u64));
    object(m)
}

impl Dashboard {
    fn targets(&self, qs: &Vec<Query>) -> (r: Json)
        ensures
            r@ == targets_json(self.datasources.0@, qs@),
    {
        let mut out: Vec<Json> = Vec::new();
        let mut i: usize = 0;
        while i < qs.len()
            invariant
                i <= qs@.len(),
                out@.len() == i,
                forall|j: int| 0 <= j < i ==> #[trigger] out@[j]@ == target_json(self.datasources.0@, qs@[j]),
            decreases qs@.len() - i,
        {
            out.push(self.target(&qs[i]));
            i = i + 1;
        }
        assert(items_model(out@) =~= qs@.map_values(|q: Query| target_json(self.datasources.0@, q)));
        array(out)
    }

    fn panel_block(&self, theme: &Theme, p: &Panel, id: u32, x: u16, y: u16) -> (r: Json)
        ensures
            r@ == panel_json(self.datasources.0@, palette(*theme), *p, id as int, (x as int, y as int)),
    {
        let mut m = new_object();
        put(&mut m, "id", num(id as u64));
        put(&mut m, "title", text_of(&p.title));
        put(&mut m, "type", text(kind_name(p.kind)));
        put(&mut m, "gridPos", grid_pos(p.height, p.width, x, y));
        put_some(&mut m, "description", opt_text(&p.description));
        put(&mut m, "targets", self.targets(&p.queries));
        put(&mut m, "fieldConfig", field_config(theme, p));
        put_some(&mut m, "options", options_for(p));
        object(m)
    }

    /// Lay the panels of a row out left to right on the grid, wrapping to
    /// a new line below the tallest panel when the next one would not fit.
    fn render_row_panels(&self, row: &Row, first_id: u32, start_y: u16, theme: &Theme) -> (r: (Vec<Json>, u16))
        requires
            widths_valid(row.panels@),
            line_fits(row.panels@, start_y as int),
            first_id + row.panels@.len() <= u32::MAX,
        ensures
            items_model(r.0@) == row_children(self.datasources.0@, palette(*theme), row.panels@, first_id as int, start_y as int),
            r.1 == row_bottom(row.panels@, start_y as int),
    {
        let ghost dss = self.datasources.0@;
        let ghost ps = row.panels@;
        let ghost sy = start_y as int;
        let mut out: Vec<Json> = Vec::new();
        let mut x: u16 = 0;
        let mut y: u16 = start_y;
        let mut line_height: u16 = 0;
        let mut bottom: u16 = start_y;
        let mut id: u32 = first_id;
        let mut i: usize = 0;
        assert(ps.take(0) =~= Seq::<Panel>::empty());
        while i < row.panels.len()
            invariant
                dss == self.datasources.0@,
                ps == row.panels@,
                sy == start_y as int,
                widths_valid(ps),
                line_fits(ps, sy),
                first_id + ps.len() <= u32::MAX,
                i <= ps.len(),
                id == first_id + i,
                x as int == line_state(ps.take(i as int), sy).x,
                y as int == line_state(ps.take(i as int), sy).y,
                line_height as int == line_state(ps.take(i as int), sy).line_height,
                bottom as int == line_state(ps.take(i as int), sy).bottom,
                out@.len() == i,
                forall|j: int| 0 <= j < i ==> #[trigger] out@[j]@ == panel_json(dss, palette(*theme), ps[j], first_id + j, panel_place(ps, j, sy)),
            decreases ps.len() - i,
        {
            let p = &row.panels[i];
            proof {
                lemma_line_state_bounds(ps, sy, i as int);
                assert(panel_place(ps, i as int, sy).1 + ps[i as int].height <= u16::MAX);
                assert(ps[i as int].width <= GRID);
            }
            if x + p.width > GRID {
                y = y + line_height;
                x = 0;
                line_height = 0;
            }
            out.push(self.panel_block(theme, p, id, x, y));
            id = id + 1;
            x = x + p.width;
            if p.height > line_height {
                line_height = p.height;
            }
            if y + p.height > bottom {
                bottom = y + p.height;
            }
            assert(ps.take(i + 1).drop_last() =~= ps.take(i as int));
            i = i + 1;
        }
        assert(ps.take(i as int) =~= ps);
        assert(items_model(out@) =~= row_children(dss, palette(*theme), ps, first_id as int, sy));
        (out, bottom)
    }
}

// ── rows ────────────────────────────────────────────────────────────────

/// A row header: full width, one unit high, carrying its children when
/// collapsed (`nested`) and an empty `panels` list otherwise.
pub open spec fn row_header_json(r: Row, id: int, y: int, nested: Seq<JsonModel>) -> JsonModel {
    let m0 = minsert(empty_fields(), "id"@, jnum(id));
    let m1 = minsert(m0, "title"@, jtext(r.title@));
    let m2 = minsert(m1, "type"@, jtext("row"@));
    let m3 = minsert(m2, "gridPos"@, grid_pos_json(1, GRID as int, 0, y));
    let m4 = minsert(m3, "collapsed"@, JsonModel::Bool(r.collapsed));
    let m5 = minsert(m4, "panels"@, JsonModel::Array(nested));
    JsonModel::Object(m5)
}

/// The top-level `panels` list: each row header, followed by its children
/// unless the row is collapsed, in which case they live inside the header.
/// A row's children take the ids before its header's.
pub open spec fn rendered_panels(dss: Seq<Datasource>, colors: spec_fn(Role) -> Seq<char>, rows: Seq<Row>) -> Seq<JsonModel>
    decreases rows.len(),
{
    if rows.len() == 0 {
        Seq::empty()
    } else {
        let before = rows.drop_last();
        let at = rows_layout(before);
        let r = rows.last();
        let children = row_children(dss, colors, r.panels@, at.1, at.0 + 1);
        let id = at.1 + r.panels@.len();
        if r.collapsed {
            rendered_panels(dss, colors, before).push(row_header_json(r, id, at.0, children))
        } else {
            rendered_panels(dss, colors, before).push(row_header_json(r, id, at.0, Seq::empty())) + children
        }
    }
}

// ── annotations, variables, the document ────────────────────────────────

pub open spec fn annotation_json(dss: Seq<Datasource>, colors: spec_fn(Role) -> Seq<char>, a: Annotation) -> JsonModel {
    let m0 = minsert(empty_fields(), "name"@, jtext(a.name@));
    let m1 = minsert(m0, "datasource"@, dsref_json(dss, a.datasource_uid@));
    let m2 = minsert(m1, "expr"@, jtext(a.expr@));
    let m3 = minsert(m2, "iconColor"@, jtext(colors(a.color)));
    let m4 = minsert(m3, "enable"@, JsonModel::Bool(a.enable));
    JsonModel::Object(m4)
}

/// One option of a variable; the first is selected.
pub open spec fn variable_option_json(k: int, o: String) -> JsonModel {
    JsonModel::Object(
        minsert(minsert(minsert(empty_fields(), "value"@, jtext(o@)), "text"@, jtext(o@)), "selected"@, JsonModel::Bool(k == 0)),
    )
}

/// A template variable; only query variables refresh (on load).
pub open spec fn variable_json(dss: Seq<Datasource>, v: Variable) -> JsonModel {
    let m0 = minsert(empty_fields(), "name"@, jtext(v.name@));
    let m1 = minsert(m0, "type"@, jtext(variable_type_name(v.kind)));
    let m2 = put_opt(
        m1,
        "label"@,
        match v.label {
            Some(t) => Some(jtext(t@)),
            None => None,
        },
    );
    let m3 = put_opt(
        m2,
        "datasource"@,
        match v.datasource_uid {
            Some(u) => Some(dsref_json(dss, u@)),
            None => None,
        },
    );
    let m4 = put_opt(
        m3,
        "query"@,
        match v.query {
            Some(t) => Some(jtext(t@)),
            None => None,
        },
    );
    let opts = v.options@;
    let m5 = minsert(m4, "options"@, JsonModel::Array(Seq::new(opts.len(), |k: int| variable_option_json(k, opts[k]))));
    let m6 = minsert(m5, "multi"@, JsonModel::Bool(v.multi));
    let m7 = minsert(m6, "includeAll"@, JsonModel::Bool(v.include_all));
    let m8 = minsert(m7, "refresh"@, jnum(if v.kind == VariableKind::Query { 1 } else { 0 }));
    JsonModel::Object(m8)
}

/// `{list: items}`.
pub open spec fn list_json(items: Seq<JsonModel>) -> JsonModel {
    JsonModel::Object(minsert(empty_fields(), "list"@, JsonModel::Array(items)))
}

/// The Grafana dashboard document of `d` under `theme`.
pub open spec fn grafana_document(d: Dashboard, colors: spec_fn(Role) -> Seq<char>) -> JsonModel {
    let dss = d.datasources.0@;
    let m0 = minsert(
        empty_fields(),
        "annotations"@,
        list_json(d.annotations@.map_values(|a: Annotation| annotation_json(dss, colors, a))),
    );
    let m1 = minsert(
        m0,
        "description"@,
        jtext(
            match d.description {
                Some(t) => t@,
                None => Seq::empty(),
            },
        ),
    );
    let m2 = minsert(m1, "editable"@, JsonModel::Bool(d.editable));
    let m3 = minsert(m2, "fiscalYearStartMonth"@, jnum(0));
    let m4 = minsert(m3, "graphTooltip"@, jnum(1));
    let m5 = minsert(m4, "id"@, JsonModel::Null);
    let m6 = minsert(m5, "links"@, JsonModel::Array(Seq::empty()));
    let m7 = minsert(m6, "panels"@, JsonModel::Array(rendered_panels(dss, colors, d.rows@)));
    let m8 = put_opt(
        m7,
        "refresh"@,
        match d.refresh {
            Some(t) => Some(jtext(t@)),
            None => None,
        },
    );
    let m9 = minsert(m8, "schemaVersion"@, jnum(SCHEMA_VERSION as int));
    let m10 = minsert(m9, "tags"@, texts(d.tags@));
    let m11 = minsert(
        m10,
        "templating"@,
        list_json(d.variables@.map_values(|v: Variable| variable_json(dss, v))),
    );
    let m12 = minsert(
        m11,
        "time"@,
        JsonModel::Object(minsert(minsert(empty_fields(), "from"@, jtext(d.time.from@)), "to"@, jtext(d.time.to@))),
    );
    let m13 = minsert(m12, "timepicker"@, JsonModel::Object(empty_fields()));
    let m14 = minsert(m13, "timezone"@, jtext(d.timezone@));
    let m15 = minsert(m14, "title"@, jtext(d.title@));
    let m16 = minsert(m15, "uid"@, jtext(d.uid@));
    let m17 = minsert(m16, "version"@, jnum(1));
    JsonModel::Object(m17)
}

fn row_header(r: &Row, id: u32, y: u16, nested: Vec<Json>) -> (j: Json)
    ensures
        j@ == row_header_json(*r, id as int, y as int, items_model(nested@)),
{
    let mut m = new_object();
    put(&mut m, "id", num(id as u64));
    put(&mut m, "title", text_of(&r.title));
    put(&mut m, "type", text("row"));
    put(&mut m, "gridPos", grid_pos(1, GRID, 0, y));
    put(&mut m, "collapsed", boolean(r.collapsed));
    put(&mut m, "panels", array(nested));
    object(m)
}

impl Dashboard {
    fn annotation(&self, theme: &Theme, a: &Annotation) -> (r: Json)
        ensures
            r@ == annotation_json(self.datasources.0@, palette(*theme), *a),
    {
        let mut m = new_object();
        put(&mut m, "name", text_of(&a.name));
        put(&mut m, "datasource", self.dsref(a.datasource_uid.as_str()));
        put(&mut m, "expr", text_of(&a.expr));
        put(&mut m, "iconColor", text(theme.color(a.color)));
        put(&mut m, "enable", boolean(a.enable));
        object(m)
    }

    fn variable(&self, v: &Variable) -> (r: Json)
        ensures
            r@ == variable_json(self.datasources.0@, *v),
    {
        let ghost opts = v.options@;
        let mut options: Vec<Json> = Vec::new();
        let mut k: usize = 0;
        while k < v.options.len()
            invariant
                opts == v.options@,
                k <= opts.len(),
                options@.len() == k,
                forall|j: int| 0 <= j < k ==> #[trigger] options@[j]@ == variable_option_json(j, opts[j]),
            decreases opts.len() - k,
        {
            let mut o = new_object();
            put(&mut o, "value", text_of(&v.options[k]));
            put(&mut o, "text", text_of(&v.options[k]));
            put(&mut o, "selected", boolean(k == 0));
            options.push(object(o));
            k = k + 1;
        }
        assert(items_model(options@) =~= Seq::new(opts.len(), |j: int| variable_option_json(j, opts[j])));
        let mut m = new_object();
        put(&mut m, "name", text_of(&v.name));
        put(&mut m, "type", text(variable_kind_name(v.kind)));
        put_some(&mut m, "label", opt_text(&v.label));
        put_some(
            &mut m,
            "datasource",
            match &v.datasource_uid {
                Some(u) => Some(self.dsref(u.as_str())),
                None => None,
            },
        );
        put_some(&mut m, "query", opt_text(&v.query));
        put(&mut m, "options", array(options));
        put(&mut m, "multi", boolean(v.multi));
        put(&mut m, "includeAll", boolean(v.include_all));
        put(&mut m, "refresh", num(if matches!(v.kind, VariableKind::Query) { 1 } else { 0 }));
        object(m)
    }
}

impl Dashboard {
    /// Render to Grafana dashboard JSON.
    ///
    /// Validates first: every shape [`Dashboard::validate`] rejects would
    /// otherwise render as a board that looks fine and is broken in the
    /// browser.
    pub fn render_grafana_json(&self, theme: &Theme) -> (r: Result<Json, DashboardError>)
        requires
            dashboard_verdict(*self) is Ok ==> layout_fits(self.rows@),
        ensures
            match r {
                Ok(j) => dashboard_verdict(*self) is Ok && j@ == grafana_document(*self, palette(*theme)),
                Err(e) => dashboard_verdict(*self) == Err::<(), DashboardError>(e),
            },
    {
        match self.validate() {
            Err(e) => return Err(e),
            Ok(()) => {},
        }
        let ghost dss = self.datasources.0@;
        let ghost rows = self.rows@;
        proof { lemma_valid_widths(dss, rows); }
        let mut panels: Vec<Json> = Vec::new();
        let mut next_id: u32 = 1;
        let mut cursor_y: u16 = 0;
        let mut i: usize = 0;
        assert(rows.take(0) =~= Seq::<Row>::empty());
        assert(items_model(panels@) =~= Seq::<JsonModel>::empty());
        while i < self.rows.len()
            invariant
                dss == self.datasources.0@,
                rows == self.rows@,
                layout_fits(rows),
                forall|k: int| 0 <= k < rows.len() ==> #[trigger] widths_valid(rows[k].panels@),
                i <= rows.len(),
                (cursor_y as int, next_id as int) == rows_layout(rows.take(i as int)),
                items_model(panels@) == rendered_panels(dss, palette(*theme), rows.take(i as int)),
            decreases rows.len() - i,
        {
            let row = &self.rows[i];
            proof {
                assert(row_fits(rows_layout(rows.take(i as int)), rows[i as int]));
                assert(widths_valid(rows[i as int].panels@));
                assert(rows.take(i + 1).drop_last() =~= rows.take(i as int));
                assert(rows.take(i + 1).last() == rows[i as int]);
                lemma_line_state_bounds(row.panels@, cursor_y + 1, row.panels@.len() as int);
                assert(row.panels@.take(row.panels@.len() as int) =~= row.panels@);
            }
            let start = cursor_y + 1;
            let count = row.panels.len() as u32;
            let (mut children, bottom) = self.render_row_panels(row, next_id, start, theme);
            let header_id = next_id + count;
            let ghost before = items_model(panels@);
            let ghost kids = items_model(children@);
            if row.collapsed {
                panels.push(row_header(row, header_id, cursor_y, children));
                cursor_y = cursor_y + 1;
                assert(items_model(panels@) =~= before.push(row_header_json(*row, header_id as int, (cursor_y - 1) as int, kids)));
            } else {
                let none: Vec<Json> = Vec::new();
                assert(items_model(none@) =~= Seq::<JsonModel>::empty());
                let header = row_header(row, header_id, cursor_y, none);
                let ghost hv = header@;
                panels.push(header);
                panels.append(&mut children);
                cursor_y = bottom;
                assert(items_model(panels@) =~= before.push(hv) + kids);
            }
            next_id = header_id + 1;
            i = i + 1;
        }
        assert(rows.take(i as int) =~= rows);
        let mut annotations: Vec<Json> = Vec::new();
        let mut k: usize = 0;
        while k < self.annotations.len()
            invariant
                dss == self.datasources.0@,
                k <= self.annotations@.len(),
                annotations@.len() == k,
                forall|j: int| 0 <= j < k ==> #[trigger] annotations@[j]@ == annotation_json(dss, palette(*theme), self.annotations@[j]),
            decreases self.annotations@.len() - k,
        {
            annotations.push(self.annotation(theme, &self.annotations[k]));
            k = k + 1;
        }
        assert(items_model(annotations@) =~= self.annotations@.map_values(|a: Annotation| annotation_json(dss, palette(*theme), a)));
        let mut variables: Vec<Json> = Vec::new();
        let mut k: usize = 0;
        while k < self.variables.len()
            invariant
                dss == self.datasources.0@,
                k <= self.variables@.len(),
                variables@.len() == k,
                forall|j: int| 0 <= j < k ==> #[trigger] variables@[j]@ == variable_json(dss, self.variables@[j]),
            decreases self.variables@.len() - k,
        {
            variables.push(self.variable(&self.variables[k]));
            k = k + 1;
        }
        assert(items_model(variables@) =~= self.variables@.map_values(|v: Variable| variable_json(dss, v)));
        let mut list = new_object();
        put(&mut list, "list", array(annotations));
        let mut doc = new_object();
        put(&mut doc, "annotations", object(list));
        let description = match &self.description {
            Some(t) => text_of(t),
            None => {
                let r = Json::Text(String::new());
                proof { lemma_json_view(r); }
                r
            },
        };
        put(&mut doc, "description", description);
        put(&mut doc, "editable", boolean(self.editable));
        put(&mut doc, "fiscalYearStartMonth", num(0));
        put(&mut doc, "graphTooltip", num(1));
        put(&mut doc, "id", null());
        let links: Vec<Json> = Vec::new();
        assert(items_model(links@) =~= Seq::<JsonModel>::empty());
        put(&mut doc, "links", array(links));
        put(&mut doc, "panels", array(panels));
        put_some(&mut doc, "refresh", opt_text(&self.refresh));
        put(&mut doc, "schemaVersion", num(SCHEMA_VERSION as u64));
        put(&mut doc, "tags", texts_of(&self.tags));
        let mut templating = new_object();
        put(&mut templating, "list", array(variables));
        put(&mut doc, "templating", object(templating));
        let mut time = new_object();
        put(&mut time, "from", text_of(&self.time.from));
        put(&mut time, "to", text_of(&self.time.to));
        put(&mut doc, "time", object(time));
        put(&mut doc, "timepicker", object(new_object()));
        put(&mut doc, "timezone", text_of(&self.timezone));
        put(&mut doc, "title", text_of(&self.title));
        put(&mut doc, "uid", text_of(&self.uid));
        put(&mut doc, "version", num(1));
        Ok(object(doc))
    }
}

// ── laws ────────────────────────────────────────────────────────────────

proof fn lemma_get_after_put_opt(s: Seq<(Seq<char>, JsonModel)>, k: Seq<char>, v: Option<JsonModel>, q: Seq<char>)
    ensures
        q == k ==> mget(put_opt(s, k, v), q) == match v {
            Some(x) => Some(x),
            None => mget(s, q),
        },
        q != k ==> mget(put_opt(s, k, v), q) == mget(s, q),
{
    match v {
        Some(x) => law_get_after_insert(s, k, x, q),
        None => {},
    }
}

/// Law: the base (first) threshold step carries a null value whatever the
/// author wrote, later steps carry theirs, and every step takes its colour
/// from the theme.
pub proof fn law_base_threshold_step_is_null(colors: spec_fn(Role) -> Seq<char>, k: int, s: Threshold)
    ensures
        k == 0 ==> mget(step_json(colors, k, s)->Object_0, "value"@) == Some(JsonModel::Null),
        k != 0 && s.value is Some ==> mget(step_json(colors, k, s)->Object_0, "value"@) == Some(
            jfloat(s.value->0),
        ),
        mget(step_json(colors, k, s)->Object_0, "color"@) == Some(jtext(colors(s.color))),
{
    reveal_strlit("color");
    reveal_strlit("value");
    assert("color"@[0] != "value"@[0]);
    let m0 = minsert(empty_fields(), "color"@, jtext(colors(s.color)));
    law_get_after_insert(empty_fields(), "color"@, jtext(colors(s.color)), "color"@);
    law_get_after_insert(m0, "value"@, step_json(colors, k, s)->Object_0.last().1, "color"@);
    law_get_after_insert(m0, "value"@, step_json(colors, k, s)->Object_0.last().1, "value"@);
    lemma_index_in(model_keys(m0), "value"@);
}

/// Law: a target of a SQL datasource carries its expression as `rawSql`
/// with `queryType` `table` and no `expr`; any other target carries `expr`
/// and no `rawSql`.
pub proof fn law_sql_targets_carry_raw_sql(dss: Seq<Datasource>, q: Query)
    ensures
        is_sql(dss, q.datasource_uid@) ==> {
            &&& mget(target_json(dss, q)->Object_0, "rawSql"@) == Some(jtext(q.expr@))
            &&& mget(target_json(dss, q)->Object_0, "queryType"@) == Some(jtext("table"@))
            &&& mget(target_json(dss, q)->Object_0, "expr"@) is None
        },
        !is_sql(dss, q.datasource_uid@) ==> {
            &&& mget(target_json(dss, q)->Object_0, "expr"@) == Some(jtext(q.expr@))
            &&& mget(target_json(dss, q)->Object_0, "rawSql"@) is None
            &&& mget(target_json(dss, q)->Object_0, "queryType"@) is None
        },
{
    reveal_strlit("refId");
    reveal_strlit("expr");
    reveal_strlit("rawSql");
    reveal_strlit("queryType");
    reveal_strlit("editorType");
    reveal_strlit("datasource");
    reveal_strlit("legendFormat");
    reveal_strlit("instant");
    reveal_strlit("hide");
    let sql = is_sql(dss, q.datasource_uid@);
    let m0 = minsert(empty_fields(), "refId"@, jtext(q.reference@));
    let m1 = put_opt(m0, "expr"@, if sql { None } else { Some(jtext(q.expr@)) });
    let m2 = put_opt(m1, "rawSql"@, if sql { Some(jtext(q.expr@)) } else { None });
    let m3 = put_opt(m2, "queryType"@, if sql { Some(jtext("table"@)) } else { None });
    let m4 = put_opt(m3, "editorType"@, if sql { Some(jtext("sql"@)) } else { None });
    let m5 = minsert(m4, "datasource"@, dsref_json(dss, q.datasource_uid@));
    let lf = match q.legend {
        Some(l) => Some(jtext(l@)),
        None => None,
    };
    let m6 = put_opt(m5, "legendFormat"@, lf);
    let ins = if q.instant { Some(JsonModel::Bool(true)) } else { None };
    let m7 = put_opt(m6, "instant"@, ins);
    let hd = if q.hide { Some(JsonModel::Bool(true)) } else { None };
    assert(target_json(dss, q)->Object_0 == put_opt(m7, "hide"@, hd));
    let ks = seq!["expr"@, "rawSql"@, "queryType"@];
    assert forall|i: int| 0 <= i < 3 implies {
        let key = #[trigger] ks[i];
        &&& mget(put_opt(m7, "hide"@, hd), key) == mget(m4, key)
        &&& mget(m0, key) is None
    } by {
        let key = ks[i];
        assert(key[0] != "hide"@[0] && key[0] != "instant"@[0] && key[0] != "legendFormat"@[0]);
        assert(key[0] != "datasource"@[0]);
        assert(key[0] != "refId"@[0] || key.len() != "refId"@.len());
        lemma_get_after_put_opt(m7, "hide"@, hd, key);
        lemma_get_after_put_opt(m6, "instant"@, ins, key);
        lemma_get_after_put_opt(m5, "legendFormat"@, lf, key);
        law_get_after_insert(m4, "datasource"@, dsref_json(dss, q.datasource_uid@), key);
        law_get_after_insert(empty_fields(), "refId"@, jtext(q.reference@), key);
        lemma_index_in(model_keys(empty_fields::<>()), key);
    }
    assert(ks[0] == "expr"@);
    assert(ks[1] == "rawSql"@);
    assert(ks[2] == "queryType"@);
    assert("expr"@.len() != "rawSql"@.len() && "expr"@[0] != "queryType"@[0]);
    assert("expr"@.len() != "editorType"@.len());
    assert("rawSql"@[0] != "queryType"@[0] && "rawSql"@[0] != "editorType"@[0]);
    assert("queryType"@[0] != "editorType"@[0]);
    lemma_get_after_put_opt(m3, "editorType"@, if sql { Some(jtext("sql"@)) } else { None }, "expr"@);
    lemma_get_after_put_opt(m3, "editorType"@, if sql { Some(jtext("sql"@)) } else { None }, "rawSql"@);
    lemma_get_after_put_opt(m3, "editorType"@, if sql { Some(jtext("sql"@)) } else { None }, "queryType"@);
    lemma_get_after_put_opt(m2, "queryType"@, if sql { Some(jtext("table"@)) } else { None }, "expr"@);
    lemma_get_after_put_opt(m2, "queryType"@, if sql { Some(jtext("table"@)) } else { None }, "rawSql"@);
    lemma_get_after_put_opt(m2, "queryType"@, if sql { Some(jtext("table"@)) } else { None }, "queryType"@);
    lemma_get_after_put_opt(m1, "rawSql"@, if sql { Some(jtext(q.expr@)) } else { None }, "expr"@);
    lemma_get_after_put_opt(m1, "rawSql"@, if sql { Some(jtext(q.expr@)) } else { None }, "rawSql"@);
    lemma_get_after_put_opt(m1, "rawSql"@, if sql { Some(jtext(q.expr@)) } else { None }, "queryType"@);
    lemma_get_after_put_opt(m0, "expr"@, if sql { None } else { Some(jtext(q.expr@)) }, "expr"@);
    lemma_get_after_put_opt(m0, "expr"@, if sql { None } else { Some(jtext(q.expr@)) }, "rawSql"@);
    lemma_get_after_put_opt(m0, "expr"@, if sql { None } else { Some(jtext(q.expr@)) }, "queryType"@);
}

/// The number of top-level panels: one header per row, plus the panels of
/// every expanded row.
pub open spec fn top_level_count(rows: Seq<Row>) -> int
    decreases rows.len(),
{
    if rows.len() == 0 {
        0
    } else {
        top_level_count(rows.drop_last()) + 1 + if rows.last().collapsed {
            0
        } else {
            rows.last().panels@.len() as int
        }
    }
}

/// Law: a collapsed row keeps its panels inside its header, so only its
/// header reaches the top level; an expanded row is followed by all its
/// panels.
pub proof fn law_collapsed_rows_nest_their_panels(dss: Seq<Datasource>, colors: spec_fn(Role) -> Seq<char>, rows: Seq<Row>)
    ensures
        rendered_panels(dss, colors, rows).len() == top_level_count(rows),
        rows.len() > 0 && rows.last().collapsed ==> rendered_panels(dss, colors, rows).last()->Object_0.last() == (
            "panels"@,
            JsonModel::Array(
                row_children(
                    dss,
                    colors,
                    rows.last().panels@,
                    rows_layout(rows.drop_last()).1,
                    rows_layout(rows.drop_last()).0 + 1,
                ),
            ),
        ),
    decreases rows.len(),
{
    if rows.len() > 0 {
        law_collapsed_rows_nest_their_panels(dss, colors, rows.drop_last());
        let r = rows.last();
        let at = rows_layout(rows.drop_last());
        let children = row_children(dss, colors, r.panels@, at.1, at.0 + 1);
        if r.collapsed {
            reveal_strlit("id");
            reveal_strlit("title");
            reveal_strlit("type");
            reveal_strlit("gridPos");
            reveal_strlit("collapsed");
            reveal_strlit("panels");
            let h = row_header_json(r, at.1 + r.panels@.len(), at.0, children)->Object_0;
            let m0 = minsert(empty_fields(), "id"@, jnum(at.1 + r.panels@.len()));
            let m1 = minsert(m0, "title"@, jtext(r.title@));
            let m2 = minsert(m1, "type"@, jtext("row"@));
            let m3 = minsert(m2, "gridPos"@, grid_pos_json(1, GRID as int, 0, at.0));
            let m4 = minsert(m3, "collapsed"@, JsonModel::Bool(r.collapsed));
            lemma_index_in(model_keys(empty_fields::<>()), "id"@);
            lemma_index_in(model_keys(m0), "title"@);
            lemma_index_in(model_keys(m1), "type"@);
            lemma_index_in(model_keys(m2), "gridPos"@);
            lemma_index_in(model_keys(m3), "collapsed"@);
            lemma_index_in(model_keys(m4), "panels"@);
            assert("panels"@[0] != "id"@[0] && "panels"@[0] != "title"@[0] && "panels"@[0] != "type"@[0]);
            assert("panels"@[0] != "gridPos"@[0] && "panels"@[0] != "collapsed"@[0]);
            assert(model_keys(m4)[0] == "id"@);
            assert(h == minsert(m4, "panels"@, JsonModel::Array(children)));
        }
    }
}

/// The field `k` of an object, if `o` is an object that has it.
pub open spec fn field_of(o: Option<JsonModel>, k: Seq<char>) -> Option<JsonModel> {
    match o {
        Some(JsonModel::Object(es)) => mget(es, k),
        _ => None,
    }
}

/// Law: a panel with threshold steps renders `fieldConfig.defaults.thresholds.mode`
/// as `percentage` exactly when its threshold mode is `Percentage`, and as
/// `absolute` exactly when it is `Absolute`.
pub proof fn law_threshold_mode_is_kept(colors: spec_fn(Role) -> Seq<char>, p: Panel)
    requires
        p.thresholds.steps@.len() > 0,
    ensures
        ({
            let mode = field_of(
                field_of(field_of(Some(field_config_json(colors, p)), "defaults"@), "thresholds"@),
                "mode"@,
            );
            &&& (mode == Some(jtext("percentage"@))) <==> (p.thresholds.mode == ThresholdMode::Percentage)
            &&& (mode == Some(jtext("absolute"@))) <==> (p.thresholds.mode == ThresholdMode::Absolute)
        }),
{
    reveal_strlit("defaults");
    reveal_strlit("overrides");
    reveal_strlit("mode");
    reveal_strlit("steps");
    reveal_strlit("absolute");
    reveal_strlit("percentage");
    assert("defaults"@[0] != "overrides"@[0]);
    assert("mode"@[0] != "steps"@[0]);
    assert("absolute"@[0] != "percentage"@[0]);
    let d = defaults_json(colors, p);
    let m0 = minsert(empty_fields(), "defaults"@, d);
    law_get_after_insert(empty_fields(), "defaults"@, d, "defaults"@);
    law_get_after_insert(m0, "overrides"@, JsonModel::Array(Seq::empty()), "defaults"@);
    let t = thresholds_json(colors, p);
    let dm = d->Object_0;
    assert(mget(dm, "thresholds"@) == Some(t)) by {
        let has = p.thresholds.steps@.len() > 0;
        let m0 = put_opt(
            empty_fields(),
            "unit"@,
            match p.unit {
                Some(u) => Some(jtext(u@)),
                None => None,
            },
        );
        let m1 = put_opt(
            m0,
            "min"@,
            match p.min {
                Some(b) => Some(jfloat(b)),
                None => None,
            },
        );
        let m2 = put_opt(
            m1,
            "max"@,
            match p.max {
                Some(b) => Some(jfloat(b)),
                None => None,
            },
        );
        let m3 = put_opt(
            m2,
            "decimals"@,
            match p.decimals {
                Some(x) => Some(jnum(x as int)),
                None => None,
            },
        );
        let m4 = minsert(
            m3,
            "color"@,
            JsonModel::Object(
                minsert(empty_fields(), "mode"@, jtext(if has { "thresholds"@ } else { "palette-classic"@ })),
            ),
        );
        assert(dm == minsert(m4, "thresholds"@, t));
        law_get_after_insert(m4, "thresholds"@, t, "thresholds"@);
    }
    let tm = t->Object_0;
    let mode_text = jtext(threshold_mode_name(p.thresholds.mode));
    let t0 = minsert(empty_fields(), "mode"@, mode_text);
    law_get_after_insert(empty_fields(), "mode"@, mode_text, "mode"@);
    law_get_after_insert(
        t0,
        "steps"@,
        JsonModel::Array(
            Seq::new(p.thresholds.steps@.len(), |k: int| step_json(colors, k, p.thresholds.steps@[k])),
        ),
        "mode"@,
    );
}

/// Law: a stat panel's `graphMode` is `area` when the author asked for an
/// area, or left it to the renderer and some query is not instant; it is
/// `none` otherwise (asked for none, or every query is instant).
pub proof fn law_stat_graph_mode(p: Panel)
    requires
        p.kind == PanelKind::Stat,
    ensures
        field_of(options_json(p), "graphMode"@) == Some(
            jtext(
                if p.graph == GraphMode::Area || (p.graph == GraphMode::Auto && exists|i: int|
                    0 <= i < p.queries@.len() && !(#[trigger] p.queries@[i]).instant) {
                    "area"@
                } else {
                    "none"@
                },
            ),
        ),
{
    let m0 = minsert(empty_fields(), "reduceOptions"@, reduce_options_json());
    let m1 = minsert(m0, "colorMode"@, jtext(color_mode_name(p.display_mode)));
    law_get_after_insert(m1, "graphMode"@, jtext(graph_mode_name(p)), "graphMode"@);
    if p.graph == GraphMode::Auto {
        if exists|i: int| 0 <= i < p.queries@.len() && !(#[trigger] p.queries@[i]).instant {
            let i = choose|i: int| 0 <= i < p.queries@.len() && !(#[trigger] p.queries@[i]).instant;
            assert(!all_instant(p.queries@));
        }
    }
}

} // verus!
