//! Typed dashboard documents: the source side of the Grafana target.
//!
//! A dashboard is a fixed spine of plain structs; nothing in it is
//! recursive. Colours are semantic [`Role`]s resolved by a [`Theme`] at
//! render time, and every query names a registered datasource whose
//! language [`Dashboard::validate`] checks before anything renders.

use vstd::prelude::*;
use std::collections::BTreeMap;
use crate::ordered_map::{index_in, lemma_index_in, lemma_index_in_at, lemma_index_in_absent};
use crate::text::{owned, str_eq};

verus! {

broadcast use vstd::std_specs::btree::group_btree_axioms;

/// Semantic colour role; a [`Theme`] decides the actual colour.
#[derive(Debug, Clone, Copy, PartialEq, Eq, PartialOrd, Ord, Hash, Structural)]
pub enum Role {
    Neutral,
    Primary,
    Info,
    Success,
    Warning,
    Danger,
}

/// The position of a role in declaration order, which is also its order.
pub open spec fn role_rank(r: Role) -> u8 {
    match r {
        Role::Neutral => 0,
        Role::Primary => 1,
        Role::Info => 2,
        Role::Success => 3,
        Role::Warning => 4,
        Role::Danger => 5,
    }
}

fn rank_of(r: Role) -> (k: u8)
    ensures
        k == role_rank(r),
{
    match r {
        Role::Neutral => 0,
        Role::Primary => 1,
        Role::Info => 2,
        Role::Success => 3,
        Role::Warning => 4,
        Role::Danger => 5,
    }
}

/// Resolves a [`Role`] to a concrete colour. The colours are held by role
/// rank and read only through [`Theme::color`].
#[derive(Debug, Clone, PartialEq, Eq)]
pub struct Theme {
    pub name: String,
    roles: BTreeMap<u8, String>,
}

/// The fleet default colours: Nord's Polar Night / Frost / Aurora ramp.
pub open spec fn tundra_color(r: Role) -> Seq<char> {
    match r {
        Role::Neutral => "#4C566A"@,
        Role::Primary => "#88C0D0"@,
        Role::Info => "#8FBCBB"@,
        Role::Success => "#A3BE8C"@,
        Role::Warning => "#EBCB8B"@,
        Role::Danger => "#BF616A"@,
    }
}

impl Theme {
    /// The theme's name.
    pub closed spec fn name_of(self) -> Seq<char> {
        self.name@
    }

    /// The colour of a role: its own if mapped, else the neutral colour,
    /// else `#4C566A`.
    pub closed spec fn color_of(self, r: Role) -> Seq<char> {
        if self.roles@.contains_key(role_rank(r)) {
            self.roles@[role_rank(r)]@
        } else if self.roles@.contains_key(0) {
            self.roles@[0]@
        } else {
            "#4C566A"@
        }
    }

    /// Never panics: an unmapped role falls back to neutral.
    pub fn color(&self, r: Role) -> (c: &str)
        ensures
            c@ == self.color_of(r),
    {
        match self.roles.get(&rank_of(r)) {
            Some(s) => s.as_str(),
            None => match self.roles.get(&0u8) {
                Some(s) => s.as_str(),
                None => "#4C566A",
            },
        }
    }

    /// The fleet default — Nord's Polar Night / Frost / Aurora ramp.
    pub fn tundra() -> (t: Theme)
        ensures
            t.name_of() == "tundra"@,
            forall|r: Role| #[trigger] t.color_of(r) == tundra_color(r),
    {
        let mut roles: BTreeMap<u8, String> = BTreeMap::new();
        roles.insert(0, owned("#4C566A"));
        roles.insert(1, owned("#88C0D0"));
        roles.insert(2, owned("#8FBCBB"));
        roles.insert(3, owned("#A3BE8C"));
        roles.insert(4, owned("#EBCB8B"));
        roles.insert(5, owned("#BF616A"));
        let t = Theme { name: owned("tundra"), roles };
        assert forall|r: Role| #[trigger] t.color_of(r) == tundra_color(r) by {
            assert(t.roles@.contains_key(role_rank(r)));
        }
        t
    }
}

impl Default for Theme {
    fn default() -> (t: Theme)
        ensures
            t.name_of() == "tundra"@,
            forall|r: Role| #[trigger] t.color_of(r) == tundra_color(r),
    {
        Self::tundra()
    }
}

/// The query language a datasource speaks.
#[derive(Debug, Clone, Copy, PartialEq, Eq, Structural)]
pub enum QueryLang {
    PromQl,
    LogsQl,
    Sql,
}

/// A registered datasource.
#[derive(Debug, Clone, PartialEq, Eq)]
pub struct Datasource {
    pub uid: String,
    /// Grafana plugin type, e.g. `prometheus`.
    pub wire_type: String,
    pub query_lang: QueryLang,
}

impl Datasource {
    pub fn new(uid: &str, wire_type: &str, lang: QueryLang) -> (d: Datasource)
        ensures
            d.uid@ == uid@,
            d.wire_type@ == wire_type@,
            d.query_lang == lang,
    {
        Datasource { uid: owned(uid), wire_type: owned(wire_type), query_lang: lang }
    }
}

/// Ordered datasource registry.
#[derive(Debug, Clone, PartialEq, Eq)]
pub struct Datasources(pub Vec<Datasource>);

/// The uids of a sequence of datasources.
pub open spec fn uids(ds: Seq<Datasource>) -> Seq<Seq<char>> {
    ds.map_values(|d: Datasource| d.uid@)
}

/// The first datasource registered under `uid`.
pub open spec fn lookup(ds: Seq<Datasource>, uid: Seq<char>) -> Option<Datasource> {
    let i = index_in(uids(ds), uid);
    if i >= 0 {
        Some(ds[i])
    } else {
        None
    }
}

/// Registering: replace the datasource with the same uid in place, or append.
pub open spec fn registered(ds: Seq<Datasource>, d: Datasource) -> Seq<Datasource> {
    let i = index_in(uids(ds), d.uid@);
    if i >= 0 {
        ds.update(i, d)
    } else {
        ds.push(d)
    }
}

/// Law: after registering a datasource, looking its uid up finds exactly it,
/// and every other uid finds what it found before.
pub proof fn law_register_then_lookup(ds: Seq<Datasource>, d: Datasource, other: Seq<char>)
    ensures
        lookup(registered(ds, d), d.uid@) == Some(d),
        other != d.uid@ ==> lookup(registered(ds, d), other) == lookup(ds, other),
{
    let i = index_in(uids(ds), d.uid@);
    lemma_index_in(uids(ds), d.uid@);
    lemma_index_in(uids(ds), other);
    let r = registered(ds, d);
    if i >= 0 {
        assert(uids(r) =~= uids(ds).update(i, d.uid@));
        lemma_index_in_at(uids(r), d.uid@, i);
        let j = index_in(uids(ds), other);
        if other != d.uid@ {
            if j >= 0 {
                lemma_index_in_at(uids(r), other, j);
            } else {
                lemma_index_in_absent(uids(r), other);
            }
        }
    } else {
        assert(uids(r) =~= uids(ds).push(d.uid@));
        lemma_index_in_at(uids(r), d.uid@, ds.len() as int);
        let j = index_in(uids(ds), other);
        if other != d.uid@ {
            if j >= 0 {
                lemma_index_in_at(uids(r), other, j);
            } else {
                lemma_index_in_absent(uids(r), other);
            }
        }
    }
}

impl Datasources {
    fn position(&self, uid: &str) -> (r: Option<usize>)
        ensures
            match r {
                Some(i) => index_in(uids(self.0@), uid@) == i,
                None => index_in(uids(self.0@), uid@) == -1,
            },
    {
        let mut i: usize = 0;
        while i < self.0.len()
            invariant
                i <= self.0@.len(),
                forall|j: int| 0 <= j < i ==> uids(self.0@)[j] != uid@,
            decreases self.0@.len() - i,
        {
            if str_eq(self.0[i].uid.as_str(), uid) {
                proof { lemma_index_in_at(uids(self.0@), uid@, i as int); }
                return Some(i);
            }
            i = i + 1;
        }
        proof { lemma_index_in_absent(uids(self.0@), uid@); }
        None
    }

    /// The first datasource registered under `uid`.
    pub fn get(&self, uid: &str) -> (r: Option<&Datasource>)
        ensures
            match r {
                Some(d) => lookup(self.0@, uid@) == Some(*d),
                None => lookup(self.0@, uid@) is None,
            },
    {
        proof { lemma_index_in(uids(self.0@), uid@); }
        match self.position(uid) {
            Some(i) => Some(&self.0[i]),
            None => None,
        }
    }

    /// Register a datasource, replacing the one with the same uid in place.
    pub fn register(&mut self, d: Datasource)
        ensures
            final(self).0@ == registered(old(self).0@, d),
    {
        proof { lemma_index_in(uids(self.0@), d.uid@); }
        match self.position(d.uid.as_str()) {
            Some(i) => {
                self.0.set(i, d);
            },
            None => {
                self.0.push(d);
            },
        }
    }
}

impl Default for Datasources {
    fn default() -> (r: Datasources)
        ensures
            r.0@.len() == 0,
    {
        Datasources(Vec::new())
    }
}

#[derive(Debug, Clone, Copy, PartialEq, Eq, Structural)]
pub enum PanelKind {
    Stat,
    TimeSeries,
    Gauge,
    Table,
    Heatmap,
    Text,
    Pie,
}

/// Uniform per-role widths so rows align.
pub open spec fn kind_width(k: PanelKind) -> u16 {
    match k {
        PanelKind::Stat | PanelKind::Gauge => 6,
        PanelKind::Table | PanelKind::Heatmap => 24,
        PanelKind::Text => 8,
        PanelKind::TimeSeries | PanelKind::Pie => 12,
    }
}

/// Uniform per-role heights.
pub open spec fn kind_height(k: PanelKind) -> u16 {
    match k {
        PanelKind::Stat | PanelKind::Gauge => 4,
        PanelKind::Table | PanelKind::Heatmap => 9,
        PanelKind::Text => 3,
        PanelKind::TimeSeries | PanelKind::Pie => 8,
    }
}

impl PanelKind {
    pub fn default_width(self) -> (w: u16)
        ensures
            w == kind_width(self),
    {
        match self {
            PanelKind::Stat | PanelKind::Gauge => 6,
            PanelKind::Table | PanelKind::Heatmap => 24,
            PanelKind::Text => 8,
            PanelKind::TimeSeries | PanelKind::Pie => 12,
        }
    }

    pub fn default_height(self) -> (h: u16)
        ensures
            h == kind_height(self),
    {
        match self {
            PanelKind::Stat | PanelKind::Gauge => 4,
            PanelKind::Table | PanelKind::Heatmap => 9,
            PanelKind::Text => 3,
            PanelKind::TimeSeries | PanelKind::Pie => 8,
        }
    }
}

/// Whether a series is expected to be continuously present.
#[derive(Debug, Clone, Copy, PartialEq, Eq, Default, Structural)]
pub enum Presence {
    #[default]
    Continuous,
    EventDriven,
    Conditional,
}

/// One band of a threshold ramp; `value: None` is the base band. The value
/// is a double held as its IEEE-754 bit pattern.
#[derive(Debug, Clone, PartialEq)]
pub struct Threshold {
    pub value: Option<u64>,
    pub color: Role,
}

#[derive(Debug, Clone, Copy, PartialEq, Eq, Default, Structural)]
pub enum ThresholdMode {
    #[default]
    Absolute,
    Percentage,
}

#[derive(Debug, Clone, PartialEq)]
pub struct ThresholdConfig {
    pub mode: ThresholdMode,
    pub steps: Vec<Threshold>,
}

impl Default for ThresholdConfig {
    fn default() -> (c: ThresholdConfig)
        ensures
            c.mode == ThresholdMode::Absolute,
            c.steps@.len() == 0,
    {
        ThresholdConfig { mode: ThresholdMode::Absolute, steps: Vec::new() }
    }
}

#[derive(Debug, Clone, PartialEq)]
pub struct Query {
    /// Grafana `refId`.
    pub reference: String,
    pub expr: String,
    pub datasource_uid: String,
    pub legend: Option<String>,
    pub instant: bool,
    pub hide: bool,
    pub presence: Presence,
    /// Per-target expression overrides, keyed by target name.
    pub alt_exprs: BTreeMap<String, String>,
}

impl Query {
    pub fn new(reference: &str, expr: &str, datasource_uid: &str) -> (q: Query)
        ensures
            q.reference@ == reference@,
            q.expr@ == expr@,
            q.datasource_uid@ == datasource_uid@,
            q.legend is None,
            !q.instant,
            !q.hide,
            q.presence == Presence::Continuous,
            q.alt_exprs@.len() == 0,
    {
        Query {
            reference: owned(reference),
            expr: owned(expr),
            datasource_uid: owned(datasource_uid),
            legend: None,
            instant: false,
            hide: false,
            presence: Presence::Continuous,
            alt_exprs: BTreeMap::new(),
        }
    }

    pub fn legend(self, l: &str) -> (q: Query)
        ensures
            q.legend matches Some(s) && s@ == l@,
            q.reference == self.reference,
            q.expr == self.expr,
            q.datasource_uid == self.datasource_uid,
            q.instant == self.instant,
            q.hide == self.hide,
            q.presence == self.presence,
            q.alt_exprs == self.alt_exprs,
    {
        let mut q = self;
        q.legend = Some(owned(l));
        q
    }

    pub fn instant(self) -> (q: Query)
        ensures
            q.instant,
            q.reference == self.reference,
            q.expr == self.expr,
            q.datasource_uid == self.datasource_uid,
            q.legend == self.legend,
            q.hide == self.hide,
            q.presence == self.presence,
            q.alt_exprs == self.alt_exprs,
    {
        let mut q = self;
        q.instant = true;
        q
    }

    pub fn presence(self, p: Presence) -> (q: Query)
        ensures
            q.presence == p,
            q.reference == self.reference,
            q.expr == self.expr,
            q.datasource_uid == self.datasource_uid,
            q.legend == self.legend,
            q.instant == self.instant,
            q.hide == self.hide,
            q.alt_exprs == self.alt_exprs,
    {
        let mut q = self;
        q.presence = p;
        q
    }
}

#[derive(Debug, Clone, Copy, PartialEq, Eq, Default, Structural)]
pub enum DisplayMode {
    #[default]
    Auto,
    /// Grafana's colour mode `none`.
    Off,
    Value,
    Background,
}

#[derive(Debug, Clone, Copy, PartialEq, Eq, Default, Structural)]
pub enum GraphMode {
    #[default]
    Auto,
    /// Grafana's graph mode `none`.
    Off,
    Area,
}

/// One panel. `min` and `max` are doubles held as IEEE-754 bit patterns.
#[derive(Debug, Clone, PartialEq)]
pub struct Panel {
    /// Stable author-chosen identity.
    pub id: String,
    pub kind: PanelKind,
    pub title: String,
    pub description: Option<String>,
    pub unit: Option<String>,
    pub min: Option<u64>,
    pub max: Option<u64>,
    pub decimals: Option<u32>,
    pub queries: Vec<Query>,
    pub thresholds: ThresholdConfig,
    pub width: u16,
    pub height: u16,
    pub display_mode: DisplayMode,
    pub graph: GraphMode,
}

impl Panel {
    pub fn new(id: &str, kind: PanelKind, title: &str) -> (p: Panel)
        ensures
            p.id@ == id@,
            p.kind == kind,
            p.title@ == title@,
            p.description is None,
            p.unit is None,
            p.min is None,
            p.max is None,
            p.decimals is None,
            p.queries@.len() == 0,
            p.thresholds.mode == ThresholdMode::Absolute,
            p.thresholds.steps@.len() == 0,
            p.width == kind_width(kind),
            p.height == kind_height(kind),
            p.display_mode == DisplayMode::Auto,
            p.graph == GraphMode::Auto,
    {
        Panel {
            id: owned(id),
            kind,
            title: owned(title),
            description: None,
            unit: None,
            min: None,
            max: None,
            decimals: None,
            queries: Vec::new(),
            thresholds: ThresholdConfig::default(),
            width: kind.default_width(),
            height: kind.default_height(),
            display_mode: DisplayMode::Auto,
            graph: GraphMode::Auto,
        }
    }

    pub fn query(self, q: Query) -> (p: Panel)
        ensures
            p.queries@ == self.queries@.push(q),
            p == (Panel { queries: p.queries, ..self }),
    {
        let mut p = self;
        p.queries.push(q);
        p
    }

    pub fn unit(self, u: &str) -> (p: Panel)
        ensures
            p.unit matches Some(s) && s@ == u@,
            p == (Panel { unit: p.unit, ..self }),
    {
        let mut p = self;
        p.unit = Some(owned(u));
        p
    }

    pub fn describe(self, d: &str) -> (p: Panel)
        ensures
            p.description matches Some(s) && s@ == d@,
            p == (Panel { description: p.description, ..self }),
    {
        let mut p = self;
        p.description = Some(owned(d));
        p
    }

    pub fn thresholds(self, steps: Vec<Threshold>) -> (p: Panel)
        ensures
            p.thresholds.mode == ThresholdMode::Absolute,
            p.thresholds.steps == steps,
            p == (Panel { thresholds: p.thresholds, ..self }),
    {
        let mut p = self;
        p.thresholds = ThresholdConfig { mode: ThresholdMode::Absolute, steps };
        p
    }

    pub fn size(self, w: u16, h: u16) -> (p: Panel)
        ensures
            p.width == w,
            p.height == h,
            p == (Panel { width: w, height: h, ..self }),
    {
        let mut p = self;
        p.width = w;
        p.height = h;
        p
    }
}

#[derive(Debug, Clone, PartialEq)]
pub struct Row {
    pub title: String,
    pub collapsed: bool,
    pub panels: Vec<Panel>,
}

impl Row {
    pub fn new(title: &str) -> (r: Row)
        ensures
            r.title@ == title@,
            !r.collapsed,
            r.panels@.len() == 0,
    {
        Row { title: owned(title), collapsed: false, panels: Vec::new() }
    }

    pub fn panel(self, p: Panel) -> (r: Row)
        ensures
            r.panels@ == self.panels@.push(p),
            r.title == self.title,
            r.collapsed == self.collapsed,
    {
        let mut r = self;
        r.panels.push(p);
        r
    }
}

#[derive(Debug, Clone, PartialEq, Eq)]
pub struct TimeRange {
    pub from: String,
    pub to: String,
}

impl Default for TimeRange {
    fn default() -> (t: TimeRange)
        ensures
            t.from@ == "now-1h"@,
            t.to@ == "now"@,
    {
        TimeRange { from: owned("now-1h"), to: owned("now") }
    }
}

#[derive(Debug, Clone, Copy, PartialEq, Eq, Structural)]
pub enum VariableKind {
    Query,
    Constant,
    Custom,
    Datasource,
    Textbox,
    Interval,
}

#[derive(Debug, Clone, PartialEq, Eq)]
pub struct Variable {
    pub name: String,
    pub kind: VariableKind,
    pub label: Option<String>,
    pub datasource_uid: Option<String>,
    pub query: Option<String>,
    pub options: Vec<String>,
    pub multi: bool,
    pub include_all: bool,
}

impl Variable {
    pub fn new(name: &str, kind: VariableKind) -> (v: Variable)
        ensures
            v.name@ == name@,
            v.kind == kind,
            v.label is None,
            v.datasource_uid is None,
            v.query is None,
            v.options@.len() == 0,
            !v.multi,
            !v.include_all,
    {
        Variable {
            name: owned(name),
            kind,
            label: None,
            datasource_uid: None,
            query: None,
            options: Vec::new(),
            multi: false,
            include_all: false,
        }
    }
}

#[derive(Debug, Clone, PartialEq, Eq)]
pub struct Annotation {
    pub name: String,
    pub datasource_uid: String,
    pub expr: String,
    pub color: Role,
    pub enable: bool,
}

/// A dashboard document.
#[derive(Debug, Clone, PartialEq)]
pub struct Dashboard {
    pub uid: String,
    pub title: String,
    pub description: Option<String>,
    pub tags: Vec<String>,
    /// Auto-refresh interval, e.g. `30s`; modelled and emitted.
    pub refresh: Option<String>,
    pub time: TimeRange,
    pub timezone: String,
    pub editable: bool,
    pub variables: Vec<Variable>,
    pub annotations: Vec<Annotation>,
    pub rows: Vec<Row>,
    pub datasources: Datasources,
}

impl Dashboard {
    pub fn new(uid: &str, title: &str) -> (d: Dashboard)
        ensures
            d.uid@ == uid@,
            d.title@ == title@,
            d.description is None,
            d.tags@.len() == 0,
            d.refresh matches Some(r) && r@ == "30s"@,
            d.time.from@ == "now-1h"@,
            d.time.to@ == "now"@,
            d.timezone@ == "utc"@,
            d.editable,
            d.variables@.len() == 0,
            d.annotations@.len() == 0,
            d.rows@.len() == 0,
            d.datasources.0@.len() == 0,
    {
        Dashboard {
            uid: owned(uid),
            title: owned(title),
            description: None,
            tags: Vec::new(),
            refresh: Some(owned("30s")),
            time: TimeRange::default(),
            timezone: owned("utc"),
            editable: true,
            variables: Vec::new(),
            annotations: Vec::new(),
            rows: Vec::new(),
            datasources: Datasources::default(),
        }
    }

    pub fn tag(self, t: &str) -> (d: Dashboard)
        ensures
            d.tags@.len() == self.tags@.len() + 1,
            d.tags@.take(self.tags@.len() as int) == self.tags@,
            d.tags@.last()@ == t@,
            d == (Dashboard { tags: d.tags, ..self }),
    {
        let mut d = self;
        d.tags.push(owned(t));
        d
    }

    pub fn row(self, r: Row) -> (d: Dashboard)
        ensures
            d.rows@ == self.rows@.push(r),
            d == (Dashboard { rows: d.rows, ..self }),
    {
        let mut d = self;
        d.rows.push(r);
        d
    }

    /// Register a datasource (replacing the one with the same uid).
    pub fn datasource(self, ds: Datasource) -> (d: Dashboard)
        ensures
            d.datasources.0@ == registered(self.datasources.0@, ds),
            d == (Dashboard { datasources: d.datasources, ..self }),
    {
        let mut d = self;
        d.datasources.register(ds);
        d
    }
}

} // verus!
