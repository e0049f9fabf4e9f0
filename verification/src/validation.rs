//! Rejecting the dashboard shapes that render as a silently broken board.

use vstd::prelude::*;
use crate::dashboard::{lookup, Dashboard, Datasource, Panel, QueryLang, Query, Row};
use crate::text::{
    ascii_lower, ascii_lowercase, chars_of, contains_seq, contains_str, decimal, decimal_string,
    owned, push_char,
};

verus! {

/// Grafana's fixed 24-column grid.
pub const GRID: u16 = 24;

/// What blanking string literals leaves, and whether the scan ends inside
/// a literal.
pub open spec fn blank_scan(s: Seq<char>) -> (Seq<char>, bool)
    decreases s.len(),
{
    if s.len() == 0 {
        (Seq::empty(), false)
    } else {
        let (out, in_str) = blank_scan(s.drop_last());
        let c = s.last();
        if c == '"' {
            (out.push('"'), !in_str)
        } else if in_str {
            (out.push(' '), in_str)
        } else {
            (out.push(c), in_str)
        }
    }
}

/// `s` with every character inside a double-quoted literal replaced by a
/// space; the quotes themselves are kept.
pub open spec fn blank_literals(s: Seq<char>) -> Seq<char> {
    blank_scan(s).0
}

/// Law: blanking keeps the length and every position: a quote stays a
/// quote, a character inside a literal becomes a space, every other
/// character is kept.
pub proof fn law_blanking_is_positional(s: Seq<char>, i: int)
    requires
        0 <= i < s.len(),
    ensures
        blank_literals(s).len() == s.len(),
        blank_literals(s)[i] == if s[i] == '"' {
            '"'
        } else if blank_scan(s.take(i)).1 {
            ' '
        } else {
            s[i]
        },
    decreases s.len(),
{
    lemma_blank_scan_len(s);
    if i < s.len() - 1 {
        law_blanking_is_positional(s.drop_last(), i);
        assert(s.drop_last().take(i) =~= s.take(i));
    } else {
        assert(s.drop_last() =~= s.take(i));
    }
}

proof fn lemma_blank_scan_len(s: Seq<char>)
    ensures
        blank_scan(s).0.len() == s.len(),
    decreases s.len(),
{
    if s.len() > 0 {
        lemma_blank_scan_len(s.drop_last());
    }
}

/// A PromQL function or aggregation marker occurs.
pub open spec fn has_promql_marker(lower: Seq<char>) -> bool {
    ||| contains_seq(lower, "rate("@)
    ||| contains_seq(lower, "irate("@)
    ||| contains_seq(lower, "increase("@)
    ||| contains_seq(lower, "histogram_quantile("@)
    ||| contains_seq(lower, "sum by"@)
    ||| contains_seq(lower, "avg by"@)
    ||| contains_seq(lower, "topk("@)
    ||| contains_seq(lower, "absent("@)
    ||| contains_seq(lower, "delta("@)
    ||| contains_seq(lower, "predict_linear("@)
}

/// Best-effort language classification, after blanking string literals:
/// `select ` with ` from ` is SQL, a PromQL marker is PromQL, a pipe is
/// LogsQL, anything else is not identified.
pub open spec fn classify_expr(expr: Seq<char>) -> Option<QueryLang> {
    let bare = blank_literals(expr);
    let lower = ascii_lower(bare);
    if contains_seq(lower, "select "@) && contains_seq(lower, " from "@) {
        Some(QueryLang::Sql)
    } else if has_promql_marker(lower) {
        Some(QueryLang::PromQl)
    } else if bare.contains('|') {
        Some(QueryLang::LogsQl)
    } else {
        None
    }
}

/// Law: classification, read outside string literals and ignoring ASCII
/// case. `select ` together with ` from ` means SQL. Otherwise any of
/// `rate(`, `irate(`, `increase(`, `histogram_quantile(`, `sum by`,
/// `avg by`, `topk(`, `absent(`, `delta(`, `predict_linear(` means PromQL.
/// Otherwise a `|` means LogsQL, and nothing else is identified.
pub proof fn law_classification(expr: Seq<char>, m: int)
    requires
        0 <= m < 10,
    ensures
        ({
            let bare = blank_literals(expr);
            let lower = ascii_lower(bare);
            let markers = seq![
                "rate("@, "irate("@, "increase("@, "histogram_quantile("@, "sum by"@, "avg by"@,
                "topk("@, "absent("@, "delta("@, "predict_linear("@,
            ];
            let sql = contains_seq(lower, "select "@) && contains_seq(lower, " from "@);
            let promql = exists|j: int| 0 <= j < 10 && contains_seq(lower, #[trigger] markers[j]);
            &&& sql ==> classify_expr(expr) == Some(QueryLang::Sql)
            &&& !sql && contains_seq(lower, markers[m]) ==> classify_expr(expr) == Some(QueryLang::PromQl)
            &&& !sql && !promql && bare.contains('|') ==> classify_expr(expr) == Some(QueryLang::LogsQl)
            &&& !sql && !promql && !bare.contains('|') ==> classify_expr(expr) is None
        }),
{
    let lower = ascii_lower(blank_literals(expr));
    let markers = seq![
        "rate("@, "irate("@, "increase("@, "histogram_quantile("@, "sum by"@, "avg by"@,
        "topk("@, "absent("@, "delta("@, "predict_linear("@,
    ];
    assert(markers[0] == "rate("@);
    assert(markers[1] == "irate("@);
    assert(markers[2] == "increase("@);
    assert(markers[3] == "histogram_quantile("@);
    assert(markers[4] == "sum by"@);
    assert(markers[5] == "avg by"@);
    assert(markers[6] == "topk("@);
    assert(markers[7] == "absent("@);
    assert(markers[8] == "delta("@);
    assert(markers[9] == "predict_linear("@);
    if has_promql_marker(lower) {
        if contains_seq(lower, "rate("@) { assert(contains_seq(lower, markers[0])); }
        else if contains_seq(lower, "irate("@) { assert(contains_seq(lower, markers[1])); }
        else if contains_seq(lower, "increase("@) { assert(contains_seq(lower, markers[2])); }
        else if contains_seq(lower, "histogram_quantile("@) { assert(contains_seq(lower, markers[3])); }
        else if contains_seq(lower, "sum by"@) { assert(contains_seq(lower, markers[4])); }
        else if contains_seq(lower, "avg by"@) { assert(contains_seq(lower, markers[5])); }
        else if contains_seq(lower, "topk("@) { assert(contains_seq(lower, markers[6])); }
        else if contains_seq(lower, "absent("@) { assert(contains_seq(lower, markers[7])); }
        else if contains_seq(lower, "delta("@) { assert(contains_seq(lower, markers[8])); }
        else { assert(contains_seq(lower, markers[9])); }
    }
}

/// Replace the contents of double-quoted string literals by spaces.
pub fn blank_string_literals(s: &str) -> (r: String)
    ensures
        r@ == blank_literals(s@),
{
    let cs = chars_of(s);
    let mut out = String::new();
    let mut in_str = false;
    let mut i: usize = 0;
    while i < cs.len()
        invariant
            cs@ == s@,
            i <= cs@.len(),
            (out@, in_str) == blank_scan(cs@.take(i as int)),
        decreases cs@.len() - i,
    {
        let c = cs[i];
        assert(cs@.take(i + 1).drop_last() =~= cs@.take(i as int));
        if c == '"' {
            in_str = !in_str;
            push_char(&mut out, '"');
        } else if in_str {
            push_char(&mut out, ' ');
        } else {
            push_char(&mut out, c);
        }
        i = i + 1;
    }
    assert(cs@.take(i as int) =~= cs@);
    out
}

fn contains_char(cs: &Vec<char>, c: char) -> (r: bool)
    ensures
        r == cs@.contains(c),
{
    let mut i: usize = 0;
    while i < cs.len()
        invariant
            i <= cs@.len(),
            forall|j: int| 0 <= j < i ==> cs@[j] != c,
        decreases cs@.len() - i,
    {
        if cs[i] == c {
            return true;
        }
        i = i + 1;
    }
    false
}

/// Best-effort language classification; `None` when the expression
/// carries no distinguishing marker.
pub fn classify(expr: &str) -> (r: Option<QueryLang>)
    ensures
        r == classify_expr(expr@),
{
    let bare = blank_string_literals(expr);
    let bare_chars = chars_of(bare.as_str());
    let lower = ascii_lowercase(&bare_chars);
    if contains_str(&lower, "select ") && contains_str(&lower, " from ") {
        return Some(QueryLang::Sql);
    }
    if contains_str(&lower, "rate(") || contains_str(&lower, "irate(") || contains_str(&lower, "increase(")
        || contains_str(&lower, "histogram_quantile(") || contains_str(&lower, "sum by")
        || contains_str(&lower, "avg by") || contains_str(&lower, "topk(") || contains_str(&lower, "absent(")
        || contains_str(&lower, "delta(") || contains_str(&lower, "predict_linear(") {
        return Some(QueryLang::PromQl);
    }
    if contains_char(&bare_chars, '|') {
        return Some(QueryLang::LogsQl);
    }
    None
}

/// A dashboard that would render as a silently broken board.
#[derive(Debug, Clone, PartialEq, Eq)]
pub enum DashboardError {
    MissingUid,
    MissingTitle { uid: String },
    MissingPanelTitle { panel: String },
    PanelWithoutQuery { panel: String },
    UnknownDatasource { panel: String, uid: String },
    QueryLanguageMismatch { panel: String, uid: String, declared: QueryLang, found: QueryLang },
    PanelWidth { panel: String, width: u16 },
}

/// What is wrong with one query of a panel, if anything: its datasource is
/// not registered, or its expression is identified as another language.
pub open spec fn query_error(ds: Seq<Datasource>, p: Panel, q: Query) -> Option<DashboardError> {
    match lookup(ds, q.datasource_uid@) {
        None => Some(DashboardError::UnknownDatasource { panel: p.id, uid: q.datasource_uid }),
        Some(d) => match classify_expr(q.expr@) {
            Some(found) => if found != d.query_lang {
                Some(
                    DashboardError::QueryLanguageMismatch {
                        panel: p.id,
                        uid: d.uid,
                        declared: d.query_lang,
                        found,
                    },
                )
            } else {
                None
            },
            None => None,
        },
    }
}

/// The first error among queries, in order.
pub open spec fn queries_error(ds: Seq<Datasource>, p: Panel, qs: Seq<Query>) -> Option<DashboardError>
    decreases qs.len(),
{
    if qs.len() == 0 {
        None
    } else {
        match queries_error(ds, p, qs.drop_last()) {
            Some(e) => Some(e),
            None => query_error(ds, p, qs.last()),
        }
    }
}

/// What is wrong with a panel, checked in order: title, queries, each
/// query, width.
pub open spec fn panel_error(ds: Seq<Datasource>, p: Panel) -> Option<DashboardError> {
    if p.title@.len() == 0 {
        Some(DashboardError::MissingPanelTitle { panel: p.id })
    } else if p.queries@.len() == 0 {
        Some(DashboardError::PanelWithoutQuery { panel: p.id })
    } else {
        match queries_error(ds, p, p.queries@) {
            Some(e) => Some(e),
            None => if p.width == 0 || p.width > GRID {
                Some(DashboardError::PanelWidth { panel: p.id, width: p.width })
            } else {
                None
            },
        }
    }
}

/// The first error among panels, in order.
pub open spec fn panels_error(ds: Seq<Datasource>, ps: Seq<Panel>) -> Option<DashboardError>
    decreases ps.len(),
{
    if ps.len() == 0 {
        None
    } else {
        match panels_error(ds, ps.drop_last()) {
            Some(e) => Some(e),
            None => panel_error(ds, ps.last()),
        }
    }
}

/// The first error among rows, in order.
pub open spec fn rows_error(ds: Seq<Datasource>, rows: Seq<Row>) -> Option<DashboardError>
    decreases rows.len(),
{
    if rows.len() == 0 {
        None
    } else {
        match rows_error(ds, rows.drop_last()) {
            Some(e) => Some(e),
            None => panels_error(ds, rows.last().panels@),
        }
    }
}

/// The verdict on a dashboard: the first problem found, checking the uid,
/// the title, then every panel of every row in order.
pub open spec fn dashboard_verdict(d: Dashboard) -> Result<(), DashboardError> {
    if d.uid@.len() == 0 {
        Err(DashboardError::MissingUid)
    } else if d.title@.len() == 0 {
        Err(DashboardError::MissingTitle { uid: d.uid })
    } else {
        match rows_error(d.datasources.0@, d.rows@) {
            Some(e) => Err(e),
            None => Ok(()),
        }
    }
}

/// The Debug name of a query language.
pub open spec fn lang_name(l: QueryLang) -> Seq<char> {
    match l {
        QueryLang::PromQl => "PromQl"@,
        QueryLang::LogsQl => "LogsQl"@,
        QueryLang::Sql => "Sql"@,
    }
}

/// The message an error displays.
pub open spec fn error_message(e: DashboardError) -> Seq<char> {
    match e {
        DashboardError::MissingUid => "dashboard has no uid"@,
        DashboardError::MissingTitle { uid } => "dashboard "@ + uid@ + " has no title"@,
        DashboardError::MissingPanelTitle { panel } => "panel "@ + panel@ + " has no title"@,
        DashboardError::PanelWithoutQuery { panel } => "panel "@ + panel@
            + " has no query — it would render as an empty box"@,
        DashboardError::UnknownDatasource { panel, uid } => "panel "@ + panel@
            + " references unregistered datasource "@ + uid@,
        DashboardError::QueryLanguageMismatch { panel, uid, declared, found } => "panel "@ + panel@
            + ": datasource "@ + uid@ + " speaks "@ + lang_name(declared)
            + " but the query looks like "@ + lang_name(found),
        DashboardError::PanelWidth { panel, width } => "panel "@ + panel@ + ": width "@
            + decimal(width as nat) + " is outside 1..=24"@,
    }
}

fn lang_name_str(l: QueryLang) -> (r: &'static str)
    ensures
        r@ == lang_name(l),
{
    match l {
        QueryLang::PromQl => "PromQl",
        QueryLang::LogsQl => "LogsQl",
        QueryLang::Sql => "Sql",
    }
}

impl DashboardError {
    /// The message this error displays.
    pub fn message(&self) -> (r: String)
        ensures
            r@ == error_message(*self),
    {
        match self {
            DashboardError::MissingUid => owned("dashboard has no uid"),
            DashboardError::MissingTitle { uid } => {
                let mut s = owned("dashboard ");
                s.append(uid.as_str());
                s.append(" has no title");
                s
            },
            DashboardError::MissingPanelTitle { panel } => {
                let mut s = owned("panel ");
                s.append(panel.as_str());
                s.append(" has no title");
                s
            },
            DashboardError::PanelWithoutQuery { panel } => {
                let mut s = owned("panel ");
                s.append(panel.as_str());
                s.append(" has no query — it would render as an empty box");
                s
            },
            DashboardError::UnknownDatasource { panel, uid } => {
                let mut s = owned("panel ");
                s.append(panel.as_str());
                s.append(" references unregistered datasource ");
                s.append(uid.as_str());
                s
            },
            DashboardError::QueryLanguageMismatch { panel, uid, declared, found } => {
                let mut s = owned("panel ");
                s.append(panel.as_str());
                s.append(": datasource ");
                s.append(uid.as_str());
                s.append(" speaks ");
                s.append(lang_name_str(*declared));
                s.append(" but the query looks like ");
                s.append(lang_name_str(*found));
                s
            },
            DashboardError::PanelWidth { panel, width } => {
                let mut s = owned("panel ");
                s.append(panel.as_str());
                s.append(": width ");
                let w = decimal_string(*width as u64);
                s.append(w.as_str());
                s.append(" is outside 1..=24");
                s
            },
        }
    }
}

impl Dashboard {
    fn query_problem(&self, p: &Panel, q: &Query) -> (r: Option<DashboardError>)
        ensures
            r == query_error(self.datasources.0@, *p, *q),
    {
        match self.datasources.get(q.datasource_uid.as_str()) {
            None => Some(DashboardError::UnknownDatasource { panel: p.id.clone(), uid: q.datasource_uid.clone() }),
            Some(ds) => match classify(q.expr.as_str()) {
                Some(found) => if found != ds.query_lang {
                    Some(
                        DashboardError::QueryLanguageMismatch {
                            panel: p.id.clone(),
                            uid: ds.uid.clone(),
                            declared: ds.query_lang,
                            found,
                        },
                    )
                } else {
                    None
                },
                None => None,
            },
        }
    }

    fn panel_problem(&self, p: &Panel) -> (r: Option<DashboardError>)
        ensures
            r == panel_error(self.datasources.0@, *p),
    {
        if p.title.as_str().is_empty() {
            return Some(DashboardError::MissingPanelTitle { panel: p.id.clone() });
        }
        if p.queries.len() == 0 {
            return Some(DashboardError::PanelWithoutQuery { panel: p.id.clone() });
        }
        let ghost ds = self.datasources.0@;
        let mut k: usize = 0;
        while k < p.queries.len()
            invariant
                ds == self.datasources.0@,
                p.title@.len() > 0,
                p.queries@.len() > 0,
                k <= p.queries@.len(),
                queries_error(ds, *p, p.queries@.take(k as int)) is None,
            decreases p.queries@.len() - k,
        {
            let e = self.query_problem(p, &p.queries[k]);
            assert(p.queries@.take(k + 1).drop_last() =~= p.queries@.take(k as int));
            if e.is_some() {
                proof {
                    assert(queries_error(ds, *p, p.queries@.take(k + 1)) == e);
                    lemma_first_query_error_stays(ds, *p, p.queries@, k as int + 1);
                }
                return e;
            }
            k = k + 1;
        }
        assert(p.queries@.take(k as int) =~= p.queries@);
        if p.width == 0 || p.width > GRID {
            return Some(DashboardError::PanelWidth { panel: p.id.clone(), width: p.width });
        }
        None
    }

    /// Reject the shapes that render as a silently broken board.
    pub fn validate(&self) -> (r: Result<(), DashboardError>)
        ensures
            r == dashboard_verdict(*self),
    {
        if self.uid.as_str().is_empty() {
            return Err(DashboardError::MissingUid);
        }
        if self.title.as_str().is_empty() {
            return Err(DashboardError::MissingTitle { uid: self.uid.clone() });
        }
        let ghost ds = self.datasources.0@;
        let mut i: usize = 0;
        while i < self.rows.len()
            invariant
                ds == self.datasources.0@,
                self.uid@.len() > 0,
                self.title@.len() > 0,
                i <= self.rows@.len(),
                rows_error(ds, self.rows@.take(i as int)) is None,
            decreases self.rows@.len() - i,
        {
            let row = &self.rows[i];
            let mut j: usize = 0;
            while j < row.panels.len()
                invariant
                    ds == self.datasources.0@,
                    self.uid@.len() > 0,
                    self.title@.len() > 0,
                    *row == self.rows@[i as int],
                    i < self.rows@.len(),
                    j <= row.panels@.len(),
                    rows_error(ds, self.rows@.take(i as int)) is None,
                    panels_error(ds, row.panels@.take(j as int)) is None,
                decreases row.panels@.len() - j,
            {
                let e = self.panel_problem(&row.panels[j]);
                assert(row.panels@.take(j + 1).drop_last() =~= row.panels@.take(j as int));
                if let Some(err) = e {
                    proof {
                        assert(panels_error(ds, row.panels@.take(j + 1)) == Some(err));
                        lemma_first_panel_error_stays(ds, row.panels@, j as int + 1);
                        assert(self.rows@.take(i + 1).drop_last() =~= self.rows@.take(i as int));
                        assert(rows_error(ds, self.rows@.take(i + 1)) == Some(err));
                        lemma_first_row_error_stays(ds, self.rows@, i as int + 1);
                        assert(self.rows@.take(self.rows@.len() as int) =~= self.rows@);
                    }
                    return Err(err);
                }
                j = j + 1;
            }
            assert(row.panels@.take(j as int) =~= row.panels@);
            assert(self.rows@.take(i + 1).drop_last() =~= self.rows@.take(i as int));
            i = i + 1;
        }
        assert(self.rows@.take(i as int) =~= self.rows@);
        Ok(())
    }
}

/// Once a prefix of the queries has an error, the whole list reports it.
proof fn lemma_first_query_error_stays(ds: Seq<Datasource>, p: Panel, qs: Seq<Query>, k: int)
    requires
        0 <= k <= qs.len(),
        queries_error(ds, p, qs.take(k)) is Some,
    ensures
        queries_error(ds, p, qs) == queries_error(ds, p, qs.take(k)),
    decreases qs.len() - k,
{
    if k < qs.len() {
        assert(qs.take(k + 1).drop_last() =~= qs.take(k));
        lemma_first_query_error_stays(ds, p, qs, k + 1);
    } else {
        assert(qs.take(k) =~= qs);
    }
}

/// Once a prefix of the panels has an error, the whole list reports it.
proof fn lemma_first_panel_error_stays(ds: Seq<Datasource>, ps: Seq<Panel>, k: int)
    requires
        0 <= k <= ps.len(),
        panels_error(ds, ps.take(k)) is Some,
    ensures
        panels_error(ds, ps) == panels_error(ds, ps.take(k)),
    decreases ps.len() - k,
{
    if k < ps.len() {
        assert(ps.take(k + 1).drop_last() =~= ps.take(k));
        lemma_first_panel_error_stays(ds, ps, k + 1);
    } else {
        assert(ps.take(k) =~= ps);
    }
}

/// Once a prefix of the rows has an error, the whole list reports it.
proof fn lemma_first_row_error_stays(ds: Seq<Datasource>, rows: Seq<Row>, k: int)
    requires
        0 <= k <= rows.len(),
        rows_error(ds, rows.take(k)) is Some,
    ensures
        rows_error(ds, rows) == rows_error(ds, rows.take(k)),
    decreases rows.len() - k,
{
    if k < rows.len() {
        assert(rows.take(k + 1).drop_last() =~= rows.take(k));
        lemma_first_row_error_stays(ds, rows, k + 1);
    } else {
        assert(rows.take(k) =~= rows);
    }
}

} // verus!
