//! Architectures of typed resources and their Terraform JSON rendering.

use vstd::prelude::*;
use crate::json::{
    insert_field, items_model, lemma_json_view, number_from_i64, number_of_i64, object_model, Json,
    JsonModel,
};
use crate::ordered_map::{
    law_get_after_insert, lemma_index_in, lemma_minsert_all_distinct, lemma_pairs_insert_map, mget,
    minsert, minsert_all, model_keys, pair_keys, pairs_map, pairs_model, OrderedMap, lemma_pairs_insert_model,
};
use crate::reference::ResourceRef;
use crate::text::{owned, push_char};
use crate::value::{values_json, Value};

verus! {

/// Provider reference: namespace, name and optional alias, plus the
/// provider-level configuration that renders inside `provider.<name>`.
#[derive(Debug, PartialEq)]
pub struct ProviderRef {
    /// e.g. "hashicorp/aws"
    pub source: String,
    /// e.g. "aws"
    pub name: String,
    /// e.g. "us-east-2"; `None` for the default unaliased provider.
    pub alias: Option<String>,
    /// Provider-level configuration (region, profile, default tags, ...).
    pub config: OrderedMap<Value>,
}

/// Resource multiplicity: Terraform's `count` or `for_each`.
#[derive(Debug, PartialEq)]
pub enum Multiplicity {
    Count(i64),
    ForEach(OrderedMap<Value>),
}

/// One typed resource.
#[derive(Debug, PartialEq)]
pub struct Resource {
    /// Resource type — Terraform `type` field, e.g. `aws_vpc`.
    pub type_id: String,
    /// Logical name within the architecture — Terraform `name`.
    pub name: String,
    /// Attribute map, in insertion order.
    pub attributes: OrderedMap<Value>,
    /// Explicit dependencies (Terraform `depends_on`).
    pub depends_on: Vec<ResourceRef>,
    /// Optional provider override.
    pub provider: Option<ProviderRef>,
    /// Count / for_each — `None` means a single instance.
    pub multiplicity: Option<Multiplicity>,
}

/// One terraform `import` block: adopt the existing object `id` into the
/// address `to`.
#[derive(Debug, PartialEq)]
pub struct Import {
    /// Resource address, e.g. `github_repository.foo`.
    pub to: String,
    /// Provider-specific id of the existing object.
    pub id: String,
}

/// Composition holder: one Terraform configuration.
#[derive(Debug, PartialEq)]
pub struct Architecture {
    pub name: String,
    pub resources: Vec<Resource>,
    /// `data` blocks, rendered under the top-level `data` key.
    pub data_sources: Vec<Resource>,
    pub outputs: OrderedMap<Value>,
    pub providers: Vec<ProviderRef>,
    /// `locals` block.
    pub locals: OrderedMap<Value>,
    /// `import` blocks: without them an architecture describing existing
    /// infrastructure plans to create it.
    pub imports: Vec<Import>,
}

/// Deployment instance of an architecture: one Terraform workspace.
#[derive(Debug, PartialEq)]
pub struct Stack {
    pub name: String,
    pub architecture: Architecture,
    pub workspace: String,
    pub backend: BackendRef,
    pub variable_overrides: OrderedMap<Value>,
}

/// State backend reference.
#[derive(Debug, PartialEq)]
pub enum BackendRef {
    Local { path: String },
    S3 { bucket: String, key: String, region: String },
    Gcs { bucket: String, prefix: String },
    AzureBlob { storage_account: String, container: String, key: String },
}

#[verifier::external_type_specification]
#[verifier::external_body]
pub struct ExSerdeJsonError(serde_json::Error);

/// Why a document could not be rendered.
#[derive(Debug)]
pub enum RenderError {
    /// JSON serialization failed.
    Json(serde_json::Error),
    /// The source document was rejected before rendering; carries the
    /// originating error's message.
    Invalid(String),
}

// ── the rendering, stated ───────────────────────────────────────────────

/// The fields of one provider configuration: the alias first, then the
/// configuration inserted over it.
pub open spec fn provider_fields(p: ProviderRef) -> Seq<(Seq<char>, JsonModel)> {
    let base = match p.alias {
        Some(a) => minsert(Seq::empty(), "alias"@, JsonModel::Text(a@)),
        None => Seq::empty(),
    };
    minsert_all(base, values_json(p.config))
}

/// Providers grouped by name in order of first appearance, each group
/// holding its configurations in order.
pub open spec fn provider_groups(ps: Seq<ProviderRef>) -> Seq<(Seq<char>, Seq<JsonModel>)>
    decreases ps.len(),
{
    if ps.len() == 0 {
        Seq::empty()
    } else {
        let g = provider_groups(ps.drop_last());
        let p = ps.last();
        let cur = match mget(g, p.name@) {
            Some(es) => es,
            None => Seq::empty(),
        };
        minsert(g, p.name@, cur.push(JsonModel::Object(provider_fields(p))))
    }
}

/// A single configuration renders as an object, several as an array.
pub open spec fn provider_group_json(es: Seq<JsonModel>) -> JsonModel {
    if es.len() == 1 {
        es[0]
    } else {
        JsonModel::Array(es)
    }
}

/// Resources nested by type with their full bodies.
pub open spec fn resource_nest(rs: Seq<Resource>) -> Seq<(Seq<char>, Seq<(Seq<char>, JsonModel)>)> {
    nest_by_type(rs, |r: Resource| resource_body(r))
}

/// Data sources nested by type with their attribute bodies.
pub open spec fn data_nest(rs: Seq<Resource>) -> Seq<(Seq<char>, Seq<(Seq<char>, JsonModel)>)> {
    nest_by_type(rs, |r: Resource| data_body(r))
}

/// The `provider` block.
pub open spec fn provider_block(ps: Seq<ProviderRef>) -> JsonModel {
    JsonModel::Object(
        minsert_all(
            Seq::empty(),
            provider_groups(ps).map_values(
                |g: (Seq<char>, Seq<JsonModel>)| (g.0, provider_group_json(g.1)),
            ),
        ),
    )
}

/// `type.name` of a dependency.
pub open spec fn dependency_address(d: ResourceRef) -> Seq<char> {
    d.type_id@ + seq!['.'] + d.name@
}

/// The body of a resource: its attributes, then `count` or `for_each`,
/// then `depends_on` when there are dependencies.
pub open spec fn resource_body(r: Resource) -> JsonModel {
    let attrs = values_json(r.attributes);
    let with_mult = match r.multiplicity {
        None => attrs,
        Some(Multiplicity::Count(n)) => minsert(attrs, "count"@, JsonModel::Number(number_of_i64(n))),
        Some(Multiplicity::ForEach(m)) => minsert(attrs, "for_each"@, JsonModel::Object(values_json(m))),
    };
    JsonModel::Object(
        if r.depends_on@.len() == 0 {
            with_mult
        } else {
            minsert(
                with_mult,
                "depends_on"@,
                JsonModel::Array(
                    r.depends_on@.map_values(|d: ResourceRef| JsonModel::Text(dependency_address(d))),
                ),
            )
        },
    )
}

/// The body of a data source: its attributes.
pub open spec fn data_body(r: Resource) -> JsonModel {
    JsonModel::Object(values_json(r.attributes))
}

/// Resources nested as `<type>.<name> = body`, types in order of first
/// appearance; a repeated (type, name) takes the later body in place.
pub open spec fn nest_by_type(rs: Seq<Resource>, body: spec_fn(Resource) -> JsonModel) -> Seq<
    (Seq<char>, Seq<(Seq<char>, JsonModel)>),
>
    decreases rs.len(),
{
    if rs.len() == 0 {
        Seq::empty()
    } else {
        let g = nest_by_type(rs.drop_last(), body);
        let r = rs.last();
        let named = match mget(g, r.type_id@) {
            Some(n) => n,
            None => Seq::empty(),
        };
        minsert(g, r.type_id@, minsert(named, r.name@, body(r)))
    }
}

/// The `resource` or `data` block of nested bodies.
pub open spec fn nested_block(g: Seq<(Seq<char>, Seq<(Seq<char>, JsonModel)>)>) -> JsonModel {
    JsonModel::Object(
        minsert_all(
            Seq::empty(),
            g.map_values(
                |t: (Seq<char>, Seq<(Seq<char>, JsonModel)>)|
                    (t.0, JsonModel::Object(minsert_all(Seq::empty(), t.1))),
            ),
        ),
    )
}

/// The `output` block: `<key> = { value = ... }`.
pub open spec fn output_block(outputs: OrderedMap<Value>) -> JsonModel {
    JsonModel::Object(
        values_json(outputs).map_values(
            |p: (Seq<char>, JsonModel)|
                (p.0, JsonModel::Object(minsert(Seq::empty(), "value"@, p.1))),
        ),
    )
}

/// One `import` entry.
pub open spec fn import_json(i: Import) -> JsonModel {
    JsonModel::Object(
        minsert(minsert(Seq::empty(), "to"@, JsonModel::Text(i.to@)), "id"@, JsonModel::Text(i.id@)),
    )
}

/// Insert `k = v` when `c` holds.
pub open spec fn insert_if(
    m: Seq<(Seq<char>, JsonModel)>,
    c: bool,
    k: Seq<char>,
    v: JsonModel,
) -> Seq<(Seq<char>, JsonModel)> {
    if c {
        minsert(m, k, v)
    } else {
        m
    }
}

/// The Terraform JSON document of an architecture: `provider`, `locals`,
/// `resource`, `data`, `output` and `import`, each only when it has
/// content, in that order.
pub open spec fn terraform_document(a: Architecture) -> JsonModel {
    let ps = a.providers@;
    let rs = resource_nest(a.resources@);
    let ds = data_nest(a.data_sources@);
    let m0 = Seq::empty();
    let m1 = insert_if(m0, ps.len() > 0, "provider"@, provider_block(ps));
    let m2 = insert_if(m1, a.locals.pairs().len() > 0, "locals"@, JsonModel::Object(values_json(a.locals)));
    let m3 = insert_if(m2, rs.len() > 0, "resource"@, nested_block(rs));
    let m4 = insert_if(m3, a.data_sources@.len() > 0, "data"@, nested_block(ds));
    let m5 = insert_if(m4, a.outputs.pairs().len() > 0, "output"@, output_block(a.outputs));
    let m6 = insert_if(
        m5,
        a.imports@.len() > 0,
        "import"@,
        JsonModel::Array(a.imports@.map_values(|i: Import| import_json(i))),
    );
    JsonModel::Object(m6)
}

/// Law: a resource with dependencies renders `depends_on` as one string
/// per dependency, in order, each exactly `<type_id>.<name>` of the
/// dependency: a resource address, never an attribute reference.
pub proof fn law_depends_on_lists_resource_addresses(r: Resource)
    requires
        r.depends_on@.len() > 0,
    ensures
        mget(resource_body(r)->Object_0, "depends_on"@) == Some(
            JsonModel::Array(
                Seq::new(
                    r.depends_on@.len(),
                    |k: int| JsonModel::Text(r.depends_on@[k].type_id@ + seq!['.'] + r.depends_on@[k].name@),
                ),
            ),
        ),
{
    let attrs = values_json(r.attributes);
    let with_mult = match r.multiplicity {
        None => attrs,
        Some(Multiplicity::Count(n)) => minsert(attrs, "count"@, JsonModel::Number(number_of_i64(n))),
        Some(Multiplicity::ForEach(m)) => minsert(attrs, "for_each"@, JsonModel::Object(values_json(m))),
    };
    let deps = JsonModel::Array(
        r.depends_on@.map_values(|d: ResourceRef| JsonModel::Text(dependency_address(d))),
    );
    law_get_after_insert(with_mult, "depends_on"@, deps, "depends_on"@);
    assert(deps->Array_0 =~= Seq::new(
        r.depends_on@.len(),
        |k: int| JsonModel::Text(r.depends_on@[k].type_id@ + seq!['.'] + r.depends_on@[k].name@),
    ));
}

proof fn lemma_get_after_insert_if(m: Seq<(Seq<char>, JsonModel)>, c: bool, k: Seq<char>, v: JsonModel, q: Seq<char>)
    ensures
        q == k && c ==> mget(insert_if(m, c, k, v), q) == Some(v),
        q != k || !c ==> mget(insert_if(m, c, k, v), q) == mget(m, q),
{
    if c {
        law_get_after_insert(m, k, v, q);
    }
}

proof fn lemma_nest_is_empty_exactly_when_rs_is(rs: Seq<Resource>, body: spec_fn(Resource) -> JsonModel)
    ensures
        nest_by_type(rs, body).len() == 0 <==> rs.len() == 0,
    decreases rs.len(),
{
    if rs.len() > 0 {
        let g = nest_by_type(rs.drop_last(), body);
        let r = rs.last();
        let named = match mget(g, r.type_id@) {
            Some(n) => n,
            None => Seq::empty(),
        };
        lemma_index_in(model_keys(g), r.type_id@);
        law_get_after_insert(g, r.type_id@, minsert(named, r.name@, body(r)), r.type_id@);
    }
}

/// Law: each top-level block of the Terraform document is present exactly
/// when the architecture has content for it; an empty architecture renders
/// as an empty object.
pub proof fn law_blocks_appear_exactly_when_present(a: Architecture)
    ensures
        mget(terraform_document(a)->Object_0, "provider"@) is Some <==> a.providers@.len() > 0,
        mget(terraform_document(a)->Object_0, "locals"@) is Some <==> a.locals.pairs().len() > 0,
        mget(terraform_document(a)->Object_0, "resource"@) is Some <==> a.resources@.len() > 0,
        mget(terraform_document(a)->Object_0, "data"@) is Some <==> a.data_sources@.len() > 0,
        mget(terraform_document(a)->Object_0, "output"@) is Some <==> a.outputs.pairs().len() > 0,
        mget(terraform_document(a)->Object_0, "import"@) is Some <==> a.imports@.len() > 0,
        a.providers@.len() == 0 && a.locals.pairs().len() == 0 && a.resources@.len() == 0
            && a.data_sources@.len() == 0 && a.outputs.pairs().len() == 0 && a.imports@.len() == 0
            ==> terraform_document(a) == JsonModel::Object(Seq::empty()),
{
    reveal_strlit("provider");
    reveal_strlit("locals");
    reveal_strlit("resource");
    reveal_strlit("data");
    reveal_strlit("output");
    reveal_strlit("import");
    let ps = a.providers@;
    let rs = resource_nest(a.resources@);
    let ds = data_nest(a.data_sources@);
    lemma_nest_is_empty_exactly_when_rs_is(a.resources@, |r: Resource| resource_body(r));
    let m0: Seq<(Seq<char>, JsonModel)> = Seq::empty();
    let m1 = insert_if(m0, ps.len() > 0, "provider"@, provider_block(ps));
    let m2 = insert_if(m1, a.locals.pairs().len() > 0, "locals"@, JsonModel::Object(values_json(a.locals)));
    let m3 = insert_if(m2, rs.len() > 0, "resource"@, nested_block(rs));
    let m4 = insert_if(m3, a.data_sources@.len() > 0, "data"@, nested_block(ds));
    let m5 = insert_if(m4, a.outputs.pairs().len() > 0, "output"@, output_block(a.outputs));
    let imp = JsonModel::Array(a.imports@.map_values(|i: Import| import_json(i)));
    let full = insert_if(m5, a.imports@.len() > 0, "import"@, imp);
    assert(terraform_document(a)->Object_0 == full);
    let keys = seq!["provider"@, "locals"@, "resource"@, "data"@, "output"@, "import"@];
    assert forall|i: int, j: int| 0 <= i < 6 && 0 <= j < 6 && i != j implies #[trigger] keys[i][0] != #[trigger] keys[j][0] by {}
    assert forall|i: int| 0 <= i < 6 implies #[trigger] mget(full, keys[i]) == ({
        let k = keys[i];
        if k == "provider"@ && ps.len() > 0 {
            Some(provider_block(ps))
        } else if k == "locals"@ && a.locals.pairs().len() > 0 {
            Some(JsonModel::Object(values_json(a.locals)))
        } else if k == "resource"@ && rs.len() > 0 {
            Some(nested_block(rs))
        } else if k == "data"@ && a.data_sources@.len() > 0 {
            Some(nested_block(ds))
        } else if k == "output"@ && a.outputs.pairs().len() > 0 {
            Some(output_block(a.outputs))
        } else if k == "import"@ && a.imports@.len() > 0 {
            Some(imp)
        } else {
            None
        }
    }) by {
        let k = keys[i];
        lemma_index_in(model_keys(m0), k);
        lemma_get_after_insert_if(m0, ps.len() > 0, "provider"@, provider_block(ps), k);
        lemma_get_after_insert_if(m1, a.locals.pairs().len() > 0, "locals"@, JsonModel::Object(values_json(a.locals)), k);
        lemma_get_after_insert_if(m2, rs.len() > 0, "resource"@, nested_block(rs), k);
        lemma_get_after_insert_if(m3, a.data_sources@.len() > 0, "data"@, nested_block(ds), k);
        lemma_get_after_insert_if(m4, a.outputs.pairs().len() > 0, "output"@, output_block(a.outputs), k);
        lemma_get_after_insert_if(m5, a.imports@.len() > 0, "import"@, imp, k);
        assert(keys[0] == "provider"@);
        assert(keys[1] == "locals"@);
        assert(keys[2] == "resource"@);
        assert(keys[3] == "data"@);
        assert(keys[4] == "output"@);
        assert(keys[5] == "import"@);
        assert(k[0] != "provider"@[0] ==> k != "provider"@);
        assert(k[0] != "locals"@[0] ==> k != "locals"@);
        assert(k[0] != "resource"@[0] ==> k != "resource"@);
        assert(k[0] != "data"@[0] ==> k != "data"@);
        assert(k[0] != "output"@[0] ==> k != "output"@);
        assert(k[0] != "import"@[0] ==> k != "import"@);
    }
    assert(keys[0] == "provider"@ && keys[1] == "locals"@ && keys[2] == "resource"@);
    assert(keys[3] == "data"@ && keys[4] == "output"@ && keys[5] == "import"@);
    assert(keys[0][0] != keys[1][0] && keys[0][0] != keys[2][0] && keys[0][0] != keys[3][0]);
    assert(keys[0][0] != keys[4][0] && keys[0][0] != keys[5][0]);
    assert(keys[1][0] != keys[2][0] && keys[1][0] != keys[3][0] && keys[1][0] != keys[4][0]);
    assert(keys[1][0] != keys[5][0]);
    assert(mget(full, keys[0]) is Some <==> ps.len() > 0);
    assert(mget(full, keys[1]) is Some <==> a.locals.pairs().len() > 0);
    assert(mget(full, keys[2]) is Some <==> rs.len() > 0);
    assert(mget(full, keys[3]) is Some <==> a.data_sources@.len() > 0);
    assert(mget(full, keys[4]) is Some <==> a.outputs.pairs().len() > 0);
    assert(mget(full, keys[5]) is Some <==> a.imports@.len() > 0);
}

// ── the rendering, computed ─────────────────────────────────────────────

/// Insert the JSON projection of every entry of `m`, in order, into `obj`.
fn insert_values(obj: &mut OrderedMap<Json>, m: &OrderedMap<Value>)
    ensures
        object_model(*final(obj)) == minsert_all(object_model(*old(obj)), values_json(*m)),
{
    let entries = m.entries();
    let ghost all = values_json(*m);
    let mut i: usize = 0;
    while i < entries.len()
        invariant
            entries@ == m.pairs(),
            all == values_json(*m),
            i <= entries@.len(),
            object_model(*obj) == minsert_all(object_model(*old(obj)), all.take(i as int)),
        decreases entries@.len() - i,
    {
        let k = entries[i].0.clone();
        let v = entries[i].1.to_json();
        insert_field(obj, k, v);
        assert(all.take(i + 1).drop_last() =~= all.take(i as int));
        i = i + 1;
    }
    assert(all.take(i as int) =~= all);
}

/// A fresh object holding the JSON projection of every entry of `m`.
fn values_object(m: &OrderedMap<Value>) -> (r: OrderedMap<Json>)
    ensures
        object_model(r) == values_json(*m),
{
    let mut obj = OrderedMap::new();
    proof { assert(object_model(obj) =~= Seq::empty()); }
    insert_values(&mut obj, m);
    let entries = m.entries();
    proof {
        assert(model_keys(values_json(*m)) =~= pair_keys(m.pairs()));
        lemma_minsert_all_distinct(values_json(*m));
    }
    obj
}

/// Rebuild an object by inserting its entries, in order, into a fresh one.
fn rebuild_object(m: OrderedMap<Json>) -> (r: OrderedMap<Json>)
    ensures
        object_model(r) == minsert_all(Seq::empty(), object_model(m)),
{
    let ghost all = object_model(m);
    let mut items = m.into_entries();
    let ghost src = items@;
    assert(src.len() == items.len());
    let mut out = OrderedMap::new();
    proof { assert(object_model(out) =~= Seq::empty()); }
    let mut n: usize = 0;
    while items.len() > 0
        invariant
            n <= src.len() <= usize::MAX,
            items@ == src.skip(n as int),
            items@.len() == src.len() - n,
            all == pairs_map(src, |v: Json| v@),
            object_model(out) == minsert_all(Seq::empty(), all.take(n as int)),
        decreases items@.len(),
    {
        let (k, v) = items.remove(0);
        assert(src[n as int] == (k, v));
        assert(all.take(n + 1).drop_last() =~= all.take(n as int));
        assert(items@ =~= src.skip(n + 1));
        insert_field(&mut out, k, v);
        n = n + 1;
    }
    assert(all.take(n as int) =~= all);
    out
}

/// The JSON of `type.name` for a dependency.
fn dependency_text(d: &ResourceRef) -> (r: Json)
    ensures
        r@ == JsonModel::Text(dependency_address(*d)),
{
    let mut s = d.type_id.clone();
    push_char(&mut s, '.');
    s.append(d.name.as_str());
    assert(s@ =~= dependency_address(*d));
    proof { lemma_json_view(Json::Text(s)); }
    Json::Text(s)
}

impl Resource {
    /// A typed reference to one of this resource's output attributes.
    pub fn out(&self, attribute: &str) -> (r: ResourceRef)
        ensures
            r@ == (self.type_id@, self.name@, attribute@),
    {
        ResourceRef { type_id: self.type_id.clone(), name: self.name.clone(), attribute: owned(attribute) }
    }

    fn body_json(&self) -> (r: Json)
        ensures
            r@ == resource_body(*self),
    {
        let mut body = values_object(&self.attributes);
        match &self.multiplicity {
            Some(Multiplicity::Count(n)) => {
                let c = Json::Number(number_from_i64(*n));
                proof { lemma_json_view(c); }
                insert_field(&mut body, owned("count"), c);
            },
            Some(Multiplicity::ForEach(map)) => {
                let fe = values_object(map);
                proof { lemma_json_view(Json::Object(fe)); }
                insert_field(&mut body, owned("for_each"), Json::Object(fe));
            },
            None => {},
        }
        if self.depends_on.len() > 0 {
            let mut deps: Vec<Json> = Vec::new();
            let mut i: usize = 0;
            while i < self.depends_on.len()
                invariant
                    i <= self.depends_on@.len(),
                    deps@.len() == i,
                    forall|j: int| 0 <= j < i ==> #[trigger] deps@[j]@ == JsonModel::Text(dependency_address(self.depends_on@[j])),
                decreases self.depends_on@.len() - i,
            {
                let t = dependency_text(&self.depends_on[i]);
                deps.push(t);
                i = i + 1;
            }
            proof {
                lemma_json_view(Json::Array(deps));
                assert(items_model(deps@) =~= self.depends_on@.map_values(
                    |d: ResourceRef| JsonModel::Text(dependency_address(d)),
                ));
            }
            insert_field(&mut body, owned("depends_on"), Json::Array(deps));
        }
        proof { lemma_json_view(Json::Object(body)); }
        Json::Object(body)
    }

    fn data_json(&self) -> (r: Json)
        ensures
            r@ == data_body(*self),
    {
        let body = values_object(&self.attributes);
        proof { lemma_json_view(Json::Object(body)); }
        Json::Object(body)
    }
}

impl ProviderRef {
    fn entry_json(&self) -> (r: Json)
        ensures
            r@ == JsonModel::Object(provider_fields(*self)),
    {
        let mut entry = OrderedMap::new();
        proof { assert(object_model(entry) =~= Seq::empty()); }
        match &self.alias {
            Some(alias) => {
                let t = Json::Text(alias.clone());
                proof { lemma_json_view(t); }
                insert_field(&mut entry, owned("alias"), t);
            },
            None => {},
        }
        insert_values(&mut entry, &self.config);
        proof { lemma_json_view(Json::Object(entry)); }
        Json::Object(entry)
    }
}

/// The model of a map of groups of JSON values.
pub open spec fn groups_model(s: Seq<(String, Vec<Json>)>) -> Seq<(Seq<char>, Seq<JsonModel>)> {
    pairs_map(s, |v: Vec<Json>| items_model(v@))
}

/// The model of a map of JSON objects.
pub open spec fn nested_model(s: Seq<(String, OrderedMap<Json>)>) -> Seq<(Seq<char>, Seq<(Seq<char>, JsonModel)>)> {
    pairs_map(s, |m: OrderedMap<Json>| object_model(m))
}

impl Architecture {
    pub fn new(name: &str) -> (a: Self)
        ensures
            a.name@ == name@,
            a.resources@.len() == 0,
            a.data_sources@.len() == 0,
            a.outputs.pairs().len() == 0,
            a.providers@.len() == 0,
            a.locals.pairs().len() == 0,
            a.imports@.len() == 0,
    {
        Architecture {
            name: owned(name),
            resources: Vec::new(),
            data_sources: Vec::new(),
            outputs: OrderedMap::new(),
            providers: Vec::new(),
            locals: OrderedMap::new(),
            imports: Vec::new(),
        }
    }

    /// Push a typed resource; returns the typed reference to its `id`.
    pub fn add(&mut self, r: Resource) -> (rref: ResourceRef)
        ensures
            rref@ == (r.type_id@, r.name@, "id"@),
            final(self).resources@ == old(self).resources@.push(r),
            final(self).name == old(self).name,
            final(self).data_sources == old(self).data_sources,
            final(self).outputs == old(self).outputs,
            final(self).providers == old(self).providers,
            final(self).locals == old(self).locals,
            final(self).imports == old(self).imports,
    {
        let rref = r.out("id");
        self.resources.push(r);
        rref
    }

    /// Declare an output.
    pub fn output(&mut self, key: &str, value: Value)
        ensures
            pairs_model(final(self).outputs.pairs()) == minsert(pairs_model(old(self).outputs.pairs()), key@, value@),
            final(self).name == old(self).name,
            final(self).resources == old(self).resources,
            final(self).data_sources == old(self).data_sources,
            final(self).providers == old(self).providers,
            final(self).locals == old(self).locals,
            final(self).imports == old(self).imports,
    {
        let k = owned(key);
        proof { lemma_pairs_insert_model(self.outputs.pairs(), k, value); }
        self.outputs.insert(k, value);
    }
}

impl Architecture {
    /// Provider configurations grouped by provider name.
    fn grouped_providers(&self) -> (r: OrderedMap<Vec<Json>>)
        ensures
            groups_model(r.pairs()) == provider_groups(self.providers@),
    {
        let mut grouped: OrderedMap<Vec<Json>> = OrderedMap::new();
        proof { assert(groups_model(grouped.pairs()) =~= Seq::empty()); }
        let mut i: usize = 0;
        while i < self.providers.len()
            invariant
                i <= self.providers@.len(),
                groups_model(grouped.pairs()) == provider_groups(self.providers@.take(i as int)),
            decreases self.providers@.len() - i,
        {
            let p = &self.providers[i];
            let e = p.entry_json();
            let ghost g = groups_model(grouped.pairs());
            let ghost s0 = grouped.pairs();
            proof {
                let ps = self.providers@.take(i + 1);
                assert(ps.drop_last() =~= self.providers@.take(i as int));
                assert(ps.last() == *p);
                assert(model_keys(g) =~= pair_keys(s0));
                lemma_index_in(pair_keys(s0), p.name@);
            }
            match grouped.position(p.name.as_str()) {
                Some(j) => {
                    let mut es = grouped.replace_at(j, Vec::new());
                    let ghost old_es = es@;
                    assert(old_es == s0[j as int].1@);
                    es.push(e);
                    assert(items_model(es@) =~= items_model(old_es).push(e@));
                    let ghost new_es = es;
                    grouped.replace_at(j, es);
                    proof {
                        assert(grouped.pairs() =~= s0.update(j as int, (s0[j as int].0, new_es)));
                        assert(g[j as int].1 == items_model(old_es));
                        assert(groups_model(grouped.pairs()) =~= minsert(g, p.name@, g[j as int].1.push(e@)));
                    }
                },
                None => {
                    let mut es: Vec<Json> = Vec::new();
                    es.push(e);
                    proof {
                        lemma_pairs_insert_map(s0, p.name, es, |v: Vec<Json>| items_model(v@));
                        assert(items_model(es@) =~= Seq::<JsonModel>::empty().push(e@));
                    }
                    grouped.insert(p.name.clone(), es);
                },
            }
            i = i + 1;
        }
        assert(self.providers@.take(i as int) =~= self.providers@);
        grouped
    }

    /// The `provider` block of grouped configurations.
    fn provider_block_json(grouped: OrderedMap<Vec<Json>>) -> (r: Json)
        ensures
            r@ == JsonModel::Object(
                minsert_all(
                    Seq::empty(),
                    groups_model(grouped.pairs()).map_values(
                        |g: (Seq<char>, Seq<JsonModel>)| (g.0, provider_group_json(g.1)),
                    ),
                ),
            ),
    {
        let ghost all = groups_model(grouped.pairs()).map_values(
            |g: (Seq<char>, Seq<JsonModel>)| (g.0, provider_group_json(g.1)),
        );
        let mut items = grouped.into_entries();
        let ghost src = items@;
        assert(src.len() == items.len());
        let mut out = OrderedMap::new();
        proof { assert(object_model(out) =~= Seq::empty()); }
        let mut n: usize = 0;
        while items.len() > 0
            invariant
                n <= src.len() <= usize::MAX,
                items@ == src.skip(n as int),
                items@.len() == src.len() - n,
                all == groups_model(src).map_values(
                    |g: (Seq<char>, Seq<JsonModel>)| (g.0, provider_group_json(g.1)),
                ),
                object_model(out) == minsert_all(Seq::empty(), all.take(n as int)),
            decreases items@.len(),
        {
            let (name, mut es) = items.remove(0);
            assert(src[n as int] == (name, es));
            assert(all.take(n + 1).drop_last() =~= all.take(n as int));
            assert(items@ =~= src.skip(n + 1));
            let v = if es.len() == 1 {
                es.remove(0)
            } else {
                let a = Json::Array(es);
                proof { lemma_json_view(a); }
                a
            };
            assert(v@ == provider_group_json(items_model(es@)) || es@.len() != 1);
            insert_field(&mut out, name, v);
            n = n + 1;
        }
        assert(all.take(n as int) =~= all);
        proof { lemma_json_view(Json::Object(out)); }
        Json::Object(out)
    }
}

impl Architecture {
    /// Resources (or, with `data`, data sources) nested by type and name.
    fn nest(rs: &Vec<Resource>, data: bool) -> (r: OrderedMap<OrderedMap<Json>>)
        ensures
            nested_model(r.pairs()) == if data {
                data_nest(rs@)
            } else {
                resource_nest(rs@)
            },
    {
        let mut by_type: OrderedMap<OrderedMap<Json>> = OrderedMap::new();
        proof { assert(nested_model(by_type.pairs()) =~= Seq::empty()); }
        let mut i: usize = 0;
        while i < rs.len()
            invariant
                i <= rs@.len(),
                nested_model(by_type.pairs()) == if data {
                    data_nest(rs@.take(i as int))
                } else {
                    resource_nest(rs@.take(i as int))
                },
            decreases rs@.len() - i,
        {
            let r = &rs[i];
            let body = if data {
                r.data_json()
            } else {
                r.body_json()
            };
            let ghost g = nested_model(by_type.pairs());
            let ghost s0 = by_type.pairs();
            proof {
                let p = rs@.take(i + 1);
                assert(p.drop_last() =~= rs@.take(i as int));
                assert(p.last() == *r);
                assert(model_keys(g) =~= pair_keys(s0));
                lemma_index_in(pair_keys(s0), r.type_id@);
            }
            match by_type.position(r.type_id.as_str()) {
                Some(j) => {
                    let mut named = by_type.replace_at(j, OrderedMap::new());
                    let ghost old_named = named;
                    assert(old_named == s0[j as int].1);
                    insert_field(&mut named, r.name.clone(), body);
                    let ghost new_named = named;
                    by_type.replace_at(j, named);
                    proof {
                        assert(by_type.pairs() =~= s0.update(j as int, (s0[j as int].0, new_named)));
                        assert(g[j as int].1 == object_model(old_named));
                        assert(nested_model(by_type.pairs()) =~= minsert(
                            g,
                            r.type_id@,
                            minsert(g[j as int].1, r.name@, body@),
                        ));
                    }
                },
                None => {
                    let mut named = OrderedMap::new();
                    proof { assert(object_model(named) =~= Seq::empty()); }
                    insert_field(&mut named, r.name.clone(), body);
                    proof {
                        lemma_pairs_insert_map(s0, r.type_id, named, |m: OrderedMap<Json>| object_model(m));
                    }
                    by_type.insert(r.type_id.clone(), named);
                },
            }
            i = i + 1;
        }
        assert(rs@.take(i as int) =~= rs@);
        by_type
    }

    /// The `resource` or `data` block of nested bodies.
    fn nested_json(by_type: OrderedMap<OrderedMap<Json>>) -> (r: Json)
        ensures
            r@ == nested_block(nested_model(by_type.pairs())),
    {
        let ghost all = nested_model(by_type.pairs()).map_values(
            |t: (Seq<char>, Seq<(Seq<char>, JsonModel)>)|
                (t.0, JsonModel::Object(minsert_all(Seq::empty(), t.1))),
        );
        let mut items = by_type.into_entries();
        let ghost src = items@;
        assert(src.len() == items.len());
        let mut out = OrderedMap::new();
        proof { assert(object_model(out) =~= Seq::empty()); }
        let mut n: usize = 0;
        while items.len() > 0
            invariant
                n <= src.len() <= usize::MAX,
                items@ == src.skip(n as int),
                items@.len() == src.len() - n,
                all == nested_model(src).map_values(
                    |t: (Seq<char>, Seq<(Seq<char>, JsonModel)>)|
                        (t.0, JsonModel::Object(minsert_all(Seq::empty(), t.1))),
                ),
                object_model(out) == minsert_all(Seq::empty(), all.take(n as int)),
            decreases items@.len(),
        {
            let (type_id, named) = items.remove(0);
            assert(src[n as int] == (type_id, named));
            assert(all.take(n + 1).drop_last() =~= all.take(n as int));
            assert(items@ =~= src.skip(n + 1));
            let t = rebuild_object(named);
            proof { lemma_json_view(Json::Object(t)); }
            insert_field(&mut out, type_id, Json::Object(t));
            n = n + 1;
        }
        assert(all.take(n as int) =~= all);
        proof { lemma_json_view(Json::Object(out)); }
        Json::Object(out)
    }

    /// The `output` block.
    fn outputs_json(outputs: &OrderedMap<Value>) -> (r: Json)
        ensures
            r@ == output_block(*outputs),
    {
        let entries = outputs.entries();
        let ghost all = values_json(*outputs).map_values(
            |p: (Seq<char>, JsonModel)| (p.0, JsonModel::Object(minsert(Seq::empty(), "value"@, p.1))),
        );
        let mut obj = OrderedMap::new();
        proof { assert(object_model(obj) =~= Seq::empty()); }
        let mut i: usize = 0;
        while i < entries.len()
            invariant
                entries@ == outputs.pairs(),
                i <= entries@.len(),
                all == values_json(*outputs).map_values(
                    |p: (Seq<char>, JsonModel)| (p.0, JsonModel::Object(minsert(Seq::empty(), "value"@, p.1))),
                ),
                object_model(obj) == minsert_all(Seq::empty(), all.take(i as int)),
            decreases entries@.len() - i,
        {
            let k = entries[i].0.clone();
            let v = entries[i].1.to_json();
            let mut entry = OrderedMap::new();
            proof { assert(object_model(entry) =~= Seq::empty()); }
            insert_field(&mut entry, owned("value"), v);
            proof { lemma_json_view(Json::Object(entry)); }
            insert_field(&mut obj, k, Json::Object(entry));
            assert(all.take(i + 1).drop_last() =~= all.take(i as int));
            i = i + 1;
        }
        assert(all.take(i as int) =~= all);
        proof {
            assert(model_keys(all) =~= pair_keys(outputs.pairs()));
            lemma_minsert_all_distinct(all);
            lemma_json_view(Json::Object(obj));
        }
        Json::Object(obj)
    }

    /// The `import` blocks, as an array.
    fn imports_json(imports: &Vec<Import>) -> (r: Json)
        ensures
            r@ == JsonModel::Array(imports@.map_values(|i: Import| import_json(i))),
    {
        let mut arr: Vec<Json> = Vec::new();
        let mut i: usize = 0;
        while i < imports.len()
            invariant
                i <= imports@.len(),
                arr@.len() == i,
                forall|j: int| 0 <= j < i ==> #[trigger] arr@[j]@ == import_json(imports@[j]),
            decreases imports@.len() - i,
        {
            let imp = &imports[i];
            let mut m = OrderedMap::new();
            proof { assert(object_model(m) =~= Seq::empty()); }
            let to = Json::Text(imp.to.clone());
            let id = Json::Text(imp.id.clone());
            proof { lemma_json_view(to); lemma_json_view(id); }
            insert_field(&mut m, owned("to"), to);
            insert_field(&mut m, owned("id"), id);
            proof { lemma_json_view(Json::Object(m)); }
            arr.push(Json::Object(m));
            i = i + 1;
        }
        proof {
            lemma_json_view(Json::Array(arr));
            assert(items_model(arr@) =~= imports@.map_values(|i: Import| import_json(i)));
        }
        Json::Array(arr)
    }

    /// Render to Terraform JSON. The output is a function of the
    /// architecture alone, and every map keeps insertion order.
    pub fn render_terraform_json(&self) -> (r: Result<Json, RenderError>)
        ensures
            r matches Ok(j) && j@ == terraform_document(*self),
    {
        let mut root = OrderedMap::new();
        let ghost ps = self.providers@;
        let ghost m0: Seq<(Seq<char>, JsonModel)> = Seq::empty();
        proof { assert(object_model(root) =~= m0); }
        if self.providers.len() > 0 {
            let grouped = self.grouped_providers();
            let block = Self::provider_block_json(grouped);
            insert_field(&mut root, owned("provider"), block);
        }
        let ghost m1 = object_model(root);
        assert(m1 == insert_if(m0, ps.len() > 0, "provider"@, provider_block(ps)));
        if !self.locals.is_empty() {
            let l = values_object(&self.locals);
            proof { lemma_json_view(Json::Object(l)); }
            insert_field(&mut root, owned("locals"), Json::Object(l));
        }
        let ghost m2 = object_model(root);
        assert(m2 == insert_if(m1, self.locals.pairs().len() > 0, "locals"@, JsonModel::Object(values_json(self.locals))));
        let by_type = Self::nest(&self.resources, false);
        if !by_type.is_empty() {
            let block = Self::nested_json(by_type);
            insert_field(&mut root, owned("resource"), block);
        }
        let ghost m3 = object_model(root);
        let ghost rs = resource_nest(self.resources@);
        assert(m3 == insert_if(m2, rs.len() > 0, "resource"@, nested_block(rs)));
        if self.data_sources.len() > 0 {
            let d = Self::nest(&self.data_sources, true);
            let block = Self::nested_json(d);
            insert_field(&mut root, owned("data"), block);
        }
        let ghost m4 = object_model(root);
        let ghost ds = data_nest(self.data_sources@);
        assert(m4 == insert_if(m3, self.data_sources@.len() > 0, "data"@, nested_block(ds)));
        if !self.outputs.is_empty() {
            let block = Self::outputs_json(&self.outputs);
            insert_field(&mut root, owned("output"), block);
        }
        let ghost m5 = object_model(root);
        assert(m5 == insert_if(m4, self.outputs.pairs().len() > 0, "output"@, output_block(self.outputs)));
        if self.imports.len() > 0 {
            let block = Self::imports_json(&self.imports);
            insert_field(&mut root, owned("import"), block);
        }
        proof { lemma_json_view(Json::Object(root)); }
        Ok(Json::Object(root))
    }
}

} // verus!
