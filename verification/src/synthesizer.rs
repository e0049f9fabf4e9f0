//! Multi-target emission: one source document, several renderings.
//!
//! A target is a marker type naming what rendering produces; a source
//! implements [`Synthesizer`] once per target it can be rendered to.
//!
//! - [`TerraformJson`]: `terraform.json`, wire-compatible with tofu and magma.
//! - [`MagmaPlan`]: for now the same JSON, which magma turns into a plan.
//! - [`CrossplaneYaml`]: a CompositeResourceDefinition and a Composition,
//!   as two YAML documents.
//! - [`GrafanaJson`]: a Grafana dashboard, from a [`Dashboard`].

use vstd::prelude::*;
use crate::architecture::{terraform_document, Architecture, RenderError};
use crate::dashboard::{tundra_color, Dashboard, Role, Theme};
use crate::grafana::{grafana_document, palette};
use crate::json::{Json, JsonModel};
use crate::layout::layout_fits;
use crate::ordered_map::{law_get_after_insert, mget, minsert, OrderedMap};
use crate::text::{ascii_lower, ascii_lowercase, chars_of, owned, push_char, string_from_range};
use crate::validation::{dashboard_verdict, error_message};
use crate::yaml::{insert_entry, json_to_yaml, lemma_yaml_view, mapping_model, yaml_items, yaml_of_json, Yaml, YamlModel};

verus! {

/// A render target: a marker type naming what rendering produces.
pub trait RenderTarget {
    /// The value produced by rendering to this target.
    type Output;
}

/// Renders a source to the target `T`.
pub trait Synthesizer<T: RenderTarget> {
    /// Whether this source can be rendered without exceeding the integer
    /// widths of the target's wire format.
    spec fn synthesizable(&self) -> bool;

    /// What a rendering of this source is.
    spec fn renders_as(&self, r: Result<T::Output, RenderError>) -> bool;

    fn synthesize(&self) -> (r: Result<T::Output, RenderError>)
        requires
            self.synthesizable(),
        ensures
            self.renders_as(r),
    ;
}

// ── Terraform JSON ──────────────────────────────────────────────────────

/// Marker: emit `terraform.json`.
#[derive(Debug, Clone, Copy)]
pub struct TerraformJson;

impl RenderTarget for TerraformJson {
    type Output = Json;
}

impl Synthesizer<TerraformJson> for Architecture {
    open spec fn synthesizable(&self) -> bool {
        true
    }

    /// Always the Terraform document of the architecture.
    open spec fn renders_as(&self, r: Result<Json, RenderError>) -> bool {
        r matches Ok(j) && j@ == terraform_document(*self)
    }

    fn synthesize(&self) -> (r: Result<Json, RenderError>) {
        self.render_terraform_json()
    }
}

// ── magma plan ──────────────────────────────────────────────────────────

/// Marker: emit the plan magma executes. Magma reads it from the same
/// JSON document as [`TerraformJson`].
#[derive(Debug, Clone, Copy)]
pub struct MagmaPlan;

impl RenderTarget for MagmaPlan {
    type Output = Json;
}

impl Synthesizer<MagmaPlan> for Architecture {
    open spec fn synthesizable(&self) -> bool {
        true
    }

    /// Always the Terraform document of the architecture.
    open spec fn renders_as(&self, r: Result<Json, RenderError>) -> bool {
        r matches Ok(j) && j@ == terraform_document(*self)
    }

    fn synthesize(&self) -> (r: Result<Json, RenderError>) {
        self.render_terraform_json()
    }
}

// ── Crossplane ──────────────────────────────────────────────────────────

/// Marker: emit a Crossplane CompositeResourceDefinition (the typed input
/// schema) and a Composition (one template per resource), in that order.
///
/// The output is the two YAML document trees. Writing each as text is the
/// YAML serializer's work (it formats the doubles); [`join_documents`]
/// then makes one multi-document text of them.
#[derive(Debug, Clone, Copy)]
pub struct CrossplaneYaml;

impl RenderTarget for CrossplaneYaml {
    type Output = Vec<Yaml>;
}

/// The uppercase mapping of a character (std `char::to_uppercase`), one or
/// more characters.
pub uninterp spec fn char_uppercase(c: char) -> Seq<char>;

/// std `char::to_uppercase`, collected. Beyond the name, the contract
/// states only the ASCII cases: a lowercase letter maps to its capital,
/// capitals and digits to themselves.
#[verifier::external_body]
fn uppercase_of(c: char) -> (r: Vec<char>)
    ensures
        r@ == char_uppercase(c),
        'a' <= c <= 'z' ==> r@ == seq![((c as u32) - 32) as char],
        ('A' <= c <= 'Z' || '0' <= c <= '9') ==> r@ == seq![c],
{
    c.to_uppercase().collect()
}

/// Scan for [`arch_kind_of`]: the text so far and whether the next
/// character starts a word.
pub open spec fn kind_scan(s: Seq<char>) -> (Seq<char>, bool)
    decreases s.len(),
{
    if s.len() == 0 {
        (Seq::empty(), true)
    } else {
        let before = kind_scan(s.drop_last());
        let c = s.last();
        if c == '-' || c == '_' {
            (before.0, true)
        } else if before.1 {
            (before.0 + char_uppercase(c), false)
        } else {
            (before.0.push(c), false)
        }
    }
}

/// The Crossplane kind of a name: `-` and `_` separate words, dropped;
/// the first character of each word is upper-cased.
pub open spec fn arch_kind_of(s: Seq<char>) -> Seq<char> {
    kind_scan(s).0
}

/// ASCII upper-casing of one character; every other character is kept.
pub open spec fn ascii_upper_char(c: char) -> char {
    if 'a' <= c && c <= 'z' {
        ((c as u32) - 32) as char
    } else {
        c
    }
}

/// A name made of ASCII letters, digits, `-` and `_`.
pub open spec fn is_ascii_name(s: Seq<char>) -> bool {
    forall|i: int| 0 <= i < s.len() ==> {
        let c = #[trigger] s[i];
        ('a' <= c && c <= 'z') || ('A' <= c && c <= 'Z') || ('0' <= c && c <= '9') || c == '-' || c == '_'
    }
}

/// [`kind_scan`] with ASCII capitals: the text so far and whether the next
/// character starts a word.
pub open spec fn ascii_kind_scan(s: Seq<char>) -> (Seq<char>, bool)
    decreases s.len(),
{
    if s.len() == 0 {
        (Seq::empty(), true)
    } else {
        let before = ascii_kind_scan(s.drop_last());
        let c = s.last();
        if c == '-' || c == '_' {
            (before.0, true)
        } else if before.1 {
            (before.0.push(ascii_upper_char(c)), false)
        } else {
            (before.0.push(c), false)
        }
    }
}

/// The Crossplane kind of an ASCII name: words separated by `-` and `_`,
/// separators dropped, the first letter of each word made a capital.
pub open spec fn ascii_kind_of(s: Seq<char>) -> Seq<char> {
    ascii_kind_scan(s).0
}

/// Convert `aws-vpc-network` to `AwsVpcNetwork` (Crossplane kind shape).
pub fn arch_kind(arch_name: &str) -> (r: String)
    ensures
        r@ == arch_kind_of(arch_name@),
        is_ascii_name(arch_name@) ==> r@ == ascii_kind_of(arch_name@),
{
    let cs = chars_of(arch_name);
    let mut out = String::new();
    let mut capitalize_next = true;
    let mut i: usize = 0;
    assert(cs@.take(0) =~= Seq::<char>::empty());
    while i < cs.len()
        invariant
            cs@ == arch_name@,
            i <= cs@.len(),
            (out@, capitalize_next) == kind_scan(cs@.take(i as int)),
            is_ascii_name(cs@) ==> (out@, capitalize_next) == ascii_kind_scan(cs@.take(i as int)),
        decreases cs@.len() - i,
    {
        let c = cs[i];
        assert(cs@.take(i + 1).drop_last() =~= cs@.take(i as int));
        assert(cs@.take(i + 1).last() == c);
        if c == '-' || c == '_' {
            capitalize_next = true;
        } else if capitalize_next {
            let up = uppercase_of(c);
            proof {
                if is_ascii_name(cs@) {
                    assert(up@ =~= seq![ascii_upper_char(c)]);
                }
            }
            let ghost before = out@;
            let mut j: usize = 0;
            while j < up.len()
                invariant
                    j <= up@.len(),
                    out@ == before + up@.take(j as int),
                decreases up@.len() - j,
            {
                push_char(&mut out, up[j]);
                assert(up@.take(j + 1) =~= up@.take(j as int).push(up@[j as int]));
                j = j + 1;
            }
            assert(up@.take(j as int) =~= up@);
            assert(is_ascii_name(cs@) ==> out@ =~= before.push(ascii_upper_char(c)));
            capitalize_next = false;
        } else {
            push_char(&mut out, c);
        }
        i = i + 1;
    }
    assert(cs@.take(i as int) =~= cs@);
    out
}

pub open spec fn ytext(s: Seq<char>) -> YamlModel {
    YamlModel::Text(s)
}

pub open spec fn no_entries() -> Seq<(Seq<char>, YamlModel)> {
    Seq::empty()
}

/// The CompositeResourceDefinition of an architecture.
pub open spec fn xrd_document(arch: Seq<char>) -> YamlModel {
    let kind = arch_kind_of(arch);
    let metadata = minsert(no_entries(), "name"@, ytext(ascii_lower(arch) + ".lava.pleme.io"@));
    let names = minsert(minsert(no_entries(), "kind"@, ytext(kind)), "plural"@, ytext(ascii_lower(kind) + "s"@));
    let spec = minsert(minsert(no_entries(), "group"@, ytext("lava.pleme.io"@)), "names"@, YamlModel::Mapping(names));
    YamlModel::Mapping(
        minsert(
            minsert(
                minsert(
                    minsert(no_entries(), "apiVersion"@, ytext("apiextensions.crossplane.io/v1"@)),
                    "kind"@,
                    ytext("CompositeResourceDefinition"@),
                ),
                "metadata"@,
                YamlModel::Mapping(metadata),
            ),
            "spec"@,
            YamlModel::Mapping(spec),
        ),
    )
}

/// The Composition entry of one Terraform resource: named
/// `<type>.<name>`, with the resource body as `forProvider`.
pub open spec fn resource_entry(type_id: Seq<char>, name: Seq<char>, body: JsonModel) -> YamlModel {
    let metadata = minsert(no_entries(), "name"@, ytext(name));
    let spec = minsert(no_entries(), "forProvider"@, yaml_of_json(body));
    let base = minsert(
        minsert(
            minsert(
                minsert(no_entries(), "apiVersion"@, ytext(type_id + ".crossplane.io/v1alpha1"@)),
                "kind"@,
                ytext(arch_kind_of(type_id)),
            ),
            "metadata"@,
            YamlModel::Mapping(metadata),
        ),
        "spec"@,
        YamlModel::Mapping(spec),
    );
    YamlModel::Mapping(
        minsert(minsert(no_entries(), "name"@, ytext(type_id + "."@ + name)), "base"@, YamlModel::Mapping(base)),
    )
}

/// The entries of one resource type; a type whose value is not an object
/// contributes none.
pub open spec fn type_entries(type_id: Seq<char>, by_name: JsonModel) -> Seq<YamlModel> {
    match by_name {
        JsonModel::Object(es) => es.map_values(|e: (Seq<char>, JsonModel)| resource_entry(type_id, e.0, e.1)),
        _ => Seq::empty(),
    }
}

/// The entries of every resource, type by type, in document order.
pub open spec fn resource_entries(by_type: Seq<(Seq<char>, JsonModel)>) -> Seq<YamlModel>
    decreases by_type.len(),
{
    if by_type.len() == 0 {
        Seq::empty()
    } else {
        resource_entries(by_type.drop_last()) + type_entries(by_type.last().0, by_type.last().1)
    }
}

/// The entries of the `resource` block of a Terraform document, if it has one.
pub open spec fn terraform_resources(tf: JsonModel) -> Seq<YamlModel> {
    match tf {
        JsonModel::Object(fields) => match mget(fields, "resource"@) {
            Some(JsonModel::Object(by_type)) => resource_entries(by_type),
            _ => Seq::empty(),
        },
        _ => Seq::empty(),
    }
}

/// The Composition of an architecture.
pub open spec fn composition_document(arch: Seq<char>, tf: JsonModel) -> YamlModel {
    let metadata = minsert(no_entries(), "name"@, ytext(arch + "-composition"@));
    let type_ref = minsert(
        minsert(no_entries(), "apiVersion"@, ytext("lava.pleme.io/v1alpha1"@)),
        "kind"@,
        ytext(arch_kind_of(arch)),
    );
    let spec = minsert(
        minsert(no_entries(), "compositeTypeRef"@, YamlModel::Mapping(type_ref)),
        "resources"@,
        YamlModel::Sequence(terraform_resources(tf)),
    );
    YamlModel::Mapping(
        minsert(
            minsert(
                minsert(
                    minsert(no_entries(), "apiVersion"@, ytext("apiextensions.crossplane.io/v1"@)),
                    "kind"@,
                    ytext("Composition"@),
                ),
                "metadata"@,
                YamlModel::Mapping(metadata),
            ),
            "spec"@,
            YamlModel::Mapping(spec),
        ),
    )
}

/// The two Crossplane documents of an architecture and its Terraform
/// document.
pub open spec fn crossplane_documents(arch: Seq<char>, tf: JsonModel) -> Seq<YamlModel> {
    seq![xrd_document(arch), composition_document(arch, tf)]
}

fn new_mapping() -> (m: OrderedMap<Yaml>)
    ensures
        mapping_model(m) == no_entries(),
{
    let m = OrderedMap::new();
    proof { assert(mapping_model(m) =~= no_entries()); }
    m
}

fn yput(m: &mut OrderedMap<Yaml>, k: &str, v: Yaml)
    ensures
        mapping_model(*final(m)) == minsert(mapping_model(*old(m)), k@, v@),
{
    insert_entry(m, owned(k), v);
}

fn ystr(s: String) -> (r: Yaml)
    ensures
        r@ == ytext(s@),
{
    let r = Yaml::Text(s);
    proof { lemma_yaml_view(r); }
    r
}

fn ymapping(m: OrderedMap<Yaml>) -> (r: Yaml)
    ensures
        r@ == YamlModel::Mapping(mapping_model(m)),
{
    let r = Yaml::Mapping(m);
    proof { lemma_yaml_view(r); }
    r
}

fn joined_str(a: &str, b: &str) -> (r: String)
    ensures
        r@ == a@ + b@,
{
    let mut s = owned(a);
    s.append(b);
    s
}

/// std `str::to_ascii_lowercase`.
fn lowercase(s: &str) -> (r: String)
    ensures
        r@ == ascii_lower(s@),
{
    let cs = ascii_lowercase(&chars_of(s));
    string_from_range(&cs, 0, cs.len())
}

fn resource_entry_yaml(type_id: &String, name: &String, body: &Json) -> (r: Yaml)
    ensures
        r@ == resource_entry(type_id@, name@, body@),
{
    let mut metadata = new_mapping();
    yput(&mut metadata, "name", ystr(name.clone()));
    let mut spec = new_mapping();
    yput(&mut spec, "forProvider", json_to_yaml(body));
    let mut base = new_mapping();
    yput(&mut base, "apiVersion", ystr(joined_str(type_id.as_str(), ".crossplane.io/v1alpha1")));
    yput(&mut base, "kind", ystr(arch_kind(type_id.as_str())));
    yput(&mut base, "metadata", ymapping(metadata));
    yput(&mut base, "spec", ymapping(spec));
    let mut full_name = type_id.clone();
    full_name.append(".");
    full_name.append(name.as_str());
    let mut entry = new_mapping();
    yput(&mut entry, "name", ystr(full_name));
    yput(&mut entry, "base", ymapping(base));
    ymapping(entry)
}

/// The Composition entries of every resource of a Terraform document, in
/// document order.
fn resources_yaml(terraform: &Json) -> (r: Vec<Yaml>)
    ensures
        yaml_items(r@) == terraform_resources(terraform@),
{
    let mut out: Vec<Yaml> = Vec::new();
    let block = match terraform.get("resource") {
        Some(b) => b,
        None => {
            proof { assert(yaml_items(out@) =~= terraform_resources(terraform@)); }
            return out;
        },
    };
    let by_type = match block.as_object() {
        Some(m) => m,
        None => {
            proof { assert(yaml_items(out@) =~= terraform_resources(terraform@)); }
            return out;
        },
    };
    let ghost types = crate::json::object_model(*by_type);
    let entries = by_type.entries();
    let mut i: usize = 0;
    assert(types.take(0) =~= Seq::<(Seq<char>, JsonModel)>::empty());
    assert(yaml_items(out@) =~= Seq::<YamlModel>::empty());
    while i < entries.len()
        invariant
            types == crate::json::object_model(*by_type),
            entries@ == by_type.pairs(),
            i <= entries@.len(),
            yaml_items(out@) == resource_entries(types.take(i as int)),
        decreases entries@.len() - i,
    {
        let type_id = &entries[i].0;
        let by_name = &entries[i].1;
        let ghost before = yaml_items(out@);
        assert(types[i as int] == (type_id@, by_name@));
        assert(types.take(i + 1).drop_last() =~= types.take(i as int));
        match by_name.as_object() {
            Some(names) => {
                let ghost es = crate::json::object_model(*names);
                let named = names.entries();
                let mut j: usize = 0;
                while j < named.len()
                    invariant
                        es == crate::json::object_model(*names),
                        named@ == names.pairs(),
                        j <= named@.len(),
                        yaml_items(out@) == before + es.take(j as int).map_values(
                            |e: (Seq<char>, JsonModel)| resource_entry(type_id@, e.0, e.1),
                        ),
                    decreases named@.len() - j,
                {
                    let entry = resource_entry_yaml(type_id, &named[j].0, &named[j].1);
                    assert(es[j as int] == (named@[j as int].0@, named@[j as int].1@));
                    let ghost prev = out@;
                    let ghost ev = entry@;
                    out.push(entry);
                    assert(yaml_items(out@) =~= yaml_items(prev).push(ev));
                    assert(es.take(j + 1) =~= es.take(j as int).push(es[j as int]));
                    assert(es.take(j + 1).map_values(|e: (Seq<char>, JsonModel)| resource_entry(type_id@, e.0, e.1))
                        =~= es.take(j as int).map_values(|e: (Seq<char>, JsonModel)| resource_entry(type_id@, e.0, e.1)).push(ev));
                    assert(yaml_items(out@) =~= before + es.take(j + 1).map_values(
                        |e: (Seq<char>, JsonModel)| resource_entry(type_id@, e.0, e.1),
                    ));
                    j = j + 1;
                }
                assert(es.take(j as int) =~= es);
            },
            None => {
                assert(yaml_items(out@) =~= before + type_entries(type_id@, by_name@));
            },
        }
        i = i + 1;
    }
    assert(types.take(i as int) =~= types);
    out
}

/// The Crossplane documents of an architecture named `arch_name` whose
/// Terraform document is `terraform`: the CompositeResourceDefinition, then
/// the Composition with one entry per resource.
pub fn crossplane_yaml_from(arch_name: &str, terraform: &Json) -> (r: Vec<Yaml>)
    ensures
        yaml_items(r@) == crossplane_documents(arch_name@, terraform@),
        is_ascii_name(arch_name@) ==> arch_kind_of(arch_name@) == ascii_kind_of(arch_name@),
{
    let kind = arch_kind(arch_name);
    let mut xrd_metadata = new_mapping();
    yput(&mut xrd_metadata, "name", ystr(joined_str(lowercase(arch_name).as_str(), ".lava.pleme.io")));
    let mut xrd_names = new_mapping();
    yput(&mut xrd_names, "kind", ystr(kind.clone()));
    yput(&mut xrd_names, "plural", ystr(joined_str(lowercase(kind.as_str()).as_str(), "s")));
    let mut xrd_spec = new_mapping();
    yput(&mut xrd_spec, "group", ystr(owned("lava.pleme.io")));
    yput(&mut xrd_spec, "names", ymapping(xrd_names));
    let mut xrd = new_mapping();
    yput(&mut xrd, "apiVersion", ystr(owned("apiextensions.crossplane.io/v1")));
    yput(&mut xrd, "kind", ystr(owned("CompositeResourceDefinition")));
    yput(&mut xrd, "metadata", ymapping(xrd_metadata));
    yput(&mut xrd, "spec", ymapping(xrd_spec));

    let mut comp_metadata = new_mapping();
    yput(&mut comp_metadata, "name", ystr(joined_str(arch_name, "-composition")));
    let mut type_ref = new_mapping();
    yput(&mut type_ref, "apiVersion", ystr(owned("lava.pleme.io/v1alpha1")));
    yput(&mut type_ref, "kind", ystr(kind));
    let mut comp_spec = new_mapping();
    yput(&mut comp_spec, "compositeTypeRef", ymapping(type_ref));
    let resources = resources_yaml(terraform);
    let seq = Yaml::Sequence(resources);
    proof { lemma_yaml_view(seq); }
    yput(&mut comp_spec, "resources", seq);
    let mut composition = new_mapping();
    yput(&mut composition, "apiVersion", ystr(owned("apiextensions.crossplane.io/v1")));
    yput(&mut composition, "kind", ystr(owned("Composition")));
    yput(&mut composition, "metadata", ymapping(comp_metadata));
    yput(&mut composition, "spec", ymapping(comp_spec));

    let docs = vec![ymapping(xrd), ymapping(composition)];
    assert(yaml_items(docs@) =~= crossplane_documents(arch_name@, terraform@));
    docs
}

impl Synthesizer<CrossplaneYaml> for Architecture {
    open spec fn synthesizable(&self) -> bool {
        true
    }

    /// Always the Crossplane documents of the architecture's Terraform
    /// document.
    open spec fn renders_as(&self, r: Result<Vec<Yaml>, RenderError>) -> bool {
        r matches Ok(docs) && yaml_items(docs@) == crossplane_documents(self.name@, terraform_document(*self))
    }

    fn synthesize(&self) -> (r: Result<Vec<Yaml>, RenderError>) {
        match self.render_terraform_json() {
            Ok(json) => Ok(crossplane_yaml_from(self.name.as_str(), &json)),
            Err(e) => Err(e),
        }
    }
}

/// Documents joined into one multi-document YAML text: each body as it is,
/// with a `---` line between consecutive ones.
pub open spec fn joined(bodies: Seq<String>) -> Seq<char>
    decreases bodies.len(),
{
    if bodies.len() == 0 {
        Seq::empty()
    } else if bodies.len() == 1 {
        bodies[0]@
    } else {
        joined(bodies.drop_last()) + "---\n"@ + bodies.last()@
    }
}

/// Join serialized YAML documents into one multi-document text.
pub fn join_documents(bodies: &Vec<String>) -> (r: String)
    ensures
        r@ == joined(bodies@),
{
    let mut out = String::new();
    let mut i: usize = 0;
    assert(bodies@.take(0) =~= Seq::<String>::empty());
    while i < bodies.len()
        invariant
            i <= bodies@.len(),
            out@ == joined(bodies@.take(i as int)),
        decreases bodies@.len() - i,
    {
        assert(bodies@.take(i + 1).drop_last() =~= bodies@.take(i as int));
        if i > 0 {
            out.append("---\n");
        } else {
            assert(out@ =~= Seq::<char>::empty());
        }
        out.append(bodies[i].as_str());
        i = i + 1;
    }
    assert(bodies@.take(i as int) =~= bodies@);
    out
}

// ── Grafana ─────────────────────────────────────────────────────────────

/// Marker: emit a Grafana dashboard document (schemaVersion 39).
///
/// Rendering needs a [`Theme`] to resolve colour roles, and `synthesize`
/// takes no arguments, so this target uses the fleet default; call
/// [`Dashboard::render_grafana_json`] to render against another theme.
#[derive(Debug, Clone, Copy)]
pub struct GrafanaJson;

impl RenderTarget for GrafanaJson {
    type Output = Json;
}

/// The fleet default colours, as a function of the role.
pub open spec fn tundra_palette() -> spec_fn(Role) -> Seq<char> {
    |r: Role| tundra_color(r)
}

impl Synthesizer<GrafanaJson> for Dashboard {
    open spec fn synthesizable(&self) -> bool {
        dashboard_verdict(*self) is Ok ==> layout_fits(self.rows@)
    }

    /// The dashboard's document under the default theme, or the message of
    /// the validation error.
    open spec fn renders_as(&self, r: Result<Json, RenderError>) -> bool {
        match r {
            Ok(j) => dashboard_verdict(*self) is Ok && j@ == grafana_document(*self, tundra_palette()),
            Err(e) => dashboard_verdict(*self) matches Err(d) && e matches RenderError::Invalid(m) && m@ == error_message(d),
        }
    }

    fn synthesize(&self) -> (r: Result<Json, RenderError>) {
        let theme = Theme::default();
        proof { assert(palette(theme) =~= tundra_palette()); }
        match self.render_grafana_json(&theme) {
            Ok(j) => Ok(j),
            Err(e) => Err(RenderError::Invalid(e.message())),
        }
    }
}

/// The entry `k` of a mapping, if `o` is a mapping that has it.
pub open spec fn entry_of(o: Option<YamlModel>, k: Seq<char>) -> Option<YamlModel> {
    match o {
        Some(YamlModel::Mapping(es)) => mget(es, k),
        _ => None,
    }
}

/// Law: the Composition's `spec.compositeTypeRef.kind` is present and is the
/// very kind the CompositeResourceDefinition declares in `spec.names.kind`,
/// so the Composition composes the resource the definition defines.
pub proof fn law_composition_refers_to_the_defined_kind(arch: Seq<char>, tf: JsonModel)
    ensures
        ({
            let docs = crossplane_documents(arch, tf);
            let defined = entry_of(entry_of(entry_of(Some(docs[0]), "spec"@), "names"@), "kind"@);
            let referred = entry_of(entry_of(entry_of(Some(docs[1]), "spec"@), "compositeTypeRef"@), "kind"@);
            &&& defined is Some
            &&& referred == defined
        }),
{
    reveal_strlit("kind");
    reveal_strlit("plural");
    reveal_strlit("compositeTypeRef");
    reveal_strlit("resources");
    assert("kind"@[0] != "plural"@[0]);
    assert("compositeTypeRef"@[0] != "resources"@[0]);
    let kind = ytext(arch_kind_of(arch));
    // The definition.
    let names0 = minsert(no_entries(), "kind"@, kind);
    let names = minsert(names0, "plural"@, ytext(ascii_lower(arch_kind_of(arch)) + "s"@));
    law_get_after_insert(no_entries(), "kind"@, kind, "kind"@);
    law_get_after_insert(names0, "plural"@, ytext(ascii_lower(arch_kind_of(arch)) + "s"@), "kind"@);
    let xspec0 = minsert(no_entries(), "group"@, ytext("lava.pleme.io"@));
    law_get_after_insert(xspec0, "names"@, YamlModel::Mapping(names), "names"@);
    let xspec = minsert(xspec0, "names"@, YamlModel::Mapping(names));
    let metadata = minsert(no_entries(), "name"@, ytext(ascii_lower(arch) + ".lava.pleme.io"@));
    let x3 = minsert(
        minsert(
            minsert(no_entries(), "apiVersion"@, ytext("apiextensions.crossplane.io/v1"@)),
            "kind"@,
            ytext("CompositeResourceDefinition"@),
        ),
        "metadata"@,
        YamlModel::Mapping(metadata),
    );
    assert(xrd_document(arch) == YamlModel::Mapping(minsert(x3, "spec"@, YamlModel::Mapping(xspec))));
    law_get_after_insert(x3, "spec"@, YamlModel::Mapping(xspec), "spec"@);
    // The composition.
    let ref0 = minsert(no_entries(), "apiVersion"@, ytext("lava.pleme.io/v1alpha1"@));
    law_get_after_insert(ref0, "kind"@, kind, "kind"@);
    let type_ref = minsert(ref0, "kind"@, kind);
    let cspec0 = minsert(no_entries(), "compositeTypeRef"@, YamlModel::Mapping(type_ref));
    law_get_after_insert(no_entries(), "compositeTypeRef"@, YamlModel::Mapping(type_ref), "compositeTypeRef"@);
    law_get_after_insert(
        cspec0,
        "resources"@,
        YamlModel::Sequence(terraform_resources(tf)),
        "compositeTypeRef"@,
    );
    let cspec = minsert(cspec0, "resources"@, YamlModel::Sequence(terraform_resources(tf)));
    let cmeta = minsert(no_entries(), "name"@, ytext(arch + "-composition"@));
    let c3 = minsert(
        minsert(
            minsert(no_entries(), "apiVersion"@, ytext("apiextensions.crossplane.io/v1"@)),
            "kind"@,
            ytext("Composition"@),
        ),
        "metadata"@,
        YamlModel::Mapping(cmeta),
    );
    assert(composition_document(arch, tf) == YamlModel::Mapping(minsert(c3, "spec"@, YamlModel::Mapping(cspec))));
    law_get_after_insert(c3, "spec"@, YamlModel::Mapping(cspec), "spec"@);
    assert(crossplane_documents(arch, tf)[0] == xrd_document(arch));
    assert(crossplane_documents(arch, tf)[1] == composition_document(arch, tf));
}

} // verus!
