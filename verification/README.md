# lava-core

Typed primitives for infrastructure and dashboard documents, verified with
Verus.

An `Architecture` of typed resources renders to Terraform JSON, to the same
JSON for magma, and to a Crossplane CompositeResourceDefinition plus
Composition. A `Dashboard` of rows and panels renders to a Grafana
dashboard (schemaVersion 39) after validation. Every rendering is stated as
a spec function of its input, and the executable code is proved to build
exactly that document.

## Layout

- `src/` — the verified library.
  - `text`, `ordered_map` — character helpers; insertion-ordered maps.
  - `json`, `yaml`, `value` — document trees and their models; the value
    tree with typed resource references at any depth.
  - `reference` — `${type.name.attribute}` interpolation, both ways.
  - `architecture` — resources, providers, imports; the Terraform document.
  - `dashboard`, `validation` — the dashboard model and its checks.
  - `layout`, `grafana` — grid placement and the Grafana document.
  - `synthesizer` — render targets, the Crossplane documents.
- `tests/` — scenarios and properties, run against the compiled library.
- `app/` — wire formats: `serde_json` / `serde_yaml` values and text,
  serde copies of the document types, `Display` for errors.
