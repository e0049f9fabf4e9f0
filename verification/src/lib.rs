//! Typed primitive layer for infrastructure and dashboard documents.

use vstd::prelude::*;

pub mod text;
pub mod reference;
pub mod ordered_map;
pub mod json;
pub mod value;
pub mod architecture;
pub mod dashboard;
pub mod validation;
pub mod layout;
pub mod grafana;
pub mod yaml;
pub mod synthesizer;
