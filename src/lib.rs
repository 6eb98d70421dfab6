//! Rewrites references to deprecated Android support namespaces into their
//! AndroidX equivalents, one line at a time, and reports what cannot be
//! rewritten mechanically (wildcard imports and build artifacts).

pub mod text;
pub mod pattern;
pub mod gate;
pub mod mappings;
pub mod data;
pub mod matcher;
pub mod paths;
pub mod finder;
pub mod run;
pub mod laws;
