//! Declarative mod-pack manager core: hash-addressed derivations, a
//! content-addressed store that realizes them, and a deployment layer that
//! materializes a target directory from realized store paths.

pub mod api;
pub mod composer;
pub mod json;
pub mod manifest;
pub mod modrinth;
pub mod package;
pub mod packwiz_compat;
pub mod preprocessor;
pub mod store;
pub mod text;
pub mod util;
