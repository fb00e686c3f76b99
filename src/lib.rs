//! Launcher library for catalog-hosted Deno scripts: repository and artifact
//! resolution, the trust registry, the alias store, interpreter version
//! management and the construction of interpreter invocations.

pub mod aliases;
pub mod catalog;
pub mod dbang_utils;
pub mod deno_cli;
pub mod deno_versions;
pub mod error;
pub mod known_catalogs;
pub mod text;
pub mod workflow;
