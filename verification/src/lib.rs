//! Verified core of the Midnight circuit extractor: lookup handlers, gate rewrite
//! patterns, layouter bookkeeping, harness selection and configuration logic.

pub mod spread;
pub mod expr;
pub mod text;
pub mod decompose;
pub mod ir;
pub mod lookups;
pub mod query;
pub mod chips;
pub mod layout;
pub mod config;
pub mod picus;
pub mod cli;
pub mod extraction;
pub mod harness_macro;
pub mod cells;
pub mod field;
pub mod harness_parse;
