//! Handlers that turn the lookups of a circuit into statements of the intermediate
//! representation.

pub mod automaton;
pub mod error;
pub mod mux;
pub mod plain_spread;
pub mod plain_spread3;
pub mod range;
