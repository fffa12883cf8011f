//! Generation engine for strongly-typed accessors over a settings schema.
//!
//! Given a parsed schema (named entries with a type signature, default value,
//! optional summary and numeric range, plus named enum definitions) and a
//! layered set of caller-supplied overrides, the engine decides for every
//! entry whether to generate an accessor bundle and with which argument and
//! return types, then synthesizes the bundle's six operations and its
//! documentation text.

pub mod decimal;
pub mod enumeration;
pub mod generators;
pub mod idents;
pub mod schema;
