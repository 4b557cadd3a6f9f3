//! A code-generation engine for sum types with per-case display templates.
//!
//! An enum schema ([`schema::EnumSpec`]) describes the cases of a sum type:
//! each case has a tag, a shape (no data, positional data, or named data) and
//! an optional display template. From such a schema the engine derives the
//! operations a generated type exposes: render-to-text, parse-from-text and
//! introspection (case names, raw template, formatted-argument list), plus a
//! reversibility check that refuses ambiguous schemas.

pub mod ambiguity;
pub mod laws;
pub mod ops;
pub mod placeholders;
pub mod schema;
pub mod substitute;
pub mod template;
pub mod validate;

pub use ambiguity::has_only_unit_variants;
pub use ambiguity::AmbiguousGroup;
pub use ops::ParseError;
pub use schema::Arity;
pub use schema::CaseSpec;
pub use schema::EnumSpec;
pub use schema::EnumValue;
pub use validate::GenError;
