//! Semantic validator for a relational data-modeling language.
//!
//! Given a parsed schema (an abstract syntax tree with byte spans) and an
//! elaborated data model (models, scalar and relation fields, identity and
//! uniqueness criteria, enums and defaults), the validator decides whether the
//! schema is well formed under the domain rules — naming, identity,
//! uniqueness, relation topology, connector capabilities, default-value
//! typing — and produces a precisely located diagnostic for every violation.
//!
//! The validator is pure: the diagnostic sequence each pass returns is pinned
//! down, error by error, by the specification functions beside each rule.
pub mod ast;
pub mod connector;
pub mod diagnostics;
pub mod dml;
pub mod messages;
pub mod relations;
pub mod text;
pub mod validate;
