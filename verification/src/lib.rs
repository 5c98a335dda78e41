//! Validation of GraphQL input values against the types that a schema
//! declares for arguments, variables and input-object fields.
//!
//! The crate checks a value the way a GraphQL server coerces input values:
//! a scalar literal must fit the built-in scalar it is given to, an enum
//! value must name one of the enum's values, a list is checked item by item,
//! an object is checked field by field against an input-object type, and a
//! variable is checked through its declaration and default value. Every
//! problem found becomes a [`diagnostic::Diagnostic`].
//!
//! Two front ends are provided: [`document`] works on the syntax-level value
//! representation (with `Int` and out-of-range `BigInt` literals) and
//! [`hir`] works on the resolved representation, in which every value carries
//! its location and integer literals are kept as their numeric text.
//! [`syntax`] finds where a declared type is written in a document, and
//! [`document_laws`] and [`hir_laws`] prove what the validators promise as a
//! whole, and [`agreement`] that the two validators report the same kinds of
//! diagnostics for corresponding values.

pub mod diagnostic;
pub mod int_literal;
pub mod types;
pub mod syntax;
pub mod document;
pub mod hir;
pub mod document_laws;
pub mod hir_laws;
pub mod agreement;
