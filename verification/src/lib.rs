//! A builder-pattern code generator, as a verified core.
//!
//! Given the declaration of a record type — an ordered list of named, typed
//! fields, some carrying directives — the library classifies every field as
//! required, optional or repeated, and derives a description of a companion
//! builder type: its storage slots, its method surface (setters, appenders,
//! factory, build) and the validation the build step must run.  A small state
//! model of a generated builder instance gives the build-time semantics their
//! meaning and their proofs.
//!
//! How a declaration is read out of concrete source text, and how the derived
//! artifact is rendered back into source text, is left to the caller.

pub mod artifact;
pub mod decl;
pub mod example;
pub mod extract;
pub mod runtime;
pub mod schema;
