//! A validating parser for the JMDict dictionary format: it turns a
//! markup document into typed dictionary entries in one forward pass,
//! decoding the format's entity-literal category codes and its
//! cross-reference mini-grammar along the way, and enforcing the
//! schema's invariants as it goes.
//!
//! The tokenizer ([`tokenize`]) produces plain event values; the
//! assemblers ([`assemble`]) fold finite state machines over them, and
//! each executable assembler is proved to return exactly what its
//! spec-level transition system says.  [`driver::parse_document`] ties
//! the two together; [`laws`] states the library's general properties
//! as proof functions.

pub mod assemble;
pub mod driver;
pub mod entity;
pub mod error;
pub mod escape;
pub mod events;
pub mod laws;
pub mod records;
pub mod svec;
pub mod text;
pub mod tokenize;
pub mod xref;
