//! # WADL
//!
//! Reading WADL documents and emitting Rust bindings for the web services they describe.
//!
//! A document is read in two steps. [`xml`] turns its bytes into a tree of elements, with
//! the `xmltree` crate. [`parse`] turns the tree into the parsed form of [`ast`], whose
//! values are modelled in [`model`]; URLs, media types and IRI references are checked by
//! the `url`, `mime` and `iri-string` crates behind [`url`], [`media`] and [`iri`].
//!
//! [`codegen`] turns the parsed form into source text. What it emits is a function of the
//! document and of a [`codegen::Customization`], stated by a specification function for
//! each emitter, and a part that cannot be emitted comes back as a
//! [`codegen::CompileError`] while the other parts are still looked at. What is odd in a
//! document without keeping code from being emitted comes back from
//! [`codegen::warnings`]. Documentation that is HTML is emitted as Markdown where the
//! customization has the Markdown text for it: [`codegen::xhtml_contents`] lists the texts
//! to convert.
//!
//! Everything in this crate is verified with Verus, but for the calls into other crates
//! and into parts of the standard library that have no specification of their own. Those
//! calls stand in small functions whose contracts are assumed; each says in its
//! documentation what is assumed of which function.
pub mod ast;
pub mod chars;
pub mod codegen;
pub mod iri;
pub mod media;
pub mod model;
pub mod options;
pub mod parse;
pub mod text;
pub mod url;
pub mod xml;

pub use parse::{parse, parse_bytes, parse_string};

use vstd::prelude::*;

verus! {

/// The media type of WADL documents.
pub const WADL_MIME_TYPE: &'static str = "application/vnd.sun.wadl+xml";

} // verus!
