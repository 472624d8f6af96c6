//! Emitting client bindings from a parsed document.
//!
//! [`generate`] is the entry point. It names the sets of options ([`option_names`],
//! [`enums`]), then emits a record for each representation ([`representation`]) and a
//! handle with one function for each method of each resource type ([`operation`],
//! [`method`]). Names and types come from [`names`] and [`types`], documentation comments
//! from [`docs`]. [`config`] holds what a caller can decide and what can fail,
//! [`rules`] a customization made of tables, and [`survey`] the warnings about a document
//! and the documentation that the emitter formats.
pub mod config;
pub mod docs;
pub mod enums;
pub mod method;
pub mod names;
pub mod operation;
pub mod option_names;
pub mod program;
pub mod representation;
pub mod rules;
pub mod survey;
pub mod types;

pub use config::{CompileError, CompileErrorKind, Config, Customization, ParamContainer};
pub use docs::{
    format_arg_doc, format_doc, generate_doc, indent, strip_code_examples, XHTML_MIME_TYPE,
};
pub use names::{camel_case_name, snake_case_name};
pub use program::{generate, generate_resource_type};
pub use rules::{Rule, Rules};
pub use survey::{emitted_docs, warnings, xhtml_contents, Place, Warning};
