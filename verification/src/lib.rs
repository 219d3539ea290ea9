//! An HTML document-tree library: a node data model with escaping-aware
//! serialization (compact and pretty), a small template parser for an
//! HTML-like surface syntax, and an attribute-schema validation layer for
//! typed elements.

pub mod builder;
pub mod diag;
pub mod elements;
pub mod escape;
pub mod grammar;
pub mod node;
pub mod parse;
pub mod pipeline;
pub mod pretty;
pub mod render;
pub mod schema;
pub mod strutil;
pub mod syntax;

pub use builder::Bindings;
pub use diag::{Diagnostic, Severity};
pub use elements::{catch_all_schema, standard_schemas};
pub use grammar::GrammarTable;
pub use node::{Comment, Doctype, Element, Fragment, Node, Text, UnsafeText};
pub use pipeline::{html, typed_html};
pub use pretty::Pretty;
pub use schema::{Attribute, Schema, SchemaField, SchemaTable, TypedAttributes, TypedElement,
    ValueKind};
