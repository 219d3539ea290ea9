//! The whole compilation pipeline in one call: parse the template source,
//! then build and validate the tree, returning a best-effort node plus all
//! diagnostics in document order.

use vstd::prelude::*;

use crate::builder::{build_template, build_template_spec, mk_env, opt_table_view, Bindings,
    BindingsView};
use crate::diag::{diags_view, Diagnostic, DiagnosticView};
use crate::grammar::{default_grammar, default_grammar_view};
use crate::node::{Node, NodeView};
use crate::parse::{parse_template, parse_template_spec};
use crate::schema::{SchemaTable, SchemaTableView};

verus! {

/// What compiling a template comes to: the parsed syntax tree built under
/// the standard grammar, untyped, with parse diagnostics first.
pub open spec fn html_spec(src: Seq<char>, b: BindingsView) -> (NodeView, Seq<DiagnosticView>) {
    let g = default_grammar_view();
    let p = parse_template_spec(src, g);
    let bt = build_template_spec(p.0, mk_env(g, None, b));
    (bt.0, p.1 + bt.1)
}

/// What compiling a typed template comes to: as [`html_spec`], with every
/// element resolved against the schema table.
pub open spec fn typed_html_spec(src: Seq<char>, t: SchemaTableView, b: BindingsView) -> (
    NodeView,
    Seq<DiagnosticView>,
) {
    let g = default_grammar_view();
    let p = parse_template_spec(src, g);
    let bt = build_template_spec(p.0, mk_env(g, Some(t), b));
    (bt.0, p.1 + bt.1)
}

/// Compiles a template: parses `src` under the standard grammar, builds
/// the node tree with `bindings` substituted for placeholders, and returns
/// the tree with all diagnostics.  Errors never abort: the tree is always
/// produced, and the caller decides whether error diagnostics void it.
pub fn html(src: &str, bindings: &Bindings) -> (r: (Node, Vec<Diagnostic>))
    ensures
        r.0@ == html_spec(src@, bindings@).0,
        diags_view(r.1@) == html_spec(src@, bindings@).1,
{
    let g = default_grammar();
    let (nodes, mut pdiags) = parse_template(src, &g);
    let (node, mut bdiags) = build_template(&nodes, &g, None, bindings);
    proof {
        assert(opt_table_view(None) is None);
    }
    pdiags.append(&mut bdiags);
    proof {
        assert(diags_view(pdiags@) =~= html_spec(src@, bindings@).1);
    }
    (node, pdiags)
}

/// Compiles a typed template: as [`html`], with every element's attributes
/// validated against its schema in `table` before the tree is built.
pub fn typed_html(src: &str, table: &SchemaTable, bindings: &Bindings) -> (r: (
    Node,
    Vec<Diagnostic>,
))
    ensures
        r.0@ == typed_html_spec(src@, table@, bindings@).0,
        diags_view(r.1@) == typed_html_spec(src@, table@, bindings@).1,
{
    let g = default_grammar();
    let (nodes, mut pdiags) = parse_template(src, &g);
    let (node, mut bdiags) = build_template(&nodes, &g, Some(table), bindings);
    proof {
        assert(opt_table_view(Some(table)) == Some(table@));
    }
    pdiags.append(&mut bdiags);
    proof {
        assert(diags_view(pdiags@) =~= typed_html_spec(src@, table@, bindings@).1);
    }
    (node, pdiags)
}

/// The void-element invariant, end to end: whatever the template source
/// says, every element of a compiled tree whose name is in the void set
/// has `children` of `None`, provided the bound nodes obey the same rule.
pub proof fn lemma_html_void_ok(src: Seq<char>, b: BindingsView)
    requires
        crate::builder::bindings_void_ok(default_grammar_view().voids, b),
    ensures
        crate::builder::tree_void_ok(default_grammar_view().voids, html_spec(src, b).0),
{
    let g = default_grammar_view();
    let p = parse_template_spec(src, g);
    crate::builder::lemma_build_template_void_ok(p.0, mk_env(g, None, b));
}

/// The void-element invariant, end to end, in typed mode.
pub proof fn lemma_typed_html_void_ok(src: Seq<char>, t: SchemaTableView, b: BindingsView)
    requires
        crate::builder::bindings_void_ok(default_grammar_view().voids, b),
    ensures
        crate::builder::tree_void_ok(default_grammar_view().voids, typed_html_spec(src, t, b).0),
{
    let g = default_grammar_view();
    let p = parse_template_spec(src, g);
    crate::builder::lemma_build_template_void_ok(p.0, mk_env(g, Some(t), b));
}

} // verus!
