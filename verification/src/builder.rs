//! The tree builder / validator pass: turns the parsed syntax tree into a
//! [`Node`] tree, substituting placeholder bindings, enforcing the
//! void-element rule, and - in typed mode - validating every attribute
//! against the element's schema.  Diagnostics accumulate; output is always
//! produced.

use vstd::prelude::*;

use crate::diag::{diags_view, error, error_view, warning, warning_view, Diagnostic,
    DiagnosticView};
use crate::grammar::{name_in, GrammarTable, GrammarView};
use crate::node::{attrs_view, clone_node, Element, Fragment, Node, NodeView, ElementView};
use crate::schema::{convert_ok, check_value, find_field_spec, find_schema_spec, hyphenated,
    hyphenate_key, underscored, underscore_key, Schema, SchemaTable, SchemaTableView, SchemaView,
    SchemaFieldView};
use crate::syntax::{syntax_attrs_view, syntax_seq_view, lemma_syntax_seq_view, AttrValue,
    AttrValueView, SyntaxAttrView, SyntaxAttribute, SyntaxElement, SyntaxElementView, SyntaxNode,
    SyntaxView};

verus! {

/// Named values substituted for embedded-expression placeholders: nodes for
/// child positions, strings for attribute positions.
#[derive(Debug)]
pub struct Bindings {
    /// Node values, looked up by placeholder name; the first match wins.
    pub nodes: Vec<(String, Node)>,
    /// Text values, looked up by placeholder name; the first match wins.
    pub texts: Vec<(String, String)>,
}

/// The mathematical value of [`Bindings`].
pub struct BindingsView {
    pub nodes: Seq<(Seq<char>, NodeView)>,
    pub texts: Seq<(Seq<char>, Seq<char>)>,
}

impl View for Bindings {
    type V = BindingsView;

    open spec fn view(&self) -> BindingsView {
        BindingsView {
            nodes: self.nodes@.map_values(|p: (String, Node)| (p.0@, p.1@)),
            texts: self.texts@.map_values(|p: (String, String)| (p.0@, p.1@)),
        }
    }
}

/// The first text binding named `name`, from position `i` on.
pub open spec fn lookup_text_from(
    bs: Seq<(Seq<char>, Seq<char>)>,
    name: Seq<char>,
    i: int,
) -> Option<Seq<char>>
    decreases bs.len() - i,
{
    if i < 0 || i >= bs.len() {
        None
    } else if bs[i].0 == name {
        Some(bs[i].1)
    } else {
        lookup_text_from(bs, name, i + 1)
    }
}

/// The first text binding named `name`.
pub open spec fn lookup_text_spec(b: BindingsView, name: Seq<char>) -> Option<Seq<char>> {
    lookup_text_from(b.texts, name, 0)
}

/// The first node binding named `name`, from position `i` on.
pub open spec fn lookup_node_from(
    bs: Seq<(Seq<char>, NodeView)>,
    name: Seq<char>,
    i: int,
) -> Option<NodeView>
    decreases bs.len() - i,
{
    if i < 0 || i >= bs.len() {
        None
    } else if bs[i].0 == name {
        Some(bs[i].1)
    } else {
        lookup_node_from(bs, name, i + 1)
    }
}

/// The first node binding named `name`.
pub open spec fn lookup_node_spec(b: BindingsView, name: Seq<char>) -> Option<NodeView> {
    lookup_node_from(b.nodes, name, 0)
}

impl Bindings {
    /// No bindings.
    pub fn new() -> (r: Bindings)
        ensures
            r@.nodes.len() == 0,
            r@.texts.len() == 0,
    {
        let r = Bindings { nodes: Vec::new(), texts: Vec::new() };
        proof {
            assert(r@.nodes =~= Seq::<(Seq<char>, NodeView)>::empty());
            assert(r@.texts =~= Seq::<(Seq<char>, Seq<char>)>::empty());
        }
        r
    }

    /// Adds a node binding.
    pub fn bind_node(&mut self, name: &str, node: Node)
        ensures
            final(self)@.nodes == old(self)@.nodes.push((name@, node@)),
            final(self)@.texts == old(self)@.texts,
    {
        self.nodes.push((name.to_owned(), node));
        proof {
            assert(self@.nodes =~= old(self)@.nodes.push((name@, node@)));
            assert(self@.texts =~= old(self)@.texts);
        }
    }

    /// Adds a text binding.
    pub fn bind_text(&mut self, name: &str, value: &str)
        ensures
            final(self)@.texts == old(self)@.texts.push((name@, value@)),
            final(self)@.nodes == old(self)@.nodes,
    {
        self.texts.push((name.to_owned(), value.to_owned()));
        proof {
            assert(self@.texts =~= old(self)@.texts.push((name@, value@)));
            assert(self@.nodes =~= old(self)@.nodes);
        }
    }

    /// Looks up a node binding; the first match wins.
    pub fn lookup_node(&self, name: &str) -> (r: Option<&Node>)
        ensures
            match r {
                Some(n) => lookup_node_spec(self@, name@) == Some(n@),
                None => lookup_node_spec(self@, name@) is None,
            },
    {
        let mut i: usize = 0;
        while i < self.nodes.len()
            invariant
                i <= self.nodes@.len(),
                lookup_node_spec(self@, name@) == lookup_node_from(self@.nodes, name@, i as int),
            decreases self.nodes@.len() - i,
        {
            if crate::strutil::str_eq(self.nodes[i].0.as_str(), name) {
                proof {
                    assert(self@.nodes[i as int] == (self.nodes@[i as int].0@,
                    self.nodes@[i as int].1@));
                }
                return Some(&self.nodes[i].1);
            }
            proof {
                assert(self@.nodes[i as int] == (self.nodes@[i as int].0@,
                self.nodes@[i as int].1@));
            }
            i = i + 1;
        }
        None
    }

    /// Looks up a text binding; the first match wins.
    pub fn lookup_text(&self, name: &str) -> (r: Option<&String>)
        ensures
            match r {
                Some(s) => lookup_text_spec(self@, name@) == Some(s@),
                None => lookup_text_spec(self@, name@) is None,
            },
    {
        let mut i: usize = 0;
        while i < self.texts.len()
            invariant
                i <= self.texts@.len(),
                lookup_text_spec(self@, name@) == lookup_text_from(self@.texts, name@, i as int),
            decreases self.texts@.len() - i,
        {
            if crate::strutil::str_eq(self.texts[i].0.as_str(), name) {
                proof {
                    assert(self@.texts[i as int] == (self.texts@[i as int].0@,
                    self.texts@[i as int].1@));
                }
                return Some(&self.texts[i].1);
            }
            proof {
                assert(self@.texts[i as int] == (self.texts@[i as int].0@,
                self.texts@[i as int].1@));
            }
            i = i + 1;
        }
        None
    }
}

/// What the builder runs under: the void-element set, the schema table when
/// in typed mode, and the placeholder bindings.
pub struct BuildEnv {
    pub voids: Seq<Seq<char>>,
    pub schemas: Option<SchemaTableView>,
    pub bindings: BindingsView,
}

/// The environment made of the given grammar, optional schema table and
/// bindings.
pub open spec fn mk_env(
    g: GrammarView,
    schemas: Option<SchemaTableView>,
    b: BindingsView,
) -> BuildEnv {
    BuildEnv { voids: g.voids, schemas, bindings: b }
}

/// The value an attribute position resolves to: literal text stands as
/// itself, a placeholder is looked up among the text bindings, and an
/// unbound placeholder is an error.
pub open spec fn resolve_value_spec(
    b: BindingsView,
    v: AttrValueView,
    pos: int,
) -> Result<Option<Seq<char>>, DiagnosticView> {
    match v {
        AttrValueView::Absent => Ok(None),
        AttrValueView::Literal(s) => Ok(Some(s)),
        AttrValueView::Expr(x) => match lookup_text_spec(b, x) {
            Some(s) => Ok(Some(s)),
            None => Err(error_view("unbound placeholder in attribute"@, pos)),
        },
    }
}

/// Untyped attribute handling from position `i` on: each keyed attribute
/// passes through under its own key, a block attribute becomes a bare key,
/// and an unbound placeholder drops the attribute with an error.
pub open spec fn untyped_attrs_from(b: BindingsView, attrs: Seq<SyntaxAttrView>, i: int) -> (
    Seq<(Seq<char>, Option<Seq<char>>)>,
    Seq<DiagnosticView>,
)
    decreases attrs.len() - i,
{
    if i < 0 || i >= attrs.len() {
        (Seq::empty(), Seq::empty())
    } else {
        let rest = untyped_attrs_from(b, attrs, i + 1);
        match attrs[i] {
            SyntaxAttrView::Keyed { key, value, pos } => match resolve_value_spec(
                b,
                value,
                pos,
            ) {
                Ok(v) => (seq![(key, v)] + rest.0, rest.1),
                Err(d) => (rest.0, seq![d] + rest.1),
            },
            SyntaxAttrView::Block { expr, pos } => match lookup_text_spec(b, expr) {
                Some(s) => (seq![(s, None::<Seq<char>>)] + rest.0, rest.1),
                None => (
                    rest.0,
                    seq![error_view("unbound placeholder in attribute"@, pos)] + rest.1,
                ),
            },
        }
    }
}

/// One typed attribute against the schema: a key matching a declared
/// field (after hyphen normalization) fills that field's presence slot
/// after value conversion; otherwise an extension-prefixed key, or any key
/// under a catch-all schema, is collected as written; anything else is
/// rejected with an error and leaves no trace in the output.
pub open spec fn typed_attr_step(
    schema: SchemaView,
    table: SchemaTableView,
    b: BindingsView,
    attr: SyntaxAttrView,
    slots: Seq<Option<Option<Seq<char>>>>,
    ext: Seq<(Seq<char>, Option<Seq<char>>)>,
) -> (Seq<Option<Option<Seq<char>>>>, Seq<(Seq<char>, Option<Seq<char>>)>, Seq<DiagnosticView>) {
    match attr {
        SyntaxAttrView::Block { expr, pos } => (
            slots,
            ext,
            seq![error_view("typed elements don't support block attributes"@, pos)],
        ),
        SyntaxAttrView::Keyed { key, value, pos } => match resolve_value_spec(b, value, pos) {
            Err(d) => (slots, ext, seq![d]),
            Ok(v) => match find_field_spec(schema, underscored(key)) {
                Some(fi) => if slots[fi] is Some {
                    (
                        slots,
                        ext,
                        seq![error_view("duplicate attribute for typed element"@, pos)],
                    )
                } else if !convert_ok(schema.fields[fi].kind, v) {
                    (
                        slots,
                        ext,
                        seq![error_view("invalid value for typed attribute"@, pos)],
                    )
                } else {
                    (slots.update(fi, Some(v)), ext, Seq::empty())
                },
                None => if crate::schema::is_extension_key_spec(table, key)
                    || schema.catch_all {
                    (slots, ext.push((key, v)), Seq::empty())
                } else {
                    (
                        slots,
                        ext,
                        seq![error_view("unknown attribute for typed element"@, pos)],
                    )
                },
            },
        },
    }
}

/// Typed attribute handling from position `i` on, threading the field
/// slots and the extension list.
pub open spec fn typed_attrs_from(
    schema: SchemaView,
    table: SchemaTableView,
    b: BindingsView,
    attrs: Seq<SyntaxAttrView>,
    i: int,
    slots: Seq<Option<Option<Seq<char>>>>,
    ext: Seq<(Seq<char>, Option<Seq<char>>)>,
) -> (Seq<Option<Option<Seq<char>>>>, Seq<(Seq<char>, Option<Seq<char>>)>, Seq<DiagnosticView>)
    decreases attrs.len() - i,
{
    if i < 0 || i >= attrs.len() {
        (slots, ext, Seq::empty())
    } else {
        let st = typed_attr_step(schema, table, b, attrs[i], slots, ext);
        let rest = typed_attrs_from(schema, table, b, attrs, i + 1, st.0, st.1);
        (rest.0, rest.1, st.2 + rest.2)
    }
}

/// The filled field slots rendered in declaration order, each under the
/// hyphenated form of its field name.
pub open spec fn slots_render(
    fields: Seq<SchemaFieldView>,
    slots: Seq<Option<Option<Seq<char>>>>,
    i: int,
) -> Seq<(Seq<char>, Option<Seq<char>>)>
    decreases fields.len() - i,
{
    if i < 0 || i >= fields.len() || i >= slots.len() {
        Seq::empty()
    } else {
        (match slots[i] {
            Some(v) => seq![(hyphenated(fields[i].name), v)],
            None => Seq::empty(),
        }) + slots_render(fields, slots, i + 1)
    }
}

/// All empty field slots: nothing filled yet.
pub open spec fn empty_slots(n: int) -> Seq<Option<Option<Seq<char>>>> {
    Seq::new(n as nat, |j: int| None::<Option<Seq<char>>>)
}

/// An element's attribute list under its schema: the fixed fields in
/// declaration order, then the extension attributes in order of
/// appearance.
pub open spec fn typed_element_attrs(
    schema: SchemaView,
    table: SchemaTableView,
    b: BindingsView,
    attrs: Seq<SyntaxAttrView>,
) -> (Seq<(Seq<char>, Option<Seq<char>>)>, Seq<DiagnosticView>) {
    let st = typed_attrs_from(
        schema,
        table,
        b,
        attrs,
        0,
        empty_slots(schema.fields.len() as int),
        Seq::empty(),
    );
    (slots_render(schema.fields, st.0, 0) + st.1, st.2)
}

/// An element's attribute list: untyped passthrough without a schema
/// table; schema validation in typed mode; an element name with no schema
/// is an error, and its attributes fall back to untyped handling.
pub open spec fn element_attrs_spec(env: BuildEnv, e: SyntaxElementView) -> (
    Seq<(Seq<char>, Option<Seq<char>>)>,
    Seq<DiagnosticView>,
) {
    match env.schemas {
        None => untyped_attrs_from(env.bindings, e.attributes, 0),
        Some(t) => match find_schema_spec(t, e.name) {
            Some(schema) => typed_element_attrs(schema, t, env.bindings, e.attributes),
            None => {
                let u = untyped_attrs_from(env.bindings, e.attributes, 0);
                (u.0, seq![error_view("no schema registered for element"@, e.pos)] + u.1)
            },
        },
    }
}

/// One syntax node built into a document node, with its diagnostics.
pub open spec fn build_node_spec(sx: SyntaxView, env: BuildEnv) -> (
    NodeView,
    Seq<DiagnosticView>,
)
    decreases sx, 0int,
{
    match sx {
        SyntaxView::Comment(s) => (NodeView::Comment(s), Seq::empty()),
        SyntaxView::Doctype(s) => (NodeView::Doctype(s), Seq::empty()),
        SyntaxView::Text(s) => (NodeView::Text(s), Seq::empty()),
        SyntaxView::RawText(s) => (NodeView::Text(s), Seq::empty()),
        SyntaxView::Block { expr, pos } => match lookup_node_spec(env.bindings, expr) {
            Some(nv) => (nv, Seq::empty()),
            None => (
                NodeView::Fragment(Seq::empty()),
                seq![error_view("unbound placeholder expression"@, pos)],
            ),
        },
        SyntaxView::Fragment(cs) => {
            let r = build_seq_spec(cs, env, 0);
            (NodeView::Fragment(r.0), r.1)
        },
        SyntaxView::Element(e) => build_element_spec(e, env),
    }
}

/// An element built into a document node.  A void-named element always
/// comes out with `children` of `None`; content the author wrote under it
/// is excluded from output and draws one structural warning.
pub open spec fn build_element_spec(e: SyntaxElementView, env: BuildEnv) -> (
    NodeView,
    Seq<DiagnosticView>,
)
    decreases e, 1int,
{
    let a = element_attrs_spec(env, e);
    if name_in(env.voids, e.name) {
        let extra: Seq<DiagnosticView> = if e.children.len() > 0 {
            seq![warning_view("void elements' children will be ignored"@, e.pos)]
        } else {
            Seq::empty()
        };
        (
            NodeView::Element(ElementView { name: e.name, attributes: a.0, children: None }),
            a.1 + extra,
        )
    } else {
        let c = build_seq_spec(e.children, env, 0);
        (
            NodeView::Element(
                ElementView { name: e.name, attributes: a.0, children: Some(c.0) },
            ),
            a.1 + c.1,
        )
    }
}

/// A sequence of syntax nodes built in order, diagnostics concatenated in
/// document order.
pub open spec fn build_seq_spec(cs: Seq<SyntaxView>, env: BuildEnv, i: int) -> (
    Seq<NodeView>,
    Seq<DiagnosticView>,
)
    decreases cs, cs.len() - i + 1int,
{
    if i < 0 || i >= cs.len() {
        (Seq::empty(), Seq::empty())
    } else {
        let h = build_node_spec(cs[i], env);
        let rest = build_seq_spec(cs, env, i + 1);
        (seq![h.0] + rest.0, h.1 + rest.1)
    }
}

/// A whole template built: a single produced node stands by itself, any
/// other number is wrapped in a fragment.
pub open spec fn build_template_spec(cs: Seq<SyntaxView>, env: BuildEnv) -> (
    NodeView,
    Seq<DiagnosticView>,
) {
    let r = build_seq_spec(cs, env, 0);
    if r.0.len() == 1 {
        (r.0[0], r.1)
    } else {
        (NodeView::Fragment(r.0), r.1)
    }
}

/// The value of an optional string.
pub open spec fn opt_str_view(o: Option<String>) -> Option<Seq<char>> {
    match o {
        Some(s) => Some(s@),
        None => None,
    }
}

/// The value of the slot vector.
pub open spec fn slots_view(s: Seq<Option<Option<String>>>) -> Seq<Option<Option<Seq<char>>>> {
    s.map_values(
        |o: Option<Option<String>>|
            match o {
                Some(v) => Some(opt_str_view(v)),
                None => None,
            },
    )
}

/// The view of the schema table an element build runs against.
pub open spec fn opt_table_view(t: Option<&SchemaTable>) -> Option<SchemaTableView> {
    match t {
        Some(x) => Some(x@),
        None => None,
    }
}

/// Resolves one attribute value against the text bindings.
fn resolve_attr_value(b: &Bindings, v: &AttrValue, pos: usize) -> (r: Result<
    Option<String>,
    Diagnostic,
>)
    ensures
        match r {
            Ok(o) => resolve_value_spec(b@, v@, pos as int) == Ok::<_, DiagnosticView>(
                opt_str_view(o),
            ),
            Err(d) => resolve_value_spec(b@, v@, pos as int) == Err::<Option<Seq<char>>, _>(d@),
        },
{
    match v {
        AttrValue::Absent => Ok(None),
        AttrValue::Literal(s) => Ok(Some(s.clone())),
        AttrValue::Expr(x) => match b.lookup_text(x.as_str()) {
            Some(s) => Ok(Some(s.clone())),
            None => Err(error("unbound placeholder in attribute", pos)),
        },
    }
}

/// Appends the untyped handling of the attribute list.
fn untyped_attrs(
    b: &Bindings,
    attrs: &Vec<SyntaxAttribute>,
    out: &mut Vec<(String, Option<String>)>,
    diags: &mut Vec<Diagnostic>,
)
    ensures
        attrs_view(final(out)@) == attrs_view(old(out)@) + untyped_attrs_from(
            b@,
            syntax_attrs_view(attrs@),
            0,
        ).0,
        diags_view(final(diags)@) == diags_view(old(diags)@) + untyped_attrs_from(
            b@,
            syntax_attrs_view(attrs@),
            0,
        ).1,
{
    let ghost avs = syntax_attrs_view(attrs@);
    let mut i: usize = 0;
    while i < attrs.len()
        invariant
            i <= attrs@.len(),
            avs == syntax_attrs_view(attrs@),
            avs.len() == attrs@.len(),
            attrs_view(out@) + untyped_attrs_from(b@, avs, i as int).0 == attrs_view(
                old(out)@,
            ) + untyped_attrs_from(b@, avs, 0).0,
            diags_view(diags@) + untyped_attrs_from(b@, avs, i as int).1 == diags_view(
                old(diags)@,
            ) + untyped_attrs_from(b@, avs, 0).1,
        decreases attrs@.len() - i,
    {
        let ghost out0 = out@;
        let ghost diags0 = diags@;
        proof {
            assert(avs[i as int] == attrs@[i as int]@);
        }
        match &attrs[i] {
            SyntaxAttribute::Keyed { key, value, pos } => {
                match resolve_attr_value(b, value, *pos) {
                    Ok(v) => {
                        let ghost vv = opt_str_view(v);
                        out.push((key.clone(), v));
                        proof {
                            assert(attrs_view(out@) =~= attrs_view(out0) + seq![(key@, vv)]);
                            assert(untyped_attrs_from(b@, avs, i as int).0 == seq![(key@, vv)]
                                + untyped_attrs_from(b@, avs, i + 1 as int).0);
                            assert(untyped_attrs_from(b@, avs, i as int).1
                                == untyped_attrs_from(b@, avs, i + 1 as int).1);
                        }
                    },
                    Err(d) => {
                        let ghost dv = d@;
                        diags.push(d);
                        proof {
                            assert(diags_view(diags@) =~= diags_view(diags0) + seq![dv]);
                            assert(untyped_attrs_from(b@, avs, i as int).1 == seq![dv]
                                + untyped_attrs_from(b@, avs, i + 1 as int).1);
                            assert(untyped_attrs_from(b@, avs, i as int).0
                                == untyped_attrs_from(b@, avs, i + 1 as int).0);
                        }
                    },
                }
            },
            SyntaxAttribute::Block { expr, pos } => {
                match b.lookup_text(expr.as_str()) {
                    Some(s) => {
                        let sc = s.clone();
                        out.push((sc, None));
                        proof {
                            assert(attrs_view(out@) =~= attrs_view(out0) + seq![
                                (s@, None::<Seq<char>>),
                            ]);
                            assert(untyped_attrs_from(b@, avs, i as int).0 == seq![
                                (s@, None::<Seq<char>>),
                            ] + untyped_attrs_from(b@, avs, i + 1 as int).0);
                            assert(untyped_attrs_from(b@, avs, i as int).1
                                == untyped_attrs_from(b@, avs, i + 1 as int).1);
                        }
                    },
                    None => {
                        let d = error("unbound placeholder in attribute", *pos);
                        let ghost dv = d@;
                        diags.push(d);
                        proof {
                            assert(diags_view(diags@) =~= diags_view(diags0) + seq![dv]);
                            assert(untyped_attrs_from(b@, avs, i as int).1 == seq![dv]
                                + untyped_attrs_from(b@, avs, i + 1 as int).1);
                            assert(untyped_attrs_from(b@, avs, i as int).0
                                == untyped_attrs_from(b@, avs, i + 1 as int).0);
                        }
                    },
                }
            },
        }
        proof {
            assert(attrs_view(out@) + untyped_attrs_from(b@, avs, i + 1 as int).0 =~= attrs_view(
                old(out)@,
            ) + untyped_attrs_from(b@, avs, 0).0);
            assert(diags_view(diags@) + untyped_attrs_from(b@, avs, i + 1 as int).1
                =~= diags_view(old(diags)@) + untyped_attrs_from(b@, avs, 0).1);
        }
        i = i + 1;
    }
    proof {
        assert(attrs_view(out@) =~= attrs_view(out@) + untyped_attrs_from(
            b@,
            avs,
            attrs@.len() as int,
        ).0);
        assert(diags_view(diags@) =~= diags_view(diags@) + untyped_attrs_from(
            b@,
            avs,
            attrs@.len() as int,
        ).1);
    }
}

/// Appends the typed handling of the attribute list: fixed fields in
/// declaration order, then extension attributes in order of appearance.
fn typed_attrs(
    schema: &Schema,
    table: &SchemaTable,
    b: &Bindings,
    attrs: &Vec<SyntaxAttribute>,
    out: &mut Vec<(String, Option<String>)>,
    diags: &mut Vec<Diagnostic>,
)
    ensures
        attrs_view(final(out)@) == attrs_view(old(out)@) + typed_element_attrs(
            schema@,
            table@,
            b@,
            syntax_attrs_view(attrs@),
        ).0,
        diags_view(final(diags)@) == diags_view(old(diags)@) + typed_element_attrs(
            schema@,
            table@,
            b@,
            syntax_attrs_view(attrs@),
        ).1,
{
    let ghost avs = syntax_attrs_view(attrs@);
    let ghost nfields = schema@.fields.len() as int;
    let mut slots: Vec<Option<Option<String>>> = Vec::new();
    let mut j: usize = 0;
    while j < schema.fields.len()
        invariant
            j <= schema.fields@.len(),
            nfields == schema@.fields.len(),
            nfields == schema.fields@.len(),
            slots@.len() == j,
            forall|m: int| 0 <= m < j ==> #[trigger] slots@[m] is None,
        decreases schema.fields@.len() - j,
    {
        slots.push(None);
        j = j + 1;
    }
    proof {
        assert(slots_view(slots@) =~= empty_slots(nfields));
    }
    let mut ext: Vec<(String, Option<String>)> = Vec::new();
    proof {
        assert(attrs_view(ext@) =~= Seq::<(Seq<char>, Option<Seq<char>>)>::empty());
    }
    let ghost full = typed_attrs_from(
        schema@,
        table@,
        b@,
        avs,
        0,
        empty_slots(nfields),
        Seq::empty(),
    );
    let mut i: usize = 0;
    while i < attrs.len()
        invariant
            i <= attrs@.len(),
            avs == syntax_attrs_view(attrs@),
            avs.len() == attrs@.len(),
            nfields == schema@.fields.len(),
            nfields == schema.fields@.len(),
            slots@.len() == nfields,
            full == typed_attrs_from(
                schema@,
                table@,
                b@,
                avs,
                0,
                empty_slots(nfields),
                Seq::empty(),
            ),
            typed_attrs_from(
                schema@,
                table@,
                b@,
                avs,
                i as int,
                slots_view(slots@),
                attrs_view(ext@),
            ).0 == full.0,
            typed_attrs_from(
                schema@,
                table@,
                b@,
                avs,
                i as int,
                slots_view(slots@),
                attrs_view(ext@),
            ).1 == full.1,
            diags_view(diags@) + typed_attrs_from(
                schema@,
                table@,
                b@,
                avs,
                i as int,
                slots_view(slots@),
                attrs_view(ext@),
            ).2 == diags_view(old(diags)@) + full.2,
            attrs_view(out@) == attrs_view(old(out)@),
        decreases attrs@.len() - i,
    {
        let ghost slots0 = slots_view(slots@);
        let ghost ext0 = attrs_view(ext@);
        let ghost diags0 = diags@;
        let ghost st = typed_attr_step(schema@, table@, b@, avs[i as int], slots0, ext0);
        proof {
            assert(avs[i as int] == attrs@[i as int]@);
        }
        match &attrs[i] {
            SyntaxAttribute::Block { expr: _, pos } => {
                diags.push(error("typed elements don't support block attributes", *pos));
                proof {
                    assert(diags_view(diags@) =~= diags_view(diags0) + st.2);
                }
            },
            SyntaxAttribute::Keyed { key, value, pos } => {
                match resolve_attr_value(b, value, *pos) {
                    Err(d) => {
                        let ghost dv = d@;
                        diags.push(d);
                        proof {
                            assert(st.2 =~= seq![dv]);
                            assert(diags_view(diags@) =~= diags_view(diags0) + st.2);
                        }
                    },
                    Ok(v) => {
                        let ghost vv = opt_str_view(v);
                        let norm = underscore_key(key.as_str());
                        match schema.find_field(norm.as_str()) {
                            Some(fi) => {
                                proof {
                                    assert(slots_view(slots@)[fi as int] == slots0[fi as int]);
                                }
                                if slots[fi].is_some() {
                                    diags.push(
                                        error("duplicate attribute for typed element", *pos),
                                    );
                                    proof {
                                        assert(diags_view(diags@) =~= diags_view(diags0)
                                            + st.2);
                                    }
                                } else if !check_value(schema.fields[fi].kind, &v) {
                                    proof {
                                        assert(schema@.fields[fi as int].kind
                                            == schema.fields@[fi as int]@.kind);
                                    }
                                    diags.push(
                                        error("invalid value for typed attribute", *pos),
                                    );
                                    proof {
                                        assert(diags_view(diags@) =~= diags_view(diags0)
                                            + st.2);
                                    }
                                } else {
                                    proof {
                                        assert(schema@.fields[fi as int].kind
                                            == schema.fields@[fi as int]@.kind);
                                    }
                                    slots[fi] = Some(v);
                                    proof {
                                        assert(slots_view(slots@) =~= slots0.update(
                                            fi as int,
                                            Some(vv),
                                        ));
                                        assert(diags_view(diags@) =~= diags_view(diags0)
                                            + st.2);
                                    }
                                }
                            },
                            None => {
                                if table.is_extension_key(key.as_str()) || schema.catch_all {
                                    ext.push((key.clone(), v));
                                    proof {
                                        assert(attrs_view(ext@) =~= ext0.push((key@, vv)));
                                        assert(diags_view(diags@) =~= diags_view(diags0)
                                            + st.2);
                                    }
                                } else {
                                    diags.push(
                                        error("unknown attribute for typed element", *pos),
                                    );
                                    proof {
                                        assert(diags_view(diags@) =~= diags_view(diags0)
                                            + st.2);
                                    }
                                }
                            },
                        }
                    },
                }
            },
        }
        proof {
            assert(slots_view(slots@) == st.0);
            assert(attrs_view(ext@) == st.1);
            assert(typed_attrs_from(schema@, table@, b@, avs, i as int, slots0, ext0).0
                == typed_attrs_from(
                schema@,
                table@,
                b@,
                avs,
                i + 1 as int,
                st.0,
                st.1,
            ).0);
            assert(typed_attrs_from(schema@, table@, b@, avs, i as int, slots0, ext0).1
                == typed_attrs_from(
                schema@,
                table@,
                b@,
                avs,
                i + 1 as int,
                st.0,
                st.1,
            ).1);
            assert(diags_view(diags@) + typed_attrs_from(
                schema@,
                table@,
                b@,
                avs,
                i + 1 as int,
                st.0,
                st.1,
            ).2 =~= diags_view(old(diags)@) + full.2);
        }
        i = i + 1;
    }
    proof {
        assert(full.0 == slots_view(slots@));
        assert(full.1 == attrs_view(ext@));
        assert(diags_view(diags@) =~= diags_view(diags@) + typed_attrs_from(
            schema@,
            table@,
            b@,
            avs,
            attrs@.len() as int,
            slots_view(slots@),
            attrs_view(ext@),
        ).2);
        assert(diags_view(diags@) =~= diags_view(old(diags)@) + full.2);
    }
    let mut k: usize = 0;
    while k < schema.fields.len()
        invariant
            k <= schema.fields@.len(),
            nfields == schema@.fields.len(),
            nfields == schema.fields@.len(),
            slots@.len() == nfields,
            full.0 == slots_view(slots@),
            attrs_view(out@) + slots_render(schema@.fields, full.0, k as int) == attrs_view(
                old(out)@,
            ) + slots_render(schema@.fields, full.0, 0),
        decreases schema.fields@.len() - k,
    {
        let ghost outk = out@;
        match &slots[k] {
            Some(v) => {
                let hk = hyphenate_key(schema.fields[k].name.as_str());
                let vc = match v {
                    Some(s) => Some(s.clone()),
                    None => None,
                };
                out.push((hk, vc));
                proof {
                    assert(schema@.fields[k as int].name == schema.fields@[k as int]@.name);
                    assert(full.0[k as int] == Some(opt_str_view(*v)));
                    assert(attrs_view(out@) =~= attrs_view(outk) + seq![
                        (hyphenated(schema@.fields[k as int].name), opt_str_view(*v)),
                    ]);
                    assert(slots_render(schema@.fields, full.0, k as int) == seq![
                        (hyphenated(schema@.fields[k as int].name), opt_str_view(*v)),
                    ] + slots_render(schema@.fields, full.0, k + 1 as int));
                    assert(attrs_view(out@) + slots_render(schema@.fields, full.0, k + 1 as int)
                        =~= attrs_view(old(out)@) + slots_render(schema@.fields, full.0, 0));
                }
            },
            None => {
                proof {
                    assert(full.0[k as int] == None::<Option<Seq<char>>>);
                    assert(slots_render(schema@.fields, full.0, k as int) =~= slots_render(
                        schema@.fields,
                        full.0,
                        k + 1 as int,
                    ));
                }
            },
        }
        k = k + 1;
    }
    proof {
        assert(slots_render(schema@.fields, full.0, nfields) =~= Seq::<
            (Seq<char>, Option<Seq<char>>),
        >::empty());
        assert(attrs_view(out@) =~= attrs_view(old(out)@) + slots_render(
            schema@.fields,
            full.0,
            0,
        ));
    }
    let ghost pre_ext = out@;
    out.append(&mut ext);
    proof {
        assert(attrs_view(out@) =~= attrs_view(pre_ext) + full.1);
        assert(attrs_view(out@) =~= attrs_view(old(out)@) + typed_element_attrs(
            schema@,
            table@,
            b@,
            avs,
        ).0);
    }
}

/// Builds one syntax node, appending its diagnostics.
pub fn build_node(
    sx: &SyntaxNode,
    g: &GrammarTable,
    schemas: Option<&SchemaTable>,
    b: &Bindings,
    diags: &mut Vec<Diagnostic>,
) -> (r: Node)
    ensures
        r@ == build_node_spec(sx@, mk_env(g@, opt_table_view(schemas), b@)).0,
        diags_view(final(diags)@) == diags_view(old(diags)@) + build_node_spec(
            sx@,
            mk_env(g@, opt_table_view(schemas), b@),
        ).1,
    decreases *sx, 0int,
{
    let ghost env = mk_env(g@, opt_table_view(schemas), b@);
    match sx {
        SyntaxNode::Comment(s) => {
            let r = Node::Comment(crate::node::Comment { comment: s.clone() });
            proof {
                assert(diags_view(diags@) =~= diags_view(diags@) + Seq::<
                    DiagnosticView,
                >::empty());
            }
            r
        },
        SyntaxNode::Doctype(s) => {
            let r = Node::Doctype(crate::node::Doctype { syntax: s.clone() });
            proof {
                assert(diags_view(diags@) =~= diags_view(diags@) + Seq::<
                    DiagnosticView,
                >::empty());
            }
            r
        },
        SyntaxNode::Text(s) => {
            let r = Node::Text(crate::node::Text { text: s.clone() });
            proof {
                assert(diags_view(diags@) =~= diags_view(diags@) + Seq::<
                    DiagnosticView,
                >::empty());
            }
            r
        },
        SyntaxNode::RawText(s) => {
            let r = Node::Text(crate::node::Text { text: s.clone() });
            proof {
                assert(diags_view(diags@) =~= diags_view(diags@) + Seq::<
                    DiagnosticView,
                >::empty());
            }
            r
        },
        SyntaxNode::Block { expr, pos } => {
            match b.lookup_node(expr.as_str()) {
                Some(n) => {
                    let r = clone_node(n);
                    proof {
                        assert(diags_view(diags@) =~= diags_view(diags@) + Seq::<
                            DiagnosticView,
                        >::empty());
                    }
                    r
                },
                None => {
                    let ghost diags0 = diags@;
                    diags.push(error("unbound placeholder expression", *pos));
                    let r = Node::Fragment(Fragment { children: Vec::new() });
                    proof {
                        assert(r@ matches NodeView::Fragment(cs) && cs =~= Seq::<
                            NodeView,
                        >::empty());
                        assert(diags_view(diags@) =~= diags_view(diags0) + build_node_spec(
                            sx@,
                            env,
                        ).1);
                    }
                    r
                },
            }
        },
        SyntaxNode::Fragment(cs) => {
            let children = build_children(cs, g, schemas, b, diags);
            let r = Node::Fragment(Fragment { children });
            r
        },
        SyntaxNode::Element(e) => build_element(e, g, schemas, b, diags),
    }
}

/// Builds each child in order, appending diagnostics in document order.
pub fn build_children(
    cs: &Vec<SyntaxNode>,
    g: &GrammarTable,
    schemas: Option<&SchemaTable>,
    b: &Bindings,
    diags: &mut Vec<Diagnostic>,
) -> (r: Vec<Node>)
    ensures
        crate::node::nodes_view(r@) == build_seq_spec(
            syntax_seq_view(cs@),
            mk_env(g@, opt_table_view(schemas), b@),
            0,
        ).0,
        diags_view(final(diags)@) == diags_view(old(diags)@) + build_seq_spec(
            syntax_seq_view(cs@),
            mk_env(g@, opt_table_view(schemas), b@),
            0,
        ).1,
    decreases cs@,
{
    let ghost env = mk_env(g@, opt_table_view(schemas), b@);
    let ghost sv = syntax_seq_view(cs@);
    proof {
        lemma_syntax_seq_view(cs@);
    }
    let mut out: Vec<Node> = Vec::new();
    let mut i: usize = 0;
    while i < cs.len()
        invariant
            i <= cs@.len(),
            env == mk_env(g@, opt_table_view(schemas), b@),
            sv == syntax_seq_view(cs@),
            sv.len() == cs@.len(),
            forall|j: int| 0 <= j < cs@.len() ==> #[trigger] sv[j] == cs@[j]@,
            crate::node::nodes_view(out@) + build_seq_spec(sv, env, i as int).0 == build_seq_spec(
                sv,
                env,
                0,
            ).0,
            diags_view(diags@) + build_seq_spec(sv, env, i as int).1 == diags_view(
                old(diags)@,
            ) + build_seq_spec(sv, env, 0).1,
        decreases cs@.len() - i,
    {
        let ghost out0 = out@;
        let n = build_node(&cs[i], g, schemas, b, diags);
        out.push(n);
        proof {
            crate::node::lemma_nodes_view(out0);
            crate::node::lemma_nodes_view(out@);
            assert(crate::node::nodes_view(out@) =~= crate::node::nodes_view(out0).push(n@));
            assert(crate::node::nodes_view(out@) + build_seq_spec(sv, env, i + 1 as int).0
                =~= build_seq_spec(sv, env, 0).0);
            assert(diags_view(diags@) + build_seq_spec(sv, env, i + 1 as int).1 =~= diags_view(
                old(diags)@,
            ) + build_seq_spec(sv, env, 0).1);
        }
        i = i + 1;
    }
    proof {
        assert(crate::node::nodes_view(out@) =~= crate::node::nodes_view(out@) + build_seq_spec(
            sv,
            env,
            cs@.len() as int,
        ).0);
        assert(diags_view(diags@) =~= diags_view(diags@) + build_seq_spec(
            sv,
            env,
            cs@.len() as int,
        ).1);
    }
    out
}

/// Builds one element: attributes under the schema (typed mode) or as
/// written (untyped), then children under the void-element rule.
pub fn build_element(
    e: &SyntaxElement,
    g: &GrammarTable,
    schemas: Option<&SchemaTable>,
    b: &Bindings,
    diags: &mut Vec<Diagnostic>,
) -> (r: Node)
    ensures
        r@ == build_element_spec(e@, mk_env(g@, opt_table_view(schemas), b@)).0,
        diags_view(final(diags)@) == diags_view(old(diags)@) + build_element_spec(
            e@,
            mk_env(g@, opt_table_view(schemas), b@),
        ).1,
    decreases *e, 1int,
{
    let ghost env = mk_env(g@, opt_table_view(schemas), b@);
    let ghost a = element_attrs_spec(env, e@);
    let mut attr_out: Vec<(String, Option<String>)> = Vec::new();
    proof {
        assert(attrs_view(attr_out@) =~= Seq::<(Seq<char>, Option<Seq<char>>)>::empty());
    }
    match schemas {
        None => {
            untyped_attrs(b, &e.attributes, &mut attr_out, diags);
        },
        Some(table) => {
            match table.find_schema(e.name.as_str()) {
                Some(schema) => {
                    typed_attrs(schema, table, b, &e.attributes, &mut attr_out, diags);
                },
                None => {
                    let ghost diags0 = diags@;
                    diags.push(error("no schema registered for element", e.pos));
                    proof {
                        assert(diags_view(diags@) =~= diags_view(diags0) + seq![
                            error_view("no schema registered for element"@, e@.pos),
                        ]);
                    }
                    untyped_attrs(b, &e.attributes, &mut attr_out, diags);
                },
            }
        },
    }
    proof {
        assert(attrs_view(attr_out@) =~= a.0);
        assert(diags_view(diags@) =~= diags_view(old(diags)@) + a.1);
    }
    let ghost diags_after_attrs = diags@;
    if g.is_void(e.name.as_str()) {
        if e.children.len() > 0 {
            diags.push(warning("void elements' children will be ignored", e.pos));
            proof {
                assert(e@.children.len() == e.children@.len()) by {
                    crate::syntax::lemma_syntax_seq_view(e.children@);
                }
                let w = warning_view("void elements' children will be ignored"@, e@.pos);
                assert(diags_view(diags@) =~= diags_view(diags_after_attrs) + seq![w]);
                assert(build_element_spec(e@, env).1 == a.1 + seq![w]);
                assert(diags_view(diags@) =~= diags_view(old(diags)@) + build_element_spec(
                    e@,
                    env,
                ).1);
            }
        } else {
            proof {
                assert(e@.children.len() == e.children@.len()) by {
                    crate::syntax::lemma_syntax_seq_view(e.children@);
                }
                assert(diags_view(diags@) =~= diags_view(old(diags)@) + build_element_spec(
                    e@,
                    env,
                ).1);
            }
        }
        let r = Node::Element(
            Element { name: e.name.clone(), attributes: attr_out, children: None },
        );
        proof {
            assert(r@ == build_element_spec(e@, env).0);
        }
        r
    } else {
        let children = build_children(&e.children, g, schemas, b, diags);
        let r = Node::Element(
            Element { name: e.name.clone(), attributes: attr_out, children: Some(children) },
        );
        proof {
            assert(r@ == build_element_spec(e@, env).0);
            assert(diags_view(diags@) =~= diags_view(old(diags)@) + build_element_spec(
                e@,
                env,
            ).1);
        }
        r
    }
}

/// Builds a list of parsed nodes into document nodes plus diagnostics.
pub fn build_nodes(
    nodes: &Vec<SyntaxNode>,
    g: &GrammarTable,
    schemas: Option<&SchemaTable>,
    b: &Bindings,
) -> (r: (Vec<Node>, Vec<Diagnostic>))
    ensures
        crate::node::nodes_view(r.0@) == build_seq_spec(
            syntax_seq_view(nodes@),
            mk_env(g@, opt_table_view(schemas), b@),
            0,
        ).0,
        diags_view(r.1@) == build_seq_spec(
            syntax_seq_view(nodes@),
            mk_env(g@, opt_table_view(schemas), b@),
            0,
        ).1,
{
    let mut diags: Vec<Diagnostic> = Vec::new();
    proof {
        assert(diags_view(diags@) =~= Seq::<DiagnosticView>::empty());
    }
    let out = build_children(nodes, g, schemas, b, &mut diags);
    proof {
        assert(diags_view(diags@) =~= build_seq_spec(
            syntax_seq_view(nodes@),
            mk_env(g@, opt_table_view(schemas), b@),
            0,
        ).1);
    }
    (out, diags)
}

/// Builds a whole template: one produced node stands by itself, any other
/// number is wrapped in a fragment.
pub fn build_template(
    nodes: &Vec<SyntaxNode>,
    g: &GrammarTable,
    schemas: Option<&SchemaTable>,
    b: &Bindings,
) -> (r: (Node, Vec<Diagnostic>))
    ensures
        r.0@ == build_template_spec(
            syntax_seq_view(nodes@),
            mk_env(g@, opt_table_view(schemas), b@),
        ).0,
        diags_view(r.1@) == build_template_spec(
            syntax_seq_view(nodes@),
            mk_env(g@, opt_table_view(schemas), b@),
        ).1,
{
    let ghost env = mk_env(g@, opt_table_view(schemas), b@);
    let (mut ns, diags) = build_nodes(nodes, g, schemas, b);
    proof {
        crate::node::lemma_nodes_view(ns@);
    }
    if ns.len() == 1 {
        let n = ns.pop().unwrap();
        proof {
            assert(n@ == build_seq_spec(syntax_seq_view(nodes@), env, 0).0[0]);
        }
        (n, diags)
    } else {
        let r = Node::Fragment(Fragment { children: ns });
        (r, diags)
    }
}

/// Whether every element of the tree obeys the void rule: an element
/// carrying a name from the void set has `children` of `None`.
pub open spec fn tree_void_ok(voids: Seq<Seq<char>>, n: NodeView) -> bool
    decreases n, 0int,
{
    match n {
        NodeView::Element(e) => (name_in(voids, e.name) ==> e.children is None) && (match e
            .children {
            Some(cs) => seq_void_ok(voids, cs, 0),
            None => true,
        }),
        NodeView::Fragment(cs) => seq_void_ok(voids, cs, 0),
        _ => true,
    }
}

/// Whether every element in the sequence from position `i` on obeys the
/// void rule.
pub open spec fn seq_void_ok(voids: Seq<Seq<char>>, cs: Seq<NodeView>, i: int) -> bool
    decreases cs, cs.len() - i + 1int,
{
    if i < 0 || i >= cs.len() {
        true
    } else {
        tree_void_ok(voids, cs[i]) && seq_void_ok(voids, cs, i + 1)
    }
}

/// Whether every bound node obeys the void rule.
pub open spec fn bindings_void_ok(voids: Seq<Seq<char>>, b: BindingsView) -> bool {
    forall|j: int|
        0 <= j < b.nodes.len() ==> tree_void_ok(voids, #[trigger] b.nodes[j].1)
}

/// The void-element invariant: whatever the template said, every element
/// the builder produces whose name is in the void set has `children` of
/// `None`, provided the substituted bindings obey the same rule.
pub proof fn lemma_build_void_ok(sx: SyntaxView, env: BuildEnv)
    requires
        bindings_void_ok(env.voids, env.bindings),
    ensures
        tree_void_ok(env.voids, build_node_spec(sx, env).0),
    decreases sx, 0int,
{
    match sx {
        SyntaxView::Block { expr, pos } => {
            lemma_lookup_node_void_ok(env.voids, env.bindings.nodes, expr, 0);
        },
        SyntaxView::Fragment(cs) => {
            lemma_build_seq_void_ok(cs, env, 0);
        },
        SyntaxView::Element(e) => {
            lemma_build_element_void_ok(e, env);
        },
        _ => {},
    }
}

proof fn lemma_lookup_node_void_ok(
    voids: Seq<Seq<char>>,
    bs: Seq<(Seq<char>, NodeView)>,
    name: Seq<char>,
    i: int,
)
    requires
        forall|j: int| 0 <= j < bs.len() ==> tree_void_ok(voids, #[trigger] bs[j].1),
    ensures
        match lookup_node_from(bs, name, i) {
            Some(nv) => tree_void_ok(voids, nv),
            None => true,
        },
    decreases bs.len() - i,
{
    if i < 0 || i >= bs.len() {
    } else if bs[i].0 == name {
    } else {
        lemma_lookup_node_void_ok(voids, bs, name, i + 1);
    }
}

proof fn lemma_build_element_void_ok(e: SyntaxElementView, env: BuildEnv)
    requires
        bindings_void_ok(env.voids, env.bindings),
    ensures
        tree_void_ok(env.voids, build_element_spec(e, env).0),
    decreases e, 1int,
{
    if name_in(env.voids, e.name) {
    } else {
        lemma_build_seq_void_ok(e.children, env, 0);
    }
}

proof fn lemma_build_seq_void_ok(cs: Seq<SyntaxView>, env: BuildEnv, i: int)
    requires
        bindings_void_ok(env.voids, env.bindings),
    ensures
        seq_void_ok(env.voids, build_seq_spec(cs, env, i).0, 0),
    decreases cs, cs.len() - i + 1int,
{
    if i < 0 || i >= cs.len() {
    } else {
        lemma_build_void_ok(cs[i], env);
        lemma_build_seq_void_ok(cs, env, i + 1);
        let h = build_node_spec(cs[i], env);
        let rest = build_seq_spec(cs, env, i + 1);
        lemma_seq_void_ok_cons(env.voids, h.0, rest.0);
    }
}

proof fn lemma_seq_void_ok_cons(voids: Seq<Seq<char>>, h: NodeView, rest: Seq<NodeView>)
    requires
        tree_void_ok(voids, h),
        seq_void_ok(voids, rest, 0),
    ensures
        seq_void_ok(voids, seq![h] + rest, 0),
{
    lemma_seq_void_ok_shift(voids, seq![h] + rest, rest, 1);
}

proof fn lemma_seq_void_ok_shift(
    voids: Seq<Seq<char>>,
    cs: Seq<NodeView>,
    rest: Seq<NodeView>,
    i: int,
)
    requires
        0 <= i <= cs.len(),
        rest =~= cs.subrange(i, cs.len() as int),
        seq_void_ok(voids, rest, 0),
        forall|j: int| 0 <= j < i ==> tree_void_ok(voids, #[trigger] cs[j]),
    ensures
        seq_void_ok(voids, cs, 0),
    decreases cs.len(),
{
    lemma_seq_void_ok_unpack(voids, rest, 0);
    assert forall|j: int| 0 <= j < cs.len() implies tree_void_ok(voids, #[trigger] cs[j]) by {
        if j >= i {
            assert(rest[j - i] == cs[j]);
        }
    }
    lemma_seq_void_ok_pack(voids, cs, 0);
}

proof fn lemma_seq_void_ok_unpack(voids: Seq<Seq<char>>, cs: Seq<NodeView>, i: int)
    requires
        0 <= i <= cs.len(),
        seq_void_ok(voids, cs, i),
    ensures
        forall|j: int| i <= j < cs.len() ==> tree_void_ok(voids, #[trigger] cs[j]),
    decreases cs.len() - i,
{
    if i < cs.len() {
        lemma_seq_void_ok_unpack(voids, cs, i + 1);
    }
}

proof fn lemma_seq_void_ok_pack(voids: Seq<Seq<char>>, cs: Seq<NodeView>, i: int)
    requires
        0 <= i <= cs.len(),
        forall|j: int| i <= j < cs.len() ==> tree_void_ok(voids, #[trigger] cs[j]),
    ensures
        seq_void_ok(voids, cs, i),
    decreases cs.len() - i,
{
    if i < cs.len() {
        lemma_seq_void_ok_pack(voids, cs, i + 1);
    }
}

/// The void-element invariant for a whole template build: with bindings
/// that obey the void rule, the produced tree obeys it too, whether the
/// template yielded one node or a wrapping fragment.
pub proof fn lemma_build_template_void_ok(cs: Seq<SyntaxView>, env: BuildEnv)
    requires
        bindings_void_ok(env.voids, env.bindings),
    ensures
        tree_void_ok(env.voids, build_template_spec(cs, env).0),
{
    lemma_build_seq_void_ok(cs, env, 0);
    let r = build_seq_spec(cs, env, 0);
    if r.0.len() == 1 {
        lemma_seq_void_ok_unpack(env.voids, r.0, 0);
    }
}

/// How many warnings a diagnostic list holds, from position `i` on.
pub open spec fn warning_count(ds: Seq<DiagnosticView>, i: int) -> int
    decreases ds.len() - i,
{
    if i < 0 || i >= ds.len() {
        0
    } else {
        (if ds[i].severity == crate::diag::Severity::Warning {
            1int
        } else {
            0int
        }) + warning_count(ds, i + 1)
    }
}

/// Whether every record in the list is an error.
pub open spec fn all_errors(ds: Seq<DiagnosticView>) -> bool {
    forall|k: int|
        0 <= k < ds.len() ==> #[trigger] ds[k].severity == crate::diag::Severity::Error
}

proof fn lemma_untyped_attrs_all_errors(b: BindingsView, attrs: Seq<SyntaxAttrView>, i: int)
    ensures
        all_errors(untyped_attrs_from(b, attrs, i).1),
    decreases attrs.len() - i,
{
    if i < 0 || i >= attrs.len() {
    } else {
        lemma_untyped_attrs_all_errors(b, attrs, i + 1);
    }
}

proof fn lemma_typed_step_all_errors(
    schema: SchemaView,
    table: SchemaTableView,
    b: BindingsView,
    attr: SyntaxAttrView,
    slots: Seq<Option<Option<Seq<char>>>>,
    ext: Seq<(Seq<char>, Option<Seq<char>>)>,
)
    ensures
        all_errors(typed_attr_step(schema, table, b, attr, slots, ext).2),
{
}

proof fn lemma_typed_attrs_all_errors(
    schema: SchemaView,
    table: SchemaTableView,
    b: BindingsView,
    attrs: Seq<SyntaxAttrView>,
    i: int,
    slots: Seq<Option<Option<Seq<char>>>>,
    ext: Seq<(Seq<char>, Option<Seq<char>>)>,
)
    ensures
        all_errors(typed_attrs_from(schema, table, b, attrs, i, slots, ext).2),
    decreases attrs.len() - i,
{
    if i < 0 || i >= attrs.len() {
    } else {
        let st = typed_attr_step(schema, table, b, attrs[i], slots, ext);
        lemma_typed_step_all_errors(schema, table, b, attrs[i], slots, ext);
        lemma_typed_attrs_all_errors(schema, table, b, attrs, i + 1, st.0, st.1);
    }
}

proof fn lemma_element_attrs_all_errors(env: BuildEnv, e: SyntaxElementView)
    ensures
        all_errors(element_attrs_spec(env, e).1),
{
    match env.schemas {
        None => {
            lemma_untyped_attrs_all_errors(env.bindings, e.attributes, 0);
        },
        Some(t) => {
            match find_schema_spec(t, e.name) {
                Some(schema) => {
                    lemma_typed_attrs_all_errors(
                        schema,
                        t,
                        env.bindings,
                        e.attributes,
                        0,
                        empty_slots(schema.fields.len() as int),
                        Seq::empty(),
                    );
                },
                None => {
                    lemma_untyped_attrs_all_errors(env.bindings, e.attributes, 0);
                },
            }
        },
    }
}

proof fn lemma_warning_count_all_errors(ds: Seq<DiagnosticView>, i: int)
    requires
        all_errors(ds),
        0 <= i <= ds.len(),
    ensures
        warning_count(ds, i) == 0,
    decreases ds.len() - i,
{
    if i < ds.len() {
        lemma_warning_count_all_errors(ds, i + 1);
    }
}

proof fn lemma_warning_count_append(a: Seq<DiagnosticView>, b: Seq<DiagnosticView>, i: int)
    requires
        0 <= i <= a.len(),
    ensures
        warning_count(a + b, i) == warning_count(a, i) + warning_count(b, 0),
    decreases a.len() + b.len() - i,
{
    if i < a.len() {
        lemma_warning_count_append(a, b, i + 1);
        assert((a + b)[i] == a[i]);
    } else {
        lemma_warning_count_tail(a, b, 0);
        assert(warning_count(a, i) == 0);
    }
}

proof fn lemma_warning_count_tail(a: Seq<DiagnosticView>, b: Seq<DiagnosticView>, j: int)
    requires
        0 <= j <= b.len(),
    ensures
        warning_count(a + b, a.len() + j) == warning_count(b, j),
    decreases b.len() - j,
{
    if j < b.len() {
        lemma_warning_count_tail(a, b, j + 1);
        assert((a + b)[a.len() + j] == b[j]);
    }
}

/// The void-element warning discipline: building an element whose name is
/// in the void set always yields `children` of `None`, and yields exactly
/// one structural warning when the source supplied children - none
/// otherwise.  Every other diagnostic of the element's own build is an
/// error.
pub proof fn lemma_void_element_build(e: SyntaxElementView, env: BuildEnv)
    requires
        name_in(env.voids, e.name),
    ensures
        build_element_spec(e, env).0 matches NodeView::Element(ev) && ev.children is None
            && ev.name == e.name,
        warning_count(build_element_spec(e, env).1, 0) == (if e.children.len() > 0 {
            1int
        } else {
            0int
        }),
{
    let a = element_attrs_spec(env, e);
    lemma_element_attrs_all_errors(env, e);
    lemma_warning_count_all_errors(a.1, 0);
    if e.children.len() > 0 {
        let w = seq![warning_view("void elements' children will be ignored"@, e.pos)];
        lemma_warning_count_append(a.1, w, 0);
        assert(warning_count(w, 1) == 0);
        assert(warning_count(w, 0) == 1);
    } else {
        let w: Seq<DiagnosticView> = Seq::empty();
        lemma_warning_count_append(a.1, w, 0);
        assert(warning_count(w, 0) == 0);
    }
}

/// Schema rejection: an attribute key that matches neither a declared
/// field of the schema (after hyphen normalization) nor a registered
/// extension prefix, under a schema that is not a catch-all, draws exactly
/// one error diagnostic and leaves both the field slots and the extension
/// list untouched - so no entry for it can reach the rendered attribute
/// list.
pub proof fn lemma_schema_rejection(
    schema: SchemaView,
    table: SchemaTableView,
    b: BindingsView,
    key: Seq<char>,
    value: AttrValueView,
    pos: int,
    slots: Seq<Option<Option<Seq<char>>>>,
    ext: Seq<(Seq<char>, Option<Seq<char>>)>,
)
    requires
        !crate::schema::is_extension_key_spec(table, key),
        find_field_spec(schema, underscored(key)) is None,
        !schema.catch_all,
    ensures
        ({
            let st = typed_attr_step(
                schema,
                table,
                b,
                SyntaxAttrView::Keyed { key, value, pos },
                slots,
                ext,
            );
            st.0 == slots && st.1 == ext && st.2.len() == 1 && st.2[0].severity
                == crate::diag::Severity::Error
        }),
{
}

} // verus!
