//! The standard schema registry: an attribute schema per HTML element
//! name, each carrying the global-attribute baseline plus the element's
//! own fields, with `data` and `aria` registered as extension prefixes.
//! [`standard_schemas_view`] is the registry's mathematical value, and
//! [`standard_schemas`] is proved to return exactly that table.

use vstd::prelude::*;

use crate::schema::{Schema, SchemaField, SchemaFieldView, SchemaTable, SchemaTableView,
    SchemaView, ValueKind};

verus! {

/// A text field of the given name.
pub open spec fn text_field(name: Seq<char>) -> SchemaFieldView {
    SchemaFieldView { name, kind: ValueKind::Text }
}

/// An integer field of the given name.
pub open spec fn int_field(name: Seq<char>) -> SchemaFieldView {
    SchemaFieldView { name, kind: ValueKind::Int }
}

/// The global-attribute baseline shared by every standard schema, in
/// declaration order.
pub open spec fn global_baseline() -> Seq<SchemaFieldView> {
    seq![
        text_field("accesskey"@),
        text_field("autocapitalize"@),
        text_field("autofocus"@),
        text_field("class"@),
        text_field("contenteditable"@),
        text_field("dir"@),
        text_field("draggable"@),
        text_field("enterkeyhint"@),
        text_field("exportparts"@),
        text_field("hidden"@),
        text_field("id"@),
        text_field("inert"@),
        text_field("inputmode"@),
        text_field("is"@),
        text_field("itemid"@),
        text_field("itemprop"@),
        text_field("itemref"@),
        text_field("itemscope"@),
        text_field("itemtype"@),
        text_field("lang"@),
        text_field("nonce"@),
        text_field("part"@),
        text_field("popover"@),
        text_field("role"@),
        text_field("slot"@),
        text_field("spellcheck"@),
        text_field("style"@),
        int_field("tabindex"@),
        text_field("title"@),
        text_field("translate"@),
        text_field("virtualkeyboardpolicy"@),
    ]
}

/// Whether a schema starts with the global-attribute baseline.
pub open spec fn has_global_baseline(s: SchemaView) -> bool {
    s.fields.len() >= global_baseline().len() && forall|k: int|
        0 <= k < global_baseline().len() ==> #[trigger] s.fields[k] == global_baseline()[k]
}

/// A standard schema: the global baseline, then the element's own fields.
pub open spec fn std_schema(name: Seq<char>, extra: Seq<SchemaFieldView>) -> SchemaView {
    SchemaView { element: name, fields: global_baseline() + extra, catch_all: false }
}

/// The document-level schemas: the root, metadata and raw-text elements.
pub open spec fn document_schemas_view() -> Seq<SchemaView> {
    seq![
        std_schema("html"@, seq![text_field("xmlns"@)]),
        std_schema("head"@, Seq::empty()),
        std_schema("title"@, Seq::empty()),
        std_schema("body"@, Seq::empty()),
        std_schema(
            "meta"@,
            seq![
                text_field("charset"@),
                text_field("content"@),
                text_field("http_equiv"@),
                text_field("name"@),
            ],
        ),
        std_schema(
            "link"@,
            seq![
                text_field("href"@),
                text_field("rel"@),
                text_field("type"@),
                text_field("media"@),
            ],
        ),
        std_schema(
            "script"@,
            seq![
                text_field("src"@),
                text_field("type"@),
                text_field("async"@),
                text_field("defer"@),
            ],
        ),
        std_schema("style"@, seq![text_field("media"@)]),
    ]
}

/// The grouping and sectioning schemas.
pub open spec fn grouping_schemas_view() -> Seq<SchemaView> {
    seq![
        std_schema("div"@, Seq::empty()),
        std_schema("span"@, Seq::empty()),
        std_schema("p"@, Seq::empty()),
        std_schema("h1"@, Seq::empty()),
        std_schema("h2"@, Seq::empty()),
        std_schema("h3"@, Seq::empty()),
        std_schema("h4"@, Seq::empty()),
        std_schema("h5"@, Seq::empty()),
        std_schema("h6"@, Seq::empty()),
        std_schema("header"@, Seq::empty()),
        std_schema("footer"@, Seq::empty()),
        std_schema("main"@, Seq::empty()),
        std_schema("nav"@, Seq::empty()),
        std_schema("section"@, Seq::empty()),
        std_schema("article"@, Seq::empty()),
        std_schema("aside"@, Seq::empty()),
        std_schema("figure"@, Seq::empty()),
        std_schema("figcaption"@, Seq::empty()),
        std_schema("blockquote"@, seq![text_field("cite"@)]),
        std_schema("pre"@, Seq::empty()),
        std_schema("code"@, Seq::empty()),
    ]
}

/// The inline-text, rule and list schemas.
pub open spec fn inline_list_schemas_view() -> Seq<SchemaView> {
    seq![
        std_schema("em"@, Seq::empty()),
        std_schema("strong"@, Seq::empty()),
        std_schema("b"@, Seq::empty()),
        std_schema("i"@, Seq::empty()),
        std_schema("u"@, Seq::empty()),
        std_schema("small"@, Seq::empty()),
        std_schema("br"@, Seq::empty()),
        std_schema("hr"@, Seq::empty()),
        std_schema("wbr"@, Seq::empty()),
        std_schema("ul"@, Seq::empty()),
        std_schema(
            "ol"@,
            seq![text_field("reversed"@), int_field("start"@), text_field("type"@)],
        ),
        std_schema("li"@, seq![int_field("value"@)]),
        std_schema(
            "a"@,
            seq![
                text_field("download"@),
                text_field("href"@),
                text_field("hreflang"@),
                text_field("ping"@),
                text_field("referrerpolicy"@),
                text_field("rel"@),
                text_field("target"@),
                text_field("type"@),
            ],
        ),
    ]
}

/// The media, form and table schemas.
pub open spec fn form_table_schemas_view() -> Seq<SchemaView> {
    seq![
        std_schema(
            "img"@,
            seq![
                text_field("src"@),
                text_field("alt"@),
                int_field("width"@),
                int_field("height"@),
                text_field("loading"@),
            ],
        ),
        std_schema(
            "input"@,
            seq![
                text_field("accept"@),
                text_field("alt"@),
                text_field("autocomplete"@),
                text_field("checked"@),
                text_field("disabled"@),
                text_field("form"@),
                text_field("list"@),
                text_field("max"@),
                int_field("maxlength"@),
                text_field("min"@),
                int_field("minlength"@),
                text_field("multiple"@),
                text_field("name"@),
                text_field("pattern"@),
                text_field("placeholder"@),
                text_field("readonly"@),
                text_field("required"@),
                int_field("size"@),
                text_field("src"@),
                text_field("step"@),
                text_field("type"@),
                text_field("value"@),
            ],
        ),
        std_schema("label"@, seq![text_field("for"@)]),
        std_schema(
            "button"@,
            seq![
                text_field("disabled"@),
                text_field("form"@),
                text_field("name"@),
                text_field("type"@),
                text_field("value"@),
            ],
        ),
        std_schema(
            "form"@,
            seq![
                text_field("action"@),
                text_field("enctype"@),
                text_field("method"@),
                text_field("name"@),
                text_field("target"@),
            ],
        ),
        std_schema(
            "select"@,
            seq![
                text_field("disabled"@),
                text_field("multiple"@),
                text_field("name"@),
            ],
        ),
        std_schema(
            "option"@,
            seq![
                text_field("disabled"@),
                text_field("label"@),
                text_field("selected"@),
                text_field("value"@),
            ],
        ),
        std_schema(
            "textarea"@,
            seq![
                int_field("cols"@),
                int_field("rows"@),
                text_field("name"@),
                text_field("placeholder"@),
            ],
        ),
        std_schema("table"@, Seq::empty()),
        std_schema("thead"@, Seq::empty()),
        std_schema("tbody"@, Seq::empty()),
        std_schema("tr"@, Seq::empty()),
        std_schema("td"@, seq![int_field("colspan"@), int_field("rowspan"@)]),
        std_schema(
            "th"@,
            seq![
                int_field("colspan"@),
                int_field("rowspan"@),
                text_field("scope"@),
            ],
        ),
    ]
}

/// The value of the standard schema table: one schema per common HTML
/// element, in registration order, and the `data` and `aria` extension
/// prefixes.
pub open spec fn standard_schemas_view() -> SchemaTableView {
    SchemaTableView {
        schemas: document_schemas_view() + grouping_schemas_view() + inline_list_schemas_view()
            + form_table_schemas_view(),
        prefixes: seq!["data"@, "aria"@],
    }
}

/// Every standard schema starts with the global-attribute baseline.
pub proof fn lemma_std_schema_baseline()
    ensures
        forall|n: Seq<char>, e: Seq<SchemaFieldView>|
            has_global_baseline(#[trigger] std_schema(n, e)),
{
    assert forall|n: Seq<char>, e: Seq<SchemaFieldView>| has_global_baseline(
        #[trigger] std_schema(n, e),
    ) by {
        assert forall|k: int|
            0 <= k < global_baseline().len() implies #[trigger] std_schema(n, e).fields[k]
            == global_baseline()[k] by {
            assert(std_schema(n, e).fields[k] == (global_baseline() + e)[k]);
        }
    }
}

fn field(name: &str, kind: ValueKind) -> (r: SchemaField)
    ensures
        r@.name == name@,
        r@.kind == kind,
{
    SchemaField { name: name.to_owned(), kind }
}

/// The global-attribute baseline shared by every standard schema.
fn global_fields() -> (r: Vec<SchemaField>)
    ensures
        r@.map_values(|f: SchemaField| f@) == global_baseline(),
{
    let mut v: Vec<SchemaField> = Vec::new();
    v.push(field("accesskey", ValueKind::Text));
    v.push(field("autocapitalize", ValueKind::Text));
    v.push(field("autofocus", ValueKind::Text));
    v.push(field("class", ValueKind::Text));
    v.push(field("contenteditable", ValueKind::Text));
    v.push(field("dir", ValueKind::Text));
    v.push(field("draggable", ValueKind::Text));
    v.push(field("enterkeyhint", ValueKind::Text));
    v.push(field("exportparts", ValueKind::Text));
    v.push(field("hidden", ValueKind::Text));
    v.push(field("id", ValueKind::Text));
    v.push(field("inert", ValueKind::Text));
    v.push(field("inputmode", ValueKind::Text));
    v.push(field("is", ValueKind::Text));
    v.push(field("itemid", ValueKind::Text));
    v.push(field("itemprop", ValueKind::Text));
    v.push(field("itemref", ValueKind::Text));
    v.push(field("itemscope", ValueKind::Text));
    v.push(field("itemtype", ValueKind::Text));
    v.push(field("lang", ValueKind::Text));
    v.push(field("nonce", ValueKind::Text));
    v.push(field("part", ValueKind::Text));
    v.push(field("popover", ValueKind::Text));
    v.push(field("role", ValueKind::Text));
    v.push(field("slot", ValueKind::Text));
    v.push(field("spellcheck", ValueKind::Text));
    v.push(field("style", ValueKind::Text));
    v.push(field("tabindex", ValueKind::Int));
    v.push(field("title", ValueKind::Text));
    v.push(field("translate", ValueKind::Text));
    v.push(field("virtualkeyboardpolicy", ValueKind::Text));
    proof {
        assert(v@.map_values(|f: SchemaField| f@) =~~= global_baseline());
    }
    v
}

fn add_schema(table: &mut SchemaTable, name: &str, mut extra: Vec<SchemaField>)
    ensures
        final(table)@.prefixes == old(table)@.prefixes,
        final(table)@.schemas == old(table)@.schemas.push(
            std_schema(name@, extra@.map_values(|f: SchemaField| f@)),
        ),
{
    let ghost ex = extra@;
    let mut fields = global_fields();
    let ghost gl = fields@;
    fields.append(&mut extra);
    let sch = Schema { element: name.to_owned(), fields, catch_all: false };
    proof {
        assert(fields@ =~= gl + ex);
        assert(sch@.fields =~~= global_baseline() + ex.map_values(|f: SchemaField| f@)) by {
            assert forall|k: int| 0 <= k < sch@.fields.len() implies #[trigger] sch@.fields[k]
                == (global_baseline() + ex.map_values(|f: SchemaField| f@))[k] by {
                if k < gl.len() {
                    assert(sch@.fields[k] == gl[k]@);
                    assert(gl.map_values(|f: SchemaField| f@)[k] == gl[k]@);
                } else {
                    assert(sch@.fields[k] == ex[k - gl.len()]@);
                }
            }
        }
        assert(sch@ =~~= std_schema(name@, ex.map_values(|f: SchemaField| f@)));
    }
    table.schemas.push(sch);
    proof {
        assert(table@.prefixes =~= old(table)@.prefixes);
        assert(table@.schemas =~~= old(table)@.schemas.push(
            std_schema(name@, ex.map_values(|f: SchemaField| f@)),
        ));
    }
}

/// A bare catch-all schema under `name`: it forwards every attribute
/// unvalidated, for custom component-like elements.
pub fn catch_all_schema(name: &str) -> (r: Schema)
    ensures
        r@.element == name@,
        r@.catch_all,
        r@.fields.len() == 0,
{
    let r = Schema { element: name.to_owned(), fields: Vec::new(), catch_all: true };
    proof {
        assert(r@.fields =~= Seq::<SchemaFieldView>::empty());
    }
    r
}

/// Registers the document-level schemas.
#[verifier::rlimit(100)]
fn add_document_schemas(t: &mut SchemaTable)
    ensures
        final(t)@.prefixes == old(t)@.prefixes,
        final(t)@.schemas == old(t)@.schemas + document_schemas_view(),
{
    add_schema(t, "html", {
        let mut v: Vec<SchemaField> = Vec::new();
        v.push(field("xmlns", ValueKind::Text));
        v
    });
    add_schema(t, "head", Vec::new());
    add_schema(t, "title", Vec::new());
    add_schema(t, "body", Vec::new());
    add_schema(t, "meta", {
        let mut v: Vec<SchemaField> = Vec::new();
        v.push(field("charset", ValueKind::Text));
        v.push(field("content", ValueKind::Text));
        v.push(field("http_equiv", ValueKind::Text));
        v.push(field("name", ValueKind::Text));
        v
    });
    add_schema(t, "link", {
        let mut v: Vec<SchemaField> = Vec::new();
        v.push(field("href", ValueKind::Text));
        v.push(field("rel", ValueKind::Text));
        v.push(field("type", ValueKind::Text));
        v.push(field("media", ValueKind::Text));
        v
    });
    add_schema(t, "script", {
        let mut v: Vec<SchemaField> = Vec::new();
        v.push(field("src", ValueKind::Text));
        v.push(field("type", ValueKind::Text));
        v.push(field("async", ValueKind::Text));
        v.push(field("defer", ValueKind::Text));
        v
    });
    add_schema(t, "style", {
        let mut v: Vec<SchemaField> = Vec::new();
        v.push(field("media", ValueKind::Text));
        v
    });
    proof {
        assert(t@.schemas =~~= old(t)@.schemas + document_schemas_view());
    }
}

/// Registers the grouping and sectioning schemas.
#[verifier::rlimit(100)]
fn add_grouping_schemas(t: &mut SchemaTable)
    ensures
        final(t)@.prefixes == old(t)@.prefixes,
        final(t)@.schemas == old(t)@.schemas + grouping_schemas_view(),
{
    add_schema(t, "div", Vec::new());
    add_schema(t, "span", Vec::new());
    add_schema(t, "p", Vec::new());
    add_schema(t, "h1", Vec::new());
    add_schema(t, "h2", Vec::new());
    add_schema(t, "h3", Vec::new());
    add_schema(t, "h4", Vec::new());
    add_schema(t, "h5", Vec::new());
    add_schema(t, "h6", Vec::new());
    add_schema(t, "header", Vec::new());
    add_schema(t, "footer", Vec::new());
    add_schema(t, "main", Vec::new());
    add_schema(t, "nav", Vec::new());
    add_schema(t, "section", Vec::new());
    add_schema(t, "article", Vec::new());
    add_schema(t, "aside", Vec::new());
    add_schema(t, "figure", Vec::new());
    add_schema(t, "figcaption", Vec::new());
    add_schema(t, "blockquote", {
        let mut v: Vec<SchemaField> = Vec::new();
        v.push(field("cite", ValueKind::Text));
        v
    });
    add_schema(t, "pre", Vec::new());
    add_schema(t, "code", Vec::new());
    proof {
        assert(t@.schemas =~~= old(t)@.schemas + grouping_schemas_view());
    }
}

/// Registers the inline-text, rule and list schemas.
#[verifier::rlimit(100)]
fn add_inline_list_schemas(t: &mut SchemaTable)
    ensures
        final(t)@.prefixes == old(t)@.prefixes,
        final(t)@.schemas == old(t)@.schemas + inline_list_schemas_view(),
{
    add_schema(t, "em", Vec::new());
    add_schema(t, "strong", Vec::new());
    add_schema(t, "b", Vec::new());
    add_schema(t, "i", Vec::new());
    add_schema(t, "u", Vec::new());
    add_schema(t, "small", Vec::new());
    add_schema(t, "br", Vec::new());
    add_schema(t, "hr", Vec::new());
    add_schema(t, "wbr", Vec::new());
    add_schema(t, "ul", Vec::new());
    add_schema(t, "ol", {
        let mut v: Vec<SchemaField> = Vec::new();
        v.push(field("reversed", ValueKind::Text));
        v.push(field("start", ValueKind::Int));
        v.push(field("type", ValueKind::Text));
        v
    });
    add_schema(t, "li", {
        let mut v: Vec<SchemaField> = Vec::new();
        v.push(field("value", ValueKind::Int));
        v
    });
    add_schema(t, "a", {
        let mut v: Vec<SchemaField> = Vec::new();
        v.push(field("download", ValueKind::Text));
        v.push(field("href", ValueKind::Text));
        v.push(field("hreflang", ValueKind::Text));
        v.push(field("ping", ValueKind::Text));
        v.push(field("referrerpolicy", ValueKind::Text));
        v.push(field("rel", ValueKind::Text));
        v.push(field("target", ValueKind::Text));
        v.push(field("type", ValueKind::Text));
        v
    });
    proof {
        assert(t@.schemas =~~= old(t)@.schemas + inline_list_schemas_view());
    }
}

/// Registers the media, form and table schemas.
#[verifier::rlimit(100)]
fn add_form_table_schemas(t: &mut SchemaTable)
    ensures
        final(t)@.prefixes == old(t)@.prefixes,
        final(t)@.schemas == old(t)@.schemas + form_table_schemas_view(),
{
    add_schema(t, "img", {
        let mut v: Vec<SchemaField> = Vec::new();
        v.push(field("src", ValueKind::Text));
        v.push(field("alt", ValueKind::Text));
        v.push(field("width", ValueKind::Int));
        v.push(field("height", ValueKind::Int));
        v.push(field("loading", ValueKind::Text));
        v
    });
    add_schema(t, "input", {
        let mut v: Vec<SchemaField> = Vec::new();
        v.push(field("accept", ValueKind::Text));
        v.push(field("alt", ValueKind::Text));
        v.push(field("autocomplete", ValueKind::Text));
        v.push(field("checked", ValueKind::Text));
        v.push(field("disabled", ValueKind::Text));
        v.push(field("form", ValueKind::Text));
        v.push(field("list", ValueKind::Text));
        v.push(field("max", ValueKind::Text));
        v.push(field("maxlength", ValueKind::Int));
        v.push(field("min", ValueKind::Text));
        v.push(field("minlength", ValueKind::Int));
        v.push(field("multiple", ValueKind::Text));
        v.push(field("name", ValueKind::Text));
        v.push(field("pattern", ValueKind::Text));
        v.push(field("placeholder", ValueKind::Text));
        v.push(field("readonly", ValueKind::Text));
        v.push(field("required", ValueKind::Text));
        v.push(field("size", ValueKind::Int));
        v.push(field("src", ValueKind::Text));
        v.push(field("step", ValueKind::Text));
        v.push(field("type", ValueKind::Text));
        v.push(field("value", ValueKind::Text));
        v
    });
    add_schema(t, "label", {
        let mut v: Vec<SchemaField> = Vec::new();
        v.push(field("for", ValueKind::Text));
        v
    });
    add_schema(t, "button", {
        let mut v: Vec<SchemaField> = Vec::new();
        v.push(field("disabled", ValueKind::Text));
        v.push(field("form", ValueKind::Text));
        v.push(field("name", ValueKind::Text));
        v.push(field("type", ValueKind::Text));
        v.push(field("value", ValueKind::Text));
        v
    });
    add_schema(t, "form", {
        let mut v: Vec<SchemaField> = Vec::new();
        v.push(field("action", ValueKind::Text));
        v.push(field("enctype", ValueKind::Text));
        v.push(field("method", ValueKind::Text));
        v.push(field("name", ValueKind::Text));
        v.push(field("target", ValueKind::Text));
        v
    });
    add_schema(t, "select", {
        let mut v: Vec<SchemaField> = Vec::new();
        v.push(field("disabled", ValueKind::Text));
        v.push(field("multiple", ValueKind::Text));
        v.push(field("name", ValueKind::Text));
        v
    });
    add_schema(t, "option", {
        let mut v: Vec<SchemaField> = Vec::new();
        v.push(field("disabled", ValueKind::Text));
        v.push(field("label", ValueKind::Text));
        v.push(field("selected", ValueKind::Text));
        v.push(field("value", ValueKind::Text));
        v
    });
    add_schema(t, "textarea", {
        let mut v: Vec<SchemaField> = Vec::new();
        v.push(field("cols", ValueKind::Int));
        v.push(field("rows", ValueKind::Int));
        v.push(field("name", ValueKind::Text));
        v.push(field("placeholder", ValueKind::Text));
        v
    });
    add_schema(t, "table", Vec::new());
    add_schema(t, "thead", Vec::new());
    add_schema(t, "tbody", Vec::new());
    add_schema(t, "tr", Vec::new());
    add_schema(t, "td", {
        let mut v: Vec<SchemaField> = Vec::new();
        v.push(field("colspan", ValueKind::Int));
        v.push(field("rowspan", ValueKind::Int));
        v
    });
    add_schema(t, "th", {
        let mut v: Vec<SchemaField> = Vec::new();
        v.push(field("colspan", ValueKind::Int));
        v.push(field("rowspan", ValueKind::Int));
        v.push(field("scope", ValueKind::Text));
        v
    });
    proof {
        assert(t@.schemas =~~= old(t)@.schemas + form_table_schemas_view());
    }
}

/// The standard schema table, exactly as [`standard_schemas_view`] gives
/// it: one schema per common HTML element, the global-attribute baseline
/// on each, and the `data` and `aria` extension prefixes.
#[verifier::rlimit(100)]
pub fn standard_schemas() -> (r: SchemaTable)
    ensures
        r@ == standard_schemas_view(),
        r@.prefixes == seq!["data"@, "aria"@],
        forall|i: int|
            0 <= i < r@.schemas.len() ==> has_global_baseline(#[trigger] r@.schemas[i]),
{
    let mut t = SchemaTable { schemas: Vec::new(), prefixes: Vec::new() };
    t.prefixes.push("data".to_owned());
    t.prefixes.push("aria".to_owned());
    proof {
        assert(t@.prefixes =~= seq!["data"@, "aria"@]);
        assert(t@.schemas =~= Seq::<SchemaView>::empty());
    }
    add_document_schemas(&mut t);
    add_grouping_schemas(&mut t);
    add_inline_list_schemas(&mut t);
    add_form_table_schemas(&mut t);
    proof {
        assert(t@.schemas =~= standard_schemas_view().schemas);
        assert(t@.prefixes =~= standard_schemas_view().prefixes);
        assert(t@ =~~= standard_schemas_view());
        lemma_std_schema_baseline();
        assert forall|i: int|
            0 <= i < t@.schemas.len() implies has_global_baseline(
            #[trigger] t@.schemas[i],
        ) by {
            let d = document_schemas_view();
            let g = grouping_schemas_view();
            let il = inline_list_schemas_view();
            let ft = form_table_schemas_view();
            if i < d.len() {
                assert(t@.schemas[i] == d[i]);
            } else if i < d.len() + g.len() {
                assert(t@.schemas[i] == g[i - d.len()]);
            } else if i < d.len() + g.len() + il.len() {
                assert(t@.schemas[i] == il[i - d.len() - g.len()]);
            } else {
                assert(t@.schemas[i] == ft[i - d.len() - g.len() - il.len()]);
            }
        }
    }
    t
}

} // verus!
