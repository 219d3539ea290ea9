//! The intermediate syntax tree: what the template parser produces and the
//! tree builder consumes.  It records the surface constructs as written -
//! including embedded-expression placeholders and raw text - before
//! void-element handling, placeholder substitution and schema validation.

use vstd::prelude::*;

verus! {

/// The value position of an attribute as written in the source.
#[derive(Debug)]
pub enum AttrValue {
    /// No value: a bare key.
    Absent,
    /// A quoted (or unquoted) literal value.
    Literal(String),
    /// An embedded-expression placeholder value: `key={name}`.
    Expr(String),
}

/// One attribute as written in the source.
#[derive(Debug)]
pub enum SyntaxAttribute {
    /// `key`, `key="literal"` or `key={name}`.
    Keyed { key: String, value: AttrValue, pos: usize },
    /// `{name}` standing in for a whole key-value pair.
    Block { expr: String, pos: usize },
}

/// An element as written in the source.
#[derive(Debug)]
pub struct SyntaxElement {
    /// The tag name.
    pub name: String,
    /// The attributes, in order of appearance.
    pub attributes: Vec<SyntaxAttribute>,
    /// The children as written.  For a void element this holds whatever
    /// content the author wrongly supplied; the builder drops it with a
    /// warning.
    pub children: Vec<SyntaxNode>,
    /// Whether the tag was written self-closing (`<name/>`).
    pub self_closed: bool,
    /// Character offset of the tag in the template source.
    pub pos: usize,
}

/// One node of the parsed surface syntax.
#[derive(Debug)]
pub enum SyntaxNode {
    /// `<!-- ... -->`
    Comment(String),
    /// `<!DOCTYPE ...>`
    Doctype(String),
    /// `<>...</>`
    Fragment(Vec<SyntaxNode>),
    /// `<name ...>...</name>`
    Element(SyntaxElement),
    /// A plain text run.
    Text(String),
    /// The verbatim body of a raw-text element.
    RawText(String),
    /// `{name}`: an embedded-expression placeholder.
    Block { expr: String, pos: usize },
}

/// The mathematical value of an [`AttrValue`].
pub enum AttrValueView {
    Absent,
    Literal(Seq<char>),
    Expr(Seq<char>),
}

/// The mathematical value of a [`SyntaxAttribute`].
pub enum SyntaxAttrView {
    Keyed { key: Seq<char>, value: AttrValueView, pos: int },
    Block { expr: Seq<char>, pos: int },
}

/// The mathematical value of a [`SyntaxElement`].
pub struct SyntaxElementView {
    pub name: Seq<char>,
    pub attributes: Seq<SyntaxAttrView>,
    pub children: Seq<SyntaxView>,
    pub self_closed: bool,
    pub pos: int,
}

/// The mathematical value of a [`SyntaxNode`].
pub enum SyntaxView {
    Comment(Seq<char>),
    Doctype(Seq<char>),
    Fragment(Seq<SyntaxView>),
    Element(SyntaxElementView),
    Text(Seq<char>),
    RawText(Seq<char>),
    Block { expr: Seq<char>, pos: int },
}

impl View for AttrValue {
    type V = AttrValueView;

    open spec fn view(&self) -> AttrValueView {
        match self {
            AttrValue::Absent => AttrValueView::Absent,
            AttrValue::Literal(s) => AttrValueView::Literal(s@),
            AttrValue::Expr(s) => AttrValueView::Expr(s@),
        }
    }
}

impl View for SyntaxAttribute {
    type V = SyntaxAttrView;

    open spec fn view(&self) -> SyntaxAttrView {
        match self {
            SyntaxAttribute::Keyed { key, value, pos } => SyntaxAttrView::Keyed {
                key: key@,
                value: value@,
                pos: *pos as int,
            },
            SyntaxAttribute::Block { expr, pos } => SyntaxAttrView::Block {
                expr: expr@,
                pos: *pos as int,
            },
        }
    }
}

/// The values of an attribute list.
pub open spec fn syntax_attrs_view(attrs: Seq<SyntaxAttribute>) -> Seq<SyntaxAttrView> {
    attrs.map_values(|a: SyntaxAttribute| a@)
}

/// The value of one syntax node.
pub open spec fn syntax_view(n: SyntaxNode) -> SyntaxView
    decreases n, 0int,
{
    match n {
        SyntaxNode::Comment(s) => SyntaxView::Comment(s@),
        SyntaxNode::Doctype(s) => SyntaxView::Doctype(s@),
        SyntaxNode::Fragment(cs) => SyntaxView::Fragment(syntax_seq_view_from(cs@, 0)),
        SyntaxNode::Element(e) => SyntaxView::Element(
            SyntaxElementView {
                name: e.name@,
                attributes: syntax_attrs_view(e.attributes@),
                children: syntax_seq_view_from(e.children@, 0),
                self_closed: e.self_closed,
                pos: e.pos as int,
            },
        ),
        SyntaxNode::Text(s) => SyntaxView::Text(s@),
        SyntaxNode::RawText(s) => SyntaxView::RawText(s@),
        SyntaxNode::Block { expr, pos } => SyntaxView::Block { expr: expr@, pos: pos as int },
    }
}

/// The values of the nodes of `s` from position `i` on.
pub open spec fn syntax_seq_view_from(s: Seq<SyntaxNode>, i: int) -> Seq<SyntaxView>
    decreases s, s.len() - i + 1int,
{
    if i < 0 || i >= s.len() {
        Seq::empty()
    } else {
        seq![syntax_view(s[i])] + syntax_seq_view_from(s, i + 1)
    }
}

/// The value of a syntax-node sequence.
pub open spec fn syntax_seq_view(s: Seq<SyntaxNode>) -> Seq<SyntaxView> {
    syntax_seq_view_from(s, 0)
}

/// `syntax_seq_view_from` maps positionally.
pub proof fn lemma_syntax_seq_view_from(s: Seq<SyntaxNode>, i: int)
    requires
        0 <= i <= s.len(),
    ensures
        syntax_seq_view_from(s, i).len() == s.len() - i,
        forall|j: int|
            i <= j < s.len() ==> #[trigger] syntax_seq_view_from(s, i)[j - i] == syntax_view(
                s[j],
            ),
    decreases s.len() - i,
{
    if i < s.len() {
        lemma_syntax_seq_view_from(s, i + 1);
        assert forall|j: int|
            i <= j < s.len() implies #[trigger] syntax_seq_view_from(s, i)[j - i]
            == syntax_view(s[j]) by {
            if j > i {
                assert(syntax_seq_view_from(s, i)[j - i] == syntax_seq_view_from(s, i + 1)[j - (
                i + 1
                )]);
            }
        }
    }
}

/// The view of a syntax-node sequence maps each node to its view.
pub proof fn lemma_syntax_seq_view(s: Seq<SyntaxNode>)
    ensures
        syntax_seq_view(s).len() == s.len(),
        forall|j: int|
            0 <= j < s.len() ==> #[trigger] syntax_seq_view(s)[j] == syntax_view(s[j]),
{
    lemma_syntax_seq_view_from(s, 0);
    assert forall|j: int|
        0 <= j < s.len() implies #[trigger] syntax_seq_view(s)[j] == syntax_view(s[j]) by {
        assert(syntax_seq_view_from(s, 0)[j - 0] == syntax_view(s[j]));
    }
}

/// The view of a concatenation is the concatenation of the views.
pub proof fn lemma_syntax_seq_view_concat(a: Seq<SyntaxNode>, b: Seq<SyntaxNode>)
    ensures
        syntax_seq_view(a + b) == syntax_seq_view(a) + syntax_seq_view(b),
{
    lemma_syntax_seq_view(a);
    lemma_syntax_seq_view(b);
    lemma_syntax_seq_view(a + b);
    assert forall|j: int|
        0 <= j < (a + b).len() implies #[trigger] syntax_seq_view(a + b)[j] == (
        syntax_seq_view(a) + syntax_seq_view(b))[j] by {
        if j < a.len() {
            assert((a + b)[j] == a[j]);
        } else {
            assert((a + b)[j] == b[j - a.len()]);
        }
    }
    assert(syntax_seq_view(a + b) =~= syntax_seq_view(a) + syntax_seq_view(b));
}

impl View for SyntaxElement {
    type V = SyntaxElementView;

    open spec fn view(&self) -> SyntaxElementView {
        SyntaxElementView {
            name: self.name@,
            attributes: syntax_attrs_view(self.attributes@),
            children: syntax_seq_view(self.children@),
            self_closed: self.self_closed,
            pos: self.pos as int,
        }
    }
}

impl View for SyntaxNode {
    type V = SyntaxView;

    open spec fn view(&self) -> SyntaxView {
        syntax_view(*self)
    }
}

} // verus!
