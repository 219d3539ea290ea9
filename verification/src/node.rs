//! The node data model: an HTML document tree of comments, doctypes,
//! fragments, elements, text and unsafe (unescaped) text.

use vstd::prelude::*;

verus! {

/// A comment.
///
/// ```html
/// <!-- I'm a comment! -->
/// ```
#[derive(Debug)]
pub struct Comment {
    /// The text of the comment.
    pub comment: String,
}

/// A doctype.
///
/// ```html
/// <!DOCTYPE html>
/// ```
#[derive(Debug)]
pub struct Doctype {
    /// The value of the doctype.
    pub syntax: String,
}

/// A fragment: a childless grouping construct with no tag of its own.
///
/// ```html
/// <>
///     I'm in a fragment!
/// </>
/// ```
#[derive(Debug)]
pub struct Fragment {
    /// The children of the fragment.
    pub children: Vec<Node>,
}

/// An element.
///
/// `children` of `None` denotes a void element: no closing tag is rendered
/// and content is structurally forbidden.  `Some` with an empty list denotes
/// an ordinary element with an explicit close tag and no content.
#[derive(Debug)]
pub struct Element {
    /// The name of the element.
    pub name: String,
    /// The attributes of the element, in render order.  Keys are not
    /// deduplicated; insertion order is preserved.
    pub attributes: Vec<(String, Option<String>)>,
    /// The children of the element, or `None` for a void element.
    pub children: Option<Vec<Node>>,
}

/// A text node.  Its content is escaped on render.
#[derive(Debug)]
pub struct Text {
    /// The text of the node.
    pub text: String,
}

/// An unsafe text node.  Its content is rendered verbatim, never escaped,
/// so it can carry markup through untouched — and, misused, can allow for
/// XSS attacks.  Use with caution!
#[derive(Debug)]
pub struct UnsafeText {
    /// The text of the node.
    pub text: String,
}

/// An HTML node.
#[derive(Debug)]
pub enum Node {
    /// A comment.
    Comment(Comment),
    /// A doctype.
    Doctype(Doctype),
    /// A fragment.
    Fragment(Fragment),
    /// An element.
    Element(Element),
    /// A text node, escaped when rendered.
    Text(Text),
    /// An unsafe text node, rendered verbatim.
    UnsafeText(UnsafeText),
}

/// The mathematical value of an [`Element`]: its strings as character
/// sequences and its children as a sequence of node values.
pub struct ElementView {
    pub name: Seq<char>,
    pub attributes: Seq<(Seq<char>, Option<Seq<char>>)>,
    pub children: Option<Seq<NodeView>>,
}

/// The mathematical value of a [`Node`].
pub enum NodeView {
    Comment(Seq<char>),
    Doctype(Seq<char>),
    Fragment(Seq<NodeView>),
    Element(ElementView),
    Text(Seq<char>),
    UnsafeText(Seq<char>),
}

/// The value of an attribute list.
pub open spec fn attrs_view(attrs: Seq<(String, Option<String>)>) -> Seq<
    (Seq<char>, Option<Seq<char>>),
> {
    attrs.map_values(
        |p: (String, Option<String>)|
            (
                p.0@,
                match p.1 {
                    Some(v) => Some(v@),
                    None => None,
                },
            ),
    )
}

/// The value of one node.
pub open spec fn node_view(n: Node) -> NodeView
    decreases n, 0int,
{
    match n {
        Node::Comment(c) => NodeView::Comment(c.comment@),
        Node::Doctype(d) => NodeView::Doctype(d.syntax@),
        Node::Fragment(f) => NodeView::Fragment(nodes_view_from(f.children@, 0)),
        Node::Element(e) => NodeView::Element(
            ElementView {
                name: e.name@,
                attributes: attrs_view(e.attributes@),
                children: match e.children {
                    Some(v) => Some(nodes_view_from(v@, 0)),
                    None => None,
                },
            },
        ),
        Node::Text(t) => NodeView::Text(t.text@),
        Node::UnsafeText(t) => NodeView::UnsafeText(t.text@),
    }
}

/// The values of the nodes of `s` from position `i` on.
pub open spec fn nodes_view_from(s: Seq<Node>, i: int) -> Seq<NodeView>
    decreases s, s.len() - i + 1int,
{
    if i < 0 || i >= s.len() {
        Seq::empty()
    } else {
        seq![node_view(s[i])] + nodes_view_from(s, i + 1)
    }
}

/// The value of a node sequence.
pub open spec fn nodes_view(s: Seq<Node>) -> Seq<NodeView> {
    nodes_view_from(s, 0)
}

/// `nodes_view_from` maps positionally: entry `j - i` is the view of `s[j]`.
pub proof fn lemma_nodes_view_from(s: Seq<Node>, i: int)
    requires
        0 <= i <= s.len(),
    ensures
        nodes_view_from(s, i).len() == s.len() - i,
        forall|j: int|
            i <= j < s.len() ==> #[trigger] nodes_view_from(s, i)[j - i] == node_view(s[j]),
    decreases s.len() - i,
{
    if i < s.len() {
        lemma_nodes_view_from(s, i + 1);
        assert forall|j: int|
            i <= j < s.len() implies #[trigger] nodes_view_from(s, i)[j - i] == node_view(
            s[j],
        ) by {
            if j > i {
                assert(nodes_view_from(s, i)[j - i] == nodes_view_from(s, i + 1)[j - (i + 1)]);
            }
        }
    }
}

/// The view of a node sequence maps each node to its view.
pub proof fn lemma_nodes_view(s: Seq<Node>)
    ensures
        nodes_view(s).len() == s.len(),
        forall|j: int| 0 <= j < s.len() ==> #[trigger] nodes_view(s)[j] == node_view(s[j]),
{
    lemma_nodes_view_from(s, 0);
    assert forall|j: int| 0 <= j < s.len() implies #[trigger] nodes_view(s)[j] == node_view(
        s[j],
    ) by {
        assert(nodes_view_from(s, 0)[j - 0] == node_view(s[j]));
    }
}

impl View for Comment {
    type V = Seq<char>;

    open spec fn view(&self) -> Seq<char> {
        self.comment@
    }
}

impl View for Doctype {
    type V = Seq<char>;

    open spec fn view(&self) -> Seq<char> {
        self.syntax@
    }
}

impl View for Text {
    type V = Seq<char>;

    open spec fn view(&self) -> Seq<char> {
        self.text@
    }
}

impl View for UnsafeText {
    type V = Seq<char>;

    open spec fn view(&self) -> Seq<char> {
        self.text@
    }
}

impl View for Fragment {
    type V = Seq<NodeView>;

    open spec fn view(&self) -> Seq<NodeView> {
        nodes_view(self.children@)
    }
}

impl View for Element {
    type V = ElementView;

    open spec fn view(&self) -> ElementView {
        ElementView {
            name: self.name@,
            attributes: attrs_view(self.attributes@),
            children: match self.children {
                Some(v) => Some(nodes_view(v@)),
                None => None,
            },
        }
    }
}

impl View for Node {
    type V = NodeView;

    open spec fn view(&self) -> NodeView {
        node_view(*self)
    }
}

impl Node {
    /// Borrow the children of the node, if it is an element (with children)
    /// or a fragment.
    pub fn as_children(&self) -> (r: Option<&[Node]>)
        ensures
            match self {
                Node::Fragment(f) => r matches Some(s) && s@ == f.children@,
                Node::Element(e) => match &e.children {
                    Some(v) => r matches Some(s) && s@ == v@,
                    None => r is None,
                },
                _ => r is None,
            },
    {
        match self {
            Node::Fragment(f) => Some(f.children.as_slice()),
            Node::Element(e) => match &e.children {
                Some(v) => Some(v.as_slice()),
                None => None,
            },
            _ => None,
        }
    }

    /// The children of the node as a fresh vector: the element's or
    /// fragment's children where it has them, and nothing otherwise.
    pub fn children_iter(&self) -> (r: Vec<Node>)
        ensures
            match self {
                Node::Fragment(f) => nodes_view(r@) == nodes_view(f.children@),
                Node::Element(e) => match &e.children {
                    Some(v) => nodes_view(r@) == nodes_view(v@),
                    None => r@.len() == 0,
                },
                _ => r@.len() == 0,
            },
    {
        match self.as_children() {
            Some(s) => clone_nodes_of_slice(s),
            None => Vec::new(),
        }
    }

    /// The children of the node, if it is an element (with children) or a
    /// fragment, consuming it.
    pub fn children(self) -> (r: Option<Vec<Node>>)
        ensures
            match self {
                Node::Fragment(f) => r matches Some(v) && v@ == f.children@,
                Node::Element(e) => r == e.children,
                _ => r is None,
            },
    {
        match self {
            Node::Fragment(fragment) => Some(fragment.children),
            Node::Element(element) => element.children,
            _ => None,
        }
    }

    /// The children of the node as a vector, consuming it: the element's or
    /// fragment's children where it has them, and nothing otherwise.
    pub fn into_children(self) -> (r: Vec<Node>)
        ensures
            match self {
                Node::Fragment(f) => r@ == f.children@,
                Node::Element(e) => match e.children {
                    Some(v) => r@ == v@,
                    None => r@.len() == 0,
                },
                _ => r@.len() == 0,
            },
    {
        match self.children() {
            Some(v) => v,
            None => Vec::new(),
        }
    }

    /// Try to get this node as a [`Comment`], if it is one.
    pub fn as_comment(&self) -> (r: Option<&Comment>)
        ensures
            match self {
                Node::Comment(c) => r matches Some(x) && *x == c,
                _ => r is None,
            },
    {
        if let Node::Comment(comment) = self {
            Some(comment)
        } else {
            None
        }
    }

    /// Try to get this node as a [`Doctype`], if it is one.
    pub fn as_doctype(&self) -> (r: Option<&Doctype>)
        ensures
            match self {
                Node::Doctype(d) => r matches Some(x) && *x == d,
                _ => r is None,
            },
    {
        if let Node::Doctype(doctype) = self {
            Some(doctype)
        } else {
            None
        }
    }

    /// Try to get this node as a [`Fragment`], if it is one.
    pub fn as_fragment(&self) -> (r: Option<&Fragment>)
        ensures
            match self {
                Node::Fragment(f) => r matches Some(x) && *x == f,
                _ => r is None,
            },
    {
        if let Node::Fragment(fragment) = self {
            Some(fragment)
        } else {
            None
        }
    }

    /// Try to get this node as an [`Element`], if it is one.
    pub fn as_element(&self) -> (r: Option<&Element>)
        ensures
            match self {
                Node::Element(e) => r matches Some(x) && *x == e,
                _ => r is None,
            },
    {
        if let Node::Element(element) = self {
            Some(element)
        } else {
            None
        }
    }

    /// Try to get this node as a [`Text`], if it is one.
    pub fn as_text(&self) -> (r: Option<&Text>)
        ensures
            match self {
                Node::Text(t) => r matches Some(x) && *x == t,
                _ => r is None,
            },
    {
        if let Node::Text(text) = self {
            Some(text)
        } else {
            None
        }
    }

    /// Try to get this node as an [`UnsafeText`], if it is one.
    pub fn as_unsafe_text(&self) -> (r: Option<&UnsafeText>)
        ensures
            match self {
                Node::UnsafeText(t) => r matches Some(x) && *x == t,
                _ => r is None,
            },
    {
        if let Node::UnsafeText(text) = self {
            Some(text)
        } else {
            None
        }
    }
}

impl Default for Node {
    /// The default node: a fragment with no children.
    fn default() -> (r: Self)
        ensures
            r@ matches NodeView::Fragment(cs) && cs.len() == 0,
    {
        Node::Fragment(Fragment { children: Vec::new() })
    }
}

impl Default for Fragment {
    /// A fragment with no children.
    fn default() -> (r: Self)
        ensures
            r@.len() == 0,
    {
        Fragment { children: Vec::new() }
    }
}

/// Clones one node; the copy has the same value.
pub fn clone_node(n: &Node) -> (r: Node)
    ensures
        r@ == n@,
    decreases *n,
{
    match n {
        Node::Comment(c) => Node::Comment(Comment { comment: c.comment.clone() }),
        Node::Doctype(d) => Node::Doctype(Doctype { syntax: d.syntax.clone() }),
        Node::Fragment(f) => Node::Fragment(Fragment { children: clone_nodes(&f.children) }),
        Node::Element(e) => Node::Element(
            Element {
                name: e.name.clone(),
                attributes: clone_attrs(&e.attributes),
                children: match &e.children {
                    Some(v) => Some(clone_nodes(v)),
                    None => None,
                },
            },
        ),
        Node::Text(t) => Node::Text(Text { text: t.text.clone() }),
        Node::UnsafeText(t) => Node::UnsafeText(UnsafeText { text: t.text.clone() }),
    }
}

/// Clones a vector of nodes elementwise.
pub fn clone_nodes(v: &Vec<Node>) -> (r: Vec<Node>)
    ensures
        nodes_view(r@) == nodes_view(v@),
        r@.len() == v@.len(),
    decreases v@,
{
    let mut out: Vec<Node> = Vec::new();
    let mut i: usize = 0;
    proof {
        lemma_nodes_view(v@);
    }
    while i < v.len()
        invariant
            i <= v@.len(),
            out@.len() == i,
            forall|j: int| 0 <= j < i ==> #[trigger] node_view(out@[j]) == node_view(v@[j]),
        decreases v@.len() - i,
    {
        let c = clone_node(&v[i]);
        out.push(c);
        i = i + 1;
    }
    proof {
        lemma_nodes_view(out@);
        lemma_nodes_view(v@);
        assert(nodes_view(out@) =~= nodes_view(v@));
    }
    out
}

fn clone_nodes_of_slice(v: &[Node]) -> (r: Vec<Node>)
    ensures
        nodes_view(r@) == nodes_view(v@),
        r@.len() == v@.len(),
{
    let mut out: Vec<Node> = Vec::new();
    let mut i: usize = 0;
    while i < v.len()
        invariant
            i <= v@.len(),
            out@.len() == i,
            forall|j: int| 0 <= j < i ==> #[trigger] node_view(out@[j]) == node_view(v@[j]),
        decreases v@.len() - i,
    {
        let c = clone_node(&v[i]);
        out.push(c);
        i = i + 1;
    }
    proof {
        lemma_nodes_view(out@);
        lemma_nodes_view(v@);
        assert(nodes_view(out@) =~= nodes_view(v@));
    }
    out
}

/// Clones an attribute list; the copy has the same value.
pub fn clone_attrs(v: &Vec<(String, Option<String>)>) -> (r: Vec<(String, Option<String>)>)
    ensures
        attrs_view(r@) == attrs_view(v@),
        r@.len() == v@.len(),
{
    let mut out: Vec<(String, Option<String>)> = Vec::new();
    let mut i: usize = 0;
    while i < v.len()
        invariant
            i <= v@.len(),
            out@.len() == i,
            forall|j: int|
                0 <= j < i ==> #[trigger] out@[j].0@ == v@[j].0@ && (match (
                    out@[j].1,
                    v@[j].1,
                ) {
                    (Some(a), Some(b)) => a@ == b@,
                    (None, None) => true,
                    _ => false,
                }),
        decreases v@.len() - i,
    {
        let key = v[i].0.clone();
        let value = match &v[i].1 {
            Some(s) => Some(s.clone()),
            None => None,
        };
        out.push((key, value));
        i = i + 1;
    }
    proof {
        assert(attrs_view(out@) =~= attrs_view(v@));
    }
    out
}

impl Clone for Node {
    /// A deep copy with the same value.
    fn clone(&self) -> (r: Self)
        ensures
            r@ == self@,
    {
        clone_node(self)
    }
}

impl Clone for Fragment {
    /// A deep copy with the same value.
    fn clone(&self) -> (r: Self)
        ensures
            r@ == self@,
    {
        Fragment { children: clone_nodes(&self.children) }
    }
}

impl Clone for Element {
    /// A deep copy with the same value.
    fn clone(&self) -> (r: Self)
        ensures
            r@ == self@,
    {
        Element {
            name: self.name.clone(),
            attributes: clone_attrs(&self.attributes),
            children: match &self.children {
                Some(v) => Some(clone_nodes(v)),
                None => None,
            },
        }
    }
}

impl Clone for Comment {
    /// A copy with the same value.
    fn clone(&self) -> (r: Self)
        ensures
            r@ == self@,
    {
        Comment { comment: self.comment.clone() }
    }
}

impl Clone for Doctype {
    /// A copy with the same value.
    fn clone(&self) -> (r: Self)
        ensures
            r@ == self@,
    {
        Doctype { syntax: self.syntax.clone() }
    }
}

impl Clone for Text {
    /// A copy with the same value.
    fn clone(&self) -> (r: Self)
        ensures
            r@ == self@,
    {
        Text { text: self.text.clone() }
    }
}

impl Clone for UnsafeText {
    /// A copy with the same value.
    fn clone(&self) -> (r: Self)
        ensures
            r@ == self@,
    {
        UnsafeText { text: self.text.clone() }
    }
}

} // verus!
