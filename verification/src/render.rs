//! Compact serialization of the node tree: depth-first, no inserted
//! whitespace, with escaping applied to text and attribute values.

use vstd::prelude::*;

use crate::escape::{attr_escape, escape_attribute_value, escape_text, text_escape};
use crate::node::{attrs_view, lemma_nodes_view, nodes_view, ElementView, Node, NodeView};

verus! {

/// What one attribute renders to: a leading space, the key, and - when a
/// value is present - `="` then the escaped value then `"`.
pub open spec fn render_attr_spec(attr: (Seq<char>, Option<Seq<char>>)) -> Seq<char> {
    " "@ + attr.0 + (match attr.1 {
        None => Seq::<char>::empty(),
        Some(v) => "=\""@ + attr_escape(v) + "\""@,
    })
}

/// The rendering of an attribute list from position `i` on, in list order.
pub open spec fn render_attrs_spec(
    attrs: Seq<(Seq<char>, Option<Seq<char>>)>,
    i: int,
) -> Seq<char>
    decreases attrs.len() - i,
{
    if i < 0 || i >= attrs.len() {
        Seq::empty()
    } else {
        render_attr_spec(attrs[i]) + render_attrs_spec(attrs, i + 1)
    }
}

/// An element's open tag: `<name attrs>`.
pub open spec fn open_tag_spec(e: ElementView) -> Seq<char> {
    "<"@ + e.name + render_attrs_spec(e.attributes, 0) + ">"@
}

/// An element's close tag: `</name>`.
pub open spec fn close_tag_spec(name: Seq<char>) -> Seq<char> {
    "</"@ + name + ">"@
}

/// The compact rendering of one node.
pub open spec fn render_spec(n: NodeView) -> Seq<char>
    decreases n, 0int,
{
    match n {
        NodeView::Comment(t) => "<!-- "@ + t + " -->"@,
        NodeView::Doctype(t) => "<!DOCTYPE "@ + t + ">"@,
        NodeView::Fragment(cs) => render_nodes_spec(cs, 0),
        NodeView::Element(e) => open_tag_spec(e) + (match e.children {
            None => Seq::<char>::empty(),
            Some(cs) => render_nodes_spec(cs, 0) + close_tag_spec(e.name),
        }),
        NodeView::Text(t) => text_escape(t),
        NodeView::UnsafeText(t) => t,
    }
}

/// The back-to-back compact rendering of a node sequence from position `i`.
pub open spec fn render_nodes_spec(cs: Seq<NodeView>, i: int) -> Seq<char>
    decreases cs, cs.len() - i + 1int,
{
    if i < 0 || i >= cs.len() {
        Seq::empty()
    } else {
        render_spec(cs[i]) + render_nodes_spec(cs, i + 1)
    }
}

impl Node {
    /// Renders the node as compact HTML: no whitespace is inserted beyond
    /// what the tree's own text holds.
    pub fn to_string(&self) -> (r: String)
        ensures
            r@ == render_spec(self@),
    {
        let mut out = String::new();
        render_into(self, &mut out);
        proof {
            assert(out@ =~= render_spec(self@));
        }
        out
    }
}

/// Appends the compact rendering of `n` to `out`.
pub fn render_into(n: &Node, out: &mut String)
    ensures
        final(out)@ == old(out)@ + render_spec(n@),
    decreases *n,
{
    match n {
        Node::Comment(c) => {
            out.append("<!-- ");
            out.append(c.comment.as_str());
            out.append(" -->");
            proof {
                assert(out@ =~= old(out)@ + render_spec(n@));
            }
        },
        Node::Doctype(d) => {
            out.append("<!DOCTYPE ");
            out.append(d.syntax.as_str());
            out.append(">");
            proof {
                assert(out@ =~= old(out)@ + render_spec(n@));
            }
        },
        Node::Text(t) => {
            let e = escape_text(t.text.as_str());
            out.append(e.as_str());
        },
        Node::UnsafeText(t) => {
            out.append(t.text.as_str());
        },
        Node::Fragment(f) => {
            write_children(out, &f.children);
        },
        Node::Element(e) => {
            write_open_tag(out, &e.name, &e.attributes);
            match &e.children {
                None => {
                    proof {
                        assert(out@ =~= old(out)@ + render_spec(n@));
                    }
                },
                Some(v) => {
                    write_children(out, v);
                    out.append("</");
                    out.append(e.name.as_str());
                    out.append(">");
                    proof {
                        assert(out@ =~= old(out)@ + render_spec(n@));
                    }
                },
            }
        },
    }
}

/// Appends the compact renderings of the children, back to back and in
/// order.
pub fn write_children(out: &mut String, children: &Vec<Node>)
    ensures
        final(out)@ == old(out)@ + render_nodes_spec(nodes_view(children@), 0),
    decreases children@,
{
    let ghost cs = nodes_view(children@);
    proof {
        lemma_nodes_view(children@);
    }
    let mut i: usize = 0;
    while i < children.len()
        invariant
            i <= children@.len(),
            cs == nodes_view(children@),
            cs.len() == children@.len(),
            forall|j: int| 0 <= j < children@.len() ==> #[trigger] cs[j] == children@[j]@,
            out@ + render_nodes_spec(cs, i as int) == old(out)@ + render_nodes_spec(cs, 0),
        decreases children@.len() - i,
    {
        render_into(&children[i], out);
        proof {
            assert(out@ + render_nodes_spec(cs, i + 1 as int) =~= old(out)@
                + render_nodes_spec(cs, 0));
        }
        i = i + 1;
    }
    proof {
        assert(out@ =~= out@ + render_nodes_spec(cs, children@.len() as int));
    }
}

/// Appends `<name attrs>` to `out`.
pub fn write_open_tag(out: &mut String, name: &String, attrs: &Vec<(String, Option<String>)>)
    ensures
        final(out)@ == old(out)@ + "<"@ + name@ + render_attrs_spec(attrs_view(attrs@), 0)
            + ">"@,
{
    let ghost avs = attrs_view(attrs@);
    out.append("<");
    out.append(name.as_str());
    let ghost mid = old(out)@ + "<"@ + name@;
    proof {
        assert(out@ =~= mid);
    }
    let mut i: usize = 0;
    while i < attrs.len()
        invariant
            i <= attrs@.len(),
            avs == attrs_view(attrs@),
            avs.len() == attrs@.len(),
            out@ + render_attrs_spec(avs, i as int) == mid + render_attrs_spec(avs, 0),
        decreases attrs@.len() - i,
    {
        out.append(" ");
        out.append(attrs[i].0.as_str());
        match &attrs[i].1 {
            None => {
                proof {
                    assert(avs[i as int] == (attrs@[i as int].0@, None::<Seq<char>>));
                    assert(out@ + render_attrs_spec(avs, i + 1 as int) =~= mid
                        + render_attrs_spec(avs, 0));
                }
            },
            Some(v) => {
                out.append("=\"");
                let ev = escape_attribute_value(v.as_str());
                out.append(ev.as_str());
                out.append("\"");
                proof {
                    assert(avs[i as int] == (attrs@[i as int].0@, Some(v@)));
                    assert(out@ + render_attrs_spec(avs, i + 1 as int) =~= mid
                        + render_attrs_spec(avs, 0));
                }
            },
        }
        i = i + 1;
    }
    proof {
        assert(render_attrs_spec(avs, attrs@.len() as int) =~= Seq::empty());
        assert(out@ =~= out@ + render_attrs_spec(avs, attrs@.len() as int));
        assert(out@ =~= mid + render_attrs_spec(avs, 0));
    }
    out.append(">");
    proof {
        assert(out@ =~= old(out)@ + "<"@ + name@ + render_attrs_spec(avs, 0) + ">"@);
    }
}

/// Fragment transparency: a fragment of two nodes renders as the rendering
/// of the first followed by the rendering of the second, with no wrapping
/// markup.
pub proof fn lemma_fragment_transparency(a: NodeView, b: NodeView)
    ensures
        render_spec(NodeView::Fragment(seq![a, b])) == render_spec(a) + render_spec(b),
{
    let cs = seq![a, b];
    reveal_with_fuel(render_nodes_spec, 3);
    assert(cs.len() == 2);
    assert(cs[0] == a);
    assert(cs[1] == b);
    assert(render_nodes_spec(cs, 2) =~= Seq::empty());
    assert(render_nodes_spec(cs, 1) =~= render_spec(b));
    assert(render_spec(NodeView::Fragment(cs)) =~= render_spec(a) + render_spec(b));
}

/// Fragment transparency, in general: a fragment renders as the
/// concatenation of its children's renderings, so splitting a child list
/// anywhere splits the rendering at the matching point.
pub proof fn lemma_render_nodes_split(cs: Seq<NodeView>, i: int)
    requires
        0 <= i <= cs.len(),
    ensures
        render_nodes_spec(cs, 0) == render_nodes_spec(cs.subrange(0, i), 0) + render_nodes_spec(
            cs,
            i,
        ),
    decreases i,
{
    if i == 0 {
        assert(render_nodes_spec(cs.subrange(0, 0), 0) =~= Seq::empty());
        assert(render_nodes_spec(cs, 0) =~= render_nodes_spec(cs.subrange(0, 0), 0)
            + render_nodes_spec(cs, 0));
    } else {
        lemma_render_nodes_split_step(cs, 0, i);
    }
}

proof fn lemma_render_nodes_split_step(cs: Seq<NodeView>, lo: int, i: int)
    requires
        0 <= lo <= i <= cs.len(),
    ensures
        render_nodes_spec(cs, lo) == render_nodes_spec(cs.subrange(lo, i), 0)
            + render_nodes_spec(cs, i),
    decreases i - lo,
{
    if lo == i {
        assert(render_nodes_spec(cs.subrange(lo, i), 0) =~= Seq::empty());
        assert(render_nodes_spec(cs, lo) =~= render_nodes_spec(cs.subrange(lo, i), 0)
            + render_nodes_spec(cs, lo));
    } else {
        lemma_render_nodes_split_step(cs, lo + 1, i);
        let sub = cs.subrange(lo, i);
        let sub1 = cs.subrange(lo + 1, i);
        assert(sub[0] == cs[lo]);
        assert(sub.subrange(1, sub.len() as int) =~= sub1);
        lemma_render_nodes_unfold(sub);
        assert(render_nodes_spec(cs, lo) =~= render_nodes_spec(sub, 0) + render_nodes_spec(
            cs,
            i,
        ));
    }
}

proof fn lemma_render_nodes_unfold(cs: Seq<NodeView>)
    requires
        cs.len() > 0,
    ensures
        render_nodes_spec(cs, 0) == render_spec(cs[0]) + render_nodes_spec(
            cs.subrange(1, cs.len() as int),
            0,
        ),
    decreases cs.len(),
{
    lemma_render_nodes_shift(cs, 1);
    assert(render_nodes_spec(cs, 0) =~= render_spec(cs[0]) + render_nodes_spec(cs, 1));
}

proof fn lemma_render_nodes_shift(cs: Seq<NodeView>, i: int)
    requires
        0 <= i <= cs.len(),
    ensures
        render_nodes_spec(cs, i) == render_nodes_spec(cs.subrange(i, cs.len() as int), 0),
    decreases cs.len() - i,
{
    let tail = cs.subrange(i, cs.len() as int);
    if i == cs.len() {
        assert(render_nodes_spec(tail, 0) =~= Seq::empty());
    } else {
        lemma_render_nodes_shift(cs, i + 1);
        let tail1 = cs.subrange(i + 1, cs.len() as int);
        assert(tail[0] == cs[i]);
        assert(tail.subrange(1, tail.len() as int) =~= tail1);
        lemma_render_nodes_shift(tail, 1);
        assert(render_nodes_spec(cs, i) =~= render_nodes_spec(tail, 0));
    }
}

} // verus!
