//! Pretty serialization: one logical child per line, four spaces of
//! indentation per element nesting level, fragments transparent to
//! indentation.

use vstd::prelude::*;

use crate::node::{lemma_nodes_view, nodes_view, Node, NodeView};
use crate::render::{close_tag_spec, open_tag_spec, render_spec, write_open_tag};

verus! {

/// A pretty rendering is a sequence of logical lines: an indentation level
/// and the line's content.
pub open spec fn pretty_lines(n: NodeView) -> Seq<(nat, Seq<char>)>
    decreases n, 0int,
{
    match n {
        NodeView::Fragment(cs) => pretty_nodes_lines(cs, 0),
        NodeView::Element(e) => match e.children {
            None => seq![(0nat, open_tag_spec(e))],
            Some(cs) => if cs.len() == 0 {
                seq![(0nat, open_tag_spec(e) + close_tag_spec(e.name))]
            } else {
                seq![(0nat, open_tag_spec(e))] + indent_lines(pretty_nodes_lines(cs, 0))
                    + seq![(0nat, close_tag_spec(e.name))]
            },
        },
        _ => seq![(0nat, render_spec(n))],
    }
}

/// The lines of a node sequence from position `i` on: each child's lines,
/// one child after the other.
pub open spec fn pretty_nodes_lines(cs: Seq<NodeView>, i: int) -> Seq<(nat, Seq<char>)>
    decreases cs, cs.len() - i + 1int,
{
    if i < 0 || i >= cs.len() {
        Seq::empty()
    } else {
        pretty_lines(cs[i]) + pretty_nodes_lines(cs, i + 1)
    }
}

/// One more level of indentation on every line.
pub open spec fn indent_lines(ls: Seq<(nat, Seq<char>)>) -> Seq<(nat, Seq<char>)> {
    ls.map_values(|l: (nat, Seq<char>)| (((l.0 + 1) as nat), l.1))
}

/// Four spaces per indentation level.
pub open spec fn indent_str(k: nat) -> Seq<char>
    decreases k,
{
    if k == 0 {
        Seq::empty()
    } else {
        "    "@ + indent_str((k - 1) as nat)
    }
}

/// A line as it appears in the output: its indentation then its content.
pub open spec fn rendered_line(l: (nat, Seq<char>)) -> Seq<char> {
    indent_str(l.0) + l.1
}

/// All lines as they appear in the output.
pub open spec fn rendered_lines(ls: Seq<(nat, Seq<char>)>) -> Seq<Seq<char>> {
    ls.map_values(|l: (nat, Seq<char>)| rendered_line(l))
}

/// The values of a sequence of strings.
pub open spec fn str_views(ss: Seq<String>) -> Seq<Seq<char>> {
    ss.map_values(|s: String| s@)
}

/// The tail of a line join: every further line preceded by a newline.
pub open spec fn join_tail(ss: Seq<Seq<char>>, i: int) -> Seq<char>
    decreases ss.len() - i,
{
    if i < 0 || i >= ss.len() {
        Seq::empty()
    } else {
        "\n"@ + ss[i] + join_tail(ss, i + 1)
    }
}

/// Lines joined with single newlines.
pub open spec fn join_lines_spec(ss: Seq<Seq<char>>) -> Seq<char> {
    if ss.len() == 0 {
        Seq::empty()
    } else {
        ss[0] + join_tail(ss, 1)
    }
}

/// The pretty rendering of a node: its lines, indented and joined with
/// newlines.
pub open spec fn pretty_render_spec(n: NodeView) -> Seq<char> {
    join_lines_spec(rendered_lines(pretty_lines(n)))
}

/// A wrapper around [`Node`] that is always pretty printed.
#[derive(Debug)]
pub struct Pretty(pub Node);

impl View for Pretty {
    type V = NodeView;

    open spec fn view(&self) -> NodeView {
        self.0@
    }
}

impl Pretty {
    /// Extract the inner node.
    pub fn into_inner(self) -> (r: Node)
        ensures
            r == self.0,
    {
        self.0
    }

    /// Borrow the inner node.
    pub fn as_inner(&self) -> (r: &Node)
        ensures
            r == &self.0,
    {
        &self.0
    }

    /// Renders the wrapped node as pretty-printed HTML.
    pub fn to_string(&self) -> (r: String)
        ensures
            r@ == pretty_render_spec(self@),
    {
        self.0.to_pretty_string()
    }
}

impl Clone for Pretty {
    /// A deep copy with the same value.
    fn clone(&self) -> (r: Self)
        ensures
            r@ == self@,
    {
        Pretty(self.0.clone())
    }
}

impl Default for Pretty {
    /// A pretty wrapper around the default node: an empty fragment.
    fn default() -> (r: Self)
        ensures
            r@ matches NodeView::Fragment(cs) && cs.len() == 0,
    {
        Pretty(Node::default())
    }
}

impl Node {
    /// Wrap the node in a pretty-printing wrapper.
    pub fn pretty(self) -> (r: Pretty)
        ensures
            r.0 == self,
    {
        Pretty(self)
    }

    /// Renders the node as pretty-printed HTML: one logical child per line,
    /// four spaces of indentation per element nesting level.
    pub fn to_pretty_string(&self) -> (r: String)
        ensures
            r@ == pretty_render_spec(self@),
    {
        let mut lines: Vec<String> = Vec::new();
        pretty_collect(self, &mut lines);
        proof {
            assert(str_views(lines@) =~= str_views(Seq::<String>::empty()) + rendered_lines(
                pretty_lines(self@),
            ));
            assert(str_views(Seq::<String>::empty()) =~= Seq::<Seq<char>>::empty());
            assert(str_views(lines@) =~= rendered_lines(pretty_lines(self@)));
        }
        join_all_lines(&lines)
    }
}

/// Appends the rendered pretty lines of `n` to `out`.
fn pretty_collect(n: &Node, out: &mut Vec<String>)
    ensures
        str_views(final(out)@) == str_views(old(out)@) + rendered_lines(pretty_lines(n@)),
    decreases *n,
{
    match n {
        Node::Fragment(f) => {
            write_children_lines(&f.children, out);
        },
        Node::Element(e) => {
            match &e.children {
                None => {
                    let mut line = String::new();
                    write_open_tag(&mut line, &e.name, &e.attributes);
                    out.push(line);
                    proof {
                        assert(line@ =~= open_tag_spec(e@));
                        assert(str_views(out@) =~~= str_views(old(out)@) + rendered_lines(
                            pretty_lines(n@),
                        ));
                    }
                },
                Some(v) => {
                    if v.len() == 0 {
                        let mut line = String::new();
                        write_open_tag(&mut line, &e.name, &e.attributes);
                        line.append("</");
                        line.append(e.name.as_str());
                        line.append(">");
                        out.push(line);
                        proof {
                            assert(line@ =~= open_tag_spec(e@) + close_tag_spec(e.name@));
                            assert(str_views(out@) =~~= str_views(old(out)@) + rendered_lines(
                                pretty_lines(n@),
                            ));
                        }
                    } else {
                        let ghost cs = nodes_view(v@);
                        let mut line = String::new();
                        write_open_tag(&mut line, &e.name, &e.attributes);
                        proof {
                            assert(line@ =~= open_tag_spec(e@));
                        }
                        out.push(line);
                        let ghost base = str_views(out@);
                        proof {
                            assert(base =~= str_views(old(out)@) + seq![open_tag_spec(e@)]);
                        }
                        let mut inner: Vec<String> = Vec::new();
                        write_children_lines(v, &mut inner);
                        proof {
                            assert(str_views(inner@) =~= rendered_lines(
                                pretty_nodes_lines(cs, 0),
                            ));
                        }
                        let mut k: usize = 0;
                        while k < inner.len()
                            invariant
                                k <= inner@.len(),
                                str_views(inner@) == rendered_lines(pretty_nodes_lines(cs, 0)),
                                inner@.len() == pretty_nodes_lines(cs, 0).len(),
                                str_views(out@).len() == base.len() + k,
                                forall|j: int|
                                    0 <= j < base.len() ==> #[trigger] str_views(out@)[j]
                                        == base[j],
                                forall|j: int|
                                    0 <= j < k ==> #[trigger] str_views(out@)[base.len() + j]
                                        == rendered_lines(
                                        indent_lines(pretty_nodes_lines(cs, 0)),
                                    )[j],
                            decreases inner@.len() - k,
                        {
                            let ghost prev = out@;
                            let mut indented = String::new();
                            indented.append("    ");
                            indented.append(inner[k].as_str());
                            out.push(indented);
                            proof {
                                let ls = pretty_nodes_lines(cs, 0);
                                assert(rendered_lines(ls).len() == ls.len());
                                assert(str_views(inner@).len() == inner@.len());
                                assert(k < ls.len());
                                assert(indent_lines(ls)[k as int] == (
                                    ((ls[k as int].0 + 1) as nat),
                                    ls[k as int].1,
                                ));
                                assert(rendered_lines(indent_lines(ls))[k as int]
                                    == rendered_line(indent_lines(ls)[k as int]));
                                assert(indent_str((ls[k as int].0 + 1) as nat) =~= "    "@
                                    + indent_str(ls[k as int].0));
                                assert(inner@[k as int]@ == rendered_lines(ls)[k as int]);
                                assert(inner@[k as int]@ == indent_str(ls[k as int].0) + ls[
                                    k as int
                                ].1);
                                assert(indented@ =~= rendered_lines(indent_lines(ls))[k as int]);
                                assert(out@ == prev.push(indented));
                                assert(str_views(out@).len() == base.len() + k + 1);
                                assert forall|j: int| 0 <= j < base.len() + k implies #[trigger] str_views(out@)[j] == str_views(prev)[j] by {
                                    assert(out@[j] == prev[j]);
                                }
                                assert(str_views(out@)[base.len() + k] == indented@);
                            }
                            k = k + 1;
                        }
                        let ghost prev = out@;
                        let mut close = String::new();
                        close.append("</");
                        close.append(e.name.as_str());
                        close.append(">");
                        out.push(close);
                        proof {
                            let ls = pretty_nodes_lines(cs, 0);
                            let full = base + rendered_lines(indent_lines(ls)) + seq![
                                close_tag_spec(e.name@),
                            ];
                            assert(rendered_lines(ls).len() == ls.len());
                            assert(str_views(inner@).len() == inner@.len());
                            assert(close@ =~= close_tag_spec(e.name@));
                            assert(out@ == prev.push(close));
                            assert(str_views(out@).len() == full.len());
                            assert forall|j: int| 0 <= j < prev.len() implies #[trigger] str_views(out@)[j] == str_views(prev)[j] by {
                                assert(out@[j] == prev[j]);
                            }
                            assert forall|j: int| 0 <= j < full.len() implies #[trigger] str_views(out@)[j] == full[j] by {
                                if j < base.len() {
                                    assert(str_views(prev)[j] == base[j]);
                                } else if j < prev.len() {
                                    let jr = j - base.len();
                                    assert(str_views(prev)[base.len() + jr] == rendered_lines(
                                        indent_lines(ls),
                                    )[jr]);
                                    assert(full[j] == rendered_lines(indent_lines(ls))[jr]);
                                } else {
                                    assert(str_views(out@)[j] == close@);
                                }
                            }
                            assert(str_views(out@) =~= full);
                            assert(pretty_lines(n@) == seq![(0nat, open_tag_spec(e@))]
                                + indent_lines(ls) + seq![(0nat, close_tag_spec(e.name@))]);
                            assert(rendered_lines(pretty_lines(n@)) =~~= seq![
                                open_tag_spec(e@),
                            ] + rendered_lines(indent_lines(ls)) + seq![
                                close_tag_spec(e.name@),
                            ]);
                            assert(str_views(out@) =~~= str_views(old(out)@) + rendered_lines(
                                pretty_lines(n@),
                            ));
                        }
                    }
                },
            }
        },
        _ => {
            let mut line = String::new();
            crate::render::render_into(n, &mut line);
            out.push(line);
            proof {
                assert(pretty_lines(n@) == seq![(0nat, render_spec(n@))]);
                assert(str_views(out@) =~~= str_views(old(out)@) + rendered_lines(
                    pretty_lines(n@),
                ));
            }
        },
    }
}

/// Appends the rendered pretty lines of each child of `v`, in order.
fn write_children_lines(v: &Vec<Node>, out: &mut Vec<String>)
    ensures
        str_views(final(out)@) == str_views(old(out)@) + rendered_lines(
            pretty_nodes_lines(nodes_view(v@), 0),
        ),
    decreases v@,
{
    let ghost cs = nodes_view(v@);
    proof {
        lemma_nodes_view(v@);
    }
    let mut i: usize = 0;
    while i < v.len()
        invariant
            i <= v@.len(),
            cs == nodes_view(v@),
            cs.len() == v@.len(),
            forall|j: int| 0 <= j < v@.len() ==> #[trigger] cs[j] == v@[j]@,
            str_views(out@) + rendered_lines(pretty_nodes_lines(cs, i as int)) == str_views(
                old(out)@,
            ) + rendered_lines(pretty_nodes_lines(cs, 0)),
        decreases v@.len() - i,
    {
        pretty_collect(&v[i], out);
        proof {
            assert(rendered_lines(
                pretty_lines(cs[i as int]) + pretty_nodes_lines(cs, i + 1 as int),
            ) =~= rendered_lines(pretty_lines(cs[i as int])) + rendered_lines(
                pretty_nodes_lines(cs, i + 1 as int),
            ));
            assert(str_views(out@) + rendered_lines(pretty_nodes_lines(cs, i + 1 as int))
                =~= str_views(old(out)@) + rendered_lines(pretty_nodes_lines(cs, 0)));
        }
        i = i + 1;
    }
    proof {
        assert(rendered_lines(pretty_nodes_lines(cs, v@.len() as int))
            =~= Seq::<Seq<char>>::empty());
        assert(str_views(out@) =~= str_views(out@) + rendered_lines(
            pretty_nodes_lines(cs, v@.len() as int),
        ));
    }
}

/// Joins the lines with single newlines.
fn join_all_lines(lines: &Vec<String>) -> (r: String)
    ensures
        r@ == join_lines_spec(str_views(lines@)),
{
    let ghost ss = str_views(lines@);
    let mut out = String::new();
    if lines.len() == 0 {
        proof {
            assert(out@ =~= join_lines_spec(ss));
        }
        return out;
    }
    out.append(lines[0].as_str());
    let mut i: usize = 1;
    while i < lines.len()
        invariant
            1 <= i <= lines@.len(),
            ss == str_views(lines@),
            ss.len() == lines@.len(),
            out@ + join_tail(ss, i as int) == ss[0] + join_tail(ss, 1),
        decreases lines@.len() - i,
    {
        out.append("\n");
        push_all(&mut out, &lines[i]);
        proof {
            assert(out@ + join_tail(ss, i + 1 as int) =~= ss[0] + join_tail(ss, 1));
        }
        i = i + 1;
    }
    proof {
        assert(join_tail(ss, lines@.len() as int) =~= Seq::empty());
        assert(out@ =~= out@ + join_tail(ss, lines@.len() as int));
        assert(out@ =~= join_lines_spec(ss));
    }
    out
}

fn push_all(out: &mut String, s: &String)
    ensures
        final(out)@ == old(out)@ + s@,
{
    out.append(s.as_str());
}

/// Pretty and compact agree: deleting the indentation and the inserted line
/// breaks from the pretty lines of a tree yields exactly its compact
/// rendering.  The renderer never splits a node's own text across lines, so
/// whenever no text holds a line break, the pretty output's lines are these
/// lines and the claim carries over to the strings themselves.
pub proof fn lemma_pretty_compact_agree(n: NodeView)
    ensures
        line_contents(pretty_lines(n), 0) == render_spec(n),
{
    lemma_pretty_compact_node(n);
}

/// The contents of the lines from position `i` on, concatenated.
pub open spec fn line_contents(ls: Seq<(nat, Seq<char>)>, i: int) -> Seq<char>
    decreases ls.len() - i,
{
    if i < 0 || i >= ls.len() {
        Seq::empty()
    } else {
        ls[i].1 + line_contents(ls, i + 1)
    }
}

proof fn lemma_line_contents_append(a: Seq<(nat, Seq<char>)>, b: Seq<(nat, Seq<char>)>)
    ensures
        line_contents(a + b, 0) == line_contents(a, 0) + line_contents(b, 0),
{
    lemma_line_contents_append_from(a, b, 0);
}

proof fn lemma_line_contents_append_from(
    a: Seq<(nat, Seq<char>)>,
    b: Seq<(nat, Seq<char>)>,
    i: int,
)
    requires
        0 <= i <= a.len(),
    ensures
        line_contents(a + b, i) == line_contents(a, i) + line_contents(b, 0),
    decreases a.len() - i,
{
    if i == a.len() {
        lemma_line_contents_tail(a, b, 0);
        assert(line_contents(a, i) =~= Seq::empty());
        assert(line_contents(a + b, i) =~= line_contents(a, i) + line_contents(b, 0));
    } else {
        lemma_line_contents_append_from(a, b, i + 1);
        assert((a + b)[i] == a[i]);
        assert(line_contents(a + b, i) =~= line_contents(a, i) + line_contents(b, 0));
    }
}

proof fn lemma_line_contents_tail(a: Seq<(nat, Seq<char>)>, b: Seq<(nat, Seq<char>)>, j: int)
    requires
        0 <= j <= b.len(),
    ensures
        line_contents(a + b, a.len() + j) == line_contents(b, j),
    decreases b.len() - j,
{
    if j == b.len() {
        assert(line_contents(a + b, a.len() + j) =~= Seq::empty());
        assert(line_contents(b, j) =~= Seq::empty());
    } else {
        lemma_line_contents_tail(a, b, j + 1);
        assert((a + b)[a.len() + j] == b[j]);
        assert(line_contents(a + b, a.len() + j) =~= line_contents(b, j));
    }
}

proof fn lemma_line_contents_indent(ls: Seq<(nat, Seq<char>)>, i: int)
    requires
        0 <= i <= ls.len(),
    ensures
        line_contents(indent_lines(ls), i) == line_contents(ls, i),
    decreases ls.len() - i,
{
    if i == ls.len() {
        assert(line_contents(indent_lines(ls), i) =~= line_contents(ls, i));
    } else {
        lemma_line_contents_indent(ls, i + 1);
        assert(indent_lines(ls)[i].1 == ls[i].1);
        assert(line_contents(indent_lines(ls), i) =~= line_contents(ls, i));
    }
}

proof fn lemma_pretty_compact_node(n: NodeView)
    ensures
        line_contents(pretty_lines(n), 0) == render_spec(n),
    decreases n, 0int,
{
    match n {
        NodeView::Fragment(cs) => {
            lemma_pretty_compact_nodes(cs, 0);
        },
        NodeView::Element(e) => {
            match e.children {
                None => {
                    let ls = pretty_lines(n);
                    assert(ls == seq![(0nat, open_tag_spec(e))]);
                    assert(ls.len() == 1 && ls[0].1 == open_tag_spec(e));
                    assert(line_contents(ls, 1) =~= Seq::empty());
                    assert(line_contents(ls, 0) =~= open_tag_spec(e));
                    assert(render_spec(n) =~= open_tag_spec(e));
                },
                Some(cs) => {
                    if cs.len() == 0 {
                        let ls = pretty_lines(n);
                        assert(ls.len() == 1 && ls[0].1 == open_tag_spec(e) + close_tag_spec(
                            e.name,
                        ));
                        assert(line_contents(ls, 1) =~= Seq::empty());
                        assert(line_contents(ls, 0) =~= open_tag_spec(e) + close_tag_spec(
                            e.name,
                        ));
                        assert(crate::render::render_nodes_spec(cs, 0) =~= Seq::<char>::empty());
                        assert(render_spec(n) =~= open_tag_spec(e) + close_tag_spec(e.name));
                    } else {
                        lemma_pretty_compact_nodes(cs, 0);
                        let open = seq![(0nat, open_tag_spec(e))];
                        let mid = indent_lines(pretty_nodes_lines(cs, 0));
                        let close = seq![(0nat, close_tag_spec(e.name))];
                        lemma_line_contents_append(open + mid, close);
                        lemma_line_contents_append(open, mid);
                        lemma_line_contents_indent(pretty_nodes_lines(cs, 0), 0);
                        assert(open.len() == 1 && open[0].1 == open_tag_spec(e));
                        assert(line_contents(open, 1) =~= Seq::empty());
                        assert(line_contents(open, 0) =~= open_tag_spec(e));
                        assert(close.len() == 1 && close[0].1 == close_tag_spec(e.name));
                        assert(line_contents(close, 1) =~= Seq::empty());
                        assert(line_contents(close, 0) =~= close_tag_spec(e.name));
                        assert(pretty_lines(n) == (open + mid) + close);
                        assert(line_contents(pretty_lines(n), 0) =~= render_spec(n));
                    }
                },
            }
        },
        _ => {
            let ls = pretty_lines(n);
            assert(ls == seq![(0nat, render_spec(n))]);
            assert(ls.len() == 1 && ls[0].1 == render_spec(n));
            assert(line_contents(ls, 1) =~= Seq::empty());
            assert(line_contents(ls, 0) =~= render_spec(n));
        },
    }
}

proof fn lemma_pretty_compact_nodes(cs: Seq<NodeView>, i: int)
    ensures
        line_contents(pretty_nodes_lines(cs, i), 0) == crate::render::render_nodes_spec(cs, i),
    decreases cs, cs.len() - i + 1int,
{
    if i < 0 || i >= cs.len() {
    } else {
        lemma_pretty_compact_node(cs[i]);
        lemma_pretty_compact_nodes(cs, i + 1);
        lemma_line_contents_append(pretty_lines(cs[i]), pretty_nodes_lines(cs, i + 1));
        assert(line_contents(pretty_nodes_lines(cs, i), 0) =~= crate::render::render_nodes_spec(
            cs,
            i,
        ));
    }
}

} // verus!
