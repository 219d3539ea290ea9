//! The template parser: a state machine over the characters of an
//! HTML-like surface syntax, producing an intermediate syntax tree plus
//! recoverable diagnostics.  Malformed constructs yield a diagnostic and a
//! best-effort node, and scanning continues, so one pass can report many
//! independent errors.
//!
//! The grammar: open and close tags, void tags (always self-closing),
//! attributes (`key`, `key="literal"`, `key=bare`, `key={name}`, and
//! `{name}` for a whole pair), comments `<!-- ... -->`, doctypes
//! `<!DOCTYPE ...>`, fragments `<>...</>`, embedded-expression
//! placeholders `{name}`, plain text runs (whitespace-collapsed), and
//! raw-text element bodies captured verbatim up to the matching close tag.
//! A literal `<` or `{` in text must be written some other way (an entity
//! for `<`); text runs end at either character.
//!
//! The recursive grammar functions guard every continuation position
//! against moving backwards or past the end, which keeps the definitions
//! total; the scanners only ever move forward, so the executable parser
//! never takes those guard branches.

use vstd::prelude::*;

use crate::diag::{diags_view, error, error_view, Diagnostic, DiagnosticView};
use crate::grammar::{name_in, GrammarView};
use crate::syntax::{syntax_attrs_view, AttrValue, AttrValueView, SyntaxAttrView, SyntaxAttribute,
    SyntaxElementView, SyntaxView};

verus! {

/// Whitespace: space, tab, newline, carriage return.
pub open spec fn is_ws(c: char) -> bool {
    c == ' ' || c == '\t' || c == '\n' || c == '\r'
}

/// A name character: ASCII letters, digits, hyphen, underscore.
pub open spec fn is_name_char(c: char) -> bool {
    ('a' <= c <= 'z') || ('A' <= c <= 'Z') || ('0' <= c <= '9') || c == '-' || c == '_'
}

/// The first position at or after `i` holding a non-whitespace character,
/// or the length.
pub open spec fn skip_ws(s: Seq<char>, i: int) -> int
    decreases s.len() - i,
{
    if i < 0 || i >= s.len() {
        s.len() as int
    } else if is_ws(s[i]) {
        skip_ws(s, i + 1)
    } else {
        i
    }
}

/// The first position at or after `i` holding a non-name character, or the
/// length.
pub open spec fn scan_name(s: Seq<char>, i: int) -> int
    decreases s.len() - i,
{
    if i < 0 || i >= s.len() {
        s.len() as int
    } else if is_name_char(s[i]) {
        scan_name(s, i + 1)
    } else {
        i
    }
}

/// The first position at or after `i` holding `c`, or the length.
pub open spec fn find_char(s: Seq<char>, c: char, i: int) -> int
    decreases s.len() - i,
{
    if i < 0 || i >= s.len() {
        s.len() as int
    } else if s[i] == c {
        i
    } else {
        find_char(s, c, i + 1)
    }
}

/// Whether `pat` occurs in `s` starting at `i`.
pub open spec fn matches_at(s: Seq<char>, pat: Seq<char>, i: int) -> bool {
    0 <= i && i + pat.len() <= s.len() && forall|k: int|
        0 <= k < pat.len() ==> s[i + k] == pat[k]
}

/// The first position at or after `i` where `pat` occurs, or the length.
pub open spec fn find_seq(s: Seq<char>, pat: Seq<char>, i: int) -> int
    decreases s.len() - i,
{
    if i < 0 || i + pat.len() > s.len() {
        s.len() as int
    } else if matches_at(s, pat, i) {
        i
    } else {
        find_seq(s, pat, i + 1)
    }
}

/// The position of the `}` closing the block opened before `i`, taking
/// nested braces into account, or the length.
pub open spec fn scan_block(s: Seq<char>, i: int, depth: nat) -> int
    decreases s.len() - i,
{
    if i < 0 || i >= s.len() {
        s.len() as int
    } else if s[i] == '{' {
        scan_block(s, i + 1, depth + 1)
    } else if s[i] == '}' {
        if depth == 0 {
            i
        } else {
            scan_block(s, i + 1, (depth - 1) as nat)
        }
    } else {
        scan_block(s, i + 1, depth)
    }
}

/// The first position at or after `i` where a text run ends: at `<`, at
/// `{`, or at the length.
pub open spec fn scan_text(s: Seq<char>, i: int) -> int
    decreases s.len() - i,
{
    if i < 0 || i >= s.len() {
        s.len() as int
    } else if s[i] == '<' || s[i] == '{' {
        i
    } else {
        scan_text(s, i + 1)
    }
}

/// The end of `t` with trailing whitespace dropped: one past the last
/// non-whitespace character at or before position `j - 1`.
pub open spec fn rtrim_end(t: Seq<char>, j: int) -> int
    decreases j,
{
    if j <= 0 {
        0
    } else if j > t.len() {
        t.len() as int
    } else if is_ws(t[j - 1]) {
        rtrim_end(t, j - 1)
    } else {
        j
    }
}

/// `t` without leading and trailing whitespace.
pub open spec fn trim_spec(t: Seq<char>) -> Seq<char> {
    let a = skip_ws(t, 0);
    let b = rtrim_end(t, t.len() as int);
    if a <= b {
        t.subrange(a, b)
    } else {
        Seq::empty()
    }
}

/// One step of whitespace collapsing: whitespace runs become single
/// spaces, leading and trailing whitespace drops away.
pub open spec fn collapse_step(t: Seq<char>, i: int, acc: Seq<char>, pending: bool) -> Seq<char>
    decreases t.len() - i,
{
    if i < 0 || i >= t.len() {
        acc
    } else if is_ws(t[i]) {
        collapse_step(t, i + 1, acc, acc.len() > 0)
    } else if pending {
        collapse_step(t, i + 1, acc + seq![' '] + seq![t[i]], false)
    } else {
        collapse_step(t, i + 1, acc + seq![t[i]], false)
    }
}

/// `t` with whitespace collapsed: internal whitespace runs become one
/// space, leading and trailing whitespace drops away.
pub open spec fn collapse_ws(t: Seq<char>) -> Seq<char> {
    collapse_step(t, 0, Seq::empty(), false)
}

/// The index of the last element named `name` in `acc` at or before `j`,
/// or `-1`.
pub open spec fn find_last_elem(acc: Seq<SyntaxView>, name: Seq<char>, j: int) -> int
    decreases j + 1,
{
    if j < 0 || j >= acc.len() {
        -1
    } else if (acc[j] matches SyntaxView::Element(e) && e.name == name) {
        j
    } else {
        find_last_elem(acc, name, j - 1)
    }
}

/// The result of parsing an attribute list: the attributes, the
/// diagnostics, the position after the tag, whether the tag was written
/// self-closing, and whether the tag was properly ended at all.
pub open spec fn parse_attrs_spec(
    s: Seq<char>,
    i: int,
    acc: Seq<SyntaxAttrView>,
    diags: Seq<DiagnosticView>,
) -> (Seq<SyntaxAttrView>, Seq<DiagnosticView>, int, bool, bool)
    decreases s.len() - i,
{
    let j = skip_ws(s, i);
    if j < i {
        (acc, diags, j, false, false)
    } else if j >= s.len() {
        (acc, diags.push(error_view("unterminated tag"@, j)), j, false, false)
    } else if s[j] == '>' {
        (acc, diags, j + 1, false, true)
    } else if s[j] == '/' {
        if j + 1 < s.len() && s[j + 1] == '>' {
            (acc, diags, j + 2, true, true)
        } else {
            if j + 1 <= i {
                (acc, diags, j + 1, false, false)
            } else {
                parse_attrs_spec(
                    s,
                    j + 1,
                    acc,
                    diags.push(error_view("stray character in tag"@, j)),
                )
            }
        }
    } else if s[j] == '{' {
        let e = scan_block(s, j + 1, 0);
        if e >= s.len() {
            (
                acc.push(
                    SyntaxAttrView::Block {
                        expr: trim_spec(s.subrange(j + 1, s.len() as int)),
                        pos: j,
                    },
                ),
                diags.push(error_view("unterminated block attribute"@, j)),
                s.len() as int,
                false,
                false,
            )
        } else {
            let acc2 = acc.push(
                SyntaxAttrView::Block { expr: trim_spec(s.subrange(j + 1, e)), pos: j },
            );
            if e + 1 <= i {
                (acc2, diags, e + 1, false, false)
            } else {
                parse_attrs_spec(s, e + 1, acc2, diags)
            }
        }
    } else if is_name_char(s[j]) {
        let k = scan_name(s, j);
        let key = s.subrange(j, k);
        let j2 = skip_ws(s, k);
        if j2 < s.len() && s[j2] == '=' {
            let j3 = skip_ws(s, j2 + 1);
            if j3 >= s.len() {
                (
                    acc.push(SyntaxAttrView::Keyed { key, value: AttrValueView::Absent, pos: j }),
                    diags.push(error_view("unterminated tag"@, j3)),
                    j3,
                    false,
                    false,
                )
            } else if s[j3] == '"' {
                let q = find_char(s, '"', j3 + 1);
                if q >= s.len() {
                    (
                        acc.push(
                            SyntaxAttrView::Keyed {
                                key,
                                value: AttrValueView::Literal(s.subrange(j3 + 1, s.len() as int)),
                                pos: j,
                            },
                        ),
                        diags.push(error_view("unterminated quoted value"@, j3)),
                        s.len() as int,
                        false,
                        false,
                    )
                } else {
                    let acc2 = acc.push(
                        SyntaxAttrView::Keyed {
                            key,
                            value: AttrValueView::Literal(s.subrange(j3 + 1, q)),
                            pos: j,
                        },
                    );
                    if q + 1 <= i {
                        (acc2, diags, q + 1, false, false)
                    } else {
                        parse_attrs_spec(s, q + 1, acc2, diags)
                    }
                }
            } else if s[j3] == '{' {
                let e = scan_block(s, j3 + 1, 0);
                if e >= s.len() {
                    (
                        acc.push(
                            SyntaxAttrView::Keyed {
                                key,
                                value: AttrValueView::Expr(
                                    trim_spec(s.subrange(j3 + 1, s.len() as int)),
                                ),
                                pos: j,
                            },
                        ),
                        diags.push(error_view("unterminated block value"@, j3)),
                        s.len() as int,
                        false,
                        false,
                    )
                } else {
                    let acc2 = acc.push(
                        SyntaxAttrView::Keyed {
                            key,
                            value: AttrValueView::Expr(trim_spec(s.subrange(j3 + 1, e))),
                            pos: j,
                        },
                    );
                    if e + 1 <= i {
                        (acc2, diags, e + 1, false, false)
                    } else {
                        parse_attrs_spec(s, e + 1, acc2, diags)
                    }
                }
            } else {
                let b = scan_bare(s, j3);
                if b <= j3 {
                    let acc2 = acc.push(
                        SyntaxAttrView::Keyed { key, value: AttrValueView::Absent, pos: j },
                    );
                    let diags2 = diags.push(error_view("missing attribute value"@, j3));
                    if j3 <= i {
                        (acc2, diags2, j3, false, false)
                    } else {
                        parse_attrs_spec(s, j3, acc2, diags2)
                    }
                } else {
                    let acc2 = acc.push(
                        SyntaxAttrView::Keyed {
                            key,
                            value: AttrValueView::Literal(s.subrange(j3, b)),
                            pos: j,
                        },
                    );
                    if b <= i || b > s.len() {
                        (acc2, diags, b, false, false)
                    } else {
                        parse_attrs_spec(s, b, acc2, diags)
                    }
                }
            }
        } else {
            let acc2 = acc.push(
                SyntaxAttrView::Keyed { key, value: AttrValueView::Absent, pos: j },
            );
            if k <= i || k > s.len() {
                (acc2, diags, k, false, false)
            } else {
                parse_attrs_spec(s, k, acc2, diags)
            }
        }
    } else {
        let diags2 = diags.push(error_view("stray character in tag"@, j));
        if j + 1 <= i {
            (acc, diags2, j + 1, false, false)
        } else {
            parse_attrs_spec(s, j + 1, acc, diags2)
        }
    }
}

/// The first position at or after `i` ending a bare (unquoted) attribute
/// value: whitespace, `>`, `/`, or the length.
pub open spec fn scan_bare(s: Seq<char>, i: int) -> int
    decreases s.len() - i,
{
    if i < 0 || i >= s.len() {
        s.len() as int
    } else if is_ws(s[i]) || s[i] == '>' || s[i] == '/' {
        i
    } else {
        scan_bare(s, i + 1)
    }
}

/// One element parsed from position `i` (which holds `<` followed by a
/// name character): the element node, its diagnostics, and the position
/// after it.  Void elements are complete at their open tag; raw-text
/// elements capture their body verbatim up to the matching close tag; all
/// other elements parse children up to their close tag, and a missing
/// close tag is a recoverable error.
pub open spec fn parse_element_spec(s: Seq<char>, g: GrammarView, i: int) -> (
    SyntaxView,
    Seq<DiagnosticView>,
    int,
)
    decreases s.len() - i, 0int,
{
    let k = scan_name(s, i + 1);
    let name = s.subrange(i + 1, if k >= i + 1 {
        k
    } else {
        i + 1
    });
    let pa = parse_attrs_spec(s, k, Seq::empty(), Seq::empty());
    let attrs = pa.0;
    let adiags = pa.1;
    let p = pa.2;
    let self_closed = pa.3;
    let ok = pa.4;
    if !ok {
        (
            SyntaxView::Element(
                SyntaxElementView {
                    name,
                    attributes: attrs,
                    children: Seq::empty(),
                    self_closed: false,
                    pos: i,
                },
            ),
            adiags,
            p,
        )
    } else if self_closed || name_in(g.voids, name) {
        (
            SyntaxView::Element(
                SyntaxElementView {
                    name,
                    attributes: attrs,
                    children: Seq::empty(),
                    self_closed,
                    pos: i,
                },
            ),
            adiags,
            p,
        )
    } else if name_in(g.raws, name) {
        let close_pat = seq!['<', '/'] + name;
        let rp = find_seq(s, close_pat, p);
        if rp >= s.len() {
            (
                SyntaxView::Element(
                    SyntaxElementView {
                        name,
                        attributes: attrs,
                        children: seq![
                            SyntaxView::RawText(collapse_ws(s.subrange(p, s.len() as int))),
                        ],
                        self_closed: false,
                        pos: i,
                    },
                ),
                adiags.push(error_view("unterminated raw-text element"@, i)),
                s.len() as int,
            )
        } else {
            let content = collapse_ws(s.subrange(p, rp));
            let q = skip_ws(s, rp + 2 + name.len());
            let node = SyntaxView::Element(
                SyntaxElementView {
                    name,
                    attributes: attrs,
                    children: seq![SyntaxView::RawText(content)],
                    self_closed: false,
                    pos: i,
                },
            );
            if q < s.len() && s[q] == '>' {
                (node, adiags, q + 1)
            } else {
                (node, adiags.push(error_view("malformed close tag"@, q)), q)
            }
        }
    } else {
        if p <= i || p > s.len() {
            (
                SyntaxView::Element(
                    SyntaxElementView {
                        name,
                        attributes: attrs,
                        children: Seq::empty(),
                        self_closed: false,
                        pos: i,
                    },
                ),
                adiags,
                p,
            )
        } else {
            let pc = parse_nodes_spec(s, g, p, Some(name), Seq::empty());
            let node = SyntaxView::Element(
                SyntaxElementView {
                    name,
                    attributes: attrs,
                    children: pc.0,
                    self_closed: false,
                    pos: i,
                },
            );
            if pc.3 {
                (node, adiags + pc.1, pc.2)
            } else {
                (node, adiags + pc.1 + seq![error_view("unclosed element"@, i)], pc.2)
            }
        }
    }
}

/// A run of sibling nodes parsed from position `i` up to the close tag
/// named by `closer` (the empty name closes a fragment), the end of input,
/// or - for recovery - a close tag belonging to an enclosing element: the
/// nodes, the diagnostics, the position after the run, and whether the
/// expected close tag was found.  A close tag naming a void element
/// adopts the siblings parsed since that element's open tag as its
/// source-level children, which the builder then drops with a warning.
pub open spec fn parse_nodes_spec(
    s: Seq<char>,
    g: GrammarView,
    i: int,
    closer: Option<Seq<char>>,
    acc: Seq<SyntaxView>,
) -> (Seq<SyntaxView>, Seq<DiagnosticView>, int, bool)
    decreases s.len() - i, 1int,
{
    if i < 0 || i >= s.len() {
        (acc, Seq::empty(), s.len() as int, false)
    } else if s[i] == '<' {
        if i + 1 < s.len() && s[i + 1] == '/' {
            let k = skip_ws(s, i + 2);
            let n_end = scan_name(s, if k >= i + 2 {
                k
            } else {
                i + 2
            });
            let name = s.subrange(if k >= i + 2 {
                k
            } else {
                i + 2
            }, if n_end >= k && k >= i + 2 {
                n_end
            } else {
                i + 2
            });
            let q = skip_ws(s, n_end);
            let malformed = !(q < s.len() && q >= 0 && s[q] == '>');
            let end = if 0 <= q < s.len() {
                q + 1
            } else {
                s.len() as int
            };
            if closer == Some(name) {
                if malformed {
                    (acc, seq![error_view("malformed close tag"@, i)], end, true)
                } else {
                    (acc, Seq::empty(), end, true)
                }
            } else if name_in(g.voids, name) {
                let m = find_last_elem(acc, name, acc.len() - 1);
                let acc2 = if m >= 0 && (acc[m] matches SyntaxView::Element(e)) {
                    adopt(acc, m)
                } else {
                    acc
                };
                let d1: Seq<DiagnosticView> = if m >= 0 {
                    Seq::empty()
                } else {
                    seq![error_view("unmatched close tag"@, i)]
                };
                let d2: Seq<DiagnosticView> = if malformed {
                    seq![error_view("malformed close tag"@, i)]
                } else {
                    Seq::empty()
                };
                if end <= i {
                    (acc2, d1 + d2, end, false)
                } else {
                    let rest = parse_nodes_spec(s, g, end, closer, acc2);
                    (rest.0, d1 + d2 + rest.1, rest.2, rest.3)
                }
            } else if closer is Some {
                (acc, Seq::empty(), i, false)
            } else {
                let d: Seq<DiagnosticView> = seq![error_view("unmatched close tag"@, i)];
                if end <= i {
                    (acc, d, end, false)
                } else {
                    let rest = parse_nodes_spec(s, g, end, closer, acc);
                    (rest.0, d + rest.1, rest.2, rest.3)
                }
            }
        } else if matches_at(s, "<!--"@, i) {
            let cstart = i + "<!--"@.len();
            let cend = find_seq(s, "-->"@, cstart);
            if cend >= s.len() {
                (
                    acc.push(SyntaxView::Comment(trim_spec(s.subrange(cstart, s.len() as int)))),
                    seq![error_view("unterminated comment"@, i)],
                    s.len() as int,
                    false,
                )
            } else {
                let acc2 = acc.push(SyntaxView::Comment(trim_spec(s.subrange(cstart, cend))));
                let next = cend + "-->"@.len();
                if next <= i || next > s.len() {
                    (acc2, Seq::empty(), next, false)
                } else {
                    parse_nodes_spec(s, g, next, closer, acc2)
                }
            }
        } else if matches_at(s, "<!DOCTYPE"@, i) {
            let dstart = i + "<!DOCTYPE"@.len();
            let dend = find_char(s, '>', dstart);
            if dend >= s.len() {
                (
                    acc.push(SyntaxView::Doctype(trim_spec(s.subrange(dstart, s.len() as int)))),
                    seq![error_view("unterminated doctype"@, i)],
                    s.len() as int,
                    false,
                )
            } else {
                let acc2 = acc.push(SyntaxView::Doctype(trim_spec(s.subrange(dstart, dend))));
                if dend + 1 <= i {
                    (acc2, Seq::empty(), dend + 1, false)
                } else {
                    parse_nodes_spec(s, g, dend + 1, closer, acc2)
                }
            }
        } else if i + 1 < s.len() && s[i + 1] == '>' {
            let pf = parse_nodes_spec(s, g, i + 2, Some(Seq::empty()), Seq::empty());
            let acc2 = acc.push(SyntaxView::Fragment(pf.0));
            let d: Seq<DiagnosticView> = if pf.3 {
                pf.1
            } else {
                pf.1 + seq![error_view("unclosed fragment"@, i)]
            };
            if pf.2 <= i || pf.2 > s.len() {
                (acc2, d, pf.2, false)
            } else {
                let rest = parse_nodes_spec(s, g, pf.2, closer, acc2);
                (rest.0, d + rest.1, rest.2, rest.3)
            }
        } else if i + 1 < s.len() && is_name_char(s[i + 1]) {
            let pe = parse_element_spec(s, g, i);
            let acc2 = acc.push(pe.0);
            if pe.2 <= i || pe.2 > s.len() {
                (acc2, pe.1, pe.2, false)
            } else {
                let rest = parse_nodes_spec(s, g, pe.2, closer, acc2);
                (rest.0, pe.1 + rest.1, rest.2, rest.3)
            }
        } else {
            let d: Seq<DiagnosticView> = seq![error_view("unexpected angle bracket"@, i)];
            let rest = parse_nodes_spec(s, g, i + 1, closer, acc);
            (rest.0, d + rest.1, rest.2, rest.3)
        }
    } else if s[i] == '{' {
        let e = scan_block(s, i + 1, 0);
        if e >= s.len() {
            (
                acc.push(
                    SyntaxView::Block {
                        expr: trim_spec(s.subrange(i + 1, s.len() as int)),
                        pos: i,
                    },
                ),
                seq![error_view("unterminated block"@, i)],
                s.len() as int,
                false,
            )
        } else {
            let acc2 = acc.push(
                SyntaxView::Block { expr: trim_spec(s.subrange(i + 1, e)), pos: i },
            );
            if e + 1 <= i {
                (acc2, Seq::empty(), e + 1, false)
            } else {
                parse_nodes_spec(s, g, e + 1, closer, acc2)
            }
        }
    } else {
        let t = scan_text(s, i);
        let content = collapse_ws(s.subrange(i, if t >= i {
            t
        } else {
            i
        }));
        let acc2 = if content.len() > 0 {
            acc.push(SyntaxView::Text(content))
        } else {
            acc
        };
        if t <= i || t > s.len() {
            (acc2, Seq::empty(), t, false)
        } else {
            parse_nodes_spec(s, g, t, closer, acc2)
        }
    }
}

/// The element at `acc[m]` with every later sibling adopted as its
/// source-level children.
pub open spec fn adopt(acc: Seq<SyntaxView>, m: int) -> Seq<SyntaxView> {
    if 0 <= m < acc.len() && (acc[m] matches SyntaxView::Element(e)) {
        let e = acc[m]->Element_0;
        acc.subrange(0, m).push(
            SyntaxView::Element(
                SyntaxElementView {
                    name: e.name,
                    attributes: e.attributes,
                    children: e.children + acc.subrange(m + 1, acc.len() as int),
                    self_closed: e.self_closed,
                    pos: e.pos,
                },
            ),
        )
    } else {
        acc
    }
}

/// A whole template parsed: its top-level nodes and all diagnostics.
pub open spec fn parse_template_spec(s: Seq<char>, g: GrammarView) -> (
    Seq<SyntaxView>,
    Seq<DiagnosticView>,
) {
    let r = parse_nodes_spec(s, g, 0, None, Seq::empty());
    (r.0, r.1)
}

/// The value of the close-tag name a node run is parsed under.
pub open spec fn closer_view(c: Option<&String>) -> Option<Seq<char>> {
    match c {
        Some(n) => Some(n@),
        None => None,
    }
}

fn skip_ws_exec(s: &Vec<char>, start: usize) -> (r: usize)
    ensures
        r as int == skip_ws(s@, start as int),
        r <= s@.len(),
        start <= s@.len() ==> start <= r,
{
    let mut i = if start > s.len() {
        s.len()
    } else {
        start
    };
    while i < s.len()
        invariant
            i <= s@.len(),
            start <= s@.len() ==> start <= i,
            skip_ws(s@, start as int) == skip_ws(s@, i as int),
        decreases s@.len() - i,
    {
        let c = s[i];
        if !(c == ' ' || c == '\t' || c == '\n' || c == '\r') {
            return i;
        }
        i = i + 1;
    }
    i
}

fn scan_name_exec(s: &Vec<char>, start: usize) -> (r: usize)
    ensures
        r as int == scan_name(s@, start as int),
        r <= s@.len(),
        start <= s@.len() ==> start <= r,
{
    let mut i = if start > s.len() {
        s.len()
    } else {
        start
    };
    while i < s.len()
        invariant
            i <= s@.len(),
            start <= s@.len() ==> start <= i,
            scan_name(s@, start as int) == scan_name(s@, i as int),
        decreases s@.len() - i,
    {
        let c = s[i];
        if !(('a' <= c && c <= 'z') || ('A' <= c && c <= 'Z') || ('0' <= c && c <= '9') || c == '-' || c == '_') {
            return i;
        }
        i = i + 1;
    }
    i
}

fn find_char_exec(s: &Vec<char>, c: char, start: usize) -> (r: usize)
    ensures
        r as int == find_char(s@, c, start as int),
        r <= s@.len(),
        start <= s@.len() ==> start <= r,
{
    let mut i = if start > s.len() {
        s.len()
    } else {
        start
    };
    while i < s.len()
        invariant
            i <= s@.len(),
            start <= s@.len() ==> start <= i,
            find_char(s@, c, start as int) == find_char(s@, c, i as int),
        decreases s@.len() - i,
    {
        if s[i] == c {
            return i;
        }
        i = i + 1;
    }
    i
}

fn scan_text_exec(s: &Vec<char>, start: usize) -> (r: usize)
    ensures
        r as int == scan_text(s@, start as int),
        r <= s@.len(),
        start <= s@.len() ==> start <= r,
{
    let mut i = if start > s.len() {
        s.len()
    } else {
        start
    };
    while i < s.len()
        invariant
            i <= s@.len(),
            start <= s@.len() ==> start <= i,
            scan_text(s@, start as int) == scan_text(s@, i as int),
        decreases s@.len() - i,
    {
        let c = s[i];
        if c == '<' || c == '{' {
            return i;
        }
        i = i + 1;
    }
    i
}

fn scan_bare_exec(s: &Vec<char>, start: usize) -> (r: usize)
    ensures
        r as int == scan_bare(s@, start as int),
        r <= s@.len(),
        start <= s@.len() ==> start <= r,
{
    let mut i = if start > s.len() {
        s.len()
    } else {
        start
    };
    while i < s.len()
        invariant
            i <= s@.len(),
            start <= s@.len() ==> start <= i,
            scan_bare(s@, start as int) == scan_bare(s@, i as int),
        decreases s@.len() - i,
    {
        let c = s[i];
        if c == ' ' || c == '\t' || c == '\n' || c == '\r' || c == '>' || c == '/' {
            return i;
        }
        i = i + 1;
    }
    i
}

fn scan_block_exec(s: &Vec<char>, start: usize) -> (r: usize)
    ensures
        r as int == scan_block(s@, start as int, 0),
        r <= s@.len(),
        start <= s@.len() ==> start <= r,
{
    let mut i = if start > s.len() {
        s.len()
    } else {
        start
    };
    let mut depth: usize = 0;
    while i < s.len()
        invariant
            i <= s@.len(),
            start <= s@.len() ==> start <= i,
            depth <= i,
            scan_block(s@, start as int, 0) == scan_block(s@, i as int, depth as nat),
        decreases s@.len() - i,
    {
        let c = s[i];
        if c == '{' {
            depth = depth + 1;
        } else if c == '}' {
            if depth == 0 {
                return i;
            }
            depth = depth - 1;
        }
        i = i + 1;
    }
    i
}

fn matches_at_exec(s: &Vec<char>, pat: &Vec<char>, start: usize) -> (r: bool)
    ensures
        r == matches_at(s@, pat@, start as int),
{
    if start > s.len() || pat.len() > s.len() - start {
        return false;
    }
    let slen = s.len();
    let mut k: usize = 0;
    while k < pat.len()
        invariant
            k <= pat@.len(),
            slen == s@.len(),
            start + pat@.len() <= slen,
            forall|m: int| 0 <= m < k ==> s@[start + m] == pat@[m],
        decreases pat@.len() - k,
    {
        proof {
            assert(start + k < slen);
        }
        if s[start + k] != pat[k] {
            return false;
        }
        k = k + 1;
    }
    true
}

fn find_seq_exec(s: &Vec<char>, pat: &Vec<char>, start: usize) -> (r: usize)
    ensures
        r as int == find_seq(s@, pat@, start as int),
        r <= s@.len(),
        start <= s@.len() ==> start <= r,
        r < s@.len() ==> r + pat@.len() <= s@.len(),
{
    if pat.len() > s.len() {
        return s.len();
    }
    let limit = s.len() - pat.len();
    if start > limit {
        return s.len();
    }
    let mut i = start;
    while i <= limit
        invariant
            start <= i <= limit,
            limit == s@.len() - pat@.len(),
            find_seq(s@, pat@, start as int) == find_seq(s@, pat@, i as int),
        decreases limit - i,
    {
        if matches_at_exec(s, pat, i) {
            return i;
        }
        if i == limit {
            proof {
                assert(find_seq(s@, pat@, i as int) == find_seq(s@, pat@, i + 1 as int));
                assert(find_seq(s@, pat@, i + 1 as int) == s@.len());
            }
            return s.len();
        }
        i = i + 1;
    }
    s.len()
}

fn copy_range(s: &Vec<char>, from: usize, to: usize) -> (r: Vec<char>)
    requires
        from <= to <= s@.len(),
    ensures
        r@ == s@.subrange(from as int, to as int),
{
    let mut out: Vec<char> = Vec::new();
    let mut i = from;
    while i < to
        invariant
            from <= i <= to <= s@.len(),
            out@ == s@.subrange(from as int, i as int),
        decreases to - i,
    {
        out.push(s[i]);
        proof {
            assert(out@ =~= s@.subrange(from as int, i + 1 as int));
        }
        i = i + 1;
    }
    out
}

/// Builds the string of `s[from..to]` with leading and trailing whitespace
/// trimmed.
fn trim_range(s: &Vec<char>, from: usize, to: usize) -> (r: String)
    requires
        from <= to <= s@.len(),
    ensures
        r@ == trim_spec(s@.subrange(from as int, to as int)),
{
    let sub = copy_range(s, from, to);
    let a = skip_ws_exec(&sub, 0);
    let mut b: usize = sub.len();
    let mut done = false;
    while !done && b > 0
        invariant
            b <= sub@.len(),
            rtrim_end(sub@, sub@.len() as int) == rtrim_end(sub@, b as int),
            done ==> (b > 0 && b <= sub@.len() && !is_ws(sub@[b - 1])),
        decreases b + (if done { 0int } else { 1int }),
    {
        let c = sub[b - 1];
        if c == ' ' || c == '\t' || c == '\n' || c == '\r' {
            b = b - 1;
        } else {
            done = true;
        }
    }
    proof {
        assert(rtrim_end(sub@, b as int) == b as int);
    }
    if a >= b {
        let r = String::new();
        proof {
            assert(r@ =~= trim_spec(sub@));
        }
        r
    } else {
        let mid = copy_range(&sub, a, b);
        let r = crate::strutil::chars_to_string(&mid);
        proof {
            assert(r@ =~= trim_spec(sub@));
        }
        r
    }
}

/// Parses an attribute list starting at `start` (just after the tag
/// name): the attributes, the diagnostics, the position after the tag,
/// whether the tag was self-closing, and whether it was ended at all.
fn parse_attrs(s: &Vec<char>, start: usize) -> (r: (
    Vec<SyntaxAttribute>,
    Vec<Diagnostic>,
    usize,
    bool,
    bool,
))
    ensures
        syntax_attrs_view(r.0@) == parse_attrs_spec(
            s@,
            start as int,
            Seq::empty(),
            Seq::empty(),
        ).0,
        diags_view(r.1@) == parse_attrs_spec(
            s@,
            start as int,
            Seq::empty(),
            Seq::empty(),
        ).1,
        r.2 as int == parse_attrs_spec(s@, start as int, Seq::empty(), Seq::empty()).2,
        r.2 <= s@.len(),
        r.3 == parse_attrs_spec(s@, start as int, Seq::empty(), Seq::empty()).3,
        r.4 == parse_attrs_spec(s@, start as int, Seq::empty(), Seq::empty()).4,
{
    let ghost sp = parse_attrs_spec(s@, start as int, Seq::empty(), Seq::empty());
    let mut attrs: Vec<SyntaxAttribute> = Vec::new();
    let mut diags: Vec<Diagnostic> = Vec::new();
    proof {
        assert(syntax_attrs_view(attrs@) =~= Seq::<SyntaxAttrView>::empty());
        assert(diags_view(diags@) =~= Seq::<DiagnosticView>::empty());
    }
    if start > s.len() {
        return (attrs, diags, s.len(), false, false);
    }
    let mut i = start;
    loop
        invariant
            i <= s@.len(),
            sp == parse_attrs_spec(s@, start as int, Seq::empty(), Seq::empty()),
            parse_attrs_spec(s@, i as int, syntax_attrs_view(attrs@), diags_view(diags@))
                == sp,
        decreases s@.len() - i,
    {
        let ghost av0 = syntax_attrs_view(attrs@);
        let ghost dv0 = diags_view(diags@);
        let j = skip_ws_exec(s, i);
        if j < i {
            return (attrs, diags, j, false, false);
        }
        if j >= s.len() {
            diags.push(error("unterminated tag", j));
            proof {
                assert(diags_view(diags@) =~= dv0.push(error_view("unterminated tag"@, j as int)));
            }
            return (attrs, diags, j, false, false);
        }
        let c = s[j];
        if c == '>' {
            return (attrs, diags, j + 1, false, true);
        } else if c == '/' {
            if j + 1 < s.len() && s[j + 1] == '>' {
                return (attrs, diags, j + 2, true, true);
            }
            if j + 1 <= i {
                return (attrs, diags, j + 1, false, false);
            }
            diags.push(error("stray character in tag", j));
            proof {
                assert(diags_view(diags@) =~= dv0.push(
                    error_view("stray character in tag"@, j as int),
                ));
            }
            i = j + 1;
        } else if c == '{' {
            let e = scan_block_exec(s, j + 1);
            if e >= s.len() {
                let expr = trim_range(s, j + 1, s.len());
                attrs.push(SyntaxAttribute::Block { expr, pos: j });
                diags.push(error("unterminated block attribute", j));
                proof {
                    assert(s@.subrange(j + 1, s@.len() as int) =~= s@.subrange(
                        j + 1,
                        s@.len() as int,
                    ));
                    assert(syntax_attrs_view(attrs@) =~= av0.push(
                        SyntaxAttrView::Block {
                            expr: trim_spec(s@.subrange(j + 1, s@.len() as int)),
                            pos: j as int,
                        },
                    ));
                    assert(diags_view(diags@) =~= dv0.push(
                        error_view("unterminated block attribute"@, j as int),
                    ));
                }
                return (attrs, diags, s.len(), false, false);
            }
            let expr = trim_range(s, j + 1, e);
            attrs.push(SyntaxAttribute::Block { expr, pos: j });
            proof {
                assert(syntax_attrs_view(attrs@) =~= av0.push(
                    SyntaxAttrView::Block {
                        expr: trim_spec(s@.subrange(j + 1 as int, e as int)),
                        pos: j as int,
                    },
                ));
            }
            if e + 1 <= i {
                return (attrs, diags, e + 1, false, false);
            }
            i = e + 1;
        } else if ('a' <= c && c <= 'z') || ('A' <= c && c <= 'Z') || ('0' <= c && c <= '9')
            || c == '-' || c == '_' {
            let k = scan_name_exec(s, j);
            let key = crate::strutil::chars_to_string(&copy_range(s, j, k));
            let ghost keyv = s@.subrange(j as int, k as int);
            let j2 = skip_ws_exec(s, k);
            if j2 < s.len() && s[j2] == '=' {
                let j3 = skip_ws_exec(s, j2 + 1);
                if j3 >= s.len() {
                    attrs.push(
                        SyntaxAttribute::Keyed { key, value: AttrValue::Absent, pos: j },
                    );
                    diags.push(error("unterminated tag", j3));
                    proof {
                        assert(syntax_attrs_view(attrs@) =~= av0.push(
                            SyntaxAttrView::Keyed {
                                key: keyv,
                                value: AttrValueView::Absent,
                                pos: j as int,
                            },
                        ));
                        assert(diags_view(diags@) =~= dv0.push(
                            error_view("unterminated tag"@, j3 as int),
                        ));
                    }
                    return (attrs, diags, j3, false, false);
                }
                let c3 = s[j3];
                if c3 == '"' {
                    let q = find_char_exec(s, '"', j3 + 1);
                    if q >= s.len() {
                        let lit = crate::strutil::chars_to_string(
                            &copy_range(s, j3 + 1, s.len()),
                        );
                        attrs.push(
                            SyntaxAttribute::Keyed {
                                key,
                                value: AttrValue::Literal(lit),
                                pos: j,
                            },
                        );
                        diags.push(error("unterminated quoted value", j3));
                        proof {
                            assert(syntax_attrs_view(attrs@) =~= av0.push(
                                SyntaxAttrView::Keyed {
                                    key: keyv,
                                    value: AttrValueView::Literal(
                                        s@.subrange(j3 + 1 as int, s@.len() as int),
                                    ),
                                    pos: j as int,
                                },
                            ));
                            assert(diags_view(diags@) =~= dv0.push(
                                error_view("unterminated quoted value"@, j3 as int),
                            ));
                        }
                        return (attrs, diags, s.len(), false, false);
                    }
                    let lit = crate::strutil::chars_to_string(&copy_range(s, j3 + 1, q));
                    attrs.push(
                        SyntaxAttribute::Keyed { key, value: AttrValue::Literal(lit), pos: j },
                    );
                    proof {
                        assert(syntax_attrs_view(attrs@) =~= av0.push(
                            SyntaxAttrView::Keyed {
                                key: keyv,
                                value: AttrValueView::Literal(
                                    s@.subrange(j3 + 1 as int, q as int),
                                ),
                                pos: j as int,
                            },
                        ));
                    }
                    if q + 1 <= i {
                        return (attrs, diags, q + 1, false, false);
                    }
                    i = q + 1;
                } else if c3 == '{' {
                    let e = scan_block_exec(s, j3 + 1);
                    if e >= s.len() {
                        let expr = trim_range(s, j3 + 1, s.len());
                        attrs.push(
                            SyntaxAttribute::Keyed { key, value: AttrValue::Expr(expr), pos: j },
                        );
                        diags.push(error("unterminated block value", j3));
                        proof {
                            assert(syntax_attrs_view(attrs@) =~= av0.push(
                                SyntaxAttrView::Keyed {
                                    key: keyv,
                                    value: AttrValueView::Expr(
                                        trim_spec(s@.subrange(j3 + 1 as int, s@.len() as int)),
                                    ),
                                    pos: j as int,
                                },
                            ));
                            assert(diags_view(diags@) =~= dv0.push(
                                error_view("unterminated block value"@, j3 as int),
                            ));
                        }
                        return (attrs, diags, s.len(), false, false);
                    }
                    let expr = trim_range(s, j3 + 1, e);
                    attrs.push(
                        SyntaxAttribute::Keyed { key, value: AttrValue::Expr(expr), pos: j },
                    );
                    proof {
                        assert(syntax_attrs_view(attrs@) =~= av0.push(
                            SyntaxAttrView::Keyed {
                                key: keyv,
                                value: AttrValueView::Expr(
                                    trim_spec(s@.subrange(j3 + 1 as int, e as int)),
                                ),
                                pos: j as int,
                            },
                        ));
                    }
                    if e + 1 <= i {
                        return (attrs, diags, e + 1, false, false);
                    }
                    i = e + 1;
                } else {
                    let b = scan_bare_exec(s, j3);
                    if b <= j3 {
                        attrs.push(
                            SyntaxAttribute::Keyed { key, value: AttrValue::Absent, pos: j },
                        );
                        diags.push(error("missing attribute value", j3));
                        proof {
                            assert(syntax_attrs_view(attrs@) =~= av0.push(
                                SyntaxAttrView::Keyed {
                                    key: keyv,
                                    value: AttrValueView::Absent,
                                    pos: j as int,
                                },
                            ));
                            assert(diags_view(diags@) =~= dv0.push(
                                error_view("missing attribute value"@, j3 as int),
                            ));
                        }
                        if j3 <= i {
                            return (attrs, diags, j3, false, false);
                        }
                        i = j3;
                    } else {
                        let lit = crate::strutil::chars_to_string(&copy_range(s, j3, b));
                        attrs.push(
                            SyntaxAttribute::Keyed {
                                key,
                                value: AttrValue::Literal(lit),
                                pos: j,
                            },
                        );
                        proof {
                            assert(syntax_attrs_view(attrs@) =~= av0.push(
                                SyntaxAttrView::Keyed {
                                    key: keyv,
                                    value: AttrValueView::Literal(
                                        s@.subrange(j3 as int, b as int),
                                    ),
                                    pos: j as int,
                                },
                            ));
                        }
                        if b <= i {
                            return (attrs, diags, b, false, false);
                        }
                        i = b;
                    }
                }
            } else {
                attrs.push(SyntaxAttribute::Keyed { key, value: AttrValue::Absent, pos: j });
                proof {
                    assert(syntax_attrs_view(attrs@) =~= av0.push(
                        SyntaxAttrView::Keyed {
                            key: keyv,
                            value: AttrValueView::Absent,
                            pos: j as int,
                        },
                    ));
                }
                if k <= i || k > s.len() {
                    return (attrs, diags, k, false, false);
                }
                i = k;
            }
        } else {
            diags.push(error("stray character in tag", j));
            proof {
                assert(diags_view(diags@) =~= dv0.push(
                    error_view("stray character in tag"@, j as int),
                ));
            }
            if j + 1 <= i {
                return (attrs, diags, j + 1, false, false);
            }
            i = j + 1;
        }
    }
}

/// Builds the string of `s[from..to]` with whitespace collapsed.
fn collapse_range(s: &Vec<char>, from: usize, to: usize) -> (r: String)
    requires
        from <= to <= s@.len(),
    ensures
        r@ == collapse_ws(s@.subrange(from as int, to as int)),
{
    let sub = copy_range(s, from, to);
    let mut out: Vec<char> = Vec::new();
    let mut pending = false;
    let mut i: usize = 0;
    while i < sub.len()
        invariant
            i <= sub@.len(),
            collapse_ws(sub@) == collapse_step(sub@, i as int, out@, pending),
        decreases sub@.len() - i,
    {
        let ghost out0 = out@;
        let c = sub[i];
        if c == ' ' || c == '\t' || c == '\n' || c == '\r' {
            pending = out.len() > 0;
        } else if pending {
            out.push(' ');
            out.push(c);
            pending = false;
            proof {
                assert(out@ =~= out0 + seq![' '] + seq![c]);
            }
        } else {
            out.push(c);
            proof {
                assert(out@ =~= out0 + seq![c]);
            }
        }
        i = i + 1;
    }
    crate::strutil::chars_to_string(&out)
}

/// Parses one element starting at `start` (which holds `<` followed by a
/// name character), appending its diagnostics.
#[verifier::rlimit(100)]
fn parse_element(
    s: &Vec<char>,
    g: &crate::grammar::GrammarTable,
    start: usize,
    diags: &mut Vec<Diagnostic>,
) -> (r: (crate::syntax::SyntaxNode, usize))
    requires
        start < s@.len(),
    ensures
        r.0@ == parse_element_spec(s@, g@, start as int).0,
        diags_view(final(diags)@) == diags_view(old(diags)@) + parse_element_spec(
            s@,
            g@,
            start as int,
        ).1,
        r.1 as int == parse_element_spec(s@, g@, start as int).2,
        r.1 <= s@.len(),
    decreases s@.len() - start, 0int,
{
    let slen = s.len();
    proof {
        assert(start + 1 <= slen);
    }
    let ghost sp = parse_element_spec(s@, g@, start as int);
    let k = scan_name_exec(s, start + 1);
    let name = crate::strutil::chars_to_string(&copy_range(s, start + 1, k));
    let ghost namev = s@.subrange(start + 1 as int, k as int);
    let (attrs, mut adiags, p, self_closed, ok) = parse_attrs(s, k);
    let ghost attrsv = syntax_attrs_view(attrs@);
    let ghost adiagsv = diags_view(adiags@);
    if !ok {
        let node = crate::syntax::SyntaxNode::Element(
            crate::syntax::SyntaxElement {
                name,
                attributes: attrs,
                children: Vec::new(),
                self_closed: false,
                pos: start,
            },
        );
        diags.append(&mut adiags);
        proof {
            assert(crate::syntax::syntax_seq_view(Seq::<crate::syntax::SyntaxNode>::empty())
                =~= Seq::<SyntaxView>::empty());
            assert(node@ == sp.0);
            assert(diags_view(diags@) =~= diags_view(old(diags)@) + sp.1);
        }
        return (node, p);
    }
    let is_void = g.is_void(name.as_str());
    if self_closed || is_void {
        let node = crate::syntax::SyntaxNode::Element(
            crate::syntax::SyntaxElement {
                name,
                attributes: attrs,
                children: Vec::new(),
                self_closed,
                pos: start,
            },
        );
        diags.append(&mut adiags);
        proof {
            assert(crate::syntax::syntax_seq_view(Seq::<crate::syntax::SyntaxNode>::empty())
                =~= Seq::<SyntaxView>::empty());
            assert(node@ == sp.0);
            assert(diags_view(diags@) =~= diags_view(old(diags)@) + sp.1);
        }
        return (node, p);
    }
    if g.is_raw_text(name.as_str()) {
        let mut pat: Vec<char> = Vec::new();
        pat.push('<');
        pat.push('/');
        let mut nc = crate::strutil::string_to_chars(name.as_str());
        let nlen = nc.len();
        pat.append(&mut nc);
        proof {
            assert(pat@ =~= seq!['<', '/'] + namev);
        }
        let rp = find_seq_exec(s, &pat, p);
        if rp >= s.len() {
            let content = collapse_range(s, p, s.len());
            let mut ch: Vec<crate::syntax::SyntaxNode> = Vec::new();
            ch.push(crate::syntax::SyntaxNode::RawText(content));
            proof {
                assert(ch@.len() == 1);
                assert(ch@[0]@ == SyntaxView::RawText(
                    collapse_ws(s@.subrange(p as int, s@.len() as int)),
                ));
                assert(crate::syntax::syntax_seq_view_from(ch@, 1) =~= Seq::<
                    SyntaxView,
                >::empty());
                assert(crate::syntax::syntax_seq_view_from(ch@, 0) =~= seq![
                    SyntaxView::RawText(collapse_ws(s@.subrange(p as int, s@.len() as int))),
                ]);
            }
            let node = crate::syntax::SyntaxNode::Element(
                crate::syntax::SyntaxElement {
                    name,
                    attributes: attrs,
                    children: ch,
                    self_closed: false,
                    pos: start,
                },
            );
            diags.append(&mut adiags);
            diags.push(error("unterminated raw-text element", start));
            proof {
                assert(node@ matches SyntaxView::Element(ev) && ev.children
                    =~= seq![
                    SyntaxView::RawText(collapse_ws(s@.subrange(p as int, s@.len() as int))),
                ]);
                assert(node@ == sp.0);
                assert(diags_view(diags@) =~= diags_view(old(diags)@) + sp.1);
            }
            return (node, s.len());
        }
        let content = collapse_range(s, p, rp);
        let mut ch: Vec<crate::syntax::SyntaxNode> = Vec::new();
        ch.push(crate::syntax::SyntaxNode::RawText(content));
        proof {
            assert(ch@.len() == 1);
            assert(ch@[0]@ == SyntaxView::RawText(collapse_ws(s@.subrange(p as int, rp as int))));
            assert(crate::syntax::syntax_seq_view_from(ch@, 1) =~= Seq::<SyntaxView>::empty());
            assert(crate::syntax::syntax_seq_view_from(ch@, 0) =~= seq![
                SyntaxView::RawText(collapse_ws(s@.subrange(p as int, rp as int))),
            ]);
            assert(rp < s@.len());
            assert(rp + pat@.len() <= s@.len());
        }
        let node = crate::syntax::SyntaxNode::Element(
            crate::syntax::SyntaxElement {
                name,
                attributes: attrs,
                children: ch,
                self_closed: false,
                pos: start,
            },
        );
        proof {
            assert(pat@.len() == 2 + nlen);
            assert(rp + 2 + nlen <= s@.len());
            assert(namev.len() == nlen);
            assert(node@ matches SyntaxView::Element(ev) && ev.children =~= seq![
                SyntaxView::RawText(collapse_ws(s@.subrange(p as int, rp as int))),
            ]);
            assert(node@ == sp.0);
        }
        let q = skip_ws_exec(s, rp + 2 + nlen);
        if q < s.len() && s[q] == '>' {
            diags.append(&mut adiags);
            proof {
                assert(diags_view(diags@) =~= diags_view(old(diags)@) + sp.1);
            }
            (node, q + 1)
        } else {
            diags.append(&mut adiags);
            diags.push(error("malformed close tag", q));
            proof {
                assert(diags_view(diags@) =~= diags_view(old(diags)@) + sp.1);
            }
            (node, q)
        }
    } else {
        if p <= start {
            let node = crate::syntax::SyntaxNode::Element(
                crate::syntax::SyntaxElement {
                    name,
                    attributes: attrs,
                    children: Vec::new(),
                    self_closed: false,
                    pos: start,
                },
            );
            diags.append(&mut adiags);
            proof {
                assert(crate::syntax::syntax_seq_view(
                    Seq::<crate::syntax::SyntaxNode>::empty(),
                ) =~= Seq::<SyntaxView>::empty());
                assert(node@ == sp.0);
                assert(diags_view(diags@) =~= diags_view(old(diags)@) + sp.1);
            }
            return (node, p);
        }
        let mut children: Vec<crate::syntax::SyntaxNode> = Vec::new();
        let mut cdiags: Vec<Diagnostic> = Vec::new();
        let pc = parse_nodes(s, g, p, Some(&name), &mut children, &mut cdiags);
        let ghost pcs = parse_nodes_spec(s@, g@, p as int, Some(namev), Seq::empty());
        proof {
            assert(crate::syntax::syntax_seq_view(Seq::<crate::syntax::SyntaxNode>::empty())
                =~= Seq::<SyntaxView>::empty());
            assert(crate::syntax::syntax_seq_view(children@) == pcs.0);
        }
        let closed = pc.1;
        let node = crate::syntax::SyntaxNode::Element(
            crate::syntax::SyntaxElement {
                name,
                attributes: attrs,
                children,
                self_closed: false,
                pos: start,
            },
        );
        diags.append(&mut adiags);
        diags.append(&mut cdiags);
        if !closed {
            diags.push(error("unclosed element", start));
        }
        proof {
            assert(node@ == sp.0);
            assert(diags_view(diags@) =~= diags_view(old(diags)@) + sp.1);
        }
        (node, pc.0)
    }
}

/// Moves every sibling after position `mi - 1` into the element at
/// `mi - 1` as its source-level children.
fn adopt_last(acc: &mut Vec<crate::syntax::SyntaxNode>, mi: usize)
    requires
        1 <= mi <= old(acc)@.len(),
        old(acc)@[mi - 1int] matches crate::syntax::SyntaxNode::Element(_),
    ensures
        crate::syntax::syntax_seq_view(final(acc)@) == adopt(
            crate::syntax::syntax_seq_view(old(acc)@),
            mi - 1int,
        ),
{
    let ghost pre = old(acc)@;
    let ghost accv = crate::syntax::syntax_seq_view(pre);
    proof {
        crate::syntax::lemma_syntax_seq_view(pre);
    }
    let mut tail = acc.split_off(mi);
    let ghost tailv = tail@;
    let el = match acc.pop() {
        Some(x) => x,
        None => {
            proof {
                assert(false);
            }
            crate::syntax::SyntaxNode::Text(String::new())
        },
    };
    proof {
        assert(el == pre[mi - 1int]);
        assert(acc@ =~= pre.subrange(0, mi - 1int));
        assert(tailv =~= pre.subrange(mi as int, pre.len() as int));
    }
    match el {
        crate::syntax::SyntaxNode::Element(mut e) => {
            let ghost oldkids = e.children@;
            e.children.append(&mut tail);
            proof {
                assert(e.children@ =~= oldkids + tailv);
            }
            let node = crate::syntax::SyntaxNode::Element(e);
            proof {
                let m = mi - 1int;
                crate::syntax::lemma_syntax_seq_view(tailv);
                crate::syntax::lemma_syntax_seq_view_concat(oldkids, tailv);
                assert(accv[m] == pre[m]@);
                assert(accv[m] matches SyntaxView::Element(_));
                assert(crate::syntax::syntax_seq_view(tailv) =~= accv.subrange(
                    m + 1,
                    accv.len() as int,
                ));
                assert(node@ matches SyntaxView::Element(ev2) && ev2
                    == SyntaxElementView {
                    name: accv[m]->Element_0.name,
                    attributes: accv[m]->Element_0.attributes,
                    children: accv[m]->Element_0.children + accv.subrange(
                        m + 1,
                        accv.len() as int,
                    ),
                    self_closed: accv[m]->Element_0.self_closed,
                    pos: accv[m]->Element_0.pos,
                });
            }
            acc.push(node);
            proof {
                let m = mi - 1int;
                crate::syntax::lemma_syntax_seq_view(acc@);
                assert(crate::syntax::syntax_seq_view(acc@) =~= adopt(accv, m));
            }
        },
        other => {
            proof {
                assert(false);
            }
            acc.push(other);
        },
    }
}

/// Handles one close tag at `start` (which holds `</`): matching the
/// expected closer ends the run; a void-element name adopts the siblings
/// parsed since its open tag; anything else is recovered from.
#[verifier::rlimit(100)]
fn parse_close_tag(
    s: &Vec<char>,
    g: &crate::grammar::GrammarTable,
    start: usize,
    closer: Option<&String>,
    acc: &mut Vec<crate::syntax::SyntaxNode>,
    diags: &mut Vec<Diagnostic>,
) -> (r: (usize, bool))
    requires
        start + 1 < s@.len(),
        s@[start as int] == '<',
        s@[start + 1 as int] == '/',
    ensures
        crate::syntax::syntax_seq_view(final(acc)@) == parse_nodes_spec(
            s@,
            g@,
            start as int,
            closer_view(closer),
            crate::syntax::syntax_seq_view(old(acc)@),
        ).0,
        diags_view(final(diags)@) == diags_view(old(diags)@) + parse_nodes_spec(
            s@,
            g@,
            start as int,
            closer_view(closer),
            crate::syntax::syntax_seq_view(old(acc)@),
        ).1,
        r.0 as int == parse_nodes_spec(
            s@,
            g@,
            start as int,
            closer_view(closer),
            crate::syntax::syntax_seq_view(old(acc)@),
        ).2,
        r.0 <= s@.len(),
        r.1 == parse_nodes_spec(
            s@,
            g@,
            start as int,
            closer_view(closer),
            crate::syntax::syntax_seq_view(old(acc)@),
        ).3,
    decreases s@.len() - start, 1int,
{
    let ghost cv = closer_view(closer);
    let ghost accv = crate::syntax::syntax_seq_view(acc@);
    let ghost sp = parse_nodes_spec(s@, g@, start as int, cv, accv);
    let ghost dv0 = diags_view(diags@);
    proof {
        crate::syntax::lemma_syntax_seq_view(acc@);
    }
    let slen = s.len();
    proof {
        assert(start + 2 <= slen);
    }
    let i = start;
    let k2 = skip_ws_exec(s, i + 2);
    let n_end = scan_name_exec(s, k2);
    let nm = crate::strutil::chars_to_string(&copy_range(s, k2, n_end));
    let ghost nmv = s@.subrange(k2 as int, n_end as int);
    let q = skip_ws_exec(s, n_end);
    let malformed = !(q < s.len() && s[q] == '>');
    let end = if q < s.len() {
        q + 1
    } else {
        s.len()
    };
    let closer_matches = match closer {
        Some(cn) => crate::strutil::str_eq(cn.as_str(), nm.as_str()),
        None => false,
    };
    if closer_matches {
        if malformed {
            diags.push(error("malformed close tag", i));
            proof {
                assert(diags_view(diags@) =~= dv0 + seq![
                    error_view("malformed close tag"@, i as int),
                ]);
            }
            return (end, true);
        }
        proof {
            assert(diags_view(diags@) =~= dv0 + Seq::<DiagnosticView>::empty());
        }
        return (end, true);
    }
    if g.is_void(nm.as_str()) {
        let mut mi: usize = acc.len();
        let mut found = false;
        while mi > 0 && !found
            invariant
                mi <= acc@.len(),
                accv == crate::syntax::syntax_seq_view(acc@),
                accv.len() == acc@.len(),
                forall|x: int| 0 <= x < acc@.len() ==> #[trigger] accv[x] == acc@[x]@,
                nmv == nm@,
                !found ==> find_last_elem(accv, nmv, accv.len() - 1) == find_last_elem(
                    accv,
                    nmv,
                    mi - 1int,
                ),
                found ==> mi >= 1 && find_last_elem(accv, nmv, accv.len() - 1) == mi - 1int,
                found ==> (acc@[mi - 1int] matches crate::syntax::SyntaxNode::Element(_)),
            decreases mi + (if found { 0int } else { 1int }),
        {
            let is_match = match &acc[mi - 1] {
                crate::syntax::SyntaxNode::Element(e) => crate::strutil::str_eq(
                    e.name.as_str(),
                    nm.as_str(),
                ),
                _ => false,
            };
            if is_match {
                found = true;
            } else {
                mi = mi - 1;
            }
        }
        let ghost d1: Seq<DiagnosticView> = if found {
            Seq::empty()
        } else {
            seq![error_view("unmatched close tag"@, i as int)]
        };
        let ghost acc2v = if found {
            adopt(accv, mi - 1int)
        } else {
            accv
        };
        if found {
            adopt_last(acc, mi);
        } else {
            diags.push(error("unmatched close tag", i));
        }
        if malformed {
            diags.push(error("malformed close tag", i));
        }
        let ghost d2: Seq<DiagnosticView> = if malformed {
            seq![error_view("malformed close tag"@, i as int)]
        } else {
            Seq::empty()
        };
        proof {
            assert(crate::syntax::syntax_seq_view(acc@) == acc2v);
            assert(diags_view(diags@) =~= dv0 + (d1 + d2));
            if !found {
                assert(find_last_elem(accv, nmv, accv.len() - 1) < 0);
            }
        }
        if end <= i {
            proof {
                assert(sp.1 =~= d1 + d2);
            }
            return (end, false);
        }
        let r2 = parse_nodes(s, g, end, closer, acc, diags);
        proof {
            let rest = parse_nodes_spec(s@, g@, end as int, cv, acc2v);
            assert(sp.0 == rest.0);
            assert(sp.1 =~= (d1 + d2) + rest.1);
            assert(diags_view(diags@) =~= dv0 + sp.1);
        }
        return r2;
    }
    match closer {
        Some(_) => {
            proof {
                assert(diags_view(diags@) =~= dv0 + Seq::<DiagnosticView>::empty());
            }
            (i, false)
        },
        None => {
            diags.push(error("unmatched close tag", i));
            let ghost d: Seq<DiagnosticView> = seq![
                error_view("unmatched close tag"@, i as int),
            ];
            proof {
                assert(diags_view(diags@) =~= dv0 + d);
            }
            if end <= i {
                return (end, false);
            }
            let r2 = parse_nodes(s, g, end, closer, acc, diags);
            proof {
                let rest = parse_nodes_spec(s@, g@, end as int, cv, accv);
                assert(sp.0 == rest.0);
                assert(sp.1 =~= d + rest.1);
                assert(diags_view(diags@) =~= dv0 + sp.1);
            }
            r2
        },
    }
}

/// Parses a run of sibling nodes from `start` up to the close tag named by
/// `closer` (the empty name closes a fragment) or the end of input,
/// appending nodes to `acc` and diagnostics to `diags`; returns the
/// position after the run and whether the expected close tag was found.
#[verifier::rlimit(100)]
fn parse_nodes(
    s: &Vec<char>,
    g: &crate::grammar::GrammarTable,
    start: usize,
    closer: Option<&String>,
    acc: &mut Vec<crate::syntax::SyntaxNode>,
    diags: &mut Vec<Diagnostic>,
) -> (r: (usize, bool))
    ensures
        crate::syntax::syntax_seq_view(final(acc)@) == parse_nodes_spec(
            s@,
            g@,
            start as int,
            closer_view(closer),
            crate::syntax::syntax_seq_view(old(acc)@),
        ).0,
        diags_view(final(diags)@) == diags_view(old(diags)@) + parse_nodes_spec(
            s@,
            g@,
            start as int,
            closer_view(closer),
            crate::syntax::syntax_seq_view(old(acc)@),
        ).1,
        r.0 as int == parse_nodes_spec(
            s@,
            g@,
            start as int,
            closer_view(closer),
            crate::syntax::syntax_seq_view(old(acc)@),
        ).2,
        r.0 <= s@.len(),
        r.1 == parse_nodes_spec(
            s@,
            g@,
            start as int,
            closer_view(closer),
            crate::syntax::syntax_seq_view(old(acc)@),
        ).3,
    decreases s@.len() - start, 2int,
{
    let ghost cv = closer_view(closer);
    let ghost accv = crate::syntax::syntax_seq_view(acc@);
    let ghost sp = parse_nodes_spec(s@, g@, start as int, cv, accv);
    let ghost dv0 = diags_view(diags@);
    proof {
        crate::syntax::lemma_syntax_seq_view(acc@);
        assert(diags_view(diags@) =~= dv0 + Seq::<DiagnosticView>::empty());
    }
    if start >= s.len() {
        return (s.len(), false);
    }
    let i = start;
    let c = s[i];
    if c == '<' {
        if i + 1 < s.len() && s[i + 1] == '/' {
            let r2 = parse_close_tag(s, g, i, closer, acc, diags);
            return r2;
        }
        let mut pat_comment: Vec<char> = Vec::new();
        pat_comment.push('<');
        pat_comment.push('!');
        pat_comment.push('-');
        pat_comment.push('-');
        proof {
            reveal_strlit("<!--");
            assert(pat_comment@ =~= "<!--"@);
        }
        if matches_at_exec(s, &pat_comment, i) {
            let cstart = i + 4;
            let mut pat_end: Vec<char> = Vec::new();
            pat_end.push('-');
            pat_end.push('-');
            pat_end.push('>');
            proof {
                reveal_strlit("-->");
                assert(pat_end@ =~= "-->"@);
            }
            let cend = find_seq_exec(s, &pat_end, cstart);
            if cend >= s.len() {
                let content = trim_range(s, cstart, s.len());
                acc.push(crate::syntax::SyntaxNode::Comment(content));
                diags.push(error("unterminated comment", i));
                proof {
                    crate::syntax::lemma_syntax_seq_view(acc@);
                    assert(crate::syntax::syntax_seq_view(acc@) =~= accv.push(
                        SyntaxView::Comment(
                            trim_spec(s@.subrange(cstart as int, s@.len() as int)),
                        ),
                    ));
                    assert(diags_view(diags@) =~= dv0 + seq![
                        error_view("unterminated comment"@, i as int),
                    ]);
                }
                return (s.len(), false);
            }
            let content = trim_range(s, cstart, cend);
            acc.push(crate::syntax::SyntaxNode::Comment(content));
            let ghost acc2v = accv.push(
                SyntaxView::Comment(trim_spec(s@.subrange(cstart as int, cend as int))),
            );
            proof {
                crate::syntax::lemma_syntax_seq_view(acc@);
                assert(crate::syntax::syntax_seq_view(acc@) =~= acc2v);
            }
            let next = cend + 3;
            if next <= i {
                return (next, false);
            }
            let r2 = parse_nodes(s, g, next, closer, acc, diags);
            proof {
                let rest = parse_nodes_spec(s@, g@, next as int, cv, acc2v);
                assert(sp == rest);
            }
            return r2;
        }
        let mut pat_doctype: Vec<char> = Vec::new();
        pat_doctype.push('<');
        pat_doctype.push('!');
        pat_doctype.push('D');
        pat_doctype.push('O');
        pat_doctype.push('C');
        pat_doctype.push('T');
        pat_doctype.push('Y');
        pat_doctype.push('P');
        pat_doctype.push('E');
        proof {
            reveal_strlit("<!DOCTYPE");
            assert(pat_doctype@ =~= "<!DOCTYPE"@);
        }
        if matches_at_exec(s, &pat_doctype, i) {
            let dstart = i + 9;
            let dend = find_char_exec(s, '>', dstart);
            if dend >= s.len() {
                let content = trim_range(s, dstart, s.len());
                acc.push(crate::syntax::SyntaxNode::Doctype(content));
                diags.push(error("unterminated doctype", i));
                proof {
                    crate::syntax::lemma_syntax_seq_view(acc@);
                    assert(crate::syntax::syntax_seq_view(acc@) =~= accv.push(
                        SyntaxView::Doctype(
                            trim_spec(s@.subrange(dstart as int, s@.len() as int)),
                        ),
                    ));
                    assert(diags_view(diags@) =~= dv0 + seq![
                        error_view("unterminated doctype"@, i as int),
                    ]);
                }
                return (s.len(), false);
            }
            let content = trim_range(s, dstart, dend);
            acc.push(crate::syntax::SyntaxNode::Doctype(content));
            let ghost acc2v = accv.push(
                SyntaxView::Doctype(trim_spec(s@.subrange(dstart as int, dend as int))),
            );
            proof {
                crate::syntax::lemma_syntax_seq_view(acc@);
                assert(crate::syntax::syntax_seq_view(acc@) =~= acc2v);
            }
            let next = dend + 1;
            if next <= i {
                return (next, false);
            }
            let r2 = parse_nodes(s, g, next, closer, acc, diags);
            proof {
                let rest = parse_nodes_spec(s@, g@, next as int, cv, acc2v);
                assert(sp == rest);
            }
            return r2;
        }
        if i + 1 < s.len() && s[i + 1] == '>' {
            let empty_name = String::new();
            let mut fchildren: Vec<crate::syntax::SyntaxNode> = Vec::new();
            let mut fdiags: Vec<Diagnostic> = Vec::new();
            let pf = parse_nodes(s, g, i + 2, Some(&empty_name), &mut fchildren, &mut fdiags);
            let ghost pfs = parse_nodes_spec(
                s@,
                g@,
                i + 2 as int,
                Some(Seq::empty()),
                Seq::empty(),
            );
            proof {
                assert(crate::syntax::syntax_seq_view(
                    Seq::<crate::syntax::SyntaxNode>::empty(),
                ) =~= Seq::<SyntaxView>::empty());
                assert(empty_name@ =~= Seq::<char>::empty());
                assert(crate::syntax::syntax_seq_view(fchildren@) == pfs.0);
            }
            acc.push(crate::syntax::SyntaxNode::Fragment(fchildren));
            diags.append(&mut fdiags);
            if !pf.1 {
                diags.push(error("unclosed fragment", i));
            }
            let ghost acc2v = accv.push(SyntaxView::Fragment(pfs.0));
            let ghost d: Seq<DiagnosticView> = if pf.1 {
                pfs.1
            } else {
                pfs.1 + seq![error_view("unclosed fragment"@, i as int)]
            };
            proof {
                crate::syntax::lemma_syntax_seq_view(acc@);
                assert(crate::syntax::syntax_seq_view(acc@) =~= acc2v);
                assert(diags_view(diags@) =~= dv0 + d);
            }
            if pf.0 <= i {
                proof {
                    assert(sp.1 =~= d);
                }
                return (pf.0, false);
            }
            let r2 = parse_nodes(s, g, pf.0, closer, acc, diags);
            proof {
                let rest = parse_nodes_spec(s@, g@, pf.0 as int, cv, acc2v);
                assert(sp.0 == rest.0);
                assert(sp.1 =~= d + rest.1);
                assert(diags_view(diags@) =~= dv0 + sp.1);
            }
            return r2;
        }
        let is_name = if i + 1 < s.len() {
            let c2 = s[i + 1];
            ('a' <= c2 && c2 <= 'z') || ('A' <= c2 && c2 <= 'Z') || ('0' <= c2 && c2 <= '9')
                || c2 == '-' || c2 == '_'
        } else {
            false
        };
        if is_name {
            let pe = parse_element(s, g, i, diags);
            let ghost pes = parse_element_spec(s@, g@, i as int);
            acc.push(pe.0);
            let ghost acc2v = accv.push(pes.0);
            proof {
                crate::syntax::lemma_syntax_seq_view(acc@);
                assert(crate::syntax::syntax_seq_view(acc@) =~= acc2v);
            }
            if pe.1 <= i {
                proof {
                    assert(sp.1 =~= pes.1);
                }
                return (pe.1, false);
            }
            let r2 = parse_nodes(s, g, pe.1, closer, acc, diags);
            proof {
                let rest = parse_nodes_spec(s@, g@, pe.1 as int, cv, acc2v);
                assert(sp.0 == rest.0);
                assert(sp.1 =~= pes.1 + rest.1);
                assert(diags_view(diags@) =~= dv0 + sp.1);
            }
            return r2;
        }
        diags.push(error("unexpected angle bracket", i));
        let ghost d: Seq<DiagnosticView> = seq![
            error_view("unexpected angle bracket"@, i as int),
        ];
        proof {
            assert(diags_view(diags@) =~= dv0 + d);
        }
        let r2 = parse_nodes(s, g, i + 1, closer, acc, diags);
        proof {
            let rest = parse_nodes_spec(s@, g@, i + 1 as int, cv, accv);
            assert(sp.0 == rest.0);
            assert(sp.1 =~= d + rest.1);
            assert(diags_view(diags@) =~= dv0 + sp.1);
        }
        return r2;
    } else if c == '{' {
        let e = scan_block_exec(s, i + 1);
        if e >= s.len() {
            let expr = trim_range(s, i + 1, s.len());
            acc.push(crate::syntax::SyntaxNode::Block { expr, pos: i });
            diags.push(error("unterminated block", i));
            proof {
                crate::syntax::lemma_syntax_seq_view(acc@);
                assert(crate::syntax::syntax_seq_view(acc@) =~= accv.push(
                    SyntaxView::Block {
                        expr: trim_spec(s@.subrange(i + 1 as int, s@.len() as int)),
                        pos: i as int,
                    },
                ));
                assert(diags_view(diags@) =~= dv0 + seq![
                    error_view("unterminated block"@, i as int),
                ]);
            }
            return (s.len(), false);
        }
        let expr = trim_range(s, i + 1, e);
        acc.push(crate::syntax::SyntaxNode::Block { expr, pos: i });
        let ghost acc2v = accv.push(
            SyntaxView::Block {
                expr: trim_spec(s@.subrange(i + 1 as int, e as int)),
                pos: i as int,
            },
        );
        proof {
            crate::syntax::lemma_syntax_seq_view(acc@);
            assert(crate::syntax::syntax_seq_view(acc@) =~= acc2v);
        }
        if e + 1 <= i {
            return (e + 1, false);
        }
        let r2 = parse_nodes(s, g, e + 1, closer, acc, diags);
        proof {
            let rest = parse_nodes_spec(s@, g@, e + 1 as int, cv, acc2v);
            assert(sp == rest);
        }
        return r2;
    } else {
        let t = scan_text_exec(s, i);
        let content = collapse_range(s, i, t);
        let keep = !content.as_str().is_empty();
        let ghost cwv = collapse_ws(s@.subrange(i as int, t as int));
        if keep {
            acc.push(crate::syntax::SyntaxNode::Text(content));
        }
        let ghost acc2v = if cwv.len() > 0 {
            accv.push(SyntaxView::Text(cwv))
        } else {
            accv
        };
        proof {
            crate::syntax::lemma_syntax_seq_view(acc@);
            assert(crate::syntax::syntax_seq_view(acc@) =~= acc2v);
        }
        if t <= i {
            return (t, false);
        }
        let r2 = parse_nodes(s, g, t, closer, acc, diags);
        proof {
            let rest = parse_nodes_spec(s@, g@, t as int, cv, acc2v);
            assert(sp == rest);
        }
        return r2;
    }
}

/// Parses a whole template into its top-level syntax nodes plus
/// diagnostics.
pub fn parse_template(src: &str, g: &crate::grammar::GrammarTable) -> (r: (
    Vec<crate::syntax::SyntaxNode>,
    Vec<Diagnostic>,
))
    ensures
        crate::syntax::syntax_seq_view(r.0@) == parse_template_spec(src@, g@).0,
        diags_view(r.1@) == parse_template_spec(src@, g@).1,
{
    let chars = crate::strutil::string_to_chars(src);
    let mut nodes: Vec<crate::syntax::SyntaxNode> = Vec::new();
    let mut diags: Vec<Diagnostic> = Vec::new();
    proof {
        assert(crate::syntax::syntax_seq_view(Seq::<crate::syntax::SyntaxNode>::empty())
            =~= Seq::<SyntaxView>::empty());
        assert(diags_view(diags@) =~= Seq::<DiagnosticView>::empty());
    }
    let _ = parse_nodes(&chars, g, 0, None, &mut nodes, &mut diags);
    proof {
        assert(diags_view(diags@) =~= parse_template_spec(src@, g@).1);
    }
    (nodes, diags)
}

} // verus!
