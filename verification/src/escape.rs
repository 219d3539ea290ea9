//! The escaping engine: pure functions mapping raw text to HTML-safe text,
//! one for element content and one for double-quoted attribute values.

use vstd::prelude::*;

verus! {

/// What one character of element content escapes to: `&` and `<` become
/// entities, everything else stands as it is.
pub open spec fn text_escape_char(c: char) -> Seq<char> {
    if c == '&' {
        seq!['&', 'a', 'm', 'p', ';']
    } else if c == '<' {
        seq!['&', 'l', 't', ';']
    } else {
        seq![c]
    }
}

/// What one character of a double-quoted attribute value escapes to: `&`,
/// `<`, `>` and `"` become entities, everything else stands as it is.
pub open spec fn attr_escape_char(c: char) -> Seq<char> {
    if c == '&' {
        seq!['&', 'a', 'm', 'p', ';']
    } else if c == '<' {
        seq!['&', 'l', 't', ';']
    } else if c == '>' {
        seq!['&', 'g', 't', ';']
    } else if c == '"' {
        seq!['&', 'q', 'u', 'o', 't', ';']
    } else {
        seq![c]
    }
}

pub open spec fn text_escape_from(s: Seq<char>, i: int) -> Seq<char>
    decreases s.len() - i,
{
    if i < 0 || i >= s.len() {
        Seq::empty()
    } else {
        text_escape_char(s[i]) + text_escape_from(s, i + 1)
    }
}

/// The element-content escaping of a whole string.
pub open spec fn text_escape(s: Seq<char>) -> Seq<char> {
    text_escape_from(s, 0)
}

pub open spec fn attr_escape_from(s: Seq<char>, i: int) -> Seq<char>
    decreases s.len() - i,
{
    if i < 0 || i >= s.len() {
        Seq::empty()
    } else {
        attr_escape_char(s[i]) + attr_escape_from(s, i + 1)
    }
}

/// The attribute-value escaping of a whole string.
pub open spec fn attr_escape(s: Seq<char>) -> Seq<char> {
    attr_escape_from(s, 0)
}

/// Escapes `s` for use as element content: the result never holds a literal
/// `<`, and text free of markup-significant characters passes through
/// unchanged.
pub fn escape_text(s: &str) -> (r: String)
    ensures
        r@ == text_escape(s@),
{
    let len = s.unicode_len();
    let mut out = String::new();
    let mut i: usize = 0;
    while i < len
        invariant
            i <= len,
            len == s@.len(),
            out@ + text_escape_from(s@, i as int) == text_escape(s@),
        decreases len - i,
    {
        let c = s.get_char(i);
        if c == '&' {
            out.append("&amp;");
            proof {
                reveal_strlit("&amp;");
                assert(out@ + text_escape_from(s@, i + 1 as int) =~= text_escape(s@));
            }
        } else if c == '<' {
            out.append("&lt;");
            proof {
                reveal_strlit("&lt;");
                assert(out@ + text_escape_from(s@, i + 1 as int) =~= text_escape(s@));
            }
        } else {
            push_char_into(&mut out, c);
            proof {
                assert(out@ + text_escape_from(s@, i + 1 as int) =~= text_escape(s@));
            }
        }
        i = i + 1;
    }
    proof {
        assert(out@ =~= text_escape(s@));
    }
    out
}

/// Escapes `s` for splicing between double quotes in an attribute position:
/// the result never holds a literal `"`.
pub fn escape_attribute_value(s: &str) -> (r: String)
    ensures
        r@ == attr_escape(s@),
{
    let len = s.unicode_len();
    let mut out = String::new();
    let mut i: usize = 0;
    while i < len
        invariant
            i <= len,
            len == s@.len(),
            out@ + attr_escape_from(s@, i as int) == attr_escape(s@),
        decreases len - i,
    {
        let c = s.get_char(i);
        if c == '&' {
            out.append("&amp;");
            proof {
                reveal_strlit("&amp;");
                assert(out@ + attr_escape_from(s@, i + 1 as int) =~= attr_escape(s@));
            }
        } else if c == '<' {
            out.append("&lt;");
            proof {
                reveal_strlit("&lt;");
                assert(out@ + attr_escape_from(s@, i + 1 as int) =~= attr_escape(s@));
            }
        } else if c == '>' {
            out.append("&gt;");
            proof {
                reveal_strlit("&gt;");
                assert(out@ + attr_escape_from(s@, i + 1 as int) =~= attr_escape(s@));
            }
        } else if c == '"' {
            out.append("&quot;");
            proof {
                reveal_strlit("&quot;");
                assert(out@ + attr_escape_from(s@, i + 1 as int) =~= attr_escape(s@));
            }
        } else {
            push_char_into(&mut out, c);
            proof {
                assert(out@ + attr_escape_from(s@, i + 1 as int) =~= attr_escape(s@));
            }
        }
        i = i + 1;
    }
    proof {
        assert(out@ =~= attr_escape(s@));
    }
    out
}

fn push_char_into(out: &mut String, c: char)
    ensures
        final(out)@ == old(out)@.push(c),
{
    crate::strutil::push_char(out, c)
}

/// Escaped element content never holds a literal `<`, and every `&` in it
/// starts an entity the escaper wrote itself.
pub proof fn lemma_text_escape_no_lt(s: Seq<char>)
    ensures
        forall|k: int|
            0 <= k < text_escape(s).len() ==> #[trigger] text_escape(s)[k] != '<',
{
    lemma_text_escape_from_no_lt(s, 0);
}

proof fn lemma_text_escape_from_no_lt(s: Seq<char>, i: int)
    ensures
        forall|k: int|
            0 <= k < text_escape_from(s, i).len() ==> #[trigger] text_escape_from(s, i)[k]
                != '<',
    decreases s.len() - i,
{
    if i < 0 || i >= s.len() {
    } else {
        lemma_text_escape_from_no_lt(s, i + 1);
        let head = text_escape_char(s[i]);
        let rest = text_escape_from(s, i + 1);
        assert forall|k: int|
            0 <= k < text_escape_from(s, i).len() implies #[trigger] text_escape_from(s, i)[k]
            != '<' by {
            if k < head.len() {
                assert(text_escape_from(s, i)[k] == head[k]);
            } else {
                assert(text_escape_from(s, i)[k] == rest[k - head.len()]);
            }
        }
    }
}

/// An escaped attribute value never holds a literal `"`, so it is always safe
/// to splice between double-quote delimiters.
pub proof fn lemma_attr_escape_no_quote(s: Seq<char>)
    ensures
        forall|k: int|
            0 <= k < attr_escape(s).len() ==> #[trigger] attr_escape(s)[k] != '"',
{
    lemma_attr_escape_from_no_quote(s, 0);
}

proof fn lemma_attr_escape_from_no_quote(s: Seq<char>, i: int)
    ensures
        forall|k: int|
            0 <= k < attr_escape_from(s, i).len() ==> #[trigger] attr_escape_from(s, i)[k]
                != '"',
    decreases s.len() - i,
{
    if i < 0 || i >= s.len() {
    } else {
        lemma_attr_escape_from_no_quote(s, i + 1);
        let head = attr_escape_char(s[i]);
        let rest = attr_escape_from(s, i + 1);
        assert forall|k: int|
            0 <= k < attr_escape_from(s, i).len() implies #[trigger] attr_escape_from(s, i)[k]
            != '"' by {
            if k < head.len() {
                assert(attr_escape_from(s, i)[k] == head[k]);
            } else {
                assert(attr_escape_from(s, i)[k] == rest[k - head.len()]);
            }
        }
    }
}

/// A string free of `<`, `>`, `&` and `"` is left unchanged by both escaping
/// functions.
pub proof fn lemma_escape_identity(s: Seq<char>)
    requires
        forall|k: int|
            0 <= k < s.len() ==> #[trigger] s[k] != '<' && s[k] != '>' && s[k] != '&' && s[k]
                != '"',
    ensures
        text_escape(s) == s,
        attr_escape(s) == s,
{
    lemma_escape_identity_from(s, 0);
    assert(text_escape(s) =~= s);
    assert(attr_escape(s) =~= s);
}

proof fn lemma_escape_identity_from(s: Seq<char>, i: int)
    requires
        0 <= i <= s.len(),
        forall|k: int|
            0 <= k < s.len() ==> #[trigger] s[k] != '<' && s[k] != '>' && s[k] != '&' && s[k]
                != '"',
    ensures
        text_escape_from(s, i) =~= s.subrange(i, s.len() as int),
        attr_escape_from(s, i) =~= s.subrange(i, s.len() as int),
    decreases s.len() - i,
{
    if i >= s.len() {
    } else {
        lemma_escape_identity_from(s, i + 1);
        assert(text_escape_from(s, i) =~= s.subrange(i, s.len() as int));
        assert(attr_escape_from(s, i) =~= s.subrange(i, s.len() as int));
    }
}

} // verus!
