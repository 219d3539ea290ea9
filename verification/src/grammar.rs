//! The grammar table: which element names are void (never closed, no
//! content) and which are raw-text elements (their body is captured
//! verbatim, not parsed as markup).  Supplied as configuration, shared by
//! the parser and the tree builder.

use vstd::prelude::*;

use crate::strutil::str_eq;

verus! {

/// The structural element classes of the markup grammar.
#[derive(Debug)]
pub struct GrammarTable {
    /// Elements whose closing tag is always omitted and which cannot carry
    /// content.
    pub void_elements: Vec<String>,
    /// Elements whose body is captured verbatim up to the matching close
    /// tag.
    pub raw_text_elements: Vec<String>,
}

/// The mathematical value of a [`GrammarTable`].
pub struct GrammarView {
    pub voids: Seq<Seq<char>>,
    pub raws: Seq<Seq<char>>,
}

impl View for GrammarTable {
    type V = GrammarView;

    open spec fn view(&self) -> GrammarView {
        GrammarView {
            voids: self.void_elements@.map_values(|s: String| s@),
            raws: self.raw_text_elements@.map_values(|s: String| s@),
        }
    }
}

/// Whether `n` is one of the names in `list`.
pub open spec fn name_in(list: Seq<Seq<char>>, n: Seq<char>) -> bool {
    exists|j: int| 0 <= j < list.len() && list[j] == n
}

/// Looks `name` up in a name list.
pub fn contains_name(list: &Vec<String>, name: &str) -> (r: bool)
    ensures
        r == name_in(list@.map_values(|s: String| s@), name@),
{
    let mut i: usize = 0;
    while i < list.len()
        invariant
            i <= list@.len(),
            forall|j: int| 0 <= j < i ==> #[trigger] list@[j]@ != name@,
        decreases list@.len() - i,
    {
        if str_eq(list[i].as_str(), name) {
            proof {
                assert(list@.map_values(|s: String| s@)[i as int] == name@);
            }
            return true;
        }
        i = i + 1;
    }
    proof {
        let views = list@.map_values(|s: String| s@);
        assert forall|j: int| 0 <= j < views.len() implies #[trigger] views[j] != name@ by {
            assert(list@[j]@ != name@);
        }
    }
    false
}

impl GrammarTable {
    /// Whether `name` is a void element.
    pub fn is_void(&self, name: &str) -> (r: bool)
        ensures
            r == name_in(self@.voids, name@),
    {
        contains_name(&self.void_elements, name)
    }

    /// Whether `name` is a raw-text element.
    pub fn is_raw_text(&self, name: &str) -> (r: bool)
        ensures
            r == name_in(self@.raws, name@),
    {
        contains_name(&self.raw_text_elements, name)
    }
}

/// The value of the standard grammar table.
pub open spec fn default_grammar_view() -> GrammarView {
    GrammarView {
        voids: seq![
            "area"@,
            "base"@,
            "br"@,
            "col"@,
            "embed"@,
            "hr"@,
            "img"@,
            "input"@,
            "link"@,
            "meta"@,
            "source"@,
            "track"@,
            "wbr"@,
        ],
        raws: seq!["script"@, "style"@],
    }
}

/// The standard grammar table: the void elements and raw-text elements of
/// the HTML syntax.
pub fn default_grammar() -> (r: GrammarTable)
    ensures
        r@ == default_grammar_view(),
        r@.voids == seq![
            "area"@,
            "base"@,
            "br"@,
            "col"@,
            "embed"@,
            "hr"@,
            "img"@,
            "input"@,
            "link"@,
            "meta"@,
            "source"@,
            "track"@,
            "wbr"@,
        ],
        r@.raws == seq!["script"@, "style"@],
{
    let mut voids: Vec<String> = Vec::new();
    voids.push("area".to_owned());
    voids.push("base".to_owned());
    voids.push("br".to_owned());
    voids.push("col".to_owned());
    voids.push("embed".to_owned());
    voids.push("hr".to_owned());
    voids.push("img".to_owned());
    voids.push("input".to_owned());
    voids.push("link".to_owned());
    voids.push("meta".to_owned());
    voids.push("source".to_owned());
    voids.push("track".to_owned());
    voids.push("wbr".to_owned());
    let mut raws: Vec<String> = Vec::new();
    raws.push("script".to_owned());
    raws.push("style".to_owned());
    let r = GrammarTable { void_elements: voids, raw_text_elements: raws };
    proof {
        assert(r@.voids =~= seq![
            "area"@,
            "base"@,
            "br"@,
            "col"@,
            "embed"@,
            "hr"@,
            "img"@,
            "input"@,
            "link"@,
            "meta"@,
            "source"@,
            "track"@,
            "wbr"@,
        ]);
        assert(r@.raws =~= seq!["script"@, "style"@]);
    }
    r
}

} // verus!
