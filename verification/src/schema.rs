//! The attribute-schema layer for typed elements: per-element attribute
//! sets, presence states, extension prefixes, hyphen/underscore key
//! normalization, and value conversion.

use vstd::prelude::*;

use crate::node::Node;
use crate::strutil::{chars_to_string, str_eq};

verus! {

/// A typed attribute: present with a value, present without one (a
/// boolean-style attribute), or missing.
#[derive(Debug, Clone, Copy)]
pub enum Attribute<T> {
    /// The attribute is present and has a value.
    Present(T),
    /// The attribute is present but has no value.
    Empty,
    /// The attribute is not present.
    Missing,
}

impl<T> Attribute<T> {
    /// Convert the attribute into a double-layered [`Option`]: `Some(Some(v))`
    /// when present with a value, `Some(None)` when present and empty, and
    /// `None` when missing.
    pub fn into_option(self) -> (r: Option<Option<T>>)
        ensures
            match self {
                Attribute::Present(v) => r == Some(Some(v)),
                Attribute::Empty => r == Some(None::<T>),
                Attribute::Missing => r == None::<Option<T>>,
            },
    {
        match self {
            Attribute::Present(value) => Some(Some(value)),
            Attribute::Empty => Some(None),
            Attribute::Missing => None,
        }
    }
}

impl<T> Default for Attribute<T> {
    /// A missing attribute.
    fn default() -> (r: Self)
        ensures
            r is Missing,
    {
        Attribute::Missing
    }
}

/// A typed HTML element: the extension point for element types whose
/// attributes are carried in a struct of their own.
pub trait TypedElement {
    /// The attributes of the element.
    type Attributes;

    /// Create an element from its attributes.
    fn from_attributes(
        attributes: Self::Attributes,
        other_attributes: Vec<(String, Option<String>)>,
    ) -> Self where Self: core::marker::Sized;

    /// Convert the typed element into a [`Node`].
    fn into_node(self, children: Option<Vec<Node>>) -> Node where Self: core::marker::Sized;
}

/// A typed set of HTML attributes.
pub trait TypedAttributes {
    /// Convert the typed attributes into a rendered attribute list.
    fn into_attributes(self) -> Vec<(String, Option<String>)> where Self: core::marker::Sized;
}

impl Node {
    /// Create a new [`Node`] from a [`TypedElement`].
    pub fn from_typed<E: TypedElement>(element: E, children: Option<Vec<Node>>) -> Node {
        element.into_node(children)
    }
}

/// How a schema field's value is converted: passed through as text, or
/// required to read as a decimal integer.
#[derive(Debug, Clone, Copy, PartialEq, Eq, Structural)]
pub enum ValueKind {
    /// String passthrough: any value is accepted.
    Text,
    /// The value must be a decimal integer of at most eighteen digits, with
    /// an optional leading minus sign.
    Int,
}

/// One declared attribute of a schema.  The name is stored in field form:
/// underscores where the surface key has hyphens.
#[derive(Debug)]
pub struct SchemaField {
    /// The field name, underscored.
    pub name: String,
    /// How values are converted.
    pub kind: ValueKind,
}

/// The attribute schema of one element name.
#[derive(Debug)]
pub struct Schema {
    /// The element name this schema is for.
    pub element: String,
    /// The declared fields, in declaration order; this order is the render
    /// order of the fixed attributes.
    pub fields: Vec<SchemaField>,
    /// A bare catch-all schema accepts every attribute unvalidated, for
    /// custom component-like elements.
    pub catch_all: bool,
}

/// A schema per element name, plus the registered extension prefixes
/// (hyphen-delimited, e.g. `data`, `aria`) that every schema accepts.
#[derive(Debug)]
pub struct SchemaTable {
    /// The schemas, looked up by element name; the first match wins.
    pub schemas: Vec<Schema>,
    /// The registered extension prefixes.
    pub prefixes: Vec<String>,
}

/// The mathematical value of a [`SchemaField`].
#[verifier::ext_equal]
pub struct SchemaFieldView {
    pub name: Seq<char>,
    pub kind: ValueKind,
}

/// The mathematical value of a [`Schema`].
#[verifier::ext_equal]
pub struct SchemaView {
    pub element: Seq<char>,
    pub fields: Seq<SchemaFieldView>,
    pub catch_all: bool,
}

/// The mathematical value of a [`SchemaTable`].
#[verifier::ext_equal]
pub struct SchemaTableView {
    pub schemas: Seq<SchemaView>,
    pub prefixes: Seq<Seq<char>>,
}

impl View for SchemaField {
    type V = SchemaFieldView;

    open spec fn view(&self) -> SchemaFieldView {
        SchemaFieldView { name: self.name@, kind: self.kind }
    }
}

impl View for Schema {
    type V = SchemaView;

    open spec fn view(&self) -> SchemaView {
        SchemaView {
            element: self.element@,
            fields: self.fields@.map_values(|f: SchemaField| f@),
            catch_all: self.catch_all,
        }
    }
}

impl View for SchemaTable {
    type V = SchemaTableView;

    open spec fn view(&self) -> SchemaTableView {
        SchemaTableView {
            schemas: self.schemas@.map_values(|s: Schema| s@),
            prefixes: self.prefixes@.map_values(|p: String| p@),
        }
    }
}

/// The key with every hyphen replaced by an underscore: the field form of a
/// surface attribute key.
pub open spec fn underscored(k: Seq<char>) -> Seq<char> {
    k.map_values(
        |c: char|
            if c == '-' {
                '_'
            } else {
                c
            },
    )
}

/// The key with every underscore replaced by a hyphen: the surface form of
/// a field name.
pub open spec fn hyphenated(k: Seq<char>) -> Seq<char> {
    k.map_values(
        |c: char|
            if c == '_' {
                '-'
            } else {
                c
            },
    )
}

/// Replaces hyphens with underscores.
pub fn underscore_key(k: &str) -> (r: String)
    ensures
        r@ == underscored(k@),
{
    let len = k.unicode_len();
    let mut out: Vec<char> = Vec::new();
    let mut i: usize = 0;
    while i < len
        invariant
            i <= len,
            len == k@.len(),
            out@.len() == i,
            forall|j: int| 0 <= j < i ==> #[trigger] out@[j] == underscored(k@)[j],
        decreases len - i,
    {
        let c = k.get_char(i);
        if c == '-' {
            out.push('_');
        } else {
            out.push(c);
        }
        i = i + 1;
    }
    let r = chars_to_string(&out);
    proof {
        assert(r@ =~= underscored(k@));
    }
    r
}

/// Replaces underscores with hyphens.
pub fn hyphenate_key(k: &str) -> (r: String)
    ensures
        r@ == hyphenated(k@),
{
    let len = k.unicode_len();
    let mut out: Vec<char> = Vec::new();
    let mut i: usize = 0;
    while i < len
        invariant
            i <= len,
            len == k@.len(),
            out@.len() == i,
            forall|j: int| 0 <= j < i ==> #[trigger] out@[j] == hyphenated(k@)[j],
        decreases len - i,
    {
        let c = k.get_char(i);
        if c == '_' {
            out.push('-');
        } else {
            out.push(c);
        }
        i = i + 1;
    }
    let r = chars_to_string(&out);
    proof {
        assert(r@ =~= hyphenated(k@));
    }
    r
}

/// The hyphen/underscore mapping is lossless: a surface key without
/// underscores survives the round trip through field form unchanged, so
/// every underscore of a field name renders back as the hyphen it came
/// from.
pub proof fn lemma_key_round_trip(k: Seq<char>)
    requires
        forall|i: int| 0 <= i < k.len() ==> k[i] != '_',
    ensures
        hyphenated(underscored(k)) == k,
{
    assert(hyphenated(underscored(k)) =~= k);
}

/// The position of the first hyphen in `k` at or after `i`, or the length
/// if there is none.
pub open spec fn first_hyphen_from(k: Seq<char>, i: int) -> int
    decreases k.len() - i,
{
    if i < 0 || i >= k.len() {
        k.len() as int
    } else if k[i] == '-' {
        i
    } else {
        first_hyphen_from(k, i + 1)
    }
}

/// The position of the first hyphen in `k`, or the length if there is none.
pub open spec fn first_hyphen(k: Seq<char>) -> int {
    first_hyphen_from(k, 0)
}

/// Whether some registered prefix equals `p`.
pub open spec fn has_prefix(prefixes: Seq<Seq<char>>, p: Seq<char>) -> bool {
    exists|j: int| 0 <= j < prefixes.len() && prefixes[j] == p
}

/// Whether `k` is an extension key under the table's registered prefixes:
/// it has a hyphen, and the segment before the first hyphen is a registered
/// prefix.
pub open spec fn is_extension_key_spec(t: SchemaTableView, k: Seq<char>) -> bool {
    first_hyphen(k) < k.len() && has_prefix(t.prefixes, k.subrange(0, first_hyphen(k)))
}

/// Finds the first hyphen of `k`, if any.
pub fn find_first_hyphen(k: &str) -> (r: Option<usize>)
    ensures
        match r {
            Some(i) => i == first_hyphen(k@) && i < k@.len(),
            None => first_hyphen(k@) == k@.len(),
        },
{
    let len = k.unicode_len();
    let mut i: usize = 0;
    while i < len
        invariant
            i <= len,
            len == k@.len(),
            first_hyphen(k@) == first_hyphen_from(k@, i as int),
        decreases len - i,
    {
        if k.get_char(i) == '-' {
            return Some(i);
        }
        i = i + 1;
    }
    None
}

impl SchemaTable {
    /// Whether `key` is accepted through a registered extension prefix.
    pub fn is_extension_key(&self, key: &str) -> (r: bool)
        ensures
            r == is_extension_key_spec(self@, key@),
    {
        match find_first_hyphen(key) {
            None => false,
            Some(h) => {
                let p = key.substring_char(0, h);
                let mut j: usize = 0;
                while j < self.prefixes.len()
                    invariant
                        j <= self.prefixes@.len(),
                        0 <= first_hyphen(key@) < key@.len(),
                        p@ == key@.subrange(0, first_hyphen(key@)),
                        forall|m: int| 0 <= m < j ==> #[trigger] self.prefixes@[m]@ != p@,
                    decreases self.prefixes@.len() - j,
                {
                    if str_eq(self.prefixes[j].as_str(), p) {
                        proof {
                            assert(self@.prefixes[j as int] == p@);
                        }
                        return true;
                    }
                    j = j + 1;
                }
                proof {
                    assert(forall|m: int|
                        0 <= m < self@.prefixes.len() ==> #[trigger] self@.prefixes[m] != p@);
                }
                false
            },
        }
    }

    /// Looks up the schema registered for `name`; the first match wins.
    pub fn find_schema(&self, name: &str) -> (r: Option<&Schema>)
        ensures
            match r {
                Some(s) => find_schema_spec(self@, name@) == Some(s@),
                None => find_schema_spec(self@, name@) is None,
            },
    {
        let mut i: usize = 0;
        while i < self.schemas.len()
            invariant
                i <= self.schemas@.len(),
                find_schema_spec(self@, name@) == find_schema_from(self@.schemas, name@, i as int),
            decreases self.schemas@.len() - i,
        {
            if str_eq(self.schemas[i].element.as_str(), name) {
                proof {
                    assert(self@.schemas[i as int] == self.schemas@[i as int]@);
                }
                return Some(&self.schemas[i]);
            }
            proof {
                assert(self@.schemas[i as int] == self.schemas@[i as int]@);
            }
            i = i + 1;
        }
        None
    }
}

/// The first schema of the table registered for `name`, from position `i`
/// on.
pub open spec fn find_schema_from(schemas: Seq<SchemaView>, name: Seq<char>, i: int) -> Option<
    SchemaView,
>
    decreases schemas.len() - i,
{
    if i < 0 || i >= schemas.len() {
        None
    } else if schemas[i].element == name {
        Some(schemas[i])
    } else {
        find_schema_from(schemas, name, i + 1)
    }
}

/// The first schema of the table registered for `name`.
pub open spec fn find_schema_spec(t: SchemaTableView, name: Seq<char>) -> Option<SchemaView> {
    find_schema_from(t.schemas, name, 0)
}

/// The first field of the schema named `name` from position `i` on, if
/// any.
pub open spec fn find_field_from(fields: Seq<SchemaFieldView>, name: Seq<char>, i: int) -> Option<
    int,
>
    decreases fields.len() - i,
{
    if i < 0 || i >= fields.len() {
        None
    } else if fields[i].name == name {
        Some(i)
    } else {
        find_field_from(fields, name, i + 1)
    }
}

/// The first field of the schema named `name`, if any.
pub open spec fn find_field_spec(s: SchemaView, name: Seq<char>) -> Option<int> {
    find_field_from(s.fields, name, 0)
}

impl Schema {
    /// Looks up the field declared under `name` (in field form); the first
    /// match wins.
    pub fn find_field(&self, name: &str) -> (r: Option<usize>)
        ensures
            match r {
                Some(i) => find_field_spec(self@, name@) == Some(i as int) && i
                    < self@.fields.len(),
                None => find_field_spec(self@, name@) is None,
            },
    {
        let mut i: usize = 0;
        while i < self.fields.len()
            invariant
                i <= self.fields@.len(),
                find_field_spec(self@, name@) == find_field_from(self@.fields, name@, i as int),
            decreases self.fields@.len() - i,
        {
            if str_eq(self.fields[i].name.as_str(), name) {
                proof {
                    assert(self@.fields[i as int] == self.fields@[i as int]@);
                }
                return Some(i);
            }
            proof {
                assert(self@.fields[i as int] == self.fields@[i as int]@);
            }
            i = i + 1;
        }
        None
    }
}

/// Whether `c` is a decimal digit.
pub open spec fn is_digit(c: char) -> bool {
    '0' <= c <= '9'
}

/// The numeric value of a digit character.
pub open spec fn digit_val(c: char) -> int {
    c as int - '0' as int
}

/// The value of a digit string, most significant digit first.
pub open spec fn digits_val(d: Seq<char>) -> int
    decreases d.len(),
{
    if d.len() == 0 {
        0
    } else {
        digits_val(d.drop_last()) * 10 + digit_val(d.last())
    }
}

/// Ten to the `k`.
pub open spec fn pow10(k: nat) -> int
    decreases k,
{
    if k == 0 {
        1
    } else {
        10 * pow10((k - 1) as nat)
    }
}

/// Whether `s` is a well-formed integer literal: an optional minus sign,
/// then one to eighteen decimal digits.
pub open spec fn int_ok(s: Seq<char>) -> bool {
    let d = int_digits(s);
    1 <= d.len() <= 18 && forall|i: int| 0 <= i < d.len() ==> is_digit(#[trigger] d[i])
}

/// The digit part of an integer literal.
pub open spec fn int_digits(s: Seq<char>) -> Seq<char> {
    if s.len() > 0 && s[0] == '-' {
        s.subrange(1, s.len() as int)
    } else {
        s
    }
}

/// The value of an integer literal.
pub open spec fn int_val(s: Seq<char>) -> int {
    if s.len() > 0 && s[0] == '-' {
        -digits_val(int_digits(s))
    } else {
        digits_val(int_digits(s))
    }
}

/// A digit string's value is bounded by ten to its length.
pub proof fn lemma_digits_val_bound(d: Seq<char>)
    requires
        forall|i: int| 0 <= i < d.len() ==> is_digit(#[trigger] d[i]),
    ensures
        0 <= digits_val(d) < pow10(d.len()),
    decreases d.len(),
{
    if d.len() > 0 {
        lemma_digits_val_bound(d.drop_last());
    }
}

proof fn lemma_pow10_18()
    ensures
        pow10(18) == 1000000000000000000int,
        pow10(17) == 100000000000000000int,
{
    reveal_with_fuel(pow10, 19);
}

/// Reads a decimal integer literal: `Some` exactly on well-formed literals
/// (an optional minus sign, then one to eighteen digits), with the value
/// the digits denote.
pub fn parse_int(s: &str) -> (r: Option<i64>)
    ensures
        r is Some <==> int_ok(s@),
        r matches Some(v) ==> v as int == int_val(s@),
{
    let len = s.unicode_len();
    let neg = len > 0 && s.get_char(0) == '-';
    let start: usize = if neg {
        1
    } else {
        0
    };
    let ghost d = int_digits(s@);
    proof {
        assert(d =~= s@.subrange(start as int, len as int));
    }
    if len - start < 1 || len - start > 18 {
        proof {
            assert(d.len() == len - start);
        }
        return None;
    }
    let mut acc: u64 = 0;
    let mut i: usize = start;
    proof {
        assert(d.subrange(0, 0) =~= Seq::empty());
        lemma_pow10_18();
    }
    while i < len
        invariant
            start <= i <= len,
            len == s@.len(),
            d == int_digits(s@),
            d == s@.subrange(start as int, len as int),
            1 <= d.len() <= 18,
            d.len() == len - start,
            forall|j: int| 0 <= j < i - start ==> is_digit(#[trigger] d[j]),
            acc as int == digits_val(d.subrange(0, i - start)),
            acc < 1000000000000000000u64,
        decreases len - i,
    {
        let c = s.get_char(i);
        if !('0' <= c && c <= '9') {
            proof {
                assert(int_digits(s@)[i - start] == s@[i as int]);
                assert(!is_digit(int_digits(s@)[i - start]));
            }
            return None;
        }
        let dv: u64 = (c as u32 as u64) - ('0' as u32 as u64);
        proof {
            let pre = d.subrange(0, i - start);
            let post = d.subrange(0, i + 1 - start as int);
            assert(post.drop_last() =~= pre);
            assert(post.last() == d[i - start]);
            assert(d[i - start] == s@[i as int]);
            lemma_digits_val_bound(post);
            lemma_pow10_18();
            lemma_pow10_mono(post.len(), 18);
        }
        acc = acc * 10 + dv;
        i = i + 1;
    }
    let magnitude: i64 = acc as i64;
    proof {
        assert(d.subrange(0, d.len() as int) =~= d);
        assert(int_ok(s@));
    }
    if neg {
        Some(-magnitude)
    } else {
        Some(magnitude)
    }
}

proof fn lemma_pow10_mono(a: nat, b: nat)
    requires
        a <= b,
    ensures
        pow10(a) <= pow10(b),
    decreases b,
{
    if a < b {
        lemma_pow10_mono(a, (b - 1) as nat);
        lemma_pow10_pos((b - 1) as nat);
    }
}

proof fn lemma_pow10_pos(a: nat)
    ensures
        pow10(a) >= 1,
    decreases a,
{
    if a > 0 {
        lemma_pow10_pos((a - 1) as nat);
    }
}

/// Whether `value` converts under `kind`: text always does; an integer
/// field accepts a missing value (a boolean-style attribute) or a
/// well-formed integer literal.
pub open spec fn convert_ok(kind: ValueKind, value: Option<Seq<char>>) -> bool {
    match kind {
        ValueKind::Text => true,
        ValueKind::Int => match value {
            None => true,
            Some(v) => int_ok(v),
        },
    }
}

/// Checks a value against a field's conversion kind.
pub fn check_value(kind: ValueKind, value: &Option<String>) -> (r: bool)
    ensures
        r == convert_ok(
            kind,
            match value {
                Some(v) => Some(v@),
                None => None,
            },
        ),
{
    match kind {
        ValueKind::Text => true,
        ValueKind::Int => match value {
            None => true,
            Some(v) => parse_int(v.as_str()).is_some(),
        },
    }
}

} // verus!
