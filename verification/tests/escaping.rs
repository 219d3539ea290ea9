use html_node::escape::{escape_attribute_value, escape_text};
use html_node::schema::{hyphenate_key, parse_int, underscore_key};
use html_node::{Comment, Doctype, Node, Text, UnsafeText};

#[test]
fn text_escaping_hides_markup() {
    assert_eq!(escape_text("a<b&c>d\"e"), "a&lt;b&amp;c>d\"e");
    assert_eq!(
        escape_text("</script><script>alert('evil')</script>"),
        "&lt;/script>&lt;script>alert('evil')&lt;/script>",
    );
    assert!(!escape_text("<<<&&&").contains('<'));
}

#[test]
fn attribute_escaping_hides_quotes() {
    assert_eq!(escape_attribute_value("a<b&c>d\"e"), "a&lt;b&amp;c&gt;d&quot;e");
    assert!(!escape_attribute_value("say \"hi\"").contains('"'));
}

#[test]
fn escaping_is_identity_without_special_characters() {
    let plain = "just some text, with punctuation. 1234 und Umlaute aou";
    assert_eq!(escape_text(plain), plain);
    assert_eq!(escape_attribute_value(plain), plain);
}

#[test]
fn escaping_agrees_with_the_html_escape_crate() {
    let samples = [
        "",
        "hello",
        "a<b&c>d\"e'f",
        "</script><script>alert('evil')</script>",
        "unicode \u{00e9}\u{4e16}\u{754c} <&> \"q\"",
        "&&&&",
        "<><><>",
    ];
    for s in samples {
        assert_eq!(escape_text(s), html_escape::encode_text_minimal(s));
        assert_eq!(
            escape_attribute_value(s),
            html_escape::encode_double_quoted_attribute(s),
        );
    }
}

#[test]
fn unsafe_text_bypasses_escaping() {
    let escaped = Node::Text(Text { text: "<b>".to_owned() });
    let verbatim = Node::UnsafeText(UnsafeText { text: "<b>".to_owned() });
    assert_eq!(escaped.to_string(), "&lt;b>");
    assert_eq!(verbatim.to_string(), "<b>");
}

#[test]
fn attribute_values_are_escaped_in_renderings() {
    let node = Node::Element(html_node::Element {
        name: "div".to_owned(),
        attributes: vec![("title".to_owned(), Some("say \"hi\" & <go>".to_owned()))],
        children: Some(vec![]),
    });
    assert_eq!(
        node.to_string(),
        "<div title=\"say &quot;hi&quot; &amp; &lt;go&gt;\"></div>",
    );
}

#[test]
fn comment_and_doctype_render_verbatim() {
    let c = Node::Comment(Comment { comment: "note".to_owned() });
    assert_eq!(c.to_string(), "<!-- note -->");
    let d = Node::Doctype(Doctype { syntax: "html".to_owned() });
    assert_eq!(d.to_string(), "<!DOCTYPE html>");
}

#[test]
fn end_to_end_checkbox_fragment() {
    let b = html_node::Bindings::new();
    let source =
        "<div class=\"item\"><input type=\"checkbox\" id=\"x\"><label for=\"x\">milk</label></div>";
    let (tree, diags) = html_node::html(source, &b);
    assert!(diags.is_empty());
    assert_eq!(tree.to_string(), source);
}

#[test]
fn pretty_list_example() {
    let b = html_node::Bindings::new();
    let (tree, diags) = html_node::html("<ul><li>one</li><li>two</li></ul>", &b);
    assert!(diags.is_empty());
    let expected = "\
<ul>
    <li>
        one
    </li>
    <li>
        two
    </li>
</ul>";
    assert_eq!(tree.to_pretty_string(), expected);
}

#[test]
fn integer_literals_parse_exactly() {
    assert_eq!(parse_int("0"), Some(0));
    assert_eq!(parse_int("42"), Some(42));
    assert_eq!(parse_int("-17"), Some(-17));
    assert_eq!(parse_int("000123"), Some(123));
    assert_eq!(parse_int("999999999999999999"), Some(999_999_999_999_999_999));
    assert_eq!(parse_int(""), None);
    assert_eq!(parse_int("-"), None);
    assert_eq!(parse_int("12a"), None);
    assert_eq!(parse_int("1234567890123456789"), None);
    assert_eq!(parse_int("4 2"), None);
}

#[test]
fn hyphen_underscore_round_trip() {
    assert_eq!(underscore_key("http-equiv"), "http_equiv");
    assert_eq!(hyphenate_key("http_equiv"), "http-equiv");
    assert_eq!(hyphenate_key(&underscore_key("aria-label")), "aria-label");
    assert_eq!(underscore_key("plain"), "plain");
}

#[test]
fn empty_and_childless_elements_render_distinctly() {
    let void = Node::Element(html_node::Element {
        name: "br".to_owned(),
        attributes: vec![],
        children: None,
    });
    assert_eq!(void.to_string(), "<br>");
    assert_eq!(void.to_pretty_string(), "<br>");

    let empty = Node::Element(html_node::Element {
        name: "div".to_owned(),
        attributes: vec![],
        children: Some(vec![]),
    });
    assert_eq!(empty.to_string(), "<div></div>");
    assert_eq!(empty.to_pretty_string(), "<div></div>");
}

#[test]
fn pretty_wrapper_accessors() {
    let node = Node::Text(Text { text: "x".to_owned() });
    let pretty = node.pretty();
    assert_eq!(pretty.as_inner().to_string(), "x");
    let back = pretty.into_inner();
    assert_eq!(back.to_string(), "x");
}
