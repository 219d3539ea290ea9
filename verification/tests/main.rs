use html_node::{html, Bindings, Fragment, Node, Severity, Text};

/// Builds the shopping-list tree the way a caller would: one template per
/// list item, substituted into an outer template.
fn shopping_list_tree(type_first: bool) -> Node {
    let shopping_list = vec!["milk", "eggs", "bread"];

    let mut items: Vec<Node> = Vec::new();
    for (idx, item) in shopping_list.into_iter().enumerate() {
        let i = idx + 1;
        let mut b = Bindings::new();
        b.bind_text("id", &format!("item-{i}"));
        b.bind_node("item", Node::Text(Text { text: item.to_owned() }));
        let template = if type_first {
            "<li class=\"item\"><input type=\"checkbox\" id={id}><label for={id}>{item}</label></li>"
        } else {
            "<li class=\"item\"><input id={id} type=\"checkbox\"><label for={id}>{item}</label></li>"
        };
        let (li, diags) = html(template, &b);
        assert!(diags.is_empty());
        items.push(li);
    }

    let mut outer = Bindings::new();
    outer.bind_node("items", Node::Fragment(Fragment { children: items }));
    let (tree, diags) = html(
        "<div><h1>Shopping List</h1><ul>{items}</ul></div>",
        &outer,
    );
    assert!(diags.is_empty());
    tree
}

#[test]
fn main_basic() {
    let html = shopping_list_tree(true);

    let expected = "\
    <div>\
        <h1>Shopping List</h1>\
        <ul>\
            <li class=\"item\">\
                <input type=\"checkbox\" id=\"item-1\">\
                <label for=\"item-1\">milk</label>\
            </li>\
            <li class=\"item\">\
                <input type=\"checkbox\" id=\"item-2\">\
                <label for=\"item-2\">eggs</label>\
            </li>\
            <li class=\"item\">\
                <input type=\"checkbox\" id=\"item-3\">\
                <label for=\"item-3\">bread</label>\
            </li>\
        </ul>\
    </div>\
    ";

    assert_eq!(html.to_string(), expected);
}

#[test]
fn pretty_printed_format() {
    let html = shopping_list_tree(true);

    let expected = "\
<div>
    <h1>
        Shopping List
    </h1>
    <ul>
        <li class=\"item\">
            <input type=\"checkbox\" id=\"item-1\">
            <label for=\"item-1\">
                milk
            </label>
        </li>
        <li class=\"item\">
            <input type=\"checkbox\" id=\"item-2\">
            <label for=\"item-2\">
                eggs
            </label>
        </li>
        <li class=\"item\">
            <input type=\"checkbox\" id=\"item-3\">
            <label for=\"item-3\">
                bread
            </label>
        </li>
    </ul>
</div>\
";

    let pretty_html = html.to_pretty_string();

    assert_eq!(pretty_html, expected);
}

#[test]
fn main_pretty_printed() {
    // The list fragment is followed by an empty text node, as a template
    // whose item block leaves a trailing empty run behind would produce;
    // it renders as nothing in compact mode and as one blank (indented)
    // line in pretty mode.
    let tree = shopping_list_tree(true);
    let mut div_children = tree.into_children();
    let ul = div_children.pop().unwrap();
    let mut ul_children = ul.into_children();
    ul_children.push(Node::Text(Text { text: String::new() }));
    let rebuilt_ul = Node::Element(html_node::Element {
        name: "ul".to_owned(),
        attributes: vec![],
        children: Some(ul_children),
    });
    div_children.push(rebuilt_ul);
    let html = Node::Element(html_node::Element {
        name: "div".to_owned(),
        attributes: vec![],
        children: Some(div_children),
    });

    let expected = "\
<div>
    <h1>
        Shopping List
    </h1>
    <ul>
        <li class=\"item\">
            <input type=\"checkbox\" id=\"item-1\">
            <label for=\"item-1\">
                milk
            </label>
        </li>
        <li class=\"item\">
            <input type=\"checkbox\" id=\"item-2\">
            <label for=\"item-2\">
                eggs
            </label>
        </li>
        <li class=\"item\">
            <input type=\"checkbox\" id=\"item-3\">
            <label for=\"item-3\">
                bread
            </label>
        </li>
        
    </ul>
</div>\
";

    let pretty_html = html.to_pretty_string();

    assert_eq!(pretty_html, expected);
}

#[test]
fn pretty_printed_helper() {
    let b = Bindings::new();
    let (tree, diags) = html(
        "<div id=\"one\"><div id=\"two\"><h1>Pretty Printing Wrapper Test</h1><p>This test should be <em>pretty printed!</em></p></div></div>",
        &b,
    );
    assert!(diags.is_empty());
    let pretty_html = tree.pretty();

    let expected = r#"<div id="one">
    <div id="two">
        <h1>
            Pretty Printing Wrapper Test
        </h1>
        <p>
            This test should be
            <em>
                pretty printed!
            </em>
        </p>
    </div>
</div>"#;
    assert_eq!(expected, pretty_html.to_string());
}

#[test]
fn void_element_children_draw_one_warning() {
    let b = Bindings::new();
    let (tree, diags) = html("<input>dropped</input>", &b);
    assert_eq!(tree.to_string(), "<input>");
    let warnings: Vec<_> = diags
        .iter()
        .filter(|d| matches!(d.severity, Severity::Warning))
        .collect();
    assert_eq!(warnings.len(), 1);
}

#[test]
fn comment_doctype_and_void_elements() {
    let b = Bindings::new();
    let (tree, diags) = html("<!-- a note --><!DOCTYPE html><br>", &b);
    assert!(diags.is_empty());
    assert_eq!(tree.to_string(), "<!-- a note --><!DOCTYPE html><br>");
}

#[test]
fn fragment_renders_children_back_to_back() {
    let b = Bindings::new();
    let (tree, diags) = html("<><b>x</b><i>y</i></>", &b);
    assert!(diags.is_empty());
    assert_eq!(tree.to_string(), "<b>x</b><i>y</i>");
}

#[test]
fn raw_text_element_body_is_not_parsed() {
    let b = Bindings::new();
    let (tree, diags) = html("<script>if (a<b) { x(); }</script>", &b);
    assert!(diags.is_empty());
    assert_eq!(tree.to_string(), "<script>if (a&lt;b) { x(); }</script>");
}

#[test]
fn missing_close_tag_is_recovered() {
    let b = Bindings::new();
    let (tree, diags) = html("<div><p></div>", &b);
    assert!(diags.iter().any(|d| matches!(d.severity, Severity::Error)));
    assert_eq!(tree.to_string(), "<div><p></p></div>");
}

#[test]
fn unbound_placeholder_is_an_error() {
    let b = Bindings::new();
    let (tree, diags) = html("{missing}", &b);
    assert!(diags.iter().any(|d| matches!(d.severity, Severity::Error)));
    assert_eq!(tree.to_string(), "");
}

#[test]
fn multiple_top_level_nodes_wrap_in_a_fragment() {
    let b = Bindings::new();
    let (tree, diags) = html("<b>x</b><i>y</i>", &b);
    assert!(diags.is_empty());
    assert!(tree.as_fragment().is_some());
    assert_eq!(tree.to_string(), "<b>x</b><i>y</i>");
}

#[test]
fn stripping_pretty_indentation_gives_compact() {
    let tree = shopping_list_tree(true);
    let compact = tree.to_string();
    let pretty = tree.to_pretty_string();
    let stripped: String = pretty.lines().map(|l| l.trim_start()).collect();
    assert_eq!(stripped, compact);
}

#[test]
fn node_accessors() {
    let text = Node::Text(Text { text: "hi".to_owned() });
    assert!(text.as_text().is_some());
    assert!(text.as_comment().is_none());
    assert!(text.as_doctype().is_none());
    assert!(text.as_element().is_none());
    assert!(text.as_unsafe_text().is_none());
    assert!(text.as_fragment().is_none());
    assert!(text.as_children().is_none());
    assert_eq!(text.children_iter().len(), 0);

    let frag = Node::Fragment(Fragment { children: vec![text] });
    assert_eq!(frag.as_children().unwrap().len(), 1);
    assert_eq!(frag.children_iter().len(), 1);
    let kids = frag.children().unwrap();
    assert_eq!(kids.len(), 1);

    let default_node = Node::default();
    assert!(default_node.as_fragment().is_some());
    assert_eq!(default_node.into_children().len(), 0);
}

#[test]
fn has_errors_distinguishes_warnings_from_errors() {
    let b = Bindings::new();
    let (_, warn_only) = html("<input>dropped</input>", &b);
    assert!(!warn_only.is_empty());
    assert!(!html_node::diag::has_errors(&warn_only));
    let (_, with_error) = html("{missing}", &b);
    assert!(html_node::diag::has_errors(&with_error));
    assert!(!html_node::diag::has_errors(&Vec::new()));
}

#[test]
fn unterminated_constructs_recover_with_errors() {
    let b = Bindings::new();

    let (tree, diags) = html("<!-- never closed", &b);
    assert!(html_node::diag::has_errors(&diags));
    assert_eq!(tree.to_string(), "<!-- never closed -->");

    let (tree, diags) = html("<p title=\"oops>text", &b);
    assert!(html_node::diag::has_errors(&diags));
    assert!(tree.as_element().is_some());

    let mut unterminated_block = String::from("never closed");
    unterminated_block.insert(0, '{');
    let (tree, diags) = html(&unterminated_block, &b);
    assert!(html_node::diag::has_errors(&diags));
    assert!(tree.as_element().is_none());

    let (_, diags) = html("<>no close", &b);
    assert!(html_node::diag::has_errors(&diags));
}

#[test]
fn stray_close_tag_is_reported_and_skipped() {
    let b = Bindings::new();
    let (tree, diags) = html("a</b>c", &b);
    assert!(html_node::diag::has_errors(&diags));
    assert_eq!(tree.to_string(), "ac");
}

#[test]
fn text_runs_collapse_whitespace() {
    let b = Bindings::new();
    let (tree, diags) = html("<p>  spaced   out
  words </p>", &b);
    assert!(diags.is_empty());
    assert_eq!(tree.to_string(), "<p>spaced out words</p>");
}

#[test]
fn bare_attribute_values_are_literals() {
    let b = Bindings::new();
    let (tree, diags) = html("<p tabindex=3>x</p>", &b);
    assert!(diags.is_empty());
    assert_eq!(tree.to_string(), "<p tabindex=\"3\">x</p>");
}

#[test]
fn clone_preserves_rendering() {
    let tree = shopping_list_tree(true);
    let copy = tree.clone();
    assert_eq!(tree.to_string(), copy.to_string());
}
