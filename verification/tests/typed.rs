use html_node::{
    catch_all_schema, standard_schemas, typed_html, Attribute, Bindings, Fragment, Node,
    SchemaTable, Severity, Text, TypedAttributes, TypedElement,
};

/// Builds the shopping-list tree in typed mode: every attribute checked
/// against the standard schemas.
fn typed_shopping_list_tree() -> Node {
    let table = standard_schemas();
    let shopping_list = vec!["milk", "eggs", "bread"];

    let mut items: Vec<Node> = Vec::new();
    for (idx, item) in shopping_list.into_iter().enumerate() {
        let i = idx + 1;
        let mut b = Bindings::new();
        b.bind_text("id", &format!("item-{i}"));
        b.bind_node("item", Node::Text(Text { text: item.to_owned() }));
        let (li, diags) = typed_html(
            "<li class=\"item\"><input id={id} type=\"checkbox\"><label for={id}>{item}</label></li>",
            &table,
            &b,
        );
        assert!(diags.is_empty());
        items.push(li);
    }

    let mut outer = Bindings::new();
    outer.bind_node("items", Node::Fragment(Fragment { children: items }));
    let (tree, diags) = typed_html(
        "<div><h1>Shopping List</h1><ul>{items}</ul></div>",
        &table,
        &outer,
    );
    assert!(diags.is_empty());
    tree
}

#[test]
fn typed_basic() {
    let html = typed_shopping_list_tree();

    let expected = "\
    <div>\
        <h1>Shopping List</h1>\
        <ul>\
            <li class=\"item\">\
                <input id=\"item-1\" type=\"checkbox\">\
                <label for=\"item-1\">milk</label>\
            </li>\
            <li class=\"item\">\
                <input id=\"item-2\" type=\"checkbox\">\
                <label for=\"item-2\">eggs</label>\
            </li>\
            <li class=\"item\">\
                <input id=\"item-3\" type=\"checkbox\">\
                <label for=\"item-3\">bread</label>\
            </li>\
        </ul>\
    </div>\
    ";

    assert_eq!(html.to_string(), expected);
}

#[test]
fn typed_pretty_printed() {
    let html = typed_shopping_list_tree();

    let expected = "\
<div>
    <h1>
        Shopping List
    </h1>
    <ul>
        <li class=\"item\">
            <input id=\"item-1\" type=\"checkbox\">
            <label for=\"item-1\">
                milk
            </label>
        </li>
        <li class=\"item\">
            <input id=\"item-2\" type=\"checkbox\">
            <label for=\"item-2\">
                eggs
            </label>
        </li>
        <li class=\"item\">
            <input id=\"item-3\" type=\"checkbox\">
            <label for=\"item-3\">
                bread
            </label>
        </li>
    </ul>
</div>\
";

    let pretty_html = html.to_pretty_string();

    assert_eq!(pretty_html, expected);
}

/// A component is a plain function from attributes and children to a node:
/// it compiles its own template with the caller's values bound.
fn shopping_list_item(table: &SchemaTable, index: usize, children: Vec<Node>) -> Node {
    let mut b = Bindings::new();
    b.bind_text("id", &format!("item-{index}"));
    b.bind_node("children", Node::Fragment(Fragment { children }));
    let (node, diags) = typed_html(
        "<li class=\"item\"><input id={id} type=\"checkbox\"><label for={id}>{children}</label></li>",
        table,
        &b,
    );
    assert!(diags.is_empty());
    node
}

#[test]
fn component() {
    let table = standard_schemas();
    let shopping_list = vec!["milk", "eggs", "bread"];

    let mut items: Vec<Node> = Vec::new();
    for (idx, item) in shopping_list.into_iter().enumerate() {
        let index = idx + 1;
        let children = vec![Node::Text(Text { text: item.to_owned() })];
        items.push(shopping_list_item(&table, index, children));
    }

    let mut outer = Bindings::new();
    outer.bind_node("items", Node::Fragment(Fragment { children: items }));
    let (html, diags) = typed_html(
        "<div><h1>Shopping List</h1><ul>{items}</ul></div>",
        &table,
        &outer,
    );
    assert!(diags.is_empty());

    let expected = "\
<div>\
    <h1>Shopping List</h1>\
    <ul>\
        <li class=\"item\">\
            <input id=\"item-1\" type=\"checkbox\">\
            <label for=\"item-1\">milk</label>\
        </li>\
        <li class=\"item\">\
            <input id=\"item-2\" type=\"checkbox\">\
            <label for=\"item-2\">eggs</label>\
        </li>\
        <li class=\"item\">\
            <input id=\"item-3\" type=\"checkbox\">\
            <label for=\"item-3\">bread</label>\
        </li>\
    </ul>\
</div>\
";

    assert_eq!(html.to_string(), expected);
}

#[test]
fn unknown_attribute_is_rejected_and_excluded() {
    let table = standard_schemas();
    let b = Bindings::new();
    let (tree, diags) = typed_html("<div my-attr=\"x\">hi</div>", &table, &b);
    let errors: Vec<_> = diags
        .iter()
        .filter(|d| matches!(d.severity, Severity::Error))
        .collect();
    assert_eq!(errors.len(), 1);
    assert_eq!(tree.to_string(), "<div>hi</div>");
}

#[test]
fn extension_prefixes_pass_through_after_fixed_fields() {
    let table = standard_schemas();
    let b = Bindings::new();
    let (tree, diags) = typed_html(
        "<div data-my-attr=\"hello\" aria-label=\"world\" class=\"cool\" id=\"hello-world\">Hello</div>",
        &table,
        &b,
    );
    assert!(diags.is_empty());
    assert_eq!(
        tree.to_string(),
        "<div class=\"cool\" id=\"hello-world\" data-my-attr=\"hello\" aria-label=\"world\">Hello</div>",
    );
}

#[test]
fn hyphenated_keys_reach_underscored_fields_and_back() {
    let table = standard_schemas();
    let b = Bindings::new();
    let (tree, diags) = typed_html(
        "<meta http-equiv=\"refresh\" content=\"30\">",
        &table,
        &b,
    );
    assert!(diags.is_empty());
    assert_eq!(tree.to_string(), "<meta content=\"30\" http-equiv=\"refresh\">");
}

#[test]
fn integer_field_accepts_a_number_and_rejects_text() {
    let table = standard_schemas();
    let b = Bindings::new();
    let (good, diags) = typed_html("<li value=\"42\">x</li>", &table, &b);
    assert!(diags.is_empty());
    assert_eq!(good.to_string(), "<li value=\"42\">x</li>");

    let (bad, diags) = typed_html("<li value=\"forty-two\">x</li>", &table, &b);
    assert_eq!(
        diags
            .iter()
            .filter(|d| matches!(d.severity, Severity::Error))
            .count(),
        1,
    );
    assert_eq!(bad.to_string(), "<li>x</li>");
}

#[test]
fn duplicate_fixed_attribute_keeps_the_first() {
    let table = standard_schemas();
    let b = Bindings::new();
    let (tree, diags) = typed_html("<div id=\"a\" id=\"b\">x</div>", &table, &b);
    assert_eq!(
        diags
            .iter()
            .filter(|d| matches!(d.severity, Severity::Error))
            .count(),
        1,
    );
    assert_eq!(tree.to_string(), "<div id=\"a\">x</div>");
}

#[test]
fn unknown_element_is_an_error_with_best_effort_output() {
    let table = standard_schemas();
    let b = Bindings::new();
    let (tree, diags) = typed_html("<blink rate=\"2\">hi</blink>", &table, &b);
    assert!(diags.iter().any(|d| matches!(d.severity, Severity::Error)));
    assert_eq!(tree.to_string(), "<blink rate=\"2\">hi</blink>");
}

#[test]
fn catch_all_schema_forwards_everything() {
    let mut table = standard_schemas();
    table.schemas.push(catch_all_schema("my-widget"));
    let b = Bindings::new();
    let (tree, diags) = typed_html(
        "<my-widget foo=\"1\" bar>x</my-widget>",
        &table,
        &b,
    );
    assert!(diags.is_empty());
    assert_eq!(tree.to_string(), "<my-widget foo=\"1\" bar>x</my-widget>");
}

#[test]
fn block_attributes_are_refused_in_typed_mode() {
    let table = standard_schemas();
    let mut b = Bindings::new();
    b.bind_text("extra", "whatever");
    let (tree, diags) = typed_html("<div {extra}>x</div>", &table, &b);
    assert!(diags.iter().any(|d| matches!(d.severity, Severity::Error)));
    assert_eq!(tree.to_string(), "<div>x</div>");
}

struct Badge {
    label: Attribute<String>,
    other: Vec<(String, Option<String>)>,
}

impl TypedAttributes for Badge {
    fn into_attributes(self) -> Vec<(String, Option<String>)> {
        let mut out: Vec<(String, Option<String>)> = Vec::new();
        if let Some(value) = self.label.into_option() {
            out.push(("label".to_owned(), value));
        }
        out
    }
}

impl TypedElement for Badge {
    type Attributes = Badge;

    fn from_attributes(attributes: Badge, other_attributes: Vec<(String, Option<String>)>) -> Badge {
        Badge { label: attributes.label, other: other_attributes }
    }

    fn into_node(self, children: Option<Vec<Node>>) -> Node {
        let Badge { label, mut other } = self;
        let mut attributes = Badge { label, other: Vec::new() }.into_attributes();
        attributes.append(&mut other);
        Node::Element(html_node::Element {
            name: "badge".to_owned(),
            attributes,
            children,
        })
    }
}

#[test]
fn from_typed_builds_an_element() {
    let badge = Badge {
        label: Attribute::Present("new".to_owned()),
        other: Vec::new(),
    };
    let node = Node::from_typed(badge, Some(vec![]));
    assert_eq!(node.to_string(), "<badge label=\"new\"></badge>");
}

#[test]
fn attribute_into_option() {
    let present: Attribute<String> = Attribute::Present("v".to_owned());
    assert_eq!(present.into_option(), Some(Some("v".to_owned())));
    let empty: Attribute<String> = Attribute::Empty;
    assert_eq!(empty.into_option(), Some(None));
    let missing: Attribute<String> = Attribute::Missing;
    assert_eq!(missing.into_option(), None);
    let defaulted: Attribute<String> = Attribute::default();
    assert_eq!(defaulted.into_option(), None);
}
