use frontier::js::markup::{serialize_document, write_node, write_nodes, HtmlNode};

fn element(name: &str, attrs: Vec<(&str, &str)>, children: Vec<HtmlNode>) -> HtmlNode {
    HtmlNode::Element {
        name: name.to_string(),
        attrs: attrs
            .into_iter()
            .map(|(k, v)| (k.to_string(), v.to_string()))
            .collect(),
        children,
    }
}

#[test]
fn serializes_a_small_document() {
    let body = element(
        "body",
        vec![("class", "a\"b"), ("data-x", "<&>")],
        vec![
            HtmlNode::Text("1 < 2 & \"ok\"".to_string()),
            HtmlNode::Comment(Some("note".to_string())),
            HtmlNode::Comment(None),
        ],
    );
    let html = element("html", vec![], vec![body]);
    let root = HtmlNode::Container { children: vec![html] };
    assert_eq!(
        serialize_document(&root),
        "<!DOCTYPE html><html><body class=\"a&quot;b\" data-x=\"&lt;&amp;&gt;\">1 &lt; 2 &amp; \"ok\"<!--note--><!----></body></html>"
    );
}

#[test]
fn containers_write_only_their_children() {
    let inner = HtmlNode::Container {
        children: vec![HtmlNode::Text("x>y".to_string())],
    };
    let mut out = String::from("pre:");
    write_node(&element("p", vec![], vec![inner]), &mut out);
    assert_eq!(out, "pre:<p>x&gt;y</p>");
}

#[test]
fn a_text_root_gives_only_the_doctype() {
    assert_eq!(
        serialize_document(&HtmlNode::Text("ignored".to_string())),
        "<!DOCTYPE html>"
    );
}

#[test]
fn runs_of_nodes_serialize_one_after_the_other() {
    let a = vec![HtmlNode::Text("a<".to_string()), HtmlNode::Comment(None)];
    let b = vec![element("i", vec![("t", "\"")], vec![])];
    let mut both = String::new();
    let mut joined: Vec<HtmlNode> = Vec::new();
    joined.extend(a.iter().map(clone_node));
    joined.extend(b.iter().map(clone_node));
    write_nodes(&joined, &mut both);
    let mut first = String::new();
    write_nodes(&a, &mut first);
    let mut second = String::new();
    write_nodes(&b, &mut second);
    assert_eq!(both, format!("{first}{second}"));
    assert_eq!(both, "a&lt;<!----><i t=\"&quot;\"></i>");
}

fn clone_node(n: &HtmlNode) -> HtmlNode {
    match n {
        HtmlNode::Container { children } => HtmlNode::Container {
            children: children.iter().map(clone_node).collect(),
        },
        HtmlNode::Element { name, attrs, children } => HtmlNode::Element {
            name: name.clone(),
            attrs: attrs.clone(),
            children: children.iter().map(clone_node).collect(),
        },
        HtmlNode::Text(t) => HtmlNode::Text(t.clone()),
        HtmlNode::Comment(c) => HtmlNode::Comment(c.clone()),
    }
}

#[test]
fn escaped_values_cannot_break_out() {
    let node = element("a", vec![("href", "\"><script>")], vec![HtmlNode::Text("</a><b>".to_string())]);
    let mut out = String::new();
    write_node(&node, &mut out);
    assert_eq!(out, "<a href=\"&quot;&gt;&lt;script&gt;\">&lt;/a&gt;&lt;b&gt;</a>");
}
