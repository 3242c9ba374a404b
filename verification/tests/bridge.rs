use frontier::js::bridge::{
    namespace_string, qualify_namespace, DomNode, DomTree, ElementData, Namespace, NodeData,
};
use frontier::js::dom::DomState;

fn element(name: &str, ns: Namespace, attrs: &[(&str, &str)], parent: Option<usize>, children: Vec<usize>) -> Option<DomNode> {
    Some(DomNode {
        data: NodeData::Element(ElementData {
            name: name.to_string(),
            namespace: ns,
            attrs: attrs
                .iter()
                .map(|(k, v)| (k.to_string(), v.to_string()))
                .collect(),
        }),
        parent,
        children,
    })
}

/// 0: document, 1: <html>, 2: <body id="main">, 3: text, 4: comment, 5: <svg>,
/// 6: empty slot, 7: a node whose parent is missing.
fn sample() -> DomTree {
    DomTree {
        nodes: vec![
            Some(DomNode { data: NodeData::Document, parent: None, children: vec![1] }),
            element("html", Namespace::Html, &[], Some(0), vec![2]),
            element("body", Namespace::Html, &[("id", "main"), ("id", "second"), ("Class", "x")], Some(1), vec![3, 4, 5]),
            Some(DomNode { data: NodeData::Text("hello".to_string()), parent: Some(2), children: vec![] }),
            Some(DomNode { data: NodeData::Comment, parent: Some(2), children: vec![] }),
            element("svg", Namespace::Svg, &[], Some(2), vec![]),
            None,
            Some(DomNode { data: NodeData::Text("lost".to_string()), parent: Some(6), children: vec![] }),
        ],
        root: 0,
    }
}

#[test]
fn reads_names_types_and_values() {
    let t = sample();
    assert_eq!(t.node_name(0).unwrap(), "#document");
    assert_eq!(t.node_name(2).unwrap(), "BODY");
    assert_eq!(t.node_name(3).unwrap(), "#text");
    assert_eq!(t.node_name(4).unwrap(), "#comment");
    assert_eq!(t.node_type(0).unwrap(), 9);
    assert_eq!(t.node_type(5).unwrap(), 1);
    assert_eq!(t.node_type(3).unwrap(), 3);
    assert_eq!(t.node_type(4).unwrap(), 8);
    assert_eq!(t.node_value(3).unwrap(), Some("hello".to_string()));
    assert_eq!(t.node_value(4).unwrap(), Some(String::new()));
    assert_eq!(t.node_value(2).unwrap(), None);
    assert_eq!(t.node_name(6).unwrap_err(), "missing node 6");
    assert_eq!(t.node_type(99).unwrap_err(), "missing node 99");
}

#[test]
fn reads_neighbours() {
    let t = sample();
    assert_eq!(t.parent_node(2).unwrap(), Some(1));
    assert_eq!(t.parent_node(0).unwrap(), None);
    assert_eq!(t.first_child(2).unwrap(), Some(3));
    assert_eq!(t.first_child(3).unwrap(), None);
    assert_eq!(t.child_nodes(2).unwrap(), vec![3, 4, 5]);
    assert_eq!(t.next_sibling(3).unwrap(), Some(4));
    assert_eq!(t.next_sibling(5).unwrap(), None);
    assert_eq!(t.previous_sibling(4).unwrap(), Some(3));
    assert_eq!(t.previous_sibling(3).unwrap(), None);
    assert_eq!(t.next_sibling(0).unwrap(), None);
    assert_eq!(t.next_sibling(7).unwrap_err(), "missing parent node 6");
    assert_eq!(t.previous_sibling(6).unwrap_err(), "missing node 6");
    assert_eq!(t.document_handle(), 0);
}

#[test]
fn reads_attributes_and_namespaces() {
    let t = sample();
    assert_eq!(t.get_attribute(2, "id").unwrap(), Some("main".to_string()));
    assert_eq!(t.get_attribute(2, "class").unwrap(), None);
    assert_eq!(t.get_attribute(2, "Class").unwrap(), Some("x".to_string()));
    assert_eq!(t.get_attribute(3, "id").unwrap(), None);
    assert_eq!(
        t.namespace_uri(2).unwrap(),
        Some("http://www.w3.org/1999/xhtml".to_string())
    );
    assert_eq!(
        t.namespace_uri(5).unwrap(),
        Some("http://www.w3.org/2000/svg".to_string())
    );
    assert_eq!(t.namespace_uri(3).unwrap(), None);
    assert_eq!(namespace_string(Namespace::Other), None);
    assert_eq!(
        namespace_string(Namespace::MathMl),
        Some("http://www.w3.org/1998/Math/MathML".to_string())
    );
}

#[test]
fn created_elements_get_their_namespace() {
    assert_eq!(qualify_namespace(Some("HTTP://WWW.W3.ORG/2000/SVG")), Namespace::Svg);
    assert_eq!(qualify_namespace(Some("http://www.w3.org/1998/Math/MathML")), Namespace::MathMl);
    assert_eq!(qualify_namespace(Some("http://www.w3.org/1999/xhtml")), Namespace::Html);
    assert_eq!(qualify_namespace(Some("urn:other")), Namespace::Html);
    assert_eq!(qualify_namespace(None), Namespace::Html);
}

#[test]
fn changes_are_checked_first() {
    let t = sample();
    assert!(t.check_node(3).is_ok());
    assert_eq!(t.check_node(6).unwrap_err(), "missing node 6");
    assert!(t.check_append_child(2, 3).is_ok());
    assert_eq!(t.check_append_child(6, 3).unwrap_err(), "missing parent node 6");
    assert_eq!(t.check_append_child(2, 60).unwrap_err(), "missing child node 60");
    assert!(t.check_insert_before(2, 1, Some(4)).is_ok());
    assert!(t.check_insert_before(2, 1, None).is_ok());
    assert_eq!(t.check_insert_before(2, 1, Some(6)).unwrap_err(), "missing reference node 6");
    assert_eq!(
        t.check_insert_before(2, 1, Some(1)).unwrap_err(),
        "reference node 1 is not a child of parent 2"
    );
    assert!(t.check_remove_child(2, 4).is_ok());
    assert_eq!(t.check_remove_child(1, 4).unwrap_err(), "node 4 is not a child of parent 1");
    assert_eq!(t.check_remove_child(1, 6).unwrap_err(), "missing child node 6");
    assert!(t.check_replace_child(2, 1, 5).is_ok());
    assert_eq!(t.check_replace_child(6, 1, 5).unwrap_err(), "missing parent node 6");
    assert_eq!(t.check_replace_child(2, 1, 6).unwrap_err(), "missing existing child node 6");
    assert_eq!(t.check_replace_child(1, 3, 5).unwrap_err(), "node 5 is not a child of parent 1");
    assert_eq!(t.check_replace_child(2, 6, 5).unwrap_err(), "missing replacement node 6");
}

#[test]
fn dom_state_reads_through_handles() {
    let mut state = DomState::new("<p></p>");
    assert_eq!(state.parent_handle("2").unwrap_err(), "DOM bridge not attached");
    assert_eq!(state.document_handle().unwrap_err(), "DOM bridge not attached");
    assert_eq!(
        state.node_name("x").unwrap_err(),
        "invalid handle 'x': invalid digit found in string"
    );
    state.attach_document(sample());
    assert_eq!(state.document_handle().unwrap(), "0");
    assert_eq!(state.parent_handle("2").unwrap(), Some("1".to_string()));
    assert_eq!(state.first_child_handle("2").unwrap(), Some("3".to_string()));
    assert_eq!(state.next_sibling_handle("3").unwrap(), Some("4".to_string()));
    assert_eq!(state.previous_sibling_handle("3").unwrap(), None);
    assert_eq!(
        state.child_handles("2").unwrap(),
        vec!["3".to_string(), "4".to_string(), "5".to_string()]
    );
    assert_eq!(state.node_name("5").unwrap(), "SVG");
    assert_eq!(state.node_type("4").unwrap(), 8);
    assert_eq!(state.node_value("3").unwrap(), Some("hello".to_string()));
    assert_eq!(state.get_attribute("2", "id").unwrap(), Some("main".to_string()));
    assert_eq!(
        state.namespace_uri("5").unwrap(),
        Some("http://www.w3.org/2000/svg".to_string())
    );
    assert_eq!(state.node_name("6").unwrap_err(), "missing node 6");

    // A second document does not replace the first.
    state.attach_document(DomTree { nodes: vec![], root: 0 });
    assert_eq!(state.node_name("0").unwrap(), "#document");
}

#[test]
fn next_and_previous_siblings_undo_each_other() {
    let t = sample();
    for id in [3usize, 4] {
        let next = t.next_sibling(id).unwrap().unwrap();
        assert_eq!(t.previous_sibling(next).unwrap(), Some(id));
    }
}
