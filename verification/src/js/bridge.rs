//! What the page's scripts read of the document: nodes by id, their names, types, values,
//! attributes and neighbours, and the checks a change must pass before it is made.
use vstd::prelude::*;

use crate::js::dom::format_handle;
use crate::text::{
    ascii_uppercase, decimal, eq_ignore_ascii_case, str_eq_ignore_ascii_case, str_equal,
    to_ascii_uppercase_string,
};

verus! {

/// The namespace of an element's name.
#[derive(Debug, Clone, Copy, PartialEq, Eq, Structural)]
pub enum Namespace {
    Html,
    Svg,
    MathMl,
    /// Any namespace the scripts have no URI for.
    Other,
}

/// An element's local name, namespace and attributes (names and values, in order).
#[derive(Debug)]
pub struct ElementData {
    pub name: String,
    pub namespace: Namespace,
    pub attrs: Vec<(String, String)>,
}

/// What a node is.
#[derive(Debug)]
pub enum NodeData {
    Document,
    Element(ElementData),
    /// A box the layout made; it reads like an element.
    AnonymousBlock(ElementData),
    Text(String),
    Comment,
}

/// A node with its parent and children, by id.
#[derive(Debug)]
pub struct DomNode {
    pub data: NodeData,
    pub parent: Option<usize>,
    pub children: Vec<usize>,
}

/// A document as a table of nodes: the node with id `i` stands in slot `i`; an empty slot,
/// or one past the end, is a node that does not exist.
#[derive(Debug)]
pub struct DomTree {
    pub nodes: Vec<Option<DomNode>>,
    pub root: usize,
}

pub const XHTML_NAMESPACE: &'static str = "http://www.w3.org/1999/xhtml";

pub const SVG_NAMESPACE: &'static str = "http://www.w3.org/2000/svg";

pub const MATHML_NAMESPACE: &'static str = "http://www.w3.org/1998/Math/MathML";

/// The message for a node that does not exist: `missing <kind>node <id>`.
pub open spec fn missing_text(kind: Seq<char>, id: nat) -> Seq<char> {
    "missing "@ + kind + "node "@ + decimal(id)
}

/// The message for a node that is not a child of the parent it was named with.
pub open spec fn not_child_text(what: Seq<char>, id: nat, parent: nat) -> Seq<char> {
    what + decimal(id) + " is not a child of parent "@ + decimal(parent)
}

fn missing(kind: &str, id: usize) -> (r: String)
    ensures
        r@ == missing_text(kind@, id as nat),
{
    let mut r = String::from_str("missing ");
    r.append(kind);
    r.append("node ");
    let n = format_handle(id);
    r.append(n.as_str());
    r
}

fn not_child(what: &str, id: usize, parent: usize) -> (r: String)
    ensures
        r@ == not_child_text(what@, id as nat, parent as nat),
{
    let mut r = String::from_str(what);
    let i = format_handle(id);
    r.append(i.as_str());
    r.append(" is not a child of parent ");
    let p = format_handle(parent);
    r.append(p.as_str());
    r
}

/// The node name a script sees: `#document`, `#text`, `#comment`, or an element's local
/// name in ASCII upper case.
pub open spec fn name_of(d: NodeData) -> Seq<char> {
    match d {
        NodeData::Document => "#document"@,
        NodeData::Element(e) => ascii_uppercase(e.name@),
        NodeData::AnonymousBlock(e) => ascii_uppercase(e.name@),
        NodeData::Text(_) => "#text"@,
        NodeData::Comment => "#comment"@,
    }
}

/// The DOM node type: 9 for the document, 1 for elements, 3 for text, 8 for comments.
pub open spec fn type_of(d: NodeData) -> u16 {
    match d {
        NodeData::Document => 9,
        NodeData::Element(_) => 1,
        NodeData::AnonymousBlock(_) => 1,
        NodeData::Text(_) => 3,
        NodeData::Comment => 8,
    }
}

/// The node value: a text's content, the empty text for a comment, none otherwise.
pub open spec fn value_of(d: NodeData) -> Option<Seq<char>> {
    match d {
        NodeData::Text(t) => Some(t@),
        NodeData::Comment => Some(Seq::<char>::empty()),
        _ => None,
    }
}

/// The URI of a namespace, where scripts know one.
pub open spec fn namespace_text(ns: Namespace) -> Option<Seq<char>> {
    match ns {
        Namespace::Html => Some(XHTML_NAMESPACE@),
        Namespace::Svg => Some(SVG_NAMESPACE@),
        Namespace::MathMl => Some(MATHML_NAMESPACE@),
        Namespace::Other => None,
    }
}

/// The namespace URI of a node: that of an element's name, none for other nodes.
pub open spec fn namespace_of(d: NodeData) -> Option<Seq<char>> {
    match d {
        NodeData::Element(e) => namespace_text(e.namespace),
        NodeData::AnonymousBlock(e) => namespace_text(e.namespace),
        _ => None,
    }
}

/// The namespace an element created by a script gets: SVG or MathML where the URI names
/// them (ASCII case ignored), HTML otherwise.
pub open spec fn namespace_for(uri: Option<Seq<char>>) -> Namespace {
    match uri {
        Some(u) => if eq_ignore_ascii_case(u, SVG_NAMESPACE@) {
            Namespace::Svg
        } else if eq_ignore_ascii_case(u, MATHML_NAMESPACE@) {
            Namespace::MathMl
        } else {
            Namespace::Html
        },
        None => Namespace::Html,
    }
}

/// The value of the first attribute with a name, in an attribute list.
pub open spec fn attr_in(attrs: Seq<(String, String)>, name: Seq<char>) -> Option<Seq<char>>
    decreases attrs.len(),
{
    if attrs.len() == 0 {
        None
    } else if attrs[0].0@ == name {
        Some(attrs[0].1@)
    } else {
        attr_in(attrs.drop_first(), name)
    }
}

/// The value of a node's attribute; only elements have attributes.
pub open spec fn attribute_of(d: NodeData, name: Seq<char>) -> Option<Seq<char>> {
    match d {
        NodeData::Element(e) => attr_in(e.attrs@, name),
        NodeData::AnonymousBlock(e) => attr_in(e.attrs@, name),
        _ => None,
    }
}

/// The child after `id` in a parent's children (after its first occurrence).
pub open spec fn after_in(children: Seq<usize>, id: usize) -> Option<usize> {
    match children.index_of_first(id) {
        Some(i) => if i + 1 < children.len() {
            Some(children[i + 1])
        } else {
            None
        },
        None => None,
    }
}

/// The child before `id` in a parent's children (before its first occurrence).
pub open spec fn before_in(children: Seq<usize>, id: usize) -> Option<usize> {
    match children.index_of_first(id) {
        Some(i) => if i == 0 {
            None
        } else {
            Some(children[i - 1])
        },
        None => None,
    }
}

/// The first position of `id` in `ids`.
fn position(ids: &Vec<usize>, id: usize) -> (r: Option<usize>)
    ensures
        match ids@.index_of_first(id) {
            Some(i) => r matches Some(j) && j as int == i,
            None => r is None,
        },
        r matches Some(i) ==> i < ids@.len(),
{
    let mut i: usize = 0;
    while i < ids.len()
        invariant
            i <= ids@.len(),
            forall|k: int| 0 <= k < i ==> ids@[k] != id,
        decreases ids@.len() - i,
    {
        if ids[i] == id {
            proof {
                ids@.index_of_first_ensures(id);
                assert(ids@.contains(id));
                let j = ids@.index_of_first(id).unwrap();
                if j < i {
                    assert(ids@[j] != id);
                }
                if j > i {
                    assert(ids@[i as int] != id);
                }
            }
            return Some(i);
        }
        i = i + 1;
    }
    proof {
        ids@.index_of_first_ensures(id);
        if ids@.contains(id) {
            let j = choose|j: int| 0 <= j < ids@.len() && ids@[j] == id;
            assert(ids@[j] != id);
        }
    }
    None
}

/// The value of the first attribute named `name`.
fn find_attr(attrs: &Vec<(String, String)>, name: &str) -> (r: Option<String>)
    ensures
        opt_text(r) == attr_in(attrs@, name@),
{
    let mut i: usize = 0;
    assert(attrs@.skip(0) =~= attrs@);
    while i < attrs.len()
        invariant
            i <= attrs@.len(),
            attr_in(attrs@, name@) == attr_in(attrs@.skip(i as int), name@),
        decreases attrs@.len() - i,
    {
        proof {
            assert(attrs@.skip(i as int).drop_first() =~= attrs@.skip(i + 1));
        }
        if str_equal(attrs[i].0.as_str(), name) {
            return Some(attrs[i].1.clone());
        }
        i = i + 1;
    }
    None
}

/// A result with its error message as text.
pub open spec fn err_view<T>(r: Result<T, String>) -> Result<T, Seq<char>> {
    match r {
        Ok(v) => Ok(v),
        Err(e) => Err(e@),
    }
}

/// A text result, as text.
pub open spec fn text_view(r: Result<String, String>) -> Result<Seq<char>, Seq<char>> {
    match r {
        Ok(v) => Ok(v@),
        Err(e) => Err(e@),
    }
}

/// An optional text, as text.
pub open spec fn opt_text(o: Option<String>) -> Option<Seq<char>> {
    match o {
        Some(s) => Some(s@),
        None => None,
    }
}

/// A result holding an optional text, as text.
pub open spec fn opt_text_view(r: Result<Option<String>, String>) -> Result<
    Option<Seq<char>>,
    Seq<char>,
> {
    match r {
        Ok(v) => Ok(opt_text(v)),
        Err(e) => Err(e@),
    }
}

impl DomTree {
    /// The node with an id, if it exists.
    pub open spec fn node(&self, id: int) -> Option<DomNode> {
        if 0 <= id < self.nodes@.len() {
            self.nodes@[id]
        } else {
            None
        }
    }

    /// The node with an id, or the message that it is missing.
    pub open spec fn node_outcome(&self, id: nat) -> Result<DomNode, Seq<char>> {
        match self.node(id as int) {
            Some(n) => Ok(n),
            None => Err(missing_text(""@, id)),
        }
    }

    /// What a read of a node's parent gives.
    pub open spec fn parent_outcome(&self, id: nat) -> Result<Option<usize>, Seq<char>> {
        match self.node_outcome(id) {
            Ok(n) => Ok(n.parent),
            Err(m) => Err(m),
        }
    }

    /// What a read of a node's first child gives.
    pub open spec fn first_child_outcome(&self, id: nat) -> Result<Option<usize>, Seq<char>> {
        match self.node_outcome(id) {
            Ok(n) => Ok(
                if n.children@.len() > 0 {
                    Some(n.children@[0])
                } else {
                    None
                },
            ),
            Err(m) => Err(m),
        }
    }

    /// What a read of a node's children gives.
    pub open spec fn children_outcome(&self, id: nat) -> Result<Seq<usize>, Seq<char>> {
        match self.node_outcome(id) {
            Ok(n) => Ok(n.children@),
            Err(m) => Err(m),
        }
    }

    /// What a read of a node's sibling gives: the one after it, or the one before it.
    pub open spec fn sibling_outcome(&self, id: usize, next: bool) -> Result<Option<usize>, Seq<char>> {
        match self.node_outcome(id as nat) {
            Err(m) => Err(m),
            Ok(n) => match n.parent {
                None => Ok(None),
                Some(p) => match self.node(p as int) {
                    None => Err(missing_text("parent "@, p as nat)),
                    Some(pn) => Ok(
                        if next {
                            after_in(pn.children@, id)
                        } else {
                            before_in(pn.children@, id)
                        },
                    ),
                },
            },
        }
    }

    /// What a read of a node's name gives.
    pub open spec fn name_outcome(&self, id: nat) -> Result<Seq<char>, Seq<char>> {
        match self.node_outcome(id) {
            Ok(n) => Ok(name_of(n.data)),
            Err(m) => Err(m),
        }
    }

    /// What a read of a node's type gives.
    pub open spec fn type_outcome(&self, id: nat) -> Result<u16, Seq<char>> {
        match self.node_outcome(id) {
            Ok(n) => Ok(type_of(n.data)),
            Err(m) => Err(m),
        }
    }

    /// What a read of a node's value gives.
    pub open spec fn value_outcome(&self, id: nat) -> Result<Option<Seq<char>>, Seq<char>> {
        match self.node_outcome(id) {
            Ok(n) => Ok(value_of(n.data)),
            Err(m) => Err(m),
        }
    }

    /// What a read of a node's attribute gives.
    pub open spec fn attribute_outcome(&self, id: nat, name: Seq<char>) -> Result<
        Option<Seq<char>>,
        Seq<char>,
    > {
        match self.node_outcome(id) {
            Ok(n) => Ok(attribute_of(n.data, name)),
            Err(m) => Err(m),
        }
    }

    /// What a read of a node's namespace URI gives.
    pub open spec fn namespace_outcome(&self, id: nat) -> Result<Option<Seq<char>>, Seq<char>> {
        match self.node_outcome(id) {
            Ok(n) => Ok(namespace_of(n.data)),
            Err(m) => Err(m),
        }
    }

    /// Finds a node by id.
    pub fn get_node(&self, id: usize) -> (r: Option<&DomNode>)
        ensures
            match self.node(id as int) {
                Some(n) => r matches Some(m) && *m == n,
                None => r is None,
            },
    {
        if id < self.nodes.len() {
            match &self.nodes[id] {
                Some(n) => Some(n),
                None => None,
            }
        } else {
            None
        }
    }

    /// The id of the document node.
    pub fn document_handle(&self) -> (r: usize)
        ensures
            r == self.root,
    {
        self.root
    }

    /// Fails with `missing node <id>` where the node does not exist.
    pub fn check_node(&self, id: usize) -> (r: Result<(), String>)
        ensures
            match self.node_outcome(id as nat) {
                Ok(_) => r is Ok,
                Err(m) => r matches Err(e) && e@ == m,
            },
    {
        match self.get_node(id) {
            Some(_) => Ok(()),
            None => Err(missing("", id)),
        }
    }

    /// The parent of a node.
    pub fn parent_node(&self, id: usize) -> (r: Result<Option<usize>, String>)
        ensures
            err_view(r) == self.parent_outcome(id as nat),
    {
        match self.get_node(id) {
            Some(n) => Ok(n.parent),
            None => Err(missing("", id)),
        }
    }

    /// The first child of a node.
    pub fn first_child(&self, id: usize) -> (r: Result<Option<usize>, String>)
        ensures
            err_view(r) == self.first_child_outcome(id as nat),
    {
        match self.get_node(id) {
            Some(n) => {
                if n.children.len() > 0 {
                    Ok(Some(n.children[0]))
                } else {
                    Ok(None)
                }
            },
            None => Err(missing("", id)),
        }
    }

    /// The ids of a node's children, in order.
    pub fn child_nodes(&self, id: usize) -> (r: Result<Vec<usize>, String>)
        ensures
            match self.children_outcome(id as nat) {
                Ok(c) => r matches Ok(v) && v@ == c,
                Err(m) => r matches Err(e) && e@ == m,
            },
    {
        match self.get_node(id) {
            Some(n) => {
                let mut v: Vec<usize> = Vec::new();
                let mut i: usize = 0;
                while i < n.children.len()
                    invariant
                        i <= n.children@.len(),
                        v@ == n.children@.take(i as int),
                    decreases n.children@.len() - i,
                {
                    v.push(n.children[i]);
                    proof {
                        assert(n.children@.take(i + 1) =~= n.children@.take(i as int).push(
                            n.children@[i as int],
                        ));
                    }
                    i = i + 1;
                }
                proof {
                    assert(n.children@.take(n.children@.len() as int) =~= n.children@);
                }
                Ok(v)
            },
            None => Err(missing("", id)),
        }
    }

    fn sibling(&self, id: usize, next: bool) -> (r: Result<Option<usize>, String>)
        ensures
            err_view(r) == self.sibling_outcome(id, next),
    {
        let n = match self.get_node(id) {
            Some(n) => n,
            None => return Err(missing("", id)),
        };
        let p = match n.parent {
            Some(p) => p,
            None => return Ok(None),
        };
        let pn = match self.get_node(p) {
            Some(pn) => pn,
            None => return Err(missing("parent ", p)),
        };
        match position(&pn.children, id) {
            Some(i) => {
                if next {
                    if i < pn.children.len() - 1 {
                        Ok(Some(pn.children[i + 1]))
                    } else {
                        Ok(None)
                    }
                } else {
                    if i == 0 {
                        Ok(None)
                    } else {
                        Ok(Some(pn.children[i - 1]))
                    }
                }
            },
            None => Ok(None),
        }
    }

    /// The sibling after a node: none for a node without a parent.
    pub fn next_sibling(&self, id: usize) -> (r: Result<Option<usize>, String>)
        ensures
            err_view(r) == self.sibling_outcome(id, true),
    {
        self.sibling(id, true)
    }

    /// The sibling before a node: none for a node without a parent.
    pub fn previous_sibling(&self, id: usize) -> (r: Result<Option<usize>, String>)
        ensures
            err_view(r) == self.sibling_outcome(id, false),
    {
        self.sibling(id, false)
    }

    /// The node name a script sees.
    pub fn node_name(&self, id: usize) -> (r: Result<String, String>)
        ensures
            text_view(r) == self.name_outcome(id as nat),
    {
        match self.get_node(id) {
            Some(n) => {
                let name = match &n.data {
                    NodeData::Document => String::from_str("#document"),
                    NodeData::Element(e) => to_ascii_uppercase_string(e.name.as_str()),
                    NodeData::AnonymousBlock(e) => to_ascii_uppercase_string(e.name.as_str()),
                    NodeData::Text(_) => String::from_str("#text"),
                    NodeData::Comment => String::from_str("#comment"),
                };
                Ok(name)
            },
            None => Err(missing("", id)),
        }
    }

    /// The DOM node type.
    pub fn node_type(&self, id: usize) -> (r: Result<u16, String>)
        ensures
            err_view(r) == self.type_outcome(id as nat),
    {
        match self.get_node(id) {
            Some(n) => {
                let ty: u16 = match &n.data {
                    NodeData::Document => 9,
                    NodeData::Element(_) => 1,
                    NodeData::AnonymousBlock(_) => 1,
                    NodeData::Text(_) => 3,
                    NodeData::Comment => 8,
                };
                Ok(ty)
            },
            None => Err(missing("", id)),
        }
    }

    /// The node value.
    pub fn node_value(&self, id: usize) -> (r: Result<Option<String>, String>)
        ensures
            opt_text_view(r) == self.value_outcome(id as nat),
    {
        match self.get_node(id) {
            Some(n) => {
                let value = match &n.data {
                    NodeData::Text(t) => Some(t.clone()),
                    NodeData::Comment => Some(String::new()),
                    _ => None,
                };
                Ok(value)
            },
            None => Err(missing("", id)),
        }
    }

    /// The value of a node's attribute.
    pub fn get_attribute(&self, id: usize, name: &str) -> (r: Result<Option<String>, String>)
        ensures
            opt_text_view(r) == self.attribute_outcome(id as nat, name@),
    {
        match self.get_node(id) {
            Some(n) => {
                let value = match &n.data {
                    NodeData::Element(e) => find_attr(&e.attrs, name),
                    NodeData::AnonymousBlock(e) => find_attr(&e.attrs, name),
                    _ => None,
                };
                Ok(value)
            },
            None => Err(missing("", id)),
        }
    }

    /// The namespace URI of a node.
    pub fn namespace_uri(&self, id: usize) -> (r: Result<Option<String>, String>)
        ensures
            opt_text_view(r) == self.namespace_outcome(id as nat),
    {
        match self.get_node(id) {
            Some(n) => {
                let ns = match &n.data {
                    NodeData::Element(e) => namespace_string(e.namespace),
                    NodeData::AnonymousBlock(e) => namespace_string(e.namespace),
                    _ => None,
                };
                Ok(ns)
            },
            None => Err(missing("", id)),
        }
    }

    /// Checks an append: the parent and the child must exist.
    pub fn check_append_child(&self, parent: usize, child: usize) -> (r: Result<(), String>)
        ensures
            match (self.node(parent as int), self.node(child as int)) {
                (None, _) => r matches Err(e) && e@ == missing_text("parent "@, parent as nat),
                (Some(_), None) => r matches Err(e) && e@ == missing_text(
                    "child "@,
                    child as nat,
                ),
                (Some(_), Some(_)) => r is Ok,
            },
    {
        if self.get_node(parent).is_none() {
            return Err(missing("parent ", parent));
        }
        if self.get_node(child).is_none() {
            return Err(missing("child ", child));
        }
        Ok(())
    }

    /// Checks an insertion: the parent and the child must exist, and the reference node,
    /// where there is one, must exist and be a child of the parent.
    pub fn check_insert_before(&self, parent: usize, child: usize, reference: Option<usize>) -> (r:
        Result<(), String>)
        ensures
            self.node(parent as int) is None ==> (r matches Err(e) && e@ == missing_text(
                "parent "@,
                parent as nat,
            )),
            self.node(parent as int) is Some && self.node(child as int) is None ==> (r matches Err(
                e,
            ) && e@ == missing_text("child "@, child as nat)),
            self.node(parent as int) is Some && self.node(child as int) is Some ==> match reference {
                None => r is Ok,
                Some(x) => match self.node(x as int) {
                    None => r matches Err(e) && e@ == missing_text("reference "@, x as nat),
                    Some(xn) => if xn.parent == Some(parent) {
                        r is Ok
                    } else {
                        r matches Err(e) && e@ == not_child_text(
                            "reference node "@,
                            x as nat,
                            parent as nat,
                        )
                    },
                },
            },
    {
        self.check_append_child(parent, child)?;
        if let Some(x) = reference {
            let xn = match self.get_node(x) {
                Some(xn) => xn,
                None => return Err(missing("reference ", x)),
            };
            let is_child = match xn.parent {
                Some(p) => p == parent,
                None => false,
            };
            if !is_child {
                return Err(not_child("reference node ", x, parent));
            }
        }
        Ok(())
    }

    /// Checks a removal: the child must exist and be a child of the parent.
    pub fn check_remove_child(&self, parent: usize, child: usize) -> (r: Result<(), String>)
        ensures
            match self.node(child as int) {
                None => r matches Err(e) && e@ == missing_text("child "@, child as nat),
                Some(cn) => if cn.parent == Some(parent) {
                    r is Ok
                } else {
                    r matches Err(e) && e@ == not_child_text("node "@, child as nat, parent as nat)
                },
            },
    {
        let cn = match self.get_node(child) {
            Some(cn) => cn,
            None => return Err(missing("child ", child)),
        };
        let is_child = match cn.parent {
            Some(p) => p == parent,
            None => false,
        };
        if !is_child {
            return Err(not_child("node ", child, parent));
        }
        Ok(())
    }

    /// Checks a replacement: the parent must exist, the old child must exist and be its
    /// child, and the new child must exist.
    pub fn check_replace_child(&self, parent: usize, new_child: usize, old_child: usize) -> (r:
        Result<(), String>)
        ensures
            self.node(parent as int) is None ==> (r matches Err(e) && e@ == missing_text(
                "parent "@,
                parent as nat,
            )),
            self.node(parent as int) is Some ==> match self.node(old_child as int) {
                None => r matches Err(e) && e@ == missing_text(
                    "existing child "@,
                    old_child as nat,
                ),
                Some(on) => if on.parent != Some(parent) {
                    r matches Err(e) && e@ == not_child_text(
                        "node "@,
                        old_child as nat,
                        parent as nat,
                    )
                } else if self.node(new_child as int) is None {
                    r matches Err(e) && e@ == missing_text("replacement "@, new_child as nat)
                } else {
                    r is Ok
                },
            },
    {
        if self.get_node(parent).is_none() {
            return Err(missing("parent ", parent));
        }
        let on = match self.get_node(old_child) {
            Some(on) => on,
            None => return Err(missing("existing child ", old_child)),
        };
        let is_child = match on.parent {
            Some(p) => p == parent,
            None => false,
        };
        if !is_child {
            return Err(not_child("node ", old_child, parent));
        }
        if self.get_node(new_child).is_none() {
            return Err(missing("replacement ", new_child));
        }
        Ok(())
    }
}

/// The URI of a namespace, as a `String`.
pub fn namespace_string(ns: Namespace) -> (r: Option<String>)
    ensures
        opt_text(r) == namespace_text(ns),
{
    match ns {
        Namespace::Html => Some(String::from_str(XHTML_NAMESPACE)),
        Namespace::Svg => Some(String::from_str(SVG_NAMESPACE)),
        Namespace::MathMl => Some(String::from_str(MATHML_NAMESPACE)),
        Namespace::Other => None,
    }
}

/// The namespace for an element a script creates, from the URI it gave.
pub fn qualify_namespace(namespace: Option<&str>) -> (r: Namespace)
    ensures
        r == namespace_for(
            match namespace {
                Some(u) => Some(u@),
                None => None,
            },
        ),
{
    match namespace {
        Some(u) => {
            if str_eq_ignore_ascii_case(u, SVG_NAMESPACE) {
                Namespace::Svg
            } else if str_eq_ignore_ascii_case(u, MATHML_NAMESPACE) {
                Namespace::MathMl
            } else {
                Namespace::Html
            }
        },
        None => Namespace::Html,
    }
}

/// Among children without repeats, the node after `a` has `a` before it, and the node
/// before `b` has `b` after it.
pub proof fn lemma_siblings_inverse(children: Seq<usize>, i: int)
    requires
        children.no_duplicates(),
        0 <= i,
        i + 1 < children.len(),
    ensures
        after_in(children, children[i]) == Some(children[i + 1]),
        before_in(children, children[i + 1]) == Some(children[i]),
{
    children.index_of_first_ensures(children[i]);
    children.index_of_first_ensures(children[i + 1]);
    assert(children.contains(children[i]));
    assert(children.contains(children[i + 1]));
}

} // verus!
