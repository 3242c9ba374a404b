//! Writing a document tree back out as HTML.
use vstd::prelude::*;

use crate::readme_application::{encode_text, escaped_text};

verus! {

/// A node of a document tree, as the serializer reads it.
#[derive(Debug)]
pub enum HtmlNode {
    /// The document itself, or an anonymous box: only its children are written.
    Container { children: Vec<HtmlNode> },
    /// An element with its attributes in order.
    Element { name: String, attrs: Vec<(String, String)>, children: Vec<HtmlNode> },
    Text(String),
    /// A comment, with the text it was created with (if the bridge kept it).
    Comment(Option<String>),
}

/// Attribute-value escaping for double-quoted attributes: `&`, `<`, `>` and `"` become
/// entities, all else stays.
pub open spec fn escaped_attribute(s: Seq<char>) -> Seq<char>
    decreases s.len(),
{
    if s.len() == 0 {
        s
    } else {
        let prev = escaped_attribute(s.drop_last());
        let c = s.last();
        if c == '&' {
            prev + "&amp;"@
        } else if c == '<' {
            prev + "&lt;"@
        } else if c == '>' {
            prev + "&gt;"@
        } else if c == '"' {
            prev + "&quot;"@
        } else {
            prev.push(c)
        }
    }
}

/// Escapes a double-quoted attribute value with
/// `html_escape::encode_double_quoted_attribute`. Trusted: the result replaces each `&`,
/// `<`, `>` and `"` by `&amp;`, `&lt;`, `&gt;` and `&quot;` and keeps every other character.
#[verifier::external_body]
fn encode_attribute(s: &str) -> (r: String)
    ensures
        r@ == escaped_attribute(s@),
{
    html_escape::encode_double_quoted_attribute(s).into_owned()
}

/// The attributes of an element as HTML: ` name="value"` for each, in order.
pub open spec fn attrs_html(attrs: Seq<(String, String)>) -> Seq<char>
    decreases attrs.len(),
{
    if attrs.len() == 0 {
        Seq::empty()
    } else {
        attrs_html(attrs.drop_last()) + seq![' '] + attrs.last().0@ + "=\""@ + escaped_attribute(
            attrs.last().1@,
        ) + seq!['"']
    }
}

/// A node as HTML.
pub open spec fn node_html(n: HtmlNode) -> Seq<char>
    decreases n,
{
    match n {
        HtmlNode::Container { children } => {
            proof {
                assert(decreases_to!(children => children@));
            }
            nodes_html(children@)
        },
        HtmlNode::Element { name, attrs, children } => {
            proof {
                assert(decreases_to!(children => children@));
            }
            seq!['<'] + name@ + attrs_html(attrs@) + seq!['>'] + nodes_html(children@) + "</"@
                + name@ + seq!['>']
        },
        HtmlNode::Text(t) => escaped_text(t@),
        HtmlNode::Comment(payload) => "<!--"@ + (match payload {
            Some(p) => p@,
            None => Seq::<char>::empty(),
        }) + "-->"@,
    }
}

/// Nodes as HTML, one after the other.
pub open spec fn nodes_html(ns: Seq<HtmlNode>) -> Seq<char>
    decreases ns,
{
    if ns.len() == 0 {
        Seq::empty()
    } else {
        proof {
            assert(decreases_to!(ns => ns.drop_last()));
            assert(decreases_to!(ns => ns.last()));
        }
        nodes_html(ns.drop_last()) + node_html(ns.last())
    }
}

fn write_attrs(attrs: &Vec<(String, String)>, out: &mut String)
    ensures
        final(out)@ == old(out)@ + attrs_html(attrs@),
{
    let mut i: usize = 0;
    proof {
        assert(attrs@.take(0) =~= Seq::<(String, String)>::empty());
        assert(old(out)@ + attrs_html(attrs@.take(0)) =~= old(out)@);
    }
    while i < attrs.len()
        invariant
            i <= attrs@.len(),
            out@ == old(out)@ + attrs_html(attrs@.take(i as int)),
        decreases attrs@.len() - i,
    {
        proof {
            let t = attrs@.take(i + 1);
            assert(t.drop_last() =~= attrs@.take(i as int));
            assert(t.last() == attrs@[i as int]);
        }
        out.append(" ");
        out.append(attrs[i].0.as_str());
        out.append("=\"");
        let encoded = encode_attribute(attrs[i].1.as_str());
        out.append(encoded.as_str());
        out.append("\"");
        proof {
            reveal_strlit(" ");
            reveal_strlit("\"");
        }
        i = i + 1;
    }
    proof {
        assert(attrs@.take(attrs@.len() as int) =~= attrs@);
    }
}

/// Writes a node as HTML.
pub fn write_node(n: &HtmlNode, out: &mut String)
    ensures
        final(out)@ == old(out)@ + node_html(*n),
    decreases n,
{
    match n {
        HtmlNode::Container { children } => {
            write_nodes(children, out);
        },
        HtmlNode::Element { name, attrs, children } => {
            out.append("<");
            out.append(name.as_str());
            write_attrs(attrs, out);
            out.append(">");
            write_nodes(children, out);
            out.append("</");
            out.append(name.as_str());
            out.append(">");
            proof {
                reveal_strlit("<");
                reveal_strlit(">");
            }
        },
        HtmlNode::Text(t) => {
            let encoded = encode_text(t.as_str());
            out.append(encoded.as_str());
        },
        HtmlNode::Comment(payload) => {
            out.append("<!--");
            match payload {
                Some(p) => out.append(p.as_str()),
                None => {},
            }
            out.append("-->");
        },
    }
}

/// Writes nodes as HTML, one after the other.
pub fn write_nodes(ns: &Vec<HtmlNode>, out: &mut String)
    ensures
        final(out)@ == old(out)@ + nodes_html(ns@),
    decreases ns,
{
    let mut i: usize = 0;
    proof {
        assert(ns@.take(0) =~= Seq::<HtmlNode>::empty());
        assert(old(out)@ + nodes_html(ns@.take(0)) =~= old(out)@);
    }
    while i < ns.len()
        invariant
            i <= ns@.len(),
            out@ == old(out)@ + nodes_html(ns@.take(i as int)),
        decreases ns@.len() - i,
    {
        proof {
            let t = ns@.take(i + 1);
            assert(t.drop_last() =~= ns@.take(i as int));
            assert(t.last() == ns@[i as int]);
            assert(decreases_to!(ns => ns@[i as int]));
        }
        write_node(&ns[i], out);
        i = i + 1;
    }
    proof {
        assert(ns@.take(ns@.len() as int) =~= ns@);
    }
}

/// The HTML of a whole document: the doctype, then the root's children.
pub fn serialize_document(root: &HtmlNode) -> (r: String)
    ensures
        r@ == "<!DOCTYPE html>"@ + match root {
            HtmlNode::Container { children } => nodes_html(children@),
            HtmlNode::Element { children, .. } => nodes_html(children@),
            _ => Seq::<char>::empty(),
        },
{
    let mut out = String::from_str("<!DOCTYPE html>");
    match root {
        HtmlNode::Container { children } => write_nodes(children, &mut out),
        HtmlNode::Element { children, .. } => write_nodes(children, &mut out),
        _ => {},
    }
    out
}

/// Escaped text holds no `<` or `>`: text written into a page cannot open or close a tag.
pub proof fn lemma_escaped_text_has_no_tags(s: Seq<char>)
    ensures
        forall|i: int|
            0 <= i < escaped_text(s).len() ==> #[trigger] escaped_text(s)[i] != '<'
                && escaped_text(s)[i] != '>',
    decreases s.len(),
{
    reveal_strlit("&amp;");
    reveal_strlit("&lt;");
    reveal_strlit("&gt;");
    if s.len() > 0 {
        lemma_escaped_text_has_no_tags(s.drop_last());
        let prev = escaped_text(s.drop_last());
        assert forall|i: int| 0 <= i < escaped_text(s).len() implies #[trigger] escaped_text(s)[i]
            != '<' && escaped_text(s)[i] != '>' by {
            if i < prev.len() {
                assert(escaped_text(s)[i] == prev[i]);
            }
        }
    }
}

/// An escaped attribute value holds no `"`, `<` or `>`: it cannot end its attribute or
/// open a tag.
pub proof fn lemma_escaped_attribute_stays_quoted(s: Seq<char>)
    ensures
        forall|i: int|
            0 <= i < escaped_attribute(s).len() ==> #[trigger] escaped_attribute(s)[i] != '"'
                && escaped_attribute(s)[i] != '<' && escaped_attribute(s)[i] != '>',
    decreases s.len(),
{
    reveal_strlit("&amp;");
    reveal_strlit("&lt;");
    reveal_strlit("&gt;");
    reveal_strlit("&quot;");
    if s.len() > 0 {
        lemma_escaped_attribute_stays_quoted(s.drop_last());
        let prev = escaped_attribute(s.drop_last());
        assert forall|i: int| 0 <= i < escaped_attribute(s).len() implies #[trigger] escaped_attribute(s)[i]
            != '"' && escaped_attribute(s)[i] != '<' && escaped_attribute(s)[i] != '>' by {
            if i < prev.len() {
                assert(escaped_attribute(s)[i] == prev[i]);
            }
        }
    }
}

/// The HTML of nodes one after the other is the HTML of each run, one after the other.
pub proof fn lemma_nodes_html_concat(a: Seq<HtmlNode>, b: Seq<HtmlNode>)
    ensures
        nodes_html(a + b) == nodes_html(a) + nodes_html(b),
    decreases b.len(),
{
    if b.len() == 0 {
        assert(a + b =~= a);
        assert(nodes_html(b) =~= Seq::<char>::empty());
        assert(nodes_html(a) + nodes_html(b) =~= nodes_html(a));
    } else {
        lemma_nodes_html_concat(a, b.drop_last());
        assert((a + b).drop_last() =~= a + b.drop_last());
        assert((a + b).last() == b.last());
        assert(nodes_html(a + b) == nodes_html(a + b.drop_last()) + node_html(b.last()));
        assert(nodes_html(b) == nodes_html(b.drop_last()) + node_html(b.last()));
        assert(nodes_html(a) + nodes_html(b.drop_last()) + node_html(b.last()) =~= nodes_html(a)
            + (nodes_html(b.drop_last()) + node_html(b.last())));
    }
}

} // verus!
