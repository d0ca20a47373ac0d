//! Writing an element tree as markup.

use vstd::prelude::*;
use crate::tree::{element_children_view, nodes_view, Element, ElementView, Node, NodeView};
use crate::xml::{attributes_view, escape, xml_escape, Attribute};

verus! {

/// The attributes of a tag as markup: each with a space before it and its
/// value escaped between double quotes.
pub open spec fn attributes_markup(attributes: Seq<(Seq<char>, Seq<char>)>) -> Seq<char>
    decreases attributes.len(),
{
    if attributes.len() == 0 {
        Seq::empty()
    } else {
        attributes_markup(attributes.drop_last()) + " "@ + attributes.last().0 + "=\""@
            + xml_escape(attributes.last().1) + "\""@
    }
}

/// A node as markup: text is escaped, an element is written with its tags.
pub open spec fn node_markup(node: NodeView) -> Seq<char>
    decreases node, 0int,
{
    match node {
        NodeView::Text(text) => xml_escape(text),
        NodeView::Element(e) => element_markup(e),
    }
}

/// The first `upto` of `nodes` as markup, one behind the other.
pub open spec fn nodes_markup(nodes: Seq<NodeView>, upto: int) -> Seq<char>
    decreases nodes, upto,
{
    if upto <= 0 || upto > nodes.len() {
        Seq::empty()
    } else {
        nodes_markup(nodes, upto - 1) + node_markup(nodes[upto - 1])
    }
}

/// An element as markup: a self-closing tag where it holds nothing, else an
/// opening tag, what it holds, and a closing tag.
pub open spec fn element_markup(e: ElementView) -> Seq<char>
    decreases e, 0int,
{
    if e.children.len() == 0 {
        "<"@ + e.name + attributes_markup(e.attributes) + "/>"@
    } else {
        "<"@ + e.name + attributes_markup(e.attributes) + ">"@ + nodes_markup(
            e.children,
            e.children.len() as int,
        ) + "</"@ + e.name + ">"@
    }
}

/// Writes the attributes of a tag.
pub fn write_attributes(attributes: &Vec<Attribute>) -> (r: String)
    ensures
        r@ == attributes_markup(attributes_view(attributes@)),
{
    let ghost all = attributes_view(attributes@);
    let mut out = String::new();
    let mut i: usize = 0;
    assert(all.take(0) =~= Seq::empty());
    while i < attributes.len()
        invariant
            i <= attributes.len(),
            all == attributes_view(attributes@),
            out@ == attributes_markup(all.take(i as int)),
        decreases attributes.len() - i,
    {
        proof {
            assert(all.take(i + 1).drop_last() =~= all.take(i as int));
            assert(all.take(i + 1).last() == attributes[i as int]@);
        }
        let value = escape(attributes[i].value.as_str());
        out.append(" ");
        out.append(attributes[i].name.as_str());
        out.append("=\"");
        out.append(value.as_str());
        out.append("\"");
        i = i + 1;
    }
    assert(all.take(i as int) =~= all);
    out
}

impl Element {
    /// Writes the element as markup.
    pub fn to_xml(&self) -> (r: String)
        ensures
            r@ == element_markup(self@),
        decreases self,
    {
        proof {
            element_children_view(*self);
        }
        let mut out = String::from_str("<");
        out.append(self.name.as_str());
        let attributes = write_attributes(&self.attributes);
        out.append(attributes.as_str());
        if self.children.len() == 0 {
            out.append("/>");
            return out;
        }
        out.append(">");
        let ghost head = out@;
        let mut i: usize = 0;
        while i < self.children.len()
            invariant
                i <= self.children.len(),
                self@.children == nodes_view(self.children@),
                out@ == head + nodes_markup(self@.children, i as int),
            decreases self.children.len() - i,
        {
            let ghost before = out@;
            let ghost node = self.children[i as int]@;
            assert(self@.children[i as int] == node);
            match &self.children[i] {
                Node::Text(text) => {
                    let escaped = escape(text.as_str());
                    out.append(escaped.as_str());
                    assert(node_markup(node) == xml_escape(text@));
                },
                Node::Element(e) => {
                    let inner = e.to_xml();
                    out.append(inner.as_str());
                    assert(node_markup(node) == element_markup(e@));
                },
            }
            assert(out@ == before + node_markup(node));
            assert(nodes_markup(self@.children, i + 1) == nodes_markup(self@.children, i as int)
                + node_markup(node));
            assert(out@ =~= head + nodes_markup(self@.children, i + 1));
            i = i + 1;
        }
        out.append("</");
        out.append(self.name.as_str());
        out.append(">");
        assert(out@ =~= element_markup(self@));
        out
    }
}

} // verus!
