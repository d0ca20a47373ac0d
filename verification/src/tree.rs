//! The element tree of a document.

use vstd::prelude::*;
use crate::xml::{
    attributes_view, document_events, events_view, parse_attributes, read_events, unescape,
    xml_attributes, xml_unescape, Attribute, RawEvent, RawKind,
};

verus! {

/// What an element holds: an element or a run of text.
#[derive(Debug)]
pub enum Node {
    Element(Element),
    Text(String),
}

/// An element: its name, its attributes and its content, in document order.
#[derive(Debug)]
pub struct Element {
    pub name: String,
    pub attributes: Vec<Attribute>,
    pub children: Vec<Node>,
}

/// The mathematical model of a `Node`.
pub enum NodeView {
    Element(ElementView),
    Text(Seq<char>),
}

/// The mathematical model of an `Element`.
pub struct ElementView {
    pub name: Seq<char>,
    pub attributes: Seq<(Seq<char>, Seq<char>)>,
    pub children: Seq<NodeView>,
}

impl View for Node {
    type V = NodeView;

    open spec fn view(&self) -> NodeView
        decreases self,
    {
        match self {
            Node::Element(e) => NodeView::Element(e.view()),
            Node::Text(t) => NodeView::Text(t@),
        }
    }
}

impl View for Element {
    type V = ElementView;

    open spec fn view(&self) -> ElementView
        decreases self,
    {
        ElementView {
            name: self.name@,
            attributes: attributes_view(self.attributes@),
            children: Seq::new(
                self.children@.len(),
                |i: int|
                    if 0 <= i < self.children@.len() {
                        self.children@[i].view()
                    } else {
                        NodeView::Text(Seq::empty())
                    },
            ),
        }
    }
}

/// The views of a list of nodes.
pub open spec fn nodes_view(nodes: Seq<Node>) -> Seq<NodeView> {
    Seq::new(nodes.len(), |i: int| nodes[i]@)
}

/// Whether `c` is one of the four characters that markup treats as space.
pub open spec fn is_xml_space(c: char) -> bool {
    c == ' ' || c == '\t' || c == '\r' || c == '\n'
}

/// The length of the name that a tag's text begins with: the index of its
/// first space character at or after `from`, or its length where it has none.
pub open spec fn name_end(tag: Seq<char>, from: int) -> int
    decreases tag.len() - from,
{
    if from < 0 || from >= tag.len() {
        tag.len() as int
    } else if is_xml_space(tag[from]) {
        from
    } else {
        name_end(tag, from + 1)
    }
}

/// The name of a tag, from the text between its brackets.
pub open spec fn tag_name(tag: Seq<char>) -> Seq<char> {
    tag.subrange(0, name_end(tag, 0))
}

/// What follows the name in the text between a tag's brackets.
pub open spec fn tag_rest(tag: Seq<char>) -> Seq<char> {
    tag.subrange(name_end(tag, 0), tag.len() as int)
}

fn xml_space(c: char) -> (b: bool)
    ensures
        b == is_xml_space(c),
{
    c == ' ' || c == '\t' || c == '\r' || c == '\n'
}

/// Splits the text between a tag's brackets into the name and the rest.
pub fn split_tag(tag: &str) -> (r: (String, String))
    ensures
        r.0@ == tag_name(tag@),
        r.1@ == tag_rest(tag@),
{
    let n = tag.unicode_len();
    let mut i: usize = 0;
    while i < n && !xml_space(tag.get_char(i))
        invariant
            n == tag@.len(),
            i <= n,
            name_end(tag@, 0) == name_end(tag@, i as int),
        decreases n - i,
    {
        i = i + 1;
    }
    (tag.substring_char(0, i).to_owned(), tag.substring_char(i, n).to_owned())
}

/// The view of a node that may be absent.
pub open spec fn node_option_view(node: Option<Node>) -> Option<NodeView> {
    match node {
        Some(n) => Some(n@),
        None => None,
    }
}

/// The nodes that stand from event `pos` on, up to a closing tag or the end
/// of the events, appended to `acc`; with them the position where they stop.
/// `None` where a tag in between is malformed or not closed by its own name.
pub open spec fn content_from(
    events: Seq<(RawKind, Seq<char>)>,
    pos: int,
    acc: Seq<NodeView>,
) -> Option<(Seq<NodeView>, int)>
    decreases events.len() - pos, 1int,
{
    if pos < 0 {
        None
    } else if pos >= events.len() || events[pos].0 == RawKind::End {
        Some((acc, pos))
    } else {
        match node_at(events, pos) {
            None => None,
            Some((node, next)) => if pos < next <= events.len() {
                content_from(
                    events,
                    next,
                    match node {
                        Some(n) => acc.push(n),
                        None => acc,
                    },
                )
            } else {
                None
            },
        }
    }
}

/// The node that begins with event `pos`, if that event gives one, and the
/// position behind it. A comment, a declaration or an instruction gives no
/// node. A reference is resolved to the text it stands for.
pub open spec fn node_at(events: Seq<(RawKind, Seq<char>)>, pos: int) -> Option<
    (Option<NodeView>, int),
>
    decreases events.len() - pos, 0int,
{
    if pos < 0 || pos >= events.len() {
        None
    } else {
        let text = events[pos].1;
        match events[pos].0 {
            RawKind::Start => match xml_attributes(tag_rest(text)) {
                None => None,
                Some(attributes) => match content_from(events, pos + 1, Seq::empty()) {
                    None => None,
                    Some((children, stop)) => if stop < events.len() && events[stop].0
                        == RawKind::End && events[stop].1 == tag_name(text) {
                        Some(
                            (
                                Some(
                                    NodeView::Element(
                                        ElementView { name: tag_name(text), attributes, children },
                                    ),
                                ),
                                stop + 1,
                            ),
                        )
                    } else {
                        None
                    },
                },
            },
            RawKind::Empty => match xml_attributes(tag_rest(text)) {
                None => None,
                Some(attributes) => Some(
                    (
                        Some(
                            NodeView::Element(
                                ElementView {
                                    name: tag_name(text),
                                    attributes,
                                    children: Seq::empty(),
                                },
                            ),
                        ),
                        pos + 1,
                    ),
                ),
            },
            RawKind::Text | RawKind::CData => Some((Some(NodeView::Text(text)), pos + 1)),
            RawKind::Reference => match xml_unescape("&"@ + text + ";"@) {
                None => None,
                Some(resolved) => Some((Some(NodeView::Text(resolved)), pos + 1)),
            },
            RawKind::End => None,
            RawKind::Eof | RawKind::Other => Some((None, pos + 1)),
        }
    }
}

/// The children of an element, seen as a list of nodes.
pub proof fn element_children_view(e: Element)
    ensures
        e@.children == nodes_view(e.children@),
{
    assert(e@.children =~= nodes_view(e.children@));
}

/// Reads the node that begins with event `pos`.
fn parse_node(events: &Vec<RawEvent>, pos: usize) -> (r: Option<(Option<Node>, usize)>)
    requires
        pos < events.len(),
    ensures
        match r {
            Some((node, next)) => node_at(events_view(events@), pos as int) == Some(
                (node_option_view(node), next as int),
            ) && pos < next <= events.len(),
            None => node_at(events_view(events@), pos as int) is None,
        },
    decreases events.len() - pos, 0int,
{
    let event = &events[pos];
    assert(events_view(events@)[pos as int] == event@);
    match event.kind {
        RawKind::Start => {
            let (name, rest) = split_tag(event.content.as_str());
            let attributes = match parse_attributes(rest.as_str()) {
                None => {
                    return None;
                },
                Some(attributes) => attributes,
            };
            let (children, stop) = match parse_content(events, pos + 1) {
                None => {
                    return None;
                },
                Some(found) => found,
            };
            if stop < events.len() {
                assert(events_view(events@)[stop as int] == events[stop as int]@);
                if events[stop].kind == RawKind::End && events[stop].content == name {
                    let element = Element { name, attributes, children };
                    proof {
                        element_children_view(element);
                    }
                    return Some((Some(Node::Element(element)), stop + 1));
                }
            }
            None
        },
        RawKind::Empty => {
            let (name, rest) = split_tag(event.content.as_str());
            match parse_attributes(rest.as_str()) {
                None => None,
                Some(attributes) => {
                    let element = Element { name, attributes, children: Vec::new() };
                    proof {
                        element_children_view(element);
                        assert(nodes_view(element.children@) =~= Seq::empty());
                    }
                    Some((Some(Node::Element(element)), pos + 1))
                },
            }
        },
        RawKind::Text | RawKind::CData => Some(
            (Some(Node::Text(event.content.clone())), pos + 1),
        ),
        RawKind::Reference => {
            let raw = String::from_str("&").concat(event.content.as_str()).concat(";");
            match unescape(raw.as_str()) {
                None => None,
                Some(resolved) => Some((Some(Node::Text(resolved)), pos + 1)),
            }
        },
        RawKind::End => None,
        RawKind::Eof | RawKind::Other => Some((None, pos + 1)),
    }
}

/// Reads the nodes that stand from event `start` on, up to a closing tag or
/// the end of the events.
fn parse_content(events: &Vec<RawEvent>, start: usize) -> (r: Option<(Vec<Node>, usize)>)
    requires
        start <= events.len(),
    ensures
        match r {
            Some((nodes, stop)) => content_from(events_view(events@), start as int, Seq::empty())
                == Some((nodes_view(nodes@), stop as int)) && start <= stop <= events.len(),
            None => content_from(events_view(events@), start as int, Seq::empty()) is None,
        },
    decreases events.len() - start, 1int,
{
    let mut nodes: Vec<Node> = Vec::new();
    let mut pos = start;
    assert(nodes_view(nodes@) =~= Seq::empty());
    loop
        invariant
            start <= pos <= events.len(),
            content_from(events_view(events@), start as int, Seq::empty()) == content_from(
                events_view(events@),
                pos as int,
                nodes_view(nodes@),
            ),
        decreases events.len() - pos,
    {
        if pos >= events.len() {
            return Some((nodes, pos));
        }
        assert(events_view(events@)[pos as int] == events[pos as int]@);
        if events[pos].kind == RawKind::End {
            return Some((nodes, pos));
        }
        match parse_node(events, pos) {
            None => {
                return None;
            },
            Some((node, next)) => {
                if let Some(n) = node {
                    let ghost before = nodes_view(nodes@);
                    nodes.push(n);
                    assert(nodes_view(nodes@) =~= before.push(n@));
                }
                pos = next;
            },
        }
    }
}

/// The elements among `nodes`, in order.
pub open spec fn elements_of(nodes: Seq<NodeView>) -> Seq<ElementView>
    decreases nodes.len(),
{
    if nodes.len() == 0 {
        Seq::empty()
    } else {
        match nodes.last() {
            NodeView::Element(e) => elements_of(nodes.drop_last()).push(e),
            NodeView::Text(_) => elements_of(nodes.drop_last()),
        }
    }
}

/// The text among `nodes`, joined in order.
pub open spec fn text_of(nodes: Seq<NodeView>) -> Seq<char>
    decreases nodes.len(),
{
    if nodes.len() == 0 {
        Seq::empty()
    } else {
        match nodes.last() {
            NodeView::Element(_) => text_of(nodes.drop_last()),
            NodeView::Text(t) => text_of(nodes.drop_last()) + t,
        }
    }
}

/// The index of the first character at or after `from` that is no space, or
/// the length of `s`.
pub open spec fn text_start(s: Seq<char>, from: int) -> int
    decreases s.len() - from,
{
    if from < 0 || from >= s.len() {
        s.len() as int
    } else if !is_xml_space(s[from]) {
        from
    } else {
        text_start(s, from + 1)
    }
}

/// The index behind the last character before `to` and not before `low`
/// that is no space, or `low`.
pub open spec fn text_end(s: Seq<char>, low: int, to: int) -> int
    decreases to - low,
{
    if to <= low || to > s.len() {
        low
    } else if !is_xml_space(s[to - 1]) {
        to
    } else {
        text_end(s, low, to - 1)
    }
}

/// `s` without the space characters at its two ends.
pub open spec fn trimmed(s: Seq<char>) -> Seq<char> {
    s.subrange(text_start(s, 0), text_end(s, text_start(s, 0), s.len() as int))
}

/// The value of the first attribute at or after `from` whose name is `name`.
pub open spec fn attribute_from(
    attributes: Seq<(Seq<char>, Seq<char>)>,
    name: Seq<char>,
    from: int,
) -> Option<Seq<char>>
    decreases attributes.len() - from,
{
    if from < 0 || from >= attributes.len() {
        None
    } else if attributes[from].0 == name {
        Some(attributes[from].1)
    } else {
        attribute_from(attributes, name, from + 1)
    }
}

/// The elements among `nodes` whose name is `name`, in order.
pub open spec fn named_of(nodes: Seq<NodeView>, name: Seq<char>) -> Seq<ElementView>
    decreases nodes.len(),
{
    if nodes.len() == 0 {
        Seq::empty()
    } else {
        match nodes.last() {
            NodeView::Element(e) => if e.name == name {
                named_of(nodes.drop_last(), name).push(e)
            } else {
                named_of(nodes.drop_last(), name)
            },
            NodeView::Text(_) => named_of(nodes.drop_last(), name),
        }
    }
}

/// Elements as nodes.
pub open spec fn element_nodes(elements: Seq<ElementView>) -> Seq<NodeView> {
    elements.map_values(|e: ElementView| NodeView::Element(e))
}

/// The elements of a name among two lists of nodes, one behind the other,
/// are those of the first list and then those of the second.
pub proof fn named_of_concat(a: Seq<NodeView>, b: Seq<NodeView>, name: Seq<char>)
    ensures
        named_of(a + b, name) == named_of(a, name) + named_of(b, name),
    decreases b.len(),
{
    if b.len() == 0 {
        assert(a + b =~= a);
        assert(named_of(a, name) + named_of(b, name) =~= named_of(a, name));
    } else {
        named_of_concat(a, b.drop_last(), name);
        assert((a + b).drop_last() =~= a + b.drop_last());
        assert((a + b).last() == b.last());
        assert(named_of(a + b, name) =~= named_of(a, name) + named_of(b, name));
    }
}

/// Among elements that all have one name, the elements of that name are
/// all of them, and there is none of any other name.
pub proof fn named_of_uniform(elements: Seq<ElementView>, own: Seq<char>, name: Seq<char>)
    requires
        forall|i: int| 0 <= i < elements.len() ==> (#[trigger] elements[i]).name == own,
    ensures
        name == own ==> named_of(element_nodes(elements), name) == elements,
        name != own ==> named_of(element_nodes(elements), name) == Seq::<ElementView>::empty(),
    decreases elements.len(),
{
    let nodes = element_nodes(elements);
    if elements.len() > 0 {
        assert(nodes.drop_last() =~= element_nodes(elements.drop_last()));
        assert(nodes.last() == NodeView::Element(elements.last()));
        named_of_uniform(elements.drop_last(), own, name);
        if name == own {
            assert(named_of(nodes, name) =~= elements);
        }
    } else {
        assert(named_of(nodes, name) =~= elements);
    }
}

/// The views of a list of borrowed elements.
pub open spec fn elements_view(elements: Seq<&Element>) -> Seq<ElementView> {
    elements.map_values(|e: &Element| e@)
}

impl ElementView {
    /// The elements directly inside this one whose name is `name`, in order.
    pub open spec fn named(self, name: Seq<char>) -> Seq<ElementView> {
        named_of(self.children, name)
    }

    /// The value of the attribute `name`, if the element has it.
    pub open spec fn attribute(self, name: Seq<char>) -> Option<Seq<char>> {
        attribute_from(self.attributes, name, 0)
    }

    /// The element's own text: its text nodes joined, then trimmed.
    pub open spec fn text(self) -> Seq<char> {
        trimmed(text_of(self.children))
    }

    /// The elements directly inside this one, in order.
    pub open spec fn elements(self) -> Seq<ElementView> {
        elements_of(self.children)
    }
}

/// The one element at the top of a list of events: `None` where the events
/// do not nest, and where the top holds no element or more than one.
pub open spec fn root_of(events: Seq<(RawKind, Seq<char>)>) -> Option<ElementView> {
    match content_from(events, 0, Seq::empty()) {
        Some((nodes, stop)) => if stop == events.len() && elements_of(nodes).len() == 1 {
            Some(elements_of(nodes)[0])
        } else {
            None
        },
        None => None,
    }
}

/// The root element of the document `text`, or `None` where `text` is no
/// well-formed document with one root.
pub open spec fn document_root(text: Seq<char>) -> Option<ElementView> {
    match document_events(text) {
        Some(events) => root_of(events),
        None => None,
    }
}

/// `s` without the space characters at its two ends.
pub fn trim(s: &str) -> (r: String)
    ensures
        r@ == trimmed(s@),
{
    let n = s.unicode_len();
    let mut start: usize = 0;
    while start < n && xml_space(s.get_char(start))
        invariant
            n == s@.len(),
            start <= n,
            text_start(s@, 0) == text_start(s@, start as int),
        decreases n - start,
    {
        start = start + 1;
    }
    let mut end: usize = n;
    while end > start && xml_space(s.get_char(end - 1))
        invariant
            n == s@.len(),
            start <= end <= n,
            text_end(s@, start as int, n as int) == text_end(s@, start as int, end as int),
        decreases end - start,
    {
        end = end - 1;
    }
    s.substring_char(start, end).to_owned()
}

impl Element {
    /// The value of the attribute `name`, if the element has it.
    pub fn attribute(&self, name: &str) -> (r: Option<&String>)
        ensures
            match r {
                Some(value) => self@.attribute(name@) == Some(value@),
                None => self@.attribute(name@) is None,
            },
    {
        let wanted = name.to_owned();
        let mut i: usize = 0;
        while i < self.attributes.len()
            invariant
                i <= self.attributes.len(),
                wanted@ == name@,
                self@.attribute(name@) == attribute_from(self@.attributes, name@, i as int),
            decreases self.attributes.len() - i,
        {
            assert(self@.attributes[i as int] == self.attributes[i as int]@);
            if self.attributes[i].name == wanted {
                return Some(&self.attributes[i].value);
            }
            i = i + 1;
        }
        None
    }

    /// The elements directly inside this one whose name is `name`, in order.
    pub fn children_named<'a>(&'a self, name: &str) -> (r: Vec<&'a Element>)
        ensures
            elements_view(r@) == self@.named(name@),
    {
        let wanted = name.to_owned();
        let mut found: Vec<&'a Element> = Vec::new();
        let mut i: usize = 0;
        proof {
            element_children_view(*self);
            assert(self@.children.take(0) =~= Seq::empty());
            assert(elements_view(found@) =~= Seq::empty());
        }
        while i < self.children.len()
            invariant
                i <= self.children.len(),
                wanted@ == name@,
                self@.children == nodes_view(self.children@),
                elements_view(found@) == named_of(self@.children.take(i as int), name@),
            decreases self.children.len() - i,
        {
            proof {
                assert(self@.children.take(i + 1).drop_last() =~= self@.children.take(i as int));
                assert(self@.children.take(i + 1).last() == self.children[i as int]@);
            }
            match &self.children[i] {
                Node::Element(e) => {
                    if e.name == wanted {
                        let ghost before = elements_view(found@);
                        found.push(e);
                        assert(elements_view(found@) =~= before.push(e@));
                    }
                },
                Node::Text(_) => {},
            }
            i = i + 1;
        }
        assert(self@.children.take(i as int) =~= self@.children);
        found
    }

    /// The elements directly inside this one, in order.
    pub fn child_elements<'a>(&'a self) -> (r: Vec<&'a Element>)
        ensures
            elements_view(r@) == self@.elements(),
    {
        let mut found: Vec<&'a Element> = Vec::new();
        let mut i: usize = 0;
        proof {
            element_children_view(*self);
            assert(self@.children.take(0) =~= Seq::empty());
            assert(elements_view(found@) =~= Seq::empty());
        }
        while i < self.children.len()
            invariant
                i <= self.children.len(),
                self@.children == nodes_view(self.children@),
                elements_view(found@) == elements_of(self@.children.take(i as int)),
            decreases self.children.len() - i,
        {
            proof {
                assert(self@.children.take(i + 1).drop_last() =~= self@.children.take(i as int));
                assert(self@.children.take(i + 1).last() == self.children[i as int]@);
            }
            match &self.children[i] {
                Node::Element(e) => {
                    let ghost before = elements_view(found@);
                    found.push(e);
                    assert(elements_view(found@) =~= before.push(e@));
                },
                Node::Text(_) => {},
            }
            i = i + 1;
        }
        assert(self@.children.take(i as int) =~= self@.children);
        found
    }

    /// The element's own text: its text nodes joined, then trimmed.
    pub fn text(&self) -> (r: String)
        ensures
            r@ == self@.text(),
    {
        let mut joined = String::new();
        let mut i: usize = 0;
        proof {
            element_children_view(*self);
            assert(self@.children.take(0) =~= Seq::empty());
        }
        while i < self.children.len()
            invariant
                i <= self.children.len(),
                self@.children == nodes_view(self.children@),
                joined@ == text_of(self@.children.take(i as int)),
            decreases self.children.len() - i,
        {
            proof {
                assert(self@.children.take(i + 1).drop_last() =~= self@.children.take(i as int));
                assert(self@.children.take(i + 1).last() == self.children[i as int]@);
            }
            match &self.children[i] {
                Node::Text(t) => {
                    joined.append(t.as_str());
                },
                Node::Element(_) => {},
            }
            i = i + 1;
        }
        assert(self@.children.take(i as int) =~= self@.children);
        trim(joined.as_str())
    }
}

/// The one element among `nodes`, taken out of them.
pub fn single_element(nodes: Vec<Node>) -> (r: Option<Element>)
    ensures
        match r {
            Some(e) => elements_of(nodes_view(nodes@)).len() == 1 && elements_of(
                nodes_view(nodes@),
            )[0] == e@,
            None => elements_of(nodes_view(nodes@)).len() != 1,
        },
{
    let mut nodes = nodes;
    let ghost all = nodes_view(nodes@);
    let mut count: usize = 0;
    let mut at: usize = 0;
    let mut i: usize = 0;
    assert(all.take(0) =~= Seq::empty());
    while i < nodes.len()
        invariant
            i <= nodes.len(),
            all == nodes_view(nodes@),
            count <= i,
            count == elements_of(all.take(i as int)).len(),
            count >= 1 ==> at < i && all[at as int] is Element && elements_of(
                all.take(i as int),
            )[0] == all[at as int]->Element_0,
        decreases nodes.len() - i,
    {
        proof {
            assert(all.take(i + 1).drop_last() =~= all.take(i as int));
            assert(all.take(i + 1).last() == nodes[i as int]@);
        }
        match &nodes[i] {
            Node::Element(_) => {
                if count == 0 {
                    at = i;
                }
                count = count + 1;
            },
            Node::Text(_) => {},
        }
        i = i + 1;
    }
    assert(all.take(i as int) =~= all);
    if count == 1 {
        match nodes.swap_remove(at) {
            Node::Element(e) => Some(e),
            Node::Text(_) => None,
        }
    } else {
        None
    }
}

/// Builds the tree of a document from its events and returns its root
/// element: `None` where the events do not nest, a tag is malformed, a
/// reference is unknown, or the top holds no element or more than one.
pub fn root_from_events(events: &Vec<RawEvent>) -> (r: Option<Element>)
    ensures
        match r {
            Some(root) => root_of(events_view(events@)) == Some(root@),
            None => root_of(events_view(events@)) is None,
        },
{
    match parse_content(events, 0) {
        Some((nodes, stop)) => if stop == events.len() {
            single_element(nodes)
        } else {
            None
        },
        None => None,
    }
}

/// Reads a whole document and returns its root element.
pub fn parse_document(text: &str) -> (r: Option<Element>)
    ensures
        match r {
            Some(root) => document_root(text@) == Some(root@),
            None => document_root(text@) is None,
        },
{
    match read_events(text) {
        Some(events) => root_from_events(&events),
        None => None,
    }
}

} // verus!
