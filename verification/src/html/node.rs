//! The HTML node tree: elements and text nodes, each element holding its
//! attributes and an ordered list of children, rendered to markup by `to_html`.
//!
//! Children are stored the way a DOM stores them: an element owns its first
//! child, and every child owns its next sibling.
use vstd::prelude::*;
use crate::html::tools::{
    escape_html_text, escape_text, is_ascii_lowercase_word, is_void_element, void_element_names,
};
use crate::text::push_char;

verus! {

/// The kind of a node.
#[derive(Clone, Copy, PartialEq, Eq, Structural)]
pub enum NodeType {
    Document,
    Element,
    Attr,
    Text,
}

impl Default for NodeType {
    fn default() -> (r: Self)
        ensures
            r == NodeType::Element,
    {
        NodeType::Element
    }
}

impl NodeType {
    /// The label that names the kind in diagnostic output.
    pub open spec fn spec_label(self) -> Seq<char> {
        match self {
            NodeType::Document => seq!['文', '档', '节', '点'],
            NodeType::Element => seq!['元', '素', '节', '点'],
            NodeType::Attr => seq!['属', '性'],
            NodeType::Text => seq!['文', '本', '节', '点'],
        }
    }

    /// The label that names the kind in diagnostic output.
    pub fn label(&self) -> (r: &'static str)
        ensures
            r@ == self.spec_label(),
    {
        match self {
            NodeType::Document => {
                proof {
                    reveal_strlit("文档节点");
                    assert("文档节点"@ =~= seq!['文', '档', '节', '点']);
                }
                "文档节点"
            },
            NodeType::Element => {
                proof {
                    reveal_strlit("元素节点");
                    assert("元素节点"@ =~= seq!['元', '素', '节', '点']);
                }
                "元素节点"
            },
            NodeType::Attr => {
                proof {
                    reveal_strlit("属性");
                    assert("属性"@ =~= seq!['属', '性']);
                }
                "属性"
            },
            NodeType::Text => {
                proof {
                    reveal_strlit("文本节点");
                    assert("文本节点"@ =~= seq!['文', '本', '节', '点']);
                }
                "文本节点"
            },
        }
    }
}

/// The tag of an element.
#[derive(Clone, Copy, PartialEq, Eq, Structural)]
pub enum NodeName {
    Html,
    Head,
    Div,
    Span,
    A,
    Body,
    P,
    Meta,
    Title,
}

impl Default for NodeName {
    fn default() -> (r: Self)
        ensures
            r == NodeName::Div,
    {
        NodeName::Div
    }
}

impl NodeName {
    /// The tag name as it is written in markup.
    pub open spec fn spec_tag(self) -> Seq<char> {
        match self {
            NodeName::Html => seq!['h', 't', 'm', 'l'],
            NodeName::Head => seq!['h', 'e', 'a', 'd'],
            NodeName::Div => seq!['d', 'i', 'v'],
            NodeName::Span => seq!['s', 'p', 'a', 'n'],
            NodeName::A => seq!['a'],
            NodeName::Body => seq!['b', 'o', 'd', 'y'],
            NodeName::P => seq!['p'],
            NodeName::Meta => seq!['m', 'e', 't', 'a'],
            NodeName::Title => seq!['t', 'i', 't', 'l', 'e'],
        }
    }

    /// Whether the tag is that of a void element, written without children
    /// and without a closing tag.
    pub open spec fn spec_is_void(self) -> bool {
        void_element_names().contains(self.spec_tag())
    }

    /// Every tag name is made of ASCII lowercase letters.
    pub proof fn lemma_tag_is_lowercase(self)
        ensures
            is_ascii_lowercase_word(self.spec_tag()),
    {
        let t = self.spec_tag();
        assert forall|i: int| 0 <= i < t.len() implies 'a' <= #[trigger] t[i] <= 'z' by {
            match self {
                NodeName::Html => {
                    assert(i == 0 || i == 1 || i == 2 || i == 3);
                },
                NodeName::Head => {
                    assert(i == 0 || i == 1 || i == 2 || i == 3);
                },
                NodeName::Div => {
                    assert(i == 0 || i == 1 || i == 2);
                },
                NodeName::Span => {
                    assert(i == 0 || i == 1 || i == 2 || i == 3);
                },
                NodeName::A => {},
                NodeName::Body => {
                    assert(i == 0 || i == 1 || i == 2 || i == 3);
                },
                NodeName::P => {},
                NodeName::Meta => {
                    assert(i == 0 || i == 1 || i == 2 || i == 3);
                },
                NodeName::Title => {
                    assert(i == 0 || i == 1 || i == 2 || i == 3 || i == 4);
                },
            }
        }
    }

    /// The tag name as it is written in markup.
    pub fn as_str(&self) -> (r: &'static str)
        ensures
            r@ == self.spec_tag(),
    {
        match self {
            NodeName::Html => {
                proof {
                    reveal_strlit("html");
                    assert("html"@ =~= seq!['h', 't', 'm', 'l']);
                }
                "html"
            },
            NodeName::Head => {
                proof {
                    reveal_strlit("head");
                    assert("head"@ =~= seq!['h', 'e', 'a', 'd']);
                }
                "head"
            },
            NodeName::Div => {
                proof {
                    reveal_strlit("div");
                    assert("div"@ =~= seq!['d', 'i', 'v']);
                }
                "div"
            },
            NodeName::Span => {
                proof {
                    reveal_strlit("span");
                    assert("span"@ =~= seq!['s', 'p', 'a', 'n']);
                }
                "span"
            },
            NodeName::A => {
                proof {
                    reveal_strlit("a");
                    assert("a"@ =~= seq!['a']);
                }
                "a"
            },
            NodeName::Body => {
                proof {
                    reveal_strlit("body");
                    assert("body"@ =~= seq!['b', 'o', 'd', 'y']);
                }
                "body"
            },
            NodeName::P => {
                proof {
                    reveal_strlit("p");
                    assert("p"@ =~= seq!['p']);
                }
                "p"
            },
            NodeName::Meta => {
                proof {
                    reveal_strlit("meta");
                    assert("meta"@ =~= seq!['m', 'e', 't', 'a']);
                }
                "meta"
            },
            NodeName::Title => {
                proof {
                    reveal_strlit("title");
                    assert("title"@ =~= seq!['t', 'i', 't', 'l', 'e']);
                }
                "title"
            },
        }
    }

    /// The tag name as it is written in markup, as an owned string.
    pub fn to_string(&self) -> (r: String)
        ensures
            r@ == self.spec_tag(),
    {
        String::from_str(self.as_str())
    }
}

/// The abstract content of a node: its kind, tag, text, attributes in the
/// order they were first set, and its children in order.
pub struct NodeView {
    pub node_type: NodeType,
    pub node_name: NodeName,
    pub node_value: Option<Seq<char>>,
    pub attributes: Seq<(Seq<char>, Seq<char>)>,
    pub children: Seq<NodeView>,
}

/// A node of an HTML document.
pub struct Node {
    node_type: NodeType,
    node_name: NodeName,
    node_value: Option<String>,
    attributes: Vec<(String, String)>,
    is_single_tag: bool,
    child_node: Option<Box<Node>>,
    next_sibling: Option<Box<Node>>,
}

/// The attribute pairs of a node as character sequences.
pub open spec fn attribute_views(attrs: Seq<(String, String)>) -> Seq<(Seq<char>, Seq<char>)> {
    attrs.map_values(|p: (String, String)| (p.0@, p.1@))
}

/// No attribute name occurs twice.
pub open spec fn keys_distinct(attrs: Seq<(Seq<char>, Seq<char>)>) -> bool {
    forall|i: int, j: int|
        0 <= i < attrs.len() && 0 <= j < attrs.len() && i != j ==> #[trigger] attrs[i].0
            != #[trigger] attrs[j].0
}

/// Whether some attribute is named `key`.
pub open spec fn has_key(attrs: Seq<(Seq<char>, Seq<char>)>, key: Seq<char>) -> bool {
    exists|i: int| 0 <= i < attrs.len() && #[trigger] attrs[i].0 == key
}

/// The attributes after `key` is set to `value`: the value of an attribute
/// already named `key` is replaced where it stands; otherwise the pair is
/// added last.
pub open spec fn set_attribute(
    attrs: Seq<(Seq<char>, Seq<char>)>,
    key: Seq<char>,
    value: Seq<char>,
) -> Seq<(Seq<char>, Seq<char>)> {
    if has_key(attrs, key) {
        let i = choose|i: int| 0 <= i < attrs.len() && #[trigger] attrs[i].0 == key;
        attrs.update(i, (key, value))
    } else {
        attrs.push((key, value))
    }
}

/// The value of the attribute named `key`, if there is one.
pub open spec fn attribute_value(attrs: Seq<(Seq<char>, Seq<char>)>, key: Seq<char>) -> Option<
    Seq<char>,
> {
    if has_key(attrs, key) {
        let i = choose|i: int| 0 <= i < attrs.len() && #[trigger] attrs[i].0 == key;
        Some(attrs[i].1)
    } else {
        None
    }
}

/// The views of a node and of the chain of siblings that starts at `first`.
pub closed spec fn node_view(n: Node) -> NodeView
    decreases n,
{
    NodeView {
        node_type: n.node_type,
        node_name: n.node_name,
        node_value: match n.node_value {
            Some(s) => Some(s@),
            None => None,
        },
        attributes: attribute_views(n.attributes@),
        children: chain_view(n.child_node),
    }
}

/// The views of the nodes of a sibling chain, first to last.
pub closed spec fn chain_view(first: Option<Box<Node>>) -> Seq<NodeView>
    decreases first,
{
    match first {
        None => seq![],
        Some(b) => seq![node_view(*b)] + chain_view(b.next_sibling),
    }
}

impl View for Node {
    type V = NodeView;

    open spec fn view(&self) -> NodeView {
        node_view(*self)
    }
}

/// The markup of one attribute: a space, the name, `="`, the value and `"`.
pub open spec fn attribute_html(a: (Seq<char>, Seq<char>)) -> Seq<char> {
    seq![' '] + a.0 + seq!['=', '"'] + a.1 + seq!['"']
}

/// The markup of a list of attributes, in order.
pub open spec fn attributes_html(attrs: Seq<(Seq<char>, Seq<char>)>) -> Seq<char>
    decreases attrs.len(),
{
    if attrs.len() == 0 {
        seq![]
    } else {
        attributes_html(attrs.drop_last()) + attribute_html(attrs.last())
    }
}

/// The opening tag of an element with its attributes.
pub open spec fn open_tag_html(name: NodeName, attrs: Seq<(Seq<char>, Seq<char>)>) -> Seq<char> {
    seq!['<'] + name.spec_tag() + attributes_html(attrs) + seq!['>']
}

/// The closing tag of an element.
pub open spec fn close_tag_html(name: NodeName) -> Seq<char> {
    seq!['<', '/'] + name.spec_tag() + seq!['>']
}

/// The markup of a node: an element is its opening tag, then (unless it is
/// void) its children and its closing tag; a text node is its escaped text;
/// other kinds of node write nothing.
pub open spec fn html_of(v: NodeView) -> Seq<char>
    decreases v,
{
    match v.node_type {
        NodeType::Element => {
            if v.node_name.spec_is_void() {
                open_tag_html(v.node_name, v.attributes)
            } else {
                open_tag_html(v.node_name, v.attributes) + children_html(v.children)
                    + close_tag_html(v.node_name)
            }
        },
        NodeType::Text => match v.node_value {
            Some(s) => escape_text(s),
            None => seq![],
        },
        _ => seq![],
    }
}

/// The markup of a list of nodes, one after another.
pub open spec fn children_html(cs: Seq<NodeView>) -> Seq<char>
    decreases cs,
{
    if cs.len() == 0 {
        seq![]
    } else {
        html_of(cs[0]) + children_html(cs.subrange(1, cs.len() as int))
    }
}

impl Default for Node {
    fn default() -> (r: Self)
        ensures
            r.is_detached(),
            r@ == (NodeView {
                node_type: NodeType::Element,
                node_name: NodeName::Div,
                node_value: None,
                attributes: seq![],
                children: seq![],
            }),
    {
        let r = Node {
            node_type: NodeType::Element,
            node_name: NodeName::Div,
            node_value: None,
            attributes: Vec::new(),
            is_single_tag: false,
            child_node: None,
            next_sibling: None,
        };
        proof {
            assert(attribute_views(r.attributes@) =~= seq![]);
        }
        r
    }
}

impl Node {
    #[verifier::type_invariant]
    closed spec fn inv(self) -> bool {
        keys_distinct(attribute_views(self.attributes@))
    }

    fn new() -> (r: Self)
        ensures
            r.is_detached(),
            r@ == (NodeView {
                node_type: NodeType::Element,
                node_name: NodeName::Div,
                node_value: None,
                attributes: seq![],
                children: seq![],
            }),
    {
        Node::default()
    }

    /// An element with the given tag, no attributes and no children.
    pub fn new_node(node_name: NodeName) -> (r: Self)
        ensures
            r.is_detached(),
            keys_distinct(r@.attributes),
            r@ == (NodeView {
                node_type: NodeType::Element,
                node_name,
                node_value: None,
                attributes: seq![],
                children: seq![],
            }),
    {
        let mut node = Node::new();
        node.node_name = node_name;
        node
    }

    /// A text node holding `node_value`.
    pub fn new_text(node_value: String) -> (r: Self)
        ensures
            r.is_detached(),
            keys_distinct(r@.attributes),
            r@ == (NodeView {
                node_type: NodeType::Text,
                node_name: NodeName::Div,
                node_value: Some(node_value@),
                attributes: seq![],
                children: seq![],
            }),
    {
        let mut node = Self::new();
        node.node_type = NodeType::Text;
        node.node_value = Some(node_value);
        node
    }
}

/// The markup of a list headed by one node is that node's markup followed by
/// the markup of the rest.
pub proof fn lemma_children_html_cons(x: NodeView, rest: Seq<NodeView>)
    ensures
        children_html(seq![x] + rest) == html_of(x) + children_html(rest),
{
    let s = seq![x] + rest;
    assert(s[0] == x);
    assert(s.subrange(1, s.len() as int) =~= rest);
}

/// The markup of the first `i + 1` attributes extends that of the first `i`
/// by the markup of attribute `i`.
pub proof fn lemma_attributes_html_step(attrs: Seq<(Seq<char>, Seq<char>)>, i: int)
    requires
        0 <= i < attrs.len(),
    ensures
        attributes_html(attrs.take(i + 1)) == attributes_html(attrs.take(i)) + attribute_html(
            attrs[i],
        ),
{
    assert(attrs.take(i + 1).drop_last() =~= attrs.take(i));
    assert(attrs.take(i + 1).last() == attrs[i]);
}

/// The last node of the sibling chain that starts at `b`.
fn last_in_chain(b: &Box<Node>) -> (r: &Node)
    ensures
        chain_view(Some(*b)).len() > 0,
        r@ == chain_view(Some(*b)).last(),
    decreases b,
{
    match &b.next_sibling {
        None => {
            assert(chain_view(b.next_sibling) == Seq::<NodeView>::empty());
            assert(chain_view(Some(*b)) =~= seq![node_view(**b)]);
            &**b
        },
        Some(n) => {
            let r = last_in_chain(n);
            r
        },
    }
}

/// Adds `node` after the last node of the sibling chain held in `slot`.
fn append_to_chain(slot: &mut Option<Box<Node>>, node: Node)
    requires
        node.is_detached(),
    ensures
        chain_view(*final(slot)) == chain_view(*old(slot)).push(node@),
    decreases *old(slot),
{
    if slot.is_none() {
        let b = Box::new(node);
        assert(chain_view(b.next_sibling) == Seq::<NodeView>::empty());
        *slot = Some(b);
        assert(chain_view(*old(slot)) == Seq::<NodeView>::empty());
        assert(chain_view(*slot) =~= seq![node@]);
    } else {
        let mut tmp = None;
        std::mem::swap(&mut tmp, slot);
        let mut b = tmp.unwrap();
        proof {
            use_type_invariant(&*b);
        }
        let ghost old_view = node_view(*b);
        let mut next = None;
        std::mem::swap(&mut next, &mut b.next_sibling);
        append_to_chain(&mut next, node);
        b.next_sibling = next;
        assert(node_view(*b) == old_view);
        *slot = Some(b);
        assert(chain_view(*slot) =~= chain_view(*old(slot)).push(node@));
    }
}

/// Appends the markup of every node of the sibling chain held in `first`.
fn write_chain(first: &Option<Box<Node>>, output: &mut String)
    ensures
        final(output)@ == old(output)@ + children_html(chain_view(*first)),
    decreases *first, 2nat,
{
    match first {
        None => {
            assert(old(output)@ + children_html(chain_view(*first)) =~= old(output)@);
        },
        Some(b) => {
            b.write_html(output);
            write_chain(&b.next_sibling, output);
            proof {
                lemma_children_html_cons(node_view(**b), chain_view(b.next_sibling));
                assert(chain_view(*first) == seq![node_view(**b)] + chain_view(b.next_sibling));
            }
            assert(final(output)@ =~= old(output)@ + children_html(chain_view(*first)));
        },
    }
}

impl Node {
    /// The node is not linked to a next sibling: it stands alone, or is the
    /// last child of its parent.
    pub closed spec fn is_detached(&self) -> bool {
        self.next_sibling is None
    }

    /// The last child, if the node has children.
    fn last_child(&self) -> (r: Option<&Node>)
        ensures
            r is None <==> self@.children.len() == 0,
            r matches Some(c) ==> c@ == self@.children.last(),
    {
        match &self.child_node {
            None => None,
            Some(b) => Some(last_in_chain(b)),
        }
    }

    /// Sets the attribute `key` to `value`: an attribute already named `key`
    /// keeps its place and takes the new value; a new one is added last.
    pub fn attr_insert(&mut self, key: &str, value: &str)
        ensures
            final(self)@ == (NodeView {
                attributes: set_attribute(old(self)@.attributes, key@, value@),
                ..old(self)@
            }),
            final(self).is_detached() == old(self).is_detached(),
            keys_distinct(old(self)@.attributes),
            keys_distinct(final(self)@.attributes),
    {
        proof {
            use_type_invariant(&*self);
        }
        let mut attrs: Vec<(String, String)> = Vec::new();
        std::mem::swap(&mut attrs, &mut self.attributes);
        let ghost views = attribute_views(attrs@);
        let n = attrs.len();
        let mut i: usize = 0;
        let mut found = false;
        while i < n
            invariant_except_break
                forall|j: int| 0 <= j < i ==> views[j].0 != key@,
                !found,
            invariant
                n == attrs.len(),
                views == attribute_views(attrs@),
                i <= n,
            ensures
                found ==> i < n && views[i as int].0 == key@,
                !found ==> forall|j: int| 0 <= j < n ==> views[j].0 != key@,
            decreases n - i,
        {
            if crate::text::str_eq(attrs[i].0.as_str(), key) {
                found = true;
                break;
            }
            i = i + 1;
        }
        let pair = (String::from_str(key), String::from_str(value));
        if found {
            attrs.set(i, pair);
            proof {
                let k = choose|k: int| 0 <= k < views.len() && #[trigger] views[k].0 == key@;
                assert(views[k].0 == views[i as int].0);
                assert(k == i);
                assert(attribute_views(attrs@) =~= views.update(i as int, (key@, value@)));
            }
        } else {
            attrs.push(pair);
            proof {
                assert(!has_key(views, key@));
                assert(attribute_views(attrs@) =~= views.push((key@, value@)));
            }
        }
        self.attributes = attrs;
        proof {
            use_type_invariant(&*self);
        }
    }

    /// Appends `node` as the new last child.
    pub fn append_child(&mut self, node: Node)
        requires
            node.is_detached(),
        ensures
            final(self)@ == (NodeView { children: old(self)@.children.push(node@), ..old(self)@ }),
            final(self).is_detached() == old(self).is_detached(),
    {
        proof {
            use_type_invariant(&*self);
        }
        let mut first = None;
        std::mem::swap(&mut first, &mut self.child_node);
        append_to_chain(&mut first, node);
        self.child_node = first;
    }

    /// The markup of the node and everything below it.
    pub fn to_html(&self) -> (r: String)
        ensures
            r@ == html_of(self@),
    {
        let mut content = String::new();
        self.write_html(&mut content);
        assert(content@ =~= html_of(self@));
        content
    }

    fn write_html(&self, output: &mut String)
        ensures
            final(output)@ == old(output)@ + html_of(self@),
        decreases *self, 1nat,
    {
        match self.node_type {
            NodeType::Element => self.write_element(output),
            NodeType::Text => self.write_text(output),
            _ => {
                assert(old(output)@ + html_of(self@) =~= old(output)@);
            },
        }
    }

    fn write_element(&self, output: &mut String)
        requires
            self.node_type == NodeType::Element,
        ensures
            final(output)@ == old(output)@ + html_of(self@),
        decreases *self, 0nat,
    {
        let ghost start = output@;
        let ghost attrs = self@.attributes;
        let ghost tag = self.node_name.spec_tag();
        proof {
            reveal_strlit("<");
            reveal_strlit(" ");
            reveal_strlit("=\"");
            reveal_strlit("\"");
            reveal_strlit(">");
            reveal_strlit("</");
            assert("<"@ =~= seq!['<']);
            assert(" "@ =~= seq![' ']);
            assert("=\""@ =~= seq!['=', '"']);
            assert("\""@ =~= seq!['"']);
            assert(">"@ =~= seq!['>']);
            assert("</"@ =~= seq!['<', '/']);
        }
        output.append("<");
        output.append(self.node_name.as_str());
        assert(attrs.take(0) =~= seq![]);
        let n = self.attributes.len();
        for i in 0..n
            invariant
                n == self.attributes.len(),
                attrs == attribute_views(self.attributes@),
                output@ == start + seq!['<'] + tag + attributes_html(attrs.take(i as int)),
        {
            let ghost before = output@;
            proof {
                reveal_strlit(" ");
                reveal_strlit("=\"");
                reveal_strlit("\"");
                assert(" "@ =~= seq![' ']);
                assert("=\""@ =~= seq!['=', '"']);
                assert("\""@ =~= seq!['"']);
            }
            output.append(" ");
            output.append(self.attributes[i].0.as_str());
            output.append("=\"");
            output.append(self.attributes[i].1.as_str());
            output.append("\"");
            proof {
                assert(attrs[i as int] == (self.attributes@[i as int].0@, self.attributes@[i as int].1@));
                lemma_attributes_html_step(attrs, i as int);
                assert(output@ =~= before + attribute_html(attrs[i as int]));
                assert(output@ =~= start + seq!['<'] + tag + attributes_html(
                    attrs.take(i as int + 1),
                ));
            }
        }
        assert(attrs.take(n as int) =~= attrs);
        output.append(">");
        let ghost open = output@;
        assert(open =~= start + open_tag_html(self.node_name, attrs));
        proof {
            self.node_name.lemma_tag_is_lowercase();
        }
        if is_void_element(self.node_name.as_str()) {
        } else {
            write_chain(&self.child_node, output);
            output.append("</");
            output.append(self.node_name.as_str());
            output.append(">");
            assert(output@ =~= open + children_html(self@.children) + close_tag_html(self.node_name));
        }
    }

    fn write_text(&self, output: &mut String)
        requires
            self.node_type == NodeType::Text,
        ensures
            final(output)@ == old(output)@ + html_of(self@),
    {
        match &self.node_value {
            Some(val) => {
                let escaped = escape_html_text(val.as_str());
                output.append(escaped.as_str());
            },
            None => {
                assert(old(output)@ + html_of(self@) =~= old(output)@);
            },
        }
    }
}

/// After `key` is set to `value`, the attribute `key` reads `value`, every
/// other attribute reads as before, no name occurs twice, and setting a name
/// that is already present keeps the number of attributes.
pub proof fn law_attribute_read_after_write(
    attrs: Seq<(Seq<char>, Seq<char>)>,
    key: Seq<char>,
    value: Seq<char>,
    other: Seq<char>,
)
    requires
        keys_distinct(attrs),
        other != key,
    ensures
        attribute_value(set_attribute(attrs, key, value), key) == Some(value),
        attribute_value(set_attribute(attrs, key, value), other) == attribute_value(attrs, other),
        keys_distinct(set_attribute(attrs, key, value)),
        has_key(attrs, key) ==> set_attribute(attrs, key, value).len() == attrs.len(),
        !has_key(attrs, key) ==> set_attribute(attrs, key, value).len() == attrs.len() + 1,
{
    let new = set_attribute(attrs, key, value);
    if has_key(attrs, key) {
        let i = choose|i: int| 0 <= i < attrs.len() && #[trigger] attrs[i].0 == key;
        assert(new[i].0 == key);
        assert(has_key(new, key));
        let j = choose|j: int| 0 <= j < new.len() && #[trigger] new[j].0 == key;
        assert(j == i);
        if has_key(attrs, other) {
            let a = choose|a: int| 0 <= a < attrs.len() && #[trigger] attrs[a].0 == other;
            assert(new[a].0 == other);
            assert(has_key(new, other));
            let b = choose|b: int| 0 <= b < new.len() && #[trigger] new[b].0 == other;
            assert(a == b);
        } else {
            assert forall|b: int| 0 <= b < new.len() implies #[trigger] new[b].0 != other by {
                if b != i {
                    assert(new[b] == attrs[b]);
                }
            }
        }
    } else {
        assert(new[attrs.len() as int].0 == key);
        assert(has_key(new, key));
        let j = choose|j: int| 0 <= j < new.len() && #[trigger] new[j].0 == key;
        assert(j == attrs.len());
        if has_key(attrs, other) {
            let a = choose|a: int| 0 <= a < attrs.len() && #[trigger] attrs[a].0 == other;
            assert(new[a].0 == other);
            assert(has_key(new, other));
            let b = choose|b: int| 0 <= b < new.len() && #[trigger] new[b].0 == other;
            assert(a == b);
        } else {
            assert forall|b: int| 0 <= b < new.len() implies #[trigger] new[b].0 != other by {
                if b < attrs.len() {
                    assert(new[b] == attrs[b]);
                }
            }
        }
    }
}

/// The markup of a list of nodes with one more node at the end is the
/// markup of the list followed by that of the new node.
pub proof fn law_children_html_push(cs: Seq<NodeView>, x: NodeView)
    ensures
        children_html(cs.push(x)) == children_html(cs) + html_of(x),
    decreases cs.len(),
{
    if cs.len() == 0 {
        assert(cs.push(x) =~= seq![x] + cs);
        lemma_children_html_cons(x, cs);
        assert(children_html(cs) == Seq::<char>::empty());
        assert(children_html(cs.push(x)) =~= children_html(cs) + html_of(x));
    } else {
        let rest = cs.subrange(1, cs.len() as int);
        law_children_html_push(rest, x);
        assert(cs =~= seq![cs[0]] + rest);
        assert(cs.push(x) =~= seq![cs[0]] + rest.push(x));
        lemma_children_html_cons(cs[0], rest);
        lemma_children_html_cons(cs[0], rest.push(x));
        assert(children_html(cs.push(x)) =~= children_html(cs) + html_of(x));
    }
}

/// Appending a child to a non-void element puts the child's markup right
/// before the closing tag; the rest of the markup is unchanged.
pub proof fn law_render_after_append(v: NodeView, x: NodeView)
    requires
        v.node_type == NodeType::Element,
        !v.node_name.spec_is_void(),
    ensures
        html_of(NodeView { children: v.children.push(x), ..v }) == open_tag_html(
            v.node_name,
            v.attributes,
        ) + children_html(v.children) + html_of(x) + close_tag_html(v.node_name),
{
    law_children_html_push(v.children, x);
    assert(open_tag_html(v.node_name, v.attributes) + children_html(v.children.push(x))
        + close_tag_html(v.node_name) =~= open_tag_html(v.node_name, v.attributes)
        + children_html(v.children) + html_of(x) + close_tag_html(v.node_name));
}

/// The child appended last is the last child.
pub proof fn law_appended_child_is_last(v: NodeView, x: NodeView)
    ensures
        (NodeView { children: v.children.push(x), ..v }).children.last() == x,
        (NodeView { children: v.children.push(x), ..v }).children.len() == v.children.len() + 1,
{
}

/// Of the tags a node can have, only `meta` names a void element: an element
/// written `<meta ...>` has no closing tag, every other element has one.
pub proof fn law_only_meta_is_void(name: NodeName)
    ensures
        name.spec_is_void() <==> name == NodeName::Meta,
{
    let t = name.spec_tag();
    let vs = void_element_names();
    if name == NodeName::Meta {
        assert(vs.contains(seq!['m', 'e', 't', 'a']));
    } else {
        match name {
            NodeName::Html => {
                assert(t.len() == 4 && t[0] == 'h');
            },
            NodeName::Head => {
                assert(t.len() == 4 && t[0] == 'h');
            },
            NodeName::Div => {
                assert(t.len() == 3 && t[0] == 'd');
            },
            NodeName::Span => {
                assert(t.len() == 4 && t[0] == 's' && t[1] == 'p');
            },
            NodeName::A => {
                assert(t.len() == 1 && t[0] == 'a');
            },
            NodeName::Body => {
                assert(t.len() == 4 && t[0] == 'b' && t[1] == 'o');
            },
            NodeName::P => {
                assert(t.len() == 1 && t[0] == 'p');
            },
            NodeName::Title => {
                assert(t.len() == 5 && t[0] == 't' && t[1] == 'i');
            },
            NodeName::Meta => {},
        }
        assert(!vs.contains(t));
    }
}

} // verus!
