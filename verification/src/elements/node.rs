//! Elements whose tag names are stored in upper case, each owning its first
//! child, and each child owning its next sibling.
use vstd::prelude::*;
use crate::html::node::NodeType;

verus! {

/// What `str::to_uppercase` returns for a string: the Unicode uppercase
/// mapping of each character, which may change the length.
pub uninterp spec fn uppercase_of(s: Seq<char>) -> Seq<char>;

/// Upper-cases a string slice: `str::to_uppercase`. The result is named by
/// `uppercase_of`; nothing more of the Unicode case mapping is stated.
#[verifier::external_body]
fn str_to_uppercase(s: &str) -> (r: String)
    ensures
        r@ == uppercase_of(s@),
{
    s.to_uppercase()
}

/// The abstract content of an element: kind, name, value, attributes and
/// children in order.
pub struct ElementView {
    pub node_type: NodeType,
    pub node_name: Seq<char>,
    pub node_value: Option<Seq<char>>,
    pub attributes: Seq<(Seq<char>, Seq<char>)>,
    pub children: Seq<ElementView>,
}

/// An element of the tree.
pub struct Element {
    node_type: NodeType,
    node_name: String,
    node_value: Option<String>,
    attributes: Vec<(String, String)>,
    child_node: Option<Box<Element>>,
    next_sibling: Option<Box<Element>>,
}

/// The view of an element.
pub closed spec fn element_view(n: Element) -> ElementView
    decreases n,
{
    ElementView {
        node_type: n.node_type,
        node_name: n.node_name@,
        node_value: match n.node_value {
            Some(s) => Some(s@),
            None => None,
        },
        attributes: n.attributes@.map_values(|p: (String, String)| (p.0@, p.1@)),
        children: sibling_views(n.child_node),
    }
}

/// The views of a sibling chain, first to last.
pub closed spec fn sibling_views(first: Option<Box<Element>>) -> Seq<ElementView>
    decreases first,
{
    match first {
        None => seq![],
        Some(b) => seq![element_view(*b)] + sibling_views(b.next_sibling),
    }
}

impl View for Element {
    type V = ElementView;

    open spec fn view(&self) -> ElementView {
        element_view(*self)
    }
}

/// The last element of the sibling chain that starts at `b`.
fn last_sibling(b: &Box<Element>) -> (r: &Element)
    ensures
        sibling_views(Some(*b)).len() > 0,
        r@ == sibling_views(Some(*b)).last(),
    decreases b,
{
    match &b.next_sibling {
        None => {
            assert(sibling_views(b.next_sibling) == Seq::<ElementView>::empty());
            assert(sibling_views(Some(*b)) =~= seq![element_view(**b)]);
            &**b
        },
        Some(n) => last_sibling(n),
    }
}

/// Adds `node` after the last element of the chain held in `slot`.
fn append_sibling(slot: &mut Option<Box<Element>>, node: Element)
    requires
        node.is_detached(),
    ensures
        sibling_views(*final(slot)) == sibling_views(*old(slot)).push(node@),
    decreases *old(slot),
{
    if slot.is_none() {
        let b = Box::new(node);
        assert(sibling_views(b.next_sibling) == Seq::<ElementView>::empty());
        *slot = Some(b);
        assert(sibling_views(*old(slot)) == Seq::<ElementView>::empty());
        assert(sibling_views(*slot) =~= seq![node@]);
    } else {
        let mut tmp = None;
        std::mem::swap(&mut tmp, slot);
        let mut b = tmp.unwrap();
        let ghost old_view = element_view(*b);
        let mut next = None;
        std::mem::swap(&mut next, &mut b.next_sibling);
        append_sibling(&mut next, node);
        b.next_sibling = next;
        assert(element_view(*b) == old_view);
        *slot = Some(b);
        assert(sibling_views(*slot) =~= sibling_views(*old(slot)).push(node@));
    }
}

impl Element {
    /// The element is not linked to a next sibling.
    pub closed spec fn is_detached(&self) -> bool {
        self.next_sibling is None
    }

    /// An element named by `node_name` in upper case, with no value, no
    /// attributes and no children.
    pub fn new(node_name: &str) -> (r: Element)
        ensures
            r.is_detached(),
            r@ == (ElementView {
                node_type: NodeType::Element,
                node_name: uppercase_of(node_name@),
                node_value: None,
                attributes: seq![],
                children: seq![],
            }),
    {
        let r = Element {
            node_type: NodeType::Element,
            node_name: str_to_uppercase(node_name),
            node_value: None,
            attributes: Vec::new(),
            child_node: None,
            next_sibling: None,
        };
        assert(r@.attributes =~= seq![]);
        r
    }

    /// The name of the element.
    pub fn name(&self) -> (r: &str)
        ensures
            r@ == self@.node_name,
    {
        self.node_name.as_str()
    }

    /// The last child, if the element has children.
    pub fn last_child(&self) -> (r: Option<&Element>)
        ensures
            r is None <==> self@.children.len() == 0,
            r matches Some(c) ==> c@ == self@.children.last(),
    {
        match &self.child_node {
            None => None,
            Some(b) => Some(last_sibling(b)),
        }
    }

    /// Replaces the attributes.
    pub fn set_attributes(&mut self, attributes: Vec<(String, String)>)
        ensures
            final(self)@ == (ElementView {
                attributes: attributes@.map_values(|p: (String, String)| (p.0@, p.1@)),
                ..old(self)@
            }),
            final(self).is_detached() == old(self).is_detached(),
    {
        self.attributes = attributes;
    }

    /// Appends `node` as the new last child.
    pub fn append_child(&mut self, node: Element)
        requires
            node.is_detached(),
        ensures
            final(self)@ == (ElementView { children: old(self)@.children.push(node@), ..old(self)@ }),
            final(self).is_detached() == old(self).is_detached(),
    {
        let mut first = None;
        std::mem::swap(&mut first, &mut self.child_node);
        append_sibling(&mut first, node);
        self.child_node = first;
    }
}

} // verus!
