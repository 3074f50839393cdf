//! The smallest node: a kind number, a name and an optional value.
use vstd::prelude::*;

verus! {

/// A node that holds only its kind, name and value.
pub struct BaseNode {
    node_type: u8,
    node_name: String,
    node_value: Option<String>,
}

impl BaseNode {
    /// A node of kind 0 with the given name and no value.
    pub fn new(node_name: String) -> (r: BaseNode)
        ensures
            r.kind() == 0,
            r.name() == node_name@,
            r.value() is None,
    {
        BaseNode { node_type: 0, node_name, node_value: None }
    }

    /// The kind number.
    pub closed spec fn kind(&self) -> u8 {
        self.node_type
    }

    /// The name.
    pub closed spec fn name(&self) -> Seq<char> {
        self.node_name@
    }

    /// The value, if any.
    pub closed spec fn value(&self) -> Option<Seq<char>> {
        match self.node_value {
            Some(v) => Some(v@),
            None => None,
        }
    }

    /// The name.
    pub fn node_name(&self) -> (r: &str)
        ensures
            r@ == self.name(),
    {
        self.node_name.as_str()
    }
}

} // verus!
