//! States of the rule graph: a dense integer identifier plus a display name.

use vstd::prelude::*;

verus! {

/// Identifier of one cell state. Identifiers are kept dense: the valid
/// identifiers of a model are exactly `0 .. state count`.
#[derive(Clone, Copy, PartialEq, Eq, Structural, Debug, Hash)]
pub struct NodeId(pub usize);

impl NodeId {
    #[inline]
    pub fn from_index(idx: usize) -> (r: Self)
        ensures
            r.0 == idx,
    {
        Self(idx)
    }

    #[inline]
    pub fn as_index(self) -> (r: usize)
        ensures
            r == self.0,
    {
        self.0
    }
}

/// One cell state: its display name. Its identifier is its position in the
/// model's state list.
pub struct Node(pub String);

impl Node {
    pub fn new(name: String) -> (r: Self)
        ensures
            r.0@ == name@,
    {
        Self(name)
    }

    pub fn name(&self) -> (r: &str)
        ensures
            r@ == self.0@,
    {
        self.0.as_str()
    }
}

} // verus!
