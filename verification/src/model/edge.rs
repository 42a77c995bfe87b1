//! Transition rules: a directed, conditionally-guarded edge from one state
//! to another. All conditions of an edge must hold for it to fire.

use vstd::prelude::*;

use crate::model::node::NodeId;
use crate::state_map::StateMap;

verus! {

/// Identifier of one transition rule.
#[derive(Clone, Copy, PartialEq, Eq, Structural, Debug)]
pub struct EdgeId(pub u32);

/// One operand of a condition: either a literal count, or the population
/// count of a neighbor state, resolved against the histogram at evaluation
/// time.
#[derive(Clone, Copy, PartialEq, Eq, Structural, Debug)]
pub enum Value {
    Absolute(u32),
    PopulationCount(NodeId),
}

/// The comparison applied to the two resolved operands of a condition.
#[derive(Clone, Copy, PartialEq, Eq, Structural, Debug)]
pub enum Operand {
    /// `==`
    Equal,
    /// `>`
    Greater,
    /// `>=`
    GreaterOrEqual,
    /// `<`
    Less,
    /// `<=`
    LessOrEqual,
    /// `!=`
    Different,
}

/// A single comparison between two resolved operands, evaluated against a
/// cell's neighbor histogram.
#[derive(Clone, Copy, PartialEq, Eq, Structural, Debug)]
pub struct Condition {
    pub left: Value,
    pub operand: Operand,
    pub right: Value,
}

/// A transition rule: fires when the cell is in `from_node` and every
/// condition holds; the cell then moves to `to_node`.
pub struct Edge {
    pub id: EdgeId,
    pub name: String,
    pub from_node: NodeId,
    pub to_node: NodeId,
    /// Conditions must ALL match, so there's an implicit `&&`
    /// operator between any pair of conditions.
    pub conditions: Vec<Condition>,
}

/// An operand only resolves against a histogram whose capacity covers the
/// state identifier it names.
pub open spec fn value_fits(v: Value, cap: int) -> bool {
    match v {
        Value::Absolute(_) => true,
        Value::PopulationCount(id) => id.0 < cap,
    }
}

/// The integer an operand resolves to against histogram `hist`.
pub open spec fn spec_value(v: Value, hist: Seq<u8>) -> u32 {
    match v {
        Value::Absolute(abs) => abs,
        Value::PopulationCount(id) => hist[id.0 as int] as u32,
    }
}

/// Standard integer ordering semantics of a comparison.
pub open spec fn spec_operand(op: Operand, left: u32, right: u32) -> bool {
    match op {
        Operand::Equal => left == right,
        Operand::Greater => left > right,
        Operand::GreaterOrEqual => left >= right,
        Operand::Less => left < right,
        Operand::LessOrEqual => left <= right,
        Operand::Different => left != right,
    }
}

pub open spec fn condition_fits(c: Condition, cap: int) -> bool {
    value_fits(c.left, cap) && value_fits(c.right, cap)
}

/// Whether one condition holds against histogram `hist`.
pub open spec fn condition_holds(c: Condition, hist: Seq<u8>) -> bool {
    spec_operand(c.operand, spec_value(c.left, hist), spec_value(c.right, hist))
}

pub open spec fn edge_fits(e: Edge, cap: int) -> bool {
    forall|k: int| 0 <= k < e.conditions@.len() ==> condition_fits(#[trigger] e.conditions@[k], cap)
}

/// Whether an edge fires for a cell in state `current` with neighbor
/// histogram `hist`: the edge leaves `current` and every condition holds.
pub open spec fn edge_matches(e: Edge, current: NodeId, hist: Seq<u8>) -> bool {
    &&& e.from_node == current
    &&& forall|k: int|
        0 <= k < e.conditions@.len() ==> condition_holds(#[trigger] e.conditions@[k], hist)
}

impl Value {
    fn to_absolute(self, neighbors: &StateMap) -> (r: u32)
        requires
            value_fits(self, neighbors.counts@.len() as int),
        ensures
            r == spec_value(self, neighbors.counts@),
    {
        match self {
            Value::Absolute(abs) => abs,
            Value::PopulationCount(node_id) => neighbors.get_count(node_id) as u32,
        }
    }
}

impl Operand {
    #[inline]
    pub fn evaluate(self, left: u32, right: u32) -> (r: bool)
        ensures
            r == spec_operand(self, left, right),
    {
        match self {
            Operand::Equal => left == right,
            Operand::Greater => left > right,
            Operand::GreaterOrEqual => left >= right,
            Operand::Less => left < right,
            Operand::LessOrEqual => left <= right,
            Operand::Different => left != right,
        }
    }
}

impl Condition {
    fn is_satisfied(&self, neighbors: &StateMap) -> (r: bool)
        requires
            condition_fits(*self, neighbors.counts@.len() as int),
        ensures
            r == condition_holds(*self, neighbors.counts@),
    {
        let left = self.left.to_absolute(neighbors);
        let right = self.right.to_absolute(neighbors);
        self.operand.evaluate(left, right)
    }

    #[inline]
    pub fn left(&self) -> (r: &Value)
        ensures
            r == self.left,
    {
        &self.left
    }

    #[inline]
    pub fn right(&self) -> (r: &Value)
        ensures
            r == self.right,
    {
        &self.right
    }
}

impl Edge {
    /// The destination state, if this edge leaves `node_id` and every one of
    /// its conditions holds against `neighbors`.
    pub fn transition(&self, node_id: NodeId, neighbors: &StateMap) -> (r: Option<NodeId>)
        requires
            edge_fits(*self, neighbors.counts@.len() as int),
        ensures
            r == if edge_matches(*self, node_id, neighbors.counts@) {
                Some(self.to_node)
            } else {
                None::<NodeId>
            },
    {
        if self.from_node.0 != node_id.0 {
            return None;
        }
        let mut k: usize = 0;
        while k < self.conditions.len()
            invariant
                k <= self.conditions@.len(),
                edge_fits(*self, neighbors.counts@.len() as int),
                forall|j: int|
                    0 <= j < k ==> condition_holds(#[trigger] self.conditions@[j], neighbors.counts@),
            decreases self.conditions@.len() - k,
        {
            if !self.conditions[k].is_satisfied(neighbors) {
                return None;
            }
            k += 1;
        }
        Some(self.to_node)
    }

    #[inline]
    pub fn name(&self) -> (r: &str)
        ensures
            r@ == self.name@,
    {
        self.name.as_str()
    }

    #[inline]
    pub fn from_node_id(&self) -> (r: &NodeId)
        ensures
            r == self.from_node,
    {
        &self.from_node
    }

    #[inline]
    pub fn to_node_id(&self) -> (r: &NodeId)
        ensures
            r == self.to_node,
    {
        &self.to_node
    }

    pub fn conditions(&self) -> (r: &Vec<Condition>)
        ensures
            r@ == self.conditions@,
    {
        &self.conditions
    }
}

} // verus!
