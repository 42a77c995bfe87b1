//! The rule model: a state graph of named states (nodes) and ordered,
//! conditionally-guarded transitions (edges) between them.
//!
//! State identifiers are kept dense: a model with `n` states uses exactly
//! the identifiers `0 .. n`, and a state's identifier is its position in the
//! node list. Deleting a state relabels the highest-numbered survivor down
//! into the freed slot so the identifier space stays dense.

pub mod edge;
pub mod node;
pub mod test_utils;

use vstd::prelude::*;

use rayon::iter::{IntoParallelIterator, ParallelIterator};

pub use edge::{Condition, Edge, EdgeId, Operand, Value};
pub use node::{Node, NodeId};

use crate::state_map::StateMap;
use edge::{edge_fits, edge_matches};

verus! {

broadcast use vstd::string::group_string_axioms;

/// Every operand of every rule resolves within a histogram of capacity `cap`.
pub open spec fn model_fits(edges: Seq<Edge>, cap: int) -> bool {
    forall|i: int| 0 <= i < edges.len() ==> edge_fits(#[trigger] edges[i], cap)
}

/// Every state identifier a rule references as source or destination is
/// within `cap`: with dense identifiers, a histogram of capacity `cap`
/// covers every state in use.
pub open spec fn model_ids_within(edges: Seq<Edge>, cap: int) -> bool {
    forall|i: int|
        0 <= i < edges.len() ==> (#[trigger] edges[i]).from_node.0 < cap && edges[i].to_node.0
            < cap
}

/// The destination of the first edge at or after position `i` that fires for
/// `current` against `hist`, if any.
pub open spec fn first_transition_from(
    edges: Seq<Edge>,
    current: NodeId,
    hist: Seq<u8>,
    i: int,
) -> Option<NodeId>
    decreases edges.len() - i,
{
    if i < 0 || i >= edges.len() {
        None
    } else if edge_matches(edges[i], current, hist) {
        Some(edges[i].to_node)
    } else {
        first_transition_from(edges, current, hist, i + 1)
    }
}

/// The destination of the first edge, in insertion order, that fires for
/// `current` against `hist`, if any.
pub open spec fn first_transition(edges: Seq<Edge>, current: NodeId, hist: Seq<u8>) -> Option<
    NodeId,
> {
    first_transition_from(edges, current, hist, 0)
}

/// The next state of a cell in state `current` with neighbor histogram
/// `hist`: the destination of the first firing edge, or `current` itself
/// when no edge fires.
pub open spec fn spec_next_state(edges: Seq<Edge>, current: NodeId, hist: Seq<u8>) -> NodeId {
    match first_transition(edges, current, hist) {
        Some(t) => t,
        None => current,
    }
}

proof fn lemma_first_transition_from_none(edges: Seq<Edge>, current: NodeId, hist: Seq<u8>, i: int)
    requires
        0 <= i <= edges.len(),
        forall|j: int| i <= j < edges.len() ==> !edge_matches(#[trigger] edges[j], current, hist),
    ensures
        first_transition_from(edges, current, hist, i) is None,
    decreases edges.len() - i,
{
    if i < edges.len() {
        lemma_first_transition_from_none(edges, current, hist, i + 1);
    }
}

proof fn lemma_first_transition_from_hit(
    edges: Seq<Edge>,
    current: NodeId,
    hist: Seq<u8>,
    i: int,
    m: int,
)
    requires
        0 <= i <= m < edges.len(),
        edge_matches(edges[m], current, hist),
        forall|j: int| i <= j < m ==> !edge_matches(#[trigger] edges[j], current, hist),
    ensures
        first_transition_from(edges, current, hist, i) == Some(edges[m].to_node),
    decreases m - i,
{
    if i < m {
        lemma_first_transition_from_hit(edges, current, hist, i + 1, m);
    }
}

/// Law: for a cell whose current state satisfies no rule, the next state is
/// the current state (identity).
pub proof fn lemma_no_match_identity(edges: Seq<Edge>, current: NodeId, hist: Seq<u8>)
    requires
        forall|j: int| 0 <= j < edges.len() ==> !edge_matches(#[trigger] edges[j], current, hist),
    ensures
        spec_next_state(edges, current, hist) == current,
{
    lemma_first_transition_from_none(edges, current, hist, 0);
}

/// Law: when several rules would fire for the same source state, the one
/// inserted earliest wins, regardless of the rules' identifier values.
pub proof fn lemma_first_match_wins(edges: Seq<Edge>, current: NodeId, hist: Seq<u8>, m: int)
    requires
        0 <= m < edges.len(),
        edge_matches(edges[m], current, hist),
        forall|j: int| 0 <= j < m ==> !edge_matches(#[trigger] edges[j], current, hist),
    ensures
        spec_next_state(edges, current, hist) == edges[m].to_node,
{
    lemma_first_transition_from_hit(edges, current, hist, 0, m);
}

proof fn lemma_first_transition_within(
    edges: Seq<Edge>,
    current: NodeId,
    hist: Seq<u8>,
    i: int,
    cap: int,
)
    requires
        model_ids_within(edges, cap),
    ensures
        match first_transition_from(edges, current, hist, i) {
            Some(t) => t.0 < cap,
            None => true,
        },
    decreases edges.len() - i,
{
    if 0 <= i < edges.len() && !edge_matches(edges[i], current, hist) {
        lemma_first_transition_within(edges, current, hist, i + 1, cap);
    }
}

/// When the current state and every rule endpoint are within the histogram
/// capacity, the next state is too.
pub proof fn lemma_next_state_within(edges: Seq<Edge>, current: NodeId, hist: Seq<u8>, cap: int)
    requires
        current.0 < cap,
        model_ids_within(edges, cap),
    ensures
        spec_next_state(edges, current, hist).0 < cap,
{
    lemma_first_transition_within(edges, current, hist, 0, cap);
}

/// The set of state identifiers a model with `n_nodes` states uses.
pub open spec fn state_ids(n_nodes: nat) -> Set<int> {
    Set::new(|i: int| 0 <= i < n_nodes)
}

/// Law: state identifiers are dense. A state's identifier is its position in
/// the node list, so the identifiers of any model — in particular after any
/// sequence of additions and deletions — are exactly `{0, 1, ..., count-1}`
/// with no gaps.
pub proof fn lemma_state_ids_dense(m: Model)
    ensures
        forall|i: int| state_ids(m.nodes@.len()).contains(i) <==> 0 <= i < m.nodes@.len(),
{
}

/// An edge survives the deletion of state `removed` when neither endpoint
/// references it.
pub open spec fn survives(e: Edge, removed: NodeId) -> bool {
    e.from_node.0 != removed.0 && e.to_node.0 != removed.0
}

/// The edges that survive the deletion of state `removed`, in order.
pub open spec fn surviving_edges(s: Seq<Edge>, removed: NodeId) -> Seq<Edge>
    decreases s.len(),
{
    if s.len() == 0 {
        Seq::empty()
    } else {
        surviving_edges(s.drop_last(), removed) + if survives(s.last(), removed) {
            seq![s.last()]
        } else {
            Seq::empty()
        }
    }
}

/// `e` with every reference to state `hi` rewritten to state `target`.
pub open spec fn relabel_edge(e: Edge, hi: NodeId, target: NodeId) -> Edge {
    Edge {
        id: e.id,
        name: e.name,
        from_node: if e.from_node.0 == hi.0 {
            target
        } else {
            e.from_node
        },
        to_node: if e.to_node.0 == hi.0 {
            target
        } else {
            e.to_node
        },
        conditions: e.conditions,
    }
}

/// The edge list after deleting state `removed`: edges touching `removed`
/// are dropped, the rest keep their order, and references to state `hi` (the
/// highest identifier before the deletion) are rewritten to `removed`.
pub open spec fn compacted_edges(s: Seq<Edge>, removed: NodeId, hi: NodeId) -> Seq<Edge>
    decreases s.len(),
{
    if s.len() == 0 {
        Seq::empty()
    } else {
        compacted_edges(s.drop_last(), removed, hi) + if survives(s.last(), removed) {
            seq![relabel_edge(s.last(), hi, removed)]
        } else {
            Seq::empty()
        }
    }
}

/// The survivors of the deletion of `removed`, with references to `hi`
/// rewritten to `removed`.
pub open spec fn relabeled_survivors(s: Seq<Edge>, removed: NodeId, hi: NodeId) -> Seq<Edge> {
    surviving_edges(s, removed).map_values(|e: Edge| relabel_edge(e, hi, removed))
}

proof fn lemma_compacted_is_relabeled_survivors(s: Seq<Edge>, removed: NodeId, hi: NodeId)
    ensures
        compacted_edges(s, removed, hi) == relabeled_survivors(s, removed, hi),
    decreases s.len(),
{
    if s.len() == 0 {
        assert(compacted_edges(s, removed, hi) =~= relabeled_survivors(s, removed, hi));
    } else {
        lemma_compacted_is_relabeled_survivors(s.drop_last(), removed, hi);
        assert(compacted_edges(s, removed, hi) =~= relabeled_survivors(s, removed, hi));
    }
}

/// Law: deleting a state keeps rule references dense. If every rule
/// endpoint names one of the `n` existing states, then after deleting any
/// state — dropping its rules and relabeling the old highest identifier
/// down into the freed slot — every surviving endpoint names one of the
/// `n - 1` remaining states.
pub proof fn lemma_delete_node_keeps_references_dense(
    edges: Seq<Edge>,
    removed: NodeId,
    hi: NodeId,
    n: int,
)
    requires
        model_ids_within(edges, n),
        1 <= n,
        hi.0 == n - 1,
        removed.0 < n,
    ensures
        model_ids_within(compacted_edges(edges, removed, hi), n - 1),
    decreases edges.len(),
{
    if edges.len() > 0 {
        assert(model_ids_within(edges.drop_last(), n)) by {
            assert(forall|i: int|
                0 <= i < edges.drop_last().len() ==> #[trigger] edges.drop_last()[i] == edges[i]);
        }
        lemma_delete_node_keeps_references_dense(edges.drop_last(), removed, hi, n);
        let prefix = compacted_edges(edges.drop_last(), removed, hi);
        let whole = compacted_edges(edges, removed, hi);
        if survives(edges.last(), removed) {
            let e = relabel_edge(edges.last(), hi, removed);
            assert(e.from_node.0 < n - 1);
            assert(e.to_node.0 < n - 1);
            assert(forall|i: int|
                0 <= i < whole.len() ==> #[trigger] whole[i] == if i < prefix.len() {
                    prefix[i]
                } else {
                    e
                });
        } else {
            assert(whole =~= prefix);
        }
    }
}

/// The rules whose source state is `id`, in insertion (evaluation) order.
pub open spec fn edges_from(s: Seq<Edge>, id: NodeId) -> Seq<Edge>
    decreases s.len(),
{
    if s.len() == 0 {
        Seq::empty()
    } else {
        edges_from(s.drop_last(), id) + if s.last().from_node.0 == id.0 {
            seq![s.last()]
        } else {
            Seq::empty()
        }
    }
}

/// The highest rule identifier in use, or `-1` for an empty rule list.
pub open spec fn max_edge_id(s: Seq<Edge>) -> int
    decreases s.len(),
{
    if s.len() == 0 {
        -1
    } else {
        vstd::math::max(max_edge_id(s.drop_last()), s.last().id.0 as int)
    }
}

/// The identifier the next added rule receives.
pub open spec fn next_edge_id(s: Seq<Edge>) -> int {
    max_edge_id(s) + 1
}

/// A state graph: named states with dense identifiers, and an ordered list
/// of transition rules. Rule evaluation order is the list order.
pub struct Model {
    pub nodes: Vec<Node>,
    pub edges: Vec<Edge>,
}

impl Model {
    pub fn new() -> (r: Self)
        ensures
            r.nodes@.len() == 0,
            r.edges@.len() == 0,
    {
        Self { nodes: Vec::new(), edges: Vec::new() }
    }

    /// The first rule, in insertion order, whose source equals `curr_state`
    /// and whose conditions all hold against `neighbors` decides the next
    /// state; with no such rule the cell keeps its state. Always succeeds.
    pub fn next_state(&self, curr_state: NodeId, neighbors: &StateMap) -> (r: NodeId)
        requires
            model_fits(self.edges@, neighbors.counts@.len() as int),
        ensures
            r == spec_next_state(self.edges@, curr_state, neighbors.counts@),
    {
        let n = self.edges.len();
        let mut i: usize = 0;
        while i < n
            invariant
                i <= n,
                n == self.edges@.len(),
                model_fits(self.edges@, neighbors.counts@.len() as int),
                forall|j: int|
                    0 <= j < i ==> !edge_matches(
                        #[trigger] self.edges@[j],
                        curr_state,
                        neighbors.counts@,
                    ),
            decreases n - i,
        {
            assert(edge_fits(self.edges@[i as int], neighbors.counts@.len() as int));
            match self.edges[i].transition(curr_state, neighbors) {
                Some(to) => {
                    proof {
                        lemma_first_transition_from_hit(
                            self.edges@,
                            curr_state,
                            neighbors.counts@,
                            0,
                            i as int,
                        );
                    }
                    return to;
                },
                None => {},
            }
            i += 1;
        }
        proof {
            lemma_first_transition_from_none(self.edges@, curr_state, neighbors.counts@, 0);
        }
        curr_state
    }

    /// The states, ordered by identifier: a state's identifier is its
    /// position in this list.
    pub fn nodes(&self) -> (r: &Vec<Node>)
        ensures
            r@ == self.nodes@,
    {
        &self.nodes
    }

    /// The state with identifier `id`, or `None` for an identifier beyond
    /// the current bounds ("nothing selected", not an error).
    pub fn get_node(&self, id: &NodeId) -> (r: Option<&Node>)
        ensures
            match r {
                Some(node) => id.0 < self.nodes@.len() && *node == self.nodes@[id.0 as int],
                None => id.0 >= self.nodes@.len(),
            },
    {
        if id.0 < self.nodes.len() {
            Some(&self.nodes[id.0])
        } else {
            None
        }
    }

    /// Every rule, in insertion (evaluation) order.
    pub fn all_edges(&self) -> (r: &[Edge])
        ensures
            r@ == self.edges@,
    {
        self.edges.as_slice()
    }

    /// Adds a state, assigning it the next identifier above the current
    /// maximum (the list length, as identifiers are dense), and returns that
    /// identifier.
    pub fn add_node(&mut self, node: Node) -> (r: NodeId)
        ensures
            final(self).nodes@ == old(self).nodes@.push(node),
            final(self).edges@ == old(self).edges@,
            r.0 == old(self).nodes@.len(),
    {
        let id = NodeId(self.nodes.len());
        self.nodes.push(node);
        id
    }

    /// The rules leaving state `from_node_id`, in insertion (evaluation)
    /// order.
    pub fn edges_from_node(&self, from_node_id: &NodeId) -> (r: Vec<&Edge>)
        ensures
            r@.map_values(|e: &Edge| *e) == edges_from(self.edges@, *from_node_id),
    {
        let mut r: Vec<&Edge> = Vec::new();
        let n = self.edges.len();
        let mut i: usize = 0;
        while i < n
            invariant
                i <= n,
                n == self.edges@.len(),
                r@.map_values(|e: &Edge| *e) == edges_from(
                    self.edges@.take(i as int),
                    *from_node_id,
                ),
            decreases n - i,
        {
            proof {
                assert(self.edges@.take(i + 1).drop_last() =~= self.edges@.take(i as int));
                assert(self.edges@.take(i + 1).last() == self.edges@[i as int]);
            }
            let ghost prev = r@.map_values(|e: &Edge| *e);
            if self.edges[i].from_node.0 == from_node_id.0 {
                r.push(&self.edges[i]);
                proof {
                    assert(r@.map_values(|e: &Edge| *e) =~= prev.push(self.edges@[i as int]));
                }
            }
            i += 1;
        }
        proof {
            assert(self.edges@.take(n as int) =~= self.edges@);
        }
        r
    }

    /// Adds a rule, assigning it the next identifier above the current
    /// maximum, appending it to the end of the rule list (which fixes its
    /// evaluation-order position), and returning a borrow of the assigned
    /// identifier.
    pub fn add_edge(&mut self, edge: Edge) -> (r: &EdgeId)
        requires
            max_edge_id(old(self).edges@) < u32::MAX,
        ensures
            final(self).nodes@ == old(self).nodes@,
            final(self).edges@ == old(self).edges@.push(
                Edge {
                    id: EdgeId(next_edge_id(old(self).edges@) as u32),
                    name: edge.name,
                    from_node: edge.from_node,
                    to_node: edge.to_node,
                    conditions: edge.conditions,
                },
            ),
            r.0 == next_edge_id(old(self).edges@),
    {
        let mut edge = edge;
        let n = self.edges.len();
        let mut next: u32 = 0;
        let mut i: usize = 0;
        while i < n
            invariant
                i <= n,
                n == self.edges@.len(),
                max_edge_id(self.edges@) < u32::MAX,
                next as int == next_edge_id(self.edges@.take(i as int)),
            decreases n - i,
        {
            proof {
                assert(self.edges@.take(i + 1).drop_last() =~= self.edges@.take(i as int));
                assert(self.edges@.take(i + 1).last() == self.edges@[i as int]);
                lemma_max_edge_id_ge(self.edges@, i as int);
            }
            let eid = self.edges[i].id.0;
            if eid >= next {
                next = eid + 1;
            }
            i += 1;
        }
        proof {
            assert(self.edges@.take(n as int) =~= self.edges@);
        }
        edge.id = EdgeId(next);
        let insert_at_idx = self.edges.len();
        self.edges.push(edge);
        &self.edges[insert_at_idx].id
    }

    /// Deletes a state by identifier; a no-op when the identifier is not in
    /// use. Otherwise every rule referencing the state is removed, and — to
    /// keep identifiers dense — the highest-numbered surviving state is
    /// relabeled down into the freed slot, rewriting every rule reference to
    /// the old highest identifier.
    pub fn delete_node(&mut self, node_id: NodeId)
        ensures
            node_id.0 >= old(self).nodes@.len() ==> {
                &&& final(self).nodes@ == old(self).nodes@
                &&& final(self).edges@ == old(self).edges@
            },
            node_id.0 < old(self).nodes@.len() ==> {
                let hi = (old(self).nodes@.len() - 1) as nat;
                &&& final(self).nodes@ == old(self).nodes@.update(
                    node_id.0 as int,
                    old(self).nodes@[hi as int],
                ).drop_last()
                &&& final(self).edges@ == compacted_edges(
                    old(self).edges@,
                    node_id,
                    NodeId(hi as usize),
                )
            },
    {
        if node_id.0 >= self.nodes.len() {
            return ;
        }
        let hi = NodeId(self.nodes.len() - 1);

        // Remove the state, moving the highest-numbered survivor into its
        // slot (a no-op relabeling when the deleted state was the highest).
        let _ = self.nodes.swap_remove(node_id.0);

        // Drop every rule touching the deleted state, keeping the rest in
        // order. The list is consumed from the back and reversed again, so
        // the rules move without being copied.
        let ghost orig = self.edges@;
        let mut all: Vec<Edge> = Vec::new();
        core::mem::swap(&mut all, &mut self.edges);
        let mut rev: Vec<Edge> = Vec::new();
        loop
            invariant
                surviving_edges(orig, node_id) =~= surviving_edges(all@, node_id) + rev@.reverse(),
            ensures
                all@.len() == 0,
                surviving_edges(orig, node_id) =~= rev@.reverse(),
            decreases all@.len(),
        {
            let ghost all_before = all@;
            let ghost rev_before = rev@;
            match all.pop() {
                None => {
                    break ;
                },
                Some(e) => {
                    proof {
                        assert(all_before.drop_last() =~= all@);
                    }
                    if e.from_node.0 != node_id.0 && e.to_node.0 != node_id.0 {
                        rev.push(e);
                        proof {
                            assert(rev@.reverse() =~= seq![e] + rev_before.reverse());
                        }
                    }
                },
            }
        }
        let mut kept: Vec<Edge> = Vec::new();
        loop
            invariant
                surviving_edges(orig, node_id) =~= kept@ + rev@.reverse(),
            ensures
                rev@.len() == 0,
                surviving_edges(orig, node_id) =~= kept@,
            decreases rev@.len(),
        {
            let ghost rev_before = rev@;
            match rev.pop() {
                None => {
                    break ;
                },
                Some(e) => {
                    proof {
                        assert(rev_before.reverse() =~= seq![e] + rev@.reverse());
                    }
                    kept.push(e);
                },
            }
        }

        // Rewrite references to the old highest identifier across all
        // surviving rules in parallel. When the deleted state was the
        // highest, no survivor references it and the rewrite is the
        // identity.
        let relabel = move |e: Edge| -> (r: Edge)
            ensures
                r == relabel_edge(e, hi, node_id),
            {
                let mut e = e;
                if e.from_node.0 == hi.0 {
                    e.from_node = node_id;
                }
                if e.to_node.0 == hi.0 {
                    e.to_node = node_id;
                }
                e
            };
        let ghost kept_seq = kept@;
        let out = par_map_edges(kept, relabel);
        proof {
            lemma_compacted_is_relabeled_survivors(orig, node_id, hi);
            assert forall|i: int| 0 <= i < out@.len() implies out@[i] == relabeled_survivors(
                orig,
                node_id,
                hi,
            )[i] by {
                assert(call_ensures(relabel, (kept_seq[i],), out@[i]));
            }
            assert(out@ =~= compacted_edges(orig, node_id, hi));
        }
        self.edges = out;
    }
}

/// The exact shape of the classic Game of Life rule set: two states, Dead
/// (identifier 0) and Alive (identifier 1), with the underpopulation,
/// overpopulation and reproduction rules in that evaluation order.
pub open spec fn is_game_of_life_model(m: Model) -> bool {
    &&& m.nodes@.len() == 2
    &&& m.nodes@[0].0@ == "Dead"@
    &&& m.nodes@[1].0@ == "Alive"@
    &&& m.edges@.len() == 3
    &&& m.edges@[0].id == EdgeId(0u32)
    &&& m.edges@[0].name@ == "Underpopulation"@
    &&& m.edges@[0].from_node == NodeId(1usize)
    &&& m.edges@[0].to_node == NodeId(0usize)
    &&& m.edges@[0].conditions@ =~= seq![
        Condition {
            left: Value::PopulationCount(NodeId(1usize)),
            operand: Operand::Less,
            right: Value::Absolute(2u32),
        },
    ]
    &&& m.edges@[1].id == EdgeId(1u32)
    &&& m.edges@[1].name@ == "Overpopulation"@
    &&& m.edges@[1].from_node == NodeId(1usize)
    &&& m.edges@[1].to_node == NodeId(0usize)
    &&& m.edges@[1].conditions@ =~= seq![
        Condition {
            left: Value::PopulationCount(NodeId(1usize)),
            operand: Operand::Greater,
            right: Value::Absolute(3u32),
        },
    ]
    &&& m.edges@[2].id == EdgeId(2u32)
    &&& m.edges@[2].name@ == "Reproduction"@
    &&& m.edges@[2].from_node == NodeId(0usize)
    &&& m.edges@[2].to_node == NodeId(1usize)
    &&& m.edges@[2].conditions@ =~= seq![
        Condition {
            left: Value::PopulationCount(NodeId(1usize)),
            operand: Operand::Equal,
            right: Value::Absolute(3u32),
        },
    ]
}

// Known Models
impl Model {
    /// Conway's Game of Life as a rule model: any live cell with fewer than
    /// two live neighbours dies (underpopulation), any live cell with more
    /// than three live neighbours dies (overpopulation), and any dead cell
    /// with exactly three live neighbours becomes live (reproduction).
    pub fn game_of_life() -> (r: Self)
        ensures
            is_game_of_life_model(r),
    {
        let dead = NodeId(0);
        let alive = NodeId(1);

        let mut nodes: Vec<Node> = Vec::new();
        nodes.push(Node("Dead".to_string()));
        nodes.push(Node("Alive".to_string()));

        let mut under_conds: Vec<Condition> = Vec::new();
        under_conds.push(
            Condition {
                left: Value::PopulationCount(alive),
                operand: Operand::Less,
                right: Value::Absolute(2),
            },
        );
        let mut over_conds: Vec<Condition> = Vec::new();
        over_conds.push(
            Condition {
                left: Value::PopulationCount(alive),
                operand: Operand::Greater,
                right: Value::Absolute(3),
            },
        );
        let mut repro_conds: Vec<Condition> = Vec::new();
        repro_conds.push(
            Condition {
                left: Value::PopulationCount(alive),
                operand: Operand::Equal,
                right: Value::Absolute(3),
            },
        );

        let mut edges: Vec<Edge> = Vec::new();
        edges.push(
            Edge {
                id: EdgeId(0),
                name: "Underpopulation".to_string(),
                from_node: alive,
                to_node: dead,
                conditions: under_conds,
            },
        );
        edges.push(
            Edge {
                id: EdgeId(1),
                name: "Overpopulation".to_string(),
                from_node: alive,
                to_node: dead,
                conditions: over_conds,
            },
        );
        edges.push(
            Edge {
                id: EdgeId(2),
                name: "Reproduction".to_string(),
                from_node: dead,
                to_node: alive,
                conditions: repro_conds,
            },
        );

        Self { nodes, edges }
    }
}

/// Relies on rayon: a `Vec`'s parallel iterator is indexed, `map` keeps it
/// indexed, and collecting an indexed parallel iterator writes each mapped
/// item at its original position. So the result has one output of `f` per
/// input, in input order.
#[verifier::external_body]
fn par_map_edges<F: Fn(Edge) -> Edge + Send + Sync>(edges: Vec<Edge>, f: F) -> (r: Vec<Edge>)
    requires
        forall|i: int| 0 <= i < edges@.len() ==> call_requires(f, (#[trigger] edges@[i],)),
    ensures
        r@.len() == edges@.len(),
        forall|i: int| 0 <= i < edges@.len() ==> call_ensures(f, (edges@[i],), #[trigger] r@[i]),
{
    edges.into_par_iter().map(f).collect()
}

proof fn lemma_max_edge_id_ge(s: Seq<Edge>, i: int)
    requires
        0 <= i < s.len(),
    ensures
        s[i].id.0 <= max_edge_id(s),
    decreases s.len(),
{
    if i < s.len() - 1 {
        assert(s.drop_last()[i] == s[i]);
        lemma_max_edge_id_ge(s.drop_last(), i);
    }
}

} // verus!
