//! Rule-model behavior: evaluation order, identifier assignment, and
//! deletion compaction.

use libca::state_map::StateMap;
use libca::{Condition, Edge, Model, Node, NodeId, Operand, Value};
use libca::model::EdgeId;

fn edge(id: u32, name: &str, from: usize, to: usize, conditions: Vec<Condition>) -> Edge {
    Edge {
        id: EdgeId(id),
        name: name.to_string(),
        from_node: NodeId::from_index(from),
        to_node: NodeId::from_index(to),
        conditions,
    }
}

/// A histogram whose only positive count is `count` neighbors of state 1.
fn histogram_with_alive(count: u8) -> StateMap {
    let mut sm = StateMap::new();
    let mut states = Vec::new();
    for _ in 0..count {
        states.push(NodeId::from_index(1));
    }
    sm.count_states(&states);
    sm
}

#[test]
fn no_match_keeps_current_state() {
    // The only rule leaves state 2; a cell in state 1 never matches it.
    let mut m = Model::new();
    m.add_node(Node::new("a".to_string()));
    m.add_node(Node::new("b".to_string()));
    m.add_node(Node::new("c".to_string()));
    m.add_edge(edge(0, "from-c", 2, 0, vec![]));

    let sm = histogram_with_alive(5);
    assert_eq!(m.next_state(NodeId::from_index(1), &sm).as_index(), 1);
}

#[test]
fn unsatisfied_conditions_keep_current_state() {
    let mut m = Model::new();
    m.add_node(Node::new("a".to_string()));
    m.add_node(Node::new("b".to_string()));
    m.add_edge(edge(
        0,
        "needs-three",
        0,
        1,
        vec![Condition {
            left: Value::PopulationCount(NodeId::from_index(1)),
            operand: Operand::Equal,
            right: Value::Absolute(3),
        }],
    ));

    let sm = histogram_with_alive(2);
    assert_eq!(m.next_state(NodeId::from_index(0), &sm).as_index(), 0);
}

#[test]
fn first_inserted_rule_wins_regardless_of_identifiers() {
    // Both rules leave state 0 and both are satisfied; the first inserted
    // wins even though its identifier (7) is larger than the other's (1).
    let mut m = Model::new();
    m.add_node(Node::new("a".to_string()));
    m.add_node(Node::new("b".to_string()));
    m.add_node(Node::new("c".to_string()));
    m.edges.push(edge(7, "inserted-first", 0, 1, vec![]));
    m.edges.push(edge(1, "inserted-second", 0, 2, vec![]));

    let sm = histogram_with_alive(0);
    assert_eq!(m.next_state(NodeId::from_index(0), &sm).as_index(), 1);
}

#[test]
fn conditions_are_conjoined() {
    let mut m = Model::new();
    m.add_node(Node::new("a".to_string()));
    m.add_node(Node::new("b".to_string()));
    let conds = vec![
        Condition {
            left: Value::PopulationCount(NodeId::from_index(1)),
            operand: Operand::GreaterOrEqual,
            right: Value::Absolute(2),
        },
        Condition {
            left: Value::PopulationCount(NodeId::from_index(1)),
            operand: Operand::LessOrEqual,
            right: Value::Absolute(3),
        },
    ];
    m.add_edge(edge(0, "window", 0, 1, conds));

    assert_eq!(m.next_state(NodeId::from_index(0), &histogram_with_alive(1)).as_index(), 0);
    assert_eq!(m.next_state(NodeId::from_index(0), &histogram_with_alive(2)).as_index(), 1);
    assert_eq!(m.next_state(NodeId::from_index(0), &histogram_with_alive(3)).as_index(), 1);
    assert_eq!(m.next_state(NodeId::from_index(0), &histogram_with_alive(4)).as_index(), 0);
}

#[test]
fn add_node_assigns_dense_identifiers() {
    let mut m = Model::new();
    assert_eq!(m.add_node(Node::new("a".to_string())).as_index(), 0);
    assert_eq!(m.add_node(Node::new("b".to_string())).as_index(), 1);
    assert_eq!(m.add_node(Node::new("c".to_string())).as_index(), 2);
    assert_eq!(m.nodes().len(), 3);
    assert_eq!(m.get_node(&NodeId::from_index(1)).unwrap().name(), "b");
    assert!(m.get_node(&NodeId::from_index(3)).is_none());
}

#[test]
fn add_edge_assigns_next_identifier_and_appends() {
    let mut m = Model::new();
    m.add_node(Node::new("a".to_string()));
    m.add_node(Node::new("b".to_string()));
    let first = m.add_edge(edge(99, "x", 0, 1, vec![])).0;
    assert_eq!(first, 0);
    let second = m.add_edge(edge(99, "y", 1, 0, vec![])).0;
    assert_eq!(second, 1);
    assert_eq!(m.all_edges().len(), 2);
    assert_eq!(m.all_edges()[0].name(), "x");
    assert_eq!(m.all_edges()[1].name(), "y");
}

#[test]
fn delete_missing_node_is_a_no_op() {
    let mut m = Model::new();
    m.add_node(Node::new("a".to_string()));
    m.delete_node(NodeId::from_index(5));
    assert_eq!(m.nodes().len(), 1);
    assert_eq!(m.get_node(&NodeId::from_index(0)).unwrap().name(), "a");
}

#[test]
fn delete_node_keeps_identifiers_dense() {
    // States a(0), b(1), c(2), d(3); delete b: d is relabeled down into
    // slot 1, so the surviving identifiers are exactly 0, 1, 2.
    let mut m = Model::new();
    m.add_node(Node::new("a".to_string()));
    m.add_node(Node::new("b".to_string()));
    m.add_node(Node::new("c".to_string()));
    m.add_node(Node::new("d".to_string()));
    m.delete_node(NodeId::from_index(1));

    assert_eq!(m.nodes().len(), 3);
    assert_eq!(m.get_node(&NodeId::from_index(0)).unwrap().name(), "a");
    assert_eq!(m.get_node(&NodeId::from_index(1)).unwrap().name(), "d");
    assert_eq!(m.get_node(&NodeId::from_index(2)).unwrap().name(), "c");
    assert!(m.get_node(&NodeId::from_index(3)).is_none());
}

#[test]
fn delete_node_cascades_to_rules_and_relabels() {
    // Rules: 0->1 (touches the deleted state), 0->2, 2->0, 2->2.
    // Deleting state 1 drops the first rule and rewrites state 2 (the old
    // highest) to 1 everywhere.
    let mut m = Model::new();
    m.add_node(Node::new("a".to_string()));
    m.add_node(Node::new("b".to_string()));
    m.add_node(Node::new("c".to_string()));
    m.add_edge(edge(0, "to-b", 0, 1, vec![]));
    m.add_edge(edge(0, "to-c", 0, 2, vec![]));
    m.add_edge(edge(0, "c-to-a", 2, 0, vec![]));
    m.add_edge(edge(0, "c-to-c", 2, 2, vec![]));

    m.delete_node(NodeId::from_index(1));

    assert_eq!(m.nodes().len(), 2);
    assert_eq!(m.get_node(&NodeId::from_index(1)).unwrap().name(), "c");
    assert_eq!(m.all_edges().len(), 3);
    assert_eq!(m.all_edges()[0].name(), "to-c");
    assert_eq!(m.all_edges()[0].from_node_id().as_index(), 0);
    assert_eq!(m.all_edges()[0].to_node_id().as_index(), 1);
    assert_eq!(m.all_edges()[1].name(), "c-to-a");
    assert_eq!(m.all_edges()[1].from_node_id().as_index(), 1);
    assert_eq!(m.all_edges()[1].to_node_id().as_index(), 0);
    assert_eq!(m.all_edges()[2].name(), "c-to-c");
    assert_eq!(m.all_edges()[2].from_node_id().as_index(), 1);
    assert_eq!(m.all_edges()[2].to_node_id().as_index(), 1);
}

#[test]
fn delete_highest_node_does_not_relabel() {
    let mut m = Model::new();
    m.add_node(Node::new("a".to_string()));
    m.add_node(Node::new("b".to_string()));
    m.add_edge(edge(0, "a-to-b", 0, 1, vec![]));
    m.add_edge(edge(0, "a-to-a", 0, 0, vec![]));

    m.delete_node(NodeId::from_index(1));

    assert_eq!(m.nodes().len(), 1);
    assert_eq!(m.get_node(&NodeId::from_index(0)).unwrap().name(), "a");
    assert_eq!(m.all_edges().len(), 1);
    assert_eq!(m.all_edges()[0].name(), "a-to-a");
}

#[test]
fn edges_from_node_filters_and_preserves_order() {
    let mut m = Model::new();
    m.add_node(Node::new("a".to_string()));
    m.add_node(Node::new("b".to_string()));
    m.add_edge(edge(0, "first", 0, 1, vec![]));
    m.add_edge(edge(0, "other", 1, 0, vec![]));
    m.add_edge(edge(0, "second", 0, 0, vec![]));

    let from_a = m.edges_from_node(&NodeId::from_index(0));
    assert_eq!(from_a.len(), 2);
    assert_eq!(from_a[0].name(), "first");
    assert_eq!(from_a[1].name(), "second");

    let from_b = m.edges_from_node(&NodeId::from_index(1));
    assert_eq!(from_b.len(), 1);
    assert_eq!(from_b[0].name(), "other");
}

#[test]
fn operand_evaluates_standard_integer_comparisons() {
    assert!(Operand::Equal.evaluate(2, 2));
    assert!(!Operand::Equal.evaluate(2, 3));
    assert!(Operand::Greater.evaluate(3, 2));
    assert!(!Operand::Greater.evaluate(2, 2));
    assert!(Operand::GreaterOrEqual.evaluate(2, 2));
    assert!(!Operand::GreaterOrEqual.evaluate(1, 2));
    assert!(Operand::Less.evaluate(1, 2));
    assert!(!Operand::Less.evaluate(2, 2));
    assert!(Operand::LessOrEqual.evaluate(2, 2));
    assert!(!Operand::LessOrEqual.evaluate(3, 2));
    assert!(Operand::Different.evaluate(1, 2));
    assert!(!Operand::Different.evaluate(2, 2));
}

#[test]
fn transition_requires_matching_source() {
    let e = edge(
        0,
        "alive-stays",
        1,
        0,
        vec![Condition {
            left: Value::PopulationCount(NodeId::from_index(1)),
            operand: Operand::Less,
            right: Value::Absolute(2),
        }],
    );
    let sm = histogram_with_alive(1);
    assert_eq!(e.transition(NodeId::from_index(1), &sm), Some(NodeId::from_index(0)));
    assert_eq!(e.transition(NodeId::from_index(0), &sm), None);
    let sm_busy = histogram_with_alive(2);
    assert_eq!(e.transition(NodeId::from_index(1), &sm_busy), None);
}

#[test]
fn condition_operands_are_readable() {
    let c = Condition {
        left: Value::PopulationCount(NodeId::from_index(4)),
        operand: Operand::Different,
        right: Value::Absolute(7),
    };
    assert!(matches!(c.left(), Value::PopulationCount(id) if id.as_index() == 4));
    assert!(matches!(c.right(), Value::Absolute(7)));
    let e = edge(3, "probe", 0, 1, vec![c]);
    assert_eq!(e.conditions().len(), 1);
    assert_eq!(e.name(), "probe");
}

#[test]
fn node_identifiers_round_trip() {
    let id = NodeId::from_index(42);
    assert_eq!(id.as_index(), 42);
    let n = Node::new("Quiescent".to_string());
    assert_eq!(n.name(), "Quiescent");
}
