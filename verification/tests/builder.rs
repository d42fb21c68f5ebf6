use std::cell::Cell;

use dock_builder::dock::{Dock, DockNode};
use dock_builder::engine::{Call, Direction, Engine, Scalar};

#[test]
fn node_wrappers_compare_by_identifier() {
    assert!(DockNode::new(5) == DockNode::new(5));
    assert!(DockNode::new(5) != DockNode::new(6));
    let copy = DockNode::new(9);
    assert_eq!(copy, copy);
}

#[test]
fn build_allocates_invokes_and_finalizes_in_order() {
    let e = Engine::new();
    let mut seen = None;
    let out = Dock::new().build(e, |node, e2| {
        seen = Some(node);
        e2
    });
    assert_eq!(seen, Some(DockNode::new(0)));
    let calls = out.calls();
    assert_eq!(calls.len(), 2);
    match &calls[0] {
        Call::AddRootNode { flags, node } => {
            assert_eq!(flags.bits(), 0);
            assert_eq!(*node, 0);
        }
        other => panic!("expected a root allocation, got {:?}", other),
    }
    assert_eq!(calls[1], Call::FinalizeNode { node: 0 });
}

#[test]
fn finalize_comes_after_everything_the_callback_issued() {
    let e = Engine::new();
    let out = Dock::new().build(e, |node, mut e2| {
        let node = node.dock_window(&mut e2, String::from("log"));
        node.dock_window(&mut e2, String::from("console"));
        e2
    });
    let calls = out.calls();
    assert_eq!(calls.len(), 4);
    assert!(matches!(calls[0], Call::AddRootNode { .. }));
    assert_eq!(
        calls[1],
        Call::DockWindow { node: 0, window: String::from("log") }
    );
    assert_eq!(
        calls[2],
        Call::DockWindow { node: 0, window: String::from("console") }
    );
    assert_eq!(calls[3], Call::FinalizeNode { node: 0 });
}

#[test]
fn size_and_position_forward_their_bit_patterns() {
    let mut e = Engine::new();
    let node = DockNode::new(3);
    let node = node.size(
        &mut e,
        [
            Scalar::from_bits(800f32.to_bits()),
            Scalar::from_bits(600f32.to_bits()),
        ],
    );
    node.position(
        &mut e,
        [
            Scalar::from_bits(10.5f32.to_bits()),
            Scalar::from_bits(0f32.to_bits()),
        ],
    );
    let calls = e.calls();
    assert_eq!(calls.len(), 2);
    match &calls[0] {
        Call::SetNodeSize { node, width, height } => {
            assert_eq!(*node, 3);
            assert_eq!(f32::from_bits(width.bits), 800.0);
            assert_eq!(f32::from_bits(height.bits), 600.0);
        }
        other => panic!("expected a size call, got {:?}", other),
    }
    match &calls[1] {
        Call::SetNodePos { node, x, y } => {
            assert_eq!(*node, 3);
            assert_eq!(f32::from_bits(x.bits), 10.5);
            assert_eq!(f32::from_bits(y.bits), 0.0);
        }
        other => panic!("expected a position call, got {:?}", other),
    }
}

#[test]
fn split_issues_one_call_and_runs_primary_before_opposite() {
    let e = Engine::new();
    let order = Cell::new(0u32);
    let primary_ran_at = Cell::new(0u32);
    let opposite_ran_at = Cell::new(0u32);
    let primary_node = Cell::new(None);
    let opposite_node = Cell::new(None);
    let out = DockNode::new(0).split(
        e,
        Direction::Left,
        Scalar::from_bits(0.5f32.to_bits()),
        |node, e2| {
            order.set(order.get() + 1);
            primary_ran_at.set(order.get());
            primary_node.set(Some(node));
            e2
        },
        |node, e2| {
            order.set(order.get() + 1);
            opposite_ran_at.set(order.get());
            opposite_node.set(Some(node));
            e2
        },
    );
    assert_eq!(primary_ran_at.get(), 1);
    assert_eq!(opposite_ran_at.get(), 2);
    let calls = out.calls();
    assert_eq!(calls.len(), 1);
    match &calls[0] {
        Call::SplitNode { node, direction, ratio, primary, opposite } => {
            assert_eq!(*node, 0);
            assert_eq!(*direction, Direction::Left);
            assert_eq!(f32::from_bits(ratio.bits), 0.5);
            assert_ne!(*primary, *opposite);
            assert_eq!(primary_node.get(), Some(DockNode::new(*primary)));
            assert_eq!(opposite_node.get(), Some(DockNode::new(*opposite)));
        }
        other => panic!("expected a split call, got {:?}", other),
    }
}

#[test]
fn nested_layout_records_calls_in_program_order() {
    let e = Engine::new();
    let out = Dock::new().build(e, |root, e2| {
        root.split(
            e2,
            Direction::Up,
            Scalar::from_bits(0.25f32.to_bits()),
            |top, mut e3| {
                top.dock_window(&mut e3, String::from("toolbar"));
                e3
            },
            |rest, mut e3| {
                rest.dock_window(&mut e3, String::from("viewport"));
                e3
            },
        )
    });
    let calls = out.calls();
    assert_eq!(calls.len(), 5);
    assert!(matches!(calls[0], Call::AddRootNode { node: 0, .. }));
    match &calls[1] {
        Call::SplitNode { node, direction, primary, opposite, .. } => {
            assert_eq!(*node, 0);
            assert_eq!(*direction, Direction::Up);
            assert_eq!(*primary, 1);
            assert_eq!(*opposite, 2);
        }
        other => panic!("expected a split call, got {:?}", other),
    }
    assert_eq!(
        calls[2],
        Call::DockWindow { node: 1, window: String::from("toolbar") }
    );
    assert_eq!(
        calls[3],
        Call::DockWindow { node: 2, window: String::from("viewport") }
    );
    assert_eq!(calls[4], Call::FinalizeNode { node: 0 });
}
