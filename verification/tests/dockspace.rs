use dock_builder::dock::DockSpace;
use dock_builder::engine::{Call, Engine};
use dock_builder::flags::DockNodeFlags;

#[test]
fn flag_constants_have_their_bits() {
    assert_eq!(DockNodeFlags::empty().bits(), 0);
    assert_eq!(DockNodeFlags::keep_alive_only().bits(), 1);
    assert_eq!(DockNodeFlags::no_docking_in_central_node().bits(), 4);
    assert_eq!(DockNodeFlags::passthru_central_node().bits(), 8);
    assert_eq!(DockNodeFlags::no_split().bits(), 16);
    assert_eq!(DockNodeFlags::no_resize().bits(), 32);
    assert_eq!(DockNodeFlags::auto_hide_tab_bar().bits(), 64);
}

#[test]
fn flag_union_combines_bits() {
    let f = DockNodeFlags::no_split().union(DockNodeFlags::auto_hide_tab_bar());
    assert_eq!(f.bits(), 16 | 64);
    let all = DockNodeFlags::keep_alive_only()
        .union(DockNodeFlags::no_docking_in_central_node())
        .union(DockNodeFlags::passthru_central_node())
        .union(DockNodeFlags::no_split())
        .union(DockNodeFlags::no_resize())
        .union(DockNodeFlags::auto_hide_tab_bar());
    assert_eq!(all.bits(), 1 | 4 | 8 | 16 | 32 | 64);
    let idempotent = all.union(all);
    assert_eq!(idempotent, all);
}

#[test]
fn fresh_engine_has_no_calls() {
    let e = Engine::new();
    assert_eq!(e.calls().len(), 0);
}

#[test]
fn default_anchor_carries_passthru() {
    let mut e = Engine::new();
    let ds = DockSpace::new(&mut e, String::from("main dockspace"));
    let ds = ds.over_viewport(&mut e);
    ds.release(&mut e);
    let calls = e.calls();
    assert_eq!(calls.len(), 3);
    assert_eq!(calls[0], Call::AllocWindowClass { class: 0 });
    match &calls[1] {
        Call::AnchorDockSpace { flags, class } => {
            assert_eq!(flags.bits(), 8);
            assert_eq!(*class, 0);
        }
        other => panic!("expected an anchor call, got {:?}", other),
    }
    assert_eq!(calls[2], Call::DestroyWindowClass { class: 0 });
}

#[test]
fn configured_anchor_carries_exactly_the_given_flags() {
    let mut e = Engine::new();
    let f = DockNodeFlags::keep_alive_only().union(DockNodeFlags::no_resize());
    let ds = DockSpace::new(&mut e, String::from("side"));
    let ds = ds.flags(f).over_viewport(&mut e);
    ds.release(&mut e);
    match &e.calls()[1] {
        Call::AnchorDockSpace { flags, class } => {
            assert_eq!(flags.bits(), 1 | 32);
            assert_eq!(*class, 0);
        }
        other => panic!("expected an anchor call, got {:?}", other),
    }
}

#[test]
fn every_single_flag_is_forwarded() {
    let options = [
        DockNodeFlags::keep_alive_only(),
        DockNodeFlags::no_docking_in_central_node(),
        DockNodeFlags::passthru_central_node(),
        DockNodeFlags::no_split(),
        DockNodeFlags::no_resize(),
        DockNodeFlags::auto_hide_tab_bar(),
    ];
    for f in options {
        let mut e = Engine::new();
        let ds = DockSpace::new(&mut e, String::from("one"));
        let ds = ds.flags(f).over_viewport(&mut e);
        ds.release(&mut e);
        match &e.calls()[1] {
            Call::AnchorDockSpace { flags, .. } => assert_eq!(flags.bits(), f.bits()),
            other => panic!("expected an anchor call, got {:?}", other),
        }
    }
}

#[test]
fn window_class_allocated_then_destroyed_exactly_once() {
    let mut e = Engine::new();
    let ds = DockSpace::new(&mut e, String::from("root"));
    let ds = ds.over_viewport(&mut e);
    let ds = ds.over_viewport(&mut e);
    ds.release(&mut e);
    let mut allocs = 0;
    let mut destroys = 0;
    let mut first_alloc = None;
    let mut last_use = None;
    let mut destroy_at = None;
    for (i, c) in e.calls().iter().enumerate() {
        match c {
            Call::AllocWindowClass { class: 0 } => {
                allocs += 1;
                first_alloc.get_or_insert(i);
            }
            Call::DestroyWindowClass { class: 0 } => {
                destroys += 1;
                destroy_at = Some(i);
            }
            Call::AnchorDockSpace { class: 0, .. } => last_use = Some(i),
            _ => {}
        }
    }
    assert_eq!(allocs, 1);
    assert_eq!(destroys, 1);
    let first_alloc = first_alloc.unwrap();
    let last_use = last_use.unwrap();
    let destroy_at = destroy_at.unwrap();
    assert!(first_alloc < last_use);
    assert!(last_use < destroy_at);
    assert_eq!(destroy_at, e.calls().len() - 1);
}

#[test]
fn two_dockspaces_own_distinct_resources() {
    let mut e = Engine::new();
    let a = DockSpace::new(&mut e, String::from("left"));
    let b = DockSpace::new(&mut e, String::from("right"));
    assert_eq!(e.calls()[0], Call::AllocWindowClass { class: 0 });
    assert_eq!(e.calls()[1], Call::AllocWindowClass { class: 1 });
    assert!(a == a);
    assert!(b == b);
    assert!(a != b);
    a.release(&mut e);
    b.release(&mut e);
    assert_eq!(e.calls()[2], Call::DestroyWindowClass { class: 0 });
    assert_eq!(e.calls()[3], Call::DestroyWindowClass { class: 1 });
}
