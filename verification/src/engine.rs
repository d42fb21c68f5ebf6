use vstd::prelude::*;

use crate::flags::DockNodeFlags;

verus! {

/// A screen-space quantity (a coordinate, an extent, or a split ratio),
/// carried opaquely as the bit pattern of an IEEE-754 single-precision
/// value. The layer never interprets these quantities; it forwards them to
/// the engine unchanged, so it holds only their bits.
#[derive(Clone, Copy, Debug, PartialEq, Eq, Structural)]
pub struct Scalar {
    /// The IEEE-754 single-precision bit pattern of the quantity.
    pub bits: u32,
}

impl Scalar {
    /// Wraps a raw IEEE-754 single-precision bit pattern.
    pub fn from_bits(bits: u32) -> (r: Self)
        ensures
            r.bits == bits,
    {
        Scalar { bits }
    }
}

/// The four directions a dock node can be split toward.
#[derive(Clone, Copy, Debug, PartialEq, Eq, Structural)]
pub enum Direction {
    Left,
    Right,
    Up,
    Down,
}

/// One call of the engine's docking interface, as the engine records it.
/// Window-class resources and dock nodes are named by the integer handles
/// the engine issued for them.
#[derive(Debug, PartialEq)]
pub enum Call {
    /// Allocate a window-class resource; `class` is the handle issued.
    AllocWindowClass { class: u32 },
    /// Destroy the window-class resource named by `class`.
    DestroyWindowClass { class: u32 },
    /// Anchor a dockspace covering the current viewport, with the given
    /// flags and window class.
    AnchorDockSpace { flags: DockNodeFlags, class: u32 },
    /// Allocate a root dock node with the given flags; `node` is the
    /// identifier issued.
    AddRootNode { flags: DockNodeFlags, node: u32 },
    /// Finalize the dock node named by `node`.
    FinalizeNode { node: u32 },
    /// Set the size of the node named by `node`.
    SetNodeSize { node: u32, width: Scalar, height: Scalar },
    /// Set the position of the node named by `node`.
    SetNodePos { node: u32, x: Scalar, y: Scalar },
    /// Assign the window named `window` to the node named by `node`.
    DockWindow { node: u32, window: String },
    /// Split the node named by `node` along `direction` at `ratio`;
    /// `primary` and `opposite` are the two identifiers issued for the
    /// halves.
    SplitNode { node: u32, direction: Direction, ratio: Scalar, primary: u32, opposite: u32 },
}

/// The window-class handle a call is about, if it is about one.
pub open spec fn class_of(c: Call) -> Option<u32> {
    match c {
        Call::AllocWindowClass { class } => Some(class),
        Call::DestroyWindowClass { class } => Some(class),
        Call::AnchorDockSpace { flags: _, class } => Some(class),
        _ => None,
    }
}

/// Whether `c` allocates the window class named `class`.
pub open spec fn is_alloc(c: Call, class: u32) -> bool {
    match c {
        Call::AllocWindowClass { class: x } => x == class,
        _ => false,
    }
}

/// Whether `c` destroys the window class named `class`.
pub open spec fn is_destroy(c: Call, class: u32) -> bool {
    match c {
        Call::DestroyWindowClass { class: x } => x == class,
        _ => false,
    }
}

/// Whether `c` is about the window class named `class` at all: its
/// allocation, its destruction, or an anchor call passing it.
pub open spec fn touches_class(c: Call, class: u32) -> bool {
    class_of(c) == Some(class)
}

/// Whether `c` anchors a dockspace over the viewport.
pub open spec fn is_anchor(c: Call) -> bool {
    match c {
        Call::AnchorDockSpace { .. } => true,
        _ => false,
    }
}

/// Whether some call before position `k` of `log` allocates `class`.
pub open spec fn allocated_before(log: Seq<Call>, class: u32, k: int) -> bool {
    exists|j: int| 0 <= j < k && is_alloc(#[trigger] log[j], class)
}

/// The window class named `class` is allocated at most once in `log`.
pub open spec fn allocs_at_most_once(log: Seq<Call>, class: u32) -> bool {
    forall|i: int, j: int|
        #![trigger is_alloc(log[i], class), is_alloc(log[j], class)]
        0 <= i < log.len() && 0 <= j < log.len() && is_alloc(log[i], class) && is_alloc(
            log[j],
            class,
        ) ==> i == j
}

/// Every call of `log` about the window class named `class`, other than
/// its allocation, comes after its allocation.
pub open spec fn uses_follow_alloc(log: Seq<Call>, class: u32) -> bool {
    forall|k: int|
        0 <= k < log.len() && touches_class(#[trigger] log[k], class) && !is_alloc(log[k], class)
            ==> allocated_before(log, class, k)
}

/// No call of `log` about the window class named `class` comes after its
/// destruction. In particular it is destroyed at most once.
pub open spec fn nothing_after_destroy(log: Seq<Call>, class: u32) -> bool {
    forall|i: int, k: int|
        #![trigger is_destroy(log[i], class), touches_class(log[k], class)]
        0 <= i < k < log.len() && is_destroy(log[i], class) ==> !touches_class(log[k], class)
}

/// The window-class lifecycle, for one class: allocated at most once, used
/// only after allocation, and never touched after destruction.
pub open spec fn class_wf(log: Seq<Call>, class: u32) -> bool {
    &&& allocs_at_most_once(log, class)
    &&& uses_follow_alloc(log, class)
    &&& nothing_after_destroy(log, class)
}

/// The window class named `class` is currently allocated in `log`: an
/// allocation call for it has been recorded and no destruction call has.
pub open spec fn class_live(log: Seq<Call>, class: u32) -> bool {
    &&& exists|j: int| 0 <= j < log.len() && is_alloc(#[trigger] log[j], class)
    &&& forall|j: int| 0 <= j < log.len() ==> !is_destroy(#[trigger] log[j], class)
}

/// Every window-class handle `c` names is below `bound`.
pub open spec fn class_bounded(c: Call, bound: u32) -> bool {
    match class_of(c) {
        Some(class) => class < bound,
        None => true,
    }
}

/// How many calls of `log` anchor a dockspace over the viewport.
pub open spec fn anchor_count(log: Seq<Call>) -> nat
    decreases log.len(),
{
    if log.len() == 0 {
        0
    } else {
        anchor_count(log.drop_last()) + if is_anchor(log.last()) {
            1nat
        } else {
            0nat
        }
    }
}

/// The engine's docking interface, modeled: it records every call issued,
/// in order, and issues the handles that allocation and split calls return.
/// Its invariant keeps the window-class lifecycle of every handle.
pub struct Engine {
    calls: Vec<Call>,
    classes_issued: u32,
    nodes_issued: u32,
}

impl Engine {
    /// The calls issued so far, in order.
    pub closed spec fn log(self) -> Seq<Call> {
        self.calls@
    }

    /// How many window-class handles have been issued; every handle in the
    /// log is below this count, so the next one is fresh.
    pub closed spec fn classes_issued(self) -> u32 {
        self.classes_issued
    }

    /// How many dock-node identifiers have been issued.
    pub closed spec fn nodes_issued(self) -> u32 {
        self.nodes_issued
    }

    /// The engine's invariant: every window-class handle in the log is one
    /// it issued, and every window class respects its lifecycle.
    pub closed spec fn wf(self) -> bool {
        &&& forall|i: int|
            0 <= i < self.log().len() ==> class_bounded(#[trigger] self.log()[i], self.classes_issued)
        &&& forall|c: u32| #[trigger] class_wf(self.log(), c)
    }

    /// An engine that has issued no call and no handle.
    pub fn new() -> (r: Engine)
        ensures
            r.wf(),
            r.log() == Seq::<Call>::empty(),
            r.classes_issued() == 0,
            r.nodes_issued() == 0,
    {
        Engine { calls: Vec::new(), classes_issued: 0, nodes_issued: 0 }
    }

    /// The calls issued so far, for inspection.
    pub fn calls(&self) -> (r: &Vec<Call>)
        ensures
            r@ == self.log(),
    {
        &self.calls
    }
}

/// Appending a call that is not about the window class named `class`
/// keeps that class's lifecycle intact.
proof fn lemma_push_untouched_class_wf(log: Seq<Call>, c0: Call, class: u32)
    requires
        class_wf(log, class),
        !touches_class(c0, class),
    ensures
        class_wf(log.push(c0), class),
{
    let log2 = log.push(c0);
    let n = log.len() as int;
    assert(allocs_at_most_once(log2, class)) by {
        assert forall|i: int, j: int|
            0 <= i < log2.len() && 0 <= j < log2.len() && #[trigger] is_alloc(log2[i], class)
                && #[trigger] is_alloc(log2[j], class) implies i == j by {
            assert(i < n && j < n);
            assert(is_alloc(log[i], class) && is_alloc(log[j], class));
        };
    };
    assert(uses_follow_alloc(log2, class)) by {
        assert forall|k: int|
            0 <= k < log2.len() && touches_class(#[trigger] log2[k], class) && !is_alloc(
                log2[k],
                class,
            ) implies allocated_before(log2, class, k) by {
            assert(k < n);
            assert(touches_class(log[k], class));
            let j = choose|j: int| 0 <= j < k && is_alloc(#[trigger] log[j], class);
            assert(is_alloc(log2[j], class));
        };
    };
    assert(nothing_after_destroy(log2, class)) by {
        assert forall|i: int, k: int|
            0 <= i < k < log2.len() && #[trigger] is_destroy(log2[i], class) implies !(
            #[trigger] touches_class(log2[k], class)) by {
            assert(i < n);
            assert(is_destroy(log[i], class));
            if k < n {
                assert(!touches_class(log[k], class));
            }
        };
    };
}

/// Appending the allocation call of a window class that no earlier call is
/// about gives that class a well-formed lifecycle and leaves it allocated.
proof fn lemma_push_alloc_class_wf(log: Seq<Call>, class: u32)
    requires
        forall|i: int| 0 <= i < log.len() ==> !touches_class(#[trigger] log[i], class),
    ensures
        class_wf(log.push(Call::AllocWindowClass { class }), class),
        class_live(log.push(Call::AllocWindowClass { class }), class),
{
    let c0 = Call::AllocWindowClass { class };
    let log2 = log.push(c0);
    let n = log.len() as int;
    assert(is_alloc(log2[n], class));
    assert(allocs_at_most_once(log2, class)) by {
        assert forall|i: int, j: int|
            0 <= i < log2.len() && 0 <= j < log2.len() && #[trigger] is_alloc(log2[i], class)
                && #[trigger] is_alloc(log2[j], class) implies i == j by {
            if i < n {
                assert(!touches_class(log[i], class));
            }
            if j < n {
                assert(!touches_class(log[j], class));
            }
        };
    };
    assert(uses_follow_alloc(log2, class)) by {
        assert forall|k: int|
            0 <= k < log2.len() && touches_class(#[trigger] log2[k], class) && !is_alloc(
                log2[k],
                class,
            ) implies allocated_before(log2, class, k) by {
            if k < n {
                assert(!touches_class(log[k], class));
            }
        };
    };
    assert(nothing_after_destroy(log2, class)) by {
        assert forall|i: int, k: int|
            0 <= i < k < log2.len() && #[trigger] is_destroy(log2[i], class) implies !(
            #[trigger] touches_class(log2[k], class)) by {
            assert(i < n);
            assert(!touches_class(log[i], class));
        };
    };
}

/// Appending a call about a currently allocated window class — an anchor
/// passing it or its destruction — keeps its lifecycle intact.
proof fn lemma_push_live_use_class_wf(log: Seq<Call>, c0: Call, class: u32)
    requires
        class_wf(log, class),
        class_live(log, class),
        !is_alloc(c0, class),
    ensures
        class_wf(log.push(c0), class),
{
    let log2 = log.push(c0);
    let n = log.len() as int;
    assert(allocs_at_most_once(log2, class)) by {
        assert forall|i: int, j: int|
            0 <= i < log2.len() && 0 <= j < log2.len() && #[trigger] is_alloc(log2[i], class)
                && #[trigger] is_alloc(log2[j], class) implies i == j by {
            assert(i < n && j < n);
            assert(is_alloc(log[i], class) && is_alloc(log[j], class));
        };
    };
    assert(uses_follow_alloc(log2, class)) by {
        assert forall|k: int|
            0 <= k < log2.len() && touches_class(#[trigger] log2[k], class) && !is_alloc(
                log2[k],
                class,
            ) implies allocated_before(log2, class, k) by {
            let j = choose|j: int| 0 <= j < log.len() && is_alloc(#[trigger] log[j], class);
            if k < n {
                assert(touches_class(log[k], class));
                let j2 = choose|j2: int| 0 <= j2 < k && is_alloc(#[trigger] log[j2], class);
                assert(is_alloc(log2[j2], class));
            } else {
                assert(is_alloc(log2[j], class));
            }
        };
    };
    assert(nothing_after_destroy(log2, class)) by {
        assert forall|i: int, k: int|
            0 <= i < k < log2.len() && #[trigger] is_destroy(log2[i], class) implies !(
            #[trigger] touches_class(log2[k], class)) by {
            assert(i < n);
            assert(is_destroy(log[i], class));
            assert(false);
        };
    };
}

/// Appending a call that does not destroy the window class named `class`
/// leaves that class allocated if it was.
proof fn lemma_push_preserves_live(log: Seq<Call>, c0: Call, class: u32)
    requires
        class_live(log, class),
        !is_destroy(c0, class),
    ensures
        class_live(log.push(c0), class),
{
    let log2 = log.push(c0);
    let n = log.len() as int;
    let j = choose|j: int| 0 <= j < log.len() && is_alloc(#[trigger] log[j], class);
    assert(is_alloc(log2[j], class));
    assert forall|k: int| 0 <= k < log2.len() implies !is_destroy(#[trigger] log2[k], class) by {
        if k < n {
            assert(!is_destroy(log[k], class));
        }
    };
}

impl Engine {
    /// Issues a fresh window-class handle and records its allocation call.
    pub(crate) fn alloc_window_class(&mut self) -> (class: u32)
        requires
            old(self).wf(),
            old(self).classes_issued() < u32::MAX,
        ensures
            final(self).wf(),
            class == old(self).classes_issued(),
            final(self).log() == old(self).log().push((Call::AllocWindowClass { class })),
            final(self).classes_issued() == old(self).classes_issued() + 1,
            final(self).nodes_issued() == old(self).nodes_issued(),
            class_live(final(self).log(), class),
            forall|c: u32|
                #[trigger] class_live(old(self).log(), c) ==> class_live(final(self).log(), c),
    {
        let class = self.classes_issued;
        let c0 = Call::AllocWindowClass { class };
        self.calls.push(c0);
        self.classes_issued = class + 1;
        proof {
            let log = old(self).log();
            let log2 = self.log();
            assert forall|i: int| 0 <= i < log.len() implies !touches_class(
                #[trigger] log[i],
                class,
            ) by {
                assert(class_bounded(log[i], class));
            };
            lemma_push_alloc_class_wf(log, class);
            assert forall|cl: u32| #[trigger] class_wf(log2, cl) by {
                assert(class_wf(log, cl));
                if cl != class {
                    lemma_push_untouched_class_wf(log, c0, cl);
                }
            };
            assert forall|i: int| 0 <= i < log2.len() implies class_bounded(
                #[trigger] log2[i],
                self.classes_issued(),
            ) by {
                if i < log.len() {
                    assert(class_bounded(log[i], class));
                }
            };
            assert forall|c: u32| #[trigger] class_live(log, c) implies class_live(log2, c) by {
                lemma_push_preserves_live(log, c0, c);
            };
        }
        class
    }

    /// Records the destruction call of a currently allocated window class;
    /// afterwards the class is allocated no longer.
    pub(crate) fn destroy_window_class(&mut self, class: u32)
        requires
            old(self).wf(),
            class_live(old(self).log(), class),
        ensures
            final(self).wf(),
            final(self).log() == old(self).log().push((Call::DestroyWindowClass { class })),
            final(self).classes_issued() == old(self).classes_issued(),
            final(self).nodes_issued() == old(self).nodes_issued(),
            !class_live(final(self).log(), class),
            forall|c: u32|
                c != class && #[trigger] class_live(old(self).log(), c) ==> class_live(
                    final(self).log(),
                    c,
                ),
    {
        let c0 = Call::DestroyWindowClass { class };
        self.calls.push(c0);
        proof {
            let log = old(self).log();
            let log2 = self.log();
            assert forall|cl: u32| #[trigger] class_wf(log2, cl) by {
                assert(class_wf(log, cl));
                if cl == class {
                    lemma_push_live_use_class_wf(log, c0, cl);
                } else {
                    lemma_push_untouched_class_wf(log, c0, cl);
                }
            };
            let j = choose|j: int| 0 <= j < log.len() && is_alloc(#[trigger] log[j], class);
            assert(class_bounded(log[j], self.classes_issued()));
            assert forall|i: int| 0 <= i < log2.len() implies class_bounded(
                #[trigger] log2[i],
                self.classes_issued(),
            ) by {
                if i < log.len() {
                    assert(class_bounded(log[i], self.classes_issued()));
                }
            };
            assert(is_destroy(log2[log.len() as int], class));
            assert forall|c: u32|
                c != class && #[trigger] class_live(log, c) implies class_live(log2, c) by {
                lemma_push_preserves_live(log, c0, c);
            };
        }
    }

    /// Records the call that anchors a dockspace over the current viewport,
    /// passing the given flags and a currently allocated window class.
    pub(crate) fn anchor_dockspace(&mut self, flags: DockNodeFlags, class: u32)
        requires
            old(self).wf(),
            class_live(old(self).log(), class),
        ensures
            final(self).wf(),
            final(self).log() == old(self).log().push((Call::AnchorDockSpace { flags, class })),
            final(self).classes_issued() == old(self).classes_issued(),
            final(self).nodes_issued() == old(self).nodes_issued(),
            forall|c: u32|
                #[trigger] class_live(old(self).log(), c) ==> class_live(final(self).log(), c),
    {
        let c0 = Call::AnchorDockSpace { flags, class };
        self.calls.push(c0);
        proof {
            let log = old(self).log();
            let log2 = self.log();
            assert forall|cl: u32| #[trigger] class_wf(log2, cl) by {
                assert(class_wf(log, cl));
                if cl == class {
                    lemma_push_live_use_class_wf(log, c0, cl);
                } else {
                    lemma_push_untouched_class_wf(log, c0, cl);
                }
            };
            let j = choose|j: int| 0 <= j < log.len() && is_alloc(#[trigger] log[j], class);
            assert(class_bounded(log[j], self.classes_issued()));
            assert forall|i: int| 0 <= i < log2.len() implies class_bounded(
                #[trigger] log2[i],
                self.classes_issued(),
            ) by {
                if i < log.len() {
                    assert(class_bounded(log[i], self.classes_issued()));
                }
            };
            assert forall|c: u32| #[trigger] class_live(log, c) implies class_live(log2, c) by {
                lemma_push_preserves_live(log, c0, c);
            };
        }
    }

    /// Records a call that is about dock nodes only; such a call leaves
    /// every window class's state as it was.
    fn push_node_call(&mut self, c0: Call)
        requires
            old(self).wf(),
            class_of(c0) == None::<u32>,
        ensures
            final(self).wf(),
            final(self).log() == old(self).log().push(c0),
            final(self).classes_issued() == old(self).classes_issued(),
            final(self).nodes_issued() == old(self).nodes_issued(),
            forall|c: u32|
                #[trigger] class_live(old(self).log(), c) ==> class_live(final(self).log(), c),
    {
        let ghost g0 = c0;
        self.calls.push(c0);
        proof {
            let log = old(self).log();
            let log2 = self.log();
            assert forall|cl: u32| #[trigger] class_wf(log2, cl) by {
                assert(class_wf(log, cl));
                lemma_push_untouched_class_wf(log, g0, cl);
            };
            assert forall|i: int| 0 <= i < log2.len() implies class_bounded(
                #[trigger] log2[i],
                self.classes_issued(),
            ) by {
                if i < log.len() {
                    assert(class_bounded(log[i], self.classes_issued()));
                }
            };
            assert forall|c: u32| #[trigger] class_live(log, c) implies class_live(log2, c) by {
                lemma_push_preserves_live(log, g0, c);
            };
        }
    }

    /// Issues a fresh dock-node identifier and records the call that
    /// allocates a root dock node with the given flags.
    pub(crate) fn add_root_node(&mut self, flags: DockNodeFlags) -> (node: u32)
        requires
            old(self).wf(),
            old(self).nodes_issued() < u32::MAX,
        ensures
            final(self).wf(),
            node == old(self).nodes_issued(),
            final(self).log() == old(self).log().push((Call::AddRootNode { flags, node })),
            final(self).classes_issued() == old(self).classes_issued(),
            final(self).nodes_issued() == old(self).nodes_issued() + 1,
            forall|c: u32|
                #[trigger] class_live(old(self).log(), c) ==> class_live(final(self).log(), c),
    {
        let node = self.nodes_issued;
        self.push_node_call(Call::AddRootNode { flags, node });
        self.nodes_issued = node + 1;
        node
    }

    /// Records the call that finalizes the dock node named by `node`.
    pub(crate) fn finalize_node(&mut self, node: u32)
        requires
            old(self).wf(),
        ensures
            final(self).wf(),
            final(self).log() == old(self).log().push((Call::FinalizeNode { node })),
            final(self).classes_issued() == old(self).classes_issued(),
            final(self).nodes_issued() == old(self).nodes_issued(),
            forall|c: u32|
                #[trigger] class_live(old(self).log(), c) ==> class_live(final(self).log(), c),
    {
        self.push_node_call(Call::FinalizeNode { node });
    }

    /// Records the call that sets the size of the node named by `node`.
    pub(crate) fn set_node_size(&mut self, node: u32, width: Scalar, height: Scalar)
        requires
            old(self).wf(),
        ensures
            final(self).wf(),
            final(self).log() == old(self).log().push(
                (Call::SetNodeSize { node, width, height }),
            ),
            final(self).classes_issued() == old(self).classes_issued(),
            final(self).nodes_issued() == old(self).nodes_issued(),
            forall|c: u32|
                #[trigger] class_live(old(self).log(), c) ==> class_live(final(self).log(), c),
    {
        self.push_node_call(Call::SetNodeSize { node, width, height });
    }

    /// Records the call that sets the position of the node named by `node`.
    pub(crate) fn set_node_pos(&mut self, node: u32, x: Scalar, y: Scalar)
        requires
            old(self).wf(),
        ensures
            final(self).wf(),
            final(self).log() == old(self).log().push((Call::SetNodePos { node, x, y })),
            final(self).classes_issued() == old(self).classes_issued(),
            final(self).nodes_issued() == old(self).nodes_issued(),
            forall|c: u32|
                #[trigger] class_live(old(self).log(), c) ==> class_live(final(self).log(), c),
    {
        self.push_node_call(Call::SetNodePos { node, x, y });
    }

    /// Records the call that assigns the window named `window` to the node
    /// named by `node`.
    pub(crate) fn assign_window(&mut self, window: String, node: u32)
        requires
            old(self).wf(),
        ensures
            final(self).wf(),
            final(self).log() == old(self).log().push((Call::DockWindow { node, window })),
            final(self).classes_issued() == old(self).classes_issued(),
            final(self).nodes_issued() == old(self).nodes_issued(),
            forall|c: u32|
                #[trigger] class_live(old(self).log(), c) ==> class_live(final(self).log(), c),
    {
        self.push_node_call(Call::DockWindow { node, window });
    }

    /// Issues two fresh dock-node identifiers — first the primary side,
    /// then the opposite side — and records the call that splits the node
    /// named by `node` along `direction` at `ratio`.
    pub(crate) fn split_node(&mut self, node: u32, direction: Direction, ratio: Scalar) -> (ids: (
        u32,
        u32,
    ))
        requires
            old(self).wf(),
            old(self).nodes_issued() + 2 <= u32::MAX,
        ensures
            final(self).wf(),
            ids.0 == old(self).nodes_issued(),
            ids.1 == old(self).nodes_issued() + 1,
            final(self).log() == old(self).log().push(
                (Call::SplitNode { node, direction, ratio, primary: ids.0, opposite: ids.1 }),
            ),
            final(self).classes_issued() == old(self).classes_issued(),
            final(self).nodes_issued() == old(self).nodes_issued() + 2,
            forall|c: u32|
                #[trigger] class_live(old(self).log(), c) ==> class_live(final(self).log(), c),
    {
        let primary = self.nodes_issued;
        let opposite = primary + 1;
        self.push_node_call(Call::SplitNode { node, direction, ratio, primary, opposite });
        self.nodes_issued = primary + 2;
        (primary, opposite)
    }
}

/// In every history the engine keeps well-formed, each window class is
/// allocated at most once, every use of it follows its allocation, and
/// nothing about it — in particular no second destruction — follows its
/// destruction.
pub proof fn lemma_class_lifecycle(e: Engine, class: u32)
    requires
        e.wf(),
    ensures
        allocs_at_most_once(e.log(), class),
        uses_follow_alloc(e.log(), class),
        nothing_after_destroy(e.log(), class),
{
    assert(class_wf(e.log(), class));
}

} // verus!
