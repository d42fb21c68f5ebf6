use vstd::prelude::*;

use crate::engine::{
    anchor_count, class_live, Call, Direction, Engine, Scalar,
};
use crate::flags::{DockNodeFlags, PASSTHRU_CENTRAL_NODE_BITS};

verus! {

/// Dockspace data: owns one window-class resource of the engine for the
/// lifetime of the builder value, carries the flag set to anchor with, and
/// anchors a dockspace covering the viewport. The owned resource is
/// released by [`DockSpace::release`], exactly once; every method keeps it
/// allocated until then.
pub struct DockSpace {
    id: String,
    flags: DockNodeFlags,
    window_class: u32,
}

impl DockSpace {
    /// The label this dockspace was constructed with.
    pub closed spec fn spec_id(self) -> Seq<char> {
        self.id@
    }

    /// The flag set the anchor call will carry.
    pub closed spec fn spec_flags(self) -> DockNodeFlags {
        self.flags
    }

    /// The handle of the window-class resource this builder owns.
    pub closed spec fn spec_class(self) -> u32 {
        self.window_class
    }

    /// The builder's owned window-class resource is currently allocated in
    /// the engine: established by [`DockSpace::new`], kept by every method,
    /// and given up only by [`DockSpace::release`].
    pub open spec fn valid(self, e: Engine) -> bool {
        class_live(e.log(), self.spec_class())
    }

    /// Allocates a fresh window-class resource, owned by the returned
    /// builder, and defaults the flags to passthru-central-node. Issues
    /// exactly one allocation call.
    pub fn new(engine: &mut Engine, id: String) -> (r: DockSpace)
        requires
            old(engine).wf(),
            old(engine).classes_issued() < u32::MAX,
        ensures
            final(engine).wf(),
            r.spec_id() == id@,
            r.spec_flags().spec_bits() == PASSTHRU_CENTRAL_NODE_BITS,
            r.spec_class() == old(engine).classes_issued(),
            final(engine).log() == old(engine).log().push(
                (Call::AllocWindowClass { class: r.spec_class() }),
            ),
            final(engine).classes_issued() == old(engine).classes_issued() + 1,
            final(engine).nodes_issued() == old(engine).nodes_issued(),
            r.valid(*final(engine)),
            forall|c: u32|
                #[trigger] class_live(old(engine).log(), c) ==> class_live(final(engine).log(), c),
    {
        let window_class = engine.alloc_window_class();
        DockSpace { id, flags: DockNodeFlags::passthru_central_node(), window_class }
    }

    /// Replaces the flag set, consuming and returning the builder for
    /// chained configuration. The owned resource and the label are kept.
    pub fn flags(self, flags: DockNodeFlags) -> (r: Self)
        ensures
            r.spec_flags() == flags,
            r.spec_id() == self.spec_id(),
            r.spec_class() == self.spec_class(),
    {
        DockSpace { id: self.id, flags, window_class: self.window_class }
    }

    /// Issues exactly one call anchoring a dockspace covering the current
    /// viewport, passing the current flags and the owned window-class
    /// resource, and returns the builder unchanged for further chaining.
    pub fn over_viewport(self, engine: &mut Engine) -> (r: Self)
        requires
            old(engine).wf(),
            self.valid(*old(engine)),
        ensures
            final(engine).wf(),
            r == self,
            final(engine).log() == old(engine).log().push(
                (Call::AnchorDockSpace { flags: self.spec_flags(), class: self.spec_class() }),
            ),
            final(engine).classes_issued() == old(engine).classes_issued(),
            final(engine).nodes_issued() == old(engine).nodes_issued(),
            r.valid(*final(engine)),
            forall|c: u32|
                #[trigger] class_live(old(engine).log(), c) ==> class_live(final(engine).log(), c),
    {
        engine.anchor_dockspace(self.flags, self.window_class);
        self
    }

    /// Releases the owned window-class resource: issues exactly one
    /// destruction call for it and consumes the builder, so no further
    /// call can pass the resource and no second release is possible.
    pub fn release(self, engine: &mut Engine)
        requires
            old(engine).wf(),
            self.valid(*old(engine)),
        ensures
            final(engine).wf(),
            final(engine).log() == old(engine).log().push(
                (Call::DestroyWindowClass { class: self.spec_class() }),
            ),
            final(engine).classes_issued() == old(engine).classes_issued(),
            final(engine).nodes_issued() == old(engine).nodes_issued(),
            !class_live(final(engine).log(), self.spec_class()),
            forall|c: u32|
                c != self.spec_class() && #[trigger] class_live(old(engine).log(), c)
                    ==> class_live(final(engine).log(), c),
    {
        engine.destroy_window_class(self.window_class);
    }
}

impl PartialEq for DockSpace {
    /// Value equality of two builders: same label, same flags, same owned
    /// resource handle. It does not imply shared ownership.
    fn eq(&self, other: &Self) -> bool {
        self.id == other.id && self.flags == other.flags && self.window_class
            == other.window_class
    }
}

impl vstd::std_specs::cmp::PartialEqSpecImpl for DockSpace {
    open spec fn obeys_eq_spec() -> bool {
        true
    }

    closed spec fn eq_spec(&self, other: &Self) -> bool {
        self.id@ == other.id@ && self.flags == other.flags && self.window_class
            == other.window_class
    }
}

/// A non-owning reference to a dock node: wraps the identifier the engine
/// issued for the node, by value. Dropping a wrapper has no effect on the
/// node; two wrappers are equal exactly when their identifiers are.
#[derive(Clone, Copy, Debug, PartialEq, Eq, Structural)]
pub struct DockNode {
    id: u32,
}

impl DockNode {
    /// The identifier this wrapper stands for.
    pub closed spec fn spec_id(self) -> u32 {
        self.id
    }

    /// The wrapper around the identifier `id`.
    pub closed spec fn spec_new(id: u32) -> DockNode {
        DockNode { id }
    }

    /// Wraps the dock-node identifier `id`.
    pub fn new(id: u32) -> (r: Self)
        ensures
            r == DockNode::spec_new(id),
            r.spec_id() == id,
    {
        DockNode { id }
    }

    /// Wrappers carry their identifier and nothing else: two wrappers are
    /// equal exactly when they wrap the same identifier, and wrapping an
    /// identifier gives back the wrapper with that identifier.
    pub proof fn lemma_identity(a: DockNode, b: DockNode)
        ensures
            (a == b) <==> (a.spec_id() == b.spec_id()),
            DockNode::spec_new(a.spec_id()) == a,
    {
    }

    /// Issues exactly one call setting this node's size, and returns the
    /// wrapper unchanged for chaining.
    pub fn size(self, engine: &mut Engine, size: [Scalar; 2]) -> (r: Self)
        requires
            old(engine).wf(),
        ensures
            final(engine).wf(),
            r == self,
            final(engine).log() == old(engine).log().push(
                (Call::SetNodeSize { node: self.spec_id(), width: size[0], height: size[1] }),
            ),
            final(engine).classes_issued() == old(engine).classes_issued(),
            final(engine).nodes_issued() == old(engine).nodes_issued(),
            forall|c: u32|
                #[trigger] class_live(old(engine).log(), c) ==> class_live(final(engine).log(), c),
    {
        engine.set_node_size(self.id, size[0], size[1]);
        self
    }

    /// Issues exactly one call setting this node's position, and returns
    /// the wrapper unchanged for chaining.
    pub fn position(self, engine: &mut Engine, position: [Scalar; 2]) -> (r: Self)
        requires
            old(engine).wf(),
        ensures
            final(engine).wf(),
            r == self,
            final(engine).log() == old(engine).log().push(
                (Call::SetNodePos { node: self.spec_id(), x: position[0], y: position[1] }),
            ),
            final(engine).classes_issued() == old(engine).classes_issued(),
            final(engine).nodes_issued() == old(engine).nodes_issued(),
            forall|c: u32|
                #[trigger] class_live(old(engine).log(), c) ==> class_live(final(engine).log(), c),
    {
        engine.set_node_pos(self.id, position[0], position[1]);
        self
    }

    /// Issues exactly one call assigning the window named `window_name` to
    /// this node, and returns the wrapper unchanged for chaining.
    pub fn dock_window(self, engine: &mut Engine, window_name: String) -> (r: Self)
        requires
            old(engine).wf(),
        ensures
            final(engine).wf(),
            r == self,
            final(engine).log() == old(engine).log().push(
                (Call::DockWindow { node: self.spec_id(), window: window_name }),
            ),
            final(engine).classes_issued() == old(engine).classes_issued(),
            final(engine).nodes_issued() == old(engine).nodes_issued(),
            forall|c: u32|
                #[trigger] class_live(old(engine).log(), c) ==> class_live(final(engine).log(), c),
    {
        engine.assign_window(window_name, self.id);
        self
    }

    /// Issues exactly one call splitting this node along `split_dir` at
    /// the given size ratio. The split produces two fresh, distinct
    /// identifiers — the primary side first, the opposite side second —
    /// and the two callbacks are invoked synchronously, `dir` strictly
    /// before `opposite_dir`, each exactly once, each with the wrapper of
    /// its own identifier. The callbacks receive the engine in turn and
    /// hand it back; the final engine is whatever `opposite_dir` returns.
    pub fn split<D: FnOnce(DockNode, Engine) -> Engine, O: FnOnce(DockNode, Engine) -> Engine>(
        self,
        engine: Engine,
        split_dir: Direction,
        size_ratio: Scalar,
        dir: D,
        opposite_dir: O,
    ) -> (out: Engine)
        requires
            engine.wf(),
            engine.nodes_issued() + 2 <= u32::MAX,
            forall|n: DockNode, e: Engine| e.wf() ==> #[trigger] call_requires(dir, (n, e)),
            forall|n: DockNode, e: Engine, r: Engine|
                e.wf() && #[trigger] call_ensures(dir, (n, e), r) ==> r.wf(),
            forall|n: DockNode, e: Engine| e.wf() ==> #[trigger] call_requires(
                opposite_dir,
                (n, e),
            ),
            forall|n: DockNode, e: Engine, r: Engine|
                e.wf() && #[trigger] call_ensures(opposite_dir, (n, e), r) ==> r.wf(),
        ensures
            out.wf(),
            exists|split_done: Engine, mid: Engine|
                {
                    &&& split_done.wf()
                    &&& split_done.log() == engine.log().push(
                        (Call::SplitNode {
                            node: self.spec_id(),
                            direction: split_dir,
                            ratio: size_ratio,
                            primary: engine.nodes_issued(),
                            opposite: (engine.nodes_issued() + 1) as u32,
                        }),
                    )
                    &&& split_done.classes_issued() == engine.classes_issued()
                    &&& split_done.nodes_issued() == engine.nodes_issued() + 2
                    &&& #[trigger] call_ensures(
                        dir,
                        (DockNode::spec_new(engine.nodes_issued()), split_done),
                        mid,
                    )
                    &&& mid.wf()
                    &&& #[trigger] call_ensures(
                        opposite_dir,
                        (DockNode::spec_new((engine.nodes_issued() + 1) as u32), mid),
                        out,
                    )
                },
    {
        let mut e = engine;
        let ids = e.split_node(self.id, split_dir, size_ratio);
        let ghost split_done = e;
        let mid = dir(DockNode::new(ids.0), e);
        let ghost midg = mid;
        let out = opposite_dir(DockNode::new(ids.1), mid);
        proof {
            assert(ids.0 == engine.nodes_issued());
            assert(ids.1 == (engine.nodes_issued() + 1) as u32);
            assert(call_ensures(
                dir,
                (DockNode::spec_new(engine.nodes_issued()), split_done),
                midg,
            ));
            assert(call_ensures(
                opposite_dir,
                (DockNode::spec_new((engine.nodes_issued() + 1) as u32), midg),
                out,
            ));
        }
        out
    }
}

/// A builder entry point: allocates a new native root dock node, hands a
/// [`DockNode`] reference to a caller-supplied callback, and finalizes the
/// node afterward. The sole entry point for constructing a docking layout
/// tree.
pub struct Dock {}

impl Dock {
    /// A fresh builder entry point. It carries no state of its own.
    pub fn new() -> (r: Self) {
        Dock {  }
    }

    /// Issues exactly one call allocating a root dock node, with no flags
    /// set; invokes `f` exactly once, synchronously, with the wrapper of
    /// that node's identifier; then issues exactly one finalize call on
    /// the same identifier, strictly after `f` has returned. The callback
    /// receives the engine and hands it back; the finalize call is
    /// recorded after everything the callback recorded.
    pub fn build<F: FnOnce(DockNode, Engine) -> Engine>(self, engine: Engine, f: F) -> (out:
        Engine)
        requires
            engine.wf(),
            engine.nodes_issued() < u32::MAX,
            forall|n: DockNode, e: Engine| e.wf() ==> #[trigger] call_requires(f, (n, e)),
            forall|n: DockNode, e: Engine, r: Engine|
                e.wf() && #[trigger] call_ensures(f, (n, e), r) ==> r.wf(),
        ensures
            out.wf(),
            exists|root_open: Engine, mid: Engine|
                {
                    &&& root_open.wf()
                    &&& root_open.log() == engine.log().push(
                        (Call::AddRootNode {
                            flags: DockNodeFlags::spec_empty(),
                            node: engine.nodes_issued(),
                        }),
                    )
                    &&& root_open.classes_issued() == engine.classes_issued()
                    &&& root_open.nodes_issued() == engine.nodes_issued() + 1
                    &&& #[trigger] call_ensures(
                        f,
                        (DockNode::spec_new(engine.nodes_issued()), root_open),
                        mid,
                    )
                    &&& mid.wf()
                    &&& out.log() == mid.log().push(
                        (Call::FinalizeNode { node: engine.nodes_issued() }),
                    )
                    &&& out.classes_issued() == mid.classes_issued()
                    &&& out.nodes_issued() == mid.nodes_issued()
                },
    {
        let mut e = engine;
        let root = e.add_root_node(DockNodeFlags::empty());
        let ghost root_open = e;
        let mid = f(DockNode::new(root), e);
        let ghost midg = mid;
        let mut out = mid;
        out.finalize_node(root);
        proof {
            assert(call_ensures(f, (DockNode::spec_new(root), root_open), midg));
        }
        out
    }
}

/// Anchoring forwards the configured flag set unchanged: recording the
/// anchor call for flag set `f` adds exactly one anchor call to the
/// history, that call is its last, it carries exactly `f`, and every
/// earlier call is untouched. Since a builder configured by
/// [`DockSpace::flags`] holds exactly the flag set it was given, this
/// holds of every combination of the six options.
pub proof fn lemma_anchor_forwards_flags(log: Seq<Call>, f: DockNodeFlags, class: u32)
    ensures
        anchor_count(log.push((Call::AnchorDockSpace { flags: f, class }))) == anchor_count(log)
            + 1,
        log.push((Call::AnchorDockSpace { flags: f, class })).last() == (Call::AnchorDockSpace {
            flags: f,
            class,
        }),
        forall|i: int|
            0 <= i < log.len() ==> log.push((Call::AnchorDockSpace { flags: f, class }))[i]
                == log[i],
{
    let log2 = log.push(Call::AnchorDockSpace { flags: f, class });
    assert(log2.drop_last() =~= log);
}

/// A builder that was never reconfigured anchors with the default flag
/// set: a fresh builder holds passthru-central-node, and after its
/// allocation call and its anchor call the history holds exactly one more
/// anchor call, carrying that default.
pub proof fn lemma_fresh_builder_anchors_default(log: Seq<Call>, f: DockNodeFlags, class: u32)
    requires
        f.spec_bits() == PASSTHRU_CENTRAL_NODE_BITS,
    ensures
        ({
            let log2 = log.push((Call::AllocWindowClass { class })).push(
                (Call::AnchorDockSpace { flags: f, class }),
            );
            &&& anchor_count(log2) == anchor_count(log) + 1
            &&& log2.last() == (Call::AnchorDockSpace { flags: f, class })
        }),
{
    let log1 = log.push(Call::AllocWindowClass { class });
    assert(log1.drop_last() =~= log);
    lemma_anchor_forwards_flags(log1, f, class);
}

} // verus!
