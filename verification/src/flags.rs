use vstd::prelude::*;

verus! {

/// Bit value of the option that keeps all docked items alive even when hidden.
pub const KEEP_ALIVE_ONLY_BITS: u32 = 1;

/// Bit value of the option that disables docking in the central node.
pub const NO_DOCKING_IN_CENTRAL_NODE_BITS: u32 = 4;

/// Bit value of the option that draws the whole dockspace background through
/// the central node. This is the default configuration of a new dockspace.
pub const PASSTHRU_CENTRAL_NODE_BITS: u32 = 8;

/// Bit value of the option that disables further splitting of child nodes.
pub const NO_SPLIT_BITS: u32 = 16;

/// Bit value of the option that disables resizing of child nodes.
pub const NO_RESIZE_BITS: u32 = 32;

/// Bit value of the option that automatically hides the tab bar of docked
/// nodes.
pub const AUTO_HIDE_TAB_BAR_BITS: u32 = 64;

/// Configuration flags for docking: a bitmask of six independently
/// combinable options, forwarded to the engine unchanged.
#[derive(Clone, Copy, Debug, PartialEq, Eq, Structural)]
pub struct DockNodeFlags {
    bits: u32,
}

impl DockNodeFlags {
    /// The raw bitmask this flag set stands for.
    pub closed spec fn spec_bits(self) -> u32 {
        self.bits
    }

    /// The empty flag set, as a value for specifications.
    pub closed spec fn spec_empty() -> DockNodeFlags {
        DockNodeFlags { bits: 0 }
    }

    /// The empty flag set.
    pub fn empty() -> (r: Self)
        ensures
            r == DockNodeFlags::spec_empty(),
            r.spec_bits() == 0,
    {
        DockNodeFlags { bits: 0 }
    }

    /// Keep all docked items even if not visible.
    pub fn keep_alive_only() -> (r: Self)
        ensures
            r.spec_bits() == KEEP_ALIVE_ONLY_BITS,
    {
        DockNodeFlags { bits: KEEP_ALIVE_ONLY_BITS }
    }

    /// Disable docking in the central node.
    pub fn no_docking_in_central_node() -> (r: Self)
        ensures
            r.spec_bits() == NO_DOCKING_IN_CENTRAL_NODE_BITS,
    {
        DockNodeFlags { bits: NO_DOCKING_IN_CENTRAL_NODE_BITS }
    }

    /// Draw the whole dockspace background.
    pub fn passthru_central_node() -> (r: Self)
        ensures
            r.spec_bits() == PASSTHRU_CENTRAL_NODE_BITS,
    {
        DockNodeFlags { bits: PASSTHRU_CENTRAL_NODE_BITS }
    }

    /// Disable further splitting of child dock nodes.
    pub fn no_split() -> (r: Self)
        ensures
            r.spec_bits() == NO_SPLIT_BITS,
    {
        DockNodeFlags { bits: NO_SPLIT_BITS }
    }

    /// Disable resizing of child dock nodes.
    pub fn no_resize() -> (r: Self)
        ensures
            r.spec_bits() == NO_RESIZE_BITS,
    {
        DockNodeFlags { bits: NO_RESIZE_BITS }
    }

    /// Automatically hide tab bar of docked nodes.
    pub fn auto_hide_tab_bar() -> (r: Self)
        ensures
            r.spec_bits() == AUTO_HIDE_TAB_BAR_BITS,
    {
        DockNodeFlags { bits: AUTO_HIDE_TAB_BAR_BITS }
    }

    /// The combination of two flag sets: every option of either one.
    pub fn union(self, other: Self) -> (r: Self)
        ensures
            r.spec_bits() == self.spec_bits() | other.spec_bits(),
    {
        DockNodeFlags { bits: self.bits | other.bits }
    }

    /// The raw bitmask, as the engine receives it.
    pub fn bits(self) -> (r: u32)
        ensures
            r == self.spec_bits(),
    {
        self.bits
    }
}

/// Two flag sets are the same value exactly when their bitmasks agree: a
/// flag set carries nothing beyond its bits.
pub proof fn lemma_flags_determined_by_bits(a: DockNodeFlags, b: DockNodeFlags)
    ensures
        (a == b) <==> (a.spec_bits() == b.spec_bits()),
{
}

/// The empty flag set has no bit set.
pub proof fn lemma_empty_bits()
    ensures
        DockNodeFlags::spec_empty().spec_bits() == 0,
{
}

} // verus!
