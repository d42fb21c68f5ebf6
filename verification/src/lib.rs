//! A safety-oriented layer over an immediate-mode GUI engine's docking
//! subsystem.
//!
//! The engine's docking interface is a fixed set of calls: allocate and
//! destroy a window-class resource, anchor a dockspace over the viewport,
//! allocate and finalize a root dock node, configure a node's size and
//! position, assign a named window to a node, and split a node in two.
//! This crate holds that interface as an explicit [`engine::Engine`] value
//! that records every call issued, in order, and issues the handles the
//! calls return; the builders in [`dock`] forward to it. Every contract
//! states exactly which calls a method issues, and the engine's invariant
//! pins the window-class lifecycle: one allocation, then uses, then at most
//! one destruction, and nothing after it.

pub mod dock;
pub mod engine;
pub mod flags;
