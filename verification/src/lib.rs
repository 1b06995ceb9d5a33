//! Verified core of a power-sequencing controller for a four-node compute
//! board.
//!
//! The board exposes two control surfaces: one electrical enable line per
//! node, and kernel attribute files through which software announces a
//! node's intended power state before the line is toggled. This crate
//! contains the decision logic of that controller — bitmask decoding, the
//! two-phase action sequence with its mandatory settle delays, line-name
//! and attribute-path selection — each function with a proved contract.
//! The surrounding service performs the actual device I/O by executing,
//! in order and stopping at the first failure, the action sequences these
//! functions produce.

pub mod bits;
pub mod error;
pub mod laws;
pub mod node;
pub mod paths;
pub mod registry;
pub mod sequence;
