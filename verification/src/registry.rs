//! Line registry: turns the device's line-table lookups into the four
//! enable-line offsets the sequencer owns, or a fatal construction error.
//!
//! The caller opens the board variant's line-group device and looks up the
//! four fixed logical line names; this module decides whether construction
//! may proceed. The controller cannot exist partially initialized: if any
//! name is missing, the first missing one is reported and nothing is
//! returned.

use vstd::prelude::*;

use crate::error::PowerError;
use crate::paths::{line_name, spec_line_name};

verus! {

/// The four enable-line offsets, index-aligned with nodes 1 to 4.
#[derive(Clone, Copy, Debug, PartialEq, Eq, Structural)]
pub struct LineOffsets {
    pub node1: u32,
    pub node2: u32,
    pub node3: u32,
    pub node4: u32,
}

/// Accept the four enable-line lookups, in node order, or report the first
/// missing line by its logical name.
///
/// `lookup[i]` is what the device's line table returned for the name
/// `spec_line_name(i)`. All four present: the offsets are returned in node
/// order. Any absent: the error names the first absent line, and no offsets
/// are handed out.
pub fn resolve_lines(
    node1: Option<u32>,
    node2: Option<u32>,
    node3: Option<u32>,
    node4: Option<u32>,
) -> (resolved: Result<LineOffsets, PowerError>)
    ensures
        (node1 is Some && node2 is Some && node3 is Some && node4 is Some) <==> resolved is Ok,
        resolved matches Ok(offsets) ==> {
            &&& offsets.node1 == node1->Some_0
            &&& offsets.node2 == node2->Some_0
            &&& offsets.node3 == node3->Some_0
            &&& offsets.node4 == node4->Some_0
        },
        resolved matches Err(e) ==> {
            &&& e matches PowerError::LineNotFound { line }
            &&& ({
                let missing: int = if node1 is None {
                    0
                } else if node2 is None {
                    1
                } else if node3 is None {
                    2
                } else {
                    3
                };
                line@ == spec_line_name(missing)
            })
        },
{
    let node1 = match node1 {
        Some(offset) => offset,
        None => {
            return Err(PowerError::LineNotFound { line: line_name(0) });
        },
    };
    let node2 = match node2 {
        Some(offset) => offset,
        None => {
            return Err(PowerError::LineNotFound { line: line_name(1) });
        },
    };
    let node3 = match node3 {
        Some(offset) => offset,
        None => {
            return Err(PowerError::LineNotFound { line: line_name(2) });
        },
    };
    let node4 = match node4 {
        Some(offset) => offset,
        None => {
            return Err(PowerError::LineNotFound { line: line_name(3) });
        },
    };
    Ok(LineOffsets { node1, node2, node3, node4 })
}

} // verus!
