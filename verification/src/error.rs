//! Errors of the power-sequencing controller.
//!
//! Every failure carries the offending device path, line name or attribute
//! path, so the caller can log and diagnose it. No failure is retried here,
//! and a multi-node operation that fails part-way is not rolled back: nodes
//! already sequenced stay as they are.

use vstd::prelude::*;

verus! {

/// A failure of the controller, with the path or line name it concerns.
#[derive(Clone, Copy, Debug, PartialEq, Eq)]
pub enum PowerError {
    /// The line-group device could not be opened. Fatal: construction
    /// aborts.
    DeviceOpenFailure { device: &'static str },
    /// A required named enable line is absent from the device's line table.
    /// Fatal: construction aborts.
    LineNotFound { line: &'static str },
    /// A platform power-state or indicator attribute write failed. The
    /// current multi-node operation stops at the failing node.
    AttributeWriteFailure { path: &'static str },
    /// An electrical enable-line toggle failed. The current multi-node
    /// operation stops at the failing node.
    LineSetFailure { line: &'static str },
}

impl PowerError {
    /// The path or line name the failure concerns.
    pub open spec fn spec_subject(self) -> Seq<char> {
        match self {
            PowerError::DeviceOpenFailure { device } => device@,
            PowerError::LineNotFound { line } => line@,
            PowerError::AttributeWriteFailure { path } => path@,
            PowerError::LineSetFailure { line } => line@,
        }
    }

    /// The path or line name the failure concerns.
    pub fn subject(&self) -> (subject: &'static str)
        ensures
            subject@ == self.spec_subject(),
    {
        match self {
            PowerError::DeviceOpenFailure { device } => device,
            PowerError::LineNotFound { line } => line,
            PowerError::AttributeWriteFailure { path } => path,
            PowerError::LineSetFailure { line } => line,
        }
    }
}

} // verus!
