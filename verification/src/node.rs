//! Identity of one of the four physical node slots on the board.

use vstd::prelude::*;

verus! {

/// One of the four compute-node slots, numbered 1 to 4.
#[derive(Clone, Copy, Debug, PartialEq, Eq, Structural)]
pub enum NodeId {
    Node1,
    Node2,
    Node3,
    Node4,
}

impl NodeId {
    /// The slot number, 1 to 4.
    pub open spec fn spec_number(self) -> u8 {
        match self {
            NodeId::Node1 => 1,
            NodeId::Node2 => 2,
            NodeId::Node3 => 3,
            NodeId::Node4 => 4,
        }
    }

    /// The node's one-hot position in a state or mask bit-field:
    /// bit `number - 1`.
    pub open spec fn spec_bitfield(self) -> u8 {
        match self {
            NodeId::Node1 => 0x1,
            NodeId::Node2 => 0x2,
            NodeId::Node3 => 0x4,
            NodeId::Node4 => 0x8,
        }
    }

    /// The slot number, 1 to 4.
    pub fn number(self) -> (n: u8)
        ensures
            n == self.spec_number(),
            1 <= n <= 4,
    {
        match self {
            NodeId::Node1 => 1,
            NodeId::Node2 => 2,
            NodeId::Node3 => 3,
            NodeId::Node4 => 4,
        }
    }

    /// The one-hot bit-field selecting exactly this node:
    /// `1 << (number - 1)`.
    pub fn to_bitfield(self) -> (bits: u8)
        ensures
            bits == self.spec_bitfield(),
            bits == (1u8 << (self.spec_number() - 1)),
    {
        let bits: u8 = match self {
            NodeId::Node1 => 0x1,
            NodeId::Node2 => 0x2,
            NodeId::Node3 => 0x4,
            NodeId::Node4 => 0x8,
        };
        proof {
            assert((1u8 << 0u8) == 0x1 && (1u8 << 1u8) == 0x2 && (1u8 << 2u8) == 0x4 && (1u8 << 3u8)
                == 0x8) by (bit_vector);
        }
        bits
    }
}

} // verus!
