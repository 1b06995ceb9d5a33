//! Bit decoder: turns a `(state, mask)` pair of 8-bit fields into the
//! ordered list of per-node updates the sequencer must perform.
//!
//! Bit `i` of `mask` selects node `i + 1`; bit `i` of `state` gives that
//! node's desired power state. Only four nodes exist, so mask bits above
//! bit 3 are ignored by convention. Decoding is a pure function of its
//! inputs and yields the selected indices in strictly ascending order.

use vstd::prelude::*;

verus! {

/// Number of physical node slots on the board, and therefore of enable
/// lines; bits of `state` and `mask` at or above this index are ignored.
pub const NODE_COUNT: u8 = 4;

/// Bit `i` of the 8-bit field `v`, as a boolean.
pub open spec fn bit_of(v: u8, i: u8) -> bool {
    (v >> i) & 1 == 1
}

/// The decoder's output for bit `i` alone: one `(index, desired)` pair if
/// bit `i` of `mask` is set, nothing otherwise.
pub open spec fn decode_entry(state: u8, mask: u8, i: u8) -> Seq<(usize, bool)> {
    if bit_of(mask, i) {
        seq![(i as usize, bit_of(state, i))]
    } else {
        Seq::empty()
    }
}

/// The decoder's output restricted to bits `0 .. n`.
pub open spec fn decode_upto(state: u8, mask: u8, n: nat) -> Seq<(usize, bool)>
    decreases n,
{
    if n == 0 {
        Seq::empty()
    } else {
        decode_upto(state, mask, (n - 1) as nat) + decode_entry(state, mask, (n - 1) as u8)
    }
}

/// The full decoder output: one `(index, desired)` pair per set bit of
/// `mask` among bits `0 .. NODE_COUNT`, in ascending index order.
pub open spec fn decode(state: u8, mask: u8) -> Seq<(usize, bool)> {
    decode_upto(state, mask, NODE_COUNT as nat)
}

/// Number of set bits of `mask` among bits `0 .. n`.
pub open spec fn popcount_upto(mask: u8, n: nat) -> nat
    decreases n,
{
    if n == 0 {
        0
    } else {
        popcount_upto(mask, (n - 1) as nat) + if bit_of(mask, (n - 1) as u8) {
            1nat
        } else {
            0nat
        }
    }
}

/// Number of set bits of `mask` among the valid node bits `0 .. NODE_COUNT`.
pub open spec fn popcount_nodes(mask: u8) -> nat {
    popcount_upto(mask, NODE_COUNT as nat)
}

/// Decode `(node_states, node_mask)` into the ordered per-node updates.
///
/// Bit `i` of `node_mask` selects node index `i`; the paired boolean is bit
/// `i` of `node_states`. Indices come out in ascending order and never reach
/// `NODE_COUNT`, whatever the high bits of `node_mask` hold.
pub fn bit_iterator(node_states: u8, node_mask: u8) -> (updates: Vec<(usize, bool)>)
    ensures
        updates@ == decode(node_states, node_mask),
{
    let mut updates: Vec<(usize, bool)> = Vec::new();
    let mut i: u8 = 0;
    while i < NODE_COUNT
        invariant
            i <= NODE_COUNT,
            updates@ == decode_upto(node_states, node_mask, i as nat),
        decreases NODE_COUNT - i,
    {
        if (node_mask >> i) & 1 == 1 {
            updates.push((i as usize, (node_states >> i) & 1 == 1));
        }
        assert(updates@ =~= decode_upto(node_states, node_mask, (i + 1) as nat));
        i = i + 1;
    }
    updates
}

} // verus!
