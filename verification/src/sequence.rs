//! The power sequencer's two-phase action plans.
//!
//! Changing a node's power is a two-phase, timing-dependent procedure: the
//! intended state is first announced to the platform's power-management
//! subsystem through the node's attribute file, then a fixed settle delay
//! elapses, and only then does the electrical enable line move. The delay
//! and ordering are an electrical safety measure (downstream regulators and
//! soft-start circuitry must register intent before the rail toggles) and
//! must not be reordered or parallelized.
//!
//! This module produces the exact ordered action sequence for a power
//! change or a reset. The surrounding service executes the actions strictly
//! in order, stopping at the first failure: nodes already sequenced remain
//! changed, the failing node's line is never touched, and later nodes see
//! no action at all.

use vstd::prelude::*;

use crate::bits::{bit_iterator, bit_of, decode, NODE_COUNT};
use crate::node::NodeId;

verus! {

/// Milliseconds between announcing a node's intended power state and
/// toggling its enable line.
pub const SETTLE_DELAY_MS: u64 = 100;

/// Milliseconds a reset holds the node powered off before powering it back
/// on.
pub const RESET_HOLD_MS: u64 = 1000;

/// One step of a power-sequencing plan, executed in order by the
/// surrounding service.
#[derive(Clone, Copy, Debug, PartialEq, Eq, Structural)]
pub enum Action {
    /// Write the platform power-state token for `desired` to node
    /// `node_index + 1`'s attribute file.
    PlatformWrite { node_index: usize, desired: bool },
    /// Suspend for `millis` milliseconds.
    Sleep { millis: u64 },
    /// Set node `node_index + 1`'s electrical enable line to `desired`.
    LineSet { node_index: usize, desired: bool },
}

/// The node a step concerns, if any: a sleep concerns none.
pub open spec fn action_node(action: Action) -> Option<usize> {
    match action {
        Action::PlatformWrite { node_index, .. } => Some(node_index),
        Action::Sleep { .. } => None,
        Action::LineSet { node_index, .. } => Some(node_index),
    }
}

/// The two-phase sequence for a single node: announce, settle, toggle.
pub open spec fn node_plan(node_index: usize, desired: bool) -> Seq<Action> {
    seq![
        Action::PlatformWrite { node_index, desired },
        Action::Sleep { millis: SETTLE_DELAY_MS },
        Action::LineSet { node_index, desired },
    ]
}

/// The plan for a list of decoded `(index, desired)` updates: each node's
/// two-phase sequence, in the order the updates are given.
pub open spec fn plan_of(updates: Seq<(usize, bool)>) -> Seq<Action>
    decreases updates.len(),
{
    if updates.len() == 0 {
        Seq::empty()
    } else {
        plan_of(updates.drop_last()) + node_plan(updates.last().0, updates.last().1)
    }
}

/// The plan of a whole power change: the decoded updates of
/// `(state, mask)`, each expanded to its two-phase sequence, in ascending
/// node order.
pub open spec fn power_plan(state: u8, mask: u8) -> Seq<Action> {
    plan_of(decode(state, mask))
}

/// The plan of a node reset: force the node off, hold for a full second,
/// force it back on. Both phases reuse the power-change plan; if the off
/// phase fails, the service never reaches the on phase and the node stays
/// off.
pub open spec fn reset_plan(node: NodeId) -> Seq<Action> {
    power_plan(0, node.spec_bitfield()) + seq![Action::Sleep { millis: RESET_HOLD_MS }]
        + power_plan(node.spec_bitfield(), node.spec_bitfield())
}

proof fn lemma_plan_of_step(updates: Seq<(usize, bool)>, k: int)
    requires
        0 <= k < updates.len(),
    ensures
        plan_of(updates.take(k + 1)) == plan_of(updates.take(k)) + node_plan(
            updates[k].0,
            updates[k].1,
        ),
{
    let taken = updates.take(k + 1);
    assert(taken.drop_last() =~= updates.take(k));
    assert(taken.last() == updates[k]);
}

/// Build the ordered action plan that powers the masked nodes to their
/// states in `node_states`: for each set bit of `node_mask` among the
/// `NODE_COUNT` node bits, in ascending node order, announce the state to
/// the platform, wait the settle delay, then set the enable line.
pub fn set_power_node_plan(node_states: u8, node_mask: u8) -> (plan: Vec<Action>)
    ensures
        plan@ == power_plan(node_states, node_mask),
{
    let updates = bit_iterator(node_states, node_mask);
    let mut plan: Vec<Action> = Vec::new();
    let mut k: usize = 0;
    while k < updates.len()
        invariant
            k <= updates.len(),
            updates@ == decode(node_states, node_mask),
            plan@ == plan_of(updates@.take(k as int)),
        decreases updates.len() - k,
    {
        let (node_index, desired) = updates[k];
        plan.push(Action::PlatformWrite { node_index, desired });
        plan.push(Action::Sleep { millis: SETTLE_DELAY_MS });
        plan.push(Action::LineSet { node_index, desired });
        proof {
            lemma_plan_of_step(updates@, k as int);
            assert(plan@ =~= plan_of(updates@.take(k as int)) + node_plan(node_index, desired));
        }
        k = k + 1;
    }
    proof {
        assert(updates@.take(updates@.len() as int) =~= updates@);
    }
    plan
}

/// Build the ordered action plan that resets one node: one power-change
/// plan forcing it off (state 0 under the node's one-hot mask), a one
/// second hold, then one power-change plan forcing it on (state equal to
/// the mask).
pub fn reset_node_plan(node: NodeId) -> (plan: Vec<Action>)
    ensures
        plan@ == reset_plan(node),
{
    let bits = node.to_bitfield();
    let mut plan = set_power_node_plan(0, bits);
    plan.push(Action::Sleep { millis: RESET_HOLD_MS });
    let mut on_phase = set_power_node_plan(bits, bits);
    plan.append(&mut on_phase);
    proof {
        assert(plan@ =~= reset_plan(node));
    }
    plan
}

/// The effect of one plan step on the enable lines: only a line set changes
/// anything, and only within the lines that exist.
pub open spec fn apply_action(lines: Seq<bool>, action: Action) -> Seq<bool> {
    match action {
        Action::LineSet { node_index, desired } => if node_index < lines.len() {
            lines.update(node_index as int, desired)
        } else {
            lines
        },
        _ => lines,
    }
}

/// The enable-line states after executing a plan, or a prefix of one, from
/// `lines`.
pub open spec fn line_states_after(lines: Seq<bool>, plan: Seq<Action>) -> Seq<bool>
    decreases plan.len(),
{
    if plan.len() == 0 {
        lines
    } else {
        line_states_after(apply_action(lines, plan[0]), plan.drop_first())
    }
}

/// The line states a power change aims at: each masked node at its bit of
/// `state`, every other line unchanged.
pub open spec fn target_lines(lines: Seq<bool>, state: u8, mask: u8) -> Seq<bool> {
    Seq::new(
        lines.len(),
        |i: int|
            if 0 <= i < NODE_COUNT && bit_of(mask, i as u8) {
                bit_of(state, i as u8)
            } else {
                lines[i]
            },
    )
}

} // verus!
