//! The stated laws of the sequencer, proved against the contracts of the
//! decoder and the plan builders.

use vstd::prelude::*;

use crate::bits::{
    bit_of, decode, decode_entry, decode_upto, popcount_nodes, popcount_upto, NODE_COUNT,
};
use crate::node::NodeId;
use crate::sequence::{
    action_node, apply_action, line_states_after, node_plan, plan_of, power_plan, reset_plan,
    target_lines, Action, RESET_HOLD_MS, SETTLE_DELAY_MS,
};

verus! {

proof fn lemma_decode_upto_shape(state: u8, mask: u8, n: nat)
    requires
        n <= NODE_COUNT,
    ensures
        decode_upto(state, mask, n).len() == popcount_upto(mask, n),
        forall|j: int|
            0 <= j < decode_upto(state, mask, n).len() ==> {
                let pair = #[trigger] decode_upto(state, mask, n)[j];
                &&& pair.0 < n
                &&& bit_of(mask, pair.0 as u8)
                &&& pair.1 == bit_of(state, pair.0 as u8)
            },
        forall|j: int, k: int|
            0 <= j < k < decode_upto(state, mask, n).len() ==> decode_upto(state, mask, n)[j].0
                < decode_upto(state, mask, n)[k].0,
        forall|i: u8|
            i < n && bit_of(mask, i) ==> exists|j: int|
                0 <= j < decode_upto(state, mask, n).len() && decode_upto(state, mask, n)[j].0 == (
                i as usize),
    decreases n,
{
    if n > 0 {
        let prev = (n - 1) as nat;
        lemma_decode_upto_shape(state, mask, prev);
        let before = decode_upto(state, mask, prev);
        let entry = decode_entry(state, mask, prev as u8);
        let whole = decode_upto(state, mask, n);
        assert(whole == before + entry);
        assert forall|i: u8| i < n && bit_of(mask, i) implies exists|j: int|
            0 <= j < whole.len() && whole[j].0 == (i as usize) by {
            if i < prev as u8 {
                let j = choose|j: int| 0 <= j < before.len() && before[j].0 == (i as usize);
                assert(whole[j].0 == (i as usize));
            } else {
                assert(whole[before.len() as int].0 == (i as usize));
            }
        }
    }
}

/// The decoder's output is fully pinned down: it has one pair per set bit
/// of `mask` among the `NODE_COUNT` node bits, its indices are exactly
/// those set bits in strictly ascending order, each paired with the
/// corresponding bit of `state`, and mask bits at or above `NODE_COUNT`
/// leave no trace.
pub proof fn lemma_decoder_shape(state: u8, mask: u8)
    ensures
        decode(state, mask).len() == popcount_nodes(mask),
        forall|j: int|
            0 <= j < decode(state, mask).len() ==> {
                let pair = #[trigger] decode(state, mask)[j];
                &&& pair.0 < NODE_COUNT
                &&& bit_of(mask, pair.0 as u8)
                &&& pair.1 == bit_of(state, pair.0 as u8)
            },
        forall|j: int, k: int|
            0 <= j < k < decode(state, mask).len() ==> decode(state, mask)[j].0 < decode(
                state,
                mask,
            )[k].0,
        forall|i: u8|
            i < NODE_COUNT && bit_of(mask, i) ==> exists|j: int|
                0 <= j < decode(state, mask).len() && decode(state, mask)[j].0 == (i as usize),
        decode(state, mask) == decode(state, mask & 0x0F),
{
    lemma_decode_upto_shape(state, mask, NODE_COUNT as nat);
    lemma_masked_equal(state, mask, NODE_COUNT as nat);
    let n = NODE_COUNT as nat;
    assert forall|i: u8| i < NODE_COUNT && bit_of(mask, i) implies exists|j: int|
        0 <= j < decode(state, mask).len() && decode(state, mask)[j].0 == (i as usize) by {
        let j = choose|j: int|
            0 <= j < decode_upto(state, mask, n).len() && decode_upto(state, mask, n)[j].0 == (
            i as usize);
        assert(decode(state, mask)[j].0 == (i as usize));
    }
}

/// Executing the concatenation of two plans is executing the first, then
/// the second from where the first left the lines.
proof fn lemma_lines_after_append(lines: Seq<bool>, first: Seq<Action>, second: Seq<Action>)
    ensures
        line_states_after(lines, first + second) == line_states_after(
            line_states_after(lines, first),
            second,
        ),
    decreases first.len(),
{
    if first.len() == 0 {
        assert(first + second =~= second);
    } else {
        let whole = first + second;
        assert(whole[0] == first[0]);
        assert(whole.drop_first() =~= first.drop_first() + second);
        lemma_lines_after_append(apply_action(lines, first[0]), first.drop_first(), second);
    }
}

/// Executing a plan never changes how many lines there are.
proof fn lemma_lines_after_len(lines: Seq<bool>, plan: Seq<Action>)
    ensures
        line_states_after(lines, plan).len() == lines.len(),
    decreases plan.len(),
{
    if plan.len() > 0 {
        lemma_lines_after_len(apply_action(lines, plan[0]), plan.drop_first());
    }
}

/// A single node's two-phase sequence sets exactly that node's line.
proof fn lemma_node_plan_effect(lines: Seq<bool>, node_index: usize, desired: bool)
    requires
        node_index < lines.len(),
    ensures
        line_states_after(lines, node_plan(node_index, desired)) == lines.update(
            node_index as int,
            desired,
        ),
{
    let plan = node_plan(node_index, desired);
    let after_write = plan.drop_first();
    let after_sleep = after_write.drop_first();
    let after_set = after_sleep.drop_first();
    assert(after_write =~= seq![
        Action::Sleep { millis: SETTLE_DELAY_MS },
        Action::LineSet { node_index, desired },
    ]);
    assert(after_sleep =~= seq![Action::LineSet { node_index, desired }]);
    assert(after_set =~= Seq::<Action>::empty());
    assert(line_states_after(lines, plan) == line_states_after(lines, after_write));
    assert(line_states_after(lines, after_write) == line_states_after(lines, after_sleep));
    assert(line_states_after(lines, after_sleep) == line_states_after(
        lines.update(node_index as int, desired),
        after_set,
    ));
}

/// The target of the first `n` node bits only.
spec fn target_upto(lines: Seq<bool>, state: u8, mask: u8, n: nat) -> Seq<bool> {
    Seq::new(
        lines.len(),
        |i: int|
            if 0 <= i < n && bit_of(mask, i as u8) {
                bit_of(state, i as u8)
            } else {
                lines[i]
            },
    )
}

proof fn lemma_effect_upto(lines: Seq<bool>, state: u8, mask: u8, n: nat)
    requires
        lines.len() == NODE_COUNT,
        n <= NODE_COUNT,
    ensures
        line_states_after(lines, plan_of(decode_upto(state, mask, n))) == target_upto(
            lines,
            state,
            mask,
            n,
        ),
    decreases n,
{
    if n == 0 {
        assert(decode_upto(state, mask, 0) =~= Seq::<(usize, bool)>::empty());
        assert(target_upto(lines, state, mask, 0) =~= lines);
    } else {
        let prev = (n - 1) as nat;
        lemma_effect_upto(lines, state, mask, prev);
        let shorter = decode_upto(state, mask, prev);
        let longer = decode_upto(state, mask, n);
        if bit_of(mask, prev as u8) {
            let desired = bit_of(state, prev as u8);
            assert(longer.drop_last() =~= shorter);
            assert(longer.last() == ((prev as usize), desired));
            assert(plan_of(longer) == plan_of(shorter) + node_plan(prev as usize, desired));
            let mid = line_states_after(lines, plan_of(shorter));
            lemma_lines_after_append(lines, plan_of(shorter), node_plan(prev as usize, desired));
            lemma_lines_after_len(lines, plan_of(shorter));
            lemma_node_plan_effect(mid, prev as usize, desired);
            assert(target_upto(lines, state, mask, n) =~= target_upto(
                lines,
                state,
                mask,
                prev,
            ).update(prev as int, desired));
        } else {
            assert(longer =~= shorter);
            assert(target_upto(lines, state, mask, n) =~= target_upto(lines, state, mask, prev));
        }
    }
}

/// What a power change does to the enable lines: every masked node bit ends
/// at its bit of `state`, every other line keeps its old value.
pub proof fn lemma_power_plan_effect(lines: Seq<bool>, state: u8, mask: u8)
    requires
        lines.len() == NODE_COUNT,
    ensures
        line_states_after(lines, power_plan(state, mask)) == target_lines(lines, state, mask),
{
    lemma_effect_upto(lines, state, mask, NODE_COUNT as nat);
    assert(target_upto(lines, state, mask, NODE_COUNT as nat) =~= target_lines(
        lines,
        state,
        mask,
    ));
}

/// Applying the same power change twice is idempotent in externally
/// observable effect: the lines end exactly where one application leaves
/// them. Both applications still issue the full plan — the same attribute
/// writes, delays and line sets, since the plan is a pure function of
/// `(state, mask)` — but the second changes nothing further.
pub proof fn lemma_set_power_idempotent(lines: Seq<bool>, state: u8, mask: u8)
    requires
        lines.len() == NODE_COUNT,
    ensures
        line_states_after(line_states_after(lines, power_plan(state, mask)), power_plan(state, mask))
            == line_states_after(lines, power_plan(state, mask)),
{
    lemma_power_plan_effect(lines, state, mask);
    let once = target_lines(lines, state, mask);
    lemma_power_plan_effect(once, state, mask);
    assert(target_lines(once, state, mask) =~= once);
}

proof fn lemma_plan_of_len(updates: Seq<(usize, bool)>)
    ensures
        plan_of(updates).len() == 3 * updates.len(),
    decreases updates.len(),
{
    if updates.len() > 0 {
        lemma_plan_of_len(updates.drop_last());
    }
}

proof fn lemma_plan_of_take(updates: Seq<(usize, bool)>, m: int)
    requires
        0 <= m <= updates.len(),
    ensures
        plan_of(updates).take(3 * m) == plan_of(updates.take(m)),
    decreases updates.len(),
{
    lemma_plan_of_len(updates);
    if m == updates.len() {
        assert(plan_of(updates).take(3 * m) =~= plan_of(updates));
        assert(updates.take(m) =~= updates);
    } else {
        let shorter = updates.drop_last();
        lemma_plan_of_take(shorter, m);
        lemma_plan_of_len(shorter);
        assert(plan_of(updates).take(3 * m) =~= plan_of(shorter).take(3 * m));
        assert(shorter.take(m) =~= updates.take(m));
    }
}

proof fn lemma_plan_of_triple(updates: Seq<(usize, bool)>, m: int)
    requires
        0 <= m < updates.len(),
    ensures
        plan_of(updates)[3 * m] == (Action::PlatformWrite {
            node_index: updates[m].0,
            desired: updates[m].1,
        }),
        plan_of(updates)[3 * m + 1] == (Action::Sleep { millis: SETTLE_DELAY_MS }),
        plan_of(updates)[3 * m + 2] == (Action::LineSet {
            node_index: updates[m].0,
            desired: updates[m].1,
        }),
    decreases updates.len(),
{
    let shorter = updates.drop_last();
    lemma_plan_of_len(updates);
    lemma_plan_of_len(shorter);
    if m < updates.len() - 1 {
        lemma_plan_of_triple(shorter, m);
        assert(shorter[m] == updates[m]);
    }
}

proof fn lemma_plan_of_nodes(updates: Seq<(usize, bool)>, bound: usize)
    requires
        forall|k: int| 0 <= k < updates.len() ==> (#[trigger] updates[k]).0 < bound,
    ensures
        forall|j: int|
            0 <= j < plan_of(updates).len() ==> (action_node(
                #[trigger] plan_of(updates)[j],
            ) matches Some(n) ==> n < bound),
    decreases updates.len(),
{
    if updates.len() > 0 {
        let shorter = updates.drop_last();
        lemma_plan_of_nodes(shorter, bound);
        lemma_plan_of_len(shorter);
        let tail = node_plan(updates.last().0, updates.last().1);
        assert(updates[updates.len() - 1].0 < bound);
        assert forall|j: int| 0 <= j < plan_of(updates).len() implies (action_node(
            #[trigger] plan_of(updates)[j],
        ) matches Some(n) ==> n < bound) by {
            if j < plan_of(shorter).len() {
                assert(plan_of(updates)[j] == plan_of(shorter)[j]);
            } else {
                assert(plan_of(updates)[j] == tail[j - plan_of(shorter).len()]);
            }
        }
    }
}

/// A line that no step of a plan concerns keeps its value through the whole
/// plan.
proof fn lemma_untouched_line(lines: Seq<bool>, plan: Seq<Action>, i: int)
    requires
        0 <= i < lines.len(),
        forall|j: int|
            0 <= j < plan.len() ==> (action_node(#[trigger] plan[j]) matches Some(n) ==> n != i),
    ensures
        line_states_after(lines, plan)[i] == lines[i],
    decreases plan.len(),
{
    if plan.len() > 0 {
        let next = apply_action(lines, plan[0]);
        assert(next.len() == lines.len() && next[i] == lines[i]);
        assert(forall|j: int|
            0 <= j < plan.drop_first().len() ==> #[trigger] plan.drop_first()[j] == plan[j + 1]);
        lemma_untouched_line(next, plan.drop_first(), i);
    }
}

/// Failure isolation. The service executes a power plan strictly in order
/// and stops at the first failing step, so when the platform-attribute
/// write for the `m`-th affected node fails, exactly the plan's first
/// `3 * m` steps have run. That executed prefix is precisely the complete
/// two-phase sequences of the earlier affected nodes — they remain changed
/// — and every step of it concerns a node below the failing one: no line
/// set has touched the failing node, and no write or line set has touched
/// any node after it.
pub proof fn lemma_write_failure_isolation(state: u8, mask: u8, m: int)
    requires
        0 <= m < decode(state, mask).len(),
    ensures
        ({
            let updates = decode(state, mask);
            let plan = power_plan(state, mask);
            &&& plan.len() == 3 * updates.len()
            &&& plan[3 * m] == (Action::PlatformWrite {
                node_index: updates[m].0,
                desired: updates[m].1,
            })
            &&& plan.take(3 * m) == plan_of(updates.take(m))
            &&& forall|j: int|
                0 <= j < 3 * m ==> (action_node(#[trigger] plan[j]) matches Some(n) ==> n
                    < updates[m].0)
        }),
{
    let updates = decode(state, mask);
    let plan = power_plan(state, mask);
    lemma_decoder_shape(state, mask);
    lemma_plan_of_len(updates);
    lemma_plan_of_triple(updates, m);
    lemma_plan_of_take(updates, m);
    assert(forall|k: int|
        0 <= k < m ==> (#[trigger] updates.take(m)[k]).0 == updates[k].0 && updates[k].0
            < updates[m].0);
    lemma_plan_of_nodes(updates.take(m), updates[m].0);
    assert forall|j: int| 0 <= j < 3 * m implies (action_node(#[trigger] plan[j]) matches Some(n)
        ==> n < updates[m].0) by {
        assert(plan[j] == plan.take(3 * m)[j]);
    }
}

/// After a failure at the `m`-th affected node's attribute write, the
/// failing node's enable line and the line of every node after it still
/// hold their old values.
pub proof fn lemma_failure_leaves_later_lines(
    lines: Seq<bool>,
    state: u8,
    mask: u8,
    m: int,
    i: int,
)
    requires
        lines.len() == NODE_COUNT,
        0 <= m < decode(state, mask).len(),
        decode(state, mask)[m].0 <= i < lines.len(),
    ensures
        line_states_after(lines, power_plan(state, mask).take(3 * m))[i] == lines[i],
{
    lemma_write_failure_isolation(state, mask, m);
    lemma_untouched_line(lines, power_plan(state, mask).take(3 * m), i);
}

/// What a reset does to the enable lines: the off phase drives exactly the
/// node's line low, and the complete plan leaves exactly that line high;
/// every other line keeps its old value throughout.
pub proof fn lemma_reset_plan_effect(lines: Seq<bool>, node: NodeId)
    requires
        lines.len() == NODE_COUNT,
    ensures
        line_states_after(lines, power_plan(0, node.spec_bitfield())) == lines.update(
            node.spec_number() - 1,
            false,
        ),
        line_states_after(lines, reset_plan(node)) == lines.update(node.spec_number() - 1, true),
{
    let bits = node.spec_bitfield();
    let idx = node.spec_number() - 1;
    assert(forall|i: u8| i < 4 ==> !bit_of(0, i)) by (bit_vector);
    match node {
        NodeId::Node1 => {
            assert(forall|i: u8| i < 4 ==> (bit_of(0x1, i) <==> i == 0)) by (bit_vector);
        },
        NodeId::Node2 => {
            assert(forall|i: u8| i < 4 ==> (bit_of(0x2, i) <==> i == 1)) by (bit_vector);
        },
        NodeId::Node3 => {
            assert(forall|i: u8| i < 4 ==> (bit_of(0x4, i) <==> i == 2)) by (bit_vector);
        },
        NodeId::Node4 => {
            assert(forall|i: u8| i < 4 ==> (bit_of(0x8, i) <==> i == 3)) by (bit_vector);
        },
    }
    lemma_power_plan_effect(lines, 0, bits);
    assert(target_lines(lines, 0, bits) =~= lines.update(idx, false));
    let mid = lines.update(idx, false);
    lemma_power_plan_effect(mid, bits, bits);
    assert(target_lines(mid, bits, bits) =~= lines.update(idx, true));
    let hold = seq![Action::Sleep { millis: RESET_HOLD_MS }];
    assert(reset_plan(node) == (power_plan(0, bits) + hold) + power_plan(bits, bits));
    lemma_lines_after_append(lines, power_plan(0, bits) + hold, power_plan(bits, bits));
    lemma_lines_after_append(lines, power_plan(0, bits), hold);
    assert(line_states_after(mid, hold) == mid) by {
        assert(apply_action(mid, hold[0]) == mid);
        assert(hold.drop_first() =~= Seq::<Action>::empty());
        assert(line_states_after(mid, Seq::<Action>::empty()) == mid);
    }
}

proof fn lemma_masked_equal(state: u8, mask: u8, n: nat)
    requires
        n <= NODE_COUNT,
    ensures
        decode_upto(state, mask, n) == decode_upto(state, mask & 0x0F, n),
    decreases n,
{
    if n > 0 {
        let prev = (n - 1) as nat;
        lemma_masked_equal(state, mask, prev);
        let i = prev as u8;
        assert(i < 4 ==> ((mask >> i) & 1 == 1 <==> ((mask & 0x0F) >> i) & 1 == 1))
            by (bit_vector);
    }
}

} // verus!
