use power_sequencer::node::NodeId;
use power_sequencer::sequence::{
    reset_node_plan, set_power_node_plan, Action, RESET_HOLD_MS, SETTLE_DELAY_MS,
};

fn apply_plan(start: [bool; 4], plan: &[Action]) -> [bool; 4] {
    let mut lines = start;
    for action in plan {
        if let Action::LineSet { node_index, desired } = action {
            if *node_index < 4 {
                lines[*node_index] = *desired;
            }
        }
    }
    lines
}

#[test]
fn full_mask_plan_runs_nodes_in_order_with_two_phases() {
    let plan = set_power_node_plan(0b0101, 0b1111);
    assert_eq!(
        plan,
        vec![
            Action::PlatformWrite { node_index: 0, desired: true },
            Action::Sleep { millis: SETTLE_DELAY_MS },
            Action::LineSet { node_index: 0, desired: true },
            Action::PlatformWrite { node_index: 1, desired: false },
            Action::Sleep { millis: SETTLE_DELAY_MS },
            Action::LineSet { node_index: 1, desired: false },
            Action::PlatformWrite { node_index: 2, desired: true },
            Action::Sleep { millis: SETTLE_DELAY_MS },
            Action::LineSet { node_index: 2, desired: true },
            Action::PlatformWrite { node_index: 3, desired: false },
            Action::Sleep { millis: SETTLE_DELAY_MS },
            Action::LineSet { node_index: 3, desired: false },
        ]
    );
    let lines = apply_plan([false; 4], &plan);
    assert_eq!(lines, [true, false, true, false]);
}

#[test]
fn empty_mask_plans_nothing() {
    assert_eq!(set_power_node_plan(0b1111, 0), Vec::new());
}

#[test]
fn settle_delay_is_one_hundred_milliseconds() {
    assert_eq!(SETTLE_DELAY_MS, 100);
    assert_eq!(RESET_HOLD_MS, 1000);
}

#[test]
fn reset_plan_is_off_hold_on() {
    let plan = reset_node_plan(NodeId::Node2);
    let mut expected = set_power_node_plan(0, 0b0010);
    expected.push(Action::Sleep { millis: RESET_HOLD_MS });
    expected.extend(set_power_node_plan(0b0010, 0b0010));
    assert_eq!(plan, expected);
    assert_eq!(
        plan,
        vec![
            Action::PlatformWrite { node_index: 1, desired: false },
            Action::Sleep { millis: SETTLE_DELAY_MS },
            Action::LineSet { node_index: 1, desired: false },
            Action::Sleep { millis: RESET_HOLD_MS },
            Action::PlatformWrite { node_index: 1, desired: true },
            Action::Sleep { millis: SETTLE_DELAY_MS },
            Action::LineSet { node_index: 1, desired: true },
        ]
    );
}

#[test]
fn reset_leaves_node_on_and_others_untouched() {
    let plan = reset_node_plan(NodeId::Node3);
    let lines = apply_plan([false, true, false, true], &plan);
    assert_eq!(lines, [false, true, true, true]);
    let off_phase = set_power_node_plan(0, NodeId::Node3.to_bitfield());
    let lines = apply_plan([true; 4], &off_phase);
    assert_eq!(lines, [true, true, false, true]);
}

#[test]
fn repeating_a_power_change_is_idempotent() {
    let plan = set_power_node_plan(0b0110, 0b1110);
    let again = set_power_node_plan(0b0110, 0b1110);
    assert_eq!(plan, again);
    let once = apply_plan([true, false, true, false], &plan);
    let twice = apply_plan(once, &again);
    assert_eq!(once, twice);
}

#[test]
fn failed_write_prefix_never_touches_failing_or_later_nodes() {
    let plan = set_power_node_plan(0b0000, 0b1111);
    // The platform write for the second affected node (index 1) sits at
    // step 3; if it fails, only the first three steps have run.
    assert_eq!(plan[3], Action::PlatformWrite { node_index: 1, desired: false });
    let prefix = &plan[..3];
    for action in prefix {
        match action {
            Action::PlatformWrite { node_index, .. } => assert!(*node_index < 1),
            Action::LineSet { node_index, .. } => assert!(*node_index < 1),
            Action::Sleep { .. } => {}
        }
    }
    let lines = apply_plan([true; 4], prefix);
    assert_eq!(lines, [false, true, true, true]);
}

#[test]
fn node_ids_map_to_one_hot_bitfields() {
    assert_eq!(NodeId::Node1.to_bitfield(), 0b0001);
    assert_eq!(NodeId::Node2.to_bitfield(), 0b0010);
    assert_eq!(NodeId::Node3.to_bitfield(), 0b0100);
    assert_eq!(NodeId::Node4.to_bitfield(), 0b1000);
    assert_eq!(NodeId::Node1.number(), 1);
    assert_eq!(NodeId::Node4.number(), 4);
}
