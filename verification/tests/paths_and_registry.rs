use power_sequencer::error::PowerError;
use power_sequencer::paths::{
    fallback_if_not_exist, led_token, line_device_path, line_name, platform_state_path,
    power_led_fallback_path, power_led_path, power_state_token, status_led_fallback_path,
    status_led_path,
};
use power_sequencer::registry::{resolve_lines, LineOffsets};

#[test]
fn device_path_follows_board_variant() {
    assert_eq!(line_device_path(true), "/dev/gpiochip1");
    assert_eq!(line_device_path(false), "/dev/gpiochip2");
}

#[test]
fn line_names_are_the_four_enable_lines() {
    assert_eq!(line_name(0), "node1-en");
    assert_eq!(line_name(1), "node2-en");
    assert_eq!(line_name(2), "node3-en");
    assert_eq!(line_name(3), "node4-en");
}

#[test]
fn platform_state_paths_are_per_node() {
    assert_eq!(platform_state_path(0), "/sys/bus/platform/devices/node1-power/state");
    assert_eq!(platform_state_path(1), "/sys/bus/platform/devices/node2-power/state");
    assert_eq!(platform_state_path(2), "/sys/bus/platform/devices/node3-power/state");
    assert_eq!(platform_state_path(3), "/sys/bus/platform/devices/node4-power/state");
}

#[test]
fn power_state_tokens_are_enabled_and_disabled() {
    assert_eq!(power_state_token(true), "enabled");
    assert_eq!(power_state_token(false), "disabled");
}

#[test]
fn led_tokens_are_one_and_zero() {
    assert_eq!(led_token(true), "1");
    assert_eq!(led_token(false), "0");
}

#[test]
fn indicator_paths_match_the_board() {
    assert_eq!(power_led_path(), "/sys/class/leds/fp::power/brightness");
    assert_eq!(power_led_fallback_path(), "/sys/class/leds/fp:sys/brightness");
    assert_eq!(status_led_path(), "/sys/class/leds/fp::status/brightness");
    assert_eq!(status_led_fallback_path(), "/sys/class/leds/fp:reset/brightness");
}

#[test]
fn existing_primary_wins_regardless_of_fallback() {
    assert_eq!(fallback_if_not_exist("/primary", "/fallback", true), "/primary");
    assert_eq!(
        fallback_if_not_exist(power_led_path(), power_led_fallback_path(), true),
        power_led_path()
    );
}

#[test]
fn missing_primary_falls_back() {
    assert_eq!(fallback_if_not_exist("/primary", "/fallback", false), "/fallback");
    assert_eq!(
        fallback_if_not_exist(status_led_path(), status_led_fallback_path(), false),
        status_led_fallback_path()
    );
}

#[test]
fn all_lines_present_resolves_in_node_order() {
    let resolved = resolve_lines(Some(7), Some(5), Some(3), Some(1));
    assert_eq!(resolved, Ok(LineOffsets { node1: 7, node2: 5, node3: 3, node4: 1 }));
}

#[test]
fn first_missing_line_is_reported_by_name() {
    assert_eq!(
        resolve_lines(None, Some(5), Some(3), Some(1)),
        Err(PowerError::LineNotFound { line: "node1-en" })
    );
    assert_eq!(
        resolve_lines(Some(7), Some(5), None, None),
        Err(PowerError::LineNotFound { line: "node3-en" })
    );
    assert_eq!(
        resolve_lines(Some(7), Some(5), Some(3), None),
        Err(PowerError::LineNotFound { line: "node4-en" })
    );
}

#[test]
fn errors_name_their_subject() {
    let open = PowerError::DeviceOpenFailure { device: "/dev/gpiochip2" };
    assert_eq!(open.subject(), "/dev/gpiochip2");
    let missing = PowerError::LineNotFound { line: "node2-en" };
    assert_eq!(missing.subject(), "node2-en");
    let write = PowerError::AttributeWriteFailure {
        path: "/sys/bus/platform/devices/node1-power/state",
    };
    assert_eq!(write.subject(), "/sys/bus/platform/devices/node1-power/state");
    let set = PowerError::LineSetFailure { line: "node4-en" };
    assert_eq!(set.subject(), "node4-en");
}
