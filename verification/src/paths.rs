//! The fixed hardware paths, line names and write tokens of the board,
//! and the indicator-path resolution rule.
//!
//! These strings are intrinsic to the physical board: the kernel exposes
//! exactly these device nodes, line names and attribute files, and the
//! platform driver accepts exactly these tokens. They must be preserved
//! byte for byte.

use vstd::prelude::*;

verus! {

/// The line-group device of the latching board variant.
pub open spec fn spec_latching_device() -> Seq<char> {
    "/dev/gpiochip1"@
}

/// The line-group device of the non-latching board variant.
pub open spec fn spec_non_latching_device() -> Seq<char> {
    "/dev/gpiochip2"@
}

/// The line-group device to open for the given board variant.
pub fn line_device_path(is_latching_system: bool) -> (path: &'static str)
    ensures
        is_latching_system ==> path@ == spec_latching_device(),
        !is_latching_system ==> path@ == spec_non_latching_device(),
{
    if is_latching_system {
        "/dev/gpiochip1"
    } else {
        "/dev/gpiochip2"
    }
}

/// The logical name of node `node_index + 1`'s enable line in the device's
/// line table.
pub open spec fn spec_line_name(node_index: int) -> Seq<char> {
    if node_index == 0 {
        "node1-en"@
    } else if node_index == 1 {
        "node2-en"@
    } else if node_index == 2 {
        "node3-en"@
    } else {
        "node4-en"@
    }
}

/// The logical name of node `node_index + 1`'s enable line.
pub fn line_name(node_index: usize) -> (name: &'static str)
    requires
        node_index < 4,
    ensures
        name@ == spec_line_name(node_index as int),
{
    if node_index == 0 {
        "node1-en"
    } else if node_index == 1 {
        "node2-en"
    } else if node_index == 2 {
        "node3-en"
    } else {
        "node4-en"
    }
}

/// The platform power-state attribute file of node `node_index + 1`, through
/// which the intended power state is announced before the enable line moves.
pub open spec fn spec_platform_state_path(node_index: int) -> Seq<char> {
    if node_index == 0 {
        "/sys/bus/platform/devices/node1-power/state"@
    } else if node_index == 1 {
        "/sys/bus/platform/devices/node2-power/state"@
    } else if node_index == 2 {
        "/sys/bus/platform/devices/node3-power/state"@
    } else {
        "/sys/bus/platform/devices/node4-power/state"@
    }
}

/// The platform power-state attribute file of node `node_index + 1`.
pub fn platform_state_path(node_index: usize) -> (path: &'static str)
    requires
        node_index < 4,
    ensures
        path@ == spec_platform_state_path(node_index as int),
{
    if node_index == 0 {
        "/sys/bus/platform/devices/node1-power/state"
    } else if node_index == 1 {
        "/sys/bus/platform/devices/node2-power/state"
    } else if node_index == 2 {
        "/sys/bus/platform/devices/node3-power/state"
    } else {
        "/sys/bus/platform/devices/node4-power/state"
    }
}

/// The token written to a platform power-state attribute for a desired
/// state: `enabled` to power the node on, `disabled` to power it off.
pub open spec fn spec_power_state_token(desired: bool) -> Seq<char> {
    if desired {
        "enabled"@
    } else {
        "disabled"@
    }
}

/// The token announcing the desired power state to the platform driver.
pub fn power_state_token(desired: bool) -> (token: &'static str)
    ensures
        token@ == spec_power_state_token(desired),
{
    if desired {
        "enabled"
    } else {
        "disabled"
    }
}

/// The token written to an indicator's brightness attribute: `1` for lit,
/// `0` for dark.
pub open spec fn spec_led_token(on: bool) -> Seq<char> {
    if on {
        "1"@
    } else {
        "0"@
    }
}

/// The token driving an indicator light.
pub fn led_token(on: bool) -> (token: &'static str)
    ensures
        token@ == spec_led_token(on),
{
    if on {
        "1"
    } else {
        "0"
    }
}

/// The power indicator's brightness attribute on current board revisions.
pub fn power_led_path() -> (path: &'static str)
    ensures
        path@ == "/sys/class/leds/fp::power/brightness"@,
{
    "/sys/class/leds/fp::power/brightness"
}

/// The power indicator's brightness attribute on older board revisions,
/// used when the primary path is absent.
pub fn power_led_fallback_path() -> (path: &'static str)
    ensures
        path@ == "/sys/class/leds/fp:sys/brightness"@,
{
    "/sys/class/leds/fp:sys/brightness"
}

/// The status indicator's brightness attribute on current board revisions.
pub fn status_led_path() -> (path: &'static str)
    ensures
        path@ == "/sys/class/leds/fp::status/brightness"@,
{
    "/sys/class/leds/fp::status/brightness"
}

/// The status indicator's brightness attribute on older board revisions,
/// used when the primary path is absent.
pub fn status_led_fallback_path() -> (path: &'static str)
    ensures
        path@ == "/sys/class/leds/fp:reset/brightness"@,
{
    "/sys/class/leds/fp:reset/brightness"
}

/// Indicator-path resolution: keep the primary attribute path when it
/// exists on the running hardware revision, otherwise take the fallback.
///
/// The caller checks existence once, at construction; the choice is never
/// revisited afterwards.
pub fn fallback_if_not_exist(sysfs: &'static str, fallback: &'static str, sysfs_exists: bool) -> (
    chosen: &'static str)
    ensures
        sysfs_exists ==> chosen@ == sysfs@,
        !sysfs_exists ==> chosen@ == fallback@,
{
    if sysfs_exists {
        sysfs
    } else {
        fallback
    }
}

} // verus!
