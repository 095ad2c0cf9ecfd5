//! Fan telemetry and actuation: the firmware level codec, decoding the PWM
//! nodes, and the writes that put the fan into a mode.

use vstd::prelude::*;

use crate::error::{Error, Fault, Node};
use crate::sysfs::{line_value, read_line, LineRead};

verus! {

/// One of the eight fan steps of the embedded controller.
#[derive(Clone, Copy, Debug, PartialEq, Eq, Structural)]
pub enum FanFirmwareLevel {
    Zero,
    One,
    Two,
    Three,
    Four,
    Five,
    Six,
    Seven,
}

/// The raw code that the `pwm1` node uses for a firmware level.
pub open spec fn hwmon_code(level: FanFirmwareLevel) -> u32 {
    match level {
        FanFirmwareLevel::Zero => 0,
        FanFirmwareLevel::One => 36,
        FanFirmwareLevel::Two => 72,
        FanFirmwareLevel::Three => 109,
        FanFirmwareLevel::Four => 145,
        FanFirmwareLevel::Five => 182,
        FanFirmwareLevel::Six => 218,
        FanFirmwareLevel::Seven => 255,
    }
}

/// The firmware level whose raw code is `code`, if there is one.
pub open spec fn level_of_code(code: u32) -> Option<FanFirmwareLevel> {
    if code == 0 {
        Some(FanFirmwareLevel::Zero)
    } else if code == 36 {
        Some(FanFirmwareLevel::One)
    } else if code == 72 {
        Some(FanFirmwareLevel::Two)
    } else if code == 109 {
        Some(FanFirmwareLevel::Three)
    } else if code == 145 {
        Some(FanFirmwareLevel::Four)
    } else if code == 182 {
        Some(FanFirmwareLevel::Five)
    } else if code == 218 {
        Some(FanFirmwareLevel::Six)
    } else if code == 255 {
        Some(FanFirmwareLevel::Seven)
    } else {
        None
    }
}

/// The position of a firmware level among the eight, from 0 to 7.
pub open spec fn ordinal(level: FanFirmwareLevel) -> nat {
    match level {
        FanFirmwareLevel::Zero => 0,
        FanFirmwareLevel::One => 1,
        FanFirmwareLevel::Two => 2,
        FanFirmwareLevel::Three => 3,
        FanFirmwareLevel::Four => 4,
        FanFirmwareLevel::Five => 5,
        FanFirmwareLevel::Six => 6,
        FanFirmwareLevel::Seven => 7,
    }
}

/// The digit that shows a firmware level.
pub open spec fn firmware_label(level: FanFirmwareLevel) -> Seq<char> {
    match level {
        FanFirmwareLevel::Zero => "0"@,
        FanFirmwareLevel::One => "1"@,
        FanFirmwareLevel::Two => "2"@,
        FanFirmwareLevel::Three => "3"@,
        FanFirmwareLevel::Four => "4"@,
        FanFirmwareLevel::Five => "5"@,
        FanFirmwareLevel::Six => "6"@,
        FanFirmwareLevel::Seven => "7"@,
    }
}

impl FanFirmwareLevel {
    /// Decodes a raw `pwm1` code; any code outside the eight known ones gives `None`.
    pub fn from_hwmon_level(hwmon_level: u32) -> (r: Option<FanFirmwareLevel>)
        ensures
            r == level_of_code(hwmon_level),
    {
        match hwmon_level {
            0 => Some(FanFirmwareLevel::Zero),
            36 => Some(FanFirmwareLevel::One),
            72 => Some(FanFirmwareLevel::Two),
            109 => Some(FanFirmwareLevel::Three),
            145 => Some(FanFirmwareLevel::Four),
            182 => Some(FanFirmwareLevel::Five),
            218 => Some(FanFirmwareLevel::Six),
            255 => Some(FanFirmwareLevel::Seven),
            _ => None,
        }
    }

    /// The raw `pwm1` code of this level.
    pub fn to_hwmon_level(self) -> (r: u32)
        ensures
            r == hwmon_code(self),
    {
        match self {
            FanFirmwareLevel::Zero => 0,
            FanFirmwareLevel::One => 36,
            FanFirmwareLevel::Two => 72,
            FanFirmwareLevel::Three => 109,
            FanFirmwareLevel::Four => 145,
            FanFirmwareLevel::Five => 182,
            FanFirmwareLevel::Six => 218,
            FanFirmwareLevel::Seven => 255,
        }
    }

    /// The level's number, `0` to `7`, as it is shown.
    pub fn label(&self) -> (r: &'static str)
        ensures
            r@ == firmware_label(*self),
    {
        match self {
            FanFirmwareLevel::Zero => "0",
            FanFirmwareLevel::One => "1",
            FanFirmwareLevel::Two => "2",
            FanFirmwareLevel::Three => "3",
            FanFirmwareLevel::Four => "4",
            FanFirmwareLevel::Five => "5",
            FanFirmwareLevel::Six => "6",
            FanFirmwareLevel::Seven => "7",
        }
    }
}

/// Decoding a code and encoding the level again gives the code back, for each of
/// the eight known codes; every other code decodes to nothing.
pub proof fn lemma_hwmon_code_round_trip(code: u32)
    ensures
        (code == 0 || code == 36 || code == 72 || code == 109 || code == 145 || code == 182
            || code == 218 || code == 255) ==> level_of_code(code) is Some && hwmon_code(
            level_of_code(code)->0,
        ) == code,
        !(code == 0 || code == 36 || code == 72 || code == 109 || code == 145 || code == 182
            || code == 218 || code == 255) ==> level_of_code(code) is None,
{
}

/// Encoding a level and decoding the code gives the level back.
pub proof fn lemma_level_round_trip(level: FanFirmwareLevel)
    ensures
        level_of_code(hwmon_code(level)) == Some(level),
{
}

/// The mode the fan runs in: under the firmware's own control, at a fixed
/// firmware level, or at full speed. Both what the device reports and what is
/// asked of it.
#[derive(Clone, Copy, Debug, PartialEq, Eq, Structural)]
pub enum FanLevel {
    Auto,
    Firmware(FanFirmwareLevel),
    FullSpeed,
}

impl FanLevel {
    /// The mode as it is shown.
    pub fn label(&self) -> (r: &'static str)
        ensures
            *self == FanLevel::Auto ==> r@ == "Auto"@,
            *self == FanLevel::FullSpeed ==> r@ == "Full speed"@,
            *self matches FanLevel::Firmware(l) ==> r@ == firmware_label(l),
    {
        match self {
            FanLevel::Auto => "Auto",
            FanLevel::Firmware(level) => level.label(),
            FanLevel::FullSpeed => "Full speed",
        }
    }
}

/// The fan's rotational speed in RPM.
#[derive(Clone, Copy, Debug, PartialEq, Eq, Structural)]
pub struct FanSpeed(pub u32);

/// The value that a fan node reported. The fan's nodes are never absent, so
/// "no such device" on one of them is a device error like any other.
pub open spec fn fan_node_value(node: Node, read: LineRead) -> Result<u32, Error> {
    match line_value(node, read) {
        Err(Error::ChannelAbsent) => Err(Error::Device(node, Fault::NoSuchDevice)),
        other => other,
    }
}

fn read_fan_node(node: Node, read: &LineRead) -> (r: Result<u32, Error>)
    ensures
        r == fan_node_value(node, *read),
{
    match read_line(node, read) {
        Err(Error::ChannelAbsent) => Err(Error::Device(node, Fault::NoSuchDevice)),
        other => other,
    }
}

/// Whether decoding the fan's telemetry looks at `pwm1`: only when
/// `pwm1_enable` reads mode 1.
pub fn reads_level(mode: &LineRead) -> (r: bool)
    ensures
        r == (fan_node_value(Node::PwmEnable, *mode) == Ok::<u32, Error>(1)),
{
    match read_fan_node(Node::PwmEnable, mode) {
        Ok(m) => m == 1,
        Err(_) => false,
    }
}

/// The fan mode for a `pwm1_enable` code `mode`, where `level` is what reading
/// `pwm1` gave; only mode 1 looks at it.
pub open spec fn fan_mode(mode: u32, level: LineRead) -> Result<FanLevel, Error> {
    if mode == 2 {
        Ok(FanLevel::Auto)
    } else if mode == 1 {
        match fan_node_value(Node::Pwm, level) {
            Ok(code) => match level_of_code(code) {
                Some(l) => Ok(FanLevel::Firmware(l)),
                None => Err(Error::Device(Node::Pwm, Fault::UnrecognizedLevel(code))),
            },
            Err(e) => Err(e),
        }
    } else if mode == 0 {
        Ok(FanLevel::FullSpeed)
    } else {
        Err(Error::Device(Node::PwmEnable, Fault::UnrecognizedPwmMode(mode)))
    }
}

/// The fan's mode and speed, from what reading `pwm1_enable`, `pwm1` and
/// `fan1_input` gave. The first failure, in that order, is the result.
pub open spec fn fan_state(mode: LineRead, level: LineRead, speed: LineRead) -> Result<
    (FanLevel, FanSpeed),
    Error,
> {
    match fan_node_value(Node::PwmEnable, mode) {
        Ok(m) => match fan_mode(m, level) {
            Ok(l) => match fan_node_value(Node::FanInput, speed) {
                Ok(s) => Ok((l, FanSpeed(s))),
                Err(e) => Err(e),
            },
            Err(e) => Err(e),
        },
        Err(e) => Err(e),
    }
}

/// Decodes the fan's telemetry: `mode`, `level` and `speed` are what reading
/// `pwm1_enable`, `pwm1` and `fan1_input` gave. `level` is looked at only in
/// mode 1 (see `reads_level`). Every failure is a device error that names
/// its node.
pub fn read_fan(mode: &LineRead, level: &LineRead, speed: &LineRead) -> (r: Result<
    (FanLevel, FanSpeed),
    Error,
>)
    ensures
        r == fan_state(*mode, *level, *speed),
        r matches Err(e) ==> e is Device,
{
    let pwm_mode = match read_fan_node(Node::PwmEnable, mode) {
        Ok(m) => m,
        Err(e) => return Err(e),
    };
    let fan_level = if pwm_mode == 2 {
        FanLevel::Auto
    } else if pwm_mode == 1 {
        let code = match read_fan_node(Node::Pwm, level) {
            Ok(c) => c,
            Err(e) => return Err(e),
        };
        match FanFirmwareLevel::from_hwmon_level(code) {
            Some(l) => FanLevel::Firmware(l),
            None => return Err(Error::Device(Node::Pwm, Fault::UnrecognizedLevel(code))),
        }
    } else if pwm_mode == 0 {
        FanLevel::FullSpeed
    } else {
        return Err(Error::Device(Node::PwmEnable, Fault::UnrecognizedPwmMode(pwm_mode)));
    };
    match read_fan_node(Node::FanInput, speed) {
        Ok(s) => Ok((fan_level, FanSpeed(s))),
        Err(e) => Err(e),
    }
}

/// What writing the watchdog node gave.
#[derive(Clone, Debug, PartialEq, Eq)]
pub enum WatchdogWrite {
    /// The value was written.
    Written,
    /// Opening the node for writing, or writing it, was refused for want of
    /// permission.
    PermissionDenied,
    /// Opening or writing failed otherwise; the message of the I/O error.
    Failed(String),
}

/// The value written to the watchdog node: the seconds after which the fan
/// returns to automatic control unless it is written again, twice the update
/// interval.
pub fn watchdog_timeout(update_interval_secs: u64) -> (r: u64)
    requires
        update_interval_secs <= u64::MAX / 2,
    ensures
        r == 2 * update_interval_secs,
{
    update_interval_secs * 2
}

/// Whether the fan accepts software control, from what writing the watchdog
/// node gave. Denied permission means a read-only fan, not a failure.
pub fn fan_is_writable(outcome: &WatchdogWrite) -> (r: Result<bool, Error>)
    ensures
        *outcome == WatchdogWrite::Written ==> r == Ok::<bool, Error>(true),
        *outcome == WatchdogWrite::PermissionDenied ==> r == Ok::<bool, Error>(false),
        *outcome matches WatchdogWrite::Failed(m) ==> r == Err::<bool, Error>(
            Error::Device(Node::FanWatchdog, Fault::Io(m)),
        ),
{
    match outcome {
        WatchdogWrite::Written => Ok(true),
        WatchdogWrite::PermissionDenied => Ok(false),
        WatchdogWrite::Failed(m) => Err(Error::Device(Node::FanWatchdog, Fault::Io(m.clone()))),
    }
}

/// One write of a decimal value to a device node.
#[derive(Clone, Copy, Debug, PartialEq, Eq, Structural)]
pub struct NodeWrite {
    pub node: Node,
    pub value: u32,
}

/// The writes that put the fan into `level`, in the order they must be made.
pub open spec fn fan_write_plan(level: FanLevel) -> Seq<NodeWrite> {
    match level {
        FanLevel::Auto => seq![NodeWrite { node: Node::PwmEnable, value: 2 }],
        FanLevel::Firmware(l) => seq![
            NodeWrite { node: Node::PwmEnable, value: 1 },
            NodeWrite { node: Node::Pwm, value: hwmon_code(l) },
        ],
        FanLevel::FullSpeed => seq![NodeWrite { node: Node::PwmEnable, value: 0 }],
    }
}

/// The writes that put the fan into `level`: `2` to `pwm1_enable` for automatic
/// control; `1` to `pwm1_enable` and then the level's code to `pwm1` for a
/// firmware level; `0` to `pwm1_enable` for full speed. The caller makes them
/// in order and stops at the first that fails.
pub fn fan_writes(level: FanLevel) -> (r: Vec<NodeWrite>)
    ensures
        r@ == fan_write_plan(level),
{
    let mut writes: Vec<NodeWrite> = Vec::new();
    match level {
        FanLevel::Auto => {
            writes.push(NodeWrite { node: Node::PwmEnable, value: 2 });
        },
        FanLevel::Firmware(l) => {
            writes.push(NodeWrite { node: Node::PwmEnable, value: 1 });
            writes.push(NodeWrite { node: Node::Pwm, value: l.to_hwmon_level() });
        },
        FanLevel::FullSpeed => {
            writes.push(NodeWrite { node: Node::PwmEnable, value: 0 });
        },
    }
    assert(writes@ =~= fan_write_plan(level));
    writes
}

} // verus!
