//! Errors of the device interface and of the configuration.

use vstd::prelude::*;

verus! {

/// A node of the hwmon device directory.
#[derive(Clone, Copy, Debug, PartialEq, Eq, Structural)]
pub enum Node {
    /// `temp{i}_input`, with the 1-based channel index `i`.
    TempInput(usize),
    /// `fan1_input`: the fan speed in RPM.
    FanInput,
    /// `pwm1_enable`: the PWM mode code.
    PwmEnable,
    /// `pwm1`: the raw firmware level code.
    Pwm,
    /// `device/driver/fan_watchdog`.
    FanWatchdog,
}

/// What went wrong with a node.
#[derive(Clone, Debug, PartialEq, Eq)]
pub enum Fault {
    /// The operating system reported an I/O error; its message.
    Io(String),
    /// The node held no line at all.
    EmptyFile,
    /// Reading failed with "no such device or address" on a node that the
    /// device must have.
    NoSuchDevice,
    /// The first line is not an unsigned decimal number; the line.
    NotANumber(String),
    /// `pwm1_enable` reported a mode code other than 0, 1 or 2.
    UnrecognizedPwmMode(u32),
    /// `pwm1` reported a code that is no firmware level.
    UnrecognizedLevel(u32),
}

/// Why the configuration was refused.
#[derive(Clone, Debug, PartialEq, Eq)]
pub enum ConfigError {
    /// The file could not be read; the message of the I/O error.
    Unreadable(String),
    /// The file is not a well-formed configuration; the parser's message.
    Malformed(String),
    /// A sensor key is not a 1-based index; the key.
    SensorIndex(String),
    /// A fan level key is not a temperature; the key.
    Temperature(String),
    /// A fan level is neither `0`..`7` nor `full-speed`; the value.
    FanLevel(String),
    /// Two fan level entries have the same bound, in millidegrees Celsius.
    DuplicateBound(i64),
}

/// A failure of the device interface or of the configuration.
#[derive(Clone, Debug, PartialEq, Eq)]
pub enum Error {
    /// An I/O failure or a protocol violation on a device node.
    Device(Node, Fault),
    /// A temperature channel that the device does not have. Expected, and
    /// never surfaced past the temperature probe.
    ChannelAbsent,
    /// The configuration could not be loaded.
    Config(ConfigError),
    /// The terminal user interface could not be set up; its message.
    InitializeUi(String),
}

} // verus!
