//! Fan control for ThinkPad laptops through the `thinkpad_acpi` hwmon interface.
//!
//! The library holds the device model and the control policy: decoding what the
//! sysfs nodes report, choosing a fan level from a threshold table, and planning
//! the writes that put the fan in a desired mode. Reading and writing the files
//! themselves is left to the caller, which hands the outcomes in as plain values.

pub mod error;
pub mod fan;
pub mod model;
pub mod policy;
pub mod sysfs;
pub mod temp;
