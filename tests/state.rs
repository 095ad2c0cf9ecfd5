use tpfancontrol::error::{ConfigError, Error, Fault, Node};
use tpfancontrol::fan::{FanFirmwareLevel, FanLevel, FanSpeed};
use tpfancontrol::model::{
    parse_fan_level, visible_temps, Config, DesiredFanMode, DesiredManualFanLevel, Selection,
    State, VisibleTempSensors,
};
use tpfancontrol::sysfs::LineRead;
use tpfancontrol::temp::{Temp, TempScale};

fn line(s: &str) -> LineRead {
    LineRead::Line(s.to_string())
}

fn pairs(v: &[(&str, &str)]) -> Vec<(String, String)> {
    v.iter().map(|(k, n)| (k.to_string(), n.to_string())).collect()
}

fn levels(v: &[(i64, &str)]) -> Vec<(i64, String)> {
    v.iter().map(|(b, l)| (*b, l.to_string())).collect()
}

fn config() -> Config {
    Config::from_entries(
        &pairs(&[("1", "CPU"), ("3", "GPU")]),
        &levels(&[(60000, "5"), (40000, "2"), (80000, "full-speed")]),
    )
    .unwrap()
}

fn firmware(level: FanFirmwareLevel) -> DesiredManualFanLevel {
    DesiredManualFanLevel::Firmware(level)
}

#[test]
fn fan_level_selectors() {
    assert_eq!(parse_fan_level("0"), Some(firmware(FanFirmwareLevel::Zero)));
    assert_eq!(parse_fan_level("7"), Some(firmware(FanFirmwareLevel::Seven)));
    assert_eq!(parse_fan_level("full-speed"), Some(DesiredManualFanLevel::FullSpeed));
    for bad in ["8", "", "07", "full speed", "Full-speed", "auto", "-1"] {
        assert_eq!(parse_fan_level(bad), None, "{:?}", bad);
    }
}

#[test]
fn sensor_names_by_index() {
    let c = config();
    assert_eq!(c.sensors, vec![Some("CPU".to_string()), None, Some("GPU".to_string())]);
    let entries = c.fan_level.entries();
    let bounds: Vec<i64> = entries.iter().map(|t| t.bound.millidegrees).collect();
    assert_eq!(bounds, vec![40000, 60000, 80000]);
    assert_eq!(entries[0].level, firmware(FanFirmwareLevel::Two));
    assert_eq!(entries[2].level, DesiredManualFanLevel::FullSpeed);
}

#[test]
fn later_sensor_entry_wins() {
    let c = Config::from_entries(&pairs(&[("2", "a"), ("+2", "b")]), &levels(&[])).unwrap();
    assert_eq!(c.sensors, vec![None, Some("b".to_string())]);
}

#[test]
fn bad_sensor_keys_are_refused() {
    for key in ["0", "x", "", "-1"] {
        let r = Config::from_entries(&pairs(&[("1", "a"), (key, "b")]), &levels(&[(1, "oops")]));
        assert_eq!(r.unwrap_err(), ConfigError::SensorIndex(key.to_string()));
    }
}

#[test]
fn bad_fan_level_is_refused() {
    let r = Config::from_entries(&pairs(&[]), &levels(&[(1, "3"), (2, "fast"), (3, "nine")]));
    assert_eq!(r.unwrap_err(), ConfigError::FanLevel("fast".to_string()));
}

#[test]
fn repeated_bound_is_refused() {
    let r = Config::from_entries(&pairs(&[]), &levels(&[(45000, "3"), (45000, "4")]));
    assert_eq!(r.unwrap_err(), ConfigError::DuplicateBound(45000));
}

fn fresh(writable: bool) -> State {
    let reads = vec![line("65000"), LineRead::NoDevice, line("50000")];
    State::new(config(), &reads, Ok(writable), &line("2"), &line("0"), &line("3000")).unwrap()
}

#[test]
fn new_state_reads_everything() {
    let s = fresh(true);
    assert_eq!(
        s.temps,
        Ok(vec![Some(Temp { millidegrees: 65000 }), None, Some(Temp { millidegrees: 50000 })])
    );
    assert_eq!(s.fan, Ok((FanLevel::Auto, FanSpeed(3000))));
    assert!(s.fan_is_writable);
    assert_eq!(s.visible_temp_sensors, VisibleTempSensors::Active);
    assert_eq!(s.temp_scale, TempScale::Celsius);
    assert_eq!(s.desired_fan_mode, DesiredFanMode::Smart);
    assert_eq!(s.desired_manual_fan_level, DesiredManualFanLevel::FullSpeed);
}

#[test]
fn new_state_fails_on_probe_error() {
    let failure = Error::Device(Node::FanWatchdog, Fault::Io("x".to_string()));
    let reads = vec![line("1"), line("2"), line("3")];
    let r = State::new(config(), &reads, Err(failure.clone()), &line("2"), &line("0"), &line("0"));
    assert_eq!(r.unwrap_err(), failure);
}

#[test]
fn smart_mode_commands_the_selected_level() {
    let s = fresh(true);
    assert_eq!(s.fan_command(), Some(FanLevel::Firmware(FanFirmwareLevel::Five)));
}

#[test]
fn read_only_fan_gets_no_command() {
    assert_eq!(fresh(false).fan_command(), None);
}

#[test]
fn selection_changes_the_command() {
    let mut s = fresh(true);
    s.apply_selection(Selection {
        visible_temp_sensors: VisibleTempSensors::All,
        temp_scale: TempScale::Fahrenheit,
        desired_fan_mode: DesiredFanMode::Manual,
        desired_manual_fan_level: firmware(FanFirmwareLevel::One),
    });
    assert_eq!(s.temp_scale, TempScale::Fahrenheit);
    assert_eq!(s.visible_temp_sensors, VisibleTempSensors::All);
    assert_eq!(s.fan_command(), Some(FanLevel::Firmware(FanFirmwareLevel::One)));
    s.apply_selection(Selection {
        visible_temp_sensors: VisibleTempSensors::All,
        temp_scale: TempScale::Fahrenheit,
        desired_fan_mode: DesiredFanMode::Bios,
        desired_manual_fan_level: firmware(FanFirmwareLevel::One),
    });
    assert_eq!(s.fan_command(), Some(FanLevel::Auto));
}

#[test]
fn update_replaces_readings() {
    let mut s = fresh(true);
    let reads = vec![line("85000"), line("40000"), LineRead::NoDevice];
    s.update_sensors(&reads, &line("1"), &line("255"), &line("4100"));
    assert_eq!(
        s.temps,
        Ok(vec![Some(Temp { millidegrees: 85000 }), Some(Temp { millidegrees: 40000 }), None])
    );
    assert_eq!(s.fan, Ok((FanLevel::Firmware(FanFirmwareLevel::Seven), FanSpeed(4100))));
    assert_eq!(s.fan_command(), Some(FanLevel::FullSpeed));
}

#[test]
fn failed_probe_runs_full_speed_and_is_read_afresh() {
    let mut s = fresh(true);
    let reads = vec![line("85000"), LineRead::Empty, line("1")];
    s.update_sensors(&reads, &line("9"), &line("0"), &line("0"));
    let failure = Error::Device(Node::TempInput(2), Fault::EmptyFile);
    assert_eq!(s.temps, Err(failure));
    assert_eq!(s.fan, Err(Error::Device(Node::PwmEnable, Fault::UnrecognizedPwmMode(9))));
    assert_eq!(s.fan_command(), Some(FanLevel::FullSpeed));
    let reads = vec![line("30000"), LineRead::NoDevice, line("70000")];
    s.update_sensors(&reads, &line("2"), &line("0"), &line("0"));
    assert_eq!(
        s.temps,
        Ok(vec![Some(Temp { millidegrees: 30000 }), None, Some(Temp { millidegrees: 70000 })])
    );
    assert_eq!(s.fan_command(), Some(FanLevel::Firmware(FanFirmwareLevel::Five)));
}

#[test]
fn listed_channels() {
    let names = vec![Some("CPU".to_string()), None, Some("GPU".to_string()), Some("Bat".to_string())];
    let temps = vec![Some(Temp { millidegrees: 1 }), Some(Temp { millidegrees: 2 }), None, Some(Temp { millidegrees: 4 })];
    assert_eq!(
        visible_temps(&names, &temps, VisibleTempSensors::Active),
        vec![(0, Some(Temp { millidegrees: 1 })), (3, Some(Temp { millidegrees: 4 }))]
    );
    assert_eq!(
        visible_temps(&names, &temps, VisibleTempSensors::All),
        vec![(0, Some(Temp { millidegrees: 1 })), (2, None), (3, Some(Temp { millidegrees: 4 }))]
    );
    assert_eq!(visible_temps(&names[..2].to_vec(), &temps, VisibleTempSensors::All).len(), 1);
}

#[test]
fn labels_and_defaults() {
    assert_eq!(VisibleTempSensors::default(), VisibleTempSensors::Active);
    assert_eq!(DesiredFanMode::default(), DesiredFanMode::Smart);
    assert_eq!(DesiredManualFanLevel::default(), DesiredManualFanLevel::FullSpeed);
    assert_eq!(VisibleTempSensors::All.label(), "all");
    assert_eq!(VisibleTempSensors::Active.label(), "active");
    assert_eq!(DesiredFanMode::Bios.label(), "BIOS");
    assert_eq!(DesiredFanMode::Smart.label(), "Smart");
    assert_eq!(DesiredFanMode::Manual.label(), "Manual");
    assert_eq!(DesiredManualFanLevel::FullSpeed.label(), "Full speed");
    assert_eq!(firmware(FanFirmwareLevel::Four).label(), "4");
    assert_eq!(DesiredManualFanLevel::FullSpeed.to_fan_level(), FanLevel::FullSpeed);
}
