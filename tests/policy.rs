use tpfancontrol::error::ConfigError;
use tpfancontrol::fan::FanFirmwareLevel;
use tpfancontrol::model::DesiredManualFanLevel;
use tpfancontrol::policy::{select, Threshold, ThresholdTable};
use tpfancontrol::temp::Temp;

fn threshold(degrees: i64, level: DesiredManualFanLevel) -> Threshold {
    Threshold { bound: Temp { millidegrees: degrees * 1000 }, level }
}

fn firmware(level: FanFirmwareLevel) -> DesiredManualFanLevel {
    DesiredManualFanLevel::Firmware(level)
}

fn table() -> ThresholdTable {
    ThresholdTable::new(&vec![
        threshold(40, firmware(FanFirmwareLevel::Two)),
        threshold(60, firmware(FanFirmwareLevel::Five)),
        threshold(80, DesiredManualFanLevel::FullSpeed),
    ])
    .unwrap()
}

fn readings(degrees: &[Option<i64>]) -> Vec<Option<Temp>> {
    degrees.iter().map(|d| d.map(|d| Temp { millidegrees: d * 1000 })).collect()
}

fn rank(level: DesiredManualFanLevel) -> u32 {
    match level {
        DesiredManualFanLevel::Firmware(l) => l.label().parse().unwrap(),
        DesiredManualFanLevel::FullSpeed => 8,
    }
}

#[test]
fn max_temperature_65_selects_level_five() {
    let r = select(&table(), &readings(&[Some(50), None, Some(65), Some(30)]));
    assert_eq!(r, firmware(FanFirmwareLevel::Five));
}

#[test]
fn max_temperature_35_selects_full_speed() {
    let r = select(&table(), &readings(&[Some(35), Some(20)]));
    assert_eq!(r, DesiredManualFanLevel::FullSpeed);
}

#[test]
fn no_reading_selects_full_speed() {
    assert_eq!(select(&table(), &readings(&[None, None, None])), DesiredManualFanLevel::FullSpeed);
    assert_eq!(select(&table(), &readings(&[])), DesiredManualFanLevel::FullSpeed);
    let empty = ThresholdTable::new(&vec![]).unwrap();
    assert_eq!(select(&empty, &readings(&[None])), DesiredManualFanLevel::FullSpeed);
}

#[test]
fn bound_itself_is_not_exceeded() {
    assert_eq!(select(&table(), &readings(&[Some(60)])), firmware(FanFirmwareLevel::Two));
    let just_above = vec![Some(Temp { millidegrees: 60001 })];
    assert_eq!(select(&table(), &just_above), firmware(FanFirmwareLevel::Five));
}

#[test]
fn above_every_bound_takes_the_last() {
    assert_eq!(select(&table(), &readings(&[Some(95)])), DesiredManualFanLevel::FullSpeed);
}

#[test]
fn raising_the_maximum_never_lowers_the_level() {
    let t = table();
    let mut last = 0;
    for max in 41..100 {
        let level = select(&t, &readings(&[Some(max), Some(30), None]));
        assert!(rank(level) >= last, "at {}", max);
        last = rank(level);
    }
}

#[test]
fn table_is_sorted_by_bound() {
    let t = ThresholdTable::new(&vec![
        threshold(80, DesiredManualFanLevel::FullSpeed),
        threshold(40, firmware(FanFirmwareLevel::Two)),
        threshold(60, firmware(FanFirmwareLevel::Five)),
    ])
    .unwrap();
    assert_eq!(t.entries(), table().entries());
    assert_eq!(select(&t, &readings(&[Some(65)])), firmware(FanFirmwareLevel::Five));
}

#[test]
fn table_refuses_a_repeated_bound() {
    let r = ThresholdTable::new(&vec![
        threshold(40, firmware(FanFirmwareLevel::Two)),
        threshold(60, firmware(FanFirmwareLevel::Five)),
        threshold(40, DesiredManualFanLevel::FullSpeed),
    ]);
    assert_eq!(r.unwrap_err(), ConfigError::DuplicateBound(40000));
}
