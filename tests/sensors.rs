use tpfancontrol::error::{Error, Fault, Node};
use tpfancontrol::sysfs::{locate_device, parse_u32, read_line, same_text, LineRead, LocateError};
use tpfancontrol::temp::{ends_probe, read_temps, Temp, TempDisplay, TempScale};

fn line(s: &str) -> LineRead {
    LineRead::Line(s.to_string())
}

fn temp(millidegrees: i64) -> Option<Temp> {
    Some(Temp { millidegrees })
}

#[test]
fn parse_u32_accepts_decimals() {
    assert_eq!(parse_u32("42"), Some(42));
    assert_eq!(parse_u32("0"), Some(0));
    assert_eq!(parse_u32("+7"), Some(7));
    assert_eq!(parse_u32("007"), Some(7));
    assert_eq!(parse_u32("4294967295"), Some(u32::MAX));
}

#[test]
fn parse_u32_refuses_the_rest() {
    for s in ["", "+", "-1", "12a", " 1", "1 ", "4294967296", "99999999999", "++1"] {
        assert_eq!(parse_u32(s), None, "{:?}", s);
    }
}

#[test]
fn read_line_outcomes() {
    let node = Node::TempInput(1);
    assert_eq!(read_line(node, &line("45000")), Ok(45000));
    assert_eq!(read_line(node, &LineRead::NoDevice), Err(Error::ChannelAbsent));
    assert_eq!(read_line(node, &LineRead::Empty), Err(Error::Device(node, Fault::EmptyFile)));
    assert_eq!(
        read_line(node, &line("4.5")),
        Err(Error::Device(node, Fault::NotANumber("4.5".to_string())))
    );
    assert_eq!(
        read_line(node, &LineRead::Failed("io".to_string())),
        Err(Error::Device(node, Fault::Io("io".to_string())))
    );
}

#[test]
fn absent_channel_is_none() {
    let mut slots = vec![None; 4];
    let reads = vec![line("41000"), line("42500"), LineRead::NoDevice, line("44000")];
    assert_eq!(read_temps(&mut slots, &reads), Ok(()));
    assert_eq!(slots, vec![temp(41000), temp(42500), None, temp(44000)]);
}

#[test]
fn absent_channel_can_come_back() {
    let mut slots = vec![temp(1000), None];
    let reads = vec![LineRead::NoDevice, line("30000")];
    assert_eq!(read_temps(&mut slots, &reads), Ok(()));
    assert_eq!(slots, vec![None, temp(30000)]);
}

#[test]
fn io_failure_stops_the_probe() {
    let mut slots = vec![temp(1), temp(2), temp(3)];
    let reads = vec![line("50000"), LineRead::Failed("gone".to_string()), line("60000")];
    assert_eq!(
        read_temps(&mut slots, &reads),
        Err(Error::Device(Node::TempInput(2), Fault::Io("gone".to_string())))
    );
    assert_eq!(slots, vec![temp(50000), temp(2), temp(3)]);
}

#[test]
fn fahrenheit_display_rounds_to_nearest() {
    let d = Temp { millidegrees: 36600 }.display(TempScale::Fahrenheit);
    assert_eq!(d, TempDisplay { degrees: 98, scale: TempScale::Fahrenheit });
}

#[test]
fn celsius_display_rounds_to_nearest() {
    assert_eq!(Temp { millidegrees: 36600 }.display(TempScale::Celsius).degrees, 37);
    assert_eq!(Temp { millidegrees: 36400 }.display(TempScale::Celsius).degrees, 36);
    assert_eq!(Temp { millidegrees: 36500 }.display(TempScale::Celsius).degrees, 37);
    assert_eq!(Temp { millidegrees: -500 }.display(TempScale::Celsius).degrees, -1);
    assert_eq!(Temp { millidegrees: -400 }.display(TempScale::Celsius).degrees, 0);
}

#[test]
fn fahrenheit_display_exact_points() {
    assert_eq!(Temp { millidegrees: 0 }.display(TempScale::Fahrenheit).degrees, 32);
    assert_eq!(Temp { millidegrees: 100000 }.display(TempScale::Fahrenheit).degrees, 212);
    assert_eq!(Temp { millidegrees: -40000 }.display(TempScale::Fahrenheit).degrees, -40);
}

#[test]
fn scale_symbols_and_default() {
    assert_eq!(TempScale::Celsius.symbol(), "\u{B0}C");
    assert_eq!(TempScale::Fahrenheit.symbol(), "\u{B0}F");
    assert_eq!(TempScale::default(), TempScale::Celsius);
}

#[test]
fn same_text_compares_characters() {
    assert!(same_text("thinkpad", "thinkpad"));
    assert!(!same_text("thinkpad", "thinkpa"));
    assert!(!same_text("thinkpad", "thinkpax"));
    assert!(same_text("", ""));
}

fn names(v: &[Option<&str>]) -> Vec<Option<String>> {
    v.iter().map(|n| n.map(|s| s.to_string())).collect()
}

#[test]
fn locate_single_device() {
    let found = locate_device(&names(&[Some("acpitz\n"), None, Some("thinkpad\n"), Some("coretemp\n")]));
    assert_eq!(found, Ok(2));
    assert_eq!(locate_device(&names(&[Some("thinkpad")])), Ok(0));
}

#[test]
fn locate_missing_device() {
    assert_eq!(locate_device(&names(&[Some("acpitz\n"), None])), Err(LocateError::NotFound));
    assert_eq!(locate_device(&names(&[])), Err(LocateError::NotFound));
    assert_eq!(locate_device(&names(&[Some("thinkpad\n\n")])), Err(LocateError::NotFound));
}

#[test]
fn locate_ambiguous_device() {
    let found = locate_device(&names(&[Some("thinkpad\n"), Some("acpitz\n"), Some("thinkpad")]));
    assert_eq!(found, Err(LocateError::Ambiguous));
}

#[test]
fn only_real_failures_end_the_probe() {
    assert!(!ends_probe(&line("45000")));
    assert!(!ends_probe(&LineRead::NoDevice));
    assert!(ends_probe(&LineRead::Empty));
    assert!(ends_probe(&line("hot")));
    assert!(ends_probe(&LineRead::Failed("io".to_string())));
}
