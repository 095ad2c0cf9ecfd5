//! The control state: configuration, the latest readings, and what the user
//! selected.

use vstd::prelude::*;

use crate::error::{ConfigError, Error};
use crate::fan::{fan_state, read_fan, FanFirmwareLevel, FanLevel, FanSpeed, ordinal, firmware_label};
use crate::policy::{select, select_spec};
use crate::sysfs::LineRead;
use crate::temp::{probed, read_temps, unread, TempScale};
use crate::policy::{distinct_bounds, same_entries, strictly_ascending, Threshold, ThresholdTable};
use crate::sysfs::{decimal_u32, parse_u32, same_text};
use crate::temp::Temp;

verus! {

/// A fan level that can be asked for by hand or by a threshold: a firmware
/// level or full speed.
#[derive(Clone, Copy, Debug, PartialEq, Eq, Structural)]
pub enum DesiredManualFanLevel {
    Firmware(FanFirmwareLevel),
    FullSpeed,
}

/// How fast a desired level runs the fan: the firmware levels 0 to 7, then
/// full speed as 8.
pub open spec fn fan_rank(level: DesiredManualFanLevel) -> nat {
    match level {
        DesiredManualFanLevel::Firmware(l) => ordinal(l),
        DesiredManualFanLevel::FullSpeed => 8,
    }
}

impl Default for DesiredManualFanLevel {
    fn default() -> (r: Self)
        ensures
            r == DesiredManualFanLevel::FullSpeed,
    {
        DesiredManualFanLevel::FullSpeed
    }
}

impl DesiredManualFanLevel {
    /// The fan mode that runs the fan at this level.
    pub fn to_fan_level(self) -> (r: FanLevel)
        ensures
            r == fan_level_of(self),
    {
        match self {
            DesiredManualFanLevel::Firmware(l) => FanLevel::Firmware(l),
            DesiredManualFanLevel::FullSpeed => FanLevel::FullSpeed,
        }
    }

    /// The level as it is shown.
    pub fn label(&self) -> (r: &'static str)
        ensures
            *self == DesiredManualFanLevel::FullSpeed ==> r@ == "Full speed"@,
            *self matches DesiredManualFanLevel::Firmware(l) ==> r@ == firmware_label(l),
    {
        match self {
            DesiredManualFanLevel::Firmware(l) => l.label(),
            DesiredManualFanLevel::FullSpeed => "Full speed",
        }
    }
}

/// The fan mode that runs the fan at a desired level.
pub open spec fn fan_level_of(level: DesiredManualFanLevel) -> FanLevel {
    match level {
        DesiredManualFanLevel::Firmware(l) => FanLevel::Firmware(l),
        DesiredManualFanLevel::FullSpeed => FanLevel::FullSpeed,
    }
}

/// Which temperature channels are listed: all named ones, or only the named
/// ones that have a reading.
#[derive(Clone, Copy, Debug, PartialEq, Eq, Structural)]
pub enum VisibleTempSensors {
    All,
    Active,
}

impl Default for VisibleTempSensors {
    fn default() -> (r: Self)
        ensures
            r == VisibleTempSensors::Active,
    {
        VisibleTempSensors::Active
    }
}

impl VisibleTempSensors {
    /// The choice as it is shown.
    pub fn label(&self) -> (r: &'static str)
        ensures
            *self == VisibleTempSensors::All ==> r@ == "all"@,
            *self == VisibleTempSensors::Active ==> r@ == "active"@,
    {
        match self {
            VisibleTempSensors::All => "all",
            VisibleTempSensors::Active => "active",
        }
    }
}

/// Who drives the fan: the BIOS, the threshold table, or the user's fixed level.
#[derive(Clone, Copy, Debug, PartialEq, Eq, Structural)]
pub enum DesiredFanMode {
    Bios,
    Smart,
    Manual,
}

impl Default for DesiredFanMode {
    fn default() -> (r: Self)
        ensures
            r == DesiredFanMode::Smart,
    {
        DesiredFanMode::Smart
    }
}

impl DesiredFanMode {
    /// The mode as it is shown.
    pub fn label(&self) -> (r: &'static str)
        ensures
            *self == DesiredFanMode::Bios ==> r@ == "BIOS"@,
            *self == DesiredFanMode::Smart ==> r@ == "Smart"@,
            *self == DesiredFanMode::Manual ==> r@ == "Manual"@,
    {
        match self {
            DesiredFanMode::Bios => "BIOS",
            DesiredFanMode::Smart => "Smart",
            DesiredFanMode::Manual => "Manual",
        }
    }
}

/// The firmware level that a digit names, `0` to `7`.
pub open spec fn digit_level(c: char) -> Option<FanFirmwareLevel> {
    if c == '0' {
        Some(FanFirmwareLevel::Zero)
    } else if c == '1' {
        Some(FanFirmwareLevel::One)
    } else if c == '2' {
        Some(FanFirmwareLevel::Two)
    } else if c == '3' {
        Some(FanFirmwareLevel::Three)
    } else if c == '4' {
        Some(FanFirmwareLevel::Four)
    } else if c == '5' {
        Some(FanFirmwareLevel::Five)
    } else if c == '6' {
        Some(FanFirmwareLevel::Six)
    } else if c == '7' {
        Some(FanFirmwareLevel::Seven)
    } else {
        None
    }
}

/// The level that a configuration value names: `full-speed`, or one digit `0`
/// to `7` for a firmware level.
pub open spec fn selector_level(s: Seq<char>) -> Option<DesiredManualFanLevel> {
    if s == "full-speed"@ {
        Some(DesiredManualFanLevel::FullSpeed)
    } else if s.len() == 1 && digit_level(s[0]) is Some {
        Some(DesiredManualFanLevel::Firmware(digit_level(s[0])->0))
    } else {
        None
    }
}

/// Reads a fan level of the configuration: `0` to `7` or `full-speed`.
pub fn parse_fan_level(s: &str) -> (r: Option<DesiredManualFanLevel>)
    ensures
        r == selector_level(s@),
{
    if same_text(s, "full-speed") {
        return Some(DesiredManualFanLevel::FullSpeed);
    }
    if s.unicode_len() != 1 {
        return None;
    }
    let c = s.get_char(0);
    let level = if c == '0' {
        FanFirmwareLevel::Zero
    } else if c == '1' {
        FanFirmwareLevel::One
    } else if c == '2' {
        FanFirmwareLevel::Two
    } else if c == '3' {
        FanFirmwareLevel::Three
    } else if c == '4' {
        FanFirmwareLevel::Four
    } else if c == '5' {
        FanFirmwareLevel::Five
    } else if c == '6' {
        FanFirmwareLevel::Six
    } else if c == '7' {
        FanFirmwareLevel::Seven
    } else {
        return None;
    };
    Some(DesiredManualFanLevel::Firmware(level))
}

/// The 1-based channel index that a sensor key names.
pub open spec fn sensor_slot(key: Seq<char>) -> Option<int> {
    match decimal_u32(key) {
        Some(v) => if v >= 1 {
            Some(v as int)
        } else {
            None
        },
        None => None,
    }
}

/// `names` with `name` for channel `index` (1-based), grown with unnamed
/// channels to reach it.
pub open spec fn with_name(names: Seq<Option<String>>, index: int, name: String) -> Seq<
    Option<String>,
> {
    let grown = if names.len() < index {
        names + Seq::new((index - names.len()) as nat, |j: int| None::<String>)
    } else {
        names
    };
    grown.update(index - 1, Some(name))
}

/// The channel names that the sensor entries give, in order: a later entry
/// for a channel replaces an earlier one. Entries with a bad key are passed over.
pub open spec fn sensor_names(entries: Seq<(String, String)>) -> Seq<Option<String>>
    decreases entries.len(),
{
    if entries.len() == 0 {
        Seq::empty()
    } else {
        let names = sensor_names(entries.drop_last());
        match sensor_slot(entries.last().0@) {
            Some(i) => with_name(names, i, entries.last().1),
            None => names,
        }
    }
}

/// Every sensor key names a 1-based channel index.
pub open spec fn sensor_keys_valid(entries: Seq<(String, String)>) -> bool {
    forall|i: int| 0 <= i < entries.len() ==> sensor_slot((#[trigger] entries[i]).0@) is Some
}

/// Every fan level entry names a level.
pub open spec fn selectors_valid(entries: Seq<(i64, String)>) -> bool {
    forall|i: int| 0 <= i < entries.len() ==> selector_level((#[trigger] entries[i]).1@) is Some
}

/// The thresholds that the fan level entries give: a bound in millidegrees
/// Celsius, and a level.
pub open spec fn thresholds_of(entries: Seq<(i64, String)>) -> Seq<Threshold> {
    Seq::new(
        entries.len(),
        |i: int|
            Threshold {
                bound: Temp { millidegrees: entries[i].0 },
                level: selector_level(entries[i].1@)->0,
            },
    )
}

/// The sensor names and the threshold table.
#[derive(Debug)]
pub struct Config {
    /// The name of each temperature channel, by position (channel 1 first);
    /// `None` for a channel that is read but not shown.
    pub sensors: Vec<Option<String>>,
    /// The thresholds of smart mode.
    pub fan_level: ThresholdTable,
}

fn name_channel(names: &mut Vec<Option<String>>, index: usize, name: &String)
    requires
        index >= 1,
    ensures
        final(names)@ == with_name(old(names)@, index as int, *name),
{
    let ghost before = names@;
    while names.len() < index
        invariant
            index >= 1,
            before.len() <= names.len(),
            names.len() <= index || names.len() == before.len(),
            names@ =~= before + Seq::new(
                (names.len() - before.len()) as nat,
                |j: int| None::<String>,
            ),
        decreases index - names.len(),
    {
        names.push(None);
    }
    names.set(index - 1, Some(name.clone()));
    assert(names@ =~= with_name(before, index as int, *name));
}

impl Config {
    /// Builds the configuration from its two tables, already parsed: the
    /// sensor entries map a 1-based channel index, written in decimal, to a
    /// name; the fan level entries map a bound in millidegrees Celsius to a
    /// level, `0` to `7` or `full-speed`. The first bad sensor key is refused,
    /// then the first bad level, then a bound given twice.
    pub fn from_entries(sensors: &Vec<(String, String)>, fan_level: &Vec<(i64, String)>) -> (r:
        Result<Config, ConfigError>)
        ensures
            r is Ok <==> sensor_keys_valid(sensors@) && selectors_valid(fan_level@)
                && distinct_bounds(thresholds_of(fan_level@)),
            r matches Ok(c) ==> c.sensors@ == sensor_names(sensors@) && strictly_ascending(
                c.fan_level@,
            ) && same_entries(c.fan_level@, thresholds_of(fan_level@)),
            !sensor_keys_valid(sensors@) ==> exists|i: int|
                0 <= i < sensors.len() && sensor_slot(sensors[i].0@) is None && sensor_keys_valid(
                    #[trigger] sensors@.take(i),
                ) && r == Err::<Config, ConfigError>(ConfigError::SensorIndex(sensors[i].0)),
            sensor_keys_valid(sensors@) && !selectors_valid(fan_level@) ==> exists|i: int|
                0 <= i < fan_level.len() && selector_level(fan_level[i].1@) is None
                    && selectors_valid(#[trigger] fan_level@.take(i)) && r == Err::<
                    Config,
                    ConfigError,
                >(ConfigError::FanLevel(fan_level[i].1)),
            sensor_keys_valid(sensors@) && selectors_valid(fan_level@) ==> (r matches Err(e)
                ==> exists|j: int|
                0 <= j < fan_level.len() && distinct_bounds(thresholds_of(fan_level@).take(j))
                    && !distinct_bounds(#[trigger] thresholds_of(fan_level@).take(j + 1)) && e
                    == ConfigError::DuplicateBound(fan_level[j].0)),
    {
        let mut names: Vec<Option<String>> = Vec::new();
        let mut i: usize = 0;
        while i < sensors.len()
            invariant
                i <= sensors.len(),
                sensor_keys_valid(sensors@.take(i as int)),
                names@ == sensor_names(sensors@.take(i as int)),
            decreases sensors.len() - i,
        {
            let ghost prefix = sensors@.take(i as int + 1);
            proof {
                assert(prefix.drop_last() =~= sensors@.take(i as int));
                assert(prefix.last() == sensors@[i as int]);
            }
            let key = &sensors[i].0;
            let index = match parse_u32(key.as_str()) {
                Some(v) => v,
                None => return Err(ConfigError::SensorIndex(key.clone())),
            };
            if index == 0 {
                return Err(ConfigError::SensorIndex(key.clone()));
            }
            name_channel(&mut names, index as usize, &sensors[i].1);
            i = i + 1;
            proof {
                assert forall|j: int| 0 <= j < prefix.len() implies sensor_slot(
                    (#[trigger] prefix[j]).0@,
                ) is Some by {
                    if j < i - 1 {
                        assert(prefix[j] == sensors@.take(i - 1)[j]);
                    }
                }
            }
        }
        assert(sensors@.take(i as int) =~= sensors@);
        let mut thresholds: Vec<Threshold> = Vec::new();
        let mut k: usize = 0;
        while k < fan_level.len()
            invariant
                k <= fan_level.len(),
                sensor_keys_valid(sensors@),
                selectors_valid(fan_level@.take(k as int)),
                thresholds@ =~= thresholds_of(fan_level@.take(k as int)),
            decreases fan_level.len() - k,
        {
            let level = match parse_fan_level(fan_level[k].1.as_str()) {
                Some(l) => l,
                None => return Err(ConfigError::FanLevel(fan_level[k].1.clone())),
            };
            thresholds.push(Threshold { bound: Temp { millidegrees: fan_level[k].0 }, level });
            k = k + 1;
            proof {
                let prefix = fan_level@.take(k as int);
                assert forall|j: int| 0 <= j < prefix.len() implies selector_level(
                    (#[trigger] prefix[j]).1@,
                ) is Some by {
                    if j < k - 1 {
                        assert(prefix[j] == fan_level@.take(k - 1)[j]);
                    }
                }
            }
        }
        assert(fan_level@.take(k as int) =~= fan_level@);
        match ThresholdTable::new(&thresholds) {
            Ok(table) => Ok(Config { sensors: names, fan_level: table }),
            Err(e) => Err(e),
        }
    }
}

/// Whether a channel is listed: it must have a name, and, unless all are
/// asked for, a reading.
pub open spec fn shown(name: Option<String>, temp: Option<Temp>, which: VisibleTempSensors) -> bool {
    name is Some && (temp is Some || which == VisibleTempSensors::All)
}

/// The listed channels among the first `n`: each one's 0-based index and reading.
pub open spec fn visible_rows(
    names: Seq<Option<String>>,
    temps: Seq<Option<Temp>>,
    which: VisibleTempSensors,
    n: int,
) -> Seq<(usize, Option<Temp>)>
    decreases n,
{
    if n <= 0 {
        Seq::empty()
    } else {
        let rest = visible_rows(names, temps, which, n - 1);
        if shown(names[n - 1], temps[n - 1], which) {
            rest.push(((n - 1) as usize, temps[n - 1]))
        } else {
            rest
        }
    }
}

/// The channels to list, in order, with their readings: those with a name
/// and, unless `which` is `All`, a reading. Channels beyond the shorter of
/// `names` and `temps` are not listed.
pub fn visible_temps(
    names: &Vec<Option<String>>,
    temps: &Vec<Option<Temp>>,
    which: VisibleTempSensors,
) -> (r: Vec<(usize, Option<Temp>)>)
    ensures
        r@ == visible_rows(
            names@,
            temps@,
            which,
            if names.len() < temps.len() {
                names.len() as int
            } else {
                temps.len() as int
            },
        ),
{
    let n = if names.len() < temps.len() {
        names.len()
    } else {
        temps.len()
    };
    let mut rows: Vec<(usize, Option<Temp>)> = Vec::new();
    let mut i: usize = 0;
    while i < n
        invariant
            i <= n,
            n <= names.len(),
            n <= temps.len(),
            rows@ == visible_rows(names@, temps@, which, i as int),
        decreases n - i,
    {
        let listed = match &names[i] {
            Some(_) => match temps[i] {
                Some(_) => true,
                None => match which {
                    VisibleTempSensors::All => true,
                    VisibleTempSensors::Active => false,
                },
            },
            None => false,
        };
        if listed {
            rows.push((i, temps[i]));
        }
        i = i + 1;
    }
    rows
}

/// What the user selected in the interface, handed to the control loop each tick.
#[derive(Clone, Copy, Debug, PartialEq, Eq, Structural)]
pub struct Selection {
    pub visible_temp_sensors: VisibleTempSensors,
    pub temp_scale: TempScale,
    pub desired_fan_mode: DesiredFanMode,
    pub desired_manual_fan_level: DesiredManualFanLevel,
}

/// The snapshot that the control loop keeps: the configuration, the latest
/// readings, whether the fan can be written, and the user's selection.
#[derive(Debug)]
pub struct State {
    pub config: Config,
    /// The temperature of each channel, or the failure that stopped the probe.
    pub temps: Result<Vec<Option<Temp>>, Error>,
    pub visible_temp_sensors: VisibleTempSensors,
    pub temp_scale: TempScale,
    pub fan_is_writable: bool,
    /// The fan's mode and speed, or the failure of reading them.
    pub fan: Result<(FanLevel, FanSpeed), Error>,
    pub desired_fan_mode: DesiredFanMode,
    pub desired_manual_fan_level: DesiredManualFanLevel,
}

/// `n` slots with no reading.
fn unread_slots(n: usize) -> (r: Vec<Option<Temp>>)
    ensures
        r@ == unread(n as nat),
{
    let mut slots: Vec<Option<Temp>> = Vec::new();
    while slots.len() < n
        invariant
            slots.len() <= n,
            slots@ =~= unread(slots.len() as nat),
        decreases n - slots.len(),
    {
        slots.push(None);
    }
    slots
}

/// The slots that a probe of `n` channels starts from: those of the last
/// probe, or none read after a failed one.
pub open spec fn probe_start(temps: Result<Vec<Option<Temp>>, Error>, n: nat) -> Seq<Option<Temp>> {
    match temps {
        Ok(v) => v@,
        Err(_) => unread(n),
    }
}

/// The fan mode that the state asks for, when the fan can be written.
pub open spec fn command_spec(s: State) -> Option<FanLevel> {
    if !s.fan_is_writable {
        None
    } else {
        Some(
            match s.desired_fan_mode {
                DesiredFanMode::Bios => FanLevel::Auto,
                DesiredFanMode::Smart => match s.temps {
                    Ok(v) => fan_level_of(select_spec(s.config.fan_level@, v@)),
                    Err(_) => FanLevel::FullSpeed,
                },
                DesiredFanMode::Manual => fan_level_of(s.desired_manual_fan_level),
            },
        )
    }
}

impl State {
    /// The state at startup, with `config`. `temp_reads[i]` is what reading
    /// `temp{i+1}_input` gave, one for each configured sensor; `writable` is
    /// the outcome of the write probe, whose failure is the only one that
    /// fails startup; `mode`, `level` and `speed` are what reading
    /// `pwm1_enable`, `pwm1` and `fan1_input` gave. The selection starts at
    /// its defaults.
    pub fn new(
        config: Config,
        temp_reads: &Vec<LineRead>,
        writable: Result<bool, Error>,
        mode: &LineRead,
        level: &LineRead,
        speed: &LineRead,
    ) -> (r: Result<State, Error>)
        requires
            temp_reads.len() == config.sensors.len(),
        ensures
            writable matches Err(e) ==> r == Err::<State, Error>(e),
            writable matches Ok(w) ==> r matches Ok(s) && s.config == config && s.fan_is_writable
                == w && s.fan == fan_state(*mode, *level, *speed) && (s.temps matches Ok(v)
                ==> probed(
                temp_reads@,
                unread(temp_reads.len() as nat),
                v@,
                Ok(()),
            )) && (s.temps matches Err(e) ==> exists|after: Seq<Option<Temp>>|
                #[trigger] probed(
                    temp_reads@,
                    unread(temp_reads.len() as nat),
                    after,
                    Err(e),
                )) && s.visible_temp_sensors == VisibleTempSensors::Active && s.temp_scale
                == TempScale::Celsius && s.desired_fan_mode == DesiredFanMode::Smart
                && s.desired_manual_fan_level == DesiredManualFanLevel::FullSpeed,
    {
        let fan_is_writable = match writable {
            Ok(w) => w,
            Err(e) => return Err(e),
        };
        let mut slots = unread_slots(config.sensors.len());
        let temps = match read_temps(&mut slots, temp_reads) {
            Ok(()) => Ok(slots),
            Err(e) => Err(e),
        };
        Ok(State {
            config,
            temps,
            visible_temp_sensors: VisibleTempSensors::Active,
            temp_scale: TempScale::Celsius,
            fan_is_writable,
            fan: read_fan(mode, level, speed),
            desired_fan_mode: DesiredFanMode::Smart,
            desired_manual_fan_level: DesiredManualFanLevel::FullSpeed,
        })
    }

    /// Reads the sensors again: `temp_reads`, `mode`, `level` and `speed` as
    /// for `new`. The probe stores into the slots of the last one; after a
    /// failed probe it starts from slots with no reading, one per configured
    /// sensor. The fan's telemetry is replaced.
    pub fn update_sensors(
        &mut self,
        temp_reads: &Vec<LineRead>,
        mode: &LineRead,
        level: &LineRead,
        speed: &LineRead,
    )
        requires
            old(self).temps matches Ok(v) ==> v.len() == temp_reads.len(),
            old(self).temps is Err ==> temp_reads.len() == old(self).config.sensors.len(),
        ensures
            final(self).fan == fan_state(*mode, *level, *speed),
            final(self).temps matches Ok(w) ==> probed(
                temp_reads@,
                probe_start(old(self).temps, temp_reads.len() as nat),
                w@,
                Ok(()),
            ),
            final(self).temps matches Err(e) ==> exists|after: Seq<Option<Temp>>|
                #[trigger] probed(
                    temp_reads@,
                    probe_start(old(self).temps, temp_reads.len() as nat),
                    after,
                    Err(e),
                ),
            final(self).config == old(self).config,
            final(self).visible_temp_sensors == old(self).visible_temp_sensors,
            final(self).temp_scale == old(self).temp_scale,
            final(self).fan_is_writable == old(self).fan_is_writable,
            final(self).desired_fan_mode == old(self).desired_fan_mode,
            final(self).desired_manual_fan_level == old(self).desired_manual_fan_level,
    {
        let ghost start = probe_start(self.temps, temp_reads.len() as nat);
        let failed = match &self.temps {
            Ok(_) => false,
            Err(_) => true,
        };
        if failed {
            let mut slots = unread_slots(self.config.sensors.len());
            assert(slots@ == unread(temp_reads.len() as nat));
            self.temps = match read_temps(&mut slots, temp_reads) {
                Ok(()) => Ok(slots),
                Err(e) => {
                    assert(probed(temp_reads@, start, slots@, Err(e)));
                    Err(e)
                },
            };
        } else {
            let failure = match &mut self.temps {
                Ok(slots) => match read_temps(slots, temp_reads) {
                    Ok(()) => None,
                    Err(e) => {
                        assert(probed(temp_reads@, start, slots@, Err(e)));
                        Some(e)
                    },
                },
                Err(_) => None,
            };
            if let Some(e) = failure {
                self.temps = Err(e);
            }
        }
        self.fan = read_fan(mode, level, speed);
    }

    /// Takes over the user's latest selection.
    pub fn apply_selection(&mut self, selection: Selection)
        ensures
            final(self).visible_temp_sensors == selection.visible_temp_sensors,
            final(self).temp_scale == selection.temp_scale,
            final(self).desired_fan_mode == selection.desired_fan_mode,
            final(self).desired_manual_fan_level == selection.desired_manual_fan_level,
            final(self).config == old(self).config,
            final(self).temps == old(self).temps,
            final(self).fan_is_writable == old(self).fan_is_writable,
            final(self).fan == old(self).fan,
    {
        self.visible_temp_sensors = selection.visible_temp_sensors;
        self.temp_scale = selection.temp_scale;
        self.desired_fan_mode = selection.desired_fan_mode;
        self.desired_manual_fan_level = selection.desired_manual_fan_level;
    }

    /// The fan mode to write this tick; `None` when the fan cannot be written.
    /// BIOS mode asks for automatic control, manual mode for the selected
    /// level, and smart mode for the level that the thresholds select, or full
    /// speed when the temperatures could not be read.
    pub fn fan_command(&self) -> (r: Option<FanLevel>)
        ensures
            r == command_spec(*self),
    {
        if !self.fan_is_writable {
            return None;
        }
        let level = match self.desired_fan_mode {
            DesiredFanMode::Bios => FanLevel::Auto,
            DesiredFanMode::Smart => match &self.temps {
                Ok(v) => select(&self.config.fan_level, v).to_fan_level(),
                Err(_) => FanLevel::FullSpeed,
            },
            DesiredFanMode::Manual => self.desired_manual_fan_level.to_fan_level(),
        };
        Some(level)
    }
}

} // verus!
