//! Temperatures: the probe over all channels, and their display.

use vstd::prelude::*;

use crate::error::{Error, Node};
use crate::sysfs::{line_value, read_line, LineRead};

verus! {

/// A temperature, in thousandths of a degree Celsius: the unit of the
/// `temp{i}_input` nodes.
#[derive(Clone, Copy, Debug, PartialEq, Eq, Structural, PartialOrd, Ord, Hash)]
pub struct Temp {
    pub millidegrees: i64,
}

/// What reading channel `i` (0-based) gave: `Some` temperature, `None` for an
/// absent channel, or the error that stops the probe.
pub open spec fn channel_outcome(i: int, read: LineRead) -> Result<Option<Temp>, Error> {
    match line_value(Node::TempInput((i + 1) as usize), read) {
        Ok(v) => Ok(Some(Temp { millidegrees: v as i64 })),
        Err(Error::ChannelAbsent) => Ok(None),
        Err(e) => Err(e),
    }
}

/// Whether a channel's read stops the probe: any failure but an absent
/// channel. The probe never looks at the channels after it, so they need not
/// be read.
pub fn ends_probe(read: &LineRead) -> (r: bool)
    ensures
        forall|i: int| r == (#[trigger] channel_outcome(i, *read) is Err),
{
    match read_line(Node::TempInput(1), read) {
        Ok(_) => false,
        Err(Error::ChannelAbsent) => false,
        Err(_) => true,
    }
}

/// `n` slots that hold no reading yet.
pub open spec fn unread(n: nat) -> Seq<Option<Temp>> {
    Seq::new(n, |j: int| None::<Temp>)
}

/// `after` and `r` are what probing the channels, where `reads[i]` is what
/// reading `temp{i+1}_input` gave, makes of the slots `before`: each channel's
/// outcome in order, until the first failure, which is `r`; the later slots
/// keep their old values.
pub open spec fn probed(
    reads: Seq<LineRead>,
    before: Seq<Option<Temp>>,
    after: Seq<Option<Temp>>,
    r: Result<(), Error>,
) -> bool {
    &&& after.len() == before.len()
    &&& r is Ok ==> forall|j: int|
        0 <= j < reads.len() ==> #[trigger] channel_outcome(j, reads[j]) == Ok::<
            Option<Temp>,
            Error,
        >(after[j])
    &&& r matches Err(e) ==> exists|k: int|
        0 <= k < reads.len() && #[trigger] channel_outcome(k, reads[k]) == Err::<
            Option<Temp>,
            Error,
        >(e) && (forall|j: int|
            0 <= j < k ==> #[trigger] channel_outcome(j, reads[j]) == Ok::<Option<Temp>, Error>(
                after[j],
            )) && (forall|j: int| k <= j < reads.len() ==> #[trigger] after[j] == before[j])
}

/// Stores the readings of the channels, in order, in `temps`, where `reads[i]`
/// is what reading `temp{i+1}_input` gave. An absent channel gets `None`. The
/// first other failure stops the probe: the channels before it are stored, the
/// later ones keep their old values, and the failure is returned.
pub fn read_temps(temps: &mut Vec<Option<Temp>>, reads: &Vec<LineRead>) -> (r: Result<(), Error>)
    requires
        old(temps).len() == reads.len(),
    ensures
        probed(reads@, old(temps)@, final(temps)@, r),
{
    let n = reads.len();
    let mut i: usize = 0;
    while i < n
        invariant
            n == reads.len(),
            temps.len() == n,
            old(temps).len() == n,
            i <= n,
            forall|j: int|
                0 <= j < i ==> #[trigger] channel_outcome(j, reads[j]) == Ok::<
                    Option<Temp>,
                    Error,
                >(temps[j]),
            forall|j: int| i <= j < n ==> #[trigger] temps[j] == old(temps)[j],
        decreases n - i,
    {
        match read_line(Node::TempInput(i + 1), &reads[i]) {
            Ok(v) => {
                temps.set(i, Some(Temp { millidegrees: v as i64 }));
            },
            Err(Error::ChannelAbsent) => {
                temps.set(i, None);
            },
            Err(e) => {
                assert(channel_outcome(i as int, reads[i as int]) == Err::<Option<Temp>, Error>(e));
                return Err(e);
            },
        }
        i = i + 1;
    }
    Ok(())
}

/// The scale that temperatures are shown in.
#[derive(Clone, Copy, Debug, PartialEq, Eq, Structural)]
pub enum TempScale {
    Celsius,
    Fahrenheit,
}

impl Default for TempScale {
    fn default() -> (r: Self)
        ensures
            r == TempScale::Celsius,
    {
        TempScale::Celsius
    }
}

impl TempScale {
    /// The unit sign of the scale.
    pub fn symbol(&self) -> (r: &'static str)
        ensures
            *self == TempScale::Celsius ==> r@ == "\u{B0}C"@,
            *self == TempScale::Fahrenheit ==> r@ == "\u{B0}F"@,
    {
        match self {
            TempScale::Celsius => "\u{B0}C",
            TempScale::Fahrenheit => "\u{B0}F",
        }
    }
}

/// `n / d` rounded to the nearest integer, halfway cases away from zero.
pub open spec fn nearest_whole(n: int, d: int) -> int
    recommends
        d > 0,
{
    if n >= 0 {
        (2 * n + d) / (2 * d)
    } else {
        -((2 * -n + d) / (2 * d))
    }
}

/// A temperature in `scale`, in the whole degrees that the display shows.
pub open spec fn display_degrees(t: Temp, scale: TempScale) -> int {
    match scale {
        TempScale::Celsius => nearest_whole(t.millidegrees as int, 1000),
        // F = C * 9 / 5 + 32, with C = m / 1000: F = (9 * m + 160000) / 5000.
        TempScale::Fahrenheit => nearest_whole(9 * t.millidegrees + 160000, 5000),
    }
}

/// A temperature as it is shown: whole degrees in a scale.
#[derive(Clone, Copy, Debug, PartialEq, Eq, Structural)]
pub struct TempDisplay {
    pub degrees: i64,
    pub scale: TempScale,
}

fn round_div(n: i128, d: i128) -> (r: i128)
    requires
        0 < d <= 10000,
        -0x1_0000_0000_0000_0000_0000 <= n <= 0x1_0000_0000_0000_0000_0000,
    ensures
        r == nearest_whole(n as int, d as int),
{
    if n >= 0 {
        (2 * n + d) / (2 * d)
    } else {
        -((2 * -n + d) / (2 * d))
    }
}

impl TempDisplay {
    /// `temp` in whole degrees of `scale`, rounded to the nearest, halfway
    /// cases away from zero.
    pub fn new(temp: Temp, scale: TempScale) -> (r: TempDisplay)
        ensures
            r.degrees == display_degrees(temp, scale),
            r.scale == scale,
    {
        let m = temp.millidegrees as i128;
        let degrees = match scale {
            TempScale::Celsius => round_div(m, 1000),
            TempScale::Fahrenheit => round_div(9 * m + 160000, 5000),
        };
        proof {
            assert(-0x8000_0000_0000_0000 <= degrees <= 0x7fff_ffff_ffff_ffff) by (nonlinear_arith)
                requires
                    degrees == nearest_whole(
                        if scale == TempScale::Celsius { m as int } else { 9 * m + 160000 },
                        if scale == TempScale::Celsius { 1000int } else { 5000int },
                    ),
                    -0x8000_0000_0000_0000 <= m <= 0x7fff_ffff_ffff_ffff,
            ;
        }
        TempDisplay { degrees: degrees as i64, scale }
    }
}

impl Temp {
    /// This temperature in whole degrees of `scale`.
    pub fn display(self, scale: TempScale) -> (r: TempDisplay)
        ensures
            r.degrees == display_degrees(self, scale),
            r.scale == scale,
    {
        TempDisplay::new(self, scale)
    }
}

} // verus!
