//! Smart mode: choosing a fan level from the temperatures and a threshold table.

use vstd::prelude::*;

use crate::error::ConfigError;
use crate::model::{fan_rank, DesiredManualFanLevel};
use crate::temp::Temp;

verus! {

/// Above `bound` (strictly), the fan runs at `level`, unless a higher bound is
/// exceeded too.
#[derive(Clone, Copy, Debug, PartialEq, Eq, Structural)]
pub struct Threshold {
    pub bound: Temp,
    pub level: DesiredManualFanLevel,
}

/// The bounds rise strictly along the table.
pub open spec fn strictly_ascending(t: Seq<Threshold>) -> bool {
    forall|i: int, j: int|
        0 <= i < j < t.len() ==> #[trigger] t[i].bound.millidegrees
            < #[trigger] t[j].bound.millidegrees
}

/// The greatest temperature among the readings, in millidegrees; `None` when
/// no channel has one.
pub open spec fn max_reading(readings: Seq<Option<Temp>>) -> Option<int>
    decreases readings.len(),
{
    if readings.len() == 0 {
        None
    } else {
        let rest = max_reading(readings.drop_last());
        match readings.last() {
            None => rest,
            Some(t) => match rest {
                None => Some(t.millidegrees as int),
                Some(m) => Some(if t.millidegrees > m { t.millidegrees as int } else { m }),
            },
        }
    }
}

/// The index of the last threshold whose bound is strictly below `m`, or -1.
pub open spec fn last_exceeded(t: Seq<Threshold>, m: int) -> int
    decreases t.len(),
{
    if t.len() == 0 {
        -1
    } else if t.last().bound.millidegrees < m {
        t.len() - 1
    } else {
        last_exceeded(t.drop_last(), m)
    }
}

/// The level for a greatest temperature `m`: that of the last threshold that
/// `m` exceeds; full speed when it exceeds none.
pub open spec fn select_level(t: Seq<Threshold>, m: int) -> DesiredManualFanLevel {
    let i = last_exceeded(t, m);
    if i < 0 {
        DesiredManualFanLevel::FullSpeed
    } else {
        t[i].level
    }
}

/// The smart mode level for a table and the channels' readings: full speed
/// when no channel has a reading.
pub open spec fn select_spec(t: Seq<Threshold>, readings: Seq<Option<Temp>>) -> DesiredManualFanLevel {
    match max_reading(readings) {
        None => DesiredManualFanLevel::FullSpeed,
        Some(m) => select_level(t, m),
    }
}

/// The thresholds that `m` exceeds end at `last_exceeded(t, m)`: it is one of
/// them, and none after it is exceeded.
pub proof fn lemma_last_exceeded(t: Seq<Threshold>, m: int)
    ensures
        -1 <= last_exceeded(t, m) < t.len(),
        last_exceeded(t, m) >= 0 ==> t[last_exceeded(t, m)].bound.millidegrees < m,
        forall|j: int|
            last_exceeded(t, m) < j < t.len() ==> m <= #[trigger] t[j].bound.millidegrees,
    decreases t.len(),
{
    if t.len() > 0 && !(t.last().bound.millidegrees < m) {
        lemma_last_exceeded(t.drop_last(), m);
        assert forall|j: int| last_exceeded(t, m) < j < t.len() implies m
            <= #[trigger] t[j].bound.millidegrees by {
            if j < t.len() - 1 {
                assert(t.drop_last()[j] == t[j]);
            }
        }
    }
}

proof fn lemma_select_level_step(t: Seq<Threshold>, i: int, m: int)
    requires
        0 <= i < t.len(),
    ensures
        select_level(t.take(i + 1), m) == if t[i].bound.millidegrees < m {
            t[i].level
        } else {
            select_level(t.take(i), m)
        },
{
    assert(t.take(i + 1).drop_last() =~= t.take(i));
    lemma_last_exceeded(t.take(i), m);
}

proof fn lemma_max_reading_step(r: Seq<Option<Temp>>, i: int)
    requires
        0 <= i < r.len(),
    ensures
        max_reading(r.take(i + 1)) == match r[i] {
            None => max_reading(r.take(i)),
            Some(t) => match max_reading(r.take(i)) {
                None => Some(t.millidegrees as int),
                Some(m) => Some(if t.millidegrees > m { t.millidegrees as int } else { m }),
            },
        },
{
    assert(r.take(i + 1).drop_last() =~= r.take(i));
}

/// Along the table, the levels never get slower.
pub open spec fn levels_non_decreasing(t: Seq<Threshold>) -> bool {
    forall|i: int, j: int|
        0 <= i <= j < t.len() ==> fan_rank(#[trigger] t[i].level) <= fan_rank(
            #[trigger] t[j].level,
        )
}

/// With no reading on any channel, smart mode runs the fan at full speed,
/// whatever the table.
pub proof fn lemma_no_readings_full_speed(t: Seq<Threshold>, readings: Seq<Option<Temp>>)
    requires
        forall|i: int| 0 <= i < readings.len() ==> #[trigger] readings[i] is None,
    ensures
        select_spec(t, readings) == DesiredManualFanLevel::FullSpeed,
    decreases readings.len(),
{
    if readings.len() > 0 {
        let rest = readings.drop_last();
        assert forall|i: int| 0 <= i < rest.len() implies #[trigger] rest[i] is None by {
            assert(rest[i] == readings[i]);
        }
        lemma_no_readings_full_speed(t, rest);
        assert(readings.last() is None);
    }
}

/// Raising the greatest temperature never lowers the level that smart mode
/// selects, for a table strictly ascending by bound whose levels never get
/// slower along it. Left out: a greatest temperature that exceeds no bound,
/// which selects full speed, raised above the lowest bound.
pub proof fn lemma_select_monotone(
    t: Seq<Threshold>,
    cooler: Seq<Option<Temp>>,
    warmer: Seq<Option<Temp>>,
)
    requires
        strictly_ascending(t),
        levels_non_decreasing(t),
        max_reading(cooler) is Some,
        max_reading(warmer) is Some,
        max_reading(cooler)->0 <= max_reading(warmer)->0,
        !(t.len() > 0 && max_reading(cooler)->0 <= t[0].bound.millidegrees < max_reading(
            warmer,
        )->0),
    ensures
        fan_rank(select_spec(t, cooler)) <= fan_rank(select_spec(t, warmer)),
{
    let m1 = max_reading(cooler)->0;
    let m2 = max_reading(warmer)->0;
    lemma_last_exceeded(t, m1);
    lemma_last_exceeded(t, m2);
    let i1 = last_exceeded(t, m1);
    let i2 = last_exceeded(t, m2);
    if i1 >= 0 {
        if i2 < i1 {
            assert(m2 <= t[i1].bound.millidegrees);
        }
        assert(fan_rank(t[i1].level) <= fan_rank(t[i2].level));
    } else if i2 >= 0 {
        if i2 > 0 {
            assert(t[0].bound.millidegrees < t[i2].bound.millidegrees);
        }
        assert(m1 <= t[0].bound.millidegrees);
    }
}

/// No two thresholds share a bound.
pub open spec fn distinct_bounds(t: Seq<Threshold>) -> bool {
    forall|i: int, j: int|
        0 <= i < j < t.len() ==> #[trigger] t[i].bound.millidegrees
            != #[trigger] t[j].bound.millidegrees
}

/// Each threshold of `a` is one of `b`.
#[verifier::opaque]
pub open spec fn within(a: Seq<Threshold>, b: Seq<Threshold>) -> bool {
    forall|i: int|
        #![trigger a[i]]
        0 <= i < a.len() ==> exists|j: int| #![trigger b[j]] 0 <= j < b.len() && b[j] == a[i]
}

/// `a` and `b` hold the same thresholds. Where the bounds are distinct, each
/// threshold stands once in each.
pub open spec fn same_entries(a: Seq<Threshold>, b: Seq<Threshold>) -> bool {
    &&& a.len() == b.len()
    &&& within(a, b)
    &&& within(b, a)
}

proof fn lemma_repeat_not_distinct(input: Seq<Threshold>, i: int, k: int)
    requires
        0 <= i < k < input.len(),
        input[i].bound.millidegrees == input[k].bound.millidegrees,
    ensures
        !distinct_bounds(input.take(k + 1)),
{
    assert(input.take(k + 1)[i] == input[i]);
    assert(input.take(k + 1)[k] == input[k]);
}

/// `s` is `sorted` with `e` inserted at `pos`.
pub open spec fn inserted(s: Seq<Threshold>, sorted: Seq<Threshold>, pos: int, e: Threshold) -> bool {
    &&& 0 <= pos <= sorted.len()
    &&& s.len() == sorted.len() + 1
    &&& forall|j: int| 0 <= j < pos ==> #[trigger] s[j] == sorted[j]
    &&& s[pos] == e
    &&& forall|j: int| pos < j < s.len() ==> #[trigger] s[j] == sorted[j - 1]
}

/// Inserting `e` at `pos` in an ascending `sorted`, where the bounds before
/// `pos` are below its bound and the one at `pos`, if any, is above it, keeps
/// it ascending.
proof fn lemma_insert_ascending(s: Seq<Threshold>, sorted: Seq<Threshold>, pos: int, e: Threshold)
    requires
        inserted(s, sorted, pos, e),
        strictly_ascending(sorted),
        forall|j: int| 0 <= j < pos ==> #[trigger] sorted[j].bound.millidegrees < e.bound.millidegrees,
        pos < sorted.len() ==> e.bound.millidegrees < sorted[pos].bound.millidegrees,
    ensures
        strictly_ascending(s),
{
    assert forall|a: int, b: int| 0 <= a < b < s.len() implies #[trigger] s[a].bound.millidegrees
        < #[trigger] s[b].bound.millidegrees by {
        if b < pos {
            assert(s[a] == sorted[a]);
            assert(s[b] == sorted[b]);
        } else if b == pos {
            assert(s[a] == sorted[a]);
        } else {
            assert(s[b] == sorted[b - 1]);
            if b - 1 > pos {
                assert(sorted[pos].bound.millidegrees < sorted[b - 1].bound.millidegrees);
            }
            if a < pos {
                assert(s[a] == sorted[a]);
            } else if a > pos {
                assert(s[a] == sorted[a - 1]);
            }
        }
    }
}

/// Adding `input[k]`, whose bound `sorted` (holding `input[..k]`) lacks, keeps
/// the bounds distinct.
proof fn lemma_extend_distinct(sorted: Seq<Threshold>, input: Seq<Threshold>, k: int)
    requires
        0 <= k < input.len(),
        sorted.len() == k,
        distinct_bounds(input.take(k)),
        forall|j: int|
            0 <= j < k ==> #[trigger] sorted[j].bound.millidegrees != input[k].bound.millidegrees,
        within(input.take(k), sorted),
    ensures
        distinct_bounds(input.take(k + 1)),
{
    reveal(within);
    let t = input.take(k + 1);
    assert forall|a: int, b: int| 0 <= a < b < t.len() implies #[trigger] t[a].bound.millidegrees
        != #[trigger] t[b].bound.millidegrees by {
        assert(t[a] == input[a]);
        assert(t[b] == input[b]);
        assert(input.take(k)[a] == input[a]);
        if b < k {
            assert(input.take(k)[b] == input[b]);
        } else {
            let j = choose|j: int| 0 <= j < k && sorted[j] == input.take(k)[a];
            assert(sorted[j].bound.millidegrees != input[k].bound.millidegrees);
        }
    }
}

/// A threshold already in `sorted` (holding `input[..k]`) with the bound of
/// `input[k]` makes `input[..k + 1]` repeat a bound.
proof fn lemma_found_repeat(sorted: Seq<Threshold>, input: Seq<Threshold>, pos: int, k: int)
    requires
        0 <= k < input.len(),
        0 <= pos < sorted.len(),
        sorted.len() == k,
        within(sorted, input.take(k)),
        sorted[pos].bound.millidegrees == input[k].bound.millidegrees,
    ensures
        !distinct_bounds(input.take(k + 1)),
{
    reveal(within);
    let i = choose|i: int| 0 <= i < k && input.take(k)[i] == sorted[pos];
    assert(input.take(k)[i] == input[i]);
    lemma_repeat_not_distinct(input, i, k);
}

/// After inserting `input[k]` in `sorted`, which holds `input[..k]`, each of
/// `input[..k + 1]` is in the result.
proof fn lemma_insert_covers(
    s: Seq<Threshold>,
    sorted: Seq<Threshold>,
    input: Seq<Threshold>,
    pos: int,
    k: int,
)
    requires
        0 <= k < input.len(),
        sorted.len() == k,
        inserted(s, sorted, pos, input[k]),
        within(input.take(k), sorted),
    ensures
        within(input.take(k + 1), s),
{
    reveal(within);
    let before = input.take(k);
    let after = input.take(k + 1);
    assert forall|i: int| #![trigger after[i]] 0 <= i < after.len() implies exists|j: int|
        #![trigger s[j]]
        0 <= j < s.len() && s[j] == after[i] by {
        if i == k {
            assert(s[pos] == after[i]);
        } else {
            assert(before[i] == after[i]);
            let j = choose|j: int| 0 <= j < k && sorted[j] == before[i];
            if j < pos {
                assert(s[j] == sorted[j]);
            } else {
                assert(s[j + 1] == sorted[(j + 1) - 1]);
            }
        }
    }
}

/// After inserting `input[k]` in `sorted`, which holds no more than
/// `input[..k]`, the result holds no more than `input[..k + 1]`.
proof fn lemma_insert_keeps_within(
    s: Seq<Threshold>,
    sorted: Seq<Threshold>,
    input: Seq<Threshold>,
    pos: int,
    k: int,
)
    requires
        0 <= k < input.len(),
        sorted.len() == k,
        inserted(s, sorted, pos, input[k]),
        within(sorted, input.take(k)),
    ensures
        within(s, input.take(k + 1)),
{
    reveal(within);
    let before = input.take(k);
    let after = input.take(k + 1);
    assert forall|j: int| #![trigger s[j]] 0 <= j < s.len() implies exists|i: int|
        #![trigger after[i]]
        0 <= i < after.len() && after[i] == s[j] by {
        if j == pos {
            assert(after[k] == s[j]);
        } else {
            let jj = if j < pos { j } else { j - 1 };
            assert(s[j] == sorted[jj]);
            let i = choose|i: int| 0 <= i < k && before[i] == sorted[jj];
            assert(after[i] == before[i]);
        }
    }
}

/// The thresholds of smart mode, strictly ascending by bound.
#[derive(Debug)]
pub struct ThresholdTable {
    entries: Vec<Threshold>,
}

impl View for ThresholdTable {
    type V = Seq<Threshold>;

    closed spec fn view(&self) -> Seq<Threshold> {
        self.entries@
    }
}

impl ThresholdTable {
    #[verifier::type_invariant]
    spec fn ascending(self) -> bool {
        strictly_ascending(self.entries@)
    }

    /// The table of `thresholds`, sorted by bound. Two thresholds with one bound
    /// are refused, naming the bound of the first threshold that repeats an
    /// earlier one.
    pub fn new(thresholds: &Vec<Threshold>) -> (r: Result<ThresholdTable, ConfigError>)
        ensures
            r is Ok <==> distinct_bounds(thresholds@),
            r matches Ok(t) ==> strictly_ascending(t@) && same_entries(t@, thresholds@),
            r matches Err(e) ==> exists|j: int|
                0 <= j < thresholds.len() && distinct_bounds(thresholds@.take(j)) && !distinct_bounds(
                    #[trigger] thresholds@.take(j + 1),
                ) && e == ConfigError::DuplicateBound(thresholds[j].bound.millidegrees),
    {
        let ghost input = thresholds@;
        let mut sorted: Vec<Threshold> = Vec::new();
        proof {
            reveal(within);
        }
        let mut k: usize = 0;
        while k < thresholds.len()
            invariant
                input == thresholds@,
                k <= input.len(),
                sorted.len() == k,
                strictly_ascending(sorted@),
                distinct_bounds(input.take(k as int)),
                within(input.take(k as int), sorted@),
                within(sorted@, input.take(k as int)),
            decreases input.len() - k,
        {
            let e = thresholds[k];
            let mut pos: usize = 0;
            while pos < sorted.len() && sorted[pos].bound.millidegrees < e.bound.millidegrees
                invariant
                    pos <= sorted.len(),
                    forall|j: int|
                        0 <= j < pos ==> #[trigger] sorted[j].bound.millidegrees
                            < e.bound.millidegrees,
                decreases sorted.len() - pos,
            {
                pos = pos + 1;
            }
            if pos < sorted.len() && sorted[pos].bound.millidegrees == e.bound.millidegrees {
                proof {
                    lemma_found_repeat(sorted@, input, pos as int, k as int);
                }
                return Err(ConfigError::DuplicateBound(e.bound.millidegrees));
            }
            let ghost before = sorted@;
            proof {
                assert forall|j: int| 0 <= j < k implies #[trigger] before[j].bound.millidegrees
                    != e.bound.millidegrees by {
                    if j > pos {
                        assert(before[pos as int].bound.millidegrees < before[j].bound.millidegrees);
                    }
                }
                lemma_extend_distinct(before, input, k as int);
            }
            sorted.insert(pos, e);
            proof {
                before.insert_ensures(pos as int, e);
                assert forall|j: int| pos < j < sorted.len() implies #[trigger] sorted@[j] == before[j
                    - 1] by {
                    assert(sorted@[(j - 1) + 1] == before[j - 1]);
                }
                assert(inserted(sorted@, before, pos as int, e));
                lemma_insert_ascending(sorted@, before, pos as int, e);
                lemma_insert_covers(sorted@, before, input, pos as int, k as int);
                lemma_insert_keeps_within(sorted@, before, input, pos as int, k as int);
            }
            k = k + 1;
        }
        proof {
            assert(input.take(k as int) =~= input);
        }
        Ok(ThresholdTable { entries: sorted })
    }

    /// The thresholds, in ascending order of bound.
    pub fn entries(&self) -> (r: &Vec<Threshold>)
        ensures
            r@ == self@,
            strictly_ascending(self@),
    {
        proof {
            use_type_invariant(self);
        }
        &self.entries
    }
}

/// The level that smart mode asks for: with `m` the greatest temperature that
/// any channel reads, the level of the last threshold whose bound is strictly
/// below `m`; full speed when `m` exceeds no bound, and when no channel has a
/// reading.
pub fn select(table: &ThresholdTable, readings: &Vec<Option<Temp>>) -> (r: DesiredManualFanLevel)
    ensures
        r == select_spec(table@, readings@),
{
    let mut max: Option<i64> = None;
    let mut i: usize = 0;
    while i < readings.len()
        invariant
            i <= readings.len(),
            match max {
                None => max_reading(readings@.take(i as int)) is None,
                Some(m) => max_reading(readings@.take(i as int)) == Some(m as int),
            },
        decreases readings.len() - i,
    {
        proof {
            lemma_max_reading_step(readings@, i as int);
        }
        if let Some(t) = readings[i] {
            max = match max {
                None => Some(t.millidegrees),
                Some(m) => Some(if t.millidegrees > m { t.millidegrees } else { m }),
            };
        }
        i = i + 1;
    }
    assert(readings@.take(readings.len() as int) =~= readings@);
    let m = match max {
        None => return DesiredManualFanLevel::FullSpeed,
        Some(m) => m,
    };
    let entries = table.entries();
    let mut level = DesiredManualFanLevel::FullSpeed;
    let mut k: usize = 0;
    while k < entries.len()
        invariant
            k <= entries.len(),
            level == select_level(entries@.take(k as int), m as int),
        decreases entries.len() - k,
    {
        proof {
            lemma_select_level_step(entries@, k as int, m as int);
        }
        if m > entries[k].bound.millidegrees {
            level = entries[k].level;
        }
        k = k + 1;
    }
    assert(entries@.take(entries.len() as int) =~= entries@);
    level
}

} // verus!
