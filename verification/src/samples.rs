//! Readings and their times. A recorded file gives the time of its first
//! sample; each further sample lies one second behind the one before it.
//! The calendar is chrono's.

use chrono::Datelike;
use chrono::NaiveDate;
use chrono::TimeDelta;
use chrono::Timelike;
use vstd::prelude::*;

verus! {

/// A date and a time of day, as plain numbers. Not every value names a
/// moment: see [`is_valid_timestamp`].
#[derive(Clone, Copy, Debug, PartialEq, Eq, Structural)]
pub struct Timestamp {
    pub year: i32,
    pub month: u32,
    pub day: u32,
    pub hour: u32,
    pub minute: u32,
    pub second: u32,
}

/// One reading of the live stream. The driver stamps it on receipt.
#[derive(Clone, Copy, Debug, PartialEq, Eq, Structural)]
pub struct Reading {
    pub pulse: u8,
    pub spo2: u8,
}

/// One sample of a recorded file.
#[derive(Clone, Copy, Debug, PartialEq, Eq, Structural)]
pub struct Sample {
    pub time: Timestamp,
    pub pulse: u8,
    pub spo2: u8,
}

/// The moment `seconds` seconds after `start` in chrono's calendar, or
/// `None` where `start` names no moment or the result lies beyond the dates
/// that chrono can hold.
pub uninterp spec fn time_after(start: Timestamp, seconds: u32) -> Option<Timestamp>;

/// Makes a `NaiveDateTime` of `start` with chrono's `NaiveDate::from_ymd_opt`
/// and `NaiveDate::and_hms_opt`, adds the seconds with
/// `NaiveDateTime::checked_add_signed` and reads the fields of the result
/// with the getters of `Datelike` and `Timelike`. Nothing is proved of it.
/// The contract gives the result its name and claims one thing more, which
/// chrono documents for `checked_add_signed`: where there is a moment zero
/// seconds after `start`, it is `start` itself.
#[verifier::external_body]
fn chrono_time_after(start: Timestamp, seconds: u32) -> (later: Option<Timestamp>)
    ensures
        later == time_after(start, seconds),
        seconds == 0 ==> later == None::<Timestamp> || later == Some(start),
{
    let date = NaiveDate::from_ymd_opt(start.year, start.month, start.day)?;
    let moment = date.and_hms_opt(start.hour, start.minute, start.second)?;
    let later = moment.checked_add_signed(TimeDelta::seconds(i64::from(seconds)))?;
    Some(
        Timestamp {
            year: later.year(),
            month: later.month(),
            day: later.day(),
            hour: later.hour(),
            minute: later.minute(),
            second: later.second(),
        },
    )
}

/// The time of sample `index` of a file that begins at `start`.
pub open spec fn sample_time(start: Timestamp, index: int) -> Option<Timestamp> {
    time_after(start, index as u32)
}

/// The times of the first `count` samples of a file that begins at `start`,
/// where every one of them exists.
pub open spec fn sample_times_of(start: Timestamp, count: nat) -> Option<Seq<Timestamp>> {
    if count <= u32::MAX && forall|i: int| 0 <= i < count ==> sample_time(start, i) is Some {
        Some(Seq::new(count, |i: int| sample_time(start, i)->0))
    } else {
        None
    }
}

/// Times, pulse rates and oxygen saturations put together by position, as
/// far as all three reach.
pub open spec fn zipped(times: Seq<Timestamp>, pulse: Seq<u8>, spo2: Seq<u8>) -> Seq<Sample> {
    let count = if times.len() <= pulse.len() && times.len() <= spo2.len() {
        times.len()
    } else if pulse.len() <= spo2.len() {
        pulse.len()
    } else {
        spo2.len()
    };
    Seq::new(count, |i: int| Sample { time: times[i], pulse: pulse[i], spo2: spo2[i] })
}

/// The samples of a file that begins at `start`, where they can be stamped.
pub open spec fn timed_samples_of(start: Timestamp, pulse: Seq<u8>, spo2: Seq<u8>) -> Option<
    Seq<Sample>,
> {
    let count = if pulse.len() <= spo2.len() {
        pulse.len()
    } else {
        spo2.len()
    };
    match sample_times_of(start, count) {
        Some(times) => Some(zipped(times, pulse, spo2)),
        None => None,
    }
}

/// Whether the timestamp names a moment of chrono's calendar.
pub fn is_valid_timestamp(timestamp: Timestamp) -> (valid: bool)
    ensures
        valid == (time_after(timestamp, 0) is Some),
{
    chrono_time_after(timestamp, 0).is_some()
}

/// The times of `count` samples, one second apart, the first at `start`.
pub fn sample_times(start: Timestamp, count: usize) -> (times: Option<Vec<Timestamp>>)
    ensures
        match times {
            Some(times) => sample_times_of(start, count as nat) == Some(times@),
            None => sample_times_of(start, count as nat) is None,
        },
        times matches Some(times) ==> count > 0 ==> times@[0] == start,
{
    if count > u32::MAX as usize {
        return None;
    }
    let mut times: Vec<Timestamp> = Vec::new();
    let mut i: u32 = 0;
    while (i as usize) < count
        invariant
            0 <= i <= count <= u32::MAX,
            times@.len() == i,
            forall|j: int| 0 <= j < i ==> sample_time(start, j) == Some(#[trigger] times@[j]),
            i > 0 ==> times@[0] == start,
        decreases count - i,
    {
        match chrono_time_after(start, i) {
            Some(time) => {
                times.push(time);
            },
            None => {
                proof {
                    assert(sample_time(start, i as int) is None);
                }
                return None;
            },
        }
        i += 1;
    }
    proof {
        assert forall|j: int| 0 <= j < count implies sample_time(start, j) is Some by {
            assert(sample_time(start, j) == Some(times@[j]));
        }
        assert(times@ =~= sample_times_of(start, count as nat)->0);
    }
    Some(times)
}

/// Puts times, pulse rates and oxygen saturations together by position.
pub fn zip_samples(times: &[Timestamp], pulse: &[u8], spo2: &[u8]) -> (samples: Vec<Sample>)
    ensures
        samples@ == zipped(times@, pulse@, spo2@),
{
    let mut count = times.len();
    if pulse.len() < count {
        count = pulse.len();
    }
    if spo2.len() < count {
        count = spo2.len();
    }
    let mut samples: Vec<Sample> = Vec::new();
    let mut i: usize = 0;
    while i < count
        invariant
            0 <= i <= count,
            count <= times@.len(),
            count <= pulse@.len(),
            count <= spo2@.len(),
            samples@.len() == i,
            forall|j: int|
                0 <= j < i ==> #[trigger] samples@[j] == (Sample {
                    time: times@[j],
                    pulse: pulse@[j],
                    spo2: spo2@[j],
                }),
        decreases count - i,
    {
        samples.push(Sample { time: times[i], pulse: pulse[i], spo2: spo2[i] });
        i += 1;
    }
    proof {
        assert(samples@ =~= zipped(times@, pulse@, spo2@));
    }
    samples
}

/// The samples of a recorded file: the two channels put together by
/// position, each pair with its time, the first at `start` and each further
/// one a second later. `None` where a time cannot be had.
pub fn timed_samples(start: Timestamp, pulse: &[u8], spo2: &[u8]) -> (samples: Option<Vec<Sample>>)
    ensures
        match samples {
            Some(samples) => timed_samples_of(start, pulse@, spo2@) == Some(samples@),
            None => timed_samples_of(start, pulse@, spo2@) is None,
        },
        samples matches Some(samples) ==> samples@.len() > 0 ==> samples@[0].time == start,
{
    let count = if pulse.len() <= spo2.len() {
        pulse.len()
    } else {
        spo2.len()
    };
    match sample_times(start, count) {
        Some(times) => Some(zip_samples(times.as_slice(), pulse, spo2)),
        None => None,
    }
}

} // verus!
