//! The output: one line of comma-separated values for each sample, as
//! ASCII text. A line holds the time as `YYYY-MM-DD HH:MM:SS`, the pulse
//! rate and the oxygen saturation.

use crate::samples::Sample;
use crate::samples::Timestamp;
use vstd::prelude::*;

verus! {

/// The character of a digit.
pub open spec fn digit(value: int) -> u8 {
    (0x30 + value % 10) as u8
}

/// A number below a hundred in two digits.
pub open spec fn two_digits(value: int) -> Seq<u8> {
    seq![digit(value / 10), digit(value)]
}

/// A number below ten thousand in four digits.
pub open spec fn four_digits(value: int) -> Seq<u8> {
    seq![digit(value / 1000), digit(value / 100), digit(value / 10), digit(value)]
}

/// A byte in as many digits as it needs.
pub open spec fn decimal(value: u8) -> Seq<u8> {
    if value < 10 {
        seq![digit(value as int)]
    } else if value < 100 {
        two_digits(value as int)
    } else {
        seq![digit(value as int / 100), digit(value as int / 10), digit(value as int)]
    }
}

/// Every part of the timestamp fits the columns that the layout has for it.
pub open spec fn fits_columns(time: Timestamp) -> bool {
    &&& 0 <= time.year <= 9999
    &&& time.month <= 99
    &&& time.day <= 99
    &&& time.hour <= 99
    &&& time.minute <= 99
    &&& time.second <= 99
}

/// The timestamp as `YYYY-MM-DD HH:MM:SS`.
pub open spec fn time_text(time: Timestamp) -> Seq<u8> {
    four_digits(time.year as int) + seq![0x2du8] + two_digits(time.month as int) + seq![0x2du8]
        + two_digits(time.day as int) + seq![0x20u8] + two_digits(time.hour as int) + seq![0x3au8]
        + two_digits(time.minute as int) + seq![0x3au8] + two_digits(time.second as int)
}

/// The line for a sample, where its time fits the layout.
pub open spec fn csv_line_of(sample: Sample) -> Option<Seq<u8>> {
    if fits_columns(sample.time) {
        Some(
            time_text(sample.time) + seq![0x2cu8] + decimal(sample.pulse) + seq![0x2cu8] + decimal(
                sample.spo2,
            ),
        )
    } else {
        None
    }
}

/// The first line of the output: the names of the columns.
pub open spec fn csv_header_text() -> Seq<u8> {
    seq![
        0x74u8, 0x69, 0x6d, 0x65, 0x73, 0x74, 0x61, 0x6d, 0x70, 0x2c, 0x70, 0x75, 0x6c, 0x73, 0x65,
        0x2c, 0x73, 0x70, 0x6f, 0x32,
    ]
}

/// A time is nineteen characters long and a line at most eight more.
pub proof fn lemma_csv_line_len(sample: Sample)
    ensures
        time_text(sample.time).len() == 19,
        csv_line_of(sample) matches Some(line) ==> 23 <= line.len() <= 27,
{
    let time = sample.time;
    let date = four_digits(time.year as int) + seq![0x2du8] + two_digits(time.month as int)
        + seq![0x2du8] + two_digits(time.day as int);
    assert(date.len() == 10);
    let clock = two_digits(time.hour as int) + seq![0x3au8] + two_digits(time.minute as int)
        + seq![0x3au8] + two_digits(time.second as int);
    assert(clock.len() == 8);
    assert(time_text(time) =~= date + seq![0x20u8] + clock);
    assert(1 <= decimal(sample.pulse).len() <= 3);
    assert(1 <= decimal(sample.spo2).len() <= 3);
}

fn push_digit(line: &mut Vec<u8>, value: u32)
    ensures
        final(line)@ == old(line)@.push(digit(value as int)),
{
    line.push((0x30 + value % 10) as u8);
}

fn push_two_digits(line: &mut Vec<u8>, value: u32)
    ensures
        final(line)@ == old(line)@ + two_digits(value as int),
{
    push_digit(line, value / 10);
    push_digit(line, value);
    proof {
        assert(line@ =~= old(line)@ + two_digits(value as int));
    }
}

fn push_four_digits(line: &mut Vec<u8>, value: u32)
    ensures
        final(line)@ == old(line)@ + four_digits(value as int),
{
    push_digit(line, value / 1000);
    push_digit(line, value / 100);
    push_digit(line, value / 10);
    push_digit(line, value);
    proof {
        assert(line@ =~= old(line)@ + four_digits(value as int));
    }
}

fn push_decimal(line: &mut Vec<u8>, value: u8)
    ensures
        final(line)@ == old(line)@ + decimal(value),
{
    if value >= 100 {
        push_digit(line, (value / 100) as u32);
    }
    if value >= 10 {
        push_digit(line, (value / 10) as u32);
    }
    push_digit(line, value as u32);
    proof {
        assert(line@ =~= old(line)@ + decimal(value));
    }
}

/// The names of the columns, the first line of the output.
pub fn csv_header() -> (line: Vec<u8>)
    ensures
        line@ == csv_header_text(),
{
    let line = vec![
        0x74u8, 0x69, 0x6d, 0x65, 0x73, 0x74, 0x61, 0x6d, 0x70, 0x2c, 0x70, 0x75, 0x6c, 0x73, 0x65,
        0x2c, 0x73, 0x70, 0x6f, 0x32,
    ];
    proof {
        assert(line@ =~= csv_header_text());
    }
    line
}

/// The line of the output for a sample, without a line end. A time that
/// does not fit the layout, such as a year of five digits, gives no line.
pub fn csv_line(sample: &Sample) -> (line: Option<Vec<u8>>)
    ensures
        match line {
            Some(line) => csv_line_of(*sample) == Some(line@),
            None => csv_line_of(*sample) is None,
        },
{
    let time = sample.time;
    if time.year < 0 || time.year > 9999 || time.month > 99 || time.day > 99 || time.hour > 99
        || time.minute > 99 || time.second > 99 {
        return None;
    }
    let mut line: Vec<u8> = Vec::new();
    push_four_digits(&mut line, time.year as u32);
    line.push(0x2d);
    push_two_digits(&mut line, time.month);
    line.push(0x2d);
    push_two_digits(&mut line, time.day);
    line.push(0x20);
    push_two_digits(&mut line, time.hour);
    line.push(0x3a);
    push_two_digits(&mut line, time.minute);
    line.push(0x3a);
    push_two_digits(&mut line, time.second);
    proof {
        assert(line@ =~= time_text(time));
    }
    line.push(0x2c);
    push_decimal(&mut line, sample.pulse);
    line.push(0x2c);
    push_decimal(&mut line, sample.spo2);
    proof {
        assert(line@ =~= csv_line_of(*sample)->0);
    }
    Some(line)
}

} // verus!
