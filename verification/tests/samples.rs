use oximeter::samples::is_valid_timestamp;
use oximeter::samples::sample_times;
use oximeter::samples::timed_samples;
use oximeter::samples::zip_samples;
use oximeter::samples::Sample;
use oximeter::samples::Timestamp;

fn at(year: i32, month: u32, day: u32, hour: u32, minute: u32, second: u32) -> Timestamp {
    Timestamp { year, month, day, hour, minute, second }
}

#[test]
fn timestamps_of_the_calendar_are_valid() {
    assert!(is_valid_timestamp(at(2021, 12, 31, 23, 59, 59)));
    assert!(is_valid_timestamp(at(2000, 1, 1, 0, 0, 0)));
    assert!(is_valid_timestamp(at(2020, 2, 29, 12, 0, 0)));
    assert!(is_valid_timestamp(at(2255, 12, 31, 23, 59, 59)));
}

#[test]
fn timestamps_outside_the_calendar_are_not() {
    assert!(!is_valid_timestamp(at(2021, 2, 29, 12, 0, 0)));
    assert!(!is_valid_timestamp(at(2021, 0, 1, 0, 0, 0)));
    assert!(!is_valid_timestamp(at(2021, 13, 1, 0, 0, 0)));
    assert!(!is_valid_timestamp(at(2021, 1, 0, 0, 0, 0)));
    assert!(!is_valid_timestamp(at(2021, 4, 31, 0, 0, 0)));
    assert!(!is_valid_timestamp(at(2021, 1, 1, 24, 0, 0)));
    assert!(!is_valid_timestamp(at(2021, 1, 1, 0, 60, 0)));
    assert!(!is_valid_timestamp(at(2021, 1, 1, 0, 0, 60)));
    assert!(!is_valid_timestamp(at(400000, 1, 1, 0, 0, 0)));
}

#[test]
fn sample_times_are_a_second_apart() {
    assert_eq!(
        sample_times(at(2021, 6, 15, 10, 30, 58), 4),
        Some(vec![
            at(2021, 6, 15, 10, 30, 58),
            at(2021, 6, 15, 10, 30, 59),
            at(2021, 6, 15, 10, 31, 0),
            at(2021, 6, 15, 10, 31, 1),
        ])
    );
}

#[test]
fn sample_times_cross_midnight_and_new_year() {
    assert_eq!(
        sample_times(at(2021, 12, 31, 23, 59, 59), 2),
        Some(vec![at(2021, 12, 31, 23, 59, 59), at(2022, 1, 1, 0, 0, 0)])
    );
    assert_eq!(
        sample_times(at(2020, 2, 28, 23, 59, 59), 2),
        Some(vec![at(2020, 2, 28, 23, 59, 59), at(2020, 2, 29, 0, 0, 0)])
    );
    assert_eq!(
        sample_times(at(2021, 2, 28, 23, 59, 59), 2),
        Some(vec![at(2021, 2, 28, 23, 59, 59), at(2021, 3, 1, 0, 0, 0)])
    );
}

#[test]
fn sample_times_go_on_for_hours() {
    let times = sample_times(at(2021, 6, 15, 22, 0, 0), 3 * 3600 + 1).unwrap();
    assert_eq!(times.len(), 3 * 3600 + 1);
    assert_eq!(times[3600], at(2021, 6, 15, 23, 0, 0));
    assert_eq!(times[2 * 3600 + 61], at(2021, 6, 16, 0, 1, 1));
    assert_eq!(times[3 * 3600], at(2021, 6, 16, 1, 0, 0));
}

#[test]
fn sample_times_of_no_date_are_none() {
    assert_eq!(sample_times(at(2021, 2, 30, 0, 0, 0), 1), None);
    assert_eq!(sample_times(at(2021, 1, 1, 25, 0, 0), 3), None);
    // no sample, no time to be had
    assert_eq!(sample_times(at(2021, 2, 30, 0, 0, 0), 0), Some(vec![]));
}

#[test]
fn sample_times_end_with_the_calendar() {
    let last = at(262142, 12, 31, 23, 59, 59);
    if is_valid_timestamp(last) {
        assert_eq!(sample_times(last, 1), Some(vec![last]));
        assert_eq!(sample_times(last, 2), None);
    }
}

#[test]
fn samples_are_zipped_by_position() {
    let times = [at(2021, 1, 1, 0, 0, 0), at(2021, 1, 1, 0, 0, 1), at(2021, 1, 1, 0, 0, 2)];
    assert_eq!(
        zip_samples(&times, &[60, 61, 62], &[97, 98, 99]),
        vec![
            Sample { time: times[0], pulse: 60, spo2: 97 },
            Sample { time: times[1], pulse: 61, spo2: 98 },
            Sample { time: times[2], pulse: 62, spo2: 99 },
        ]
    );
}

#[test]
fn zipped_samples_end_with_the_shortest() {
    let times = [at(2021, 1, 1, 0, 0, 0), at(2021, 1, 1, 0, 0, 1), at(2021, 1, 1, 0, 0, 2)];
    assert_eq!(zip_samples(&times, &[60, 61], &[97, 98, 99]).len(), 2);
    assert_eq!(zip_samples(&times, &[60, 61, 62, 63], &[97]).len(), 1);
    assert_eq!(zip_samples(&times[..1], &[60, 61, 62, 63], &[97, 98]).len(), 1);
    assert_eq!(zip_samples(&times, &[], &[97, 98]), vec![]);
    assert_eq!(zip_samples(&[], &[1], &[2]), vec![]);
}

#[test]
fn timed_samples_begin_at_the_start() {
    let start = at(2021, 12, 31, 23, 59, 58);
    assert_eq!(
        timed_samples(start, &[60, 61, 62], &[97, 98, 99, 96]),
        Some(vec![
            Sample { time: at(2021, 12, 31, 23, 59, 58), pulse: 60, spo2: 97 },
            Sample { time: at(2021, 12, 31, 23, 59, 59), pulse: 61, spo2: 98 },
            Sample { time: at(2022, 1, 1, 0, 0, 0), pulse: 62, spo2: 99 },
        ])
    );
}

#[test]
fn timed_samples_of_no_date_are_none() {
    assert_eq!(timed_samples(at(2021, 13, 1, 0, 0, 0), &[60], &[97]), None);
    assert_eq!(timed_samples(at(2021, 13, 1, 0, 0, 0), &[], &[97]), Some(vec![]));
}
