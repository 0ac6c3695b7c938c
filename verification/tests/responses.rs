use oximeter::checksum::calculate_checksum;
use oximeter::codes::RecordingMode;
use oximeter::frames::Channel;
use oximeter::responses::has_code;
use oximeter::responses::is_init_reply;
use oximeter::responses::parse_auto_data;
use oximeter::responses::parse_auto_header;
use oximeter::responses::parse_file_count;
use oximeter::responses::parse_live_reading;
use oximeter::responses::parse_manual_data;
use oximeter::responses::parse_manual_header;
use oximeter::responses::parse_recording_mode;
use oximeter::responses::parse_set_property_reply;
use oximeter::responses::FileHeader;
use oximeter::codes::CommandCode;
use oximeter::samples::Reading;
use oximeter::samples::Timestamp;

fn framed(body: &[u8]) -> Vec<u8> {
    let mut frame = body.to_vec();
    frame.push(calculate_checksum(body));
    frame
}

fn spoiled(body: &[u8]) -> Vec<u8> {
    let mut frame = framed(body);
    let last = frame.len() - 1;
    frame[last] ^= 0x01;
    frame
}

#[test]
fn code_is_read_from_valid_frames_only() {
    assert!(has_code(&framed(&[0xf0]), CommandCode::ReadyResponse));
    assert!(has_code(&framed(&[0xf0, 0x01]), CommandCode::ReadyResponse));
    assert!(!has_code(&framed(&[0xf1]), CommandCode::ReadyResponse));
    assert!(!has_code(&spoiled(&[0xf0]), CommandCode::ReadyResponse));
    assert!(!has_code(&[], CommandCode::ReadyResponse));
    assert!(has_code(&[0x00], CommandCode::Other(0x00)));
}

#[test]
fn init_reply_is_exactly_two_bytes() {
    assert!(is_init_reply(&[0xf0, 0x70]));
    assert!(!is_init_reply(&[0xf0, 0x71]));
    assert!(!is_init_reply(&[0xf0]));
    assert!(!is_init_reply(&[0xf0, 0x70, 0x00]));
    assert!(!is_init_reply(&[]));
    assert!(!is_init_reply(&[0xf1, 0x71]));
}

#[test]
fn live_reading_is_read_from_fixed_places() {
    let frame = framed(&[0xeb, 0x01, 0x05, 72, 98, 0x00, 0x00]);
    assert_eq!(frame.len(), 8);
    assert_eq!(parse_live_reading(&frame), Some(Reading { pulse: 72, spo2: 98 }));
    let longer = framed(&[0xeb, 0x01, 0x05, 60, 99, 0x01, 0x02, 0x03, 0x04]);
    assert_eq!(parse_live_reading(&longer), Some(Reading { pulse: 60, spo2: 99 }));
}

#[test]
fn live_reading_needs_checksum_code_subcode_and_length() {
    assert_eq!(parse_live_reading(&spoiled(&[0xeb, 0x01, 0x05, 72, 98, 0x00, 0x00])), None);
    assert_eq!(parse_live_reading(&framed(&[0xec, 0x01, 0x05, 72, 98, 0x00, 0x00])), None);
    assert_eq!(parse_live_reading(&framed(&[0xeb, 0x00, 0x05, 72, 98, 0x00, 0x00])), None);
    assert_eq!(parse_live_reading(&framed(&[0xeb, 0x01, 0x05, 72, 98, 0x00])), None);
    assert_eq!(parse_live_reading(&framed(&[0xeb])), None);
    assert_eq!(parse_live_reading(&[0xeb]), None);
    assert_eq!(parse_live_reading(&[]), None);
}

#[test]
fn recording_mode_is_read() {
    assert!(matches!(
        parse_recording_mode(&framed(&[0xfe, 0x07, 0x00, 0x00])),
        Some(RecordingMode::Automatic)
    ));
    assert!(matches!(
        parse_recording_mode(&framed(&[0xfe, 0x07, 0x01, 0x00])),
        Some(RecordingMode::Manual)
    ));
    assert!(matches!(
        parse_recording_mode(&framed(&[0xfe, 0x07, 0x02, 0x00])),
        Some(RecordingMode::Other(2))
    ));
    // the second byte counts 128
    assert!(matches!(
        parse_recording_mode(&framed(&[0xfe, 0x07, 0x01, 0x02])),
        Some(RecordingMode::Other(257))
    ));
}

#[test]
fn recording_mode_needs_its_property_and_length() {
    assert!(parse_recording_mode(&framed(&[0xfe, 0x06, 0x00, 0x00])).is_none());
    assert!(parse_recording_mode(&framed(&[0xfe, 0x07, 0x00])).is_none());
    assert!(parse_recording_mode(&framed(&[0xfe, 0x07, 0x00, 0x00, 0x00])).is_none());
    assert!(parse_recording_mode(&framed(&[0xff, 0x07, 0x00, 0x00])).is_none());
    assert!(parse_recording_mode(&spoiled(&[0xfe, 0x07, 0x00, 0x00])).is_none());
    assert!(parse_recording_mode(&[]).is_none());
}

#[test]
fn file_count_is_the_smaller_of_two() {
    assert_eq!(parse_file_count(&framed(&[0xe0, 0x06, 0x02, 0x00, 0x03, 0x00])), Some(2));
    assert_eq!(parse_file_count(&framed(&[0xe0, 0x06, 0x05, 0x00, 0x03, 0x00])), Some(3));
    assert_eq!(parse_file_count(&framed(&[0xe0, 0x06, 0x00, 0x00, 0x03, 0x00])), Some(0));
    // 1 + 2 * 128 and 0 + 3 * 128
    assert_eq!(parse_file_count(&framed(&[0xe0, 0x06, 0x01, 0x02, 0x00, 0x03])), Some(257));
    assert_eq!(parse_file_count(&framed(&[0xe0, 0x06, 0x7f, 0x7f, 0x7f, 0x7f])), Some(16383));
}

#[test]
fn file_count_needs_checksum_code_and_length() {
    assert_eq!(parse_file_count(&spoiled(&[0xe0, 0x06, 0x02, 0x00, 0x03, 0x00])), None);
    assert_eq!(parse_file_count(&framed(&[0xe1, 0x06, 0x02, 0x00, 0x03, 0x00])), None);
    assert_eq!(parse_file_count(&framed(&[0xe0, 0x06, 0x02, 0x00])), None);
    assert_eq!(parse_file_count(&framed(&[0xe0, 0x06, 0x02, 0x00, 0x03])), Some(2));
    assert_eq!(parse_file_count(&[]), None);
}

#[test]
fn auto_header_is_read() {
    let frame = framed(&[0xec, 0x01, 0x02, 0x03, 21, 12, 31, 23, 59, 58, 0x03, 0x02, 0x01]);
    assert_eq!(
        parse_auto_header(&frame),
        Some(FileHeader {
            start: Timestamp { year: 2021, month: 12, day: 31, hour: 23, minute: 59, second: 58 },
            length: 3 + 2 * 128 + 128 * 128,
        })
    );
}

#[test]
fn auto_header_keeps_what_the_device_says() {
    // no date, and bytes with their top bits set: nothing is judged here
    let frame = framed(&[0xec, 0, 0, 0, 255, 13, 0, 24, 60, 61, 0xff, 0xff, 0xff]);
    assert_eq!(
        parse_auto_header(&frame),
        Some(FileHeader {
            start: Timestamp { year: 2255, month: 13, day: 0, hour: 24, minute: 60, second: 61 },
            length: 0x3f_ffff,
        })
    );
}

#[test]
fn auto_header_needs_checksum_code_and_length() {
    let body = [0xec, 0x01, 0x02, 0x03, 21, 12, 31, 23, 59, 58, 0x03, 0x02, 0x01];
    assert_eq!(parse_auto_header(&spoiled(&body)), None);
    assert_eq!(parse_auto_header(&framed(&body[..11])), None);
    assert!(parse_auto_header(&framed(&body[..12])).is_some());
    let mut other = body;
    other[0] = 0xed;
    assert_eq!(parse_auto_header(&framed(&other)), None);
}

#[test]
fn auto_data_is_bitmap_and_21_bytes() {
    let mut body = vec![0xed, 0x04, 0x01, 0x01, 0x02, 0x03, 0x01, 0x02];
    let data: Vec<u8> = (1..=21).collect();
    body.extend_from_slice(&data);
    let frame = framed(&body);
    assert_eq!(frame.len(), 30);
    let (signs, bytes) = parse_auto_data(&frame).unwrap();
    assert_eq!(signs, 3 + 128 + 2 * 128 * 128);
    assert_eq!(bytes, &data[..]);
}

#[test]
fn auto_data_needs_checksum_code_and_exact_length() {
    let mut body = vec![0xed, 0x04, 0x01, 0x01, 0x02, 0x03, 0x01, 0x02];
    body.extend_from_slice(&[0x11; 21]);
    assert!(parse_auto_data(&spoiled(&body)).is_none());
    assert!(parse_auto_data(&framed(&body[..28])).is_none());
    let mut longer = body.clone();
    longer.push(0x11);
    assert!(parse_auto_data(&framed(&longer)).is_none());
    let mut other = body.clone();
    other[0] = 0xec;
    assert!(parse_auto_data(&framed(&other)).is_none());
}

#[test]
fn manual_header_is_read() {
    let frame = framed(&[0xd0, 0x00, 21, 6, 15, 10, 30, 5, 0x00, 0x00, 0x20, 0x01, 0x00, 0x00]);
    assert_eq!(frame.len(), 15);
    assert_eq!(parse_manual_header(&frame), None);
    let frame = framed(&[0xd0, 0x00, 21, 6, 15, 10, 30, 5, 0x00, 0x00, 0x20, 0x01, 0x00]);
    assert_eq!(frame.len(), 14);
    assert_eq!(
        parse_manual_header(&frame),
        Some(FileHeader {
            start: Timestamp { year: 2021, month: 6, day: 15, hour: 10, minute: 30, second: 5 },
            length: 0x20 + 128,
        })
    );
    assert_eq!(
        parse_manual_header(&spoiled(&[0xd0, 0, 21, 6, 15, 10, 30, 5, 0, 0, 0x20, 1, 0])),
        None
    );
    assert_eq!(parse_manual_header(&framed(&[0xd1, 0, 21, 6, 15, 10, 30, 5, 0, 0, 0x20, 1, 0])), None);
}

#[test]
fn manual_data_is_bitmap_seed_and_13_bytes() {
    let mut body = vec![0xd2, 0x01, 0x02, 0x05, 0x03, 100];
    let data: Vec<u8> = (1..=13).collect();
    body.extend_from_slice(&data);
    let frame = framed(&body);
    assert_eq!(frame.len(), 20);
    let (signs, seed, bytes) = parse_manual_data(&frame, Channel::Pulse).unwrap();
    assert_eq!(signs, 5 + 3 * 128);
    assert_eq!(seed, 100);
    assert_eq!(bytes, &data[..]);
    // the other channel has another code
    assert!(parse_manual_data(&frame, Channel::Oxygen).is_none());
    body[0] = 0xd3;
    let frame = framed(&body);
    assert!(parse_manual_data(&frame, Channel::Oxygen).is_some());
    assert!(parse_manual_data(&frame, Channel::Pulse).is_none());
    assert!(parse_manual_data(&spoiled(&body), Channel::Oxygen).is_none());
    assert!(parse_manual_data(&framed(&body[..18]), Channel::Oxygen).is_none());
}

#[test]
fn set_property_reply_needs_two_bytes() {
    assert!(parse_set_property_reply(&framed(&[0xff])));
    assert!(parse_set_property_reply(&framed(&[0xff, 0x03, 0x00])));
    assert!(!parse_set_property_reply(&spoiled(&[0xff])));
    assert!(!parse_set_property_reply(&framed(&[0xfe])));
    assert!(!parse_set_property_reply(&[]));
}
