use oximeter::checksum::is_checksum_ok;
use oximeter::codes::CommandCode;
use oximeter::codes::PropertyCode;
use oximeter::frames::advance_header_request;
use oximeter::frames::build_command;
use oximeter::frames::file_count_request;
use oximeter::frames::init_bytestring;
use oximeter::frames::keep_alive_request;
use oximeter::frames::live_data_request;
use oximeter::frames::manual_metadata_request;
use oximeter::frames::outgoing_report;
use oximeter::frames::read_auto_file_request;
use oximeter::frames::read_manual_file_request;
use oximeter::frames::read_property_request;
use oximeter::frames::set_device_id_request;
use oximeter::frames::Channel;
use oximeter::frames::INIT_BYTESTRING;
use oximeter::frames::REPORT_SIZE;

#[test]
fn init_bytestring_is_the_fixed_sequence() {
    assert_eq!(
        init_bytestring(),
        vec![
            0x7d, 0x81, 0xa7, 0x80, 0x80, 0x80, 0x80, 0x80, 0x80, 0x7d, 0x81, 0xa2, 0x80, 0x80,
            0x80, 0x80, 0x80, 0x80
        ]
    );
    assert_eq!(init_bytestring().len(), 18);
    assert_eq!(init_bytestring(), INIT_BYTESTRING.to_vec());
}

#[test]
fn command_is_code_payload_checksum() {
    assert_eq!(build_command(CommandCode::KeepAliveCommand, &[]), vec![0x9a, 0x1a]);
    assert_eq!(build_command(CommandCode::Other(0x01), &[0x02, 0x03]), vec![0x01, 0x02, 0x03, 0x06]);
    assert_eq!(build_command(CommandCode::SetPropertyResponse, &[0xff]), vec![0xff, 0xff, 0x7e]);
}

#[test]
fn requests_have_their_bytes() {
    assert_eq!(live_data_request(), vec![0x9b, 0x00, 0x1b]);
    assert_eq!(keep_alive_request(), vec![0x9a, 0x1a]);
    assert_eq!(read_property_request(PropertyCode::RecordingMode), vec![0x8e, 0x07, 0x15]);
    assert_eq!(read_property_request(PropertyCode::DeviceId), vec![0x8e, 0x03, 0x11]);
    assert_eq!(file_count_request(), vec![0x90, 0x06, 0x16]);
    assert_eq!(advance_header_request(), vec![0x9c, 0x01, 0x1d]);
    assert_eq!(manual_metadata_request(), vec![0xa0, 0x00, 0x20]);
    assert_eq!(read_manual_file_request(Channel::Pulse), vec![0xa2, 0x00, 0x00, 0x00, 0x22]);
    assert_eq!(read_manual_file_request(Channel::Oxygen), vec![0xa3, 0x00, 0x00, 0x00, 0x23]);
}

#[test]
fn read_auto_file_request_names_channel_and_file() {
    assert_eq!(
        read_auto_file_request(Channel::Oxygen, 3),
        vec![0x9d, 0x04, 0x01, 0x01, 0x03, 0x00, 0x00, 0x00, 0x26]
    );
    assert_eq!(
        read_auto_file_request(Channel::Pulse, 3),
        vec![0x9d, 0x04, 0x02, 0x01, 0x03, 0x00, 0x00, 0x00, 0x27]
    );
    assert_eq!(
        read_auto_file_request(Channel::Pulse, 255),
        vec![0x9d, 0x04, 0x02, 0x01, 0xff, 0x00, 0x00, 0x00, 0x23]
    );
}

#[test]
fn set_device_id_request_carries_the_field() {
    assert_eq!(
        set_device_id_request(b"abc    "),
        vec![0x8f, 0x03, 0x61, 0x62, 0x63, 0x20, 0x20, 0x20, 0x20, 0x38]
    );
}

#[test]
fn every_request_verifies() {
    let requests = vec![
        live_data_request(),
        keep_alive_request(),
        read_property_request(PropertyCode::RecordingMode),
        file_count_request(),
        advance_header_request(),
        read_auto_file_request(Channel::Oxygen, 1),
        read_auto_file_request(Channel::Pulse, 200),
        manual_metadata_request(),
        read_manual_file_request(Channel::Pulse),
        read_manual_file_request(Channel::Oxygen),
        set_device_id_request(b"1234567"),
    ];
    for request in requests {
        assert!(is_checksum_ok(&request));
        assert!(request[0] >= 0x80);
    }
}

#[test]
fn report_has_report_id_and_padding() {
    let report = outgoing_report(&[0x9a, 0x1a]);
    assert_eq!(REPORT_SIZE, 64);
    assert_eq!(report.len(), 64);
    assert_eq!(&report[..3], &[0x00, 0x9a, 0x1a]);
    assert!(report[3..].iter().all(|b| *b == 0x00));
}

#[test]
fn report_of_nothing_is_all_zeros() {
    assert_eq!(outgoing_report(&[]), vec![0x00; 64]);
}

#[test]
fn report_of_63_bytes_is_full() {
    let data = vec![0x11; 63];
    let report = outgoing_report(&data);
    assert_eq!(report.len(), 64);
    assert_eq!(report[0], 0x00);
    assert_eq!(&report[1..], &data[..]);
}

#[test]
fn report_of_long_data_is_not_cut() {
    let data = vec![0x22; 70];
    let report = outgoing_report(&data);
    assert_eq!(report.len(), 71);
    assert_eq!(report[0], 0x00);
    assert_eq!(&report[1..], &data[..]);
}

#[test]
fn report_of_the_init_bytestring() {
    let report = outgoing_report(&init_bytestring());
    assert_eq!(report.len(), 64);
    assert_eq!(&report[..4], &[0x00, 0x7d, 0x81, 0xa7]);
    assert_eq!(report[18], 0x80);
    assert_eq!(report[19], 0x00);
}
