use oximeter::checksum::calculate_checksum;
use oximeter::frames::init_bytestring;
use oximeter::samples::Reading;
use oximeter::samples::Sample;
use oximeter::samples::Timestamp;
use oximeter::session::Action;
use oximeter::session::Goal;
use oximeter::session::Session;
use oximeter::session_model::SessionError;
use oximeter::session_model::Stage;

fn framed(body: &[u8]) -> Vec<u8> {
    let mut frame = body.to_vec();
    frame.push(calculate_checksum(body));
    frame
}

/// A report as the transport hands it over: frames and padding.
fn report(frames: &[Vec<u8>]) -> Vec<u8> {
    let mut bytes = Vec::new();
    for frame in frames {
        bytes.extend_from_slice(frame);
    }
    assert!(bytes.len() <= 64);
    bytes.resize(64, 0x00);
    bytes
}

fn init_reply() -> Vec<u8> {
    vec![0xf0, 0x70]
}

/// A session that has sent the init sequence and got the right reply;
/// returns what it asks for next.
fn opened(goal: Goal) -> (Session, Action) {
    let mut session = Session::new(goal);
    assert_eq!(session.stage(), Stage::Start);
    assert_eq!(session.resume(), Action::Send(init_bytestring()));
    assert_eq!(session.stage(), Stage::AwaitInit);
    assert_eq!(session.resume(), Action::Receive);
    let action = session.receive(&report(&[init_reply()]));
    (session, action)
}

fn auto_header(length: u8) -> Vec<u8> {
    framed(&[0xec, 0x00, 0x00, 0x00, 21, 12, 31, 23, 59, 58, length, 0x00, 0x00])
}

fn auto_data(signs: u8, data: &[u8]) -> Vec<u8> {
    let mut body = vec![0xed, 0x00, 0x00, 0x00, 0x00, signs, 0x00, 0x00];
    body.extend_from_slice(data);
    body.resize(29, 0x00);
    let frame = framed(&body);
    assert_eq!(frame.len(), 30);
    frame
}

fn manual_data(code: u8, signs: u8, seed: u8, data: &[u8]) -> Vec<u8> {
    let mut body = vec![code, 0x00, 0x00, signs, 0x00, seed];
    body.extend_from_slice(data);
    body.resize(19, 0x00);
    let frame = framed(&body);
    assert_eq!(frame.len(), 20);
    frame
}

fn at(year: i32, month: u32, day: u32, hour: u32, minute: u32, second: u32) -> Timestamp {
    Timestamp { year, month, day, hour, minute, second }
}

#[test]
fn session_opens_with_the_init_sequence() {
    let mut session = Session::new(Goal::LiveData);
    assert_eq!(session.resume(), Action::Send(init_bytestring()));
    assert_eq!(session.resume(), Action::Receive);
    // it goes on waiting until a report comes
    assert_eq!(session.resume(), Action::Receive);
    assert_eq!(session.stage(), Stage::AwaitInit);
}

#[test]
fn wrong_init_reply_aborts_before_any_request() {
    for goal in [Goal::LiveData, Goal::ReadFile(1), Goal::SetDeviceId(b"abc".to_vec())] {
        let mut session = Session::new(goal);
        assert_eq!(session.resume(), Action::Send(init_bytestring()));
        assert_eq!(session.resume(), Action::Receive);
        assert_eq!(
            session.receive(&report(&[vec![0xf0, 0x71]])),
            Action::Failed(SessionError::WrongInitResponse)
        );
        assert_eq!(session.stage(), Stage::Failed(SessionError::WrongInitResponse));
        // whatever comes now, nothing is sent
        assert_eq!(session.resume(), Action::Failed(SessionError::WrongInitResponse));
        assert_eq!(
            session.receive(&report(&[init_reply()])),
            Action::Failed(SessionError::WrongInitResponse)
        );
        assert_eq!(session.resume(), Action::Failed(SessionError::WrongInitResponse));
    }
}

#[test]
fn other_wrong_init_replies_abort_too() {
    let replies = vec![
        report(&[]),
        report(&[framed(&[0xf1])]),
        report(&[framed(&[0xf0, 0x00])]),
        // the right reply, but not first
        report(&[framed(&[0xf1]), init_reply()]),
        vec![0xf0],
        vec![],
    ];
    for reply in replies {
        let mut session = Session::new(Goal::ReadFile(1));
        session.resume();
        session.resume();
        assert_eq!(session.receive(&reply), Action::Failed(SessionError::WrongInitResponse));
    }
}

#[test]
fn init_reply_in_two_reports_is_too_late() {
    // the reply is judged after the first report
    let mut session = Session::new(Goal::LiveData);
    session.resume();
    session.resume();
    assert_eq!(session.receive(&[0xf0]), Action::Failed(SessionError::WrongInitResponse));
}

#[test]
fn live_session_streams_readings() {
    let (mut session, action) = opened(Goal::LiveData);
    assert_eq!(action, Action::Send(vec![0x9b, 0x00, 0x1b]));
    assert_eq!(session.stage(), Stage::LiveAwait);
    assert_eq!(session.resume(), Action::Receive);
    let first = framed(&[0xeb, 0x01, 0x05, 72, 98, 0x01, 0x02]);
    let curve = framed(&[0xeb, 0x00, 0x05, 10, 20, 0x01, 0x02]);
    let second = framed(&[0xeb, 0x01, 0x05, 73, 97, 0x03, 0x04]);
    assert_eq!(
        session.receive(&report(&[first, curve, second])),
        Action::Readings(vec![Reading { pulse: 72, spo2: 98 }, Reading { pulse: 73, spo2: 97 }])
    );
    assert_eq!(session.stage(), Stage::LiveTally);
    assert_eq!(session.resume(), Action::Receive);
    // a report without readings
    assert_eq!(session.receive(&report(&[])), Action::Readings(vec![]));
    assert_eq!(session.resume(), Action::Receive);
}

#[test]
fn live_session_passes_over_broken_frames() {
    let (mut session, _) = opened(Goal::LiveData);
    session.resume();
    let mut broken = framed(&[0xeb, 0x01, 0x05, 72, 98, 0x01, 0x02]);
    broken[7] ^= 0x01;
    let short = framed(&[0xeb, 0x01, 0x05, 72, 98, 0x01]);
    let good = framed(&[0xeb, 0x01, 0x05, 80, 99, 0x01, 0x02]);
    assert_eq!(
        session.receive(&report(&[broken, short, good])),
        Action::Readings(vec![Reading { pulse: 80, spo2: 99 }])
    );
}

#[test]
fn live_session_sends_keep_alive_every_eighth_cycle() {
    let (mut session, _) = opened(Goal::LiveData);
    assert_eq!(session.resume(), Action::Receive);
    let reading = framed(&[0xeb, 0x01, 0x05, 72, 98, 0x01, 0x02]);
    for round in 0..3 {
        for cycle in 1..=8 {
            assert_eq!(
                session.receive(&report(&[reading.clone()])),
                Action::Readings(vec![Reading { pulse: 72, spo2: 98 }]),
                "round {} cycle {}", round, cycle
            );
            if cycle < 8 {
                assert_eq!(session.resume(), Action::Receive, "round {} cycle {}", round, cycle);
            } else {
                assert_eq!(session.resume(), Action::Send(vec![0x9a, 0x1a]));
                assert_eq!(session.resume(), Action::Receive);
            }
        }
    }
}

#[test]
fn live_reading_may_come_in_pieces() {
    let (mut session, _) = opened(Goal::LiveData);
    session.resume();
    let reading = framed(&[0xeb, 0x01, 0x05, 72, 98, 0x01, 0x02]);
    assert_eq!(session.receive(&reading[..3]), Action::Readings(vec![]));
    assert_eq!(session.resume(), Action::Receive);
    assert_eq!(
        session.receive(&reading[3..]),
        Action::Readings(vec![Reading { pulse: 72, spo2: 98 }])
    );
}

#[test]
fn file_zero_is_refused_before_any_request() {
    let (mut session, action) = opened(Goal::ReadFile(0));
    assert_eq!(action, Action::Failed(SessionError::FileIndexZero));
    assert_eq!(session.resume(), Action::Failed(SessionError::FileIndexZero));
}

#[test]
fn unknown_recording_mode_fails() {
    let (mut session, action) = opened(Goal::ReadFile(1));
    assert_eq!(action, Action::Send(vec![0x8e, 0x07, 0x15]));
    assert_eq!(session.stage(), Stage::AwaitMode);
    assert_eq!(session.resume(), Action::Receive);
    assert_eq!(
        session.receive(&report(&[framed(&[0xfe, 0x07, 0x02, 0x00])])),
        Action::Failed(SessionError::UnknownRecordingMode(2))
    );
}

#[test]
fn recording_mode_is_waited_for() {
    let (mut session, _) = opened(Goal::ReadFile(1));
    session.resume();
    // another property, a broken frame, nothing: keep reading
    assert_eq!(session.receive(&report(&[framed(&[0xfe, 0x03, 0x00, 0x00])])), Action::Receive);
    assert_eq!(session.receive(&report(&[])), Action::Receive);
    assert_eq!(session.resume(), Action::Receive);
    assert_eq!(
        session.receive(&report(&[framed(&[0xfe, 0x07, 0x00, 0x00])])),
        Action::Send(vec![0x90, 0x06, 0x16])
    );
    assert_eq!(session.stage(), Stage::AwaitCount);
}

#[test]
fn last_recording_mode_of_a_report_decides() {
    let (mut session, _) = opened(Goal::ReadFile(1));
    session.resume();
    let automatic = framed(&[0xfe, 0x07, 0x00, 0x00]);
    let manual = framed(&[0xfe, 0x07, 0x01, 0x00]);
    assert_eq!(
        session.receive(&report(&[automatic, manual])),
        Action::Send(vec![0xa0, 0x00, 0x20])
    );
    assert_eq!(session.stage(), Stage::AwaitManualHeader);
}

fn automatic(index: usize) -> Session {
    let (mut session, _) = opened(Goal::ReadFile(index));
    session.resume();
    assert_eq!(
        session.receive(&report(&[framed(&[0xfe, 0x07, 0x00, 0x00])])),
        Action::Send(vec![0x90, 0x06, 0x16])
    );
    assert_eq!(session.resume(), Action::Receive);
    session
}

#[test]
fn no_recorded_file_fails() {
    let mut session = automatic(1);
    assert_eq!(
        session.receive(&report(&[framed(&[0xe0, 0x06, 0x00, 0x00, 0x03, 0x00])])),
        Action::Failed(SessionError::NoFilesRecorded)
    );
}

#[test]
fn file_beyond_the_count_fails() {
    let mut session = automatic(3);
    assert_eq!(
        session.receive(&report(&[framed(&[0xe0, 0x06, 0x02, 0x00, 0x05, 0x00])])),
        Action::Failed(SessionError::NoSuchFile { index: 3, count: 2 })
    );
}

#[test]
fn file_count_is_waited_for() {
    let mut session = automatic(2);
    assert_eq!(session.receive(&report(&[framed(&[0xe1, 0x06, 0x02, 0x00, 0x05, 0x00])])), Action::Receive);
    assert_eq!(session.receive(&report(&[])), Action::Receive);
    assert_eq!(
        session.receive(&report(&[framed(&[0xe0, 0x06, 0x02, 0x00, 0x05, 0x00])])),
        Action::Send(vec![0x9c, 0x01, 0x1d])
    );
    assert_eq!(session.stage(), Stage::AwaitHeader(1));
}

#[test]
fn automatic_file_is_read() {
    let mut session = automatic(2);
    assert_eq!(
        session.receive(&report(&[framed(&[0xe0, 0x06, 0x02, 0x00, 0x03, 0x00])])),
        Action::Send(vec![0x9c, 0x01, 0x1d])
    );
    assert_eq!(session.resume(), Action::Receive);
    // the header of file 1 is passed by
    assert_eq!(
        session.receive(&report(&[framed(&[0xec, 0, 0, 0, 20, 1, 2, 3, 4, 5, 100, 0, 0])])),
        Action::Send(vec![0x9c, 0x01, 0x1d])
    );
    assert_eq!(session.stage(), Stage::AwaitHeader(2));
    assert_eq!(session.resume(), Action::Receive);
    // the header of file 2: three samples from 2021-12-31 23:59:58
    assert_eq!(
        session.receive(&report(&[auto_header(3)])),
        Action::Send(vec![0x9d, 0x04, 0x01, 0x01, 0x02, 0x00, 0x00, 0x00, 0x25])
    );
    assert_eq!(session.stage(), Stage::AutoData(oximeter::frames::Channel::Oxygen));
    assert_eq!(session.resume(), Action::Receive);
    // oxygen: base 99, deltas 2, 1, 0
    assert_eq!(
        session.receive(&report(&[auto_data(0b11, &[0x76, 0x73, 0x21, 0x0f])])),
        Action::Send(vec![0x9d, 0x04, 0x02, 0x01, 0x02, 0x00, 0x00, 0x00, 0x26])
    );
    assert_eq!(session.stage(), Stage::AutoData(oximeter::frames::Channel::Pulse));
    assert_eq!(session.resume(), Action::Receive);
    // pulse: base 62, deltas 2, 1, 0
    assert_eq!(
        session.receive(&report(&[auto_data(0b11, &[0x73, 0x7e, 0x21, 0x0f])])),
        Action::File(vec![
            Sample { time: at(2021, 12, 31, 23, 59, 58), pulse: 60, spo2: 97 },
            Sample { time: at(2021, 12, 31, 23, 59, 59), pulse: 61, spo2: 98 },
            Sample { time: at(2022, 1, 1, 0, 0, 0), pulse: 62, spo2: 99 },
        ])
    );
    assert_eq!(session.stage(), Stage::Done);
    assert_eq!(session.resume(), Action::Finished);
    assert_eq!(session.resume(), Action::Finished);
    assert_eq!(session.receive(&report(&[])), Action::Finished);
}

#[test]
fn automatic_file_over_several_frames() {
    let mut session = automatic(1);
    session.receive(&report(&[framed(&[0xe0, 0x06, 0x01, 0x00, 0x01, 0x00])]));
    session.resume();
    assert_eq!(
        session.receive(&report(&[auto_header(50)])),
        Action::Send(vec![0x9d, 0x04, 0x01, 0x01, 0x01, 0x00, 0x00, 0x00, 0x24])
    );
    assert_eq!(session.resume(), Action::Receive);
    // base 0x60, then 19 bytes of two samples each: 38 samples
    let mut data = vec![0x76, 0x70];
    data.resize(21, 0x01);
    assert_eq!(session.receive(&report(&[auto_data(0b11, &data)])), Action::Receive);
    assert_eq!(session.resume(), Action::Receive);
    // a frame of another kind in between
    assert_eq!(session.receive(&report(&[framed(&[0xeb, 0x01, 0, 1, 2, 3, 4])])), Action::Receive);
    // twelve more are needed; the frame has more
    let more = vec![0x23; 21];
    assert_eq!(
        session.receive(&report(&[auto_data(0, &more)])),
        Action::Send(vec![0x9d, 0x04, 0x02, 0x01, 0x01, 0x00, 0x00, 0x00, 0x25])
    );
    session.resume();
    let mut pulse = vec![0x74, 0x70];
    pulse.resize(21, 0x00);
    assert_eq!(session.receive(&report(&[auto_data(0b11, &pulse)])), Action::Receive);
    let action = session.receive(&report(&[auto_data(0, &vec![0x00; 21])]));
    match action {
        Action::File(samples) => {
            assert_eq!(samples.len(), 50);
            for (i, sample) in samples.iter().enumerate() {
                assert_eq!(sample.pulse, 0x40);
                let spo2 = if i < 38 {
                    if i % 2 == 0 { 0x60 } else { 0x5f }
                } else if i % 2 == 0 {
                    0x5e
                } else {
                    0x5d
                };
                assert_eq!(sample.spo2, spo2, "sample {}", i);
            }
            assert_eq!(samples[0].time, at(2021, 12, 31, 23, 59, 58));
            assert_eq!(samples[49].time, at(2022, 1, 1, 0, 0, 47));
        },
        other => panic!("no file: {:?}", other),
    }
}

#[test]
fn automatic_file_without_samples() {
    let mut session = automatic(1);
    session.receive(&report(&[framed(&[0xe0, 0x06, 0x01, 0x00, 0x01, 0x00])]));
    session.resume();
    assert_eq!(
        session.receive(&report(&[auto_header(0)])),
        Action::Send(vec![0x9d, 0x04, 0x01, 0x01, 0x01, 0x00, 0x00, 0x00, 0x24])
    );
    // nothing is to be read
    assert_eq!(
        session.resume(),
        Action::Send(vec![0x9d, 0x04, 0x02, 0x01, 0x01, 0x00, 0x00, 0x00, 0x25])
    );
    assert_eq!(session.resume(), Action::File(vec![]));
    assert_eq!(session.resume(), Action::Finished);
}

#[test]
fn header_with_no_date_fails() {
    let mut session = automatic(1);
    session.receive(&report(&[framed(&[0xe0, 0x06, 0x01, 0x00, 0x01, 0x00])]));
    session.resume();
    assert_eq!(
        session.receive(&report(&[framed(&[0xec, 0, 0, 0, 21, 13, 31, 23, 59, 58, 3, 0, 0])])),
        Action::Failed(SessionError::MalformedTimestamp)
    );
}

#[test]
fn file_number_beyond_a_byte_fails() {
    let mut session = automatic(256);
    // 256 files of each kind
    assert_eq!(
        session.receive(&report(&[framed(&[0xe0, 0x06, 0x00, 0x02, 0x00, 0x02])])),
        Action::Send(vec![0x9c, 0x01, 0x1d])
    );
    for number in 1..256 {
        assert_eq!(session.stage(), Stage::AwaitHeader(number));
        assert_eq!(session.resume(), Action::Receive);
        assert_eq!(session.receive(&report(&[auto_header(3)])), Action::Send(vec![0x9c, 0x01, 0x1d]));
    }
    assert_eq!(session.stage(), Stage::AwaitHeader(256));
    assert_eq!(
        session.receive(&report(&[auto_header(3)])),
        Action::Failed(SessionError::FileNumberTooLarge)
    );
}

fn manual(index: usize) -> (Session, Action) {
    let (mut session, _) = opened(Goal::ReadFile(index));
    session.resume();
    let action = session.receive(&report(&[framed(&[0xfe, 0x07, 0x01, 0x00])]));
    (session, action)
}

#[test]
fn manual_file_has_index_one_only() {
    let (_, action) = manual(2);
    assert_eq!(action, Action::Failed(SessionError::ManualFileIndexNotOne));
    let (_, action) = manual(1);
    assert_eq!(action, Action::Send(vec![0xa0, 0x00, 0x20]));
}

#[test]
fn empty_manual_file_fails() {
    let (mut session, _) = manual(1);
    session.resume();
    assert_eq!(
        session.receive(&report(&[framed(&[0xd0, 0, 21, 6, 15, 10, 30, 5, 0, 0, 0, 0, 0])])),
        Action::Failed(SessionError::NoManualFile)
    );
}

#[test]
fn manual_header_with_no_date_fails() {
    let (mut session, _) = manual(1);
    session.resume();
    assert_eq!(
        session.receive(&report(&[framed(&[0xd0, 0, 21, 6, 31, 10, 30, 5, 0, 0, 27, 0, 0])])),
        Action::Failed(SessionError::MalformedTimestamp)
    );
}

#[test]
fn manual_file_is_read_in_whole_frames() {
    let (mut session, _) = manual(1);
    assert_eq!(session.resume(), Action::Receive);
    // 59 samples: two whole frames of 27 count
    assert_eq!(
        session.receive(&report(&[framed(&[0xd0, 0, 21, 6, 15, 10, 30, 5, 0, 0, 59, 0, 0])])),
        Action::Send(vec![0xa2, 0x00, 0x00, 0x00, 0x22])
    );
    assert_eq!(session.resume(), Action::Receive);
    let pulse_one = manual_data(0xd2, 0, 70, &[0x19]);
    let pulse_two = manual_data(0xd2, 0b1, 0x10, &[0x00]);
    // an oxygen frame is not of this channel
    let stray = manual_data(0xd3, 0, 1, &[]);
    assert_eq!(session.receive(&report(&[pulse_one, stray])), Action::Receive);
    assert_eq!(
        session.receive(&report(&[pulse_two])),
        Action::Send(vec![0xa3, 0x00, 0x00, 0x00, 0x23])
    );
    assert_eq!(session.resume(), Action::Receive);
    let oxygen_one = manual_data(0xd3, 0, 98, &[]);
    let oxygen_two = manual_data(0xd3, 0, 97, &[0x20]);
    let oxygen_three = manual_data(0xd3, 0, 1, &[]);
    let action = session.receive(&report(&[oxygen_one, oxygen_two, oxygen_three]));
    match action {
        Action::File(samples) => {
            assert_eq!(samples.len(), 54);
            assert_eq!(samples[0], Sample { time: at(2021, 6, 15, 10, 30, 5), pulse: 70, spo2: 98 });
            assert_eq!(samples[1], Sample { time: at(2021, 6, 15, 10, 30, 6), pulse: 71, spo2: 98 });
            assert_eq!(samples[2], Sample { time: at(2021, 6, 15, 10, 30, 7), pulse: 70, spo2: 98 });
            assert_eq!(samples[26].pulse, 70);
            assert_eq!(samples[27], Sample { time: at(2021, 6, 15, 10, 30, 32), pulse: 0x90, spo2: 97 });
            assert_eq!(samples[28].spo2, 99);
            assert_eq!(samples[53], Sample { time: at(2021, 6, 15, 10, 30, 58), pulse: 0x90, spo2: 99 });
        },
        other => panic!("no file: {:?}", other),
    }
    assert_eq!(session.resume(), Action::Finished);
}

#[test]
fn manual_file_of_less_than_a_frame_has_no_samples() {
    let (mut session, _) = manual(1);
    session.resume();
    assert_eq!(
        session.receive(&report(&[framed(&[0xd0, 0, 21, 6, 15, 10, 30, 5, 0, 0, 26, 0, 0])])),
        Action::Send(vec![0xa2, 0x00, 0x00, 0x00, 0x22])
    );
    assert_eq!(session.resume(), Action::Send(vec![0xa3, 0x00, 0x00, 0x00, 0x23]));
    assert_eq!(session.resume(), Action::File(vec![]));
}

#[test]
fn device_id_is_written() {
    let (mut session, action) = opened(Goal::SetDeviceId(b"abc".to_vec()));
    assert_eq!(
        action,
        Action::Send(vec![0x8f, 0x03, 0x61, 0x62, 0x63, 0x20, 0x20, 0x20, 0x20, 0x38])
    );
    assert_eq!(session.stage(), Stage::AwaitAck);
    assert_eq!(session.resume(), Action::Receive);
    assert_eq!(session.receive(&report(&[framed(&[0xfe, 0x03])])), Action::Receive);
    assert_eq!(session.receive(&report(&[framed(&[0xff])])), Action::Finished);
    assert_eq!(session.stage(), Stage::Done);
    assert_eq!(session.resume(), Action::Finished);
}

#[test]
fn bad_device_id_is_refused_before_its_frame() {
    let (mut session, action) = opened(Goal::SetDeviceId(b"12345678".to_vec()));
    assert_eq!(action, Action::Failed(SessionError::DeviceIdTooLong));
    assert_eq!(session.resume(), Action::Failed(SessionError::DeviceIdTooLong));
    let (_, action) = opened(Goal::SetDeviceId(vec![0x61, 0x80]));
    assert_eq!(action, Action::Failed(SessionError::DeviceIdNotAscii));
}

#[test]
fn frames_behind_the_init_reply_are_kept() {
    let mut session = Session::new(Goal::ReadFile(1));
    session.resume();
    session.resume();
    // the mode arrives with the init reply, before it was asked for
    let action = session.receive(&report(&[init_reply(), framed(&[0xfe, 0x07, 0x02, 0x00])]));
    assert_eq!(action, Action::Send(vec![0x8e, 0x07, 0x15]));
    assert_eq!(session.resume(), Action::Receive);
    assert_eq!(
        session.receive(&report(&[])),
        Action::Failed(SessionError::UnknownRecordingMode(2))
    );
}
