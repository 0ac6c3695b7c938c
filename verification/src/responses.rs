//! The frames that the device sends. Each reader takes one frame as it came
//! out of the queue and gives what the frame says, or `None` for a frame
//! that is not of its kind: one with a wrong checksum, another code or too
//! few bytes. Such frames are passed over, never an error.
//!
//! Numbers wider than seven bits come in several bytes, seven bits in each,
//! lowest first.

use crate::checksum::checksum_ok;
use crate::checksum::is_checksum_ok;
use crate::codes::CommandCode;
use crate::codes::PropertyCode;
use crate::codes::RecordingMode;
use crate::frames::init_reply;
use crate::frames::Channel;
use crate::samples::Reading;
use crate::samples::Timestamp;
use vstd::prelude::*;
use vstd::slice::slice_subrange;

verus! {

/// Two bytes of seven bits each as one number.
pub open spec fn packed2(low: u8, high: u8) -> u32 {
    (low as u32) | ((high as u32) << 7)
}

/// Three bytes of seven bits each as one number.
pub open spec fn packed3(low: u8, middle: u8, high: u8) -> u32 {
    (low as u32) | ((middle as u32) << 7) | ((high as u32) << 14)
}

/// Where no byte has its top bit set, the bytes are the digits of the number to base 128.
pub proof fn lemma_packed_digits(low: u8, middle: u8, high: u8)
    requires
        low < 128,
        middle < 128,
        high < 128,
    ensures
        packed2(low, middle) == low + 128 * middle,
        packed3(low, middle, high) == low + 128 * middle + 16384 * high,
{
    assert(low < 128 && middle < 128 ==> ((low as u32) | ((middle as u32) << 7)) == low as u32 + 128
        * (middle as u32)) by (bit_vector);
    assert(low < 128 && middle < 128 && high < 128 ==> ((low as u32) | ((middle as u32) << 7) | ((
    high as u32) << 14)) == low as u32 + 128 * (middle as u32) + 16384 * (high as u32))
        by (bit_vector);
}

/// However the bytes are filled, three of them stay below 2^22.
pub proof fn lemma_packed_bound(low: u8, middle: u8, high: u8)
    ensures
        packed2(low, middle) < 0x8000,
        packed3(low, middle, high) < 0x40_0000,
{
    assert(((low as u32) | ((middle as u32) << 7)) < 0x8000) by (bit_vector);
    assert(((low as u32) | ((middle as u32) << 7) | ((high as u32) << 14)) < 0x40_0000)
        by (bit_vector);
}

fn pack2(low: u8, high: u8) -> (value: u32)
    ensures
        value == packed2(low, high),
{
    (low as u32) | ((high as u32) << 7)
}

fn pack3(low: u8, middle: u8, high: u8) -> (value: u32)
    ensures
        value == packed3(low, middle, high),
{
    (low as u32) | ((middle as u32) << 7) | ((high as u32) << 14)
}

/// The frame carries a valid checksum and the given code.
pub open spec fn is_response(frame: Seq<u8>, code: CommandCode) -> bool {
    checksum_ok(frame) && frame.len() >= 1 && frame[0] == code.raw()
}

/// Whether the frame carries a valid checksum and the given code.
pub fn has_code(frame: &[u8], code: CommandCode) -> (yes: bool)
    ensures
        yes == is_response(frame@, code),
{
    is_checksum_ok(frame) && frame.len() >= 1 && frame[0] == u8::from(code)
}

/// Whether the frame is the answer that the init sequence is owed.
pub fn is_init_reply(frame: &[u8]) -> (yes: bool)
    ensures
        yes == (frame@ == init_reply()),
{
    let yes = frame.len() == 2 && frame[0] == 0xf0 && frame[1] == 0x70;
    proof {
        if yes {
            assert(frame@ =~= init_reply());
        }
    }
    yes
}

/// The date and time in six bytes of a frame, from `at` on: year after 2000,
/// month, day, hour, minute, second.
pub open spec fn timestamp_at(frame: Seq<u8>, at: int) -> Timestamp {
    Timestamp {
        year: (frame[at] + 2000) as i32,
        month: frame[at + 1] as u32,
        day: frame[at + 2] as u32,
        hour: frame[at + 3] as u32,
        minute: frame[at + 4] as u32,
        second: frame[at + 5] as u32,
    }
}

fn read_timestamp(frame: &[u8], at: usize) -> (timestamp: Timestamp)
    requires
        at + 6 <= frame@.len(),
    ensures
        timestamp == timestamp_at(frame@, at as int),
{
    Timestamp {
        year: frame[at] as i32 + 2000,
        month: frame[at + 1] as u32,
        day: frame[at + 2] as u32,
        hour: frame[at + 3] as u32,
        minute: frame[at + 4] as u32,
        second: frame[at + 5] as u32,
    }
}

/// What the device says of a recorded file before its samples: when it
/// begins and how many samples each channel holds.
#[derive(Clone, Copy, Debug, PartialEq, Eq, Structural)]
pub struct FileHeader {
    pub start: Timestamp,
    pub length: u32,
}

/// The current readings in a frame of the live stream.
pub open spec fn live_reading_of(frame: Seq<u8>) -> Option<Reading> {
    if is_response(frame, CommandCode::LiveDataResponse) && frame.len() >= 8 && frame[1] == 0x01 {
        Some(Reading { pulse: frame[3], spo2: frame[4] })
    } else {
        None
    }
}

/// Reads the current readings from a frame of the live stream.
pub fn parse_live_reading(frame: &[u8]) -> (reading: Option<Reading>)
    ensures
        reading == live_reading_of(frame@),
{
    if !has_code(frame, CommandCode::LiveDataResponse) {
        // ignore it
        return None;
    }
    if frame.len() < 2 {
        // too short for our purposes
        return None;
    }
    if frame[1] != 0x01 {
        // not the current readings
        return None;
    }
    if frame.len() < 8 {
        // not the correct length for current readings
        return None;
    }
    // it's the current readings!
    Some(Reading { pulse: frame[3], spo2: frame[4] })
}

/// The recording mode in the answer to a query for it.
pub open spec fn recording_mode_of(frame: Seq<u8>) -> Option<RecordingMode> {
    if is_response(frame, CommandCode::ReadPropertyResponse) && frame.len() == 5 && frame[1]
        == PropertyCode::RecordingMode.raw() {
        Some(RecordingMode::of_raw(packed2(frame[2], frame[3]) as u16))
    } else {
        None
    }
}

/// Reads the recording mode from the answer to a query for it.
pub fn parse_recording_mode(frame: &[u8]) -> (mode: Option<RecordingMode>)
    ensures
        mode == recording_mode_of(frame@),
{
    if !has_code(frame, CommandCode::ReadPropertyResponse) {
        return None;
    }
    if frame.len() != 5 {
        return None;
    }
    if frame[1] != u8::from(PropertyCode::RecordingMode) {
        return None;
    }
    let rec_mode_code = pack2(frame[2], frame[3]);
    proof {
        lemma_packed_bound(frame@[2], frame@[3], 0);
    }
    Some(RecordingMode::from(rec_mode_code as u16))
}

/// The number of automatically recorded files in the answer to a query for
/// it: the device counts pulse and oxygen files apart, and a file needs both.
pub open spec fn file_count_of(frame: Seq<u8>) -> Option<u32> {
    if is_response(frame, CommandCode::GetAuxiliaryDataResponse) && frame.len() >= 6 {
        let pulse_count = packed2(frame[2], frame[3]);
        let spo2_count = packed2(frame[4], frame[5]);
        Some(
            if pulse_count <= spo2_count {
                pulse_count
            } else {
                spo2_count
            },
        )
    } else {
        None
    }
}

/// Reads the number of automatically recorded files from the answer to a query for it.
pub fn parse_file_count(frame: &[u8]) -> (count: Option<u32>)
    ensures
        count == file_count_of(frame@),
{
    if !has_code(frame, CommandCode::GetAuxiliaryDataResponse) {
        return None;
    }
    if frame.len() < 6 {
        return None;
    }
    // topmost bit is not set, so shift up by 7
    let pulse_count = pack2(frame[2], frame[3]);
    let spo2_count = pack2(frame[4], frame[5]);
    if pulse_count <= spo2_count {
        Some(pulse_count)
    } else {
        Some(spo2_count)
    }
}

/// The header of an automatically recorded file.
pub open spec fn auto_header_of(frame: Seq<u8>) -> Option<FileHeader> {
    if is_response(frame, CommandCode::AdvanceAndShowAutoRecordedFileHeaderResponse) && frame.len()
        >= 13 {
        Some(
            FileHeader {
                start: timestamp_at(frame, 4),
                length: packed3(frame[10], frame[11], frame[12]),
            },
        )
    } else {
        None
    }
}

/// Reads the header of an automatically recorded file.
pub fn parse_auto_header(frame: &[u8]) -> (header: Option<FileHeader>)
    ensures
        header == auto_header_of(frame@),
{
    if !has_code(frame, CommandCode::AdvanceAndShowAutoRecordedFileHeaderResponse) {
        return None;
    }
    if frame.len() < 13 {
        return None;
    }
    let start = read_timestamp(frame, 4);
    let length = pack3(frame[10], frame[11], frame[12]);
    Some(FileHeader { start, length })
}

/// The sign bitmap and the data bytes in a frame of an automatically recorded file.
pub open spec fn auto_data_of(frame: Seq<u8>) -> Option<(u32, Seq<u8>)> {
    if is_response(frame, CommandCode::ReadAutoRecordedFileResponse) && frame.len() == 30 {
        Some((packed3(frame[5], frame[6], frame[7]), frame.subrange(8, 29)))
    } else {
        None
    }
}

/// Reads the sign bitmap and the data bytes from a frame of an automatically recorded file.
pub fn parse_auto_data(frame: &[u8]) -> (parts: Option<(u32, &[u8])>)
    ensures
        match parts {
            Some((signs, data)) => auto_data_of(frame@) == Some((signs, data@)),
            None => auto_data_of(frame@) is None,
        },
{
    if !has_code(frame, CommandCode::ReadAutoRecordedFileResponse) {
        return None;
    }
    if frame.len() != 30 {
        return None;
    }
    // again, since the top bit may not be set except at the beginning of a command,
    // the sign bits for the top nibbles have been moved to the front
    let sign_bits = pack3(frame[5], frame[6], frame[7]);
    Some((sign_bits, slice_subrange(frame, 8, 29)))
}

/// The header of the manually recorded file. The device tells the year from
/// the third byte on, and the length as it is, not yet rounded.
pub open spec fn manual_header_of(frame: Seq<u8>) -> Option<FileHeader> {
    if is_response(frame, CommandCode::ManuallyRecordedFileMetadataResponse) && frame.len() == 14 {
        Some(
            FileHeader {
                start: timestamp_at(frame, 2),
                length: packed3(frame[10], frame[11], frame[12]),
            },
        )
    } else {
        None
    }
}

/// Reads the header of the manually recorded file.
pub fn parse_manual_header(frame: &[u8]) -> (header: Option<FileHeader>)
    ensures
        header == manual_header_of(frame@),
{
    if !has_code(frame, CommandCode::ManuallyRecordedFileMetadataResponse) {
        return None;
    }
    if frame.len() != 14 {
        return None;
    }
    let length = pack3(frame[10], frame[11], frame[12]);
    let start = read_timestamp(frame, 2);
    Some(FileHeader { start, length })
}

/// The parts of a frame of the manually recorded file: sign bitmap, seed and data bytes.
pub struct ManualData {
    pub signs: u32,
    pub seed: u8,
    pub data: Seq<u8>,
}

/// The parts of a frame of one channel of the manually recorded file.
pub open spec fn manual_data_of(frame: Seq<u8>, channel: Channel) -> Option<ManualData> {
    if is_response(frame, channel.manual_response()) && frame.len() == 20 {
        Some(
            ManualData {
                signs: packed2(frame[3], frame[4]),
                seed: frame[5],
                data: frame.subrange(6, 19),
            },
        )
    } else {
        None
    }
}

/// Reads the sign bitmap, the seed and the data bytes from a frame of one
/// channel of the manually recorded file.
pub fn parse_manual_data(frame: &[u8], channel: Channel) -> (parts: Option<(u32, u8, &[u8])>)
    ensures
        match parts {
            Some((signs, seed, data)) => manual_data_of(frame@, channel) == Some(
                ManualData { signs, seed, data: data@ },
            ),
            None => manual_data_of(frame@, channel) is None,
        },
{
    let code = match channel {
        Channel::Pulse => CommandCode::ReadPulseFromManuallyRecordedFileResponse,
        Channel::Oxygen => CommandCode::ReadOxygenFromManuallyRecordedFileResponse,
    };
    if !has_code(frame, code) {
        return None;
    }
    if frame.len() != 20 {
        return None;
    }
    // once more, the topmost bits have been "outsourced"
    let signs = pack2(frame[3], frame[4]);
    Some((signs, frame[5], slice_subrange(frame, 6, 19)))
}

/// The frame acknowledges that a property was written.
pub open spec fn is_set_property_reply(frame: Seq<u8>) -> bool {
    is_response(frame, CommandCode::SetPropertyResponse) && frame.len() >= 2
}

/// Whether the frame acknowledges that a property was written.
pub fn parse_set_property_reply(frame: &[u8]) -> (yes: bool)
    ensures
        yes == is_set_property_reply(frame@),
{
    has_code(frame, CommandCode::SetPropertyResponse) && frame.len() >= 2
}

} // verus!
