//! The frames that the computer sends: a command code, a payload and the
//! checksum of both; and the transport report that carries a frame.

use crate::checksum::calculate_checksum;
use crate::checksum::checksum_of;
use crate::checksum::checksum_ok;
use crate::checksum::lemma_appended_checksum_verifies;
use crate::codes::CommandCode;
use crate::codes::PropertyCode;
use vstd::prelude::*;
use vstd::slice::slice_to_vec;

verus! {

/// The size of a transport report, its report ID included.
pub const REPORT_SIZE: usize = 64;

/// The bytes sent from computer to oximeter to establish communication.
pub open spec fn init_sequence() -> Seq<u8> {
    seq![
        0x7d, 0x81, 0xa7, 0x80, 0x80, 0x80, 0x80, 0x80, 0x80,
        0x7d, 0x81, 0xa2, 0x80, 0x80, 0x80, 0x80, 0x80, 0x80,
    ]
}

/// The bytes that answer the init sequence.
pub open spec fn init_reply() -> Seq<u8> {
    seq![0xf0, 0x70]
}

/// Bytestring sent from computer to oximeter to establish communication.
pub const INIT_BYTESTRING: [u8; 18] = [
    0x7d, 0x81, 0xa7, 0x80, 0x80, 0x80, 0x80, 0x80, 0x80,
    0x7d, 0x81, 0xa2, 0x80, 0x80, 0x80, 0x80, 0x80, 0x80,
];

/// The init sequence as a frame to send.
pub fn init_bytestring() -> (bytes: Vec<u8>)
    ensures
        bytes@ == init_sequence(),
{
    let bytes = slice_to_vec(INIT_BYTESTRING.as_slice());
    proof {
        assert(bytes@ =~= init_sequence());
    }
    bytes
}

/// `body` with its checksum behind it.
pub open spec fn framed(body: Seq<u8>) -> Seq<u8> {
    body.push(checksum_of(body))
}

/// The frame of a command: its code, its payload and the checksum of both.
pub open spec fn command_frame(code: CommandCode, payload: Seq<u8>) -> Seq<u8> {
    framed(seq![code.raw()] + payload)
}

/// Every command frame carries a valid checksum.
pub proof fn lemma_command_frame_verifies(code: CommandCode, payload: Seq<u8>)
    ensures
        checksum_ok(command_frame(code, payload)),
        command_frame(code, payload).len() == payload.len() + 2,
        command_frame(code, payload)[0] == code.raw(),
{
    lemma_appended_checksum_verifies(seq![code.raw()] + payload);
}

/// Builds the frame of a command from its code and payload.
pub fn build_command(code: CommandCode, payload: &[u8]) -> (frame: Vec<u8>)
    ensures
        frame@ == command_frame(code, payload@),
{
    let mut frame: Vec<u8> = Vec::new();
    frame.push(u8::from(code));
    frame.extend_from_slice(payload);
    proof {
        assert(frame@ =~= seq![code.raw()] + payload@);
    }
    let checksum = calculate_checksum(frame.as_slice());
    frame.push(checksum);
    frame
}

/// The channel of a recorded file: each file holds one sequence of pulse
/// rates and one of oxygen saturations.
#[derive(Clone, Copy, Debug, PartialEq, Eq, Structural)]
pub enum Channel {
    Pulse,
    Oxygen,
}

impl Channel {
    /// The number by which a read request for an automatically recorded file names the channel.
    pub open spec fn auto_mode(self) -> u8 {
        match self {
            Channel::Oxygen => 1,
            Channel::Pulse => 2,
        }
    }

    /// The command that reads this channel of the manually recorded file.
    pub open spec fn manual_command(self) -> CommandCode {
        match self {
            Channel::Pulse => CommandCode::ReadPulseFromManuallyRecordedFileCommand,
            Channel::Oxygen => CommandCode::ReadOxygenFromManuallyRecordedFileCommand,
        }
    }

    /// The response that carries this channel of the manually recorded file.
    pub open spec fn manual_response(self) -> CommandCode {
        match self {
            Channel::Pulse => CommandCode::ReadPulseFromManuallyRecordedFileResponse,
            Channel::Oxygen => CommandCode::ReadOxygenFromManuallyRecordedFileResponse,
        }
    }
}

/// The request that switches on live streaming, curve included.
pub fn live_data_request() -> (frame: Vec<u8>)
    ensures
        frame@ == command_frame(CommandCode::LiveDataCommand, seq![0x00]),
{
    let payload: [u8; 1] = [0x00];
    let frame = build_command(CommandCode::LiveDataCommand, payload.as_slice());
    proof {
        assert(payload@ =~= seq![0x00u8]);
    }
    frame
}

/// The frame that keeps a live session from timing out.
pub fn keep_alive_request() -> (frame: Vec<u8>)
    ensures
        frame@ == command_frame(CommandCode::KeepAliveCommand, Seq::empty()),
{
    let payload: [u8; 0] = [];
    let frame = build_command(CommandCode::KeepAliveCommand, payload.as_slice());
    proof {
        assert(payload@ =~= Seq::<u8>::empty());
    }
    frame
}

/// The request for the value of a property.
pub fn read_property_request(property: PropertyCode) -> (frame: Vec<u8>)
    ensures
        frame@ == command_frame(CommandCode::ReadPropertyCommand, seq![property.raw()]),
{
    let payload: [u8; 1] = [u8::from(property)];
    let frame = build_command(CommandCode::ReadPropertyCommand, payload.as_slice());
    proof {
        assert(payload@ =~= seq![property.raw()]);
    }
    frame
}

/// The request for the number of automatically recorded files.
pub fn file_count_request() -> (frame: Vec<u8>)
    ensures
        frame@ == command_frame(
            CommandCode::GetAuxiliaryDataCommand,
            seq![PropertyCode::AutoRecordedFiles.raw()],
        ),
{
    let payload: [u8; 1] = [u8::from(PropertyCode::AutoRecordedFiles)];
    let frame = build_command(CommandCode::GetAuxiliaryDataCommand, payload.as_slice());
    proof {
        assert(payload@ =~= seq![PropertyCode::AutoRecordedFiles.raw()]);
    }
    frame
}

/// The request that moves to the next automatically recorded file and shows its header.
pub fn advance_header_request() -> (frame: Vec<u8>)
    ensures
        frame@ == command_frame(
            CommandCode::AdvanceAndShowAutoRecordedFileHeaderCommand,
            seq![0x01],
        ),
{
    // advance by 1
    let payload: [u8; 1] = [0x01];
    let frame = build_command(
        CommandCode::AdvanceAndShowAutoRecordedFileHeaderCommand,
        payload.as_slice(),
    );
    proof {
        assert(payload@ =~= seq![0x01u8]);
    }
    frame
}

/// The payload of the request that reads one channel of an automatically recorded file.
pub open spec fn read_auto_file_payload(channel: Channel, file_number: u8) -> Seq<u8> {
    seq![0x04, channel.auto_mode(), 0x01, file_number, 0x00, 0x00, 0x00]
}

/// The request that reads one channel of the automatically recorded file with the given number.
pub fn read_auto_file_request(channel: Channel, file_number: u8) -> (frame: Vec<u8>)
    ensures
        frame@ == command_frame(
            CommandCode::ReadAutoRecordedFileCommand,
            read_auto_file_payload(channel, file_number),
        ),
{
    let mode: u8 = match channel {
        Channel::Oxygen => 1,
        Channel::Pulse => 2,
    };
    // 0x04 and 0x01 are constants of unknown meaning
    let payload: [u8; 7] = [0x04, mode, 0x01, file_number, 0x00, 0x00, 0x00];
    let frame = build_command(CommandCode::ReadAutoRecordedFileCommand, payload.as_slice());
    proof {
        assert(payload@ =~= read_auto_file_payload(channel, file_number));
    }
    frame
}

/// The request for the metadata of the manually recorded file.
pub fn manual_metadata_request() -> (frame: Vec<u8>)
    ensures
        frame@ == command_frame(
            CommandCode::ManuallyRecordedFileMetadataCommand,
            seq![0x00],
        ),
{
    // there is only one file
    let payload: [u8; 1] = [0x00];
    let frame = build_command(
        CommandCode::ManuallyRecordedFileMetadataCommand,
        payload.as_slice(),
    );
    proof {
        assert(payload@ =~= seq![0x00u8]);
    }
    frame
}

/// The request that reads one channel of the manually recorded file.
pub fn read_manual_file_request(channel: Channel) -> (frame: Vec<u8>)
    ensures
        frame@ == command_frame(channel.manual_command(), seq![0x00, 0x00, 0x00]),
{
    let code = match channel {
        Channel::Pulse => CommandCode::ReadPulseFromManuallyRecordedFileCommand,
        Channel::Oxygen => CommandCode::ReadOxygenFromManuallyRecordedFileCommand,
    };
    let payload: [u8; 3] = [0x00, 0x00, 0x00];
    let frame = build_command(code, payload.as_slice());
    proof {
        assert(payload@ =~= seq![0x00u8, 0x00u8, 0x00u8]);
    }
    frame
}

/// The payload of the request that writes the device ID: the property code and the seven bytes.
pub open spec fn set_device_id_payload(field: Seq<u8>) -> Seq<u8> {
    seq![PropertyCode::DeviceId.raw()] + field
}

/// The request that writes the device ID, given as its field of seven bytes.
pub fn set_device_id_request(field: &[u8]) -> (frame: Vec<u8>)
    ensures
        frame@ == command_frame(CommandCode::SetPropertyCommand, set_device_id_payload(field@)),
{
    let mut payload: Vec<u8> = Vec::new();
    payload.push(u8::from(PropertyCode::DeviceId));
    payload.extend_from_slice(field);
    proof {
        assert(payload@ =~= set_device_id_payload(field@));
    }
    build_command(CommandCode::SetPropertyCommand, payload.as_slice())
}

/// The report that carries `data` to the device: the report ID 0x00, the
/// data, and zero bytes up to the size of a report where the data is shorter.
pub open spec fn report_of(data: Seq<u8>) -> Seq<u8> {
    let head = seq![0x00u8] + data;
    if head.len() < REPORT_SIZE {
        head + Seq::new((REPORT_SIZE - head.len()) as nat, |i: int| 0x00u8)
    } else {
        head
    }
}

/// Lays out the report that carries `data` to the device.
pub fn outgoing_report(data: &[u8]) -> (report: Vec<u8>)
    ensures
        report@ == report_of(data@),
{
    let mut outgoing_data: Vec<u8> = Vec::with_capacity(REPORT_SIZE);
    // prefix with 0x00 report ID
    outgoing_data.push(0x00);
    outgoing_data.extend_from_slice(data);
    let ghost head = outgoing_data@;
    proof {
        assert(head =~= seq![0x00u8] + data@);
    }
    // pad out with zeroes
    while outgoing_data.len() < REPORT_SIZE
        invariant
            head.len() <= outgoing_data@.len(),
            head.len() < REPORT_SIZE ==> outgoing_data@.len() <= REPORT_SIZE,
            head.len() >= REPORT_SIZE ==> outgoing_data@.len() == head.len(),
            outgoing_data@ =~= head + Seq::new(
                (outgoing_data@.len() - head.len()) as nat,
                |i: int| 0x00u8,
            ),
        decreases REPORT_SIZE - outgoing_data@.len(),
    {
        outgoing_data.push(0x00);
    }
    proof {
        assert(outgoing_data@ =~= report_of(data@));
    }
    outgoing_data
}

} // verus!
