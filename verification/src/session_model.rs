//! The course of a session with the device, as a state machine on plain
//! values. The driver owns the transport. It performs the action that the
//! session names and reports back: with `resumed` once it has sent a frame
//! or taken readings or samples, with `received` once it has read a report.
//!
//! A session begins with the init sequence and its reply. It then serves
//! its goal in exchanges, one at a time: a request goes out, and reports are
//! read until a frame of the awaited kind has come. Frames of another kind
//! are passed over.

use crate::codes::CommandCode;
use crate::codes::PropertyCode;
use crate::codes::RecordingMode;
use crate::decode::capped;
use crate::decode::manual_samples;
use crate::decode::AutoState;
use crate::device_id::device_id_field;
use crate::device_id::DeviceIdError;
use crate::frames::command_frame;
use crate::frames::init_reply;
use crate::frames::init_sequence;
use crate::frames::read_auto_file_payload;
use crate::frames::set_device_id_payload;
use crate::frames::Channel;
use crate::queue::QueueState;
use crate::responses::auto_data_of;
use crate::responses::auto_header_of;
use crate::responses::file_count_of;
use crate::responses::is_set_property_reply;
use crate::responses::live_reading_of;
use crate::responses::manual_data_of;
use crate::responses::manual_header_of;
use crate::responses::recording_mode_of;
use crate::responses::FileHeader;
use crate::samples::time_after;
use crate::samples::timed_samples_of;
use crate::samples::Reading;
use crate::samples::Sample;
use crate::samples::Timestamp;
use vstd::prelude::*;

verus! {

/// The number of receive cycles of the live stream after which a keep-alive frame is due.
pub const KEEP_ALIVE_CYCLES: u8 = 8;

/// The number of samples in one frame of the manually recorded file. The
/// device sends whole frames only, so that many samples of the file count.
pub const MANUAL_CHUNK: u32 = 27;

/// Why a session ended without reaching its goal.
#[derive(Clone, Copy, Debug, PartialEq, Eq, Structural)]
pub enum SessionError {
    /// The reply to the init sequence was not the expected one.
    WrongInitResponse,
    /// File 0 was asked for; files count from 1.
    FileIndexZero,
    /// The device names a recording mode that is neither automatic nor manual.
    UnknownRecordingMode(u16),
    /// Automatic recording is active and no file is recorded.
    NoFilesRecorded,
    /// Automatic recording is active and the device holds fewer files than the index asks for.
    NoSuchFile { index: usize, count: u32 },
    /// The file's number does not fit the byte that a read request has for it.
    FileNumberTooLarge,
    /// Manual recording is active, where the only file has index 1.
    ManualFileIndexNotOne,
    /// Manual recording is active and no file is recorded.
    NoManualFile,
    /// A file's header gives a start that is no date and time, or the time
    /// of a sample lies beyond the calendar.
    MalformedTimestamp,
    /// The device ID is longer than seven bytes.
    DeviceIdTooLong,
    /// The device ID holds a byte above 0x7F.
    DeviceIdNotAscii,
}

/// What a session is for.
pub enum GoalModel {
    LiveData,
    ReadFile(usize),
    SetDeviceId(Seq<u8>),
}

/// Where a session stands.
#[derive(Clone, Copy, Debug, PartialEq, Eq, Structural)]
pub enum Stage {
    /// Nothing has been sent.
    Start,
    /// The init sequence is out, its reply awaited.
    AwaitInit,
    /// Live streaming is on; the next report is awaited.
    LiveAwait,
    /// The readings of a report have been handed out; the cycle is to be counted.
    LiveTally,
    /// The recording mode is awaited.
    AwaitMode,
    /// The number of automatically recorded files is awaited.
    AwaitCount,
    /// The header of the automatically recorded file with this number is awaited.
    AwaitHeader(usize),
    /// A channel of an automatically recorded file is being read.
    AutoData(Channel),
    /// The header of the manually recorded file is awaited.
    AwaitManualHeader,
    /// A channel of the manually recorded file is being read.
    ManualData(Channel),
    /// The answer to a property write is awaited.
    AwaitAck,
    /// The goal is reached.
    Done,
    /// The session failed; it stays failed.
    Failed(SessionError),
}

/// What the driver is to do next.
pub enum ActionModel {
    /// Send this frame, then resume.
    Send(Seq<u8>),
    /// Read one report and hand it over.
    Receive,
    /// These readings came with the last report; stamp them, then resume.
    Readings(Seq<Reading>),
    /// These are the samples of the file; then resume.
    File(Seq<Sample>),
    /// Nothing is left to do.
    Finished,
    /// The session failed and nothing more is to be sent.
    Failed(SessionError),
}

/// The kinds of frame that end an exchange with their first arrival.
#[derive(Clone, Copy, Debug, PartialEq, Eq, Structural)]
pub enum Awaited {
    FileCount,
    AutoHeader,
    SetPropertyReply,
}

/// The frame is of the awaited kind.
pub open spec fn is_awaited(awaited: Awaited, frame: Seq<u8>) -> bool {
    match awaited {
        Awaited::FileCount => file_count_of(frame) is Some,
        Awaited::AutoHeader => auto_header_of(frame) is Some,
        Awaited::SetPropertyReply => is_set_property_reply(frame),
    }
}

/// The first frame of the awaited kind and the frames behind it. The frames
/// before it are passed over; where there is none, all are.
pub open spec fn first_awaited(awaited: Awaited, frames: Seq<Seq<u8>>) -> (Option<Seq<u8>>, Seq<
    Seq<u8>,
>)
    decreases frames.len(),
{
    if frames.len() == 0 {
        (None, frames)
    } else if is_awaited(awaited, frames[0]) {
        (Some(frames[0]), frames.skip(1))
    } else {
        first_awaited(awaited, frames.skip(1))
    }
}

/// The readings in the frames of the live stream among `frames`, in order.
pub open spec fn readings_in(frames: Seq<Seq<u8>>) -> Seq<Reading>
    decreases frames.len(),
{
    if frames.len() == 0 {
        Seq::empty()
    } else {
        match live_reading_of(frames[0]) {
            Some(reading) => seq![reading] + readings_in(frames.skip(1)),
            None => readings_in(frames.skip(1)),
        }
    }
}

/// The recording mode that the last frame to name one names, or `found`
/// where no frame names one.
pub open spec fn last_mode(found: Option<RecordingMode>, frames: Seq<Seq<u8>>) -> Option<
    RecordingMode,
>
    decreases frames.len(),
{
    if frames.len() == 0 {
        found
    } else {
        match recording_mode_of(frames[0]) {
            Some(mode) => last_mode(Some(mode), frames.skip(1)),
            None => last_mode(found, frames.skip(1)),
        }
    }
}

/// The header of the manually recorded file among `frames` and the frames
/// that are left: the last header, unless a header before it tells of an
/// empty file, at which the search ends.
pub open spec fn manual_header_in(found: Option<FileHeader>, frames: Seq<Seq<u8>>) -> (
    Option<FileHeader>,
    Seq<Seq<u8>>,
)
    decreases frames.len(),
{
    if frames.len() == 0 {
        (found, frames)
    } else {
        match manual_header_of(frames[0]) {
            Some(header) => if header.length == 0 {
                (Some(header), frames.skip(1))
            } else {
                manual_header_in(Some(header), frames.skip(1))
            },
            None => manual_header_in(found, frames.skip(1)),
        }
    }
}

/// The decoder after the frames of an automatically recorded file among `frames`.
pub open spec fn auto_decoded(decoder: AutoState, frames: Seq<Seq<u8>>) -> AutoState
    decreases frames.len(),
{
    if frames.len() == 0 {
        decoder
    } else {
        match auto_data_of(frames[0]) {
            Some((signs, data)) => auto_decoded(decoder.consume(data, signs), frames.skip(1)),
            None => auto_decoded(decoder, frames.skip(1)),
        }
    }
}

/// The samples after the frames of one channel of the manually recorded file among `frames`.
pub open spec fn manual_decoded(
    values: Seq<u8>,
    target: nat,
    channel: Channel,
    frames: Seq<Seq<u8>>,
) -> Seq<u8>
    decreases frames.len(),
{
    if frames.len() == 0 {
        values
    } else {
        match manual_data_of(frames[0], channel) {
            Some(parts) => manual_decoded(
                capped(values + manual_samples(parts.seed, parts.data, parts.signs), target),
                target,
                channel,
                frames.skip(1),
            ),
            None => manual_decoded(values, target, channel, frames.skip(1)),
        }
    }
}

/// A file that is handed out begins at the start that its header tells:
/// its first sample, if it has one, carries that time.
pub open spec fn begins_at_start(state: SessionState, action: ActionModel) -> bool {
    action matches ActionModel::File(samples) ==> samples.len() > 0 ==> samples[0].time
        == state.header.start
}

/// All that a session holds.
pub struct SessionState {
    /// The reassembler.
    pub queue: QueueState,
    pub goal: GoalModel,
    pub stage: Stage,
    /// The receive cycles of the live stream since the last keep-alive frame.
    pub cycles: u8,
    /// The index of the file to read.
    pub index: usize,
    /// The number of the file in read requests.
    pub file_number: u8,
    /// The header of the file that is being read.
    pub header: FileHeader,
    /// The decoder of the channel that is being read from an automatically recorded file.
    pub decoder: AutoState,
    /// The samples of the channel that is being read from the manually recorded file.
    pub values: Seq<u8>,
    /// The samples of the channel that was read first.
    pub first: Seq<u8>,
}

impl SessionState {
    /// A session before its first step.
    pub open spec fn initial(goal: GoalModel) -> SessionState {
        SessionState {
            queue: QueueState::empty(),
            goal,
            stage: Stage::Start,
            cycles: 0,
            index: 0,
            file_number: 0,
            header: FileHeader {
                start: Timestamp { year: 0, month: 0, day: 0, hour: 0, minute: 0, second: 0 },
                length: 0,
            },
            decoder: AutoState::start(0),
            values: Seq::empty(),
            first: Seq::empty(),
        }
    }

    pub open spec fn with_frames(self, frames: Seq<Seq<u8>>) -> SessionState {
        SessionState { queue: QueueState { frames, pending: self.queue.pending }, ..self }
    }

    /// The queue has been emptied of its frames.
    pub open spec fn drained(self) -> SessionState {
        self.with_frames(Seq::empty())
    }

    pub open spec fn failing(self, error: SessionError) -> (SessionState, ActionModel) {
        (SessionState { stage: Stage::Failed(error), ..self }, ActionModel::Failed(error))
    }

    pub open spec fn sending(self, stage: Stage, frame: Seq<u8>) -> (SessionState, ActionModel) {
        (SessionState { stage, ..self }, ActionModel::Send(frame))
    }

    pub open spec fn waiting(self) -> (SessionState, ActionModel) {
        (self, ActionModel::Receive)
    }

    /// The reply to the init sequence must be the first frame in the queue.
    /// With it the goal is taken up; with anything else, or nothing, the
    /// session fails.
    pub open spec fn init_checked(self) -> (SessionState, ActionModel) {
        let frames = self.queue.frames;
        if frames.len() == 0 {
            self.failing(SessionError::WrongInitResponse)
        } else if frames[0] == init_reply() {
            self.with_frames(frames.skip(1)).begun()
        } else {
            self.with_frames(frames.skip(1)).failing(SessionError::WrongInitResponse)
        }
    }

    /// The first request for the goal, or the reason why there is none.
    pub open spec fn begun(self) -> (SessionState, ActionModel) {
        match self.goal {
            GoalModel::LiveData => (SessionState { cycles: 0, ..self }).sending(
                Stage::LiveAwait,
                command_frame(CommandCode::LiveDataCommand, seq![0x00]),
            ),
            GoalModel::ReadFile(index) => if index == 0 {
                self.failing(SessionError::FileIndexZero)
            } else {
                (SessionState { index, ..self }).sending(
                    Stage::AwaitMode,
                    command_frame(
                        CommandCode::ReadPropertyCommand,
                        seq![PropertyCode::RecordingMode.raw()],
                    ),
                )
            },
            GoalModel::SetDeviceId(id) => match device_id_field(id) {
                Ok(field) => self.sending(
                    Stage::AwaitAck,
                    command_frame(CommandCode::SetPropertyCommand, set_device_id_payload(field)),
                ),
                Err(DeviceIdError::TooLong) => self.failing(SessionError::DeviceIdTooLong),
                Err(DeviceIdError::NotAscii) => self.failing(SessionError::DeviceIdNotAscii),
            },
        }
    }

    /// All frames of a report of the live stream are read; their readings go to the driver.
    pub open spec fn live_drained(self) -> (SessionState, ActionModel) {
        (
            SessionState { stage: Stage::LiveTally, ..self.drained() },
            ActionModel::Readings(readings_in(self.queue.frames)),
        )
    }

    /// A receive cycle of the live stream is over. Every eighth is followed
    /// by a keep-alive frame.
    pub open spec fn tallied(self) -> (SessionState, ActionModel) {
        if self.cycles >= KEEP_ALIVE_CYCLES - 1 {
            (SessionState { cycles: 0, ..self }).sending(
                Stage::LiveAwait,
                command_frame(CommandCode::KeepAliveCommand, Seq::empty()),
            )
        } else {
            (
                SessionState { cycles: (self.cycles + 1) as u8, stage: Stage::LiveAwait, ..self },
                ActionModel::Receive,
            )
        }
    }

    /// All frames are read; the last one that names the recording mode decides.
    pub open spec fn mode_drained(self) -> (SessionState, ActionModel) {
        let after = self.drained();
        match last_mode(None, self.queue.frames) {
            None => after.waiting(),
            Some(RecordingMode::Automatic) => after.sending(
                Stage::AwaitCount,
                command_frame(
                    CommandCode::GetAuxiliaryDataCommand,
                    seq![PropertyCode::AutoRecordedFiles.raw()],
                ),
            ),
            Some(RecordingMode::Manual) => if self.index != 1 {
                after.failing(SessionError::ManualFileIndexNotOne)
            } else {
                after.sending(
                    Stage::AwaitManualHeader,
                    command_frame(CommandCode::ManuallyRecordedFileMetadataCommand, seq![0x00]),
                )
            },
            Some(RecordingMode::Other(raw)) => after.failing(
                SessionError::UnknownRecordingMode(raw),
            ),
        }
    }

    pub open spec fn advancing(self, number: usize) -> (SessionState, ActionModel) {
        self.sending(
            Stage::AwaitHeader(number),
            command_frame(CommandCode::AdvanceAndShowAutoRecordedFileHeaderCommand, seq![0x01]),
        )
    }

    /// Frames are read up to the first that tells the number of files. The
    /// file asked for must be among them; its header is reached from the
    /// first file on.
    pub open spec fn count_drained(self) -> (SessionState, ActionModel) {
        let (found, rest) = first_awaited(Awaited::FileCount, self.queue.frames);
        let after = self.with_frames(rest);
        match found {
            None => after.waiting(),
            Some(frame) => {
                let count = file_count_of(frame)->0;
                if count == 0 {
                    after.failing(SessionError::NoFilesRecorded)
                } else if self.index > count {
                    after.failing(SessionError::NoSuchFile { index: self.index, count })
                } else {
                    after.advancing(1)
                }
            },
        }
    }

    pub open spec fn reading_auto(self, channel: Channel) -> (SessionState, ActionModel) {
        (SessionState { decoder: AutoState::start(self.header.length as nat), ..self }).sending(
            Stage::AutoData(channel),
            command_frame(
                CommandCode::ReadAutoRecordedFileCommand,
                read_auto_file_payload(channel, self.file_number),
            ),
        )
    }

    /// Frames are read up to the first header. Its start must be a date and
    /// time. Before the file asked for the next header is asked for; at it
    /// the oxygen channel is read first.
    pub open spec fn header_drained(self, number: usize) -> (SessionState, ActionModel) {
        let (found, rest) = first_awaited(Awaited::AutoHeader, self.queue.frames);
        let after = self.with_frames(rest);
        match found {
            None => after.waiting(),
            Some(frame) => {
                let header = auto_header_of(frame)->0;
                if time_after(header.start, 0) is None {
                    after.failing(SessionError::MalformedTimestamp)
                } else if number < self.index {
                    after.advancing((number + 1) as usize)
                } else if self.index > u8::MAX {
                    after.failing(SessionError::FileNumberTooLarge)
                } else {
                    (SessionState {
                        header,
                        file_number: self.index as u8,
                        first: Seq::empty(),
                        ..after
                    }).reading_auto(Channel::Oxygen)
                }
            },
        }
    }

    /// The samples of both channels go to the driver, each pair with its time.
    pub open spec fn finishing(self, pulse: Seq<u8>, spo2: Seq<u8>) -> (SessionState, ActionModel) {
        match timed_samples_of(self.header.start, pulse, spo2) {
            Some(samples) => (SessionState { stage: Stage::Done, ..self }, ActionModel::File(samples)),
            None => self.failing(SessionError::MalformedTimestamp),
        }
    }

    /// A channel of an automatically recorded file is read until the decoder
    /// has all its samples. Then the pulse channel follows the oxygen
    /// channel, and the file follows the pulse channel.
    pub open spec fn auto_progress(self, channel: Channel) -> (SessionState, ActionModel) {
        if !self.decoder.complete() {
            self.waiting()
        } else {
            match channel {
                Channel::Oxygen => (SessionState {
                    first: self.decoder.samples,
                    ..self
                }).reading_auto(Channel::Pulse),
                Channel::Pulse => self.finishing(self.decoder.samples, self.first),
            }
        }
    }

    /// All frames are read and those of the file decoded.
    pub open spec fn auto_drained(self, channel: Channel) -> (SessionState, ActionModel) {
        (SessionState {
            decoder: auto_decoded(self.decoder, self.queue.frames),
            ..self.drained()
        }).auto_progress(channel)
    }

    pub open spec fn reading_manual(self, channel: Channel) -> (SessionState, ActionModel) {
        (SessionState { values: Seq::empty(), ..self }).sending(
            Stage::ManualData(channel),
            command_frame(channel.manual_command(), seq![0x00, 0x00, 0x00]),
        )
    }

    /// Frames are read for the header of the manually recorded file. The
    /// file must hold samples and begin at a date and time. Of its samples
    /// as many count as fill whole frames. The pulse channel is read first.
    pub open spec fn manual_header_drained(self) -> (SessionState, ActionModel) {
        let (found, rest) = manual_header_in(None, self.queue.frames);
        let after = self.with_frames(rest);
        match found {
            None => after.waiting(),
            Some(header) => {
                if header.length == 0 {
                    after.failing(SessionError::NoManualFile)
                } else if time_after(header.start, 0) is None {
                    after.failing(SessionError::MalformedTimestamp)
                } else {
                    (SessionState {
                        header: FileHeader {
                            start: header.start,
                            length: (header.length / MANUAL_CHUNK * MANUAL_CHUNK) as u32,
                        },
                        first: Seq::empty(),
                        ..after
                    }).reading_manual(Channel::Pulse)
                }
            },
        }
    }

    /// A channel of the manually recorded file is read until it has all its
    /// samples. Then the oxygen channel follows the pulse channel, and the
    /// file follows the oxygen channel.
    pub open spec fn manual_progress(self, channel: Channel) -> (SessionState, ActionModel) {
        if self.values.len() < self.header.length {
            self.waiting()
        } else {
            match channel {
                Channel::Pulse => (SessionState { first: self.values, ..self }).reading_manual(
                    Channel::Oxygen,
                ),
                Channel::Oxygen => self.finishing(self.first, self.values),
            }
        }
    }

    /// All frames are read and those of the channel decoded.
    pub open spec fn manual_drained(self, channel: Channel) -> (SessionState, ActionModel) {
        (SessionState {
            values: manual_decoded(
                self.values,
                self.header.length as nat,
                channel,
                self.queue.frames,
            ),
            ..self.drained()
        }).manual_progress(channel)
    }

    /// Frames are read up to the first that acknowledges the write.
    pub open spec fn ack_drained(self) -> (SessionState, ActionModel) {
        let (found, rest) = first_awaited(Awaited::SetPropertyReply, self.queue.frames);
        let after = self.with_frames(rest);
        match found {
            None => after.waiting(),
            Some(_) => (SessionState { stage: Stage::Done, ..after }, ActionModel::Finished),
        }
    }

    /// The session after the driver has done what was asked of it, other
    /// than to receive, and what it is to do next.
    pub open spec fn resumed(self) -> (SessionState, ActionModel) {
        match self.stage {
            Stage::Start => self.sending(Stage::AwaitInit, init_sequence()),
            Stage::LiveTally => self.tallied(),
            Stage::AutoData(channel) => self.auto_progress(channel),
            Stage::ManualData(channel) => self.manual_progress(channel),
            Stage::Done => (self, ActionModel::Finished),
            Stage::Failed(error) => (self, ActionModel::Failed(error)),
            _ => self.waiting(),
        }
    }

    /// The session after the driver has received `chunk`, and what it is to
    /// do next. The chunk goes through the reassembler first.
    pub open spec fn received(self, chunk: Seq<u8>) -> (SessionState, ActionModel) {
        let fed = SessionState { queue: self.queue.fed(chunk), ..self };
        match self.stage {
            Stage::AwaitInit => fed.init_checked(),
            Stage::LiveAwait => fed.live_drained(),
            Stage::AwaitMode => fed.mode_drained(),
            Stage::AwaitCount => fed.count_drained(),
            Stage::AwaitHeader(number) => fed.header_drained(number),
            Stage::AutoData(channel) => fed.auto_drained(channel),
            Stage::AwaitManualHeader => fed.manual_header_drained(),
            Stage::ManualData(channel) => fed.manual_drained(channel),
            Stage::AwaitAck => fed.ack_drained(),
            _ => fed.resumed(),
        }
    }
}

} // verus!
