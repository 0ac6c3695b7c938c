//! A session with the device. The session decides, the driver acts: it asks
//! the session what to do, does it on the transport, and tells the session
//! what came of it. See [`crate::session_model`] for the course of a session.

use crate::codes::PropertyCode;
use crate::codes::RecordingMode;
use crate::decode::decode_manual;
use crate::decode::AutoDecoder;
use crate::device_id::encode_device_id_bytes;
use crate::device_id::DeviceIdError;
use crate::frames::advance_header_request;
use crate::frames::file_count_request;
use crate::frames::init_bytestring;
use crate::frames::keep_alive_request;
use crate::frames::live_data_request;
use crate::frames::manual_metadata_request;
use crate::frames::read_auto_file_request;
use crate::frames::read_manual_file_request;
use crate::frames::read_property_request;
use crate::frames::set_device_id_request;
use crate::frames::Channel;
use crate::queue::CommandQueue;
use crate::queue::QueueState;
use crate::responses::is_init_reply;
use crate::responses::parse_auto_data;
use crate::responses::parse_auto_header;
use crate::responses::parse_file_count;
use crate::responses::parse_live_reading;
use crate::responses::parse_manual_data;
use crate::responses::parse_manual_header;
use crate::responses::parse_recording_mode;
use crate::responses::parse_set_property_reply;
use crate::responses::FileHeader;
use crate::samples::is_valid_timestamp;
use crate::samples::timed_samples;
use crate::samples::Reading;
use crate::samples::Sample;
use crate::samples::Timestamp;
use crate::session_laws::is_sound;
use crate::session_laws::lemma_initial_is_sound;
use crate::session_laws::lemma_session_stays_sound;
use crate::session_laws::Event;
use crate::session_model::auto_decoded;
use crate::session_model::begins_at_start;
use crate::session_model::first_awaited;
use crate::session_model::is_awaited;
use crate::session_model::last_mode;
use crate::session_model::manual_decoded;
use crate::session_model::manual_header_in;
use crate::session_model::readings_in;
use crate::session_model::ActionModel;
use crate::session_model::Awaited;
use crate::session_model::GoalModel;
use crate::session_model::SessionError;
use crate::session_model::SessionState;
use crate::session_model::Stage;
use crate::session_model::KEEP_ALIVE_CYCLES;
use crate::session_model::MANUAL_CHUNK;
use vstd::prelude::*;
use vstd::slice::slice_to_vec;

verus! {

/// What a session is for.
#[derive(Clone, Debug, PartialEq, Eq)]
pub enum Goal {
    /// Stream the current readings until the driver stops.
    LiveData,
    /// Read the recorded file with this index; files count from 1.
    ReadFile(usize),
    /// Write this device ID.
    SetDeviceId(Vec<u8>),
}

impl View for Goal {
    type V = GoalModel;

    open spec fn view(&self) -> GoalModel {
        match self {
            Goal::LiveData => GoalModel::LiveData,
            Goal::ReadFile(index) => GoalModel::ReadFile(*index),
            Goal::SetDeviceId(id) => GoalModel::SetDeviceId(id@),
        }
    }
}

/// What the driver is to do next.
#[derive(Debug, PartialEq, Eq)]
pub enum Action {
    /// Send this frame, then resume.
    Send(Vec<u8>),
    /// Read one report and hand it over.
    Receive,
    /// These readings came with the last report; stamp them, then resume.
    Readings(Vec<Reading>),
    /// These are the samples of the file; then resume.
    File(Vec<Sample>),
    /// Nothing is left to do.
    Finished,
    /// The session failed and nothing more is to be sent.
    Failed(SessionError),
}

impl View for Action {
    type V = ActionModel;

    open spec fn view(&self) -> ActionModel {
        match self {
            Action::Send(frame) => ActionModel::Send(frame@),
            Action::Receive => ActionModel::Receive,
            Action::Readings(readings) => ActionModel::Readings(readings@),
            Action::File(samples) => ActionModel::File(samples@),
            Action::Finished => ActionModel::Finished,
            Action::Failed(error) => ActionModel::Failed(*error),
        }
    }
}

/// Whether the frame is of the awaited kind.
fn accepts(awaited: Awaited, frame: &[u8]) -> (yes: bool)
    ensures
        yes == is_awaited(awaited, frame@),
{
    match awaited {
        Awaited::FileCount => parse_file_count(frame).is_some(),
        Awaited::AutoHeader => parse_auto_header(frame).is_some(),
        Awaited::SetPropertyReply => parse_set_property_reply(frame),
    }
}

/// Takes frames from the queue up to the first of the awaited kind.
fn take_first_awaited(queue: &mut CommandQueue, awaited: Awaited) -> (found: Option<Vec<u8>>)
    ensures
        final(queue)@.pending == old(queue)@.pending,
        first_awaited(awaited, old(queue)@.frames) == (
            match found {
                Some(frame) => Some(frame@),
                None => None,
            },
            final(queue)@.frames,
        ),
        found matches Some(frame) ==> is_awaited(awaited, frame@),
{
    loop
        invariant
            queue@.pending == old(queue)@.pending,
            first_awaited(awaited, old(queue)@.frames) == first_awaited(awaited, queue@.frames),
        decreases queue@.frames.len(),
    {
        match queue.dequeue_command() {
            None => {
                return None;
            },
            Some(frame) => {
                if accepts(awaited, frame.as_slice()) {
                    return Some(frame);
                }
            },
        }
    }
}

/// Takes all frames from the queue and gives the readings of the live stream among them.
fn drain_readings(queue: &mut CommandQueue) -> (readings: Vec<Reading>)
    ensures
        final(queue)@ == (QueueState { frames: Seq::empty(), pending: old(queue)@.pending }),
        readings@ == readings_in(old(queue)@.frames),
{
    let mut readings: Vec<Reading> = Vec::new();
    loop
        invariant
            queue@.pending == old(queue)@.pending,
            readings_in(old(queue)@.frames) == readings@ + readings_in(queue@.frames),
        decreases queue@.frames.len(),
    {
        let ghost before = readings@;
        let ghost frames = queue@.frames;
        match queue.dequeue_command() {
            None => {
                proof {
                    assert(readings@ + readings_in(frames) =~= readings@);
                    assert(queue@.frames =~= Seq::<Seq<u8>>::empty());
                }
                return readings;
            },
            Some(frame) => {
                match parse_live_reading(frame.as_slice()) {
                    Some(reading) => {
                        readings.push(reading);
                        proof {
                            assert(readings@ + readings_in(frames.skip(1)) =~= before + (
                            seq![reading] + readings_in(frames.skip(1))));
                        }
                    },
                    None => {},
                }
            },
        }
    }
}

/// Takes all frames from the queue and gives the recording mode that the
/// last of them to name one names.
fn drain_mode(queue: &mut CommandQueue) -> (mode: Option<RecordingMode>)
    ensures
        final(queue)@ == (QueueState { frames: Seq::empty(), pending: old(queue)@.pending }),
        mode == last_mode(None, old(queue)@.frames),
{
    let mut rm: Option<RecordingMode> = None;
    loop
        invariant
            queue@.pending == old(queue)@.pending,
            last_mode(None, old(queue)@.frames) == last_mode(rm, queue@.frames),
        decreases queue@.frames.len(),
    {
        match queue.dequeue_command() {
            None => {
                proof {
                    assert(queue@.frames =~= Seq::<Seq<u8>>::empty());
                }
                return rm;
            },
            Some(response) => {
                match parse_recording_mode(response.as_slice()) {
                    Some(mode) => {
                        rm = Some(mode);
                    },
                    None => {},
                }
            },
        }
    }
}

/// Takes frames from the queue for the header of the manually recorded
/// file: all of them, unless a header tells of an empty file.
fn drain_manual_header(queue: &mut CommandQueue) -> (found: Option<FileHeader>)
    ensures
        final(queue)@.pending == old(queue)@.pending,
        manual_header_in(None, old(queue)@.frames) == (found, final(queue)@.frames),
{
    let mut found: Option<FileHeader> = None;
    loop
        invariant
            queue@.pending == old(queue)@.pending,
            manual_header_in(None, old(queue)@.frames) == manual_header_in(found, queue@.frames),
        decreases queue@.frames.len(),
    {
        match queue.dequeue_command() {
            None => {
                return found;
            },
            Some(response) => {
                match parse_manual_header(response.as_slice()) {
                    Some(header) => {
                        found = Some(header);
                        if header.length == 0 {
                            return found;
                        }
                    },
                    None => {},
                }
            },
        }
    }
}

/// Takes all frames from the queue and decodes those of an automatically recorded file.
fn drain_auto_data(queue: &mut CommandQueue, decoder: &mut AutoDecoder)
    ensures
        final(queue)@ == (QueueState { frames: Seq::empty(), pending: old(queue)@.pending }),
        final(decoder)@ == auto_decoded(old(decoder)@, old(queue)@.frames),
{
    loop
        invariant
            queue@.pending == old(queue)@.pending,
            auto_decoded(old(decoder)@, old(queue)@.frames) == auto_decoded(
                decoder@,
                queue@.frames,
            ),
        decreases queue@.frames.len(),
    {
        match queue.dequeue_command() {
            None => {
                proof {
                    assert(queue@.frames =~= Seq::<Seq<u8>>::empty());
                }
                return ;
            },
            Some(response) => {
                match parse_auto_data(response.as_slice()) {
                    Some((sign_bits, data)) => {
                        decoder.consume(sign_bits, data);
                    },
                    None => {},
                }
            },
        }
    }
}

/// Takes all frames from the queue and decodes those of one channel of the
/// manually recorded file.
fn drain_manual_data(
    queue: &mut CommandQueue,
    values: &mut Vec<u8>,
    target: usize,
    channel: Channel,
)
    ensures
        final(queue)@ == (QueueState { frames: Seq::empty(), pending: old(queue)@.pending }),
        final(values)@ == manual_decoded(old(values)@, target as nat, channel, old(queue)@.frames),
{
    loop
        invariant
            queue@.pending == old(queue)@.pending,
            manual_decoded(old(values)@, target as nat, channel, old(queue)@.frames)
                == manual_decoded(values@, target as nat, channel, queue@.frames),
        decreases queue@.frames.len(),
    {
        match queue.dequeue_command() {
            None => {
                proof {
                    assert(queue@.frames =~= Seq::<Seq<u8>>::empty());
                }
                return ;
            },
            Some(response) => {
                match parse_manual_data(response.as_slice(), channel) {
                    Some((signs, seed, data)) => {
                        decode_manual(values, target, signs, seed, data);
                    },
                    None => {},
                }
            },
        }
    }
}

/// A session with the device.
pub struct Session {
    queue: CommandQueue,
    goal: Goal,
    stage: Stage,
    cycles: u8,
    index: usize,
    file_number: u8,
    header: FileHeader,
    decoder: AutoDecoder,
    values: Vec<u8>,
    first: Vec<u8>,
}

impl View for Session {
    type V = SessionState;

    closed spec fn view(&self) -> SessionState {
        SessionState {
            queue: self.queue@,
            goal: self.goal@,
            stage: self.stage,
            cycles: self.cycles,
            index: self.index,
            file_number: self.file_number,
            header: self.header,
            decoder: self.decoder@,
            values: self.values@,
            first: self.first@,
        }
    }
}

impl Session {
    /// A session for the given goal, before its first step.
    pub fn new(goal: Goal) -> (session: Self)
        ensures
            session@ == SessionState::initial(goal@),
            is_sound(session@),
    {
        proof {
            lemma_initial_is_sound(goal@);
        }
        Session {
            queue: CommandQueue::new(),
            goal,
            stage: Stage::Start,
            cycles: 0,
            index: 0,
            file_number: 0,
            header: FileHeader {
                start: Timestamp { year: 0, month: 0, day: 0, hour: 0, minute: 0, second: 0 },
                length: 0,
            },
            decoder: AutoDecoder::new(0),
            values: Vec::new(),
            first: Vec::new(),
        }
    }

    /// Where the session stands.
    pub fn stage(&self) -> (stage: Stage)
        ensures
            stage == self@.stage,
    {
        self.stage
    }

    fn fail(&mut self, error: SessionError) -> (action: Action)
        ensures
            (final(self)@, action@) == old(self)@.failing(error),
    {
        self.stage = Stage::Failed(error);
        Action::Failed(error)
    }

    fn send(&mut self, stage: Stage, frame: Vec<u8>) -> (action: Action)
        ensures
            (final(self)@, action@) == old(self)@.sending(stage, frame@),
    {
        self.stage = stage;
        Action::Send(frame)
    }

    fn begin(&mut self) -> (action: Action)
        ensures
            (final(self)@, action@) == old(self)@.begun(),
    {
        match &self.goal {
            Goal::LiveData => {
                // enable data streaming
                // also stream curve (ensures that the values arrive on time)
                self.cycles = 0;
                self.send(Stage::LiveAwait, live_data_request())
            },
            Goal::ReadFile(file_index) => {
                let file_index = *file_index;
                if file_index == 0 {
                    return self.fail(SessionError::FileIndexZero);
                }
                // check if auto or manual
                self.index = file_index;
                self.send(Stage::AwaitMode, read_property_request(PropertyCode::RecordingMode))
            },
            Goal::SetDeviceId(id) => {
                match encode_device_id_bytes(id.as_slice()) {
                    Ok(field) => {
                        // set it!
                        let frame = set_device_id_request(field.as_slice());
                        self.send(Stage::AwaitAck, frame)
                    },
                    Err(DeviceIdError::TooLong) => self.fail(SessionError::DeviceIdTooLong),
                    Err(DeviceIdError::NotAscii) => self.fail(SessionError::DeviceIdNotAscii),
                }
            },
        }
    }

    fn check_init(&mut self) -> (action: Action)
        ensures
            (final(self)@, action@) == old(self)@.init_checked(),
    {
        match self.queue.dequeue_command() {
            None => self.fail(SessionError::WrongInitResponse),
            Some(init_response) => {
                if is_init_reply(init_response.as_slice()) {
                    self.begin()
                } else {
                    self.fail(SessionError::WrongInitResponse)
                }
            },
        }
    }

    fn drain_live(&mut self) -> (action: Action)
        ensures
            (final(self)@, action@) == old(self)@.live_drained(),
    {
        let readings = drain_readings(&mut self.queue);
        self.stage = Stage::LiveTally;
        Action::Readings(readings)
    }

    fn tally(&mut self) -> (action: Action)
        ensures
            (final(self)@, action@) == old(self)@.tallied(),
    {
        // send a keepalive every 8 messages
        if self.cycles >= KEEP_ALIVE_CYCLES - 1 {
            self.cycles = 0;
            self.send(Stage::LiveAwait, keep_alive_request())
        } else {
            self.cycles = self.cycles + 1;
            self.stage = Stage::LiveAwait;
            Action::Receive
        }
    }

    fn drain_for_mode(&mut self) -> (action: Action)
        ensures
            (final(self)@, action@) == old(self)@.mode_drained(),
    {
        match drain_mode(&mut self.queue) {
            None => Action::Receive,
            Some(RecordingMode::Automatic) => self.send(Stage::AwaitCount, file_count_request()),
            Some(RecordingMode::Manual) => {
                if self.index != 1 {
                    self.fail(SessionError::ManualFileIndexNotOne)
                } else {
                    self.send(Stage::AwaitManualHeader, manual_metadata_request())
                }
            },
            Some(RecordingMode::Other(raw)) => self.fail(SessionError::UnknownRecordingMode(raw)),
        }
    }

    fn advance(&mut self, number: usize) -> (action: Action)
        ensures
            (final(self)@, action@) == old(self)@.advancing(number),
    {
        self.send(Stage::AwaitHeader(number), advance_header_request())
    }

    fn drain_for_count(&mut self) -> (action: Action)
        ensures
            (final(self)@, action@) == old(self)@.count_drained(),
    {
        match take_first_awaited(&mut self.queue, Awaited::FileCount) {
            None => Action::Receive,
            Some(response) => {
                match parse_file_count(response.as_slice()) {
                    None => Action::Receive,
                    Some(file_count) => {
                        if file_count == 0 {
                            self.fail(SessionError::NoFilesRecorded)
                        } else if self.index > file_count as usize {
                            self.fail(
                                SessionError::NoSuchFile { index: self.index, count: file_count },
                            )
                        } else {
                            // ask for metadata
                            self.advance(1)
                        }
                    },
                }
            },
        }
    }

    fn read_auto(&mut self, channel: Channel) -> (action: Action)
        ensures
            (final(self)@, action@) == old(self)@.reading_auto(channel),
    {
        self.decoder = AutoDecoder::new(self.header.length as usize);
        let frame = read_auto_file_request(channel, self.file_number);
        self.send(Stage::AutoData(channel), frame)
    }

    fn drain_for_header(&mut self, number: usize) -> (action: Action)
        ensures
            (final(self)@, action@) == old(self)@.header_drained(number),
    {
        match take_first_awaited(&mut self.queue, Awaited::AutoHeader) {
            None => Action::Receive,
            Some(response) => {
                match parse_auto_header(response.as_slice()) {
                    None => Action::Receive,
                    Some(header) => {
                        if !is_valid_timestamp(header.start) {
                            self.fail(SessionError::MalformedTimestamp)
                        } else if number < self.index {
                            self.advance(number + 1)
                        } else if self.index > u8::MAX as usize {
                            self.fail(SessionError::FileNumberTooLarge)
                        } else {
                            // alright then, read the file!
                            self.header = header;
                            self.file_number = self.index as u8;
                            self.first = Vec::new();
                            self.read_auto(Channel::Oxygen)
                        }
                    },
                }
            },
        }
    }

    fn finish(&mut self, first_is_pulse: bool) -> (action: Action)
        ensures
            first_is_pulse ==> (final(self)@, action@) == old(self)@.finishing(
                old(self)@.first,
                old(self)@.values,
            ),
            !first_is_pulse ==> (final(self)@, action@) == old(self)@.finishing(
                old(self)@.decoder.samples,
                old(self)@.first,
            ),
            begins_at_start(final(self)@, action@),
    {
        // zip the values together and output them
        let samples = if first_is_pulse {
            timed_samples(self.header.start, self.first.as_slice(), self.values.as_slice())
        } else {
            timed_samples(
                self.header.start,
                self.decoder.values().as_slice(),
                self.first.as_slice(),
            )
        };
        match samples {
            Some(samples) => {
                self.stage = Stage::Done;
                Action::File(samples)
            },
            None => self.fail(SessionError::MalformedTimestamp),
        }
    }

    fn progress_auto(&mut self, channel: Channel) -> (action: Action)
        ensures
            (final(self)@, action@) == old(self)@.auto_progress(channel),
            begins_at_start(final(self)@, action@),
    {
        if !self.decoder.is_complete() {
            // we have more data to fetch
            return Action::Receive;
        }
        match channel {
            Channel::Oxygen => {
                self.first = slice_to_vec(self.decoder.values().as_slice());
                self.read_auto(Channel::Pulse)
            },
            Channel::Pulse => self.finish(false),
        }
    }

    fn drain_for_auto_data(&mut self, channel: Channel) -> (action: Action)
        ensures
            (final(self)@, action@) == old(self)@.auto_drained(channel),
            begins_at_start(final(self)@, action@),
    {
        drain_auto_data(&mut self.queue, &mut self.decoder);
        self.progress_auto(channel)
    }

    fn read_manual(&mut self, channel: Channel) -> (action: Action)
        ensures
            (final(self)@, action@) == old(self)@.reading_manual(channel),
    {
        self.values = Vec::new();
        // read the file!
        self.send(Stage::ManualData(channel), read_manual_file_request(channel))
    }

    fn drain_for_manual_header(&mut self) -> (action: Action)
        ensures
            (final(self)@, action@) == old(self)@.manual_header_drained(),
    {
        match drain_manual_header(&mut self.queue) {
            None => Action::Receive,
            Some(header) => {
                if header.length == 0 {
                    self.fail(SessionError::NoManualFile)
                } else if !is_valid_timestamp(header.start) {
                    self.fail(SessionError::MalformedTimestamp)
                } else {
                    // round length down to a multiple of 27
                    let full_chunk_count = header.length / MANUAL_CHUNK;
                    self.header = FileHeader {
                        start: header.start,
                        length: full_chunk_count * MANUAL_CHUNK,
                    };
                    self.first = Vec::new();
                    self.read_manual(Channel::Pulse)
                }
            },
        }
    }

    fn progress_manual(&mut self, channel: Channel) -> (action: Action)
        ensures
            (final(self)@, action@) == old(self)@.manual_progress(channel),
            begins_at_start(final(self)@, action@),
    {
        if self.values.len() < self.header.length as usize {
            return Action::Receive;
        }
        match channel {
            Channel::Pulse => {
                self.first = slice_to_vec(self.values.as_slice());
                self.read_manual(Channel::Oxygen)
            },
            Channel::Oxygen => self.finish(true),
        }
    }

    fn drain_for_manual_data(&mut self, channel: Channel) -> (action: Action)
        ensures
            (final(self)@, action@) == old(self)@.manual_drained(channel),
            begins_at_start(final(self)@, action@),
    {
        drain_manual_data(
            &mut self.queue,
            &mut self.values,
            self.header.length as usize,
            channel,
        );
        self.progress_manual(channel)
    }

    fn drain_for_ack(&mut self) -> (action: Action)
        ensures
            (final(self)@, action@) == old(self)@.ack_drained(),
    {
        match take_first_awaited(&mut self.queue, Awaited::SetPropertyReply) {
            None => Action::Receive,
            Some(_) => {
                self.stage = Stage::Done;
                Action::Finished
            },
        }
    }

    /// Tells the session that the driver has done what was asked of it,
    /// other than to receive, and asks what to do next. The first call
    /// begins the session.
    pub fn resume(&mut self) -> (action: Action)
        ensures
            (final(self)@, action@) == old(self)@.resumed(),
            is_sound(old(self)@) ==> is_sound(final(self)@),
            begins_at_start(final(self)@, action@),
    {
        proof {
            if is_sound(old(self)@) {
                lemma_session_stays_sound(old(self)@, Event::Resumed);
            }
        }
        match self.stage {
            Stage::Start => self.send(Stage::AwaitInit, init_bytestring()),
            Stage::LiveTally => self.tally(),
            Stage::AutoData(channel) => self.progress_auto(channel),
            Stage::ManualData(channel) => self.progress_manual(channel),
            Stage::Done => Action::Finished,
            Stage::Failed(error) => Action::Failed(error),
            _ => Action::Receive,
        }
    }

    /// Hands the session the bytes of one report and asks what to do next.
    pub fn receive(&mut self, chunk: &[u8]) -> (action: Action)
        ensures
            (final(self)@, action@) == old(self)@.received(chunk@),
            is_sound(old(self)@) ==> is_sound(final(self)@),
            begins_at_start(final(self)@, action@),
    {
        proof {
            if is_sound(old(self)@) {
                lemma_session_stays_sound(old(self)@, Event::Received(chunk@));
            }
        }
        self.queue.add_from_buffer(chunk);
        match self.stage {
            Stage::AwaitInit => self.check_init(),
            Stage::LiveAwait => self.drain_live(),
            Stage::AwaitMode => self.drain_for_mode(),
            Stage::AwaitCount => self.drain_for_count(),
            Stage::AwaitHeader(number) => self.drain_for_header(number),
            Stage::AutoData(channel) => self.drain_for_auto_data(channel),
            Stage::AwaitManualHeader => self.drain_for_manual_header(),
            Stage::ManualData(channel) => self.drain_for_manual_data(channel),
            Stage::AwaitAck => self.drain_for_ack(),
            _ => self.resume(),
        }
    }
}

} // verus!
