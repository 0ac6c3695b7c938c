//! What holds of every session: it opens with the init sequence, it sends
//! no request unless the reply to the init sequence was the right one, once
//! it has failed it stays failed, and a file that it hands out has as many
//! samples as its header tells.

use crate::codes::CommandCode;
use crate::decode::capped;
use crate::decode::lemma_auto_consume_extends;
use crate::decode::manual_samples;
use crate::decode::AutoState;
use crate::frames::command_frame;
use crate::frames::Channel;
use crate::queue::is_piece;
use crate::queue::is_tidy;
use crate::queue::lemma_fed_keeps_tidy;
use crate::queue::QueueState;
use crate::responses::auto_data_of;
use crate::responses::manual_data_of;
use crate::responses::manual_header_of;
use crate::responses::FileHeader;
use crate::samples::sample_time;
use crate::session_model::auto_decoded;
use crate::session_model::first_awaited;
use crate::session_model::manual_decoded;
use crate::session_model::manual_header_in;
use crate::session_model::Awaited;
use crate::session_model::MANUAL_CHUNK;
use crate::frames::init_reply;
use crate::frames::init_sequence;
use crate::session_model::ActionModel;
use crate::session_model::GoalModel;
use crate::session_model::SessionError;
use crate::session_model::SessionState;
use crate::session_model::Stage;
use crate::session_model::KEEP_ALIVE_CYCLES;
use vstd::prelude::*;

verus! {

/// What the driver reports to the session.
pub enum Event {
    /// It has done what was asked, other than to receive.
    Resumed,
    /// It has received these bytes.
    Received(Seq<u8>),
}

/// The session after one event, and what the driver is to do next.
pub open spec fn reacted(state: SessionState, event: Event) -> (SessionState, ActionModel) {
    match event {
        Event::Resumed => state.resumed(),
        Event::Received(chunk) => state.received(chunk),
    }
}

/// The session after a run of events.
pub open spec fn after_events(state: SessionState, events: Seq<Event>) -> SessionState
    decreases events.len(),
{
    if events.len() == 0 {
        state
    } else {
        reacted(after_events(state, events.drop_last()), events.last()).0
    }
}

/// The action that answers event `at` of a run of events.
pub open spec fn action_at(state: SessionState, events: Seq<Event>, at: int) -> ActionModel {
    reacted(after_events(state, events.take(at)), events[at]).1
}

/// The first thing every session asks for is to send the init sequence, and
/// the second is to receive the reply.
pub proof fn lemma_session_opens_with_init(goal: GoalModel)
    ensures
        SessionState::initial(goal).resumed().1 == ActionModel::Send(init_sequence()),
        SessionState::initial(goal).resumed().0.stage == Stage::AwaitInit,
        SessionState::initial(goal).resumed().0.resumed().1 == ActionModel::Receive,
        SessionState::initial(goal).resumed().0.resumed().0.stage == Stage::AwaitInit,
{
}

/// While the reply to the init sequence is awaited, a report whose first
/// frame is not that reply, or which holds no frame at all, makes the
/// session fail.
pub proof fn lemma_wrong_init_reply_fails(state: SessionState, chunk: Seq<u8>)
    requires
        state.stage == Stage::AwaitInit,
        state.queue.fed(chunk).frames.len() == 0 || state.queue.fed(chunk).frames[0]
            != init_reply(),
    ensures
        state.received(chunk).1 == ActionModel::Failed(SessionError::WrongInitResponse),
        state.received(chunk).0.stage == Stage::Failed(SessionError::WrongInitResponse),
{
}

/// A failed session answers every event with the failure and stays as it is
/// but for its queue.
pub proof fn lemma_failed_stays_failed(state: SessionState, event: Event)
    requires
        state.stage is Failed,
    ensures
        reacted(state, event).1 == ActionModel::Failed(state.stage->Failed_0),
        reacted(state, event).0.stage == state.stage,
{
}

/// Whatever the driver reports to a failed session, and however often, the
/// session never asks it to send anything.
pub proof fn lemma_failed_sends_nothing(state: SessionState, events: Seq<Event>, at: int)
    requires
        state.stage is Failed,
        0 <= at < events.len(),
    ensures
        after_events(state, events).stage == state.stage,
        action_at(state, events, at) == ActionModel::Failed(state.stage->Failed_0),
    decreases events.len(),
{
    let before = events.drop_last();
    if before.len() > 0 {
        lemma_failed_sends_nothing(state, before, 0);
    }
    assert(after_events(state, before).stage == state.stage);
    lemma_failed_stays_failed(after_events(state, before), events.last());
    if at == events.len() - 1 {
        assert(events.take(at) =~= before);
    } else {
        lemma_failed_sends_nothing(state, before, at);
        assert(before.take(at) =~= events.take(at));
    }
}

/// A session whose init sequence is answered by anything but the expected
/// reply sends the init sequence and nothing else, whatever follows.
pub proof fn lemma_wrong_init_reply_aborts(
    goal: GoalModel,
    chunk: Seq<u8>,
    events: Seq<Event>,
    at: int,
)
    requires
        SessionState::initial(goal).queue.fed(chunk).frames.len() == 0
            || SessionState::initial(goal).queue.fed(chunk).frames[0] != init_reply(),
        0 <= at < events.len(),
    ensures
        ({
            let opened = SessionState::initial(goal).resumed();
            let waited = opened.0.resumed();
            let answered = waited.0.received(chunk);
            &&& opened.1 == ActionModel::Send(init_sequence())
            &&& waited.1 == ActionModel::Receive
            &&& answered.1 == ActionModel::Failed(SessionError::WrongInitResponse)
            &&& action_at(answered.0, events, at) == ActionModel::Failed(
                SessionError::WrongInitResponse,
            )
        }),
{
    let opened = SessionState::initial(goal).resumed();
    let waited = opened.0.resumed();
    lemma_session_opens_with_init(goal);
    lemma_wrong_init_reply_fails(waited.0, chunk);
    lemma_failed_sends_nothing(waited.0.received(chunk).0, events, at);
}

/// A session that has reached its goal asks for nothing more.
pub proof fn lemma_done_stays_done(state: SessionState, event: Event)
    requires
        state.stage == Stage::Done,
    ensures
        reacted(state, event).1 == ActionModel::Finished,
        reacted(state, event).0.stage == Stage::Done,
{
}

/// The session is streaming live readings.
pub open spec fn is_live(state: SessionState) -> bool {
    (state.stage == Stage::LiveAwait || state.stage == Stage::LiveTally) && state.cycles
        < KEEP_ALIVE_CYCLES
}

/// Live streaming has no end: whatever the device sends, the session goes
/// on receiving, handing out readings and sending keep-alive frames, and
/// never fails or finishes.
pub proof fn lemma_live_goes_on(state: SessionState, event: Event)
    requires
        is_live(state),
    ensures
        is_live(reacted(state, event).0),
        ({
            let action = reacted(state, event).1;
            ||| action == ActionModel::Receive
            ||| action is Readings
            ||| action == ActionModel::Send(
                command_frame(CommandCode::KeepAliveCommand, Seq::empty()),
            )
        }),
{
}

/// A keep-alive frame follows every eighth receive cycle of the live
/// stream and no other: it is sent when seven cycles have been counted and
/// the eighth is over, and the count begins anew.
pub proof fn lemma_keep_alive_every_eighth_cycle(state: SessionState)
    requires
        state.stage == Stage::LiveTally,
        state.cycles < KEEP_ALIVE_CYCLES,
    ensures
        state.cycles == KEEP_ALIVE_CYCLES - 1 ==> state.resumed().1 == ActionModel::Send(
            command_frame(CommandCode::KeepAliveCommand, Seq::empty()),
        ) && state.resumed().0.cycles == 0,
        state.cycles < KEEP_ALIVE_CYCLES - 1 ==> state.resumed().1 == ActionModel::Receive
            && state.resumed().0.cycles == state.cycles + 1,
{
}

/// A device ID that cannot be written makes the session fail as soon as the
/// init reply has come: no frame is sent for it.
pub proof fn lemma_bad_device_id_fails(state: SessionState, chunk: Seq<u8>, id: Seq<u8>)
    requires
        state.stage == Stage::AwaitInit,
        state.goal == GoalModel::SetDeviceId(id),
        id.len() > 7 || exists|i: int| 0 <= i < id.len() && id[i] >= 0x80,
    ensures
        state.received(chunk).1 is Failed,
        state.received(chunk).0.stage is Failed,
{
}

/// What holds of a session at every moment: its queue is tidy, the cycles
/// of the live stream stay below the count at which a keep-alive frame is
/// due, files are asked for by an index from 1 on, headers are walked from
/// the first file up to the one asked for, and a channel never holds more
/// samples than the header of its file tells.
pub open spec fn is_sound(state: SessionState) -> bool {
    &&& is_tidy(state.queue)
    &&& state.cycles < KEEP_ALIVE_CYCLES
    &&& match state.stage {
        Stage::AwaitMode => state.index >= 1,
        Stage::AwaitCount => state.index >= 1,
        Stage::AwaitHeader(number) => 1 <= number <= state.index,
        Stage::AutoData(channel) => {
            &&& state.decoder.target == state.header.length
            &&& state.decoder.within_target()
            &&& state.file_number == state.index
            &&& channel == Channel::Pulse ==> state.first.len() == state.header.length
        },
        Stage::AwaitManualHeader => state.index == 1,
        Stage::ManualData(channel) => {
            &&& state.values.len() <= state.header.length
            &&& state.header.length % MANUAL_CHUNK == 0
            &&& state.index == 1
            &&& channel == Channel::Oxygen ==> state.first.len() == state.header.length
        },
        _ => true,
    }
}

/// A tidy queue is tidy without its first frame.
proof fn lemma_rest_is_tidy(queue: QueueState)
    requires
        is_tidy(queue),
        queue.frames.len() > 0,
    ensures
        is_tidy(QueueState { frames: queue.frames.skip(1), pending: queue.pending }),
{
    let rest = queue.frames.skip(1);
    assert forall|i: int| 0 <= i < rest.len() implies (#[trigger] rest[i]).len() > 0 && is_piece(
        rest[i],
    ) by {
        assert(rest[i] == queue.frames[i + 1]);
    }
}

proof fn lemma_first_awaited_is_tidy(awaited: Awaited, frames: Seq<Seq<u8>>, pending: Seq<u8>)
    requires
        is_tidy(QueueState { frames, pending }),
    ensures
        is_tidy(QueueState { frames: first_awaited(awaited, frames).1, pending }),
    decreases frames.len(),
{
    if frames.len() > 0 {
        lemma_rest_is_tidy(QueueState { frames, pending });
        lemma_first_awaited_is_tidy(awaited, frames.skip(1), pending);
    }
}

proof fn lemma_manual_header_in_is_tidy(
    found: Option<FileHeader>,
    frames: Seq<Seq<u8>>,
    pending: Seq<u8>,
)
    requires
        is_tidy(QueueState { frames, pending }),
    ensures
        is_tidy(QueueState { frames: manual_header_in(found, frames).1, pending }),
    decreases frames.len(),
{
    if frames.len() > 0 {
        lemma_rest_is_tidy(QueueState { frames, pending });
        match manual_header_of(frames[0]) {
            Some(header) => {
                lemma_manual_header_in_is_tidy(Some(header), frames.skip(1), pending);
            },
            None => {
                lemma_manual_header_in_is_tidy(found, frames.skip(1), pending);
            },
        }
    }
}

proof fn lemma_auto_decoded_within_target(decoder: AutoState, frames: Seq<Seq<u8>>)
    requires
        decoder.within_target(),
    ensures
        auto_decoded(decoder, frames).within_target(),
        auto_decoded(decoder, frames).target == decoder.target,
    decreases frames.len(),
{
    if frames.len() > 0 {
        match auto_data_of(frames[0]) {
            Some((signs, data)) => {
                lemma_auto_consume_extends(decoder, data, signs);
                lemma_auto_decoded_within_target(decoder.consume(data, signs), frames.skip(1));
            },
            None => {
                lemma_auto_decoded_within_target(decoder, frames.skip(1));
            },
        }
    }
}

proof fn lemma_manual_decoded_within_target(
    values: Seq<u8>,
    target: nat,
    channel: Channel,
    frames: Seq<Seq<u8>>,
)
    requires
        values.len() <= target,
    ensures
        manual_decoded(values, target, channel, frames).len() <= target,
    decreases frames.len(),
{
    if frames.len() > 0 {
        match manual_data_of(frames[0], channel) {
            Some(parts) => {
                let next = capped(
                    values + manual_samples(parts.seed, parts.data, parts.signs),
                    target,
                );
                lemma_manual_decoded_within_target(next, target, channel, frames.skip(1));
            },
            None => {
                lemma_manual_decoded_within_target(values, target, channel, frames.skip(1));
            },
        }
    }
}

/// A session is sound before its first step.
pub proof fn lemma_initial_is_sound(goal: GoalModel)
    ensures
        is_sound(SessionState::initial(goal)),
{
}

/// Whatever the driver reports, a sound session stays sound.
pub proof fn lemma_session_stays_sound(state: SessionState, event: Event)
    requires
        is_sound(state),
    ensures
        is_sound(reacted(state, event).0),
{
    match event {
        Event::Resumed => {
            lemma_resumed_stays_sound(state);
        },
        Event::Received(chunk) => {
            lemma_fed_keeps_tidy(state.queue, chunk);
            let fed = SessionState { queue: state.queue.fed(chunk), ..state };
            let frames = fed.queue.frames;
            let pending = fed.queue.pending;
            assert(is_sound(fed));
            match state.stage {
                Stage::AwaitInit => {
                    if frames.len() > 0 {
                        lemma_rest_is_tidy(fed.queue);
                    }
                },
                Stage::AwaitCount => {
                    lemma_first_awaited_is_tidy(Awaited::FileCount, frames, pending);
                },
                Stage::AwaitHeader(number) => {
                    lemma_first_awaited_is_tidy(Awaited::AutoHeader, frames, pending);
                },
                Stage::AwaitAck => {
                    lemma_first_awaited_is_tidy(Awaited::SetPropertyReply, frames, pending);
                },
                Stage::AwaitManualHeader => {
                    lemma_manual_header_in_is_tidy(None, frames, pending);
                },
                Stage::AutoData(channel) => {
                    lemma_auto_decoded_within_target(fed.decoder, frames);
                },
                Stage::ManualData(channel) => {
                    lemma_manual_decoded_within_target(
                        fed.values,
                        fed.header.length as nat,
                        channel,
                        frames,
                    );
                },
                Stage::LiveAwait => {},
                Stage::AwaitMode => {},
                _ => {
                    lemma_resumed_stays_sound(fed);
                },
            }
        },
    }
}

proof fn lemma_resumed_stays_sound(state: SessionState)
    requires
        is_sound(state),
    ensures
        is_sound(state.resumed().0),
{
}

/// The file that a sound session hands out has exactly as many samples as
/// its header tells, one for each second from the start of the file on.
pub proof fn lemma_file_is_whole(state: SessionState, event: Event)
    requires
        is_sound(state),
        reacted(state, event).1 is File,
    ensures
        ({
            let after = reacted(state, event).0;
            let samples = reacted(state, event).1->File_0;
            &&& after.stage == Stage::Done
            &&& samples.len() == after.header.length
            &&& forall|i: int|
                0 <= i < samples.len() ==> sample_time(after.header.start, i) == Some(
                    (#[trigger] samples[i]).time,
                )
        }),
{
    match event {
        Event::Resumed => {},
        Event::Received(chunk) => {
            let fed = SessionState { queue: state.queue.fed(chunk), ..state };
            match state.stage {
                Stage::AutoData(channel) => {
                    lemma_auto_decoded_within_target(fed.decoder, fed.queue.frames);
                },
                Stage::ManualData(channel) => {
                    lemma_manual_decoded_within_target(
                        fed.values,
                        fed.header.length as nat,
                        channel,
                        fed.queue.frames,
                    );
                },
                _ => {},
            }
        },
    }
}

} // verus!
