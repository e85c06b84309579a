//! What one step of the machine does with each report, told from the report and the answer.
//!
//! The laws speak of calls: `call_ensures(Run::step, (run, status, event), output)` is a step of `run`
//! with `status` that was given `event` and answered `output`.
use vstd::prelude::*;

#[allow(unused_imports)]
use crate::av1_obu::obu_sizes_fit;
#[allow(unused_imports)]
use crate::frame::{ReadError, RemoteEncodedPacket};
#[allow(unused_imports)]
use crate::h264_util::scan_sps_profile;
#[allow(unused_imports)]
use crate::rtp::{rtp_frames, rtp_settings, vp9_picture};
#[allow(unused_imports)]
use crate::run::{
    is_step, next, EventView, Phase, Run, RunAction, RunEvent, RunModel, RunOutput, SourceStatus,
};
#[allow(unused_imports)]
use crate::run_laws::{is_trace, Turn};
#[allow(unused_imports)]
use crate::source_config::VideoCodec;
#[allow(unused_imports)]
use crate::source_state::StreamSourceState;
#[allow(unused_imports)]
use crate::text::text_of;

verus! {

/// A step is a step of the laws over whole runs.
pub proof fn law_call_is_a_step(
    run: &mut Run,
    status: &mut SourceStatus,
    event: RunEvent,
    output: RunOutput,
)
    requires
        call_ensures(Run::step, (run, status, event), output),
    ensures
        is_step(*old(run), *old(status), event@, *final(run), *final(status), output),
        final(run).wf(),
        final(run).codec() == old(run).codec(),
{
}

/// A machine that was just made has not begun, and has the codec and the labels it was made with.
pub proof fn law_new_machine(codec: VideoCodec, payload_type: u8, clock_rate: u32, run: Run)
    requires
        call_ensures(Run::new, (codec, payload_type, clock_rate), run),
    ensures
        run.wf(),
        run.phase() == Phase::Idle,
        run.reconnect_count() == 0,
        run.last_ticks() is None,
        run.codec() == codec,
        rtp_settings(run.packetizer()).codec == codec,
        rtp_settings(run.packetizer()).mtu == 1400,
        rtp_settings(run.packetizer()).payload_type == payload_type,
        rtp_settings(run.packetizer()).clock_rate == clock_rate,
        rtp_frames(run.packetizer()).len() == 0,
        codec == VideoCodec::Vp9 ==> vp9_picture(run.packetizer()) is None,
{
}

/// The only report that a machine which has not begun takes is that the task has begun.
pub proof fn law_new_machine_takes_begin(run: Run, event: RunEvent, taken: bool)
    requires
        run.phase() == Phase::Idle,
        call_ensures(Run::can_take, (&run, &event), taken),
    ensures
        taken == (event is Begin),
{
}

/// The machine takes what its action can come to, and nothing else: a connect succeeds or fails, a
/// read gives a packet or finds the connection closed or broken or is overtaken by a shutdown, a look
/// for a shutdown finds one or not, a wait ends, and nothing follows the end. The limits are those of
/// the count of failed attempts and of the payloaders.
pub proof fn law_every_outcome_of_an_action_is_taken(
    run: &mut Run,
    status: &mut SourceStatus,
    event: RunEvent,
    output: RunOutput,
    later: RunEvent,
    taken: bool,
)
    requires
        old(run).takes(event@),
        call_ensures(Run::step, (run, status, event), output),
        call_ensures(Run::can_take, (final(run), &later), taken),
    ensures
        taken == match (output.action, later) {
            (RunAction::Connect, RunEvent::Connected) => true,
            (RunAction::Connect, RunEvent::ConnectFailed(_)) => final(run).reconnect_count()
                < u32::MAX,
            (RunAction::Read, RunEvent::Packet(packet)) => match final(run).codec() {
                VideoCodec::H265 => packet.data@.len() != 1,
                VideoCodec::Av1 => obu_sizes_fit(packet.data@),
                _ => true,
            },
            (RunAction::Read, RunEvent::Closed) => final(run).reconnect_count() < u32::MAX,
            (RunAction::Read, RunEvent::ReadFailed(_)) => final(run).reconnect_count() < u32::MAX,
            (RunAction::Read, RunEvent::Shutdown) => true,
            (RunAction::PollShutdown, RunEvent::ShutdownPolled(_)) => true,
            (RunAction::Sleep(_), RunEvent::Slept) => true,
            _ => false,
        },
{
}

/// The failed attempts since the last connection are counted: a connection sets the count to zero, a
/// failure adds one, and nothing else touches it.
pub proof fn law_failed_attempts_are_counted(
    run: &mut Run,
    status: &mut SourceStatus,
    event: RunEvent,
    output: RunOutput,
)
    requires
        call_ensures(Run::step, (run, status, event), output),
    ensures
        final(run).reconnect_count() == match event {
            RunEvent::Connected => 0,
            RunEvent::ConnectFailed(_) | RunEvent::Closed | RunEvent::ReadFailed(_) =>
                old(run).reconnect_count() + 1,
            _ => old(run).reconnect_count(),
        },
{
    let m = old(run).model(*old(status));
    assert(final(run).reconnect_count() == final(run).model(*final(status)).reconnect_count);
    assert(m.reconnect_count == old(run).reconnect_count());
}

/// When it begins and after each wait, the machine connects. The source is then initializing, or
/// reconnecting if an attempt has failed, and a change to that is published without a reason.
pub proof fn law_begin_and_wait_lead_to_connect(
    run: &mut Run,
    status: &mut SourceStatus,
    event: RunEvent,
    output: RunOutput,
)
    requires
        event is Begin || event is Slept,
        call_ensures(Run::step, (run, status, event), output),
    ensures
        output.action == RunAction::Connect,
        final(status).state == if old(run).reconnect_count() == 0 {
            StreamSourceState::Initializing
        } else {
            StreamSourceState::Reconnecting
        },
        old(status).state == final(status).state ==> output.change is None,
        old(status).state != final(status).state ==> (output.change matches Some(change)
            && change.old_state == old(status).state && change.new_state == final(status).state
            && change.error is None),
        output.packets matches Ok(packets) && packets@.len() == 0,
        final(run).packetizer() == old(run).packetizer(),
{
    assert(final(run).phase() == final(run).model(*final(status)).phase);
    assert(final(status).state == final(run).model(*final(status)).state);
}

/// A connection is announced, and read.
pub proof fn law_connection_is_announced_and_read(
    run: &mut Run,
    status: &mut SourceStatus,
    event: RunEvent,
    output: RunOutput,
)
    requires
        event is Connected,
        call_ensures(Run::step, (run, status, event), output),
    ensures
        output.action == RunAction::Read,
        final(status).state == StreamSourceState::Connected,
        old(status).state == StreamSourceState::Connected ==> output.change is None,
        old(status).state != StreamSourceState::Connected ==> (output.change matches Some(change)
            && change.old_state == old(status).state && change.new_state
            == StreamSourceState::Connected && change.error is None),
        output.packets matches Ok(packets) && packets@.len() == 0,
        final(run).packetizer() == old(run).packetizer(),
{
    assert(final(run).phase() == final(run).model(*final(status)).phase);
    assert(final(status).state == final(run).model(*final(status)).state);
}

/// A connection that is lost, or that could not be made, makes the source disconnected, and the
/// change that is published says why: what the connect failed with, that the helper closed the
/// connection, or what the read error is reported as. Then the machine looks for a shutdown.
pub proof fn law_lost_connection_is_announced_with_its_reason(
    run: &mut Run,
    status: &mut SourceStatus,
    event: RunEvent,
    output: RunOutput,
    message: String,
)
    requires
        event is ConnectFailed || event is Closed || event is ReadFailed,
        event matches RunEvent::ReadFailed(error) ==> call_ensures(
            ReadError::message,
            (&error,),
            message,
        ),
        call_ensures(Run::step, (run, status, event), output),
    ensures
        output.action == RunAction::PollShutdown,
        final(status).state == StreamSourceState::Disconnected,
        old(status).state == StreamSourceState::Disconnected ==> output.change is None,
        old(status).state != StreamSourceState::Disconnected ==> (output.change matches Some(change)
            && change.old_state == old(status).state && change.new_state
            == StreamSourceState::Disconnected && (change.error matches Some(reason) && reason@
            == match event {
            RunEvent::ConnectFailed(error) => "connect failed: "@ + error@,
            RunEvent::Closed => "encoder helper closed the connection"@,
            _ => message@,
        })),
        output.packets matches Ok(packets) && packets@.len() == 0,
        final(run).packetizer() == old(run).packetizer(),
{
    assert(final(run).phase() == final(run).model(*final(status)).phase);
    assert(final(status).state == final(run).model(*final(status)).state);
}

/// Where no shutdown was requested the machine waits for a second, and changes nothing. Where one
/// was, it ends, and the source is disconnected.
pub proof fn law_poll_leads_to_wait_or_end(
    run: &mut Run,
    status: &mut SourceStatus,
    event: RunEvent,
    output: RunOutput,
)
    requires
        event is ShutdownPolled,
        call_ensures(Run::step, (run, status, event), output),
    ensures
        event == RunEvent::ShutdownPolled(false) ==> output.action == RunAction::Sleep(1000)
            && final(status).state == old(status).state && output.change is None,
        event == RunEvent::ShutdownPolled(true) ==> output.action == RunAction::Exit
            && final(status).state == StreamSourceState::Disconnected,
        old(status).state == final(status).state ==> output.change is None,
        old(status).state != final(status).state ==> (output.change matches Some(change)
            && change.old_state == old(status).state && change.new_state == final(status).state
            && change.error is None),
        output.packets matches Ok(packets) && packets@.len() == 0,
        final(run).packetizer() == old(run).packetizer(),
{
    assert(final(run).phase() == final(run).model(*final(status)).phase);
    assert(final(status).state == final(run).model(*final(status)).state);
}

/// A shutdown while packets are read ends the machine on the spot: nothing is published.
pub proof fn law_shutdown_ends_on_the_spot(
    run: &mut Run,
    status: &mut SourceStatus,
    event: RunEvent,
    output: RunOutput,
)
    requires
        event is Shutdown,
        call_ensures(Run::step, (run, status, event), output),
    ensures
        output.action == RunAction::Exit,
        final(status).state == old(status).state,
        output.change is None,
        output.packets matches Ok(packets) && packets@.len() == 0,
        final(run).packetizer() == old(run).packetizer(),
{
    assert(final(run).phase() == final(run).model(*final(status)).phase);
    assert(final(status).state == final(run).model(*final(status)).state);
}

/// A packet leaves the connection alone: the machine goes on reading, no change of state is
/// published, and the count of failed attempts stays.
pub proof fn law_packet_leaves_the_connection_alone(
    run: &mut Run,
    status: &mut SourceStatus,
    event: RunEvent,
    output: RunOutput,
)
    requires
        event is Packet,
        old(run).takes(event@),
        call_ensures(Run::step, (run, status, event), output),
    ensures
        output.action == RunAction::Read,
        output.change is None,
        final(status).state == old(status).state,
        final(run).phase() == old(run).phase(),
        final(run).reconnect_count() == old(run).reconnect_count(),
{
    assert(final(run).phase() == final(run).model(*final(status)).phase);
    assert(final(status).state == final(run).model(*final(status)).state);
    assert(final(run).reconnect_count() == final(run).model(*final(status)).reconnect_count);
}

/// A packet leaves the connection alone whatever it holds, and its flags count for nothing.
pub proof fn law_flags_count_for_nothing(
    codec: VideoCodec,
    m: RunModel,
    a: RemoteEncodedPacket,
    b: RemoteEncodedPacket,
)
    requires
        a.pts_us == b.pts_us,
        a.data@ == b.data@,
    ensures
        ({
            let after = next(codec, m, RunEvent::Packet(a)@);
            &&& after == next(codec, m, RunEvent::Packet(b)@)
            &&& after.phase == m.phase
            &&& after.state == m.state
            &&& after.reconnect_count == m.reconnect_count
        }),
{
}

/// While it reads, the machine goes on reading until the connection is closed or broken or a
/// shutdown is requested.
pub proof fn law_only_loss_or_shutdown_ends_reading(start: Run, turns: Seq<Turn>, k: int)
    requires
        is_trace(start, turns),
        0 <= k < turns.len() - 1,
        turns[k].output.action == RunAction::Read,
        !(turns[k + 1].event is Closed),
        !(turns[k + 1].event is ReadFailed),
        !(turns[k + 1].event is Shutdown),
    ensures
        turns[k + 1].event is Packet,
        turns[k + 1].output.action == RunAction::Read,
        turns[k + 1].output.change is None,
        turns[k + 1].left.state == turns[k + 1].seen.state,
{
    lemma_turn(start, turns, k);
    lemma_turn(start, turns, k + 1);
    let turn = turns[k + 1];
    assert(turn.after.phase() == turn.after.model(turn.left).phase);
    assert(turn.left.state == turn.after.model(turn.left).state);
    let first = turns[k];
    assert(first.after.phase() == first.after.model(first.left).phase);
}

/// After a failed or lost connection without a request to shut down, however many came before it,
/// the machine looks for a shutdown, waits for a second and connects again; and it announces that it
/// is reconnecting if the source is disconnected then.
pub proof fn law_lost_connection_is_retried(start: Run, turns: Seq<Turn>, k: int)
    requires
        is_trace(start, turns),
        0 <= k < turns.len() - 2,
        turns[k].event is ConnectFailed || turns[k].event is Closed || turns[k].event is ReadFailed,
        turns[k + 1].event != EventView::ShutdownPolled(true),
    ensures
        turns[k].output.action == RunAction::PollShutdown,
        turns[k + 1].event == EventView::ShutdownPolled(false),
        turns[k + 1].output.action == RunAction::Sleep(1000),
        turns[k + 2].event is Slept,
        turns[k + 2].output.action == RunAction::Connect,
        turns[k + 2].left.state == StreamSourceState::Reconnecting,
        turns[k + 2].seen.state == StreamSourceState::Disconnected ==> (
        turns[k + 2].output.change matches Some(change) && change.old_state
            == StreamSourceState::Disconnected && change.new_state
            == StreamSourceState::Reconnecting && change.error is None),
{
    lemma_turn(start, turns, k);
    lemma_turn(start, turns, k + 1);
    lemma_turn(start, turns, k + 2);
    let a = turns[k];
    let b = turns[k + 1];
    let c = turns[k + 2];
    assert(a.after.phase() == a.after.model(a.left).phase);
    assert(b.after.phase() == b.after.model(b.left).phase);
    assert(c.after.phase() == c.after.model(c.left).phase);
    assert(a.after.reconnect_count() == a.after.model(a.left).reconnect_count);
    assert(b.after.reconnect_count() == b.after.model(b.left).reconnect_count);
    assert(c.left.state == c.after.model(c.left).state);
}

/// From the phase in which a lost connection is looked at, the answer that no shutdown was requested
/// leads to the wait and the end of the wait to the next connect, whatever else holds.
pub proof fn law_retry_does_not_depend_on_the_count(codec: VideoCodec, m: RunModel)
    requires
        m.phase == Phase::Polling,
    ensures
        next(codec, m, EventView::ShutdownPolled(false)).phase == Phase::Sleeping,
        next(
            codec,
            next(codec, m, EventView::ShutdownPolled(false)),
            EventView::Slept,
        ).phase == Phase::Connecting,
{
}

/// Each turn of a trace is a step that the machine takes, from where the one before it led.
proof fn lemma_turn(start: Run, turns: Seq<Turn>, k: int)
    requires
        is_trace(start, turns),
        0 <= k < turns.len(),
    ensures
        turns[k].before == if k == 0 {
            start
        } else {
            turns[k - 1].after
        },
        turns[k].before.takes(turns[k].event),
        is_step(
            turns[k].before,
            turns[k].seen,
            turns[k].event,
            turns[k].after,
            turns[k].left,
            turns[k].output,
        ),
    decreases turns.len(),
{
    if k < turns.len() - 1 {
        lemma_turn(start, turns.drop_last(), k);
    }
}

/// The profile of an H.264 source is what the scan finds in the first packet in which it finds one.
/// Other codecs have none, and reports that are no packets do not touch it.
pub proof fn law_profile_is_what_the_scan_finds(
    run: &mut Run,
    status: &mut SourceStatus,
    event: RunEvent,
    output: RunOutput,
    data: &[u8],
    found: Option<String>,
)
    requires
        call_ensures(Run::step, (run, status, event), output),
        event matches RunEvent::Packet(packet) ==> data@ == packet.data@,
        call_ensures(scan_sps_profile, (data,), found),
    ensures
        text_of(final(status).dynamic_profile) == if event is Packet && old(run).codec()
            == VideoCodec::H264 && old(status).dynamic_profile is None {
            text_of(found)
        } else {
            text_of(old(status).dynamic_profile)
        },
        final(run).codec() == old(run).codec(),
{
    assert(text_of(final(status).dynamic_profile) == final(run).model(*final(status)).profile);
}

} // verus!
