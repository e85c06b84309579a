//! What holds of the connect-read-reconnect loop over any run of events.
use vstd::prelude::*;

#[allow(unused_imports)]
use crate::h264_util::announced_profile;
#[allow(unused_imports)]
use crate::frame::PacketView;
#[allow(unused_imports)]
use crate::rtp::{
    is_labelled, is_vp9_frame, payloads_made, rtp_clock, rtp_sequence, rtp_settings, vp9_picture,
    RtpPacket, RtpPacketizer,
};
#[allow(unused_imports)]
use crate::rtp_clock::{
    clock_add, clock_after, delta_of, last_of, law_clock_starts_at_first_frame,
    lemma_clock_add_more, lemma_clock_after_push, rising, ticks_of, wrapped,
};
#[allow(unused_imports)]
use crate::run::{
    fits_phase, is_delivery, is_step, next, reason_of, EventView, Phase, Run, RunModel, RunOutput,
    SourceStatus,
};
#[allow(unused_imports)]
use crate::source_config::VideoCodec;
#[allow(unused_imports)]
use crate::source_state::{change_between, change_of, ChangeView, StreamSourceState};

verus! {

/// Whether a loop has not begun. The source it is on may have just been made, or been stopped and
/// started again.
pub open spec fn is_fresh(m: RunModel) -> bool {
    m.phase == Phase::Idle && m.reconnect_count == 0
}

/// Where a run of events leads.
pub open spec fn after(codec: VideoCodec, m: RunModel, events: Seq<EventView>) -> RunModel
    decreases events.len(),
{
    if events.len() == 0 {
        m
    } else {
        next(codec, after(codec, m, events.drop_last()), events.last())
    }
}

/// Whether each of a run of events fits the phase it comes in.
pub open spec fn is_run(codec: VideoCodec, m: RunModel, events: Seq<EventView>) -> bool
    decreases events.len(),
{
    events.len() == 0 || (is_run(codec, m, events.drop_last()) && fits_phase(
        after(codec, m, events.drop_last()).phase,
        events.last(),
    ))
}

/// The changes of state that a run of events publishes.
pub open spec fn changes(codec: VideoCodec, m: RunModel, events: Seq<EventView>) -> Seq<ChangeView>
    decreases events.len(),
{
    if events.len() == 0 {
        Seq::empty()
    } else {
        let before = after(codec, m, events.drop_last());
        match change_between(
            before.state,
            next(codec, before, events.last()).state,
            reason_of(events.last()),
        ) {
            Some(change) => changes(codec, m, events.drop_last()).push(change),
            None => changes(codec, m, events.drop_last()),
        }
    }
}

/// When the last packet of a run of events was due, in ticks, or `last` if it has none.
pub open spec fn last_timestamp(last: Option<u64>, events: Seq<EventView>) -> Option<u64>
    decreases events.len(),
{
    if events.len() == 0 {
        last
    } else {
        match events.last() {
            EventView::Packet(packet) => Some(ticks_of(packet.pts_us)),
            _ => last_timestamp(last, events.drop_last()),
        }
    }
}

/// The profile that the first packet of a run of events to announce one announces.
pub open spec fn first_announced(events: Seq<EventView>) -> Option<Seq<char>>
    decreases events.len(),
{
    if events.len() == 0 {
        None
    } else if first_announced(events.drop_last()) is Some {
        first_announced(events.drop_last())
    } else {
        match events.last() {
            EventView::Packet(packet) => announced_profile(packet.data),
            _ => None,
        }
    }
}

/// Who follows the published changes knows the state: the first change starts from the state that
/// the source was in, each next one where the one before it ended, the last one ends in the state
/// that the source is in, and none of them is from a state to itself.
pub proof fn law_changes_tell_the_state(codec: VideoCodec, m: RunModel, events: Seq<EventView>)
    ensures
        ({
            let c = changes(codec, m, events);
            &&& forall|i: int|
                0 <= i < c.len() ==> (#[trigger] c[i]).old_state != c[i].new_state
            &&& forall|i: int, j: int|
                #![trigger c[i], c[j]]
                0 <= i && j == i + 1 && j < c.len() ==> c[i].new_state == c[j].old_state
            &&& c.len() == 0 ==> after(codec, m, events).state == m.state
            &&& c.len() > 0 ==> c[0].old_state == m.state && c.last().new_state == after(
                codec,
                m,
                events,
            ).state
        }),
    decreases events.len(),
{
    if events.len() > 0 {
        law_changes_tell_the_state(codec, m, events.drop_last());
    }
}

/// The state of the source tells where its loop is: connecting, it is initializing or
/// reconnecting; streaming, it is connected; and between two connections it is disconnected, and
/// knows that an attempt has failed.
pub proof fn law_state_tells_the_phase(codec: VideoCodec, start: RunModel, events: Seq<EventView>)
    requires
        is_fresh(start),
        is_run(codec, start, events),
    ensures
        ({
            let m = after(codec, start, events);
            match m.phase {
                Phase::Idle => m == start,
                Phase::Connecting => m.state == if m.reconnect_count > 0 {
                    StreamSourceState::Reconnecting
                } else {
                    StreamSourceState::Initializing
                },
                Phase::Streaming => m.state == StreamSourceState::Connected && m.reconnect_count
                    == 0,
                Phase::Polling | Phase::Sleeping => m.state == StreamSourceState::Disconnected
                    && m.reconnect_count > 0,
                Phase::Done => m.state == StreamSourceState::Connected || m.state
                    == StreamSourceState::Disconnected,
            }
        }),
    decreases events.len(),
{
    if events.len() > 0 {
        law_state_tells_the_phase(codec, start, events.drop_last());
    }
}

/// After a wait the source always announces that it is reconnecting, though a connection in
/// between sets the count of failed attempts back.
pub proof fn law_retry_is_announced(codec: VideoCodec, start: RunModel, events: Seq<EventView>)
    requires
        is_fresh(start),
        is_run(codec, start, events),
        events.len() > 0,
        events.last() is Slept,
    ensures
        after(codec, start, events).state == StreamSourceState::Reconnecting,
        changes(codec, start, events).len() > 0,
        changes(codec, start, events).last() == (ChangeView {
            old_state: StreamSourceState::Disconnected,
            new_state: StreamSourceState::Reconnecting,
            error: None,
        }),
{
    law_state_tells_the_phase(codec, start, events.drop_last());
}

/// The RTP clock runs through over lost connections: the time that the next delta is taken from is
/// that of the last packet, however many connections ago it came.
pub proof fn law_timestamps_survive_reconnects(
    codec: VideoCodec,
    m: RunModel,
    events: Seq<EventView>,
)
    ensures
        after(codec, m, events).last_ticks == last_timestamp(m.last_ticks, events),
    decreases events.len(),
{
    if events.len() > 0 {
        law_timestamps_survive_reconnects(codec, m, events.drop_last());
    }
}

/// A profile that is known is kept; else the first that an H.264 bitstream announces is taken, over
/// lost connections too. Other codecs have none.
pub proof fn law_first_profile_is_kept(codec: VideoCodec, m: RunModel, events: Seq<EventView>)
    ensures
        after(codec, m, events).profile == if m.profile is Some || codec != VideoCodec::H264 {
            m.profile
        } else {
            first_announced(events)
        },
    decreases events.len(),
{
    if events.len() > 0 {
        law_first_profile_is_kept(codec, m, events.drop_last());
    }
}

/// A loop that was told to shut down is over: no event fits any more, and it has published nothing
/// when it left off streaming.
pub proof fn law_shutdown_ends_the_loop(codec: VideoCodec, m: RunModel, event: EventView)
    requires
        fits_phase(m.phase, event),
        event is Shutdown || event == EventView::ShutdownPolled(true),
    ensures
        forall|later: EventView| !fits_phase(next(codec, m, event).phase, later),
        event is Shutdown ==> next(codec, m, event).state == m.state,
        event is ShutdownPolled ==> next(codec, m, event).state == StreamSourceState::Disconnected,
{
}

/// Nothing but a shutdown ends the loop.
pub proof fn law_only_shutdown_ends_the_loop(codec: VideoCodec, m: RunModel, event: EventView)
    requires
        fits_phase(m.phase, event),
        !(event is Shutdown),
        event != EventView::ShutdownPolled(true),
    ensures
        next(codec, m, event).phase != Phase::Done,
{
}

/// When packets that come one after the other are due, in ticks.
pub open spec fn times_of(packets: Seq<PacketView>) -> Seq<u64> {
    packets.map_values(|p: PacketView| ticks_of(p.pts_us))
}

/// Whether `outcomes` are what becomes of `packets`, delivered one after the other from the first
/// packet of a machine on, where `stages` are the packetizer before, between and after them.
pub open spec fn is_stream(
    stages: Seq<RtpPacketizer>,
    packets: Seq<PacketView>,
    outcomes: Seq<Result<Vec<RtpPacket>, String>>,
) -> bool {
    &&& stages.len() == packets.len() + 1
    &&& outcomes.len() == packets.len()
    &&& forall|k: int|
        #![trigger outcomes[k]]
        0 <= k < packets.len() ==> is_delivery(
            outcomes[k],
            stages[k],
            stages[k + 1],
            packets[k].data,
            delta_of(last_of(None, times_of(packets.take(k))), ticks_of(packets[k].pts_us)),
        )
}

/// The clock of the packetizer is the one that the deltas of the packets so far lead to.
proof fn lemma_stream_clock(
    stages: Seq<RtpPacketizer>,
    packets: Seq<PacketView>,
    outcomes: Seq<Result<Vec<RtpPacket>, String>>,
    k: int,
)
    requires
        is_stream(stages, packets, outcomes),
        forall|i: int| 0 <= i < packets.len() ==> (#[trigger] outcomes[i]) is Ok,
        0 <= k <= packets.len(),
    ensures
        rtp_clock(stages[k]) == clock_after(
            rtp_clock(stages[0]),
            None,
            times_of(packets.take(k)),
        ),
        rtp_settings(stages[k]) == rtp_settings(stages[0]),
    decreases k,
{
    if k > 0 {
        lemma_stream_clock(stages, packets, outcomes, k - 1);
        let before = times_of(packets.take(k - 1));
        let ticks = ticks_of(packets[k - 1].pts_us);
        assert(times_of(packets.take(k)) =~= before.push(ticks));
        lemma_clock_after_push(rtp_clock(stages[0]), None, before, ticks);
        assert(outcomes[k - 1] is Ok);
    }
}

/// By how many ticks the first `k` of `packets` move the RTP clock: each one that is accepted by
/// its own delta, one that is refused not at all.
pub open spec fn ticks_accepted(
    packets: Seq<PacketView>,
    outcomes: Seq<Result<Vec<RtpPacket>, String>>,
    k: int,
) -> int
    decreases k,
{
    if k <= 0 {
        0
    } else {
        ticks_accepted(packets, outcomes, k - 1) + if outcomes[k - 1] is Ok {
            delta_of(
                last_of(None, times_of(packets.take(k - 1))),
                ticks_of(packets[k - 1].pts_us),
            ) as int
        } else {
            0
        }
    }
}

/// The RTP clock counts the accepted frames: before each frame it shows what it showed at first,
/// advanced by the deltas of the accepted frames before it, and that is what the packets of the
/// frame carry. It holds with frames that are refused, and whatever the presentation timestamps
/// are.
pub proof fn law_rtp_timestamps_count_accepted_frames(
    stages: Seq<RtpPacketizer>,
    packets: Seq<PacketView>,
    outcomes: Seq<Result<Vec<RtpPacket>, String>>,
    k: int,
)
    requires
        is_stream(stages, packets, outcomes),
        0 <= k <= packets.len(),
    ensures
        rtp_settings(stages[k]) == rtp_settings(stages[0]),
        rtp_clock(stages[k]) == clock_add(
            rtp_clock(stages[0]),
            wrapped(ticks_accepted(packets, outcomes, k)),
        ),
        k < packets.len() ==> (outcomes[k] matches Ok(sent) ==> forall|i: int|
            0 <= i < sent@.len() ==> (#[trigger] sent@[i]).timestamp == rtp_clock(stages[k])),
{
    lemma_accepted_clock(stages, packets, outcomes, k);
    if k < packets.len() && outcomes[k] is Ok {
        let sent = outcomes[k]->Ok_0@;
        assert forall|i: int| 0 <= i < sent.len() implies (#[trigger] sent[i]).timestamp
            == rtp_clock(stages[k]) by {
            assert(is_labelled(
                sent[i],
                rtp_settings(stages[k]),
                rtp_clock(stages[k]),
                rtp_sequence(stages[k]),
                i,
                sent.len(),
            ));
        }
    }
}

/// The clock shows the ticks of the accepted frames.
proof fn lemma_accepted_clock(
    stages: Seq<RtpPacketizer>,
    packets: Seq<PacketView>,
    outcomes: Seq<Result<Vec<RtpPacket>, String>>,
    k: int,
)
    requires
        is_stream(stages, packets, outcomes),
        0 <= k <= packets.len(),
    ensures
        rtp_settings(stages[k]) == rtp_settings(stages[0]),
        rtp_clock(stages[k]) == clock_add(
            rtp_clock(stages[0]),
            wrapped(ticks_accepted(packets, outcomes, k)),
        ),
    decreases k,
{
    let first = rtp_clock(stages[0]);
    if k == 0 {
        assert(clock_add(first, wrapped(0)) == first);
    } else {
        lemma_accepted_clock(stages, packets, outcomes, k - 1);
        lemma_ticks_accepted(packets, outcomes, k - 1);
        let delta = delta_of(
            last_of(None, times_of(packets.take(k - 1))),
            ticks_of(packets[k - 1].pts_us),
        );
        let before = ticks_accepted(packets, outcomes, k - 1);
        assert(is_delivery(
            outcomes[k - 1],
            stages[k - 1],
            stages[k - 1 + 1],
            packets[k - 1].data,
            delta,
        ));
        lemma_clock_add_more(first, before, delta);
    }
}

/// The clock is never moved back.
proof fn lemma_ticks_accepted(
    packets: Seq<PacketView>,
    outcomes: Seq<Result<Vec<RtpPacket>, String>>,
    k: int,
)
    ensures
        ticks_accepted(packets, outcomes, k) >= 0,
    decreases k,
{
    if k > 0 {
        lemma_ticks_accepted(packets, outcomes, k - 1);
    }
}

/// While presentation timestamps rise and every frame is accepted, the RTP timestamps go on by the
/// same time, over the wrap of their 32 bits too, and one frame late. The packets of the first
/// frame carry what the clock showed at first. Those of each later frame carry that, advanced by
/// the time between the first frame and the one before it.
pub proof fn law_rtp_timestamps_follow_presentation(
    stages: Seq<RtpPacketizer>,
    packets: Seq<PacketView>,
    outcomes: Seq<Result<Vec<RtpPacket>, String>>,
    k: int,
    i: int,
)
    requires
        is_stream(stages, packets, outcomes),
        forall|j: int| 0 <= j < packets.len() ==> (#[trigger] outcomes[j]) is Ok,
        rising(times_of(packets)),
        0 <= k < packets.len(),
        0 <= i < outcomes[k]->Ok_0@.len(),
    ensures
        outcomes[k]->Ok_0@[i].timestamp == if k == 0 {
            rtp_clock(stages[0])
        } else {
            clock_add(
                rtp_clock(stages[0]),
                wrapped(ticks_of(packets[k - 1].pts_us) - ticks_of(packets[0].pts_us)),
            )
        },
{
    lemma_stream_clock(stages, packets, outcomes, k);
    assert(outcomes[k] is Ok);
    let sent = outcomes[k]->Ok_0@;
    assert(is_labelled(
        sent[i],
        rtp_settings(stages[k]),
        rtp_clock(stages[k]),
        rtp_sequence(stages[k]),
        i,
        sent.len(),
    ));
    if k > 0 {
        let times = times_of(packets.take(k));
        assert forall|a: int, b: int| 0 <= a < b < times.len() implies times[a] < times[b] by {
            assert(times[a] == times_of(packets)[a] && times[b] == times_of(packets)[b]);
        }
        law_clock_starts_at_first_frame(rtp_clock(stages[0]), times);
        assert(times.last() == ticks_of(packets[k - 1].pts_us));
        assert(times[0] == ticks_of(packets[0].pts_us));
    }
}

/// The packets of a stream are numbered without a gap: those of a frame one by one, and those of
/// the next frame from where they ended.
pub proof fn law_sequence_numbers_have_no_gap(
    stages: Seq<RtpPacketizer>,
    packets: Seq<PacketView>,
    outcomes: Seq<Result<Vec<RtpPacket>, String>>,
    k: int,
)
    requires
        is_stream(stages, packets, outcomes),
        0 <= k < packets.len(),
    ensures
        match outcomes[k] {
            Ok(sent) => {
                &&& forall|i: int|
                    0 <= i < sent@.len() ==> (#[trigger] sent@[i]).sequence_number == (rtp_sequence(
                        stages[k],
                    ) + i) % 0x1_0000
                &&& rtp_sequence(stages[k + 1]) == (rtp_sequence(stages[k]) + sent@.len())
                    % 0x1_0000
            },
            Err(_) => rtp_sequence(stages[k + 1]) == rtp_sequence(stages[k]),
        },
{
    match outcomes[k] {
        Ok(sent) => {
            assert forall|i: int| 0 <= i < sent@.len() implies (
            #[trigger] sent@[i]).sequence_number == (rtp_sequence(stages[k]) + i) % 0x1_0000 by {
                assert(is_labelled(
                    sent@[i],
                    rtp_settings(stages[k]),
                    rtp_clock(stages[k]),
                    rtp_sequence(stages[k]),
                    i,
                    sent@.len(),
                ));
            }
        },
        Err(_) => {},
    }
}

/// The VP9 frames of a stream are numbered one after the other, in fifteen bits.
pub proof fn law_picture_numbers_count_up(
    stages: Seq<RtpPacketizer>,
    packets: Seq<PacketView>,
    outcomes: Seq<Result<Vec<RtpPacket>, String>>,
    k: int,
)
    requires
        is_stream(stages, packets, outcomes),
        0 <= k < packets.len() - 1,
        rtp_settings(stages[k]).codec == VideoCodec::Vp9,
        rtp_settings(stages[k]).mtu >= 16,
        packets[k].data.len() > 0,
        packets[k + 1].data.len() > 0,
    ensures
        exists|picture: u16|
            {
                &&& #[trigger] is_vp9_frame(
                    payloads_made(outcomes[k]),
                    picture,
                    rtp_settings(stages[k]).mtu,
                )
                &&& is_vp9_frame(
                    payloads_made(outcomes[k + 1]),
                    ((picture + 1) % 0x8000) as u16,
                    rtp_settings(stages[k]).mtu,
                )
            },
{
    let mtu = rtp_settings(stages[k]).mtu;
    let first = payloads_made(outcomes[k]);
    let second = payloads_made(outcomes[k + 1]);
    let after = vp9_picture(stages[k + 1]);
    let picture = choose|picture: u16|
        #[trigger] is_vp9_frame(first, picture, mtu) && after == Some(
            ((picture + 1) % 0x8000) as u16,
        );
    assert(is_vp9_frame(first, picture, mtu));
    assert(is_vp9_frame(second, ((picture + 1) % 0x8000) as u16, mtu));
}

/// One step of a machine: what it was, the status it saw, the event that came, what it became, the
/// status it left and what it answered.
pub struct Turn {
    pub before: Run,
    pub seen: SourceStatus,
    pub event: EventView,
    pub after: Run,
    pub left: SourceStatus,
    pub output: RunOutput,
}

/// Whether `turns` are steps that one machine makes, one after the other, from `start` on. Between
/// two of them the handle may have changed the status.
pub open spec fn is_trace(start: Run, turns: Seq<Turn>) -> bool
    decreases turns.len(),
{
    turns.len() == 0 || {
        let turn = turns.last();
        &&& is_trace(start, turns.drop_last())
        &&& turn.before == machine_after(start, turns.drop_last())
        &&& turn.before.takes(turn.event)
        &&& is_step(turn.before, turn.seen, turn.event, turn.after, turn.left, turn.output)
    }
}

/// The machine that `turns` lead to.
pub open spec fn machine_after(start: Run, turns: Seq<Turn>) -> Run {
    if turns.len() == 0 {
        start
    } else {
        turns.last().after
    }
}

/// The packets that come in `turns`.
pub open spec fn packets_in(turns: Seq<Turn>) -> Seq<PacketView>
    decreases turns.len(),
{
    if turns.len() == 0 {
        Seq::empty()
    } else {
        match turns.last().event {
            EventView::Packet(packet) => packets_in(turns.drop_last()).push(packet),
            _ => packets_in(turns.drop_last()),
        }
    }
}

/// What becomes of the packets that come in `turns`.
pub open spec fn outcomes_in(turns: Seq<Turn>) -> Seq<Result<Vec<RtpPacket>, String>>
    decreases turns.len(),
{
    if turns.len() == 0 {
        Seq::empty()
    } else if turns.last().event is Packet {
        outcomes_in(turns.drop_last()).push(turns.last().output.packets)
    } else {
        outcomes_in(turns.drop_last())
    }
}

/// The packetizer before, between and after the packets that come in `turns`.
pub open spec fn stages_in(start: Run, turns: Seq<Turn>) -> Seq<RtpPacketizer>
    decreases turns.len(),
{
    if turns.len() == 0 {
        seq![start.packetizer()]
    } else if turns.last().event is Packet {
        stages_in(start, turns.drop_last()).push(turns.last().after.packetizer())
    } else {
        stages_in(start, turns.drop_last())
    }
}

/// Whatever steps a machine makes that has had no packet yet, the packets that come in them are one
/// stream: lost connections and all else in between leave no mark on what becomes of them.
pub proof fn law_packets_of_a_run_are_a_stream(start: Run, turns: Seq<Turn>)
    requires
        start.last_ticks() is None,
        is_trace(start, turns),
    ensures
        is_stream(stages_in(start, turns), packets_in(turns), outcomes_in(turns)),
        stages_in(start, turns)[0] == start.packetizer(),
        stages_in(start, turns).last() == machine_after(start, turns).packetizer(),
        machine_after(start, turns).last_ticks() == last_of(None, times_of(packets_in(turns))),
    decreases turns.len(),
{
    if turns.len() > 0 {
        let turn = turns.last();
        let earlier = turns.drop_last();
        law_packets_of_a_run_are_a_stream(start, earlier);
        let packets = packets_in(earlier);
        let outcomes = outcomes_in(earlier);
        let stages = stages_in(start, earlier);
        assert(turn.after.last_ticks() == turn.after.model(turn.left).last_ticks);
        assert(turn.before.last_ticks() == turn.before.model(turn.seen).last_ticks);
        match turn.event {
            EventView::Packet(packet) => {
                let longer = packets.push(packet);
                assert(times_of(longer).last() == ticks_of(packet.pts_us));
                assert forall|k: int|
                    #![trigger outcomes_in(turns)[k]]
                    0 <= k < longer.len() implies is_delivery(
                    outcomes_in(turns)[k],
                    stages_in(start, turns)[k],
                    stages_in(start, turns)[k + 1],
                    longer[k].data,
                    delta_of(last_of(None, times_of(longer.take(k))), ticks_of(longer[k].pts_us)),
                ) by {
                    if k < packets.len() {
                        assert(longer.take(k) =~= packets.take(k));
                        assert(outcomes_in(turns)[k] == outcomes[k]);
                    } else {
                        assert(longer.take(k) =~= packets);
                    }
                }
            },
            _ => {},
        }
    }
}

/// The events that come in `turns`.
pub open spec fn events_in(turns: Seq<Turn>) -> Seq<EventView> {
    turns.map_values(|turn: Turn| turn.event)
}

/// The changes of state that `turns` publish.
pub open spec fn changes_in(turns: Seq<Turn>) -> Seq<ChangeView>
    decreases turns.len(),
{
    if turns.len() == 0 {
        Seq::empty()
    } else {
        match change_of(turns.last().output.change) {
            Some(change) => changes_in(turns.drop_last()).push(change),
            None => changes_in(turns.drop_last()),
        }
    }
}

/// The status that `turns` lead to.
pub open spec fn status_after(status: SourceStatus, turns: Seq<Turn>) -> SourceStatus {
    if turns.len() == 0 {
        status
    } else {
        turns.last().left
    }
}

/// Whether nothing but the machine itself changes the status, from `status` on.
pub open spec fn is_undisturbed(status: SourceStatus, turns: Seq<Turn>) -> bool {
    forall|k: int|
        #![trigger turns[k]]
        0 <= k < turns.len() ==> turns[k].seen == status_after(status, turns.take(k))
}

/// While the handle leaves the status alone, the steps of a machine are a run of their events,
/// which leads where the events lead and publishes what they publish.
pub proof fn law_steps_follow_the_model(start: Run, status: SourceStatus, turns: Seq<Turn>)
    requires
        is_trace(start, turns),
        is_undisturbed(status, turns),
    ensures
        is_run(start.codec(), start.model(status), events_in(turns)),
        machine_after(start, turns).codec() == start.codec(),
        machine_after(start, turns).model(status_after(status, turns)) == after(
            start.codec(),
            start.model(status),
            events_in(turns),
        ),
        changes_in(turns) == changes(start.codec(), start.model(status), events_in(turns)),
    decreases turns.len(),
{
    if turns.len() > 0 {
        let earlier = turns.drop_last();
        assert forall|k: int| #![trigger earlier[k]] 0 <= k < earlier.len() implies earlier[k].seen
            == status_after(status, earlier.take(k)) by {
            assert(earlier[k] == turns[k]);
            assert(earlier.take(k) =~= turns.take(k));
        }
        law_steps_follow_the_model(start, status, earlier);
        assert(events_in(turns).drop_last() =~= events_in(earlier));
        assert(events_in(turns).last() == turns.last().event);
        assert(turns.take(turns.len() - 1) =~= earlier);
        assert(turns[turns.len() - 1].seen == status_after(status, earlier));
    }
}

} // verus!
