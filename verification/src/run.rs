//! The connect-read-reconnect loop of a source, as a machine.
//!
//! The task that owns the socket performs one action at a time and reports what it came to; each
//! report is an event, and the machine answers it with the next action, with the change of state to
//! publish if there is one, and with the RTP packets to send.
use vstd::prelude::*;

use crate::frame::{ReadError, RemoteEncodedPacket};
#[allow(unused_imports)]
use crate::frame::PacketView;
#[allow(unused_imports)]
use crate::h264_util::announced_profile;
use crate::h264_util::scan_sps_profile;
#[allow(unused_imports)]
use crate::rtp::{
    frame_payloads, is_outcome, is_packetizable, is_vp9_outcome, packet_count, payloads_made,
    rtp_clock, rtp_frames, rtp_sequence, rtp_settings, vp9_picture, RtpSettings,
};
use crate::rtp::{open_packetizer, packetizable, packetize, RtpPacket, RtpPacketizer, RTP_MTU};
#[allow(unused_imports)]
use crate::rtp_clock::{clock_add, delta_of, ticks_of};
use crate::rtp_clock::{rtp_delta, rtp_ticks};
use crate::source_config::VideoCodec;
#[allow(unused_imports)]
use crate::source_state::{change_between, change_of, ChangeView};
use crate::source_state::{emit_state_change, StateChangeEvent, StreamSourceState};
#[allow(unused_imports)]
use crate::text::text_of;

verus! {

/// How long the task waits before it connects again.
pub const RECONNECT_INTERVAL_MS: u64 = 1000;

/// Where the loop is: what the task is doing, or about to do.
#[derive(Clone, Copy, Debug, PartialEq, Eq, Structural)]
pub enum Phase {
    /// Not begun.
    Idle,
    /// Connecting to the socket.
    Connecting,
    /// Connected: reading packets, and watching for a request to shut down.
    Streaming,
    /// The connection is gone: looking whether a shutdown was requested.
    Polling,
    /// Waiting before the next attempt to connect.
    Sleeping,
    /// Over.
    Done,
}

/// What the task does next.
#[derive(Clone, Copy, Debug, PartialEq, Eq, Structural)]
pub enum RunAction {
    /// Connect to the socket.
    Connect,
    /// Read the next packet, or take a request to shut down, whichever comes first.
    Read,
    /// Look whether a shutdown was requested.
    PollShutdown,
    /// Wait so many milliseconds.
    Sleep(u64),
    /// End.
    Exit,
}

/// What the task reports.
#[derive(Debug)]
pub enum RunEvent {
    /// The task has begun.
    Begin,
    /// No connection could be made; the text says why.
    ConnectFailed(String),
    /// The connection stands.
    Connected,
    /// A packet has come.
    Packet(RemoteEncodedPacket),
    /// The encoder helper closed the connection.
    Closed,
    /// Reading failed.
    ReadFailed(ReadError),
    /// A shutdown was requested while packets were read.
    Shutdown,
    /// Whether a shutdown had been requested when the task looked.
    ShutdownPolled(bool),
    /// The wait is over.
    Slept,
}

/// The content of a `RunEvent`.
pub enum EventView {
    Begin,
    ConnectFailed(Seq<char>),
    Connected,
    Packet(PacketView),
    Closed,
    ReadFailed(ReadError),
    Shutdown,
    ShutdownPolled(bool),
    Slept,
}

impl View for RunEvent {
    type V = EventView;

    open spec fn view(&self) -> EventView {
        match *self {
            RunEvent::Begin => EventView::Begin,
            RunEvent::ConnectFailed(error) => EventView::ConnectFailed(error@),
            RunEvent::Connected => EventView::Connected,
            RunEvent::Packet(packet) => EventView::Packet(packet@),
            RunEvent::Closed => EventView::Closed,
            RunEvent::ReadFailed(error) => EventView::ReadFailed(error),
            RunEvent::Shutdown => EventView::Shutdown,
            RunEvent::ShutdownPolled(requested) => EventView::ShutdownPolled(requested),
            RunEvent::Slept => EventView::Slept,
        }
    }
}

/// What the task and the handle of a source share.
#[derive(Debug)]
pub struct SourceStatus {
    /// The state of the source.
    pub state: StreamSourceState,
    /// The profile-level-id that the bitstream has announced.
    pub dynamic_profile: Option<String>,
}

/// What decides how the loop goes on: the machine's own part and the part it shares.
pub struct RunModel {
    pub phase: Phase,
    /// How many attempts have failed since the last connection.
    pub reconnect_count: nat,
    /// When the last packet was due, in ticks of 90 kHz.
    pub last_ticks: Option<u64>,
    /// The state of the source.
    pub state: StreamSourceState,
    /// The profile-level-id that the bitstream has announced.
    pub profile: Option<Seq<char>>,
}

/// Whether an event can come in a phase.
pub open spec fn fits_phase(phase: Phase, event: EventView) -> bool {
    match event {
        EventView::Begin => phase == Phase::Idle,
        EventView::ConnectFailed(_) | EventView::Connected => phase == Phase::Connecting,
        EventView::Packet(_) | EventView::Closed | EventView::ReadFailed(_)
        | EventView::Shutdown => phase == Phase::Streaming,
        EventView::ShutdownPolled(_) => phase == Phase::Polling,
        EventView::Slept => phase == Phase::Sleeping,
    }
}

/// Whether an event ends or prevents a connection.
pub open spec fn loses_connection(event: EventView) -> bool {
    event is ConnectFailed || event is Closed || event is ReadFailed
}

/// The reason for a change of state that an event gives.
pub open spec fn reason_of(event: EventView) -> Option<Seq<char>> {
    match event {
        EventView::ConnectFailed(error) => Some("connect failed: "@ + error),
        EventView::Closed => Some("encoder helper closed the connection"@),
        EventView::ReadFailed(error) => Some(error.text()),
        _ => None,
    }
}

/// The profile that is known once a packet has been seen: the one known before it, else, for H.264,
/// the one it announces.
pub open spec fn profile_after(
    codec: VideoCodec,
    profile: Option<Seq<char>>,
    data: Seq<u8>,
) -> Option<Seq<char>> {
    if codec == VideoCodec::H264 && profile is None {
        announced_profile(data)
    } else {
        profile
    }
}

/// How an event moves the loop on.
pub open spec fn next(codec: VideoCodec, m: RunModel, event: EventView) -> RunModel {
    match event {
        EventView::Begin | EventView::Slept => RunModel {
            phase: Phase::Connecting,
            state: if m.reconnect_count > 0 {
                StreamSourceState::Reconnecting
            } else {
                StreamSourceState::Initializing
            },
            ..m
        },
        EventView::Connected => RunModel {
            phase: Phase::Streaming,
            state: StreamSourceState::Connected,
            reconnect_count: 0,
            ..m
        },
        EventView::ConnectFailed(_) | EventView::Closed | EventView::ReadFailed(_) => RunModel {
            phase: Phase::Polling,
            state: StreamSourceState::Disconnected,
            reconnect_count: m.reconnect_count + 1,
            ..m
        },
        EventView::Packet(packet) => RunModel {
            last_ticks: Some(ticks_of(packet.pts_us)),
            profile: profile_after(codec, m.profile, packet.data),
            ..m
        },
        EventView::Shutdown => RunModel { phase: Phase::Done, ..m },
        EventView::ShutdownPolled(requested) => if requested {
            RunModel { phase: Phase::Done, state: StreamSourceState::Disconnected, ..m }
        } else {
            RunModel { phase: Phase::Sleeping, ..m }
        },
    }
}

/// What the task does in a phase.
pub open spec fn action_in(phase: Phase) -> RunAction {
    match phase {
        Phase::Idle | Phase::Connecting => RunAction::Connect,
        Phase::Streaming => RunAction::Read,
        Phase::Polling => RunAction::PollShutdown,
        Phase::Sleeping => RunAction::Sleep(RECONNECT_INTERVAL_MS),
        Phase::Done => RunAction::Exit,
    }
}

/// What the machine answers.
#[derive(Debug)]
pub struct RunOutput {
    /// What the task does next.
    pub action: RunAction,
    /// The change of state to publish.
    pub change: Option<StateChangeEvent>,
    /// The packets to send; or why the frame could not be packetized, which ends nothing.
    pub packets: Result<Vec<RtpPacket>, String>,
}

/// The machine.
pub struct Run {
    codec: VideoCodec,
    packetizer: RtpPacketizer,
    phase: Phase,
    reconnect_count: u32,
    last_ticks: Option<u64>,
}

impl Run {
    /// The codec of the packets that come.
    pub closed spec fn codec(self) -> VideoCodec {
        self.codec
    }

    /// The packetizer, which one machine keeps over all its connections.
    pub closed spec fn packetizer(self) -> RtpPacketizer {
        self.packetizer
    }

    /// Where the loop is.
    pub closed spec fn phase(self) -> Phase {
        self.phase
    }

    /// How many attempts have failed since the last connection.
    pub closed spec fn reconnect_count(self) -> nat {
        self.reconnect_count as nat
    }

    /// When the last packet was due, in ticks of 90 kHz.
    pub closed spec fn last_ticks(self) -> Option<u64> {
        self.last_ticks
    }

    /// What decides how the loop goes on, together with `status`.
    pub open spec fn model(self, status: SourceStatus) -> RunModel {
        RunModel {
            phase: self.phase(),
            reconnect_count: self.reconnect_count(),
            last_ticks: self.last_ticks(),
            state: status.state,
            profile: text_of(status.dynamic_profile),
        }
    }

    /// The packetizer is one for the machine's codec and for packets of the fixed size.
    pub open spec fn wf(self) -> bool {
        &&& rtp_settings(self.packetizer()).codec == self.codec()
        &&& rtp_settings(self.packetizer()).mtu == RTP_MTU
    }

    /// Whether the machine can take an event: it fits the phase, the count of failed attempts does
    /// not run over, and a packet is one that the codec's payloader can be given.
    pub open spec fn takes(self, event: EventView) -> bool {
        &&& fits_phase(self.phase(), event)
        &&& loses_connection(event) ==> self.reconnect_count() < u32::MAX
        &&& event matches EventView::Packet(packet) ==> is_packetizable(self.codec(), packet.data)
    }

    /// A machine that has not begun.
    pub fn new(codec: VideoCodec, payload_type: u8, clock_rate: u32) -> (run: Self)
        ensures
            run.wf(),
            run.codec() == codec,
            run.phase() == Phase::Idle,
            run.reconnect_count() == 0,
            run.last_ticks() is None,
            rtp_settings(run.packetizer()) == (RtpSettings {
                codec,
                mtu: RTP_MTU,
                payload_type,
                ssrc: rtp_settings(run.packetizer()).ssrc,
                clock_rate,
            }),
            rtp_frames(run.packetizer()) == Seq::<Seq<u8>>::empty(),
            codec == VideoCodec::Vp9 ==> vp9_picture(run.packetizer()) is None,
    {
        Run {
            codec,
            packetizer: open_packetizer(codec, payload_type, clock_rate),
            phase: Phase::Idle,
            reconnect_count: 0,
            last_ticks: None,
        }
    }

    /// Whether the machine can take an event.
    pub fn can_take(&self, event: &RunEvent) -> (r: bool)
        ensures
            r == self.takes(event@),
    {
        match event {
            RunEvent::Begin => self.phase == Phase::Idle,
            RunEvent::ConnectFailed(_) => self.phase == Phase::Connecting && self.reconnect_count
                < u32::MAX,
            RunEvent::Connected => self.phase == Phase::Connecting,
            RunEvent::Packet(packet) => self.phase == Phase::Streaming && packetizable(
                self.codec,
                packet.data.as_slice(),
            ),
            RunEvent::Closed | RunEvent::ReadFailed(_) => self.phase == Phase::Streaming
                && self.reconnect_count < u32::MAX,
            RunEvent::Shutdown => self.phase == Phase::Streaming,
            RunEvent::ShutdownPolled(_) => self.phase == Phase::Polling,
            RunEvent::Slept => self.phase == Phase::Sleeping,
        }
    }

    /// What the task does next.
    fn action(&self) -> (action: RunAction)
        ensures
            action == action_in(self.phase()),
    {
        match self.phase {
            Phase::Idle | Phase::Connecting => RunAction::Connect,
            Phase::Streaming => RunAction::Read,
            Phase::Polling => RunAction::PollShutdown,
            Phase::Sleeping => RunAction::Sleep(RECONNECT_INTERVAL_MS),
            Phase::Done => RunAction::Exit,
        }
    }

    /// Takes a packet: notes its timestamp and, for H.264, the profile it announces if none is
    /// known yet, and packetizes its data.
    fn deliver(&mut self, status: &mut SourceStatus, packet: RemoteEncodedPacket) -> (r: Result<
        Vec<RtpPacket>,
        String,
    >)
        requires
            old(self).wf(),
            is_packetizable(old(self).codec(), packet.data@),
        ensures
            final(self).wf(),
            final(self).codec() == old(self).codec(),
            final(self).model(*final(status)) == (RunModel {
                last_ticks: Some(ticks_of(packet.pts_us)),
                profile: profile_after(
                    old(self).codec(),
                    text_of(old(status).dynamic_profile),
                    packet.data@,
                ),
                ..old(self).model(*old(status))
            }),
            is_delivery(
                r,
                old(self).packetizer(),
                final(self).packetizer(),
                packet.data@,
                delta_of(
                    old(self).last_ticks(),
                    ticks_of(packet.pts_us),
                ),
            ),
    {
        let ticks: u64 = rtp_ticks(packet.pts_us);
        let delta: u32 = rtp_delta(self.last_ticks, ticks);
        self.last_ticks = Some(ticks);
        if self.codec == VideoCodec::H264 && status.dynamic_profile.is_none() {
            status.dynamic_profile = scan_sps_profile(packet.data.as_slice());
        }
        packetize(&mut self.packetizer, packet.data.as_slice(), delta)
    }

    /// Moves the loop on.
    pub fn step(&mut self, status: &mut SourceStatus, event: RunEvent) -> (output: RunOutput)
        requires
            old(self).wf(),
            old(self).takes(event@),
        ensures
            is_step(*old(self), *old(status), event@, *final(self), *final(status), output),
    {
        let mut packets: Result<Vec<RtpPacket>, String> = Ok(Vec::new());
        let mut change: Option<StateChangeEvent> = None;
        match event {
            RunEvent::Begin | RunEvent::Slept => {
                let state: StreamSourceState = if self.reconnect_count > 0 {
                    StreamSourceState::Reconnecting
                } else {
                    StreamSourceState::Initializing
                };
                change = emit_state_change(&mut status.state, state, None);
                self.phase = Phase::Connecting;
            },
            RunEvent::ConnectFailed(error) => {
                let mut reason: String = "connect failed: ".to_owned();
                reason.append(error.as_str());
                change = emit_state_change(
                    &mut status.state,
                    StreamSourceState::Disconnected,
                    Some(reason),
                );
                self.reconnect_count = self.reconnect_count + 1;
                self.phase = Phase::Polling;
            },
            RunEvent::Connected => {
                change = emit_state_change(&mut status.state, StreamSourceState::Connected, None);
                self.reconnect_count = 0;
                self.phase = Phase::Streaming;
            },
            RunEvent::Packet(packet) => {
                packets = self.deliver(status, packet);
            },
            RunEvent::Closed => {
                change = emit_state_change(
                    &mut status.state,
                    StreamSourceState::Disconnected,
                    Some("encoder helper closed the connection".to_owned()),
                );
                self.reconnect_count = self.reconnect_count + 1;
                self.phase = Phase::Polling;
            },
            RunEvent::ReadFailed(error) => {
                change = emit_state_change(
                    &mut status.state,
                    StreamSourceState::Disconnected,
                    Some(error.message()),
                );
                self.reconnect_count = self.reconnect_count + 1;
                self.phase = Phase::Polling;
            },
            RunEvent::Shutdown => {
                self.phase = Phase::Done;
            },
            RunEvent::ShutdownPolled(requested) => {
                if requested {
                    change = emit_state_change(
                        &mut status.state,
                        StreamSourceState::Disconnected,
                        None,
                    );
                    self.phase = Phase::Done;
                } else {
                    self.phase = Phase::Sleeping;
                }
            },
        }
        RunOutput { action: self.action(), change, packets }
    }
}

/// Whether `r` is what becomes of the frame `data`, given to `before` with the RTP clock to advance
/// by `delta`, and `after` is the packetizer that it leaves.
pub open spec fn is_delivery(
    r: Result<Vec<RtpPacket>, String>,
    before: RtpPacketizer,
    after: RtpPacketizer,
    data: Seq<u8>,
    delta: u32,
) -> bool {
    &&& rtp_settings(after) == rtp_settings(before)
    &&& rtp_frames(after) == rtp_frames(before).push(data)
    &&& rtp_clock(after) == if r is Ok {
        clock_add(rtp_clock(before), delta)
    } else {
        rtp_clock(before)
    }
    &&& rtp_sequence(after) == (rtp_sequence(before) + packet_count(r)) % 0x1_0000
    &&& is_outcome(
        r,
        rtp_settings(before),
        rtp_clock(before),
        rtp_sequence(before),
        data,
        frame_payloads(
            rtp_settings(before).codec,
            rtp_settings(before).mtu,
            rtp_frames(before).push(data),
        ),
    )
    &&& rtp_settings(before).codec == VideoCodec::Vp9 && rtp_settings(before).mtu >= 16
        ==> is_vp9_outcome(
        payloads_made(r),
        data,
        rtp_settings(before).mtu,
        vp9_picture(before),
        vp9_picture(after),
    )
}

/// Whether the machine `before`, with the status `seen`, goes to `after` and leaves the status
/// `left` when `event` comes, and answers `output`.
pub open spec fn is_step(
    before: Run,
    seen: SourceStatus,
    event: EventView,
    after: Run,
    left: SourceStatus,
    output: RunOutput,
) -> bool {
    &&& after.wf()
    &&& after.codec() == before.codec()
    &&& after.model(left) == next(before.codec(), before.model(seen), event)
    &&& output.action == action_in(after.phase())
    &&& change_of(output.change) == change_between(seen.state, left.state, reason_of(event))
    &&& match event {
        EventView::Packet(packet) => is_delivery(
            output.packets,
            before.packetizer(),
            after.packetizer(),
            packet.data,
            delta_of(before.last_ticks(), ticks_of(packet.pts_us)),
        ),
        _ => output.packets is Ok && packet_count(output.packets) == 0 && after.packetizer()
            == before.packetizer(),
    }
}

} // verus!
