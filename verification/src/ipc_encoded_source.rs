//! A source that consumes an already-encoded bitstream, produced by an external helper process (for
//! example a hardware encoder), over a local Unix domain socket, and turns it into RTP packets.
//!
//! The source is the client: it connects to the configured socket and connects again if the helper
//! is not yet listening or the connection drops. `IpcEncodedSource` is the handle; the loop that
//! reads the socket is the machine of the `run` module, which the handle makes when it is started.
use vstd::prelude::*;

#[allow(unused_imports)]
use crate::rtp::{rtp_frames, rtp_settings, vp9_picture, RtpSettings, RTP_MTU};
use crate::run::{Run, RunEvent, RunOutput, SourceStatus};
#[allow(unused_imports)]
use crate::run::{is_step, EventView, Phase};
use crate::source_config::{video_codec_from_str, ConfigError, IpcSourceSpec, VideoCodec};
#[allow(unused_imports)]
use crate::source_config::codec_named;
use crate::source_state::{emit_state_change, StateChangeEvent, StreamSourceState};
#[allow(unused_imports)]
use crate::source_state::{change_between, change_of};

verus! {

/// How long the handle waits for the task to end when it is stopped.
pub const STOP_TIMEOUT_SECS: u64 = 5;

/// The source has been started and not been stopped since.
#[derive(Clone, Copy, Debug, PartialEq, Eq, Structural)]
pub struct AlreadyStarted;

impl AlreadyStarted {
    /// What the error is reported as.
    pub fn message(&self) -> (message: String)
        ensures
            message@ == "Already started"@,
    {
        "Already started".to_owned()
    }
}

/// One RTCP feedback mechanism.
#[derive(Debug)]
pub struct RtcpFeedback {
    pub typ: String,
    pub parameter: String,
}

/// What a session description says of the codec.
#[derive(Debug)]
pub struct CodecParameters {
    pub mime_type: String,
    pub clock_rate: u32,
    pub channels: u16,
    pub sdp_fmtp_line: String,
    pub rtcp_feedback: Vec<RtcpFeedback>,
    pub payload_type: u8,
}

/// A letter in upper case, if it is one of `a` to `z`.
pub open spec fn ascii_upper(c: char) -> char {
    if 'a' <= c <= 'z' {
        (c as int - 32) as char
    } else {
        c
    }
}

/// The MIME type of a codec: its name in upper case.
pub open spec fn mime_type_of(name: Seq<char>) -> Seq<char> {
    "video/"@ + name.map_values(|c: char| ascii_upper(c))
}

/// The format parameters of a codec. Those of H.264 hold the profile-level-id.
pub open spec fn fmtp_line_of(codec: VideoCodec, profile: Seq<char>) -> Seq<char> {
    match codec {
        VideoCodec::H264 => "level-asymmetry-allowed=1;packetization-mode=1;profile-level-id="@
            + profile,
        VideoCodec::H265 => "profile-id=1;tier-flag=0;level-id=93"@,
        _ => Seq::empty(),
    }
}

/// Whether `f` is the feedback mechanism `typ` with the parameter `parameter`.
pub open spec fn is_feedback(f: RtcpFeedback, typ: Seq<char>, parameter: Seq<char>) -> bool {
    f.typ@ == typ && f.parameter@ == parameter
}

/// The handle of a source.
pub struct IpcEncodedSource {
    spec: IpcSourceSpec,
    codec: VideoCodec,
    status: SourceStatus,
    started: bool,
}

impl IpcEncodedSource {
    /// What the source is configured with.
    pub closed spec fn config(self) -> IpcSourceSpec {
        self.spec
    }

    /// The codec of the packets that come.
    pub closed spec fn codec(self) -> VideoCodec {
        self.codec
    }

    /// What the handle shares with the task.
    pub closed spec fn status(self) -> SourceStatus {
        self.status
    }

    /// Whether the source has been started and not been stopped since.
    pub closed spec fn started(self) -> bool {
        self.started
    }

    /// The configuration is valid, and the codec is the one it names.
    pub open spec fn wf(self) -> bool {
        &&& self.config().is_valid()
        &&& codec_named(self.config().codec@) == Some(self.codec())
    }

    /// A source that has not been started.
    pub fn new(spec: IpcSourceSpec) -> (r: Result<Self, ConfigError>)
        ensures
            match r {
                Ok(source) => {
                    &&& spec.is_valid()
                    &&& source.wf()
                    &&& source.config() == spec
                    &&& source.status().state == StreamSourceState::Initializing
                    &&& source.status().dynamic_profile is None
                    &&& !source.started()
                },
                Err(e) => e == if spec.socket_path@.len() == 0 {
                    ConfigError::EmptySocketPath
                } else {
                    ConfigError::UnsupportedCodec
                },
            },
            r is Ok <==> spec.is_valid(),
    {
        match spec.validate() {
            Ok(()) => {},
            Err(e) => {
                return Err(e);
            },
        }
        match video_codec_from_str(spec.codec.as_str()) {
            Ok(codec) => Ok(
                IpcEncodedSource {
                    spec,
                    codec,
                    status: SourceStatus {
                        state: StreamSourceState::Initializing,
                        dynamic_profile: None,
                    },
                    started: false,
                },
            ),
            Err(e) => Err(e),
        }
    }

    /// The name of the stream that the source feeds.
    pub fn stream_id(&self) -> (id: &str)
        ensures
            id@ == self.config().stream_id@,
    {
        self.spec.stream_id.as_str()
    }

    /// The path of the socket to connect to.
    pub fn socket_path(&self) -> (path: &str)
        ensures
            path@ == self.config().socket_path@,
    {
        self.spec.socket_path.as_str()
    }

    /// The state of the source.
    pub fn state(&self) -> (state: StreamSourceState)
        ensures
            state == self.status().state,
    {
        self.status.state
    }

    /// Starts the source: gives the machine that the task has to run. Refused while it runs.
    pub fn start(&mut self) -> (r: Result<Run, AlreadyStarted>)
        ensures
            is_start(*old(self), r, *final(self)),
    {
        if self.started {
            return Err(AlreadyStarted);
        }
        self.started = true;
        Ok(Run::new(self.codec, self.spec.output.payload_type, self.spec.output.clock_rate))
    }

    /// Moves the loop of a started source on, and the source's status with it.
    pub fn step(&mut self, run: &mut Run, event: RunEvent) -> (output: RunOutput)
        requires
            old(run).wf(),
            old(run).takes(event@),
        ensures
            is_source_step(*old(self), *old(run), event@, output, *final(run), *final(self)),
    {
        run.step(&mut self.status, event)
    }

    /// Begins to stop the source. Tells whether there is a task to be told to shut down and to be
    /// waited for; `stopped` is due after that.
    pub fn stop(&mut self) -> (running: bool)
        ensures
            is_stop(*old(self), running, *final(self)),
    {
        let running: bool = self.started;
        self.started = false;
        running
    }

    /// Ends the stopping of the source: it is disconnected, whatever state the task has left.
    pub fn stopped(&mut self) -> (change: Option<StateChangeEvent>)
        ensures
            is_stopped(*old(self), change, *final(self)),
    {
        emit_state_change(&mut self.status.state, StreamSourceState::Disconnected, None)
    }

    /// The profile-level-id to announce: the one that the bitstream has shown, else the configured
    /// one.
    pub open spec fn profile(self) -> Seq<char> {
        match self.status().dynamic_profile {
            Some(profile) => profile@,
            None => self.config().profile@,
        }
    }

    /// The MIME type of the codec.
    fn mime_type(&self) -> (mime: String)
        requires
            self.wf(),
        ensures
            mime@ == mime_type_of(self.config().codec@),
    {
        proof {
            reveal_strlit("video/");
            reveal_strlit("h264");
            reveal_strlit("h265");
            reveal_strlit("vp8");
            reveal_strlit("vp9");
            reveal_strlit("av1");
            reveal_strlit("video/H264");
            reveal_strlit("video/H265");
            reveal_strlit("video/VP8");
            reveal_strlit("video/VP9");
            reveal_strlit("video/AV1");
            assert("video/H264"@ =~= mime_type_of("h264"@));
            assert("video/H265"@ =~= mime_type_of("h265"@));
            assert("video/VP8"@ =~= mime_type_of("vp8"@));
            assert("video/VP9"@ =~= mime_type_of("vp9"@));
            assert("video/AV1"@ =~= mime_type_of("av1"@));
        }
        match self.codec {
            VideoCodec::H264 => "video/H264".to_owned(),
            VideoCodec::H265 => "video/H265".to_owned(),
            VideoCodec::Vp8 => "video/VP8".to_owned(),
            VideoCodec::Vp9 => "video/VP9".to_owned(),
            VideoCodec::Av1 => "video/AV1".to_owned(),
        }
    }

    /// What a session description says of the video.
    pub fn get_video_codec(&self) -> (r: Option<CodecParameters>)
        requires
            self.wf(),
        ensures
            r matches Some(c) && {
                &&& c.mime_type@ == mime_type_of(self.config().codec@)
                &&& c.clock_rate == self.config().output.clock_rate
                &&& c.channels == 0
                &&& c.sdp_fmtp_line@ == fmtp_line_of(self.codec(), self.profile())
                &&& c.rtcp_feedback@.len() == 3
                &&& is_feedback(c.rtcp_feedback@[0], "goog-remb"@, ""@)
                &&& is_feedback(c.rtcp_feedback@[1], "nack"@, ""@)
                &&& is_feedback(c.rtcp_feedback@[2], "nack"@, "pli"@)
                &&& c.payload_type == self.config().output.payload_type
            },
    {
        let mime_type: String = self.mime_type();
        let sdp_fmtp_line: String = match self.codec {
            VideoCodec::H264 => {
                let mut line: String =
                    "level-asymmetry-allowed=1;packetization-mode=1;profile-level-id=".to_owned();
                match &self.status.dynamic_profile {
                    Some(profile) => {
                        line.append(profile.as_str());
                    },
                    None => {
                        line.append(self.spec.profile.as_str());
                    },
                }
                line
            },
            VideoCodec::H265 => "profile-id=1;tier-flag=0;level-id=93".to_owned(),
            _ => String::new(),
        };
        let mut rtcp_feedback: Vec<RtcpFeedback> = Vec::new();
        rtcp_feedback.push(RtcpFeedback { typ: "goog-remb".to_owned(), parameter: "".to_owned() });
        rtcp_feedback.push(RtcpFeedback { typ: "nack".to_owned(), parameter: "".to_owned() });
        rtcp_feedback.push(RtcpFeedback { typ: "nack".to_owned(), parameter: "pli".to_owned() });
        Some(
            CodecParameters {
                mime_type,
                clock_rate: self.spec.output.clock_rate,
                channels: 0,
                sdp_fmtp_line,
                rtcp_feedback,
                payload_type: self.spec.output.payload_type,
            },
        )
    }

    /// There is no audio.
    pub fn get_audio_codec(&self) -> (r: Option<CodecParameters>)
        ensures
            r is None,
    {
        None
    }
}

/// Whether `after` has the configuration and the codec of `before`.
pub open spec fn same_setup(before: IpcEncodedSource, after: IpcEncodedSource) -> bool {
    after.config() == before.config() && after.codec() == before.codec()
}

/// Whether `start` goes from `before` to `after` with the result `r`: it is refused while the
/// source is started, and else gives a machine that has not begun, for the configured output. The
/// status stays as it is.
pub open spec fn is_start(
    before: IpcEncodedSource,
    r: Result<Run, AlreadyStarted>,
    after: IpcEncodedSource,
) -> bool {
    &&& same_setup(before, after)
    &&& after.status() == before.status()
    &&& after.started()
    &&& r is Err <==> before.started()
    &&& r matches Ok(run) ==> {
        &&& run.wf()
        &&& run.codec() == before.codec()
        &&& run.phase() == Phase::Idle
        &&& run.reconnect_count() == 0
        &&& run.last_ticks() is None
        &&& rtp_settings(run.packetizer()) == (RtpSettings {
            codec: before.codec(),
            mtu: RTP_MTU,
            payload_type: before.config().output.payload_type,
            ssrc: rtp_settings(run.packetizer()).ssrc,
            clock_rate: before.config().output.clock_rate,
        })
        &&& rtp_frames(run.packetizer()) == Seq::<Seq<u8>>::empty()
        &&& run.codec() == VideoCodec::Vp9 ==> vp9_picture(run.packetizer()) is None
    }
}

/// Whether `step` goes from `before` to `after`, and the machine with it from `run` to `run_after`,
/// when `event` comes, and answers `output`.
pub open spec fn is_source_step(
    before: IpcEncodedSource,
    run: Run,
    event: EventView,
    output: RunOutput,
    run_after: Run,
    after: IpcEncodedSource,
) -> bool {
    &&& same_setup(before, after)
    &&& after.started() == before.started()
    &&& is_step(run, before.status(), event, run_after, after.status(), output)
}

/// Whether `stop` goes from `before` to `after` with the result `running`.
pub open spec fn is_stop(before: IpcEncodedSource, running: bool, after: IpcEncodedSource) -> bool {
    &&& same_setup(before, after)
    &&& after.status() == before.status()
    &&& !after.started()
    &&& running == before.started()
}

/// Whether `stopped` goes from `before` to `after` and gives `change`.
pub open spec fn is_stopped(
    before: IpcEncodedSource,
    change: Option<StateChangeEvent>,
    after: IpcEncodedSource,
) -> bool {
    &&& same_setup(before, after)
    &&& after.started() == before.started()
    &&& after.status().state == StreamSourceState::Disconnected
    &&& after.status().dynamic_profile == before.status().dynamic_profile
    &&& change_of(change) == change_between(
        before.status().state,
        StreamSourceState::Disconnected,
        None,
    )
}

} // verus!
