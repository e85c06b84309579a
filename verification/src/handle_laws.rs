//! What the calls of a source's handle give, told from its configuration and its status.
use vstd::prelude::*;

#[allow(unused_imports)]
use crate::ipc_encoded_source::{
    ascii_upper, is_source_step, is_start, is_stop, is_stopped, AlreadyStarted, CodecParameters,
    IpcEncodedSource, STOP_TIMEOUT_SECS,
};
#[allow(unused_imports)]
use crate::rtp::{rtp_frames, rtp_settings};
#[allow(unused_imports)]
use crate::run::{is_step, Phase, Run, RunEvent, RunOutput};
#[allow(unused_imports)]
use crate::source_config::{video_codec_from_str, ConfigError, IpcSourceSpec, VideoCodec};
#[allow(unused_imports)]
use crate::source_state::{emit_state_change, StateChangeEvent, StreamSourceState};

verus! {

/// The names of the codecs are these five and no others.
pub proof fn law_codec_names(name: &str, r: Result<VideoCodec, ConfigError>)
    requires
        call_ensures(video_codec_from_str, (name,), r),
    ensures
        r is Ok <==> (name@ == "h264"@ || name@ == "h265"@ || name@ == "vp8"@ || name@ == "vp9"@
            || name@ == "av1"@),
        r matches Ok(codec) ==> name@ == match codec {
            VideoCodec::H264 => "h264"@,
            VideoCodec::H265 => "h265"@,
            VideoCodec::Vp8 => "vp8"@,
            VideoCodec::Vp9 => "vp9"@,
            VideoCodec::Av1 => "av1"@,
        },
        r matches Err(e) ==> e == ConfigError::UnsupportedCodec,
{
}

/// No codec has two names.
pub proof fn law_no_codec_has_two_names(
    a: &str,
    b: &str,
    ra: Result<VideoCodec, ConfigError>,
    rb: Result<VideoCodec, ConfigError>,
)
    requires
        call_ensures(video_codec_from_str, (a,), ra),
        call_ensures(video_codec_from_str, (b,), rb),
        ra is Ok,
        ra == rb,
    ensures
        a@ == b@,
{
}

/// No two codecs have the same number in a frame header.
pub proof fn law_codec_numbers_differ(a: VideoCodec, b: VideoCodec, na: u8, nb: u8)
    requires
        call_ensures(VideoCodec::as_u8, (a,), na),
        call_ensures(VideoCodec::as_u8, (b,), nb),
    ensures
        na == nb <==> a == b,
        na == a.number(),
        na < 5,
{
}

/// A configuration is usable if it names a socket and a codec; its other fields do not count.
pub proof fn law_configuration_needs_socket_and_codec(
    spec: IpcSourceSpec,
    name: &str,
    codec: Result<VideoCodec, ConfigError>,
    r: Result<(), ConfigError>,
)
    requires
        name@ == spec.codec@,
        call_ensures(video_codec_from_str, (name,), codec),
        call_ensures(IpcSourceSpec::validate, (&spec,), r),
    ensures
        r is Ok <==> spec.socket_path@.len() > 0 && codec is Ok,
        spec.socket_path@.len() == 0 ==> (r matches Err(e) && e == ConfigError::EmptySocketPath),
        spec.socket_path@.len() > 0 && codec is Err ==> (r matches Err(e) && e
            == ConfigError::UnsupportedCodec),
{
}

/// A source is made of every usable configuration and of no other. It keeps the configuration, has
/// the codec that it names, and is initializing, without a profile and not started.
pub proof fn law_source_is_made_of_usable_configuration(
    spec: IpcSourceSpec,
    valid: Result<(), ConfigError>,
    name: &str,
    codec: Result<VideoCodec, ConfigError>,
    r: Result<IpcEncodedSource, ConfigError>,
)
    requires
        name@ == spec.codec@,
        call_ensures(video_codec_from_str, (name,), codec),
        call_ensures(IpcSourceSpec::validate, (&spec,), valid),
        call_ensures(IpcEncodedSource::new, (spec,), r),
    ensures
        match valid {
            Ok(()) => {
                &&& r matches Ok(source) && {
                    &&& source.wf()
                    &&& source.config() == spec
                    &&& codec == Ok::<VideoCodec, ConfigError>(source.codec())
                    &&& source.status().state == StreamSourceState::Initializing
                    &&& source.status().dynamic_profile is None
                    &&& !source.started()
                }
            },
            Err(why) => r matches Err(e) && e == why,
        },
{
}

/// A source tells the stream and the socket it was configured with, and the state of its status. It
/// has no audio.
pub proof fn law_source_tells_what_it_is(
    source: IpcEncodedSource,
    id: &str,
    path: &str,
    state: StreamSourceState,
    audio: Option<CodecParameters>,
)
    requires
        call_ensures(IpcEncodedSource::stream_id, (&source,), id),
        call_ensures(IpcEncodedSource::socket_path, (&source,), path),
        call_ensures(IpcEncodedSource::state, (&source,), state),
        call_ensures(IpcEncodedSource::get_audio_codec, (&source,), audio),
    ensures
        id@ == source.config().stream_id@,
        path@ == source.config().socket_path@,
        state == source.status().state,
        audio is None,
{
}

/// A start is refused while the source is started. Else it gives a machine that has not begun, whose
/// packets carry the configured payload type; and it changes nothing but that the source is started.
pub proof fn law_start_gives_a_machine_once(
    source: &mut IpcEncodedSource,
    r: Result<Run, AlreadyStarted>,
)
    requires
        call_ensures(IpcEncodedSource::start, (source,), r),
    ensures
        is_start(*old(source), r, *final(source)),
        r is Ok <==> !old(source).started(),
        final(source).started(),
        final(source).config() == old(source).config(),
        final(source).codec() == old(source).codec(),
        final(source).status() == old(source).status(),
        r matches Ok(run) ==> {
            &&& run.wf()
            &&& run.phase() == Phase::Idle
            &&& run.reconnect_count() == 0
            &&& run.last_ticks() is None
            &&& run.codec() == old(source).codec()
            &&& rtp_settings(run.packetizer()).codec == old(source).codec()
            &&& rtp_settings(run.packetizer()).mtu == 1400
            &&& rtp_settings(run.packetizer()).payload_type
                == old(source).config().output.payload_type
            &&& rtp_settings(run.packetizer()).clock_rate == old(source).config().output.clock_rate
            &&& rtp_frames(run.packetizer()).len() == 0
        },
{
}

/// A step of the handle is a step of the machine on the status of the source, and touches nothing
/// else of the source.
pub proof fn law_source_steps_as_its_machine(
    source: &mut IpcEncodedSource,
    run: &mut Run,
    event: RunEvent,
    output: RunOutput,
)
    requires
        call_ensures(IpcEncodedSource::step, (source, run, event), output),
    ensures
        is_source_step(*old(source), *old(run), event@, output, *final(run), *final(source)),
        is_step(
            *old(run),
            old(source).status(),
            event@,
            *final(run),
            final(source).status(),
            output,
        ),
        final(source).config() == old(source).config(),
        final(source).codec() == old(source).codec(),
        final(source).started() == old(source).started(),
{
}

/// A stop tells whether the source was started; it is not started then, and else as it was. The task
/// is given five seconds.
pub proof fn law_stop_tells_whether_it_was_started(source: &mut IpcEncodedSource, running: bool)
    requires
        call_ensures(IpcEncodedSource::stop, (source,), running),
    ensures
        is_stop(*old(source), running, *final(source)),
        running == old(source).started(),
        !final(source).started(),
        final(source).config() == old(source).config(),
        final(source).codec() == old(source).codec(),
        final(source).status() == old(source).status(),
        STOP_TIMEOUT_SECS == 5,
{
}

/// A stopped source is disconnected, and says so if it was not; it keeps all else.
pub proof fn law_stopped_source_is_disconnected(
    source: &mut IpcEncodedSource,
    change: Option<StateChangeEvent>,
)
    requires
        call_ensures(IpcEncodedSource::stopped, (source,), change),
    ensures
        is_stopped(*old(source), change, *final(source)),
        final(source).status().state == StreamSourceState::Disconnected,
        final(source).status().dynamic_profile == old(source).status().dynamic_profile,
        final(source).started() == old(source).started(),
        final(source).config() == old(source).config(),
        final(source).codec() == old(source).codec(),
        change is None <==> old(source).status().state == StreamSourceState::Disconnected,
        change matches Some(c) ==> c.old_state == old(source).status().state && c.new_state
            == StreamSourceState::Disconnected && c.error is None,
{
}

/// A move to the state that is there already brings no event. Any other brings one, with the state
/// before, the state after and the reason that was given.
pub proof fn law_event_tells_the_move(
    state: &mut StreamSourceState,
    new_state: StreamSourceState,
    error: Option<String>,
    event: Option<StateChangeEvent>,
)
    requires
        call_ensures(emit_state_change, (state, new_state, error), event),
    ensures
        *final(state) == new_state,
        event is None <==> *old(state) == new_state,
        event matches Some(e) ==> {
            &&& e.old_state == *old(state)
            &&& e.new_state == new_state
            &&& match (e.error, error) {
                (None, None) => true,
                (Some(told), Some(given)) => told@ == given@,
                _ => false,
            }
        },
{
}

/// What a session description says of the video. The MIME type is the codec's name in upper case
/// behind `video/`. The format parameters of H.264 end in the profile, of the bitstream if it has
/// announced one and else of the configuration; those of the other codecs do not depend on it. Clock
/// rate and payload type are those of the configured output.
pub proof fn law_video_codec_parameters(source: IpcEncodedSource, r: Option<CodecParameters>)
    requires
        source.wf(),
        call_ensures(IpcEncodedSource::get_video_codec, (&source,), r),
    ensures
        r matches Some(c) && {
            let name = source.config().codec@;
            &&& c.mime_type@.len() == 6 + name.len()
            &&& c.mime_type@.take(6) == "video/"@
            &&& forall|i: int|
                #![trigger name[i]]
                0 <= i < name.len() ==> c.mime_type@[6 + i] as int == if 97 <= name[i] as int <= 122 {
                    name[i] as int - 32
                } else {
                    name[i] as int
                }
            &&& c.sdp_fmtp_line@ == match source.codec() {
                VideoCodec::H264 => {
                    "level-asymmetry-allowed=1;packetization-mode=1;profile-level-id="@ + match (
                    source.status().dynamic_profile) {
                        Some(profile) => profile@,
                        None => source.config().profile@,
                    }
                },
                VideoCodec::H265 => "profile-id=1;tier-flag=0;level-id=93"@,
                _ => Seq::<char>::empty(),
            }
            &&& c.clock_rate == source.config().output.clock_rate
            &&& c.payload_type == source.config().output.payload_type
            &&& c.channels == 0
            &&& c.rtcp_feedback@.len() == 3
            &&& c.rtcp_feedback@[0].typ@ == "goog-remb"@ && c.rtcp_feedback@[0].parameter@ == ""@
            &&& c.rtcp_feedback@[1].typ@ == "nack"@ && c.rtcp_feedback@[1].parameter@ == ""@
            &&& c.rtcp_feedback@[2].typ@ == "nack"@ && c.rtcp_feedback@[2].parameter@ == "pli"@
        },
{
    reveal_strlit("video/");
    match r {
        Some(c) => {
            let name = source.config().codec@;
            assert(c.mime_type@.take(6) =~= "video/"@);
            assert forall|i: int| #![trigger name[i]] 0 <= i < name.len() implies c.mime_type@[6
                + i] as int == if 97 <= name[i] as int <= 122 {
                name[i] as int - 32
            } else {
                name[i] as int
            } by {
                assert(c.mime_type@[6 + i] == ascii_upper(name[i]));
            }
        },
        None => {},
    }
}

} // verus!
