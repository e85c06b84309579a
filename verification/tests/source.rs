use ipc_source::frame::{ReadError, RemoteEncodedPacket};
use ipc_source::ipc_encoded_source::IpcEncodedSource;
use ipc_source::rtp::{packetizable, RtpPacket};
use ipc_source::run::{Run, RunAction, RunEvent, RunOutput, RECONNECT_INTERVAL_MS};
use ipc_source::source_config::{ConfigError, IpcSourceSpec, OutputSpec, VideoCodec};
use ipc_source::source_state::{emit_state_change, StateChangeEvent, StreamSourceState};

fn spec(codec: &str) -> IpcSourceSpec {
    IpcSourceSpec {
        stream_id: "cam0".into(),
        socket_path: "/run/encoder.sock".into(),
        codec: codec.into(),
        profile: "42e01f".into(),
        output: OutputSpec { payload_type: 102, clock_rate: 90000 },
    }
}

fn source(codec: &str) -> IpcEncodedSource {
    match IpcEncodedSource::new(spec(codec)) {
        Ok(source) => source,
        Err(e) => panic!("{:?}", e),
    }
}

fn started(codec: &str) -> (IpcEncodedSource, Run) {
    let mut source = source(codec);
    let run = match source.start() {
        Ok(run) => run,
        Err(e) => panic!("{:?}", e),
    };
    (source, run)
}

fn step(source: &mut IpcEncodedSource, run: &mut Run, event: RunEvent) -> RunOutput {
    assert!(run.can_take(&event));
    source.step(run, event)
}

fn streaming(codec: &str) -> (IpcEncodedSource, Run) {
    let (mut source, mut run) = started(codec);
    step(&mut source, &mut run, RunEvent::Begin);
    step(&mut source, &mut run, RunEvent::Connected);
    (source, run)
}

fn packet(pts_us: u64, data: &[u8]) -> RunEvent {
    RunEvent::Packet(RemoteEncodedPacket { flags: 0, pts_us, data: data.to_vec() })
}

fn send(source: &mut IpcEncodedSource, run: &mut Run, pts_us: u64, data: &[u8]) -> Vec<RtpPacket> {
    let output = step(source, run, packet(pts_us, data));
    assert_eq!(output.action, RunAction::Read);
    assert!(output.change.is_none());
    output.packets.unwrap()
}

fn check_change(
    change: Option<StateChangeEvent>,
    old_state: StreamSourceState,
    new_state: StreamSourceState,
    error: Option<&str>,
) {
    let change = change.unwrap();
    assert_eq!(change.old_state, old_state);
    assert_eq!(change.new_state, new_state);
    assert_eq!(change.error.as_deref(), error);
}

#[test]
fn new_checks_the_configuration() {
    let source = source("h264");
    assert_eq!(source.stream_id(), "cam0");
    assert_eq!(source.socket_path(), "/run/encoder.sock");
    assert_eq!(source.state(), StreamSourceState::Initializing);
    assert!(source.get_audio_codec().is_none());

    assert_eq!(IpcEncodedSource::new(spec("mp3")).err(), Some(ConfigError::UnsupportedCodec));
    let mut bad = spec("h264");
    bad.socket_path = "".into();
    assert_eq!(IpcEncodedSource::new(bad).err(), Some(ConfigError::EmptySocketPath));
}

#[test]
fn start_and_stop() {
    let mut source = source("h264");
    assert!(source.start().is_ok());
    let refused = source.start().err().unwrap();
    assert_eq!(refused.message(), "Already started");
    assert!(source.stop());
    check_change(
        source.stopped(),
        StreamSourceState::Initializing,
        StreamSourceState::Disconnected,
        None,
    );
    assert_eq!(source.state(), StreamSourceState::Disconnected);
    assert!(!source.stop());
    assert!(source.stopped().is_none());
    assert!(source.start().is_ok());
}

#[test]
fn changes_tell_the_state_though_the_task_outlives_the_stop() {
    let (mut source, mut run) = started("h264");
    let mut changes = Vec::new();
    changes.extend(step(&mut source, &mut run, RunEvent::Begin).change);
    // The wait for the task is given up while it hangs in a connect.
    assert!(source.stop());
    changes.extend(source.stopped());
    changes.extend(step(&mut source, &mut run, RunEvent::Connected).change);
    changes.extend(step(&mut source, &mut run, RunEvent::Closed).change);
    changes.extend(step(&mut source, &mut run, RunEvent::ShutdownPolled(true)).change);
    changes.extend(source.stopped());
    let states: Vec<_> = changes.iter().map(|c| (c.old_state, c.new_state)).collect();
    assert_eq!(
        states,
        vec![
            (StreamSourceState::Initializing, StreamSourceState::Disconnected),
            (StreamSourceState::Disconnected, StreamSourceState::Connected),
            (StreamSourceState::Connected, StreamSourceState::Disconnected),
        ]
    );
    assert_eq!(source.state(), StreamSourceState::Disconnected);
}

#[test]
fn no_event_without_a_change() {
    let mut state = StreamSourceState::Connected;
    assert!(emit_state_change(&mut state, StreamSourceState::Connected, Some("x".into())).is_none());
    let change = emit_state_change(&mut state, StreamSourceState::Disconnected, Some("x".into()));
    check_change(
        change,
        StreamSourceState::Connected,
        StreamSourceState::Disconnected,
        Some("x"),
    );
    assert_eq!(state, StreamSourceState::Disconnected);
}

#[test]
fn failed_attempts_are_repeated() {
    let (mut source, mut run) = started("h264");
    let output = step(&mut source, &mut run, RunEvent::Begin);
    assert_eq!(output.action, RunAction::Connect);
    assert!(output.change.is_none());

    let output = step(&mut source, &mut run, RunEvent::ConnectFailed("no such file".into()));
    assert_eq!(output.action, RunAction::PollShutdown);
    check_change(
        output.change,
        StreamSourceState::Initializing,
        StreamSourceState::Disconnected,
        Some("connect failed: no such file"),
    );

    let output = step(&mut source, &mut run, RunEvent::ShutdownPolled(false));
    assert_eq!(output.action, RunAction::Sleep(RECONNECT_INTERVAL_MS));
    assert_eq!(RECONNECT_INTERVAL_MS, 1000);
    assert!(output.change.is_none());

    let output = step(&mut source, &mut run, RunEvent::Slept);
    assert_eq!(output.action, RunAction::Connect);
    check_change(
        output.change,
        StreamSourceState::Disconnected,
        StreamSourceState::Reconnecting,
        None,
    );

    let output = step(&mut source, &mut run, RunEvent::Connected);
    assert_eq!(output.action, RunAction::Read);
    check_change(
        output.change,
        StreamSourceState::Reconnecting,
        StreamSourceState::Connected,
        None,
    );
    assert_eq!(source.state(), StreamSourceState::Connected);
}

#[test]
fn lost_connection_is_announced_and_retried() {
    let (mut source, mut run) = streaming("vp8");
    let output = step(&mut source, &mut run, RunEvent::Closed);
    assert_eq!(output.action, RunAction::PollShutdown);
    check_change(
        output.change,
        StreamSourceState::Connected,
        StreamSourceState::Disconnected,
        Some("encoder helper closed the connection"),
    );
    step(&mut source, &mut run, RunEvent::ShutdownPolled(false));
    let output = step(&mut source, &mut run, RunEvent::Slept);
    check_change(
        output.change,
        StreamSourceState::Disconnected,
        StreamSourceState::Reconnecting,
        None,
    );
    step(&mut source, &mut run, RunEvent::Connected);
    let output = step(&mut source, &mut run, RunEvent::ReadFailed(ReadError::FrameTooLong(16777300)));
    check_change(
        output.change,
        StreamSourceState::Connected,
        StreamSourceState::Disconnected,
        Some("IPC frame length 16777300 exceeds sanity cap 16777216, treating stream as desynchronized"),
    );
    let output = step(&mut source, &mut run, RunEvent::ShutdownPolled(true));
    assert_eq!(output.action, RunAction::Exit);
    assert!(output.change.is_none());
}

#[test]
fn shutdown_while_streaming_publishes_nothing() {
    let (mut source, mut run) = streaming("h264");
    let output = step(&mut source, &mut run, RunEvent::Shutdown);
    assert_eq!(output.action, RunAction::Exit);
    assert!(output.change.is_none());
    assert_eq!(source.state(), StreamSourceState::Connected);
    assert!(!run.can_take(&RunEvent::Begin));
    assert!(!run.can_take(&RunEvent::Slept));
    assert!(!run.can_take(&packet(0, b"x")));
}

#[test]
fn events_that_do_not_fit_are_known() {
    let (mut source, mut run) = started("h264");
    assert!(!run.can_take(&RunEvent::Connected));
    assert!(!run.can_take(&RunEvent::Closed));
    step(&mut source, &mut run, RunEvent::Begin);
    assert!(!run.can_take(&RunEvent::Begin));
    assert!(!run.can_take(&RunEvent::ShutdownPolled(true)));
    assert!(run.can_take(&RunEvent::ConnectFailed("".into())));
}

#[test]
fn profile_of_the_bitstream_is_announced_once_known() {
    let (mut source, mut run) = streaming("h264");
    let line = |source: &IpcEncodedSource| source.get_video_codec().unwrap().sdp_fmtp_line;
    let expected = |profile: &str| {
        format!("level-asymmetry-allowed=1;packetization-mode=1;profile-level-id={profile}")
    };
    assert_eq!(line(&source), expected("42e01f"));
    send(&mut source, &mut run, 0, &[0, 0, 1, 0x65, 1, 2, 3]);
    assert_eq!(line(&source), expected("42e01f"));
    send(&mut source, &mut run, 1, &[0, 0, 1, 0x67, 0x64, 0x00, 0x28, 9]);
    assert_eq!(line(&source), expected("640028"));
    // The first profile is kept, over a lost connection too.
    step(&mut source, &mut run, RunEvent::Closed);
    step(&mut source, &mut run, RunEvent::ShutdownPolled(false));
    step(&mut source, &mut run, RunEvent::Slept);
    step(&mut source, &mut run, RunEvent::Connected);
    send(&mut source, &mut run, 2, &[0, 0, 1, 0x67, 0x42, 0x00, 0x1f, 9]);
    assert_eq!(line(&source), expected("640028"));
}

#[test]
fn other_codecs_have_no_profile() {
    let (mut source, mut run) = streaming("vp8");
    send(&mut source, &mut run, 0, &[0, 0, 1, 0x67, 0x64, 0x00, 0x28, 9]);
    assert_eq!(source.get_video_codec().unwrap().sdp_fmtp_line, "");
}

#[test]
fn video_codec_parameters() {
    for (name, mime, line) in [
        ("h265", "video/H265", "profile-id=1;tier-flag=0;level-id=93"),
        ("vp8", "video/VP8", ""),
        ("vp9", "video/VP9", ""),
        ("av1", "video/AV1", ""),
        (
            "h264",
            "video/H264",
            "level-asymmetry-allowed=1;packetization-mode=1;profile-level-id=42e01f",
        ),
    ] {
        let c = source(name).get_video_codec().unwrap();
        assert_eq!(c.mime_type, mime);
        assert_eq!(c.mime_type, format!("video/{}", name.to_uppercase()));
        assert_eq!(c.sdp_fmtp_line, line);
        assert_eq!(c.clock_rate, 90000);
        assert_eq!(c.channels, 0);
        assert_eq!(c.payload_type, 102);
        let feedback: Vec<(&str, &str)> =
            c.rtcp_feedback.iter().map(|f| (f.typ.as_str(), f.parameter.as_str())).collect();
        assert_eq!(feedback, vec![("goog-remb", ""), ("nack", ""), ("nack", "pli")]);
    }
}

/// Sends three frames and checks the labels of their packets.
fn check_labels(codec: &str, frame: &[u8], per_frame: usize) -> Vec<RtpPacket> {
    let (mut source, mut run) = streaming(codec);
    let mut all: Vec<RtpPacket> = Vec::new();
    let mut clocks = Vec::new();
    for pts in [1_000_000u64, 1_040_000, 1_030_000] {
        let packets = send(&mut source, &mut run, pts, frame);
        assert_eq!(packets.len(), per_frame);
        for (i, p) in packets.iter().enumerate() {
            assert_eq!(p.version, 2);
            assert!(!p.padding && !p.extension);
            assert_eq!(p.marker, i == per_frame - 1);
            assert_eq!(p.payload_type, 102);
            assert_eq!(p.timestamp, packets[0].timestamp);
            assert_eq!(p.ssrc, packets[0].ssrc);
            assert!(p.payload.len() <= 1400 - 12);
        }
        clocks.push(packets[0].timestamp);
        all.extend(packets);
    }
    for pair in all.windows(2) {
        assert_eq!(pair[1].sequence_number, pair[0].sequence_number.wrapping_add(1));
        assert_eq!(pair[1].ssrc, pair[0].ssrc);
    }
    // A frame's delta shows on the frame after it: the first has none, the second 40 ms.
    assert_eq!(clocks[1], clocks[0]);
    assert_eq!(clocks[2], clocks[0].wrapping_add(3600));
    all
}

#[test]
fn h264_frames_are_packetized() {
    let small = check_labels("h264", &[0, 0, 0, 1, 0x65, 1, 2, 3], 1);
    assert_eq!(small[0].payload, vec![0x65, 1, 2, 3]);
    let mut large = vec![0u8, 0, 1, 0x65];
    large.resize(4 + 3000, 7);
    let packets = check_labels("h264", &large, 3);
    // Fragmentation units of type 28, start bit on the first and end bit on the last.
    assert_eq!(packets[0].payload[..2], [0x7c, 0x85]);
    assert_eq!(packets[2].payload[..2], [0x7c, 0x45]);
}

#[test]
fn h264_parameter_sets_go_with_the_next_frame() {
    let (mut source, mut run) = streaming("h264");
    let sets = [0u8, 0, 1, 0x67, 0x42, 0x00, 0x1f, 0, 0, 1, 0x68, 0xce];
    assert!(send(&mut source, &mut run, 0, &sets).is_empty());
    let packets = send(&mut source, &mut run, 40_000, &[0, 0, 1, 0x65, 9]);
    assert_eq!(packets.len(), 2);
    assert_eq!(
        packets[0].payload,
        vec![0x78, 0, 4, 0x67, 0x42, 0x00, 0x1f, 0, 2, 0x68, 0xce]
    );
    assert_eq!(packets[1].payload, vec![0x65, 9]);
}

#[test]
fn h265_frames_are_packetized() {
    let small = check_labels("h265", &[0, 0, 0, 1, 0x26, 0x01, 5, 6], 1);
    assert_eq!(small[0].payload, vec![0x26, 0x01, 5, 6]);
}

#[test]
fn vp8_frames_are_packetized() {
    let frame: Vec<u8> = (0..3000u32).map(|i| i as u8).collect();
    let packets = check_labels("vp8", &frame, 3);
    for (i, p) in packets.iter().enumerate() {
        assert_eq!(p.payload[0], [0x10, 0, 0][i % 3]);
        assert_eq!(p.payload.len(), [1388, 1388, 3000 - 2 * 1387 + 1][i % 3]);
    }
    let joined: Vec<u8> = packets[..3].iter().flat_map(|p| p.payload[1..].to_vec()).collect();
    assert_eq!(joined, frame);
}

#[test]
fn vp9_frames_are_packetized() {
    let frame: Vec<u8> = (0..3000u32).map(|i| i as u8).collect();
    let packets = check_labels("vp9", &frame, 3);
    // First, middle and last piece, and the picture number, which counts up frame by frame.
    let first = u16::from_be_bytes([packets[0].payload[1], packets[0].payload[2]]);
    assert!(first >= 0x8000);
    for (i, p) in packets.iter().enumerate() {
        assert_eq!(p.payload[0], [0x98, 0x90, 0x94][i % 3]);
        let picture = u16::from_be_bytes([p.payload[1], p.payload[2]]);
        assert_eq!(picture, 0x8000 | first.wrapping_add(i as u16 / 3));
        assert_eq!(p.payload.len(), [1388, 1388, 3000 - 2 * 1385 + 3][i % 3]);
    }
    let joined: Vec<u8> = packets[..3].iter().flat_map(|p| p.payload[3..].to_vec()).collect();
    assert_eq!(joined, frame);
}

#[test]
fn av1_frames_are_packetized() {
    // One frame OBU with a size field: it loses the field, and gets an aggregation header.
    let packets = check_labels("av1", &[0x32, 2, 0xAA, 0xBB], 1);
    assert_eq!(packets[0].payload, vec![0x10, 0x30, 0xAA, 0xBB]);
}

#[test]
fn refused_frame_ends_nothing() {
    let (mut source, mut run) = streaming("av1");
    let first = send(&mut source, &mut run, 0, &[0x32, 1, 0xAA]);
    // The header says that a size field follows, and there is none.
    let output = step(&mut source, &mut run, packet(40_000, &[0x32]));
    assert!(output.packets.is_err());
    assert_eq!(output.action, RunAction::Read);
    assert!(output.change.is_none());
    // The refused frame moved neither the clock nor the sequence numbers.
    let next = send(&mut source, &mut run, 80_000, &[0x32, 1, 0xAA]);
    assert_eq!(next[0].timestamp, first[0].timestamp);
    assert_eq!(next[0].sequence_number, first[0].sequence_number.wrapping_add(1));
    // Its delta is lost; that of the frame after it, 40 ms, is not.
    let last = send(&mut source, &mut run, 120_000, &[0x32, 1, 0xAA]);
    assert_eq!(last[0].timestamp, first[0].timestamp.wrapping_add(3600));
}

#[test]
fn empty_frame_makes_no_packets() {
    for codec in ["h264", "h265", "vp8", "vp9", "av1"] {
        let (mut source, mut run) = streaming(codec);
        assert!(send(&mut source, &mut run, 0, &[]).is_empty());
    }
}

#[test]
fn clock_runs_through_a_lost_connection() {
    let (mut source, mut run) = streaming("vp8");
    let first = send(&mut source, &mut run, 1_000_000, b"a");
    step(&mut source, &mut run, RunEvent::Closed);
    step(&mut source, &mut run, RunEvent::ShutdownPolled(false));
    step(&mut source, &mut run, RunEvent::Slept);
    step(&mut source, &mut run, RunEvent::Connected);
    let second = send(&mut source, &mut run, 3_000_000, b"b");
    let third = send(&mut source, &mut run, 3_000_000, b"c");
    let fourth = send(&mut source, &mut run, 3_000_000, b"d");
    assert_eq!(second[0].timestamp, first[0].timestamp);
    assert_eq!(third[0].timestamp, first[0].timestamp.wrapping_add(180_000));
    assert_eq!(fourth[0].timestamp, third[0].timestamp.wrapping_add(3000));
    assert_eq!(second[0].ssrc, first[0].ssrc);
}

#[test]
fn picture_numbers_survive_empty_frames_and_lost_connections() {
    let (mut source, mut run) = streaming("vp9");
    let first = send(&mut source, &mut run, 0, b"one");
    assert_eq!(first[0].payload[0], 0x9c);
    assert!(send(&mut source, &mut run, 1, b"").is_empty());
    step(&mut source, &mut run, RunEvent::Closed);
    step(&mut source, &mut run, RunEvent::ShutdownPolled(false));
    step(&mut source, &mut run, RunEvent::Slept);
    step(&mut source, &mut run, RunEvent::Connected);
    let second = send(&mut source, &mut run, 2, b"two");
    let number = |p: &RtpPacket| u16::from_be_bytes([p.payload[1], p.payload[2]]);
    assert_eq!(number(&second[0]), 0x8000 | number(&first[0]).wrapping_add(1));
    assert_eq!(second[0].sequence_number, first[0].sequence_number.wrapping_add(1));
}

#[test]
fn clock_runs_through_its_wrap() {
    let (mut source, mut run) = streaming("vp8");
    let first = send(&mut source, &mut run, 47_721_858_000, b"a");
    let second = send(&mut source, &mut run, 47_721_898_000, b"b");
    let third = send(&mut source, &mut run, 47_721_938_000, b"c");
    let fourth = send(&mut source, &mut run, 47_721_978_000, b"d");
    assert_eq!(second[0].timestamp, first[0].timestamp);
    assert_eq!(third[0].timestamp, first[0].timestamp.wrapping_add(3600));
    assert_eq!(fourth[0].timestamp, first[0].timestamp.wrapping_add(7200));
}

#[test]
fn restarted_source_begins_anew_and_keeps_its_profile() {
    let (mut source, mut run) = streaming("h264");
    send(&mut source, &mut run, 1_000_000, &[0, 0, 1, 0x67, 0x64, 0x00, 0x28, 9]);
    assert!(source.stop());
    step(&mut source, &mut run, RunEvent::Shutdown);
    source.stopped();
    let mut run = match source.start() {
        Ok(run) => run,
        Err(e) => panic!("{:?}", e),
    };
    let output = step(&mut source, &mut run, RunEvent::Begin);
    check_change(
        output.change,
        StreamSourceState::Disconnected,
        StreamSourceState::Initializing,
        None,
    );
    let output = step(&mut source, &mut run, RunEvent::ConnectFailed("gone".into()));
    check_change(
        output.change,
        StreamSourceState::Initializing,
        StreamSourceState::Disconnected,
        Some("connect failed: gone"),
    );
    step(&mut source, &mut run, RunEvent::ShutdownPolled(false));
    let output = step(&mut source, &mut run, RunEvent::Slept);
    check_change(
        output.change,
        StreamSourceState::Disconnected,
        StreamSourceState::Reconnecting,
        None,
    );
    let line = source.get_video_codec().unwrap().sdp_fmtp_line;
    assert!(line.ends_with("profile-level-id=640028"));
}

#[test]
fn frames_the_payloaders_cannot_take() {
    assert!(!packetizable(VideoCodec::H265, &[1]));
    assert!(packetizable(VideoCodec::H265, &[]));
    assert!(packetizable(VideoCodec::H265, &[1, 2]));
    assert!(packetizable(VideoCodec::H264, &[1]));

    assert!(packetizable(VideoCodec::Av1, &[]));
    assert!(packetizable(VideoCodec::Av1, &[0x32]));
    assert!(packetizable(VideoCodec::Av1, &[0x32, 0]));
    assert!(packetizable(VideoCodec::Av1, &[0x32, 1, 9]));
    assert!(!packetizable(VideoCodec::Av1, &[0x32, 2, 9]));
    assert!(!packetizable(VideoCodec::Av1, &[0x32, 1, 9, 0x32, 1]));
    assert!(!packetizable(VideoCodec::Av1, &[0x32, 0x80, 0x01]));
    // Without a size field the unit takes all that is left; so does one behind an endless field.
    assert!(packetizable(VideoCodec::Av1, &[0x30, 0xff, 0xff]));
    // With an extension byte the size field stands one byte later.
    assert!(packetizable(VideoCodec::Av1, &[0x36]));
    assert!(packetizable(VideoCodec::Av1, &[0x36, 0x00]));
    assert!(packetizable(VideoCodec::Av1, &[0x36, 0x00, 1, 9]));
    assert!(!packetizable(VideoCodec::Av1, &[0x36, 0x00, 2, 9]));
}

#[test]
fn frames_reported_as_packetizable_are_packetized() {
    // Every AV1 unit of up to four bytes out of a small alphabet that passes the test is taken.
    let alphabet = [0x00u8, 0x01, 0x02, 0x12, 0x30, 0x32, 0x36, 0x80, 0x81, 0xff];
    let (mut source, mut run) = streaming("av1");
    let mut taken = 0;
    for len in 0..5u32 {
        for n in 0..(alphabet.len() as u32).pow(len) {
            let mut rest = n;
            let mut data = Vec::new();
            for _ in 0..len {
                data.push(alphabet[(rest % 10) as usize]);
                rest /= 10;
            }
            if packetizable(VideoCodec::Av1, &data) {
                step(&mut source, &mut run, packet(0, &data));
                taken += 1;
            }
        }
    }
    assert!(taken > 100);
}

#[test]
fn short_frames_of_every_kind_are_packetized() {
    // Start codes, parameter sets and fragments of them, in every order, and frames long enough to
    // be cut that begin with them.
    let alphabet = [0x00u8, 0x01, 0x03, 0x26, 0x42, 0x67];
    for (name, codec) in [
        ("h264", VideoCodec::H264),
        ("h265", VideoCodec::H265),
        ("vp8", VideoCodec::Vp8),
        ("vp9", VideoCodec::Vp9),
    ] {
        let (mut source, mut run) = streaming(name);
        for len in 0..7u32 {
            for n in 0..6u32.pow(len) {
                let mut rest = n;
                let mut data = Vec::new();
                for _ in 0..len {
                    data.push(alphabet[(rest % 6) as usize]);
                    rest /= 6;
                }
                assert_eq!(packetizable(codec, &data), codec != VideoCodec::H265 || len != 1);
                if packetizable(codec, &data) {
                    send(&mut source, &mut run, 0, &data);
                }
                if len == 4 {
                    data.resize(3000, 9);
                    for p in send(&mut source, &mut run, 0, &data) {
                        assert!(p.payload.len() <= 1388);
                    }
                }
            }
        }
    }
}

#[test]
fn long_size_fields_are_read_as_the_payloader_reads_them() {
    let (mut source, mut run) = streaming("av1");
    // Nine bytes of size field: the first no longer counts.
    let mut data = vec![0x32u8, 0xff, 0x81, 0x80, 0x80, 0x80, 0x80, 0x80, 0x80, 0x00];
    data.push(0xAA);
    assert!(packetizable(VideoCodec::Av1, &data));
    let packets = send(&mut source, &mut run, 0, &data);
    assert_eq!(packets[0].payload, vec![0x10, 0x30, 0xAA]);
}
