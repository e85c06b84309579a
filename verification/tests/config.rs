use ipc_source::source_config::{
    video_codec_from_str, ConfigError, IpcSourceSpec, OutputSpec, VideoCodec,
};

fn spec() -> IpcSourceSpec {
    IpcSourceSpec {
        stream_id: "cam0".into(),
        socket_path: "/run/radarcam/encoder-cam0.sock".into(),
        codec: "h264".into(),
        profile: "42001f".into(),
        output: OutputSpec::default(),
    }
}

#[test]
fn ipc_spec_validate() {
    let spec = IpcSourceSpec {
        stream_id: "cam0".into(),
        socket_path: "/run/radarcam/encoder-cam0.sock".into(),
        codec: "h264".into(),
        profile: "42001f".into(),
        output: OutputSpec::default(),
    };
    assert!(spec.validate().is_ok());

    let mut bad = spec.clone();
    bad.socket_path = "".into();
    assert!(bad.validate().is_err());

    let mut bad_codec = spec;
    bad_codec.codec = "mp3".into();
    assert!(bad_codec.validate().is_err());
}

#[test]
fn validate_tells_what_is_wrong() {
    let mut bad = spec();
    bad.socket_path = "".into();
    assert_eq!(bad.validate(), Err(ConfigError::EmptySocketPath));
    bad.codec = "mp3".into();
    assert_eq!(bad.validate(), Err(ConfigError::EmptySocketPath));
    bad.socket_path = "/tmp/x".into();
    assert_eq!(bad.validate(), Err(ConfigError::UnsupportedCodec));
}

#[test]
fn codec_names_and_numbers() {
    let codecs = [
        ("h264", VideoCodec::H264),
        ("h265", VideoCodec::H265),
        ("vp8", VideoCodec::Vp8),
        ("vp9", VideoCodec::Vp9),
        ("av1", VideoCodec::Av1),
    ];
    for (i, (name, codec)) in codecs.iter().enumerate() {
        assert_eq!(video_codec_from_str(name), Ok(*codec));
        assert_eq!(codec.as_u8(), i as u8);
    }
    assert_eq!(video_codec_from_str(""), Err(ConfigError::UnsupportedCodec));
    assert_eq!(video_codec_from_str("h26"), Err(ConfigError::UnsupportedCodec));
    assert_eq!(video_codec_from_str("h2644"), Err(ConfigError::UnsupportedCodec));
}

#[test]
fn default_output_is_video_at_90_khz() {
    let output = OutputSpec::default();
    assert_eq!(output.payload_type, 96);
    assert_eq!(output.clock_rate, 90000);
}
