//! Configuration of an IPC source: which socket, which codec, and how the RTP output is labelled.
use vstd::prelude::*;

verus! {

/// The video codecs an encoder helper can deliver.
#[derive(Clone, Copy, Debug, PartialEq, Eq, Structural)]
pub enum VideoCodec {
    H264,
    H265,
    Vp8,
    Vp9,
    Av1,
}

impl VideoCodec {
    /// The number that stands for the codec in a frame header.
    pub open spec fn number(self) -> u8 {
        match self {
            VideoCodec::H264 => 0,
            VideoCodec::H265 => 1,
            VideoCodec::Vp8 => 2,
            VideoCodec::Vp9 => 3,
            VideoCodec::Av1 => 4,
        }
    }

    /// The number that stands for the codec in a frame header.
    pub fn as_u8(self) -> (n: u8)
        ensures
            n == self.number(),
    {
        match self {
            VideoCodec::H264 => 0,
            VideoCodec::H265 => 1,
            VideoCodec::Vp8 => 2,
            VideoCodec::Vp9 => 3,
            VideoCodec::Av1 => 4,
        }
    }
}

/// Why a configuration is refused.
#[derive(Clone, Copy, Debug, PartialEq, Eq, Structural)]
pub enum ConfigError {
    /// There is no socket to connect to.
    EmptySocketPath,
    /// The codec's name is not one of those that are known.
    UnsupportedCodec,
}

/// How the RTP output is labelled.
#[derive(Clone, Copy, Debug, PartialEq, Eq, Structural)]
pub struct OutputSpec {
    /// RTP payload type of the packets.
    pub payload_type: u8,
    /// RTP clock rate, in hertz.
    pub clock_rate: u32,
}

impl Default for OutputSpec {
    fn default() -> (output: Self)
        ensures
            output.payload_type == 96,
            output.clock_rate == 90000,
    {
        OutputSpec { payload_type: 96, clock_rate: 90000 }
    }
}

/// What an IPC source is configured with.
#[derive(Clone, Debug)]
pub struct IpcSourceSpec {
    /// Name of the stream the source feeds.
    pub stream_id: String,
    /// Path of the Unix domain socket that the encoder helper listens on.
    pub socket_path: String,
    /// Name of the codec.
    pub codec: String,
    /// The H.264 profile-level-id to announce until the bitstream has shown its own.
    pub profile: String,
    /// How the RTP output is labelled.
    pub output: OutputSpec,
}

/// The codec that a name stands for.
pub open spec fn codec_named(name: Seq<char>) -> Option<VideoCodec> {
    if name == "h264"@ {
        Some(VideoCodec::H264)
    } else if name == "h265"@ {
        Some(VideoCodec::H265)
    } else if name == "vp8"@ {
        Some(VideoCodec::Vp8)
    } else if name == "vp9"@ {
        Some(VideoCodec::Vp9)
    } else if name == "av1"@ {
        Some(VideoCodec::Av1)
    } else {
        None
    }
}

/// Whether two strings hold the same text.
fn same_text(a: &str, b: &str) -> (r: bool)
    ensures
        r == (a@ == b@),
{
    let a: String = a.to_owned();
    let b: String = b.to_owned();
    a == b
}

/// The codec that `name` stands for.
pub fn video_codec_from_str(name: &str) -> (r: Result<VideoCodec, ConfigError>)
    ensures
        r == match codec_named(name@) {
            Some(codec) => Ok(codec),
            None => Err::<VideoCodec, ConfigError>(ConfigError::UnsupportedCodec),
        },
{
    if same_text(name, "h264") {
        Ok(VideoCodec::H264)
    } else if same_text(name, "h265") {
        Ok(VideoCodec::H265)
    } else if same_text(name, "vp8") {
        Ok(VideoCodec::Vp8)
    } else if same_text(name, "vp9") {
        Ok(VideoCodec::Vp9)
    } else if same_text(name, "av1") {
        Ok(VideoCodec::Av1)
    } else {
        Err(ConfigError::UnsupportedCodec)
    }
}

impl IpcSourceSpec {
    /// Whether the configuration names a socket and a known codec.
    pub open spec fn is_valid(self) -> bool {
        self.socket_path@.len() > 0 && codec_named(self.codec@) is Some
    }

    /// Checks that the configuration can be used.
    pub fn validate(&self) -> (r: Result<(), ConfigError>)
        ensures
            r == if self.socket_path@.len() == 0 {
                Err::<(), ConfigError>(ConfigError::EmptySocketPath)
            } else if codec_named(self.codec@) is None {
                Err::<(), ConfigError>(ConfigError::UnsupportedCodec)
            } else {
                Ok(())
            },
            r is Ok <==> self.is_valid(),
    {
        if self.socket_path.as_str().is_empty() {
            return Err(ConfigError::EmptySocketPath);
        }
        match video_codec_from_str(self.codec.as_str()) {
            Ok(_) => Ok(()),
            Err(e) => Err(e),
        }
    }
}

} // verus!
