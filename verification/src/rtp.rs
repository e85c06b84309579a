//! RTP packetization of encoded frames, by the payloaders and the packetizer of `rtc_rtp`.
//!
//! The packetizer is a trait object, and holds its RTP clock, its sequence counter and the state of
//! a codec's payloader. What the library states of it is stated over the names below: what it was
//! made with, what its clock and its sequence counter show, and which frames it has been given.
use vstd::prelude::*;

use crate::av1_obu::check_obu_sizes;
#[allow(unused_imports)]
use crate::av1_obu::obu_sizes_fit;
#[allow(unused_imports)]
use crate::rtp_clock::clock_add;
use crate::source_config::VideoCodec;

verus! {

/// The size of an RTP packet, header and payload together, that packets are cut to.
pub const RTP_MTU: usize = 1400;

/// The length of the RTP header that the packetizer leaves room for.
pub const RTP_HEADER_LEN: usize = 12;

/// One RTP packet. It has no contributing sources and no header extensions.
#[derive(Debug)]
pub struct RtpPacket {
    pub version: u8,
    pub padding: bool,
    pub extension: bool,
    /// Set on the last packet of a frame.
    pub marker: bool,
    pub payload_type: u8,
    pub sequence_number: u16,
    pub timestamp: u32,
    pub ssrc: u32,
    pub payload: Vec<u8>,
}

/// What a packetizer is made with.
pub struct RtpSettings {
    pub codec: VideoCodec,
    pub mtu: usize,
    pub payload_type: u8,
    pub ssrc: u32,
    pub clock_rate: u32,
}

/// A packetizer of `rtc_rtp`, with the payloader and the sequencer it was made with.
#[verifier::external_body]
pub struct RtpPacketizer {
    inner: Box<dyn rtc_rtp::packetizer::Packetizer>,
}

/// What the packetizer was made with.
pub uninterp spec fn rtp_settings(p: RtpPacketizer) -> RtpSettings;

/// The RTP timestamp that the packets of the next frame will carry.
pub uninterp spec fn rtp_clock(p: RtpPacketizer) -> u32;

/// The sequence number that the next packet will carry.
pub uninterp spec fn rtp_sequence(p: RtpPacketizer) -> u16;

/// The frames that the packetizer has been given since it was made.
pub uninterp spec fn rtp_frames(p: RtpPacketizer) -> Seq<Seq<u8>>;

/// The picture number that a VP9 payloader will give the next frame: none is set before the first
/// frame that is not empty, which draws it at random.
pub uninterp spec fn vp9_picture(p: RtpPacketizer) -> Option<u16>;

/// The payloads that a codec's payloader makes of the last of `frames` for packets of `mtu` bytes,
/// when it was given the others before; `None` if it refuses that frame. It stands for a value only
/// for payloaders that work without chance, which that of VP9 does not; see `is_vp9_outcome`.
pub uninterp spec fn frame_payloads(codec: VideoCodec, mtu: usize, frames: Seq<Seq<u8>>) -> Option<
    Seq<Seq<u8>>,
>;

/// Whether the codec's payloader can be given the frame `data`: the one for H.265 looks at two
/// bytes of a frame without a start code, and the one for AV1 takes size fields at their word.
pub open spec fn is_packetizable(codec: VideoCodec, data: Seq<u8>) -> bool {
    match codec {
        VideoCodec::H265 => data.len() != 1,
        VideoCodec::Av1 => obu_sizes_fit(data),
        _ => true,
    }
}

/// Whether the codec's payloader can be given the frame `data`.
pub fn packetizable(codec: VideoCodec, data: &[u8]) -> (r: bool)
    ensures
        r == is_packetizable(codec, data@),
{
    match codec {
        VideoCodec::H265 => data.len() != 1,
        VideoCodec::Av1 => check_obu_sizes(data),
        _ => true,
    }
}

/// The payloads of `packets`.
pub open spec fn payloads_of(packets: Seq<RtpPacket>) -> Seq<Seq<u8>> {
    packets.map_values(|p: RtpPacket| p.payload@)
}

/// What `payloads` carry behind descriptors of `n` bytes, joined together.
pub open spec fn joined(payloads: Seq<Seq<u8>>, n: int) -> Seq<u8>
    decreases payloads.len(),
{
    if payloads.len() == 0 {
        Seq::empty()
    } else {
        joined(payloads.drop_last(), n) + payloads.last().skip(n)
    }
}

/// Whether `packet` is the one at place `i` of the `count` packets of a frame, as a packetizer
/// labels it that was made with `settings` and whose clock and sequence counter show `clock` and
/// `sequence` before the frame.
pub open spec fn is_labelled(
    packet: RtpPacket,
    settings: RtpSettings,
    clock: u32,
    sequence: u16,
    i: int,
    count: nat,
) -> bool {
    &&& packet.version == 2
    &&& !packet.padding
    &&& !packet.extension
    &&& packet.marker == (i == count - 1)
    &&& packet.payload_type == settings.payload_type
    &&& packet.sequence_number == (sequence + i) % 0x1_0000
    &&& packet.timestamp == clock
    &&& packet.ssrc == settings.ssrc
    &&& packet.payload@.len() <= settings.mtu - RTP_HEADER_LEN
}

/// Whether `payloads` are those of one VP8 frame, cut for packets of `mtu` bytes: a descriptor of
/// one byte stands before each piece of the frame, and marks the first. All pieces but the last
/// fill their packet.
pub open spec fn is_vp8_frame(payloads: Seq<Seq<u8>>, mtu: usize) -> bool {
    forall|i: int|
        #![trigger payloads[i]]
        0 <= i < payloads.len() ==> {
            &&& payloads[i].len() > 1
            &&& i < payloads.len() - 1 ==> payloads[i].len() == mtu - RTP_HEADER_LEN
            &&& payloads[i][0] == if i == 0 {
                0x10int
            } else {
                0
            }
        }
}

/// Whether `payloads` are those of one VP9 frame with the picture number `picture`, cut for packets
/// of `mtu` bytes: a descriptor of three bytes stands before each piece of the frame. Its first
/// byte marks the first and the last piece, the other two hold the picture number. All pieces but
/// the last fill their packet.
pub open spec fn is_vp9_frame(payloads: Seq<Seq<u8>>, picture: u16, mtu: usize) -> bool {
    &&& picture < 0x8000
    &&& forall|i: int|
        #![trigger payloads[i]]
        0 <= i < payloads.len() ==> {
            &&& payloads[i].len() > 3
            &&& i < payloads.len() - 1 ==> payloads[i].len() == mtu - RTP_HEADER_LEN
            &&& payloads[i][0] == 0x90 + (if i == 0 {
                0x08int
            } else {
                0
            }) + (if i == payloads.len() - 1 {
                0x04int
            } else {
                0
            })
            &&& payloads[i][1] == 0x80 + picture / 256
            &&& payloads[i][2] == picture % 256
        }
}

/// Whether a VP9 payloader can make `payloads` of the frame `data` for packets of `mtu` bytes,
/// where `before` and `after` are the picture numbers set before and after it. A frame takes the
/// number that is set, any if none is, and the one after it is set next; an empty frame takes none.
pub open spec fn is_vp9_outcome(
    payloads: Seq<Seq<u8>>,
    data: Seq<u8>,
    mtu: usize,
    before: Option<u16>,
    after: Option<u16>,
) -> bool {
    if data.len() == 0 {
        after == before
    } else {
        exists|picture: u16|
            {
                &&& #[trigger] is_vp9_frame(payloads, picture, mtu)
                &&& before is Some ==> before == Some(picture)
                &&& after == Some(((picture + 1) % 0x8000) as u16)
            }
    }
}

/// The payloads of the packets that were made.
pub open spec fn payloads_made(r: Result<Vec<RtpPacket>, String>) -> Seq<Seq<u8>> {
    match r {
        Ok(packets) => payloads_of(packets@),
        Err(_) => Seq::empty(),
    }
}

/// How many packets were made.
pub open spec fn packet_count(r: Result<Vec<RtpPacket>, String>) -> nat {
    match r {
        Ok(packets) => packets@.len(),
        Err(_) => 0,
    }
}

/// Whether `r` is what becomes of the frame `data` in a packetizer that was made with `settings`
/// and whose clock and sequence counter show `clock` and `sequence`, where `payloads` are those
/// that the codec's payloader makes of the frame, `None` if it refuses it.
///
/// - The packets are labelled as those of one frame.
/// - Their payloads are the given ones, but for VP9.
/// - For VP8 and VP9 the payloads are the frame cut to pieces, each behind a descriptor: of one
///   byte for VP8, of three for VP9. What the descriptors hold and how long the pieces are stands
///   at `is_vp8_frame`, and for VP9 at `is_vp9_frame`.
/// - An empty frame makes no packets.
/// - Only AV1 frames are ever refused.
pub open spec fn is_outcome(
    r: Result<Vec<RtpPacket>, String>,
    settings: RtpSettings,
    clock: u32,
    sequence: u16,
    data: Seq<u8>,
    payloads: Option<Seq<Seq<u8>>>,
) -> bool {
    match r {
        Ok(packets) => {
            &&& forall|i: int|
                0 <= i < packets@.len() ==> is_labelled(
                    #[trigger] packets@[i],
                    settings,
                    clock,
                    sequence,
                    i,
                    packets@.len(),
                )
            &&& settings.codec != VideoCodec::Vp9 ==> payloads == Some(payloads_of(packets@))
            &&& settings.codec == VideoCodec::Vp8 && settings.mtu >= 16 ==> {
                &&& is_vp8_frame(payloads_of(packets@), settings.mtu)
                &&& joined(payloads_of(packets@), 1) == data
            }
            &&& settings.codec == VideoCodec::Vp9 && settings.mtu >= 16 ==> joined(
                payloads_of(packets@),
                3,
            ) == data
            &&& data.len() == 0 ==> packets@.len() == 0
        },
        Err(_) => {
            &&& settings.codec == VideoCodec::Av1
            &&& data.len() > 0
            &&& payloads is None
        },
    }
}

/// `rtc_rtp::packetizer::new_packetizer` with a fresh `H264Payloader` and the sequencer that
/// `rtc_rtp::sequence::new_random_sequencer` makes. The packetizer keeps what it is made with and
/// has been given no frame. Its clock and its sequence counter start at random, so nothing is
/// claimed of them.
#[verifier::external_body]
fn h264_packetizer(mtu: usize, payload_type: u8, ssrc: u32, clock_rate: u32) -> (p: RtpPacketizer)
    ensures
        rtp_settings(p) == (RtpSettings {
            codec: VideoCodec::H264,
            mtu,
            payload_type,
            ssrc,
            clock_rate,
        }),
        rtp_frames(p) == Seq::<Seq<u8>>::empty(),
{
    let payloader = Box::new(rtc_rtp::codec::h264::H264Payloader::default());
    let sequencer = Box::new(rtc_rtp::sequence::new_random_sequencer());
    let inner = rtc_rtp::packetizer::new_packetizer(mtu, payload_type, ssrc, payloader, sequencer, clock_rate);
    RtpPacketizer { inner: Box::new(inner) }
}

/// `rtc_rtp::packetizer::new_packetizer` with an `HevcPayloader`; else as `h264_packetizer`.
#[verifier::external_body]
fn h265_packetizer(mtu: usize, payload_type: u8, ssrc: u32, clock_rate: u32) -> (p: RtpPacketizer)
    ensures
        rtp_settings(p) == (RtpSettings {
            codec: VideoCodec::H265,
            mtu,
            payload_type,
            ssrc,
            clock_rate,
        }),
        rtp_frames(p) == Seq::<Seq<u8>>::empty(),
{
    let payloader = Box::new(rtc_rtp::codec::h265::HevcPayloader);
    let sequencer = Box::new(rtc_rtp::sequence::new_random_sequencer());
    let inner = rtc_rtp::packetizer::new_packetizer(mtu, payload_type, ssrc, payloader, sequencer, clock_rate);
    RtpPacketizer { inner: Box::new(inner) }
}

/// `rtc_rtp::packetizer::new_packetizer` with a fresh `Vp8Payloader`; else as `h264_packetizer`.
#[verifier::external_body]
fn vp8_packetizer(mtu: usize, payload_type: u8, ssrc: u32, clock_rate: u32) -> (p: RtpPacketizer)
    ensures
        rtp_settings(p) == (RtpSettings {
            codec: VideoCodec::Vp8,
            mtu,
            payload_type,
            ssrc,
            clock_rate,
        }),
        rtp_frames(p) == Seq::<Seq<u8>>::empty(),
{
    let payloader = Box::new(rtc_rtp::codec::vp8::Vp8Payloader::default());
    let sequencer = Box::new(rtc_rtp::sequence::new_random_sequencer());
    let inner = rtc_rtp::packetizer::new_packetizer(mtu, payload_type, ssrc, payloader, sequencer, clock_rate);
    RtpPacketizer { inner: Box::new(inner) }
}

/// `rtc_rtp::packetizer::new_packetizer` with a fresh `Vp9Payloader`, which has no picture number
/// set yet; else as `h264_packetizer`.
#[verifier::external_body]
fn vp9_packetizer(mtu: usize, payload_type: u8, ssrc: u32, clock_rate: u32) -> (p: RtpPacketizer)
    ensures
        rtp_settings(p) == (RtpSettings {
            codec: VideoCodec::Vp9,
            mtu,
            payload_type,
            ssrc,
            clock_rate,
        }),
        rtp_frames(p) == Seq::<Seq<u8>>::empty(),
        vp9_picture(p) is None,
{
    let payloader = Box::new(rtc_rtp::codec::vp9::Vp9Payloader::default());
    let sequencer = Box::new(rtc_rtp::sequence::new_random_sequencer());
    let inner = rtc_rtp::packetizer::new_packetizer(mtu, payload_type, ssrc, payloader, sequencer, clock_rate);
    RtpPacketizer { inner: Box::new(inner) }
}

/// `rtc_rtp::packetizer::new_packetizer` with a fresh `Av1Payloader`; else as `h264_packetizer`.
#[verifier::external_body]
fn av1_packetizer(mtu: usize, payload_type: u8, ssrc: u32, clock_rate: u32) -> (p: RtpPacketizer)
    ensures
        rtp_settings(p) == (RtpSettings {
            codec: VideoCodec::Av1,
            mtu,
            payload_type,
            ssrc,
            clock_rate,
        }),
        rtp_frames(p) == Seq::<Seq<u8>>::empty(),
{
    let payloader = Box::new(rtc_rtp::codec::av1::Av1Payloader::default());
    let sequencer = Box::new(rtc_rtp::sequence::new_random_sequencer());
    let inner = rtc_rtp::packetizer::new_packetizer(mtu, payload_type, ssrc, payloader, sequencer, clock_rate);
    RtpPacketizer { inner: Box::new(inner) }
}

/// `rand::random`: any number.
#[verifier::external_body]
fn random_ssrc() -> u32 {
    rand::random()
}

/// `packetize` of the packetizer that `rtc_rtp::packetizer::new_packetizer` makes, on a copy of
/// `data`; an error is handed on as its text.
///
/// Whatever comes of it, what the packetizer was made with stays, and the payloader has seen one
/// more frame. The packets of a frame carry consecutive sequence numbers, the marker on the last of
/// them, the clock as it was before the frame, and a payload that fits the packet size; then the
/// clock has moved on by `samples` and the sequence counter by the number of packets. A frame that
/// is refused moves neither. The payloads are those that the payloader makes of the frames so far;
/// what else is claimed of them is listed at `is_outcome`. Those of VP9 are stated in full at
/// `is_vp9_outcome`, but for the picture number of the first frame, which is random.
#[verifier::external_body]
pub(crate) fn packetize(p: &mut RtpPacketizer, data: &[u8], samples: u32) -> (r: Result<
    Vec<RtpPacket>,
    String,
>)
    requires
        rtp_settings(*old(p)).mtu >= RTP_HEADER_LEN,
        is_packetizable(rtp_settings(*old(p)).codec, data@),
    ensures
        rtp_settings(*final(p)) == rtp_settings(*old(p)),
        rtp_frames(*final(p)) == rtp_frames(*old(p)).push(data@),
        rtp_clock(*final(p)) == if r is Ok {
            clock_add(rtp_clock(*old(p)), samples)
        } else {
            rtp_clock(*old(p))
        },
        rtp_sequence(*final(p)) == (rtp_sequence(*old(p)) + packet_count(r)) % 0x1_0000,
        is_outcome(
            r,
            rtp_settings(*old(p)),
            rtp_clock(*old(p)),
            rtp_sequence(*old(p)),
            data@,
            frame_payloads(
                rtp_settings(*old(p)).codec,
                rtp_settings(*old(p)).mtu,
                rtp_frames(*old(p)).push(data@),
            ),
        ),
        rtp_settings(*old(p)).codec == VideoCodec::Vp9 && rtp_settings(*old(p)).mtu >= 16
            ==> is_vp9_outcome(
            payloads_made(r),
            data@,
            rtp_settings(*old(p)).mtu,
            vp9_picture(*old(p)),
            vp9_picture(*final(p)),
        ),
{
    let packets = p.inner.packetize(&data.to_vec().into(), samples).map_err(|e| e.to_string())?;
    Ok(packets.into_iter().map(|packet| RtpPacket {
        version: packet.header.version,
        padding: packet.header.padding,
        extension: packet.header.extension,
        marker: packet.header.marker,
        payload_type: packet.header.payload_type,
        sequence_number: packet.header.sequence_number,
        timestamp: packet.header.timestamp,
        ssrc: packet.header.ssrc,
        payload: packet.payload.to_vec(),
    }).collect())
}

/// A packetizer for frames of the given codec, whose packets carry the given labels.
pub fn make_packetizer(codec: VideoCodec, payload_type: u8, ssrc: u32, clock_rate: u32) -> (p:
    RtpPacketizer)
    ensures
        rtp_settings(p) == (RtpSettings { codec, mtu: RTP_MTU, payload_type, ssrc, clock_rate }),
        rtp_frames(p) == Seq::<Seq<u8>>::empty(),
        codec == VideoCodec::Vp9 ==> vp9_picture(p) is None,
{
    match codec {
        VideoCodec::H265 => h265_packetizer(RTP_MTU, payload_type, ssrc, clock_rate),
        VideoCodec::Av1 => av1_packetizer(RTP_MTU, payload_type, ssrc, clock_rate),
        VideoCodec::Vp8 => vp8_packetizer(RTP_MTU, payload_type, ssrc, clock_rate),
        VideoCodec::Vp9 => vp9_packetizer(RTP_MTU, payload_type, ssrc, clock_rate),
        VideoCodec::H264 => h264_packetizer(RTP_MTU, payload_type, ssrc, clock_rate),
    }
}

/// A packetizer for a new stream: its synchronization source is a random number.
pub fn open_packetizer(codec: VideoCodec, payload_type: u8, clock_rate: u32) -> (p: RtpPacketizer)
    ensures
        rtp_settings(p) == (RtpSettings {
            codec,
            mtu: RTP_MTU,
            payload_type,
            ssrc: rtp_settings(p).ssrc,
            clock_rate,
        }),
        rtp_frames(p) == Seq::<Seq<u8>>::empty(),
        codec == VideoCodec::Vp9 ==> vp9_picture(p) is None,
{
    let ssrc: u32 = random_ssrc();
    make_packetizer(codec, payload_type, ssrc, clock_rate)
}

} // verus!
