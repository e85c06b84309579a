//! The framing of encoded packets on the socket.
//!
//! Each message is a fixed header of 25 bytes followed by `data_len` payload bytes:
//!
//! ```text
//! offset  size  field
//! 0       1     codec       (the codec's number)
//! 1       4     flags       (u32 LE, bit 0 = keyframe; informational)
//! 5       8     pts_us      (u64 LE, presentation timestamp, microseconds)
//! 13      8     dts_us      (u64 LE, decode timestamp, microseconds)
//! 21      4     data_len    (u32 LE)
//! 25      ..    data        (data_len bytes, Annex-B bitstream for H.264/H.265)
//! ```
//!
//! Reading one message takes two reads of a known size, each of which the caller performs on its
//! socket: `header_read` decides what the first came to, `payload_read` what the second came to.
//! `read_packet` does both on the bytes of a whole stream.
use vstd::prelude::*;

use crate::le::{push_le, read_le};
#[allow(unused_imports)]
use crate::le::{law_le_roundtrip, le_bytes, le_value, lemma_pow256_values};
use crate::source_config::VideoCodec;
#[allow(unused_imports)]
use crate::text::decimal;
use crate::text::push_decimal;

verus! {

/// The length of a frame header.
pub const HEADER_LEN: usize = 25;

/// Sanity cap on a single encoded frame's size, to fail fast on a desynchronized or corrupt stream
/// instead of trying to allocate a bogus amount of memory.
pub const MAX_FRAME_LEN: u32 = 16 * 1024 * 1024;

/// One encoded packet, as it came off the socket.
#[derive(Debug)]
pub struct RemoteEncodedPacket {
    /// The sender's flags; bit 0 marks a keyframe.
    pub flags: u32,
    /// Presentation timestamp, in microseconds.
    pub pts_us: u64,
    /// The bitstream of one access unit.
    pub data: Vec<u8>,
}

/// The content of a `RemoteEncodedPacket`.
pub struct PacketView {
    pub flags: u32,
    pub pts_us: u64,
    pub data: Seq<u8>,
}

impl View for RemoteEncodedPacket {
    type V = PacketView;

    open spec fn view(&self) -> PacketView {
        PacketView { flags: self.flags, pts_us: self.pts_us, data: self.data@ }
    }
}

/// The fields of a frame header that the reader uses.
#[derive(Clone, Copy, Debug, PartialEq, Eq, Structural)]
pub struct PacketHeader {
    pub flags: u32,
    pub pts_us: u64,
    pub data_len: u32,
}

/// Why no packet could be read.
#[derive(Clone, Copy, Debug, PartialEq, Eq, Structural)]
pub enum ReadError {
    /// The socket failed while the header was read.
    Header,
    /// The header announces more data than a frame can have.
    FrameTooLong(u32),
    /// The socket failed or ended while the payload was read.
    Payload,
}

impl ReadError {
    /// What the error is reported as.
    pub open spec fn text(self) -> Seq<char> {
        match self {
            ReadError::Header => "reading IPC packet header"@,
            ReadError::FrameTooLong(len) => "IPC frame length "@ + decimal(len as nat)
                + " exceeds sanity cap "@ + decimal(MAX_FRAME_LEN as nat)
                + ", treating stream as desynchronized"@,
            ReadError::Payload => "reading IPC packet payload"@,
        }
    }

    /// What the error is reported as.
    pub fn message(&self) -> (message: String)
        ensures
            message@ == self.text(),
    {
        match self {
            ReadError::Header => "reading IPC packet header".to_owned(),
            ReadError::FrameTooLong(len) => {
                let mut message: String = "IPC frame length ".to_owned();
                push_decimal(&mut message, *len);
                message.append(" exceeds sanity cap ");
                push_decimal(&mut message, MAX_FRAME_LEN);
                message.append(", treating stream as desynchronized");
                message
            },
            ReadError::Payload => "reading IPC packet payload".to_owned(),
        }
    }
}

/// What an attempt to read a known number of bytes from the socket came to.
#[derive(Debug)]
pub enum ReadEvent {
    /// All the bytes.
    Filled(Vec<u8>),
    /// The peer closed the connection before the last of them.
    Eof,
    /// The socket failed.
    Failed,
}

impl ReadEvent {
    /// Whether the event can be the outcome of a read of `n` bytes.
    pub open spec fn is_read_of(self, n: nat) -> bool {
        self matches ReadEvent::Filled(bytes) ==> bytes@.len() == n
    }
}

/// What the reader does once the header has been read.
#[derive(Clone, Copy, Debug, PartialEq, Eq, Structural)]
pub enum HeaderStep {
    /// The stream is over.
    Closed,
    /// Read the payload that the header announces.
    Payload(PacketHeader),
    /// Give up.
    Failed(ReadError),
}

/// The flags of a frame whose header is `h`.
pub open spec fn flags_of(h: Seq<u8>) -> u32 {
    le_value(h.subrange(1, 5)) as u32
}

/// The presentation timestamp of a frame whose header is `h`.
pub open spec fn pts_of(h: Seq<u8>) -> u64 {
    le_value(h.subrange(5, 13)) as u64
}

/// The payload length of a frame whose header is `h`.
pub open spec fn data_len_of(h: Seq<u8>) -> u32 {
    le_value(h.subrange(21, 25)) as u32
}

/// What a complete header `h` leads to.
pub open spec fn step_of_header(h: Seq<u8>) -> HeaderStep {
    if data_len_of(h) > MAX_FRAME_LEN {
        HeaderStep::Failed(ReadError::FrameTooLong(data_len_of(h)))
    } else {
        HeaderStep::Payload(
            PacketHeader { flags: flags_of(h), pts_us: pts_of(h), data_len: data_len_of(h) },
        )
    }
}

/// Decides what the read of a header came to. A stream that ends inside a header is over, as one
/// that ends between two frames is.
pub fn header_read(event: ReadEvent) -> (step: HeaderStep)
    requires
        event.is_read_of(HEADER_LEN as nat),
    ensures
        step == match event {
            ReadEvent::Filled(h) => step_of_header(h@),
            ReadEvent::Eof => HeaderStep::Closed,
            ReadEvent::Failed => HeaderStep::Failed(ReadError::Header),
        },
{
    match event {
        ReadEvent::Filled(h) => {
            proof {
                lemma_pow256_values();
            }
            let flags: u32 = read_le(h.as_slice(), 1, 4) as u32;
            let pts_us: u64 = read_le(h.as_slice(), 5, 8);
            let data_len: u32 = read_le(h.as_slice(), 21, 4) as u32;
            if data_len > MAX_FRAME_LEN {
                HeaderStep::Failed(ReadError::FrameTooLong(data_len))
            } else {
                HeaderStep::Payload(PacketHeader { flags, pts_us, data_len })
            }
        },
        ReadEvent::Eof => HeaderStep::Closed,
        ReadEvent::Failed => HeaderStep::Failed(ReadError::Header),
    }
}

/// Decides what the read of a payload came to. Here the end of the stream is an error.
pub fn payload_read(header: PacketHeader, event: ReadEvent) -> (r: Result<
    RemoteEncodedPacket,
    ReadError,
>)
    requires
        event.is_read_of(header.data_len as nat),
    ensures
        match event {
            ReadEvent::Filled(data) => r matches Ok(packet) && packet.flags == header.flags
                && packet.pts_us == header.pts_us && packet.data@ == data@,
            _ => r == Err::<RemoteEncodedPacket, ReadError>(ReadError::Payload),
        },
{
    match event {
        ReadEvent::Filled(data) => Ok(
            RemoteEncodedPacket { flags: header.flags, pts_us: header.pts_us, data },
        ),
        _ => Err(ReadError::Payload),
    }
}

/// What reading one packet comes to where the stream holds `input` and then ends: the end of the
/// stream, a packet together with the number of bytes it took, or an error.
pub open spec fn packet_at_front(input: Seq<u8>) -> Result<Option<(PacketView, nat)>, ReadError> {
    if input.len() < HEADER_LEN {
        Ok(None)
    } else {
        let h = input.take(HEADER_LEN as int);
        if data_len_of(h) > MAX_FRAME_LEN {
            Err(ReadError::FrameTooLong(data_len_of(h)))
        } else if input.len() < HEADER_LEN + data_len_of(h) {
            Err(ReadError::Payload)
        } else {
            Ok(
                Some(
                    (
                        PacketView {
                            flags: flags_of(h),
                            pts_us: pts_of(h),
                            data: input.subrange(HEADER_LEN as int, HEADER_LEN + data_len_of(h)),
                        },
                        (HEADER_LEN + data_len_of(h)) as nat,
                    ),
                ),
            )
        }
    }
}

/// The outcome of a read of `n` bytes at index `at` of a stream that holds `input` and then ends.
fn read_at(input: &[u8], at: usize, n: usize) -> (event: ReadEvent)
    requires
        at <= input.len(),
    ensures
        match event {
            ReadEvent::Filled(bytes) => input.len() - at >= n && bytes@ == input@.subrange(
                at as int,
                at + n,
            ),
            ReadEvent::Eof => input.len() - at < n,
            ReadEvent::Failed => false,
        },
{
    if input.len() - at < n {
        return ReadEvent::Eof;
    }
    let mut bytes: Vec<u8> = Vec::new();
    let mut i: usize = 0;
    while i < n
        invariant
            i <= n <= input.len() - at,
            bytes@ == input@.subrange(at as int, at + i),
        decreases n - i,
    {
        bytes.push(input[at + i]);
        i += 1;
        assert(bytes@ =~= input@.subrange(at as int, at + i));
    }
    ReadEvent::Filled(bytes)
}

/// Reads one framed packet from the front of a stream that holds `input` and then ends, and tells
/// how many bytes it took. Gives `Ok(None)` where the stream is over.
pub fn read_packet(input: &[u8]) -> (r: Result<Option<(RemoteEncodedPacket, usize)>, ReadError>)
    ensures
        match (r, packet_at_front(input@)) {
            (Ok(Some((packet, used))), Ok(Some((view, n)))) => packet@ == view && used == n,
            (Ok(None), Ok(None)) => true,
            (Err(e), Err(f)) => e == f,
            _ => false,
        },
{
    let first: ReadEvent = read_at(input, 0, HEADER_LEN);
    assert(input@.len() >= HEADER_LEN ==> input@.subrange(0, HEADER_LEN as int) =~= input@.take(
        HEADER_LEN as int,
    ));
    match header_read(first) {
        HeaderStep::Closed => Ok(None),
        HeaderStep::Failed(e) => Err(e),
        HeaderStep::Payload(header) => {
            let len: usize = header.data_len as usize;
            match payload_read(header, read_at(input, HEADER_LEN, len)) {
                Ok(packet) => Ok(Some((packet, HEADER_LEN + len))),
                Err(e) => Err(e),
            }
        },
    }
}

/// The header of a frame.
pub open spec fn header_bytes(
    codec: VideoCodec,
    flags: u32,
    pts_us: u64,
    dts_us: u64,
    data_len: nat,
) -> Seq<u8> {
    seq![codec.number()] + le_bytes(flags as nat, 4) + le_bytes(pts_us as nat, 8) + le_bytes(
        dts_us as nat,
        8,
    ) + le_bytes(data_len, 4)
}

/// A whole frame. The length field holds the length of the data modulo two to the power of 32.
pub open spec fn frame_bytes(
    codec: VideoCodec,
    flags: u32,
    pts_us: u64,
    dts_us: u64,
    data: Seq<u8>,
) -> Seq<u8> {
    header_bytes(codec, flags, pts_us, dts_us, data.len() % 0x1_0000_0000) + data
}

/// Writes one framed packet to the end of `out`.
pub fn write_packet(
    out: &mut Vec<u8>,
    codec: VideoCodec,
    flags: u32,
    pts_us: u64,
    dts_us: u64,
    data: &[u8],
)
    ensures
        final(out)@ == old(out)@ + frame_bytes(codec, flags, pts_us, dts_us, data@),
{
    out.push(codec.as_u8());
    push_le(out, flags as u64, 4);
    push_le(out, pts_us, 8);
    push_le(out, dts_us, 8);
    push_le(out, data.len() as u64 % 0x1_0000_0000, 4);
    out.extend_from_slice(data);
    assert(out@ =~= old(out)@ + frame_bytes(codec, flags, pts_us, dts_us, data@));
}

/// Where the fields of a header stand.
pub proof fn lemma_header_fields(codec: VideoCodec, flags: u32, pts_us: u64, dts_us: u64, data_len: nat)
    requires
        data_len < 0x1_0000_0000,
    ensures
        ({
            let h = header_bytes(codec, flags, pts_us, dts_us, data_len);
            &&& h.len() == HEADER_LEN
            &&& h[0] == codec.number()
            &&& flags_of(h) == flags
            &&& pts_of(h) == pts_us
            &&& data_len_of(h) == data_len
        }),
{
    let h = header_bytes(codec, flags, pts_us, dts_us, data_len);
    lemma_pow256_values();
    law_le_roundtrip(flags as nat, 4);
    law_le_roundtrip(pts_us as nat, 8);
    law_le_roundtrip(dts_us as nat, 8);
    law_le_roundtrip(data_len, 4);
    assert(h.subrange(1, 5) =~= le_bytes(flags as nat, 4));
    assert(h.subrange(5, 13) =~= le_bytes(pts_us as nat, 8));
    assert(h.subrange(21, 25) =~= le_bytes(data_len, 4));
}

/// A frame that was written is read back: from a stream that begins with it the reader takes
/// exactly the frame's bytes and gives its flags, its presentation timestamp and its data,
/// whatever `after` follows.
pub proof fn law_read_inverts_write(
    codec: VideoCodec,
    flags: u32,
    pts_us: u64,
    dts_us: u64,
    data: Seq<u8>,
    after: Seq<u8>,
)
    requires
        data.len() <= MAX_FRAME_LEN,
    ensures
        packet_at_front(frame_bytes(codec, flags, pts_us, dts_us, data) + after) == Ok::<
            _,
            ReadError,
        >(
            Some(
                (
                    PacketView { flags, pts_us, data },
                    frame_bytes(codec, flags, pts_us, dts_us, data).len(),
                ),
            ),
        ),
{
    let frame = frame_bytes(codec, flags, pts_us, dts_us, data);
    let input = frame + after;
    let h = header_bytes(codec, flags, pts_us, dts_us, data.len());
    lemma_header_fields(codec, flags, pts_us, dts_us, data.len());
    assert(frame == h + data);
    assert(input.take(HEADER_LEN as int) =~= h);
    assert(input.subrange(HEADER_LEN as int, HEADER_LEN + data.len()) =~= data);
}

/// A frame longer than the cap is refused by its header, whatever follows.
pub proof fn law_oversized_frame_is_refused(
    codec: VideoCodec,
    flags: u32,
    pts_us: u64,
    dts_us: u64,
    data: Seq<u8>,
    after: Seq<u8>,
)
    requires
        MAX_FRAME_LEN < data.len() < 0x1_0000_0000,
    ensures
        packet_at_front(frame_bytes(codec, flags, pts_us, dts_us, data) + after) == Err::<
            Option<(PacketView, nat)>,
            _,
        >(ReadError::FrameTooLong(data.len() as u32)),
{
    let input = frame_bytes(codec, flags, pts_us, dts_us, data) + after;
    lemma_header_fields(codec, flags, pts_us, dts_us, data.len());
    assert(input.take(HEADER_LEN as int) =~= header_bytes(
        codec,
        flags,
        pts_us,
        dts_us,
        data.len(),
    ));
}

/// A frame that is cut short is never read as a packet: a stream that ends inside the header
/// counts as closed, one that ends inside the payload as broken.
pub proof fn law_cut_frame_is_no_packet(
    codec: VideoCodec,
    flags: u32,
    pts_us: u64,
    dts_us: u64,
    data: Seq<u8>,
    n: int,
)
    requires
        data.len() <= MAX_FRAME_LEN,
        0 <= n < frame_bytes(codec, flags, pts_us, dts_us, data).len(),
    ensures
        packet_at_front(frame_bytes(codec, flags, pts_us, dts_us, data).take(n)) == if n
            < HEADER_LEN {
            Ok::<Option<(PacketView, nat)>, ReadError>(None)
        } else {
            Err::<Option<(PacketView, nat)>, ReadError>(ReadError::Payload)
        },
{
    let frame = frame_bytes(codec, flags, pts_us, dts_us, data);
    lemma_header_fields(codec, flags, pts_us, dts_us, data.len());
    if n >= HEADER_LEN {
        assert(frame.take(n).take(HEADER_LEN as int) =~= header_bytes(
            codec,
            flags,
            pts_us,
            dts_us,
            data.len(),
        ));
    }
}

/// What one frame is written from.
pub struct FrameInput {
    pub codec: VideoCodec,
    pub flags: u32,
    pub pts_us: u64,
    pub dts_us: u64,
    pub data: Seq<u8>,
}

/// The bytes of several frames, one behind the other.
pub open spec fn stream_bytes(frames: Seq<FrameInput>) -> Seq<u8>
    decreases frames.len(),
{
    if frames.len() == 0 {
        Seq::empty()
    } else {
        let f = frames[0];
        frame_bytes(f.codec, f.flags, f.pts_us, f.dts_us, f.data) + stream_bytes(frames.skip(1))
    }
}

/// The packets that a reader gets from a stream until it ends or breaks, and whether it broke.
pub open spec fn packets_of(input: Seq<u8>) -> (Seq<PacketView>, Option<ReadError>)
    decreases input.len(),
{
    match packet_at_front(input) {
        Ok(Some((packet, n))) => {
            if 0 < n <= input.len() {
                let (rest, end) = packets_of(input.skip(n as int));
                (seq![packet] + rest, end)
            } else {
                (Seq::empty(), None)
            }
        },
        Ok(None) => (Seq::empty(), None),
        Err(e) => (Seq::empty(), Some(e)),
    }
}

/// Frames written one behind the other are read back one by one, in their order, and the stream
/// then ends cleanly.
pub proof fn law_stream_roundtrip(frames: Seq<FrameInput>)
    requires
        forall|i: int| 0 <= i < frames.len() ==> (#[trigger] frames[i]).data.len() <= MAX_FRAME_LEN,
    ensures
        packets_of(stream_bytes(frames)) == (
            frames.map_values(
                |f: FrameInput| PacketView { flags: f.flags, pts_us: f.pts_us, data: f.data },
            ),
            None::<ReadError>,
        ),
    decreases frames.len(),
{
    let view = |f: FrameInput| PacketView { flags: f.flags, pts_us: f.pts_us, data: f.data };
    if frames.len() == 0 {
        assert(frames.map_values(view) =~= Seq::empty());
    } else {
        let f = frames[0];
        let frame = frame_bytes(f.codec, f.flags, f.pts_us, f.dts_us, f.data);
        let rest = stream_bytes(frames.skip(1));
        assert forall|i: int| 0 <= i < frames.skip(1).len() implies (
        #[trigger] frames.skip(1)[i]).data.len() <= MAX_FRAME_LEN by {
            assert(frames.skip(1)[i] == frames[i + 1]);
        }
        law_stream_roundtrip(frames.skip(1));
        law_read_inverts_write(f.codec, f.flags, f.pts_us, f.dts_us, f.data, rest);
        lemma_header_fields(f.codec, f.flags, f.pts_us, f.dts_us, f.data.len());
        assert((frame + rest).skip(frame.len() as int) =~= rest);
        assert(frames.map_values(view) =~= seq![view(f)] + frames.skip(1).map_values(view));
    }
}

} // verus!
