//! What is written on the socket, byte by byte, and what is read from it.
#[allow(unused_imports)]
use vstd::arithmetic::power::pow;
use vstd::prelude::*;

#[allow(unused_imports)]
use crate::digits::lemma_shift;
#[allow(unused_imports)]
use crate::frame::{
    data_len_of, flags_of, frame_bytes, header_bytes, header_read, law_read_inverts_write,
    lemma_header_fields, payload_read, pts_of, read_packet, step_of_header, write_packet,
    HeaderStep, PacketHeader, ReadError, ReadEvent, RemoteEncodedPacket,
};
#[allow(unused_imports)]
use crate::le::{
    law_le_bytes_are_digits, law_le_roundtrip, law_le_value_has_the_bytes_as_digits, le_bytes,
    le_value, lemma_le_bytes_of_remainder, lemma_pow256_values,
};
#[allow(unused_imports)]
use crate::source_config::VideoCodec;
#[allow(unused_imports)]
use crate::text::{decimal, law_decimal_digits};

verus! {

/// The first powers of 256.
proof fn lemma_powers()
    ensures
        pow(256, 0) == 1,
        pow(256, 1) == 0x100,
        pow(256, 2) == 0x1_0000,
        pow(256, 3) == 0x100_0000,
        pow(256, 4) == 0x1_0000_0000,
{
    lemma_shift(0, 256, 0);
    lemma_shift(0, 256, 1);
    lemma_shift(0, 256, 2);
    lemma_shift(0, 256, 3);
}

/// The layout of a frame. It is written behind what was there before, and takes 25 bytes more than
/// its data: first the number of the codec, then flags, presentation timestamp, decode timestamp and
/// length of the data, each least significant byte first, then the data.
pub proof fn law_written_frame_layout(
    out: &mut Vec<u8>,
    codec: VideoCodec,
    flags: u32,
    pts_us: u64,
    dts_us: u64,
    data: &[u8],
)
    requires
        call_ensures(write_packet, (out, codec, flags, pts_us, dts_us, data), ()),
    ensures
        ({
            let n = old(out)@.len() as int;
            let f = final(out)@;
            &&& f.len() == n + 25 + data@.len()
            &&& f.take(n) == old(out)@
            &&& f[n] == codec.number()
            &&& f.subrange(n + 1, n + 5) == Seq::new(
                4,
                |i: int| (flags as int / pow(256, i as nat) % 256) as u8,
            )
            &&& f.subrange(n + 5, n + 13) == Seq::new(
                8,
                |i: int| (pts_us as int / pow(256, i as nat) % 256) as u8,
            )
            &&& f.subrange(n + 13, n + 21) == Seq::new(
                8,
                |i: int| (dts_us as int / pow(256, i as nat) % 256) as u8,
            )
            &&& f.subrange(n + 21, n + 25) == Seq::new(
                4,
                |i: int| (data@.len() as int / pow(256, i as nat) % 256) as u8,
            )
            &&& f.skip(n + 25) == data@
        }),
{
    let n = old(out)@.len() as int;
    let f = final(out)@;
    let len = data@.len();
    law_frame_layout(codec, flags, pts_us, dts_us, data@);
    let frame = frame_bytes(codec, flags, pts_us, dts_us, data@);
    assert(f.take(n) =~= old(out)@);
    assert(f.subrange(n + 1, n + 5) =~= frame.subrange(1, 5));
    assert(f.subrange(n + 5, n + 13) =~= frame.subrange(5, 13));
    assert(f.subrange(n + 13, n + 21) =~= frame.subrange(13, 21));
    assert(f.subrange(n + 21, n + 25) =~= frame.subrange(21, 25));
    assert(f.skip(n + 25) =~= frame.skip(25));
}

/// The bytes of a frame, field by field.
pub proof fn law_frame_layout(
    codec: VideoCodec,
    flags: u32,
    pts_us: u64,
    dts_us: u64,
    data: Seq<u8>,
)
    ensures
        ({
            let f = frame_bytes(codec, flags, pts_us, dts_us, data);
            &&& f.len() == 25 + data.len()
            &&& f[0] == codec.number()
            &&& f.subrange(1, 5) == Seq::new(
                4,
                |i: int| (flags as int / pow(256, i as nat) % 256) as u8,
            )
            &&& f.subrange(5, 13) == Seq::new(
                8,
                |i: int| (pts_us as int / pow(256, i as nat) % 256) as u8,
            )
            &&& f.subrange(13, 21) == Seq::new(
                8,
                |i: int| (dts_us as int / pow(256, i as nat) % 256) as u8,
            )
            &&& f.subrange(21, 25) == Seq::new(
                4,
                |i: int| (data.len() as int / pow(256, i as nat) % 256) as u8,
            )
            &&& f.skip(25) == data
        }),
{
    let f = frame_bytes(codec, flags, pts_us, dts_us, data);
    let len = data.len() % 0x1_0000_0000;
    law_le_bytes_are_digits(flags as nat, 4);
    law_le_bytes_are_digits(pts_us as nat, 8);
    law_le_bytes_are_digits(dts_us as nat, 8);
    law_le_bytes_are_digits(data.len(), 4);
    lemma_pow256_values();
    lemma_le_bytes_of_remainder(data.len(), 4);
    assert(f.subrange(1, 5) =~= le_bytes(flags as nat, 4));
    assert(f.subrange(5, 13) =~= le_bytes(pts_us as nat, 8));
    assert(f.subrange(13, 21) =~= le_bytes(dts_us as nat, 8));
    assert(f.subrange(21, 25) =~= le_bytes(len, 4));
    assert(f.skip(25) =~= data);
    assert(f.subrange(21, 25) =~= Seq::new(
        4,
        |i: int| (data.len() as int / pow(256, i as nat) % 256) as u8,
    ));
    assert(f.subrange(1, 5) =~= Seq::new(
        4,
        |i: int| (flags as int / pow(256, i as nat) % 256) as u8,
    ));
    assert(f.subrange(5, 13) =~= Seq::new(
        8,
        |i: int| (pts_us as int / pow(256, i as nat) % 256) as u8,
    ));
    assert(f.subrange(13, 21) =~= Seq::new(
        8,
        |i: int| (dts_us as int / pow(256, i as nat) % 256) as u8,
    ));
}

/// The decode timestamp stands in the frame, at offset 13, whatever the other fields are.
pub proof fn law_decode_timestamp_is_kept(
    codec: VideoCodec,
    flags: u32,
    pts_us: u64,
    dts_us: u64,
    data: Seq<u8>,
)
    ensures
        le_value(frame_bytes(codec, flags, pts_us, dts_us, data).subrange(13, 21)) == dts_us,
        frame_bytes(codec, flags, pts_us, dts_us, data).subrange(13, 21) == Seq::new(
            8,
            |i: int| (dts_us as int / pow(256, i as nat) % 256) as u8,
        ),
{
    law_frame_layout(codec, flags, pts_us, dts_us, data);
    lemma_pow256_values();
    law_le_roundtrip(dts_us as nat, 8);
    law_le_bytes_are_digits(dts_us as nat, 8);
    assert(frame_bytes(codec, flags, pts_us, dts_us, data).subrange(13, 21) =~= le_bytes(
        dts_us as nat,
        8,
    ));
}

/// What the reader of a header makes of its bytes. The flags, the presentation timestamp and the
/// length are the numbers whose bytes stand at the offsets 1, 5 and 21, least significant byte first;
/// the bytes at the other offsets do not count. A length above 16 MiB is refused, and told. A stream
/// that ends is closed, and a socket that fails is an error.
pub proof fn law_header_read_gives_the_fields(event: ReadEvent, step: HeaderStep)
    requires
        call_ensures(header_read, (event,), step),
        event matches ReadEvent::Filled(h) ==> h@.len() == 25,
    ensures
        match event {
            ReadEvent::Eof => step == HeaderStep::Closed,
            ReadEvent::Failed => step == HeaderStep::Failed(ReadError::Header),
            ReadEvent::Filled(h) => match step {
                HeaderStep::Payload(p) => {
                    &&& p.data_len <= 16_777_216
                    &&& h@.subrange(1, 5) == Seq::new(
                        4,
                        |i: int| (p.flags as int / pow(256, i as nat) % 256) as u8,
                    )
                    &&& h@.subrange(5, 13) == Seq::new(
                        8,
                        |i: int| (p.pts_us as int / pow(256, i as nat) % 256) as u8,
                    )
                    &&& h@.subrange(21, 25) == Seq::new(
                        4,
                        |i: int| (p.data_len as int / pow(256, i as nat) % 256) as u8,
                    )
                },
                HeaderStep::Failed(ReadError::FrameTooLong(len)) => {
                    &&& len > 16_777_216
                    &&& h@.subrange(21, 25) == Seq::new(
                        4,
                        |i: int| (len as int / pow(256, i as nat) % 256) as u8,
                    )
                },
                _ => false,
            },
        },
{
    match event {
        ReadEvent::Filled(h) => {
            lemma_fields_of(h@);
        },
        _ => {},
    }
}

/// The fields of a header have the bytes at their offsets.
proof fn lemma_fields_of(h: Seq<u8>)
    requires
        h.len() == 25,
    ensures
        h.subrange(1, 5) == Seq::new(
            4,
            |i: int| (flags_of(h) as int / pow(256, i as nat) % 256) as u8,
        ),
        h.subrange(5, 13) == Seq::new(
            8,
            |i: int| (pts_of(h) as int / pow(256, i as nat) % 256) as u8,
        ),
        h.subrange(21, 25) == Seq::new(
            4,
            |i: int| (data_len_of(h) as int / pow(256, i as nat) % 256) as u8,
        ),
{
    lemma_powers();
    lemma_shift(0, 256, 4);
    lemma_shift(0, 256, 5);
    lemma_shift(0, 256, 6);
    lemma_shift(0, 256, 7);
    law_le_value_has_the_bytes_as_digits(h.subrange(1, 5));
    law_le_value_has_the_bytes_as_digits(h.subrange(5, 13));
    law_le_value_has_the_bytes_as_digits(h.subrange(21, 25));
    assert(flags_of(h) == le_value(h.subrange(1, 5)));
    assert(pts_of(h) == le_value(h.subrange(5, 13)));
    assert(data_len_of(h) == le_value(h.subrange(21, 25)));
    assert(h.subrange(1, 5) =~= Seq::new(
        4,
        |i: int| (flags_of(h) as int / pow(256, i as nat) % 256) as u8,
    ));
    assert(h.subrange(5, 13) =~= Seq::new(
        8,
        |i: int| (pts_of(h) as int / pow(256, i as nat) % 256) as u8,
    ));
    assert(h.subrange(21, 25) =~= Seq::new(
        4,
        |i: int| (data_len_of(h) as int / pow(256, i as nat) % 256) as u8,
    ));
}

/// A header that was written is read back.
pub proof fn law_header_read_inverts_write(
    codec: VideoCodec,
    flags: u32,
    pts_us: u64,
    dts_us: u64,
    data: Seq<u8>,
)
    requires
        data.len() <= 16_777_216,
    ensures
        step_of_header(header_bytes(codec, flags, pts_us, dts_us, data.len()))
            == HeaderStep::Payload(PacketHeader { flags, pts_us, data_len: data.len() as u32 }),
{
    lemma_header_fields(codec, flags, pts_us, dts_us, data.len());
}

/// What a reader gets with its two reads, of 25 bytes and then of as many as the header announces,
/// from a socket that one frame was written to: the flags, the presentation timestamp and the data
/// that were written.
pub proof fn law_socket_reader_inverts_writer(
    out: &mut Vec<u8>,
    codec: VideoCodec,
    flags: u32,
    pts_us: u64,
    dts_us: u64,
    data: &[u8],
    h: Vec<u8>,
    step: HeaderStep,
    d: Vec<u8>,
    r: Result<RemoteEncodedPacket, ReadError>,
)
    requires
        data@.len() <= 16_777_216,
        call_ensures(write_packet, (out, codec, flags, pts_us, dts_us, data), ()),
        old(out)@.len() == 0,
        h@ == final(out)@.take(25),
        call_ensures(header_read, (ReadEvent::Filled(h),), step),
        d@ == final(out)@.skip(25),
        step matches HeaderStep::Payload(header) ==> call_ensures(
            payload_read,
            (header, ReadEvent::Filled(d)),
            r,
        ),
    ensures
        step == HeaderStep::Payload(PacketHeader { flags, pts_us, data_len: data@.len() as u32 }),
        r matches Ok(packet) && packet.flags == flags && packet.pts_us == pts_us && packet.data@
            == data@,
{
    law_written_frame_layout(out, codec, flags, pts_us, dts_us, data);
    lemma_header_fields(codec, flags, pts_us, dts_us, data@.len());
    assert(h@ =~= header_bytes(codec, flags, pts_us, dts_us, data@.len()));
}

/// What the read of a payload comes to: a packet with the flags and the presentation timestamp of
/// the header and with the bytes that were read, or an error if the stream ended or failed.
pub proof fn law_payload_read_keeps_header_and_data(
    header: PacketHeader,
    event: ReadEvent,
    r: Result<RemoteEncodedPacket, ReadError>,
)
    requires
        call_ensures(payload_read, (header, event), r),
    ensures
        match event {
            ReadEvent::Filled(data) => r matches Ok(packet) && packet.flags == header.flags
                && packet.pts_us == header.pts_us && packet.data@ == data@,
            _ => r matches Err(e) && e == ReadError::Payload,
        },
{
}

/// What the reader of a whole stream makes of its bytes. There is a packet exactly where the stream
/// holds a header and all the data it announces, and these are not more than 16 MiB; it is made of
/// the bytes at their offsets, and takes the header and the data.
pub proof fn law_read_packet_gives_the_fields(
    input: &[u8],
    r: Result<Option<(RemoteEncodedPacket, usize)>, ReadError>,
)
    requires
        call_ensures(read_packet, (input,), r),
    ensures
        match r {
            Ok(Some((p, used))) => {
                &&& used == 25 + p.data@.len()
                &&& used <= input@.len()
                &&& p.data@.len() <= 16_777_216
                &&& p.data@ == input@.subrange(25, used as int)
                &&& input@.subrange(1, 5) == Seq::new(
                    4,
                    |i: int| (p.flags as int / pow(256, i as nat) % 256) as u8,
                )
                &&& input@.subrange(5, 13) == Seq::new(
                    8,
                    |i: int| (p.pts_us as int / pow(256, i as nat) % 256) as u8,
                )
                &&& input@.subrange(21, 25) == Seq::new(
                    4,
                    |i: int| (p.data@.len() as int / pow(256, i as nat) % 256) as u8,
                )
            },
            Ok(None) => input@.len() < 25,
            Err(ReadError::FrameTooLong(len)) => {
                &&& input@.len() >= 25
                &&& len > 16_777_216
                &&& input@.subrange(21, 25) == Seq::new(
                    4,
                    |i: int| (len as int / pow(256, i as nat) % 256) as u8,
                )
            },
            Err(ReadError::Payload) => {
                &&& input@.len() >= 25
                &&& le_value(input@.subrange(21, 25)) <= 16_777_216
                &&& input@.len() < 25 + le_value(input@.subrange(21, 25))
            },
            Err(ReadError::Header) => false,
        },
{
    if input@.len() >= 25 {
        let h = input@.take(25);
        lemma_fields_of(h);
        assert(h.subrange(1, 5) =~= input@.subrange(1, 5));
        assert(h.subrange(5, 13) =~= input@.subrange(5, 13));
        assert(h.subrange(21, 25) =~= input@.subrange(21, 25));
        law_le_value_has_the_bytes_as_digits(h.subrange(21, 25));
        lemma_powers();
        match r {
            Ok(Some((p, used))) => {
                let view = p@;
                assert(p.data@.len() == data_len_of(h));
                assert(input@.subrange(21, 25) =~= Seq::new(
                    4,
                    |i: int| (p.data@.len() as int / pow(256, i as nat) % 256) as u8,
                ));
            },
            _ => {},
        }
    }
}

/// What one call writes, another reads: from a stream that begins with a frame the reader takes the
/// frame and no more, whatever follows.
pub proof fn law_stream_reader_inverts_writer(
    out: &mut Vec<u8>,
    codec: VideoCodec,
    flags: u32,
    pts_us: u64,
    dts_us: u64,
    data: &[u8],
    after: Seq<u8>,
    input: &[u8],
    r: Result<Option<(RemoteEncodedPacket, usize)>, ReadError>,
)
    requires
        data@.len() <= 16_777_216,
        call_ensures(write_packet, (out, codec, flags, pts_us, dts_us, data), ()),
        input@ == final(out)@.skip(old(out)@.len() as int) + after,
        call_ensures(read_packet, (input,), r),
    ensures
        r matches Ok(Some((packet, used))) && packet.flags == flags && packet.pts_us == pts_us
            && packet.data@ == data@ && used == 25 + data@.len(),
{
    let frame = frame_bytes(codec, flags, pts_us, dts_us, data@);
    assert(final(out)@.skip(old(out)@.len() as int) =~= frame);
    law_read_inverts_write(codec, flags, pts_us, dts_us, data@, after);
    law_frame_layout(codec, flags, pts_us, dts_us, data@);
    match r {
        Ok(Some((packet, used))) => {
            assert(packet@.data == data@);
        },
        _ => {},
    }
}

/// What the errors of a reader are reported as. That of a frame which is too long holds its length,
/// in decimal digits.
pub proof fn law_error_messages(error: ReadError, message: String)
    requires
        call_ensures(ReadError::message, (&error,), message),
    ensures
        match error {
            ReadError::Header => message@ == "reading IPC packet header"@,
            ReadError::Payload => message@ == "reading IPC packet payload"@,
            ReadError::FrameTooLong(len) => exists|n: nat|
                #![trigger pow(10, n)]
                {
                    &&& n > 0
                    &&& len < pow(10, n)
                    &&& n > 1 ==> len >= pow(10, (n - 1) as nat)
                    &&& message@ == "IPC frame length "@ + Seq::new(
                        n,
                        |i: int| (48 + len as int / pow(10, (n - 1 - i) as nat) % 10) as char,
                    ) + " exceeds sanity cap 16777216, treating stream as desynchronized"@
                },
        },
{
    match error {
        ReadError::FrameTooLong(len) => {
            law_decimal_digits(len as nat);
            let n = decimal(len as nat).len();
            assert(pow(10, n) > len);
            assert(decimal(len as nat) =~= Seq::new(
                n,
                |i: int| (48 + len as int / pow(10, (n - 1 - i) as nat) % 10) as char,
            ));
            lemma_cap_text();
            assert(message@ =~= "IPC frame length "@ + decimal(len as nat)
                + " exceeds sanity cap 16777216, treating stream as desynchronized"@);
        },
        _ => {},
    }
}

proof fn lemma_cap_text()
    ensures
        " exceeds sanity cap 16777216, treating stream as desynchronized"@
            == " exceeds sanity cap "@ + decimal(16_777_216)
            + ", treating stream as desynchronized"@,
{
    reveal_strlit(" exceeds sanity cap 16777216, treating stream as desynchronized");
    reveal_strlit(" exceeds sanity cap ");
    reveal_strlit(", treating stream as desynchronized");
    reveal_with_fuel(decimal, 9);
    assert(decimal(16_777_216) =~= seq!['1', '6', '7', '7', '7', '2', '1', '6']);
    assert(" exceeds sanity cap 16777216, treating stream as desynchronized"@
        =~= " exceeds sanity cap "@ + decimal(16_777_216)
        + ", treating stream as desynchronized"@);
}

} // verus!
