use ipc_source::frame::{
    header_read, payload_read, read_packet, write_packet, HeaderStep, PacketHeader, ReadError,
    ReadEvent, HEADER_LEN, MAX_FRAME_LEN,
};
use ipc_source::source_config::VideoCodec;

#[test]
fn roundtrip_packet_framing() {
    let payload = vec![0xAAu8; 1234];
    let mut stream: Vec<u8> = Vec::new();
    write_packet(&mut stream, VideoCodec::H264, 1, 1_000_000, 999_000, &payload);

    let (pkt, used) = read_packet(&stream).unwrap().unwrap();

    assert_eq!(pkt.flags, 1);
    assert_eq!(pkt.pts_us, 1_000_000);
    assert_eq!(pkt.data, payload);
    assert_eq!(used, stream.len());
}

#[test]
fn clean_eof_yields_none() {
    assert!(read_packet(&[]).unwrap().is_none());
    assert_eq!(header_read(ReadEvent::Eof), HeaderStep::Closed);
}

#[test]
fn header_layout_is_little_endian() {
    let mut out: Vec<u8> = vec![9];
    write_packet(
        &mut out,
        VideoCodec::Vp9,
        0x04030201,
        0x1817161514131211,
        0x2827262524232221,
        &[0xEE, 0xFF],
    );
    let expected: Vec<u8> = vec![
        9, 3, 1, 2, 3, 4, 0x11, 0x12, 0x13, 0x14, 0x15, 0x16, 0x17, 0x18, 0x21, 0x22, 0x23, 0x24,
        0x25, 0x26, 0x27, 0x28, 2, 0, 0, 0, 0xEE, 0xFF,
    ];
    assert_eq!(out, expected);
    assert_eq!(out.len() - 1, HEADER_LEN + 2);
}

#[test]
fn frames_come_back_in_order() {
    let mut stream: Vec<u8> = Vec::new();
    write_packet(&mut stream, VideoCodec::H265, 0, 10, 0, b"one");
    write_packet(&mut stream, VideoCodec::H265, 1, 20, 5, b"");
    write_packet(&mut stream, VideoCodec::H265, u32::MAX, u64::MAX, 7, b"three");

    let mut at = 0;
    let mut got = Vec::new();
    while let Some((pkt, used)) = read_packet(&stream[at..]).unwrap() {
        got.push((pkt.flags, pkt.pts_us, pkt.data));
        at += used;
    }
    assert_eq!(at, stream.len());
    assert_eq!(
        got,
        vec![
            (0, 10, b"one".to_vec()),
            (1, 20, b"".to_vec()),
            (u32::MAX, u64::MAX, b"three".to_vec()),
        ]
    );
}

#[test]
fn cut_frame_is_no_packet() {
    let mut stream: Vec<u8> = Vec::new();
    write_packet(&mut stream, VideoCodec::H264, 1, 2, 3, b"data");
    for n in 0..stream.len() {
        match read_packet(&stream[..n]) {
            Ok(None) => assert!(n < HEADER_LEN),
            Err(e) => {
                assert!(n >= HEADER_LEN);
                assert_eq!(e, ReadError::Payload);
            }
            Ok(Some(_)) => panic!("a cut frame was read"),
        }
    }
}

fn header_with_length(len: u32) -> Vec<u8> {
    let mut h = vec![0u8; HEADER_LEN];
    h[21..25].copy_from_slice(&len.to_le_bytes());
    h
}

#[test]
fn length_cap_is_exact() {
    assert_eq!(MAX_FRAME_LEN, 16 * 1024 * 1024);
    assert_eq!(
        header_read(ReadEvent::Filled(header_with_length(MAX_FRAME_LEN))),
        HeaderStep::Payload(PacketHeader { flags: 0, pts_us: 0, data_len: MAX_FRAME_LEN })
    );
    assert_eq!(
        header_read(ReadEvent::Filled(header_with_length(MAX_FRAME_LEN + 1))),
        HeaderStep::Failed(ReadError::FrameTooLong(MAX_FRAME_LEN + 1))
    );
    match read_packet(&header_with_length(u32::MAX)) {
        Err(e) => assert_eq!(e, ReadError::FrameTooLong(u32::MAX)),
        Ok(_) => panic!("an oversized frame was accepted"),
    }
}

#[test]
fn socket_failures() {
    assert_eq!(header_read(ReadEvent::Failed), HeaderStep::Failed(ReadError::Header));
    let header = PacketHeader { flags: 3, pts_us: 4, data_len: 2 };
    assert_eq!(payload_read(header, ReadEvent::Failed).unwrap_err(), ReadError::Payload);
    assert_eq!(payload_read(header, ReadEvent::Eof).unwrap_err(), ReadError::Payload);
    let pkt = payload_read(header, ReadEvent::Filled(vec![5, 6])).unwrap();
    assert_eq!((pkt.flags, pkt.pts_us, pkt.data), (3, 4, vec![5, 6]));
}

#[test]
fn error_messages() {
    assert_eq!(ReadError::Header.message(), "reading IPC packet header");
    assert_eq!(ReadError::Payload.message(), "reading IPC packet payload");
    assert_eq!(
        ReadError::FrameTooLong(16777217).message(),
        "IPC frame length 16777217 exceeds sanity cap 16777216, treating stream as desynchronized"
    );
    assert_eq!(
        ReadError::FrameTooLong(u32::MAX).message(),
        format!(
            "IPC frame length {} exceeds sanity cap {}, treating stream as desynchronized",
            u32::MAX,
            MAX_FRAME_LEN
        )
    );
}
