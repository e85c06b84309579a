//! The RTP packets that become of a frame, told from the frame.
#[allow(unused_imports)]
use vstd::arithmetic::div_mod::lemma_add_mod_noop_right;
use vstd::prelude::*;

#[allow(unused_imports)]
use crate::rtp::{
    frame_payloads, is_labelled, is_vp8_frame, is_vp9_frame, is_vp9_outcome, joined,
    make_packetizer, open_packetizer, packetizable, payloads_made, payloads_of, rtp_clock,
    rtp_frames, rtp_sequence, rtp_settings, vp9_picture, RtpPacket, RtpPacketizer,
};
#[allow(unused_imports)]
use crate::av1_obu::obu_sizes_fit;
#[allow(unused_imports)]
use crate::rtp_clock::{delta_of, last_of, rtp_delta, rtp_ticks, ticks_of};
#[allow(unused_imports)]
use crate::run::{is_delivery, EventView, Run, RunEvent, RunOutput, SourceStatus};
#[allow(unused_imports)]
use crate::run_laws::{is_stream, is_trace, machine_after, packets_in, times_of, Turn};
#[allow(unused_imports)]
use crate::frame::{PacketView, RemoteEncodedPacket};
#[allow(unused_imports)]
use crate::source_config::VideoCodec;

verus! {

/// The packets of a frame carry the labels of the machine, the clock as it was before the frame and
/// consecutive numbers; exactly the last has the marker; and each fits into 1400 bytes with its
/// header of twelve. The clock then goes on by the delta of the frame, and the numbers from the last.
/// A frame that is refused moves neither.
pub proof fn law_packets_of_a_frame_are_labelled(
    run: &mut Run,
    status: &mut SourceStatus,
    packet: RemoteEncodedPacket,
    output: RunOutput,
    ticks: u64,
    delta: u32,
)
    requires
        old(run).wf(),
        call_ensures(Run::step, (run, status, RunEvent::Packet(packet)), output),
        call_ensures(rtp_ticks, (packet.pts_us,), ticks),
        call_ensures(rtp_delta, (old(run).last_ticks(), ticks), delta),
    ensures
        final(run).last_ticks() == Some(ticks),
        rtp_settings(final(run).packetizer()) == rtp_settings(old(run).packetizer()),
        match output.packets {
            Ok(sent) => {
                &&& forall|i: int|
                    #![trigger sent@[i]]
                    0 <= i < sent@.len() ==> {
                        &&& sent@[i].version == 2
                        &&& !sent@[i].padding
                        &&& !sent@[i].extension
                        &&& sent@[i].marker <==> i == sent@.len() - 1
                        &&& sent@[i].payload_type == rtp_settings(
                            old(run).packetizer(),
                        ).payload_type
                        &&& sent@[i].ssrc == rtp_settings(old(run).packetizer()).ssrc
                        &&& sent@[i].timestamp == rtp_clock(old(run).packetizer())
                        &&& sent@[i].sequence_number == (rtp_sequence(old(run).packetizer()) + i)
                            % 65536
                        &&& 12 + sent@[i].payload@.len() <= 1400
                    }
                &&& rtp_sequence(final(run).packetizer()) == (rtp_sequence(old(run).packetizer())
                    + sent@.len()) % 65536
                &&& rtp_clock(final(run).packetizer()) == (rtp_clock(old(run).packetizer()) + delta)
                    % 0x1_0000_0000
            },
            Err(_) => {
                &&& rtp_sequence(final(run).packetizer()) == rtp_sequence(old(run).packetizer())
                &&& rtp_clock(final(run).packetizer()) == rtp_clock(old(run).packetizer())
            },
        },
{
    assert(final(run).last_ticks() == final(run).model(*final(status)).last_ticks);
    match output.packets {
        Ok(sent) => {
            let p = old(run).packetizer();
            assert forall|i: int| 0 <= i < sent@.len() implies is_labelled(
                #[trigger] sent@[i],
                rtp_settings(p),
                rtp_clock(p),
                rtp_sequence(p),
                i,
                sent@.len(),
            ) by {}
        },
        Err(_) => {},
    }
}

/// The payloader is given each frame as it came, and its payloads are sent as they are, in their
/// order: all of them and nothing else. Only a frame that the payloader refuses is not sent, and only
/// that of AV1 refuses any. What VP9 payloads are is told by `law_vp9_payloads`.
pub proof fn law_payloads_are_sent_as_they_are(
    run: &mut Run,
    status: &mut SourceStatus,
    packet: RemoteEncodedPacket,
    output: RunOutput,
)
    requires
        old(run).wf(),
        call_ensures(Run::step, (run, status, RunEvent::Packet(packet)), output),
    ensures
        rtp_frames(final(run).packetizer()) == rtp_frames(old(run).packetizer()).push(packet.data@),
        match output.packets {
            Ok(sent) => {
                &&& packet.data@.len() == 0 ==> sent@.len() == 0
                &&& old(run).codec() != VideoCodec::Vp9 ==> frame_payloads(
                    old(run).codec(),
                    1400,
                    rtp_frames(old(run).packetizer()).push(packet.data@),
                ) == Some(Seq::new(sent@.len(), |i: int| sent@[i].payload@))
            },
            Err(_) => {
                &&& old(run).codec() == VideoCodec::Av1
                &&& packet.data@.len() > 0
                &&& frame_payloads(
                    VideoCodec::Av1,
                    1400,
                    rtp_frames(old(run).packetizer()).push(packet.data@),
                ) is None
            },
        },
{
    match output.packets {
        Ok(sent) => {
            assert(payloads_of(sent@) =~= Seq::new(sent@.len(), |i: int| sent@[i].payload@));
        },
        Err(_) => {},
    }
}

/// The first pieces, joined.
proof fn lemma_joined_take(payloads: Seq<Seq<u8>>, n: int, k: int)
    requires
        0 <= k <= payloads.len(),
    ensures
        joined(payloads.take(k), n).len() <= joined(payloads, n).len(),
        joined(payloads.take(k), n) == joined(payloads, n).take(
            joined(payloads.take(k), n).len() as int,
        ),
    decreases payloads.len() - k,
{
    if k < payloads.len() {
        lemma_joined_take(payloads, n, k + 1);
        let longer = payloads.take(k + 1);
        assert(longer.drop_last() =~= payloads.take(k));
        let part = joined(payloads.take(k), n);
        assert(joined(longer, n) == part + longer.last().skip(n));
        assert(part =~= joined(payloads, n).take(part.len() as int));
    } else {
        assert(payloads.take(k) =~= payloads);
        assert(joined(payloads, n) =~= joined(payloads, n).take(joined(payloads, n).len() as int));
    }
}

/// Where all pieces but the last have the same length, each stands in the frame at its place.
proof fn lemma_pieces(payloads: Seq<Seq<u8>>, n: int, piece: int, k: int)
    requires
        0 <= n,
        0 < piece,
        0 <= k <= payloads.len(),
        forall|i: int|
            #![trigger payloads[i]]
            0 <= i < payloads.len() ==> n < payloads[i].len() <= n + piece && (i < payloads.len() - 1
                ==> payloads[i].len() == n + piece),
    ensures
        k < payloads.len() ==> joined(payloads.take(k), n).len() == k * piece,
        k == payloads.len() && k > 0 ==> (k - 1) * piece < joined(payloads, n).len() <= k * piece,
    decreases k,
{
    if k > 0 {
        lemma_pieces(payloads, n, piece, k - 1);
        let part = payloads.take(k);
        assert(part.drop_last() =~= payloads.take(k - 1));
        assert(part.last() == payloads[k - 1]);
        assert(joined(part, n).len() == joined(payloads.take(k - 1), n).len() + payloads[k
            - 1].len() - n);
        assert(k * piece == (k - 1) * piece + piece) by (nonlinear_arith);
        if k == payloads.len() {
            assert(part =~= payloads);
        }
    } else {
        assert(payloads.take(0).len() == 0);
        assert(0 * piece == 0) by (nonlinear_arith);
    }
}

/// The piece at place `i`.
proof fn lemma_piece_at(payloads: Seq<Seq<u8>>, n: int, piece: int, i: int)
    requires
        0 <= n,
        0 < piece,
        0 <= i < payloads.len(),
        forall|i: int|
            #![trigger payloads[i]]
            0 <= i < payloads.len() ==> n < payloads[i].len() <= n + piece && (i < payloads.len() - 1
                ==> payloads[i].len() == n + piece),
    ensures
        i * piece + payloads[i].len() - n <= joined(payloads, n).len(),
        payloads[i].skip(n) == joined(payloads, n).subrange(
            i * piece,
            i * piece + payloads[i].len() - n,
        ),
        i == payloads.len() - 1 ==> i * piece + payloads[i].len() - n == joined(payloads, n).len(),
{
    lemma_pieces(payloads, n, piece, i);
    lemma_joined_take(payloads, n, i + 1);
    let before = joined(payloads.take(i), n);
    let with = payloads.take(i + 1);
    assert(with.drop_last() =~= payloads.take(i));
    assert(joined(with, n) == before + payloads[i].skip(n));
    let whole = joined(payloads, n);
    let end = i * piece + payloads[i].len() - n;
    assert(joined(with, n).len() == end);
    assert(payloads[i].skip(n) =~= joined(with, n).subrange(i * piece, end));
    assert(payloads[i].skip(n) =~= whole.subrange(i * piece, end));
    if i == payloads.len() - 1 {
        assert(with =~= payloads);
    }
}

/// A VP8 frame is cut into pieces of 1387 bytes, the last one of what is left. Before each piece
/// stands one byte: `10` in hexadecimal before the first and zero before the others.
pub proof fn law_vp8_payloads(
    run: &mut Run,
    status: &mut SourceStatus,
    packet: RemoteEncodedPacket,
    output: RunOutput,
)
    requires
        old(run).wf(),
        old(run).codec() == VideoCodec::Vp8,
        call_ensures(Run::step, (run, status, RunEvent::Packet(packet)), output),
    ensures
        output.packets is Ok,
        ({
            let sent = output.packets->Ok_0@;
            let data = packet.data@;
            &&& data.len() == 0 ==> sent.len() == 0
            &&& data.len() > 0 ==> (sent.len() - 1) * 1387 < data.len() <= sent.len() * 1387
            &&& forall|i: int|
                #![trigger sent[i]]
                0 <= i < sent.len() ==> sent[i].payload@ == seq![
                    if i == 0 {
                        0x10u8
                    } else {
                        0u8
                    },
                ] + data.subrange(
                    i * 1387,
                    if i < sent.len() - 1 {
                        i * 1387 + 1387
                    } else {
                        data.len() as int
                    },
                )
        }),
{
    let sent = output.packets->Ok_0@;
    let data = packet.data@;
    let p = old(run).packetizer();
    assert(output.packets is Ok);
    let payloads = payloads_of(sent);
    assert(is_vp8_frame(payloads, rtp_settings(p).mtu));
    assert(joined(payloads, 1) == data);
    assert forall|i: int| #![trigger payloads[i]] 0 <= i < payloads.len() implies 1
        < payloads[i].len() <= 1 + 1387 && (i < payloads.len() - 1 ==> payloads[i].len() == 1
        + 1387) by {
        assert(payloads[i] == sent[i].payload@);
        assert(is_labelled(
            sent[i],
            rtp_settings(p),
            rtp_clock(p),
            rtp_sequence(p),
            i,
            sent.len(),
        ));
    }
    lemma_pieces(payloads, 1, 1387, payloads.len() as int);
    assert forall|i: int| #![trigger sent[i]] 0 <= i < sent.len() implies sent[i].payload@ == seq![
        if i == 0 {
            0x10u8
        } else {
            0u8
        },
    ] + data.subrange(
        i * 1387,
        if i < sent.len() - 1 {
            i * 1387 + 1387
        } else {
            data.len() as int
        },
    ) by {
        assert(payloads[i] == sent[i].payload@);
        lemma_piece_at(payloads, 1, 1387, i);
        let payload = payloads[i];
        assert(payload =~= seq![payload[0]] + payload.skip(1));
    }
    if data.len() > 0 && sent.len() == 0 {
        assert(joined(payloads, 1).len() == 0);
    }
}

/// A VP9 frame is cut into pieces of 1385 bytes, the last one of what is left. Before each piece
/// stand three bytes: `90` in hexadecimal with the bit of 8 on the first and the bit of 4 on the
/// last piece, and the picture number, high byte first, with its top bit set. All pieces of a frame
/// have the same number: that after the one of the frame before it, in fifteen bits, and any for the
/// first frame.
pub proof fn law_vp9_payloads(
    run: &mut Run,
    status: &mut SourceStatus,
    packet: RemoteEncodedPacket,
    output: RunOutput,
)
    requires
        old(run).wf(),
        old(run).codec() == VideoCodec::Vp9,
        call_ensures(Run::step, (run, status, RunEvent::Packet(packet)), output),
    ensures
        output.packets is Ok,
        packet.data@.len() == 0 ==> output.packets->Ok_0@.len() == 0 && vp9_picture(
            final(run).packetizer(),
        ) == vp9_picture(old(run).packetizer()),
        packet.data@.len() > 0 ==> {
            let sent = output.packets->Ok_0@;
            let data = packet.data@;
            let next = vp9_picture(final(run).packetizer());
            &&& next is Some
            &&& next->0 < 0x8000
            &&& (sent.len() - 1) * 1385 < data.len() <= sent.len() * 1385
            &&& ({
                let picture = (next->0 + 0x7fff) % 0x8000;
                &&& vp9_picture(old(run).packetizer()) matches Some(set) ==> set == picture
                &&& forall|i: int|
                    #![trigger sent[i]]
                    0 <= i < sent.len() ==> sent[i].payload@ == seq![
                        (0x90 + (if i == 0 {
                            8int
                        } else {
                            0
                        }) + (if i == sent.len() - 1 {
                            4int
                        } else {
                            0
                        })) as u8,
                        (0x80 + picture / 256) as u8,
                        (picture % 256) as u8,
                    ] + data.subrange(
                        i * 1385,
                        if i < sent.len() - 1 {
                            i * 1385 + 1385
                        } else {
                            data.len() as int
                        },
                    )
            })
        },
{
    let sent = output.packets->Ok_0@;
    let data = packet.data@;
    let p = old(run).packetizer();
    assert(output.packets is Ok);
    let payloads = payloads_of(sent);
    assert(payloads_made(output.packets) == payloads);
    assert(joined(payloads, 3) == data);
    let before = vp9_picture(p);
    let after = vp9_picture(final(run).packetizer());
    assert(is_vp9_outcome(payloads, data, rtp_settings(p).mtu, before, after));
    if data.len() > 0 {
        let id = choose|id: u16|
            {
                &&& #[trigger] is_vp9_frame(payloads, id, rtp_settings(p).mtu)
                &&& before is Some ==> before == Some(id)
                &&& after == Some(((id + 1) % 0x8000) as u16)
            };
        assert(is_vp9_frame(payloads, id, rtp_settings(p).mtu));
        let picture = (after->0 + 0x7fff) % 0x8000;
        assert(picture == id);
        assert forall|i: int| #![trigger payloads[i]] 0 <= i < payloads.len() implies 3
            < payloads[i].len() <= 3 + 1385 && (i < payloads.len() - 1 ==> payloads[i].len() == 3
            + 1385) by {
            assert(payloads[i] == sent[i].payload@);
            assert(is_labelled(
                sent[i],
                rtp_settings(p),
                rtp_clock(p),
                rtp_sequence(p),
                i,
                sent.len(),
            ));
        }
        lemma_pieces(payloads, 3, 1385, payloads.len() as int);
        if sent.len() == 0 {
            assert(joined(payloads, 3).len() == 0);
        }
        assert forall|i: int| #![trigger sent[i]] 0 <= i < sent.len() implies sent[i].payload@
            == seq![
            (0x90 + (if i == 0 {
                8int
            } else {
                0
            }) + (if i == sent.len() - 1 {
                4int
            } else {
                0
            })) as u8,
            (0x80 + picture / 256) as u8,
            (picture % 256) as u8,
        ] + data.subrange(
            i * 1385,
            if i < sent.len() - 1 {
                i * 1385 + 1385
            } else {
                data.len() as int
            },
        ) by {
            assert(payloads[i] == sent[i].payload@);
            lemma_piece_at(payloads, 3, 1385, i);
            let payload = payloads[i];
            assert(payload =~= seq![payload[0], payload[1], payload[2]] + payload.skip(3));
        }
    }
}

/// Over a whole run the payloader is given the data of all packets that come, in their order.
pub proof fn law_frames_are_given_in_order(start: Run, turns: Seq<Turn>)
    requires
        is_trace(start, turns),
    ensures
        rtp_frames(machine_after(start, turns).packetizer()) == rtp_frames(start.packetizer())
            + packets_in(turns).map_values(|packet: PacketView| packet.data),
    decreases turns.len(),
{
    let data = |packet: PacketView| packet.data;
    if turns.len() == 0 {
        assert(rtp_frames(start.packetizer()) + packets_in(turns).map_values(data) =~= rtp_frames(
            start.packetizer(),
        ));
    } else {
        law_frames_are_given_in_order(start, turns.drop_last());
        let earlier = packets_in(turns.drop_last());
        match turns.last().event {
            EventView::Packet(packet) => {
                assert(rtp_frames(machine_after(start, turns).packetizer()) =~= rtp_frames(
                    start.packetizer(),
                ) + packets_in(turns).map_values(data));
            },
            _ => {},
        }
    }
}

/// Over a whole run the labels of a machine stay.
pub proof fn law_labels_stay(start: Run, turns: Seq<Turn>)
    requires
        is_trace(start, turns),
    ensures
        rtp_settings(machine_after(start, turns).packetizer()) == rtp_settings(start.packetizer()),
    decreases turns.len(),
{
    if turns.len() > 0 {
        law_labels_stay(start, turns.drop_last());
    }
}

/// The RTP clock moves at each accepted frame by the time since the frame before it, at nine ticks
/// for a hundred microseconds, as it is counted in whole ticks; by 3000 ticks where that is not
/// positive; and at the first frame not at all. A refused frame does not move it.
pub proof fn law_clock_moves_by_presentation_time(
    stages: Seq<RtpPacketizer>,
    packets: Seq<PacketView>,
    outcomes: Seq<Result<Vec<RtpPacket>, String>>,
    k: int,
)
    requires
        is_stream(stages, packets, outcomes),
        0 <= k < packets.len(),
    ensures
        ({
            let now = packets[k].pts_us * 9 / 100;
            let before = packets[k - 1].pts_us * 9 / 100;
            rtp_clock(stages[k + 1]) == (rtp_clock(stages[k]) + if outcomes[k] is Err || k == 0 {
                0int
            } else if now > before {
                now - before
            } else {
                3000
            }) % 0x1_0000_0000
        }),
{
    let delta = delta_of(
        last_of(None, times_of(packets.take(k))),
        ticks_of(packets[k].pts_us),
    );
    assert(is_delivery(outcomes[k], stages[k], stages[k + 1], packets[k].data, delta));
    if k > 0 {
        assert(times_of(packets.take(k)).last() == ticks_of(packets[k - 1].pts_us));
        let now = packets[k].pts_us * 9 / 100;
        let before = packets[k - 1].pts_us * 9 / 100;
        assert(ticks_of(packets[k].pts_us) == now);
        assert(ticks_of(packets[k - 1].pts_us) == before);
        if outcomes[k] is Ok && now > before {
            let m = 0x1_0000_0000int;
            lemma_add_mod_noop_right(
                rtp_clock(stages[k]) as int,
                now - before,
                m,
            );
        }
    }
}

/// Which frames a payloader can be given: any for H.264, VP8 and VP9, any but one of a single byte
/// for H.265, and for AV1 those whose size fields stay inside.
pub proof fn law_frames_that_can_be_packetized(codec: VideoCodec, data: &[u8], r: bool)
    requires
        call_ensures(packetizable, (codec, data), r),
    ensures
        r == match codec {
            VideoCodec::H264 | VideoCodec::Vp8 | VideoCodec::Vp9 => true,
            VideoCodec::H265 => data@.len() != 1,
            VideoCodec::Av1 => obu_sizes_fit(data@),
        },
{
}

/// A packetizer has what it was made with, cuts packets to 1400 bytes, and has been given no frame.
pub proof fn law_new_packetizer(
    codec: VideoCodec,
    payload_type: u8,
    ssrc: u32,
    clock_rate: u32,
    made: RtpPacketizer,
    opened: RtpPacketizer,
)
    requires
        call_ensures(make_packetizer, (codec, payload_type, ssrc, clock_rate), made),
        call_ensures(open_packetizer, (codec, payload_type, clock_rate), opened),
    ensures
        rtp_settings(made).ssrc == ssrc,
        rtp_settings(made).codec == codec && rtp_settings(opened).codec == codec,
        rtp_settings(made).mtu == 1400 && rtp_settings(opened).mtu == 1400,
        rtp_settings(made).payload_type == payload_type,
        rtp_settings(opened).payload_type == payload_type,
        rtp_settings(made).clock_rate == clock_rate,
        rtp_settings(opened).clock_rate == clock_rate,
        rtp_frames(made).len() == 0 && rtp_frames(opened).len() == 0,
{
}

} // verus!
