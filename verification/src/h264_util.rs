//! Small H.264 Annex-B bitstream helpers.
//!
//! An Annex-B access unit is a run of NAL units, each one preceded by a start code: the bytes
//! `00 00 01`, often with one or more `00` before them. A unit ends where the next three bytes are
//! `00 00 01` or `00 00 00`, or with the data, so zero bytes that pad a start code belong to no
//! unit. Inside a NAL unit the encoder keeps those bytes from occurring by writing `00 00 03` for
//! `00 00` wherever the next byte could be misread; the `03` is an emulation prevention byte and
//! carries no data.
use vstd::prelude::*;

use crate::text::push_hex_byte;
#[allow(unused_imports)]
use crate::text::{hex_byte, text_of};

verus! {

/// The NAL unit type of a sequence parameter set (SPS).
pub const NAL_TYPE_SPS: u8 = 7;

/// Mask that selects the NAL unit type from a NAL header byte.
pub const NAL_TYPE_MASK: u8 = 0x1F;

/// Whether a NAL unit begins at index `n` of `data`: the three bytes before it are a start code.
pub open spec fn is_nal_start(data: Seq<u8>, n: int) -> bool {
    &&& 3 <= n < data.len()
    &&& data[n - 3] == 0
    &&& data[n - 2] == 0
    &&& data[n - 1] == 1
}

/// Whether a NAL unit that reaches index `i` of `data` ends there: what follows is a start code, or
/// zero bytes as they stand before one.
pub open spec fn ends_unit(data: Seq<u8>, i: int) -> bool {
    i + 2 < data.len() && data[i] == 0 && data[i + 1] == 0 && data[i + 2] <= 1
}

/// Where the NAL unit at `n` ends: before the next start code and the zero bytes that pad it, or
/// with the data.
pub open spec fn nal_end(data: Seq<u8>, n: int) -> int
    decreases data.len() - n,
{
    if n >= data.len() || ends_unit(data, n) {
        n
    } else {
        nal_end(data, n + 1)
    }
}

/// The NAL unit at `n`.
pub open spec fn nal_at(data: Seq<u8>, n: int) -> Seq<u8> {
    data.subrange(n, nal_end(data, n))
}

/// Whether `s` begins with an emulation prevention sequence.
pub open spec fn is_escaped(s: Seq<u8>) -> bool {
    s.len() >= 3 && s[0] == 0 && s[1] == 0 && s[2] == 3
}

/// The bytes of `s` with every emulation prevention byte removed.
pub open spec fn unescape(s: Seq<u8>) -> Seq<u8>
    decreases s.len(),
{
    if s.len() == 0 {
        Seq::empty()
    } else if is_escaped(s) {
        seq![0u8, 0u8] + unescape(s.skip(3))
    } else {
        seq![s[0]] + unescape(s.skip(1))
    }
}

/// The bytes of `s` as an encoder writes them: with an emulation prevention byte after every two
/// zero bytes that are followed by a byte of at most three.
pub open spec fn escape(s: Seq<u8>) -> Seq<u8>
    decreases s.len(),
{
    if s.len() == 0 {
        Seq::empty()
    } else if s.len() >= 3 && s[0] == 0 && s[1] == 0 && s[2] <= 3 {
        seq![0u8, 0u8, 3u8] + escape(s.skip(2))
    } else {
        seq![s[0]] + escape(s.skip(1))
    }
}

/// Whether the NAL unit at `n` is an SPS that is long enough to hold a profile-level-id: the
/// header byte and three bytes after it, emulation prevention bytes not counted.
pub open spec fn is_sps(data: Seq<u8>, n: int) -> bool {
    &&& is_nal_start(data, n)
    &&& data[n] & NAL_TYPE_MASK == NAL_TYPE_SPS
    &&& unescape(nal_at(data, n)).len() >= 4
}

/// Whether `n` is where the first such SPS of `data` begins.
pub open spec fn is_first_sps(data: Seq<u8>, n: int) -> bool {
    &&& is_sps(data, n)
    &&& forall|m: int| m < n ==> !is_sps(data, m)
}

/// The profile-level-id of the SPS at `n`: the three bytes that follow its header byte, emulation
/// prevention bytes removed, in hexadecimal.
pub open spec fn profile_at(data: Seq<u8>, n: int) -> Seq<char> {
    let nal = unescape(nal_at(data, n));
    hex_byte(nal[1]) + hex_byte(nal[2]) + hex_byte(nal[3])
}

/// The profile-level-id that an access unit announces: that of its first SPS, if it has one.
pub open spec fn announced_profile(data: Seq<u8>) -> Option<Seq<char>> {
    if exists|n: int| is_first_sps(data, n) {
        Some(profile_at(data, choose|n: int| is_first_sps(data, n)))
    } else {
        None
    }
}

/// Where the NAL unit at `start` ends.
fn find_nal_end(data: &[u8], start: usize) -> (end: usize)
    requires
        start <= data.len(),
    ensures
        end == nal_end(data@, start as int),
        start <= end <= data.len(),
{
    let mut end: usize = start;
    while end < data.len()
        invariant
            start <= end <= data.len(),
            nal_end(data@, start as int) == nal_end(data@, end as int),
        decreases data.len() - end,
    {
        if data.len() - end > 2 && data[end] == 0 && data[end + 1] == 0 && data[end + 2] <= 1 {
            return end;
        }
        end += 1;
    }
    end
}

/// The first four bytes of the NAL unit at `start`, emulation prevention bytes removed, or `None`
/// if the unit ends before them.
fn unescaped_head(data: &[u8], start: usize) -> (r: Option<[u8; 4]>)
    requires
        start <= data.len(),
    ensures
        r is Some <==> unescape(nal_at(data@, start as int)).len() >= 4,
        r matches Some(head) ==> head@ == unescape(nal_at(data@, start as int)).take(4),
{
    let end: usize = find_nal_end(data, start);
    let ghost whole = unescape(nal_at(data@, start as int));
    let ghost mut done: Seq<u8> = Seq::empty();
    let mut head: [u8; 4] = [0u8; 4];
    let mut src: usize = start;
    let mut dst: usize = 0;
    assert(whole =~= done + unescape(data@.subrange(src as int, end as int)));
    while src < end && dst < 4
        invariant
            src <= end <= data.len(),
            dst <= 4,
            dst as int == if done.len() < 4 { done.len() as int } else { 4 },
            whole == done + unescape(data@.subrange(src as int, end as int)),
            forall|i: int| 0 <= i < dst ==> head[i] == done[i],
        decreases end - src,
    {
        let ghost rest = data@.subrange(src as int, end as int);
        if end - src > 2 && data[src] == 0 && data[src + 1] == 0 && data[src + 2] == 3 {
            proof {
                assert(is_escaped(rest));
                assert(rest.skip(3) =~= data@.subrange(src + 3, end as int));
                assert(whole =~= (done + seq![0u8, 0u8]) + unescape(rest.skip(3)));
                done = done + seq![0u8, 0u8];
            }
            head[dst] = 0;
            dst += 1;
            if dst < 4 {
                head[dst] = 0;
                dst += 1;
            }
            src += 3;
        } else {
            proof {
                assert(!is_escaped(rest));
                assert(rest.skip(1) =~= data@.subrange(src + 1, end as int));
                assert(whole =~= done.push(data@[src as int]) + unescape(rest.skip(1)));
                done = done.push(data@[src as int]);
            }
            head[dst] = data[src];
            dst += 1;
            src += 1;
        }
    }
    if dst == 4 {
        assert(head@ =~= whole.take(4));
        Some(head)
    } else {
        assert(data@.subrange(src as int, end as int) =~= Seq::<u8>::empty());
        assert(whole =~= done);
        None
    }
}

/// Scan an Annex-B access unit for an SPS NAL and return its profile-level-id as a 6-hex-digit
/// string, if present. An SPS that ends before its profile-level-id does is passed over.
pub fn scan_sps_profile(data: &[u8]) -> (profile: Option<String>)
    ensures
        text_of(profile) == announced_profile(data@),
{
    let mut pos: usize = 0;
    while data.len() - pos > 3
        invariant
            pos <= data.len(),
            forall|n: int| n < pos + 3 ==> !is_sps(data@, n),
        decreases data.len() - pos,
    {
        let start_len: usize = if data[pos] == 0 && data[pos + 1] == 0 && data[pos + 2] == 1 {
            3
        } else if data[pos] == 0 && data[pos + 1] == 0 && data[pos + 2] == 0 && data[pos + 3] == 1 {
            4
        } else {
            pos += 1;
            continue ;
        };
        let nal_start: usize = pos + start_len;
        assert(forall|n: int| n < nal_start ==> !is_sps(data@, n));
        if nal_start < data.len() {
            let nal_type: u8 = data[nal_start] & NAL_TYPE_MASK;
            if nal_type == NAL_TYPE_SPS {
                if let Some(head) = unescaped_head(data, nal_start) {
                    let mut profile: String = String::new();
                    push_hex_byte(&mut profile, head[1]);
                    push_hex_byte(&mut profile, head[2]);
                    push_hex_byte(&mut profile, head[3]);
                    proof {
                        let nal = unescape(nal_at(data@, nal_start as int));
                        assert(head@[1] == nal[1] && head@[2] == nal[2] && head@[3] == nal[3]);
                        assert(profile@ =~= profile_at(data@, nal_start as int));
                        lemma_announced(data@, nal_start as int);
                    }
                    return Some(profile);
                }
            }
        }
        assert(forall|n: int| n < nal_start + 3 ==> !is_sps(data@, n));
        pos += start_len;
    }
    assert(forall|n: int| !is_sps(data@, n));
    None
}

/// The first SPS of an access unit decides its profile.
pub proof fn lemma_announced(data: Seq<u8>, n: int)
    requires
        is_first_sps(data, n),
    ensures
        announced_profile(data) == Some(profile_at(data, n)),
{
    let m = choose|m: int| is_first_sps(data, m);
    assert(is_first_sps(data, m));
    assert(is_sps(data, m));
    assert(m == n);
}

/// Escaping keeps the first byte, and does not put a `03` behind a lone leading zero.
proof fn lemma_escape_head(s: Seq<u8>)
    requires
        s.len() >= 1,
    ensures
        escape(s).len() >= 1,
        escape(s)[0] == s[0],
        s.len() >= 2 ==> escape(s).len() >= 2 && escape(s)[1] == s[1],
{
    if s.len() >= 3 && s[0] == 0 && s[1] == 0 && s[2] <= 3 {
    } else if s.len() >= 2 {
        let rest = s.skip(1);
        assert(rest[0] == s[1]);
        assert(escape(rest).len() >= 1 && escape(rest)[0] == rest[0]) by {
            reveal_with_fuel(escape, 2);
        }
    }
}

/// What was escaped comes back when it is unescaped, whatever bytes `after` follow it.
pub proof fn law_unescape_inverts_escape(s: Seq<u8>, after: Seq<u8>)
    ensures
        s.is_prefix_of(unescape(escape(s) + after)),
        unescape(escape(s)) == s,
{
    lemma_unescape_prefix(s, after);
    lemma_unescape_whole(s);
}

proof fn lemma_unescape_prefix(s: Seq<u8>, after: Seq<u8>)
    ensures
        s.is_prefix_of(unescape(escape(s) + after)),
    decreases s.len(),
{
    let whole = escape(s) + after;
    if s.len() == 0 {
    } else if s.len() >= 3 && s[0] == 0 && s[1] == 0 && s[2] <= 3 {
        lemma_unescape_prefix(s.skip(2), after);
        assert(whole.skip(3) =~= escape(s.skip(2)) + after);
        assert(s =~= seq![0u8, 0u8] + s.skip(2));
        assert(s =~= unescape(whole).take(s.len() as int));
    } else {
        lemma_escape_head(s);
        if is_escaped(whole) {
            // Only where `s` is at most two zero bytes does the escape reach past its end.
            if s.len() >= 3 {
                lemma_escape_head(s.skip(1));
                assert(whole[2] == escape(s.skip(1))[1]);
                assert(false);
            }
            assert(s =~= unescape(whole).take(s.len() as int));
        } else {
            lemma_unescape_prefix(s.skip(1), after);
            assert(whole.skip(1) =~= escape(s.skip(1)) + after);
            assert(s =~= seq![s[0]] + s.skip(1));
            assert(s =~= unescape(whole).take(s.len() as int));
        }
    }
}

proof fn lemma_unescape_whole(s: Seq<u8>)
    ensures
        unescape(escape(s)) == s,
    decreases s.len(),
{
    let whole = escape(s);
    if s.len() == 0 {
    } else if s.len() >= 3 && s[0] == 0 && s[1] == 0 && s[2] <= 3 {
        lemma_unescape_whole(s.skip(2));
        assert(whole.skip(3) =~= escape(s.skip(2)));
        assert(s =~= seq![0u8, 0u8] + s.skip(2));
    } else {
        lemma_unescape_whole(s.skip(1));
        assert(whole.skip(1) =~= escape(s.skip(1)));
        assert(s =~= seq![s[0]] + s.skip(1));
        if is_escaped(whole) {
            lemma_escape_head(s);
            assert(whole[2] == escape(s.skip(1))[1]);
            if s.len() >= 2 {
                lemma_escape_head(s.skip(1));
            }
            reveal_with_fuel(escape, 3);
            assert(false);
        }
    }
}

/// No unit ends inside escaped bytes, whatever `after` follows them, unless they end in a zero
/// byte.
proof fn lemma_escape_ends_no_unit(s: Seq<u8>, after: Seq<u8>, i: int)
    requires
        s.len() >= 1,
        s.last() != 0,
        0 <= i < escape(s).len(),
    ensures
        escape(s).last() == s.last(),
        !ends_unit(escape(s) + after, i),
    decreases s.len(),
{
    let whole = escape(s) + after;
    if s.len() >= 3 && s[0] == 0 && s[1] == 0 && s[2] <= 3 {
        let rest = s.skip(2);
        lemma_escape_head(rest);
        lemma_escape_ends_no_unit(rest, after, if i >= 3 { i - 3 } else { 0 });
        assert(whole =~= seq![0u8, 0u8, 3u8] + (escape(rest) + after));
        assert(escape(s).last() == escape(rest).last());
    } else if s.len() == 1 {
        assert(escape(s.skip(1)) =~= Seq::<u8>::empty());
        assert(escape(s) =~= s);
        assert(whole[0] == s[0]);
    } else {
        let rest = s.skip(1);
        lemma_escape_head(s);
        lemma_escape_head(rest);
        lemma_escape_ends_no_unit(rest, after, if i >= 1 { i - 1 } else { 0 });
        assert(whole =~= seq![s[0]] + (escape(rest) + after));
        assert(escape(s).last() == escape(rest).last());
        if i == 0 {
            assert(whole[0] == s[0] && whole[1] == s[1]);
            if s.len() >= 3 {
                assert(whole[2] == s[2]);
            }
        }
    }
}

/// A unit reaches as far as nothing ends it.
proof fn lemma_nal_end(data: Seq<u8>, n: int, m: int)
    requires
        0 <= n <= m <= data.len(),
        forall|i: int| n <= i < m ==> !ends_unit(data, i),
    ensures
        m <= nal_end(data, n) <= data.len(),
        nal_end(data, n) == nal_end(data, m),
    decreases data.len() - n,
{
    if n < m {
        lemma_nal_end(data, n + 1, m);
    } else if n < data.len() && !ends_unit(data, n) {
        lemma_nal_end(data, n + 1, n + 1);
    }
}

/// The profile of an SPS is that of the bytes the encoder meant, whether or not it had to escape
/// them: for an SPS `nal` written after a start code, with anything before it that holds no SPS
/// and anything after it, the scan gives the three bytes behind the NAL header. No SPS is a unit of
/// another type or of less than four bytes of content. As every NAL unit,
/// it does not end in a zero byte: one that did could not be told from padding.
pub proof fn law_profile_survives_escaping(before: Seq<u8>, nal: Seq<u8>, after: Seq<u8>)
    requires
        nal.len() >= 4,
        nal[0] & NAL_TYPE_MASK == NAL_TYPE_SPS,
        nal.last() != 0,
        ({
            let data = before + seq![0u8, 0u8, 1u8] + escape(nal) + after;
            forall|m: int|
                #![trigger data[m]]
                3 <= m < before.len() + 3 && data[m - 3] == 0 && data[m - 2] == 0 && data[m - 1]
                    == 1 && data[m] % 32 == 7 ==> unescape(nal_at(data, m)).len() < 4
        }),
    ensures
        announced_profile(before + seq![0u8, 0u8, 1u8] + escape(nal) + after) == Some(
            hex_byte(nal[1]) + hex_byte(nal[2]) + hex_byte(nal[3]),
        ),
{
    let data = before + seq![0u8, 0u8, 1u8] + escape(nal) + after;
    let n = before.len() as int + 3;
    let tail = escape(nal) + after;
    let m = n + escape(nal).len();
    lemma_escape_head(nal);
    assert(data.skip(n) =~= tail);
    assert forall|i: int| n <= i < m implies !ends_unit(data, i) by {
        lemma_escape_ends_no_unit(nal, after, i - n);
        assert(ends_unit(data, i) ==> ends_unit(tail, i - n));
    }
    lemma_nal_end(data, n, m);
    let within = data.subrange(m, nal_end(data, n));
    law_unescape_inverts_escape(nal, within);
    assert(nal_at(data, n) =~= escape(nal) + within);
    assert(data[n] == nal[0]);
    let out = unescape(nal_at(data, n));
    assert(nal =~= out.take(nal.len() as int));
    assert(out[1] == nal[1] && out[2] == nal[2] && out[3] == nal[3]);
    assert(is_sps(data, n));
    assert forall|m: int| m < n implies !is_sps(data, m) by {
        if is_nal_start(data, m) {
            lemma_sps_type(data[m]);
        }
    }
    lemma_announced(data, n);
}

/// The type of a NAL unit stands in the five low bits of its header byte.
pub proof fn lemma_sps_type(header: u8)
    ensures
        header & NAL_TYPE_MASK == NAL_TYPE_SPS <==> header % 32 == 7,
{
    assert(header & 0x1F == header % 32) by (bit_vector);
}

/// A profile-level-id is six lower-case hexadecimal digits.
pub proof fn law_profile_is_six_hex_digits(data: Seq<u8>)
    ensures
        announced_profile(data) matches Some(s) ==> {
            &&& s.len() == 6
            &&& forall|i: int| #![trigger s[i]] 0 <= i < 6 ==> ('0' <= s[i] <= '9' || 'a' <= s[i] <= 'f')
        },
{
}

} // verus!
