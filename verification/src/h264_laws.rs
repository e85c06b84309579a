//! What the scan for an H.264 profile finds, told from the bytes.
use vstd::prelude::*;

#[allow(unused_imports)]
use crate::h264_util::{
    announced_profile, ends_unit, is_escaped, is_first_sps, is_nal_start, is_sps, lemma_announced,
    lemma_sps_type, nal_at, nal_end, profile_at, scan_sps_profile, unescape,
};
#[allow(unused_imports)]
use crate::text::law_hex_byte_digits;

verus! {

/// A NAL unit ends at the first place, from its start on, where the next three bytes are `00 00 00`
/// or `00 00 01`, and with the data if there is none.
pub proof fn law_unit_ends_at_next_start_code(data: Seq<u8>, n: int)
    requires
        0 <= n <= data.len(),
    ensures
        ({
            let e = nal_end(data, n);
            &&& n <= e <= data.len()
            &&& e == data.len() || (e + 2 < data.len() && data[e] == 0 && data[e + 1] == 0 && data[e
                + 2] <= 1)
            &&& forall|i: int|
                #![trigger data[i]]
                n <= i < e && i + 2 < data.len() ==> !(data[i] == 0 && data[i + 1] == 0 && data[i
                    + 2] <= 1)
            &&& nal_at(data, n) == data.subrange(n, e)
        }),
    decreases data.len() - n,
{
    if n < data.len() && !ends_unit(data, n) {
        law_unit_ends_at_next_start_code(data, n + 1);
        let e = nal_end(data, n);
        assert forall|i: int| #![trigger data[i]] n <= i < e && i + 2 < data.len() implies !(data[i]
            == 0 && data[i + 1] == 0 && data[i + 2] <= 1) by {}
    }
}

/// Bytes that hold no `00 00 03` are their own content.
pub proof fn law_content_of_plain_bytes(s: Seq<u8>)
    requires
        forall|i: int|
            #![trigger s[i]]
            0 <= i && i + 2 < s.len() ==> !(s[i] == 0 && s[i + 1] == 0 && s[i + 2] == 3),
    ensures
        unescape(s) == s,
    decreases s.len(),
{
    if s.len() > 0 {
        let rest = s.skip(1);
        assert forall|i: int| #![trigger rest[i]] 0 <= i && i + 2 < rest.len() implies !(rest[i]
            == 0 && rest[i + 1] == 0 && rest[i + 2] == 3) by {
            assert(rest[i] == s[i + 1]);
        }
        law_content_of_plain_bytes(rest);
        assert(s[0] == s[0]);
        assert(s =~= seq![s[0]] + rest);
    }
    assert(unescape(s) =~= s);
}

/// Of the first `00 00 03` the two zero bytes are content and the `03` is not; the bytes before it
/// are content, and what is content of the bytes behind it does not depend on them.
pub proof fn law_content_drops_prevention_byte(a: Seq<u8>, b: Seq<u8>)
    requires
        ({
            let s = a + seq![0u8, 0u8, 3u8] + b;
            forall|i: int|
                #![trigger s[i]]
                0 <= i < a.len() ==> !(s[i] == 0 && s[i + 1] == 0 && s[i + 2] == 3)
        }),
    ensures
        unescape(a + seq![0u8, 0u8, 3u8] + b) == a + seq![0u8, 0u8] + unescape(b),
    decreases a.len(),
{
    let s = a + seq![0u8, 0u8, 3u8] + b;
    if a.len() == 0 {
        assert(is_escaped(s));
        assert(s.skip(3) =~= b);
        assert(unescape(s) =~= a + seq![0u8, 0u8] + unescape(b));
    } else {
        let shorter = a.skip(1);
        let t = shorter + seq![0u8, 0u8, 3u8] + b;
        assert(s.skip(1) =~= t);
        assert forall|i: int| #![trigger t[i]] 0 <= i < shorter.len() implies !(t[i] == 0 && t[i
            + 1] == 0 && t[i + 2] == 3) by {
            assert(t[i] == s[i + 1] && t[i + 1] == s[i + 2] && t[i + 2] == s[i + 3]);
        }
        law_content_drops_prevention_byte(shorter, b);
        assert(!(s[0] == 0 && s[1] == 0 && s[2] == 3));
        assert(unescape(s) =~= a + seq![0u8, 0u8] + unescape(b));
    }
}

/// No SPS, no profile: in data that holds no byte behind a `00 00 01` with 7 in its five low bits,
/// the scan finds none.
pub proof fn law_no_sps_no_profile(data: &[u8], profile: Option<String>)
    requires
        call_ensures(scan_sps_profile, (data,), profile),
        forall|n: int|
            #![trigger data@[n]]
            3 <= n < data@.len() && data@[n - 3] == 0 && data@[n - 2] == 0 && data@[n - 1] == 1
                ==> data@[n] % 32 != 7,
    ensures
        profile is None,
        announced_profile(data@) is None,
{
    let s = data@;
    assert forall|n: int| !is_first_sps(s, n) by {
        if is_nal_start(s, n) {
            lemma_sps_type(s[n]);
        }
    }
}

/// What the scan finds. There is a profile exactly if the data holds an SPS: a unit behind a start
/// code whose header byte has 7 in its five low bits and that has four bytes of content or more. It
/// is that of the first: the second, third and fourth byte of its content, each in two lower-case
/// hexadecimal digits.
pub proof fn law_scan_finds_the_first_sps(data: &[u8], profile: Option<String>)
    requires
        call_ensures(scan_sps_profile, (data,), profile),
    ensures
        match profile {
            None => forall|n: int|
                #![trigger nal_at(data@, n)]
                3 <= n < data@.len() && data@[n - 3] == 0 && data@[n - 2] == 0 && data@[n - 1] == 1
                    && data@[n] % 32 == 7 ==> unescape(nal_at(data@, n)).len() < 4,
            Some(text) => exists|n: int|
                #![trigger nal_at(data@, n)]
                {
                    let content = unescape(nal_at(data@, n));
                    &&& 3 <= n < data@.len()
                    &&& data@[n - 3] == 0 && data@[n - 2] == 0 && data@[n - 1] == 1
                    &&& data@[n] % 32 == 7
                    &&& content.len() >= 4
                    &&& forall|m: int|
                        #![trigger nal_at(data@, m)]
                        3 <= m < n && data@[m - 3] == 0 && data@[m - 2] == 0 && data@[m - 1] == 1
                            && data@[m] % 32 == 7 ==> unescape(nal_at(data@, m)).len() < 4
                    &&& text@ == seq![
                        "0123456789abcdef"@[content[1] as int / 16],
                        "0123456789abcdef"@[content[1] as int % 16],
                        "0123456789abcdef"@[content[2] as int / 16],
                        "0123456789abcdef"@[content[2] as int % 16],
                        "0123456789abcdef"@[content[3] as int / 16],
                        "0123456789abcdef"@[content[3] as int % 16],
                    ]
                },
        },
{
    let s = data@;
    match profile {
        None => {
            assert forall|n: int|
                #![trigger nal_at(s, n)]
                3 <= n < s.len() && s[n - 3] == 0 && s[n - 2] == 0 && s[n - 1] == 1 && s[n] % 32
                    == 7 implies unescape(nal_at(s, n)).len() < 4 by {
                lemma_sps_type(s[n]);
                if unescape(nal_at(s, n)).len() >= 4 {
                    lemma_first_exists(s, n);
                }
            }
        },
        Some(text) => {
            let n = choose|n: int| is_first_sps(s, n);
            assert(is_first_sps(s, n));
            lemma_sps_type(s[n]);
            let content = unescape(nal_at(s, n));
            law_hex_byte_digits(content[1]);
            law_hex_byte_digits(content[2]);
            law_hex_byte_digits(content[3]);
            assert forall|m: int|
                #![trigger nal_at(s, m)]
                3 <= m < n && s[m - 3] == 0 && s[m - 2] == 0 && s[m - 1] == 1 && s[m] % 32
                    == 7 implies unescape(nal_at(s, m)).len() < 4 by {
                lemma_sps_type(s[m]);
                assert(!is_sps(s, m));
            }
            assert(text@ =~= seq![
                "0123456789abcdef"@[content[1] as int / 16],
                "0123456789abcdef"@[content[1] as int % 16],
                "0123456789abcdef"@[content[2] as int / 16],
                "0123456789abcdef"@[content[2] as int % 16],
                "0123456789abcdef"@[content[3] as int / 16],
                "0123456789abcdef"@[content[3] as int % 16],
            ]);
        },
    }
}

/// Where there is an SPS there is a first one.
proof fn lemma_first_exists(data: Seq<u8>, n: int)
    requires
        is_sps(data, n),
    ensures
        exists|m: int| is_first_sps(data, m),
    decreases n,
{
    if exists|m: int| m < n && is_sps(data, m) {
        let m = choose|m: int| m < n && is_sps(data, m);
        lemma_first_exists(data, m);
    } else {
        assert(is_first_sps(data, n));
    }
}

/// The profile of an SPS that needs no escaping is told by its bytes alone: those at the offsets 1, 2
/// and 3 from its header byte, in hexadecimal. It is the first unit with 7 in the five low bits of
/// its header byte, the last of the three bytes is not zero, and they are not `00 00` and a byte of
/// at most three.
pub proof fn law_plain_profile(data: &[u8], profile: Option<String>, n: int)
    requires
        call_ensures(scan_sps_profile, (data,), profile),
        3 <= n,
        n + 3 < data@.len(),
        data@[n - 3] == 0 && data@[n - 2] == 0 && data@[n - 1] == 1,
        data@[n] % 32 == 7,
        forall|m: int|
            #![trigger data@[m]]
            3 <= m < n && data@[m - 3] == 0 && data@[m - 2] == 0 && data@[m - 1] == 1
                ==> data@[m] % 32 != 7,
        data@[n + 3] != 0,
        !(data@[n + 1] == 0 && data@[n + 2] == 0 && data@[n + 3] <= 3),
    ensures
        profile matches Some(text) && text@ == seq![
            "0123456789abcdef"@[data@[n + 1] as int / 16],
            "0123456789abcdef"@[data@[n + 1] as int % 16],
            "0123456789abcdef"@[data@[n + 2] as int / 16],
            "0123456789abcdef"@[data@[n + 2] as int % 16],
            "0123456789abcdef"@[data@[n + 3] as int / 16],
            "0123456789abcdef"@[data@[n + 3] as int % 16],
        ],
{
    let s = data@;
    law_unit_ends_at_next_start_code(s, n);
    let e = nal_end(s, n);
    assert(s[n] != 0);
    assert(e != n && e != n + 1 && e != n + 2 && e != n + 3);
    let unit = nal_at(s, n);
    assert(unit[0] == s[n] && unit[1] == s[n + 1] && unit[2] == s[n + 2] && unit[3] == s[n + 3]);
    reveal_with_fuel(unescape, 5);
    let u1 = unit.skip(1);
    let u2 = u1.skip(1);
    let u3 = u2.skip(1);
    assert(!is_escaped(unit) && !is_escaped(u1) && !is_escaped(u2) && !is_escaped(u3));
    let content = unescape(unit);
    assert(content.len() >= 4);
    assert(content[1] == s[n + 1] && content[2] == s[n + 2] && content[3] == s[n + 3]);
    lemma_sps_type(s[n]);
    assert(is_sps(s, n));
    assert forall|m: int| m < n implies !is_sps(s, m) by {
        if is_nal_start(s, m) {
            lemma_sps_type(s[m]);
        }
    }
    lemma_announced(s, n);
    law_hex_byte_digits(content[1]);
    law_hex_byte_digits(content[2]);
    law_hex_byte_digits(content[3]);
    match profile {
        Some(text) => {
            assert(text@ == profile_at(s, n));
            assert(text@ =~= seq![
                "0123456789abcdef"@[s[n + 1] as int / 16],
                "0123456789abcdef"@[s[n + 1] as int % 16],
                "0123456789abcdef"@[s[n + 2] as int / 16],
                "0123456789abcdef"@[s[n + 2] as int % 16],
                "0123456789abcdef"@[s[n + 3] as int / 16],
                "0123456789abcdef"@[s[n + 3] as int % 16],
            ]);
        },
        None => {},
    }
}

} // verus!
