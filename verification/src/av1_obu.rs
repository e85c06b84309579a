//! The size fields of an AV1 temporal unit.
//!
//! A temporal unit is a run of OBUs (open bitstream units). Each has a header of one or two bytes;
//! where the header says so, a size field in LEB128 coding follows and tells the length of the
//! OBU's payload. The AV1 payloader takes the size fields at their word, so they have to be known
//! to stay inside the unit before it is given one.
use vstd::prelude::*;

verus! {

/// Header bit: a second header byte follows.
pub const OBU_HAS_EXTENSION: u8 = 0x04;

/// Header bit: a size field follows.
pub const OBU_HAS_SIZE: u8 = 0x02;

/// The length of the LEB128 number at the front of `s`: up to and with its first byte below 128.
/// Zero if there is no such byte.
pub open spec fn leb_len(s: Seq<u8>) -> nat
    decreases s.len(),
{
    if s.len() == 0 {
        0
    } else if s[0] < 128 {
        1
    } else if leb_len(s.skip(1)) == 0 {
        0
    } else {
        leb_len(s.skip(1)) + 1
    }
}

/// The number whose groups of seven bits are the low bits of `s`, least significant group first.
pub open spec fn leb_value(s: Seq<u8>) -> nat
    decreases s.len(),
{
    if s.len() == 0 {
        0
    } else {
        (s[0] % 128) as nat + 128 * leb_value(s.skip(1))
    }
}

/// The number that the size field at the front of `s` is read as: at most the last eight bytes of
/// the field count, and of the number they hold the low 32 bits.
pub open spec fn size_field(s: Seq<u8>) -> nat {
    let n = leb_len(s) as int;
    leb_value(s.subrange(if n > 8 { n - 8 } else { 0 }, n)) % 0x1_0000_0000
}

/// The length of the header of an OBU whose first byte is `header`.
pub open spec fn obu_header_len(header: u8) -> int {
    if header & OBU_HAS_EXTENSION != 0 {
        2
    } else {
        1
    }
}

/// Whether no size field of the temporal unit `data` reaches past its end. A unit that ends before
/// the second header byte or before the size field holds no more size fields.
pub open spec fn obu_sizes_fit(data: Seq<u8>) -> bool
    decreases data.len(),
{
    if data.len() == 0 {
        true
    } else {
        let header_len = obu_header_len(data[0]);
        if data.len() <= header_len || data[0] & OBU_HAS_SIZE == 0 {
            true
        } else {
            let rest = data.skip(header_len);
            let taken = leb_len(rest) + size_field(rest);
            taken <= rest.len() && obu_sizes_fit(rest.skip(taken as int))
        }
    }
}

/// The first byte below 128 ends a LEB128 number.
pub proof fn lemma_leb_len(s: Seq<u8>, n: nat)
    requires
        n <= s.len(),
        forall|i: int| 0 <= i < n ==> s[i] >= 128,
    ensures
        n == s.len() ==> leb_len(s) == 0,
        n < s.len() && s[n as int] < 128 ==> leb_len(s) == n + 1,
    decreases n,
{
    if n > 0 {
        lemma_leb_len(s.skip(1), (n - 1) as nat);
    }
}

proof fn lemma_leb_value_bound(s: Seq<u8>)
    requires
        s.len() <= 8,
    ensures
        leb_value(s) < 0x100_0000_0000_0000,
        s.len() <= 7 ==> leb_value(s) < 0x2_0000_0000_0000,
{
    reveal_with_fuel(leb_value, 9);
}

/// The length of the size field at index `at`, and the number it is read as.
fn read_size_field(data: &[u8], at: usize) -> (r: (usize, u32))
    requires
        at <= data.len(),
    ensures
        r.0 == leb_len(data@.skip(at as int)),
        r.1 == size_field(data@.skip(at as int)),
        r.0 <= data.len() - at,
{
    let ghost s = data@.skip(at as int);
    let mut n: usize = 0;
    while n < data.len() - at && data[at + n] >= 128
        invariant
            at <= data.len(),
            n <= data.len() - at,
            s == data@.skip(at as int),
            forall|i: int| 0 <= i < n ==> s[i] >= 128,
        decreases data.len() - at - n,
    {
        n += 1;
    }
    proof {
        lemma_leb_len(s, n as nat);
    }
    if n == data.len() - at {
        assert(s.subrange(0, 0) =~= Seq::<u8>::empty());
        return (0, 0);
    }
    n += 1;
    let first: usize = if n > 8 {
        n - 8
    } else {
        0
    };
    let mut i: usize = n;
    let mut value: u64 = 0;
    assert(s.subrange(n as int, n as int) =~= Seq::<u8>::empty());
    while i > first
        invariant
            at <= data.len(),
            first <= i <= n <= data.len() - at,
            n - first <= 8,
            s == data@.skip(at as int),
            value == leb_value(s.subrange(i as int, n as int)),
        decreases i,
    {
        proof {
            let longer = s.subrange(i - 1, n as int);
            assert(longer.skip(1) =~= s.subrange(i as int, n as int));
            lemma_leb_value_bound(s.subrange(i as int, n as int));
        }
        i -= 1;
        value = value * 128 + (data[at + i] % 128) as u64;
    }
    (n, (value % 0x1_0000_0000) as u32)
}

/// Whether no size field of the temporal unit `data` reaches past its end.
pub fn check_obu_sizes(data: &[u8]) -> (fit: bool)
    ensures
        fit == obu_sizes_fit(data@),
{
    let mut pos: usize = 0;
    assert(data@.skip(0) =~= data@);
    while pos < data.len()
        invariant
            pos <= data.len(),
            obu_sizes_fit(data@) == obu_sizes_fit(data@.skip(pos as int)),
        decreases data.len() - pos,
    {
        let ghost unit = data@.skip(pos as int);
        let header: u8 = data[pos];
        let header_len: usize = if header & OBU_HAS_EXTENSION != 0 {
            2
        } else {
            1
        };
        if data.len() - pos <= header_len || header & OBU_HAS_SIZE == 0 {
            return true;
        }
        let (field_len, size) = read_size_field(data, pos + header_len);
        assert(unit.skip(header_len as int) =~= data@.skip(pos + header_len));
        let left: usize = data.len() - pos - header_len - field_len;
        if size as usize > left {
            return false;
        }
        assert(data@.skip(pos + header_len).skip(field_len + size) =~= data@.skip(
            pos + header_len + field_len + size,
        ));
        pos = pos + header_len + field_len + size as usize;
    }
    true
}

} // verus!
