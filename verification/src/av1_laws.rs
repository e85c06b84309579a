//! Which AV1 temporal units have size fields that stay inside them, told from the bytes.
#[allow(unused_imports)]
use vstd::arithmetic::power::pow;
use vstd::prelude::*;

#[allow(unused_imports)]
use crate::av1_obu::{
    check_obu_sizes, leb_len, leb_value, lemma_leb_len, size_field, OBU_HAS_EXTENSION, OBU_HAS_SIZE,
};
#[allow(unused_imports)]
use crate::digits::{lemma_same_digits, lemma_shift};

verus! {

/// The bits of a header byte.
proof fn lemma_header_bits(header: u8)
    ensures
        header & OBU_HAS_EXTENSION != 0 <==> header / 4 % 2 == 1,
        header & OBU_HAS_SIZE != 0 <==> header / 2 % 2 == 1,
{
    assert(header & 0x04 != 0 <==> header / 4 % 2 == 1) by (bit_vector);
    assert(header & 0x02 != 0 <==> header / 2 % 2 == 1) by (bit_vector);
}

/// Whether `head` is the header of an OBU with a size field: one byte, or two where the first has bit
/// 2 set, and bit 1 of the first is set.
pub open spec fn is_sized_header(head: Seq<u8>) -> bool {
    &&& head.len() >= 1
    &&& head.len() == if head[0] / 4 % 2 == 1 {
        2int
    } else {
        1
    }
    &&& head[0] / 2 % 2 == 1
}

/// Whether `field` is a size field of the number `size`: its last byte is the only one below 128, and
/// the low seven bits of its bytes, of the last eight if it has more, are the digits of a number in
/// base 128, least significant digit first, whose low 32 bits are `size`.
pub open spec fn is_size_field(field: Seq<u8>, size: int, number: int) -> bool {
    let low = field.skip(if field.len() > 8 {
        field.len() - 8
    } else {
        0
    });
    &&& field.len() >= 1
    &&& field.last() < 128
    &&& forall|i: int| 0 <= i < field.len() - 1 ==> #[trigger] field[i] >= 128
    &&& 0 <= number < pow(128, low.len())
    &&& low.map_values(|b: u8| b % 128) == Seq::new(
        low.len(),
        |i: int| (number / pow(128, i as nat) % 128) as u8,
    )
    &&& size == number % 0x1_0000_0000
}

/// The digits that a LEB128 number is read from.
proof fn lemma_leb_digits(s: Seq<u8>)
    ensures
        leb_value(s) < pow(128, s.len()),
        forall|i: int|
            #![trigger pow(128, i as nat)]
            0 <= i < s.len() ==> leb_value(s) as int / pow(128, i as nat) % 128 == s[i] % 128,
    decreases s.len(),
{
    lemma_shift(0, 128, 0);
    if s.len() > 0 {
        let rest = s.skip(1);
        let v = leb_value(s) as int;
        lemma_leb_digits(rest);
        lemma_shift(v, 128, rest.len());
        assert(v / 128 == leb_value(rest));
        assert(v % 128 == s[0] % 128);
        assert forall|i: int| #![trigger pow(128, i as nat)] 0 <= i < s.len() implies v / pow(
            128,
            i as nat,
        ) % 128 == s[i] % 128 by {
            if i > 0 {
                lemma_shift(v, 128, (i - 1) as nat);
                assert(((i - 1) as nat + 1) as nat == i as nat);
                assert(pow(128, (i - 1) as nat) > 0);
                assert(leb_value(rest) as int / pow(128, (i - 1) as nat) % 128 == rest[i - 1]
                    % 128);
            } else {
                assert(v / 1 == v);
            }
        }
    }
}

/// A size field is read as the number it holds, whatever follows it.
proof fn lemma_size_field(field: Seq<u8>, size: int, number: int, after: Seq<u8>)
    requires
        is_size_field(field, size, number),
    ensures
        leb_len(field + after) == field.len(),
        size_field(field + after) == size,
{
    let s = field + after;
    let n = (field.len() - 1) as nat;
    assert forall|i: int| 0 <= i < n implies s[i] >= 128 by {
        assert(s[i] == field[i]);
    }
    assert(s[n as int] == field.last());
    lemma_leb_len(s, n);
    let from = if field.len() > 8 {
        field.len() - 8
    } else {
        0
    };
    let low = field.skip(from);
    assert(s.subrange(from, field.len() as int) =~= low);
    lemma_leb_digits(low);
    let given = Seq::new(low.len(), |i: int| (number / pow(128, i as nat) % 128) as u8);
    let digits = low.map_values(|b: u8| b % 128);
    assert forall|i: int| #![trigger pow(128, i as nat)] 0 <= i < low.len() implies number / pow(
        128,
        i as nat,
    ) % 128 == leb_value(low) as int / pow(128, i as nat) % 128 by {
        assert(digits[i] == low[i] % 128);
        assert(digits[i] == given[i]);
        assert(0 <= number / pow(128, i as nat) % 128 < 128);
    }
    lemma_same_digits(number, leb_value(low) as int, 128, low.len());
}

/// A unit is taken at once if it is empty, if its first OBU has no size field, or if it ends before
/// that.
pub proof fn law_unit_without_sizes_fits(data: &[u8], fit: bool)
    requires
        call_ensures(check_obu_sizes, (data,), fit),
        data@.len() == 0 || data@[0] / 2 % 2 == 0 || data@.len() <= (if data@[0] / 4 % 2 == 1 {
            2int
        } else {
            1
        }),
    ensures
        fit,
{
    if data@.len() > 0 {
        lemma_header_bits(data@[0]);
    }
}

/// An OBU whose payload is as long as its size field says changes nothing: with it in front a unit
/// fits exactly if it fits without it.
pub proof fn law_whole_obu_in_front(
    data: &[u8],
    fit: bool,
    rest: &[u8],
    rest_fit: bool,
    head: Seq<u8>,
    field: Seq<u8>,
    number: int,
    payload: Seq<u8>,
)
    requires
        call_ensures(check_obu_sizes, (data,), fit),
        call_ensures(check_obu_sizes, (rest,), rest_fit),
        is_sized_header(head),
        is_size_field(field, payload.len() as int, number),
        data@ == head + field + payload + rest@,
    ensures
        fit == rest_fit,
{
    let s = data@;
    let h = head.len() as int;
    assert(s[0] == head[0]);
    lemma_header_bits(head[0]);
    lemma_size_field(field, payload.len() as int, number, payload + rest@);
    assert(s.skip(h) =~= field + (payload + rest@));
    assert(s.skip(h).skip((field.len() + payload.len()) as int) =~= rest@);
}

/// An OBU whose size field says more than there is left does not fit.
pub proof fn law_size_past_the_end_is_refused(
    data: &[u8],
    fit: bool,
    head: Seq<u8>,
    field: Seq<u8>,
    size: int,
    number: int,
    left: Seq<u8>,
)
    requires
        call_ensures(check_obu_sizes, (data,), fit),
        is_sized_header(head),
        is_size_field(field, size, number),
        left.len() < size,
        data@ == head + field + left,
    ensures
        !fit,
{
    let s = data@;
    assert(s[0] == head[0]);
    lemma_header_bits(head[0]);
    lemma_size_field(field, size, number, left);
    assert(s.skip(head.len() as int) =~= field + left);
}

/// A size field that does not end counts as none: what is left is looked at from its first byte on.
pub proof fn law_endless_size_field_is_none(
    data: &[u8],
    fit: bool,
    head: Seq<u8>,
    left: &[u8],
    left_fit: bool,
)
    requires
        call_ensures(check_obu_sizes, (data,), fit),
        call_ensures(check_obu_sizes, (left,), left_fit),
        is_sized_header(head),
        forall|i: int| 0 <= i < left@.len() ==> #[trigger] left@[i] >= 128,
        data@ == head + left@,
    ensures
        fit == left_fit,
{
    let s = data@;
    assert(s[0] == head[0]);
    lemma_header_bits(head[0]);
    lemma_leb_len(left@, left@.len());
    assert(s.skip(head.len() as int) =~= left@);
    assert(left@.subrange(0, 0) =~= Seq::<u8>::empty());
    assert(left@.skip(0) =~= left@);
}

} // verus!
