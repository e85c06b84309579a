//! Text built digit by digit.
#[allow(unused_imports)]
use vstd::arithmetic::power::pow;
use vstd::prelude::*;

#[allow(unused_imports)]
use crate::digits::lemma_shift;

verus! {

/// The text of an optional string.
pub open spec fn text_of(s: Option<String>) -> Option<Seq<char>> {
    match s {
        Some(s) => Some(s@),
        None => None,
    }
}

/// The lower-case hexadecimal digit of value `v`.
pub open spec fn hex_digit_of(v: int) -> char
    recommends
        0 <= v < 16,
{
    if v < 10 {
        (48 + v) as char
    } else {
        (87 + v) as char
    }
}

/// The two lower-case hexadecimal digits of a byte, the high one first.
pub open spec fn hex_byte(b: u8) -> Seq<char> {
    seq![hex_digit_of(b as int / 16), hex_digit_of(b as int % 16)]
}

/// The decimal digits of `n`, without leading zeros.
pub open spec fn decimal(n: nat) -> Seq<char>
    decreases n,
{
    if n < 10 {
        seq![hex_digit_of(n as int)]
    } else {
        decimal(n / 10).push(hex_digit_of((n % 10) as int))
    }
}

/// A number in decimal has as many digits as it needs and no more, each in its place.
pub proof fn law_decimal_digits(n: nat)
    ensures
        ({
            let len = decimal(n).len();
            &&& len > 0
            &&& n < pow(10, len)
            &&& len > 1 ==> n >= pow(10, (len - 1) as nat)
            &&& decimal(n) == Seq::new(
                len,
                |i: int| (48 + n as int / pow(10, (len - 1 - i) as nat) % 10) as char,
            )
        }),
    decreases n,
{
    let len = decimal(n).len();
    let digits = Seq::new(
        len,
        |i: int| (48 + n as int / pow(10, (len - 1 - i) as nat) % 10) as char,
    );
    lemma_shift(n as int, 10, 0);
    if n < 10 {
        assert(n as int / 1 % 10 == n);
        assert(decimal(n) =~= digits);
    } else {
        law_decimal_digits(n / 10);
        let shorter = decimal(n / 10);
        lemma_shift(n as int, 10, shorter.len());
        lemma_shift(n as int, 10, (shorter.len() - 1) as nat);
        assert forall|i: int| 0 <= i < len implies #[trigger] decimal(n)[i] == digits[i] by {
            if i < len - 1 {
                lemma_shift(n as int, 10, (len - 2 - i) as nat);
                assert(((len - 2 - i) as nat + 1) as nat == (len - 1 - i) as nat);
                assert(decimal(n)[i] == shorter[i]);
                assert(shorter[i] == (48 + (n / 10) as int / pow(
                    10,
                    (shorter.len() - 1 - i) as nat,
                ) % 10) as char);
                assert(n as int / pow(10, (len - 1 - i) as nat) % 10 < 10);
            } else {
                assert(pow(10, (len - 1 - i) as nat) == 1);
            }
        }
        assert(decimal(n) =~= digits);
    }
}

/// A byte in hexadecimal is its two digits, the high one first, in lower case.
pub proof fn law_hex_byte_digits(b: u8)
    ensures
        hex_byte(b) == seq![
            "0123456789abcdef"@[b as int / 16],
            "0123456789abcdef"@[b as int % 16],
        ],
{
    reveal_strlit("0123456789abcdef");
    lemma_hex_digit(b as int / 16);
    lemma_hex_digit(b as int % 16);
    assert(hex_byte(b) =~= seq![
        "0123456789abcdef"@[b as int / 16],
        "0123456789abcdef"@[b as int % 16],
    ]);
}

proof fn lemma_hex_digit(v: int)
    requires
        0 <= v < 16,
    ensures
        hex_digit_of(v) == "0123456789abcdef"@[v],
{
    reveal_strlit("0123456789abcdef");
    assert(v == 0 || v == 1 || v == 2 || v == 3 || v == 4 || v == 5 || v == 6 || v == 7 || v == 8
        || v == 9 || v == 10 || v == 11 || v == 12 || v == 13 || v == 14 || v == 15);
}

/// Appends the hexadecimal digit of `v` to `out`.
fn push_hex_digit(out: &mut String, v: u8)
    requires
        v < 16,
    ensures
        final(out)@ == old(out)@.push(hex_digit_of(v as int)),
{
    let digits: &str = "0123456789abcdef";
    proof {
        reveal_strlit("0123456789abcdef");
        assert(digits.is_ascii());
    }
    let at: usize = v as usize;
    let digit: &str = digits.substring_ascii(at, at + 1);
    assert(digits@[v as int] == hex_digit_of(v as int)) by {
        assert(v == 0 || v == 1 || v == 2 || v == 3 || v == 4 || v == 5 || v == 6 || v == 7
            || v == 8 || v == 9 || v == 10 || v == 11 || v == 12 || v == 13 || v == 14 || v == 15);
    }
    out.append(digit);
    assert(out@ =~= old(out)@.push(hex_digit_of(v as int)));
}

/// Appends the two hexadecimal digits of `b` to `out`.
pub fn push_hex_byte(out: &mut String, b: u8)
    ensures
        final(out)@ == old(out)@ + hex_byte(b),
{
    push_hex_digit(out, b / 16);
    push_hex_digit(out, b % 16);
    assert(out@ =~= old(out)@ + hex_byte(b));
}

/// Appends the decimal digits of `n` to `out`.
pub fn push_decimal(out: &mut String, n: u32)
    ensures
        final(out)@ == old(out)@ + decimal(n as nat),
    decreases n,
{
    if n >= 10 {
        push_decimal(out, n / 10);
    }
    push_hex_digit(out, (n % 10) as u8);
    assert(out@ =~= old(out)@ + decimal(n as nat));
}

} // verus!
