//! Little-endian integers in byte sequences.
#[allow(unused_imports)]
use vstd::arithmetic::div_mod::lemma_mod_breakdown;
#[allow(unused_imports)]
use vstd::arithmetic::power::pow;
use vstd::prelude::*;

#[allow(unused_imports)]
use crate::digits::lemma_shift;

verus! {

/// 256 to the power of `n`: how many values `n` bytes can hold.
pub open spec fn pow256(n: nat) -> nat
    decreases n,
{
    if n == 0 {
        1
    } else {
        256 * pow256((n - 1) as nat)
    }
}

/// The number that `bytes` hold, least significant byte first.
pub open spec fn le_value(bytes: Seq<u8>) -> nat
    decreases bytes.len(),
{
    if bytes.len() == 0 {
        0
    } else {
        bytes[0] as nat + 256 * le_value(bytes.skip(1))
    }
}

/// The `n` least significant bytes of `v`, least significant byte first.
pub open spec fn le_bytes(v: nat, n: nat) -> Seq<u8>
    decreases n,
{
    if n == 0 {
        Seq::empty()
    } else {
        seq![(v % 256) as u8] + le_bytes(v / 256, (n - 1) as nat)
    }
}

/// `n` bytes hold less than 256 to the power of `n`.
pub proof fn lemma_le_value_bound(bytes: Seq<u8>)
    ensures
        le_value(bytes) < pow256(bytes.len()),
    decreases bytes.len(),
{
    if bytes.len() > 0 {
        lemma_le_value_bound(bytes.skip(1));
    }
}

/// A number that fits into `n` bytes is read back as it was written.
pub proof fn law_le_roundtrip(v: nat, n: nat)
    requires
        v < pow256(n),
    ensures
        le_bytes(v, n).len() == n,
        le_value(le_bytes(v, n)) == v,
    decreases n,
{
    if n > 0 {
        law_le_roundtrip(v / 256, (n - 1) as nat);
        assert(le_bytes(v, n).skip(1) =~= le_bytes(v / 256, (n - 1) as nat));
    }
}

/// What is written of a number are its digits in base 256, least significant digit first.
pub proof fn law_le_bytes_are_digits(v: nat, n: nat)
    ensures
        le_bytes(v, n) == Seq::new(n, |i: int| (v as int / pow(256, i as nat) % 256) as u8),
    decreases n,
{
    let digits = Seq::new(n, |i: int| (v as int / pow(256, i as nat) % 256) as u8);
    if n > 0 {
        law_le_bytes_are_digits(v / 256, (n - 1) as nat);
        lemma_shift(v as int, 256, 0);
        assert forall|i: int| 0 <= i < n implies #[trigger] le_bytes(v, n)[i] == digits[i] by {
            if i > 0 {
                lemma_shift(v as int, 256, (i - 1) as nat);
                assert(((i - 1) as nat + 1) as nat == i as nat);
                assert(le_bytes(v, n)[i] == le_bytes(v / 256, (n - 1) as nat)[i - 1]);
                assert(le_bytes(v / 256, (n - 1) as nat)[i - 1] == ((v / 256) as int / pow(
                    256,
                    (i - 1) as nat,
                ) % 256) as u8);
            } else {
                assert(pow(256, i as nat) == 1);
                assert(v as int / 1 == v);
            }
        }
    }
    assert(le_bytes(v, n) =~= digits);
}

/// What bytes are read as is the number whose digits in base 256 they are, least significant digit
/// first.
pub proof fn law_le_value_has_the_bytes_as_digits(bytes: Seq<u8>)
    ensures
        le_value(bytes) < pow(256, bytes.len()),
        bytes == Seq::new(
            bytes.len(),
            |i: int| (le_value(bytes) as int / pow(256, i as nat) % 256) as u8,
        ),
    decreases bytes.len(),
{
    lemma_le_bytes_of_value(bytes);
    law_le_bytes_are_digits(le_value(bytes), bytes.len());
    lemma_le_value_bound(bytes);
    lemma_pow256_is_pow(bytes.len());
}

/// Cutting a number to `n` bytes keeps its last `n` bytes.
pub proof fn lemma_le_bytes_of_remainder(v: nat, n: nat)
    ensures
        pow256(n) > 0,
        le_bytes(v % pow256(n), n) == le_bytes(v, n),
    decreases n,
{
    if n > 0 {
        let p = pow256((n - 1) as nat);
        lemma_le_bytes_of_remainder(v / 256, (n - 1) as nat);
        lemma_mod_breakdown(v as int, 256, p as int);
        let w = v % pow256(n);
        assert(w == 256 * ((v / 256) % p) + v % 256);
        assert(w % 256 == v % 256 && w / 256 == (v / 256) % p);
    }
}

proof fn lemma_pow256_is_pow(n: nat)
    ensures
        pow256(n) == pow(256, n),
    decreases n,
{
    lemma_shift(0, 256, n);
    if n > 0 {
        lemma_pow256_is_pow((n - 1) as nat);
        lemma_shift(0, 256, (n - 1) as nat);
    }
}

proof fn lemma_le_bytes_of_value(bytes: Seq<u8>)
    ensures
        le_bytes(le_value(bytes), bytes.len()) == bytes,
    decreases bytes.len(),
{
    if bytes.len() > 0 {
        lemma_le_bytes_of_value(bytes.skip(1));
        assert(bytes =~= seq![bytes[0]] + bytes.skip(1));
    }
    assert(le_bytes(le_value(bytes), bytes.len()) =~= bytes);
}

/// The sizes that the fields of a frame header have.
pub proof fn lemma_pow256_values()
    ensures
        pow256(1) == 0x100,
        pow256(2) == 0x1_0000,
        pow256(3) == 0x100_0000,
        pow256(4) == 0x1_0000_0000,
        pow256(5) == 0x100_0000_0000,
        pow256(6) == 0x1_0000_0000_0000,
        pow256(7) == 0x100_0000_0000_0000,
        pow256(8) == 0x1_0000_0000_0000_0000,
{
    reveal_with_fuel(pow256, 9);
}

/// The number that the `n` bytes of `bytes` from index `at` on hold.
pub fn read_le(bytes: &[u8], at: usize, n: usize) -> (v: u64)
    requires
        n <= 8,
        at + n <= bytes.len(),
    ensures
        v == le_value(bytes@.subrange(at as int, at + n)),
        v < pow256(n as nat),
{
    let mut v: u64 = 0;
    let mut i: usize = n;
    assert(bytes@.subrange(at + n, at + n) =~= Seq::<u8>::empty());
    while i > 0
        invariant
            i <= n <= 8,
            at + n <= bytes.len(),
            v == le_value(bytes@.subrange(at + i, at + n)),
            v < pow256((n - i) as nat),
        decreases i,
    {
        let ghost longer = bytes@.subrange(at + i - 1, at + n);
        proof {
            assert(longer.skip(1) =~= bytes@.subrange(at + i, at + n));
            lemma_le_value_bound(longer);
            lemma_pow256_values();
            let k = (n - i) as nat;
            assert(k == 0 || k == 1 || k == 2 || k == 3 || k == 4 || k == 5 || k == 6 || k == 7);
        }
        i -= 1;
        v = v * 256 + bytes[at + i] as u64;
    }
    v
}

/// What is read is the number whose digits in base 256 the bytes are, least significant digit first.
pub proof fn law_read_le_reads_the_digits(bytes: &[u8], at: usize, n: usize, v: u64)
    requires
        at + n <= bytes@.len(),
        call_ensures(read_le, (bytes, at, n), v),
    ensures
        v < pow(256, n as nat),
        bytes@.subrange(at as int, at + n) == Seq::new(
            n as nat,
            |i: int| (v as int / pow(256, i as nat) % 256) as u8,
        ),
{
    law_le_value_has_the_bytes_as_digits(bytes@.subrange(at as int, at + n));
    assert(bytes@.subrange(at as int, at + n) =~= Seq::new(
        n as nat,
        |i: int| (v as int / pow(256, i as nat) % 256) as u8,
    ));
}

/// What is appended are the digits in base 256, least significant digit first.
pub proof fn law_push_le_writes_the_digits(out: &mut Vec<u8>, v: u64, n: usize)
    requires
        call_ensures(push_le, (out, v, n), ()),
    ensures
        final(out)@ == old(out)@ + Seq::new(
            n as nat,
            |i: int| (v as int / pow(256, i as nat) % 256) as u8,
        ),
{
    law_le_bytes_are_digits(v as nat, n as nat);
    assert(le_bytes(v as nat, n as nat) =~= Seq::new(
        n as nat,
        |i: int| (v as int / pow(256, i as nat) % 256) as u8,
    ));
}

/// Appends the `n` least significant bytes of `v` to `out`.
pub fn push_le(out: &mut Vec<u8>, v: u64, n: usize)
    ensures
        final(out)@ == old(out)@ + le_bytes(v as nat, n as nat),
{
    let ghost whole = old(out)@ + le_bytes(v as nat, n as nat);
    let mut rest: u64 = v;
    let mut i: usize = 0;
    while i < n
        invariant
            i <= n,
            whole == out@ + le_bytes(rest as nat, (n - i) as nat),
        decreases n - i,
    {
        out.push((rest % 256) as u8);
        assert(whole =~= out@ + le_bytes((rest / 256) as nat, (n - i - 1) as nat));
        rest = rest / 256;
        i += 1;
    }
    assert(whole =~= out@);
}

} // verus!
