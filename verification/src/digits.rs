//! The digits of a number in some base.
#[allow(unused_imports)]
use vstd::arithmetic::div_mod::{lemma_div_denominator, lemma_fundamental_div_mod};
#[allow(unused_imports)]
use vstd::arithmetic::power::{lemma_pow_positive, pow};
use vstd::prelude::*;

verus! {

/// Shifting a number by one digit and then by `i` is shifting it by `i + 1`.
pub proof fn lemma_shift(v: int, base: int, i: nat)
    requires
        0 <= v,
        1 < base,
    ensures
        pow(base, 0) == 1,
        pow(base, i + 1) == base * pow(base, i),
        pow(base, i) > 0,
        v / pow(base, i + 1) == v / base / pow(base, i),
{
    reveal(pow);
    lemma_pow_positive(base, i);
    lemma_div_denominator(v, base, pow(base, i));
}

/// A number of at most `n` digits is its digits: two that have the same are the same.
pub proof fn lemma_same_digits(v: int, w: int, base: int, n: nat)
    requires
        1 < base,
        0 <= v < pow(base, n),
        0 <= w < pow(base, n),
        forall|i: int|
            #![trigger pow(base, i as nat)]
            0 <= i < n ==> v / pow(base, i as nat) % base == w / pow(base, i as nat) % base,
    ensures
        v == w,
    decreases n,
{
    reveal(pow);
    if n > 0 {
        let m = (n - 1) as nat;
        lemma_shift(v, base, m);
        lemma_fundamental_div_mod(v, base);
        lemma_fundamental_div_mod(w, base);
        assert(0 <= v / base < pow(base, m)) by (nonlinear_arith)
            requires
                0 <= v < base * pow(base, m),
                1 < base,
        ;
        assert(0 <= w / base < pow(base, m)) by (nonlinear_arith)
            requires
                0 <= w < base * pow(base, m),
                1 < base,
        ;
        assert forall|i: int| #![trigger pow(base, i as nat)] 0 <= i < m implies v / base / pow(
            base,
            i as nat,
        ) % base == w / base / pow(base, i as nat) % base by {
            lemma_shift(v, base, i as nat);
            lemma_shift(w, base, i as nat);
            assert(pow(base, (i + 1) as nat) == pow(base, i as nat + 1));
        }
        lemma_same_digits(v / base, w / base, base, m);
        assert(v % base == w % base) by {
            assert(pow(base, 0int as nat) == 1);
        }
    }
}

} // verus!
