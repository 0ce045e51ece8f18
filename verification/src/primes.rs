//! Primality classification of the plotted numbers.

use vstd::prelude::*;
use vstd::arithmetic::div_mod::{
    lemma_fundamental_div_mod, lemma_fundamental_div_mod_converse_mod, lemma_mod_multiples_basic,
};

verus! {

/// A natural number is prime when it is at least 2 and no number strictly
/// between 1 and itself divides it; in particular 0 and 1 are not prime.
pub open spec fn is_prime_spec(n: nat) -> bool {
    n >= 2 && forall|d: nat| 2 <= d < n ==> #[trigger] (n % d) != 0
}

/// An odd number has no even divisor.
proof fn lemma_odd_has_no_even_divisor(v: nat, d: nat)
    requires
        v % 2 != 0,
        d >= 2,
        d % 2 == 0,
    ensures
        v % d != 0,
{
    if v % d == 0 {
        lemma_fundamental_div_mod(v as int, d as int);
        lemma_fundamental_div_mod(d as int, 2);
        let q = v as int / d as int;
        let h = d as int / 2;
        assert(v as int == (h * q) * 2) by (nonlinear_arith)
            requires
                v as int == d as int * q,
                d as int == 2 * h,
        ;
        lemma_mod_multiples_basic(h * q, 2);
        assert(false);
    }
}

/// When `d` divides `v`, the cofactor `v / d` divides `v` as well.
proof fn lemma_cofactor_divides(v: nat, d: nat)
    requires
        1 <= d <= v,
        v % d == 0,
    ensures
        d * (v / d) == v,
        1 <= v / d,
        v % (v / d) == 0,
{
    lemma_fundamental_div_mod(v as int, d as int);
    let q = v as int / d as int;
    assert(v as int == d as int * q);
    assert(q >= 1) by (nonlinear_arith)
        requires
            v as int == d as int * q,
            1 <= d as int <= v as int,
    ;
    lemma_mod_multiples_basic(d as int, q);
    assert((d as int * q) % q == 0);
}

/// Decides primality by trial division: odd candidates from 3 upward,
/// stopping once the candidate's square exceeds the tested value.
pub fn is_prime(value: u32) -> (r: bool)
    ensures
        r == is_prime_spec(value as nat),
{
    if value == 1 || value % 2 == 0 {
        proof {
            if value >= 4 {
                assert((value as nat) % 2 == 0);
                assert(!is_prime_spec(value as nat));
            }
        }
        return value == 2;
    }
    let v: u64 = value as u64;
    let mut buffer: u64 = 3;
    let mut sq: u64 = 9;
    while sq <= v
        invariant
            v == value as u64,
            v % 2 != 0,
            3 <= v < 0x1_0000_0000,
            3 <= buffer <= 65537,
            buffer <= v,
            buffer % 2 == 1,
            sq == buffer * buffer,
            forall|d: nat| 2 <= d < buffer ==> #[trigger] ((v as nat) % d) != 0,
        decreases v - buffer,
    {
        if v % buffer == 0 {
            proof {
                assert(buffer < v) by (nonlinear_arith)
                    requires
                        buffer * buffer <= v,
                        buffer >= 3,
                ;
                assert((v as nat) % (buffer as nat) == 0);
                assert(!is_prime_spec(v as nat));
            }
            return false;
        }
        proof {
            assert((buffer + 1) as nat % 2 == 0) by {
                lemma_fundamental_div_mod(buffer as int, 2);
                let h = buffer as int / 2;
                assert(buffer as int + 1 == (h + 1) * 2 + 0);
                lemma_fundamental_div_mod_converse_mod(buffer as int + 1, 2, h + 1, 0);
            }
            lemma_odd_has_no_even_divisor(v as nat, (buffer + 1) as nat);
            assert forall|d: nat| 2 <= d < buffer + 2 implies #[trigger] ((v as nat) % d) != 0 by {
                if d == buffer as nat {
                    assert((v as nat) % d != 0);
                } else if d == (buffer + 1) as nat {
                    assert((v as nat) % d != 0);
                }
            }
            assert(buffer + 2 <= v) by (nonlinear_arith)
                requires
                    buffer * buffer <= v,
                    buffer >= 3,
            ;
            assert(buffer <= 65535) by (nonlinear_arith)
                requires
                    buffer * buffer <= v,
                    v < 0x1_0000_0000,
                    buffer >= 3,
            ;
            assert((buffer + 2) * (buffer + 2) == buffer * buffer + 4 * buffer + 4)
                by (nonlinear_arith);
        }
        sq = sq + 4 * buffer + 4;
        buffer += 2;
    }
    proof {
        assert forall|d: nat| 2 <= d < v as nat implies #[trigger] ((v as nat) % d) != 0 by {
            if (v as nat) % d == 0 && d >= buffer as nat {
                lemma_cofactor_divides(v as nat, d);
                let k = (v as nat) / d;
                assert(k != 1) by {
                    if k == 1 {
                        assert(d * 1 == d);
                    }
                }
                assert(k < buffer as nat) by (nonlinear_arith)
                    requires
                        d * k == v as nat,
                        d >= buffer as nat,
                        (buffer as nat) * (buffer as nat) > v as nat,
                        k >= 1,
                ;
                assert((v as nat) % k != 0);
                assert(false);
            }
        }
        assert(is_prime_spec(v as nat));
    }
    true
}

} // verus!
