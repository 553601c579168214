//! Taking apart the product of two primes that the server hands out.

use crate::error::Error;
use vstd::prelude::*;

verus! {

/// Whether `p` and `q` are the factors of `pq` that the handshake asks
/// for: `p` is the least divisor of `pq` above one, `q` is what is left,
/// and `p` is not the greater one. Of the product of two primes these are
/// the two primes.
pub open spec fn pq_factors(pq: u64, p: u32, q: u32) -> bool {
    &&& 1 < p <= q
    &&& p * q == pq
    &&& forall|d: int| 1 < d < p ==> #[trigger] (pq as int % d) != 0
}

/// Whether `n` is a prime.
pub open spec fn is_prime(n: int) -> bool {
    1 < n && forall|d: int| 1 < d < n ==> #[trigger] (n % d) != 0
}

/// A multiple of `d` leaves no remainder, and what leaves no remainder is
/// a multiple.
proof fn lemma_multiple(x: int, d: int)
    requires
        d > 0,
    ensures
        x % d == 0 <==> x == d * (x / d),
        forall|k: int| #[trigger] ((d * k) % d) == 0,
{
    vstd::arithmetic::div_mod::lemma_fundamental_div_mod(x, d);
    assert forall|k: int| #[trigger] ((d * k) % d) == 0 by {
        vstd::arithmetic::div_mod::lemma_mod_multiples_basic(k, d);
        assert(k * d == d * k) by (nonlinear_arith);
    }
}

/// If `d` divides both `a * q` and `b * q`, it divides `g * q` for a common
/// divisor `g` of `a` and `b`: the greatest, which the division with
/// remainder arrives at.
proof fn lemma_descent(a: int, b: int, d: int, q: int) -> (g: int)
    requires
        d > 0,
        a > 0,
        b >= 0,
        (a * q) % d == 0,
        (b * q) % d == 0,
    ensures
        g > 0,
        (g * q) % d == 0,
        a % g == 0,
        b % g == 0,
    decreases b,
{
    if b == 0 {
        lemma_multiple(a, a);
        assert(a == a * 1);
        assert(0int % a == 0);
        a
    } else {
        let r = a % b;
        let k = a / b;
        vstd::arithmetic::div_mod::lemma_fundamental_div_mod(a, b);
        lemma_multiple(a * q, d);
        lemma_multiple(b * q, d);
        let i = (a * q) / d;
        let j = (b * q) / d;
        assert(r * q == d * (i - k * j)) by (nonlinear_arith)
            requires
                a == b * k + r,
                a * q == d * i,
                b * q == d * j,
        ;
        assert((r * q) % d == 0) by {
            lemma_multiple(r * q, d);
        }
        let g = lemma_descent(b, r, d, q);
        lemma_multiple(b, g);
        lemma_multiple(r, g);
        let u = b / g;
        let v = r / g;
        assert(a == g * (u * k + v)) by (nonlinear_arith)
            requires
                a == b * k + r,
                b == g * u,
                r == g * v,
        ;
        assert(a % g == 0) by {
            lemma_multiple(a, g);
        }
        g
    }
}

/// The product of two primes has no divisor between one and the smaller
/// prime, so its factors are the two primes.
pub proof fn lemma_semiprime_factors(p: u32, q: u32)
    requires
        is_prime(p as int),
        is_prime(q as int),
        p <= q,
        p * q <= u64::MAX,
    ensures
        pq_factors((p * q) as u64, p, q),
{
    let pq = (p * q) as int;
    assert forall|d: int| 1 < d < p implies #[trigger] (pq % d) != 0 by {
        if pq % d == 0 {
            lemma_multiple(d * q, d);
            let g = lemma_descent(p as int, d, d, q as int);
            // A common divisor of the prime `p` and the smaller `d` is one.
            assert(g <= d) by {
                lemma_multiple(d, g);
                let w = d / g;
                assert(g <= g * w) by (nonlinear_arith)
                    requires
                        d == g * w,
                        d > 0,
                        g > 0,
                ;
            }
            assert(g == 1) by {
                if g > 1 {
                    assert((p as int) % g != 0);
                }
            }
            assert((q as int) % d == 0);
            assert(false);
        }
    }
}

/// A number without a divisor two also has no even divisor.
proof fn lemma_no_even_divisor(n: int, e: int)
    requires
        0 <= n,
        0 < e,
        e % 2 == 0,
        n % 2 != 0,
    ensures
        n % e != 0,
{
    if n % e == 0 {
        let k = n / e;
        let h = e / 2;
        vstd::arithmetic::div_mod::lemma_fundamental_div_mod(n, e);
        assert(n == e * k);
        assert(e == 2 * h);
        assert(n == 2 * (h * k)) by (nonlinear_arith)
            requires
                n == e * k,
                e == 2 * h,
        ;
        assert(n % 2 == 0) by {
            vstd::arithmetic::div_mod::lemma_mod_multiples_basic(h * k, 2);
        }
    }
}

/// A divisor whose square exceeds the number leaves a smaller cofactor.
proof fn lemma_factor_below(pq: int, p: int, q: int, bound: int)
    requires
        0 < p <= q,
        p * q == pq,
        pq < bound * bound,
        0 <= bound,
    ensures
        p < bound,
{
    if p >= bound {
        assert(p * q >= bound * bound) by (nonlinear_arith)
            requires
                p >= bound,
                q >= bound,
                bound >= 0,
        ;
    }
}

/// A number has at most one least divisor above one, and so at most one
/// pair of factors.
pub proof fn lemma_factors_unique(pq: u64, p: u32, q: u32, other_p: u32, other_q: u32)
    requires
        pq_factors(pq, p, q),
        pq_factors(pq, other_p, other_q),
    ensures
        p == other_p,
        q == other_q,
{
    lemma_multiple(pq as int, p as int);
    lemma_multiple(pq as int, other_p as int);
    assert(pq as int % (p as int) == 0) by {
        assert(p * q == (p as int) * (q as int));
    }
    assert(pq as int % (other_p as int) == 0) by {
        assert(other_p * other_q == (other_p as int) * (other_q as int));
    }
    assert(p == other_p);
    assert(q == other_q) by (nonlinear_arith)
        requires
            p * q == other_p * other_q,
            p == other_p,
            p > 0,
    ;
}

/// Factors `pq` into `(p, q)` with `p` not above `q`, or fails with `BadPq`
/// when `pq` has no two such factors of 32 bits: when it is below four, a
/// prime, or has a cofactor that is too large. The product of two primes
/// of 32 bits comes apart into these two.
pub fn pq_decompose(pq: u64) -> (r: Result<(u32, u32), Error>)
    ensures
        r matches Ok((p, q)) ==> pq_factors(pq, p, q),
        forall|p: u32, q: u32| pq_factors(pq, p, q) ==> r == Ok::<(u32, u32), Error>((p, q)),
        r is Err ==> r == Err::<(u32, u32), Error>(Error::BadPq),
{
    if pq < 4 {
        proof {
            assert forall|p: u32, q: u32| !pq_factors(pq, p, q) by {
                if 1 < p <= q && p * q == pq {
                    assert(p * q >= 4) by (nonlinear_arith)
                        requires
                            2 <= p,
                            2 <= q,
                    ;
                }
            }
        }
        return Err(Error::BadPq);
    }
    let mut d: u64 = if pq % 2 == 0 {
        2
    } else {
        3
    };
    while d <= 0xffff_ffff && d <= pq / d && pq % d != 0
        invariant
            2 <= d <= 0x1_0000_0001,
            4 <= pq,
            d == 2 || d % 2 == 1,
            d > 2 ==> pq as int % 2 != 0,
            forall|c: int| 1 < c < d ==> #[trigger] (pq as int % c) != 0,
        decreases 0x1_0000_0001 - d,
    {
        proof {
            if d > 2 {
                lemma_no_even_divisor(pq as int, d + 1);
            }
        }
        d = if d == 2 {
            3
        } else {
            d + 2
        };
    }
    if d <= 0xffff_ffff && d <= pq / d {
        let q = pq / d;
        proof {
            vstd::arithmetic::div_mod::lemma_fundamental_div_mod(pq as int, d as int);
            assert(d * q == pq);
        }
        if q > 0xffff_ffff {
            proof {
                assert forall|other_p: u32, other_q: u32| !pq_factors(pq, other_p, other_q) by {
                    if pq_factors(pq, other_p, other_q) {
                        // Both are the least divisor above one.
                        assert(pq as int % (d as int) == 0);
                        assert(pq as int % (other_p as int) == 0) by {
                            vstd::arithmetic::div_mod::lemma_mod_multiples_basic(
                                other_q as int,
                                other_p as int,
                            );
                            assert(other_q * other_p == other_p * other_q) by (nonlinear_arith);
                        }
                        assert(other_p == d);
                        assert(other_q == q) by (nonlinear_arith)
                            requires
                                d * q == pq,
                                other_p * other_q == pq,
                                other_p == d,
                                d > 0,
                        ;
                    }
                }
            }
            return Err(Error::BadPq);
        }
        proof {
            assert(pq_factors(pq, d as u32, q as u32));
            assert forall|other_p: u32, other_q: u32| pq_factors(pq, other_p, other_q) implies other_p == d && other_q == q by {
                lemma_factors_unique(pq, d as u32, q as u32, other_p, other_q);
            }
        }
        Ok((d as u32, q as u32))
    } else {
        proof {
            assert forall|other_p: u32, other_q: u32| !pq_factors(pq, other_p, other_q) by {
                if pq_factors(pq, other_p, other_q) {
                    assert(pq as int % (other_p as int) == 0) by {
                        vstd::arithmetic::div_mod::lemma_mod_multiples_basic(other_q as int, other_p as int);
                        assert(other_q * other_p == other_p * other_q) by (nonlinear_arith);
                    }
                    if d <= 0xffff_ffff {
                        let whole = (pq / d) as int;
                        vstd::arithmetic::div_mod::lemma_fundamental_div_mod(pq as int, d as int);
                        assert(pq < d * d) by (nonlinear_arith)
                            requires
                                pq == d * whole + (pq as int % d as int),
                                0 <= (pq as int % d as int) < d,
                                0 <= whole < d,
                        ;
                        lemma_factor_below(pq as int, other_p as int, other_q as int, d as int);
                    }
                    assert(other_p < d);
                }
            }
        }
        Err(Error::BadPq)
    }
}

} // verus!
