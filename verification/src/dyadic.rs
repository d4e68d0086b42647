//! Exact binary fractions: values written `m * 2^e`, as the host's doubles are, and
//! their comparison without rounding.

use vstd::prelude::*;
use vstd::arithmetic::power2::{pow2, lemma_pow2_unfold, lemma_pow2_pos, lemma_pow2_strictly_increases, lemma2_to64};

verus! {

/// `a <= b` for values written `m * 2^e`.
pub open spec fn dyadic_le(a: (int, int), b: (int, int)) -> bool {
    if a.1 >= b.1 {
        a.0 * pow2((a.1 - b.1) as nat) <= b.0
    } else {
        a.0 <= b.0 * pow2((b.1 - a.1) as nat)
    }
}

fn pow2_exec(d: u32) -> (r: i128)
    requires
        d <= 64,
    ensures
        r == pow2(d as nat),
{
    let mut p: i128 = 1;
    let mut k: u32 = 0;
    proof {
        lemma2_to64();
    }
    while k < d
        invariant
            k <= d <= 64,
            p == pow2(k as nat),
            pow2(64) == 0x1_0000_0000_0000_0000,
        decreases d - k,
    {
        proof {
            lemma_pow2_unfold((k + 1) as nat);
            if k + 1 < 64 {
                lemma_pow2_strictly_increases((k + 1) as nat, 64);
            }
        }
        p = p * 2;
        k = k + 1;
    }
    p
}

proof fn lemma_big_shift_decides(m: int, d: nat, other: int)
    requires
        m != 0,
        pow2(d) >= 0x1_0000_0000_0000_0000 || (d >= 1 && (m >= 0x8000_0000_0000_0000 || m <= -0x8000_0000_0000_0000)),
        -0x1_0000_0000_0000_0000 < other < 0x1_0000_0000_0000_0000,
        -0x1_0000_0000_0000_0000 < m < 0x1_0000_0000_0000_0000,
    ensures
        (m * pow2(d) <= other) == (m < 0),
        (other <= m * pow2(d)) == (m > 0),
{
    lemma_pow2_pos(d);
    if d >= 1 {
        lemma_pow2_unfold(d);
        lemma_pow2_pos((d - 1) as nat);
    }
    let p = pow2(d) as int;
    if m > 0 {
        if p >= 0x1_0000_0000_0000_0000 {
            assert(m * p >= p) by (nonlinear_arith) requires m >= 1, p > 0;
        } else {
            assert(p >= 2);
            assert(m * p >= m * 2) by (nonlinear_arith) requires m >= 1, p >= 2;
        }
    } else {
        if p >= 0x1_0000_0000_0000_0000 {
            assert(m * p <= -p) by (nonlinear_arith) requires m <= -1, p > 0;
        } else {
            assert(p >= 2);
            assert(m * p <= m * 2) by (nonlinear_arith) requires m <= -1, p >= 2;
        }
    }
}

/// Compares two values written `m * 2^e`.
pub fn dyadic_le_exec(m1: i128, e1: i64, m2: i128, e2: i64) -> (r: bool)
    requires
        -0x1_0000_0000_0000_0000 < m1 < 0x1_0000_0000_0000_0000,
        -0x1_0000_0000_0000_0000 < m2 < 0x1_0000_0000_0000_0000,
        -0x1_0000_0000 < e1 < 0x1_0000_0000,
        -0x1_0000_0000 < e2 < 0x1_0000_0000,
    ensures
        r == dyadic_le((m1 as int, e1 as int), (m2 as int, e2 as int)),
{
    proof {
        lemma2_to64();
    }
    if e1 >= e2 {
        let d = e1 - e2;
        if m1 == 0 {
            assert(m1 * pow2(d as nat) == 0) by (nonlinear_arith)
                requires
                    m1 == 0;
            return 0 <= m2;
        }
        if d >= 64 {
            proof {
                if d > 64 {
                    lemma_pow2_strictly_increases(64, d as nat);
                }
                lemma_big_shift_decides(m1 as int, d as nat, m2 as int);
            }
            return m1 < 0;
        }
        if d >= 1 && (m1 >= 0x8000_0000_0000_0000i128 || m1 <= -0x8000_0000_0000_0000i128) {
            proof {
                lemma_big_shift_decides(m1 as int, d as nat, m2 as int);
            }
            return m1 < 0;
        }
        let p = pow2_exec(d as u32);
        proof {
            lemma_pow2_pos(d as nat);
            if d < 63 {
                lemma_pow2_strictly_increases(d as nat, 63);
            }
            assert(pow2(63) == 0x8000_0000_0000_0000) by {
                lemma_pow2_unfold(64);
            }
            assert(-0x8000_0000_0000_0000_0000_0000_0000_0000 < m1 * p < 0x8000_0000_0000_0000_0000_0000_0000_0000) by (nonlinear_arith)
                requires
                    -0x1_0000_0000_0000_0000 < m1 < 0x1_0000_0000_0000_0000,
                    1 <= p <= 0x8000_0000_0000_0000,
                    d == 0 ==> p == 1,
                    d >= 1 ==> -0x8000_0000_0000_0000 < m1 < 0x8000_0000_0000_0000;
        }
        m1 * p <= m2
    } else {
        let d = e2 - e1;
        if m2 == 0 {
            assert(m2 * pow2(d as nat) == 0) by (nonlinear_arith)
                requires
                    m2 == 0;
            return m1 <= 0;
        }
        if d >= 64 {
            proof {
                if d > 64 {
                    lemma_pow2_strictly_increases(64, d as nat);
                }
                lemma_big_shift_decides(m2 as int, d as nat, m1 as int);
            }
            return m2 > 0;
        }
        if m2 >= 0x8000_0000_0000_0000i128 || m2 <= -0x8000_0000_0000_0000i128 {
            proof {
                lemma_big_shift_decides(m2 as int, d as nat, m1 as int);
            }
            return m2 > 0;
        }
        let p = pow2_exec(d as u32);
        proof {
            lemma_pow2_pos(d as nat);
            if d < 63 {
                lemma_pow2_strictly_increases(d as nat, 63);
            }
            assert(pow2(63) == 0x8000_0000_0000_0000) by {
                lemma_pow2_unfold(64);
            }
            assert(-0x8000_0000_0000_0000_0000_0000_0000_0000 < m2 * p < 0x8000_0000_0000_0000_0000_0000_0000_0000) by (nonlinear_arith)
                requires
                    -0x8000_0000_0000_0000 < m2 < 0x8000_0000_0000_0000,
                    1 <= p <= 0x8000_0000_0000_0000;
        }
        m1 <= m2 * p
    }
}


} // verus!
