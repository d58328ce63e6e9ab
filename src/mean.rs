use vstd::arithmetic::div_mod::{
    lemma_fundamental_div_mod, lemma_fundamental_div_mod_converse, lemma_mod_pos_bound,
};
use vstd::prelude::*;

use crate::window::sum_of;

verus! {

/// An exact mean, `whole + frac / count`, of `count` integer samples.
#[derive(Debug, PartialEq, Eq, Clone, Copy)]
pub struct Mean {
    pub whole: i128,
    pub frac: usize,
    pub count: usize,
}

/// `a` is strictly below `b`, compared as rationals.
pub open spec fn mean_lt(a: Mean, b: Mean) -> bool {
    a.total() * b.count < b.total() * a.count
}

impl Mean {
    pub open spec fn wf(self) -> bool {
        self.count > 0 && self.frac < self.count
    }

    /// The sum of the samples this mean was taken over.
    pub open spec fn total(self) -> int {
        self.whole * self.count + self.frac
    }

    /// This is the mean of the samples `s`: their sum divided by their number.
    pub open spec fn is_mean_of(self, s: Seq<i64>) -> bool {
        &&& self.wf()
        &&& self.count == s.len()
        &&& self.total() == sum_of(s)
    }

    /// The mean of `count` samples whose sum is `sum`.
    pub fn from_sum(sum: i128, count: usize) -> (m: Mean)
        requires
            count > 0,
        ensures
            m.wf(),
            m.count == count,
            m.total() == sum,
            m.whole == (sum as int) / (count as int),
            m.frac == (sum as int) % (count as int),
    {
        let k = count as u128;
        if sum >= 0 {
            let a = sum as u128;
            let q = a / k;
            let r = a % k;
            proof {
                lemma_fundamental_div_mod(a as int, k as int);
                lemma_mod_pos_bound(a as int, k as int);
                assert(q <= a) by (nonlinear_arith)
                    requires
                        k * q + r == a,
                        k >= 1,
                        q >= 0,
                        r >= 0,
                ;
            }
            let m = Mean { whole: q as i128, frac: r as usize, count };
            assert(m.total() == sum) by (nonlinear_arith)
                requires
                    k * q + r == a,
                    a == sum,
                    m.whole == q,
                    m.frac == r,
                    m.count == k,
            ;
            proof {
                lemma_fundamental_div_mod_converse(
                    sum as int,
                    k as int,
                    m.whole as int,
                    m.frac as int,
                );
            }
            m
        } else {
            // For a = -sum - 1 = k * q + r, the sum is k * (-1 - q) + (k - 1 - r).
            let a = (-(sum + 1)) as u128;
            let q = a / k;
            let r = a % k;
            proof {
                lemma_fundamental_div_mod(a as int, k as int);
                lemma_mod_pos_bound(a as int, k as int);
                assert(q <= a) by (nonlinear_arith)
                    requires
                        k * q + r == a,
                        k >= 1,
                        q >= 0,
                        r >= 0,
                ;
            }
            let m = Mean { whole: -1 - q as i128, frac: (k - 1 - r) as usize, count };
            assert(m.total() == sum) by (nonlinear_arith)
                requires
                    k * q + r == a,
                    a == -(sum + 1),
                    m.whole == -1 - q,
                    m.frac == k - 1 - r,
                    m.count == k,
            ;
            proof {
                lemma_fundamental_div_mod_converse(
                    sum as int,
                    k as int,
                    m.whole as int,
                    m.frac as int,
                );
            }
            m
        }
    }

    /// Whether this mean is strictly below `other`.
    pub fn less_than(&self, other: &Mean) -> (r: bool)
        requires
            self.wf(),
            other.wf(),
        ensures
            r == mean_lt(*self, *other),
    {
        let ghost (w1, f1, k1) = (self.whole as int, self.frac as int, self.count as int);
        let ghost (w2, f2, k2) = (other.whole as int, other.frac as int, other.count as int);
        proof {
            assert((w1 * k1 + f1) * k2 == w1 * k1 * k2 + f1 * k2) by (nonlinear_arith);
            assert((w2 * k2 + f2) * k1 == w2 * k1 * k2 + f2 * k1) by (nonlinear_arith);
            assert(0 <= f1 * k2 < k1 * k2) by (nonlinear_arith)
                requires
                    0 <= f1 < k1,
                    k2 > 0,
            ;
            assert(0 <= f2 * k1 < k1 * k2) by (nonlinear_arith)
                requires
                    0 <= f2 < k2,
                    k1 > 0,
            ;
            if w1 < w2 {
                assert(w1 * k1 * k2 + k1 * k2 <= w2 * k1 * k2) by (nonlinear_arith)
                    requires
                        w1 + 1 <= w2,
                        k1 > 0,
                        k2 > 0,
                ;
            } else if w2 < w1 {
                assert(w2 * k1 * k2 + k1 * k2 <= w1 * k1 * k2) by (nonlinear_arith)
                    requires
                        w2 + 1 <= w1,
                        k1 > 0,
                        k2 > 0,
                ;
            }
            assert(f1 * k2 <= usize::MAX * usize::MAX) by (nonlinear_arith)
                requires
                    0 <= f1 <= usize::MAX,
                    0 <= k2 <= usize::MAX,
            ;
            assert(f2 * k1 <= usize::MAX * usize::MAX) by (nonlinear_arith)
                requires
                    0 <= f2 <= usize::MAX,
                    0 <= k1 <= usize::MAX,
            ;
            assert(usize::MAX * usize::MAX <= u128::MAX) by (nonlinear_arith)
                requires
                    usize::MAX <= u64::MAX,
            ;
        }
        if self.whole != other.whole {
            self.whole < other.whole
        } else {
            let lhs = (self.frac as u128) * (other.count as u128);
            let rhs = (other.frac as u128) * (self.count as u128);
            lhs < rhs
        }
    }
}

} // verus!
