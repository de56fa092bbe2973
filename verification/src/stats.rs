use vstd::prelude::*;

verus! {

use vstd::arithmetic::div_mod::{
    lemma_fundamental_div_mod,
    lemma_mod_division_less_than_divisor,
};
use vstd::seq_lib::group_to_multiset_ensures;
use vstd::seq_lib::lemma_multiset_commutative;

/// A sequence of duration samples in ascending order.
pub open spec fn sorted(s: Seq<u64>) -> bool {
    forall|i: int, j: int| 0 <= i <= j < s.len() ==> s[i] <= s[j]
}

/// The sum of a sequence of duration samples.
pub open spec fn sum_seq(s: Seq<u64>) -> int
    decreases s.len(),
{
    if s.len() == 0 {
        0
    } else {
        sum_seq(s.drop_last()) + s.last()
    }
}

/// A sum of 64-bit durations is non-negative and stays far below the
/// 128-bit limit.
pub proof fn lemma_sum_seq_bound(s: Seq<u64>)
    ensures
        0 <= sum_seq(s),
        sum_seq(s) <= s.len() * u64::MAX,
    decreases s.len(),
{
    if s.len() == 0 {
    } else {
        lemma_sum_seq_bound(s.drop_last());
        assert((s.len() - 1) * u64::MAX + u64::MAX == s.len() * u64::MAX) by (nonlinear_arith);
    }
}

/// The exact sum of the samples.
pub fn sum(samples: &Vec<u64>) -> (r: u128)
    ensures
        r == sum_seq(samples@),
{
    let mut acc: u128 = 0;
    let mut i: usize = 0;
    let n = samples.len();
    proof {
        assert(samples@.subrange(0, 0) =~= Seq::<u64>::empty());
    }
    while i < n
        invariant
            i <= n,
            n == samples@.len(),
            acc == sum_seq(samples@.subrange(0, i as int)),
        decreases n - i,
    {
        proof {
            let next = samples@.subrange(0, i as int + 1);
            assert(next.drop_last() =~= samples@.subrange(0, i as int));
            assert(next.last() == samples@[i as int]);
            lemma_sum_seq_bound(samples@.subrange(0, i as int));
            let len = samples@.subrange(0, i as int).len();
            assert(len * u64::MAX <= (u64::MAX as int) * (u64::MAX as int)) by (nonlinear_arith)
                requires 0 <= len <= u64::MAX as int;
        }
        acc = acc + samples[i] as u128;
        i = i + 1;
    }
    proof {
        assert(samples@.subrange(0, n as int) =~= samples@);
    }
    acc
}

proof fn lemma_insert_to_multiset(s: Seq<u64>, i: int, x: u64)
    requires
        0 <= i <= s.len(),
    ensures
        s.insert(i, x).to_multiset() == s.to_multiset().insert(x),
{
    broadcast use group_to_multiset_ensures;

    let pre = s.subrange(0, i);
    let post = s.subrange(i, s.len() as int);
    assert(s.insert(i, x) =~= pre.push(x) + post);
    assert(s =~= pre + post);
    lemma_multiset_commutative(pre.push(x), post);
    lemma_multiset_commutative(pre, post);
    assert(pre.push(x).to_multiset() =~= pre.to_multiset().insert(x));
    assert(s.insert(i, x).to_multiset() =~= s.to_multiset().insert(x));
}

/// The index before which `x` belongs in the sorted sequence: everything
/// to the left is at most `x`, everything from the position on is greater.
fn insert_position(samples: &Vec<u64>, x: u64) -> (p: usize)
    requires
        sorted(samples@),
    ensures
        p <= samples@.len(),
        forall|k: int| 0 <= k < p ==> samples@[k] <= x,
        forall|k: int| p <= k < samples@.len() ==> samples@[k] > x,
{
    let n = samples.len();
    let mut p: usize = 0;
    while p < n && samples[p] <= x
        invariant
            p <= n,
            n == samples@.len(),
            sorted(samples@),
            forall|k: int| 0 <= k < p ==> samples@[k] <= x,
        decreases n - p,
    {
        p = p + 1;
    }
    p
}

/// A copy of the samples in ascending order; the collection of values is
/// unchanged.
pub fn sorted_copy(samples: &Vec<u64>) -> (r: Vec<u64>)
    ensures
        sorted(r@),
        r@.to_multiset() == samples@.to_multiset(),
        r@.len() == samples@.len(),
{
    broadcast use group_to_multiset_ensures;

    let mut out: Vec<u64> = Vec::new();
    let mut i: usize = 0;
    while i < samples.len()
        invariant
            i <= samples@.len(),
            sorted(out@),
            out@.len() == i,
            out@.to_multiset() == samples@.subrange(0, i as int).to_multiset(),
        decreases samples@.len() - i,
    {
        let x = samples[i];
        let p = insert_position(&out, x);
        let ghost prev = out@;
        out.insert(p, x);
        proof {
            lemma_insert_to_multiset(prev, p as int, x);
            prev.insert_ensures(p as int, x);
            samples@.subrange(0, i as int).to_multiset_ensures();
            assert(samples@.subrange(0, i as int + 1) =~= samples@.subrange(0, i as int).push(x));
            assert(samples@.subrange(0, i as int).push(x).to_multiset() =~= samples@.subrange(
                0,
                i as int,
            ).to_multiset().insert(x));
            assert forall|a: int, b: int| 0 <= a <= b < out@.len() implies out@[a] <= out@[b] by {
                let gp = p as int;
                assert(a < gp ==> out@[a] == prev[a]);
                assert(a == gp ==> out@[a] == x);
                assert(gp < a ==> out@[a] == prev[a - 1]);
                assert(b < gp ==> out@[b] == prev[b]);
                assert(b == gp ==> out@[b] == x);
                assert(gp < b ==> out@[b] == prev[b - 1]);
            }
        }
        i = i + 1;
    }
    proof {
        assert(samples@.subrange(0, samples@.len() as int) =~= samples@);
    }
    out
}

/// An empirical percentile. The percentile is either one sample or the
/// midpoint of two adjacent samples; the pair below carries both samples
/// exactly, and the percentile's value is `(lower + upper) / 2`.
#[derive(Clone, Copy, PartialEq, Eq, Structural, Debug)]
pub struct Quantile {
    pub lower: u64,
    pub upper: u64,
}

impl Quantile {
    /// Twice the percentile's value; exact, where the value itself may
    /// land between two integers.
    pub open spec fn spec_twice_value(self) -> int {
        self.lower + self.upper
    }
}

/// The percentile of a sorted sequence at the level `num / den`, written
/// over the index rule below.
pub open spec fn spec_quantile(s: Seq<u64>, num: int, den: int) -> Quantile {
    let (lo, hi) = spec_percentile_indices(s.len() as int, num, den);
    Quantile { lower: s[lo], upper: s[hi] }
}

/// The pair of sample indices that the "integer-or-linear" empirical
/// percentile rule selects, under the one-indexed convention: with
/// `c = n * (num / den)`, an integral candidate averages the samples at
/// (one-indexed) positions `c` and `min(c + 1, n)`, and a fractional
/// candidate takes the sample at position `floor(c) + 1`.
pub open spec fn spec_percentile_indices(n: int, num: int, den: int) -> (int, int) {
    let c = n * num;
    let f = c / den;
    if c % den == 0 {
        (f - 1, if f < n { f } else { n - 1 })
    } else {
        let i = (if f + 1 < n { f + 1 } else { n }) - 1;
        (i, i)
    }
}

/// Division by a positive divisor respects the order of rationals:
/// `a / b <= c / d` whenever `a * d <= c * b`.
proof fn lemma_floor_monotone(a: int, b: int, c: int, d: int)
    requires
        a >= 0,
        c >= 0,
        b >= 1,
        d >= 1,
        a * d <= c * b,
    ensures
        a / b <= c / d,
{
    let q = a / b;
    lemma_fundamental_div_mod(a, b);
    lemma_mod_division_less_than_divisor(a, b);
    assert(q * b <= a) by (nonlinear_arith)
        requires a == b * q + a % b, a % b >= 0;
    assert(q * b * d <= a * d) by (nonlinear_arith)
        requires q * b <= a, d >= 1;
    assert(q * d * b <= c * b) by (nonlinear_arith)
        requires q * b * d <= a * d, a * d <= c * b;
    assert(q * d <= c) by (nonlinear_arith)
        requires q * d * b <= c * b, b >= 1;
    if q > c / d {
        lemma_fundamental_div_mod(c, d);
        lemma_mod_division_less_than_divisor(c, d);
        assert(false) by (nonlinear_arith)
            requires
                q * d <= c,
                q >= c / d + 1,
                d >= 1,
                c == d * (c / d) + c % d,
                0 <= c % d < d,
        ;
    }
}

/// The selected indices are within bounds and ordered.
pub proof fn lemma_percentile_indices_bounds(n: int, num: int, den: int)
    requires
        n >= 1,
        1 <= num <= den,
    ensures
        ({
            let (lo, hi) = spec_percentile_indices(n, num, den);
            0 <= lo <= hi < n
        }),
        n * num % den == 0 ==> 1 <= n * num / den <= n,
        n * num % den != 0 ==> n * num / den < n,
{
    let c = n * num;
    let f = c / den;
    assert(c >= n) by (nonlinear_arith)
        requires c == n * num, num >= 1, n >= 1;
    assert(c <= n * den) by (nonlinear_arith)
        requires c == n * num, num <= den, n >= 1;
    lemma_fundamental_div_mod(c, den);
    lemma_mod_division_less_than_divisor(c, den);
    vstd::arithmetic::div_mod::lemma_div_pos_is_pos(c, den);
    vstd::arithmetic::div_mod::lemma_div_is_ordered(c, n * den, den);
    vstd::arithmetic::div_mod::lemma_div_by_multiple(n, den);
    assert(f <= n);
    if c % den == 0 {
        if f == 0 {
            assert(false) by (nonlinear_arith)
                requires c == den * f + c % den, f == 0, c % den == 0, c >= 1;
        }
    } else {
        if f == n {
            assert(false) by (nonlinear_arith)
                requires c == den * f + c % den, f == n, c % den >= 1, c <= n * den;
        }
    }
}

/// On a single sample, every percentile level selects that sample.
pub proof fn lemma_percentile_single(num: int, den: int)
    requires
        1 <= num <= den,
    ensures
        spec_percentile_indices(1, num, den) == (0int, 0int),
{
    lemma_percentile_indices_bounds(1, num, den);
}

/// The percentile rule is monotone in the level: a higher level never
/// selects indices to the left of a lower one.
pub proof fn lemma_percentile_monotone(n: int, num1: int, den1: int, num2: int, den2: int)
    requires
        n >= 1,
        1 <= num1 <= den1,
        1 <= num2 <= den2,
        num1 * den2 <= num2 * den1,
    ensures
        ({
            let (lo1, hi1) = spec_percentile_indices(n, num1, den1);
            let (lo2, hi2) = spec_percentile_indices(n, num2, den2);
            lo1 <= lo2 && hi1 <= hi2
        }),
{
    let c1 = n * num1;
    let c2 = n * num2;
    let f1 = c1 / den1;
    let f2 = c2 / den2;
    lemma_percentile_indices_bounds(n, num1, den1);
    lemma_percentile_indices_bounds(n, num2, den2);
    assert(c1 * den2 <= c2 * den1) by (nonlinear_arith)
        requires c1 == n * num1, c2 == n * num2, num1 * den2 <= num2 * den1, n >= 1;
    lemma_floor_monotone(c1, den1, c2, den2);
    assert(f1 <= f2);
    lemma_fundamental_div_mod(c1, den1);
    lemma_mod_division_less_than_divisor(c1, den1);
    lemma_fundamental_div_mod(c2, den2);
    lemma_mod_division_less_than_divisor(c2, den2);
    if c1 % den1 != 0 && c2 % den2 == 0 {
        // A fractional candidate lies strictly above its floor, an integral
        // one equals it, so equal floors would order the rationals the
        // wrong way around.
        if f1 == f2 {
            assert(c1 > den1 * f1);
            assert(c2 == den2 * f2);
            assert(false) by (nonlinear_arith)
                requires
                    c1 > den1 * f1,
                    c2 == den2 * f2,
                    f1 == f2,
                    c1 * den2 <= c2 * den1,
                    den1 >= 1,
                    den2 >= 1,
                    f1 >= 0,
            ;
        }
    }
}

/// On a sequence of one sample, every percentile level yields that
/// sample.
pub proof fn lemma_quantile_single(s: Seq<u64>, num: int, den: int)
    requires
        s.len() == 1,
        1 <= num <= den,
    ensures
        spec_quantile(s, num, den) == (Quantile { lower: s[0], upper: s[0] }),
{
    lemma_percentile_single(num, den);
}

/// The sample indices the percentile rule selects for `n` samples at the
/// level `level_num / level_den`.
pub fn percentile_indices(n: usize, level_num: u64, level_den: u64) -> (r: (usize, usize))
    requires
        n >= 1,
        1 <= level_num <= level_den,
    ensures
        ({
            let (lo, hi) = spec_percentile_indices(n as int, level_num as int, level_den as int);
            r.0 == lo && r.1 == hi && 0 <= r.0 <= r.1 < n
        }),
{
    let ghost gn = n as int;
    let ghost gnum = level_num as int;
    let ghost gden = level_den as int;
    proof {
        lemma_percentile_indices_bounds(gn, gnum, gden);
        assert(gn * gnum <= (u64::MAX as int) * (u64::MAX as int)) by (nonlinear_arith)
            requires 0 <= gn <= u64::MAX as int, 0 <= gnum <= u64::MAX as int;
    }
    let c: u128 = (n as u128) * (level_num as u128);
    let den: u128 = level_den as u128;
    let f: u128 = c / den;
    let rem: u128 = c % den;
    proof {
        assert(c == gn * gnum);
        assert(f == gn * gnum / gden && rem == gn * gnum % gden);
    }
    if rem == 0 {
        let idx_bottom: usize = (f - 1) as usize;
        let idx_top: usize = if f < n as u128 {
            f as usize
        } else {
            n - 1
        };
        (idx_bottom, idx_top)
    } else {
        let idx: usize = f as usize;
        (idx, idx)
    }
}

/// The empirical percentile of a non-empty sorted sample sequence at the
/// level `level_num / level_den`.
pub fn percentile(samples: &Vec<u64>, level_num: u64, level_den: u64) -> (r: Quantile)
    requires
        samples@.len() >= 1,
        sorted(samples@),
        1 <= level_num <= level_den,
    ensures
        r == spec_quantile(samples@, level_num as int, level_den as int),
        r.lower <= r.upper,
{
    let (idx_bottom, idx_top) = percentile_indices(samples.len(), level_num, level_den);
    Quantile { lower: samples[idx_bottom], upper: samples[idx_top] }
}

} // verus!
