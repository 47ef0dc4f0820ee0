//! The noise that an aggregator adds, and the norms that sensitivities are
//! measured in.

use vstd::prelude::*;

verus! {

/// The norm of a report.
#[derive(Clone, Copy, Debug, PartialEq, Eq, Structural)]
pub enum NormType {
    /// The sum of the values.
    L1,
    /// The root of the sum of the squared values.
    L2,
}

/// The scale of the noise that the aggregator adds, in billionths.
#[derive(Clone, Copy, Debug, PartialEq, Eq, Structural)]
pub enum NoiseScale {
    Laplace(u64),
}

/// The sum of the weights of the values of a finite map.
pub open spec fn total_by<K>(m: Map<K, u64>, weight: spec_fn(u64) -> nat) -> nat
    decreases m.dom().len(),
    when m.dom().finite()
{
    if m.dom().len() == 0 {
        0
    } else {
        let k = m.dom().choose();
        weight(m[k]) + total_by(m.remove(k), weight)
    }
}

/// A value weighs as much as itself.
pub open spec fn plain() -> spec_fn(u64) -> nat {
    |v: u64| v as nat
}

/// A value weighs as much as its square.
pub open spec fn squared() -> spec_fn(u64) -> nat {
    |v: u64| (v * v) as nat
}

/// The sum of the values of a finite map.
pub open spec fn total<K>(m: Map<K, u64>) -> nat {
    total_by(m, plain())
}

/// The sum of the squares of the values of a finite map.
pub open spec fn total_squares<K>(m: Map<K, u64>) -> nat {
    total_by(m, squared())
}

/// The sum over a map is the weight of the value of any one key and the sum
/// over the others.
pub proof fn lemma_total_remove<K>(m: Map<K, u64>, weight: spec_fn(u64) -> nat, k: K)
    requires
        m.dom().finite(),
        m.contains_key(k),
    ensures
        total_by(m, weight) == weight(m[k]) + total_by(m.remove(k), weight),
    decreases m.dom().len(),
{
    let c = m.dom().choose();
    if m.dom().len() == 0 {
        assert(m.dom() =~= Set::<K>::empty());
    } else if c != k {
        lemma_total_remove(m.remove(c), weight, k);
        lemma_total_remove(m.remove(k), weight, c);
        assert(m.remove(c).remove(k) =~= m.remove(k).remove(c));
    }
}

/// The sum over a map grows by the weight of the value of a new key.
pub proof fn lemma_total_insert<K>(m: Map<K, u64>, weight: spec_fn(u64) -> nat, k: K, v: u64)
    requires
        m.dom().finite(),
    ensures
        total_by(m.insert(k, v), weight) == weight(v) + total_by(m.remove(k), weight),
        m.contains_key(k) ==> total_by(m.insert(k, v), weight) + weight(m[k]) == weight(v)
            + total_by(m, weight),
        !m.contains_key(k) ==> total_by(m.insert(k, v), weight) == weight(v) + total_by(m, weight),
{
    lemma_total_remove(m.insert(k, v), weight, k);
    assert(m.insert(k, v).remove(k) =~= m.remove(k));
    if m.contains_key(k) {
        lemma_total_remove(m, weight, k);
    } else {
        assert(m.remove(k) =~= m);
    }
}

/// Whether `r` is the least number whose square is no less than `n`.
pub open spec fn is_ceil_sqrt(n: nat, r: nat) -> bool {
    r * r >= n && (r == 0 || (r - 1) * (r - 1) < n)
}

/// The least number whose square is no less than `n`.
pub open spec fn ceil_sqrt(n: nat) -> nat {
    choose|r: nat| is_ceil_sqrt(n, r)
}

/// The root of `n`, rounded up, is the one number whose square is no less
/// than `n` while the square of the number before it is less.
pub proof fn lemma_ceil_sqrt(n: nat, r: nat)
    requires
        is_ceil_sqrt(n, r),
    ensures
        ceil_sqrt(n) == r,
{
    let c = ceil_sqrt(n);
    assert(is_ceil_sqrt(n, c));
    if c < r {
        assert(c * c <= (r - 1) * (r - 1)) by (nonlinear_arith)
            requires
                0 <= c <= r - 1,
        ;
    } else if r < c {
        assert(r * r <= (c - 1) * (c - 1)) by (nonlinear_arith)
            requires
                0 <= r <= c - 1,
        ;
    }
}

/// The root of `n`, rounded up.
pub fn ceil_sqrt_u128(n: u128) -> (r: u128)
    ensures
        r == ceil_sqrt(n as nat),
        r <= 0x1_0000_0000_0000_0000,
{
    if n == 0 {
        proof {
            lemma_ceil_sqrt(0, 0);
        }
        return 0;
    }
    // The root lies above `low` and at or below `high`.
    let mut low: u128 = 0;
    let mut high: u128 = 0x1_0000_0000_0000_0000;
    assert(high * high >= n) by (nonlinear_arith)
        requires
            high == 0x1_0000_0000_0000_0000,
            n <= 0xffff_ffff_ffff_ffff_ffff_ffff_ffff_ffff,
    ;
    while high - low > 1
        invariant
            low < high <= 0x1_0000_0000_0000_0000,
            low * low < n,
            high * high >= n,
        decreases high - low,
    {
        let mid = low + (high - low) / 2;
        assert(mid * mid <= 0xffff_ffff_ffff_ffff * 0xffff_ffff_ffff_ffff) by (nonlinear_arith)
            requires
                0 <= mid <= 0xffff_ffff_ffff_ffff,
        ;
        if mid * mid >= n {
            high = mid;
        } else {
            low = mid;
        }
    }
    proof {
        assert(high - 1 == low);
        lemma_ceil_sqrt(n as nat, high as nat);
    }
    high
}

} // verus!
