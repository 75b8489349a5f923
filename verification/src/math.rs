//! Integer facts that several modules share.

use vstd::arithmetic::div_mod::*;
use vstd::prelude::*;

verus! {

/// The sum of the terms of `s`.
pub open spec fn sum(s: Seq<nat>) -> nat
    decreases s.len(),
{
    if s.len() == 0 {
        0
    } else {
        sum(s.drop_last()) + s.last()
    }
}

/// A prefix never sums to more than the whole.
pub proof fn lemma_sum_prefix(s: Seq<nat>, n: int)
    requires
        0 <= n <= s.len(),
    ensures
        sum(s.take(n)) <= sum(s),
    decreases s.len(),
{
    if n == s.len() {
        assert(s.take(n) =~= s);
    } else {
        lemma_sum_prefix(s.drop_last(), n);
        assert(s.drop_last().take(n) =~= s.take(n));
    }
}

/// Taking one term more adds that term.
pub proof fn lemma_sum_step(s: Seq<nat>, n: int)
    requires
        0 <= n < s.len(),
    ensures
        sum(s.take(n + 1)) == sum(s.take(n)) + s[n],
{
    assert(s.take(n + 1).drop_last() =~= s.take(n));
}

/// The number of blocks of `block` that hold `n` elements.
pub open spec fn ceil_div(n: int, block: int) -> int {
    (n + block - 1) / block
}

/// Ceiling division.
pub fn div_ceil(n: usize, block: usize) -> (r: usize)
    requires
        block > 0,
        n + block <= usize::MAX,
    ensures
        r == ceil_div(n as int, block as int),
{
    (n + block - 1) / block
}

/// Dividing and multiplying back, as far as `a` is a multiple of `b`.
pub proof fn lemma_div_exact(a: int, b: int)
    requires
        b > 0,
        a % b == 0,
    ensures
        (a / b) * b == a,
        b * (a / b) == a,
{
    lemma_fundamental_div_mod(a, b);
    assert((a / b) * b == b * (a / b)) by (nonlinear_arith);
}

/// Whether a product fits the machine.
pub fn mul_fits(a: usize, b: usize) -> (r: bool)
    ensures
        r == (a * b <= usize::MAX),
{
    a.checked_mul(b).is_some()
}

/// Whether a sum fits the machine.
pub fn sum_fits(a: usize, b: usize) -> (r: bool)
    ensures
        r == (a + b <= usize::MAX),
{
    a <= usize::MAX - b
}

/// Whether `r` is the integer part of the square root of `n`.
pub open spec fn is_sqrt(r: int, n: int) -> bool {
    0 <= r && r * r <= n < (r + 1) * (r + 1)
}

/// The integer part of the square root.
pub fn isqrt(n: usize) -> (r: usize)
    ensures
        is_sqrt(r as int, n as int),
        r <= n,
{
    let mut lo: u128 = 0;
    let mut hi: u128 = n as u128 + 1;
    proof {
        assert((n + 1) * (n + 1) > n) by (nonlinear_arith);
    }
    while hi - lo > 1
        invariant
            lo < hi <= n + 1,
            lo * lo <= n,
            n < hi * hi,
        decreases hi - lo,
    {
        let mid: u128 = lo + (hi - lo) / 2;
        proof {
            assert(0 <= mid * mid <= u128::MAX) by (nonlinear_arith)
                requires
                    0 <= mid <= 0xffff_ffff_ffff_ffff,
            ;
        }
        if mid * mid <= n as u128 {
            lo = mid;
        } else {
            hi = mid;
        }
    }
    assert(lo + 1 == hi);
    lo as usize
}

/// The square root is unique.
pub proof fn lemma_sqrt_unique(a: int, b: int, n: int)
    requires
        is_sqrt(a, n),
        is_sqrt(b, n),
    ensures
        a == b,
{
    assert(a <= b) by (nonlinear_arith)
        requires
            0 <= a,
            0 <= b,
            a * a <= n,
            n < (b + 1) * (b + 1),
    ;
    assert(b <= a) by (nonlinear_arith)
        requires
            0 <= a,
            0 <= b,
            b * b <= n,
            n < (a + 1) * (a + 1),
    ;
}

/// As many blocks as are needed, and not one more; a root that fits, and no
/// larger one does; products and sums that do not fit are found out.
pub proof fn law_integer_helpers(n: usize, block: usize, blocks: usize, root: usize, product: bool, total: bool)
    requires
        block > 0,
        call_ensures(div_ceil, (n, block), blocks),
        call_ensures(isqrt, (n,), root),
        call_ensures(mul_fits, (n, block), product),
        call_ensures(sum_fits, (n, block), total),
    ensures
        blocks * block >= n,
        n > 0 ==> (blocks - 1) * block < n,
        n == 0 ==> blocks == 0,
        root * root <= n < (root + 1) * (root + 1),
        product <==> n * block <= usize::MAX,
        total <==> n + block <= usize::MAX,
{
    let q = (n + block - 1) / (block as int);
    lemma_fundamental_div_mod(n + block - 1, block as int);
    lemma_mod_bound(n + block - 1, block as int);
    assert(q * block >= n && (q - 1) * block < n) by (nonlinear_arith)
        requires
            n + block - 1 == block * q + (n + block - 1) % (block as int),
            0 <= (n + block - 1) % (block as int) < block,
    ;
    if n == 0 {
        lemma_basic_div(block - 1, block as int);
    }
}

} // verus!
