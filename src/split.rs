//! The positional train/test split.
use vstd::prelude::*;

verus! {

/// Train size for `n` rows at ratio `num / den`: `floor(n * num / den)`.
pub open spec fn spec_split_point(n: int, num: int, den: int) -> int {
    (n * num) / den
}

proof fn lemma_split_point_bounds(n: int, num: int, den: int)
    requires
        0 <= n,
        0 < num < den,
    ensures
        0 <= spec_split_point(n, num, den) <= n,
{
    assert(0 <= n * num) by (nonlinear_arith)
        requires
            0 <= n,
            0 < num,
    ;
    assert(n * num <= n * den) by (nonlinear_arith)
        requires
            0 <= n,
            num < den,
    ;
    assert((n * num) / den <= (n * den) / den) by (nonlinear_arith)
        requires
            n * num <= n * den,
            0 < den,
    ;
    assert((n * den) / den == n) by (nonlinear_arith)
        requires
            0 < den,
    ;
    assert(0 <= (n * num) / den) by (nonlinear_arith)
        requires
            0 <= n * num,
            0 < den,
    ;
}

/// The number of training rows for `n` rows at ratio `num / den`, a ratio
/// strictly between 0 and 1.
pub fn split_point(n: usize, num: u64, den: u64) -> (r: usize)
    requires
        0 < num < den,
    ensures
        r as int == spec_split_point(n as int, num as int, den as int),
        r <= n,
{
    proof {
        lemma_split_point_bounds(n as int, num as int, den as int);
        assert((n as int) * (num as int) <= u128::MAX) by (nonlinear_arith)
            requires
                0 <= n <= usize::MAX,
                0 <= num <= u64::MAX,
        ;
    }
    let p: u128 = (n as u128) * (num as u128);
    (p / (den as u128)) as usize
}

/// Splits rows by position: the first `floor(n * num / den)` rows train,
/// the rest test. Nothing is shuffled.
pub fn split_dataset<T>(data: Vec<T>, num: u64, den: u64) -> (r: (Vec<T>, Vec<T>))
    requires
        0 < num < den,
    ensures
        r.0@.len() == spec_split_point(data@.len() as int, num as int, den as int),
        r.0@.len() + r.1@.len() == data@.len(),
        r.0@ == data@.take(r.0@.len() as int),
        r.1@ == data@.skip(r.0@.len() as int),
{
    let mut train = data;
    let at = split_point(train.len(), num, den);
    let test = train.split_off(at);
    (train, test)
}

} // verus!
