//! The factorial cache: every factorial the series needs, precomputed once
//! by the sequential recurrence `0! = 1`, `i! = (i-1)! * i`, each entry
//! rounded at one fixed bit precision, then shared read-only.

use vstd::prelude::*;

use crate::bignum::BigNum;
use crate::bignum::MIN_PRECISION_BITS;
use crate::bignum::NumExpr;
use crate::bignum::int_val;
use crate::bignum::mul_model;
use crate::bignum::num_from_u64;
use crate::bignum::num_mul;

verus! {

/// The model of cache entry `i`: entry `0` is the integer `1` at `prec`
/// bits, and entry `i` is entry `i - 1` multiplied by the integer `i`,
/// rounded at `prec` bits.
pub open spec fn fact_model(prec: u32, i: nat) -> NumExpr
    decreases i,
{
    if i == 0 {
        int_val(prec, 1)
    } else {
        mul_model(prec, fact_model(prec, (i - 1) as nat), int_val(prec, i as u64))
    }
}

/// An immutable, zero-indexed cache of factorial values at a fixed bit
/// precision.  Built once, then only read.
pub struct FactorialCalculator {
    prec: u32,
    cache: Vec<BigNum>,
}

impl FactorialCalculator {
    /// The bit precision every entry was computed at.
    pub closed spec fn precision(&self) -> u32 {
        self.prec
    }

    /// The models of the cached entries, in index order.
    pub closed spec fn entries(&self) -> Seq<NumExpr> {
        self.cache@.map_values(|b: BigNum| b@)
    }

    /// The largest factorial argument the cache holds.
    pub open spec fn max_index(&self) -> int {
        self.entries().len() - 1
    }

    /// Well-formed: nonempty, positive precision, and entry `i` is exactly
    /// the `i`-th step of the factorial recurrence.
    pub open spec fn wf(&self) -> bool {
        &&& self.precision() >= MIN_PRECISION_BITS
        &&& self.entries().len() >= 1
        &&& forall|i: int|
            0 <= i < self.entries().len() ==> self.entries()[i] == fact_model(
                self.precision(),
                i as nat,
            )
    }

    /// Builds the cache of `max_index + 1` entries at `prec` bits, strictly
    /// sequentially: each entry depends on the one before it.
    pub fn new(prec: u32, max_index: u64) -> (r: Self)
        requires
            prec >= MIN_PRECISION_BITS,
            max_index < usize::MAX,
        ensures
            r.wf(),
            r.precision() == prec,
            r.max_index() == max_index,
    {
        let mut cache: Vec<BigNum> = Vec::new();
        cache.push(num_from_u64(prec, 1));
        let mut i: u64 = 1;
        while i <= max_index
            invariant
                prec >= MIN_PRECISION_BITS,
                max_index < usize::MAX,
                1 <= i <= max_index + 1,
                cache@.len() == i as int,
                forall|j: int| 0 <= j < i as int ==> cache@[j]@ == fact_model(prec, j as nat),
            decreases max_index + 1 - i,
        {
            let multiplier = num_from_u64(prec, i);
            let next = num_mul(&cache[(i - 1) as usize], &multiplier, prec);
            assert(next@ == fact_model(prec, i as nat));
            cache.push(next);
            i = i + 1;
        }
        let r = FactorialCalculator { prec, cache };
        assert forall|j: int| 0 <= j < r.entries().len() implies r.entries()[j] == fact_model(
            r.precision(),
            j as nat,
        ) by {
            assert(r.entries()[j] == r.cache@[j]@);
        }
        r
    }

    /// Returns the cached value of `i!`; callers must stay within the
    /// precomputed bound.
    pub fn get(&self, i: u64) -> (r: &BigNum)
        requires
            self.wf(),
            i <= self.max_index(),
        ensures
            r@ == fact_model(self.precision(), i as nat),
    {
        assert(self.entries()[i as int] == self.cache@[i as int]@);
        let len = self.cache.len();
        assert((i as int) < (len as int));
        &self.cache[i as usize]
    }
}

/// The factorial cache law: entry `0` equals `1`, and for `1 <= i`, entry
/// `i` equals entry `i - 1` multiplied by the integer `i`, rounded at the
/// cache's configured precision.
pub proof fn lemma_cache_recurrence(c: &FactorialCalculator, i: int)
    requires
        c.wf(),
        0 <= i <= c.max_index(),
    ensures
        c.entries()[0] == int_val(c.precision(), 1),
        i >= 1 ==> c.entries()[i] == mul_model(
            c.precision(),
            c.entries()[i - 1],
            int_val(c.precision(), i as u64),
        ),
{
    assert(c.entries()[0] == fact_model(c.precision(), 0));
    if i >= 1 {
        assert(c.entries()[i] == fact_model(c.precision(), i as nat));
        assert(c.entries()[i - 1] == fact_model(c.precision(), (i - 1) as nat));
        assert(fact_model(c.precision(), i as nat) == mul_model(
            c.precision(),
            fact_model(c.precision(), (i - 1) as nat),
            int_val(c.precision(), i as u64),
        ));
    }
}

} // verus!
