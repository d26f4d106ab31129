//! The parallel series-evaluation engine: precision conversion, factorial
//! cache construction, work partitioning, per-range partial sums, and the
//! closing reduction, for a Ramanujan-type series converging to `1 / pi`:
//!
//! ```text
//! term(k) = (4k)! * (1103 + 26390 k) / ((k!)^4 * 396^(4k))
//! ```
//!
//! The sum of the partial sums is multiplied by `2 * sqrt(2) / 9801`, the
//! reciprocal is taken, and the result is narrowed to the precision the
//! caller asked for.  Every function's contract pins the exact tree of
//! rounded operations (`NumExpr`) its result was built by, so the whole
//! numeric path is deterministic: equal inputs give bit-equal results.

use vstd::prelude::*;

use crate::bignum::BigNum;
use crate::bignum::MIN_PRECISION_BITS;
use crate::bignum::NumExpr;
use crate::bignum::add_model;
use crate::bignum::div_model;
use crate::bignum::int_val;
use crate::bignum::mul_model;
use crate::bignum::num_add;
use crate::bignum::num_div;
use crate::bignum::num_from_u64;
use crate::bignum::num_mul;
use crate::bignum::num_powi;
use crate::bignum::num_recip;
use crate::bignum::num_set_prec;
use crate::bignum::num_sqrt;
use crate::bignum::pow_model;
use crate::bignum::prec_of;
use crate::bignum::recip_model;
use crate::bignum::sqrt_model;
use crate::bignum::trim_model;
use crate::factorial::FactorialCalculator;
use crate::factorial::fact_model;
use crate::partition::IndexRange;
use crate::partition::split_range_for_threading;
use crate::partition::worker_block;
use vstd::arithmetic::div_mod::lemma_div_is_ordered;
use vstd::pervasive::unreached;

verus! {

/// How many decimal digits each additional series term contributes.
pub const DIGITS_PER_TERM: u32 = 7;

/// Guard digits carried through intermediate computation to absorb rounding
/// error before the closing precision narrowing.
pub const GUARD_DIGITS: u32 = 1;

/// `log2(10)` as the fixed-point fraction `LOG2_10_NUMER / LOG2_10_DENOM`.
pub const LOG2_10_NUMER: u64 = 3_321_928_094_887_362;

pub const LOG2_10_DENOM: u64 = 1_000_000_000_000_000;

/// The documented ceiling on the digit count: beyond it the memory and time
/// cost is a caller concern, and the fixed-width conversions above would
/// overflow.
pub const MAX_SUPPORTED_DIGITS: u32 = 100_000_000;

/// What can go wrong in the engine.
#[derive(Clone, Copy, Debug, PartialEq, Eq, Structural)]
pub enum PiError {
    /// The requested digit count is zero: no non-degenerate series exists.
    InvalidPrecision,
    /// A factorial argument beyond the precomputed bound was requested.
    /// This is an internal-consistency defect, never a user error; the
    /// verified engine proves its own accesses in bound, so it never
    /// produces this value.
    CacheIndexOutOfRange,
    /// A worker terminated abnormally before producing its partial sum.
    /// The sequential engine cannot fail this way; a threaded runner maps a
    /// failed join to this value.
    WorkerFailure,
}

/// The number of series terms summed for `d` requested decimal digits:
/// `ceil(d / DIGITS_PER_TERM)`.
pub open spec fn spec_term_count(d: u32) -> u64 {
    (((d + DIGITS_PER_TERM - 1) as int) / (DIGITS_PER_TERM as int)) as u64
}

/// The bit equivalent of `digits` decimal digits:
/// `floor(digits * log2(10))`, with `log2(10)` in the fixed-point form
/// above.
pub open spec fn spec_bits(digits: int) -> u32 {
    ((digits * (LOG2_10_NUMER as int)) / (LOG2_10_DENOM as int)) as u32
}

/// A converted precision, raised to the smallest precision the
/// arbitrary-precision collaborator accepts where the request falls under
/// it.
pub open spec fn clamped_prec(bits: u32) -> u32 {
    if bits < MIN_PRECISION_BITS {
        MIN_PRECISION_BITS
    } else {
        bits
    }
}

/// The bit precision of every intermediate computation: the requested digits
/// plus the guard digits, converted to bits.
pub open spec fn spec_working_prec(d: u32) -> u32 {
    clamped_prec(spec_bits(d as int + GUARD_DIGITS as int))
}

/// The bit precision the final answer is narrowed to: the requested digits
/// converted to bits.
pub open spec fn spec_final_prec(d: u32) -> u32 {
    clamped_prec(spec_bits(d as int))
}

/// The term count and the two bit precisions derived from a digit request.
#[derive(Clone, Copy, Debug, PartialEq, Eq, Structural)]
pub struct PrecisionPlan {
    /// How many series terms (`k = 0 .. term_count - 1`) are summed.
    pub term_count: u64,
    /// Bit precision of every intermediate computation.
    pub working_prec: u32,
    /// Bit precision the final answer is narrowed to.
    pub final_prec: u32,
}

/// Bounds every derived quantity needs: at least one term, positive bit
/// precisions, and room to spare in the fixed-width arithmetic.
pub proof fn lemma_precision_bounds(d: u32)
    requires
        1 <= d <= MAX_SUPPORTED_DIGITS,
    ensures
        1 <= spec_term_count(d) <= 14_285_715,
        MIN_PRECISION_BITS <= spec_working_prec(d) <= 400_000_000,
        MIN_PRECISION_BITS <= spec_final_prec(d) <= 400_000_000,
{
    lemma_div_is_ordered(7, (d + DIGITS_PER_TERM - 1) as int, DIGITS_PER_TERM as int);
    lemma_div_is_ordered(
        (d + DIGITS_PER_TERM - 1) as int,
        (MAX_SUPPORTED_DIGITS + DIGITS_PER_TERM - 1) as int,
        DIGITS_PER_TERM as int,
    );
    lemma_bits_ordered(2, d as int + GUARD_DIGITS as int);
    lemma_bits_ordered(d as int + GUARD_DIGITS as int, MAX_SUPPORTED_DIGITS as int + 1);
    lemma_bits_ordered(1, d as int);
    lemma_bits_ordered(d as int, MAX_SUPPORTED_DIGITS as int);
}

/// `spec_bits` is monotonic, and below `u32::MAX` for every digit count the
/// engine accepts, so the clipping cast in its definition is exact there.
proof fn lemma_bits_ordered(lo: int, hi: int)
    requires
        0 <= lo <= hi <= MAX_SUPPORTED_DIGITS as int + 1,
    ensures
        (lo * (LOG2_10_NUMER as int)) / (LOG2_10_DENOM as int) <= (hi * (LOG2_10_NUMER as int))
            / (LOG2_10_DENOM as int),
        (hi * (LOG2_10_NUMER as int)) / (LOG2_10_DENOM as int) <= 400_000_000,
        spec_bits(lo) == (lo * (LOG2_10_NUMER as int)) / (LOG2_10_DENOM as int),
        spec_bits(hi) == (hi * (LOG2_10_NUMER as int)) / (LOG2_10_DENOM as int),
{
    assert(lo * (LOG2_10_NUMER as int) <= hi * (LOG2_10_NUMER as int)) by (nonlinear_arith)
        requires
            0 <= lo <= hi,
    ;
    lemma_div_is_ordered(
        lo * (LOG2_10_NUMER as int),
        hi * (LOG2_10_NUMER as int),
        LOG2_10_DENOM as int,
    );
    assert(hi * (LOG2_10_NUMER as int) <= (MAX_SUPPORTED_DIGITS as int + 1) * (
    LOG2_10_NUMER as int)) by (nonlinear_arith)
        requires
            hi <= MAX_SUPPORTED_DIGITS as int + 1,
            0 <= LOG2_10_NUMER as int,
    ;
    lemma_div_is_ordered(
        hi * (LOG2_10_NUMER as int),
        (MAX_SUPPORTED_DIGITS as int + 1) * (LOG2_10_NUMER as int),
        LOG2_10_DENOM as int,
    );
}

/// Converts `digits` decimal digits to bits with the fixed-point form of
/// `log2(10)`.
fn bits_for_digits(digits: u32) -> (r: u32)
    requires
        digits <= MAX_SUPPORTED_DIGITS + 1,
    ensures
        r == spec_bits(digits as int),
{
    let prod: u128 = (digits as u128) * (LOG2_10_NUMER as u128);
    let bits: u128 = prod / (LOG2_10_DENOM as u128);
    proof {
        lemma_bits_ordered(digits as int, digits as int);
    }
    bits as u32
}

/// Raises a converted precision to the collaborator's minimum.
fn clamp_precision(bits: u32) -> (r: u32)
    ensures
        r == clamped_prec(bits),
{
    if bits < MIN_PRECISION_BITS {
        MIN_PRECISION_BITS
    } else {
        bits
    }
}

/// The Precision Converter: turns a requested decimal digit count into the
/// term count and the working and final bit precisions.  Fails with
/// `InvalidPrecision` exactly when no digits are requested.
pub fn convert_precision(requested_digits: u32) -> (r: Result<PrecisionPlan, PiError>)
    requires
        requested_digits <= MAX_SUPPORTED_DIGITS,
    ensures
        requested_digits == 0 ==> (r matches Err(e) && e == PiError::InvalidPrecision),
        requested_digits >= 1 ==> (r matches Ok(p) && p == (PrecisionPlan {
            term_count: spec_term_count(requested_digits),
            working_prec: spec_working_prec(requested_digits),
            final_prec: spec_final_prec(requested_digits),
        })),
{
    if requested_digits == 0 {
        return Err(PiError::InvalidPrecision);
    }
    let term_count = ((requested_digits + DIGITS_PER_TERM - 1) / DIGITS_PER_TERM) as u64;
    let working_prec = clamp_precision(bits_for_digits(requested_digits + GUARD_DIGITS));
    let final_prec = clamp_precision(bits_for_digits(requested_digits));
    Ok(PrecisionPlan { term_count, working_prec, final_prec })
}

/// The model of series term `k` at `prec` bits, with both factorials read
/// from the cache models.
pub open spec fn term_model(prec: u32, k: u64) -> NumExpr {
    div_model(
        prec,
        mul_model(
            prec,
            fact_model(prec, (4 * k) as nat),
            add_model(
                prec,
                int_val(prec, 1103),
                mul_model(prec, int_val(prec, 26390), int_val(prec, k)),
            ),
        ),
        mul_model(
            prec,
            pow_model(prec, fact_model(prec, k as nat), 4),
            pow_model(prec, int_val(prec, 396), (4 * k) as u64),
        ),
    )
}

/// The model of the running sum of `count` consecutive terms starting at
/// `start`, accumulated left to right onto an initial zero.
pub open spec fn sum_terms_model(prec: u32, start: u64, count: nat) -> NumExpr
    decreases count,
{
    if count == 0 {
        int_val(prec, 0)
    } else {
        add_model(
            prec,
            sum_terms_model(prec, start, (count - 1) as nat),
            term_model(prec, (start + count - 1) as u64),
        )
    }
}

/// The model of one assigned sub-range's partial sum.
pub open spec fn range_model(prec: u32, r: IndexRange) -> NumExpr {
    sum_terms_model(prec, r.start, (r.end - r.start) as nat)
}

/// The model of a worker's result: the partial sums of its assigned
/// sub-ranges, accumulated left to right onto an initial zero.
pub open spec fn ranges_sum_model(prec: u32, tasks: Seq<IndexRange>) -> NumExpr
    decreases tasks.len(),
{
    if tasks.len() == 0 {
        int_val(prec, 0)
    } else {
        add_model(
            prec,
            ranges_sum_model(prec, tasks.drop_last()),
            range_model(prec, tasks.last()),
        )
    }
}

/// The model of worker `i`'s result under the partition of `[0, n)` over
/// `t` workers.
pub open spec fn worker_task_model(prec: u32, n: u64, t: u64, i: int) -> NumExpr {
    ranges_sum_model(prec, seq![worker_block(n, t, i)])
}

/// The model of the reduction of the first `count` workers' results, joined
/// in worker order onto an initial zero.
pub open spec fn workers_sum_model(prec: u32, n: u64, t: u64, count: nat) -> NumExpr
    decreases count,
{
    if count == 0 {
        int_val(prec, 0)
    } else {
        add_model(
            prec,
            workers_sum_model(prec, n, t, (count - 1) as nat),
            worker_task_model(prec, n, t, count as int - 1),
        )
    }
}

/// The model of the reduction of a list of partial sums, joined in order
/// onto an initial zero.
pub open spec fn partials_sum_model(prec: u32, parts: Seq<NumExpr>) -> NumExpr
    decreases parts.len(),
{
    if parts.len() == 0 {
        int_val(prec, 0)
    } else {
        add_model(prec, partials_sum_model(prec, parts.drop_last()), parts.last())
    }
}

/// The Reducer's first step: sums a list of partial sums, in the order they
/// stand, onto an initial zero at `precision` bits.
pub fn reduce_partial_sums(partials: &Vec<BigNum>, precision: u32) -> (r: BigNum)
    requires
        precision >= MIN_PRECISION_BITS,
    ensures
        r@ == partials_sum_model(precision, partials@.map_values(|b: BigNum| b@)),
{
    let mut res = num_from_u64(precision, 0);
    let mut i: usize = 0;
    while i < partials.len()
        invariant
            precision >= MIN_PRECISION_BITS,
            i <= partials@.len(),
            res@ == partials_sum_model(
                precision,
                partials@.take(i as int).map_values(|b: BigNum| b@),
            ),
        decreases partials@.len() - i,
    {
        res = num_add(&res, &partials[i], precision);
        proof {
            let mapped = partials@.take(i as int + 1).map_values(|b: BigNum| b@);
            assert(mapped.drop_last() =~= partials@.take(i as int).map_values(|b: BigNum| b@));
            assert(mapped.last() == partials@[i as int]@);
        }
        i = i + 1;
    }
    proof {
        assert(partials@.take(partials@.len() as int) =~= partials@);
    }
    res
}

/// The model of the closing transform factor `2 * sqrt(2) / 9801`.
pub open spec fn factor_model(prec: u32) -> NumExpr {
    div_model(
        prec,
        mul_model(prec, int_val(prec, 2), sqrt_model(prec, int_val(prec, 2))),
        int_val(prec, 9801),
    )
}

/// The model of the finalizer applied to a total sum: scale by the factor,
/// take the reciprocal (the series converges to `1 / pi`), and narrow to the
/// final precision.
pub open spec fn finalize_model(sum: NumExpr, working_prec: u32, final_prec: u32) -> NumExpr {
    trim_model(final_prec, recip_model(working_prec, mul_model(working_prec, sum, factor_model(working_prec))))
}

/// The model of the whole engine's answer for `d` digits and `t` workers:
/// a single full-range sum when parallel evaluation is declined (`t == 1`,
/// or fewer terms than workers), the partitioned reduction otherwise.
pub open spec fn calc_series_model(d: u32, t: u64) -> NumExpr {
    let n = spec_term_count(d);
    let wp = spec_working_prec(d);
    let fp = spec_final_prec(d);
    let sum = if n < t || t == 1 {
        sum_terms_model(wp, 0, n as nat)
    } else {
        workers_sum_model(wp, n, t, t as nat)
    };
    finalize_model(sum, wp, fp)
}

/// The Partial Evaluator: sums the series terms `start_index ..= end_index`
/// against the shared factorial cache, at `precision` bits, onto an initial
/// zero.
pub fn calc_series_helper_for_range(
    precision: u32,
    start_index: u64,
    end_index: u64,
    factorial_calculator: &FactorialCalculator,
) -> (r: BigNum)
    requires
        precision >= MIN_PRECISION_BITS,
        factorial_calculator.wf(),
        factorial_calculator.precision() == precision,
        start_index <= end_index,
        4 * (end_index as int) <= factorial_calculator.max_index(),
        4 * (end_index as int) <= usize::MAX,
    ensures
        r@ == sum_terms_model(precision, start_index, (end_index - start_index + 1) as nat),
{
    let mut pi = num_from_u64(precision, 0);
    let a = num_from_u64(precision, 1103);
    let b = num_from_u64(precision, 26390);
    let c = num_from_u64(precision, 396);
    let mut k: u64 = start_index;
    while k <= end_index
        invariant
            precision >= MIN_PRECISION_BITS,
            factorial_calculator.wf(),
            factorial_calculator.precision() == precision,
            start_index <= k <= end_index + 1,
            4 * (end_index as int) <= factorial_calculator.max_index(),
            4 * (end_index as int) <= usize::MAX,
            a@ == int_val(precision, 1103),
            b@ == int_val(precision, 26390),
            c@ == int_val(precision, 396),
            pi@ == sum_terms_model(precision, start_index, (k - start_index) as nat),
        decreases end_index + 1 - k,
    {
        let top1 = factorial_calculator.get(4 * k);
        let kn = num_from_u64(precision, k);
        let scaled_k = num_mul(&b, &kn, precision);
        let top2 = num_add(&a, &scaled_k, precision);
        let bottom1 = num_powi(factorial_calculator.get(k), 4, precision);
        let bottom2 = num_powi(&c, 4 * k, precision);
        let numer = num_mul(top1, &top2, precision);
        let denom = num_mul(&bottom1, &bottom2, precision);
        let term = num_div(&numer, &denom, precision);
        pi = num_add(&pi, &term, precision);
        assert(pi@ == sum_terms_model(precision, start_index, (k + 1 - start_index) as nat));
        k = k + 1;
    }
    pi
}

/// One worker's whole job: the partial sums of its assigned sub-ranges,
/// accumulated in order onto an initial zero.
pub fn handle_thread(
    task: &Vec<IndexRange>,
    factorial_calculator: &FactorialCalculator,
    precision: u32,
) -> (r: BigNum)
    requires
        precision >= MIN_PRECISION_BITS,
        factorial_calculator.wf(),
        factorial_calculator.precision() == precision,
        forall|j: int| 0 <= j < task@.len() ==> (#[trigger] task@[j]).start < task@[j].end,
        forall|j: int|
            0 <= j < task@.len() ==> 4 * ((#[trigger] task@[j]).end - 1)
                <= factorial_calculator.max_index() && 4 * (task@[j].end - 1) <= usize::MAX,
    ensures
        r@ == ranges_sum_model(precision, task@),
{
    let mut res = num_from_u64(precision, 0);
    let mut idx: usize = 0;
    while idx < task.len()
        invariant
            precision >= MIN_PRECISION_BITS,
            factorial_calculator.wf(),
            factorial_calculator.precision() == precision,
            idx <= task@.len(),
            forall|j: int| 0 <= j < task@.len() ==> (#[trigger] task@[j]).start < task@[j].end,
            forall|j: int|
                0 <= j < task@.len() ==> 4 * ((#[trigger] task@[j]).end - 1)
                    <= factorial_calculator.max_index() && 4 * (task@[j].end - 1) <= usize::MAX,
            res@ == ranges_sum_model(precision, task@.take(idx as int)),
        decreases task@.len() - idx,
    {
        let rg = task[idx];
        let partial = calc_series_helper_for_range(
            precision,
            rg.start,
            rg.end - 1,
            factorial_calculator,
        );
        res = num_add(&res, &partial, precision);
        proof {
            let taken = task@.take(idx as int + 1);
            assert(taken.drop_last() =~= task@.take(idx as int));
            assert(taken.last() == task@[idx as int]);
            assert((rg.end - 1 - rg.start + 1) as nat == (rg.end - rg.start) as nat);
        }
        idx = idx + 1;
    }
    proof {
        assert(task@.take(task@.len() as int) =~= task@);
    }
    res
}

/// The parallel path: partitions `[0, n)` over `thread_count` workers,
/// evaluates each worker's job against the shared cache, and reduces the
/// partial sums in worker order onto an initial zero.
pub fn calc_series_helper_with_threads(
    precision: u32,
    thread_count: u64,
    n: u64,
    factorial_calculator: &FactorialCalculator,
) -> (r: BigNum)
    requires
        precision >= MIN_PRECISION_BITS,
        factorial_calculator.wf(),
        factorial_calculator.precision() == precision,
        1 <= thread_count <= n,
        4 * (n as int) <= factorial_calculator.max_index() + 1,
        4 * (n as int) <= usize::MAX,
    ensures
        r@ == workers_sum_model(precision, n, thread_count, thread_count as nat),
{
    proof {
        crate::partition::lemma_partition_properties(n, thread_count);
    }
    let tasks = split_range_for_threading(n, thread_count);
    let mut result = num_from_u64(precision, 0);
    let mut i: usize = 0;
    while i < tasks.len()
        invariant
            precision >= MIN_PRECISION_BITS,
            factorial_calculator.wf(),
            factorial_calculator.precision() == precision,
            1 <= thread_count <= n,
            4 * (n as int) <= factorial_calculator.max_index() + 1,
            4 * (n as int) <= usize::MAX,
            tasks@.len() == thread_count as int,
            forall|j: int| 0 <= j < thread_count as int ==> (#[trigger] tasks@[j])@.len() == 1,
            forall|j: int|
                0 <= j < thread_count as int ==> (#[trigger] tasks@[j])@[0] == worker_block(
                    n,
                    thread_count,
                    j,
                ),
            forall|j: int| #![auto]
                0 <= j < thread_count as int ==> worker_block(n, thread_count, j).start
                    < worker_block(n, thread_count, j).end,
            forall|j: int| #![auto]
                0 <= j < thread_count as int ==> worker_block(n, thread_count, j).end <= n,
            i <= thread_count,
            result@ == workers_sum_model(precision, n, thread_count, i as nat),
        decreases thread_count - i,
    {
        let task = &tasks[i];
        let partial = handle_thread(task, factorial_calculator, precision);
        proof {
            assert(task@ =~= seq![worker_block(n, thread_count, i as int)]);
        }
        result = num_add(&result, &partial, precision);
        i = i + 1;
    }
    result
}

/// The Reducer/Finalizer's closing transform: multiply the total sum by
/// `2 * sqrt(2) / 9801`, take the reciprocal, and narrow the result to the
/// final precision, discarding the guard digits.
pub fn finalize_result(sum: BigNum, working_prec: u32, final_prec: u32) -> (r: BigNum)
    requires
        working_prec >= MIN_PRECISION_BITS,
        final_prec >= MIN_PRECISION_BITS,
    ensures
        r@ == finalize_model(sum@, working_prec, final_prec),
{
    let two = num_from_u64(working_prec, 2);
    let sqrt2 = num_sqrt(&two, working_prec);
    let numer = num_mul(&two, &sqrt2, working_prec);
    let denom = num_from_u64(working_prec, 9801);
    let factor = num_div(&numer, &denom, working_prec);
    let scaled = num_mul(&sum, &factor, working_prec);
    let reciprocal = num_recip(&scaled, working_prec);
    num_set_prec(reciprocal, final_prec)
}

/// The engine: computes pi to `input_precision` decimal digits, fanning the
/// series out over `thread_count` workers unless there are fewer terms than
/// workers (or a single worker was asked for), in which case the whole range
/// is evaluated as one job.
///
/// The result's model is a function of the two inputs alone, so two calls
/// with identical inputs yield identical values, and identical rendered
/// digits.
pub fn calc_series(input_precision: u32, thread_count: u64) -> (r: BigNum)
    requires
        1 <= input_precision <= MAX_SUPPORTED_DIGITS,
        1 <= thread_count,
    ensures
        r@ == calc_series_model(input_precision, thread_count),
        prec_of(r@) == spec_final_prec(input_precision),
{
    proof {
        lemma_precision_bounds(input_precision);
    }
    let plan = match convert_precision(input_precision) {
        Ok(plan) => plan,
        Err(_) => unreached(),
    };
    let n = plan.term_count;
    let factorial_calculator = FactorialCalculator::new(plan.working_prec, 4 * n);
    let sum = if n < thread_count || thread_count == 1 {
        calc_series_helper_for_range(plan.working_prec, 0, n - 1, &factorial_calculator)
    } else {
        calc_series_helper_with_threads(
            plan.working_prec,
            thread_count,
            n,
            &factorial_calculator,
        )
    };
    finalize_result(sum, plan.working_prec, plan.final_prec)
}

/// The primary entry point: validates the request, then runs the engine.
/// Returns `InvalidPrecision` exactly when zero digits are requested; every
/// valid request succeeds with the engine's answer.
pub fn compute_pi(requested_digits: u32, worker_count: u64) -> (r: Result<BigNum, PiError>)
    requires
        requested_digits <= MAX_SUPPORTED_DIGITS,
        worker_count >= 1,
    ensures
        requested_digits == 0 ==> (r matches Err(e) && e == PiError::InvalidPrecision),
        requested_digits >= 1 ==> (r matches Ok(v) && v@ == calc_series_model(
            requested_digits,
            worker_count,
        )),
{
    if requested_digits == 0 {
        Err(PiError::InvalidPrecision)
    } else {
        Ok(calc_series(requested_digits, worker_count))
    }
}

/// The fallback law: when fewer terms than workers are requested, the engine
/// takes the single-range path, so its answer is identical to forcing one
/// worker.
pub proof fn lemma_fallback_single_worker(d: u32, t: u64)
    requires
        1 <= d,
        1 <= t,
        spec_term_count(d) < t,
    ensures
        calc_series_model(d, t) == calc_series_model(d, 1),
{
}

} // verus!
