//! Arbitrary-precision numbers, modelled symbolically.
//!
//! A `BigNum` wraps an `astro_float::BigFloat` together with a ghost
//! `NumExpr` recording the exact sequence of rounded operations that produced
//! the value.  Every operation rounds to nearest (ties to even) at an
//! explicitly given bit precision, which the model records node by node.
//! `astro_float` arithmetic is deterministic, so the model determines the
//! concrete value bit for bit: two `BigNum`s with equal models hold equal
//! floats.  The constructors in this module are the only code that builds a
//! `BigNum`, and each records precisely the operation its raw counterpart
//! performs.

use vstd::prelude::*;

verus! {

/// The symbolic model of an arbitrary-precision value: the operation tree
/// that produced it.  Every node denotes the `astro_float` value obtained by
/// evaluating its children and applying the node's operation, rounded to
/// nearest (ties to even) at the node's precision of `prec` bits (which
/// `astro_float` rounds up to a whole number of 64-bit words); a failed
/// operation denotes NaN, as `astro_float` documents.
pub enum NumExpr {
    /// An integer converted to a float of `prec` bits.
    IntVal { prec: u32, val: u64 },
    /// Rounded sum of the two operands.
    Add { prec: u32, lhs: Box<NumExpr>, rhs: Box<NumExpr> },
    /// Rounded product of the two operands.
    Mul { prec: u32, lhs: Box<NumExpr>, rhs: Box<NumExpr> },
    /// Rounded quotient of the two operands.
    Div { prec: u32, lhs: Box<NumExpr>, rhs: Box<NumExpr> },
    /// Rounded `base` raised to the integer power `exp`.
    Pow { prec: u32, base: Box<NumExpr>, exp: u64 },
    /// Rounded square root of the operand.
    Sqrt { prec: u32, arg: Box<NumExpr> },
    /// Rounded reciprocal of the operand.
    Recip { prec: u32, arg: Box<NumExpr> },
    /// The operand re-rounded to `prec` bits (the closing precision
    /// narrowing).
    Trim { prec: u32, arg: Box<NumExpr> },
}

pub open spec fn int_val(prec: u32, val: u64) -> NumExpr {
    NumExpr::IntVal { prec, val }
}

pub open spec fn add_model(prec: u32, a: NumExpr, b: NumExpr) -> NumExpr {
    NumExpr::Add { prec, lhs: Box::new(a), rhs: Box::new(b) }
}

pub open spec fn mul_model(prec: u32, a: NumExpr, b: NumExpr) -> NumExpr {
    NumExpr::Mul { prec, lhs: Box::new(a), rhs: Box::new(b) }
}

pub open spec fn div_model(prec: u32, a: NumExpr, b: NumExpr) -> NumExpr {
    NumExpr::Div { prec, lhs: Box::new(a), rhs: Box::new(b) }
}

pub open spec fn pow_model(prec: u32, base: NumExpr, exp: u64) -> NumExpr {
    NumExpr::Pow { prec, base: Box::new(base), exp }
}

pub open spec fn sqrt_model(prec: u32, a: NumExpr) -> NumExpr {
    NumExpr::Sqrt { prec, arg: Box::new(a) }
}

pub open spec fn recip_model(prec: u32, a: NumExpr) -> NumExpr {
    NumExpr::Recip { prec, arg: Box::new(a) }
}

pub open spec fn trim_model(prec: u32, a: NumExpr) -> NumExpr {
    NumExpr::Trim { prec, arg: Box::new(a) }
}

/// The bit precision the outermost operation of a model rounded to.
pub open spec fn prec_of(e: NumExpr) -> u32 {
    match e {
        NumExpr::IntVal { prec, .. } => prec,
        NumExpr::Add { prec, .. } => prec,
        NumExpr::Mul { prec, .. } => prec,
        NumExpr::Div { prec, .. } => prec,
        NumExpr::Pow { prec, .. } => prec,
        NumExpr::Sqrt { prec, .. } => prec,
        NumExpr::Recip { prec, .. } => prec,
        NumExpr::Trim { prec, .. } => prec,
    }
}

/// The decimal rendering of the value a model denotes.  `astro_float`
/// arithmetic is deterministic, so the rendering is a function of the model
/// alone.
pub uninterp spec fn decimal_of(m: NumExpr) -> Seq<char>;

/// The smallest precision the arbitrary-precision collaborator accepts: one
/// of its 64-bit mantissa words.  `astro_float` rejects anything smaller.
pub const MIN_PRECISION_BITS: u32 = 64;

#[verifier::external_type_specification]
#[verifier::external_body]
pub struct ExBigFloat(astro_float::BigFloat);

/// An arbitrary-precision floating-point number together with the ghost model
/// of the operations that produced it.
pub struct BigNum {
    num: astro_float::BigFloat,
    model: Ghost<NumExpr>,
}

impl View for BigNum {
    type V = NumExpr;

    closed spec fn view(&self) -> NumExpr {
        self.model@
    }
}

/// Relies on `astro_float::BigFloat::from_u64`: builds the integer as a float
/// of `prec` bits (rounded up to a whole word); never panics.
#[verifier::external_body]
fn raw_from_u64(prec: u32, val: u64) -> astro_float::BigFloat
    requires
        prec >= MIN_PRECISION_BITS,
{
    astro_float::BigFloat::from_u64(val, prec as usize)
}

/// Relies on `astro_float::BigFloat::add`: the sum rounded to nearest, ties
/// to even, at `prec` bits; never panics.
#[verifier::external_body]
fn raw_add(a: &astro_float::BigFloat, b: &astro_float::BigFloat, prec: u32) -> astro_float::BigFloat {
    a.add(b, prec as usize, astro_float::RoundingMode::ToEven)
}

/// Relies on `astro_float::BigFloat::mul`: the product rounded to nearest,
/// ties to even, at `prec` bits; never panics.
#[verifier::external_body]
fn raw_mul(a: &astro_float::BigFloat, b: &astro_float::BigFloat, prec: u32) -> astro_float::BigFloat {
    a.mul(b, prec as usize, astro_float::RoundingMode::ToEven)
}

/// Relies on `astro_float::BigFloat::div`: the quotient rounded to nearest,
/// ties to even, at `prec` bits; never panics (division by zero yields an
/// infinity or NaN).
#[verifier::external_body]
fn raw_div(a: &astro_float::BigFloat, b: &astro_float::BigFloat, prec: u32) -> astro_float::BigFloat {
    a.div(b, prec as usize, astro_float::RoundingMode::ToEven)
}

/// Relies on `astro_float::BigFloat::powi`: the integer power rounded to
/// nearest, ties to even, at `prec` bits; never panics.
#[verifier::external_body]
fn raw_powi(base: &astro_float::BigFloat, exp: u64, prec: u32) -> astro_float::BigFloat
    requires
        exp <= usize::MAX,
{
    base.powi(exp as usize, prec as usize, astro_float::RoundingMode::ToEven)
}

/// Relies on `astro_float::BigFloat::sqrt`: the square root rounded to
/// nearest, ties to even, at `prec` bits; never panics (a negative argument
/// yields NaN).
#[verifier::external_body]
fn raw_sqrt(a: &astro_float::BigFloat, prec: u32) -> astro_float::BigFloat {
    a.sqrt(prec as usize, astro_float::RoundingMode::ToEven)
}

/// Relies on `astro_float::BigFloat::reciprocal`: the reciprocal rounded to
/// nearest, ties to even, at `prec` bits; never panics.
#[verifier::external_body]
fn raw_recip(a: &astro_float::BigFloat, prec: u32) -> astro_float::BigFloat {
    a.reciprocal(prec as usize, astro_float::RoundingMode::ToEven)
}

/// Relies on `astro_float::BigFloat::set_precision`: re-rounds the value to
/// nearest, ties to even, at `prec` bits and narrows its precision attribute.
/// Every precision of at least one word is within `astro_float`'s accepted
/// range, so the call can fail only when allocation fails, which stops the
/// computation as any other failed allocation would.
#[verifier::external_body]
fn raw_set_prec(a: astro_float::BigFloat, prec: u32) -> astro_float::BigFloat
    requires
        prec >= MIN_PRECISION_BITS,
{
    let mut f = a;
    f.set_precision(prec as usize, astro_float::RoundingMode::ToEven).expect("set_precision");
    f
}

/// Relies on `astro_float::BigFloat`'s decimal `Display`: the digits of the
/// stored value, a function of the value, hence of the model, alone.
#[verifier::external_body]
fn num_to_decimal(a: &BigNum) -> (r: String)
    ensures
        r@ == decimal_of(a@),
{
    format!("{}", a.num)
}

pub(crate) fn num_from_u64(prec: u32, val: u64) -> (r: BigNum)
    requires
        prec >= MIN_PRECISION_BITS,
    ensures
        r@ == int_val(prec, val),
{
    BigNum { num: raw_from_u64(prec, val), model: Ghost(int_val(prec, val)) }
}

pub(crate) fn num_add(a: &BigNum, b: &BigNum, prec: u32) -> (r: BigNum)
    ensures
        r@ == add_model(prec, a@, b@),
{
    BigNum { num: raw_add(&a.num, &b.num, prec), model: Ghost(add_model(prec, a@, b@)) }
}

pub(crate) fn num_mul(a: &BigNum, b: &BigNum, prec: u32) -> (r: BigNum)
    ensures
        r@ == mul_model(prec, a@, b@),
{
    BigNum { num: raw_mul(&a.num, &b.num, prec), model: Ghost(mul_model(prec, a@, b@)) }
}

pub(crate) fn num_div(a: &BigNum, b: &BigNum, prec: u32) -> (r: BigNum)
    ensures
        r@ == div_model(prec, a@, b@),
{
    BigNum { num: raw_div(&a.num, &b.num, prec), model: Ghost(div_model(prec, a@, b@)) }
}

pub(crate) fn num_powi(base: &BigNum, exp: u64, prec: u32) -> (r: BigNum)
    requires
        exp <= usize::MAX,
    ensures
        r@ == pow_model(prec, base@, exp),
{
    BigNum { num: raw_powi(&base.num, exp, prec), model: Ghost(pow_model(prec, base@, exp)) }
}

pub(crate) fn num_sqrt(a: &BigNum, prec: u32) -> (r: BigNum)
    ensures
        r@ == sqrt_model(prec, a@),
{
    BigNum { num: raw_sqrt(&a.num, prec), model: Ghost(sqrt_model(prec, a@)) }
}

pub(crate) fn num_recip(a: &BigNum, prec: u32) -> (r: BigNum)
    ensures
        r@ == recip_model(prec, a@),
{
    BigNum { num: raw_recip(&a.num, prec), model: Ghost(recip_model(prec, a@)) }
}

pub(crate) fn num_set_prec(a: BigNum, prec: u32) -> (r: BigNum)
    requires
        prec >= MIN_PRECISION_BITS,
    ensures
        r@ == trim_model(prec, a@),
{
    let ghost m = a@;
    BigNum { num: raw_set_prec(a.num, prec), model: Ghost(trim_model(prec, m)) }
}

impl BigNum {
    /// The decimal rendering of this value, e.g. `"3.141592653589793e+0"`.
    pub fn to_decimal_string(&self) -> (r: String)
        ensures
            r@ == decimal_of(self@),
    {
        num_to_decimal(self)
    }
}

} // verus!
