//! The built-in functions of one number.
use vstd::prelude::*;
use crate::conversion::{number_of, Known};
use crate::eval::{eval, eval_known, lemma_number_agrees, number_known};
use crate::host::{Context, Host, MathFn};
use crate::number::{absolute, at_most, is_nan, less_than, magnitude, negate, negated, rank, ONE, ZERO};
use crate::text::same_text;
use crate::types::{result_view, Error, Expr, Value, ValueModel};

verus! {

/// A built-in function.
#[derive(Debug, Clone, Copy, PartialEq, Eq, Structural)]
pub enum Builtin {
    Abs,
    Math(MathFn),
}

/// The built-in function of a name, if there is one.
pub open spec fn builtin_named(name: Seq<char>) -> Option<Builtin> {
    if name == "ABS"@ {
        Some(Builtin::Abs)
    } else if name == "ACOS"@ {
        Some(Builtin::Math(MathFn::Acos))
    } else if name == "ASIN"@ {
        Some(Builtin::Math(MathFn::Asin))
    } else if name == "ATAN"@ {
        Some(Builtin::Math(MathFn::Atan))
    } else if name == "COS"@ {
        Some(Builtin::Math(MathFn::Cos))
    } else if name == "DEGREES"@ {
        Some(Builtin::Math(MathFn::Degrees))
    } else if name == "EXP"@ {
        Some(Builtin::Math(MathFn::Exp))
    } else if name == "LN"@ {
        Some(Builtin::Math(MathFn::Ln))
    } else if name == "LOG10"@ {
        Some(Builtin::Math(MathFn::Log10))
    } else if name == "RADIANS"@ {
        Some(Builtin::Math(MathFn::Radians))
    } else if name == "SIN"@ {
        Some(Builtin::Math(MathFn::Sin))
    } else if name == "SQRT"@ {
        Some(Builtin::Math(MathFn::Sqrt))
    } else if name == "TAN"@ {
        Some(Builtin::Math(MathFn::Tan))
    } else {
        None
    }
}

/// Whether the function has a domain narrower than all numbers.
pub open spec fn constrained(f: MathFn) -> bool {
    match f {
        MathFn::Acos | MathFn::Asin | MathFn::Ln | MathFn::Log10 | MathFn::Radians | MathFn::Sqrt => true,
        _ => false,
    }
}

/// Whether `x` lies in the domain of `f`: [-1, 1] for ACOS and ASIN; above
/// zero for LN, LOG10 and RADIANS; zero or above for SQRT. A NaN lies in
/// no constrained domain.
pub open spec fn in_domain(f: MathFn, x: u64) -> bool {
    match f {
        MathFn::Acos | MathFn::Asin => !is_nan(x) && rank(negated(ONE)) <= rank(x) <= rank(ONE),
        MathFn::Ln | MathFn::Log10 | MathFn::Radians => !is_nan(x) && rank(x) > 0,
        MathFn::Sqrt => !is_nan(x) && rank(x) >= 0,
        _ => true,
    }
}

/// The outcome of a built-in function whose argument converted to `n`: a
/// constrained function on a number the host computed may also give `Num`.
pub open spec fn apply_known(b: Builtin, n: Known) -> Known {
    match n {
        Known::Exactly(Err(e)) => Known::Exactly(Err(e)),
        Known::Exactly(Ok(ValueModel::Num(x))) => match b {
            Builtin::Abs => Known::Exactly(Ok(ValueModel::Num(magnitude(x)))),
            Builtin::Math(f) => if in_domain(f, x) {
                crate::conversion::some_number()
            } else {
                Known::Exactly(Err(Error::Num))
            },
        },
        Known::OneOf(kind, es) => match b {
            Builtin::Abs => Known::OneOf(kind, es),
            Builtin::Math(f) => if constrained(f) && kind is Some {
                Known::OneOf(kind, es.insert(Error::Num))
            } else {
                Known::OneOf(kind, es)
            },
        },
        _ => Known::HostDependent,
    }
}

/// The outcome of built-in `b` on unevaluated arguments: exactly one is taken.
pub open spec fn builtin_spec(
    cells: Map<(usize, usize), crate::sheet::Cell>,
    loc: Option<(usize, usize)>,
    b: Builtin,
    args: Seq<Expr>,
) -> Known {
    if args.len() != 1 {
        Known::Exactly(Err(Error::Args))
    } else {
        apply_known(b, number_known(cells, loc, eval_known(cells, loc, args[0])))
    }
}

/// The built-in function of a name.
pub fn builtin_of(name: &str) -> (r: Option<Builtin>)
    ensures
        r == builtin_named(name@),
{
    if same_text(name, "ABS") {
        Some(Builtin::Abs)
    } else if same_text(name, "ACOS") {
        Some(Builtin::Math(MathFn::Acos))
    } else if same_text(name, "ASIN") {
        Some(Builtin::Math(MathFn::Asin))
    } else if same_text(name, "ATAN") {
        Some(Builtin::Math(MathFn::Atan))
    } else if same_text(name, "COS") {
        Some(Builtin::Math(MathFn::Cos))
    } else if same_text(name, "DEGREES") {
        Some(Builtin::Math(MathFn::Degrees))
    } else if same_text(name, "EXP") {
        Some(Builtin::Math(MathFn::Exp))
    } else if same_text(name, "LN") {
        Some(Builtin::Math(MathFn::Ln))
    } else if same_text(name, "LOG10") {
        Some(Builtin::Math(MathFn::Log10))
    } else if same_text(name, "RADIANS") {
        Some(Builtin::Math(MathFn::Radians))
    } else if same_text(name, "SIN") {
        Some(Builtin::Math(MathFn::Sin))
    } else if same_text(name, "SQRT") {
        Some(Builtin::Math(MathFn::Sqrt))
    } else if same_text(name, "TAN") {
        Some(Builtin::Math(MathFn::Tan))
    } else {
        None
    }
}

/// Whether `x` lies in the domain of `f`.
pub fn check_domain(f: MathFn, x: u64) -> (r: bool)
    ensures
        r == in_domain(f, x),
{
    match f {
        MathFn::Acos | MathFn::Asin => at_most(negate(ONE), x) && at_most(x, ONE),
        MathFn::Ln | MathFn::Log10 | MathFn::Radians => less_than(ZERO, x),
        MathFn::Sqrt => at_most(ZERO, x),
        _ => true,
    }
}

/// Applies built-in `b` to its one argument: evaluated, converted to a
/// number and checked against the function's domain.
pub fn single_num_fn<H: Host>(args: &Vec<Expr>, ctx: &Context<H>, b: Builtin) -> (r: Result<Value, Error>)
    ensures
        crate::conversion::agrees(builtin_spec(ctx.sheet.cells(), ctx.current_loc, b, args@), result_view(r)),
    decreases args, 0nat,
{
    if args.len() != 1 {
        return Err(Error::Args);
    }
    let v = eval(ctx, &args[0]);
    let n = number_of(v, ctx);
    proof {
        lemma_number_agrees(ctx.sheet.cells(), ctx.current_loc, eval_known(ctx.sheet.cells(), ctx.current_loc, args@[0]), result_view(v), crate::conversion::number_view(n));
    }
    match n {
        Err(e) => Err(e),
        Ok(x) => match b {
            Builtin::Abs => Ok(Value::Num(absolute(x))),
            Builtin::Math(f) => if check_domain(f, x) {
                Ok(Value::Num(ctx.host.math(f, x)))
            } else {
                Err(Error::Num)
            },
        },
    }
}

} // verus!

verus! {

/// ABS: the absolute value.
pub fn abs<H: Host>(args: &Vec<Expr>, ctx: &Context<H>) -> (r: Result<Value, Error>)
    ensures
        crate::conversion::agrees(builtin_spec(ctx.sheet.cells(), ctx.current_loc, Builtin::Abs, args@), result_view(r)),
{
    single_num_fn(args, ctx, Builtin::Abs)
}

/// ACOS: the arc cosine, of a number in [-1, 1].
pub fn acos<H: Host>(args: &Vec<Expr>, ctx: &Context<H>) -> (r: Result<Value, Error>)
    ensures
        crate::conversion::agrees(builtin_spec(ctx.sheet.cells(), ctx.current_loc, Builtin::Math(MathFn::Acos), args@), result_view(r)),
{
    single_num_fn(args, ctx, Builtin::Math(MathFn::Acos))
}

/// ASIN: the arc sine, of a number in [-1, 1].
pub fn asin<H: Host>(args: &Vec<Expr>, ctx: &Context<H>) -> (r: Result<Value, Error>)
    ensures
        crate::conversion::agrees(builtin_spec(ctx.sheet.cells(), ctx.current_loc, Builtin::Math(MathFn::Asin), args@), result_view(r)),
{
    single_num_fn(args, ctx, Builtin::Math(MathFn::Asin))
}

/// ATAN: the arc tangent.
pub fn atan<H: Host>(args: &Vec<Expr>, ctx: &Context<H>) -> (r: Result<Value, Error>)
    ensures
        crate::conversion::agrees(builtin_spec(ctx.sheet.cells(), ctx.current_loc, Builtin::Math(MathFn::Atan), args@), result_view(r)),
{
    single_num_fn(args, ctx, Builtin::Math(MathFn::Atan))
}

/// COS: the cosine.
pub fn cos<H: Host>(args: &Vec<Expr>, ctx: &Context<H>) -> (r: Result<Value, Error>)
    ensures
        crate::conversion::agrees(builtin_spec(ctx.sheet.cells(), ctx.current_loc, Builtin::Math(MathFn::Cos), args@), result_view(r)),
{
    single_num_fn(args, ctx, Builtin::Math(MathFn::Cos))
}

/// DEGREES: radians converted to degrees.
pub fn degrees<H: Host>(args: &Vec<Expr>, ctx: &Context<H>) -> (r: Result<Value, Error>)
    ensures
        crate::conversion::agrees(builtin_spec(ctx.sheet.cells(), ctx.current_loc, Builtin::Math(MathFn::Degrees), args@), result_view(r)),
{
    single_num_fn(args, ctx, Builtin::Math(MathFn::Degrees))
}

/// EXP: e raised to the number.
pub fn exp<H: Host>(args: &Vec<Expr>, ctx: &Context<H>) -> (r: Result<Value, Error>)
    ensures
        crate::conversion::agrees(builtin_spec(ctx.sheet.cells(), ctx.current_loc, Builtin::Math(MathFn::Exp), args@), result_view(r)),
{
    single_num_fn(args, ctx, Builtin::Math(MathFn::Exp))
}

/// LN: the natural logarithm, of a number above zero.
pub fn ln<H: Host>(args: &Vec<Expr>, ctx: &Context<H>) -> (r: Result<Value, Error>)
    ensures
        crate::conversion::agrees(builtin_spec(ctx.sheet.cells(), ctx.current_loc, Builtin::Math(MathFn::Ln), args@), result_view(r)),
{
    single_num_fn(args, ctx, Builtin::Math(MathFn::Ln))
}

/// LOG10: the decimal logarithm, of a number above zero.
pub fn log10<H: Host>(args: &Vec<Expr>, ctx: &Context<H>) -> (r: Result<Value, Error>)
    ensures
        crate::conversion::agrees(builtin_spec(ctx.sheet.cells(), ctx.current_loc, Builtin::Math(MathFn::Log10), args@), result_view(r)),
{
    single_num_fn(args, ctx, Builtin::Math(MathFn::Log10))
}

/// RADIANS: degrees converted to radians, of a number above zero.
pub fn radians<H: Host>(args: &Vec<Expr>, ctx: &Context<H>) -> (r: Result<Value, Error>)
    ensures
        crate::conversion::agrees(builtin_spec(ctx.sheet.cells(), ctx.current_loc, Builtin::Math(MathFn::Radians), args@), result_view(r)),
{
    single_num_fn(args, ctx, Builtin::Math(MathFn::Radians))
}

/// SIN: the sine.
pub fn sin<H: Host>(args: &Vec<Expr>, ctx: &Context<H>) -> (r: Result<Value, Error>)
    ensures
        crate::conversion::agrees(builtin_spec(ctx.sheet.cells(), ctx.current_loc, Builtin::Math(MathFn::Sin), args@), result_view(r)),
{
    single_num_fn(args, ctx, Builtin::Math(MathFn::Sin))
}

/// SQRT: the square root, of a number of zero or above.
pub fn sqrt<H: Host>(args: &Vec<Expr>, ctx: &Context<H>) -> (r: Result<Value, Error>)
    ensures
        crate::conversion::agrees(builtin_spec(ctx.sheet.cells(), ctx.current_loc, Builtin::Math(MathFn::Sqrt), args@), result_view(r)),
{
    single_num_fn(args, ctx, Builtin::Math(MathFn::Sqrt))
}

/// TAN: the tangent.
pub fn tan<H: Host>(args: &Vec<Expr>, ctx: &Context<H>) -> (r: Result<Value, Error>)
    ensures
        crate::conversion::agrees(builtin_spec(ctx.sheet.cells(), ctx.current_loc, Builtin::Math(MathFn::Tan), args@), result_view(r)),
{
    single_num_fn(args, ctx, Builtin::Math(MathFn::Tan))
}

} // verus!
