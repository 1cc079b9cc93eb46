//! The implicit conversions: to a scalar, a number, a logical value, a text.
use vstd::prelude::*;
use crate::eval::{eval_ref, resolve};
use crate::host::{Context, Host};
use crate::number::{is_zero, is_zero_number, ONE, ZERO};
use crate::sheet::Cell;
use crate::types::{result_view, Error, Ref, Value, ValueModel};

verus! {

/// A kind of scalar value.
pub enum Kind {
    Number,
    Text,
    Logical,
}

pub open spec fn of_kind(k: Kind, v: ValueModel) -> bool {
    match k {
        Kind::Number => v is Num,
        Kind::Text => v is String,
        Kind::Logical => v is Bool,
    }
}

/// What an evaluation yields, as far as it does not depend on the host.
pub enum Known {
    /// Exactly this result.
    Exactly(Result<ValueModel, Error>),
    /// A value of the kind, where there is one, or one of the errors: what
    /// is left open is a value that the host computed or read.
    OneOf(Option<Kind>, Set<Error>),
    /// Anything: a function of the host decides.
    HostDependent,
}

/// `r` is a result that the outcome `k` allows.
pub open spec fn agrees(k: Known, r: Result<ValueModel, Error>) -> bool {
    match k {
        Known::Exactly(x) => r == x,
        Known::OneOf(kind, errs) => match r {
            Ok(v) => kind matches Some(kd) && of_kind(kd, v),
            Err(e) => errs.contains(e),
        },
        Known::HostDependent => true,
    }
}

/// Some number, with no error.
pub open spec fn some_number() -> Known {
    Known::OneOf(Some(Kind::Number), Set::empty())
}

/// Whether the outcome allows a value.
pub open spec fn may_value(k: Known) -> bool {
    match k {
        Known::Exactly(x) => x is Ok,
        Known::OneOf(kind, _) => kind is Some,
        Known::HostDependent => true,
    }
}

/// The errors that the outcome allows (none said of `HostDependent`).
pub open spec fn errs(k: Known) -> Set<Error> {
    match k {
        Known::Exactly(Err(e)) => Set::empty().insert(e),
        Known::OneOf(_, es) => es,
        _ => Set::empty(),
    }
}

/// The outcome of evaluating `l`, then, where it gave a value, `r`, and
/// combining two values into one of kind `kind`.
pub open spec fn both(l: Known, r: Known, kind: Kind) -> Known {
    Known::OneOf(
        if may_value(l) && may_value(r) { Some(kind) } else { None },
        if may_value(l) { errs(l).union(errs(r)) } else { errs(l) },
    )
}

/// Follows a chain of references: a resolved value that is itself a
/// reference is resolved in turn, at most `fuel` more times. Past that the
/// chain is a `Ref` error.
pub open spec fn chase(
    cells: Map<(usize, usize), Cell>,
    loc: Option<(usize, usize)>,
    v: Result<ValueModel, Error>,
    fuel: nat,
) -> Result<ValueModel, Error>
    decreases fuel,
{
    match v {
        Ok(ValueModel::Ref(r)) => if fuel == 0 {
            Err(Error::Ref)
        } else {
            chase(cells, loc, resolve(cells, loc, r), (fuel - 1) as nat)
        },
        _ => v,
    }
}

/// The value that reference `r` leads to. Each step after the first reads a
/// stored cell that holds a reference, so a chain that does not revisit a
/// cell ends within as many steps as there are cells; only a cycle runs out
/// and gives a `Ref` error.
pub open spec fn resolved(cells: Map<(usize, usize), Cell>, loc: Option<(usize, usize)>, r: Ref) -> Result<
    ValueModel,
    Error,
> {
    chase(cells, loc, resolve(cells, loc, r), cells.dom().len())
}

/// Conversion to a scalar: references resolve; a blank that is not the
/// result of a resolution is a `Value` error.
pub open spec fn scalar_spec(
    cells: Map<(usize, usize), Cell>,
    loc: Option<(usize, usize)>,
    v: Result<ValueModel, Error>,
) -> Result<ValueModel, Error> {
    match v {
        Ok(ValueModel::Ref(r)) => resolved(cells, loc, r),
        Ok(ValueModel::EmptyCell) => Err(Error::Value),
        _ => v,
    }
}

/// Conversion of a resolved value to a number. Text is read by the host,
/// which gives a number or a `Value` error.
pub open spec fn plain_number(v: Result<ValueModel, Error>) -> Known {
    match v {
        Err(e) => Known::Exactly(Err(e)),
        Ok(ValueModel::Num(n)) => Known::Exactly(Ok(ValueModel::Num(n))),
        Ok(ValueModel::Bool(b)) => Known::Exactly(Ok(ValueModel::Num(if b { ONE } else { ZERO }))),
        Ok(ValueModel::EmptyCell) => Known::Exactly(Ok(ValueModel::Num(ZERO))),
        Ok(ValueModel::String(_)) => Known::OneOf(Some(Kind::Number), Set::empty().insert(Error::Value)),
        Ok(ValueModel::Ref(_)) => Known::Exactly(Err(Error::Value)),
    }
}

/// Conversion to a number.
pub open spec fn number_spec(
    cells: Map<(usize, usize), Cell>,
    loc: Option<(usize, usize)>,
    v: Result<ValueModel, Error>,
) -> Known {
    match v {
        Ok(ValueModel::Ref(r)) => plain_number(resolved(cells, loc, r)),
        _ => plain_number(v),
    }
}

/// `r` is a result of converting `v` to a number: the known one, or, for
/// text, a number or a `Value` error.
pub open spec fn number_result(
    cells: Map<(usize, usize), Cell>,
    loc: Option<(usize, usize)>,
    v: Result<ValueModel, Error>,
    r: Result<ValueModel, Error>,
) -> bool {
    agrees(number_spec(cells, loc, v), r)
}

/// Conversion of a resolved value to a logical value; text is always false.
pub open spec fn plain_logical(v: Result<ValueModel, Error>) -> Result<ValueModel, Error> {
    match v {
        Ok(ValueModel::Num(n)) => Ok(ValueModel::Bool(!is_zero(n))),
        Ok(ValueModel::String(_)) => Ok(ValueModel::Bool(false)),
        Ok(ValueModel::EmptyCell) => Ok(ValueModel::Bool(false)),
        Ok(ValueModel::Ref(_)) => Err(Error::Value),
        _ => v,
    }
}

/// Conversion to a logical value.
pub open spec fn logical_spec(
    cells: Map<(usize, usize), Cell>,
    loc: Option<(usize, usize)>,
    v: Result<ValueModel, Error>,
) -> Result<ValueModel, Error> {
    match v {
        Ok(ValueModel::Ref(_)) => plain_logical(scalar_spec(cells, loc, v)),
        _ => plain_logical(v),
    }
}

/// Conversion of a resolved value to text. The host writes numbers.
pub open spec fn plain_text(v: Result<ValueModel, Error>) -> Known {
    match v {
        Ok(ValueModel::Num(_)) => Known::OneOf(Some(Kind::Text), Set::empty()),
        Ok(ValueModel::Bool(b)) => Known::Exactly(Ok(ValueModel::String(if b { "TRUE"@ } else { "FALSE"@ }))),
        Ok(ValueModel::EmptyCell) => Known::Exactly(Ok(ValueModel::String(Seq::empty()))),
        Ok(ValueModel::Ref(_)) => Known::Exactly(Err(Error::Value)),
        _ => Known::Exactly(v),
    }
}

/// Conversion to text.
pub open spec fn text_spec(
    cells: Map<(usize, usize), Cell>,
    loc: Option<(usize, usize)>,
    v: Result<ValueModel, Error>,
) -> Known {
    match v {
        Ok(ValueModel::Ref(_)) => plain_text(scalar_spec(cells, loc, v)),
        _ => plain_text(v),
    }
}

/// Resolves `r`, and each reference that it leads to, as `resolved` says.
pub fn resolve_chain<H: Host>(ctx: &Context<H>, r: &Ref) -> (v: Result<Value, Error>)
    ensures
        result_view(v) == resolved(ctx.sheet.cells(), ctx.current_loc, *r),
{
    let mut v = eval_ref(ctx, r);
    let mut fuel = ctx.sheet.len();
    loop
        invariant
            chase(ctx.sheet.cells(), ctx.current_loc, result_view(v), fuel as nat)
                == resolved(ctx.sheet.cells(), ctx.current_loc, *r),
        decreases fuel,
    {
        match v {
            Ok(Value::Ref(x)) => {
                if fuel == 0 {
                    return Err(Error::Ref);
                }
                v = eval_ref(ctx, &x);
                fuel = fuel - 1;
            },
            _ => return v,
        }
    }
}

/// Converts to a scalar, resolving a reference.
pub fn convert_to_scalar<H: Host>(v: Result<Value, Error>, ctx: &Context<H>) -> (r: Result<Value, Error>)
    ensures
        result_view(r) == scalar_spec(ctx.sheet.cells(), ctx.current_loc, result_view(v)),
{
    match v {
        Ok(Value::Ref(x)) => resolve_chain(ctx, &x),
        Ok(Value::EmptyCell) => Err(Error::Value),
        _ => v,
    }
}

fn plain_to_number<H: Host>(v: Result<Value, Error>, ctx: &Context<H>) -> (r: Result<u64, Error>)
    ensures
        match plain_number(result_view(v)) {
            Known::Exactly(Ok(ValueModel::Num(n))) => r == Ok::<u64, Error>(n),
            Known::Exactly(Err(e)) => r == Err::<u64, Error>(e),
            _ => r is Ok || r == Err::<u64, Error>(Error::Value),
        },
{
    match v {
        Err(e) => Err(e),
        Ok(Value::Num(n)) => Ok(n),
        Ok(Value::Bool(b)) => Ok(if b { ONE } else { ZERO }),
        Ok(Value::EmptyCell) => Ok(ZERO),
        Ok(Value::String(s)) => match ctx.host.parse_number(s.as_str()) {
            Some(n) => Ok(n),
            None => Err(Error::Value),
        },
        Ok(Value::Ref(_)) => Err(Error::Value),
    }
}

pub open spec fn number_view(r: Result<u64, Error>) -> Result<ValueModel, Error> {
    match r {
        Ok(n) => Ok(ValueModel::Num(n)),
        Err(e) => Err(e),
    }
}

/// Converts to a number, as a bit pattern.
pub fn number_of<H: Host>(v: Result<Value, Error>, ctx: &Context<H>) -> (r: Result<u64, Error>)
    ensures
        number_result(ctx.sheet.cells(), ctx.current_loc, result_view(v), number_view(r)),
{
    match v {
        Ok(Value::Ref(x)) => plain_to_number(resolve_chain(ctx, &x), ctx),
        _ => plain_to_number(v, ctx),
    }
}

/// Converts to a number.
pub fn convert_to_number<H: Host>(v: Result<Value, Error>, ctx: &Context<H>) -> (r: Result<Value, Error>)
    ensures
        number_result(ctx.sheet.cells(), ctx.current_loc, result_view(v), result_view(r)),
{
    match number_of(v, ctx) {
        Ok(n) => Ok(Value::Num(n)),
        Err(e) => Err(e),
    }
}

fn plain_to_logical(v: Result<Value, Error>) -> (r: Result<Value, Error>)
    ensures
        result_view(r) == plain_logical(result_view(v)),
{
    match v {
        Ok(Value::Num(n)) => Ok(Value::Bool(!is_zero_number(n))),
        Ok(Value::String(_)) => Ok(Value::Bool(false)),
        Ok(Value::EmptyCell) => Ok(Value::Bool(false)),
        Ok(Value::Ref(_)) => Err(Error::Value),
        _ => v,
    }
}

/// Converts to a logical value.
pub fn convert_to_logical<H: Host>(v: Result<Value, Error>, ctx: &Context<H>) -> (r: Result<Value, Error>)
    ensures
        result_view(r) == logical_spec(ctx.sheet.cells(), ctx.current_loc, result_view(v)),
{
    match v {
        Ok(Value::Ref(_)) => plain_to_logical(convert_to_scalar(v, ctx)),
        _ => plain_to_logical(v),
    }
}

fn plain_to_text<H: Host>(v: Result<Value, Error>, ctx: &Context<H>) -> (r: Result<String, Error>)
    ensures
        agrees(plain_text(result_view(v)), text_view(r)),
{
    match v {
        Ok(Value::Num(n)) => Ok(ctx.host.number_text(n)),
        Ok(Value::String(s)) => Ok(s),
        Ok(Value::Bool(b)) => if b {
            Ok(String::from_str("TRUE"))
        } else {
            Ok(String::from_str("FALSE"))
        },
        Ok(Value::EmptyCell) => Ok(String::new()),
        Ok(Value::Ref(_)) => Err(Error::Value),
        Err(e) => Err(e),
    }
}

pub open spec fn text_view(r: Result<String, Error>) -> Result<ValueModel, Error> {
    match r {
        Ok(s) => Ok(ValueModel::String(s@)),
        Err(e) => Err(e),
    }
}

/// Converts to text, as a string.
pub fn text_of<H: Host>(v: Result<Value, Error>, ctx: &Context<H>) -> (r: Result<String, Error>)
    ensures
        agrees(text_spec(ctx.sheet.cells(), ctx.current_loc, result_view(v)), text_view(r)),
{
    match v {
        Ok(Value::Ref(_)) => plain_to_text(convert_to_scalar(v, ctx), ctx),
        _ => plain_to_text(v, ctx),
    }
}

/// Converts to text.
pub fn convert_to_text<H: Host>(v: Result<Value, Error>, ctx: &Context<H>) -> (r: Result<Value, Error>)
    ensures
        agrees(text_spec(ctx.sheet.cells(), ctx.current_loc, result_view(v)), result_view(r)),
        r is Ok ==> r->Ok_0 is String,
{
    match text_of(v, ctx) {
        Ok(s) => Ok(Value::String(s)),
        Err(e) => Err(e),
    }
}

/// Converting to a number a second time changes nothing: whatever the first
/// conversion returned, the second returns exactly that.
pub proof fn lemma_to_number_idempotent(
    cells: Map<(usize, usize), Cell>,
    loc: Option<(usize, usize)>,
    v: Result<ValueModel, Error>,
    r: Result<ValueModel, Error>,
)
    requires
        number_result(cells, loc, v, r),
    ensures
        number_spec(cells, loc, r) == Known::Exactly(r),
{
}

} // verus!

verus! {

/// Conversion to a scalar, as a method of a result.
pub trait ConvertToScalar: Sized {
    fn convert_to_scalar<H: Host>(self, ctx: &Context<H>) -> Result<Value, Error>;
}

/// Conversion to a number, as a method of a result.
pub trait ConvertToNumber: Sized {
    fn convert_to_number<H: Host>(self, ctx: &Context<H>) -> Result<Value, Error>;
}

/// Conversion to a logical value, as a method of a result.
pub trait ConvertToLogical: Sized {
    fn convert_to_logical<H: Host>(self, ctx: &Context<H>) -> Result<Value, Error>;
}

/// Conversion to text, as a method of a result.
pub trait ConvertToText: Sized {
    fn convert_to_text<H: Host>(self, ctx: &Context<H>) -> Result<Value, Error>;
}

impl ConvertToScalar for Result<Value, Error> {
    fn convert_to_scalar<H: Host>(self, ctx: &Context<H>) -> (r: Result<Value, Error>)
        ensures
            result_view(r) == scalar_spec(ctx.sheet.cells(), ctx.current_loc, result_view(self)),
    {
        convert_to_scalar(self, ctx)
    }
}

impl ConvertToNumber for Result<Value, Error> {
    fn convert_to_number<H: Host>(self, ctx: &Context<H>) -> (r: Result<Value, Error>)
        ensures
            number_result(ctx.sheet.cells(), ctx.current_loc, result_view(self), result_view(r)),
    {
        convert_to_number(self, ctx)
    }
}

impl ConvertToLogical for Result<Value, Error> {
    fn convert_to_logical<H: Host>(self, ctx: &Context<H>) -> (r: Result<Value, Error>)
        ensures
            result_view(r) == logical_spec(ctx.sheet.cells(), ctx.current_loc, result_view(self)),
    {
        convert_to_logical(self, ctx)
    }
}

impl ConvertToText for Result<Value, Error> {
    fn convert_to_text<H: Host>(self, ctx: &Context<H>) -> (r: Result<Value, Error>)
        ensures
            agrees(text_spec(ctx.sheet.cells(), ctx.current_loc, result_view(self)), result_view(r)),
            r is Ok ==> r->Ok_0 is String,
    {
        convert_to_text(self, ctx)
    }
}

} // verus!

verus! {

/// More fuel changes a chase only where the chase ran out.
proof fn lemma_chase_more_fuel(
    cells: Map<(usize, usize), Cell>,
    loc: Option<(usize, usize)>,
    v: Result<ValueModel, Error>,
    fuel: nat,
)
    requires
        chase(cells, loc, v, fuel) != Err::<ValueModel, Error>(Error::Ref),
    ensures
        chase(cells, loc, v, fuel + 1) == chase(cells, loc, v, fuel),
    decreases fuel,
{
    if let Ok(ValueModel::Ref(r)) = v {
        if fuel > 0 {
            lemma_chase_more_fuel(cells, loc, resolve(cells, loc, r), (fuel - 1) as nat);
        }
    }
}

/// A reference that resolves to another reference converts, to a scalar
/// and to a number, exactly as that other reference does, unless the chain
/// runs into a `Ref` error (a cycle, or a cell without a value).
pub proof fn lemma_reference_converts_onward(
    cells: Map<(usize, usize), Cell>,
    loc: Option<(usize, usize)>,
    r: Ref,
    next: Ref,
)
    requires
        resolve(cells, loc, r) == Ok::<ValueModel, Error>(ValueModel::Ref(next)),
        resolved(cells, loc, r) != Err::<ValueModel, Error>(Error::Ref),
    ensures
        scalar_spec(cells, loc, Ok(ValueModel::Ref(r))) == scalar_spec(cells, loc, Ok(ValueModel::Ref(next))),
        number_spec(cells, loc, Ok(ValueModel::Ref(r))) == number_spec(cells, loc, Ok(ValueModel::Ref(next))),
{
    let n = cells.dom().len();
    assert(n > 0);
    lemma_chase_more_fuel(cells, loc, resolve(cells, loc, next), (n - 1) as nat);
}

} // verus!
