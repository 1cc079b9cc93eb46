//! Reference resolution and evaluation of expressions.
use vstd::prelude::*;
use crate::compare::{comp_holds, comp_values, value_order};
use crate::conversion::{
    agrees, both, errs, may_value, some_number, Kind, convert_to_scalar, number_of, number_result, number_spec, number_view, scalar_spec, text_of,
    text_spec, text_view, Known,
};
use crate::functions::{apply_known, builtin_named, builtin_of, builtin_spec, single_num_fn};
use crate::host::{Arith, Context, Host};
use crate::number::{is_zero, is_zero_number, negate, negated, HUNDRED};
use crate::sheet::Cell;
use crate::types::{result_view, Comp, Error, Expr, Ref, Value, ValueModel};

verus! {

/// What the sheet gives at (x, y): the stored value; a `Ref` error for a
/// cell without a value; a blank for a position that was never set.
pub open spec fn cell_value(cells: Map<(usize, usize), Cell>, x: usize, y: usize) -> Result<ValueModel, Error> {
    if cells.contains_key((x, y)) {
        match cells[(x, y)].value {
            Some(v) => Ok(v@),
            None => Err(Error::Ref),
        }
    } else {
        Ok(ValueModel::EmptyCell)
    }
}

/// Resolution of a reference to one cell's value, with implied intersection
/// of ranges against the current cell `loc`.
pub open spec fn resolve(
    cells: Map<(usize, usize), Cell>,
    loc: Option<(usize, usize)>,
    r: Ref,
) -> Result<ValueModel, Error> {
    match r {
        Ref::CellRef(x, y) => cell_value(cells, x, y),
        Ref::ColumnRange(x1, x2) => match loc {
            None => Err(Error::Ref),
            Some((x, y)) => if x1 != x2 || x == x1 {
                Err(Error::Value)
            } else {
                cell_value(cells, x1, y)
            },
        },
        Ref::RowRange(y1, y2) => match loc {
            None => Err(Error::Ref),
            Some((x, y)) => if y1 != y2 || y == y1 {
                Err(Error::Value)
            } else {
                cell_value(cells, x, y1)
            },
        },
        Ref::CellRange((x1, y1), (x2, y2)) => match loc {
            None => Err(Error::Ref),
            Some((x, y)) => if x1 <= x <= x2 {
                if y1 != y2 || y == y1 {
                    Err(Error::Value)
                } else {
                    cell_value(cells, x, y1)
                }
            } else if y1 <= y <= y2 {
                if x1 != x2 || x == x1 {
                    Err(Error::Value)
                } else {
                    cell_value(cells, x1, y)
                }
            } else {
                Err(Error::Value)
            },
        },
    }
}

/// A single column, met from a cell outside it, resolves to the cell of that
/// column in the current row.
pub proof fn lemma_column_intersection(cells: Map<(usize, usize), Cell>, c: usize, x: usize, y: usize)
    requires
        x != c,
    ensures
        resolve(cells, Some((x, y)), Ref::ColumnRange(c, c)) == resolve(cells, Some((x, y)), Ref::CellRef(c, y)),
{
}

/// A single-column block, met from a cell outside its column but within its
/// rows, resolves to the cell of that column in the current row.
pub proof fn lemma_block_intersection(
    cells: Map<(usize, usize), Cell>,
    c: usize,
    y1: usize,
    y2: usize,
    x: usize,
    y: usize,
)
    requires
        x != c,
        y1 <= y <= y2,
    ensures
        resolve(cells, Some((x, y)), Ref::CellRange((c, y1), (c, y2))) == resolve(cells, Some((x, y)), Ref::CellRef(c, y)),
{
}

/// A column met from a cell inside it does not resolve: the intersection
/// would be the formula's own cell.
pub proof fn lemma_column_self_reference(cells: Map<(usize, usize), Cell>, c1: usize, c2: usize, y: usize)
    ensures
        resolve(cells, Some((c1, y)), Ref::ColumnRange(c1, c2)) == Err::<ValueModel, Error>(Error::Value),
{
}

fn read_cell<H: Host>(ctx: &Context<H>, x: usize, y: usize) -> (r: Result<Value, Error>)
    ensures
        result_view(r) == cell_value(ctx.sheet.cells(), x, y),
{
    match ctx.sheet.get(x, y) {
        Some(cell) => match &cell.value {
            Some(v) => Ok(v.duplicate()),
            None => Err(Error::Ref),
        },
        None => Ok(Value::EmptyCell),
    }
}

/// Evaluates a reference to a single cell's value, applying implied
/// intersection where the reference spans several cells.
pub fn eval_ref<H: Host>(ctx: &Context<H>, r: &Ref) -> (res: Result<Value, Error>)
    ensures
        result_view(res) == resolve(ctx.sheet.cells(), ctx.current_loc, *r),
{
    match r {
        Ref::CellRef(x, y) => read_cell(ctx, *x, *y),
        Ref::ColumnRange(x1, x2) => match ctx.current_loc {
            None => Err(Error::Ref),
            Some((x, y)) => if *x1 != *x2 || x == *x1 {
                Err(Error::Value)
            } else {
                read_cell(ctx, *x1, y)
            },
        },
        Ref::RowRange(y1, y2) => match ctx.current_loc {
            None => Err(Error::Ref),
            Some((x, y)) => if *y1 != *y2 || y == *y1 {
                Err(Error::Value)
            } else {
                read_cell(ctx, x, *y1)
            },
        },
        Ref::CellRange((x1, y1), (x2, y2)) => match ctx.current_loc {
            None => Err(Error::Ref),
            Some((x, y)) => if *x1 <= x && x <= *x2 {
                if *y1 != *y2 || y == *y1 {
                    Err(Error::Value)
                } else {
                    read_cell(ctx, x, *y1)
                }
            } else if *y1 <= y && y <= *y2 {
                if *x1 != *x2 || x == *x1 {
                    Err(Error::Value)
                } else {
                    read_cell(ctx, *x1, y)
                }
            } else {
                Err(Error::Value)
            },
        },
    }
}

} // verus!

verus! {

/// The outcome of converting the outcome `k` to a number.
pub open spec fn number_known(cells: Map<(usize, usize), Cell>, loc: Option<(usize, usize)>, k: Known) -> Known {
    match k {
        Known::Exactly(x) => number_spec(cells, loc, x),
        Known::OneOf(Some(Kind::Text), es) => Known::OneOf(Some(Kind::Number), es.insert(Error::Value)),
        Known::OneOf(Some(_), es) => Known::OneOf(Some(Kind::Number), es),
        Known::OneOf(None, es) => Known::OneOf(None, es),
        Known::HostDependent => Known::HostDependent,
    }
}

/// The outcome of converting the outcome `k` to a scalar.
pub open spec fn scalar_known(cells: Map<(usize, usize), Cell>, loc: Option<(usize, usize)>, k: Known) -> Known {
    match k {
        Known::Exactly(x) => Known::Exactly(scalar_spec(cells, loc, x)),
        _ => k,
    }
}

/// The outcome of converting the outcome `k` to text.
pub open spec fn text_known(cells: Map<(usize, usize), Cell>, loc: Option<(usize, usize)>, k: Known) -> Known {
    match k {
        Known::Exactly(x) => text_spec(cells, loc, x),
        Known::OneOf(Some(_), es) => Known::OneOf(Some(Kind::Text), es),
        _ => k,
    }
}

/// A rounded operation of the host on a converted number.
pub open spec fn unary_known(n: Known) -> Known {
    match n {
        Known::Exactly(Err(e)) => Known::Exactly(Err(e)),
        Known::Exactly(Ok(_)) => some_number(),
        _ => n,
    }
}

/// Negation of a converted number.
pub open spec fn neg_known(n: Known) -> Known {
    match n {
        Known::Exactly(Ok(ValueModel::Num(x))) => Known::Exactly(Ok(ValueModel::Num(negated(x)))),
        _ => unary_known(n),
    }
}

/// A rounded operation of the host on two converted numbers; the left
/// operand's error comes first.
pub open spec fn binary_known(l: Known, r: Known) -> Known {
    match l {
        Known::Exactly(Err(e)) => Known::Exactly(Err(e)),
        Known::HostDependent => Known::HostDependent,
        _ => match r {
            Known::HostDependent => Known::HostDependent,
            Known::Exactly(Err(e)) => if l is Exactly { Known::Exactly(Err(e)) } else { both(l, r, Kind::Number) },
            _ => both(l, r, Kind::Number),
        },
    }
}

/// Division of two converted numbers: a zero divisor is a `Div0` error.
pub open spec fn divide_known(l: Known, r: Known) -> Known {
    match l {
        Known::Exactly(Err(e)) => Known::Exactly(Err(e)),
        Known::HostDependent => Known::HostDependent,
        _ => match r {
            Known::HostDependent => Known::HostDependent,
            Known::Exactly(Err(e)) => if l is Exactly { Known::Exactly(Err(e)) } else { both(l, r, Kind::Number) },
            Known::Exactly(Ok(ValueModel::Num(z))) => if !is_zero(z) {
                both(l, r, Kind::Number)
            } else if l is Exactly {
                Known::Exactly(Err(Error::Div0))
            } else {
                Known::OneOf(None, errs(l).insert(Error::Div0))
            },
            Known::OneOf(_, er) => Known::OneOf(
                if may_value(l) && may_value(r) { Some(Kind::Number) } else { None },
                errs(l).union(er).insert(Error::Div0),
            ),
            _ => Known::HostDependent,
        },
    }
}

/// Concatenation of two texts.
pub open spec fn concat_known(l: Known, r: Known) -> Known {
    match l {
        Known::Exactly(Err(e)) => Known::Exactly(Err(e)),
        Known::HostDependent => Known::HostDependent,
        Known::Exactly(Ok(ValueModel::String(a))) => match r {
            Known::Exactly(Err(e)) => Known::Exactly(Err(e)),
            Known::Exactly(Ok(ValueModel::String(b))) => Known::Exactly(Ok(ValueModel::String(a + b))),
            Known::HostDependent => Known::HostDependent,
            _ => both(l, r, Kind::Text),
        },
        _ => match r {
            Known::HostDependent => Known::HostDependent,
            _ => both(l, r, Kind::Text),
        },
    }
}

/// Comparison of two scalars.
pub open spec fn cond_known(c: Comp, l: Known, r: Known) -> Known {
    match l {
        Known::Exactly(Err(e)) => Known::Exactly(Err(e)),
        Known::HostDependent => Known::HostDependent,
        Known::Exactly(Ok(a)) => match r {
            Known::Exactly(Err(e)) => Known::Exactly(Err(e)),
            Known::Exactly(Ok(b)) => Known::Exactly(Ok(ValueModel::Bool(comp_holds(c, value_order(a, b))))),
            Known::HostDependent => Known::HostDependent,
            _ => both(l, r, Kind::Logical),
        },
        _ => match r {
            Known::HostDependent => Known::HostDependent,
            _ => both(l, r, Kind::Logical),
        },
    }
}

/// The outcome of evaluating `e`, as far as it does not depend on the host.
pub open spec fn eval_known(cells: Map<(usize, usize), Cell>, loc: Option<(usize, usize)>, e: Expr) -> Known
    decreases e,
{
    match e {
        Expr::Num(n) => Known::Exactly(Ok(ValueModel::Num(n))),
        Expr::Bool(b) => Known::Exactly(Ok(ValueModel::Bool(b))),
        Expr::String(s) => Known::Exactly(Ok(ValueModel::String(s@))),
        Expr::Ref(r) => Known::Exactly(Ok(ValueModel::Ref(r))),
        Expr::Range(_, _) | Expr::RefIntersection(_, _) | Expr::RefUnion(_, _) => Known::Exactly(Err(Error::Unimplemented)),
        Expr::Perc(a) => unary_known(number_known(cells, loc, eval_known(cells, loc, *a))),
        Expr::Neg(a) => neg_known(number_known(cells, loc, eval_known(cells, loc, *a))),
        Expr::Add(a, b) | Expr::Sub(a, b) | Expr::Mul(a, b) | Expr::Pow(a, b) => binary_known(
            number_known(cells, loc, eval_known(cells, loc, *a)),
            number_known(cells, loc, eval_known(cells, loc, *b)),
        ),
        Expr::Div(a, b) => divide_known(
            number_known(cells, loc, eval_known(cells, loc, *a)),
            number_known(cells, loc, eval_known(cells, loc, *b)),
        ),
        Expr::Concat(a, b) => concat_known(
            text_known(cells, loc, eval_known(cells, loc, *a)),
            text_known(cells, loc, eval_known(cells, loc, *b)),
        ),
        Expr::Cond(c, a, b) => cond_known(
            c,
            scalar_known(cells, loc, eval_known(cells, loc, *a)),
            scalar_known(cells, loc, eval_known(cells, loc, *b)),
        ),
        Expr::Func(name, args) => match builtin_named(name@) {
            None => Known::HostDependent,
            Some(b) => if args.len() != 1 {
                Known::Exactly(Err(Error::Args))
            } else {
                apply_known(b, number_known(cells, loc, eval_known(cells, loc, args[0])))
            },
        },
    }
}

/// The outcome of a call of the function named `name`.
pub open spec fn func_known(
    cells: Map<(usize, usize), Cell>,
    loc: Option<(usize, usize)>,
    name: Seq<char>,
    args: Seq<Expr>,
) -> Known {
    match builtin_named(name) {
        None => Known::HostDependent,
        Some(b) => builtin_spec(cells, loc, b, args),
    }
}

pub proof fn lemma_number_agrees(
    cells: Map<(usize, usize), Cell>,
    loc: Option<(usize, usize)>,
    k: Known,
    v: Result<ValueModel, Error>,
    n: Result<ValueModel, Error>,
)
    requires
        agrees(k, v),
        number_result(cells, loc, v, n),
    ensures
        agrees(number_known(cells, loc, k), n),
{
}

/// Evaluates a call: the built-in functions first, then the host's registry;
/// a name that neither knows is a `Name` error.
pub fn eval_fn<H: Host>(ctx: &Context<H>, fname: &str, args: &Vec<Expr>) -> (r: Result<Value, Error>)
    ensures
        agrees(func_known(ctx.sheet.cells(), ctx.current_loc, fname@, args@), result_view(r)),
    decreases args, 1nat,
{
    match builtin_of(fname) {
        Some(b) => single_num_fn(args, ctx, b),
        None => match ctx.host.call(fname, args.as_slice(), ctx) {
            Some(r) => r,
            None => Err(Error::Name),
        },
    }
}

fn number_operand<H: Host>(ctx: &Context<H>, e: &Expr) -> (r: Result<u64, Error>)
    ensures
        agrees(number_known(ctx.sheet.cells(), ctx.current_loc, eval_known(ctx.sheet.cells(), ctx.current_loc, *e)), number_view(r)),
    decreases e, 1nat,
{
    let v = eval(ctx, e);
    let n = number_of(v, ctx);
    proof {
        lemma_number_agrees(ctx.sheet.cells(), ctx.current_loc, eval_known(ctx.sheet.cells(), ctx.current_loc, *e), result_view(v), number_view(n));
    }
    n
}

fn text_operand<H: Host>(ctx: &Context<H>, e: &Expr) -> (r: Result<String, Error>)
    ensures
        agrees(text_known(ctx.sheet.cells(), ctx.current_loc, eval_known(ctx.sheet.cells(), ctx.current_loc, *e)), text_view(r)),
    decreases e, 1nat,
{
    text_of(eval(ctx, e), ctx)
}

fn scalar_operand<H: Host>(ctx: &Context<H>, e: &Expr) -> (r: Result<Value, Error>)
    ensures
        agrees(scalar_known(ctx.sheet.cells(), ctx.current_loc, eval_known(ctx.sheet.cells(), ctx.current_loc, *e)), result_view(r)),
    decreases e, 1nat,
{
    convert_to_scalar(eval(ctx, e), ctx)
}

/// Finishes a rounded operation once its left operand was converted to `l`.
fn arith_node<H: Host>(ctx: &Context<H>, op: Arith, l: Result<u64, Error>, b: &Expr) -> (r: Result<Value, Error>)
    ensures
        l matches Err(e) ==> r == Err::<Value, Error>(e),
        l is Ok ==> agrees(binary_known(
            some_number(),
            number_known(ctx.sheet.cells(), ctx.current_loc, eval_known(ctx.sheet.cells(), ctx.current_loc, *b)),
        ), result_view(r)),
    decreases b, 2nat,
{
    match l {
        Err(e) => Err(e),
        Ok(x) => match number_operand(ctx, b) {
            Err(e) => Err(e),
            Ok(y) => Ok(Value::Num(ctx.host.arith(op, x, y))),
        },
    }
}

/// Evaluates an expression. A reference evaluates to itself: it is resolved
/// only where a conversion needs its value.
pub fn eval<H: Host>(ctx: &Context<H>, expr: &Expr) -> (r: Result<Value, Error>)
    ensures
        agrees(eval_known(ctx.sheet.cells(), ctx.current_loc, *expr), result_view(r)),
    decreases expr, 0nat,
{
    match expr {
        Expr::Num(n) => Ok(Value::Num(*n)),
        Expr::Bool(b) => Ok(Value::Bool(*b)),
        Expr::String(s) => Ok(Value::String(s.clone())),
        Expr::Ref(r) => Ok(Value::Ref(*r)),
        Expr::Range(_, _) | Expr::RefIntersection(_, _) | Expr::RefUnion(_, _) => Err(Error::Unimplemented),
        Expr::Perc(a) => match number_operand(ctx, a) {
            Err(e) => Err(e),
            Ok(x) => Ok(Value::Num(ctx.host.arith(Arith::Div, x, HUNDRED))),
        },
        Expr::Neg(a) => match number_operand(ctx, a) {
            Err(e) => Err(e),
            Ok(x) => Ok(Value::Num(negate(x))),
        },
        Expr::Add(a, b) => arith_node(ctx, Arith::Add, number_operand(ctx, a), b),
        Expr::Sub(a, b) => arith_node(ctx, Arith::Sub, number_operand(ctx, a), b),
        Expr::Mul(a, b) => arith_node(ctx, Arith::Mul, number_operand(ctx, a), b),
        Expr::Pow(a, b) => arith_node(ctx, Arith::Pow, number_operand(ctx, a), b),
        Expr::Div(a, b) => match number_operand(ctx, a) {
            Err(e) => Err(e),
            Ok(x) => match number_operand(ctx, b) {
                Err(e) => Err(e),
                Ok(y) => if is_zero_number(y) {
                    Err(Error::Div0)
                } else {
                    Ok(Value::Num(ctx.host.arith(Arith::Div, x, y)))
                },
            },
        },
        Expr::Concat(a, b) => match text_operand(ctx, a) {
            Err(e) => Err(e),
            Ok(s) => match text_operand(ctx, b) {
                Err(e) => Err(e),
                Ok(t) => Ok(Value::String(s.concat(t.as_str()))),
            },
        },
        Expr::Cond(c, a, b) => match scalar_operand(ctx, a) {
            Err(e) => Err(e),
            Ok(x) => match scalar_operand(ctx, b) {
                Err(e) => Err(e),
                Ok(y) => Ok(Value::Bool(comp_values(*c, &x, &y))),
            },
        },
        Expr::Func(name, args) => eval_fn(ctx, name.as_str(), args),
    }
}

} // verus!

verus! {

/// Division by a divisor that converts to zero is a `Div0` error, whatever
/// number the dividend converts to: no other result agrees with the
/// outcome, so `eval` gives exactly that.
pub proof fn lemma_div_by_zero(
    cells: Map<(usize, usize), Cell>,
    loc: Option<(usize, usize)>,
    a: Expr,
    b: Expr,
    z: u64,
)
    requires
        number_known(cells, loc, eval_known(cells, loc, a)) matches Known::Exactly(Ok(ValueModel::Num(_)))
            || number_known(cells, loc, eval_known(cells, loc, a)) == some_number(),
        number_known(cells, loc, eval_known(cells, loc, b)) == Known::Exactly(Ok(ValueModel::Num(z))),
        is_zero(z),
    ensures
        forall|r: Result<ValueModel, Error>|
            agrees(#[trigger] eval_known(cells, loc, Expr::Div(Box::new(a), Box::new(b))), r)
                ==> r == Err::<ValueModel, Error>(Error::Div0),
{
}

/// A built-in function called with other than one argument is an `Args`
/// error.
pub proof fn lemma_builtin_arity(
    cells: Map<(usize, usize), Cell>,
    loc: Option<(usize, usize)>,
    name: String,
    args: Vec<Expr>,
)
    requires
        builtin_named(name@) is Some,
        args.len() != 1,
    ensures
        eval_known(cells, loc, Expr::Func(name, args)) == Known::Exactly(Err::<ValueModel, Error>(Error::Args)),
{
}

} // verus!
