//! What the host supplies: rounded arithmetic, decimal conversion of
//! numbers, and the functions it registers.
use vstd::prelude::*;
use crate::sheet::Sheet;
use crate::types::{Error, Expr, Value};

verus! {

/// An operation on two numbers that rounds.
#[derive(Debug, Clone, Copy, PartialEq, Eq, Structural)]
pub enum Arith {
    Add,
    Sub,
    Mul,
    Div,
    Pow,
}

/// A function of one number that rounds.
#[derive(Debug, Clone, Copy, PartialEq, Eq, Structural)]
pub enum MathFn {
    Acos,
    Asin,
    Atan,
    Cos,
    Degrees,
    Exp,
    Ln,
    Log10,
    Radians,
    Sin,
    Sqrt,
    Tan,
}

/// The environment that evaluates formulas: it owns binary64 arithmetic and
/// the registry of functions beyond the built-in ones. Numbers pass as bit
/// patterns. Nothing is assumed of what an implementation returns.
pub trait Host: Sized {
    /// The number that `text` spells, if it spells one.
    fn parse_number(&self, text: &str) -> Option<u64>;

    /// The shortest decimal text that reads back as `n`.
    fn number_text(&self, n: u64) -> String;

    /// `n` as a decimal literal of SQL.
    fn number_literal(&self, n: u64) -> String;

    /// `a op b`, rounded.
    fn arith(&self, op: Arith, a: u64, b: u64) -> u64;

    /// `f(x)`, rounded.
    fn math(&self, f: MathFn, x: u64) -> u64;

    /// A call of the function registered under `name`, which receives its
    /// arguments unevaluated; `None` where no function has that name.
    fn call(&self, name: &str, args: &[Expr], ctx: &Context<Self>) -> Option<Result<Value, Error>>;
}

/// One evaluation session: the sheet, the cell whose formula is being
/// evaluated, and the host.
pub struct Context<H> {
    pub sheet: Sheet,
    pub current_loc: Option<(usize, usize)>,
    pub host: H,
}

} // verus!
