//! The expression tree, the runtime values and the error taxonomy.
use vstd::prelude::*;

verus! {

/// The errors of evaluation, each with the code that spreadsheets give it.
#[derive(Debug, Clone, Copy, PartialEq, Eq, Structural)]
pub enum Error {
    Null,
    Div0,
    Value,
    Ref,
    Name,
    Num,
    NotAvailable,
    GettingData,
    Unimplemented,
    Args,
}

pub open spec fn error_code(e: Error) -> u8 {
    match e {
        Error::Null => 1,
        Error::Div0 => 2,
        Error::Value => 3,
        Error::Ref => 4,
        Error::Name => 5,
        Error::Num => 6,
        Error::NotAvailable => 7,
        Error::GettingData => 8,
        Error::Unimplemented => 9,
        Error::Args => 10,
    }
}

impl Error {
    /// The numeric code of the error.
    pub fn code(&self) -> (r: u8)
        ensures
            r == error_code(*self),
    {
        match self {
            Error::Null => 1,
            Error::Div0 => 2,
            Error::Value => 3,
            Error::Ref => 4,
            Error::Name => 5,
            Error::Num => 6,
            Error::NotAvailable => 7,
            Error::GettingData => 8,
            Error::Unimplemented => 9,
            Error::Args => 10,
        }
    }

    /// The error with the given code, if there is one.
    pub fn from_code(c: u8) -> (r: Option<Error>)
        ensures
            r matches Some(e) ==> error_code(e) == c,
            r is None <==> (c == 0 || c > 10),
    {
        match c {
            1 => Some(Error::Null),
            2 => Some(Error::Div0),
            3 => Some(Error::Value),
            4 => Some(Error::Ref),
            5 => Some(Error::Name),
            6 => Some(Error::Num),
            7 => Some(Error::NotAvailable),
            8 => Some(Error::GettingData),
            9 => Some(Error::Unimplemented),
            10 => Some(Error::Args),
            _ => None,
        }
    }
}

/// A comparison operator.
#[derive(Debug, Clone, Copy, PartialEq, Eq, Structural)]
pub enum Comp {
    Equal,
    NotEqual,
    Lower,
    Greater,
    LowerEqual,
    GreaterEqual,
}

/// A reference to cells; columns and rows count from 0.
#[derive(Debug, Clone, Copy, PartialEq, Eq)]
pub enum Ref {
    CellRef(usize, usize),
    ColumnRange(usize, usize),
    RowRange(usize, usize),
    CellRange((usize, usize), (usize, usize)),
}

/// A formula's expression tree. Numbers are binary64 bit patterns.
#[derive(Debug, PartialEq)]
pub enum Expr {
    Num(u64),
    Bool(bool),
    String(String),
    Range(Box<Expr>, Box<Expr>),
    RefIntersection(Box<Expr>, Box<Expr>),
    RefUnion(Box<Expr>, Box<Expr>),
    Perc(Box<Expr>),
    Neg(Box<Expr>),
    Add(Box<Expr>, Box<Expr>),
    Sub(Box<Expr>, Box<Expr>),
    Mul(Box<Expr>, Box<Expr>),
    Div(Box<Expr>, Box<Expr>),
    Pow(Box<Expr>, Box<Expr>),
    Concat(Box<Expr>, Box<Expr>),
    Cond(Comp, Box<Expr>, Box<Expr>),
    Func(String, Vec<Expr>),
    Ref(Ref),
}

/// The references that `refs` reports: those under percent, negation and
/// addition nodes, left to right.
pub open spec fn refs_of(e: Expr) -> Seq<Ref>
    decreases e,
{
    match e {
        Expr::Perc(a) | Expr::Neg(a) => refs_of(*a),
        Expr::Add(a, b) => refs_of(*a) + refs_of(*b),
        Expr::Ref(r) => seq![r],
        _ => Seq::empty(),
    }
}

impl Expr {
    /// The references that stand under percent, negation and addition
    /// nodes, left to right.
    pub fn refs(&self) -> (r: Vec<Ref>)
        ensures
            r@ == refs_of(*self),
        decreases self,
    {
        match self {
            Expr::Perc(a) | Expr::Neg(a) => a.refs(),
            Expr::Add(a, b) => {
                let mut l = a.refs();
                let mut m = b.refs();
                l.append(&mut m);
                l
            },
            Expr::Ref(r) => vec![*r],
            _ => Vec::new(),
        }
    }
}

/// A runtime value. Numbers are binary64 bit patterns.
#[derive(Debug, Clone, PartialEq)]
pub enum Value {
    Num(u64),
    String(String),
    Bool(bool),
    EmptyCell,
    Ref(Ref),
}

/// What a value is, with its text as a sequence of characters.
pub enum ValueModel {
    Num(u64),
    String(Seq<char>),
    Bool(bool),
    EmptyCell,
    Ref(Ref),
}

impl View for Value {
    type V = ValueModel;

    open spec fn view(&self) -> ValueModel {
        match self {
            Value::Num(n) => ValueModel::Num(*n),
            Value::String(s) => ValueModel::String(s@),
            Value::Bool(b) => ValueModel::Bool(*b),
            Value::EmptyCell => ValueModel::EmptyCell,
            Value::Ref(r) => ValueModel::Ref(*r),
        }
    }
}

/// A result, with its value seen through its view.
pub open spec fn result_view(r: Result<Value, Error>) -> Result<ValueModel, Error> {
    match r {
        Ok(v) => Ok(v@),
        Err(e) => Err(e),
    }
}

impl Value {
    /// A copy of the value.
    pub fn duplicate(&self) -> (r: Value)
        ensures
            r == *self,
    {
        match self {
            Value::Num(n) => Value::Num(*n),
            Value::String(s) => Value::String(s.clone()),
            Value::Bool(b) => Value::Bool(*b),
            Value::EmptyCell => Value::EmptyCell,
            Value::Ref(r) => Value::Ref(*r),
        }
    }
}

} // verus!
