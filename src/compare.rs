//! The total order of scalar values that comparisons use.
//!
//! Values of different kinds order by kind: a blank before numbers, numbers
//! before texts, texts before logical values. Numbers order by value, with
//! both zeros equal and every NaN equal to each other and above all other
//! numbers. Texts order character by character, ignoring ASCII case. FALSE
//! comes before TRUE.
use vstd::prelude::*;
use crate::number::{is_nan, is_nan_number, less_than, rank};
use crate::text::{compare_text, text_order};
use crate::types::{Comp, Value, ValueModel};

verus! {

pub open spec fn kind_rank(v: ValueModel) -> int {
    match v {
        ValueModel::EmptyCell => 0,
        ValueModel::Num(_) => 1,
        ValueModel::String(_) => 2,
        ValueModel::Bool(_) => 3,
        ValueModel::Ref(_) => 4,
    }
}

pub open spec fn number_order(a: u64, b: u64) -> int {
    if is_nan(a) {
        if is_nan(b) { 0 } else { 1 }
    } else if is_nan(b) {
        -1
    } else if rank(a) < rank(b) {
        -1
    } else if rank(a) > rank(b) {
        1
    } else {
        0
    }
}

/// Three-way comparison of scalar values: -1, 0 or 1.
pub open spec fn value_order(a: ValueModel, b: ValueModel) -> int {
    if kind_rank(a) < kind_rank(b) {
        -1
    } else if kind_rank(a) > kind_rank(b) {
        1
    } else {
        match (a, b) {
            (ValueModel::Num(x), ValueModel::Num(y)) => number_order(x, y),
            (ValueModel::String(s), ValueModel::String(t)) => text_order(s, t),
            (ValueModel::Bool(x), ValueModel::Bool(y)) => if x == y { 0 } else if !x { -1 } else { 1 },
            _ => 0,
        }
    }
}

/// Whether comparison `c` holds of two values whose order is `o`.
pub open spec fn comp_holds(c: Comp, o: int) -> bool {
    match c {
        Comp::Equal => o == 0,
        Comp::NotEqual => o != 0,
        Comp::Lower => o < 0,
        Comp::Greater => o > 0,
        Comp::LowerEqual => o <= 0,
        Comp::GreaterEqual => o >= 0,
    }
}

fn kind_of(v: &Value) -> (r: u8)
    ensures
        r as int == kind_rank(v@),
{
    match v {
        Value::EmptyCell => 0,
        Value::Num(_) => 1,
        Value::String(_) => 2,
        Value::Bool(_) => 3,
        Value::Ref(_) => 4,
    }
}

fn compare_numbers(a: u64, b: u64) -> (r: i8)
    ensures
        r as int == number_order(a, b),
{
    if is_nan_number(a) {
        if is_nan_number(b) { 0 } else { 1 }
    } else if is_nan_number(b) {
        -1
    } else if less_than(a, b) {
        -1
    } else if less_than(b, a) {
        1
    } else {
        0
    }
}

/// Compares two scalar values as `value_order` does.
pub fn compare_values(a: &Value, b: &Value) -> (r: i8)
    ensures
        r as int == value_order(a@, b@),
{
    let ka = kind_of(a);
    let kb = kind_of(b);
    if ka < kb {
        return -1;
    }
    if ka > kb {
        return 1;
    }
    match (a, b) {
        (Value::Num(x), Value::Num(y)) => compare_numbers(*x, *y),
        (Value::String(s), Value::String(t)) => compare_text(s.as_str(), t.as_str()),
        (Value::Bool(x), Value::Bool(y)) => if *x == *y {
            0
        } else if !*x {
            -1
        } else {
            1
        },
        _ => 0,
    }
}

/// Whether comparison `c` holds between two scalar values.
pub fn comp_values(c: Comp, a: &Value, b: &Value) -> (r: bool)
    ensures
        r == comp_holds(c, value_order(a@, b@)),
{
    let o = compare_values(a, b);
    match c {
        Comp::Equal => o == 0,
        Comp::NotEqual => o != 0,
        Comp::Lower => o < 0,
        Comp::Greater => o > 0,
        Comp::LowerEqual => o <= 0,
        Comp::GreaterEqual => o >= 0,
    }
}

} // verus!
