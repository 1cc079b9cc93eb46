//! The formula grammar, stated over characters.
//!
//! Each function takes the text and a position and gives the tree that the
//! text spells from there and the position after it, or `None` where the
//! text spells no such thing. Trees are compared by `Shape`, in which a
//! number literal stands for whatever number the host reads from it.
//!
//! Binding powers, tightest first: `:` 10, `!` 9, `~` 8, prefix `-`/`+` 7,
//! postfix `%` 6, `^` 5, `*` `/` 4, `+` `-` 3, `&` 2, comparisons 1. Infix
//! operators associate to the left. Atoms are tried in this order: row
//! range, parenthesised expression, number, TRUE or FALSE, string, column
//! range, cell range, cell reference that no `(` follows, function call.
use vstd::prelude::*;
use crate::chars::{alnum_char, letter_char, space_char};
use crate::helpers::column_number;
use crate::parser::{
    cell_of, cell_ref_end, cell_ref_in, digit_end, digits_value, ordered_range, upper_end, MAX_DEPTH,
};
use crate::types::{Comp, Expr, Ref};

verus! {

/// An infix operator.
#[derive(Clone, Copy)]
pub enum Infix {
    Range,
    Intersection,
    Union,
    Pow,
    Mul,
    Div,
    Add,
    Sub,
    Concat,
    Cmp(Comp),
}

/// An expression tree with its texts as character sequences and without
/// the values of its number literals.
pub enum Shape {
    Num,
    Bool(bool),
    String(Seq<char>),
    Range(Box<Shape>, Box<Shape>),
    RefIntersection(Box<Shape>, Box<Shape>),
    RefUnion(Box<Shape>, Box<Shape>),
    Perc(Box<Shape>),
    Neg(Box<Shape>),
    Add(Box<Shape>, Box<Shape>),
    Sub(Box<Shape>, Box<Shape>),
    Mul(Box<Shape>, Box<Shape>),
    Div(Box<Shape>, Box<Shape>),
    Pow(Box<Shape>, Box<Shape>),
    Concat(Box<Shape>, Box<Shape>),
    Cond(Comp, Box<Shape>, Box<Shape>),
    Func(Seq<char>, Seq<Shape>),
    Ref(Ref),
}

/// The shape of an expression.
pub open spec fn shape(e: Expr) -> Shape
    decreases e, 1nat,
{
    match e {
        Expr::Num(_) => Shape::Num,
        Expr::Bool(b) => Shape::Bool(b),
        Expr::String(s) => Shape::String(s@),
        Expr::Range(a, b) => Shape::Range(Box::new(shape(*a)), Box::new(shape(*b))),
        Expr::RefIntersection(a, b) => Shape::RefIntersection(Box::new(shape(*a)), Box::new(shape(*b))),
        Expr::RefUnion(a, b) => Shape::RefUnion(Box::new(shape(*a)), Box::new(shape(*b))),
        Expr::Perc(a) => Shape::Perc(Box::new(shape(*a))),
        Expr::Neg(a) => Shape::Neg(Box::new(shape(*a))),
        Expr::Add(a, b) => Shape::Add(Box::new(shape(*a)), Box::new(shape(*b))),
        Expr::Sub(a, b) => Shape::Sub(Box::new(shape(*a)), Box::new(shape(*b))),
        Expr::Mul(a, b) => Shape::Mul(Box::new(shape(*a)), Box::new(shape(*b))),
        Expr::Div(a, b) => Shape::Div(Box::new(shape(*a)), Box::new(shape(*b))),
        Expr::Pow(a, b) => Shape::Pow(Box::new(shape(*a)), Box::new(shape(*b))),
        Expr::Concat(a, b) => Shape::Concat(Box::new(shape(*a)), Box::new(shape(*b))),
        Expr::Cond(c, a, b) => Shape::Cond(c, Box::new(shape(*a)), Box::new(shape(*b))),
        Expr::Func(name, args) => Shape::Func(name@, shapes(args, args.len() as int)),
        Expr::Ref(r) => Shape::Ref(r),
    }
}

/// The shapes of the first `k` arguments.
pub open spec fn shapes(args: Vec<Expr>, k: int) -> Seq<Shape>
    decreases args, (if k > 0 { k } else { 0 }) as nat,
{
    if k <= 0 || k > args.len() {
        Seq::empty()
    } else {
        shapes(args, k - 1).push(shape(args[k - 1]))
    }
}

/// A parse result seen through `shape`.
pub open spec fn shaped(r: Option<(Expr, usize)>) -> Option<(Shape, int)> {
    match r {
        Some((e, j)) => Some((shape(e), j as int)),
        None => None,
    }
}

/// The first position at or after `i` that holds no whitespace.
pub open spec fn spaces_end(s: Seq<char>, i: int) -> int
    decreases s.len() - i,
{
    if 0 <= i < s.len() && space_char(s[i]) { spaces_end(s, i + 1) } else { i }
}

pub open spec fn ident_char(c: char) -> bool {
    alnum_char(c) || c == '_' || c == '.'
}

pub open spec fn ident_run(s: Seq<char>, j: int) -> int
    decreases s.len() - j,
{
    if 0 <= j < s.len() && ident_char(s[j]) { ident_run(s, j + 1) } else { j }
}

/// The end of the identifier at `i`: a letter, then letters, digits, `_`
/// and `.`; `i` where no identifier starts.
pub open spec fn ident_end_of(s: Seq<char>, i: int) -> int {
    if 0 <= i < s.len() && letter_char(s[i]) { ident_run(s, i + 1) } else { i }
}

/// The first double quote at or after `j`, or the end of the text.
pub open spec fn quote_end(s: Seq<char>, j: int) -> int
    decreases s.len() - j,
{
    if 0 <= j < s.len() && s[j] != '"' { quote_end(s, j + 1) } else { j }
}

pub open spec fn row_range_g(s: Seq<char>, i: int) -> Option<(Shape, int)> {
    let a = digit_end(s, i);
    if a == i || a >= s.len() || s[a] != ':' {
        None
    } else {
        let b = digit_end(s, a + 1);
        let y1 = digits_value(s.subrange(i, a));
        let y2 = digits_value(s.subrange(a + 1, b));
        if b == a + 1 || !(1 <= y1 <= usize::MAX) || !(1 <= y2 <= usize::MAX) {
            None
        } else {
            Some((Shape::Ref(Ref::RowRange((y1 - 1) as usize, (y2 - 1) as usize)), b))
        }
    }
}

/// A number: `0` or digits without a leading zero, then optionally `.` and
/// digits.
pub open spec fn number_g(s: Seq<char>, i: int) -> Option<(Shape, int)> {
    let a = digit_end(s, i);
    if a == i || (a > i + 1 && s[i] == '0') {
        None
    } else if a < s.len() && s[a] == '.' && digit_end(s, a + 1) > a + 1 {
        Some((Shape::Num, digit_end(s, a + 1)))
    } else {
        Some((Shape::Num, a))
    }
}

pub open spec fn boolean_g(s: Seq<char>, i: int) -> Option<(Shape, int)> {
    let j = ident_end_of(s, i);
    if j == i {
        None
    } else if s.subrange(i, j) == "TRUE"@ {
        Some((Shape::Bool(true), j))
    } else if s.subrange(i, j) == "FALSE"@ {
        Some((Shape::Bool(false), j))
    } else {
        None
    }
}

pub open spec fn string_g(s: Seq<char>, i: int) -> Option<(Shape, int)> {
    if i < 0 || i >= s.len() || s[i] != '"' {
        None
    } else {
        let j = quote_end(s, i + 1);
        if j >= s.len() { None } else { Some((Shape::String(s.subrange(i + 1, j)), j + 1)) }
    }
}

pub open spec fn column_range_g(s: Seq<char>, i: int) -> Option<(Shape, int)> {
    let a = upper_end(s, i);
    if a == i || a >= s.len() || s[a] != ':' {
        None
    } else {
        let b = upper_end(s, a + 1);
        let x1 = column_number(s.subrange(i, a));
        let x2 = column_number(s.subrange(a + 1, b));
        if b == a + 1 || x1 > usize::MAX || x2 > usize::MAX {
            None
        } else {
            Some((Shape::Ref(Ref::ColumnRange((x1 - 1) as usize, (x2 - 1) as usize)), b))
        }
    }
}

pub open spec fn cell_range_g(s: Seq<char>, i: int) -> Option<(Shape, int)> {
    let m = cell_ref_end(s, i);
    let j = cell_ref_end(s, m + 1);
    if cell_ref_in(s, i, m) && m < s.len() && s[m] == ':' && cell_ref_in(s, m + 1, j) {
        Some((Shape::Ref(ordered_range(cell_of(s, i, m), cell_of(s, m + 1, j))), j))
    } else {
        None
    }
}

pub open spec fn cell_ref_g(s: Seq<char>, i: int) -> Option<(Shape, int)> {
    let m = cell_ref_end(s, i);
    let k = spaces_end(s, m);
    if cell_ref_in(s, i, m) && !(k < s.len() && s[k] == '(') {
        Some((Shape::Ref(Ref::CellRef(cell_of(s, i, m).0, cell_of(s, i, m).1)), m))
    } else {
        None
    }
}

/// The infix operator at `i`, its binding power and the position after it.
pub open spec fn infix_g(s: Seq<char>, i: int) -> Option<(Infix, u8, int)> {
    let c = s[i];
    let next = if i + 1 < s.len() { s[i + 1] } else { ' ' };
    if c == ':' {
        Some((Infix::Range, 10u8, i + 1))
    } else if c == '!' {
        Some((Infix::Intersection, 9u8, i + 1))
    } else if c == '~' {
        Some((Infix::Union, 8u8, i + 1))
    } else if c == '^' {
        Some((Infix::Pow, 5u8, i + 1))
    } else if c == '*' {
        Some((Infix::Mul, 4u8, i + 1))
    } else if c == '/' {
        Some((Infix::Div, 4u8, i + 1))
    } else if c == '+' {
        Some((Infix::Add, 3u8, i + 1))
    } else if c == '-' {
        Some((Infix::Sub, 3u8, i + 1))
    } else if c == '&' {
        Some((Infix::Concat, 2u8, i + 1))
    } else if c == '<' && next == '>' {
        Some((Infix::Cmp(Comp::NotEqual), 1u8, i + 2))
    } else if c == '>' && next == '=' {
        Some((Infix::Cmp(Comp::GreaterEqual), 1u8, i + 2))
    } else if c == '<' && next == '=' {
        Some((Infix::Cmp(Comp::LowerEqual), 1u8, i + 2))
    } else if c == '=' {
        Some((Infix::Cmp(Comp::Equal), 1u8, i + 1))
    } else if c == '>' {
        Some((Infix::Cmp(Comp::Greater), 1u8, i + 1))
    } else if c == '<' {
        Some((Infix::Cmp(Comp::Lower), 1u8, i + 1))
    } else {
        None
    }
}

pub open spec fn combine_g(op: Infix, l: Shape, r: Shape) -> Shape {
    let (l, r) = (Box::new(l), Box::new(r));
    match op {
        Infix::Range => Shape::Range(l, r),
        Infix::Intersection => Shape::RefIntersection(l, r),
        Infix::Union => Shape::RefUnion(l, r),
        Infix::Pow => Shape::Pow(l, r),
        Infix::Mul => Shape::Mul(l, r),
        Infix::Div => Shape::Div(l, r),
        Infix::Add => Shape::Add(l, r),
        Infix::Sub => Shape::Sub(l, r),
        Infix::Concat => Shape::Concat(l, r),
        Infix::Cmp(c) => Shape::Cond(c, l, r),
    }
}

/// The arguments of a call whose `(` stands at `o`, up to its `)`.
pub open spec fn args_g(s: Seq<char>, o: int, depth: nat) -> Option<(Seq<Shape>, int)>
    decreases s.len() - o, 3nat,
{
    let pos = spaces_end(s, o + 1);
    if o < 0 || o >= s.len() || pos < o + 1 || pos > s.len() {
        None
    } else if pos < s.len() && s[pos] == ')' {
        Some((Seq::empty(), pos + 1))
    } else {
        args_loop(s, o, pos, Seq::empty(), depth)
    }
}

/// The rest of an argument list from `pos`, after the arguments `acc`.
pub open spec fn args_loop(s: Seq<char>, o: int, pos: int, acc: Seq<Shape>, depth: nat) -> Option<(Seq<Shape>, int)>
    decreases s.len() - pos, 2nat,
{
    if pos <= o || pos > s.len() {
        None
    } else {
        match expr_g(s, pos, 0, depth) {
            None => None,
            Some((e, k)) => {
                let q = spaces_end(s, k);
                if q >= s.len() || q <= pos || q < k {
                    None
                } else if s[q] == ')' {
                    Some((acc.push(e), q + 1))
                } else if s[q] == ';' {
                    let p2 = spaces_end(s, q + 1);
                    if p2 < s.len() && s[p2] == ')' {
                        Some((acc.push(e), p2 + 1))
                    } else if p2 <= q || p2 > s.len() {
                        None
                    } else {
                        args_loop(s, o, p2, acc.push(e), depth)
                    }
                } else {
                    None
                }
            },
        }
    }
}

/// An atom at `i`, with the whitespace around it.
pub open spec fn atom_g(s: Seq<char>, i: int, depth: nat) -> Option<(Shape, int)>
    decreases s.len() - i, 0nat,
{
    let p = spaces_end(s, i);
    if i < 0 || p < i || p >= s.len() {
        None
    } else {
        let found = if row_range_g(s, p) is Some {
            row_range_g(s, p)
        } else if s[p] == '(' {
            match expr_g(s, p + 1, 0, depth) {
                None => None,
                Some((e, k)) => {
                    let q = spaces_end(s, k);
                    if q >= s.len() || s[q] != ')' { None } else { Some((e, q + 1)) }
                },
            }
        } else if number_g(s, p) is Some {
            number_g(s, p)
        } else if boolean_g(s, p) is Some {
            boolean_g(s, p)
        } else if string_g(s, p) is Some {
            string_g(s, p)
        } else if column_range_g(s, p) is Some {
            column_range_g(s, p)
        } else if cell_range_g(s, p) is Some {
            cell_range_g(s, p)
        } else if cell_ref_g(s, p) is Some {
            cell_ref_g(s, p)
        } else {
            let q = ident_end_of(s, p);
            let o = spaces_end(s, q);
            if q == p || o >= s.len() || s[o] != '(' || o <= p {
                None
            } else {
                match args_g(s, o, depth) {
                    None => None,
                    Some((args, k)) => Some((Shape::Func(s.subrange(p, q), args), k)),
                }
            }
        };
        match found {
            None => None,
            Some((e, j)) => Some((e, spaces_end(s, j))),
        }
    }
}

/// An expression at `i` whose operators bind at least as tightly as `min`.
pub open spec fn expr_g(s: Seq<char>, i: int, min: u8, depth: nat) -> Option<(Shape, int)>
    decreases s.len() - i, 1nat,
{
    let p = spaces_end(s, i);
    if depth >= MAX_DEPTH || i < 0 || p < i || p > s.len() {
        None
    } else {
        let first = if p < s.len() && (s[p] == '-' || s[p] == '+') {
            match expr_g(s, p + 1, 7, depth + 1) {
                None => None,
                Some((o, k)) => if s[p] == '-' { Some((Shape::Neg(Box::new(o)), k)) } else { Some((o, k)) },
            }
        } else {
            atom_g(s, p, depth + 1)
        };
        match first {
            None => None,
            Some((lhs, j)) => if j <= i || j > s.len() { None } else { ops_g(s, j, lhs, min, depth) },
        }
    }
}

/// The operators that follow `lhs`, which ends at `pos`.
pub open spec fn ops_g(s: Seq<char>, pos: int, lhs: Shape, min: u8, depth: nat) -> Option<(Shape, int)>
    decreases s.len() - pos, 4nat,
{
    let q = spaces_end(s, pos);
    if pos < 0 || pos > s.len() || q < pos {
        None
    } else if q >= s.len() {
        Some((lhs, q))
    } else if s[q] == '%' {
        if 6 < min { Some((lhs, q)) } else { ops_g(s, q + 1, Shape::Perc(Box::new(lhs)), min, depth) }
    } else {
        match infix_g(s, q) {
            None => Some((lhs, q)),
            Some((op, bp, next)) => if bp < min {
                Some((lhs, q))
            } else {
                match expr_g(s, next, (bp + 1) as u8, depth + 1) {
                    None => None,
                    Some((rhs, k)) => if k <= pos || k > s.len() {
                        None
                    } else {
                        ops_g(s, k, combine_g(op, lhs, rhs), min, depth)
                    },
                }
            },
        }
    }
}

/// The shape of a whole formula, where the text is one.
pub open spec fn formula_g(s: Seq<char>) -> Option<Shape> {
    match expr_g(s, 0, 0, 0) {
        Some((e, j)) => if j == s.len() { Some(e) } else { None },
        None => None,
    }
}

} // verus!

verus! {

/// The shapes of the first `k` arguments depend on those arguments alone.
pub(crate) proof fn lemma_shapes_prefix(a: Vec<Expr>, b: Vec<Expr>, k: int)
    requires
        0 <= k <= a.len(),
        k <= b.len(),
        forall|j: int| 0 <= j < k ==> a[j] == b[j],
    ensures
        shapes(a, k) == shapes(b, k),
    decreases k,
{
    if k > 0 {
        lemma_shapes_prefix(a, b, k - 1);
    }
}

} // verus!

verus! {

/// `2*20%` is a product whose right operand is a percentage: `%` binds
/// tighter than `*`.
pub proof fn lemma_percent_in_product()
    ensures
        formula_g("2*20%"@) == Some(
            Shape::Mul(Box::new(Shape::Num), Box::new(Shape::Perc(Box::new(Shape::Num)))),
        ),
{
    reveal_strlit("2*20%");
    let s = "2*20%"@;
    assert(s =~= seq!['2', '*', '2', '0', '%']);
    assert(spaces_end(s, 0) == 0);
    assert(digit_end(s, 1) == 1);
    assert(digit_end(s, 0) == 1);
    assert(row_range_g(s, 0) is None);
    assert(number_g(s, 0) == Some((Shape::Num, 1int)));
    assert(spaces_end(s, 1) == 1);
    assert(atom_g(s, 0, 1) == Some((Shape::Num, 1int)));
    assert(infix_g(s, 1) == Some((Infix::Mul, 4u8, 2int)));
    assert(spaces_end(s, 2) == 2);
    assert(digit_end(s, 4) == 4);
    assert(digit_end(s, 3) == 4);
    assert(digit_end(s, 2) == 4);
    assert(row_range_g(s, 2) is None);
    assert(number_g(s, 2) == Some((Shape::Num, 4int)));
    assert(spaces_end(s, 4) == 4);
    assert(atom_g(s, 2, 2) == Some((Shape::Num, 4int)));
    assert(spaces_end(s, 5) == 5);
    assert(ops_g(s, 5, Shape::Perc(Box::new(Shape::Num)), 5, 1) == Some((Shape::Perc(Box::new(Shape::Num)), 5int)));
    assert(ops_g(s, 4, Shape::Num, 5, 1) == Some((Shape::Perc(Box::new(Shape::Num)), 5int)));
    assert(expr_g(s, 2, 5, 1) == Some((Shape::Perc(Box::new(Shape::Num)), 5int)));
    let m = Shape::Mul(Box::new(Shape::Num), Box::new(Shape::Perc(Box::new(Shape::Num))));
    assert(ops_g(s, 5, m, 0, 0) == Some((m, 5int)));
    assert(ops_g(s, 1, Shape::Num, 0, 0) == Some((m, 5int)));
    assert(expr_g(s, 0, 0, 0) == Some((m, 5int)));
}

} // verus!

verus! {

/// `3*4/5-2` groups as `((3*4)/5)-2`: `*` and `/` bind tighter than `-`,
/// and operators of one power associate to the left.
pub proof fn lemma_precedence_and_associativity()
    ensures
        formula_g("3*4/5-2"@) == Some(
            Shape::Sub(
                Box::new(Shape::Div(
                    Box::new(Shape::Mul(Box::new(Shape::Num), Box::new(Shape::Num))),
                    Box::new(Shape::Num),
                )),
                Box::new(Shape::Num),
            ),
        ),
{
    reveal_strlit("3*4/5-2");
    let s = "3*4/5-2"@;
    assert(s =~= seq!['3', '*', '4', '/', '5', '-', '2']);
    let n = Shape::Num;
    assert(spaces_end(s, 0) == 0);
    assert(digit_end(s, 1) == 1);
    assert(digit_end(s, 0) == 1);
    assert(spaces_end(s, 1) == 1);
    assert(atom_g(s, 0, 1) == Some((n, 1int)));
    assert(infix_g(s, 1) == Some((Infix::Mul, 4u8, 2int)));
    assert(spaces_end(s, 2) == 2);
    assert(digit_end(s, 3) == 3);
    assert(digit_end(s, 2) == 3);
    assert(spaces_end(s, 3) == 3);
    assert(atom_g(s, 2, 2) == Some((n, 3int)));
    assert(infix_g(s, 3) == Some((Infix::Div, 4u8, 4int)));
    assert(ops_g(s, 3, n, 5, 1) == Some((n, 3int)));
    assert(expr_g(s, 2, 5, 1) == Some((n, 3int)));
    let m = Shape::Mul(Box::new(n), Box::new(n));
    assert(spaces_end(s, 4) == 4);
    assert(digit_end(s, 5) == 5);
    assert(digit_end(s, 4) == 5);
    assert(spaces_end(s, 5) == 5);
    assert(atom_g(s, 4, 2) == Some((n, 5int)));
    assert(infix_g(s, 5) == Some((Infix::Sub, 3u8, 6int)));
    assert(ops_g(s, 5, n, 5, 1) == Some((n, 5int)));
    assert(expr_g(s, 4, 5, 1) == Some((n, 5int)));
    let d = Shape::Div(Box::new(m), Box::new(n));
    assert(spaces_end(s, 6) == 6);
    assert(digit_end(s, 7) == 7);
    assert(digit_end(s, 6) == 7);
    assert(spaces_end(s, 7) == 7);
    assert(atom_g(s, 6, 2) == Some((n, 7int)));
    assert(ops_g(s, 7, n, 4, 1) == Some((n, 7int)));
    assert(expr_g(s, 6, 4, 1) == Some((n, 7int)));
    let t = Shape::Sub(Box::new(d), Box::new(n));
    assert(ops_g(s, 7, t, 0, 0) == Some((t, 7int)));
    assert(ops_g(s, 5, d, 0, 0) == Some((t, 7int)));
    assert(ops_g(s, 3, m, 0, 0) == Some((t, 7int)));
    assert(ops_g(s, 1, n, 0, 0) == Some((t, 7int)));
    assert(expr_g(s, 0, 0, 0) == Some((t, 7int)));
}

/// `A0` is no formula: a row number must be at least 1, and no `(` follows
/// to make it a call.
pub proof fn lemma_row_zero_fails()
    ensures
        formula_g("A0"@) is None,
{
    reveal_strlit("A0");
    reveal_strlit("TRUE");
    reveal_strlit("FALSE");
    let s = "A0"@;
    assert(s =~= seq!['A', '0']);
    assert(spaces_end(s, 0) == 0);
    assert(digit_end(s, 0) == 0);
    assert(ident_run(s, 2) == 2);
    assert(ident_run(s, 1) == 2);
    assert(ident_end_of(s, 0) == 2);
    assert(s.subrange(0, 2).len() == 2);
    assert(boolean_g(s, 0) is None);
    assert(upper_end(s, 1) == 1);
    assert(upper_end(s, 0) == 1);
    assert(digit_end(s, 2) == 2);
    assert(digit_end(s, 1) == 2);
    assert(s.subrange(1, 2) =~= seq!['0']);
    let t = s.subrange(1, 2);
    assert(t.drop_last() =~= Seq::<char>::empty());
    assert(digits_value(t.drop_last()) == 0);
    assert(t.last() == '0');
    assert(digits_value(t) == 0);
    assert(cell_range_g(s, 0) is None);
    assert(cell_ref_g(s, 0) is None);
    assert(spaces_end(s, 2) == 2);
    assert(atom_g(s, 0, 1) is None);
    assert(expr_g(s, 0, 0, 0) is None);
}

/// `SUM(3;4)` is a call of `SUM` with two numbers.
pub proof fn lemma_call_with_two_arguments()
    ensures
        formula_g("SUM(3;4)"@) == Some(Shape::Func("SUM"@, seq![Shape::Num, Shape::Num])),
{
    reveal_strlit("SUM(3;4)");
    reveal_strlit("SUM");
    reveal_strlit("TRUE");
    reveal_strlit("FALSE");
    let s = "SUM(3;4)"@;
    assert(s =~= seq!['S', 'U', 'M', '(', '3', ';', '4', ')']);
    let n = Shape::Num;
    assert(spaces_end(s, 0) == 0);
    assert(digit_end(s, 0) == 0);
    assert(ident_run(s, 3) == 3);
    assert(ident_run(s, 2) == 3);
    assert(ident_run(s, 1) == 3);
    assert(ident_end_of(s, 0) == 3);
    assert(s.subrange(0, 3) =~= "SUM"@);
    assert(boolean_g(s, 0) is None);
    assert(upper_end(s, 3) == 3);
    assert(upper_end(s, 2) == 3);
    assert(upper_end(s, 1) == 3);
    assert(upper_end(s, 0) == 3);
    assert(digit_end(s, 3) == 3);
    assert(column_range_g(s, 0) is None);
    assert(cell_range_g(s, 0) is None);
    assert(cell_ref_g(s, 0) is None);
    assert(spaces_end(s, 3) == 3);
    assert(spaces_end(s, 4) == 4);
    assert(digit_end(s, 5) == 5);
    assert(digit_end(s, 4) == 5);
    assert(spaces_end(s, 5) == 5);
    assert(atom_g(s, 4, 2) == Some((n, 5int)));
    assert(infix_g(s, 5) is None);
    assert(expr_g(s, 4, 0, 1) == Some((n, 5int)));
    assert(spaces_end(s, 6) == 6);
    assert(digit_end(s, 7) == 7);
    assert(digit_end(s, 6) == 7);
    assert(spaces_end(s, 7) == 7);
    assert(atom_g(s, 6, 2) == Some((n, 7int)));
    assert(infix_g(s, 7) is None);
    assert(ops_g(s, 7, n, 0, 1) == Some((n, 7int)));
    assert(expr_g(s, 6, 0, 1) == Some((n, 7int)));
    assert(seq![n].push(n) =~= seq![n, n]);
    assert(args_loop(s, 3, 6, seq![n], 1) == Some((seq![n, n], 8int)));
    assert(Seq::<Shape>::empty().push(n) =~= seq![n]);
    assert(args_loop(s, 3, 4, Seq::empty(), 1) == Some((seq![n, n], 8int)));
    assert(args_g(s, 3, 1) == Some((seq![n, n], 8int)));
    let f = Shape::Func("SUM"@, seq![n, n]);
    assert(spaces_end(s, 8) == 8);
    assert(atom_g(s, 0, 1) == Some((f, 8int)));
    assert(ops_g(s, 8, f, 0, 0) == Some((f, 8int)));
    assert(expr_g(s, 0, 0, 0) == Some((f, 8int)));
}

} // verus!

verus! {

/// `B4:B5:C5` is the range operator applied to the cell range `B4:B5` and
/// the cell `C5`: a cell range literal is an atom, and `:` between atoms is
/// the range operator.
pub proof fn lemma_range_of_range_and_cell()
    ensures
        formula_g("B4:B5:C5"@) == Some(
            Shape::Range(
                Box::new(Shape::Ref(Ref::CellRange((1, 3), (1, 4)))),
                Box::new(Shape::Ref(Ref::CellRef(2, 4))),
            ),
        ),
{
    reveal_strlit("B4:B5:C5");
    reveal_strlit("TRUE");
    reveal_strlit("FALSE");
    let s = "B4:B5:C5"@;
    assert(s =~= seq!['B', '4', ':', 'B', '5', ':', 'C', '5']);
    assert(spaces_end(s, 0) == 0);
    assert(digit_end(s, 0) == 0);
    assert(ident_run(s, 2) == 2);
    assert(ident_run(s, 1) == 2);
    assert(ident_end_of(s, 0) == 2);
    assert(s.subrange(0, 2).len() == 2);
    assert(boolean_g(s, 0) is None);
    assert(upper_end(s, 1) == 1);
    assert(upper_end(s, 0) == 1);
    assert(column_range_g(s, 0) is None);
    assert(digit_end(s, 2) == 2);
    assert(digit_end(s, 1) == 2);
    assert(upper_end(s, 4) == 4);
    assert(upper_end(s, 3) == 4);
    assert(digit_end(s, 5) == 5);
    assert(digit_end(s, 4) == 5);
    let b = s.subrange(0, 1);
    assert(b =~= seq!['B']);
    assert(b.drop_last() =~= Seq::<char>::empty());
    assert(column_number(b.drop_last()) == 0);
    assert(b.last() == 'B');
    assert(column_number(b) == 2);
    let b2 = s.subrange(3, 4);
    assert(b2 =~= seq!['B']);
    assert(b2.drop_last() =~= Seq::<char>::empty());
    assert(column_number(b2.drop_last()) == 0);
    assert(b2.last() == 'B');
    assert(column_number(b2) == 2);
    let d4 = s.subrange(1, 2);
    assert(d4 =~= seq!['4']);
    assert(d4.drop_last() =~= Seq::<char>::empty());
    assert(digits_value(d4.drop_last()) == 0);
    assert(d4.last() == '4');
    assert(digits_value(d4) == 4);
    let d5 = s.subrange(4, 5);
    assert(d5 =~= seq!['5']);
    assert(d5.drop_last() =~= Seq::<char>::empty());
    assert(digits_value(d5.drop_last()) == 0);
    assert(d5.last() == '5');
    assert(digits_value(d5) == 5);
    assert(cell_ref_in(s, 0, 2));
    assert(cell_ref_in(s, 3, 5));
    assert(cell_of(s, 0, 2) == (1usize, 3usize));
    assert(cell_of(s, 3, 5) == (1usize, 4usize));
    let r1 = Shape::Ref(Ref::CellRange((1, 3), (1, 4)));
    assert(cell_range_g(s, 0) == Some((r1, 5int)));
    assert(spaces_end(s, 5) == 5);
    assert(atom_g(s, 0, 1) == Some((r1, 5int)));
    assert(infix_g(s, 5) == Some((Infix::Range, 10u8, 6int)));
    assert(spaces_end(s, 6) == 6);
    assert(digit_end(s, 6) == 6);
    assert(ident_run(s, 8) == 8);
    assert(ident_run(s, 7) == 8);
    assert(ident_end_of(s, 6) == 8);
    assert(s.subrange(6, 8).len() == 2);
    assert(boolean_g(s, 6) is None);
    assert(upper_end(s, 7) == 7);
    assert(upper_end(s, 6) == 7);
    assert(column_range_g(s, 6) is None);
    assert(digit_end(s, 8) == 8);
    assert(digit_end(s, 7) == 8);
    assert(cell_range_g(s, 6) is None);
    let c = s.subrange(6, 7);
    assert(c =~= seq!['C']);
    assert(c.drop_last() =~= Seq::<char>::empty());
    assert(column_number(c.drop_last()) == 0);
    assert(c.last() == 'C');
    assert(column_number(c) == 3);
    let d = s.subrange(7, 8);
    assert(d =~= seq!['5']);
    assert(d.drop_last() =~= Seq::<char>::empty());
    assert(digits_value(d.drop_last()) == 0);
    assert(d.last() == '5');
    assert(digits_value(d) == 5);
    assert(spaces_end(s, 8) == 8);
    let r2 = Shape::Ref(Ref::CellRef(2, 4));
    assert(cell_ref_g(s, 6) == Some((r2, 8int)));
    assert(atom_g(s, 6, 2) == Some((r2, 8int)));
    assert(ops_g(s, 8, r2, 11, 1) == Some((r2, 8int)));
    assert(expr_g(s, 6, 11, 1) == Some((r2, 8int)));
    let g = Shape::Range(Box::new(r1), Box::new(r2));
    assert(ops_g(s, 8, g, 0, 0) == Some((g, 8int)));
    assert(ops_g(s, 5, r1, 0, 0) == Some((g, 8int)));
    assert(expr_g(s, 0, 0, 0) == Some((g, 8int)));
}

} // verus!
