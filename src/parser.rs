//! The formula grammar: a precedence-climbing parser over characters.
//!
//! Binding, tightest first: `:` (range), `!` (intersection), `~` (union),
//! prefix `-` and `+`, postfix `%`, `^`, `*` and `/`, `+` and `-`, `&`, and
//! the comparisons. All infix operators associate to the left. Whitespace
//! may stand around every atom and operator.
use vstd::prelude::*;
use crate::chars::{is_alnum_char, is_letter_char, is_space_char};
use crate::helpers::column_to_id;
use crate::grammar::{
    args_g, atom_g, boolean_g, cell_range_g, cell_ref_g, column_range_g, combine_g, expr_g, formula_g,
    ident_end_of, ident_run, infix_g, number_g, ops_g, quote_end, row_range_g, shape, shaped, shapes,
    spaces_end, string_g, lemma_shapes_prefix, Infix, Shape,
};
use crate::host::Host;
use crate::types::{Comp, Expr, Ref};

verus! {

/// How deeply a formula may nest operators, parentheses and calls.
pub const MAX_DEPTH: usize = 256;

/// A parse failure: where, as a character position, and why.
#[derive(Debug, PartialEq)]
pub struct ParseError {
    pub position: usize,
    pub message: String,
}

/// The error given where the host cannot read a number literal.
pub open spec fn unreadable(e: ParseError) -> bool {
    e.message@ == "unreadable number"@
}

/// `r` is what the grammar gives for the same text: the same tree where it
/// succeeds, and otherwise a failure of the grammar or a number literal that
/// the host could not read.
pub open spec fn follows_grammar(r: Result<(Expr, usize), ParseError>, g: Option<(Shape, int)>) -> bool {
    match r {
        Ok((e, j)) => g == Some((shape(e), j as int)),
        Err(err) => g is None || unreadable(err),
    }
}

fn fail(position: usize, message: &str) -> (r: ParseError)
    ensures
        r.position == position,
        r.message@ == message@,
{
    ParseError { position, message: String::from_str(message) }
}

pub open spec fn is_digit(c: char) -> bool {
    '0' <= c <= '9'
}

/// The value of a run of decimal digits.
pub open spec fn digits_value(s: Seq<char>) -> int
    decreases s.len(),
{
    if s.len() == 0 {
        0
    } else {
        digits_value(s.drop_last()) * 10 + (s.last() as int - '0' as int)
    }
}

/// The end of the run of upper-case ASCII letters that starts at `i`.
pub open spec fn upper_end(s: Seq<char>, i: int) -> int
    decreases s.len() - i,
{
    if 0 <= i < s.len() && crate::helpers::is_upper(s[i]) { upper_end(s, i + 1) } else { i }
}

/// The end of the run of decimal digits that starts at `i`.
pub open spec fn digit_end(s: Seq<char>, i: int) -> int
    decreases s.len() - i,
{
    if 0 <= i < s.len() && is_digit(s[i]) { digit_end(s, i + 1) } else { i }
}

proof fn lemma_upper_end(s: Seq<char>, i: int)
    requires
        0 <= i <= s.len(),
    ensures
        i <= upper_end(s, i) <= s.len(),
        forall|k: int| i <= k < upper_end(s, i) ==> crate::helpers::is_upper(#[trigger] s[k]),
        upper_end(s, i) < s.len() ==> !crate::helpers::is_upper(s[upper_end(s, i)]),
    decreases s.len() - i,
{
    if i < s.len() && crate::helpers::is_upper(s[i]) {
        lemma_upper_end(s, i + 1);
    }
}

proof fn lemma_digit_end(s: Seq<char>, i: int)
    requires
        0 <= i <= s.len(),
    ensures
        i <= digit_end(s, i) <= s.len(),
        forall|k: int| i <= k < digit_end(s, i) ==> is_digit(#[trigger] s[k]),
        digit_end(s, i) < s.len() ==> !is_digit(s[digit_end(s, i)]),
    decreases s.len() - i,
{
    if i < s.len() && is_digit(s[i]) {
        lemma_digit_end(s, i + 1);
    }
}

/// s[i..j) is exactly a cell reference: column letters, then a row number
/// of at least 1, both small enough to hold, with nothing after the digits
/// but position `j`.
pub open spec fn cell_ref_in(s: Seq<char>, i: int, j: int) -> bool {
    let a = upper_end(s, i);
    &&& 0 <= i < a
    &&& a < j <= s.len()
    &&& digit_end(s, a) == j
    &&& crate::helpers::column_number(s.subrange(i, a)) <= usize::MAX
    &&& 1 <= digits_value(s.subrange(a, j)) <= usize::MAX
}

/// The 0-based column and row of the cell reference s[i..j).
pub open spec fn cell_of(s: Seq<char>, i: int, j: int) -> (usize, usize) {
    let a = upper_end(s, i);
    (
        (crate::helpers::column_number(s.subrange(i, a)) - 1) as usize,
        (digits_value(s.subrange(a, j)) - 1) as usize,
    )
}

/// Where the cell reference that starts at `i` ends.
pub open spec fn cell_ref_end(s: Seq<char>, i: int) -> int {
    digit_end(s, upper_end(s, i))
}

pub open spec fn upper_or_digit(c: char) -> bool {
    crate::helpers::is_upper(c) || is_digit(c)
}

/// The cell range with corners `p` and `q`, put in order.
pub open spec fn ordered_range(p: (usize, usize), q: (usize, usize)) -> Ref {
    Ref::CellRange(
        (if p.0 <= q.0 { p.0 } else { q.0 }, if p.1 <= q.1 { p.1 } else { q.1 }),
        (if p.0 <= q.0 { q.0 } else { p.0 }, if p.1 <= q.1 { q.1 } else { p.1 }),
    )
}

/// s[i..j) is exactly a cell range: a cell reference that ends at `m`, a
/// `:`, and a cell reference.
pub open spec fn cell_range_in(s: Seq<char>, i: int, m: int, j: int) -> bool {
    cell_ref_in(s, i, m) && m < s.len() && s[m] == ':' && cell_ref_in(s, m + 1, j)
}

/// A run of digits has at least the value of each of its prefixes.
proof fn lemma_digits_value_grows(s: Seq<char>, i: int)
    requires
        0 <= i <= s.len(),
        forall|k: int| 0 <= k < s.len() ==> is_digit(#[trigger] s[k]),
    ensures
        0 <= digits_value(s.take(i)) <= digits_value(s),
    decreases s.len() - i,
{
    if i < s.len() {
        lemma_digits_value_grows(s, i + 1);
        assert(s.take(i + 1).drop_last() =~= s.take(i));
        assert(is_digit(s[i]));
    } else {
        assert(s.take(i) =~= s);
    }
    lemma_digits_value_nonnegative(s.take(i));
}

proof fn lemma_digits_value_nonnegative(s: Seq<char>)
    requires
        forall|k: int| 0 <= k < s.len() ==> is_digit(#[trigger] s[k]),
    ensures
        digits_value(s) >= 0,
    decreases s.len(),
{
    if s.len() > 0 {
        let t = s.drop_last();
        assert forall|k: int| 0 <= k < t.len() implies is_digit(#[trigger] t[k]) by {
            assert(t[k] == s[k]);
        }
        lemma_digits_value_nonnegative(t);
        assert(is_digit(s[s.len() - 1]));
    }
}

/// The formula that s[i..len) spells where it is exactly a cell reference
/// or a cell range.
pub open spec fn reference_literal(s: Seq<char>, i: int) -> Option<Expr> {
    let m = cell_ref_end(s, i);
    if cell_ref_in(s, i, s.len() as int) {
        Some(Expr::Ref(Ref::CellRef(cell_of(s, i, s.len() as int).0, cell_of(s, i, s.len() as int).1)))
    } else if cell_range_in(s, i, m, s.len() as int) {
        Some(Expr::Ref(ordered_range(cell_of(s, i, m), cell_of(s, m + 1, s.len() as int))))
    } else {
        None
    }
}

/// s[i..len) is exactly a row range: two row numbers of at least 1,
/// small enough to hold, joined by `:`.
pub open spec fn row_range_in(s: Seq<char>, i: int) -> bool {
    let a = digit_end(s, i);
    &&& 0 <= i < a
    &&& a + 1 < s.len()
    &&& s[a] == ':'
    &&& digit_end(s, a + 1) == s.len()
    &&& 1 <= digits_value(s.subrange(i, a)) <= usize::MAX
    &&& 1 <= digits_value(s.subrange(a + 1, s.len() as int)) <= usize::MAX
}

/// s[i..len) is exactly a column range: two runs of column letters, small
/// enough to hold, joined by `:`, the first of them not a keyword.
pub open spec fn column_range_in(s: Seq<char>, i: int) -> bool {
    let a = upper_end(s, i);
    &&& 0 <= i < a
    &&& a + 1 < s.len()
    &&& s[a] == ':'
    &&& upper_end(s, a + 1) == s.len()
    &&& crate::helpers::column_number(s.subrange(i, a)) <= usize::MAX
    &&& crate::helpers::column_number(s.subrange(a + 1, s.len() as int)) <= usize::MAX
    &&& s.subrange(i, a) != "TRUE"@
    &&& s.subrange(i, a) != "FALSE"@
}

/// s[i..len) is exactly a string literal: double quotes around characters
/// none of which is a double quote.
pub open spec fn string_literal_in(s: Seq<char>, i: int) -> bool {
    &&& 0 <= i
    &&& i + 2 <= s.len()
    &&& s[i] == '"'
    &&& s[s.len() - 1] == '"'
    &&& forall|k: int| i < k < s.len() - 1 ==> #[trigger] s[k] != '"'
}

/// `r` is the string expression of the text s[i + 1..len - 1], ending at
/// `len`.
pub open spec fn is_string_of(r: (Expr, usize), s: Seq<char>, i: int) -> bool {
    &&& r.1 == s.len()
    &&& r.0 is String
    &&& r.0->String_0@ == s.subrange(i + 1, s.len() - 1)
}

/// The formula that s[i..len) spells where it is exactly one literal atom
/// other than a number or a string: a row range, TRUE, FALSE, a column
/// range, a cell range or a cell reference.
pub open spec fn literal_expr(s: Seq<char>, i: int) -> Option<Expr> {
    let n = s.len() as int;
    if row_range_in(s, i) {
        let a = digit_end(s, i);
        Some(Expr::Ref(Ref::RowRange(
            (digits_value(s.subrange(i, a)) - 1) as usize,
            (digits_value(s.subrange(a + 1, n)) - 1) as usize,
        )))
    } else if 0 <= i <= n && s.subrange(i, n) == "TRUE"@ {
        Some(Expr::Bool(true))
    } else if 0 <= i <= n && s.subrange(i, n) == "FALSE"@ {
        Some(Expr::Bool(false))
    } else if column_range_in(s, i) {
        let a = upper_end(s, i);
        Some(Expr::Ref(Ref::ColumnRange(
            (crate::helpers::column_number(s.subrange(i, a)) - 1) as usize,
            (crate::helpers::column_number(s.subrange(a + 1, n)) - 1) as usize,
        )))
    } else {
        reference_literal(s, i)
    }
}

/// A word that letters and digits up to `a` begin, and that is not TRUE or
/// FALSE up to `a`, is not TRUE or FALSE up to any `j` that ends a word.
proof fn lemma_not_keyword(s: Seq<char>, i: int, a: int, j: int)
    requires
        0 <= i < a <= s.len(),
        i < j <= s.len(),
        forall|k: int| i <= k < a ==> upper_or_digit(#[trigger] s[k]),
        a < s.len() ==> s[a] == ':',
        s.subrange(i, a) != "TRUE"@,
        s.subrange(i, a) != "FALSE"@,
        j < s.len() ==> !upper_or_digit(s[j]),
    ensures
        s.subrange(i, j) != "TRUE"@,
        s.subrange(i, j) != "FALSE"@,
{
    reveal_strlit("TRUE");
    reveal_strlit("FALSE");
    assert("TRUE"@ =~= seq!['T', 'R', 'U', 'E']);
    assert("FALSE"@ =~= seq!['F', 'A', 'L', 'S', 'E']);
    let t = s.subrange(i, j);
    if j < a {
        assert(upper_or_digit(s[j]));
    } else if j > a {
        assert(t[a - i] == s[a]);
        assert(t[a - i] == ':');
    }
}

/// No literal atom but TRUE and FALSE themselves starts with the keyword
/// TRUE or FALSE standing as a whole word.
proof fn lemma_literal_not_keyword(s: Seq<char>, i: int, j: int)
    requires
        literal_expr(s, i) is Some,
        s.subrange(i, s.len() as int) != "TRUE"@,
        s.subrange(i, s.len() as int) != "FALSE"@,
        i < j <= s.len(),
        j < s.len() ==> !upper_or_digit(s[j]),
    ensures
        s.subrange(i, j) != "TRUE"@,
        s.subrange(i, j) != "FALSE"@,
{
    reveal_strlit("TRUE");
    reveal_strlit("FALSE");
    assert("TRUE"@ =~= seq!['T', 'R', 'U', 'E']);
    assert("FALSE"@ =~= seq!['F', 'A', 'L', 'S', 'E']);
    let t = s.subrange(i, j);
    if row_range_in(s, i) {
        assert(is_digit(s[i]));
        assert(t[0] == s[i]);
    } else if column_range_in(s, i) {
        let a = upper_end(s, i);
        lemma_upper_end(s, i);
        assert forall|k: int| i <= k < a implies upper_or_digit(#[trigger] s[k]) by {
            assert(crate::helpers::is_upper(s[k]));
        }
        lemma_not_keyword(s, i, a, j);
    } else {
        let a = upper_end(s, i);
        let m = cell_ref_end(s, i);
        lemma_upper_end(s, i);
        lemma_digit_end(s, a);
        assert forall|k: int| i <= k < m implies upper_or_digit(#[trigger] s[k]) by {
            if k < a {
                assert(crate::helpers::is_upper(s[k]));
            } else {
                assert(is_digit(s[k]));
            }
        }
        let u = s.subrange(i, m);
        assert(u[u.len() - 1] == s[m - 1]);
        assert(is_digit(s[m - 1]));
        lemma_not_keyword(s, i, m, j);
    }
}

/// Every cell range in `e` has its corners in order.
pub open spec fn ranges_ordered(e: Expr) -> bool
    decreases e,
{
    match e {
        Expr::Ref(Ref::CellRange((x1, y1), (x2, y2))) => x1 <= x2 && y1 <= y2,
        Expr::Range(a, b) | Expr::RefIntersection(a, b) | Expr::RefUnion(a, b) | Expr::Add(a, b)
        | Expr::Sub(a, b) | Expr::Mul(a, b) | Expr::Div(a, b) | Expr::Pow(a, b) | Expr::Concat(a, b)
        | Expr::Cond(_, a, b) => ranges_ordered(*a) && ranges_ordered(*b),
        Expr::Perc(a) | Expr::Neg(a) => ranges_ordered(*a),
        Expr::Func(_, args) => forall|k: int| 0 <= k < args.len() ==> ranges_ordered(#[trigger] args[k]),
        _ => true,
    }
}

/// The first position at or after `i` that holds no whitespace.
fn skip_spaces(text: &str, len: usize, i: usize) -> (r: usize)
    requires
        len == text@.len(),
        i <= len,
    ensures
        i <= r <= len,
        r < len ==> !crate::chars::space_char(text@[r as int]),
        i < len && (upper_or_digit(text@[i as int]) || text@[i as int] == '"') ==> r == i,
        r == spaces_end(text@, i as int),
{
    let mut j = i;
    while j < len && is_space_char(text.get_char(j))
        invariant
            len == text@.len(),
            i <= j <= len,
            spaces_end(text@, i as int) == spaces_end(text@, j as int),
            j > i ==> !(upper_or_digit(text@[i as int]) || text@[i as int] == '"'),
        decreases len - j,
    {
        j = j + 1;
    }
    j
}

/// The end of the run of decimal digits that starts at `i`.
fn scan_digits(text: &str, len: usize, i: usize) -> (r: usize)
    requires
        len == text@.len(),
        i <= len,
    ensures
        i <= r <= len,
        forall|k: int| i <= k < r ==> is_digit(#[trigger] text@[k]),
        r < len ==> !is_digit(text@[r as int]),
        r == digit_end(text@, i as int),
{
    let mut j = i;
    while j < len && '0' <= text.get_char(j) && text.get_char(j) <= '9'
        invariant
            len == text@.len(),
            i <= j <= len,
            digit_end(text@, i as int) == digit_end(text@, j as int),
            forall|k: int| i <= k < j ==> is_digit(#[trigger] text@[k]),
        decreases len - j,
    {
        j = j + 1;
    }
    j
}

/// The end of the run of upper-case ASCII letters that starts at `i`.
fn scan_upper(text: &str, len: usize, i: usize) -> (r: usize)
    requires
        len == text@.len(),
        i <= len,
    ensures
        i <= r <= len,
        forall|k: int| i <= k < r ==> crate::helpers::is_upper(#[trigger] text@[k]),
        r < len ==> !crate::helpers::is_upper(text@[r as int]),
        r == upper_end(text@, i as int),
{
    let mut j = i;
    while j < len && 'A' <= text.get_char(j) && text.get_char(j) <= 'Z'
        invariant
            len == text@.len(),
            i <= j <= len,
            upper_end(text@, i as int) == upper_end(text@, j as int),
            forall|k: int| i <= k < j ==> crate::helpers::is_upper(#[trigger] text@[k]),
        decreases len - j,
    {
        j = j + 1;
    }
    j
}

/// The value of the digits in [from, to), if it fits.
fn digits_to_usize(text: &str, len: usize, from: usize, to: usize) -> (r: Option<usize>)
    requires
        len == text@.len(),
        from <= to <= len,
        forall|k: int| from <= k < to ==> is_digit(#[trigger] text@[k]),
    ensures
        r matches Some(v) ==> v == digits_value(text@.subrange(from as int, to as int)),
        r is None ==> digits_value(text@.subrange(from as int, to as int)) > usize::MAX,
{
    let mut v: usize = 0;
    let mut j = from;
    while j < to
        invariant
            len == text@.len(),
            from <= j <= to <= len,
            forall|k: int| from <= k < to ==> is_digit(#[trigger] text@[k]),
            v == digits_value(text@.subrange(from as int, j as int)),
        decreases to - j,
    {
        let d = (text.get_char(j) as u32 - '0' as u32) as usize;
        assert(text@.subrange(from as int, j + 1) .drop_last() =~= text@.subrange(from as int, j as int));
        assert(is_digit(text@[j as int]));
        if v > (usize::MAX - d) / 10 {
            proof {
                assert(v * 10 + d > usize::MAX) by (nonlinear_arith)
                    requires v > (usize::MAX - d) / 10, d <= 9;
                let whole = text@.subrange(from as int, to as int);
                assert(whole.take(j - from + 1) =~= text@.subrange(from as int, j + 1));
                lemma_digits_value_grows(whole, j - from + 1);
            }
            return None;
        }
        proof {
            assert(v * 10 + d <= usize::MAX) by (nonlinear_arith)
                requires v <= (usize::MAX - d) / 10, d <= 9;
        }
        v = v * 10 + d;
        j = j + 1;
    }
    Some(v)
}

/// A row number written in [from, to): 1-based in the text, 0-based in the
/// result. Zero and numbers too large are refused.
fn row_at(text: &str, len: usize, from: usize, to: usize) -> (r: Option<usize>)
    requires
        len == text@.len(),
        from <= to <= len,
        forall|k: int| from <= k < to ==> is_digit(#[trigger] text@[k]),
    ensures
        r matches Some(v) ==> v + 1 == digits_value(text@.subrange(from as int, to as int)),
        r is Some ==> digits_value(text@.subrange(from as int, to as int)) <= usize::MAX,
        1 <= digits_value(text@.subrange(from as int, to as int)) <= usize::MAX
            ==> r == Some((digits_value(text@.subrange(from as int, to as int)) - 1) as usize),
{
    match digits_to_usize(text, len, from, to) {
        Some(v) => if v == 0 {
            None
        } else {
            Some(v - 1)
        },
        None => None,
    }
}

/// A cell reference at `i`: upper-case letters, then digits.
fn cell_ref_at(text: &str, len: usize, i: usize) -> (r: Option<(usize, usize, usize)>)
    requires
        len == text@.len(),
        i <= len,
    ensures
        r matches Some((col, row, j)) ==> i < j <= len,
        r is Some ==> cell_ref_end(text@, i as int) == r->Some_0.2 && cell_ref_in(text@, i as int, cell_ref_end(text@, i as int)),
        cell_ref_in(text@, i as int, cell_ref_end(text@, i as int)) ==> r == Some(
            (cell_of(text@, i as int, cell_ref_end(text@, i as int)).0,
            cell_of(text@, i as int, cell_ref_end(text@, i as int)).1,
            cell_ref_end(text@, i as int) as usize),
        ),
{
    let a = scan_upper(text, len, i);
    if a == i {
        return None;
    }
    let b = scan_digits(text, len, a);
    if b == a {
        return None;
    }
    proof {
        lemma_digits_value_nonnegative(text@.subrange(a as int, b as int));
    }
    let row = match row_at(text, len, a, b) {
        Some(v) => v,
        None => return None,
    };
    match column_to_id(text.substring_char(i, a)) {
        Ok(col) => Some((col, row, b)),
        Err(_) => None,
    }
}

/// A cell reference at `i` that no `(` follows: letters and digits before
/// a parenthesis name a function, as in `LOG10(x)`.
fn cell_ref_before_paren(text: &str, len: usize, i: usize) -> (r: Option<(usize, usize, usize)>)
    requires
        len == text@.len(),
        i <= len,
    ensures
        r matches Some((col, row, j)) ==> i < j <= len,
        cell_ref_in(text@, i as int, len as int) ==> r == Some(
            (cell_of(text@, i as int, len as int).0, cell_of(text@, i as int, len as int).1, len),
        ),
        match r {
            Some((c, w, j)) => cell_ref_g(text@, i as int) == Some((Shape::Ref(Ref::CellRef(c, w)), j as int)),
            None => cell_ref_g(text@, i as int) is None,
        },
{
    match cell_ref_at(text, len, i) {
        Some((col, row, j)) => {
            let k = skip_spaces(text, len, j);
            if k < len && text.get_char(k) == '(' {
                None
            } else {
                Some((col, row, j))
            }
        },
        None => None,
    }
}

/// A row range at `i`: digits, `:`, digits.
fn row_range_at(text: &str, len: usize, i: usize) -> (r: Option<(Expr, usize)>)
    requires
        len == text@.len(),
        i <= len,
    ensures
        r matches Some((e, j)) ==> i < j <= len && ranges_ordered(e),
        r is Some ==> i < len && is_digit(text@[i as int]),
        shaped(r) == row_range_g(text@, i as int),
        row_range_in(text@, i as int) ==> r == Some((Expr::Ref(Ref::RowRange(
            (digits_value(text@.subrange(i as int, digit_end(text@, i as int))) - 1) as usize,
            (digits_value(text@.subrange(digit_end(text@, i as int) + 1, len as int)) - 1) as usize,
        )), len)),
{
    let a = scan_digits(text, len, i);
    if a == i || a >= len || text.get_char(a) != ':' {
        return None;
    }
    let b = scan_digits(text, len, a + 1);
    if b == a + 1 {
        return None;
    }
    match (row_at(text, len, i, a), row_at(text, len, a + 1, b)) {
        (Some(y1), Some(y2)) => Some((Expr::Ref(Ref::RowRange(y1, y2)), b)),
        _ => None,
    }
}

/// A column range at `i`: letters, `:`, letters.
fn column_range_at(text: &str, len: usize, i: usize) -> (r: Option<(Expr, usize)>)
    requires
        len == text@.len(),
        i <= len,
    ensures
        r matches Some((e, j)) ==> i < j <= len && ranges_ordered(e),
        r is Some ==> upper_end(text@, i as int) < len && text@[upper_end(text@, i as int)] == ':',
        shaped(r) == column_range_g(text@, i as int),
        column_range_in(text@, i as int) ==> r == Some((Expr::Ref(Ref::ColumnRange(
            (crate::helpers::column_number(text@.subrange(i as int, upper_end(text@, i as int))) - 1) as usize,
            (crate::helpers::column_number(text@.subrange(upper_end(text@, i as int) + 1, len as int))
                - 1) as usize,
        )), len)),
{
    let a = scan_upper(text, len, i);
    if a == i || a >= len || text.get_char(a) != ':' {
        return None;
    }
    let b = scan_upper(text, len, a + 1);
    if b == a + 1 {
        return None;
    }
    match (column_to_id(text.substring_char(i, a)), column_to_id(text.substring_char(a + 1, b))) {
        (Ok(x1), Ok(x2)) => Some((Expr::Ref(Ref::ColumnRange(x1, x2)), b)),
        _ => None,
    }
}

/// A cell range at `i`: two cell references joined by `:`, its corners put
/// in order.
fn cell_range_at(text: &str, len: usize, i: usize) -> (r: Option<(Expr, usize)>)
    requires
        len == text@.len(),
        i <= len,
    ensures
        r matches Some((e, j)) ==> i < j <= len && ranges_ordered(e),
        r is Some ==> cell_ref_end(text@, i as int) < len && text@[cell_ref_end(text@, i as int)] == ':',
        shaped(r) == cell_range_g(text@, i as int),
        cell_range_in(text@, i as int, cell_ref_end(text@, i as int), len as int) ==> r == Some((
            Expr::Ref(ordered_range(
                cell_of(text@, i as int, cell_ref_end(text@, i as int)),
                cell_of(text@, cell_ref_end(text@, i as int) + 1, len as int),
            )),
            len,
        )),
{
    let (x1, y1, a) = match cell_ref_at(text, len, i) {
        Some(c) => c,
        None => return None,
    };
    if a >= len || text.get_char(a) != ':' {
        return None;
    }
    let (x2, y2, b) = match cell_ref_at(text, len, a + 1) {
        Some(c) => c,
        None => return None,
    };
    let lo_x = if x1 <= x2 { x1 } else { x2 };
    let hi_x = if x1 <= x2 { x2 } else { x1 };
    let lo_y = if y1 <= y2 { y1 } else { y2 };
    let hi_y = if y1 <= y2 { y2 } else { y1 };
    Some((Expr::Ref(Ref::CellRange((lo_x, lo_y), (hi_x, hi_y))), b))
}

/// A number at `i`: `0` or digits without a leading zero, then optionally
/// `.` and digits. The host reads its value.
fn number_at<H: Host>(text: &str, len: usize, i: usize, host: &H) -> (r: Result<Option<(Expr, usize)>, ParseError>)
    requires
        len == text@.len(),
        i <= len,
    ensures
        r matches Ok(Some((e, j))) ==> i < j <= len && e is Num,
        r matches Ok(Some(_)) ==> i < len && is_digit(text@[i as int]),
        r matches Ok(o) ==> shaped(o) == number_g(text@, i as int),
        r matches Err(err) ==> number_g(text@, i as int) is Some && unreadable(err),
{
    let a = scan_digits(text, len, i);
    if a == i || (a > i + 1 && text.get_char(i) == '0') {
        return Ok(None);
    }
    let mut end = a;
    if a < len && text.get_char(a) == '.' {
        let b = scan_digits(text, len, a + 1);
        if b > a + 1 {
            end = b;
        }
    }
    match host.parse_number(text.substring_char(i, end)) {
        Some(n) => Ok(Some((Expr::Num(n), end))),
        None => Err(fail(i, "unreadable number")),
    }
}

/// The end of the identifier that starts at `i`: a letter, then letters,
/// digits, `_` and `.`; `i` itself where none starts there.
fn ident_end(text: &str, len: usize, i: usize) -> (r: usize)
    requires
        len == text@.len(),
        i <= len,
    ensures
        i <= r <= len,
        r > i && r < len ==> !upper_or_digit(text@[r as int]),
        i < len && (forall|k: int| i <= k < len ==> crate::helpers::is_upper(#[trigger] text@[k])) ==> r == len,
        r == ident_end_of(text@, i as int),
{
    if i >= len || !is_letter_char(text.get_char(i)) {
        return i;
    }
    let mut j = i + 1;
    while j < len
        invariant
            len == text@.len(),
            i < j <= len,
            ident_run(text@, i + 1) == ident_run(text@, j as int),
        ensures
            i < j <= len,
            j < len ==> !upper_or_digit(text@[j as int]),
            ident_run(text@, i + 1) == j,
        decreases len - j,
    {
        let c = text.get_char(j);
        if !(is_alnum_char(c) || c == '_' || c == '.') {
            break;
        }
        j = j + 1;
    }
    j
}

/// The keyword TRUE or FALSE at `i`, standing as a whole identifier.
fn boolean_at(text: &str, len: usize, i: usize) -> (r: Option<(Expr, usize)>)
    requires
        len == text@.len(),
        i <= len,
    ensures
        r matches Some((e, j)) ==> i < j <= len && e is Bool,
        r matches Some((e, j)) ==> (text@.subrange(i as int, j as int) == "TRUE"@
            || text@.subrange(i as int, j as int) == "FALSE"@) && (j < len ==> !upper_or_digit(text@[j as int])),
        shaped(r) == boolean_g(text@, i as int),
        i < len && text@.subrange(i as int, len as int) == "TRUE"@ ==> r == Some((Expr::Bool(true), len)),
        i < len && text@.subrange(i as int, len as int) == "FALSE"@ ==> r == Some((Expr::Bool(false), len)),
{
    proof {
        reveal_strlit("TRUE");
        reveal_strlit("FALSE");
        assert("TRUE"@ =~= seq!['T', 'R', 'U', 'E']);
        assert("FALSE"@ =~= seq!['F', 'A', 'L', 'S', 'E']);
        let t = text@.subrange(i as int, len as int);
        if t == "TRUE"@ || t == "FALSE"@ {
            assert forall|k: int| i <= k < len implies crate::helpers::is_upper(#[trigger] text@[k]) by {
                assert(text@[k] == t[k - i]);
            }
        }
    }
    let j = ident_end(text, len, i);
    if j == i {
        return None;
    }
    let word = text.substring_char(i, j);
    if crate::text::same_text(word, "TRUE") {
        Some((Expr::Bool(true), j))
    } else if crate::text::same_text(word, "FALSE") {
        Some((Expr::Bool(false), j))
    } else {
        None
    }
}

/// A string literal at `i`: the characters between two double quotes.
fn string_at(text: &str, len: usize, i: usize) -> (r: Option<(Expr, usize)>)
    requires
        len == text@.len(),
        i <= len,
    ensures
        r matches Some((e, j)) ==> i < j <= len && e is String,
        r is Some ==> i < len && text@[i as int] == '"',
        string_literal_in(text@, i as int) ==> r is Some && is_string_of(r->Some_0, text@, i as int),
        shaped(r) == string_g(text@, i as int),
{
    if i >= len || text.get_char(i) != '"' {
        return None;
    }
    let mut j = i + 1;
    while j < len && text.get_char(j) != '"'
        invariant
            len == text@.len(),
            i < j <= len,
            string_literal_in(text@, i as int) ==> j <= len - 1,
            quote_end(text@, i + 1) == quote_end(text@, j as int),
        decreases len - j,
    {
        j = j + 1;
    }
    if j >= len {
        return None;
    }
    Some((Expr::String(String::from_str(text.substring_char(i + 1, j))), j + 1))
}

/// The infix operator at `i`, its binding power and the position after it.
fn infix_at(text: &str, len: usize, i: usize) -> (r: Option<(Infix, u8, usize)>)
    requires
        len == text@.len(),
        i < len,
    ensures
        r matches Some((op, bp, j)) ==> i < j <= len && 1 <= bp <= 10,
        match r {
            Some((op, bp, j)) => infix_g(text@, i as int) == Some((op, bp, j as int)),
            None => infix_g(text@, i as int) is None,
        },
{
    let c = text.get_char(i);
    let next = if i + 1 < len { text.get_char(i + 1) } else { ' ' };
    if c == ':' {
        Some((Infix::Range, 10, i + 1))
    } else if c == '!' {
        Some((Infix::Intersection, 9, i + 1))
    } else if c == '~' {
        Some((Infix::Union, 8, i + 1))
    } else if c == '^' {
        Some((Infix::Pow, 5, i + 1))
    } else if c == '*' {
        Some((Infix::Mul, 4, i + 1))
    } else if c == '/' {
        Some((Infix::Div, 4, i + 1))
    } else if c == '+' {
        Some((Infix::Add, 3, i + 1))
    } else if c == '-' {
        Some((Infix::Sub, 3, i + 1))
    } else if c == '&' {
        Some((Infix::Concat, 2, i + 1))
    } else if c == '<' && next == '>' {
        Some((Infix::Cmp(Comp::NotEqual), 1, i + 2))
    } else if c == '>' && next == '=' {
        Some((Infix::Cmp(Comp::GreaterEqual), 1, i + 2))
    } else if c == '<' && next == '=' {
        Some((Infix::Cmp(Comp::LowerEqual), 1, i + 2))
    } else if c == '=' {
        Some((Infix::Cmp(Comp::Equal), 1, i + 1))
    } else if c == '>' {
        Some((Infix::Cmp(Comp::Greater), 1, i + 1))
    } else if c == '<' {
        Some((Infix::Cmp(Comp::Lower), 1, i + 1))
    } else {
        None
    }
}

fn combine(op: Infix, l: Expr, r: Expr) -> (e: Expr)
    ensures
        ranges_ordered(e) == (ranges_ordered(l) && ranges_ordered(r)),
        shape(e) == combine_g(op, shape(l), shape(r)),
{
    let (l, r) = (Box::new(l), Box::new(r));
    match op {
        Infix::Range => Expr::Range(l, r),
        Infix::Intersection => Expr::RefIntersection(l, r),
        Infix::Union => Expr::RefUnion(l, r),
        Infix::Pow => Expr::Pow(l, r),
        Infix::Mul => Expr::Mul(l, r),
        Infix::Div => Expr::Div(l, r),
        Infix::Add => Expr::Add(l, r),
        Infix::Sub => Expr::Sub(l, r),
        Infix::Concat => Expr::Concat(l, r),
        Infix::Cmp(c) => Expr::Cond(c, l, r),
    }
}

} // verus!

verus! {

/// The arguments of a call whose `(` stands at `o`, up to its `)`:
/// expressions separated by `;`, with a trailing `;` allowed.
fn call_args<H: Host>(text: &str, len: usize, o: usize, host: &H, depth: usize) -> (r: Result<(Vec<Expr>, usize), ParseError>)
    requires
        len == text@.len(),
        o < len,
    ensures
        r matches Ok((args, j)) ==> o < j <= len && forall|k: int| 0 <= k < args.len() ==> ranges_ordered(#[trigger] args[k]),
        match r {
            Ok((args, j)) => args_g(text@, o as int, depth as nat) == Some((shapes(args, args.len() as int), j as int)),
            Err(err) => args_g(text@, o as int, depth as nat) is None || unreadable(err),
        },
    decreases len - o, 0nat,
{
    let i = o + 1;
    let mut args: Vec<Expr> = Vec::new();
    let mut pos = skip_spaces(text, len, i);
    if pos < len && text.get_char(pos) == ')' {
        return Ok((args, pos + 1));
    }
    loop
        invariant
            len == text@.len(),
            o < len,
            i == o + 1,
            i <= pos <= len,
            forall|k: int| 0 <= k < args.len() ==> ranges_ordered(#[trigger] args[k]),
            args_g(text@, o as int, depth as nat) == crate::grammar::args_loop(
                text@, o as int, pos as int, shapes(args, args.len() as int), depth as nat),
        decreases len - pos,
    {
        let (e, k) = match expr_bp(text, len, pos, 0, host, depth) {
            Ok(x) => x,
            Err(err) => return Err(err),
        };
        let ghost before = args@;
        let ghost old_args = args;
        args.push(e);
        proof {
            lemma_shapes_prefix(old_args, args, old_args.len() as int);
            assert(args[old_args.len() as int] == e);
        }
        assert forall|m: int| 0 <= m < args.len() implies ranges_ordered(#[trigger] args[m]) by {
            if m < before.len() {
                assert(args[m] == before[m]);
            }
        }
        let q = skip_spaces(text, len, k);
        if q >= len {
            return Err(fail(q, "expected ';' or ')'"));
        }
        let c = text.get_char(q);
        if c == ')' {
            return Ok((args, q + 1));
        } else if c == ';' {
            pos = skip_spaces(text, len, q + 1);
            if pos < len && text.get_char(pos) == ')' {
                return Ok((args, pos + 1));
            }
        } else {
            return Err(fail(q, "expected ';' or ')'"));
        }
    }
}

/// An atom at `i`, with the whitespace around it. The alternatives are tried
/// in this order: row range, parenthesised expression, number, TRUE or FALSE,
/// string, column range, cell range, cell reference (one that no `(`
/// follows), call.
#[verifier::rlimit(100)]
fn atom<H: Host>(text: &str, len: usize, i: usize, host: &H, depth: usize) -> (r: Result<(Expr, usize), ParseError>)
    requires
        len == text@.len(),
        i <= len,
    ensures
        r matches Ok((e, j)) ==> i < j <= len && ranges_ordered(e),
        literal_expr(text@, i as int) matches Some(e) ==> r == Ok::<(Expr, usize), ParseError>((e, len)),
        string_literal_in(text@, i as int) ==> r is Ok && is_string_of(r->Ok_0, text@, i as int),
        follows_grammar(r, atom_g(text@, i as int, depth as nat)),
    decreases len - i, 1nat,
{
    let ghost keyword = text@.subrange(i as int, len as int) == "TRUE"@
        || text@.subrange(i as int, len as int) == "FALSE"@;
    proof {
        if literal_expr(text@, i as int) is Some {
            if row_range_in(text@, i as int) {
                assert(is_digit(text@[i as int]));
            } else if keyword {
                reveal_strlit("TRUE");
                reveal_strlit("FALSE");
                assert("TRUE"@ =~= seq!['T', 'R', 'U', 'E']);
                assert("FALSE"@ =~= seq!['F', 'A', 'L', 'S', 'E']);
                assert(text@[i as int] == text@.subrange(i as int, len as int)[0]);
                assert(crate::helpers::is_upper(text@[i as int]));
            } else if column_range_in(text@, i as int) {
                assert(crate::helpers::is_upper(text@[i as int]));
            } else {
                lemma_upper_end(text@, i as int);
                lemma_digit_end(text@, upper_end(text@, i as int));
                assert(crate::helpers::is_upper(text@[i as int]));
                assert(is_digit(text@[upper_end(text@, i as int)]));
            }
        }
    }
    let p = skip_spaces(text, len, i);
    if p >= len {
        return Err(fail(p, "unexpected end of input"));
    }
    let found = if let Some(x) = row_range_at(text, len, p) {
        x
    } else if text.get_char(p) == '(' {
        let (e, k) = match expr_bp(text, len, p + 1, 0, host, depth) {
            Ok(x) => x,
            Err(err) => return Err(err),
        };
        let q = skip_spaces(text, len, k);
        if q >= len || text.get_char(q) != ')' {
            return Err(fail(q, "expected ')'"));
        }
        (e, q + 1)
    } else if let Some(x) = match number_at(text, len, p, host) {
        Ok(o) => o,
        Err(err) => return Err(err),
    } {
        x
    } else if let Some(x) = boolean_at(text, len, p) {
        proof {
            if literal_expr(text@, i as int) is Some && !keyword {
                lemma_literal_not_keyword(text@, i as int, x.1 as int);
            }
            if string_literal_in(text@, i as int) {
                reveal_strlit("TRUE");
                reveal_strlit("FALSE");
                assert("TRUE"@ =~= seq!['T', 'R', 'U', 'E']);
                assert("FALSE"@ =~= seq!['F', 'A', 'L', 'S', 'E']);
                assert(text@.subrange(i as int, x.1 as int)[0] == text@[i as int]);
            }
        }
        x
    } else if let Some(x) = string_at(text, len, p) {
        x
    } else if let Some(x) = column_range_at(text, len, p) {
        x
    } else if let Some(x) = cell_range_at(text, len, p) {
        x
    } else if let Some((col, row, j)) = cell_ref_before_paren(text, len, p) {
        (Expr::Ref(Ref::CellRef(col, row)), j)
    } else {
        let q = ident_end(text, len, p);
        if q == p {
            return Err(fail(p, "unexpected character"));
        }
        let name = String::from_str(text.substring_char(p, q));
        let o = skip_spaces(text, len, q);
        if o >= len || text.get_char(o) != '(' {
            return Err(fail(o, "expected '('"));
        }
        let (args, k) = match call_args(text, len, o, host, depth) {
            Ok(x) => x,
            Err(err) => return Err(err),
        };
        (Expr::Func(name, args), k)
    };
    let (e, j) = found;
    Ok((e, skip_spaces(text, len, j)))
}

/// An expression at `i` whose operators bind at least as tightly as
/// `min_bp`.
fn expr_bp<H: Host>(text: &str, len: usize, i: usize, min_bp: u8, host: &H, depth: usize) -> (r: Result<(Expr, usize), ParseError>)
    requires
        len == text@.len(),
        i <= len,
    ensures
        r matches Ok((e, j)) ==> i < j <= len && ranges_ordered(e),
        depth < MAX_DEPTH ==> (literal_expr(text@, i as int) matches Some(e)
            ==> r == Ok::<(Expr, usize), ParseError>((e, len))),
        depth < MAX_DEPTH && string_literal_in(text@, i as int) ==> r is Ok && is_string_of(r->Ok_0, text@, i as int),
        follows_grammar(r, expr_g(text@, i as int, min_bp, depth as nat)),
    decreases len - i, 2nat,
{
    if depth >= MAX_DEPTH {
        return Err(fail(i, "formula nested too deeply"));
    }
    let p = skip_spaces(text, len, i);
    proof {
        if literal_expr(text@, i as int) is Some {
            reveal_strlit("TRUE");
            reveal_strlit("FALSE");
            assert("TRUE"@ =~= seq!['T', 'R', 'U', 'E']);
            assert("FALSE"@ =~= seq!['F', 'A', 'L', 'S', 'E']);
            assert(text@[i as int] == text@.subrange(i as int, len as int)[0]);
            assert(upper_or_digit(text@[i as int]));
        }
    }
    let first = if p < len && (text.get_char(p) == '-' || text.get_char(p) == '+') {
        let (operand, k) = match expr_bp(text, len, p + 1, 7, host, depth + 1) {
            Ok(x) => x,
            Err(err) => return Err(err),
        };
        if text.get_char(p) == '-' {
            (Expr::Neg(Box::new(operand)), k)
        } else {
            (operand, k)
        }
    } else {
        match atom(text, len, p, host, depth + 1) {
            Ok(x) => x,
            Err(err) => return Err(err),
        }
    };
    let (mut lhs, mut pos) = first;
    let ghost lit = literal_expr(text@, i as int);
    let ghost target = expr_g(text@, i as int, min_bp, depth as nat);
    assert(target == ops_g(text@, pos as int, shape(lhs), min_bp, depth as nat));
    loop
        invariant
            target == expr_g(text@, i as int, min_bp, depth as nat),
            target == ops_g(text@, pos as int, shape(lhs), min_bp, depth as nat),
            len == text@.len(),
            i < pos <= len,
            ranges_ordered(lhs),
            depth < MAX_DEPTH,
            lit == literal_expr(text@, i as int),
            lit matches Some(e) ==> pos == len && lhs == e,
            string_literal_in(text@, i as int) ==> is_string_of((lhs, pos), text@, i as int),
        ensures
            i < pos <= len,
            ranges_ordered(lhs),
            target == Some((shape(lhs), spaces_end(text@, pos as int))),
            lit matches Some(e) ==> pos == len && lhs == e,
            string_literal_in(text@, i as int) ==> is_string_of((lhs, pos), text@, i as int),
        decreases len - pos,
    {
        let q = skip_spaces(text, len, pos);
        if q >= len {
            break;
        }
        if text.get_char(q) == '%' {
            if 6 < min_bp {
                break;
            }
            lhs = Expr::Perc(Box::new(lhs));
            pos = q + 1;
        } else {
            match infix_at(text, len, q) {
                None => break,
                Some((op, bp, next)) => {
                    if bp < min_bp {
                        break;
                    }
                    let (rhs, k) = match expr_bp(text, len, next, bp + 1, host, depth + 1) {
                        Ok(x) => x,
                        Err(err) => return Err(err),
                    };
                    lhs = combine(op, lhs, rhs);
                    pos = k;
                },
            }
        }
    }
    Ok((lhs, skip_spaces(text, len, pos)))
}

/// Parses a whole formula, as the grammar `formula_g` states: the result
/// has the shape that the grammar gives, and the parse fails exactly where
/// the grammar does, or where the host cannot read a number literal. The
/// host reads the numbers. On success every cell range in the result has
/// its corners in order. A text that is exactly one literal atom other than
/// a number (a cell reference, a cell, column or row range, TRUE, FALSE, a
/// string) parses to exactly that atom.
pub fn parse<H: Host>(text: &str, host: &H) -> (r: Result<Expr, Vec<ParseError>>)
    ensures
        r matches Ok(e) ==> ranges_ordered(e),
        r matches Err(errs) ==> errs.len() == 1 && errs[0].position <= text@.len(),
        literal_expr(text@, 0) matches Some(e) ==> r == Ok::<Expr, Vec<ParseError>>(e),
        string_literal_in(text@, 0) ==> r is Ok && r->Ok_0 is String
            && r->Ok_0->String_0@ == text@.subrange(1, text@.len() - 1),
        r matches Ok(e) ==> formula_g(text@) == Some(shape(e)),
        formula_g(text@) is None ==> r is Err,
        r matches Err(errs) ==> formula_g(text@) is None || unreadable(errs[0]),
{
    let len = text.unicode_len();
    match expr_bp(text, len, 0, 0, host, 0) {
        Ok((e, j)) => if j < len {
            Err(vec![fail(j, "unexpected input")])
        } else {
            Ok(e)
        },
        Err(err) => {
            let position = if err.position <= len { err.position } else { len };
            Err(vec![ParseError { position, message: err.message }])
        },
    }
}

} // verus!
