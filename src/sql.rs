//! Translation of an expression to a single-row SQL expression.
use vstd::prelude::*;
use crate::host::Host;
use crate::types::{Comp, Expr, Ref};

verus! {

/// Why an expression has no SQL form.
#[derive(Debug, Clone, Copy, PartialEq, Eq, Structural)]
pub enum Error {
    /// A cell reference names a column that the column list lacks.
    ColumnIndexOutOfBounds,
    /// Cell references name more than one row.
    MultipleRowsReferenced,
    /// Ranges and their combinations have no SQL form.
    Unimplemented,
}

impl Error {
    /// The error's name.
    pub fn message(&self) -> (r: &'static str)
        ensures
            *self == Error::ColumnIndexOutOfBounds ==> r@ == "ColumnIndexOutOfBounds"@,
            *self == Error::MultipleRowsReferenced ==> r@ == "MultipleRowsReferenced"@,
            *self == Error::Unimplemented ==> r@ == "Unimplemented"@,
    {
        match self {
            Error::ColumnIndexOutOfBounds => "ColumnIndexOutOfBounds",
            Error::MultipleRowsReferenced => "MultipleRowsReferenced",
            Error::Unimplemented => "Unimplemented",
        }
    }
}

/// Checks the references of `e`, left to right, against `n` columns, with
/// `row` the row that earlier references fixed; the row fixed afterwards.
pub open spec fn rows_of(e: Expr, n: nat, row: Option<usize>) -> Result<Option<usize>, Error>
    decreases e, 0nat,
{
    match e {
        Expr::Num(_) | Expr::Bool(_) | Expr::String(_) => Ok(row),
        Expr::Perc(a) | Expr::Neg(a) => rows_of(*a, n, row),
        Expr::Add(a, b) | Expr::Sub(a, b) | Expr::Mul(a, b) | Expr::Div(a, b) | Expr::Pow(a, b)
        | Expr::Concat(a, b) | Expr::Cond(_, a, b) => match rows_of(*a, n, row) {
            Err(x) => Err(x),
            Ok(r) => rows_of(*b, n, r),
        },
        Expr::Ref(Ref::CellRef(c, y)) => if c >= n {
            Err(Error::ColumnIndexOutOfBounds)
        } else {
            match row {
                Some(y0) => if y0 != y { Err(Error::MultipleRowsReferenced) } else { Ok(row) },
                None => Ok(Some(y)),
            }
        },
        Expr::Func(_, args) => rows_of_list(args, 0, n, row),
        _ => Err(Error::Unimplemented),
    }
}

/// `rows_of` over the arguments from the `k`-th on.
pub open spec fn rows_of_list(args: Vec<Expr>, k: int, n: nat, row: Option<usize>) -> Result<Option<usize>, Error>
    decreases args, (if k < args.len() { args.len() - k } else { 0 }) as nat,
{
    if k < 0 || k >= args.len() {
        Ok(row)
    } else {
        match rows_of(args[k], n, row) {
            Err(x) => Err(x),
            Ok(r) => rows_of_list(args, k + 1, n, r),
        }
    }
}

/// The number of number literals in `e`.
pub open spec fn num_count(e: Expr) -> nat
    decreases e, 0nat,
{
    match e {
        Expr::Num(_) => 1,
        Expr::Perc(a) | Expr::Neg(a) => num_count(*a),
        Expr::Add(a, b) | Expr::Sub(a, b) | Expr::Mul(a, b) | Expr::Div(a, b) | Expr::Pow(a, b)
        | Expr::Concat(a, b) | Expr::Cond(_, a, b) | Expr::Range(a, b) | Expr::RefIntersection(a, b)
        | Expr::RefUnion(a, b) => num_count(*a) + num_count(*b),
        Expr::Func(_, args) => nums_before(args, args.len() as int),
        _ => 0,
    }
}

/// The number of number literals in the first `k` arguments.
pub open spec fn nums_before(args: Vec<Expr>, k: int) -> nat
    decreases args, (if k > 0 { k } else { 0 }) as nat,
{
    if k <= 0 || k > args.len() {
        0
    } else {
        nums_before(args, k - 1) + num_count(args[k - 1])
    }
}

pub open spec fn comp_text(c: Comp) -> Seq<char> {
    match c {
        Comp::Equal => "="@,
        Comp::NotEqual => "<>"@,
        Comp::Greater => ">"@,
        Comp::Lower => "<"@,
        Comp::GreaterEqual => ">="@,
        Comp::LowerEqual => "<="@,
    }
}

/// Text with each single quote doubled.
pub open spec fn quoted(s: Seq<char>) -> Seq<char>
    decreases s.len(),
{
    if s.len() == 0 {
        Seq::empty()
    } else if s.last() == '\'' {
        quoted(s.drop_last()) + "''"@
    } else {
        quoted(s.drop_last()).push(s.last())
    }
}

/// The SQL text of `e` over the column names `cols`, where `lits` are the
/// texts that the host writes for the number literals, left to right.
pub open spec fn sql_text(e: Expr, cols: Seq<String>, lits: Seq<Seq<char>>) -> Seq<char>
    decreases e, 1nat,
{
    match e {
        Expr::Num(_) => lits[0],
        Expr::Bool(b) => if b { "1"@ } else { "0"@ },
        Expr::String(s) => "'"@ + quoted(s@) + "'"@,
        Expr::Perc(a) => "("@ + sql_text(*a, cols, lits) + "/100.0)"@,
        Expr::Neg(a) => "-"@ + sql_text(*a, cols, lits),
        Expr::Add(a, b) => sql_text(*a, cols, lits.take(num_count(*a) as int)) + " + "@
            + sql_text(*b, cols, lits.skip(num_count(*a) as int)),
        Expr::Sub(a, b) => sql_text(*a, cols, lits.take(num_count(*a) as int)) + " - "@
            + sql_text(*b, cols, lits.skip(num_count(*a) as int)),
        Expr::Mul(a, b) => sql_text(*a, cols, lits.take(num_count(*a) as int)) + " * "@
            + sql_text(*b, cols, lits.skip(num_count(*a) as int)),
        Expr::Div(a, b) => sql_text(*a, cols, lits.take(num_count(*a) as int)) + " / "@
            + sql_text(*b, cols, lits.skip(num_count(*a) as int)),
        Expr::Pow(a, b) => "POW("@ + sql_text(*a, cols, lits.take(num_count(*a) as int)) + ", "@
            + sql_text(*b, cols, lits.skip(num_count(*a) as int)) + ")"@,
        Expr::Concat(a, b) => "CONCAT("@ + sql_text(*a, cols, lits.take(num_count(*a) as int)) + ", "@
            + sql_text(*b, cols, lits.skip(num_count(*a) as int)) + ")"@,
        Expr::Cond(c, a, b) => "("@ + sql_text(*a, cols, lits.take(num_count(*a) as int)) + " "@ + comp_text(c)
            + " "@ + sql_text(*b, cols, lits.skip(num_count(*a) as int)) + ")"@,
        Expr::Ref(Ref::CellRef(c, _)) => if c < cols.len() { cols[c as int]@ } else { Seq::empty() },
        Expr::Func(name, args) => name@ + "("@ + joined(args, args.len() as int, cols, lits) + ")"@,
        _ => Seq::empty(),
    }
}

/// The SQL texts of the first `k` arguments, separated by commas, with
/// `lits` the literal texts of those arguments.
pub open spec fn joined(args: Vec<Expr>, k: int, cols: Seq<String>, lits: Seq<Seq<char>>) -> Seq<char>
    decreases args, (if k > 0 { k } else { 0 }) as nat,
{
    if k <= 0 || k > args.len() {
        Seq::empty()
    } else if k == 1 {
        sql_text(args[0], cols, lits)
    } else {
        joined(args, k - 1, cols, lits.take(nums_before(args, k - 1) as int)) + ","@
            + sql_text(args[k - 1], cols, lits.skip(nums_before(args, k - 1) as int))
    }
}

/// The SQL form of a comparison operator.
fn comp_sql(c: &Comp) -> (r: &'static str)
    ensures
        r@ == comp_text(*c),
{
    match c {
        Comp::Equal => "=",
        Comp::NotEqual => "<>",
        Comp::Greater => ">",
        Comp::Lower => "<",
        Comp::GreaterEqual => ">=",
        Comp::LowerEqual => "<=",
    }
}

/// A SQL string literal of `s`.
fn quote(s: &str) -> (r: String)
    ensures
        r@ == "'"@ + quoted(s@) + "'"@,
{
    let len = s.unicode_len();
    let mut out = String::new();
    let mut k: usize = 0;
    while k < len
        invariant
            len == s@.len(),
            k <= len,
            out@ == quoted(s@.take(k as int)),
        decreases len - k,
    {
        assert(s@.take(k as int + 1).drop_last() =~= s@.take(k as int));
        if s.get_char(k) == '\'' {
            out.append("''");
        } else {
            out.append(s.substring_char(k, k + 1));
            assert(s@.subrange(k as int, k as int + 1) =~= seq![s@[k as int]]);
        }
        k = k + 1;
    }
    assert(s@.take(len as int) =~= s@);
    let mut r = String::from_str("'");
    r.append(out.as_str());
    r.append("'");
    r
}

} // verus!

verus! {

/// The two operands of a binary node.
pub open spec fn operands(e: Expr) -> (Expr, Expr) {
    match e {
        Expr::Add(a, b) | Expr::Sub(a, b) | Expr::Mul(a, b) | Expr::Div(a, b) | Expr::Pow(a, b)
        | Expr::Concat(a, b) | Expr::Cond(_, a, b) => (*a, *b),
        _ => (e, e),
    }
}

pub open spec fn is_binary(e: Expr) -> bool {
    e is Add || e is Sub || e is Mul || e is Div || e is Pow || e is Concat || e is Cond
}

/// A text with the host's texts of its number literals, left to right.
pub type Rendered = (String, Ghost<Seq<Seq<char>>>);

/// `t` renders `e`: its literal texts are as many as `e`'s literals and the
/// text is `sql_text` of them.
pub open spec fn renders(t: Rendered, e: Expr, cols: Seq<String>) -> bool {
    t.1@.len() == num_count(e) && t.0@ == sql_text(e, cols, t.1@)
}

/// The SQL texts of the operands of a binary node, left first.
fn operand_texts<H: Host>(expr: &Expr, cols: &Vec<String>, row: &mut Option<usize>, host: &H) -> (r: Result<(Rendered, Rendered), Error>)
    requires
        is_binary(*expr),
    ensures
        match rows_of(operands(*expr).0, cols.len() as nat, *old(row)) {
            Err(x) => r == Err::<(Rendered, Rendered), Error>(x),
            Ok(r1) => match rows_of(operands(*expr).1, cols.len() as nat, r1) {
                Err(x) => r == Err::<(Rendered, Rendered), Error>(x),
                Ok(r2) => r is Ok && *final(row) == r2,
            },
        },
        r is Ok ==> renders(r->Ok_0.0, operands(*expr).0, cols@) && renders(r->Ok_0.1, operands(*expr).1, cols@),
    decreases expr, 0nat,
{
    let (a, b) = match expr {
        Expr::Add(a, b) | Expr::Sub(a, b) | Expr::Mul(a, b) | Expr::Div(a, b) | Expr::Pow(a, b)
        | Expr::Concat(a, b) | Expr::Cond(_, a, b) => (a, b),
        _ => return Err(Error::Unimplemented),
    };
    let ta = match transform_(a, cols, row, host) {
        Ok(t) => t,
        Err(x) => return Err(x),
    };
    let tb = match transform_(b, cols, row, host) {
        Ok(t) => t,
        Err(x) => return Err(x),
    };
    Ok((ta, tb))
}

/// Joins the texts of two operands around `mid`.
fn join_infix(ta: Rendered, mid: &str, tb: Rendered) -> (r: Rendered)
    ensures
        r.0@ == ta.0@ + mid@ + tb.0@,
        r.1@ == ta.1@ + tb.1@,
{
    let (a, la) = ta;
    let (b, lb) = tb;
    let mut s = a;
    s.append(mid);
    s.append(b.as_str());
    (s, Ghost(la@ + lb@))
}

/// Joins the texts of two operands around `mid`, between `pre` and `post`.
fn join_operands(pre: &str, ta: Rendered, mid: &str, tb: Rendered, post: &str) -> (r: Rendered)
    ensures
        r.0@ == pre@ + ta.0@ + mid@ + tb.0@ + post@,
        r.1@ == ta.1@ + tb.1@,
{
    let (a, la) = ta;
    let (b, lb) = tb;
    let mut s = String::from_str(pre);
    s.append(a.as_str());
    s.append(mid);
    s.append(b.as_str());
    s.append(post);
    (s, Ghost(la@ + lb@))
}

fn transform_<H: Host>(expr: &Expr, cols: &Vec<String>, row: &mut Option<usize>, host: &H) -> (r: Result<Rendered, Error>)
    ensures
        match rows_of(*expr, cols.len() as nat, *old(row)) {
            Ok(r2) => r is Ok && *final(row) == r2,
            Err(x) => r == Err::<Rendered, Error>(x),
        },
        r is Ok ==> renders(r->Ok_0, *expr, cols@),
    decreases expr, 1nat,
{
    let ghost none: Seq<Seq<char>> = Seq::empty();
    match expr {
        Expr::Num(n) => {
            let t = host.number_literal(*n);
            let ghost l = seq![t@];
            Ok((t, Ghost(l)))
        },
        Expr::Bool(b) => if *b {
            Ok((String::from_str("1"), Ghost(none)))
        } else {
            Ok((String::from_str("0"), Ghost(none)))
        },
        Expr::String(s) => Ok((quote(s.as_str()), Ghost(none))),
        Expr::Perc(a) => match transform_(a, cols, row, host) {
            Err(x) => Err(x),
            Ok((t, l)) => {
                let mut s = String::from_str("(");
                s.append(t.as_str());
                s.append("/100.0)");
                Ok((s, l))
            },
        },
        Expr::Neg(a) => match transform_(a, cols, row, host) {
            Err(x) => Err(x),
            Ok((t, l)) => {
                let mut s = String::from_str("-");
                s.append(t.as_str());
                Ok((s, l))
            },
        },
        Expr::Add(_, _) | Expr::Sub(_, _) | Expr::Mul(_, _) | Expr::Div(_, _) | Expr::Pow(_, _)
        | Expr::Concat(_, _) | Expr::Cond(_, _, _) => {
            let (ta, tb) = match operand_texts(expr, cols, row, host) {
                Ok(p) => p,
                Err(x) => return Err(x),
            };
            let ghost la = ta.1@;
            let ghost lb = tb.1@;
            let r = match expr {
                Expr::Add(_, _) => join_infix(ta, " + ", tb),
                Expr::Sub(_, _) => join_infix(ta, " - ", tb),
                Expr::Mul(_, _) => join_infix(ta, " * ", tb),
                Expr::Div(_, _) => join_infix(ta, " / ", tb),
                Expr::Pow(_, _) => join_operands("POW(", ta, ", ", tb, ")"),
                Expr::Concat(_, _) => join_operands("CONCAT(", ta, ", ", tb, ")"),
                Expr::Cond(c, _, _) => {
                    let mut mid = String::from_str(" ");
                    mid.append(comp_sql(c));
                    mid.append(" ");
                    join_operands("(", ta, mid.as_str(), tb, ")")
                },
                _ => return Err(Error::Unimplemented),
            };
            proof {
                assert((la + lb).take(la.len() as int) =~= la);
                assert((la + lb).skip(la.len() as int) =~= lb);
                assert(r.1@.len() == num_count(*expr));
                assert(r.0@ == sql_text(*expr, cols@, r.1@));
            }
            Ok(r)
        },
        Expr::Ref(Ref::CellRef(c, y)) => {
            if *c >= cols.len() {
                return Err(Error::ColumnIndexOutOfBounds);
            }
            match *row {
                Some(y0) => if y0 != *y {
                    return Err(Error::MultipleRowsReferenced);
                },
                None => {
                    *row = Some(*y);
                },
            }
            Ok((cols[*c].clone(), Ghost(none)))
        },
        Expr::Func(name, args) => {
            let ghost row0 = *row;
            let mut out = String::from_str(name.as_str());
            out.append("(");
            let ghost mut lits: Seq<Seq<char>> = Seq::empty();
            let mut k: usize = 0;
            assert(out@ + joined(*args, 0, cols@, lits) =~= out@);
            while k < args.len()
                invariant
                    k <= args.len(),
                    rows_of_list(*args, 0, cols.len() as nat, row0) == rows_of_list(*args, k as int, cols.len() as nat, *row),
                    lits.len() == nums_before(*args, k as int),
                    out@ == name@ + "("@ + joined(*args, k as int, cols@, lits),
                    *expr == Expr::Func(*name, *args),
                    rows_of(*expr, cols.len() as nat, *old(row)) == rows_of_list(*args, 0, cols.len() as nat, row0),
                decreases args.len() - k,
            {
                let ghost before = *row;
                let (t, l) = match transform_(&args[k], cols, row, host) {
                    Ok(t) => t,
                    Err(x) => {
                        assert(rows_of_list(*args, k as int, cols.len() as nat, before) == Err::<Option<usize>, Error>(x));
                        return Err(x);
                    },
                };
                let ghost old_lits = lits;
                let ghost old_out = out@;
                if k > 0 {
                    out.append(",");
                }
                out.append(t.as_str());
                proof {
                    lits = old_lits + l@;
                    assert(lits.take(old_lits.len() as int) =~= old_lits);
                    assert(lits.skip(old_lits.len() as int) =~= l@);
                    if k == 0 {
                        assert(name@ + "("@ + joined(*args, 0, cols@, old_lits) =~= name@ + "("@);
                        assert(lits =~= l@);
                    }
                }
                k = k + 1;
            }
            out.append(")");
            assert(renders((out, Ghost(lits)), *expr, cols@));
            Ok((out, Ghost(lits)))
        },
        _ => Err(Error::Unimplemented),
    }
}

/// The SQL form of an expression without cell references. Number literals
/// are written by the host; `sql_text` fixes the rest of the text.
pub fn transform<H: Host>(expr: &Expr, host: &H) -> (r: Result<String, Error>)
    ensures
        r is Err <==> rows_of(*expr, 0, None) is Err,
        rows_of(*expr, 0, None) matches Err(x) ==> r == Err::<String, Error>(x),
        r is Ok ==> exists|lits: Seq<Seq<char>>|
            lits.len() == num_count(*expr) && r->Ok_0@ == #[trigger] sql_text(*expr, Seq::empty(), lits),
{
    let cols: Vec<String> = Vec::new();
    let r = transform_with_columns(expr, &cols, host);
    assert(cols@ =~= Seq::<String>::empty());
    r
}

/// The SQL form of an expression whose cell references name the columns
/// `columns` (column 0 is the first name), all in one row. Number literals
/// are written by the host; `sql_text` fixes the rest of the text.
pub fn transform_with_columns<H: Host>(expr: &Expr, columns: &Vec<String>, host: &H) -> (r: Result<String, Error>)
    ensures
        r is Err <==> rows_of(*expr, columns.len() as nat, None) is Err,
        rows_of(*expr, columns.len() as nat, None) matches Err(x) ==> r == Err::<String, Error>(x),
        r is Ok ==> exists|lits: Seq<Seq<char>>|
            lits.len() == num_count(*expr) && r->Ok_0@ == #[trigger] sql_text(*expr, columns@, lits),
{
    let mut row: Option<usize> = None;
    match transform_(expr, columns, &mut row, host) {
        Ok((t, l)) => {
            assert(l@.len() == num_count(*expr) && t@ == sql_text(*expr, columns@, l@));
            Ok(t)
        },
        Err(x) => Err(x),
    }
}

} // verus!

verus! {

/// A cell reference to a column beyond the column list has no SQL form.
pub proof fn lemma_column_out_of_bounds(c: usize, y: usize, n: nat, row: Option<usize>)
    requires
        c >= n,
    ensures
        rows_of(Expr::Ref(Ref::CellRef(c, y)), n, row) == Err::<Option<usize>, Error>(Error::ColumnIndexOutOfBounds),
{
}

/// The sum of two cell references on different rows has no SQL form: the
/// first reference fixes the row.
pub proof fn lemma_rows_differ(c1: usize, y1: usize, c2: usize, y2: usize, n: nat)
    requires
        c1 < n,
        c2 < n,
        y1 != y2,
    ensures
        rows_of(
            Expr::Add(Box::new(Expr::Ref(Ref::CellRef(c1, y1))), Box::new(Expr::Ref(Ref::CellRef(c2, y2)))),
            n,
            None,
        ) == Err::<Option<usize>, Error>(Error::MultipleRowsReferenced),
{
    reveal_with_fuel(rows_of, 2);
}

/// The sum of two cell references on one row, with columns in the list,
/// is the sum of the two column names.
pub proof fn lemma_sum_of_columns(c1: usize, c2: usize, y: usize, cols: Seq<String>)
    requires
        c1 < cols.len(),
        c2 < cols.len(),
    ensures
        ({
            let e = Expr::Add(Box::new(Expr::Ref(Ref::CellRef(c1, y))), Box::new(Expr::Ref(Ref::CellRef(c2, y))));
            &&& rows_of(e, cols.len(), None) == Ok::<Option<usize>, Error>(Some(y))
            &&& num_count(e) == 0
            &&& sql_text(e, cols, Seq::empty()) == cols[c1 as int]@ + " + "@ + cols[c2 as int]@
        }),
{
    reveal_with_fuel(rows_of, 2);
    reveal_with_fuel(num_count, 2);
    reveal_with_fuel(sql_text, 2);
}

} // verus!
