use open_formula::conversion::{
    convert_to_logical, convert_to_number, convert_to_scalar, convert_to_text, ConvertToLogical,
    ConvertToNumber, ConvertToScalar, ConvertToText,
};
use open_formula::eval::{eval, eval_ref};
use open_formula::functions::{abs, acos, builtin_of, exp, ln, sqrt, Builtin};
use open_formula::host::{Arith, Context, Host, MathFn};
use open_formula::parser::parse;
use open_formula::sheet::{Cell, Sheet};
use open_formula::sql::{self, transform, transform_with_columns};
use open_formula::types::{Comp, Error, Expr, Ref, Value};

/// Binary64 arithmetic, and one registered function, `TWICE`.
struct F64Host;

impl Host for F64Host {
    fn parse_number(&self, text: &str) -> Option<u64> {
        text.parse::<f64>().ok().map(f64::to_bits)
    }

    fn number_text(&self, n: u64) -> String {
        let mut buffer = ryu::Buffer::new();
        buffer.format(f64::from_bits(n)).to_string()
    }

    fn number_literal(&self, n: u64) -> String {
        format!("{}", f64::from_bits(n))
    }

    fn arith(&self, op: Arith, a: u64, b: u64) -> u64 {
        let (a, b) = (f64::from_bits(a), f64::from_bits(b));
        let r = match op {
            Arith::Add => a + b,
            Arith::Sub => a - b,
            Arith::Mul => a * b,
            Arith::Div => a / b,
            Arith::Pow => a.powf(b),
        };
        r.to_bits()
    }

    fn math(&self, f: MathFn, x: u64) -> u64 {
        let x = f64::from_bits(x);
        let r = match f {
            MathFn::Acos => x.acos(),
            MathFn::Asin => x.asin(),
            MathFn::Atan => x.atan(),
            MathFn::Cos => x.cos(),
            MathFn::Degrees => x.to_degrees(),
            MathFn::Exp => x.exp(),
            MathFn::Ln => x.ln(),
            MathFn::Log10 => x.log10(),
            MathFn::Radians => x.to_radians(),
            MathFn::Sin => x.sin(),
            MathFn::Sqrt => x.sqrt(),
            MathFn::Tan => x.tan(),
        };
        r.to_bits()
    }

    fn call(&self, name: &str, args: &[Expr], ctx: &Context<Self>) -> Option<Result<Value, Error>> {
        if name != "TWICE" {
            return None;
        }
        if args.len() != 1 {
            return Some(Err(Error::Args));
        }
        Some(match convert_to_number(eval(ctx, &args[0]), ctx) {
            Ok(Value::Num(n)) => Ok(Value::Num((2.0 * f64::from_bits(n)).to_bits())),
            Ok(_) => Err(Error::Value),
            Err(e) => Err(e),
        })
    }
}

fn num(x: f64) -> Expr {
    Expr::Num(x.to_bits())
}

fn vnum(x: f64) -> Value {
    Value::Num(x.to_bits())
}

fn bx(e: Expr) -> Box<Expr> {
    Box::new(e)
}

fn ctx_at(loc: Option<(usize, usize)>) -> Context<F64Host> {
    Context { sheet: Sheet::new(), current_loc: loc, host: F64Host }
}

fn parse_ok(input: &str) -> Expr {
    parse(input, &F64Host).unwrap()
}

fn eval_str(ctx: &Context<F64Host>, input: &str) -> Result<Value, Error> {
    eval(ctx, &parse_ok(input))
}

fn set_value(ctx: &mut Context<F64Host>, x: usize, y: usize, v: Value) {
    ctx.sheet.set(x, y, Cell { value: Some(v), expr: None });
}

// ---- parser ----

#[test]
fn simple_num() {
    assert_eq!(parse_ok("3"), num(3.0));
    assert_eq!(parse_ok("3.0"), num(3.0));
    assert_eq!(parse_ok("3.000000000000000001"), num(3.000000000000000001));
}

#[test]
fn simple_bool() {
    assert_eq!(parse_ok("TRUE"), Expr::Bool(true));
    assert_eq!(parse_ok("FALSE"), Expr::Bool(false));
}

#[test]
fn simple_string() {
    assert_eq!(parse_ok("\"3\""), Expr::String("3".into()));
    assert_eq!(parse_ok("\"ABCDEFG\""), Expr::String("ABCDEFG".into()));
}

#[test]
fn simple_cellref() {
    assert_eq!(parse_ok("A1"), Expr::Ref(Ref::CellRef(0, 0)));
    assert_eq!(parse_ok("XY23"), Expr::Ref(Ref::CellRef(648, 22)));
}

#[test]
fn simple_columnrange() {
    assert_eq!(parse_ok("A:A"), Expr::Ref(Ref::ColumnRange(0, 0)));
    assert_eq!(parse_ok("H:H"), Expr::Ref(Ref::ColumnRange(7, 7)));
    assert_eq!(parse_ok("B:AB"), Expr::Ref(Ref::ColumnRange(1, 27)));
}

#[test]
fn simple_rowrange() {
    assert_eq!(parse_ok("3:3"), Expr::Ref(Ref::RowRange(2, 2)));
    assert_eq!(parse_ok("1:5"), Expr::Ref(Ref::RowRange(0, 4)));
    assert_eq!(parse_ok("21:9"), Expr::Ref(Ref::RowRange(20, 8)));
}

#[test]
fn simple_cellrange() {
    assert_eq!(parse_ok("A1:Z99"), Expr::Ref(Ref::CellRange((0, 0), (25, 98))));
    assert_eq!(parse_ok("AA23:BB42"), Expr::Ref(Ref::CellRange((26, 22), (53, 41))));
}

#[test]
fn simple_func() {
    assert_eq!(parse_ok("SUM(3;4)"), Expr::Func("SUM".into(), vec![num(3.0), num(4.0)]));
    assert_eq!(parse_ok("SUM(3.0;4.0)"), Expr::Func("SUM".into(), vec![num(3.0), num(4.0)]));
    assert_eq!(
        parse_ok("SUM(3.0 ;     4.0)"),
        Expr::Func("SUM".into(), vec![num(3.0), num(4.0)])
    );
    assert_eq!(
        parse_ok("TRUES(\"FOOBAR\")"),
        Expr::Func("TRUES".into(), vec![Expr::String("FOOBAR".into())])
    );
    assert_eq!(
        parse_ok("(SUM(\"3\";\"4\"))"),
        Expr::Func("SUM".into(), vec![Expr::String("3".into()), Expr::String("4".into())])
    );
}

#[test]
fn simple_ops() {
    parse_ok("3+4");
    parse_ok("3.0 + 4.0");
    parse_ok("3*  4");
    parse_ok("3*4/5-2");
    parse_ok("5.0-2");
    parse_ok("1.0/1.0");
    parse_ok("-1.0 / -1.0");
    parse_ok("2^0");
    parse_ok("-3 * -1");
    parse_ok("2*20%");
    parse_ok("\"A\"&TRUE");
    parse_ok("+5");
    parse_ok("+\"A\"");
    assert_eq!(
        parse_ok("B4:B5:C5"),
        Expr::Range(
            bx(Expr::Ref(Ref::CellRange((1, 3), (1, 4)))),
            bx(Expr::Ref(Ref::CellRef(2, 4)))
        )
    );
    assert_eq!(
        parse_ok("A1:C4!B1:B5"),
        Expr::RefIntersection(
            bx(Expr::Ref(Ref::CellRange((0, 0), (2, 3)))),
            bx(Expr::Ref(Ref::CellRange((1, 0), (1, 4))))
        )
    );
    assert_eq!(
        parse_ok("A1:B2~B2:C3"),
        Expr::RefUnion(
            bx(Expr::Ref(Ref::CellRange((0, 0), (1, 1)))),
            bx(Expr::Ref(Ref::CellRange((1, 1), (2, 2))))
        )
    );
}

#[test]
fn complex_ops() {
    parse_ok("3+4/2");
    parse_ok("3*  4+10");
    parse_ok("2^2+5/2");
    parse_ok("2^3*3");
    parse_ok("--(3)");
    parse_ok("2*-20%%%");
    parse_ok("\"A\" &\"B\"");
    parse_ok("++4.0");
    parse_ok("+-+\"123\"");
}

#[test]
fn simple_comp() {
    parse_ok("3=4");
    parse_ok("3>4");
    parse_ok("3<4");
    parse_ok("3<=4");
    parse_ok("3>=4");
    parse_ok("3<>4");
}

#[test]
fn complex() {
    parse_ok("SUM(--(FREQUENCY(IF(C5:C11=G5;MATCH(B5:B11;B5:B11;0));ROW(B5:B11)-ROW(B5)+1)>0))");
    parse_ok("SUM(--(MMULT(TRANSPOSE(ROW(A1:A99)^0);--(A1:A99=I4))>0))");
}

#[test]
fn parse_percent_binds_tighter_than_product() {
    assert_eq!(parse_ok("2*20%"), Expr::Mul(bx(num(2.0)), bx(Expr::Perc(bx(num(20.0))))));
}

#[test]
fn parse_precedence_and_associativity() {
    assert_eq!(
        parse_ok("3+4*2"),
        Expr::Add(bx(num(3.0)), bx(Expr::Mul(bx(num(4.0)), bx(num(2.0)))))
    );
    assert_eq!(
        parse_ok("8-3-1"),
        Expr::Sub(bx(Expr::Sub(bx(num(8.0)), bx(num(3.0)))), bx(num(1.0)))
    );
    assert_eq!(
        parse_ok("-2^2"),
        Expr::Pow(bx(Expr::Neg(bx(num(2.0)))), bx(num(2.0)))
    );
    assert_eq!(
        parse_ok("1+2=3"),
        Expr::Cond(Comp::Equal, bx(Expr::Add(bx(num(1.0)), bx(num(2.0)))), bx(num(3.0)))
    );
    assert_eq!(
        parse_ok("\"a\"&\"b\"<>\"c\""),
        Expr::Cond(
            Comp::NotEqual,
            bx(Expr::Concat(bx(Expr::String("a".into())), bx(Expr::String("b".into())))),
            bx(Expr::String("c".into()))
        )
    );
    assert_eq!(parse_ok("+5"), num(5.0));
}

#[test]
fn parse_orders_cell_range_corners() {
    assert_eq!(parse_ok("B5:A1"), Expr::Ref(Ref::CellRange((0, 0), (1, 4))));
}

#[test]
fn parse_calls_with_empty_and_trailing_arguments() {
    assert_eq!(parse_ok("PI()"), Expr::Func("PI".into(), vec![]));
    assert_eq!(parse_ok("SUM(1;)"), Expr::Func("SUM".into(), vec![num(1.0)]));
    assert_eq!(parse_ok("LOG10(1)"), Expr::Func("LOG10".into(), vec![num(1.0)]));
    assert_eq!(parse_ok(" SUM ( 1 ) "), Expr::Func("SUM".into(), vec![num(1.0)]));
}

#[test]
fn parse_errors() {
    assert!(parse("", &F64Host).is_err());
    assert!(parse("1+", &F64Host).is_err());
    assert!(parse("(1", &F64Host).is_err());
    assert!(parse("A0", &F64Host).is_err());
    assert!(parse("1 2", &F64Host).is_err());
    assert!(parse("SUM(1", &F64Host).is_err());
    assert!(parse("\"open", &F64Host).is_err());
    let errs = parse("1+)", &F64Host).unwrap_err();
    assert_eq!(errs.len(), 1);
    assert_eq!(errs[0].position, 2);
}

#[test]
fn parse_rejects_deep_nesting() {
    let deep = format!("{}1{}", "(".repeat(400), ")".repeat(400));
    assert!(parse(&deep, &F64Host).is_err());
    let shallow = format!("{}1{}", "(".repeat(50), ")".repeat(50));
    assert_eq!(parse_ok(&shallow), num(1.0));
}

// ---- evaluation ----

#[test]
fn eval_literals_and_arithmetic() {
    let ctx = ctx_at(None);
    assert_eq!(eval_str(&ctx, "3+4"), Ok(vnum(7.0)));
    assert_eq!(eval_str(&ctx, "3*4/5-2"), Ok(vnum(0.3999999999999999)));
    assert_eq!(eval_str(&ctx, "2^3*3"), Ok(vnum(24.0)));
    assert_eq!(eval_str(&ctx, "-3 * -1"), Ok(vnum(3.0)));
    assert_eq!(eval_str(&ctx, "2*20%"), Ok(vnum(0.4)));
    assert_eq!(eval_str(&ctx, "TRUE+1"), Ok(vnum(2.0)));
    assert_eq!(eval_str(&ctx, "\"2.5\"*2"), Ok(vnum(5.0)));
    assert_eq!(eval_str(&ctx, "\"abc\"*2"), Err(Error::Value));
    assert_eq!(eval_str(&ctx, "\"x\""), Ok(Value::String("x".into())));
    assert_eq!(eval_str(&ctx, "TRUE"), Ok(Value::Bool(true)));
}

#[test]
fn eval_division_by_zero() {
    let ctx = ctx_at(None);
    assert_eq!(eval_str(&ctx, "1/0"), Err(Error::Div0));
    assert_eq!(eval_str(&ctx, "0/0"), Err(Error::Div0));
    assert_eq!(eval_str(&ctx, "5/FALSE"), Err(Error::Div0));
    assert_eq!(eval_str(&ctx, "5/(1-1)"), Err(Error::Div0));
    assert_eq!(eval_str(&ctx, "5/-0"), Err(Error::Div0));
    assert_eq!(eval_str(&ctx, "1/B7"), Err(Error::Div0));
    assert_eq!(eval_str(&ctx, "\"x\"/0"), Err(Error::Value));
    assert_eq!(eval_str(&ctx, "6/4"), Ok(vnum(1.5)));
}

#[test]
fn eval_implied_intersection_of_column() {
    let mut ctx = ctx_at(Some((1, 2)));
    set_value(&mut ctx, 0, 2, vnum(42.0));
    set_value(&mut ctx, 0, 3, vnum(7.0));
    assert_eq!(eval_ref(&ctx, &Ref::ColumnRange(0, 0)), Ok(vnum(42.0)));
    assert_eq!(eval_ref(&ctx, &Ref::CellRange((0, 0), (0, 4))), Ok(vnum(42.0)));
    assert_eq!(eval_str(&ctx, "A:A+1"), Ok(vnum(43.0)));
    assert_eq!(eval_ref(&ctx, &Ref::ColumnRange(0, 2)), Err(Error::Value));
}

#[test]
fn eval_implied_intersection_of_own_column() {
    let mut ctx = ctx_at(Some((0, 5)));
    set_value(&mut ctx, 0, 2, vnum(42.0));
    assert_eq!(eval_ref(&ctx, &Ref::ColumnRange(0, 0)), Err(Error::Value));
    assert_eq!(convert_to_scalar(eval_str(&ctx, "A:A"), &ctx), Err(Error::Value));
}

#[test]
fn eval_implied_intersection_of_rows_and_blocks() {
    let mut ctx = ctx_at(Some((3, 0)));
    set_value(&mut ctx, 3, 4, Value::String("row".into()));
    assert_eq!(eval_ref(&ctx, &Ref::RowRange(4, 4)), Ok(Value::String("row".into())));
    assert_eq!(eval_ref(&ctx, &Ref::RowRange(0, 0)), Err(Error::Value));
    assert_eq!(eval_ref(&ctx, &Ref::RowRange(4, 5)), Err(Error::Value));
    assert_eq!(eval_ref(&ctx, &Ref::CellRange((2, 4), (5, 4))), Ok(Value::String("row".into())));
    assert_eq!(eval_ref(&ctx, &Ref::CellRange((2, 4), (5, 6))), Err(Error::Value));
    assert_eq!(eval_ref(&ctx, &Ref::CellRange((7, 7), (8, 8))), Err(Error::Value));
    let none = ctx_at(None);
    assert_eq!(eval_ref(&none, &Ref::ColumnRange(0, 0)), Err(Error::Ref));
    assert_eq!(eval_ref(&none, &Ref::RowRange(0, 0)), Err(Error::Ref));
    assert_eq!(eval_ref(&none, &Ref::CellRange((0, 0), (1, 1))), Err(Error::Ref));
}

#[test]
fn eval_cell_references() {
    let mut ctx = ctx_at(None);
    set_value(&mut ctx, 0, 0, vnum(5.0));
    set_value(&mut ctx, 1, 0, vnum(2.0));
    ctx.sheet.set(2, 0, Cell { value: None, expr: Some(num(1.0)) });
    assert_eq!(eval_str(&ctx, "A1+B1"), Ok(vnum(7.0)));
    assert_eq!(eval_str(&ctx, "A1"), Ok(Value::Ref(Ref::CellRef(0, 0))));
    assert_eq!(eval_ref(&ctx, &Ref::CellRef(0, 0)), Ok(vnum(5.0)));
    assert_eq!(eval_ref(&ctx, &Ref::CellRef(9, 9)), Ok(Value::EmptyCell));
    assert_eq!(eval_ref(&ctx, &Ref::CellRef(2, 0)), Err(Error::Ref));
    assert_eq!(eval_str(&ctx, "C1+1"), Err(Error::Ref));
    assert_eq!(eval_str(&ctx, "Z9+1"), Ok(vnum(1.0)));
}

#[test]
fn eval_builtin_arity() {
    let ctx = ctx_at(None);
    assert_eq!(eval_str(&ctx, "ABS()"), Err(Error::Args));
    assert_eq!(eval_str(&ctx, "ABS(1;2)"), Err(Error::Args));
    assert_eq!(eval_str(&ctx, "SQRT(1;2;3)"), Err(Error::Args));
    assert_eq!(eval_str(&ctx, "ABS(-3)"), Ok(vnum(3.0)));
}

#[test]
fn eval_builtin_domains() {
    let ctx = ctx_at(None);
    assert_eq!(eval_str(&ctx, "SQRT(-1)"), Err(Error::Num));
    assert_eq!(eval_str(&ctx, "SQRT(4)"), Ok(vnum(2.0)));
    assert_eq!(eval_str(&ctx, "SQRT(0)"), Ok(vnum(0.0)));
    assert_eq!(eval_str(&ctx, "ACOS(2)"), Err(Error::Num));
    assert_eq!(eval_str(&ctx, "ASIN(-1.5)"), Err(Error::Num));
    assert_eq!(eval_str(&ctx, "ACOS(1)"), Ok(vnum(0.0)));
    assert_eq!(eval_str(&ctx, "LN(0)"), Err(Error::Num));
    assert_eq!(eval_str(&ctx, "LOG10(100)"), Ok(vnum(2.0)));
    assert_eq!(eval_str(&ctx, "RADIANS(0)"), Err(Error::Num));
    assert_eq!(eval_str(&ctx, "EXP(0)"), Ok(vnum(1.0)));
    assert_eq!(eval_str(&ctx, "COS(0)"), Ok(vnum(1.0)));
    assert_eq!(eval_str(&ctx, "DEGREES(0)"), Ok(vnum(0.0)));
}

#[test]
fn eval_functions_of_host_and_unknown_names() {
    let ctx = ctx_at(None);
    assert_eq!(eval_str(&ctx, "TWICE(21)"), Ok(vnum(42.0)));
    assert_eq!(eval_str(&ctx, "TWICE()"), Err(Error::Args));
    assert_eq!(eval_str(&ctx, "NOPE(1)"), Err(Error::Name));
    assert_eq!(builtin_of("ABS"), Some(Builtin::Abs));
    assert_eq!(builtin_of("SQRT"), Some(Builtin::Math(MathFn::Sqrt)));
    assert_eq!(builtin_of("abs"), None);
}

#[test]
fn eval_concat_and_comparisons() {
    let ctx = ctx_at(None);
    assert_eq!(eval_str(&ctx, "\"A\"&TRUE"), Ok(Value::String("ATRUE".into())));
    assert_eq!(eval_str(&ctx, "\"n=\"&1.5"), Ok(Value::String("n=1.5".into())));
    assert_eq!(eval_str(&ctx, "3<4"), Ok(Value::Bool(true)));
    assert_eq!(eval_str(&ctx, "3>=4"), Ok(Value::Bool(false)));
    assert_eq!(eval_str(&ctx, "3<>4"), Ok(Value::Bool(true)));
    assert_eq!(eval_str(&ctx, "\"abc\"=\"ABC\""), Ok(Value::Bool(true)));
    assert_eq!(eval_str(&ctx, "\"abc\"<\"abd\""), Ok(Value::Bool(true)));
    assert_eq!(eval_str(&ctx, "1<\"a\""), Ok(Value::Bool(true)));
    assert_eq!(eval_str(&ctx, "\"a\"<TRUE"), Ok(Value::Bool(true)));
    assert_eq!(eval_str(&ctx, "FALSE<TRUE"), Ok(Value::Bool(true)));
    assert_eq!(eval_str(&ctx, "-0=0"), Ok(Value::Bool(true)));
    assert_eq!(eval_str(&ctx, "Q7<0"), Ok(Value::Bool(true)));
}

#[test]
fn eval_range_operators_are_unimplemented() {
    let ctx = ctx_at(None);
    assert_eq!(eval_str(&ctx, "A1:B2!B1:B5"), Err(Error::Unimplemented));
    assert_eq!(eval_str(&ctx, "A1:B2~B1:B5"), Err(Error::Unimplemented));
    assert_eq!(eval_str(&ctx, "B4:B5:C5"), Err(Error::Unimplemented));
}

#[test]
fn eval_round_trip_through_printing() {
    fn print(e: &Expr) -> String {
        let host = F64Host;
        match e {
            Expr::Num(n) => host.number_text(*n),
            Expr::Neg(a) => format!("-({})", print(a)),
            Expr::Perc(a) => format!("({})%", print(a)),
            Expr::Add(a, b) => format!("({})+({})", print(a), print(b)),
            Expr::Sub(a, b) => format!("({})-({})", print(a), print(b)),
            Expr::Mul(a, b) => format!("({})*({})", print(a), print(b)),
            Expr::Div(a, b) => format!("({})/({})", print(a), print(b)),
            Expr::Pow(a, b) => format!("({})^({})", print(a), print(b)),
            _ => unreachable!(),
        }
    }
    let ctx = ctx_at(None);
    for input in ["1+2*3", "-2^2", "2*-20%%%", "3*4/5-2", "10/4-0.5^2", "1/0+1", "(1+2)*(3-4)/5"] {
        let e = parse_ok(input);
        let again = parse_ok(&print(&e));
        assert_eq!(eval(&ctx, &e), eval(&ctx, &again));
    }
}

// ---- conversions ----

#[test]
fn conversions_to_number() {
    let mut ctx = ctx_at(None);
    set_value(&mut ctx, 0, 0, Value::Bool(true));
    assert_eq!(convert_to_number(Ok(Value::Bool(true)), &ctx), Ok(vnum(1.0)));
    assert_eq!(convert_to_number(Ok(Value::Bool(false)), &ctx), Ok(vnum(0.0)));
    assert_eq!(convert_to_number(Ok(Value::EmptyCell), &ctx), Ok(vnum(0.0)));
    assert_eq!(convert_to_number(Ok(Value::String("4.25".into())), &ctx), Ok(vnum(4.25)));
    assert_eq!(convert_to_number(Ok(Value::String("x".into())), &ctx), Err(Error::Value));
    assert_eq!(convert_to_number(Ok(Value::Ref(Ref::CellRef(0, 0))), &ctx), Ok(vnum(1.0)));
    assert_eq!(convert_to_number(Err(Error::Null), &ctx), Err(Error::Null));
    for v in [vnum(2.0), Value::Bool(true), Value::String("7".into()), Value::String("z".into())] {
        let once = convert_to_number(Ok(v), &ctx);
        assert_eq!(convert_to_number(once.clone(), &ctx), once);
    }
}

#[test]
fn conversions_to_logical_text_and_scalar() {
    let mut ctx = ctx_at(None);
    set_value(&mut ctx, 1, 1, vnum(0.0));
    assert_eq!(convert_to_logical(Ok(vnum(2.0)), &ctx), Ok(Value::Bool(true)));
    assert_eq!(convert_to_logical(Ok(vnum(-0.0)), &ctx), Ok(Value::Bool(false)));
    assert_eq!(convert_to_logical(Ok(Value::String("TRUE".into())), &ctx), Ok(Value::Bool(false)));
    assert_eq!(convert_to_logical(Ok(Value::EmptyCell), &ctx), Ok(Value::Bool(false)));
    assert_eq!(convert_to_logical(Ok(Value::Ref(Ref::CellRef(1, 1))), &ctx), Ok(Value::Bool(false)));
    assert_eq!(convert_to_text(Ok(vnum(3.0)), &ctx), Ok(Value::String("3.0".into())));
    assert_eq!(convert_to_text(Ok(Value::Bool(false)), &ctx), Ok(Value::String("FALSE".into())));
    assert_eq!(convert_to_text(Ok(Value::EmptyCell), &ctx), Ok(Value::String("".into())));
    assert_eq!(convert_to_text(Ok(Value::Ref(Ref::CellRef(1, 1))), &ctx), Ok(Value::String("0.0".into())));
    assert_eq!(convert_to_scalar(Ok(Value::EmptyCell), &ctx), Err(Error::Value));
    assert_eq!(convert_to_scalar(Ok(Value::Ref(Ref::CellRef(1, 1))), &ctx), Ok(vnum(0.0)));
    assert_eq!(convert_to_scalar(Ok(Value::Ref(Ref::CellRef(5, 5))), &ctx), Ok(Value::EmptyCell));
    assert_eq!(convert_to_scalar(Err(Error::Div0), &ctx), Err(Error::Div0));
}

#[test]
fn stored_reference_is_followed() {
    let mut ctx = ctx_at(None);
    set_value(&mut ctx, 0, 0, Value::Ref(Ref::CellRef(1, 1)));
    assert_eq!(convert_to_number(Ok(Value::Ref(Ref::CellRef(0, 0))), &ctx), Ok(vnum(0.0)));
    assert_eq!(convert_to_scalar(Ok(Value::Ref(Ref::CellRef(0, 0))), &ctx), Ok(Value::EmptyCell));
    set_value(&mut ctx, 1, 1, vnum(4.0));
    set_value(&mut ctx, 2, 2, Value::Ref(Ref::CellRef(0, 0)));
    assert_eq!(convert_to_number(Ok(Value::Ref(Ref::CellRef(2, 2))), &ctx), Ok(vnum(4.0)));
    assert_eq!(eval_str(&ctx, "C3+1"), Ok(vnum(5.0)));
}

#[test]
fn reference_cycle_is_ref_error() {
    let mut ctx = ctx_at(None);
    set_value(&mut ctx, 0, 0, Value::Ref(Ref::CellRef(1, 0)));
    set_value(&mut ctx, 1, 0, Value::Ref(Ref::CellRef(0, 0)));
    assert_eq!(convert_to_number(Ok(Value::Ref(Ref::CellRef(0, 0))), &ctx), Err(Error::Ref));
    assert_eq!(eval_str(&ctx, "A1+1"), Err(Error::Ref));
}

#[test]
fn error_codes() {
    assert_eq!(Error::Null.code(), 1);
    assert_eq!(Error::Div0.code(), 2);
    assert_eq!(Error::Args.code(), 10);
    assert_eq!(Error::from_code(6), Some(Error::Num));
    assert_eq!(Error::from_code(0), None);
    assert_eq!(Error::from_code(11), None);
}

#[test]
fn sheet_cells() {
    let mut sheet = Sheet::new();
    assert!(!sheet.has_cell(1, 2));
    assert!(sheet.set(1, 2, Cell { value: Some(vnum(1.0)), expr: None }).is_none());
    assert!(sheet.has_cell(1, 2));
    assert!(!sheet.has_cell(2, 1));
    assert_eq!(sheet.get(1, 2).unwrap().value, Some(vnum(1.0)));
    let old = sheet.set(1, 2, Cell { value: None, expr: Some(num(2.0)) }).unwrap();
    assert_eq!(old.value, Some(vnum(1.0)));
    assert_eq!(sheet.get(1, 2).unwrap().value, None);
    sheet.set(0, 0, Cell { value: None, expr: None });
    sheet.get_mut(0, 0).unwrap().value = Some(Value::Bool(true));
    assert_eq!(sheet.get(0, 0).unwrap().value, Some(Value::Bool(true)));
    assert!(sheet.get_mut(5, 5).is_none());
    let mut cells = sheet.iter();
    cells.sort_by_key(|(p, _)| *p);
    assert_eq!(cells.len(), 2);
    assert_eq!(cells[0].0, (0, 0));
    assert_eq!(cells[0].1.value, Some(Value::Bool(true)));
    assert_eq!(cells[1].0, (1, 2));
    assert_eq!(cells[1].1.value, None);
}

#[test]
fn expression_refs() {
    let e = parse_ok("A1+-B2%+3");
    assert_eq!(e.refs(), vec![Ref::CellRef(0, 0), Ref::CellRef(1, 1)]);
    assert_eq!(parse_ok("A1*B2").refs(), vec![]);
}

// ---- SQL ----

#[test]
fn simple() {
    assert_eq!(transform(&Expr::Bool(false), &F64Host).unwrap(), "0");
    assert_eq!(transform(&Expr::Bool(true), &F64Host).unwrap(), "1");
    assert_eq!(transform(&num(3.0), &F64Host).unwrap(), "3");
    assert_eq!(transform(&Expr::Neg(bx(num(3.0))), &F64Host).unwrap(), "-3");
}

#[test]
fn cell_ref() {
    let cols = ["foo", "bar", "baz"].map(String::from).to_vec();
    let check_ref = |a, b| {
        assert_eq!(
            transform_with_columns(&Expr::Ref(Ref::CellRef(a, 1)), &cols, &F64Host).unwrap(),
            b
        );
    };
    check_ref(0, "foo");
    check_ref(1, "bar");
    check_ref(2, "baz");
}

#[test]
fn cell_ref_invalid() {
    let cols = ["foo", "bar", "baz"].map(String::from).to_vec();
    let check_ref = |col: usize, row: usize, e: sql::Error| {
        assert_eq!(
            transform_with_columns(&Expr::Ref(Ref::CellRef(col, row)), &cols, &F64Host),
            Err(e)
        );
    };
    check_ref(24, 1, sql::Error::ColumnIndexOutOfBounds);
    check_ref(50, 3, sql::Error::ColumnIndexOutOfBounds);
    check_ref(625, 5, sql::Error::ColumnIndexOutOfBounds);
}

#[test]
fn cell_ref_multiple_rows() {
    let cols = ["foo", "bar", "baz"].map(String::from).to_vec();
    let check_refs = |rows: Vec<usize>, e: Result<String, sql::Error>| {
        let expr = rows.iter().fold(num(0.0), |sum, x| {
            Expr::Add(bx(sum), bx(Expr::Ref(Ref::CellRef(0, *x))))
        });
        assert_eq!(transform_with_columns(&expr, &cols, &F64Host), e);
    };
    check_refs(vec![1], Ok("0 + foo".into()));
    check_refs(vec![1, 1], Ok("0 + foo + foo".into()));
    check_refs(vec![3, 3], Ok("0 + foo + foo".into()));
    check_refs(vec![4, 4, 4, 4], Ok("0 + foo + foo + foo + foo".into()));
    check_refs(vec![1, 2], Err(sql::Error::MultipleRowsReferenced));
    check_refs(vec![3, 1], Err(sql::Error::MultipleRowsReferenced));
    check_refs(vec![1, 1, 1, 3], Err(sql::Error::MultipleRowsReferenced));
}

#[test]
fn sql_columns_by_index() {
    let cols = ["foo", "bar", "baz"].map(String::from).to_vec();
    let e = Expr::Add(bx(Expr::Ref(Ref::CellRef(0, 0))), bx(Expr::Ref(Ref::CellRef(2, 0))));
    assert_eq!(transform_with_columns(&e, &cols, &F64Host), Ok("foo + baz".into()));
    let far = Expr::Ref(Ref::CellRef(5, 0));
    assert_eq!(transform_with_columns(&far, &cols, &F64Host), Err(sql::Error::ColumnIndexOutOfBounds));
    let rows = Expr::Add(bx(Expr::Ref(Ref::CellRef(0, 0))), bx(Expr::Ref(Ref::CellRef(0, 1))));
    assert_eq!(transform_with_columns(&rows, &cols, &F64Host), Err(sql::Error::MultipleRowsReferenced));
}

#[test]
fn sql_operators_and_literals() {
    let cols = ["a", "b"].map(String::from).to_vec();
    let t = |s: &str| transform_with_columns(&parse_ok(s), &cols, &F64Host);
    assert_eq!(t("\"it's\""), Ok("'it''s'".into()));
    assert_eq!(t("A1^2"), Ok("POW(a, 2)".into()));
    assert_eq!(t("A1&\"x\""), Ok("CONCAT(a, 'x')".into()));
    assert_eq!(t("A1<=B1"), Ok("(a <= b)".into()));
    assert_eq!(t("A1<>B1"), Ok("(a <> b)".into()));
    assert_eq!(t("50%"), Ok("(50/100.0)".into()));
    assert_eq!(t("2.5*A1-B1/4"), Ok("2.5 * a - b / 4".into()));
    assert_eq!(t("ROUND(A1;2)"), Ok("ROUND(a,2)".into()));
    assert_eq!(t("NOW()"), Ok("NOW()".into()));
    assert_eq!(t("A1:B2"), Err(sql::Error::Unimplemented));
    assert_eq!(t("A:A"), Err(sql::Error::Unimplemented));
    assert_eq!(t("A1!B1"), Err(sql::Error::Unimplemented));
    assert_eq!(t("C1"), Err(sql::Error::ColumnIndexOutOfBounds));
}

#[test]
fn conversions_as_methods() {
    let mut ctx = ctx_at(None);
    set_value(&mut ctx, 0, 0, vnum(2.5));
    let r = eval_str(&ctx, "A1");
    assert_eq!(eval_str(&ctx, "A1").convert_to_scalar(&ctx), Ok(vnum(2.5)));
    assert_eq!(r.convert_to_number(&ctx), Ok(vnum(2.5)));
    assert_eq!(eval_str(&ctx, "A1").convert_to_logical(&ctx), Ok(Value::Bool(true)));
    assert_eq!(eval_str(&ctx, "A1").convert_to_text(&ctx), Ok(Value::String("2.5".into())));
    assert_eq!(Ok(Value::String("9".into())).convert_to_number(&ctx), Ok(vnum(9.0)));
}

#[test]
fn sql_error_messages() {
    assert_eq!(sql::Error::ColumnIndexOutOfBounds.message(), "ColumnIndexOutOfBounds");
    assert_eq!(sql::Error::MultipleRowsReferenced.message(), "MultipleRowsReferenced");
    assert_eq!(sql::Error::Unimplemented.message(), "Unimplemented");
}

#[test]
fn builtins_called_directly() {
    let ctx = ctx_at(None);
    assert_eq!(sqrt(&vec![num(9.0)], &ctx), Ok(vnum(3.0)));
    assert_eq!(sqrt(&vec![num(-4.0)], &ctx), Err(Error::Num));
    assert_eq!(abs(&vec![num(-2.5)], &ctx), Ok(vnum(2.5)));
    assert_eq!(abs(&vec![], &ctx), Err(Error::Args));
    assert_eq!(ln(&vec![num(1.0)], &ctx), Ok(vnum(0.0)));
    assert_eq!(ln(&vec![num(-1.0)], &ctx), Err(Error::Num));
    assert_eq!(acos(&vec![num(1.5)], &ctx), Err(Error::Num));
    assert_eq!(exp(&vec![Expr::Bool(false)], &ctx), Ok(vnum(1.0)));
    assert_eq!(sqrt(&vec![Expr::String("x".into())], &ctx), Err(Error::Value));
}
