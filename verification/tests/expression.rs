use bulletml::data::expression::ast::{BinaryOp, Expr, ExprVar, UnaryOp};
use bulletml::data::expression::grammar;
use bulletml::data::Value;

fn number(v: Value) -> f32 {
    f32::from_bits(v.to_bits())
}

fn parse(expr: &str) -> Expr {
    grammar::expression(expr).unwrap()
}

fn check_literal(actual: Expr, expected: f32) {
    check_literal_ref(&actual, expected);
}

fn check_literal_ref(actual: &Expr, expected: f32) {
    if let Expr::Float(actual) = *actual {
        assert_eq!(number(actual), expected);
    } else {
        panic!("did not parse a float: {:?}", actual);
    }
}

#[test]
fn test_constant_folding_unary() {
    let expr = parse("-4").constant_fold();
    check_literal(expr, -4.);
}

#[test]
fn test_constant_folding_binops() {
    let expr = parse("4+2").constant_fold();
    check_literal(expr, 6.);

    let expr = parse("4-2").constant_fold();
    check_literal(expr, 2.);

    let expr = parse("4*2").constant_fold();
    check_literal(expr, 8.);

    let expr = parse("4/2").constant_fold();
    check_literal(expr, 2.);

    let expr = parse("4%2").constant_fold();
    check_literal(expr, 0.);
}

#[test]
fn test_constant_folding_parens() {
    let expr = parse("4+(2+1)").constant_fold();
    check_literal(expr, 7.);

    let expr = parse("4-(2+1)").constant_fold();
    check_literal(expr, 1.);

    let expr = parse("4*(2+1)").constant_fold();
    check_literal(expr, 12.);

    let expr = parse("4/(2+1)").constant_fold();
    check_literal(expr, 4. / 3.);

    let expr = parse("4%(2+1)").constant_fold();
    check_literal(expr, 1.);
}

fn eval(expr: &str) -> f32 {
    number(parse(expr).constant_fold().constant_value().unwrap())
}

#[test]
fn test_order_of_operations() {
    assert_eq!(eval("1+2*2"), 5.);
    assert_eq!(eval("2*2+1"), 5.);
}

#[test]
fn test_parentheses() {
    assert_eq!(eval("(1+1)"), 2.);
    assert_eq!(eval("2*(2+1)"), 6.);
    assert_eq!(eval("(2+1)*2"), 6.);
    assert_eq!(eval("(2+1)*(2+3)"), 15.);
    assert_eq!(eval("(2*1)+(2*3)"), 8.);
    assert_eq!(eval("(4*(1+2))*2"), 24.);
    assert_eq!(eval("(4+(1+2))+2"), 9.);
    assert_eq!(eval("2*(2+1*2)"), 8.);
    assert_eq!(eval("2*(2-1*2)"), 0.);
    assert_eq!(eval("-(2)"), -2.);
    assert_eq!(eval("-(-1)"), 1.);
    assert_eq!(eval("(2*2)*(1+2)-4"), 8.);
    assert_eq!(eval("(2*2)-(1+2)*4"), -8.);
    assert_eq!(eval("2*(1-2*4)"), -14.);
}

#[test]
fn test_compound() {
    assert_eq!(eval("1*-1"), -1.);
    assert_eq!(eval("(-1)"), -1.);
}

#[test]
fn test_parse_paren_mismatch_fail() {
    let err = grammar::expression("(").unwrap_err();

    assert_eq!(err.location.line, 1);
    assert_eq!(err.location.column, 2);
    assert_eq!(err.location.offset, 1);
}

#[test]
fn test_parse_lonely_binop_fail() {
    let err = grammar::expression("+").unwrap_err();

    assert_eq!(err.location.line, 1);
    assert_eq!(err.location.column, 1);
    assert_eq!(err.location.offset, 0);
}

#[test]
fn test_parse_half_binop_fail() {
    let err = grammar::expression("4+").unwrap_err();

    assert_eq!(err.location.line, 1);
    assert_eq!(err.location.column, 3);
    assert_eq!(err.location.offset, 2);
}

#[test]
fn test_parse_literal() {
    let res = grammar::expression("4").unwrap();

    check_literal(res, 4.);
}

#[test]
fn test_parse_literal_float() {
    let res = grammar::expression("4.").unwrap();

    check_literal(res, 4.);
}

#[test]
fn test_parse_literal_float_implicit_zero() {
    let res = grammar::expression(".5").unwrap();

    check_literal(res, 0.5);
}

#[test]
fn test_parse_literal_float_decimals() {
    let res = grammar::expression("4.5").unwrap();

    check_literal(res, 4.5);
}

fn check_binop(actual: Expr, op: BinaryOp, lhs: f32, rhs: f32) {
    if let Expr::Binary {
        op: aop,
        lhs: alhs,
        rhs: arhs,
    } = actual
    {
        assert_eq!(aop, op);
        check_literal_ref(alhs.as_ref(), lhs);
        check_literal_ref(arhs.as_ref(), rhs);
    } else {
        panic!("did not parse a binary operation: {:?}", actual);
    }
}

#[test]
fn test_parse_binary_ops() {
    let res = grammar::expression("4+2").unwrap();
    check_binop(res, BinaryOp::Add, 4., 2.);

    let res = grammar::expression("4-2").unwrap();
    check_binop(res, BinaryOp::Sub, 4., 2.);

    let res = grammar::expression("4*2").unwrap();
    check_binop(res, BinaryOp::Mul, 4., 2.);

    let res = grammar::expression("4/2").unwrap();
    check_binop(res, BinaryOp::Div, 4., 2.);

    let res = grammar::expression("4%2").unwrap();
    check_binop(res, BinaryOp::Mod, 4., 2.);
}

fn check_unaryop(actual: Expr, op: UnaryOp, expected: f32) {
    if let Expr::Unary {
        op: aop,
        expr: aexpr,
    } = actual
    {
        assert_eq!(aop, op);
        check_literal_ref(aexpr.as_ref(), expected);
    } else {
        panic!("did not parse an unary operation: {:?}", actual);
    }
}

#[test]
fn test_parse_unary_ops() {
    let res = grammar::expression("-4").unwrap();
    check_unaryop(res, UnaryOp::Negate, 4.);
}

fn check_variable(actual: Expr, expected: ExprVar) {
    if let Expr::Var(actual) = actual {
        assert_eq!(actual, expected);
    } else {
        panic!("did not parse a variable: {:?}", actual);
    }
}

#[test]
fn test_parse_rank() {
    let res = grammar::expression("$rank").unwrap();
    check_variable(res, ExprVar::Rank);
}

#[test]
fn test_parse_rand() {
    let res = grammar::expression("$rand").unwrap();
    check_variable(res, ExprVar::Rand);
}

#[test]
fn test_parse_variable() {
    let res = grammar::expression("$var").unwrap();
    check_variable(res, ExprVar::Named("var".into()));
}

#[test]
fn test_parse_rank_trailing() {
    let res = grammar::expression("$rankvar").unwrap();
    check_variable(res, ExprVar::Named("rankvar".into()));
}

#[test]
fn test_parse_rand_trailing() {
    let res = grammar::expression("$randvar").unwrap();
    check_variable(res, ExprVar::Named("randvar".into()));
}

#[test]
fn long_numerals_are_read() {
    let ones = "1".repeat(2000);
    check_literal(parse(&ones), f32::INFINITY);

    let small = format!("0.{}1", "0".repeat(2000));
    check_literal(parse(&small), 0.0);

    let third = format!("0.{}", "3".repeat(2000));
    check_literal(parse(&third), 1.0 / 3.0);
    check_literal(parse(&third), third.parse::<f32>().unwrap());

    let padded = format!("{}7.5{}", "0".repeat(3000), "0".repeat(3000));
    check_literal(parse(&padded), 7.5);

    let sum = format!("{} + {}", padded, third);
    check_literal(parse(&sum).constant_fold(), 7.5 + 1.0 / 3.0);
}

#[test]
fn numerals_up_to_the_limit_are_read() {
    let limit: usize = 0x0100_0000;
    let longest = "1".repeat(limit - 1);
    check_literal(parse(&longest), f32::INFINITY);
    let zeros = "0".repeat(limit - 1);
    check_literal(parse(&zeros), 0.0);
    let padded = format!("{}.5", "0".repeat(limit - 3));
    check_literal(parse(&padded), 0.5);
}

#[test]
fn a_numeral_past_the_limit_is_refused_where_it_begins() {
    let limit: usize = 0x0100_0000;
    let long = "1".repeat(limit);
    let err = grammar::expression(&long).unwrap_err();
    assert_eq!(err.location.offset, 0);
    assert_eq!(err.location.line, 1);
    assert_eq!(err.location.column, 1);

    let later = format!("2 + {}", "0".repeat(limit));
    let err = grammar::expression(&later).unwrap_err();
    assert_eq!(err.location.offset, 4);
    assert_eq!(err.location.column, 5);

    let pointed = format!("-(.{})", "5".repeat(limit));
    let err = grammar::expression(&pointed).unwrap_err();
    assert_eq!(err.location.offset, 2);
}
