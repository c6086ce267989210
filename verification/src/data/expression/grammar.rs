//! The grammar of expressions, as a parser over the bytes of the text.
//!
//! ```text
//! expr     := sum
//! sum      := product (('+' | '-') product)*
//! product  := simple (('*' | '/' | '%') simple)*
//! simple   := '(' expr ')' | '-' expr | number | variable
//! number   := digit+ ('.' digit*)? | '.' digit+
//! variable := '$' (letter | '_')+
//! ```
//!
//! Blanks and tabs may follow every token; nothing may stand before the
//! first. The operators of one rank group to the left. A minus sign in front
//! negates the whole expression that follows it. A number is shorter than
//! `NUMERAL_LIMIT` bytes: a longer one cannot be read, and the text is no
//! expression from the place where it begins.

use crate::data::expression::ast::{
    lemma_fold_constant, BinaryOp, Expr, ExprVar, Formula, UnaryOp,
};
use crate::value::{
    decimal_bits, from_decimal, is_digit, is_plain_decimal, Value, NUMERAL_LIMIT,
};
use vstd::prelude::*;
use vstd::slice::{slice_subrange, slice_to_vec};
use vstd::string::StringSliceAdditionalSpecFns;

verus! {

pub const BLANK: u8 = 0x20;

pub const TAB: u8 = 0x09;

pub const DOLLAR: u8 = 0x24;

pub const PERCENT: u8 = 0x25;

pub const OPEN: u8 = 0x28;

pub const CLOSE: u8 = 0x29;

pub const STAR: u8 = 0x2a;

pub const PLUS: u8 = 0x2b;

pub const MINUS: u8 = 0x2d;

pub const POINT: u8 = 0x2e;

pub const SLASH: u8 = 0x2f;

/// A class of bytes of which a token takes as many as follow each other.
#[derive(Debug, Clone, Copy, PartialEq, Eq, Structural)]
pub enum Class {
    /// A blank or a tab.
    Blank,
    /// A decimal digit.
    Digit,
    /// A letter of the English alphabet or the underscore.
    Letter,
}

/// Whether a byte belongs to a class.
pub open spec fn in_class(class: Class, b: u8) -> bool {
    match class {
        Class::Blank => b == BLANK || b == TAB,
        Class::Digit => is_digit(b),
        Class::Letter => 0x41 <= b <= 0x5a || 0x61 <= b <= 0x7a || b == 0x5f,
    }
}

/// The end of the longest run of bytes of one class that starts at `pos`.
pub open spec fn run_end(s: Seq<u8>, pos: int, class: Class) -> int
    decreases s.len() - pos,
{
    if 0 <= pos < s.len() && in_class(class, s[pos]) {
        run_end(s, pos + 1, class)
    } else {
        pos
    }
}

/// A run ends at the first byte that is not of its class, or at the end of
/// the text.
pub proof fn lemma_run_end(s: Seq<u8>, pos: int, class: Class)
    requires
        0 <= pos <= s.len(),
    ensures
        pos <= run_end(s, pos, class) <= s.len(),
        forall|i: int| pos <= i < run_end(s, pos, class) ==> in_class(class, #[trigger] s[i]),
        run_end(s, pos, class) < s.len() ==> !in_class(class, s[run_end(s, pos, class)]),
    decreases s.len() - pos,
{
    if pos < s.len() && in_class(class, s[pos]) {
        lemma_run_end(s, pos + 1, class);
    }
}

/// The end of the number that starts at `pos`, if one does: digits with a
/// point and more digits after them if there are any, or a point and digits.
pub open spec fn number_end(s: Seq<u8>, pos: int) -> Option<int> {
    let whole = run_end(s, pos, Class::Digit);
    if whole > pos {
        if whole < s.len() && s[whole] == POINT {
            Some(run_end(s, whole + 1, Class::Digit))
        } else {
            Some(whole)
        }
    } else if 0 <= pos < s.len() && s[pos] == POINT && run_end(s, pos + 1, Class::Digit) > pos
        + 1 {
        Some(run_end(s, pos + 1, Class::Digit))
    } else {
        None
    }
}

/// The end of the variable that starts at `pos`, if one does: a dollar sign
/// and at least one letter.
pub open spec fn name_end(s: Seq<u8>, pos: int) -> Option<int> {
    if 0 <= pos < s.len() && s[pos] == DOLLAR && run_end(s, pos + 1, Class::Letter) > pos + 1 {
        Some(run_end(s, pos + 1, Class::Letter))
    } else {
        None
    }
}

/// The letters of `rank`.
pub open spec fn rank_word() -> Seq<u8> {
    seq![0x72u8, 0x61u8, 0x6eu8, 0x6bu8]
}

/// The letters of `rand`.
pub open spec fn rand_word() -> Seq<u8> {
    seq![0x72u8, 0x61u8, 0x6eu8, 0x64u8]
}

/// The characters that a run of letters spells.
pub open spec fn spelled(name: Seq<u8>) -> Seq<char> {
    Seq::new(name.len(), |i: int| name[i] as char)
}

/// The variable that a name stands for: the two built-in ones by their exact
/// names, anything else a variable of the script.
pub open spec fn variable(name: Seq<u8>) -> Formula {
    if name == rank_word() {
        Formula::Rank
    } else if name == rand_word() {
        Formula::Rand
    } else {
        Formula::Named(spelled(name))
    }
}

/// The operator that a byte denotes.
pub open spec fn operator(b: u8) -> Option<BinaryOp> {
    if b == PLUS {
        Some(BinaryOp::Add)
    } else if b == MINUS {
        Some(BinaryOp::Sub)
    } else if b == STAR {
        Some(BinaryOp::Mul)
    } else if b == SLASH {
        Some(BinaryOp::Div)
    } else if b == PERCENT {
        Some(BinaryOp::Mod)
    } else {
        None
    }
}

/// The rank of an operator: the higher binds closer.
pub open spec fn precedence(op: BinaryOp) -> nat {
    match op {
        BinaryOp::Add | BinaryOp::Sub => 0,
        BinaryOp::Mul | BinaryOp::Div | BinaryOp::Mod => 1,
    }
}

/// What reading from a place gives: a formula and the place after it, or the
/// place at which the text cannot be an expression.
pub type Reading = Result<(Formula, int), int>;

/// Reads a simple expression at `pos`, with the blanks after it. A number
/// of `NUMERAL_LIMIT` bytes or more is refused at the place where it begins.
pub open spec fn simple_at(s: Seq<u8>, pos: int) -> Reading
    decreases s.len() - pos, 0nat,
{
    if 0 <= pos < s.len() && (s[pos] == OPEN || s[pos] == MINUS) {
        let inner_pos = run_end(s, pos + 1, Class::Blank);
        if !(pos < inner_pos <= s.len()) {
            Err(pos)
        } else {
            match expression_at(s, inner_pos, 0) {
                Ok((inner, p)) => if s[pos] == MINUS {
                    Ok((Formula::Unary(UnaryOp::Negate, Box::new(inner)), p))
                } else if 0 <= p < s.len() && s[p] == CLOSE {
                    Ok((inner, run_end(s, p + 1, Class::Blank)))
                } else {
                    Err(p)
                },
                Err(at) => Err(at),
            }
        }
    } else if let Some(end) = number_end(s, pos) {
        if end - pos < NUMERAL_LIMIT {
            Ok(
                (
                    Formula::Number(Value { bits: decimal_bits(s.subrange(pos, end)) }),
                    run_end(s, end, Class::Blank),
                ),
            )
        } else {
            Err(pos)
        }
    } else if let Some(end) = name_end(s, pos) {
        Ok((variable(s.subrange(pos + 1, end)), run_end(s, end, Class::Blank)))
    } else {
        Err(pos)
    }
}

/// Reads, at `pos`, a simple expression and the operators of rank `level` or
/// higher that follow it, each with its right operand.
pub open spec fn expression_at(s: Seq<u8>, pos: int, level: nat) -> Reading
    decreases s.len() - pos, 1nat,
{
    match simple_at(s, pos) {
        Ok((lhs, p)) => if pos < p <= s.len() {
            operators_at(s, lhs, p, level)
        } else {
            Err(pos)
        },
        Err(at) => Err(at),
    }
}

/// Reads, at `pos`, the operators of rank `level` or higher that follow the
/// operand `lhs`, each with its right operand, and groups them to the left.
pub open spec fn operators_at(s: Seq<u8>, lhs: Formula, pos: int, level: nat) -> Reading
    decreases s.len() - pos, 0nat,
{
    if 0 <= pos < s.len() && operator(s[pos]) is Some && precedence(operator(s[pos]).unwrap())
        >= level {
        let op = operator(s[pos]).unwrap();
        let rhs_pos = run_end(s, pos + 1, Class::Blank);
        if !(pos < rhs_pos <= s.len()) {
            Err(pos)
        } else {
            match expression_at(s, rhs_pos, precedence(op) + 1) {
                Ok((rhs, p)) => if pos < p <= s.len() {
                    operators_at(s, Formula::Binary(op, Box::new(lhs), Box::new(rhs)), p, level)
                } else {
                    Err(pos)
                },
                Err(at) => Err(at),
            }
        }
    } else {
        Ok((lhs, pos))
    }
}

/// The formula that a text spells, or the place of the first byte that
/// cannot go on an expression.
pub open spec fn parse_formula(s: Seq<u8>) -> Result<Formula, int> {
    match expression_at(s, 0, 0) {
        Ok((formula, p)) => if p == s.len() {
            Ok(formula)
        } else {
            Err(p)
        },
        Err(at) => Err(at),
    }
}

/// A number that is too long is no operand: the text cannot be an
/// expression from the place where the number begins.
pub proof fn lemma_long_number(s: Seq<u8>, pos: int)
    requires
        0 <= pos <= s.len(),
        number_end(s, pos) matches Some(end) && end - pos >= NUMERAL_LIMIT,
    ensures
        simple_at(s, pos) == Err::<(Formula, int), int>(pos),
        forall|level: nat| expression_at(s, pos, level) == Err::<(Formula, int), int>(pos),
{
    lemma_run_end(s, pos, Class::Digit);
}

/// Whether a text holds no dollar sign, and so no variable.
pub open spec fn no_variable(s: Seq<u8>) -> bool {
    forall|i: int| 0 <= i < s.len() ==> s[i] != DOLLAR
}

/// A simple expression that is read from a text without variables refers to
/// none.
pub proof fn lemma_simple_without_variables(s: Seq<u8>, pos: int)
    requires
        no_variable(s),
    ensures
        simple_at(s, pos) matches Ok((formula, _)) ==> formula.is_constant(),
    decreases s.len() - pos, 0nat,
{
    if 0 <= pos < s.len() && (s[pos] == OPEN || s[pos] == MINUS) {
        let inner_pos = run_end(s, pos + 1, Class::Blank);
        if pos < inner_pos <= s.len() {
            lemma_expression_without_variables(s, inner_pos, 0);
        }
    }
}

/// An expression that is read from a text without variables refers to none.
pub proof fn lemma_expression_without_variables(s: Seq<u8>, pos: int, level: nat)
    requires
        no_variable(s),
    ensures
        expression_at(s, pos, level) matches Ok((formula, _)) ==> formula.is_constant(),
    decreases s.len() - pos, 1nat,
{
    lemma_simple_without_variables(s, pos);
    if let Ok((lhs, p)) = simple_at(s, pos) {
        if pos < p <= s.len() {
            lemma_operators_without_variables(s, lhs, p, level);
        }
    }
}

/// Operators that are read from a text without variables, after an operand
/// that refers to none, make a formula that refers to none.
pub proof fn lemma_operators_without_variables(s: Seq<u8>, lhs: Formula, pos: int, level: nat)
    requires
        no_variable(s),
        lhs.is_constant(),
    ensures
        operators_at(s, lhs, pos, level) matches Ok((formula, _)) ==> formula.is_constant(),
    decreases s.len() - pos, 0nat,
{
    if 0 <= pos < s.len() && operator(s[pos]) is Some && precedence(operator(s[pos]).unwrap())
        >= level {
        let op = operator(s[pos]).unwrap();
        let rhs_pos = run_end(s, pos + 1, Class::Blank);
        if pos < rhs_pos <= s.len() {
            lemma_expression_without_variables(s, rhs_pos, precedence(op) + 1);
            if let Ok((rhs, p)) = expression_at(s, rhs_pos, precedence(op) + 1) {
                if pos < p <= s.len() {
                    lemma_operators_without_variables(
                        s,
                        Formula::Binary(op, Box::new(lhs), Box::new(rhs)),
                        p,
                        level,
                    );
                }
            }
        }
    }
}

/// A text without variables that is an expression folds to one number: the
/// value of the expression.
pub proof fn lemma_text_without_variables(s: Seq<u8>)
    requires
        no_variable(s),
    ensures
        parse_formula(s) matches Ok(formula) ==> formula.is_constant() && formula.folded()
            == Formula::Number(formula.constant()),
{
    lemma_expression_without_variables(s, 0, 0);
    if let Ok(formula) = parse_formula(s) {
        lemma_fold_constant(formula);
    }
}

/// A place in a text.
#[derive(Debug, Clone, Copy, PartialEq, Eq, Structural)]
pub struct LineCol {
    /// The line, counted from one.
    pub line: usize,
    /// The column, counted from one.
    pub column: usize,
    /// The number of bytes before the place.
    pub offset: usize,
}

/// The text is no expression.
#[derive(Debug, Clone, Copy, PartialEq, Eq, Structural)]
pub struct ParseError {
    /// The place of the first byte that cannot go on an expression.
    pub location: LineCol,
}

/// The place `offset` bytes into a text of which everything before it was
/// read: no line has ended there, and every byte is one column.
pub open spec fn place(offset: int) -> LineCol {
    LineCol {
        line: 1,
        column: if offset < usize::MAX {
            (offset + 1) as usize
        } else {
            usize::MAX
        },
        offset: offset as usize,
    }
}

/// Whether what the parser returned is what the grammar says.
pub open spec fn agrees(got: Result<(Expr, usize), usize>, reading: Reading) -> bool {
    match reading {
        Ok((formula, p)) => got matches Ok((expr, next)) && expr@ == formula && next == p,
        Err(at) => got matches Err(stuck) && stuck == at,
    }
}

/// `String::push`: the character is appended to the string.
#[verifier::external_body]
fn push_char(s: &mut String, c: char)
    ensures
        final(s)@ == old(s)@.push(c),
{
    s.push(c)
}

/// The end of the run of bytes of `class` that starts at `pos`.
fn scan(bytes: &[u8], pos: usize, class: Class) -> (end: usize)
    requires
        pos <= bytes.len(),
    ensures
        end == run_end(bytes@, pos as int, class),
        pos <= end <= bytes.len(),
{
    let mut end = pos;
    while end < bytes.len() && belongs(class, bytes[end])
        invariant
            pos <= end <= bytes.len(),
            run_end(bytes@, pos as int, class) == run_end(bytes@, end as int, class),
        decreases bytes.len() - end,
    {
        end += 1;
    }
    end
}

/// Whether a byte belongs to a class.
fn belongs(class: Class, b: u8) -> (r: bool)
    ensures
        r == in_class(class, b),
{
    match class {
        Class::Blank => b == BLANK || b == TAB,
        Class::Digit => 0x30 <= b && b <= 0x39,
        Class::Letter => (0x41 <= b && b <= 0x5a) || (0x61 <= b && b <= 0x7a) || b == 0x5f,
    }
}

/// The operator that a byte denotes, with its rank.
fn operator_of(b: u8) -> (r: Option<(BinaryOp, usize)>)
    ensures
        match operator(b) {
            Some(op) => r == Some((op, precedence(op) as usize)),
            None => r is None,
        },
{
    if b == PLUS {
        Some((BinaryOp::Add, 0))
    } else if b == MINUS {
        Some((BinaryOp::Sub, 0))
    } else if b == STAR {
        Some((BinaryOp::Mul, 1))
    } else if b == SLASH {
        Some((BinaryOp::Div, 1))
    } else if b == PERCENT {
        Some((BinaryOp::Mod, 1))
    } else {
        None
    }
}

/// The end of the number that starts at `pos`, if one does.
fn number(bytes: &[u8], pos: usize) -> (r: Option<usize>)
    requires
        pos <= bytes.len(),
    ensures
        match number_end(bytes@, pos as int) {
            Some(end) => r == Some(end as usize) && pos < end <= bytes.len()
                && is_plain_decimal(bytes@.subrange(pos as int, end)),
            None => r is None,
        },
{
    let whole = scan(bytes, pos, Class::Digit);
    proof {
        lemma_run_end(bytes@, pos as int, Class::Digit);
    }
    if whole > pos {
        if whole < bytes.len() && bytes[whole] == POINT {
            let end = scan(bytes, whole + 1, Class::Digit);
            proof {
                lemma_run_end(bytes@, whole + 1, Class::Digit);
                let text = bytes@.subrange(pos as int, end as int);
                assert(is_digit(text[0]));
                assert forall|i: int| 0 <= i < text.len() implies is_digit(#[trigger] text[i])
                    || text[i] == POINT by {
                    assert(text[i] == bytes@[pos + i]);
                }
                assert forall|i: int, j: int| 0 <= i < j < text.len() implies !(#[trigger] text[i]
                    == POINT && #[trigger] text[j] == POINT) by {
                    assert(text[i] == bytes@[pos + i]);
                    assert(text[j] == bytes@[pos + j]);
                }
            }
            Some(end)
        } else {
            proof {
                let text = bytes@.subrange(pos as int, whole as int);
                assert(is_digit(text[0]));
                assert forall|i: int| 0 <= i < text.len() implies is_digit(#[trigger] text[i])
                    || text[i] == POINT by {
                    assert(text[i] == bytes@[pos + i]);
                }
                assert forall|i: int, j: int| 0 <= i < j < text.len() implies !(#[trigger] text[i]
                    == POINT && #[trigger] text[j] == POINT) by {
                    assert(text[i] == bytes@[pos + i]);
                }
            }
            Some(whole)
        }
    } else if pos < bytes.len() && bytes[pos] == POINT {
        let end = scan(bytes, pos + 1, Class::Digit);
        if end > pos + 1 {
            proof {
                lemma_run_end(bytes@, pos + 1, Class::Digit);
                let text = bytes@.subrange(pos as int, end as int);
                assert(text[1] == bytes@[pos + 1]);
                assert(is_digit(text[1]));
                assert forall|i: int| 0 <= i < text.len() implies is_digit(#[trigger] text[i])
                    || text[i] == POINT by {
                    assert(text[i] == bytes@[pos + i]);
                }
                assert forall|i: int, j: int| 0 <= i < j < text.len() implies !(#[trigger] text[i]
                    == POINT && #[trigger] text[j] == POINT) by {
                    assert(text[j] == bytes@[pos + j]);
                }
            }
            Some(end)
        } else {
            None
        }
    } else {
        None
    }
}

/// The variable that the letters from `start` to `end` name.
fn variable_of(bytes: &[u8], start: usize, end: usize) -> (var: ExprVar)
    requires
        start < end <= bytes.len(),
    ensures
        var.formula() == variable(bytes@.subrange(start as int, end as int)),
{
    let ghost name = bytes@.subrange(start as int, end as int);
    if end - start == 4 && bytes[start] == 0x72 && bytes[start + 1] == 0x61 && bytes[start + 2]
        == 0x6e {
        assert(name[0] == 0x72 && name[1] == 0x61 && name[2] == 0x6e);
        if bytes[start + 3] == 0x6b {
            assert(name =~= rank_word());
            return ExprVar::Rank;
        }
        if bytes[start + 3] == 0x64 {
            assert(name =~= rand_word());
            return ExprVar::Rand;
        }
        assert(name[3] != rank_word()[3]);
        assert(name[3] != rand_word()[3]);
    } else {
        assert(name != rank_word() && name != rand_word()) by {
            if name.len() == 4 {
                assert(name[0] == bytes@[start as int]);
                assert(name[1] == bytes@[start + 1]);
                assert(name[2] == bytes@[start + 2]);
                assert(rank_word()[0] == 0x72 && rank_word()[1] == 0x61 && rank_word()[2] == 0x6e);
                assert(rand_word()[0] == 0x72 && rand_word()[1] == 0x61 && rand_word()[2] == 0x6e);
            } else {
                assert(rank_word().len() == 4);
                assert(rand_word().len() == 4);
            }
        }
    }
    let mut spelling = String::new();
    let mut i = start;
    while i < end
        invariant
            start <= i <= end <= bytes.len(),
            spelling@ == spelled(bytes@.subrange(start as int, i as int)),
        decreases end - i,
    {
        push_char(&mut spelling, bytes[i] as char);
        proof {
            let before = bytes@.subrange(start as int, i as int);
            let after = bytes@.subrange(start as int, i + 1);
            assert(spelled(after) =~= spelled(before).push(bytes@[i as int] as char));
        }
        i += 1;
    }
    ExprVar::Named(spelling)
}

/// Reads a simple expression at `pos`, with the blanks after it. The length
/// of a number is tested before the number is read.
fn simple(bytes: &[u8], pos: usize) -> (r: Result<(Expr, usize), usize>)
    requires
        pos <= bytes.len(),
    ensures
        agrees(r, simple_at(bytes@, pos as int)),
        r matches Ok((_, next)) ==> pos < next <= bytes.len(),
        r matches Err(at) ==> pos <= at <= bytes.len(),
    decreases bytes.len() - pos, 0nat,
{
    if pos < bytes.len() && (bytes[pos] == OPEN || bytes[pos] == MINUS) {
        let inner_pos = scan(bytes, pos + 1, Class::Blank);
        match climb(bytes, inner_pos, 0) {
            Ok((inner, p)) => {
                if bytes[pos] == MINUS {
                    Ok((Expr::unary(UnaryOp::Negate, inner), p))
                } else if p < bytes.len() && bytes[p] == CLOSE {
                    Ok((inner, scan(bytes, p + 1, Class::Blank)))
                } else {
                    Err(p)
                }
            },
            Err(at) => Err(at),
        }
    } else {
        match number(bytes, pos) {
            Some(end) => {
                if end - pos >= NUMERAL_LIMIT {
                    return Err(pos);
                }
                let text = slice_to_vec(slice_subrange(bytes, pos, end));
                let value = from_decimal(&text);
                let next = scan(bytes, end, Class::Blank);
                match value {
                    Some(v) => Ok((Expr::Float(v), next)),
                    None => Err(pos),
                }
            },
            None => {
                if pos < bytes.len() && bytes[pos] == DOLLAR {
                    let end = scan(bytes, pos + 1, Class::Letter);
                    if end > pos + 1 {
                        let var = variable_of(bytes, pos + 1, end);
                        let next = scan(bytes, end, Class::Blank);
                        return Ok((Expr::Var(var), next));
                    }
                }
                Err(pos)
            },
        }
    }
}

/// Reads, at `pos`, a simple expression and the operators of rank `level` or
/// higher that follow it.
fn climb(bytes: &[u8], pos: usize, level: usize) -> (r: Result<(Expr, usize), usize>)
    requires
        pos <= bytes.len(),
    ensures
        agrees(r, expression_at(bytes@, pos as int, level as nat)),
        r matches Ok((_, next)) ==> pos < next <= bytes.len(),
        r matches Err(at) ==> pos <= at <= bytes.len(),
    decreases bytes.len() - pos, 1nat,
{
    let (first, after) = match simple(bytes, pos) {
        Ok(read) => read,
        Err(at) => {
            return Err(at);
        },
    };
    let mut lhs = first;
    let mut here = after;
    loop
        invariant
            pos < here <= bytes.len(),
            expression_at(bytes@, pos as int, level as nat) == operators_at(
                bytes@,
                lhs@,
                here as int,
                level as nat,
            ),
        decreases bytes.len() - here,
    {
        if here >= bytes.len() {
            return Ok((lhs, here));
        }
        let (op, rank) = match operator_of(bytes[here]) {
            Some(found) => found,
            None => {
                return Ok((lhs, here));
            },
        };
        if rank < level {
            return Ok((lhs, here));
        }
        let rhs_pos = scan(bytes, here + 1, Class::Blank);
        match climb(bytes, rhs_pos, rank + 1) {
            Ok((rhs, p)) => {
                lhs = Expr::binary(op, lhs, rhs);
                here = p;
            },
            Err(at) => {
                return Err(at);
            },
        }
    }
}

/// Reads an expression from a text. The whole text must be one expression.
///
/// On failure the error holds the place of the first byte that cannot go on
/// an expression: the place where an operand was due and none begins, where a
/// closing bracket was due, where the text should have ended, or where a
/// number begins that is too long to be read.
pub fn expression(input: &str) -> (r: Result<Expr, ParseError>)
    ensures
        match parse_formula(input.spec_bytes()) {
            Ok(formula) => r matches Ok(expr) && expr@ == formula,
            Err(at) => r matches Err(err) && 0 <= at <= input.spec_bytes().len()
                && err.location == place(at),
        },
{
    let bytes = input.as_bytes();
    let stuck = match climb(bytes, 0, 0) {
        Ok((expr, next)) => {
            if next == bytes.len() {
                return Ok(expr);
            }
            next
        },
        Err(at) => at,
    };
    let column = if stuck < usize::MAX {
        stuck + 1
    } else {
        usize::MAX
    };
    Err(ParseError { location: LineCol { line: 1, column, offset: stuck } })
}

} // verus!
