//! Arithmetic expressions over numbers, script variables, the difficulty and
//! random draws.

pub mod ast;
pub mod grammar;

use crate::data::expression::ast::{lemma_value_window, Expr, ExprVar, Formula};
use crate::data::expression::grammar::{parse_formula, place, ParseError};
use crate::value::Value;
use vstd::prelude::*;
use vstd::string::StringSliceAdditionalSpecFns;

verus! {

/// An error when reading or evaluating an expression.
#[derive(Debug)]
pub enum ExpressionError {
    /// The text is no expression.
    ParseFailure {
        /// Where the text stops being one.
        source: ParseError,
    },
    /// Reference to an undefined variable.
    UndefinedVariable {
        /// The name of the variable.
        name: String,
    },
    /// Reference to a parameter that was not handed over.
    MissingParameter {
        /// The index of the parameter.
        idx: usize,
    },
}

impl ExpressionError {
    /// The error for a variable that the context does not know.
    pub fn undefined_variable(name: &String) -> (e: Self)
        ensures
            e matches ExpressionError::UndefinedVariable { name: n } && n@ == name@,
    {
        ExpressionError::UndefinedVariable { name: name.clone() }
    }
}

/// Whether an error tells of a variable that the formula refers to and the
/// context does not know.
pub open spec fn undefined_in(e: ExpressionError, formula: Formula) -> bool {
    e matches ExpressionError::UndefinedVariable { name } && formula.mentions(name@)
}

/// Whether a result is what came of a formula: the number, or the error
/// that tells the name that is not known.
pub open spec fn came_to(r: Result<Value, ExpressionError>, outcome: Result<Value, Seq<char>>) -> bool {
    match outcome {
        Ok(v) => r == Ok::<Value, ExpressionError>(v),
        Err(unknown) => r matches Err(ExpressionError::UndefinedVariable { name }) && name@
            == unknown,
    }
}

/// Whether a result is what a formula comes to under some answers of the
/// context, one for each place at which the formula refers to a variable.
pub open spec fn evaluated(formula: Formula, r: Result<Value, ExpressionError>) -> bool {
    exists|answers: Seq<Option<Value>>|
        answers.len() == formula.leaves() && came_to(
            r,
            #[trigger] formula.value_under(answers, 0),
        )
}

/// The answers of the context decide what a formula comes to: two results
/// under the same answers are the same number, or tell of the same name.
pub proof fn lemma_answers_decide(
    formula: Formula,
    answers: Seq<Option<Value>>,
    first: Result<Value, ExpressionError>,
    second: Result<Value, ExpressionError>,
)
    requires
        came_to(first, formula.value_under(answers, 0)),
        came_to(second, formula.value_under(answers, 0)),
    ensures
        first matches Ok(v) ==> second == Ok::<Value, ExpressionError>(v),
        first matches Err(e) ==> (e matches ExpressionError::UndefinedVariable { name: one }
            && second matches Err(ExpressionError::UndefinedVariable { name: other }) && one@
            == other@),
{
}

/// The context in which to evaluate an expression.
///
/// This provides values for the variables that expressions refer to.
pub trait ExpressionContext {
    /// Get the value of a variable.
    fn get(&self, name: &str) -> Option<Value>;

    /// Get a random value.
    fn rand(&self) -> Value;

    /// Get the difficulty of the entity using the expression.
    fn rank(&self) -> Value;
}

/// What a reference to the variable `name` gives, once the context has been
/// asked for it: the number found, or the error that names the variable.
pub fn resolved(name: &String, found: Option<Value>) -> (r: Result<Value, ExpressionError>)
    ensures
        match found {
            Some(v) => r == Ok::<Value, ExpressionError>(v),
            None => r matches Err(ExpressionError::UndefinedVariable { name: n }) && n@ == name@,
        },
{
    match found {
        Some(v) => Ok(v),
        None => Err(ExpressionError::undefined_variable(name)),
    }
}

/// An expression which may be evaluated to compute a value. It is kept
/// folded: no part of it is an operation on numbers alone.
#[derive(Debug)]
pub struct Expression {
    expr: Expr,
}

impl View for Expression {
    type V = Formula;

    closed spec fn view(&self) -> Formula {
        self.expr@
    }
}

impl Expression {
    /// Parse an expression from a string. Every part of it that refers to no
    /// variable is replaced by the number it stands for. A text that is no
    /// expression is an error that tells the place of the first byte that
    /// cannot go on one; a number too long to be read is such a place.
    pub fn parse(expr: &str) -> (r: Result<Self, ExpressionError>)
        ensures
            match parse_formula(expr.spec_bytes()) {
                Ok(formula) => r matches Ok(parsed) && parsed@ == formula.folded(),
                Err(at) => r matches Err(ExpressionError::ParseFailure { source })
                    && source.location == place(at),
            },
    {
        match grammar::expression(expr) {
            Ok(parsed) => Ok(Expression { expr: parsed.constant_fold() }),
            Err(source) => Err(ExpressionError::ParseFailure { source }),
        }
    }

    /// A copy of the expression.
    pub fn clone(&self) -> (r: Self)
        ensures
            r == *self,
    {
        Expression { expr: self.expr.clone() }
    }

    /// Evaluate the expression with a given context.
    ///
    /// The context is asked for each variable as the evaluation comes to it,
    /// from left to right, and for a random number at every `$rand`. A
    /// variable that the context does not know ends the evaluation, and the
    /// error tells its name.
    pub fn eval(&self, ctx: &dyn ExpressionContext) -> (r: Result<Value, ExpressionError>)
        ensures
            evaluated(self@, r),
            r matches Ok(v) ==> self@.may_give(v),
            self@.is_constant() ==> r == Ok::<Value, ExpressionError>(self@.constant()),
            !self@.has_names() ==> r is Ok,
            r matches Err(e) ==> (e matches ExpressionError::UndefinedVariable { name }
                && self@.mentions(name@)),
    {
        Self::eval_expr(&self.expr, ctx)
    }

    fn eval_expr(expr: &Expr, ctx: &dyn ExpressionContext) -> (r: Result<Value, ExpressionError>)
        ensures
            evaluated(expr@, r),
            r matches Ok(v) ==> expr@.may_give(v),
            expr@.is_constant() ==> r == Ok::<Value, ExpressionError>(expr@.constant()),
            !expr@.has_names() ==> r is Ok,
            r matches Err(e) ==> (e matches ExpressionError::UndefinedVariable { name }
                && expr@.mentions(name@)),
        decreases expr,
    {
        match expr {
            Expr::Unary { op, expr: inner } => {
                let below = Self::eval_expr(&**inner, ctx);
                let ghost answers = choose|answers: Seq<Option<Value>>|
                    answers.len() == inner@.leaves() && came_to(
                        below,
                        #[trigger] inner@.value_under(answers, 0),
                    );
                let r = match below {
                    Ok(v) => Ok(op.eval(v)),
                    Err(e) => Err(e),
                };
                proof {
                    assert(came_to(r, expr@.value_under(answers, 0)));
                }
                r
            },
            Expr::Binary { op, lhs, rhs } => {
                let left = Self::eval_expr(&**lhs, ctx);
                let ghost first = choose|answers: Seq<Option<Value>>|
                    answers.len() == lhs@.leaves() && came_to(
                        left,
                        #[trigger] lhs@.value_under(answers, 0),
                    );
                match left {
                    Ok(l) => {
                        let right = Self::eval_expr(&**rhs, ctx);
                        let r = match right {
                            Ok(r) => Ok(op.eval(l, r)),
                            Err(e) => Err(e),
                        };
                        proof {
                            let second = choose|answers: Seq<Option<Value>>|
                                answers.len() == rhs@.leaves() && came_to(
                                    right,
                                    #[trigger] rhs@.value_under(answers, 0),
                                );
                            let answers = first + second;
                            let n = lhs@.leaves() as int;
                            assert(answers.subrange(0, n) =~= first.subrange(0, n));
                            assert(answers.subrange(n, n + rhs@.leaves()) =~= second.subrange(
                                0,
                                rhs@.leaves() as int,
                            ));
                            lemma_value_window(lhs@, answers, 0, first, 0);
                            lemma_value_window(rhs@, answers, n, second, 0);
                            assert(came_to(r, expr@.value_under(answers, 0)));
                        }
                        r
                    },
                    Err(e) => {
                        proof {
                            let second = Seq::new(rhs@.leaves(), |i: int| None::<Value>);
                            let answers = first + second;
                            let n = lhs@.leaves() as int;
                            assert(answers.subrange(0, n) =~= first.subrange(0, n));
                            lemma_value_window(lhs@, answers, 0, first, 0);
                            assert(came_to(
                                Err::<Value, ExpressionError>(e),
                                expr@.value_under(answers, 0),
                            ));
                        }
                        Err(e)
                    },
                }
            },
            Expr::Float(v) => {
                proof {
                    let answers = Seq::<Option<Value>>::empty();
                    assert(came_to(
                        Ok::<Value, ExpressionError>(*v),
                        expr@.value_under(answers, 0),
                    ));
                }
                Ok(*v)
            },
            Expr::Var(var) => match var {
                ExprVar::Rank => {
                    let v = ctx.rank();
                    proof {
                        let answers = seq![Some(v)];
                        assert(came_to(
                            Ok::<Value, ExpressionError>(v),
                            expr@.value_under(answers, 0),
                        ));
                    }
                    Ok(v)
                },
                ExprVar::Rand => {
                    let v = ctx.rand();
                    proof {
                        let answers = seq![Some(v)];
                        assert(came_to(
                            Ok::<Value, ExpressionError>(v),
                            expr@.value_under(answers, 0),
                        ));
                    }
                    Ok(v)
                },
                ExprVar::Named(name) => {
                    let found = ctx.get(name.as_str());
                    let r = resolved(name, found);
                    proof {
                        let answers = seq![found];
                        assert(came_to(r, expr@.value_under(answers, 0)));
                    }
                    r
                },
            },
        }
    }
}

} // verus!
