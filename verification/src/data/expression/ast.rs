//! The syntax tree of an expression, and its folding.

use crate::value::{
    difference_bits, divided_by, minus, modulo, plus, product_bits, quotient_bits,
    remainder_bits, sum_bits, times, Value,
};
use vstd::prelude::*;

verus! {

/// What a variable of an expression refers to.
#[derive(Debug, PartialEq, Eq)]
pub enum ExprVar {
    /// The difficulty of the game.
    Rank,
    /// A fresh random number.
    Rand,
    /// A variable of the script, by its name.
    Named(String),
}

/// An operation on one number.
#[derive(Debug, Clone, Copy, PartialEq, Eq, Structural)]
pub enum UnaryOp {
    Negate,
}

/// An operation on two numbers.
#[derive(Debug, Clone, Copy, PartialEq, Eq, Structural)]
pub enum BinaryOp {
    Add,
    Sub,
    Mul,
    Div,
    Mod,
}

/// What a unary operation makes of a number.
pub open spec fn unary_value(op: UnaryOp, v: Value) -> Value {
    match op {
        UnaryOp::Negate => v.spec_negated(),
    }
}

/// What a binary operation makes of two numbers.
pub open spec fn binary_value(op: BinaryOp, l: Value, r: Value) -> Value {
    match op {
        BinaryOp::Add => Value { bits: sum_bits(l.bits, r.bits) },
        BinaryOp::Sub => Value { bits: difference_bits(l.bits, r.bits) },
        BinaryOp::Mul => Value { bits: product_bits(l.bits, r.bits) },
        BinaryOp::Div => Value { bits: quotient_bits(l.bits, r.bits) },
        BinaryOp::Mod => Value { bits: remainder_bits(l.bits, r.bits) },
    }
}

impl UnaryOp {
    /// Applies the operation.
    pub fn eval(self, v: Value) -> (r: Value)
        ensures
            r == unary_value(self, v),
    {
        match self {
            UnaryOp::Negate => v.negated(),
        }
    }
}

impl BinaryOp {
    /// Applies the operation. Division and remainder by zero follow IEEE 754
    /// and are no errors.
    pub fn eval(self, l: Value, r: Value) -> (v: Value)
        ensures
            v == binary_value(self, l, r),
    {
        match self {
            BinaryOp::Add => plus(l, r),
            BinaryOp::Sub => minus(l, r),
            BinaryOp::Mul => times(l, r),
            BinaryOp::Div => divided_by(l, r),
            BinaryOp::Mod => modulo(l, r),
        }
    }
}

/// The mathematical value of an [`Expr`]: the same tree, with names as
/// sequences of characters.
pub enum Formula {
    Number(Value),
    Rank,
    Rand,
    Named(Seq<char>),
    Unary(UnaryOp, Box<Formula>),
    Binary(BinaryOp, Box<Formula>, Box<Formula>),
}

impl Formula {
    /// Whether the formula refers to no variable at all.
    pub open spec fn is_constant(self) -> bool
        decreases self,
    {
        match self {
            Formula::Number(_) => true,
            Formula::Unary(_, e) => e.is_constant(),
            Formula::Binary(_, l, r) => l.is_constant() && r.is_constant(),
            _ => false,
        }
    }

    /// Whether the formula refers to a variable of the script by name.
    pub open spec fn has_names(self) -> bool
        decreases self,
    {
        match self {
            Formula::Named(_) => true,
            Formula::Unary(_, e) => e.has_names(),
            Formula::Binary(_, l, r) => l.has_names() || r.has_names(),
            _ => false,
        }
    }

    /// Whether the formula refers to the variable called `name`.
    pub open spec fn mentions(self, name: Seq<char>) -> bool
        decreases self,
    {
        match self {
            Formula::Named(n) => n == name,
            Formula::Unary(_, e) => e.mentions(name),
            Formula::Binary(_, l, r) => l.mentions(name) || r.mentions(name),
            _ => false,
        }
    }

    /// The value of a formula without variables.
    pub open spec fn constant(self) -> Value
        recommends
            self.is_constant(),
        decreases self,
    {
        match self {
            Formula::Number(v) => v,
            Formula::Unary(op, e) => unary_value(op, e.constant()),
            Formula::Binary(op, l, r) => binary_value(op, l.constant(), r.constant()),
            _ => Value { bits: 0 },
        }
    }

    /// The number of places at which the formula refers to a variable.
    pub open spec fn leaves(self) -> nat
        decreases self,
    {
        match self {
            Formula::Number(_) => 0,
            Formula::Unary(_, e) => e.leaves(),
            Formula::Binary(_, l, r) => l.leaves() + r.leaves(),
            _ => 1,
        }
    }

    /// What the formula comes to when the context answers as `answers` say:
    /// one answer for each place at which the formula refers to a variable,
    /// from left to right, the first of them the `from`-th of `answers`. An
    /// answer is the number that the variable has, or nothing for a name that
    /// the context does not know; the difficulty and a random draw always
    /// have a number. The left side of an operation is worked out before the
    /// right, and the first name that is not known is what comes of the
    /// whole.
    pub open spec fn value_under(self, answers: Seq<Option<Value>>, from: int) -> Result<
        Value,
        Seq<char>,
    >
        decreases self,
    {
        match self {
            Formula::Number(v) => Ok(v),
            Formula::Rank | Formula::Rand => Ok(
                match answers[from] {
                    Some(v) => v,
                    None => Value { bits: 0 },
                },
            ),
            Formula::Named(name) => match answers[from] {
                Some(v) => Ok(v),
                None => Err(name),
            },
            Formula::Unary(op, e) => match e.value_under(answers, from) {
                Ok(v) => Ok(unary_value(op, v)),
                Err(name) => Err(name),
            },
            Formula::Binary(op, l, r) => match l.value_under(answers, from) {
                Ok(a) => match r.value_under(answers, from + l.leaves()) {
                    Ok(b) => Ok(binary_value(op, a, b)),
                    Err(name) => Err(name),
                },
                Err(name) => Err(name),
            },
        }
    }

    /// Whether `v` can be what the formula comes to: its value under some
    /// answers of a context that knows every variable it is asked for.
    pub open spec fn may_give(self, v: Value) -> bool {
        exists|answers: Seq<Option<Value>>|
            answers.len() == self.leaves() && #[trigger] self.value_under(answers, 0) == Ok::<
                Value,
                Seq<char>,
            >(v)
    }

    /// The variables that the formula refers to, place by place from left to
    /// right.
    pub open spec fn variables(self) -> Seq<Formula>
        decreases self,
    {
        match self {
            Formula::Number(_) => Seq::empty(),
            Formula::Unary(_, e) => e.variables(),
            Formula::Binary(_, l, r) => l.variables() + r.variables(),
            _ => seq![self],
        }
    }

    /// The number of nodes of the formula.
    pub open spec fn size(self) -> nat
        decreases self,
    {
        match self {
            Formula::Unary(_, e) => 1 + e.size(),
            Formula::Binary(_, l, r) => 1 + l.size() + r.size(),
            _ => 1,
        }
    }

    /// The formula with every part that refers to no variable replaced by the
    /// number it stands for.
    pub open spec fn folded(self) -> Formula
        decreases self,
    {
        match self {
            Formula::Unary(op, e) => match e.folded() {
                Formula::Number(v) => Formula::Number(unary_value(op, v)),
                ne => Formula::Unary(op, Box::new(ne)),
            },
            Formula::Binary(op, l, r) => match (l.folded(), r.folded()) {
                (Formula::Number(lv), Formula::Number(rv)) => Formula::Number(
                    binary_value(op, lv, rv),
                ),
                (nl, nr) => Formula::Binary(op, Box::new(nl), Box::new(nr)),
            },
            _ => self,
        }
    }

    /// Whether no part of the formula is an operation on numbers alone.
    pub open spec fn is_folded(self) -> bool
        decreases self,
    {
        match self {
            Formula::Unary(_, e) => e.is_folded() && !(*e is Number),
            Formula::Binary(_, l, r) => l.is_folded() && r.is_folded() && !(*l is Number
                && *r is Number),
            _ => true,
        }
    }
}

/// A formula without variables folds to one number: its value.
pub proof fn lemma_fold_constant(f: Formula)
    requires
        f.is_constant(),
    ensures
        f.folded() == Formula::Number(f.constant()),
    decreases f,
{
    match f {
        Formula::Unary(_, e) => {
            lemma_fold_constant(*e);
        },
        Formula::Binary(_, l, r) => {
            lemma_fold_constant(*l);
            lemma_fold_constant(*r);
        },
        _ => {},
    }
}

/// What a formula comes to depends on the answers for its own variables and
/// on no others.
pub proof fn lemma_value_window(
    f: Formula,
    first: Seq<Option<Value>>,
    from: int,
    second: Seq<Option<Value>>,
    at: int,
)
    requires
        0 <= from,
        from + f.leaves() <= first.len(),
        0 <= at,
        at + f.leaves() <= second.len(),
        first.subrange(from, from + f.leaves()) == second.subrange(at, at + f.leaves()),
    ensures
        f.value_under(first, from) == f.value_under(second, at),
    decreases f,
{
    let mine = first.subrange(from, from + f.leaves());
    let yours = second.subrange(at, at + f.leaves());
    match f {
        Formula::Unary(_, e) => {
            lemma_value_window(*e, first, from, second, at);
        },
        Formula::Binary(_, l, r) => {
            let n = l.leaves() as int;
            let m = r.leaves() as int;
            assert(first.subrange(from, from + n) =~= mine.subrange(0, n));
            assert(second.subrange(at, at + n) =~= yours.subrange(0, n));
            assert(first.subrange(from + n, from + n + m) =~= mine.subrange(n, n + m));
            assert(second.subrange(at + n, at + n + m) =~= yours.subrange(n, n + m));
            lemma_value_window(*l, first, from, second, at);
            lemma_value_window(*r, first, from + n, second, at + n);
        },
        Formula::Number(_) => {},
        _ => {
            assert(mine[0] == first[from]);
            assert(yours[0] == second[at]);
        },
    }
}

/// A formula without variables refers to none by name.
pub proof fn lemma_constant_without_names(f: Formula)
    requires
        f.is_constant(),
    ensures
        !f.has_names(),
    decreases f,
{
    match f {
        Formula::Unary(_, e) => {
            lemma_constant_without_names(*e);
        },
        Formula::Binary(_, l, r) => {
            lemma_constant_without_names(*l);
            lemma_constant_without_names(*r);
        },
        _ => {},
    }
}

/// A formula without variables comes to its value, whatever the answers.
pub proof fn lemma_constant_value(f: Formula, answers: Seq<Option<Value>>, from: int)
    requires
        f.is_constant(),
    ensures
        f.leaves() == 0,
        f.value_under(answers, from) == Ok::<Value, Seq<char>>(f.constant()),
    decreases f,
{
    match f {
        Formula::Unary(_, e) => {
            lemma_constant_value(*e, answers, from);
        },
        Formula::Binary(_, l, r) => {
            lemma_constant_value(*l, answers, from);
            lemma_constant_value(*r, answers, from);
        },
        _ => {},
    }
}

/// A formula comes to a value where the context knows every variable that
/// it is asked for.
pub proof fn lemma_known_answers(f: Formula, answers: Seq<Option<Value>>, from: int)
    requires
        0 <= from,
        from + f.leaves() <= answers.len(),
        forall|i: int| from <= i < from + f.leaves() ==> (#[trigger] answers[i]) is Some,
    ensures
        f.value_under(answers, from) is Ok,
    decreases f,
{
    match f {
        Formula::Unary(_, e) => {
            lemma_known_answers(*e, answers, from);
        },
        Formula::Binary(_, l, r) => {
            lemma_known_answers(*l, answers, from);
            lemma_known_answers(*r, answers, from + l.leaves());
        },
        _ => {},
    }
}

/// Every formula can come to some value.
pub proof fn lemma_gives_something(f: Formula)
    ensures
        exists|v: Value| f.may_give(v),
{
    let answers = Seq::new(f.leaves(), |i: int| Some(Value { bits: 0 }));
    lemma_known_answers(f, answers, 0);
    let v = f.value_under(answers, 0)->Ok_0;
    assert(f.may_give(v));
}

/// A formula without variables comes to its value and to nothing else.
pub proof fn lemma_constant_gives(f: Formula, v: Value)
    requires
        f.is_constant(),
    ensures
        f.may_give(v) <==> v == f.constant(),
{
    if f.may_give(v) {
        let answers = choose|answers: Seq<Option<Value>>|
            answers.len() == f.leaves() && #[trigger] f.value_under(answers, 0) == Ok::<
                Value,
                Seq<char>,
            >(v);
        lemma_constant_value(f, answers, 0);
    }
    if v == f.constant() {
        let none = Seq::<Option<Value>>::empty();
        lemma_constant_value(f, none, 0);
        assert(f.value_under(none, 0) == Ok::<Value, Seq<char>>(v));
    }
}

/// Folding keeps what a formula comes to under every answer of the context,
/// and keeps the places at which it refers to variables.
pub proof fn lemma_fold_keeps_value(f: Formula, answers: Seq<Option<Value>>, from: int)
    ensures
        f.folded().leaves() == f.leaves(),
        f.folded().value_under(answers, from) == f.value_under(answers, from),
    decreases f,
{
    match f {
        Formula::Unary(_, e) => {
            lemma_fold_keeps_value(*e, answers, from);
        },
        Formula::Binary(_, l, r) => {
            lemma_fold_keeps_value(*l, answers, from);
            lemma_fold_keeps_value(*r, answers, from + l.leaves());
        },
        _ => {},
    }
}

/// Folding keeps the variables of a formula, in their order, and adds no
/// node to it.
pub proof fn lemma_fold_keeps_variables(f: Formula)
    ensures
        f.folded().variables() == f.variables(),
        f.folded().size() <= f.size(),
    decreases f,
{
    match f {
        Formula::Unary(_, e) => {
            lemma_fold_keeps_variables(*e);
        },
        Formula::Binary(_, l, r) => {
            lemma_fold_keeps_variables(*l);
            lemma_fold_keeps_variables(*r);
            assert(Seq::<Formula>::empty() + Seq::<Formula>::empty() =~= Seq::<Formula>::empty());
        },
        _ => {},
    }
}

/// A name that comes of a formula in place of a number is one that the
/// formula refers to.
pub proof fn lemma_unknown_is_mentioned(f: Formula, answers: Seq<Option<Value>>, from: int)
    ensures
        f.value_under(answers, from) matches Err(name) ==> f.mentions(name) && f.has_names(),
    decreases f,
{
    match f {
        Formula::Unary(_, e) => {
            lemma_unknown_is_mentioned(*e, answers, from);
        },
        Formula::Binary(_, l, r) => {
            lemma_unknown_is_mentioned(*l, answers, from);
            lemma_unknown_is_mentioned(*r, answers, from + l.leaves());
        },
        _ => {},
    }
}

/// Folding leaves nothing to fold, and keeps the variables and, where there
/// are none, the value.
pub proof fn lemma_fold_sound(f: Formula)
    ensures
        f.folded().is_folded(),
        f.folded().is_constant() == f.is_constant(),
        f.folded().has_names() == f.has_names(),
        f.is_constant() ==> f.folded().constant() == f.constant(),
        f.folded() is Number <==> f.is_constant(),
    decreases f,
{
    match f {
        Formula::Unary(_, e) => {
            lemma_fold_sound(*e);
        },
        Formula::Binary(_, l, r) => {
            lemma_fold_sound(*l);
            lemma_fold_sound(*r);
        },
        _ => {},
    }
}

/// Folding keeps every name that the formula refers to, and adds none.
pub proof fn lemma_fold_mentions(f: Formula, name: Seq<char>)
    ensures
        f.folded().mentions(name) == f.mentions(name),
    decreases f,
{
    match f {
        Formula::Unary(_, e) => {
            lemma_fold_mentions(*e, name);
        },
        Formula::Binary(_, l, r) => {
            lemma_fold_mentions(*l, name);
            lemma_fold_mentions(*r, name);
        },
        _ => {},
    }
}

/// Folding what is folded changes nothing.
pub proof fn lemma_fold_twice(f: Formula)
    ensures
        f.folded().folded() == f.folded(),
    decreases f,
{
    match f {
        Formula::Unary(_, e) => {
            lemma_fold_twice(*e);
        },
        Formula::Binary(_, l, r) => {
            lemma_fold_twice(*l);
            lemma_fold_twice(*r);
        },
        _ => {},
    }
}

/// A tree of operations over numbers and variables.
#[derive(Debug)]
pub enum Expr {
    Unary { op: UnaryOp, expr: Box<Expr> },
    Binary { op: BinaryOp, lhs: Box<Expr>, rhs: Box<Expr> },
    Float(Value),
    Var(ExprVar),
}

impl ExprVar {
    /// The formula that the variable stands for.
    pub open spec fn formula(self) -> Formula {
        match self {
            ExprVar::Rank => Formula::Rank,
            ExprVar::Rand => Formula::Rand,
            ExprVar::Named(name) => Formula::Named(name@),
        }
    }

    /// A copy of the variable.
    pub fn clone(&self) -> (r: Self)
        ensures
            r == *self,
    {
        match self {
            ExprVar::Rank => ExprVar::Rank,
            ExprVar::Rand => ExprVar::Rand,
            ExprVar::Named(name) => ExprVar::Named(name.clone()),
        }
    }
}

impl Expr {
    /// The formula that the tree stands for.
    pub open spec fn formula(self) -> Formula
        decreases self,
    {
        match self {
            Expr::Unary { op, expr } => Formula::Unary(op, Box::new(expr.formula())),
            Expr::Binary { op, lhs, rhs } => Formula::Binary(
                op,
                Box::new(lhs.formula()),
                Box::new(rhs.formula()),
            ),
            Expr::Float(v) => Formula::Number(v),
            Expr::Var(var) => var.formula(),
        }
    }
}

impl View for Expr {
    type V = Formula;

    open spec fn view(&self) -> Formula {
        self.formula()
    }
}

impl Expr {
    /// The operation `op` on two trees.
    pub fn binary(op: BinaryOp, lhs: Expr, rhs: Expr) -> (r: Self)
        ensures
            r == (Expr::Binary { op, lhs: Box::new(lhs), rhs: Box::new(rhs) }),
            r@ == Formula::Binary(op, Box::new(lhs@), Box::new(rhs@)),
    {
        Expr::Binary { op, lhs: Box::new(lhs), rhs: Box::new(rhs) }
    }

    /// The operation `op` on one tree.
    pub fn unary(op: UnaryOp, expr: Expr) -> (r: Self)
        ensures
            r == (Expr::Unary { op, expr: Box::new(expr) }),
            r@ == Formula::Unary(op, Box::new(expr@)),
    {
        Expr::Unary { op, expr: Box::new(expr) }
    }

    /// The number, where the tree is a number and nothing else.
    pub fn constant_value(&self) -> (v: Option<Value>)
        ensures
            v == (match self@ {
                Formula::Number(n) => Some(n),
                _ => None,
            }),
    {
        match self {
            Expr::Float(v) => Some(*v),
            Expr::Var(var) => {
                assert(!(var.formula() is Number));
                None
            },
            _ => None,
        }
    }

    /// Replaces every part of the tree that refers to no variable by the
    /// number it stands for.
    pub fn constant_fold(self) -> (r: Self)
        ensures
            r@ == self@.folded(),
        decreases self,
    {
        match self {
            Expr::Unary { op, expr } => {
                let inner: Expr = *expr;
                let ne = inner.constant_fold();
                match ne.constant_value() {
                    Some(v) => Expr::Float(op.eval(v)),
                    None => Expr::unary(op, ne),
                }
            },
            Expr::Binary { op, lhs, rhs } => {
                let left: Expr = *lhs;
                let right: Expr = *rhs;
                let nl = left.constant_fold();
                let nr = right.constant_fold();
                match (nl.constant_value(), nr.constant_value()) {
                    (Some(l), Some(r)) => Expr::Float(op.eval(l, r)),
                    _ => Expr::binary(op, nl, nr),
                }
            },
            e => {
                assert(e@.folded() == e@) by {
                    match e {
                        Expr::Var(var) => {
                            assert(var.formula().folded() == var.formula());
                        },
                        _ => {},
                    }
                }
                e
            },
        }
    }

    /// A copy of the tree.
    pub fn clone(&self) -> (r: Self)
        ensures
            r == *self,
        decreases self,
    {
        match self {
            Expr::Unary { op, expr } => Expr::Unary { op: *op, expr: Box::new(Expr::clone(&**expr)) },
            Expr::Binary { op, lhs, rhs } => Expr::Binary {
                op: *op,
                lhs: Box::new(Expr::clone(&**lhs)),
                rhs: Box::new(Expr::clone(&**rhs)),
            },
            Expr::Float(v) => Expr::Float(*v),
            Expr::Var(var) => Expr::Var(var.clone()),
        }
    }
}

} // verus!
