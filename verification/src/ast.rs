//! The abstract syntax tree shared by the parser and the evaluator, together
//! with its mathematical model: each tree type has a view type in which text
//! is a `Seq<char>` and statement blocks are `Seq`s, so that contracts can
//! speak about programs without mentioning heap-allocated values.

use vstd::prelude::*;

verus! {

/// A binary operator, spelled as a word (or word pair) in source text.
#[derive(Debug, Clone, Copy, PartialEq, Eq, Structural)]
pub enum Operator {
    Add,
    Subtract,
    Multiply,
    Divide,
    Equals,
    GreaterThan,
    LessThan,
}

/// An atomic value-producing leaf of an expression.
#[derive(Debug)]
pub enum Term {
    Number(i64),
    StringLiteral(String),
    Variable(String),
}

/// A binary expression tree; built bottom-up by the parser and never mutated.
#[derive(Debug)]
pub enum Expression {
    Term(Term),
    Operation { left: Box<Expression>, operator: Operator, right: Box<Expression> },
}

/// One executable unit of a program. `else_branch` is empty, never absent,
/// when a conditional has no "annars" clause.
#[derive(Debug)]
pub enum Statement {
    Assignment { variable: Term, expression: Expression },
    Print { expression: Expression },
    If { condition: Expression, then_branch: Vec<Statement>, else_branch: Vec<Statement> },
}

/// Mathematical model of a [`Term`].
pub enum TermView {
    Number(i64),
    StringLiteral(Seq<char>),
    Variable(Seq<char>),
}

/// Mathematical model of an [`Expression`].
pub enum ExpressionView {
    Term(TermView),
    Operation { left: Box<ExpressionView>, operator: Operator, right: Box<ExpressionView> },
}

/// Mathematical model of a [`Statement`].
pub enum StatementView {
    Assignment { variable: TermView, expression: ExpressionView },
    Print { expression: ExpressionView },
    If { condition: ExpressionView, then_branch: Seq<StatementView>, else_branch: Seq<StatementView> },
}

pub open spec fn term_deep(t: Term) -> TermView {
    match t {
        Term::Number(n) => TermView::Number(n),
        Term::StringLiteral(s) => TermView::StringLiteral(s@),
        Term::Variable(s) => TermView::Variable(s@),
    }
}

pub open spec fn expr_deep(e: Expression) -> ExpressionView
    decreases e,
{
    match e {
        Expression::Term(t) => ExpressionView::Term(term_deep(t)),
        Expression::Operation { left, operator, right } => ExpressionView::Operation {
            left: Box::new(expr_deep(*left)),
            operator,
            right: Box::new(expr_deep(*right)),
        },
    }
}

pub open spec fn stmt_deep(s: Statement) -> StatementView
    decreases s,
{
    match s {
        Statement::Assignment { variable, expression } => StatementView::Assignment {
            variable: term_deep(variable),
            expression: expr_deep(expression),
        },
        Statement::Print { expression } => StatementView::Print {
            expression: expr_deep(expression),
        },
        Statement::If { condition, then_branch, else_branch } => StatementView::If {
            condition: expr_deep(condition),
            then_branch: stmts_deep(then_branch@),
            else_branch: stmts_deep(else_branch@),
        },
    }
}

pub open spec fn stmts_deep(ss: Seq<Statement>) -> Seq<StatementView>
    decreases ss,
{
    if ss.len() == 0 {
        Seq::empty()
    } else {
        seq![stmt_deep(ss[0])] + stmts_deep(ss.subrange(1, ss.len() as int))
    }
}

/// `stmts_deep` is the element-wise image of `stmt_deep`.
pub proof fn lemma_stmts_deep(ss: Seq<Statement>)
    ensures
        stmts_deep(ss).len() == ss.len(),
        forall|i: int| 0 <= i < ss.len() ==> stmts_deep(ss)[i] == stmt_deep(ss[i]),
    decreases ss.len(),
{
    if ss.len() > 0 {
        lemma_stmts_deep(ss.subrange(1, ss.len() as int));
    }
}

impl View for Term {
    type V = TermView;

    open spec fn view(&self) -> TermView {
        term_deep(*self)
    }
}

impl View for Expression {
    type V = ExpressionView;

    open spec fn view(&self) -> ExpressionView {
        expr_deep(*self)
    }
}

impl View for Statement {
    type V = StatementView;

    open spec fn view(&self) -> StatementView {
        stmt_deep(*self)
    }
}

} // verus!
