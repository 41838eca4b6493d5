//! The program tree that the pass annotates, and its mathematical view.

use vstd::prelude::*;
use crate::lattice::ScalarType;

verus! {

/// Comparison and matching operators.
#[derive(Clone, Copy, Debug, PartialEq, Eq, Structural)]
pub enum BinOp {
    Greater,
    GreaterEq,
    EqEq,
    BangEq,
    Less,
    LessEq,
    MatchedBy,
    NotMatchedBy,
}

/// Arithmetic operators.
#[derive(Clone, Copy, Debug, PartialEq, Eq, Structural)]
pub enum MathOp {
    Minus,
    Plus,
    Slash,
    Star,
    Modulus,
    Exponent,
}

/// Short-circuit logical operators.
#[derive(Clone, Copy, Debug, PartialEq, Eq, Structural)]
pub enum LogicalOp {
    And,
    Or,
}

/// An expression together with its scalar-type annotation. Before the pass
/// the annotation is a placeholder, by convention `Variable`.
#[derive(Debug, PartialEq)]
pub struct TypedExpr {
    pub typ: ScalarType,
    pub expr: Expr,
}

/// The closed set of expression forms.
#[derive(Debug, PartialEq)]
pub enum Expr {
    /// `name = value`
    ScalarAssign(String, Box<TypedExpr>),
    /// A numeric literal, held as the bits of its IEEE-754 double.
    NumberF64(u64),
    /// A string literal.
    String(String),
    /// A pattern literal.
    Regex(String),
    /// Operands joined left to right into one string.
    Concatenation(Vec<TypedExpr>),
    BinOp(Box<TypedExpr>, BinOp, Box<TypedExpr>),
    MathOp(Box<TypedExpr>, MathOp, Box<TypedExpr>),
    LogicalOp(Box<TypedExpr>, LogicalOp, Box<TypedExpr>),
    /// A bare variable reference.
    Variable(String),
    /// `$index`
    Column(Box<TypedExpr>),
    /// A function call.
    Call,
    /// `condition ? first : second`
    Ternary(Box<TypedExpr>, Box<TypedExpr>, Box<TypedExpr>),
    /// `name[indices]`
    ArrayIndex { name: String, indices: Vec<TypedExpr> },
    /// `(indices) in name`
    InArray { name: String, indices: Vec<TypedExpr> },
    /// `name[indices] = value`
    ArrayAssign { name: String, indices: Vec<TypedExpr>, value: Box<TypedExpr> },
}

/// The closed set of statement forms.
#[derive(Debug, PartialEq)]
pub enum Stmt {
    /// A bare expression.
    Expr(TypedExpr),
    Print(TypedExpr),
    /// Statements in textual order.
    Group(Vec<Stmt>),
    /// `if (test) then`, with or without `else`.
    If(TypedExpr, Box<Stmt>, Option<Box<Stmt>>),
    /// A loop that tests before each round.
    While(TypedExpr, Box<Stmt>),
    /// `printf fstring, args`.
    Printf { args: Vec<TypedExpr>, fstring: TypedExpr },
    Break,
}

/// A block of code with a name.
#[derive(Debug, PartialEq)]
pub struct Function {
    pub name: String,
    pub body: Stmt,
}

/// A whole program: its entry block.
#[derive(Debug, PartialEq)]
pub struct Program {
    pub main: Function,
}

/// What a `TypedExpr` is, as a mathematical value.
pub ghost struct TypedExprView {
    pub typ: ScalarType,
    pub expr: ExprView,
}

/// What an `Expr` is, as a mathematical value.
pub ghost enum ExprView {
    ScalarAssign(Seq<char>, Box<TypedExprView>),
    NumberF64(u64),
    String(Seq<char>),
    Regex(Seq<char>),
    Concatenation(Seq<TypedExprView>),
    BinOp(Box<TypedExprView>, BinOp, Box<TypedExprView>),
    MathOp(Box<TypedExprView>, MathOp, Box<TypedExprView>),
    LogicalOp(Box<TypedExprView>, LogicalOp, Box<TypedExprView>),
    Variable(Seq<char>),
    Column(Box<TypedExprView>),
    Call,
    Ternary(Box<TypedExprView>, Box<TypedExprView>, Box<TypedExprView>),
    ArrayIndex { name: Seq<char>, indices: Seq<TypedExprView> },
    InArray { name: Seq<char>, indices: Seq<TypedExprView> },
    ArrayAssign { name: Seq<char>, indices: Seq<TypedExprView>, value: Box<TypedExprView> },
}

/// What a `Stmt` is, as a mathematical value.
pub ghost enum StmtView {
    Expr(TypedExprView),
    Print(TypedExprView),
    Group(Seq<StmtView>),
    If(TypedExprView, Box<StmtView>, Option<Box<StmtView>>),
    While(TypedExprView, Box<StmtView>),
    Printf { args: Seq<TypedExprView>, fstring: TypedExprView },
    Break,
}

/// What a `Program` is, as a mathematical value.
pub ghost struct ProgramView {
    pub name: Seq<char>,
    pub body: StmtView,
}

/// The mathematical value of an expression tree.
pub open spec fn expr_view(e: TypedExpr) -> TypedExprView
    decreases e,
{
    TypedExprView {
        typ: e.typ,
        expr: match e.expr {
            Expr::ScalarAssign(name, value) => ExprView::ScalarAssign(
                name@,
                Box::new(expr_view(*value)),
            ),
            Expr::NumberF64(bits) => ExprView::NumberF64(bits),
            Expr::String(text) => ExprView::String(text@),
            Expr::Regex(text) => ExprView::Regex(text@),
            Expr::Concatenation(parts) => ExprView::Concatenation(exprs_view(parts@)),
            Expr::BinOp(left, op, right) => ExprView::BinOp(
                Box::new(expr_view(*left)),
                op,
                Box::new(expr_view(*right)),
            ),
            Expr::MathOp(left, op, right) => ExprView::MathOp(
                Box::new(expr_view(*left)),
                op,
                Box::new(expr_view(*right)),
            ),
            Expr::LogicalOp(left, op, right) => ExprView::LogicalOp(
                Box::new(expr_view(*left)),
                op,
                Box::new(expr_view(*right)),
            ),
            Expr::Variable(name) => ExprView::Variable(name@),
            Expr::Column(index) => ExprView::Column(Box::new(expr_view(*index))),
            Expr::Call => ExprView::Call,
            Expr::Ternary(cond, first, second) => ExprView::Ternary(
                Box::new(expr_view(*cond)),
                Box::new(expr_view(*first)),
                Box::new(expr_view(*second)),
            ),
            Expr::ArrayIndex { name, indices } => ExprView::ArrayIndex {
                name: name@,
                indices: exprs_view(indices@),
            },
            Expr::InArray { name, indices } => ExprView::InArray {
                name: name@,
                indices: exprs_view(indices@),
            },
            Expr::ArrayAssign { name, indices, value } => ExprView::ArrayAssign {
                name: name@,
                indices: exprs_view(indices@),
                value: Box::new(expr_view(*value)),
            },
        },
    }
}

/// The views of a list of expressions, in order.
pub open spec fn exprs_view(es: Seq<TypedExpr>) -> Seq<TypedExprView>
    decreases es,
{
    Seq::new(
        es.len(),
        |i: int|
            if 0 <= i < es.len() {
                expr_view(es[i])
            } else {
                arbitrary()
            },
    )
}

/// The mathematical value of a statement tree.
pub open spec fn stmt_view(s: Stmt) -> StmtView
    decreases s,
{
    match s {
        Stmt::Expr(e) => StmtView::Expr(expr_view(e)),
        Stmt::Print(e) => StmtView::Print(expr_view(e)),
        Stmt::Group(body) => StmtView::Group(stmts_view(body@)),
        Stmt::If(test, then, otherwise) => StmtView::If(
            expr_view(test),
            Box::new(stmt_view(*then)),
            match otherwise {
                Some(branch) => Some(Box::new(stmt_view(*branch))),
                None => None,
            },
        ),
        Stmt::While(test, body) => StmtView::While(expr_view(test), Box::new(stmt_view(*body))),
        Stmt::Printf { args, fstring } => StmtView::Printf {
            args: exprs_view(args@),
            fstring: expr_view(fstring),
        },
        Stmt::Break => StmtView::Break,
    }
}

/// The views of a list of statements, in order.
pub open spec fn stmts_view(ss: Seq<Stmt>) -> Seq<StmtView>
    decreases ss,
{
    Seq::new(
        ss.len(),
        |i: int|
            if 0 <= i < ss.len() {
                stmt_view(ss[i])
            } else {
                arbitrary()
            },
    )
}

impl View for TypedExpr {
    type V = TypedExprView;

    open spec fn view(&self) -> TypedExprView {
        expr_view(*self)
    }
}

impl View for Stmt {
    type V = StmtView;

    open spec fn view(&self) -> StmtView {
        stmt_view(*self)
    }
}

impl View for Program {
    type V = ProgramView;

    open spec fn view(&self) -> ProgramView {
        ProgramView { name: self.main.name@, body: stmt_view(self.main.body) }
    }
}

} // verus!
