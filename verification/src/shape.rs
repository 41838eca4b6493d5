//! What the pass leaves alone: the shape of a tree, and its size.

use vstd::prelude::*;
use crate::ast::{ExprView, ProgramView, StmtView, TypedExprView};
use crate::lattice::ScalarType;
use crate::model::{
    expr_pass, exprs_pass, mark_array, rejoin, second_arm, stmt_pass, stmts_pass, TypeState,
};

verus! {

/// `e` with every annotation that the pass writes reset to `Variable`. The
/// annotations of array reads, membership tests and array assignments stay:
/// the pass does not write them.
pub open spec fn expr_skeleton(e: TypedExprView) -> TypedExprView
    decreases e,
{
    match e.expr {
        ExprView::NumberF64(_) => TypedExprView { typ: ScalarType::Variable, expr: e.expr },
        ExprView::Call => TypedExprView { typ: ScalarType::Variable, expr: e.expr },
        ExprView::String(_) => TypedExprView { typ: ScalarType::Variable, expr: e.expr },
        ExprView::Regex(_) => TypedExprView { typ: ScalarType::Variable, expr: e.expr },
        ExprView::Variable(_) => TypedExprView { typ: ScalarType::Variable, expr: e.expr },
        ExprView::BinOp(left, op, right) => TypedExprView {
            typ: ScalarType::Variable,
            expr: ExprView::BinOp(
                Box::new(expr_skeleton(*left)),
                op,
                Box::new(expr_skeleton(*right)),
            ),
        },
        ExprView::MathOp(left, op, right) => TypedExprView {
            typ: ScalarType::Variable,
            expr: ExprView::MathOp(
                Box::new(expr_skeleton(*left)),
                op,
                Box::new(expr_skeleton(*right)),
            ),
        },
        ExprView::LogicalOp(left, op, right) => TypedExprView {
            typ: ScalarType::Variable,
            expr: ExprView::LogicalOp(
                Box::new(expr_skeleton(*left)),
                op,
                Box::new(expr_skeleton(*right)),
            ),
        },
        ExprView::ScalarAssign(name, value) => TypedExprView {
            typ: ScalarType::Variable,
            expr: ExprView::ScalarAssign(name, Box::new(expr_skeleton(*value))),
        },
        ExprView::Ternary(cond, first, second) => TypedExprView {
            typ: ScalarType::Variable,
            expr: ExprView::Ternary(
                Box::new(expr_skeleton(*cond)),
                Box::new(expr_skeleton(*first)),
                Box::new(expr_skeleton(*second)),
            ),
        },
        ExprView::Column(index) => TypedExprView {
            typ: ScalarType::Variable,
            expr: ExprView::Column(Box::new(expr_skeleton(*index))),
        },
        ExprView::Concatenation(parts) => TypedExprView {
            typ: ScalarType::Variable,
            expr: ExprView::Concatenation(exprs_skeleton(parts)),
        },
        ExprView::ArrayIndex { name, indices } => TypedExprView {
            typ: e.typ,
            expr: ExprView::ArrayIndex { name, indices: exprs_skeleton(indices) },
        },
        ExprView::InArray { name, indices } => TypedExprView {
            typ: e.typ,
            expr: ExprView::InArray { name, indices: exprs_skeleton(indices) },
        },
        ExprView::ArrayAssign { name, indices, value } => TypedExprView {
            typ: e.typ,
            expr: ExprView::ArrayAssign {
                name,
                indices: exprs_skeleton(indices),
                value: Box::new(expr_skeleton(*value)),
            },
        },
    }
}

/// The skeletons of a list of expressions.
pub open spec fn exprs_skeleton(es: Seq<TypedExprView>) -> Seq<TypedExprView>
    decreases es,
{
    Seq::new(
        es.len(),
        |i: int|
            if 0 <= i < es.len() {
                expr_skeleton(es[i])
            } else {
                arbitrary()
            },
    )
}

/// `s` with every annotation that the pass writes reset.
pub open spec fn stmt_skeleton(s: StmtView) -> StmtView
    decreases s,
{
    match s {
        StmtView::Break => s,
        StmtView::Expr(e) => StmtView::Expr(expr_skeleton(e)),
        StmtView::Print(e) => StmtView::Print(expr_skeleton(e)),
        StmtView::Printf { args, fstring } => StmtView::Printf {
            args: exprs_skeleton(args),
            fstring: expr_skeleton(fstring),
        },
        StmtView::Group(body) => StmtView::Group(stmts_skeleton(body)),
        StmtView::If(test, then, otherwise) => StmtView::If(
            expr_skeleton(test),
            Box::new(stmt_skeleton(*then)),
            match otherwise {
                Some(branch) => Some(Box::new(stmt_skeleton(*branch))),
                None => None,
            },
        ),
        StmtView::While(test, body) => StmtView::While(
            expr_skeleton(test),
            Box::new(stmt_skeleton(*body)),
        ),
    }
}

/// The skeletons of a list of statements.
pub open spec fn stmts_skeleton(ss: Seq<StmtView>) -> Seq<StmtView>
    decreases ss,
{
    Seq::new(
        ss.len(),
        |i: int|
            if 0 <= i < ss.len() {
                stmt_skeleton(ss[i])
            } else {
                arbitrary()
            },
    )
}

/// The skeleton of a program: that of its entry block.
pub open spec fn program_skeleton(p: ProgramView) -> ProgramView {
    ProgramView { name: p.name, body: stmt_skeleton(p.body) }
}

/// The number of expression nodes in `e`.
pub open spec fn expr_size(e: TypedExprView) -> nat
    decreases e,
{
    match e.expr {
        ExprView::NumberF64(_) => 1,
        ExprView::Call => 1,
        ExprView::String(_) => 1,
        ExprView::Regex(_) => 1,
        ExprView::Variable(_) => 1,
        ExprView::BinOp(left, _, right) => 1 + expr_size(*left) + expr_size(*right),
        ExprView::MathOp(left, _, right) => 1 + expr_size(*left) + expr_size(*right),
        ExprView::LogicalOp(left, _, right) => 1 + expr_size(*left) + expr_size(*right),
        ExprView::ScalarAssign(_, value) => 1 + expr_size(*value),
        ExprView::Ternary(cond, first, second) => 1 + expr_size(*cond) + expr_size(*first)
            + expr_size(*second),
        ExprView::Column(index) => 1 + expr_size(*index),
        ExprView::Concatenation(parts) => 1 + exprs_size(parts),
        ExprView::ArrayIndex { name, indices } => 1 + exprs_size(indices),
        ExprView::InArray { name, indices } => 1 + exprs_size(indices),
        ExprView::ArrayAssign { name, indices, value } => 1 + exprs_size(indices) + expr_size(
            *value,
        ),
    }
}

/// The number of expression nodes in a list of expressions.
pub open spec fn exprs_size(es: Seq<TypedExprView>) -> nat
    decreases es,
{
    if es.len() == 0 {
        0
    } else {
        expr_size(es.first()) + exprs_size(es.drop_first())
    }
}

/// The number of statement and expression nodes that the pass visits in `s`.
pub open spec fn stmt_size(s: StmtView) -> nat
    decreases s,
{
    match s {
        StmtView::Break => 1,
        StmtView::Expr(e) => 1 + expr_size(e),
        StmtView::Print(e) => 1 + expr_size(e),
        StmtView::Printf { args, fstring } => 1 + expr_size(fstring) + exprs_size(args),
        StmtView::Group(body) => 1 + stmts_size(body),
        StmtView::If(test, then, otherwise) => 1 + expr_size(test) + stmt_size(*then) + match otherwise {
            Some(branch) => stmt_size(*branch),
            None => 0,
        },
        StmtView::While(test, body) => 1 + expr_size(test) + stmt_size(*body),
    }
}

/// The number of nodes that the pass visits in a list of statements.
pub open spec fn stmts_size(ss: Seq<StmtView>) -> nat
    decreases ss,
{
    if ss.len() == 0 {
        0
    } else {
        stmt_size(ss.first()) + stmts_size(ss.drop_first())
    }
}

/// Trees with one skeleton have one size.
pub proof fn lemma_expr_size_skeleton(e: TypedExprView)
    ensures
        expr_size(expr_skeleton(e)) == expr_size(e),
    decreases e,
{
    match e.expr {
        ExprView::BinOp(left, _, right) => {
            lemma_expr_size_skeleton(*left);
            lemma_expr_size_skeleton(*right);
        },
        ExprView::MathOp(left, _, right) => {
            lemma_expr_size_skeleton(*left);
            lemma_expr_size_skeleton(*right);
        },
        ExprView::LogicalOp(left, _, right) => {
            lemma_expr_size_skeleton(*left);
            lemma_expr_size_skeleton(*right);
        },
        ExprView::ScalarAssign(_, value) => {
            lemma_expr_size_skeleton(*value);
        },
        ExprView::Ternary(cond, first, second) => {
            lemma_expr_size_skeleton(*cond);
            lemma_expr_size_skeleton(*first);
            lemma_expr_size_skeleton(*second);
        },
        ExprView::Column(index) => {
            lemma_expr_size_skeleton(*index);
        },
        ExprView::Concatenation(parts) => {
            lemma_exprs_size_skeleton(parts);
        },
        ExprView::ArrayIndex { name, indices } => {
            lemma_exprs_size_skeleton(indices);
        },
        ExprView::InArray { name, indices } => {
            lemma_exprs_size_skeleton(indices);
        },
        ExprView::ArrayAssign { name, indices, value } => {
            lemma_exprs_size_skeleton(indices);
            lemma_expr_size_skeleton(*value);
        },
        _ => {},
    }
}

/// Lists with one skeleton have one size.
pub proof fn lemma_exprs_size_skeleton(es: Seq<TypedExprView>)
    ensures
        exprs_size(exprs_skeleton(es)) == exprs_size(es),
    decreases es,
{
    if es.len() > 0 {
        lemma_expr_size_skeleton(es.first());
        lemma_exprs_size_skeleton(es.drop_first());
        assert(exprs_skeleton(es).drop_first() =~= exprs_skeleton(es.drop_first()));
    }
}

/// Statements with one skeleton have one size.
pub proof fn lemma_stmt_size_skeleton(s: StmtView)
    ensures
        stmt_size(stmt_skeleton(s)) == stmt_size(s),
    decreases s,
{
    match s {
        StmtView::Break => {},
        StmtView::Expr(e) => {
            lemma_expr_size_skeleton(e);
        },
        StmtView::Print(e) => {
            lemma_expr_size_skeleton(e);
        },
        StmtView::Printf { args, fstring } => {
            lemma_expr_size_skeleton(fstring);
            lemma_exprs_size_skeleton(args);
        },
        StmtView::Group(body) => {
            lemma_stmts_size_skeleton(body);
        },
        StmtView::If(test, then, otherwise) => {
            lemma_expr_size_skeleton(test);
            lemma_stmt_size_skeleton(*then);
            match otherwise {
                Some(branch) => {
                    lemma_stmt_size_skeleton(*branch);
                },
                None => {},
            }
        },
        StmtView::While(test, body) => {
            lemma_expr_size_skeleton(test);
            lemma_stmt_size_skeleton(*body);
        },
    }
}

/// Lists of statements with one skeleton have one size.
pub proof fn lemma_stmts_size_skeleton(ss: Seq<StmtView>)
    ensures
        stmts_size(stmts_skeleton(ss)) == stmts_size(ss),
    decreases ss,
{
    if ss.len() > 0 {
        lemma_stmt_size_skeleton(ss.first());
        lemma_stmts_size_skeleton(ss.drop_first());
        assert(stmts_skeleton(ss).drop_first() =~= stmts_skeleton(ss.drop_first()));
    }
}

/// An element of a list is no larger than the list.
pub proof fn lemma_exprs_size_index(es: Seq<TypedExprView>, i: int)
    requires
        0 <= i < es.len(),
    ensures
        expr_size(es[i]) <= exprs_size(es),
    decreases es.len(),
{
    if i > 0 {
        lemma_exprs_size_index(es.drop_first(), i - 1);
    }
}

/// An element of a list of statements is no larger than the list.
pub proof fn lemma_stmts_size_index(ss: Seq<StmtView>, i: int)
    requires
        0 <= i < ss.len(),
    ensures
        stmt_size(ss[i]) <= stmts_size(ss),
    decreases ss.len(),
{
    if i > 0 {
        lemma_stmts_size_index(ss.drop_first(), i - 1);
    }
}

/// The pass reads no annotation that it writes: on the skeleton of a tree it
/// gives what it gives on the tree.
pub proof fn lemma_expr_pass_of_skeleton(e: TypedExprView, state: TypeState)
    ensures
        expr_pass(expr_skeleton(e), state) == expr_pass(e, state),
    decreases e,
{
    match e.expr {
        ExprView::BinOp(left, _, right) => {
            lemma_expr_pass_of_skeleton(*left, state);
            if let Ok(l) = expr_pass(*left, state) {
                lemma_expr_pass_of_skeleton(*right, l.state);
            }
        },
        ExprView::MathOp(left, _, right) => {
            lemma_expr_pass_of_skeleton(*left, state);
            if let Ok(l) = expr_pass(*left, state) {
                lemma_expr_pass_of_skeleton(*right, l.state);
            }
        },
        ExprView::LogicalOp(left, _, right) => {
            lemma_expr_pass_of_skeleton(*left, state);
            if let Ok(l) = expr_pass(*left, state) {
                lemma_expr_pass_of_skeleton(*right, l.state);
            }
        },
        ExprView::ScalarAssign(_, value) => {
            lemma_expr_pass_of_skeleton(*value, state);
        },
        ExprView::Ternary(cond, first, second) => {
            lemma_expr_pass_of_skeleton(*cond, state);
            if let Ok(c) = expr_pass(*cond, state) {
                lemma_expr_pass_of_skeleton(*first, c.state);
                if let Ok(a) = expr_pass(*first, c.state) {
                    lemma_expr_pass_of_skeleton(*second, second_arm(c.state, a.state));
                }
            }
        },
        ExprView::Column(index) => {
            lemma_expr_pass_of_skeleton(*index, state);
        },
        ExprView::Concatenation(parts) => {
            lemma_exprs_pass_of_skeleton(parts, state);
        },
        ExprView::ArrayIndex { name, indices } => {
            if let Ok(marked) = mark_array(state, name) {
                lemma_exprs_pass_of_skeleton(indices, marked);
            }
        },
        ExprView::InArray { name, indices } => {
            if let Ok(marked) = mark_array(state, name) {
                lemma_exprs_pass_of_skeleton(indices, marked);
            }
        },
        ExprView::ArrayAssign { name, indices, value } => {
            if let Ok(marked) = mark_array(state, name) {
                lemma_exprs_pass_of_skeleton(indices, marked);
                if let Ok(i) = exprs_pass(indices, marked) {
                    lemma_expr_pass_of_skeleton(*value, i.state);
                }
            }
        },
        _ => {},
    }
}

/// The pass over a list reads no annotation that it writes.
pub proof fn lemma_exprs_pass_of_skeleton(es: Seq<TypedExprView>, state: TypeState)
    ensures
        exprs_pass(exprs_skeleton(es), state) == exprs_pass(es, state),
    decreases es,
{
    if es.len() > 0 {
        lemma_expr_pass_of_skeleton(es.first(), state);
        assert(exprs_skeleton(es).drop_first() =~= exprs_skeleton(es.drop_first()));
        if let Ok(head) = expr_pass(es.first(), state) {
            lemma_exprs_pass_of_skeleton(es.drop_first(), head.state);
        }
    } else {
        assert(exprs_skeleton(es) =~= es);
    }
}

/// The pass over a statement reads no annotation that it writes.
pub proof fn lemma_stmt_pass_of_skeleton(s: StmtView, state: TypeState)
    ensures
        stmt_pass(stmt_skeleton(s), state) == stmt_pass(s, state),
    decreases s,
{
    match s {
        StmtView::Break => {},
        StmtView::Expr(e) => {
            lemma_expr_pass_of_skeleton(e, state);
        },
        StmtView::Print(e) => {
            lemma_expr_pass_of_skeleton(e, state);
        },
        StmtView::Printf { args, fstring } => {
            lemma_expr_pass_of_skeleton(fstring, state);
            if let Ok(f) = expr_pass(fstring, state) {
                lemma_exprs_pass_of_skeleton(args, f.state);
            }
        },
        StmtView::Group(body) => {
            lemma_stmts_pass_of_skeleton(body, state);
        },
        StmtView::If(test, then, otherwise) => {
            lemma_expr_pass_of_skeleton(test, state);
            if let Ok(t) = expr_pass(test, state) {
                lemma_stmt_pass_of_skeleton(*then, t.state);
                if let Ok(a) = stmt_pass(*then, t.state) {
                    if let Some(branch) = otherwise {
                        lemma_stmt_pass_of_skeleton(*branch, second_arm(t.state, a.state));
                    }
                }
            }
        },
        StmtView::While(test, body) => {
            lemma_expr_pass_of_skeleton(test, state);
            if let Ok(t1) = expr_pass(test, state) {
                lemma_stmt_pass_of_skeleton(*body, t1.state);
                if let Ok(b1) = stmt_pass(*body, t1.state) {
                    let again = rejoin(t1.state, b1.state);
                    lemma_expr_pass_of_skeleton(test, again);
                    if let Ok(t2) = expr_pass(test, again) {
                        lemma_stmt_pass_of_skeleton(*body, t2.state);
                    }
                }
            }
        },
    }
}

/// The pass over a list of statements reads no annotation that it writes.
pub proof fn lemma_stmts_pass_of_skeleton(ss: Seq<StmtView>, state: TypeState)
    ensures
        stmts_pass(stmts_skeleton(ss), state) == stmts_pass(ss, state),
    decreases ss,
{
    if ss.len() > 0 {
        lemma_stmt_pass_of_skeleton(ss.first(), state);
        assert(stmts_skeleton(ss).drop_first() =~= stmts_skeleton(ss.drop_first()));
        if let Ok(head) = stmt_pass(ss.first(), state) {
            lemma_stmts_pass_of_skeleton(ss.drop_first(), head.state);
        }
    } else {
        assert(stmts_skeleton(ss) =~= ss);
    }
}

} // verus!
