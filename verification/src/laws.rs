//! What holds of every run of the pass.

use vstd::prelude::*;
use crate::ast::{ExprView, StmtView, TypedExprView};
use crate::error::{Conflict, ConflictKind};
use crate::lattice::{join, ScalarType};
use crate::scalars::merge;
use crate::model::{
    expr_pass, exprs_pass, grows, mark_array, read_type, rejoin, second_arm, stmt_pass,
    stmts_pass, Halt, Pass, TypeState,
};

verus! {

/// The analysis of an expression forgets no name, whether it succeeds or
/// stops at a conflict.
pub proof fn lemma_expr_pass_grows(e: TypedExprView, state: TypeState)
    ensures
        match expr_pass(e, state) {
            Ok(p) => grows(state, p.state),
            Err(halt) => grows(state, halt.state),
        },
    decreases e,
{
    match e.expr {
        ExprView::BinOp(left, _, right) => {
            lemma_expr_pass_grows(*left, state);
            if let Ok(l) = expr_pass(*left, state) {
                lemma_expr_pass_grows(*right, l.state);
            }
        },
        ExprView::MathOp(left, _, right) => {
            lemma_expr_pass_grows(*left, state);
            if let Ok(l) = expr_pass(*left, state) {
                lemma_expr_pass_grows(*right, l.state);
            }
        },
        ExprView::LogicalOp(left, _, right) => {
            lemma_expr_pass_grows(*left, state);
            if let Ok(l) = expr_pass(*left, state) {
                lemma_expr_pass_grows(*right, l.state);
            }
        },
        ExprView::ScalarAssign(_, value) => {
            lemma_expr_pass_grows(*value, state);
        },
        ExprView::Ternary(cond, first, second) => {
            lemma_expr_pass_grows(*cond, state);
            if let Ok(c) = expr_pass(*cond, state) {
                lemma_expr_pass_grows(*first, c.state);
                if let Ok(a) = expr_pass(*first, c.state) {
                    lemma_expr_pass_grows(*second, second_arm(c.state, a.state));
                }
            }
        },
        ExprView::Column(index) => {
            lemma_expr_pass_grows(*index, state);
        },
        ExprView::Concatenation(parts) => {
            lemma_exprs_pass_grows(parts, state);
        },
        ExprView::ArrayIndex { name, indices } => {
            if let Ok(marked) = mark_array(state, name) {
                lemma_exprs_pass_grows(indices, marked);
            }
        },
        ExprView::InArray { name, indices } => {
            if let Ok(marked) = mark_array(state, name) {
                lemma_exprs_pass_grows(indices, marked);
            }
        },
        ExprView::ArrayAssign { name, indices, value } => {
            if let Ok(marked) = mark_array(state, name) {
                lemma_exprs_pass_grows(indices, marked);
                if let Ok(i) = exprs_pass(indices, marked) {
                    lemma_expr_pass_grows(*value, i.state);
                }
            }
        },
        _ => {},
    }
}

/// The analysis of a list of expressions forgets no name.
pub proof fn lemma_exprs_pass_grows(es: Seq<TypedExprView>, state: TypeState)
    ensures
        match exprs_pass(es, state) {
            Ok(p) => grows(state, p.state),
            Err(halt) => grows(state, halt.state),
        },
    decreases es,
{
    if es.len() > 0 {
        lemma_expr_pass_grows(es.first(), state);
        if let Ok(head) = expr_pass(es.first(), state) {
            lemma_exprs_pass_grows(es.drop_first(), head.state);
        }
    }
}

/// The analysis of a statement forgets no name.
pub proof fn lemma_stmt_pass_grows(s: StmtView, state: TypeState)
    ensures
        match stmt_pass(s, state) {
            Ok(p) => grows(state, p.state),
            Err(halt) => grows(state, halt.state),
        },
    decreases s,
{
    match s {
        StmtView::Break => {},
        StmtView::Expr(e) => {
            lemma_expr_pass_grows(e, state);
        },
        StmtView::Print(e) => {
            lemma_expr_pass_grows(e, state);
        },
        StmtView::Printf { args, fstring } => {
            lemma_expr_pass_grows(fstring, state);
            if let Ok(f) = expr_pass(fstring, state) {
                lemma_exprs_pass_grows(args, f.state);
            }
        },
        StmtView::Group(body) => {
            lemma_stmts_pass_grows(body, state);
        },
        StmtView::If(test, then, otherwise) => {
            lemma_expr_pass_grows(test, state);
            if let Ok(t) = expr_pass(test, state) {
                lemma_stmt_pass_grows(*then, t.state);
                if let Ok(a) = stmt_pass(*then, t.state) {
                    if let Some(branch) = otherwise {
                        lemma_stmt_pass_grows(*branch, second_arm(t.state, a.state));
                    }
                }
            }
        },
        StmtView::While(test, body) => {
            lemma_expr_pass_grows(test, state);
            if let Ok(t1) = expr_pass(test, state) {
                lemma_stmt_pass_grows(*body, t1.state);
                if let Ok(b1) = stmt_pass(*body, t1.state) {
                    let again = rejoin(t1.state, b1.state);
                    lemma_expr_pass_grows(test, again);
                    if let Ok(t2) = expr_pass(test, again) {
                        lemma_stmt_pass_grows(*body, t2.state);
                    }
                }
            }
        },
    }
}

/// The analysis of a list of statements forgets no name.
pub proof fn lemma_stmts_pass_grows(ss: Seq<StmtView>, state: TypeState)
    ensures
        match stmts_pass(ss, state) {
            Ok(p) => grows(state, p.state),
            Err(halt) => grows(state, halt.state),
        },
    decreases ss,
{
    if ss.len() > 0 {
        lemma_stmt_pass_grows(ss.first(), state);
        if let Ok(head) = stmt_pass(ss.first(), state) {
            lemma_stmts_pass_grows(ss.drop_first(), head.state);
        }
    }
}

/// Whether `e` uses `name` as an array: reads an element of it, tests
/// membership in it, or assigns to an element of it.
pub open spec fn uses_as_array(e: TypedExprView, name: Seq<char>) -> bool {
    match e.expr {
        ExprView::ArrayIndex { name: used, indices } => used == name,
        ExprView::InArray { name: used, indices } => used == name,
        ExprView::ArrayAssign { name: used, indices, value } => used == name,
        _ => false,
    }
}

/// Once a name holds a scalar type, every later use of it as an array is a
/// conflict that names it, however many statements lie between the two. The
/// failed use changes nothing.
pub proof fn lemma_scalar_then_array(
    state: TypeState,
    between: Seq<StmtView>,
    name: Seq<char>,
    array_use: TypedExprView,
)
    requires
        state.scalars.contains_key(name),
        stmts_pass(between, state) is Ok,
        uses_as_array(array_use, name),
    ensures
        ({
            let later = stmts_pass(between, state)->Ok_0.state;
            expr_pass(array_use, later) matches Err(halt) && halt == (Halt {
                conflict: Conflict { kind: ConflictKind::ScalarInArrayContext, name },
                state: later,
            })
        }),
{
    lemma_stmts_pass_grows(between, state);
}

/// Once a name is committed to array use, every later assignment to it as a
/// scalar fails, however many statements lie between the two: where the
/// assigned value has a conflict of its own, with that; else with a conflict
/// that names the variable, in the state that the value left, which binds
/// the variable no more than before.
pub proof fn lemma_array_then_scalar_assign(
    state: TypeState,
    between: Seq<StmtView>,
    name: Seq<char>,
    assign: TypedExprView,
)
    requires
        state.arrays.contains(name),
        stmts_pass(between, state) is Ok,
        assign.expr matches ExprView::ScalarAssign(target, _) && target == name,
    ensures
        ({
            let later = stmts_pass(between, state)->Ok_0.state;
            let value = *assign.expr->ScalarAssign_1;
            expr_pass(assign, later) matches Err(halt) && halt == (match expr_pass(value, later) {
                Err(earlier) => earlier,
                Ok(v) => Halt {
                    conflict: Conflict { kind: ConflictKind::ArrayInScalarContext, name },
                    state: v.state,
                },
            })
        }),
{
    lemma_stmts_pass_grows(between, state);
    let later = stmts_pass(between, state)->Ok_0.state;
    let value = *assign.expr->ScalarAssign_1;
    lemma_expr_pass_grows(value, later);
}

/// Once a name is committed to array use, every later read of it as a bare
/// variable is a conflict that names it, unless the name holds a scalar type
/// as well. The failed read changes nothing: the name is still unbound.
pub proof fn lemma_array_then_scalar_read(
    state: TypeState,
    between: Seq<StmtView>,
    name: Seq<char>,
    read: TypedExprView,
)
    requires
        state.arrays.contains(name),
        stmts_pass(between, state) is Ok,
        !stmts_pass(between, state)->Ok_0.state.scalars.contains_key(name),
        read.expr == ExprView::Variable(name),
    ensures
        ({
            let later = stmts_pass(between, state)->Ok_0.state;
            expr_pass(read, later) matches Err(halt) && halt == (Halt {
                conflict: Conflict { kind: ConflictKind::ArrayInScalarContext, name },
                state: later,
            })
        }),
{
    lemma_stmts_pass_grows(between, state);
}

/// `state` with the set of array names replaced.
pub open spec fn with_arrays(state: TypeState, arrays: Set<Seq<char>>) -> TypeState {
    TypeState { scalars: state.scalars, arrays }
}

/// What two runs of the pass over one tree have in common when the second
/// starts with fewer array names: the second succeeds where the first does,
/// with the same annotations and scalar types, and ends with no array name
/// that the first lacks.
pub open spec fn same_but_arrays<T>(first: Result<Pass<T>, Halt>, second: Result<
    Pass<T>,
    Halt,
>) -> bool {
    first matches Ok(p) ==> second matches Ok(q) && q.tree == p.tree && q.state.scalars
        == p.state.scalars && q.state.arrays.subset_of(p.state.arrays)
}

/// Array names decide only whether the analysis of an expression fails:
/// where it succeeds, it succeeds from fewer array names too, with the same
/// annotations and scalar types.
pub proof fn lemma_expr_pass_fewer_arrays(
    e: TypedExprView,
    state: TypeState,
    fewer: Set<Seq<char>>,
)
    requires
        fewer.subset_of(state.arrays),
    ensures
        same_but_arrays(expr_pass(e, state), expr_pass(e, with_arrays(state, fewer))),
    decreases e,
{
    let small = with_arrays(state, fewer);
    if expr_pass(e, state) is Ok {
        match e.expr {
            ExprView::BinOp(left, _, right) => {
                lemma_expr_pass_fewer_arrays(*left, state, fewer);
                let l = expr_pass(*left, state)->Ok_0;
                let l2 = expr_pass(*left, small)->Ok_0;
                lemma_expr_pass_fewer_arrays(*right, l.state, l2.state.arrays);
            },
            ExprView::MathOp(left, _, right) => {
                lemma_expr_pass_fewer_arrays(*left, state, fewer);
                let l = expr_pass(*left, state)->Ok_0;
                let l2 = expr_pass(*left, small)->Ok_0;
                lemma_expr_pass_fewer_arrays(*right, l.state, l2.state.arrays);
            },
            ExprView::LogicalOp(left, _, right) => {
                lemma_expr_pass_fewer_arrays(*left, state, fewer);
                let l = expr_pass(*left, state)->Ok_0;
                let l2 = expr_pass(*left, small)->Ok_0;
                lemma_expr_pass_fewer_arrays(*right, l.state, l2.state.arrays);
            },
            ExprView::ScalarAssign(_, value) => {
                lemma_expr_pass_fewer_arrays(*value, state, fewer);
            },
            ExprView::Ternary(cond, first, second) => {
                lemma_expr_pass_fewer_arrays(*cond, state, fewer);
                let c = expr_pass(*cond, state)->Ok_0;
                let c2 = expr_pass(*cond, small)->Ok_0;
                lemma_expr_pass_fewer_arrays(*first, c.state, c2.state.arrays);
                let a = expr_pass(*first, c.state)->Ok_0;
                let a2 = expr_pass(*first, c2.state)->Ok_0;
                lemma_expr_pass_fewer_arrays(
                    *second,
                    second_arm(c.state, a.state),
                    a2.state.arrays,
                );
            },
            ExprView::Column(index) => {
                lemma_expr_pass_fewer_arrays(*index, state, fewer);
            },
            ExprView::Concatenation(parts) => {
                lemma_exprs_pass_fewer_arrays(parts, state, fewer);
            },
            ExprView::ArrayIndex { name, indices } => {
                let marked = mark_array(state, name)->Ok_0;
                lemma_exprs_pass_fewer_arrays(indices, marked, fewer.insert(name));
            },
            ExprView::InArray { name, indices } => {
                let marked = mark_array(state, name)->Ok_0;
                lemma_exprs_pass_fewer_arrays(indices, marked, fewer.insert(name));
            },
            ExprView::ArrayAssign { name, indices, value } => {
                let marked = mark_array(state, name)->Ok_0;
                lemma_exprs_pass_fewer_arrays(indices, marked, fewer.insert(name));
                let i = exprs_pass(indices, marked)->Ok_0;
                let i2 = exprs_pass(indices, with_arrays(marked, fewer.insert(name)))->Ok_0;
                lemma_expr_pass_fewer_arrays(*value, i.state, i2.state.arrays);
            },
            _ => {},
        }
    }
}

/// Array names decide only whether the analysis of a list of expressions
/// fails.
pub proof fn lemma_exprs_pass_fewer_arrays(
    es: Seq<TypedExprView>,
    state: TypeState,
    fewer: Set<Seq<char>>,
)
    requires
        fewer.subset_of(state.arrays),
    ensures
        same_but_arrays(exprs_pass(es, state), exprs_pass(es, with_arrays(state, fewer))),
    decreases es,
{
    if es.len() > 0 && exprs_pass(es, state) is Ok {
        lemma_expr_pass_fewer_arrays(es.first(), state, fewer);
        let head = expr_pass(es.first(), state)->Ok_0;
        let head2 = expr_pass(es.first(), with_arrays(state, fewer))->Ok_0;
        lemma_exprs_pass_fewer_arrays(es.drop_first(), head.state, head2.state.arrays);
    }
}

/// Array names decide only whether the analysis of a statement fails.
pub proof fn lemma_stmt_pass_fewer_arrays(s: StmtView, state: TypeState, fewer: Set<Seq<char>>)
    requires
        fewer.subset_of(state.arrays),
    ensures
        same_but_arrays(stmt_pass(s, state), stmt_pass(s, with_arrays(state, fewer))),
    decreases s,
{
    let small = with_arrays(state, fewer);
    if stmt_pass(s, state) is Ok {
        match s {
            StmtView::Break => {},
            StmtView::Expr(e) => {
                lemma_expr_pass_fewer_arrays(e, state, fewer);
            },
            StmtView::Print(e) => {
                lemma_expr_pass_fewer_arrays(e, state, fewer);
            },
            StmtView::Printf { args, fstring } => {
                lemma_expr_pass_fewer_arrays(fstring, state, fewer);
                let f = expr_pass(fstring, state)->Ok_0;
                let f2 = expr_pass(fstring, small)->Ok_0;
                lemma_exprs_pass_fewer_arrays(args, f.state, f2.state.arrays);
            },
            StmtView::Group(body) => {
                lemma_stmts_pass_fewer_arrays(body, state, fewer);
            },
            StmtView::If(test, then, otherwise) => {
                lemma_expr_pass_fewer_arrays(test, state, fewer);
                let t = expr_pass(test, state)->Ok_0;
                let t2 = expr_pass(test, small)->Ok_0;
                lemma_stmt_pass_fewer_arrays(*then, t.state, t2.state.arrays);
                let a = stmt_pass(*then, t.state)->Ok_0;
                let a2 = stmt_pass(*then, t2.state)->Ok_0;
                if let Some(branch) = otherwise {
                    lemma_stmt_pass_fewer_arrays(
                        *branch,
                        second_arm(t.state, a.state),
                        a2.state.arrays,
                    );
                }
            },
            StmtView::While(test, body) => {
                lemma_expr_pass_fewer_arrays(test, state, fewer);
                let t1 = expr_pass(test, state)->Ok_0;
                let u1 = expr_pass(test, small)->Ok_0;
                lemma_stmt_pass_fewer_arrays(*body, t1.state, u1.state.arrays);
                let b1 = stmt_pass(*body, t1.state)->Ok_0;
                let c1 = stmt_pass(*body, u1.state)->Ok_0;
                lemma_expr_pass_fewer_arrays(
                    test,
                    rejoin(t1.state, b1.state),
                    c1.state.arrays,
                );
                let t2 = expr_pass(test, rejoin(t1.state, b1.state))->Ok_0;
                let u2 = expr_pass(test, rejoin(u1.state, c1.state))->Ok_0;
                lemma_stmt_pass_fewer_arrays(*body, t2.state, u2.state.arrays);
            },
        }
    }
}

/// Array names decide only whether the analysis of a list of statements
/// fails.
pub proof fn lemma_stmts_pass_fewer_arrays(
    ss: Seq<StmtView>,
    state: TypeState,
    fewer: Set<Seq<char>>,
)
    requires
        fewer.subset_of(state.arrays),
    ensures
        same_but_arrays(stmts_pass(ss, state), stmts_pass(ss, with_arrays(state, fewer))),
    decreases ss,
{
    if ss.len() > 0 && stmts_pass(ss, state) is Ok {
        lemma_stmt_pass_fewer_arrays(ss.first(), state, fewer);
        let head = stmt_pass(ss.first(), state)->Ok_0;
        let head2 = stmt_pass(ss.first(), with_arrays(state, fewer))->Ok_0;
        lemma_stmts_pass_fewer_arrays(ss.drop_first(), head.state, head2.state.arrays);
    }
}

/// After `if (test) { then } else { otherwise }`, a read of `name` has the
/// join of the types that it has after each arm alone, analysed from the
/// state at the fork, that is the state that the test left. A name that only
/// one arm binds, and binds to `Float`, is left out: it keeps that type.
pub proof fn lemma_conditional_join(
    state: TypeState,
    test: TypedExprView,
    then: StmtView,
    otherwise: StmtView,
    name: Seq<char>,
)
    requires
        stmt_pass(StmtView::If(test, Box::new(then), Some(Box::new(otherwise))), state) is Ok,
        ({
            let fork = expr_pass(test, state)->Ok_0.state;
            let a = stmt_pass(then, fork)->Ok_0.state.scalars;
            let b = stmt_pass(otherwise, fork)->Ok_0.state.scalars;
            &&& a.contains_key(name) && !b.contains_key(name) ==> a[name] != ScalarType::Float
            &&& b.contains_key(name) && !a.contains_key(name) ==> b[name] != ScalarType::Float
        }),
    ensures
        ({
            let conditional = StmtView::If(test, Box::new(then), Some(Box::new(otherwise)));
            let after = stmt_pass(conditional, state)->Ok_0.state;
            let fork = expr_pass(test, state)->Ok_0.state;
            &&& expr_pass(test, state) is Ok
            &&& stmt_pass(then, fork) is Ok
            &&& stmt_pass(otherwise, fork) is Ok
            &&& read_type(after.scalars, name) == join(
                read_type(stmt_pass(then, fork)->Ok_0.state.scalars, name),
                read_type(stmt_pass(otherwise, fork)->Ok_0.state.scalars, name),
            )
        }),
{
    let fork = expr_pass(test, state)->Ok_0.state;
    let a = stmt_pass(then, fork)->Ok_0;
    lemma_stmt_pass_grows(then, fork);
    lemma_stmt_pass_fewer_arrays(otherwise, second_arm(fork, a.state), fork.arrays);
    assert(with_arrays(second_arm(fork, a.state), fork.arrays) == fork);
}

/// Whether no node of `e` uses a name as an array.
pub open spec fn expr_array_free(e: TypedExprView) -> bool
    decreases e,
{
    match e.expr {
        ExprView::NumberF64(_) => true,
        ExprView::Call => true,
        ExprView::String(_) => true,
        ExprView::Regex(_) => true,
        ExprView::Variable(_) => true,
        ExprView::BinOp(left, _, right) => expr_array_free(*left) && expr_array_free(*right),
        ExprView::MathOp(left, _, right) => expr_array_free(*left) && expr_array_free(*right),
        ExprView::LogicalOp(left, _, right) => expr_array_free(*left) && expr_array_free(*right),
        ExprView::ScalarAssign(_, value) => expr_array_free(*value),
        ExprView::Ternary(cond, first, second) => expr_array_free(*cond) && expr_array_free(
            *first,
        ) && expr_array_free(*second),
        ExprView::Column(index) => expr_array_free(*index),
        ExprView::Concatenation(parts) => exprs_array_free(parts),
        ExprView::ArrayIndex { name, indices } => false,
        ExprView::InArray { name, indices } => false,
        ExprView::ArrayAssign { name, indices, value } => false,
    }
}

/// Whether no expression of the list uses a name as an array.
pub open spec fn exprs_array_free(es: Seq<TypedExprView>) -> bool
    decreases es,
{
    es.len() > 0 ==> expr_array_free(es.first()) && exprs_array_free(es.drop_first())
}

/// Whether no expression that the pass visits in `s` uses a name as an
/// array.
pub open spec fn stmt_array_free(s: StmtView) -> bool
    decreases s,
{
    match s {
        StmtView::Break => true,
        StmtView::Expr(e) => expr_array_free(e),
        StmtView::Print(e) => expr_array_free(e),
        StmtView::Printf { args, fstring } => expr_array_free(fstring) && exprs_array_free(args),
        StmtView::Group(body) => stmts_array_free(body),
        StmtView::If(test, then, otherwise) => expr_array_free(test) && stmt_array_free(*then)
            && match otherwise {
            Some(branch) => stmt_array_free(*branch),
            None => true,
        },
        StmtView::While(test, body) => expr_array_free(test) && stmt_array_free(*body),
    }
}

/// Whether no statement of the list uses a name as an array.
pub open spec fn stmts_array_free(ss: Seq<StmtView>) -> bool
    decreases ss,
{
    ss.len() > 0 ==> stmt_array_free(ss.first()) && stmts_array_free(ss.drop_first())
}

/// What a run over a tree without array uses does to the array names:
/// nothing. If it stops, then on a name that was used as an array before.
pub open spec fn leaves_arrays<T>(state: TypeState, outcome: Result<Pass<T>, Halt>) -> bool {
    match outcome {
        Ok(p) => p.state.arrays == state.arrays,
        Err(halt) => halt.state.arrays == state.arrays && halt.conflict.kind
            == ConflictKind::ArrayInScalarContext,
    }
}

/// An expression without array uses leaves the array names as they were.
pub proof fn lemma_expr_pass_leaves_arrays(e: TypedExprView, state: TypeState)
    requires
        expr_array_free(e),
    ensures
        leaves_arrays(state, expr_pass(e, state)),
    decreases e,
{
    match e.expr {
        ExprView::BinOp(left, _, right) => {
            lemma_expr_pass_leaves_arrays(*left, state);
            if let Ok(l) = expr_pass(*left, state) {
                lemma_expr_pass_leaves_arrays(*right, l.state);
            }
        },
        ExprView::MathOp(left, _, right) => {
            lemma_expr_pass_leaves_arrays(*left, state);
            if let Ok(l) = expr_pass(*left, state) {
                lemma_expr_pass_leaves_arrays(*right, l.state);
            }
        },
        ExprView::LogicalOp(left, _, right) => {
            lemma_expr_pass_leaves_arrays(*left, state);
            if let Ok(l) = expr_pass(*left, state) {
                lemma_expr_pass_leaves_arrays(*right, l.state);
            }
        },
        ExprView::ScalarAssign(_, value) => {
            lemma_expr_pass_leaves_arrays(*value, state);
        },
        ExprView::Ternary(cond, first, second) => {
            lemma_expr_pass_leaves_arrays(*cond, state);
            if let Ok(c) = expr_pass(*cond, state) {
                lemma_expr_pass_leaves_arrays(*first, c.state);
                if let Ok(a) = expr_pass(*first, c.state) {
                    lemma_expr_pass_leaves_arrays(*second, second_arm(c.state, a.state));
                }
            }
        },
        ExprView::Column(index) => {
            lemma_expr_pass_leaves_arrays(*index, state);
        },
        ExprView::Concatenation(parts) => {
            lemma_exprs_pass_leaves_arrays(parts, state);
        },
        _ => {},
    }
}

/// A list of expressions without array uses leaves the array names as they
/// were.
pub proof fn lemma_exprs_pass_leaves_arrays(es: Seq<TypedExprView>, state: TypeState)
    requires
        exprs_array_free(es),
    ensures
        leaves_arrays(state, exprs_pass(es, state)),
    decreases es,
{
    if es.len() > 0 {
        lemma_expr_pass_leaves_arrays(es.first(), state);
        if let Ok(head) = expr_pass(es.first(), state) {
            lemma_exprs_pass_leaves_arrays(es.drop_first(), head.state);
        }
    }
}

/// A statement without array uses leaves the array names as they were.
pub proof fn lemma_stmt_pass_leaves_arrays(s: StmtView, state: TypeState)
    requires
        stmt_array_free(s),
    ensures
        leaves_arrays(state, stmt_pass(s, state)),
    decreases s,
{
    match s {
        StmtView::Break => {},
        StmtView::Expr(e) => {
            lemma_expr_pass_leaves_arrays(e, state);
        },
        StmtView::Print(e) => {
            lemma_expr_pass_leaves_arrays(e, state);
        },
        StmtView::Printf { args, fstring } => {
            lemma_expr_pass_leaves_arrays(fstring, state);
            if let Ok(f) = expr_pass(fstring, state) {
                lemma_exprs_pass_leaves_arrays(args, f.state);
            }
        },
        StmtView::Group(body) => {
            lemma_stmts_pass_leaves_arrays(body, state);
        },
        StmtView::If(test, then, otherwise) => {
            lemma_expr_pass_leaves_arrays(test, state);
            if let Ok(t) = expr_pass(test, state) {
                lemma_stmt_pass_leaves_arrays(*then, t.state);
                if let Ok(a) = stmt_pass(*then, t.state) {
                    if let Some(branch) = otherwise {
                        lemma_stmt_pass_leaves_arrays(*branch, second_arm(t.state, a.state));
                    }
                }
            }
        },
        StmtView::While(test, body) => {
            lemma_expr_pass_leaves_arrays(test, state);
            if let Ok(t1) = expr_pass(test, state) {
                lemma_stmt_pass_leaves_arrays(*body, t1.state);
                if let Ok(b1) = stmt_pass(*body, t1.state) {
                    let again = rejoin(t1.state, b1.state);
                    lemma_expr_pass_leaves_arrays(test, again);
                    if let Ok(t2) = expr_pass(test, again) {
                        lemma_stmt_pass_leaves_arrays(*body, t2.state);
                    }
                }
            }
        },
    }
}

/// A list of statements without array uses leaves the array names as they
/// were.
pub proof fn lemma_stmts_pass_leaves_arrays(ss: Seq<StmtView>, state: TypeState)
    requires
        stmts_array_free(ss),
    ensures
        leaves_arrays(state, stmts_pass(ss, state)),
    decreases ss,
{
    if ss.len() > 0 {
        lemma_stmt_pass_leaves_arrays(ss.first(), state);
        if let Ok(head) = stmt_pass(ss.first(), state) {
            lemma_stmts_pass_leaves_arrays(ss.drop_first(), head.state);
        }
    }
}

/// The join at the end of a conditional does not depend on which arm comes
/// first: with the arms swapped, a conditional whose arms use no name as an
/// array succeeds on the same inputs and leaves the same state; where it
/// fails, it fails with a conflict of the same kind.
pub proof fn lemma_conditional_swap(
    state: TypeState,
    test: TypedExprView,
    then: StmtView,
    otherwise: StmtView,
)
    requires
        stmt_array_free(then),
        stmt_array_free(otherwise),
    ensures
        ({
            let one_way = stmt_pass(
                StmtView::If(test, Box::new(then), Some(Box::new(otherwise))),
                state,
            );
            let other_way = stmt_pass(
                StmtView::If(test, Box::new(otherwise), Some(Box::new(then))),
                state,
            );
            match one_way {
                Ok(p) => other_way matches Ok(q) && q.state == p.state,
                Err(halt) => other_way matches Err(other) && other.conflict.kind
                    == halt.conflict.kind,
            }
        }),
{
    if let Ok(t) = expr_pass(test, state) {
        let fork = t.state;
        lemma_stmt_pass_leaves_arrays(then, fork);
        lemma_stmt_pass_leaves_arrays(otherwise, fork);
        if let Ok(a) = stmt_pass(then, fork) {
            assert(second_arm(fork, a.state) == fork);
        }
        if let Ok(b) = stmt_pass(otherwise, fork) {
            assert(second_arm(fork, b.state) == fork);
        }
        if let Ok(a) = stmt_pass(then, fork) {
            if let Ok(b) = stmt_pass(otherwise, fork) {
                assert(merge(a.state.scalars, b.state.scalars) =~= merge(
                    b.state.scalars,
                    a.state.scalars,
                ));
            }
        }
    }
}

/// Whether `e` is straight-line code: no ternary in it.
pub open spec fn expr_straight(e: TypedExprView) -> bool
    decreases e,
{
    match e.expr {
        ExprView::NumberF64(_) => true,
        ExprView::Call => true,
        ExprView::String(_) => true,
        ExprView::Regex(_) => true,
        ExprView::Variable(_) => true,
        ExprView::BinOp(left, _, right) => expr_straight(*left) && expr_straight(*right),
        ExprView::MathOp(left, _, right) => expr_straight(*left) && expr_straight(*right),
        ExprView::LogicalOp(left, _, right) => expr_straight(*left) && expr_straight(*right),
        ExprView::ScalarAssign(_, value) => expr_straight(*value),
        ExprView::Ternary(_, _, _) => false,
        ExprView::Column(index) => expr_straight(*index),
        ExprView::Concatenation(parts) => exprs_straight(parts),
        ExprView::ArrayIndex { name, indices } => exprs_straight(indices),
        ExprView::InArray { name, indices } => exprs_straight(indices),
        ExprView::ArrayAssign { name, indices, value } => exprs_straight(indices)
            && expr_straight(*value),
    }
}

/// Whether every expression of the list is straight-line code.
pub open spec fn exprs_straight(es: Seq<TypedExprView>) -> bool
    decreases es,
{
    es.len() > 0 ==> expr_straight(es.first()) && exprs_straight(es.drop_first())
}

/// Whether `s` is straight-line code: no conditional, loop or ternary in it.
pub open spec fn stmt_straight(s: StmtView) -> bool
    decreases s,
{
    match s {
        StmtView::Break => true,
        StmtView::Expr(e) => expr_straight(e),
        StmtView::Print(e) => expr_straight(e),
        StmtView::Printf { args, fstring } => expr_straight(fstring) && exprs_straight(args),
        StmtView::Group(body) => stmts_straight(body),
        StmtView::If(_, _, _) => false,
        StmtView::While(_, _) => false,
    }
}

/// Whether every statement of the list is straight-line code.
pub open spec fn stmts_straight(ss: Seq<StmtView>) -> bool
    decreases ss,
{
    ss.len() > 0 ==> stmt_straight(ss.first()) && stmts_straight(ss.drop_first())
}

/// No name is both bound as a scalar and marked as an array.
pub open spec fn exclusive(state: TypeState) -> bool {
    state.scalars.dom().disjoint(state.arrays)
}

/// Whether the state that a run ended in, or stopped in, is `exclusive`.
pub open spec fn ends_exclusive<T>(outcome: Result<Pass<T>, Halt>) -> bool {
    match outcome {
        Ok(p) => exclusive(p.state),
        Err(halt) => exclusive(halt.state),
    }
}

/// In a straight-line expression no name becomes both scalar and array,
/// whether the analysis succeeds or stops at a conflict.
pub proof fn lemma_expr_pass_exclusive(e: TypedExprView, state: TypeState)
    requires
        expr_straight(e),
        exclusive(state),
    ensures
        ends_exclusive(expr_pass(e, state)),
    decreases e,
{
    match e.expr {
        ExprView::BinOp(left, _, right) => {
            lemma_expr_pass_exclusive(*left, state);
            if let Ok(l) = expr_pass(*left, state) {
                lemma_expr_pass_exclusive(*right, l.state);
            }
        },
        ExprView::MathOp(left, _, right) => {
            lemma_expr_pass_exclusive(*left, state);
            if let Ok(l) = expr_pass(*left, state) {
                lemma_expr_pass_exclusive(*right, l.state);
            }
        },
        ExprView::LogicalOp(left, _, right) => {
            lemma_expr_pass_exclusive(*left, state);
            if let Ok(l) = expr_pass(*left, state) {
                lemma_expr_pass_exclusive(*right, l.state);
            }
        },
        ExprView::ScalarAssign(_, value) => {
            lemma_expr_pass_exclusive(*value, state);
        },
        ExprView::Column(index) => {
            lemma_expr_pass_exclusive(*index, state);
        },
        ExprView::Concatenation(parts) => {
            lemma_exprs_pass_exclusive(parts, state);
        },
        ExprView::ArrayIndex { name, indices } => {
            if let Ok(marked) = mark_array(state, name) {
                lemma_exprs_pass_exclusive(indices, marked);
            }
        },
        ExprView::InArray { name, indices } => {
            if let Ok(marked) = mark_array(state, name) {
                lemma_exprs_pass_exclusive(indices, marked);
            }
        },
        ExprView::ArrayAssign { name, indices, value } => {
            if let Ok(marked) = mark_array(state, name) {
                lemma_exprs_pass_exclusive(indices, marked);
                if let Ok(i) = exprs_pass(indices, marked) {
                    lemma_expr_pass_exclusive(*value, i.state);
                }
            }
        },
        _ => {},
    }
}

/// In a list of straight-line expressions no name becomes both scalar and
/// array.
pub proof fn lemma_exprs_pass_exclusive(es: Seq<TypedExprView>, state: TypeState)
    requires
        exprs_straight(es),
        exclusive(state),
    ensures
        ends_exclusive(exprs_pass(es, state)),
    decreases es,
{
    if es.len() > 0 {
        lemma_expr_pass_exclusive(es.first(), state);
        if let Ok(head) = expr_pass(es.first(), state) {
            lemma_exprs_pass_exclusive(es.drop_first(), head.state);
        }
    }
}

/// In straight-line code no name becomes both scalar and array, whether the
/// analysis succeeds or stops at a conflict.
pub proof fn lemma_stmt_pass_exclusive(s: StmtView, state: TypeState)
    requires
        stmt_straight(s),
        exclusive(state),
    ensures
        ends_exclusive(stmt_pass(s, state)),
    decreases s,
{
    match s {
        StmtView::Expr(e) => {
            lemma_expr_pass_exclusive(e, state);
        },
        StmtView::Print(e) => {
            lemma_expr_pass_exclusive(e, state);
        },
        StmtView::Printf { args, fstring } => {
            lemma_expr_pass_exclusive(fstring, state);
            if let Ok(f) = expr_pass(fstring, state) {
                lemma_exprs_pass_exclusive(args, f.state);
            }
        },
        StmtView::Group(body) => {
            lemma_stmts_pass_exclusive(body, state);
        },
        _ => {},
    }
}

/// In a list of straight-line statements no name becomes both scalar and
/// array.
pub proof fn lemma_stmts_pass_exclusive(ss: Seq<StmtView>, state: TypeState)
    requires
        stmts_straight(ss),
        exclusive(state),
    ensures
        ends_exclusive(stmts_pass(ss, state)),
    decreases ss,
{
    if ss.len() > 0 {
        lemma_stmt_pass_exclusive(ss.first(), state);
        if let Ok(head) = stmt_pass(ss.first(), state) {
            lemma_stmts_pass_exclusive(ss.drop_first(), head.state);
        }
    }
}

} // verus!
