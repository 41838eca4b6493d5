//! What the pass computes, as mathematical functions on tree views.

use vstd::prelude::*;
use crate::ast::{ExprView, ProgramView, StmtView, TypedExprView};
use crate::error::{Conflict, ConflictKind};
use crate::lattice::{join, ScalarType};
use crate::scalars::{merge, unbound, Bindings};

verus! {

/// The type state at one program point.
pub ghost struct TypeState {
    /// The best-known type of every scalar variable seen on this path.
    pub scalars: Bindings,
    /// The names committed to array use, on any path walked so far.
    pub arrays: Set<Seq<char>>,
}

/// A tree after analysis, and the state that the analysis left.
pub ghost struct Pass<T> {
    pub tree: T,
    pub state: TypeState,
}

/// Where the pass stopped: the conflict that it met, and the state as it was
/// at that point. The failed use itself changes nothing.
pub ghost struct Halt {
    pub conflict: Conflict,
    pub state: TypeState,
}

/// The state in which the pass starts: nothing bound, nothing marked.
pub open spec fn initial_state() -> TypeState {
    TypeState { scalars: unbound(), arrays: Set::empty() }
}

/// Every name bound or marked in `before` is still bound or marked in
/// `after`.
pub open spec fn grows(before: TypeState, after: TypeState) -> bool {
    &&& before.scalars.dom().subset_of(after.scalars.dom())
    &&& before.arrays.subset_of(after.arrays)
}

/// Binds `name` to `typ`, overwriting an earlier type, unless the name is
/// committed to array use.
pub open spec fn bind_scalar(state: TypeState, name: Seq<char>, typ: ScalarType) -> Result<
    TypeState,
    Conflict,
> {
    if state.arrays.contains(name) {
        Err(Conflict { kind: ConflictKind::ArrayInScalarContext, name })
    } else {
        Ok(TypeState { scalars: state.scalars.insert(name, typ), arrays: state.arrays })
    }
}

/// Commits `name` to array use, unless it holds a scalar type.
pub open spec fn mark_array(state: TypeState, name: Seq<char>) -> Result<TypeState, Conflict> {
    if state.scalars.contains_key(name) {
        Err(Conflict { kind: ConflictKind::ScalarInArrayContext, name })
    } else {
        Ok(TypeState { scalars: state.scalars, arrays: state.arrays.insert(name) })
    }
}

/// The state in which the second of two exclusive arms starts: the scalars
/// as they were at the `fork`, the array names as the first arm left them.
pub open spec fn second_arm(fork: TypeState, first: TypeState) -> TypeState {
    TypeState { scalars: fork.scalars, arrays: first.arrays }
}

/// The state after two paths meet again: their scalars merged, the array
/// names as the path walked last left them.
pub open spec fn rejoin(first: TypeState, last: TypeState) -> TypeState {
    TypeState { scalars: merge(first.scalars, last.scalars), arrays: last.arrays }
}

/// `e` with its annotation replaced by `typ`.
pub open spec fn annotated(e: TypedExprView, typ: ScalarType) -> TypedExprView {
    TypedExprView { typ, expr: e.expr }
}

/// The type that a read of `name` evaluates to in `scalars`.
pub open spec fn read_type(scalars: Bindings, name: Seq<char>) -> ScalarType {
    if scalars.contains_key(name) {
        scalars[name]
    } else {
        ScalarType::String
    }
}

/// The analysis of one expression from `state`: the annotated expression and
/// the state it leaves, or the first conflict and the state at that point.
///
/// Literals and calls have a fixed type, operators are numeric, concatenation
/// and field access are strings. An assignment has the type of its value and
/// binds its target to it. A bound variable reads as its recorded type; an
/// unbound one reads as a string and is bound to `Variable`. The arms of a
/// ternary are analysed like those of a conditional, and it has the join of
/// their types. The array forms mark their name first, then analyse their
/// parts; their own annotation is left as it was.
pub open spec fn expr_pass(e: TypedExprView, state: TypeState) -> Result<
    Pass<TypedExprView>,
    Halt,
>
    decreases e,
{
    match e.expr {
        ExprView::NumberF64(_) => Ok(Pass { tree: annotated(e, ScalarType::Float), state }),
        ExprView::Call => Ok(Pass { tree: annotated(e, ScalarType::Float), state }),
        ExprView::String(_) => Ok(Pass { tree: annotated(e, ScalarType::String), state }),
        ExprView::Regex(_) => Ok(Pass { tree: annotated(e, ScalarType::String), state }),
        ExprView::BinOp(left, op, right) => match expr_pass(*left, state) {
            Err(halt) => Err(halt),
            Ok(l) => match expr_pass(*right, l.state) {
                Err(halt) => Err(halt),
                Ok(r) => Ok(
                    Pass {
                        tree: TypedExprView {
                            typ: ScalarType::Float,
                            expr: ExprView::BinOp(Box::new(l.tree), op, Box::new(r.tree)),
                        },
                        state: r.state,
                    },
                ),
            },
        },
        ExprView::MathOp(left, op, right) => match expr_pass(*left, state) {
            Err(halt) => Err(halt),
            Ok(l) => match expr_pass(*right, l.state) {
                Err(halt) => Err(halt),
                Ok(r) => Ok(
                    Pass {
                        tree: TypedExprView {
                            typ: ScalarType::Float,
                            expr: ExprView::MathOp(Box::new(l.tree), op, Box::new(r.tree)),
                        },
                        state: r.state,
                    },
                ),
            },
        },
        ExprView::LogicalOp(left, op, right) => match expr_pass(*left, state) {
            Err(halt) => Err(halt),
            Ok(l) => match expr_pass(*right, l.state) {
                Err(halt) => Err(halt),
                Ok(r) => Ok(
                    Pass {
                        tree: TypedExprView {
                            typ: ScalarType::Float,
                            expr: ExprView::LogicalOp(Box::new(l.tree), op, Box::new(r.tree)),
                        },
                        state: r.state,
                    },
                ),
            },
        },
        ExprView::ScalarAssign(name, value) => match expr_pass(*value, state) {
            Err(halt) => Err(halt),
            Ok(v) => match bind_scalar(v.state, name, v.tree.typ) {
                Err(conflict) => Err(Halt { conflict, state: v.state }),
                Ok(bound) => Ok(
                    Pass {
                        tree: TypedExprView {
                            typ: v.tree.typ,
                            expr: ExprView::ScalarAssign(name, Box::new(v.tree)),
                        },
                        state: bound,
                    },
                ),
            },
        },
        ExprView::Ternary(cond, first, second) => match expr_pass(*cond, state) {
            Err(halt) => Err(halt),
            Ok(c) => match expr_pass(*first, c.state) {
                Err(halt) => Err(halt),
                Ok(a) => match expr_pass(*second, second_arm(c.state, a.state)) {
                    Err(halt) => Err(halt),
                    Ok(b) => Ok(
                        Pass {
                            tree: TypedExprView {
                                typ: join(a.tree.typ, b.tree.typ),
                                expr: ExprView::Ternary(
                                    Box::new(c.tree),
                                    Box::new(a.tree),
                                    Box::new(b.tree),
                                ),
                            },
                            state: rejoin(a.state, b.state),
                        },
                    ),
                },
            },
        },
        ExprView::Variable(name) => if state.scalars.contains_key(name) {
            Ok(Pass { tree: annotated(e, state.scalars[name]), state })
        } else {
            match bind_scalar(state, name, ScalarType::Variable) {
                Err(conflict) => Err(Halt { conflict, state }),
                Ok(bound) => Ok(Pass { tree: annotated(e, ScalarType::String), state: bound }),
            }
        },
        ExprView::Column(index) => match expr_pass(*index, state) {
            Err(halt) => Err(halt),
            Ok(i) => Ok(
                Pass {
                    tree: TypedExprView {
                        typ: ScalarType::String,
                        expr: ExprView::Column(Box::new(i.tree)),
                    },
                    state: i.state,
                },
            ),
        },
        ExprView::Concatenation(parts) => match exprs_pass(parts, state) {
            Err(halt) => Err(halt),
            Ok(p) => Ok(
                Pass {
                    tree: TypedExprView {
                        typ: ScalarType::String,
                        expr: ExprView::Concatenation(p.tree),
                    },
                    state: p.state,
                },
            ),
        },
        ExprView::ArrayIndex { name, indices } => match mark_array(state, name) {
            Err(conflict) => Err(Halt { conflict, state }),
            Ok(marked) => match exprs_pass(indices, marked) {
                Err(halt) => Err(halt),
                Ok(i) => Ok(
                    Pass {
                        tree: TypedExprView {
                            typ: e.typ,
                            expr: ExprView::ArrayIndex { name, indices: i.tree },
                        },
                        state: i.state,
                    },
                ),
            },
        },
        ExprView::InArray { name, indices } => match mark_array(state, name) {
            Err(conflict) => Err(Halt { conflict, state }),
            Ok(marked) => match exprs_pass(indices, marked) {
                Err(halt) => Err(halt),
                Ok(i) => Ok(
                    Pass {
                        tree: TypedExprView {
                            typ: e.typ,
                            expr: ExprView::InArray { name, indices: i.tree },
                        },
                        state: i.state,
                    },
                ),
            },
        },
        ExprView::ArrayAssign { name, indices, value } => match mark_array(state, name) {
            Err(conflict) => Err(Halt { conflict, state }),
            Ok(marked) => match exprs_pass(indices, marked) {
                Err(halt) => Err(halt),
                Ok(i) => match expr_pass(*value, i.state) {
                    Err(halt) => Err(halt),
                    Ok(v) => Ok(
                        Pass {
                            tree: TypedExprView {
                                typ: e.typ,
                                expr: ExprView::ArrayAssign {
                                    name,
                                    indices: i.tree,
                                    value: Box::new(v.tree),
                                },
                            },
                            state: v.state,
                        },
                    ),
                },
            },
        },
    }
}

/// The analysis of a list of expressions, each from the state that its
/// predecessor left.
pub open spec fn exprs_pass(es: Seq<TypedExprView>, state: TypeState) -> Result<
    Pass<Seq<TypedExprView>>,
    Halt,
>
    decreases es,
{
    if es.len() == 0 {
        Ok(Pass { tree: es, state })
    } else {
        match expr_pass(es.first(), state) {
            Err(halt) => Err(halt),
            Ok(head) => match exprs_pass(es.drop_first(), head.state) {
                Err(halt) => Err(halt),
                Ok(tail) => Ok(Pass { tree: seq![head.tree] + tail.tree, state: tail.state }),
            },
        }
    }
}

/// The analysis of one statement from `state`.
///
/// The arms of a conditional both start from the scalars that the test left,
/// and their results are merged; a missing `else` is an arm that changes
/// nothing. A loop is walked twice: test and body, merged with the state
/// after the test, then test and body again from there, merged once more.
/// The last annotations are those of the second walk, which reads none that
/// the first one wrote. A `Printf` analyses its format expression, then its
/// arguments in order.
pub open spec fn stmt_pass(s: StmtView, state: TypeState) -> Result<Pass<StmtView>, Halt>
    decreases s,
{
    match s {
        StmtView::Break => Ok(Pass { tree: s, state }),
        StmtView::Expr(e) => match expr_pass(e, state) {
            Err(halt) => Err(halt),
            Ok(p) => Ok(Pass { tree: StmtView::Expr(p.tree), state: p.state }),
        },
        StmtView::Print(e) => match expr_pass(e, state) {
            Err(halt) => Err(halt),
            Ok(p) => Ok(Pass { tree: StmtView::Print(p.tree), state: p.state }),
        },
        StmtView::Printf { args, fstring } => match expr_pass(fstring, state) {
            Err(halt) => Err(halt),
            Ok(f) => match exprs_pass(args, f.state) {
                Err(halt) => Err(halt),
                Ok(p) => Ok(
                    Pass {
                        tree: StmtView::Printf { args: p.tree, fstring: f.tree },
                        state: p.state,
                    },
                ),
            },
        },
        StmtView::Group(body) => match stmts_pass(body, state) {
            Err(halt) => Err(halt),
            Ok(p) => Ok(Pass { tree: StmtView::Group(p.tree), state: p.state }),
        },
        StmtView::If(test, then, otherwise) => match expr_pass(test, state) {
            Err(halt) => Err(halt),
            Ok(t) => match stmt_pass(*then, t.state) {
                Err(halt) => Err(halt),
                Ok(a) => match otherwise {
                    None => Ok(
                        Pass {
                            tree: StmtView::If(t.tree, Box::new(a.tree), None),
                            state: rejoin(a.state, second_arm(t.state, a.state)),
                        },
                    ),
                    Some(branch) => match stmt_pass(*branch, second_arm(t.state, a.state)) {
                        Err(halt) => Err(halt),
                        Ok(b) => Ok(
                            Pass {
                                tree: StmtView::If(
                                    t.tree,
                                    Box::new(a.tree),
                                    Some(Box::new(b.tree)),
                                ),
                                state: rejoin(a.state, b.state),
                            },
                        ),
                    },
                },
            },
        },
        StmtView::While(test, body) => match expr_pass(test, state) {
            Err(halt) => Err(halt),
            Ok(t1) => match stmt_pass(*body, t1.state) {
                Err(halt) => Err(halt),
                Ok(b1) => match expr_pass(test, rejoin(t1.state, b1.state)) {
                    Err(halt) => Err(halt),
                    Ok(t2) => match stmt_pass(*body, t2.state) {
                        Err(halt) => Err(halt),
                        Ok(b2) => Ok(
                            Pass {
                                tree: StmtView::While(t2.tree, Box::new(b2.tree)),
                                state: rejoin(t2.state, b2.state),
                            },
                        ),
                    },
                },
            },
        },
    }
}

/// The analysis of a list of statements in textual order.
pub open spec fn stmts_pass(ss: Seq<StmtView>, state: TypeState) -> Result<
    Pass<Seq<StmtView>>,
    Halt,
>
    decreases ss,
{
    if ss.len() == 0 {
        Ok(Pass { tree: ss, state })
    } else {
        match stmt_pass(ss.first(), state) {
            Err(halt) => Err(halt),
            Ok(head) => match stmts_pass(ss.drop_first(), head.state) {
                Err(halt) => Err(halt),
                Ok(tail) => Ok(Pass { tree: seq![head.tree] + tail.tree, state: tail.state }),
            },
        }
    }
}

/// The analysis of a whole program: its entry block from the initial state.
pub open spec fn program_pass(p: ProgramView) -> Result<ProgramView, Conflict> {
    match stmt_pass(p.body, initial_state()) {
        Err(halt) => Err(halt.conflict),
        Ok(done) => Ok(ProgramView { name: p.name, body: done.tree }),
    }
}

} // verus!
