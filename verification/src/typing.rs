//! The walk over the program tree.

use vstd::prelude::*;
use crate::ast::{exprs_view, stmts_view, Expr, Program, ProgramView, Stmt, TypedExpr};
use crate::error::{ConflictKind, PrintableError};
use crate::lattice::{merge_types, ScalarType};
use crate::model::{
    bind_scalar, expr_pass, exprs_pass, grows, initial_state, mark_array, program_pass,
    stmt_pass, stmts_pass, Halt, Pass, TypeState,
};
use crate::names::NameSet;
use crate::scalars::{
    bindings, chunkmap_clone, chunkmap_get, chunkmap_insert, chunkmap_new, lemma_merge_all_pair,
    merge_maps, MapT,
};
use crate::shape::{
    expr_size, expr_skeleton, exprs_size, exprs_skeleton, lemma_expr_pass_of_skeleton,
    lemma_expr_size_skeleton, lemma_exprs_size_index, lemma_stmt_pass_of_skeleton,
    lemma_stmt_size_skeleton, lemma_stmts_size_index, program_skeleton, stmt_size, stmt_skeleton,
    stmts_size, stmts_skeleton,
};

verus! {

/// The state of one run of the pass.
pub struct TypeAnalysis {
    /// The scalar types on the path being walked: forked and merged at every
    /// branch.
    global_scalars: MapT,
    /// The names used as arrays anywhere so far: never forked.
    global_arrays: NameSet,
}

impl View for TypeAnalysis {
    type V = TypeState;

    closed spec fn view(&self) -> TypeState {
        TypeState { scalars: bindings(&self.global_scalars), arrays: self.global_arrays@ }
    }
}

/// What a list that is analysed in two parts gives: the part already
/// analysed, then what the analysis of the rest gives.
spec fn after_prefix<T>(done: Seq<T>, rest: Result<Pass<Seq<T>>, Halt>) -> Result<
    Pass<Seq<T>>,
    Halt,
> {
    match rest {
        Err(halt) => Err(halt),
        Ok(p) => Ok(Pass { tree: done + p.tree, state: p.state }),
    }
}

impl TypeAnalysis {
    /// A run that has seen nothing yet.
    pub fn new() -> (analysis: TypeAnalysis)
        ensures
            analysis@ == initial_state(),
    {
        TypeAnalysis { global_scalars: chunkmap_new(), global_arrays: NameSet::new() }
    }

    /// The type recorded for the scalar `var`, if it has one.
    pub fn scalar_type(&self, var: &String) -> (typ: Option<ScalarType>)
        ensures
            typ == (if self@.scalars.contains_key(var@) {
                Some(self@.scalars[var@])
            } else {
                None
            }),
    {
        chunkmap_get(&self.global_scalars, var)
    }

    /// Whether `var` is committed to array use.
    pub fn is_array(&self, var: &String) -> (marked: bool)
        ensures
            marked == self@.arrays.contains(var@),
    {
        self.global_arrays.contains(var)
    }

    /// Records that `var` is used as a scalar of type `typ`.
    pub fn use_as_scalar(&mut self, var: &String, typ: ScalarType) -> (res: Result<
        (),
        PrintableError,
    >)
        ensures
            match bind_scalar(old(self)@, var@, typ) {
                Ok(state) => res is Ok && final(self)@ == state,
                Err(conflict) => res matches Err(e) && e@ == conflict && final(self)@ == old(
                    self,
                )@,
            },
    {
        if self.global_arrays.contains(var) {
            return Err(
                PrintableError { kind: ConflictKind::ArrayInScalarContext, name: var.clone() },
            );
        }
        self.global_scalars = chunkmap_insert(&self.global_scalars, var.clone(), typ);
        Ok(())
    }

    /// Records that `var` is used as an array.
    pub fn use_as_array(&mut self, var: &String) -> (res: Result<(), PrintableError>)
        ensures
            match mark_array(old(self)@, var@) {
                Ok(state) => res is Ok && final(self)@ == state,
                Err(conflict) => res matches Err(e) && e@ == conflict && final(self)@ == old(
                    self,
                )@,
            },
    {
        if let Some(_) = chunkmap_get(&self.global_scalars, var) {
            return Err(
                PrintableError { kind: ConflictKind::ScalarInArrayContext, name: var.clone() },
            );
        }
        self.global_arrays.insert(var.clone());
        Ok(())
    }

    /// Analyses one expression: annotates it and every expression below it,
    /// and updates the state. On a conflict the walk stops at once: the state
    /// is the one reached at the conflict, and the tree has lost nothing but
    /// annotations.
    #[verifier::rlimit(50)]
    pub fn analyze_expr(&mut self, expr: &mut TypedExpr) -> (res: Result<(), PrintableError>)
        ensures
            expr_skeleton(final(expr)@) == expr_skeleton(old(expr)@),
            grows(old(self)@, final(self)@),
            match expr_pass(old(expr)@, old(self)@) {
                Ok(p) => res is Ok && final(expr)@ == p.tree && final(self)@ == p.state,
                Err(halt) => res matches Err(e) && e@ == halt.conflict && final(self)@
                    == halt.state,
            },
        decreases expr_size(old(expr)@), 0nat,
    {
        match &mut expr.expr {
            Expr::NumberF64(_) => {
                expr.typ = ScalarType::Float;
            },
            Expr::String(_) => {
                expr.typ = ScalarType::String;
            },
            Expr::BinOp(left, _op, right) => {
                self.analyze_expr(left)?;
                self.analyze_expr(right)?;
                expr.typ = ScalarType::Float;
            },
            Expr::MathOp(left, _op, right) => {
                self.analyze_expr(left)?;
                self.analyze_expr(right)?;
                expr.typ = ScalarType::Float;
            },
            Expr::LogicalOp(left, _op, right) => {
                self.analyze_expr(left)?;
                self.analyze_expr(right)?;
                expr.typ = ScalarType::Float;
            },
            Expr::ScalarAssign(var, value) => {
                self.analyze_expr(value)?;
                self.use_as_scalar(var, value.typ)?;
                expr.typ = value.typ;
            },
            Expr::Regex(_) => {
                expr.typ = ScalarType::String;
            },
            Expr::Ternary(cond, expr1, expr2) => {
                self.analyze_expr(cond)?;
                let mut if_so_map = chunkmap_clone(&self.global_scalars);
                self.analyze_expr(expr1)?;
                core::mem::swap(&mut if_so_map, &mut self.global_scalars);
                self.analyze_expr(expr2)?;
                let if_not_map = chunkmap_clone(&self.global_scalars);
                self.global_scalars = merge_maps(&[&if_so_map, &if_not_map]);
                proof {
                    lemma_merge_all_pair(seq![&if_so_map, &if_not_map]);
                }
                expr.typ = merge_types(&expr1.typ, &expr2.typ);
            },
            Expr::Variable(var) => {
                if let Some(typ) = chunkmap_get(&self.global_scalars, var) {
                    expr.typ = typ;
                } else {
                    expr.typ = ScalarType::String;
                    self.use_as_scalar(var, ScalarType::Variable)?;
                }
            },
            Expr::Column(col) => {
                expr.typ = ScalarType::String;
                self.analyze_expr(col)?;
            },
            Expr::Call => {
                expr.typ = ScalarType::Float;
            },
            Expr::Concatenation(vals) => {
                expr.typ = ScalarType::String;
                self.analyze_exprs(vals)?;
            },
            Expr::ArrayIndex { indices, name } => {
                self.use_as_array(name)?;
                self.analyze_exprs(indices)?;
            },
            Expr::InArray { indices, name } => {
                self.use_as_array(name)?;
                self.analyze_exprs(indices)?;
            },
            Expr::ArrayAssign { indices, name, value } => {
                self.use_as_array(name)?;
                self.analyze_exprs(indices)?;
                self.analyze_expr(value)?;
            },
        };
        Ok(())
    }

    /// Analyses a list of expressions in order, each from the state that its
    /// predecessor left.
    pub fn analyze_exprs(&mut self, exprs: &mut Vec<TypedExpr>) -> (res: Result<
        (),
        PrintableError,
    >)
        ensures
            exprs_skeleton(exprs_view(final(exprs)@)) == exprs_skeleton(exprs_view(old(exprs)@)),
            grows(old(self)@, final(self)@),
            match exprs_pass(exprs_view(old(exprs)@), old(self)@) {
                Ok(p) => res is Ok && exprs_view(final(exprs)@) == p.tree && final(self)@
                    == p.state,
                Err(halt) => res matches Err(e) && e@ == halt.conflict && final(self)@
                    == halt.state,
            },
        decreases exprs_size(exprs_view(old(exprs)@)), 1nat,
    {
        let ghost before = exprs_view(exprs@);
        let ghost start = self@;
        let n = exprs.len();
        let mut i: usize = 0;
        proof {
            assert(before.skip(0) =~= before);
            if let Ok(p) = exprs_pass(before, start) {
                assert(exprs_view(exprs@).take(0) + p.tree =~= p.tree);
            }
        }
        while i < n
            invariant
                i <= n,
                n == exprs.len(),
                n == before.len(),
                before == exprs_view(old(exprs)@),
                start == old(self)@,
                grows(start, self@),
                forall|j: int| i <= j < n ==> exprs_view(exprs@)[j] == before[j],
                forall|j: int|
                    0 <= j < i ==> expr_skeleton(exprs_view(exprs@)[j]) == expr_skeleton(
                        before[j],
                    ),
                exprs_pass(before, start) == after_prefix(
                    exprs_view(exprs@).take(i as int),
                    exprs_pass(before.skip(i as int), self@),
                ),
            decreases n - i,
        {
            let ghost done = exprs_view(exprs@).take(i as int);
            let ghost here = self@;
            proof {
                lemma_exprs_size_index(before, i as int);
                assert(before.skip(i as int).first() == before[i as int]);
                assert(before.skip(i as int).drop_first() =~= before.skip(i + 1));
            }
            match self.analyze_expr(&mut exprs[i]) {
                Err(e) => {
                    proof {
                        assert(exprs_skeleton(exprs_view(exprs@)) =~= exprs_skeleton(before));
                    }
                    return Err(e);
                },
                Ok(()) => {},
            }
            proof {
                let head = expr_pass(before[i as int], here)->Ok_0;
                let rest = exprs_pass(before.skip(i + 1), self@);
                assert(exprs_view(exprs@).take(i + 1) =~= done.push(head.tree));
                if let Ok(tail) = rest {
                    assert(done + (seq![head.tree] + tail.tree) =~= done.push(head.tree)
                        + tail.tree);
                }
            }
            i += 1;
        }
        proof {
            assert(exprs_view(exprs@).take(n as int) =~= exprs_view(exprs@));
            assert(exprs_view(exprs@) + before.skip(n as int) =~= exprs_view(exprs@));
            assert(exprs_skeleton(exprs_view(exprs@)) =~= exprs_skeleton(before));
        }
        Ok(())
    }

    /// Analyses one statement: annotates every expression that it visits,
    /// and updates the state. Both arms of a conditional start from the
    /// scalar types as they were after the test, and a loop is walked twice.
    /// On a conflict the walk stops at once.
    #[verifier::rlimit(50)]
    pub fn analyze_stmt(&mut self, stmt: &mut Stmt) -> (res: Result<(), PrintableError>)
        ensures
            stmt_skeleton(final(stmt)@) == stmt_skeleton(old(stmt)@),
            grows(old(self)@, final(self)@),
            match stmt_pass(old(stmt)@, old(self)@) {
                Ok(p) => res is Ok && final(stmt)@ == p.tree && final(self)@ == p.state,
                Err(halt) => res matches Err(e) && e@ == halt.conflict && final(self)@
                    == halt.state,
            },
        decreases stmt_size(old(stmt)@), 0nat,
    {
        match stmt {
            Stmt::Printf { args: printf_args, fstring } => {
                self.analyze_expr(fstring)?;
                self.analyze_exprs(printf_args)?;
            },
            Stmt::Break => {},
            Stmt::Expr(expr) => self.analyze_expr(expr)?,
            Stmt::Print(expr) => self.analyze_expr(expr)?,
            Stmt::Group(grouping) => {
                self.analyze_stmts(grouping)?;
            },
            Stmt::If(test, if_so, if_not) => {
                self.analyze_expr(test)?;
                let mut if_so_map = chunkmap_clone(&self.global_scalars);
                self.analyze_stmt(if_so)?;
                core::mem::swap(&mut if_so_map, &mut self.global_scalars);
                if let Some(else_case) = if_not {
                    self.analyze_stmt(else_case)?
                }
                let if_not_map = chunkmap_clone(&self.global_scalars);
                self.global_scalars = merge_maps(&[&if_so_map, &if_not_map]);
                proof {
                    lemma_merge_all_pair(seq![&if_so_map, &if_not_map]);
                }
            },
            Stmt::While(test, body) => {
                let ghost test_before = test@;
                let ghost body_before = body@;
                self.analyze_expr(test)?;
                let after_test_map = chunkmap_clone(&self.global_scalars);
                self.analyze_stmt(body)?;
                let after_body_map = chunkmap_clone(&self.global_scalars);
                self.global_scalars = merge_maps(&[&after_test_map, &after_body_map]);
                proof {
                    lemma_merge_all_pair(seq![&after_test_map, &after_body_map]);
                    lemma_expr_size_skeleton(test@);
                    lemma_expr_size_skeleton(test_before);
                    lemma_expr_pass_of_skeleton(test@, self@);
                    lemma_expr_pass_of_skeleton(test_before, self@);
                }
                self.analyze_expr(test)?;
                let after_test_map = chunkmap_clone(&self.global_scalars);
                proof {
                    lemma_stmt_size_skeleton(body@);
                    lemma_stmt_size_skeleton(body_before);
                    lemma_stmt_pass_of_skeleton(body@, self@);
                    lemma_stmt_pass_of_skeleton(body_before, self@);
                }
                self.analyze_stmt(body)?;
                let after_body_map = chunkmap_clone(&self.global_scalars);
                self.global_scalars = merge_maps(&[&after_test_map, &after_body_map]);
                proof {
                    lemma_merge_all_pair(seq![&after_test_map, &after_body_map]);
                }
            },
        }
        Ok(())
    }

    /// Analyses a list of statements in textual order, each from the state
    /// that its predecessor left.
    #[verifier::rlimit(50)]
    pub fn analyze_stmts(&mut self, stmts: &mut Vec<Stmt>) -> (res: Result<(), PrintableError>)
        ensures
            stmts_skeleton(stmts_view(final(stmts)@)) == stmts_skeleton(stmts_view(old(stmts)@)),
            grows(old(self)@, final(self)@),
            match stmts_pass(stmts_view(old(stmts)@), old(self)@) {
                Ok(p) => res is Ok && stmts_view(final(stmts)@) == p.tree && final(self)@
                    == p.state,
                Err(halt) => res matches Err(e) && e@ == halt.conflict && final(self)@
                    == halt.state,
            },
        decreases stmts_size(stmts_view(old(stmts)@)), 1nat,
    {
        let ghost before = stmts_view(stmts@);
        let ghost start = self@;
        let n = stmts.len();
        let mut i: usize = 0;
        proof {
            assert(before.skip(0) =~= before);
            if let Ok(p) = stmts_pass(before, start) {
                assert(stmts_view(stmts@).take(0) + p.tree =~= p.tree);
            }
        }
        while i < n
            invariant
                i <= n,
                n == stmts.len(),
                n == before.len(),
                before == stmts_view(old(stmts)@),
                start == old(self)@,
                grows(start, self@),
                forall|j: int| i <= j < n ==> stmts_view(stmts@)[j] == before[j],
                forall|j: int|
                    0 <= j < i ==> stmt_skeleton(stmts_view(stmts@)[j]) == stmt_skeleton(
                        before[j],
                    ),
                stmts_pass(before, start) == after_prefix(
                    stmts_view(stmts@).take(i as int),
                    stmts_pass(before.skip(i as int), self@),
                ),
            decreases n - i,
        {
            let ghost done = stmts_view(stmts@).take(i as int);
            let ghost here = self@;
            proof {
                lemma_stmts_size_index(before, i as int);
                assert(before.skip(i as int).first() == before[i as int]);
                assert(before.skip(i as int).drop_first() =~= before.skip(i + 1));
            }
            match self.analyze_stmt(&mut stmts[i]) {
                Err(e) => {
                    proof {
                        assert(stmts_skeleton(stmts_view(stmts@)) =~= stmts_skeleton(before));
                    }
                    return Err(e);
                },
                Ok(()) => {},
            }
            proof {
                let head = stmt_pass(before[i as int], here)->Ok_0;
                let rest = stmts_pass(before.skip(i + 1), self@);
                assert(stmts_view(stmts@).take(i + 1) =~= done.push(head.tree));
                if let Ok(tail) = rest {
                    assert(done + (seq![head.tree] + tail.tree) =~= done.push(head.tree)
                        + tail.tree);
                }
            }
            i += 1;
        }
        proof {
            assert(stmts_view(stmts@).take(n as int) =~= stmts_view(stmts@));
            assert(stmts_view(stmts@) + before.skip(n as int) =~= stmts_view(stmts@));
            assert(stmts_skeleton(stmts_view(stmts@)) =~= stmts_skeleton(before));
        }
        Ok(())
    }

    /// Analyses the entry block of `prog`.
    pub fn analyze_program(&mut self, prog: &mut Program) -> (res: Result<(), PrintableError>)
        ensures
            program_skeleton(final(prog)@) == program_skeleton(old(prog)@),
            grows(old(self)@, final(self)@),
            match stmt_pass(old(prog)@.body, old(self)@) {
                Ok(p) => res is Ok && final(prog)@ == (ProgramView {
                    name: old(prog)@.name,
                    body: p.tree,
                }) && final(self)@ == p.state,
                Err(halt) => res matches Err(e) && e@ == halt.conflict && final(self)@
                    == halt.state,
            },
    {
        self.analyze_stmt(&mut prog.main.body)?;
        Ok(())
    }
}

/// Infers the scalar type of every expression that the entry block of `prog`
/// evaluates, and writes it into the tree. Fails on the first name that is
/// used both as a scalar and as an array; the tree has then lost nothing but
/// annotations.
pub fn analyze(prog: &mut Program) -> (res: Result<(), PrintableError>)
    ensures
        program_skeleton(final(prog)@) == program_skeleton(old(prog)@),
        match program_pass(old(prog)@) {
            Ok(tree) => res is Ok && final(prog)@ == tree,
            Err(conflict) => res matches Err(e) && e@ == conflict,
        },
{
    let mut analysis = TypeAnalysis::new();
    analysis.analyze_program(prog)
}

} // verus!
