//! What running code does to the bindings around it and to the drawing
//! style, proved by induction over the evaluator's specification.
use vstd::prelude::*;

use crate::ast::{AstBlock, AstFunction, AstNode, AstStatement, BaseValue, BaseValueType, Expression, ExpressionType};
use crate::error::Coords;
use crate::execution::{
    spec_assign, spec_bind, spec_builtin, spec_enter, spec_eval, spec_eval_args, spec_eval_base, spec_eval_elems,
    spec_exec_step, spec_exec_stmts, spec_fill_style, spec_find, spec_get, spec_leave, spec_line_style, spec_run_block,
    spec_set, spec_for, spec_while, spec_find_fn, EState,
};
use crate::program::SErr;
use crate::text::spec_decimal;
use crate::value::SValue;

verus! {

/// `b` keeps the names of `a`'s bindings, its base and its globals' names.
pub open spec fn frame_ok(a: EState, b: EState) -> bool {
    &&& b.vars.len() >= a.vars.len()
    &&& forall|i: int| 0 <= i < a.vars.len() ==> #[trigger] b.vars[i].0 == a.vars[i].0
    &&& b.base == a.base
    &&& b.globals.len() == a.globals.len()
    &&& forall|i: int| 0 <= i < a.globals.len() ==> #[trigger] b.globals[i].0 == a.globals[i].0
}

/// The bindings `b` has beyond `a`'s are of names not visible in `a`.
pub open spec fn fresh_ok(a: EState, b: EState) -> bool {
    forall|i: int| a.vars.len() <= i < b.vars.len() ==> spec_get(a, (#[trigger] b.vars[i]).0@) is None
}

/// Whether a command is drawn with the given style or draws nothing.
pub open spec fn cmd_styled(c: Seq<char>, st: EState) -> bool {
    ||| exists|p: Seq<char>| c == p + spec_fill_style(st)
    ||| exists|p: Seq<char>| c == p + spec_line_style(st)
    ||| exists|t: i32| c == "sleep "@ + spec_decimal(t as int)
    ||| c == "animate"@ || c == "frame"@ || c == "clear"@
}

/// `b` has `a`'s style, and its commands are `a`'s followed by commands
/// drawn in that style.
pub open spec fn style_kept(a: EState, b: EState) -> bool {
    &&& b.fill == a.fill
    &&& b.stroke == a.stroke
    &&& b.width == a.width
    &&& b.cmds.len() >= a.cmds.len()
    &&& b.cmds.subrange(0, a.cmds.len() as int) == a.cmds
    &&& forall|i: int| a.cmds.len() <= i < b.cmds.len() ==> cmd_styled(#[trigger] b.cmds[i], a)
}

pub open spec fn is_style_call(name: Seq<char>) -> bool {
    name == "setFigureColor"@ || name == "setLineColor"@ || name == "setLineWidth"@
}

/// Statements from position `i` on make no style call.
pub open spec fn quiet_from(nodes: Seq<AstNode>, i: int) -> bool
    decreases nodes, nodes.len() - i,
{
    if i < 0 || i >= nodes.len() {
        true
    } else {
        quiet_node(nodes[i]) && quiet_from(nodes, i + 1)
    }
}

/// A statement makes no style call, nor do the blocks in it.
pub open spec fn quiet_node(n: AstNode) -> bool
    decreases n, 0int,
{
    match n.statement {
        AstStatement::Command { name, args: _ } => !is_style_call(name@),
        AstStatement::If { clause: _, block, else_block } => quiet_from(block.nodes@, 0) && match else_block {
            Some(eb) => quiet_from(eb.nodes@, 0),
            None => true,
        },
        AstStatement::While { clause: _, block } => quiet_from(block.nodes@, 0),
        AstStatement::For { val: _, from: _, to: _, block } => quiet_from(block.nodes@, 0),
        _ => true,
    }
}

/// No function body makes a style call.
pub open spec fn quiet_funcs(funcs: Seq<AstFunction>) -> bool {
    forall|k: int| 0 <= k < funcs.len() ==> quiet_from(#[trigger] funcs[k].block.nodes@, 0)
}

/// What one evaluation does to the state around it.
pub open spec fn kept(a: EState, b: EState, quiet: bool) -> bool {
    &&& frame_ok(a, b)
    &&& fresh_ok(a, b)
    &&& quiet ==> style_kept(a, b)
}

// ------------------------------------------------------------ small facts

pub proof fn lemma_find_grows(a: Seq<(String, SValue)>, b: Seq<(String, SValue)>, from: int, name: Seq<char>)
    requires
        b.len() >= a.len(),
        forall|i: int| 0 <= i < a.len() ==> #[trigger] b[i].0 == a[i].0,
    ensures
        spec_find(a, from, name) >= 0 ==> spec_find(b, from, name) >= spec_find(a, from, name),
        spec_find(b, from, name) >= -1,
        spec_find(b, from, name) < b.len(),
        spec_find(b, from, name) >= 0 ==> spec_find(b, from, name) >= from && b[spec_find(b, from, name)].0@ == name,
    decreases b.len(),
{
    if b.len() > a.len() {
        lemma_find_grows(a, b.drop_last(), from, name);
    } else if a.len() > 0 {
        lemma_find_grows(a.drop_last(), b.drop_last(), from, name);
    }
}

/// A name visible before stays visible.
proof fn lemma_visible_stays(a: EState, b: EState, name: Seq<char>)
    requires
        frame_ok(a, b),
        spec_get(a, name) is Some,
    ensures
        spec_get(b, name) is Some,
{
    lemma_find_grows(a.vars, b.vars, a.base, name);
    lemma_find_grows(a.globals, b.globals, 0, name);
}

proof fn lemma_kept_trans(a: EState, b: EState, c: EState, quiet: bool)
    requires
        kept(a, b, quiet),
        kept(b, c, quiet),
    ensures
        kept(a, c, quiet),
{
    assert forall|i: int| a.vars.len() <= i < c.vars.len() implies spec_get(a, (#[trigger] c.vars[i]).0@) is None by {
        if i < b.vars.len() {
            assert(c.vars[i].0 == b.vars[i].0);
        } else {
            if spec_get(a, c.vars[i].0@) is Some {
                lemma_visible_stays(a, b, c.vars[i].0@);
            }
        }
    }
    if quiet {
        assert(spec_fill_style(b) == spec_fill_style(a));
        assert(spec_line_style(b) == spec_line_style(a));
        assert forall|i: int| a.cmds.len() <= i < c.cmds.len() implies cmd_styled(#[trigger] c.cmds[i], a) by {
            if i < b.cmds.len() {
                assert(c.cmds.subrange(0, b.cmds.len() as int)[i] == b.cmds[i]);
                assert(cmd_styled(b.cmds[i], a));
            } else {
                assert(cmd_styled(c.cmds[i], b));
            }
        }
        assert(c.cmds.subrange(0, a.cmds.len() as int) =~= a.cmds) by {
            assert forall|i: int| 0 <= i < a.cmds.len() implies c.cmds[i] == a.cmds[i] by {
                assert(c.cmds.subrange(0, b.cmds.len() as int)[i] == b.cmds[i]);
                assert(b.cmds.subrange(0, a.cmds.len() as int)[i] == a.cmds[i]);
            }
        }
    }
}

pub proof fn lemma_kept_refl(a: EState, quiet: bool)
    ensures
        kept(a, a, quiet),
{
    assert(a.cmds.subrange(0, a.cmds.len() as int) =~= a.cmds);
}

proof fn lemma_set_kept(st: EState, name: Seq<char>, v: SValue, quiet: bool)
    ensures
        kept(st, spec_set(st, name, v), quiet),
{
    assert(st.cmds.subrange(0, st.cmds.len() as int) =~= st.cmds);
    lemma_find_grows(st.vars, st.vars, st.base, name);
    lemma_find_grows(st.globals, st.globals, 0, name);
}

proof fn lemma_assign_kept(st: EState, var: crate::ast::VariableCall, v: SValue, coords: Coords, quiet: bool)
    ensures
        spec_assign(st, var, v, coords) is Some ==> kept(st, spec_assign(st, var, v, coords)->0, quiet),
{
    match var {
        crate::ast::VariableCall::Name(name) => lemma_set_kept(st, name@, v, quiet),
        crate::ast::VariableCall::ArrayCall(name, inds) => {
            match crate::execution::spec_eval_indices(st, inds@, coords) {
                Ok(idx) => match crate::execution::spec_index_set(spec_get(st, name@)->0, idx, v) {
                    Some(arr) => lemma_set_kept(st, name@, arr, quiet),
                    None => {},
                },
                Err(_) => {},
            }
        },
    }
}

proof fn lemma_bind_kept(st: EState, name: String, v: SValue, quiet: bool)
    requires
        spec_get(st, name@) is None,
    ensures
        kept(st, spec_bind(st, name, v), quiet),
{
    assert(st.cmds.subrange(0, st.cmds.len() as int) =~= st.cmds);
}

proof fn lemma_builtin_kept(st: EState, name: Seq<char>, vals: Seq<SValue>, coords: Coords, quiet: bool)
    requires
        quiet ==> !is_style_call(name),
    ensures
        match spec_builtin(st, name, vals, coords) {
            Some(Ok(s2)) => kept(st, s2, quiet),
            _ => true,
        },
{
    assert(st.cmds.subrange(0, st.cmds.len() as int) =~= st.cmds);
    reveal_strlit("circle");
    reveal_strlit("line");
    reveal_strlit("rectangle");
    reveal_strlit("arc");
    reveal_strlit("polygon");
    reveal_strlit("setLineColor");
    reveal_strlit("setFigureColor");
    reveal_strlit("setLineWidth");
    reveal_strlit("sleep");
    reveal_strlit("animate");
    reveal_strlit("frame");
    reveal_strlit("clear");
    assert("sleep"@[0] != "frame"@[0] && "sleep"@[0] != "clear"@[0] && "frame"@[0] != "clear"@[0]);
    assert("polygon"@[0] != "animate"@[0]);
    assert("setLineColor"@[7] != "setLineWidth"@[7]);
    match spec_builtin(st, name, vals, coords) {
        Some(Ok(s2)) => {
            if quiet && s2.cmds.len() > st.cmds.len() {
                assert(s2.cmds == st.cmds.push(s2.cmds.last()));
                assert(s2.cmds.subrange(0, st.cmds.len() as int) =~= st.cmds);
                let c = s2.cmds.last();
                assert(cmd_styled(c, st)) by {
                    reveal_strlit("sleep ");
                    if name == "animate"@ || name == "frame"@ || name == "clear"@ {
                    } else if name == "sleep"@ {
                        let t = crate::execution::spec_nonneg_arg(vals)->0;
                        assert(c == "sleep "@ + spec_decimal(t as int));
                    } else if name == "line"@ {
                        let p = c.subrange(0, c.len() - spec_line_style(st).len());
                        assert(c =~= p + spec_line_style(st));
                    } else {
                        let p = c.subrange(0, c.len() - spec_fill_style(st).len());
                        assert(c =~= p + spec_fill_style(st));
                    }
                }
                assert forall|i: int| st.cmds.len() <= i < s2.cmds.len() implies cmd_styled(#[trigger] s2.cmds[i], st) by {
                    assert(i == s2.cmds.len() - 1);
                }
            }
        },
        _ => {},
    }
}

/// Leaving a scope begun in `st` keeps what the scope's run kept.
proof fn lemma_leave_kept(st: EState, inner: EState, after: EState, quiet: bool)
    requires
        kept(inner, after, quiet),
        inner.vars.len() >= st.vars.len(),
        forall|i: int| 0 <= i < st.vars.len() ==> #[trigger] inner.vars[i].0 == st.vars[i].0,
        inner.globals == st.globals,
        quiet ==> (inner.fill == st.fill && inner.stroke == st.stroke && inner.width == st.width && inner.cmds == st.cmds),
    ensures
        kept(st, spec_leave(st, after), quiet),
{
    let l = spec_leave(st, after);
    assert(l.vars.len() == st.vars.len());
    assert forall|i: int| 0 <= i < st.vars.len() implies #[trigger] l.vars[i].0 == st.vars[i].0 by {
        assert(after.vars[i].0 == inner.vars[i].0);
    }
    if quiet {
        assert forall|i: int| st.cmds.len() <= i < l.cmds.len() implies cmd_styled(#[trigger] l.cmds[i], st) by {
            assert(cmd_styled(after.cmds[i], inner));
            assert(spec_fill_style(inner) == spec_fill_style(st));
            assert(spec_line_style(inner) == spec_line_style(st));
        }
    }
}

// ------------------------------------------------------------- induction

proof fn lemma_call_kept(funcs: Seq<AstFunction>, s1: EState, k: int, vals: Seq<SValue>, fuel: nat, q: bool)
    requires
        0 <= k < funcs.len(),
        vals.len() >= funcs[k].args@.len(),
        fuel > 0,
        q ==> quiet_funcs(funcs),
    ensures
        kept(s1, spec_leave(s1, spec_exec_stmts(funcs, spec_enter(s1, funcs[k], vals), funcs[k].block.nodes@, 0, (fuel - 1) as nat).0), q),
        spec_leave(s1, spec_exec_stmts(funcs, spec_enter(s1, funcs[k], vals), funcs[k].block.nodes@, 0, (fuel - 1) as nat).0).vars.len() == s1.vars.len(),
    decreases (fuel - 1) as nat, 2nat, funcs[k].block, 0nat, 0int,
{
    let s_in = spec_enter(s1, funcs[k], vals);
    if q {
        assert(quiet_from(funcs[k].block.nodes@, 0));
    }
    lemma_exec_stmts(funcs, s_in, funcs[k].block.nodes@, 0, (fuel - 1) as nat, q);
    let s2 = spec_exec_stmts(funcs, s_in, funcs[k].block.nodes@, 0, (fuel - 1) as nat).0;
    assert forall|i: int| 0 <= i < s1.vars.len() implies #[trigger] s_in.vars[i].0 == s1.vars[i].0 by {}
    lemma_leave_kept(s1, s_in, s2, q);
}

pub proof fn lemma_eval(funcs: Seq<AstFunction>, st: EState, e: Expression, fuel: nat, q: bool)
    requires
        q ==> quiet_funcs(funcs),
    ensures
        kept(st, spec_eval(funcs, st, e, fuel).0, q),
        spec_eval(funcs, st, e, fuel).0.vars.len() == st.vars.len(),
    decreases fuel, 0nat, e, 0nat, 0int,
{
    match e.expr_type {
        ExpressionType::Value(b) => lemma_eval_base(funcs, st, b, e.coords, fuel, q),
        ExpressionType::Unary(_, inner) => lemma_eval(funcs, st, *inner, fuel, q),
        ExpressionType::Binary(_, l, r) => {
            lemma_eval(funcs, st, *l, fuel, q);
            let (s1, lr) = spec_eval(funcs, st, *l, fuel);
            if lr is Ok {
                lemma_eval(funcs, s1, *r, fuel, q);
                lemma_kept_trans(st, s1, spec_eval(funcs, s1, *r, fuel).0, q);
            }
        },
    }
}

pub proof fn lemma_eval_base(funcs: Seq<AstFunction>, st: EState, b: BaseValue, coords: Coords, fuel: nat, q: bool)
    requires
        q ==> quiet_funcs(funcs),
    ensures
        kept(st, spec_eval_base(funcs, st, b, coords, fuel).0, q),
        spec_eval_base(funcs, st, b, coords, fuel).0.vars.len() == st.vars.len(),
    decreases fuel, 0nat, b, 0nat, 0int,
{
    lemma_kept_refl(st, q);
    match b.val {
        BaseValueType::Array(elems) => lemma_eval_elems(funcs, st, elems@, fuel, q),
        BaseValueType::FunctionCall(name, args, _) => {
            lemma_eval_args(funcs, st, args@, fuel, q);
            let (s1, r) = spec_eval_args(funcs, st, args@, fuel);
            if r is Ok {
                let vals = r->Ok_0;
                let k = spec_find_fn(funcs, name@);
                if !(k < 0 || vals.len() < funcs[k].args@.len() || fuel == 0) {
                    lemma_find_fn_bound(funcs, name@);
                    lemma_call_kept(funcs, s1, k, vals, fuel, q);
                    let s2 = spec_exec_stmts(funcs, spec_enter(s1, funcs[k], vals), funcs[k].block.nodes@, 0, (fuel - 1) as nat).0;
                    lemma_kept_trans(st, s1, spec_leave(s1, s2), q);
                }
            }
        },
        _ => {},
    }
}

pub proof fn lemma_find_fn_bound(funcs: Seq<AstFunction>, name: Seq<char>)
    ensures
        -1 <= spec_find_fn(funcs, name) < funcs.len(),
    decreases funcs.len(),
{
    if funcs.len() > 0 {
        lemma_find_fn_bound(funcs.drop_last(), name);
    }
}

pub proof fn lemma_eval_elems(funcs: Seq<AstFunction>, st: EState, bs: Seq<BaseValue>, fuel: nat, q: bool)
    requires
        q ==> quiet_funcs(funcs),
    ensures
        kept(st, spec_eval_elems(funcs, st, bs, fuel).0, q),
        spec_eval_elems(funcs, st, bs, fuel).0.vars.len() == st.vars.len(),
    decreases fuel, 0nat, bs, 0nat, 0int,
{
    lemma_kept_refl(st, q);
    if bs.len() > 0 {
        lemma_eval_base(funcs, st, bs[0], bs[0].coords, fuel, q);
        let (s1, r) = spec_eval_base(funcs, st, bs[0], bs[0].coords, fuel);
        if r is Ok {
            lemma_eval_elems(funcs, s1, bs.drop_first(), fuel, q);
            lemma_kept_trans(st, s1, spec_eval_elems(funcs, s1, bs.drop_first(), fuel).0, q);
        }
    }
}

pub proof fn lemma_eval_args(funcs: Seq<AstFunction>, st: EState, es: Seq<Expression>, fuel: nat, q: bool)
    requires
        q ==> quiet_funcs(funcs),
    ensures
        kept(st, spec_eval_args(funcs, st, es, fuel).0, q),
        spec_eval_args(funcs, st, es, fuel).0.vars.len() == st.vars.len(),
    decreases fuel, 0nat, es, 0nat, 0int,
{
    lemma_kept_refl(st, q);
    if es.len() > 0 {
        lemma_eval(funcs, st, es[0], fuel, q);
        let (s1, r) = spec_eval(funcs, st, es[0], fuel);
        if r is Ok {
            lemma_eval_args(funcs, s1, es.drop_first(), fuel, q);
            lemma_kept_trans(st, s1, spec_eval_args(funcs, s1, es.drop_first(), fuel).0, q);
        }
    }
}

pub proof fn lemma_exec_stmts(funcs: Seq<AstFunction>, st: EState, nodes: Seq<AstNode>, i: int, fuel: nat, q: bool)
    requires
        q ==> quiet_funcs(funcs) && quiet_from(nodes, i),
    ensures
        kept(st, spec_exec_stmts(funcs, st, nodes, i, fuel).0, q),
    decreases fuel, 1nat, nodes, 0nat, nodes.len() - i,
{
    lemma_kept_refl(st, q);
    if 0 <= i < nodes.len() {
        lemma_step(funcs, st, nodes[i], fuel, q);
        let (s1, r) = spec_exec_step(funcs, st, nodes[i], fuel);
        if r == Ok::<Option<SValue>, SErr>(None) {
            lemma_exec_stmts(funcs, s1, nodes, i + 1, fuel, q);
            lemma_kept_trans(st, s1, spec_exec_stmts(funcs, s1, nodes, i + 1, fuel).0, q);
        }
    }
}

pub proof fn lemma_run_block(funcs: Seq<AstFunction>, st: EState, block: AstBlock, fuel: nat, q: bool)
    requires
        q ==> quiet_funcs(funcs) && quiet_from(block.nodes@, 0),
    ensures
        kept(st, spec_run_block(funcs, st, block, fuel).0, q),
        spec_run_block(funcs, st, block, fuel).0.vars.len() == st.vars.len(),
    decreases fuel, 1nat, block, 1nat, 0int,
{
    lemma_exec_stmts(funcs, st, block.nodes@, 0, fuel, q);
    lemma_leave_kept(st, st, spec_exec_stmts(funcs, st, block.nodes@, 0, fuel).0, q);
}

pub proof fn lemma_step(funcs: Seq<AstFunction>, st: EState, line: AstNode, fuel: nat, q: bool)
    requires
        q ==> quiet_funcs(funcs) && quiet_node(line),
    ensures
        kept(st, spec_exec_step(funcs, st, line, fuel).0, q),
    decreases fuel, 1nat, line, 2nat, 0int,
{
    lemma_kept_refl(st, q);
    match line.statement {
        AstStatement::Command { name, args } => {
            lemma_eval_args(funcs, st, args@, fuel, q);
            let (s1, r) = spec_eval_args(funcs, st, args@, fuel);
            if r is Ok {
                let vals = r->Ok_0;
                lemma_builtin_kept(s1, name@, vals, line.coords, q);
                match spec_builtin(s1, name@, vals, line.coords) {
                    Some(Ok(s2)) => lemma_kept_trans(st, s1, s2, q),
                    Some(Err(_)) => {},
                    None => {
                        let k = spec_find_fn(funcs, name@);
                        if !(k < 0 || vals.len() != funcs[k].args@.len() || fuel == 0) {
                            lemma_find_fn_bound(funcs, name@);
                            lemma_call_kept(funcs, s1, k, vals, fuel, q);
                            let s2 = spec_exec_stmts(funcs, spec_enter(s1, funcs[k], vals), funcs[k].block.nodes@, 0, (fuel - 1) as nat).0;
                            lemma_kept_trans(st, s1, spec_leave(s1, s2), q);
                        }
                    },
                }
            }
        },
        AstStatement::Init { typ: _, val, expr } => {
            lemma_eval(funcs, st, expr, fuel, q);
            let (s1, r) = spec_eval(funcs, st, expr, fuel);
            if r is Ok && spec_get(s1, val@) is None {
                lemma_bind_kept(s1, val, r->Ok_0, q);
                lemma_kept_trans(st, s1, spec_bind(s1, val, r->Ok_0), q);
            }
        },
        AstStatement::SetVal { val, expr } => {
            lemma_eval(funcs, st, expr, fuel, q);
            let (s1, r) = spec_eval(funcs, st, expr, fuel);
            if r is Ok {
                lemma_assign_kept(s1, val, r->Ok_0, line.coords, q);
                if spec_assign(s1, val, r->Ok_0, line.coords) is Some {
                    lemma_kept_trans(st, s1, spec_assign(s1, val, r->Ok_0, line.coords)->0, q);
                }
            }
        },
        AstStatement::If { clause, block, else_block } => {
            lemma_eval(funcs, st, clause, fuel, q);
            let (s1, r) = spec_eval(funcs, st, clause, fuel);
            match r {
                Ok(SValue::Bool(true)) => {
                    lemma_run_block(funcs, s1, block, fuel, q);
                    lemma_kept_trans(st, s1, spec_run_block(funcs, s1, block, fuel).0, q);
                },
                Ok(SValue::Bool(false)) => match else_block {
                    Some(eb) => {
                        lemma_run_block(funcs, s1, eb, fuel, q);
                        lemma_kept_trans(st, s1, spec_run_block(funcs, s1, eb, fuel).0, q);
                    },
                    None => {},
                },
                _ => {},
            }
        },
        AstStatement::While { clause: _, block: _ } => lemma_while(funcs, st, line, fuel, q),
        AstStatement::For { val: _, from, to, block: _ } => {
            lemma_eval_base(funcs, st, from, from.coords, fuel, q);
            let (s1, r1) = spec_eval_base(funcs, st, from, from.coords, fuel);
            if r1 is Ok && r1->Ok_0 is Int {
                lemma_eval_base(funcs, s1, to, to.coords, fuel, q);
                let (s2, r2) = spec_eval_base(funcs, s1, to, to.coords, fuel);
                lemma_kept_trans(st, s1, s2, q);
                if r2 is Ok && r2->Ok_0 is Int {
                    let f = r1->Ok_0->Int_0;
                    let t = r2->Ok_0->Int_0;
                    let lo = if f <= t { f as int } else { t as int };
                    let hi = if f <= t { t as int } else { f as int };
                    lemma_for(funcs, s2, line, lo, hi, fuel, q);
                    lemma_kept_trans(st, s2, spec_for(funcs, s2, line, lo, hi, fuel).0, q);
                }
            }
        },
        AstStatement::Return { expr } => lemma_eval(funcs, st, expr, fuel, q),
    }
}

pub proof fn lemma_while(funcs: Seq<AstFunction>, st: EState, line: AstNode, fuel: nat, q: bool)
    requires
        q ==> quiet_funcs(funcs) && quiet_node(line),
    ensures
        kept(st, spec_while(funcs, st, line, fuel).0, q),
    decreases fuel, 1nat, line, 1nat, 0int,
{
    lemma_kept_refl(st, q);
    match line.statement {
        AstStatement::While { clause, block } => {
            lemma_eval(funcs, st, clause, fuel, q);
            let (s1, r) = spec_eval(funcs, st, clause, fuel);
            if r == Ok::<SValue, SErr>(SValue::Bool(true)) && fuel > 0 {
                lemma_run_block(funcs, s1, block, (fuel - 1) as nat, q);
                let (s2, r2) = spec_run_block(funcs, s1, block, (fuel - 1) as nat);
                lemma_kept_trans(st, s1, s2, q);
                if r2 == Ok::<Option<SValue>, SErr>(None) {
                    lemma_while(funcs, s2, line, (fuel - 1) as nat, q);
                    lemma_kept_trans(st, s2, spec_while(funcs, s2, line, (fuel - 1) as nat).0, q);
                }
            }
        },
        _ => {},
    }
}

pub proof fn lemma_for(funcs: Seq<AstFunction>, st: EState, line: AstNode, c: int, hi: int, fuel: nat, q: bool)
    requires
        q ==> quiet_funcs(funcs) && quiet_node(line),
    ensures
        kept(st, spec_for(funcs, st, line, c, hi, fuel).0, q),
    decreases fuel, 1nat, line, 1nat, hi + 1 - c,
{
    lemma_kept_refl(st, q);
    match line.statement {
        AstStatement::For { val, from: _, to: _, block } => {
            if !(c > hi || !crate::execution::in_i32(c)) && spec_get(st, val@) is None {
                let sb = spec_bind(st, val, SValue::Int(c as i32));
                lemma_exec_stmts(funcs, sb, block.nodes@, 0, fuel, q);
                let (s1, r) = spec_exec_stmts(funcs, sb, block.nodes@, 0, fuel);
                assert forall|i: int| 0 <= i < st.vars.len() implies #[trigger] sb.vars[i].0 == st.vars[i].0 by {}
                lemma_leave_kept(st, sb, s1, q);
                let s2 = spec_leave(st, s1);
                if r == Ok::<Option<SValue>, SErr>(None) {
                    lemma_for(funcs, s2, line, c + 1, hi, fuel, q);
                    lemma_kept_trans(st, s2, spec_for(funcs, s2, line, c + 1, hi, fuel).0, q);
                }
            }
        },
        _ => {},
    }
}

/// Style kept from `a` to `b` and from `b` to `c` is kept from `a` to `c`.
pub proof fn lemma_style_trans(a: EState, b: EState, c: EState)
    requires
        style_kept(a, b),
        style_kept(b, c),
    ensures
        style_kept(a, c),
{
    assert(spec_fill_style(b) == spec_fill_style(a));
    assert(spec_line_style(b) == spec_line_style(a));
    assert forall|i: int| a.cmds.len() <= i < c.cmds.len() implies cmd_styled(#[trigger] c.cmds[i], a) by {
        if i < b.cmds.len() {
            assert(c.cmds.subrange(0, b.cmds.len() as int)[i] == b.cmds[i]);
            assert(cmd_styled(b.cmds[i], a));
        } else {
            assert(cmd_styled(c.cmds[i], b));
        }
    }
    assert(c.cmds.subrange(0, a.cmds.len() as int) =~= a.cmds) by {
        assert forall|i: int| 0 <= i < a.cmds.len() implies c.cmds[i] == a.cmds[i] by {
            assert(c.cmds.subrange(0, b.cmds.len() as int)[i] == b.cmds[i]);
            assert(b.cmds.subrange(0, a.cmds.len() as int)[i] == a.cmds[i]);
        }
    }
}

/// Evaluating the globals' initializers makes no style change when no
/// function body makes one.
pub proof fn lemma_init_globals_style(
    funcs: Seq<AstFunction>,
    st: EState,
    gs: Seq<(String, Coords, crate::types::Type, Expression)>,
    fuel: nat,
)
    requires
        quiet_funcs(funcs),
    ensures
        style_kept(st, crate::execution::spec_init_globals(funcs, st, gs, fuel).0),
    decreases gs.len(),
{
    lemma_kept_refl(st, true);
    if gs.len() > 0 {
        lemma_eval(funcs, st, gs[0].3, fuel, true);
        let (s1, r) = spec_eval(funcs, st, gs[0].3, fuel);
        if r is Ok {
            let s2 = EState { globals: s1.globals.push((gs[0].0, r->Ok_0)), ..s1 };
            lemma_kept_refl(s1, true);
            assert(style_kept(s1, s2));
            lemma_style_trans(st, s1, s2);
            lemma_init_globals_style(funcs, s2, gs.drop_first(), fuel);
            lemma_style_trans(st, s2, crate::execution::spec_init_globals(funcs, s2, gs.drop_first(), fuel).0);
        }
    }
}

} // verus!
