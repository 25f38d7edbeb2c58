//! Properties that hold of every program, proved from the specifications
//! that the checker and the evaluator meet.
use vstd::prelude::*;

use crate::ast::{AstBlock, AstFunction, AstNode, AstProgram, BaseValueType};
use crate::error::Error;
use crate::execution::{
    spec_builtin, spec_exec_step, spec_exec_stmts, spec_fill_style, spec_for, spec_get, spec_index_get,
    spec_index_set, spec_leave, spec_line_style, spec_run_block, spec_shape, EState,
};
use crate::program::{res_matches, spec_check_program_in, spec_polygon_msg, CheckEnv, ReturnType};
use crate::frame::{cmd_styled, frame_ok, fresh_ok, lemma_run_block, lemma_exec_stmts, quiet_from, quiet_funcs};
use crate::execution::{initial_state, spec_execute, spec_find, spec_find_fn, spec_init_globals};
use crate::value::SValue;

verus! {

/// Writing an element of an array and reading it back gives the written
/// value, at any depth of nesting.
pub proof fn law_array_write_then_read(v: SValue, idx: Seq<i32>, x: SValue)
    requires
        spec_index_set(v, idx, x) is Some,
    ensures
        spec_index_get(spec_index_set(v, idx, x)->0, idx) == Some(x),
    decreases idx.len(),
{
    if idx.len() > 0 {
        let a = v->Array_0;
        law_array_write_then_read(a[idx[0] as int], idx.drop_first(), x);
    }
}

/// Writing an element leaves every element reached by another first index
/// as it was, and the array as long as it was.
pub proof fn law_array_write_keeps_others(v: SValue, idx: Seq<i32>, x: SValue, other: Seq<i32>)
    requires
        spec_index_set(v, idx, x) is Some,
        idx.len() > 0,
        other.len() > 0,
        other[0] != idx[0],
    ensures
        spec_index_get(spec_index_set(v, idx, x)->0, other) == spec_index_get(v, other),
        spec_index_set(v, idx, x)->0->Array_0.len() == v->Array_0.len(),
{
    let a = v->Array_0;
    let w = spec_index_set(v, idx, x)->0;
    assert(w->Array_0 == a.update(idx[0] as int, spec_index_set(a[idx[0] as int], idx.drop_first(), x)->0));
    if 0 <= other[0] < a.len() {
        assert(w->Array_0[other[0] as int] == a[other[0] as int]);
    }
}

/// Type checking depends on the program and the checker's environment
/// alone, and `Program::type_check` leaves both as they were: two runs agree
/// on success, on the classification, and on the kind, span and (where
/// fixed) message of the error, whether on two checkers or twice on one.
pub proof fn law_type_check_repeatable(
    env: CheckEnv,
    p: AstProgram,
    r1: Result<ReturnType, Error>,
    r2: Result<ReturnType, Error>,
)
    requires
        res_matches(r1, spec_check_program_in(env, p)),
        res_matches(r2, spec_check_program_in(env, p)),
    ensures
        r1 is Ok <==> r2 is Ok,
        r1 is Ok ==> r1->Ok_0 == r2->Ok_0,
        r1 is Err ==> r1->Err_0.error_type == r2->Err_0.error_type && r1->Err_0.start == r2->Err_0.start
            && r1->Err_0.finish == r2->Err_0.finish,
        r1 is Err && spec_check_program_in(env, p)->Err_0.2 is Some ==> r1->Err_0.message@ == r2->Err_0.message@,
{
}

/// The iterations of two `for` statements that differ only in their bounds'
/// order.
proof fn lemma_for_same_body(funcs: Seq<AstFunction>, st: EState, l1: AstNode, l2: AstNode, c: int, hi: int, fuel: nat)
    requires
        l1.statement is For,
        l2.statement is For,
        l1.statement->For_val == l2.statement->For_val,
        l1.statement->For_block == l2.statement->For_block,
        l1.coords == l2.coords,
    ensures
        spec_for(funcs, st, l1, c, hi, fuel) == spec_for(funcs, st, l2, c, hi, fuel),
    decreases hi + 1 - c,
{
    if c <= hi && crate::execution::in_i32(c) && spec_get(st, l1.statement->For_val@) is None {
        let (s1, r) = spec_exec_stmts(
            funcs,
            crate::execution::spec_bind(st, l1.statement->For_val, SValue::Int(c as i32)),
            l1.statement->For_block.nodes@,
            0,
            fuel,
        );
        if r == Ok::<Option<SValue>, crate::program::SErr>(None) {
            lemma_for_same_body(funcs, spec_leave(st, s1), l1, l2, c + 1, hi, fuel);
        }
    }
}

/// `for v in (a..b)` and `for v in (b..a)` run alike: the same values of
/// `v`, in ascending order, with the same effects and outcome.
pub proof fn law_for_direction_invariant(
    funcs: Seq<AstFunction>,
    st: EState,
    l1: AstNode,
    l2: AstNode,
    a: i32,
    b: i32,
    fuel: nat,
)
    requires
        l1.statement is For,
        l2.statement is For,
        l1.statement->For_val == l2.statement->For_val,
        l1.statement->For_block == l2.statement->For_block,
        l1.coords == l2.coords,
        l1.statement->For_from.val == BaseValueType::Int(a),
        l1.statement->For_to.val == BaseValueType::Int(b),
        l2.statement->For_from.val == BaseValueType::Int(b),
        l2.statement->For_to.val == BaseValueType::Int(a),
    ensures
        spec_exec_step(funcs, st, l1, fuel) == spec_exec_step(funcs, st, l2, fuel),
{
    let lo: int = if a <= b { a as int } else { b as int };
    let hi: int = if a <= b { b as int } else { a as int };
    lemma_for_same_body(funcs, st, l1, l2, lo, hi, fuel);
}

/// A style call sets the style that the following shapes are drawn with.
pub proof fn law_style_calls_set_the_style(st: EState, r: u8, g: u8, b: u8, w: i32)
    ensures
        spec_builtin(st, "setFigureColor"@, seq![SValue::Color(r, g, b)], (0, 0, 0, 0))
            == Some(Ok::<EState, crate::program::SErr>(EState { fill: (r, g, b), ..st })),
        spec_builtin(st, "setLineColor"@, seq![SValue::Color(r, g, b)], (0, 0, 0, 0))
            == Some(Ok::<EState, crate::program::SErr>(EState { stroke: (r, g, b), ..st })),
        w >= 0 ==> spec_builtin(st, "setLineWidth"@, seq![SValue::Int(w)], (0, 0, 0, 0))
            == Some(Ok::<EState, crate::program::SErr>(EState { width: w, ..st })),
{
    reveal_strlit("setFigureColor");
    reveal_strlit("setLineColor");
    reveal_strlit("setLineWidth");
    reveal_strlit("circle");
    reveal_strlit("line");
    reveal_strlit("rectangle");
    reveal_strlit("arc");
    reveal_strlit("polygon");
    assert("setFigureColor"@.len() == 14);
    assert("setLineColor"@.len() == 12);
    assert("setLineWidth"@.len() == 12);
    assert("setFigureColor"@ != "circle"@);
    assert("setFigureColor"@ != "setLineColor"@) by {
        assert("setFigureColor"@.len() != "setLineColor"@.len());
    }
    assert("setLineWidth"@ != "setLineColor"@) by {
        assert("setLineWidth"@[7] != "setLineColor"@[7]);
    }
}

/// Every shape is drawn with the style current when it is drawn.
pub proof fn law_shapes_use_current_style(st: EState, word: Seq<char>, xs: Seq<i32>, filled: bool)
    ensures
        spec_shape(st, word, xs, filled).cmds.last() == word + " "@ + crate::execution::spec_words(xs) + if filled {
            spec_fill_style(st)
        } else {
            spec_line_style(st)
        },
        spec_shape(st, word, xs, filled).fill == st.fill,
        spec_shape(st, word, xs, filled).stroke == st.stroke,
        spec_shape(st, word, xs, filled).width == st.width,
{
}

/// Leaving a block, loop iteration or call keeps the style it set: only
/// bindings are dropped.
pub proof fn law_scope_exit_keeps_style(funcs: Seq<AstFunction>, st: EState, block: AstBlock, fuel: nat, after: EState)
    ensures
        spec_leave(st, after).fill == after.fill,
        spec_leave(st, after).stroke == after.stroke,
        spec_leave(st, after).width == after.width,
        spec_leave(st, after).cmds == after.cmds,
        spec_run_block(funcs, st, block, fuel).0.fill == spec_exec_stmts(funcs, st, block.nodes@, 0, fuel).0.fill,
        spec_run_block(funcs, st, block, fuel).0.stroke == spec_exec_stmts(funcs, st, block.nodes@, 0, fuel).0.stroke,
        spec_run_block(funcs, st, block, fuel).0.width == spec_exec_stmts(funcs, st, block.nodes@, 0, fuel).0.width,
        spec_run_block(funcs, st, block, fuel).0.cmds == spec_exec_stmts(funcs, st, block.nodes@, 0, fuel).0.cmds,
        spec_run_block(funcs, st, block, fuel).0.globals == spec_exec_stmts(funcs, st, block.nodes@, 0, fuel).0.globals,
{
}

proof fn lemma_find_same_names(a: Seq<(String, SValue)>, b: Seq<(String, SValue)>, from: int, name: Seq<char>)
    requires
        b.len() >= a.len(),
        forall|i: int| 0 <= i < a.len() ==> #[trigger] b[i].0 == a[i].0,
        forall|i: int| a.len() <= i < b.len() ==> (#[trigger] b[i]).0@ != name,
    ensures
        spec_find(b, from, name) == spec_find(a, from, name),
    decreases b.len(),
{
    if b.len() > a.len() {
        lemma_find_same_names(a, b.drop_last(), from, name);
    } else if a.len() > 0 {
        lemma_find_same_names(a.drop_last(), b.drop_last(), from, name);
    }
}

/// A variable declared inside an `if`, `while` or `for` body (or any nested
/// block) is not visible once the block ends: a name is visible after the
/// block exactly when it was before.
pub proof fn law_block_locals_do_not_escape(funcs: Seq<AstFunction>, st: EState, block: AstBlock, fuel: nat, name: Seq<char>)
    ensures
        (spec_get(spec_run_block(funcs, st, block, fuel).0, name) is None) == (spec_get(st, name) is None),
{
    lemma_run_block(funcs, st, block, fuel, false);
    let after = spec_run_block(funcs, st, block, fuel).0;
    lemma_find_same_names(st.vars, after.vars, st.base, name);
    lemma_find_same_names(st.globals, after.globals, 0, name);
}

proof fn lemma_leave_keeps_outer(st: EState, inner: EState, name: Seq<char>)
    requires
        frame_ok(st, inner),
        fresh_ok(st, inner),
        spec_get(st, name) is Some,
    ensures
        spec_get(spec_leave(st, inner), name) == spec_get(inner, name),
{
    let after = spec_leave(st, inner);
    let n = st.vars.len() as int;
    assert forall|i: int| n <= i < inner.vars.len() implies (#[trigger] inner.vars[i]).0@ != name by {
        assert(spec_get(st, inner.vars[i].0@) is None);
    }
    assert forall|i: int| 0 <= i < after.vars.len() implies #[trigger] inner.vars[i].0 == after.vars[i].0 by {}
    lemma_find_same_names(after.vars, inner.vars, st.base, name);
    crate::frame::lemma_find_grows(after.vars, after.vars, st.base, name);
    let j = spec_find(after.vars, st.base, name);
    if j >= 0 {
        assert(after.vars[j] == inner.vars[j]);
    }
}

/// An assignment made inside a block to a variable visible outside it is
/// still seen once the block ends: every such variable has, after the
/// block, the value it had when the block's last statement ran.
pub proof fn law_outer_assignments_survive(funcs: Seq<AstFunction>, st: EState, block: AstBlock, fuel: nat, name: Seq<char>)
    requires
        spec_get(st, name) is Some,
    ensures
        spec_get(spec_run_block(funcs, st, block, fuel).0, name) == spec_get(spec_exec_stmts(funcs, st, block.nodes@, 0, fuel).0, name),
{
    lemma_exec_stmts(funcs, st, block.nodes@, 0, fuel, false);
    let inner = spec_exec_stmts(funcs, st, block.nodes@, 0, fuel).0;
    assert(spec_run_block(funcs, st, block, fuel).0 == spec_leave(st, inner));
    lemma_leave_keeps_outer(st, inner, name);
}

/// Whether a command is drawn in the default style (white fill, black
/// stroke of width 1) or draws nothing.
pub open spec fn drawn_in_default_style(c: Seq<char>) -> bool {
    cmd_styled(c, initial_state(0)) || c == "end"@
}

/// The state a run starts from once `Runtime::new` has prepared it: the
/// initial state, after the globals' initializers for a forest.
pub open spec fn spec_started(p: AstProgram, seed: u64, fuel: nat) -> EState {
    match p {
        AstProgram::Block(_) => initial_state(seed),
        AstProgram::Forest(forest) => spec_init_globals(forest.0@, initial_state(seed), forest.1@, fuel).0,
    }
}

/// A program without `setFigureColor`, `setLineColor` or `setLineWidth`
/// calls emits every shape in the default style, `fill=#ffffff
/// stroke=#000000 width=1`: while its globals are evaluated and while it
/// runs, whatever the seed and the fuel.
pub proof fn law_default_style_without_style_calls(p: AstProgram, seed: u64, fuel: nat)
    requires
        match p {
            AstProgram::Block(b) => quiet_from(b.nodes@, 0),
            AstProgram::Forest(forest) => quiet_funcs(forest.0@),
        },
    ensures
        forall|i: int| 0 <= i < spec_started(p, seed, fuel).cmds.len() ==> drawn_in_default_style(
            #[trigger] spec_started(p, seed, fuel).cmds[i],
        ),
        forall|i: int| 0 <= i < spec_execute(p, spec_started(p, seed, fuel), fuel).0.cmds.len() ==> drawn_in_default_style(
            #[trigger] spec_execute(p, spec_started(p, seed, fuel), fuel).0.cmds[i],
        ),
{
    let st0 = initial_state(seed);
    let s0 = initial_state(0);
    let st = spec_started(p, seed, fuel);
    assert(crate::execution::spec_fill_style(st0) == crate::execution::spec_fill_style(s0));
    assert(crate::execution::spec_line_style(st0) == crate::execution::spec_line_style(s0));
    crate::frame::lemma_kept_refl(st0, true);
    match p {
        AstProgram::Block(b) => {
            assert(quiet_funcs(seq![]));
            lemma_run_block(seq![], st, b, fuel, true);
            crate::frame::lemma_style_trans(st0, st, spec_run_block(seq![], st, b, fuel).0);
        },
        AstProgram::Forest(forest) => {
            crate::frame::lemma_init_globals_style(forest.0@, st0, forest.1@, fuel);
            let k = spec_find_fn(forest.0@, "main"@);
            if k >= 0 {
                crate::frame::lemma_find_fn_bound(forest.0@, "main"@);
                assert(quiet_from(forest.0@[k].block.nodes@, 0));
                lemma_run_block(forest.0@, st, forest.0@[k].block, fuel, true);
                crate::frame::lemma_style_trans(st0, st, spec_run_block(forest.0@, st, forest.0@[k].block, fuel).0);
            }
        },
    }
    assert forall|i: int| 0 <= i < st.cmds.len() implies drawn_in_default_style(#[trigger] st.cmds[i]) by {
        assert(cmd_styled(st.cmds[i], st0));
    }
    let out = spec_execute(p, st, fuel).0;
    assert forall|i: int| 0 <= i < out.cmds.len() implies drawn_in_default_style(#[trigger] out.cmds[i]) by {
        if i < out.cmds.len() - 1 || !(spec_execute(p, st, fuel).1 is Ok) {
            assert(cmd_styled(out.cmds[i], st0));
        }
    }
}

/// A figure color set by a command persists: every command the rest of the
/// block emits, however deep in blocks, loops and calls, carries it, unless
/// a style call comes in between.
pub proof fn law_figure_color_persists(
    funcs: Seq<AstFunction>,
    st: EState,
    nodes: Seq<AstNode>,
    fuel: nat,
    r: u8,
    g: u8,
    b: u8,
)
    requires
        nodes.len() >= 1,
        nodes[0].statement is Command,
        nodes[0].statement->Command_name@ == "setFigureColor"@,
        nodes[0].statement->Command_args@.len() == 1,
        nodes[0].statement->Command_args@[0].expr_type is Value,
        nodes[0].statement->Command_args@[0].expr_type->Value_0.val == BaseValueType::Color(r, g, b),
        quiet_funcs(funcs),
        quiet_from(nodes, 1),
    ensures
        ({
            let out = spec_exec_stmts(funcs, st, nodes, 0, fuel).0;
            let styled = EState { fill: (r, g, b), ..st };
            &&& out.fill == (r, g, b)
            &&& out.cmds.subrange(0, st.cmds.len() as int) == st.cmds
            &&& forall|i: int| st.cmds.len() <= i < out.cmds.len() ==> cmd_styled(#[trigger] out.cmds[i], styled)
        }),
{
    let args = nodes[0].statement->Command_args@;
    assert(args.drop_first() =~= seq![]);
    let (s_a, r_a) = crate::execution::spec_eval_args(funcs, st, args, fuel);
    assert(s_a == st && r_a == Ok::<Seq<SValue>, crate::program::SErr>(seq![SValue::Color(r, g, b)])) by {
        let e0 = args[0];
        let bv = e0.expr_type->Value_0;
        assert(crate::execution::spec_eval_base(funcs, st, bv, e0.coords, fuel) == (st, Ok::<SValue, crate::program::SErr>(SValue::Color(r, g, b))));
        assert(crate::execution::spec_eval(funcs, st, e0, fuel) == (st, Ok::<SValue, crate::program::SErr>(SValue::Color(r, g, b))));
        assert(crate::execution::spec_eval_args(funcs, st, args.drop_first(), fuel) == (st, Ok::<Seq<SValue>, crate::program::SErr>(seq![])));
        assert(seq![SValue::Color(r, g, b)] + seq![] =~= seq![SValue::Color(r, g, b)]);
    }
    law_style_calls_set_the_style(st, r, g, b, 1);
    let s1 = EState { fill: (r, g, b), ..st };
    assert(spec_exec_step(funcs, st, nodes[0], fuel) == (s1, Ok::<Option<SValue>, crate::program::SErr>(None)));
    lemma_exec_stmts(funcs, s1, nodes, 1, fuel, true);
}

/// Reading, after a block, a variable that only the block declared fails
/// with a runtime error.
pub proof fn law_block_local_read_fails_after(funcs: Seq<AstFunction>, st: EState, block: AstBlock, fuel: nat, x: String, coords: crate::error::Coords)
    requires
        spec_get(st, x@) is None,
    ensures
        crate::execution::spec_get_var(spec_run_block(funcs, st, block, fuel).0, crate::ast::VariableCall::Name(x), coords)
            == crate::execution::rt_err::<SValue>(coords),
{
    law_block_locals_do_not_escape(funcs, st, block, fuel, x@);
}

/// The error for a polygon with a wrong number of points names the command
/// and the least count, 6.
pub proof fn law_polygon_message_names_polygon_and_six(n: nat)
    ensures
        spec_polygon_msg(n).subrange(38, 45) == "polygon"@,
        spec_polygon_msg(n)[(51 + crate::text::spec_nat_decimal(n).len() + 20) as int] == '6',
{
    reveal_strlit("Wrong number of arguments for command polygon: got ");
    reveal_strlit(", expected at least 6 (even number) for polygon");
    reveal_strlit("polygon");
    let m = spec_polygon_msg(n);
    assert(m.subrange(38, 45) =~= "polygon"@);
}

} // verus!
