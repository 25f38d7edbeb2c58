use vstd::prelude::*;

use crate::ast::{
    AstBlock, AstFunction, AstNode, AstProgram, AstStatement, BaseValue, BaseValueType, Expression,
    ExpressionType, Operator, SimpleExpression, SimpleExpressionType, SimpleValueType, UnaryOperator,
    VariableCall,
};
use crate::error::{spec_error_is, Coords, Error, ErrorType};
use crate::program::{err_matches, SErr};
use crate::text::{push_color, push_decimal, push_str, spec_color_str, spec_decimal, str_eq};
use crate::value::{view_value, SValue, Value};

verus! {

broadcast use vstd::std_specs::vec::group_vec_axioms;

/// The evaluator's state as contracts see it: bindings (innermost last;
/// only those from `base` on are local to the running function), globals,
/// the drawing style, the emitted commands and the random seed.
pub struct EState {
    pub vars: Seq<(String, SValue)>,
    pub base: int,
    pub globals: Seq<(String, SValue)>,
    pub fill: (u8, u8, u8),
    pub stroke: (u8, u8, u8),
    pub width: i32,
    pub cmds: Seq<Seq<char>>,
    pub seed: u64,
}

/// Index of the last binding of `name` at or after `from`, or -1.
pub open spec fn spec_find(s: Seq<(String, SValue)>, from: int, name: Seq<char>) -> int
    decreases s.len(),
{
    if s.len() == 0 || s.len() <= from {
        -1
    } else if s.last().0@ == name {
        s.len() - 1
    } else {
        spec_find(s.drop_last(), from, name)
    }
}

/// Where a name resolves: a local binding, a global, or nowhere.
pub enum Slot {
    Local(int),
    Global(int),
    Missing,
}

pub open spec fn spec_resolve(st: EState, name: Seq<char>) -> Slot {
    let l = spec_find(st.vars, st.base, name);
    if l >= 0 {
        Slot::Local(l)
    } else {
        let g = spec_find(st.globals, 0, name);
        if g >= 0 {
            Slot::Global(g)
        } else {
            Slot::Missing
        }
    }
}

/// The value a name resolves to.
pub open spec fn spec_get(st: EState, name: Seq<char>) -> Option<SValue> {
    match spec_resolve(st, name) {
        Slot::Local(i) => Some(st.vars[i].1),
        Slot::Global(i) => Some(st.globals[i].1),
        Slot::Missing => None,
    }
}

/// The state with the binding a name resolves to replaced.
pub open spec fn spec_set(st: EState, name: Seq<char>, v: SValue) -> EState {
    match spec_resolve(st, name) {
        Slot::Local(i) => EState { vars: st.vars.update(i, (st.vars[i].0, v)), ..st },
        Slot::Global(i) => EState { globals: st.globals.update(i, (st.globals[i].0, v)), ..st },
        Slot::Missing => st,
    }
}

pub open spec fn rt_err<T>(coords: Coords) -> Result<T, SErr> {
    Err((ErrorType::RuntimeError, coords, None))
}

/// Reads through a path of indices into nested arrays.
pub open spec fn spec_index_get(v: SValue, idx: Seq<i32>) -> Option<SValue>
    decreases idx.len(),
{
    if idx.len() == 0 {
        Some(v)
    } else {
        match v {
            SValue::Array(a) => if 0 <= idx[0] < a.len() {
                spec_index_get(a[idx[0] as int], idx.drop_first())
            } else {
                None
            },
            _ => None,
        }
    }
}

/// Replaces the element at a non-empty path of indices, copying the arrays
/// along it.
pub open spec fn spec_index_set(v: SValue, idx: Seq<i32>, x: SValue) -> Option<SValue>
    decreases idx.len(),
{
    if idx.len() == 0 {
        Some(x)
    } else {
        match v {
            SValue::Array(a) => if 0 <= idx[0] < a.len() {
                match spec_index_set(a[idx[0] as int], idx.drop_first(), x) {
                    Some(e) => Some(SValue::Array(a.update(idx[0] as int, e))),
                    None => None,
                }
            } else {
                None
            },
            _ => None,
        }
    }
}

// ---------------------------------------------------------------- operators

/// Whether a single-precision bit pattern is a NaN.
pub open spec fn f32_is_nan(b: u32) -> bool {
    b / 8388608 % 256 == 255 && b % 8388608 != 0
}

/// A key that orders non-NaN single-precision numbers by value; both zeros
/// get the key 0.
pub open spec fn f32_key(b: u32) -> int {
    if b >= 2147483648 {
        -((b - 2147483648) as int)
    } else {
        b as int
    }
}

/// IEEE-754 comparison of two single-precision numbers.
pub open spec fn spec_float_cmp(op: Operator, x: u32, y: u32) -> Option<bool> {
    let unordered = f32_is_nan(x) || f32_is_nan(y);
    match op {
        Operator::EQ => Some(!unordered && f32_key(x) == f32_key(y)),
        Operator::NQ => Some(unordered || f32_key(x) != f32_key(y)),
        Operator::GT => Some(!unordered && f32_key(x) > f32_key(y)),
        Operator::LT => Some(!unordered && f32_key(x) < f32_key(y)),
        Operator::GQ => Some(!unordered && f32_key(x) >= f32_key(y)),
        Operator::LQ => Some(!unordered && f32_key(x) <= f32_key(y)),
        _ => None,
    }
}

pub open spec fn in_i32(x: int) -> bool {
    i32::MIN <= x <= i32::MAX
}

/// Integer division rounding toward zero.
pub open spec fn spec_div(x: int, y: int) -> int {
    let q = (if x < 0 { -x } else { x }) / (if y < 0 { -y } else { y });
    if (x < 0) != (y < 0) { -q } else { q }
}

/// The remainder of division rounding toward zero; it has the sign of `x`.
pub open spec fn spec_rem(x: int, y: int) -> int {
    let r = (if x < 0 { -x } else { x }) % (if y < 0 { -y } else { y });
    if x < 0 { -r } else { r }
}

/// An operation on two integers; overflow and division by zero fail.
pub open spec fn spec_int_op(op: Operator, x: i32, y: i32, coords: Coords) -> Result<SValue, SErr> {
    let (a, b) = (x as int, y as int);
    match op {
        Operator::EQ => Ok(SValue::Bool(a == b)),
        Operator::NQ => Ok(SValue::Bool(a != b)),
        Operator::GT => Ok(SValue::Bool(a > b)),
        Operator::LT => Ok(SValue::Bool(a < b)),
        Operator::GQ => Ok(SValue::Bool(a >= b)),
        Operator::LQ => Ok(SValue::Bool(a <= b)),
        Operator::Plus => if in_i32(a + b) { Ok(SValue::Int((a + b) as i32)) } else { rt_err(coords) },
        Operator::Minus => if in_i32(a - b) { Ok(SValue::Int((a - b) as i32)) } else { rt_err(coords) },
        Operator::Mult => if in_i32(a * b) { Ok(SValue::Int((a * b) as i32)) } else { rt_err(coords) },
        Operator::Div => if b != 0 && in_i32(spec_div(a, b)) { Ok(SValue::Int(spec_div(a, b) as i32)) } else { rt_err(coords) },
        Operator::Mod => if b != 0 { Ok(SValue::Int(spec_rem(a, b) as i32)) } else { rt_err(coords) },
        _ => rt_err(coords),
    }
}

/// A binary operation on two values.
pub open spec fn spec_binary(op: Operator, l: SValue, r: SValue, coords: Coords) -> Result<SValue, SErr> {
    match (l, r) {
        (SValue::Int(x), SValue::Int(y)) => spec_int_op(op, x, y, coords),
        (SValue::Float(x), SValue::Float(y)) => match spec_float_cmp(op, x, y) {
            Some(b) => Ok(SValue::Bool(b)),
            None => rt_err(coords),
        },
        (SValue::Bool(a), SValue::Bool(b)) => match op {
            Operator::EQ => Ok(SValue::Bool(a == b)),
            Operator::NQ => Ok(SValue::Bool(a != b)),
            Operator::AND => Ok(SValue::Bool(a && b)),
            Operator::OR => Ok(SValue::Bool(a || b)),
            _ => rt_err(coords),
        },
        _ => rt_err(coords),
    }
}

/// A unary operation on a value.
pub open spec fn spec_unary(op: UnaryOperator, v: SValue, coords: Coords) -> Result<SValue, SErr> {
    match op {
        UnaryOperator::UnaryMinus => match v {
            SValue::Int(n) => if n != i32::MIN { Ok(SValue::Int((-n) as i32)) } else { rt_err(coords) },
            SValue::Float(b) => Ok(SValue::Float(if b >= 2147483648 { (b - 2147483648) as u32 } else { (b + 2147483648) as u32 })),
            _ => rt_err(coords),
        },
        UnaryOperator::NOT => match v {
            SValue::Bool(b) => Ok(SValue::Bool(!b)),
            _ => rt_err(coords),
        },
        UnaryOperator::Parentheses => Ok(v),
    }
}

// ---------------------------------------------------- variables and indices

/// The integer indices of an index list, evaluated left to right; each must
/// be a non-negative integer.
pub open spec fn spec_eval_indices(st: EState, inds: Seq<SimpleExpression>, coords: Coords) -> Result<Seq<i32>, SErr>
    decreases inds,
{
    if inds.len() == 0 {
        Ok(seq![])
    } else {
        match spec_eval_simple(st, inds[0]) {
            Err(err) => Err(err),
            Ok(SValue::Int(i)) => if i < 0 {
                rt_err(coords)
            } else {
                match spec_eval_indices(st, inds.drop_first(), coords) {
                    Err(err) => Err(err),
                    Ok(rest) => Ok(seq![i] + rest),
                }
            },
            Ok(_) => rt_err(coords),
        }
    }
}

/// The value of a variable reference.
pub open spec fn spec_get_var(st: EState, var: VariableCall, coords: Coords) -> Result<SValue, SErr>
    decreases var,
{
    match var {
        VariableCall::Name(name) => match spec_get(st, name@) {
            Some(v) => Ok(v),
            None => rt_err(coords),
        },
        VariableCall::ArrayCall(name, inds) => if spec_get(st, name@) is None || inds@.len() == 0 {
            rt_err(coords)
        } else {
            match spec_eval_indices(st, inds@, coords) {
                Err(err) => Err(err),
                Ok(idx) => match spec_index_get(spec_get(st, name@)->0, idx) {
                    Some(v) => Ok(v),
                    None => rt_err(coords),
                },
            }
        },
    }
}

/// The value of an index expression.
pub open spec fn spec_eval_simple(st: EState, s: SimpleExpression) -> Result<SValue, SErr>
    decreases s,
{
    match s.expr {
        SimpleExpressionType::Value(v) => match v.val {
            SimpleValueType::Int(i) => Ok(SValue::Int(i)),
            SimpleValueType::Id(var) => spec_get_var(st, var, s.coords),
        },
        SimpleExpressionType::Unary(op, inner) => match spec_eval_simple(st, *inner) {
            Err(err) => Err(err),
            Ok(v) => spec_unary(op, v, inner.coords),
        },
        SimpleExpressionType::Binary(op, l, r) => match spec_eval_simple(st, *l) {
            Err(err) => Err(err),
            Ok(lv) => match spec_eval_simple(st, *r) {
                Err(err) => Err(err),
                Ok(rv) => spec_binary(op, lv, rv, s.coords),
            },
        },
    }
}

/// The state after assigning to a variable reference, if the reference
/// resolves.
pub open spec fn spec_assign(st: EState, var: VariableCall, v: SValue, coords: Coords) -> Option<EState> {
    match var {
        VariableCall::Name(name) => match spec_get(st, name@) {
            Some(_) => Some(spec_set(st, name@, v)),
            None => None,
        },
        VariableCall::ArrayCall(name, inds) => match spec_get_var(st, var, coords) {
            Err(_) => None,
            Ok(_) => match spec_eval_indices(st, inds@, coords) {
                Err(_) => None,
                Ok(idx) => match spec_index_set(spec_get(st, name@)->0, idx, v) {
                    Some(arr) => Some(spec_set(st, name@, arr)),
                    None => None,
                },
            },
        },
    }
}

// ----------------------------------------------------------------- commands

/// The style part of a filled shape's command.
pub open spec fn spec_fill_style(st: EState) -> Seq<char> {
    " fill="@ + spec_color_str(st.fill.0, st.fill.1, st.fill.2) + spec_line_style(st)
}

/// The style part of a line's command.
pub open spec fn spec_line_style(st: EState) -> Seq<char> {
    " stroke="@ + spec_color_str(st.stroke.0, st.stroke.1, st.stroke.2) + " width="@ + spec_decimal(st.width as int)
}

/// Integers separated by single spaces.
pub open spec fn spec_words(xs: Seq<i32>) -> Seq<char>
    decreases xs.len(),
{
    if xs.len() == 0 {
        seq![]
    } else if xs.len() == 1 {
        spec_decimal(xs[0] as int)
    } else {
        spec_words(xs.drop_last()) + " "@ + spec_decimal(xs.last() as int)
    }
}

/// The first `n` values as integers, when there are `n` and all are.
pub open spec fn spec_ints(vals: Seq<SValue>, n: nat) -> Option<Seq<i32>> {
    if vals.len() >= n && (forall|i: int| 0 <= i < n ==> #[trigger] vals[i] is Int) {
        Some(Seq::new(n, |i: int| vals[i]->Int_0))
    } else {
        None
    }
}

/// The state with one more emitted command.
pub open spec fn spec_emit(st: EState, c: Seq<char>) -> EState {
    EState { cmds: st.cmds.push(c), ..st }
}

/// The seed after one draw of the 32-bit linear congruential generator.
pub open spec fn spec_next_seed(s: u64) -> u64 {
    (((s % 4294967296) * 1664525 + 1013904223) % 4294967296) as u64
}

/// The color drawn from a generator state: its three high bytes.
pub open spec fn spec_seed_color(n: u64) -> (u8, u8, u8) {
    ((n / 16777216 % 256) as u8, (n / 65536 % 256) as u8, (n / 256 % 256) as u8)
}

/// A color argument: a literal color, or a random one drawn now.
pub open spec fn spec_color_arg(st: EState, vals: Seq<SValue>) -> Option<(EState, (u8, u8, u8))> {
    if vals.len() == 0 {
        None
    } else {
        match vals[0] {
            SValue::Color(r, g, b) => Some((st, (r, g, b))),
            SValue::RandomColor => Some((EState { seed: spec_next_seed(st.seed), ..st }, spec_seed_color(spec_next_seed(st.seed)))),
            _ => None,
        }
    }
}

/// The one non-negative integer argument of a command.
pub open spec fn spec_nonneg_arg(vals: Seq<SValue>) -> Option<i32> {
    if vals.len() > 0 && vals[0] is Int && vals[0]->Int_0 >= 0 {
        Some(vals[0]->Int_0)
    } else {
        None
    }
}

/// A shape command: its integer arguments, then the style it draws with.
pub open spec fn spec_shape(st: EState, word: Seq<char>, xs: Seq<i32>, filled: bool) -> EState {
    spec_emit(st, word + " "@ + spec_words(xs) + if filled { spec_fill_style(st) } else { spec_line_style(st) })
}

/// A shape command taking `n` integers.
pub open spec fn spec_shape_cmd(st: EState, name: Seq<char>, vals: Seq<SValue>, n: nat, filled: bool, coords: Coords) -> Result<EState, SErr> {
    match spec_ints(vals, n) {
        Some(xs) => Ok(spec_shape(st, name, xs, filled)),
        None => rt_err(coords),
    }
}

/// A built-in command on evaluated arguments, or `None` when `name` is not a
/// built-in.
pub open spec fn spec_builtin(st: EState, name: Seq<char>, vals: Seq<SValue>, coords: Coords) -> Option<Result<EState, SErr>> {
    if name == "circle"@ {
        Some(spec_shape_cmd(st, name, vals, 3, true, coords))
    } else if name == "line"@ {
        Some(spec_shape_cmd(st, name, vals, 4, false, coords))
    } else if name == "rectangle"@ {
        Some(spec_shape_cmd(st, name, vals, 4, true, coords))
    } else if name == "arc"@ {
        Some(spec_shape_cmd(st, name, vals, 5, true, coords))
    } else if name == "polygon"@ {
        Some(spec_shape_cmd(st, name, vals, vals.len(), true, coords))
    } else if name == "setLineColor"@ {
        Some(match spec_color_arg(st, vals) {
            Some((s1, c)) => Ok(EState { stroke: c, ..s1 }),
            None => rt_err(coords),
        })
    } else if name == "setFigureColor"@ {
        Some(match spec_color_arg(st, vals) {
            Some((s1, c)) => Ok(EState { fill: c, ..s1 }),
            None => rt_err(coords),
        })
    } else if name == "setLineWidth"@ {
        Some(match spec_nonneg_arg(vals) {
            Some(w) => Ok(EState { width: w, ..st }),
            None => rt_err(coords),
        })
    } else if name == "sleep"@ {
        Some(match spec_nonneg_arg(vals) {
            Some(t) => Ok(spec_emit(st, "sleep "@ + spec_decimal(t as int))),
            None => rt_err(coords),
        })
    } else if name == "animate"@ || name == "frame"@ || name == "clear"@ {
        Some(Ok(spec_emit(st, name)))
    } else {
        None
    }
}

// ---------------------------------------------------------------- functions

/// Index of the last function called `name`, or -1.
pub open spec fn spec_find_fn(funcs: Seq<AstFunction>, name: Seq<char>) -> int
    decreases funcs.len(),
{
    if funcs.len() == 0 {
        -1
    } else if funcs.last().name@ == name {
        funcs.len() - 1
    } else {
        spec_find_fn(funcs.drop_last(), name)
    }
}

/// A call's state: the arguments bound to the parameters, with the caller's
/// bindings hidden.
pub open spec fn spec_enter(st: EState, f: AstFunction, vals: Seq<SValue>) -> EState {
    EState {
        vars: st.vars + Seq::new(f.args@.len(), |i: int| (f.args@[i].0, vals[i])),
        base: st.vars.len() as int,
        ..st
    }
}

/// The state after leaving a block or call begun in `st`: the bindings it
/// added are dropped, all else is kept.
pub open spec fn spec_leave(st: EState, after: EState) -> EState {
    EState { vars: after.vars.subrange(0, st.vars.len() as int), base: st.base, ..after }
}

/// The state with a new binding in the innermost scope.
pub open spec fn spec_bind(st: EState, name: String, v: SValue) -> EState {
    EState { vars: st.vars.push((name, v)), ..st }
}

// ------------------------------------------------------- expressions, blocks

/// Evaluates an expression: the state afterwards (calls may draw, set
/// globals or styles) and the value or the first error. `fuel` bounds the
/// depth of calls and the number of `while` iterations.
pub open spec fn spec_eval(funcs: Seq<AstFunction>, st: EState, e: Expression, fuel: nat) -> (EState, Result<SValue, SErr>)
    decreases fuel, 0nat, e, 0nat, 0int,
{
    match e.expr_type {
        ExpressionType::Value(b) => spec_eval_base(funcs, st, b, e.coords, fuel),
        ExpressionType::Unary(op, inner) => {
            let (s1, r) = spec_eval(funcs, st, *inner, fuel);
            match r {
                Err(err) => (s1, Err(err)),
                Ok(v) => (s1, spec_unary(op, v, inner.coords)),
            }
        },
        ExpressionType::Binary(op, l, r) => {
            let (s1, lr) = spec_eval(funcs, st, *l, fuel);
            match lr {
                Err(err) => (s1, Err(err)),
                Ok(lv) => {
                    let (s2, rr) = spec_eval(funcs, s1, *r, fuel);
                    match rr {
                        Err(err) => (s2, Err(err)),
                        Ok(rv) => (s2, spec_binary(op, lv, rv, e.coords)),
                    }
                },
            }
        },
    }
}

/// Evaluates a leaf value.
pub open spec fn spec_eval_base(funcs: Seq<AstFunction>, st: EState, b: BaseValue, coords: Coords, fuel: nat) -> (EState, Result<SValue, SErr>)
    decreases fuel, 0nat, b, 0nat, 0int,
{
    match b.val {
        BaseValueType::Id(var) => (st, spec_get_var(st, var, coords)),
        BaseValueType::Int(i) => (st, Ok(SValue::Int(i))),
        BaseValueType::Bool(x) => (st, Ok(SValue::Bool(x))),
        BaseValueType::Color(r, g, bl) => (st, Ok(SValue::Color(r, g, bl))),
        BaseValueType::RandomColor => (st, Ok(SValue::RandomColor)),
        BaseValueType::Float(f) => (st, Ok(SValue::Float(f))),
        BaseValueType::Array(elems) => {
            let (s1, r) = spec_eval_elems(funcs, st, elems@, fuel);
            match r {
                Err(err) => (s1, Err(err)),
                Ok(vs) => (s1, Ok(SValue::Array(vs))),
            }
        },
        BaseValueType::FunctionCall(name, args, _) => {
            let (s1, r) = spec_eval_args(funcs, st, args@, fuel);
            match r {
                Err(err) => (s1, Err(err)),
                Ok(vals) => {
                    let k = spec_find_fn(funcs, name@);
                    if k < 0 || vals.len() < funcs[k].args@.len() || fuel == 0 {
                        (s1, rt_err(coords))
                    } else {
                        let (s2, r2) = spec_exec_stmts(funcs, spec_enter(s1, funcs[k], vals), funcs[k].block.nodes@, 0, (fuel - 1) as nat);
                        let s3 = spec_leave(s1, s2);
                        match r2 {
                            Err(err) => (s3, Err(err)),
                            Ok(Some(v)) => (s3, Ok(v)),
                            Ok(None) => (s3, rt_err(coords)),
                        }
                    }
                },
            }
        },
    }
}

/// Evaluates array literal elements left to right.
pub open spec fn spec_eval_elems(funcs: Seq<AstFunction>, st: EState, bs: Seq<BaseValue>, fuel: nat) -> (EState, Result<Seq<SValue>, SErr>)
    decreases fuel, 0nat, bs, 0nat, 0int,
{
    if bs.len() == 0 {
        (st, Ok(seq![]))
    } else {
        let (s1, r) = spec_eval_base(funcs, st, bs[0], bs[0].coords, fuel);
        match r {
            Err(err) => (s1, Err(err)),
            Ok(v) => {
                let (s2, rest) = spec_eval_elems(funcs, s1, bs.drop_first(), fuel);
                match rest {
                    Err(err) => (s2, Err(err)),
                    Ok(vs) => (s2, Ok(seq![v] + vs)),
                }
            },
        }
    }
}

/// Evaluates arguments left to right.
pub open spec fn spec_eval_args(funcs: Seq<AstFunction>, st: EState, es: Seq<Expression>, fuel: nat) -> (EState, Result<Seq<SValue>, SErr>)
    decreases fuel, 0nat, es, 0nat, 0int,
{
    if es.len() == 0 {
        (st, Ok(seq![]))
    } else {
        let (s1, r) = spec_eval(funcs, st, es[0], fuel);
        match r {
            Err(err) => (s1, Err(err)),
            Ok(v) => {
                let (s2, rest) = spec_eval_args(funcs, s1, es.drop_first(), fuel);
                match rest {
                    Err(err) => (s2, Err(err)),
                    Ok(vs) => (s2, Ok(seq![v] + vs)),
                }
            },
        }
    }
}

/// Runs the statements of a block from position `i`: the state afterwards
/// and either a returned value, nothing, or the first error.
pub open spec fn spec_exec_stmts(funcs: Seq<AstFunction>, st: EState, nodes: Seq<AstNode>, i: int, fuel: nat) -> (EState, Result<Option<SValue>, SErr>)
    decreases fuel, 1nat, nodes, 0nat, nodes.len() - i,
{
    if i < 0 || i >= nodes.len() {
        (st, Ok(None))
    } else {
        let (s1, r) = spec_exec_step(funcs, st, nodes[i], fuel);
        match r {
            Ok(None) => spec_exec_stmts(funcs, s1, nodes, i + 1, fuel),
            _ => (s1, r),
        }
    }
}

/// Runs a nested block in a new scope.
pub open spec fn spec_run_block(funcs: Seq<AstFunction>, st: EState, block: AstBlock, fuel: nat) -> (EState, Result<Option<SValue>, SErr>)
    decreases fuel, 1nat, block, 1nat, 0int,
{
    let (s1, r) = spec_exec_stmts(funcs, st, block.nodes@, 0, fuel);
    (spec_leave(st, s1), r)
}

/// Runs one statement.
#[verifier::rlimit(40)]
pub open spec fn spec_exec_step(funcs: Seq<AstFunction>, st: EState, line: AstNode, fuel: nat) -> (EState, Result<Option<SValue>, SErr>)
    decreases fuel, 1nat, line, 2nat, 0int,
{
    match line.statement {
        AstStatement::Command { name, args } => {
            let (s1, r) = spec_eval_args(funcs, st, args@, fuel);
            match r {
                Err(err) => (s1, Err(err)),
                Ok(vals) => match spec_builtin(s1, name@, vals, line.coords) {
                    Some(Ok(s2)) => (s2, Ok(None)),
                    Some(Err(err)) => (s1, Err(err)),
                    None => {
                        let k = spec_find_fn(funcs, name@);
                        if k < 0 || vals.len() != funcs[k].args@.len() || fuel == 0 {
                            (s1, rt_err(line.coords))
                        } else {
                            let (s2, r2) = spec_exec_stmts(funcs, spec_enter(s1, funcs[k], vals), funcs[k].block.nodes@, 0, (fuel - 1) as nat);
                            match r2 {
                                Err(err) => (spec_leave(s1, s2), Err(err)),
                                Ok(_) => (spec_leave(s1, s2), Ok(None)),
                            }
                        }
                    },
                },
            }
        },
        AstStatement::Init { typ: _, val, expr } => {
            let (s1, r) = spec_eval(funcs, st, expr, fuel);
            match r {
                Err(err) => (s1, Err(err)),
                Ok(v) => if spec_get(s1, val@) is Some {
                    (s1, rt_err(line.coords))
                } else {
                    (spec_bind(s1, val, v), Ok(None))
                },
            }
        },
        AstStatement::SetVal { val, expr } => {
            let (s1, r) = spec_eval(funcs, st, expr, fuel);
            match r {
                Err(err) => (s1, Err(err)),
                Ok(v) => match spec_assign(s1, val, v, line.coords) {
                    Some(s2) => (s2, Ok(None)),
                    None => (s1, rt_err(line.coords)),
                },
            }
        },
        AstStatement::If { clause, block, else_block } => {
            let (s1, r) = spec_eval(funcs, st, clause, fuel);
            match r {
                Err(err) => (s1, Err(err)),
                Ok(SValue::Bool(true)) => spec_run_block(funcs, s1, block, fuel),
                Ok(SValue::Bool(false)) => match else_block {
                    Some(eb) => spec_run_block(funcs, s1, eb, fuel),
                    None => (s1, Ok(None)),
                },
                Ok(_) => (s1, rt_err(line.coords)),
            }
        },
        AstStatement::While { clause, block } => spec_while(funcs, st, line, fuel),
        AstStatement::For { val, from, to, block } => {
            let (s1, r1) = spec_eval_base(funcs, st, from, from.coords, fuel);
            match r1 {
                Err(err) => (s1, Err(err)),
                Ok(SValue::Int(f)) => {
                    let (s2, r2) = spec_eval_base(funcs, s1, to, to.coords, fuel);
                    match r2 {
                        Err(err) => (s2, Err(err)),
                        Ok(SValue::Int(t)) => {
                            let lo = if f <= t { f as int } else { t as int };
                            let hi = if f <= t { t as int } else { f as int };
                            spec_for(funcs, s2, line, lo, hi, fuel)
                        },
                        Ok(_) => (s2, rt_err(line.coords)),
                    }
                },
                Ok(_) => (s1, rt_err(line.coords)),
            }
        },
        AstStatement::Return { expr } => {
            let (s1, r) = spec_eval(funcs, st, expr, fuel);
            match r {
                Err(err) => (s1, Err(err)),
                Ok(v) => (s1, Ok(Some(v))),
            }
        },
    }
}

/// The iterations of a `while` statement; each one costs a unit of fuel.
pub open spec fn spec_while(funcs: Seq<AstFunction>, st: EState, line: AstNode, fuel: nat) -> (EState, Result<Option<SValue>, SErr>)
    decreases fuel, 1nat, line, 1nat, 0int,
{
    match line.statement {
        AstStatement::While { clause, block } => {
            let (s1, r) = spec_eval(funcs, st, clause, fuel);
            match r {
                Err(err) => (s1, Err(err)),
                Ok(SValue::Bool(true)) => if fuel == 0 {
                    (s1, rt_err(line.coords))
                } else {
                    let (s2, r2) = spec_run_block(funcs, s1, block, (fuel - 1) as nat);
                    match r2 {
                        Ok(None) => spec_while(funcs, s2, line, (fuel - 1) as nat),
                        _ => (s2, r2),
                    }
                },
                Ok(SValue::Bool(false)) => (s1, Ok(None)),
                Ok(_) => (s1, rt_err(line.coords)),
            }
        },
        _ => (st, Ok(None)),
    }
}

/// The iterations of a `for` statement from counter `c` up to `hi`; each
/// binds the loop variable afresh in a new scope.
pub open spec fn spec_for(funcs: Seq<AstFunction>, st: EState, line: AstNode, c: int, hi: int, fuel: nat) -> (EState, Result<Option<SValue>, SErr>)
    decreases fuel, 1nat, line, 1nat, hi + 1 - c,
{
    match line.statement {
        AstStatement::For { val, from: _, to: _, block } => if c > hi || !in_i32(c) {
            (st, Ok(None))
        } else if spec_get(st, val@) is Some {
            (st, rt_err(line.coords))
        } else {
            let (s1, r) = spec_exec_stmts(funcs, spec_bind(st, val, SValue::Int(c as i32)), block.nodes@, 0, fuel);
            let s2 = spec_leave(st, s1);
            match r {
                Ok(None) => spec_for(funcs, s2, line, c + 1, hi, fuel),
                _ => (s2, r),
            }
        },
        _ => (st, Ok(None)),
    }
}

// ------------------------------------------------------------ executable

/// Bindings with their values seen mathematically.
pub open spec fn pairs_view(s: Seq<(String, Value)>) -> Seq<(String, SValue)> {
    s.map_values(|p: (String, Value)| (p.0, view_value(p.1)))
}

pub open spec fn opt_view(o: Option<Value>) -> Option<SValue> {
    match o {
        Some(v) => Some(view_value(v)),
        None => None,
    }
}

/// Whether an executable value result agrees with a specified one.
pub open spec fn vres_matches(r: Result<Value, Error>, s: Result<SValue, SErr>) -> bool {
    match (r, s) {
        (Ok(a), Ok(b)) => view_value(a) == b,
        (Err(e), Err(se)) => err_matches(e, se),
        _ => false,
    }
}

/// The tree-walking evaluator: the program, its bindings, its drawing
/// style and the commands emitted so far.
#[derive(Debug)]
pub struct Execution {
    pub lines: AstProgram,
    pub vars: Vec<(String, Value)>,
    pub base: usize,
    pub global_vars: Vec<(String, Value)>,
    pub figure_color: (u8, u8, u8),
    pub line_color: (u8, u8, u8),
    pub line_width: i32,
    pub commands: Vec<String>,
    pub seed: u64,
}

impl Execution {
    pub open spec fn state(&self) -> EState {
        EState {
            vars: pairs_view(self.vars@),
            base: self.base as int,
            globals: pairs_view(self.global_vars@),
            fill: self.figure_color,
            stroke: self.line_color,
            width: self.line_width,
            cmds: self.commands@.map_values(|c: String| c@),
            seed: self.seed,
        }
    }

    pub open spec fn wf(&self) -> bool {
        self.base <= self.vars@.len()
    }
}

/// Index of the last binding of `name` at or after `from`.
fn find(s: &Vec<(String, Value)>, from: usize, name: &String) -> (r: Option<usize>)
    ensures
        match r {
            Some(i) => spec_find(pairs_view(s@), from as int, name@) == i as int && i < s@.len(),
            None => spec_find(pairs_view(s@), from as int, name@) == -1,
        },
{
    let mut i: usize = s.len();
    proof {
        assert(pairs_view(s@).subrange(0, s@.len() as int) =~= pairs_view(s@));
    }
    while i > from
        invariant
            i <= s@.len(),
            spec_find(pairs_view(s@), from as int, name@) == spec_find(pairs_view(s@).subrange(0, i as int), from as int, name@),
        decreases i,
    {
        proof {
            assert(pairs_view(s@).subrange(0, i as int).drop_last() =~= pairs_view(s@).subrange(0, i - 1));
        }
        if s[i - 1].0 == *name {
            return Some(i - 1);
        }
        i -= 1;
    }
    None
}

/// Where a name resolves, executably.
pub enum Place {
    Local(usize),
    Global(usize),
    Missing,
}

impl Execution {
    fn resolve(&self, name: &String) -> (r: Place)
        ensures
            match (r, spec_resolve(self.state(), name@)) {
                (Place::Local(i), Slot::Local(j)) => i == j && i < self.vars@.len(),
                (Place::Global(i), Slot::Global(j)) => i == j && i < self.global_vars@.len(),
                (Place::Missing, Slot::Missing) => true,
                _ => false,
            },
    {
        match find(&self.vars, self.base, name) {
            Some(i) => Place::Local(i),
            None => match find(&self.global_vars, 0, name) {
                Some(i) => Place::Global(i),
                None => Place::Missing,
            },
        }
    }

    /// The value of a visible variable.
    pub fn get(&self, name: &String) -> (r: Option<Value>)
        ensures
            opt_view(r) == spec_get(self.state(), name@),
    {
        match self.resolve(name) {
            Place::Local(i) => Some(self.vars[i].1.copy()),
            Place::Global(i) => Some(self.global_vars[i].1.copy()),
            Place::Missing => None,
        }
    }

    /// Whether a variable is visible.
    pub fn contains_key(&self, name: &String) -> (r: bool)
        ensures
            r == (spec_get(self.state(), name@) is Some),
    {
        match self.resolve(name) {
            Place::Missing => false,
            _ => true,
        }
    }

    /// Replaces the value of a visible variable; reports whether it was.
    fn set(&mut self, name: &String, v: Value) -> (r: bool)
        ensures
            r == (spec_get(old(self).state(), name@) is Some),
            final(self).state() == spec_set(old(self).state(), name@, view_value(v)),
            final(self).vars@.len() == old(self).vars@.len(),
            final(self).base == old(self).base,
            final(self).lines == old(self).lines,
    {
        let ghost vv = view_value(v);
        match self.resolve(name) {
            Place::Local(i) => {
                let n = self.vars[i].0.clone();
                self.vars.set(i, (n, v));
                proof {
                    assert(pairs_view(self.vars@) =~= pairs_view(old(self).vars@).update(i as int, (n, vv)));
                }
                true
            },
            Place::Global(i) => {
                let n = self.global_vars[i].0.clone();
                self.global_vars.set(i, (n, v));
                proof {
                    assert(pairs_view(self.global_vars@) =~= pairs_view(old(self).global_vars@).update(i as int, (n, vv)));
                }
                true
            },
            Place::Missing => false,
        }
    }

    /// Adds a binding to the innermost scope.
    fn bind(&mut self, name: String, v: Value)
        ensures
            final(self).state() == spec_bind(old(self).state(), name, view_value(v)),
            final(self).vars@.len() == old(self).vars@.len() + 1,
            final(self).base == old(self).base,
            final(self).lines == old(self).lines,
    {
        let ghost vv = view_value(v);
        self.vars.push((name, v));
        proof {
            assert(pairs_view(self.vars@) =~= pairs_view(old(self).vars@).push((name, vv)));
        }
    }

    /// Drops the bindings past `n`.
    fn leave(&mut self, n: usize, base: usize)
        requires
            n <= old(self).vars@.len(),
        ensures
            final(self).state() == (EState { vars: old(self).state().vars.subrange(0, n as int), base: base as int, ..old(self).state() }),
            final(self).vars@.len() == n,
            final(self).base == base,
            final(self).lines == old(self).lines,
    {
        self.vars.truncate(n);
        self.base = base;
        proof {
            assert(pairs_view(self.vars@) =~= pairs_view(old(self).vars@).subrange(0, n as int));
        }
    }
}

/// Reads through the indices from position `k` on.
fn index_get(v: &Value, idx: &Vec<i32>, k: usize) -> (r: Option<Value>)
    requires
        k <= idx@.len(),
    ensures
        opt_view(r) == spec_index_get(view_value(*v), idx@.subrange(k as int, idx@.len() as int)),
    decreases idx@.len() - k,
{
    let ghost rest = idx@.subrange(k as int, idx@.len() as int);
    if k == idx.len() {
        return Some(v.copy());
    }
    proof {
        assert(rest[0] == idx@[k as int]);
        assert(rest.drop_first() =~= idx@.subrange(k + 1, idx@.len() as int));
    }
    match v {
        Value::Array(a) => {
            let i = idx[k];
            if 0 <= i && (i as usize) < a.len() {
                index_get(&a[i as usize], idx, k + 1)
            } else {
                None
            }
        },
        _ => None,
    }
}

/// Replaces the element at the indices from position `k` on.
fn index_set(v: Value, idx: &Vec<i32>, k: usize, x: Value) -> (r: Option<Value>)
    requires
        k <= idx@.len(),
    ensures
        opt_view(r) == spec_index_set(view_value(v), idx@.subrange(k as int, idx@.len() as int), view_value(x)),
    decreases idx@.len() - k,
{
    let ghost rest = idx@.subrange(k as int, idx@.len() as int);
    if k == idx.len() {
        return Some(x);
    }
    proof {
        assert(rest[0] == idx@[k as int]);
        assert(rest.drop_first() =~= idx@.subrange(k + 1, idx@.len() as int));
    }
    match v {
        Value::Array(a) => {
            let i = idx[k];
            if 0 <= i && (i as usize) < a.len() {
                let ghost va = view_value(Value::Array(a));
                let elem = a[i as usize].copy();
                match index_set(elem, idx, k + 1, x) {
                    Some(e) => {
                        let ghost ve = view_value(e);
                        let mut a2 = a;
                        a2.set(i as usize, e);
                        let r = Value::Array(a2);
                        proof {
                            let vr = view_value(r)->Array_0;
                            let expect = va->Array_0.update(i as int, ve);
                            assert forall|j: int| 0 <= j < vr.len() implies #[trigger] vr[j] == expect[j] by {
                                assert(vr[j] == view_value(a2@[j]));
                            }
                            assert(vr =~= expect);
                        }
                        Some(r)
                    },
                    None => None,
                }
            } else {
                None
            }
        },
        _ => None,
    }
}

fn rt(msg: &str, coords: Coords) -> (r: Error)
    ensures
        spec_error_is(r, ErrorType::RuntimeError, coords),
{
    Error::runtime(String::from_str(msg), coords)
}

fn f32_key_exec(b: u32) -> (r: i64)
    ensures
        r as int == f32_key(b),
{
    if b >= 2147483648 {
        -((b - 2147483648) as i64)
    } else {
        b as i64
    }
}

/// IEEE-754 comparison of two single-precision bit patterns.
pub fn float_cmp(op: Operator, x: u32, y: u32) -> (r: Option<bool>)
    ensures
        r == spec_float_cmp(op, x, y),
{
    let unordered = (x / 8388608 % 256 == 255 && x % 8388608 != 0) || (y / 8388608 % 256 == 255 && y % 8388608 != 0);
    let kx = f32_key_exec(x);
    let ky = f32_key_exec(y);
    match op {
        Operator::EQ => Some(!unordered && kx == ky),
        Operator::NQ => Some(unordered || kx != ky),
        Operator::GT => Some(!unordered && kx > ky),
        Operator::LT => Some(!unordered && kx < ky),
        Operator::GQ => Some(!unordered && kx >= ky),
        Operator::LQ => Some(!unordered && kx <= ky),
        _ => None,
    }
}

/// An operation on two integers.
pub fn int_op(op: Operator, x: i32, y: i32, coords: Coords) -> (r: Result<Value, Error>)
    ensures
        vres_matches(r, spec_int_op(op, x, y, coords)),
{
    let a = x as i64;
    let b = y as i64;
    match op {
        Operator::EQ => Ok(Value::Bool(a == b)),
        Operator::NQ => Ok(Value::Bool(a != b)),
        Operator::GT => Ok(Value::Bool(a > b)),
        Operator::LT => Ok(Value::Bool(a < b)),
        Operator::GQ => Ok(Value::Bool(a >= b)),
        Operator::LQ => Ok(Value::Bool(a <= b)),
        Operator::Plus | Operator::Minus | Operator::Mult => {
            proof {
                assert(-4611686018427387904 <= a * b <= 4611686018427387904) by (nonlinear_arith)
                    requires
                        -2147483648 <= a <= 2147483647,
                        -2147483648 <= b <= 2147483647,
                ;
            }
            let c: i64 = match op {
                Operator::Plus => a + b,
                Operator::Minus => a - b,
                _ => a * b,
            };
            if i32::MIN as i64 <= c && c <= i32::MAX as i64 {
                Ok(Value::Int(c as i32))
            } else {
                Err(rt("Integer overflow", coords))
            }
        },
        Operator::Div | Operator::Mod => {
            if b == 0 {
                return Err(rt("Division by zero", coords));
            }
            let ua: i64 = if a < 0 { -a } else { a };
            let ub: i64 = if b < 0 { -b } else { b };
            if let Operator::Div = op {
                let q = ua / ub;
                let c: i64 = if (a < 0) != (b < 0) { -q } else { q };
                if c <= i32::MAX as i64 {
                    Ok(Value::Int(c as i32))
                } else {
                    Err(rt("Integer overflow", coords))
                }
            } else {
                let m = ua % ub;
                let c: i64 = if a < 0 { -m } else { m };
                Ok(Value::Int(c as i32))
            }
        },
        _ => Err(rt("Cannot apply this operator to integers", coords)),
    }
}

/// A binary operation on two values.
pub fn binary(op: Operator, l: &Value, r: &Value, coords: Coords) -> (res: Result<Value, Error>)
    ensures
        vres_matches(res, spec_binary(op, view_value(*l), view_value(*r), coords)),
{
    match (l, r) {
        (Value::Int(x), Value::Int(y)) => int_op(op, *x, *y, coords),
        (Value::Float(x), Value::Float(y)) => match float_cmp(op, *x, *y) {
            Some(b) => Ok(Value::Bool(b)),
            None => Err(rt("Floating-point arithmetic is not supported", coords)),
        },
        (Value::Bool(a), Value::Bool(b)) => match op {
            Operator::EQ => Ok(Value::Bool(*a == *b)),
            Operator::NQ => Ok(Value::Bool(*a != *b)),
            Operator::AND => Ok(Value::Bool(*a && *b)),
            Operator::OR => Ok(Value::Bool(*a || *b)),
            _ => Err(rt("Cannot apply this operator to bools", coords)),
        },
        _ => Err(rt("Unsolvable expression!", coords)),
    }
}

/// A unary operation on a value.
pub fn unary(op: UnaryOperator, v: Value, coords: Coords) -> (r: Result<Value, Error>)
    ensures
        vres_matches(r, spec_unary(op, view_value(v), coords)),
{
    match op {
        UnaryOperator::UnaryMinus => match v {
            Value::Int(n) => if n != i32::MIN {
                Ok(Value::Int(-n))
            } else {
                Err(rt("Integer overflow", coords))
            },
            Value::Float(b) => Ok(Value::Float(if b >= 2147483648 { b - 2147483648 } else { b + 2147483648 })),
            _ => Err(rt("Cannot apply unary minus to this value", coords)),
        },
        UnaryOperator::NOT => match v {
            Value::Bool(b) => Ok(Value::Bool(!b)),
            _ => Err(rt("Unary not only allowed on bool", coords)),
        },
        UnaryOperator::Parentheses => Ok(v),
    }
}

impl Execution {
    /// The indices of an index list.
    fn eval_indices(&self, inds: &Vec<SimpleExpression>, coords: Coords) -> (r: Result<Vec<i32>, Error>)
        ensures
            match (r, spec_eval_indices(self.state(), inds@, coords)) {
                (Ok(a), Ok(b)) => a@ == b,
                (Err(e), Err(se)) => err_matches(e, se),
                _ => false,
            },
        decreases inds, 0nat,
    {
        let mut out: Vec<i32> = Vec::new();
        let mut i: usize = 0;
        proof {
            assert(inds@.subrange(0, inds@.len() as int) =~= inds@);
        }
        while i < inds.len()
            invariant
                i <= inds@.len(),
                spec_eval_indices(self.state(), inds@, coords) == match spec_eval_indices(self.state(), inds@.subrange(i as int, inds@.len() as int), coords) {
                    Ok(rest) => Ok(out@ + rest),
                    Err(err) => Err::<Seq<i32>, SErr>(err),
                },
            decreases inds.len() - i,
        {
            proof {
                let sub = inds@.subrange(i as int, inds@.len() as int);
                assert(sub[0] == inds@[i as int]);
                assert(sub.drop_first() =~= inds@.subrange(i + 1, inds@.len() as int));
                assert(decreases_to!(inds => inds[i as int]));
            }
            let v = self.eval_simple(&inds[i])?;
            match v {
                Value::Int(k) => {
                    if k < 0 {
                        return Err(rt("Negative array index", coords));
                    }
                    proof {
                        let rest = inds@.subrange(i + 1, inds@.len() as int);
                        match spec_eval_indices(self.state(), rest, coords) {
                            Ok(r2) => {
                                assert(out@.push(k) + r2 =~= out@ + (seq![k] + r2));
                            },
                            Err(_) => {},
                        }
                    }
                    out.push(k);
                },
                _ => {
                    return Err(rt("Array indices must be integers", coords));
                },
            }
            i += 1;
        }
        proof {
            assert(inds@.subrange(i as int, inds@.len() as int) =~= seq![]);
            assert(out@ + seq![] =~= out@);
        }
        Ok(out)
    }

    /// The value of a variable reference.
    pub fn get_variable(&self, var: &VariableCall, coords: Coords) -> (r: Result<Value, Error>)
        ensures
            vres_matches(r, spec_get_var(self.state(), *var, coords)),
        decreases var,
    {
        match var {
            VariableCall::Name(name) => match self.get(name) {
                Some(v) => Ok(v),
                None => Err(rt("Unknown variable", coords)),
            },
            VariableCall::ArrayCall(name, inds) => {
                let arr = match self.get(name) {
                    Some(a) => a,
                    None => {
                        return Err(rt("Unknown array", coords));
                    },
                };
                if inds.len() == 0 {
                    return Err(rt("Empty index", coords));
                }
                let idx = self.eval_indices(inds, coords)?;
                proof {
                    assert(idx@.subrange(0, idx@.len() as int) =~= idx@);
                }
                match index_get(&arr, &idx, 0) {
                    Some(v) => Ok(v),
                    None => Err(rt("Index out of bounds, or not an array", coords)),
                }
            },
        }
    }

    /// The value of an index expression.
    pub fn eval_simple(&self, s: &SimpleExpression) -> (r: Result<Value, Error>)
        ensures
            vres_matches(r, spec_eval_simple(self.state(), *s)),
        decreases s,
    {
        match &s.expr {
            SimpleExpressionType::Value(v) => match &v.val {
                SimpleValueType::Int(i) => Ok(Value::Int(*i)),
                SimpleValueType::Id(var) => self.get_variable(var, s.coords),
            },
            SimpleExpressionType::Unary(op, inner) => {
                let v = self.eval_simple(inner)?;
                unary(*op, v, inner.coords)
            },
            SimpleExpressionType::Binary(op, l, r) => {
                let lv = self.eval_simple(l)?;
                let rv = self.eval_simple(r)?;
                binary(*op, &lv, &rv, s.coords)
            },
        }
    }

    /// Assigns to a variable reference; reports whether it resolved.
    fn assign(&mut self, var: &VariableCall, v: Value, coords: Coords) -> (r: bool)
        ensures
            match spec_assign(old(self).state(), *var, view_value(v), coords) {
                Some(s2) => r && final(self).state() == s2,
                None => !r && final(self).state() == old(self).state(),
            },
            final(self).vars@.len() == old(self).vars@.len(),
            final(self).base == old(self).base,
            final(self).lines == old(self).lines,
    {
        match var {
            VariableCall::Name(name) => {
                if self.get(name).is_none() {
                    return false;
                }
                self.set(name, v)
            },
            VariableCall::ArrayCall(name, inds) => {
                if self.get_variable(var, coords).is_err() {
                    return false;
                }
                let idx = match self.eval_indices(inds, coords) {
                    Ok(idx) => idx,
                    Err(_) => {
                        return false;
                    },
                };
                let arr = match self.get(name) {
                    Some(a) => a,
                    None => {
                        return false;
                    },
                };
                proof {
                    assert(idx@.subrange(0, idx@.len() as int) =~= idx@);
                }
                match index_set(arr, &idx, 0, v) {
                    Some(new_arr) => self.set(name, new_arr),
                    None => false,
                }
            },
        }
    }
}

pub open spec fn values_view(s: Seq<Value>) -> Seq<SValue> {
    s.map_values(|v: Value| view_value(v))
}

fn push_words(s: &mut String, xs: &Vec<i32>)
    ensures
        final(s)@ == old(s)@ + spec_words(xs@),
{
    let mut i: usize = 0;
    proof {
        assert(xs@.subrange(0, 0) =~= seq![]);
        assert(s@ =~= old(s)@ + spec_words(seq![]));
    }
    while i < xs.len()
        invariant
            i <= xs@.len(),
            s@ == old(s)@ + spec_words(xs@.subrange(0, i as int)),
        decreases xs.len() - i,
    {
        proof {
            assert(xs@.subrange(0, i + 1).drop_last() =~= xs@.subrange(0, i as int));
        }
        if i > 0 {
            push_str(s, " ");
        }
        push_decimal(s, xs[i] as i64);
        i += 1;
        proof {
            reveal_strlit(" ");
            assert(s@ =~= old(s)@ + spec_words(xs@.subrange(0, i as int)));
        }
    }
    proof {
        assert(xs@.subrange(0, xs@.len() as int) =~= xs@);
    }
}

/// The first `n` values as integers.
fn ints(vals: &Vec<Value>, n: usize) -> (r: Option<Vec<i32>>)
    ensures
        match spec_ints(values_view(vals@), n as nat) {
            Some(xs) => r is Some && r->0@ == xs,
            None => r is None,
        },
{
    if vals.len() < n {
        return None;
    }
    let mut out: Vec<i32> = Vec::new();
    let mut i: usize = 0;
    while i < n
        invariant
            i <= n <= vals@.len(),
            out@.len() == i,
            forall|j: int| 0 <= j < i ==> (#[trigger] values_view(vals@)[j]) is Int && out@[j] == values_view(vals@)[j]->Int_0,
        decreases n - i,
    {
        match &vals[i] {
            Value::Int(x) => {
                out.push(*x);
            },
            _ => {
                proof {
                    assert(!(values_view(vals@)[i as int] is Int));
                }
                return None;
            },
        }
        i += 1;
    }
    proof {
        assert(out@ =~= Seq::new(n as nat, |j: int| values_view(vals@)[j]->Int_0));
    }
    Some(out)
}

fn next_seed(s: u64) -> (r: u64)
    ensures
        r == spec_next_seed(s),
{
    let m = s % 4294967296;
    proof {
        assert(m * 1664525 <= 4294967295 * 1664525) by (nonlinear_arith)
            requires
                m <= 4294967295,
        ;
    }
    (m * 1664525 + 1013904223) % 4294967296
}

impl Execution {
    fn push_line_style(&self, s: &mut String)
        ensures
            final(s)@ == old(s)@ + spec_line_style(self.state()),
    {
        proof {
            reveal_strlit(" stroke=");
            reveal_strlit(" width=");
        }
        push_str(s, " stroke=");
        push_color(s, self.line_color.0, self.line_color.1, self.line_color.2);
        push_str(s, " width=");
        push_decimal(s, self.line_width as i64);
        proof {
            assert(final(s)@ =~= old(s)@ + spec_line_style(self.state()));
        }
    }

    fn emit(&mut self, c: String)
        ensures
            final(self).state() == spec_emit(old(self).state(), c@),
            final(self).vars == old(self).vars,
            final(self).base == old(self).base,
            final(self).lines == old(self).lines,
    {
        self.commands.push(c);
        proof {
            assert(self.state().cmds =~= old(self).state().cmds.push(c@));
        }
    }

    /// Emits a shape command with the current style.
    fn shape(&mut self, word: &String, xs: &Vec<i32>, filled: bool)
        ensures
            final(self).state() == spec_shape(old(self).state(), word@, xs@, filled),
            final(self).vars == old(self).vars,
            final(self).base == old(self).base,
            final(self).lines == old(self).lines,
    {
        let mut s = String::from_str(word.as_str());
        push_str(&mut s, " ");
        push_words(&mut s, xs);
        if filled {
            proof {
                reveal_strlit(" fill=");
            }
            push_str(&mut s, " fill=");
            push_color(&mut s, self.figure_color.0, self.figure_color.1, self.figure_color.2);
        }
        self.push_line_style(&mut s);
        proof {
            reveal_strlit(" ");
            assert(s@ =~= word@ + " "@ + spec_words(xs@) + if filled { spec_fill_style(self.state()) } else { spec_line_style(self.state()) });
        }
        self.emit(s);
    }

    /// A color argument: a literal, or a random one drawn from the seed.
    fn color_arg(&mut self, vals: &Vec<Value>) -> (r: Option<(u8, u8, u8)>)
        ensures
            match spec_color_arg(old(self).state(), values_view(vals@)) {
                Some((s1, c)) => r == Some(c) && final(self).state() == s1,
                None => r is None && final(self).state() == old(self).state(),
            },
            final(self).vars == old(self).vars,
            final(self).base == old(self).base,
            final(self).lines == old(self).lines,
    {
        if vals.len() == 0 {
            return None;
        }
        match &vals[0] {
            Value::Color(r, g, b) => Some((*r, *g, *b)),
            Value::RandomColor => {
                let n = next_seed(self.seed);
                self.seed = n;
                Some((((n / 16777216) % 256) as u8, ((n / 65536) % 256) as u8, ((n / 256) % 256) as u8))
            },
            _ => None,
        }
    }

    /// A built-in command on evaluated arguments; `None` when `name` is not
    /// a built-in.
    fn builtin(&mut self, name: &String, vals: &Vec<Value>, coords: Coords) -> (r: Option<Result<(), Error>>)
        ensures
            match spec_builtin(old(self).state(), name@, values_view(vals@), coords) {
                None => r is None && final(self).state() == old(self).state(),
                Some(Ok(s2)) => r == Some(Ok::<(), Error>(())) && final(self).state() == s2,
                Some(Err(se)) => r is Some && r->0 is Err && err_matches(r->0->Err_0, se)
                    && final(self).state() == old(self).state(),
            },
            final(self).vars == old(self).vars,
            final(self).base == old(self).base,
            final(self).lines == old(self).lines,
    {
        let t = name.as_str();
        let (n, filled, is_shape): (usize, bool, bool) = if str_eq(t, "circle") {
            (3, true, true)
        } else if str_eq(t, "line") {
            (4, false, true)
        } else if str_eq(t, "rectangle") {
            (4, true, true)
        } else if str_eq(t, "arc") {
            (5, true, true)
        } else if str_eq(t, "polygon") {
            (vals.len(), true, true)
        } else {
            (0, false, false)
        };
        if is_shape {
            return Some(match ints(vals, n) {
                Some(xs) => {
                    self.shape(name, &xs, filled);
                    Ok(())
                },
                None => Err(rt("Expected integer arguments", coords)),
            });
        }
        if str_eq(t, "setLineColor") || str_eq(t, "setFigureColor") {
            return Some(match self.color_arg(vals) {
                Some(c) => {
                    if str_eq(t, "setLineColor") {
                        self.line_color = c;
                    } else {
                        self.figure_color = c;
                    }
                    Ok(())
                },
                None => Err(rt("Expected a color", coords)),
            });
        }
        if str_eq(t, "setLineWidth") || str_eq(t, "sleep") {
            let arg: Option<i32> = if vals.len() > 0 {
                match &vals[0] {
                    Value::Int(w) => if *w >= 0 { Some(*w) } else { None },
                    _ => None,
                }
            } else {
                None
            };
            return Some(match arg {
                Some(w) => {
                    if str_eq(t, "setLineWidth") {
                        self.line_width = w;
                    } else {
                        let mut c = String::from_str("sleep ");
                        push_decimal(&mut c, w as i64);
                        proof {
                            reveal_strlit("sleep ");
                        }
                        self.emit(c);
                    }
                    Ok(())
                },
                None => Err(rt("Expected a non-negative integer", coords)),
            });
        }
        if str_eq(t, "animate") || str_eq(t, "frame") || str_eq(t, "clear") {
            self.emit(name.clone());
            return Some(Ok(()));
        }
        None
    }
}

/// Whether an executable statement result agrees with a specified one.
pub open spec fn ores_matches(r: Result<Option<Value>, Error>, s: Result<Option<SValue>, SErr>) -> bool {
    match (r, s) {
        (Ok(a), Ok(b)) => opt_view(a) == b,
        (Err(e), Err(se)) => err_matches(e, se),
        _ => false,
    }
}

/// Whether an executable list result agrees with a specified one.
pub open spec fn lres_matches(r: Result<Vec<Value>, Error>, s: Result<Seq<SValue>, SErr>) -> bool {
    match (r, s) {
        (Ok(a), Ok(b)) => values_view(a@) == b,
        (Err(e), Err(se)) => err_matches(e, se),
        _ => false,
    }
}

/// What every evaluation step keeps: the program, the innermost function's
/// base, and no fewer bindings than before.
pub open spec fn keeps(a: &Execution, b: &Execution) -> bool {
    &&& b.wf()
    &&& b.lines == a.lines
    &&& b.base == a.base
    &&& b.vars@.len() >= a.vars@.len()
}

/// Index of the last function called `name`.
fn find_fn(funcs: &Vec<AstFunction>, name: &String) -> (r: Option<usize>)
    ensures
        match r {
            Some(k) => spec_find_fn(funcs@, name@) == k as int && k < funcs@.len(),
            None => spec_find_fn(funcs@, name@) == -1,
        },
{
    let mut i: usize = funcs.len();
    proof {
        assert(funcs@.subrange(0, funcs@.len() as int) =~= funcs@);
    }
    while i > 0
        invariant
            i <= funcs@.len(),
            spec_find_fn(funcs@, name@) == spec_find_fn(funcs@.subrange(0, i as int), name@),
        decreases i,
    {
        proof {
            assert(funcs@.subrange(0, i as int).drop_last() =~= funcs@.subrange(0, i - 1));
        }
        if funcs[i - 1].name == *name {
            return Some(i - 1);
        }
        i -= 1;
    }
    proof {
        assert(funcs@.subrange(0, 0) =~= seq![]);
    }
    None
}

impl Execution {
    /// Binds a call's arguments to its parameters in a scope that hides the
    /// caller's bindings; returns the caller's base.
    fn enter(&mut self, f: &AstFunction, vals: &Vec<Value>) -> (old_base: usize)
        requires
            old(self).wf(),
            vals@.len() >= f.args@.len(),
        ensures
            old_base == old(self).base,
            final(self).state() == spec_enter(old(self).state(), *f, values_view(vals@)),
            final(self).wf(),
            final(self).lines == old(self).lines,
            final(self).vars@.len() == old(self).vars@.len() + f.args@.len(),
    {
        let n = self.vars.len();
        let old_base = self.base;
        let mut i: usize = 0;
        while i < f.args.len()
            invariant
                i <= f.args@.len() <= vals@.len(),
                n == old(self).vars@.len(),
                self.base == old(self).base,
                self.lines == old(self).lines,
                self.vars@.len() == n + i,
                self.state() == (EState {
                    vars: old(self).state().vars + Seq::new(i as nat, |j: int| (f.args@[j].0, values_view(vals@)[j])),
                    ..old(self).state()
                }),
            decreases f.args.len() - i,
        {
            let ghost before = self.state();
            self.bind(f.args[i].0.clone(), vals[i].copy());
            i += 1;
            proof {
                assert(self.state().vars =~= old(self).state().vars + Seq::new(i as nat, |j: int| (f.args@[j].0, values_view(vals@)[j])));
            }
        }
        self.base = n;
        old_base
    }

    /// Evaluates an expression.
    pub fn calculate_expression(&mut self, funcs: &Vec<AstFunction>, e: &Expression, fuel: u64) -> (r: Result<Value, Error>)
        requires
            old(self).wf(),
        ensures
            vres_matches(r, spec_eval(funcs@, old(self).state(), *e, fuel as nat).1),
            final(self).state() == spec_eval(funcs@, old(self).state(), *e, fuel as nat).0,
            keeps(old(self), final(self)),
            final(self).vars@.len() == old(self).vars@.len(),
        decreases fuel, 0nat, e, 0nat, 0int,
    {
        match &e.expr_type {
            ExpressionType::Value(b) => self.eval_base(funcs, b, e.coords, fuel),
            ExpressionType::Unary(op, inner) => {
                let v = self.calculate_expression(funcs, inner, fuel)?;
                unary(*op, v, inner.coords)
            },
            ExpressionType::Binary(op, l, r) => {
                let lv = self.calculate_expression(funcs, l, fuel)?;
                let rv = self.calculate_expression(funcs, r, fuel)?;
                binary(*op, &lv, &rv, e.coords)
            },
        }
    }

    /// Evaluates a leaf value.
    fn eval_base(&mut self, funcs: &Vec<AstFunction>, b: &BaseValue, coords: Coords, fuel: u64) -> (r: Result<Value, Error>)
        requires
            old(self).wf(),
        ensures
            vres_matches(r, spec_eval_base(funcs@, old(self).state(), *b, coords, fuel as nat).1),
            final(self).state() == spec_eval_base(funcs@, old(self).state(), *b, coords, fuel as nat).0,
            keeps(old(self), final(self)),
            final(self).vars@.len() == old(self).vars@.len(),
        decreases fuel, 0nat, b, 0nat, 0int,
    {
        match &b.val {
            BaseValueType::Id(var) => self.get_variable(var, coords),
            BaseValueType::Int(i) => Ok(Value::Int(*i)),
            BaseValueType::Bool(x) => Ok(Value::Bool(*x)),
            BaseValueType::Color(r, g, bl) => Ok(Value::Color(*r, *g, *bl)),
            BaseValueType::RandomColor => Ok(Value::RandomColor),
            BaseValueType::Float(f) => Ok(Value::Float(*f)),
            BaseValueType::Array(elems) => {
                let vs = self.eval_elems(funcs, elems, fuel)?;
                let r = Value::Array(vs);
                proof {
                    let vr = view_value(r)->Array_0;
                    assert forall|j: int| 0 <= j < vr.len() implies #[trigger] vr[j] == values_view(vs@)[j] by {}
                    assert(vr =~= values_view(vs@));
                }
                Ok(r)
            },
            BaseValueType::FunctionCall(name, args, _) => {
                let vals = self.eval_args(funcs, args, fuel)?;
                let k = match find_fn(funcs, name) {
                    Some(k) => k,
                    None => {
                        return Err(rt("Unknown function", coords));
                    },
                };
                let f = &funcs[k];
                if vals.len() < f.args.len() || fuel == 0 {
                    return Err(rt("Function called with too few arguments, or too deep", coords));
                }
                let n = self.vars.len();
                let old_base = self.enter(f, &vals);
                let res = self.execute_commands(funcs, &f.block.nodes, fuel - 1);
                self.leave(n, old_base);
                match res {
                    Err(err) => Err(err),
                    Ok(Some(v)) => Ok(v),
                    Ok(None) => Err(rt("Function didn't return a value", coords)),
                }
            },
        }
    }

    /// Evaluates array literal elements left to right.
    fn eval_elems(&mut self, funcs: &Vec<AstFunction>, bs: &Vec<BaseValue>, fuel: u64) -> (r: Result<Vec<Value>, Error>)
        requires
            old(self).wf(),
        ensures
            lres_matches(r, spec_eval_elems(funcs@, old(self).state(), bs@, fuel as nat).1),
            final(self).state() == spec_eval_elems(funcs@, old(self).state(), bs@, fuel as nat).0,
            keeps(old(self), final(self)),
            final(self).vars@.len() == old(self).vars@.len(),
        decreases fuel, 0nat, bs, 0nat, 0int,
    {
        let mut out: Vec<Value> = Vec::new();
        let mut i: usize = 0;
        let ghost st0 = self.state();
        proof {
            assert(bs@.subrange(0, bs@.len() as int) =~= bs@);
            assert(values_view(out@) =~= seq![]);
        }
        while i < bs.len()
            invariant
                i <= bs@.len(),
                keeps(old(self), self),
                self.vars@.len() == old(self).vars@.len(),
                st0 == old(self).state(),
                ({
                    let (sa, ra) = spec_eval_elems(funcs@, st0, bs@, fuel as nat);
                    let (sb, rb) = spec_eval_elems(funcs@, self.state(), bs@.subrange(i as int, bs@.len() as int), fuel as nat);
                    sa == sb && ra == match rb {
                        Ok(rest) => Ok(values_view(out@) + rest),
                        Err(err) => Err::<Seq<SValue>, SErr>(err),
                    }
                }),
            decreases bs.len() - i,
        {
            proof {
                let sub = bs@.subrange(i as int, bs@.len() as int);
                assert(sub[0] == bs@[i as int]);
                assert(sub.drop_first() =~= bs@.subrange(i + 1, bs@.len() as int));
                assert(decreases_to!(bs => bs[i as int]));
            }
            let ghost before = self.state();
            let v = self.eval_base(funcs, &bs[i], bs[i].coords, fuel)?;
            proof {
                let rest = bs@.subrange(i + 1, bs@.len() as int);
                match spec_eval_elems(funcs@, self.state(), rest, fuel as nat).1 {
                    Ok(r2) => {
                        assert(values_view(out@.push(v)) + r2 =~= values_view(out@) + (seq![view_value(v)] + r2));
                    },
                    Err(_) => {},
                }
            }
            out.push(v);
            i += 1;
        }
        proof {
            assert(bs@.subrange(i as int, bs@.len() as int) =~= seq![]);
            assert(values_view(out@) + seq![] =~= values_view(out@));
        }
        Ok(out)
    }

    /// Evaluates arguments left to right.
    fn eval_args(&mut self, funcs: &Vec<AstFunction>, es: &Vec<Expression>, fuel: u64) -> (r: Result<Vec<Value>, Error>)
        requires
            old(self).wf(),
        ensures
            lres_matches(r, spec_eval_args(funcs@, old(self).state(), es@, fuel as nat).1),
            final(self).state() == spec_eval_args(funcs@, old(self).state(), es@, fuel as nat).0,
            keeps(old(self), final(self)),
            final(self).vars@.len() == old(self).vars@.len(),
        decreases fuel, 0nat, es, 0nat, 0int,
    {
        let mut out: Vec<Value> = Vec::new();
        let mut i: usize = 0;
        let ghost st0 = self.state();
        proof {
            assert(es@.subrange(0, es@.len() as int) =~= es@);
            assert(values_view(out@) =~= seq![]);
        }
        while i < es.len()
            invariant
                i <= es@.len(),
                keeps(old(self), self),
                self.vars@.len() == old(self).vars@.len(),
                st0 == old(self).state(),
                ({
                    let (sa, ra) = spec_eval_args(funcs@, st0, es@, fuel as nat);
                    let (sb, rb) = spec_eval_args(funcs@, self.state(), es@.subrange(i as int, es@.len() as int), fuel as nat);
                    sa == sb && ra == match rb {
                        Ok(rest) => Ok(values_view(out@) + rest),
                        Err(err) => Err::<Seq<SValue>, SErr>(err),
                    }
                }),
            decreases es.len() - i,
        {
            proof {
                let sub = es@.subrange(i as int, es@.len() as int);
                assert(sub[0] == es@[i as int]);
                assert(sub.drop_first() =~= es@.subrange(i + 1, es@.len() as int));
                assert(decreases_to!(es => es[i as int]));
            }
            let v = self.calculate_expression(funcs, &es[i], fuel)?;
            proof {
                let rest = es@.subrange(i + 1, es@.len() as int);
                match spec_eval_args(funcs@, self.state(), rest, fuel as nat).1 {
                    Ok(r2) => {
                        assert(values_view(out@.push(v)) + r2 =~= values_view(out@) + (seq![view_value(v)] + r2));
                    },
                    Err(_) => {},
                }
            }
            out.push(v);
            i += 1;
        }
        proof {
            assert(es@.subrange(i as int, es@.len() as int) =~= seq![]);
            assert(values_view(out@) + seq![] =~= values_view(out@));
        }
        Ok(out)
    }

    /// Runs the statements of a block; yields the value of a `return`, if
    /// one ran.
    pub fn execute_commands(&mut self, funcs: &Vec<AstFunction>, nodes: &Vec<AstNode>, fuel: u64) -> (r: Result<Option<Value>, Error>)
        requires
            old(self).wf(),
        ensures
            ores_matches(r, spec_exec_stmts(funcs@, old(self).state(), nodes@, 0, fuel as nat).1),
            final(self).state() == spec_exec_stmts(funcs@, old(self).state(), nodes@, 0, fuel as nat).0,
            keeps(old(self), final(self)),
        decreases fuel, 1nat, nodes, 0nat, nodes@.len(),
    {
        let mut i: usize = 0;
        let ghost st0 = self.state();
        while i < nodes.len()
            invariant
                i <= nodes@.len(),
                keeps(old(self), self),
                st0 == old(self).state(),
                spec_exec_stmts(funcs@, st0, nodes@, 0, fuel as nat) == spec_exec_stmts(funcs@, self.state(), nodes@, i as int, fuel as nat),
            decreases nodes.len() - i,
        {
            proof {
                assert(decreases_to!(nodes => nodes[i as int]));
            }
            match self.exec_step(funcs, &nodes[i], fuel) {
                Err(err) => {
                    return Err(err);
                },
                Ok(Some(v)) => {
                    return Ok(Some(v));
                },
                Ok(None) => {},
            }
            i += 1;
        }
        Ok(None)
    }

    /// Runs a nested block in a new scope.
    fn run_block(&mut self, funcs: &Vec<AstFunction>, block: &AstBlock, fuel: u64) -> (r: Result<Option<Value>, Error>)
        requires
            old(self).wf(),
        ensures
            ores_matches(r, spec_run_block(funcs@, old(self).state(), *block, fuel as nat).1),
            final(self).state() == spec_run_block(funcs@, old(self).state(), *block, fuel as nat).0,
            keeps(old(self), final(self)),
            final(self).vars@.len() == old(self).vars@.len(),
        decreases fuel, 1nat, block, 1nat, 0int,
    {
        let n = self.vars.len();
        let b = self.base;
        let r = self.execute_commands(funcs, &block.nodes, fuel);
        self.leave(n, b);
        r
    }
}

impl Execution {
    /// Runs one statement; yields the value of a `return`.
    fn exec_step(&mut self, funcs: &Vec<AstFunction>, line: &AstNode, fuel: u64) -> (r: Result<Option<Value>, Error>)
        requires
            old(self).wf(),
        ensures
            ores_matches(r, spec_exec_step(funcs@, old(self).state(), *line, fuel as nat).1),
            final(self).state() == spec_exec_step(funcs@, old(self).state(), *line, fuel as nat).0,
            keeps(old(self), final(self)),
        decreases fuel, 1nat, line, 2nat, 0int,
    {
        match &line.statement {
            AstStatement::Command { name, args } => self.step_command(funcs, line, name, args, fuel),
            AstStatement::Init { typ: _, val, expr } => {
                let v = self.calculate_expression(funcs, expr, fuel)?;
                if self.get(val).is_some() {
                    return Err(rt("Variable is already defined", line.coords));
                }
                self.bind(val.clone(), v);
                Ok(None)
            },
            AstStatement::SetVal { val, expr } => {
                let v = self.calculate_expression(funcs, expr, fuel)?;
                if self.assign(val, v, line.coords) {
                    Ok(None)
                } else {
                    Err(rt("Couldn't set new value", line.coords))
                }
            },
            AstStatement::If { clause, block, else_block } => {
                let c = self.calculate_expression(funcs, clause, fuel)?;
                match c {
                    Value::Bool(true) => self.run_block(funcs, block, fuel),
                    Value::Bool(false) => match else_block {
                        Some(eb) => self.run_block(funcs, eb, fuel),
                        None => Ok(None),
                    },
                    _ => Err(rt("If clause must be a boolean expression", line.coords)),
                }
            },
            AstStatement::While { clause: _, block: _ } => self.exec_while(funcs, line, fuel),
            AstStatement::For { val: _, from, to, block: _ } => {
                let f = self.eval_base(funcs, from, from.coords, fuel)?;
                let f = match f {
                    Value::Int(x) => x,
                    _ => {
                        return Err(rt("For loop bounds must be integers", line.coords));
                    },
                };
                let t = self.eval_base(funcs, to, to.coords, fuel)?;
                let t = match t {
                    Value::Int(x) => x,
                    _ => {
                        return Err(rt("For loop bounds must be integers", line.coords));
                    },
                };
                let lo = if f <= t { f } else { t };
                let hi = if f <= t { t } else { f };
                self.exec_for(funcs, line, lo as i64, hi as i64, fuel)
            },
            AstStatement::Return { expr } => {
                let v = self.calculate_expression(funcs, expr, fuel)?;
                Ok(Some(v))
            },
        }
    }

    /// A command statement: a built-in, or a call of a user function.
    fn step_command(&mut self, funcs: &Vec<AstFunction>, line: &AstNode, name: &String, args: &Vec<Expression>, fuel: u64) -> (r: Result<Option<Value>, Error>)
        requires
            old(self).wf(),
            line.statement == (AstStatement::Command { name: *name, args: *args }),
        ensures
            ores_matches(r, spec_exec_step(funcs@, old(self).state(), *line, fuel as nat).1),
            final(self).state() == spec_exec_step(funcs@, old(self).state(), *line, fuel as nat).0,
            keeps(old(self), final(self)),
        decreases fuel, 1nat, line, 1nat, 0int,
    {
        let vals = self.eval_args(funcs, args, fuel)?;
        match self.builtin(name, &vals, line.coords) {
            Some(Ok(())) => Ok(None),
            Some(Err(e)) => Err(e),
            None => {
                let k = match find_fn(funcs, name) {
                    Some(k) => k,
                    None => {
                        return Err(rt("Unknown function", line.coords));
                    },
                };
                let f = &funcs[k];
                if vals.len() != f.args.len() || fuel == 0 {
                    return Err(rt("Wrong number of arguments, or calls nested too deep", line.coords));
                }
                let n = self.vars.len();
                let old_base = self.enter(f, &vals);
                let res = self.execute_commands(funcs, &f.block.nodes, fuel - 1);
                self.leave(n, old_base);
                match res {
                    Err(err) => Err(err),
                    Ok(_) => Ok(None),
                }
            },
        }
    }

    /// The iterations of a `while` statement.
    fn exec_while(&mut self, funcs: &Vec<AstFunction>, line: &AstNode, fuel: u64) -> (r: Result<Option<Value>, Error>)
        requires
            old(self).wf(),
            line.statement is While,
        ensures
            ores_matches(r, spec_while(funcs@, old(self).state(), *line, fuel as nat).1),
            final(self).state() == spec_while(funcs@, old(self).state(), *line, fuel as nat).0,
            keeps(old(self), final(self)),
            final(self).vars@.len() == old(self).vars@.len(),
        decreases fuel, 1nat, line, 1nat, 0int,
    {
        let (clause, block) = match &line.statement {
            AstStatement::While { clause, block } => (clause, block),
            _ => {
                return Ok(None);
            },
        };
        let mut f = fuel;
        let ghost st0 = self.state();
        loop
            invariant
                keeps(old(self), self),
                self.vars@.len() == old(self).vars@.len(),
                st0 == old(self).state(),
                f <= fuel,
                line.statement == (AstStatement::While { clause: *clause, block: *block }),
                spec_while(funcs@, st0, *line, fuel as nat) == spec_while(funcs@, self.state(), *line, f as nat),
            decreases f,
        {
            let c = self.calculate_expression(funcs, clause, f)?;
            match c {
                Value::Bool(true) => {
                    if f == 0 {
                        return Err(rt("Execution budget exhausted", line.coords));
                    }
                    let r = self.run_block(funcs, block, f - 1)?;
                    if r.is_some() {
                        return Ok(r);
                    }
                    f = f - 1;
                },
                Value::Bool(false) => {
                    return Ok(None);
                },
                _ => {
                    return Err(rt("Expected a bool condition", line.coords));
                },
            }
        }
        Ok(None)
    }

    /// The iterations of a `for` statement from `lo` to `hi`.
    fn exec_for(&mut self, funcs: &Vec<AstFunction>, line: &AstNode, lo: i64, hi: i64, fuel: u64) -> (r: Result<Option<Value>, Error>)
        requires
            old(self).wf(),
            line.statement is For,
            i32::MIN <= lo,
            hi <= i32::MAX,
        ensures
            ores_matches(r, spec_for(funcs@, old(self).state(), *line, lo as int, hi as int, fuel as nat).1),
            final(self).state() == spec_for(funcs@, old(self).state(), *line, lo as int, hi as int, fuel as nat).0,
            keeps(old(self), final(self)),
            final(self).vars@.len() == old(self).vars@.len(),
        decreases fuel, 1nat, line, 1nat, 0int,
    {
        let (val, block) = match &line.statement {
            AstStatement::For { val, from: _, to: _, block } => (val, block),
            _ => {
                return Ok(None);
            },
        };
        let mut c: i64 = lo;
        let ghost st0 = self.state();
        while c <= hi
            invariant
                keeps(old(self), self),
                self.vars@.len() == old(self).vars@.len(),
                st0 == old(self).state(),
                lo <= c,
                i32::MIN <= lo,
                hi <= i32::MAX,
                line.statement == (AstStatement::For { val: *val, from: line.statement->For_from, to: line.statement->For_to, block: *block }),
                spec_for(funcs@, st0, *line, lo as int, hi as int, fuel as nat) == spec_for(funcs@, self.state(), *line, c as int, hi as int, fuel as nat),
            decreases hi + 1 - c,
        {
            if self.get(val).is_some() {
                return Err(rt("Loop variable is already defined", line.coords));
            }
            let n = self.vars.len();
            let b = self.base;
            self.bind(val.clone(), Value::Int(c as i32));
            let r = self.execute_commands(funcs, &block.nodes, fuel);
            self.leave(n, b);
            let r = r?;
            if r.is_some() {
                return Ok(r);
            }
            c = c + 1;
        }
        Ok(None)
    }
}

// ------------------------------------------------------------- entry points

/// The state of a fresh run: no bindings, white fill, black stroke of width
/// 1, nothing emitted.
pub open spec fn initial_state(seed: u64) -> EState {
    EState {
        vars: seq![],
        base: 0,
        globals: seq![],
        fill: (255, 255, 255),
        stroke: (0, 0, 0),
        width: 1,
        cmds: seq![],
        seed,
    }
}

pub open spec fn unit_matches(r: Result<(), Error>, s: Result<(), SErr>) -> bool {
    match (r, s) {
        (Ok(_), Ok(_)) => true,
        (Err(e), Err(se)) => err_matches(e, se),
        _ => false,
    }
}

/// The globals' initializers, evaluated in declaration order.
pub open spec fn spec_init_globals(
    funcs: Seq<AstFunction>,
    st: EState,
    gs: Seq<(String, Coords, crate::types::Type, Expression)>,
    fuel: nat,
) -> (EState, Result<(), SErr>)
    decreases gs.len(),
{
    if gs.len() == 0 {
        (st, Ok(()))
    } else {
        let (s1, r) = spec_eval(funcs, st, gs[0].3, fuel);
        match r {
            Err(err) => (s1, Err(err)),
            Ok(v) => spec_init_globals(funcs, EState { globals: s1.globals.push((gs[0].0, v)), ..s1 }, gs.drop_first(), fuel),
        }
    }
}

/// A whole run: a flat block, or the body of `main`; `end` is emitted once
/// it completes.
pub open spec fn spec_execute(p: AstProgram, st: EState, fuel: nat) -> (EState, Result<(), SErr>) {
    match p {
        AstProgram::Block(b) => {
            let (s1, r) = spec_run_block(seq![], st, b, fuel);
            match r {
                Err(err) => (s1, Err(err)),
                Ok(_) => (spec_emit(s1, "end"@), Ok(())),
            }
        },
        AstProgram::Forest(forest) => {
            let k = spec_find_fn(forest.0@, "main"@);
            if k < 0 {
                (st, rt_err((0, 0, 0, 0)))
            } else {
                let (s1, r) = spec_run_block(forest.0@, st, forest.0@[k].block, fuel);
                match r {
                    Err(err) => (s1, Err(err)),
                    Ok(_) => (spec_emit(s1, "end"@), Ok(())),
                }
            }
        },
    }
}

/// Binds event values to a handler's parameters, each name still free.
pub open spec fn spec_bind_all(st: EState, names: Seq<(String, crate::types::Type)>, vals: Seq<SValue>, i: int, coords: Coords) -> Result<EState, SErr>
    decreases vals.len() - i,
{
    if i < 0 || i >= vals.len() || i >= names.len() {
        Ok(st)
    } else if spec_get(st, names[i].0@) is Some {
        rt_err(coords)
    } else {
        spec_bind_all(spec_bind(st, names[i].0, vals[i]), names, vals, i + 1, coords)
    }
}

/// Runs the input handler called `name`, if the program has one, with its
/// parameters bound to the event's values.
pub open spec fn spec_run_handler(p: AstProgram, st: EState, name: Seq<char>, vals: Seq<SValue>, fuel: nat) -> (EState, Result<(), SErr>) {
    match p {
        AstProgram::Block(_) => (st, Ok(())),
        AstProgram::Forest(forest) => {
            let funcs = forest.0@;
            let k = spec_find_fn(funcs, name);
            if k < 0 {
                (st, Ok(()))
            } else if funcs[k].args@.len() < vals.len() {
                (st, rt_err(funcs[k].header))
            } else {
                match spec_bind_all(st, funcs[k].args@, vals, 0, funcs[k].header) {
                    Err(err) => (st, Err(err)),
                    Ok(s1) => {
                        let (s2, r) = spec_exec_stmts(funcs, s1, funcs[k].block.nodes@, 0, fuel);
                        (spec_leave(st, s2), match r {
                            Err(err) => Err(err),
                            Ok(_) => Ok(()),
                        })
                    },
                }
            }
        },
    }
}

impl Execution {
    /// A fresh evaluator for a program; `seed` feeds the random colors.
    pub fn new(lines: AstProgram, seed: u64) -> (r: Execution)
        ensures
            r.lines == lines,
            r.state() == initial_state(seed),
            r.wf(),
    {
        let r = Execution {
            lines,
            vars: Vec::new(),
            base: 0,
            global_vars: Vec::new(),
            figure_color: (255, 255, 255),
            line_color: (0, 0, 0),
            line_width: 1,
            commands: Vec::new(),
            seed,
        };
        proof {
            assert(r.state().vars =~= seq![]);
            assert(r.state().globals =~= seq![]);
            assert(r.state().cmds =~= seq![]);
        }
        r
    }

    /// Evaluates the globals' initializers in declaration order.
    pub fn init_globals(&mut self, fuel: u64) -> (r: Result<(), Error>)
        requires
            old(self).wf(),
        ensures
            match old(self).lines {
                AstProgram::Block(_) => r is Ok && final(self).state() == old(self).state(),
                AstProgram::Forest(forest) => {
                    let (s, sr) = spec_init_globals(forest.0@, old(self).state(), forest.1@, fuel as nat);
                    unit_matches(r, sr) && final(self).state() == s
                },
            },
            final(self).lines == old(self).lines,
            final(self).wf(),
    {
        let mut lines = AstProgram::Block(AstBlock { nodes: Vec::new(), coords: (0, 0, 0, 0) });
        std::mem::swap(&mut self.lines, &mut lines);
        let r = match &lines {
            AstProgram::Block(_) => Ok(()),
            AstProgram::Forest(forest) => self.init_globals_of(&forest.0, &forest.1, fuel),
        };
        std::mem::swap(&mut self.lines, &mut lines);
        r
    }

    fn init_globals_of(&mut self, funcs: &Vec<AstFunction>, gs: &Vec<(String, Coords, crate::types::Type, Expression)>, fuel: u64) -> (r: Result<(), Error>)
        requires
            old(self).wf(),
        ensures
            unit_matches(r, spec_init_globals(funcs@, old(self).state(), gs@, fuel as nat).1),
            final(self).state() == spec_init_globals(funcs@, old(self).state(), gs@, fuel as nat).0,
            final(self).lines == old(self).lines,
            final(self).wf(),
    {
        let mut i: usize = 0;
        let ghost st0 = self.state();
        proof {
            assert(gs@.subrange(0, gs@.len() as int) =~= gs@);
        }
        while i < gs.len()
            invariant
                i <= gs@.len(),
                self.wf(),
                self.lines == old(self).lines,
                st0 == old(self).state(),
                spec_init_globals(funcs@, st0, gs@, fuel as nat) == spec_init_globals(funcs@, self.state(), gs@.subrange(i as int, gs@.len() as int), fuel as nat),
            decreases gs.len() - i,
        {
            proof {
                let sub = gs@.subrange(i as int, gs@.len() as int);
                assert(sub[0] == gs@[i as int]);
                assert(sub.drop_first() =~= gs@.subrange(i + 1, gs@.len() as int));
            }
            let v = self.calculate_expression(funcs, &gs[i].3, fuel)?;
            let ghost before = self.global_vars@;
            let ghost vv = view_value(v);
            self.global_vars.push((gs[i].0.clone(), v));
            proof {
                assert(pairs_view(self.global_vars@) =~= pairs_view(before).push((gs@[i as int].0, vv)));
            }
            i += 1;
        }
        proof {
            assert(gs@.subrange(i as int, gs@.len() as int) =~= seq![]);
        }
        Ok(())
    }

    /// Runs the program: a flat block, or `main`; emits `end` when done.
    pub fn execute(&mut self, fuel: u64) -> (r: Result<(), Error>)
        requires
            old(self).wf(),
        ensures
            unit_matches(r, spec_execute(old(self).lines, old(self).state(), fuel as nat).1),
            final(self).state() == spec_execute(old(self).lines, old(self).state(), fuel as nat).0,
            final(self).lines == old(self).lines,
            final(self).wf(),
    {
        let mut lines = AstProgram::Block(AstBlock { nodes: Vec::new(), coords: (0, 0, 0, 0) });
        std::mem::swap(&mut self.lines, &mut lines);
        let r = self.execute_lines(&lines, fuel);
        std::mem::swap(&mut self.lines, &mut lines);
        r
    }

    fn execute_lines(&mut self, lines: &AstProgram, fuel: u64) -> (r: Result<(), Error>)
        requires
            old(self).wf(),
        ensures
            unit_matches(r, spec_execute(*lines, old(self).state(), fuel as nat).1),
            final(self).state() == spec_execute(*lines, old(self).state(), fuel as nat).0,
            final(self).lines == old(self).lines,
            final(self).wf(),
    {
        let res = match lines {
            AstProgram::Block(b) => {
                let no_funcs: Vec<AstFunction> = Vec::new();
                proof {
                    assert(no_funcs@ =~= seq![]);
                }
                self.run_block(&no_funcs, b, fuel)
            },
            AstProgram::Forest(forest) => {
                let main = String::from_str("main");
                match find_fn(&forest.0, &main) {
                    None => {
                        return Err(rt("No main function found", (0, 0, 0, 0)));
                    },
                    Some(k) => self.run_block(&forest.0, &forest.0[k].block, fuel),
                }
            },
        };
        match res {
            Err(e) => Err(e),
            Ok(_) => {
                let end = String::from_str("end");
                self.emit(end);
                Ok(())
            },
        }
    }

    /// Runs the handler called `name` with the event's values.
    fn run_handler(&mut self, lines: &AstProgram, name: &str, vals: &Vec<Value>, fuel: u64) -> (r: Result<(), Error>)
        requires
            old(self).wf(),
        ensures
            unit_matches(r, spec_run_handler(*lines, old(self).state(), name@, values_view(vals@), fuel as nat).1),
            final(self).state() == spec_run_handler(*lines, old(self).state(), name@, values_view(vals@), fuel as nat).0,
            final(self).lines == old(self).lines,
            final(self).wf(),
    {
        let funcs = match lines {
            AstProgram::Block(_) => {
                return Ok(());
            },
            AstProgram::Forest(forest) => &forest.0,
        };
        let fname = String::from_str(name);
        let k = match find_fn(funcs, &fname) {
            None => {
                return Ok(());
            },
            Some(k) => k,
        };
        let f = &funcs[k];
        if f.args.len() < vals.len() {
            return Err(rt("Handler has too few parameters", f.header));
        }
        let n = self.vars.len();
        let b = self.base;
        let mut i: usize = 0;
        let ghost st0 = self.state();
        while i < vals.len()
            invariant
                i <= vals@.len() <= f.args@.len(),
                lines is Forest,
                funcs@ == lines->Forest_0.0@,
                fname@ == name@,
                spec_find_fn(funcs@, name@) == k as int,
                k < funcs@.len(),
                *f == funcs@[k as int],
                self.wf(),
                self.lines == old(self).lines,
                self.base == b,
                self.vars@.len() >= n,
                n == old(self).vars@.len(),
                b == old(self).base,
                b <= n,
                st0 == old(self).state(),
                self.state().vars.subrange(0, n as int) == st0.vars,
                spec_bind_all(st0, f.args@, values_view(vals@), 0, f.header) == spec_bind_all(self.state(), f.args@, values_view(vals@), i as int, f.header),
                (EState { vars: st0.vars, ..self.state() }) == st0,
            decreases vals.len() - i,
        {
            if self.get(&f.args[i].0).is_some() {
                let ghost mid = self.state();
                self.leave(n, b);
                proof {
                    assert(self.state().vars =~= st0.vars);
                    assert(self.state() == st0);
                }
                return Err(rt("Variable is already defined", f.header));
            }
            let ghost before = self.state();
            self.bind(f.args[i].0.clone(), vals[i].copy());
            proof {
                assert(self.state().vars.subrange(0, n as int) =~= before.vars.subrange(0, n as int));
            }
            i += 1;
        }
        let r = self.execute_commands(funcs, &f.block.nodes, fuel);
        self.leave(n, b);
        match r {
            Err(e) => Err(e),
            Ok(_) => Ok(()),
        }
    }

    /// Runs the `keyboard` handler, if any, for a key code.
    pub fn execute_key(&mut self, key: i32, fuel: u64) -> (r: Result<(), Error>)
        requires
            old(self).wf(),
        ensures
            unit_matches(r, spec_run_handler(old(self).lines, old(self).state(), "keyboard"@, seq![SValue::Int(key)], fuel as nat).1),
            final(self).state() == spec_run_handler(old(self).lines, old(self).state(), "keyboard"@, seq![SValue::Int(key)], fuel as nat).0,
            final(self).lines == old(self).lines,
            final(self).wf(),
    {
        let mut vals: Vec<Value> = Vec::new();
        vals.push(Value::Int(key));
        proof {
            assert(values_view(vals@) =~= seq![SValue::Int(key)]);
        }
        let mut lines = AstProgram::Block(AstBlock { nodes: Vec::new(), coords: (0, 0, 0, 0) });
        std::mem::swap(&mut self.lines, &mut lines);
        let r = self.run_handler(&lines, "keyboard", &vals, fuel);
        std::mem::swap(&mut self.lines, &mut lines);
        r
    }

    /// Runs the `mouse` handler, if any, for a click position.
    pub fn execute_mouse(&mut self, x: i32, y: i32, fuel: u64) -> (r: Result<(), Error>)
        requires
            old(self).wf(),
        ensures
            unit_matches(r, spec_run_handler(old(self).lines, old(self).state(), "mouse"@, seq![SValue::Int(x), SValue::Int(y)], fuel as nat).1),
            final(self).state() == spec_run_handler(old(self).lines, old(self).state(), "mouse"@, seq![SValue::Int(x), SValue::Int(y)], fuel as nat).0,
            final(self).lines == old(self).lines,
            final(self).wf(),
    {
        let mut vals: Vec<Value> = Vec::new();
        vals.push(Value::Int(x));
        vals.push(Value::Int(y));
        proof {
            assert(values_view(vals@) =~= seq![SValue::Int(x), SValue::Int(y)]);
        }
        let mut lines = AstProgram::Block(AstBlock { nodes: Vec::new(), coords: (0, 0, 0, 0) });
        std::mem::swap(&mut self.lines, &mut lines);
        let r = self.run_handler(&lines, "mouse", &vals, fuel);
        std::mem::swap(&mut self.lines, &mut lines);
        r
    }
}

/// A color as `#rrggbb`, in lowercase hexadecimal.
pub fn color_to_str(r: &u8, g: &u8, b: &u8) -> (s: String)
    ensures
        s@ == spec_color_str(*r, *g, *b),
{
    let mut s = String::new();
    push_color(&mut s, *r, *g, *b);
    proof {
        assert(s@ =~= spec_color_str(*r, *g, *b));
    }
    s
}

} // verus!
