use vstd::prelude::*;

use crate::ast::{
    is_arith, spec_is_arith, AstBlock, AstFunction, AstNode, AstProgram, AstStatement, BaseValue, BaseValueType, Expression,
    ExpressionType, Operator, UnaryOperator, VariableCall,
};
use crate::error::{spec_error_is, Coords, Error, ErrorType};
use crate::text::{join3, push_nat_decimal, push_str, spec_nat_decimal, str_eq};
use crate::types::{spec_can_assign, BaseType, Type, TypeName};

verus! {

/// How completely a block returns: never, on some paths, or on every path,
/// with the returned type.
#[derive(Debug)]
pub enum ReturnType {
    NoReturn,
    Partial(Type),
    Full(Type),
}

/// An error as contracts see it: its kind, its span and, where the message
/// is fixed, the message.
pub type SErr = (ErrorType, Coords, Option<Seq<char>>);

/// Whether an error is the specified one.
pub open spec fn err_matches(e: Error, se: SErr) -> bool {
    &&& spec_error_is(e, se.0, se.1)
    &&& se.2 is Some ==> e.message@ == se.2->0
}

/// The static environment: variable frames (innermost last), globals, and
/// user function signatures (parameters and return type).
pub struct CheckEnv {
    pub frames: Seq<Seq<(String, Type)>>,
    pub globals: Seq<(String, Type)>,
    pub funcs: Seq<(String, Seq<(String, Type)>, Option<Type>)>,
}

/// Names that can never be used for a variable or a function.
pub open spec fn spec_is_keyword(s: Seq<char>) -> bool {
    s == "circle"@ || s == "line"@ || s == "rectangle"@ || s == "setLineColor"@ || s
        == "setFigureColor"@ || s == "setLineWidth"@ || s == "polygon"@ || s == "arc"@ || s
        == "sleep"@ || s == "animate"@ || s == "frame"@ || s == "clear"@ || s == "for"@ || s
        == "while"@ || s == "global"@ || s == "func"@ || s == "if"@ || s == "else"@ || s
        == "int"@ || s == "bool"@ || s == "color"@ || s == "float"@ || s == "array"@ || s
        == "Color"@ || s == "true"@ || s == "false"@
}

pub open spec fn prim(b: BaseType) -> TypeName {
    TypeName::Primitive(b)
}

pub open spec fn styp(b: BaseType) -> Type {
    Type { name: TypeName::Primitive(b), is_const: false }
}

/// The parameter types of a built-in command; `polygon` is variadic and is
/// listed with none.
pub open spec fn spec_builtin_params(name: Seq<char>) -> Option<Seq<BaseType>> {
    if name == "circle"@ {
        Some(seq![BaseType::Int, BaseType::Int, BaseType::Int])
    } else if name == "line"@ || name == "rectangle"@ {
        Some(seq![BaseType::Int, BaseType::Int, BaseType::Int, BaseType::Int])
    } else if name == "setLineColor"@ || name == "setFigureColor"@ {
        Some(seq![BaseType::Color])
    } else if name == "setLineWidth"@ || name == "sleep"@ {
        Some(seq![BaseType::Int])
    } else if name == "arc"@ {
        Some(seq![BaseType::Int, BaseType::Int, BaseType::Int, BaseType::Int, BaseType::Int])
    } else if name == "polygon"@ || name == "animate"@ || name == "frame"@ || name == "clear"@ {
        Some(seq![])
    } else {
        None
    }
}

/// The last binding of `name` in a frame.
pub open spec fn spec_frame_lookup(f: Seq<(String, Type)>, name: Seq<char>) -> Option<Type>
    decreases f.len(),
{
    if f.len() == 0 {
        None
    } else if f.last().0@ == name {
        Some(f.last().1)
    } else {
        spec_frame_lookup(f.drop_last(), name)
    }
}

/// The innermost binding of `name` in a chain of frames.
pub open spec fn spec_frames_lookup(fs: Seq<Seq<(String, Type)>>, name: Seq<char>) -> Option<Type>
    decreases fs.len(),
{
    if fs.len() == 0 {
        None
    } else {
        match spec_frame_lookup(fs.last(), name) {
            Some(t) => Some(t),
            None => spec_frames_lookup(fs.drop_last(), name),
        }
    }
}

/// The type of a visible variable: the scope chain first, then the globals.
pub open spec fn spec_lookup(env: CheckEnv, name: Seq<char>) -> Option<Type> {
    match spec_frames_lookup(env.frames, name) {
        Some(t) => Some(t),
        None => spec_frame_lookup(env.globals, name),
    }
}

/// The parameters and return type of the last user function called `name`.
pub open spec fn spec_user_sig(
    fs: Seq<(String, Seq<(String, Type)>, Option<Type>)>,
    name: Seq<char>,
) -> Option<(Seq<(String, Type)>, Option<Type>)>
    decreases fs.len(),
{
    if fs.len() == 0 {
        None
    } else if fs.last().0@ == name {
        Some((fs.last().1, fs.last().2))
    } else {
        spec_user_sig(fs.drop_last(), name)
    }
}

/// The parameter types of a callable: a built-in or a user function.
pub open spec fn spec_params(env: CheckEnv, name: Seq<char>) -> Option<Seq<Type>> {
    match spec_builtin_params(name) {
        Some(ps) => Some(ps.map_values(|b: BaseType| styp(b))),
        None => match spec_user_sig(env.funcs, name) {
            Some(sig) => Some(sig.0.map_values(|p: (String, Type)| p.1)),
            None => None,
        },
    }
}

/// The element type `depth` levels into an array type.
pub open spec fn spec_elem_type(tp: Type, depth: nat, coords: Coords) -> Result<Type, SErr>
    decreases depth,
{
    match tp.name {
        TypeName::Array(inner, _) => match *inner {
            Some(t) => if depth <= 1 {
                Ok(t)
            } else {
                spec_elem_type(t, (depth - 1) as nat, coords)
            },
            None => Err((ErrorType::TypeError, coords, None)),
        },
        _ => Err((ErrorType::TypeError, coords, None)),
    }
}

pub open spec fn spec_var_name(var: VariableCall) -> Seq<char> {
    match var {
        VariableCall::Name(n) => n@,
        VariableCall::ArrayCall(n, _) => n@,
    }
}

pub open spec fn spec_var_depth(var: VariableCall) -> nat {
    match var {
        VariableCall::Name(_) => 0,
        VariableCall::ArrayCall(_, inds) => inds.len() as nat,
    }
}

/// The type of a variable reference, indexed as deep as it is written.
pub open spec fn spec_check_var(env: CheckEnv, var: VariableCall, coords: Coords) -> Result<Type, SErr> {
    let name = spec_var_name(var);
    if spec_is_keyword(name) {
        Err((ErrorType::TypeError, coords, None))
    } else {
        match spec_lookup(env, name) {
            None => Err((ErrorType::LogicError, coords, None)),
            Some(tp) => if spec_var_depth(var) == 0 {
                Ok(tp)
            } else {
                spec_elem_type(tp, spec_var_depth(var), coords)
            },
        }
    }
}

/// The type of an expression, or the first error met, left to right.
pub open spec fn spec_check_expr(env: CheckEnv, e: Expression) -> Result<Type, SErr>
    decreases e,
{
    match e.expr_type {
        ExpressionType::Value(b) => spec_check_baseval(env, b),
        ExpressionType::Unary(op, inner) => match spec_check_expr(env, *inner) {
            Err(err) => Err(err),
            Ok(t) => match op {
                UnaryOperator::UnaryMinus => if t.name == prim(BaseType::Int) {
                    Ok(styp(BaseType::Int))
                } else if t.name == prim(BaseType::Float) {
                    Ok(styp(BaseType::Float))
                } else {
                    Err((ErrorType::TypeError, e.coords, None))
                },
                UnaryOperator::NOT => if t.name == prim(BaseType::Bool) {
                    Ok(styp(BaseType::Bool))
                } else {
                    Err((ErrorType::TypeError, e.coords, None))
                },
                UnaryOperator::Parentheses => Ok(t),
            },
        },
        ExpressionType::Binary(op, l, r) => match spec_check_expr(env, *l) {
            Err(err) => Err(err),
            Ok(lt) => match spec_check_expr(env, *r) {
                Err(err) => Err(err),
                Ok(rt) => spec_binary_type(op, lt, rt, e.coords),
            },
        },
    }
}

pub open spec fn is_number(t: Type) -> bool {
    t.name == prim(BaseType::Int) || t.name == prim(BaseType::Float)
}

/// The type of a binary operation on operands of the given types.
pub open spec fn spec_binary_type(op: Operator, lt: Type, rt: Type, coords: Coords) -> Result<Type, SErr> {
    if op == Operator::AND || op == Operator::OR {
        if lt.name == prim(BaseType::Bool) && rt.name == prim(BaseType::Bool) {
            Ok(styp(BaseType::Bool))
        } else {
            Err((ErrorType::TypeError, coords, None))
        }
    } else if !is_number(lt) || !is_number(rt) {
        Err((ErrorType::TypeError, coords, None))
    } else if !spec_is_arith(op) {
        Ok(styp(BaseType::Bool))
    } else if lt.name == prim(BaseType::Float) || rt.name == prim(BaseType::Float) {
        Ok(styp(BaseType::Float))
    } else {
        Ok(styp(BaseType::Int))
    }
}

/// The type of a value.
pub open spec fn spec_check_baseval(env: CheckEnv, b: BaseValue) -> Result<Type, SErr>
    decreases b,
{
    match b.val {
        BaseValueType::Id(var) => spec_check_var(env, var, b.coords),
        BaseValueType::Int(_) => Ok(styp(BaseType::Int)),
        BaseValueType::Bool(_) => Ok(styp(BaseType::Bool)),
        BaseValueType::Color(_, _, _) => Ok(styp(BaseType::Color)),
        BaseValueType::RandomColor => Ok(styp(BaseType::Color)),
        BaseValueType::Float(_) => Ok(styp(BaseType::Float)),
        BaseValueType::Array(elems) => match spec_check_list(env, elems@) {
            Err(err) => Err(err),
            Ok(ts) => spec_array_type(ts, b.coords),
        },
        BaseValueType::FunctionCall(name, args, rt) => match spec_params(env, name@) {
            None => Err((ErrorType::LogicError, b.coords, None)),
            Some(ps) => if ps.len() != args@.len() {
                Err((ErrorType::LogicError, b.coords, None))
            } else {
                match spec_check_call_args(env, args@, ps, b.coords) {
                    Some(err) => Err(err),
                    None => Ok(rt),
                }
            },
        },
    }
}

/// The type of an array literal whose elements have the given types.
pub open spec fn spec_array_type(ts: Seq<Type>, coords: Coords) -> Result<Type, SErr> {
    if ts.len() == 0 {
        Ok(Type { name: TypeName::Array(Box::new(None), 0), is_const: false })
    } else if exists|j: int| 0 <= j < ts.len() && #[trigger] ts[j].name != ts[0].name {
        Err((ErrorType::TypeError, coords, None))
    } else {
        Ok(Type { name: TypeName::Array(Box::new(Some(ts[0])), ts.len() as usize), is_const: false })
    }
}

/// The types of array elements, in order, or the first error.
pub open spec fn spec_check_list(env: CheckEnv, elems: Seq<BaseValue>) -> Result<Seq<Type>, SErr>
    decreases elems,
{
    if elems.len() == 0 {
        Ok(seq![])
    } else {
        match spec_check_baseval(env, elems[0]) {
            Err(err) => Err(err),
            Ok(t) => match spec_check_list(env, elems.drop_first()) {
                Err(err) => Err(err),
                Ok(ts) => Ok(seq![t] + ts),
            },
        }
    }
}

/// Arguments of a call in an expression: each must type-check and be
/// assignable to its parameter.
pub open spec fn spec_check_call_args(
    env: CheckEnv,
    args: Seq<Expression>,
    ps: Seq<Type>,
    coords: Coords,
) -> Option<SErr>
    decreases args,
{
    if args.len() == 0 {
        None
    } else {
        match spec_check_expr(env, args[0]) {
            Err(err) => Some(err),
            Ok(t) => if spec_can_assign(ps[0], t) {
                spec_check_call_args(env, args.drop_first(), ps.drop_first(), coords)
            } else {
                Some((ErrorType::TypeError, coords, None))
            },
        }
    }
}

/// Command arguments: each must type-check and have exactly its
/// parameter's type shape.
pub open spec fn spec_check_cmd_args(
    env: CheckEnv,
    args: Seq<Expression>,
    ps: Seq<Type>,
    coords: Coords,
) -> Option<SErr>
    decreases args.len(),
{
    if args.len() == 0 {
        None
    } else {
        match spec_check_expr(env, args[0]) {
            Err(err) => Some(err),
            Ok(t) => if t.name == ps[0].name {
                spec_check_cmd_args(env, args.drop_first(), ps.drop_first(), coords)
            } else {
                Some((ErrorType::TypeError, coords, None))
            },
        }
    }
}

/// The message for a polygon with a wrong number of points: it names the
/// command, the count given and the least count, 6.
pub open spec fn spec_polygon_msg(n: nat) -> Seq<char> {
    "Wrong number of arguments for command polygon: got "@ + spec_nat_decimal(n)
        + ", expected at least 6 (even number) for polygon"@
}

/// A command statement: `polygon` takes an even number, at least six, of
/// integers; every other command its exact parameter list.
pub open spec fn spec_check_command(env: CheckEnv, name: Seq<char>, args: Seq<Expression>, coords: Coords) -> Option<SErr> {
    if name == "polygon"@ {
        if args.len() < 6 || args.len() % 2 != 0 {
            Some((ErrorType::LogicError, coords, Some(spec_polygon_msg(args.len()))))
        } else {
            spec_check_cmd_args(env, args, Seq::new(args.len(), |i: int| styp(BaseType::Int)), coords)
        }
    } else {
        match spec_params(env, name) {
            None => Some((ErrorType::LogicError, coords, None)),
            Some(ps) => if ps.len() != args.len() {
                Some((ErrorType::LogicError, coords, None))
            } else {
                spec_check_cmd_args(env, args, ps, coords)
            },
        }
    }
}

/// The environment with a binding added to the innermost frame.
pub open spec fn spec_bind(env: CheckEnv, name: String, t: Type) -> CheckEnv {
    CheckEnv { frames: env.frames.update(env.frames.len() - 1, env.frames.last().push((name, t))), ..env }
}

/// The environment with a new innermost frame.
pub open spec fn spec_child(env: CheckEnv, f: Seq<(String, Type)>) -> CheckEnv {
    CheckEnv { frames: env.frames.push(f), ..env }
}

/// The outcome of folding one branch's return classification into a block's.
pub enum Merge {
    Fail(SErr),
    Stop(ReturnType),
    Continue(Option<Type>),
}

pub open spec fn spec_merge(rt: ReturnType, acc: Option<Type>, coords: Coords) -> Merge {
    match rt {
        ReturnType::NoReturn => Merge::Continue(acc),
        ReturnType::Partial(t) => match acc {
            Some(a) => if a != t {
                Merge::Fail((ErrorType::LogicError, coords, None))
            } else {
                Merge::Continue(acc)
            },
            None => Merge::Continue(Some(t)),
        },
        ReturnType::Full(t) => match acc {
            Some(a) => if a != t {
                Merge::Fail((ErrorType::LogicError, coords, None))
            } else {
                Merge::Stop(ReturnType::Full(t))
            },
            None => Merge::Stop(ReturnType::Full(t)),
        },
    }
}

pub open spec fn spec_rt_type(rt: ReturnType) -> Option<Type> {
    match rt {
        ReturnType::NoReturn => None,
        ReturnType::Partial(t) => Some(t),
        ReturnType::Full(t) => Some(t),
    }
}

/// An `if` without `else`, or a loop (whose body may run no time at all),
/// never returns on every path.
pub open spec fn spec_partialize(rt: ReturnType) -> ReturnType {
    match rt {
        ReturnType::Full(t) => ReturnType::Partial(t),
        _ => rt,
    }
}

/// Both branches of an `if`: their types must agree; the statement returns
/// fully only when both branches do.
pub open spec fn spec_combine_branches(it: ReturnType, et: ReturnType, coords: Coords) -> Result<ReturnType, SErr> {
    match (spec_rt_type(it), spec_rt_type(et)) {
        (Some(t1), Some(t2)) => if t1 != t2 {
            Err((ErrorType::LogicError, coords, None))
        } else if it == et {
            Ok(it)
        } else {
            Ok(ReturnType::Partial(t1))
        },
        (Some(t1), None) => Ok(ReturnType::Partial(t1)),
        (None, Some(t2)) => Ok(ReturnType::Partial(t2)),
        (None, None) => Ok(ReturnType::NoReturn),
    }
}

/// The span from the start of one block to the end of another.
pub open spec fn span(a: Coords, b: Coords) -> Coords {
    (a.0, a.1, b.2, b.3)
}

/// What one statement does to the check of its block: end it with a
/// result, or go on with a new environment and accumulated return type.
pub enum SpecFlow {
    Done(Result<ReturnType, SErr>),
    Next(CheckEnv, Option<Type>),
}

/// Type-checks the statements of a block from position `i`, with `acc` the
/// type returned on some earlier path; yields the block's return
/// classification or the first error.
pub open spec fn spec_check_stmts(env: CheckEnv, nodes: Seq<AstNode>, i: int, acc: Option<Type>) -> Result<ReturnType, SErr>
    decreases nodes, nodes.len() - i,
{
    if i < 0 || i >= nodes.len() {
        match acc {
            Some(t) => Ok(ReturnType::Partial(t)),
            None => Ok(ReturnType::NoReturn),
        }
    } else {
        match spec_step(env, nodes[i], acc) {
            SpecFlow::Done(r) => r,
            SpecFlow::Next(env2, acc2) => spec_check_stmts(env2, nodes, i + 1, acc2),
        }
    }
}

/// Folds a branching statement's classification into the block's.
pub open spec fn spec_flow_of(env: CheckEnv, acc: Option<Type>, rt: ReturnType, coords: Coords) -> SpecFlow {
    match spec_merge(rt, acc, coords) {
        Merge::Fail(err) => SpecFlow::Done(Err(err)),
        Merge::Stop(r) => SpecFlow::Done(Ok(r)),
        Merge::Continue(a) => SpecFlow::Next(env, a),
    }
}

/// One statement of a block.
pub open spec fn spec_step(env: CheckEnv, line: AstNode, acc: Option<Type>) -> SpecFlow
    decreases line, 0nat,
{
    match line.statement {
        AstStatement::Command { name, args } => match spec_check_command(env, name@, args@, line.coords) {
            Some(err) => SpecFlow::Done(Err(err)),
            None => SpecFlow::Next(env, acc),
        },
        AstStatement::Init { typ, val, expr } => match spec_check_init(env, typ, val, expr, line.coords) {
            Some(err) => SpecFlow::Done(Err(err)),
            None => SpecFlow::Next(spec_bind(env, val, typ), acc),
        },
        AstStatement::SetVal { val, expr } => match spec_check_set(env, val, expr, line.coords) {
            Some(err) => SpecFlow::Done(Err(err)),
            None => SpecFlow::Next(env, acc),
        },
        AstStatement::If { clause, block, else_block } => match spec_check_clause(env, clause) {
            Some(err) => SpecFlow::Done(Err(err)),
            None => match spec_check_stmts(spec_child(env, seq![]), block.nodes@, 0, None) {
                Err(err) => SpecFlow::Done(Err(err)),
                Ok(it) => match else_block {
                    None => spec_flow_of(env, acc, spec_partialize(it), line.coords),
                    Some(eb) => match spec_check_stmts(spec_child(env, seq![]), eb.nodes@, 0, None) {
                        Err(err) => SpecFlow::Done(Err(err)),
                        Ok(et) => match spec_combine_branches(it, et, span(block.coords, eb.coords)) {
                            Err(err) => SpecFlow::Done(Err(err)),
                            Ok(rt) => spec_flow_of(env, acc, rt, line.coords),
                        },
                    },
                },
            },
        },
        AstStatement::For { val, from, to, block } => match spec_check_range(env, from, to) {
            Some(err) => SpecFlow::Done(Err(err)),
            None => match spec_check_stmts(spec_child(env, seq![(val, styp(BaseType::Int))]), block.nodes@, 0, None) {
                Err(err) => SpecFlow::Done(Err(err)),
                Ok(rt) => spec_flow_of(env, acc, spec_partialize(rt), line.coords),
            },
        },
        AstStatement::While { clause, block } => match spec_check_clause(env, clause) {
            Some(err) => SpecFlow::Done(Err(err)),
            None => match spec_check_stmts(spec_child(env, seq![]), block.nodes@, 0, None) {
                Err(err) => SpecFlow::Done(Err(err)),
                Ok(rt) => spec_flow_of(env, acc, spec_partialize(rt), line.coords),
            },
        },
        AstStatement::Return { expr } => match spec_check_expr(env, expr) {
            Err(err) => SpecFlow::Done(Err(err)),
            Ok(t) => match acc {
                Some(a) => if a != t {
                    SpecFlow::Done(Err((ErrorType::LogicError, line.coords, None)))
                } else {
                    SpecFlow::Done(Ok(ReturnType::Full(t)))
                },
                None => SpecFlow::Done(Ok(ReturnType::Full(t))),
            },
        },
    }
}

/// A declaration: the name must be free and not reserved, and the value
/// assignable to the declared type.
pub open spec fn spec_check_init(env: CheckEnv, typ: Type, val: String, expr: Expression, coords: Coords) -> Option<SErr> {
    if spec_is_keyword(val@) {
        Some((ErrorType::TypeError, coords, None))
    } else if spec_lookup(env, val@).is_some() {
        Some((ErrorType::LogicError, coords, None))
    } else {
        match spec_check_expr(env, expr) {
            Err(err) => Some(err),
            Ok(et) => if !spec_can_assign(typ, et) {
                Some((ErrorType::LogicError, coords, None))
            } else {
                None
            },
        }
    }
}

/// An assignment: the target must exist, not be const, and accept the value.
pub open spec fn spec_check_set(env: CheckEnv, val: VariableCall, expr: Expression, coords: Coords) -> Option<SErr> {
    match spec_check_var(env, val, coords) {
        Err(err) => Some(err),
        Ok(vt) => if vt.is_const {
            Some((ErrorType::LogicError, coords, None))
        } else {
            match spec_check_expr(env, expr) {
                Err(err) => Some(err),
                Ok(et) => if !spec_can_assign(vt, et) {
                    Some((ErrorType::LogicError, coords, None))
                } else {
                    None
                },
            }
        },
    }
}

/// A condition must be a bool expression.
pub open spec fn spec_check_clause(env: CheckEnv, clause: Expression) -> Option<SErr> {
    match spec_check_expr(env, clause) {
        Err(err) => Some(err),
        Ok(ct) => if ct.name != prim(BaseType::Bool) {
            Some((ErrorType::LogicError, clause.coords, None))
        } else {
            None
        },
    }
}

/// Both bounds of a `for` range must be (equally typed) integers.
pub open spec fn spec_check_range(env: CheckEnv, from: BaseValue, to: BaseValue) -> Option<SErr> {
    match spec_check_baseval(env, from) {
        Err(err) => Some(err),
        Ok(t) => match spec_check_baseval(env, to) {
            Err(err) => Some(err),
            Ok(f) => if t != f || t.name != prim(BaseType::Int) {
                Some((ErrorType::LogicError, from.coords, None))
            } else {
                None
            },
        },
    }
}

/// A function header: its name and parameter names must not be reserved;
/// `keyboard` takes one integer and `mouse` two.
pub open spec fn spec_check_sig(f: AstFunction) -> Option<SErr> {
    let args = f.args@;
    let bad = spec_is_keyword(f.name@)
        || (exists|k: int| 0 <= k < args.len() && #[trigger] spec_is_keyword(args[k].0@))
        || (f.name@ == "keyboard"@ && (args.len() != 1 || args[0].1.name != prim(BaseType::Int)))
        || (f.name@ == "mouse"@ && (args.len() != 2 || args[0].1.name != prim(BaseType::Int)
        || args[1].1.name != prim(BaseType::Int)));
    if bad {
        Some((ErrorType::TypeError, f.header, None))
    } else {
        None
    }
}

/// The first header error among functions, in order.
pub open spec fn spec_first_sig_error(fs: Seq<AstFunction>) -> Option<SErr>
    decreases fs.len(),
{
    if fs.len() == 0 {
        None
    } else {
        match spec_check_sig(fs[0]) {
            Some(err) => Some(err),
            None => spec_first_sig_error(fs.drop_first()),
        }
    }
}

pub open spec fn sig_of(f: AstFunction) -> (String, Seq<(String, Type)>, Option<Type>) {
    (f.name, f.args@, f.return_type)
}

/// One global: its name must be free and not reserved, and its initializer
/// of exactly its declared shape.
pub open spec fn spec_check_global(env: CheckEnv, g: (String, Coords, Type, Expression)) -> Result<CheckEnv, SErr> {
    if spec_is_keyword(g.0@) {
        Err((ErrorType::TypeError, g.1, None))
    } else {
        match spec_check_expr(env, g.3) {
            Err(err) => Err(err),
            Ok(et) => if et.name != g.2.name {
                Err((ErrorType::TypeError, g.1, None))
            } else if spec_lookup(env, g.0@).is_some() {
                Err((ErrorType::LogicError, g.1, None))
            } else {
                Ok(CheckEnv { globals: env.globals.push((g.0, g.2)), ..env })
            },
        }
    }
}

/// The globals in declaration order, each seeing the ones before it.
pub open spec fn spec_check_globals(env: CheckEnv, gs: Seq<(String, Coords, Type, Expression)>) -> Result<CheckEnv, SErr>
    decreases gs.len(),
{
    if gs.len() == 0 {
        Ok(env)
    } else {
        match spec_check_global(env, gs[0]) {
            Err(err) => Err(err),
            Ok(env2) => spec_check_globals(env2, gs.drop_first()),
        }
    }
}

/// A function body's classification against the declared return type: a
/// function with a return type returns it on every path; one without never
/// returns a value.
pub open spec fn spec_fn_result(res: Result<ReturnType, SErr>, f: AstFunction) -> Option<SErr> {
    match res {
        Err(err) => Some(err),
        Ok(ReturnType::Full(t)) => match f.return_type {
            Some(rt) => if t != rt {
                Some((ErrorType::LogicError, f.header, None))
            } else {
                None
            },
            None => Some((ErrorType::LogicError, f.header, None)),
        },
        Ok(ReturnType::Partial(_)) => Some((ErrorType::LogicError, f.header, None)),
        Ok(ReturnType::NoReturn) => match f.return_type {
            Some(_) => Some((ErrorType::LogicError, f.header, None)),
            None => None,
        },
    }
}

/// A function checked with its parameters in scope.
pub open spec fn spec_check_function(env: CheckEnv, f: AstFunction) -> Option<SErr> {
    spec_fn_result(spec_check_stmts(spec_child(spec_child(env, f.args@), seq![]), f.block.nodes@, 0, None), f)
}

/// The first function body that fails, in order.
pub open spec fn spec_check_bodies(env: CheckEnv, fs: Seq<AstFunction>) -> Option<SErr>
    decreases fs.len(),
{
    if fs.len() == 0 {
        None
    } else {
        match spec_check_function(env, fs[0]) {
            Some(err) => Some(err),
            None => spec_check_bodies(env, fs.drop_first()),
        }
    }
}

/// A program checked from a given environment: a flat block as a block in a
/// scope of its own; a forest by its headers, then its globals, then its
/// function bodies.
pub open spec fn spec_check_program_in(env: CheckEnv, p: AstProgram) -> Result<ReturnType, SErr> {
    match p {
        AstProgram::Block(b) => spec_check_stmts(spec_child(env, seq![]), b.nodes@, 0, None),
        AstProgram::Forest(forest) => match spec_first_sig_error(forest.0@) {
            Some(err) => Err(err),
            None => {
                let env1 = CheckEnv { funcs: env.funcs + forest.0@.map_values(|f: AstFunction| sig_of(f)), ..env };
                match spec_check_globals(env1, forest.1@) {
                    Err(err) => Err(err),
                    Ok(env2) => match spec_check_bodies(env2, forest.0@) {
                        Some(err) => Err(err),
                        None => Ok(ReturnType::NoReturn),
                    },
                }
            },
        },
    }
}

/// The verdict of the type checker on a program.
pub open spec fn spec_check_program(p: AstProgram) -> Result<ReturnType, SErr> {
    spec_check_program_in(empty_env(), p)
}

/// Whether an executable result agrees with a specified one: equal values,
/// or an error of the specified kind and span.
pub open spec fn res_matches<T>(r: Result<T, Error>, s: Result<T, SErr>) -> bool {
    match (r, s) {
        (Ok(a), Ok(b)) => a == b,
        (Err(e), Err(se)) => err_matches(e, se),
        _ => false,
    }
}

pub open spec fn opt_matches(r: Option<Error>, s: Option<SErr>) -> bool {
    match (r, s) {
        (None, None) => true,
        (Some(e), Some(se)) => err_matches(e, se),
        _ => false,
    }
}

/// The checker's chain of variable frames, innermost last.
#[derive(Debug)]
pub struct Scope {
    pub frames: Vec<Vec<(String, Type)>>,
}

/// A program under type checking, with the environment built so far.
#[derive(Debug)]
pub struct Program {
    pub lines: AstProgram,
    pub scope: Scope,
    pub global_vars: Vec<(String, Type)>,
    pub function_defs: Vec<(String, Vec<(String, Type)>, Option<Type>)>,
}

pub open spec fn frames_view(fs: Seq<Vec<(String, Type)>>) -> Seq<Seq<(String, Type)>> {
    fs.map_values(|f: Vec<(String, Type)>| f@)
}

pub open spec fn funcs_view(fs: Seq<(String, Vec<(String, Type)>, Option<Type>)>) -> Seq<(String, Seq<(String, Type)>, Option<Type>)> {
    fs.map_values(|d: (String, Vec<(String, Type)>, Option<Type>)| (d.0, d.1@, d.2))
}

impl Program {
    /// A program under checking always has an innermost frame.
    pub open spec fn wf(&self) -> bool {
        self.scope.frames@.len() > 0
    }

    pub open spec fn env(&self) -> CheckEnv {
        CheckEnv {
            frames: frames_view(self.scope.frames@),
            globals: self.global_vars@,
            funcs: funcs_view(self.function_defs@),
        }
    }
}

pub open spec fn empty_env() -> CheckEnv {
    CheckEnv { frames: seq![seq![]], globals: seq![], funcs: seq![] }
}

/// A program ready for checking: one empty frame, no globals, no user
/// functions.
pub fn create_program(ast: AstProgram) -> (r: Program)
    ensures
        r.lines == ast,
        r.env() == empty_env(),
        r.wf(),
{
    let mut frames: Vec<Vec<(String, Type)>> = Vec::new();
    frames.push(Vec::new());
    let r = Program { lines: ast, scope: Scope { frames }, global_vars: Vec::new(), function_defs: Vec::new() };
    proof {
        assert(r.env().frames =~= seq![seq![]]);
        assert(r.env().funcs =~= seq![]);
    }
    r
}

/// Whether a name is reserved.
pub fn is_keyword(s: &String) -> (r: bool)
    ensures
        r == spec_is_keyword(s@),
{
    let t = s.as_str();
    str_eq(t, "circle") || str_eq(t, "line") || str_eq(t, "rectangle") || str_eq(t, "setLineColor")
        || str_eq(t, "setFigureColor") || str_eq(t, "setLineWidth") || str_eq(t, "polygon")
        || str_eq(t, "arc") || str_eq(t, "sleep") || str_eq(t, "animate") || str_eq(t, "frame")
        || str_eq(t, "clear") || str_eq(t, "for") || str_eq(t, "while") || str_eq(t, "global")
        || str_eq(t, "func") || str_eq(t, "if") || str_eq(t, "else") || str_eq(t, "int")
        || str_eq(t, "bool") || str_eq(t, "color") || str_eq(t, "float") || str_eq(t, "array")
        || str_eq(t, "Color") || str_eq(t, "true") || str_eq(t, "false")
}

fn int_params(n: usize) -> (r: Vec<BaseType>)
    ensures
        r@ == Seq::new(n as nat, |i: int| BaseType::Int),
{
    let mut v: Vec<BaseType> = Vec::new();
    let mut i: usize = 0;
    while i < n
        invariant
            i <= n,
            v@ == Seq::new(i as nat, |j: int| BaseType::Int),
        decreases n - i,
    {
        v.push(BaseType::Int);
        i += 1;
        proof {
            assert(v@ =~= Seq::new(i as nat, |j: int| BaseType::Int));
        }
    }
    v
}

/// The parameter types of a built-in command.
pub fn builtin_params(name: &String) -> (r: Option<Vec<BaseType>>)
    ensures
        match spec_builtin_params(name@) {
            Some(ps) => r is Some && r->0@ == ps,
            None => r is None,
        },
{
    let t = name.as_str();
    if str_eq(t, "circle") {
        let r = int_params(3);
        assert(r@ =~= seq![BaseType::Int, BaseType::Int, BaseType::Int]);
        Some(r)
    } else if str_eq(t, "line") || str_eq(t, "rectangle") {
        let r = int_params(4);
        assert(r@ =~= seq![BaseType::Int, BaseType::Int, BaseType::Int, BaseType::Int]);
        Some(r)
    } else if str_eq(t, "setLineColor") || str_eq(t, "setFigureColor") {
        let mut r: Vec<BaseType> = Vec::new();
        r.push(BaseType::Color);
        assert(r@ =~= seq![BaseType::Color]);
        Some(r)
    } else if str_eq(t, "setLineWidth") || str_eq(t, "sleep") {
        let r = int_params(1);
        assert(r@ =~= seq![BaseType::Int]);
        Some(r)
    } else if str_eq(t, "arc") {
        let r = int_params(5);
        assert(r@ =~= seq![BaseType::Int, BaseType::Int, BaseType::Int, BaseType::Int, BaseType::Int]);
        Some(r)
    } else if str_eq(t, "polygon") || str_eq(t, "animate") || str_eq(t, "frame") || str_eq(t, "clear") {
        let r: Vec<BaseType> = Vec::new();
        assert(r@ =~= seq![]);
        Some(r)
    } else {
        None
    }
}

fn frame_lookup(f: &Vec<(String, Type)>, name: &String) -> (r: Option<Type>)
    ensures
        r == spec_frame_lookup(f@, name@),
{
    let mut i: usize = f.len();
    proof {
        assert(f@.subrange(0, f@.len() as int) =~= f@);
    }
    while i > 0
        invariant
            i <= f@.len(),
            spec_frame_lookup(f@, name@) == spec_frame_lookup(f@.subrange(0, i as int), name@),
        decreases i,
    {
        proof {
            assert(f@.subrange(0, i as int).drop_last() =~= f@.subrange(0, i - 1));
        }
        if f[i - 1].0 == *name {
            return Some(f[i - 1].1.clone());
        }
        i -= 1;
    }
    proof {
        assert(f@.subrange(0, 0) =~= seq![]);
    }
    None
}

impl Program {
    fn frames_lookup(&self, name: &String) -> (r: Option<Type>)
        ensures
            r == spec_frames_lookup(self.env().frames, name@),
    {
        let fs = &self.scope.frames;
        let mut i: usize = fs.len();
        proof {
            assert(self.env().frames.subrange(0, fs@.len() as int) =~= self.env().frames);
        }
        while i > 0
            invariant
                i <= fs@.len(),
                fs == &self.scope.frames,
                spec_frames_lookup(self.env().frames, name@) == spec_frames_lookup(
                    self.env().frames.subrange(0, i as int),
                    name@,
                ),
            decreases i,
        {
            proof {
                assert(self.env().frames.subrange(0, i as int).drop_last() =~= self.env().frames.subrange(0, i - 1));
            }
            let found = frame_lookup(&fs[i - 1], name);
            if found.is_some() {
                return found;
            }
            i -= 1;
        }
        proof {
            assert(self.env().frames.subrange(0, 0) =~= seq![]);
        }
        None
    }

    /// The type of a visible variable.
    fn get(&self, name: &String) -> (r: Option<Type>)
        ensures
            r == spec_lookup(self.env(), name@),
    {
        match self.frames_lookup(name) {
            Some(t) => Some(t),
            None => frame_lookup(&self.global_vars, name),
        }
    }

    /// The parameter types of a callable.
    fn params_of(&self, name: &String) -> (r: Option<Vec<Type>>)
        ensures
            match spec_params(self.env(), name@) {
                Some(ps) => r is Some && r->0@ == ps,
                None => r is None,
            },
    {
        match builtin_params(name) {
            Some(bs) => {
                let mut v: Vec<Type> = Vec::new();
                let mut i: usize = 0;
                while i < bs.len()
                    invariant
                        i <= bs@.len(),
                        v@ == bs@.subrange(0, i as int).map_values(|b: BaseType| styp(b)),
                    decreases bs.len() - i,
                {
                    v.push(Type::typ(bs[i]));
                    i += 1;
                    proof {
                        assert(v@ =~= bs@.subrange(0, i as int).map_values(|b: BaseType| styp(b)));
                    }
                }
                proof {
                    assert(bs@.subrange(0, bs@.len() as int) =~= bs@);
                }
                Some(v)
            },
            None => {
                let fs = &self.function_defs;
                let mut i: usize = fs.len();
                proof {
                    assert(self.env().funcs.subrange(0, fs@.len() as int) =~= self.env().funcs);
                }
                while i > 0
                    invariant
                        i <= fs@.len(),
                        fs == &self.function_defs,
                        spec_builtin_params(name@) is None,
                        spec_user_sig(self.env().funcs, name@) == spec_user_sig(
                            self.env().funcs.subrange(0, i as int),
                            name@,
                        ),
                    decreases i,
                {
                    proof {
                        assert(self.env().funcs.subrange(0, i as int).drop_last() =~= self.env().funcs.subrange(0, i - 1));
                    }
                    if fs[i - 1].0 == *name {
                        let ps = &fs[i - 1].1;
                        let mut v: Vec<Type> = Vec::new();
                        let mut j: usize = 0;
                        while j < ps.len()
                            invariant
                                j <= ps@.len(),
                                v@ == ps@.subrange(0, j as int).map_values(|p: (String, Type)| p.1),
                                fs == &self.function_defs,
                                0 < i <= fs@.len(),
                                ps == &fs@[i - 1].1,
                                fs@[i - 1].0@ == name@,
                                spec_builtin_params(name@) is None,
                                spec_user_sig(self.env().funcs, name@) == spec_user_sig(
                                    self.env().funcs.subrange(0, i as int),
                                    name@,
                                ),
                            decreases ps.len() - j,
                        {
                            v.push(ps[j].1.clone());
                            j += 1;
                            proof {
                                assert(v@ =~= ps@.subrange(0, j as int).map_values(|p: (String, Type)| p.1));
                            }
                        }
                        proof {
                            assert(ps@.subrange(0, ps@.len() as int) =~= ps@);
                            let sub = self.env().funcs.subrange(0, i as int);
                            assert(sub.last() == (fs@[i - 1].0, fs@[i - 1].1@, fs@[i - 1].2));
                            assert(spec_user_sig(sub, name@) == Some((ps@, fs@[i - 1].2)));
                        }
                        return Some(v);
                    }
                    i -= 1;
                }
                proof {
                    assert(self.env().funcs.subrange(0, 0) =~= seq![]);
                }
                None
            },
        }
    }
}

fn elem_type(tp: &Type, depth: usize, coords: Coords) -> (r: Result<Type, Error>)
    requires
        depth >= 1,
    ensures
        res_matches(r, spec_elem_type(*tp, depth as nat, coords)),
    decreases depth,
{
    match &tp.name {
        TypeName::Array(inner, _) => match &**inner {
            Some(t) => if depth <= 1 {
                Ok(t.clone())
            } else {
                elem_type(t, depth - 1, coords)
            },
            None => Err(Error::typeEr(String::from_str("Array type is not defined"), coords)),
        },
        _ => Err(Error::typeEr(String::from_str("Expected an array type"), coords)),
    }
}

pub fn var_name(var: &VariableCall) -> (r: &String)
    ensures
        r@ == spec_var_name(*var),
{
    match var {
        VariableCall::Name(n) => n,
        VariableCall::ArrayCall(n, _) => n,
    }
}

impl Program {
    /// The type of a variable reference.
    pub fn type_check_var(&self, var: &VariableCall, coords: Coords) -> (r: Result<Type, Error>)
        ensures
            res_matches(r, spec_check_var(self.env(), *var, coords)),
    {
        let name = var_name(var);
        let depth: usize = match var {
            VariableCall::Name(_) => 0,
            VariableCall::ArrayCall(_, inds) => inds.len(),
        };
        if is_keyword(name) {
            return Err(Error::typeEr(join3("'", name.as_str(), "' is a keyword, it cannot be a name of a variable"), coords));
        }
        match self.get(name) {
            None => Err(Error::logic(join3("Variable ", name.as_str(), " is not defined!"), coords)),
            Some(tp) => if depth == 0 {
                Ok(tp)
            } else {
                elem_type(&tp, depth, coords)
            },
        }
    }

    /// The type of an expression.
    pub fn type_check_expr(&self, e: &Expression) -> (r: Result<Type, Error>)
        ensures
            res_matches(r, spec_check_expr(self.env(), *e)),
        decreases e,
    {
        match &e.expr_type {
            ExpressionType::Value(b) => self.type_check_baseval(b),
            ExpressionType::Unary(op, inner) => {
                let t = self.type_check_expr(inner)?;
                match op {
                    UnaryOperator::UnaryMinus => if t.name == TypeName::Primitive(BaseType::Int) {
                        Ok(Type::typ(BaseType::Int))
                    } else if t.name == TypeName::Primitive(BaseType::Float) {
                        Ok(Type::typ(BaseType::Float))
                    } else {
                        Err(Error::typeEr(String::from_str("Type mismatch in expression: unary minus needs a number"), e.coords))
                    },
                    UnaryOperator::NOT => if t.name == TypeName::Primitive(BaseType::Bool) {
                        Ok(Type::typ(BaseType::Bool))
                    } else {
                        Err(Error::typeEr(String::from_str("Type mismatch in expression: negation needs a bool"), e.coords))
                    },
                    UnaryOperator::Parentheses => Ok(t),
                }
            },
            ExpressionType::Binary(op, l, r) => {
                let lt = self.type_check_expr(l)?;
                let rt = self.type_check_expr(r)?;
                binary_type(*op, &lt, &rt, e.coords)
            },
        }
    }

    /// The type of a value.
    pub fn type_check_baseval(&self, b: &BaseValue) -> (r: Result<Type, Error>)
        ensures
            res_matches(r, spec_check_baseval(self.env(), *b)),
        decreases b,
    {
        match &b.val {
            BaseValueType::Id(var) => self.type_check_var(var, b.coords),
            BaseValueType::Int(_) => Ok(Type::typ(BaseType::Int)),
            BaseValueType::Bool(_) => Ok(Type::typ(BaseType::Bool)),
            BaseValueType::Color(_, _, _) => Ok(Type::typ(BaseType::Color)),
            BaseValueType::RandomColor => Ok(Type::typ(BaseType::Color)),
            BaseValueType::Float(_) => Ok(Type::typ(BaseType::Float)),
            BaseValueType::Array(elems) => {
                let ts = self.check_list(elems)?;
                array_type(&ts, b.coords)
            },
            BaseValueType::FunctionCall(name, args, rt) => match self.params_of(name) {
                None => Err(Error::logic(join3("Unknown function ", name.as_str(), ""), b.coords)),
                Some(ps) => if ps.len() != args.len() {
                    Err(Error::logic(join3("Function '", name.as_str(), "' gets a wrong number of arguments"), b.coords))
                } else {
                    match self.check_call_args(args, &ps, b.coords) {
                        Some(err) => Err(err),
                        None => Ok(rt.clone()),
                    }
                },
            },
        }
    }

    fn check_list(&self, elems: &Vec<BaseValue>) -> (r: Result<Vec<Type>, Error>)
        ensures
            match (r, spec_check_list(self.env(), elems@)) {
                (Ok(ts), Ok(sts)) => ts@ == sts,
                (Err(e), Err(se)) => err_matches(e, se),
                _ => false,
            },
        decreases elems,
    {
        let mut ts: Vec<Type> = Vec::new();
        let mut i: usize = 0;
        proof {
            assert(elems@.subrange(0, elems@.len() as int) =~= elems@);
        }
        while i < elems.len()
            invariant
                i <= elems@.len(),
                spec_check_list(self.env(), elems@) == match spec_check_list(self.env(), elems@.subrange(i as int, elems@.len() as int)) {
                    Ok(rest) => Ok(ts@ + rest),
                    Err(err) => Err::<Seq<Type>, SErr>(err),
                },
            decreases elems.len() - i,
        {
            proof {
                let sub = elems@.subrange(i as int, elems@.len() as int);
                assert(sub[0] == elems@[i as int]);
                assert(sub.drop_first() =~= elems@.subrange(i + 1, elems@.len() as int));
                assert(decreases_to!(elems => elems[i as int]));
            }
            let t = self.type_check_baseval(&elems[i])?;
            proof {
                let sub = elems@.subrange(i as int, elems@.len() as int);
                let rest = elems@.subrange(i + 1, elems@.len() as int);
                match spec_check_list(self.env(), rest) {
                    Ok(r2) => {
                        assert(ts@.push(t) + r2 =~= ts@ + (seq![t] + r2));
                    },
                    Err(_) => {},
                }
            }
            ts.push(t);
            i += 1;
        }
        proof {
            assert(elems@.subrange(i as int, elems@.len() as int) =~= seq![]);
            assert(ts@ + seq![] =~= ts@);
        }
        Ok(ts)
    }

    fn check_call_args(&self, args: &Vec<Expression>, ps: &Vec<Type>, coords: Coords) -> (r: Option<Error>)
        requires
            ps@.len() == args@.len(),
        ensures
            opt_matches(r, spec_check_call_args(self.env(), args@, ps@, coords)),
        decreases args,
    {
        let mut i: usize = 0;
        proof {
            assert(args@.subrange(0, args@.len() as int) =~= args@);
            assert(ps@.subrange(0, ps@.len() as int) =~= ps@);
        }
        while i < args.len()
            invariant
                i <= args@.len(),
                ps@.len() == args@.len(),
                spec_check_call_args(self.env(), args@, ps@, coords) == spec_check_call_args(
                    self.env(),
                    args@.subrange(i as int, args@.len() as int),
                    ps@.subrange(i as int, ps@.len() as int),
                    coords,
                ),
            decreases args.len() - i,
        {
            proof {
                let sub = args@.subrange(i as int, args@.len() as int);
                assert(sub[0] == args@[i as int]);
                assert(sub.drop_first() =~= args@.subrange(i + 1, args@.len() as int));
                assert(ps@.subrange(i as int, ps@.len() as int).drop_first() =~= ps@.subrange(i + 1, ps@.len() as int));
                assert(decreases_to!(args => args[i as int]));
            }
            match self.type_check_expr(&args[i]) {
                Err(err) => {
                    return Some(err);
                },
                Ok(t) => {
                    if !ps[i].can_assign(&t) {
                        return Some(Error::typeEr(String::from_str("Function argument of a wrong type"), coords));
                    }
                },
            }
            i += 1;
        }
        None
    }
}

/// The type of a binary operation on operands of the given types.
pub fn binary_type(op: Operator, lt: &Type, rt: &Type, coords: Coords) -> (r: Result<Type, Error>)
    ensures
        res_matches(r, spec_binary_type(op, *lt, *rt, coords)),
{
    let int_t = TypeName::Primitive(BaseType::Int);
    let float_t = TypeName::Primitive(BaseType::Float);
    let bool_t = TypeName::Primitive(BaseType::Bool);
    if op == Operator::AND || op == Operator::OR {
        if lt.name == bool_t && rt.name == bool_t {
            Ok(Type::typ(BaseType::Bool))
        } else {
            Err(Error::typeEr(String::from_str("Type mismatch in expression: logic operators need bools"), coords))
        }
    } else if !(lt.name == int_t || lt.name == float_t) || !(rt.name == int_t || rt.name == float_t) {
        Err(Error::typeEr(String::from_str("Type mismatch in expression: operands must be numbers"), coords))
    } else if !is_arith(op) {
        Ok(Type::typ(BaseType::Bool))
    } else if lt.name == float_t || rt.name == float_t {
        Ok(Type::typ(BaseType::Float))
    } else {
        Ok(Type::typ(BaseType::Int))
    }
}

/// The type of an array literal whose elements have the given types.
pub fn array_type(ts: &Vec<Type>, coords: Coords) -> (r: Result<Type, Error>)
    ensures
        res_matches(r, spec_array_type(ts@, coords)),
{
    if ts.len() == 0 {
        return Ok(Type { name: TypeName::Array(Box::new(None), 0), is_const: false });
    }
    let mut i: usize = 0;
    while i < ts.len()
        invariant
            0 < ts@.len(),
            i <= ts@.len(),
            forall|j: int| 0 <= j < i ==> #[trigger] ts@[j].name == ts@[0].name,
        decreases ts.len() - i,
    {
        if !(ts[i].name == ts[0].name) {
            return Err(Error::typeEr(String::from_str("Array elements must all be of one type"), coords));
        }
        i += 1;
    }
    Ok(Type { name: TypeName::Array(Box::new(Some(ts[0].clone())), ts.len()), is_const: false })
}

fn int_types(n: usize) -> (r: Vec<Type>)
    ensures
        r@ == Seq::new(n as nat, |i: int| styp(BaseType::Int)),
{
    let mut v: Vec<Type> = Vec::new();
    let mut i: usize = 0;
    while i < n
        invariant
            i <= n,
            v@ == Seq::new(i as nat, |j: int| styp(BaseType::Int)),
        decreases n - i,
    {
        v.push(Type::typ(BaseType::Int));
        i += 1;
        proof {
            assert(v@ =~= Seq::new(i as nat, |j: int| styp(BaseType::Int)));
        }
    }
    v
}

pub fn merge_return(rt: ReturnType, acc: Option<Type>, coords: Coords) -> (r: Merge)
    ensures
        r == spec_merge(rt, acc, coords),
{
    match rt {
        ReturnType::NoReturn => Merge::Continue(acc),
        ReturnType::Partial(t) => match acc {
            Some(a) => if !(a == t) {
                Merge::Fail((ErrorType::LogicError, coords, None))
            } else {
                Merge::Continue(Some(a))
            },
            None => Merge::Continue(Some(t)),
        },
        ReturnType::Full(t) => match acc {
            Some(a) => if !(a == t) {
                Merge::Fail((ErrorType::LogicError, coords, None))
            } else {
                Merge::Stop(ReturnType::Full(t))
            },
            None => Merge::Stop(ReturnType::Full(t)),
        },
    }
}

fn partialize(rt: ReturnType) -> (r: ReturnType)
    ensures
        r == spec_partialize(rt),
{
    match rt {
        ReturnType::Full(t) => ReturnType::Partial(t),
        _ => rt,
    }
}

fn rt_same(a: &ReturnType, b: &ReturnType) -> (r: bool)
    ensures
        r == (*a == *b),
{
    match (a, b) {
        (ReturnType::NoReturn, ReturnType::NoReturn) => true,
        (ReturnType::Partial(x), ReturnType::Partial(y)) => *x == *y,
        (ReturnType::Full(x), ReturnType::Full(y)) => *x == *y,
        _ => false,
    }
}

fn combine_branches(it: ReturnType, et: ReturnType, coords: Coords) -> (r: Result<ReturnType, Error>)
    ensures
        res_matches(r, spec_combine_branches(it, et, coords)),
{
    if rt_same(&it, &et) {
        return Ok(it);
    }
    match (it, et) {
        (ReturnType::NoReturn, ReturnType::NoReturn) => Ok(ReturnType::NoReturn),
        (ReturnType::Partial(t1), ReturnType::NoReturn) | (ReturnType::Full(t1), ReturnType::NoReturn) => Ok(ReturnType::Partial(t1)),
        (ReturnType::NoReturn, ReturnType::Partial(t2)) | (ReturnType::NoReturn, ReturnType::Full(t2)) => Ok(ReturnType::Partial(t2)),
        (ReturnType::Partial(t1), ReturnType::Partial(t2)) | (ReturnType::Partial(t1), ReturnType::Full(t2))
        | (ReturnType::Full(t1), ReturnType::Partial(t2)) | (ReturnType::Full(t1), ReturnType::Full(t2)) => {
            if !(t1 == t2) {
                Err(Error::logic(String::from_str("Return type of if and else block must match"), coords))
            } else {
                Ok(ReturnType::Partial(t1))
            }
        },
    }
}

proof fn lemma_frames_push(fs: Seq<Vec<(String, Type)>>, f: Vec<(String, Type)>)
    ensures
        frames_view(fs.push(f)) == frames_view(fs).push(f@),
{
    assert(frames_view(fs.push(f)) =~= frames_view(fs).push(f@));
}

proof fn lemma_frames_drop_last(fs: Seq<Vec<(String, Type)>>)
    requires
        fs.len() > 0,
    ensures
        frames_view(fs.drop_last()) == frames_view(fs).drop_last(),
{
    assert(frames_view(fs.drop_last()) =~= frames_view(fs).drop_last());
}

impl Program {
    /// A command statement.
    pub fn type_check_command(&self, name: &String, args: &Vec<Expression>, coords: Coords) -> (r: Option<Error>)
        ensures
            opt_matches(r, spec_check_command(self.env(), name@, args@, coords)),
            name@ == "polygon"@ && (args@.len() < 6 || args@.len() % 2 != 0) ==> r is Some && r->0.error_type
                == ErrorType::LogicError && r->0.message@ == spec_polygon_msg(args@.len()),
    {
        if str_eq(name.as_str(), "polygon") {
            if args.len() < 6 || args.len() % 2 != 0 {
                let mut m = String::from_str("Wrong number of arguments for command polygon: got ");
                push_nat_decimal(&mut m, args.len() as u64);
                push_str(&mut m, ", expected at least 6 (even number) for polygon");
                return Some(Error::logic(m, coords));
            }
            let ps = int_types(args.len());
            return self.check_cmd_args(args, &ps, coords);
        }
        match self.params_of(name) {
            None => Some(Error::logic(join3("Unknown command: ", name.as_str(), ""), coords)),
            Some(ps) => if ps.len() != args.len() {
                Some(Error::logic(join3("Wrong number of arguments for command ", name.as_str(), ""), coords))
            } else {
                self.check_cmd_args(args, &ps, coords)
            },
        }
    }

    fn check_cmd_args(&self, args: &Vec<Expression>, ps: &Vec<Type>, coords: Coords) -> (r: Option<Error>)
        requires
            ps@.len() == args@.len(),
        ensures
            opt_matches(r, spec_check_cmd_args(self.env(), args@, ps@, coords)),
    {
        let mut i: usize = 0;
        proof {
            assert(args@.subrange(0, args@.len() as int) =~= args@);
            assert(ps@.subrange(0, ps@.len() as int) =~= ps@);
        }
        while i < args.len()
            invariant
                i <= args@.len(),
                ps@.len() == args@.len(),
                spec_check_cmd_args(self.env(), args@, ps@, coords) == spec_check_cmd_args(
                    self.env(),
                    args@.subrange(i as int, args@.len() as int),
                    ps@.subrange(i as int, ps@.len() as int),
                    coords,
                ),
            decreases args.len() - i,
        {
            proof {
                let sub = args@.subrange(i as int, args@.len() as int);
                assert(sub[0] == args@[i as int]);
                assert(sub.drop_first() =~= args@.subrange(i + 1, args@.len() as int));
                assert(ps@.subrange(i as int, ps@.len() as int).drop_first() =~= ps@.subrange(i + 1, ps@.len() as int));
            }
            match self.type_check_expr(&args[i]) {
                Err(err) => {
                    return Some(err);
                },
                Ok(t) => {
                    if !(t.name == ps[i].name) {
                        return Some(Error::typeEr(String::from_str("Wrong type of argument for command"), coords));
                    }
                },
            }
            i += 1;
        }
        None
    }

    fn bind(&mut self, name: String, t: Type)
        requires
            old(self).scope.frames@.len() > 0,
        ensures
            final(self).env() == spec_bind(old(self).env(), name, t),
            final(self).scope.frames@.len() == old(self).scope.frames@.len(),
            final(self).scope.frames@.drop_last() == old(self).scope.frames@.drop_last(),
            final(self).global_vars == old(self).global_vars,
            final(self).function_defs == old(self).function_defs,
            final(self).lines == old(self).lines,
    {
        let mut last = self.scope.frames.pop().unwrap();
        last.push((name, t));
        self.scope.frames.push(last);
        proof {
            let ofs = old(self).scope.frames@;
            assert(self.scope.frames@ =~= ofs.drop_last().push(last));
            lemma_frames_push(ofs.drop_last(), last);
            lemma_frames_drop_last(ofs);
            assert(self.env().frames =~= spec_bind(old(self).env(), name, t).frames);
        }
    }

    /// Checks a nested block in a new innermost frame holding `f`.
    fn check_nested(&mut self, block: &AstBlock, f: Vec<(String, Type)>) -> (r: Result<ReturnType, Error>)
        requires
            old(self).scope.frames@.len() > 0,
        ensures
            res_matches(r, spec_check_stmts(spec_child(old(self).env(), f@), block.nodes@, 0, None)),
            final(self).scope.frames@ == old(self).scope.frames@,
            final(self).global_vars == old(self).global_vars,
            final(self).function_defs == old(self).function_defs,
            final(self).lines == old(self).lines,
        decreases block, 1nat,
    {
        proof {
            lemma_frames_push(self.scope.frames@, f);
        }
        self.scope.frames.push(f);
        let r = self.type_check_block(block);
        self.scope.frames.pop();
        proof {
            assert(self.scope.frames@ =~= old(self).scope.frames@);
        }
        r
    }

    /// Type-checks a block in the current innermost frame, yielding its
    /// return classification.
    pub fn type_check_block(&mut self, block: &AstBlock) -> (r: Result<ReturnType, Error>)
        requires
            old(self).wf(),
        ensures
            res_matches(r, spec_check_stmts(old(self).env(), block.nodes@, 0, None)),
            final(self).scope.frames@.len() == old(self).scope.frames@.len(),
            final(self).scope.frames@.drop_last() == old(self).scope.frames@.drop_last(),
            final(self).global_vars == old(self).global_vars,
            final(self).function_defs == old(self).function_defs,
            final(self).lines == old(self).lines,
        decreases block, 0nat,
    {
        let nodes = &block.nodes;
        let mut acc: Option<Type> = None;
        let mut i: usize = 0;
        while i < nodes.len()
            invariant
                i <= nodes@.len(),
                nodes == &block.nodes,
                old(self).scope.frames@.len() > 0,
                self.scope.frames@.len() == old(self).scope.frames@.len(),
                self.scope.frames@.drop_last() == old(self).scope.frames@.drop_last(),
                self.global_vars == old(self).global_vars,
                self.function_defs == old(self).function_defs,
                self.lines == old(self).lines,
                spec_check_stmts(old(self).env(), nodes@, 0, None) == spec_check_stmts(self.env(), nodes@, i as int, acc),
            decreases nodes.len() - i,
        {
            proof {
                assert(decreases_to!(block => block.nodes[i as int]));
            }
            match self.check_step(&nodes[i], acc) {
                Err(e) => {
                    return Err(e);
                },
                Ok(Flow::Done(r)) => {
                    return Ok(r);
                },
                Ok(Flow::Next(a)) => {
                    acc = a;
                },
            }
            i += 1;
        }
        match acc {
            Some(t) => Ok(ReturnType::Partial(t)),
            None => Ok(ReturnType::NoReturn),
        }
    }

    /// One statement: checks it and says whether the block goes on.
    fn check_step(&mut self, line: &AstNode, acc: Option<Type>) -> (r: Result<Flow, Error>)
        requires
            old(self).scope.frames@.len() > 0,
        ensures
            flow_matches(r, spec_step(old(self).env(), *line, acc)),
            match (r, spec_step(old(self).env(), *line, acc)) {
                (Ok(Flow::Next(_)), SpecFlow::Next(env2, _)) => final(self).env() == env2,
                _ => true,
            },
            final(self).scope.frames@.len() == old(self).scope.frames@.len(),
            final(self).scope.frames@.drop_last() == old(self).scope.frames@.drop_last(),
            final(self).global_vars == old(self).global_vars,
            final(self).function_defs == old(self).function_defs,
            final(self).lines == old(self).lines,
        decreases line, 0nat,
    {
        match &line.statement {
            AstStatement::Command { name, args } => {
                match self.type_check_command(name, args, line.coords) {
                    Some(err) => Err(err),
                    None => Ok(Flow::Next(acc)),
                }
            },
            AstStatement::Init { typ, val, expr } => {
                match self.check_init(typ, val, expr, line.coords) {
                    Some(err) => Err(err),
                    None => {
                        self.bind(val.clone(), typ.clone());
                        Ok(Flow::Next(acc))
                    },
                }
            },
            AstStatement::SetVal { val, expr } => {
                match self.check_set(val, expr, line.coords) {
                    Some(err) => Err(err),
                    None => Ok(Flow::Next(acc)),
                }
            },
            AstStatement::If { clause, block: if_block, else_block } => {
                if let Some(err) = self.check_clause(clause) {
                    return Err(err);
                }
                let it = self.check_nested(if_block, Vec::new())?;
                let rt = match else_block {
                    None => partialize(it),
                    Some(eb) => {
                        let et = self.check_nested(eb, Vec::new())?;
                        combine_branches(it, et, (if_block.coords.0, if_block.coords.1, eb.coords.2, eb.coords.3))?
                    },
                };
                flow_of(acc, rt, line.coords)
            },
            AstStatement::For { val, from, to, block: for_block } => {
                if let Some(err) = self.check_range(from, to) {
                    return Err(err);
                }
                let mut frame: Vec<(String, Type)> = Vec::new();
                frame.push((val.clone(), Type::typ(BaseType::Int)));
                proof {
                    assert(frame@ =~= seq![(*val, styp(BaseType::Int))]);
                }
                let rt = self.check_nested(for_block, frame)?;
                flow_of(acc, partialize(rt), line.coords)
            },
            AstStatement::While { clause, block: while_block } => {
                if let Some(err) = self.check_clause(clause) {
                    return Err(err);
                }
                let rt = self.check_nested(while_block, Vec::new())?;
                flow_of(acc, partialize(rt), line.coords)
            },
            AstStatement::Return { expr } => {
                let t = self.type_check_expr(expr)?;
                match acc {
                    Some(a) => {
                        if !(a == t) {
                            return Err(Error::logic(String::from_str("Return type mismatch"), line.coords));
                        }
                        Ok(Flow::Done(ReturnType::Full(t)))
                    },
                    None => Ok(Flow::Done(ReturnType::Full(t))),
                }
            },
        }
    }

    fn check_init(&self, typ: &Type, val: &String, expr: &Expression, coords: Coords) -> (r: Option<Error>)
        ensures
            opt_matches(r, spec_check_init(self.env(), *typ, *val, *expr, coords)),
    {
        if is_keyword(val) {
            return Some(Error::typeEr(join3("'", val.as_str(), "' cannot be a variable, it is a keyword"), coords));
        }
        if self.get(val).is_some() {
            return Some(Error::logic(join3("Variable ", val.as_str(), " is re-defined!"), coords));
        }
        match self.type_check_expr(expr) {
            Err(e) => Some(e),
            Ok(et) => if !typ.can_assign(&et) {
                Some(Error::logic(join3("Cannot assign expression to variable ", val.as_str(), ""), coords))
            } else {
                None
            },
        }
    }

    fn check_set(&self, val: &VariableCall, expr: &Expression, coords: Coords) -> (r: Option<Error>)
        ensures
            opt_matches(r, spec_check_set(self.env(), *val, *expr, coords)),
    {
        match self.type_check_var(val, coords) {
            Err(e) => Some(e),
            Ok(vt) => {
                if vt.is_const {
                    return Some(Error::logic(join3("Const variable ", var_name(val).as_str(), " cannot be reassigned"), coords));
                }
                match self.type_check_expr(expr) {
                    Err(e) => Some(e),
                    Ok(et) => if !vt.can_assign(&et) {
                        Some(Error::logic(join3("Cannot assign expression to variable ", var_name(val).as_str(), ""), coords))
                    } else {
                        None
                    },
                }
            },
        }
    }

    fn check_clause(&self, clause: &Expression) -> (r: Option<Error>)
        ensures
            opt_matches(r, spec_check_clause(self.env(), *clause)),
    {
        match self.type_check_expr(clause) {
            Err(e) => Some(e),
            Ok(ct) => if !(ct.name == TypeName::Primitive(BaseType::Bool)) {
                Some(Error::logic(String::from_str("Clause must be a bool expression"), clause.coords))
            } else {
                None
            },
        }
    }

    fn check_range(&self, from: &BaseValue, to: &BaseValue) -> (r: Option<Error>)
        ensures
            opt_matches(r, spec_check_range(self.env(), *from, *to)),
    {
        match self.type_check_baseval(from) {
            Err(e) => Some(e),
            Ok(t) => match self.type_check_baseval(to) {
                Err(e) => Some(e),
                Ok(f) => if !(t == f) || !(t.name == TypeName::Primitive(BaseType::Int)) {
                    Some(Error::logic(String::from_str("For loop range can only be integer values"), from.coords))
                } else {
                    None
                },
            },
        }
    }
}

/// What the checker does after one statement, executably.
pub enum Flow {
    Done(ReturnType),
    Next(Option<Type>),
}

pub open spec fn flow_matches(r: Result<Flow, Error>, s: SpecFlow) -> bool {
    match (r, s) {
        (Ok(Flow::Done(a)), SpecFlow::Done(Ok(b))) => a == b,
        (Err(e), SpecFlow::Done(Err(se))) => err_matches(e, se),
        (Ok(Flow::Next(a)), SpecFlow::Next(_, b)) => a == b,
        _ => false,
    }
}

/// Folds a branching statement's classification into the block's.
fn flow_of(acc: Option<Type>, rt: ReturnType, coords: Coords) -> (r: Result<Flow, Error>)
    ensures
        forall|env: CheckEnv| #[trigger] spec_flow_of(env, acc, rt, coords) == spec_flow_of(env, acc, rt, coords)
            && flow_matches(r, spec_flow_of(env, acc, rt, coords)),
{
    match merge_return(rt, acc, coords) {
        Merge::Fail(e) => Err(Error::logic(String::from_str("Block return type mismatch"), e.1)),
        Merge::Stop(r) => Ok(Flow::Done(r)),
        Merge::Continue(a) => Ok(Flow::Next(a)),
    }
}

fn clone_params(v: &Vec<(String, Type)>) -> (r: Vec<(String, Type)>)
    ensures
        r@ == v@,
{
    let mut out: Vec<(String, Type)> = Vec::new();
    let mut i: usize = 0;
    while i < v.len()
        invariant
            i <= v@.len(),
            out@ == v@.subrange(0, i as int),
        decreases v.len() - i,
    {
        out.push((v[i].0.clone(), v[i].1.clone()));
        i += 1;
        proof {
            assert(out@ =~= v@.subrange(0, i as int));
        }
    }
    proof {
        assert(v@.subrange(0, v@.len() as int) =~= v@);
    }
    out
}

fn clone_opt_type(t: &Option<Type>) -> (r: Option<Type>)
    ensures
        r == *t,
{
    match t {
        Some(x) => Some(x.clone()),
        None => None,
    }
}

/// A function header.
fn check_sig(f: &AstFunction) -> (r: Option<Error>)
    ensures
        opt_matches(r, spec_check_sig(*f)),
{
    if is_keyword(&f.name) {
        return Some(Error::typeEr(join3("'", f.name.as_str(), "' is a keyword, it cannot be the name of a function"), f.header));
    }
    let mut k: usize = 0;
    while k < f.args.len()
        invariant
            k <= f.args@.len(),
            forall|j: int| 0 <= j < k ==> !#[trigger] spec_is_keyword(f.args@[j].0@),
        decreases f.args.len() - k,
    {
        if is_keyword(&f.args[k].0) {
            return Some(Error::typeEr(join3("'", f.args[k].0.as_str(), "' is a keyword, it cannot be the name of a variable"), f.header));
        }
        k += 1;
    }
    let int_t = TypeName::Primitive(BaseType::Int);
    if str_eq(f.name.as_str(), "keyboard") {
        if f.args.len() != 1 || !(f.args[0].1.name == int_t) {
            return Some(Error::typeEr(String::from_str("Special function 'keyboard' has to receive exactly one integer"), f.header));
        }
    }
    if str_eq(f.name.as_str(), "mouse") {
        if f.args.len() != 2 || !(f.args[0].1.name == int_t) || !(f.args[1].1.name == int_t) {
            return Some(Error::typeEr(String::from_str("Special function 'mouse' has to receive exactly two integers"), f.header));
        }
    }
    None
}

impl Program {
    /// Type-checks a function body in a new frame and reconciles it with the
    /// declared return type.
    pub fn type_check_function(&mut self, func: &AstFunction) -> (r: Option<Error>)
        requires
            old(self).wf(),
        ensures
            opt_matches(r, spec_fn_result(spec_check_stmts(spec_child(old(self).env(), seq![]), func.block.nodes@, 0, None), *func)),
            final(self).scope.frames@ == old(self).scope.frames@,
            final(self).global_vars == old(self).global_vars,
            final(self).function_defs == old(self).function_defs,
            final(self).lines == old(self).lines,
    {
        match self.check_nested(&func.block, Vec::new()) {
            Err(e) => Some(e),
            Ok(ReturnType::Full(t)) => match &func.return_type {
                Some(rt) => if !(t == *rt) {
                    Some(Error::logic(join3("Function ", func.name.as_str(), " return type mismatch"), func.header))
                } else {
                    None
                },
                None => Some(Error::logic(join3("Function ", func.name.as_str(), " has no return type defined, but returns a value"), func.header)),
            },
            Ok(ReturnType::Partial(t)) => match &func.return_type {
                Some(rt) => if !(t == *rt) {
                    Some(Error::logic(join3("Function ", func.name.as_str(), " return type mismatch"), func.header))
                } else {
                    Some(Error::logic(join3("Expected a return statement at the end of function ", func.name.as_str(), ""), func.header))
                },
                None => Some(Error::logic(join3("Function ", func.name.as_str(), " has no return type defined"), func.header)),
            },
            Ok(ReturnType::NoReturn) => match &func.return_type {
                Some(_) => Some(Error::logic(join3("Function ", func.name.as_str(), " has a return type defined but does not return anything"), func.header)),
                None => None,
            },
        }
    }

    /// Type-checks the whole program: a flat block, or the headers, globals
    /// and bodies of a forest of functions.
    pub fn type_check(&mut self) -> (r: Result<ReturnType, Error>)
        requires
            old(self).wf(),
        ensures
            res_matches(r, spec_check_program_in(old(self).env(), old(self).lines)),
            final(self).lines == old(self).lines,
            final(self).env() == old(self).env(),
            final(self).wf(),
    {
        let nf = self.function_defs.len();
        let ng = self.global_vars.len();
        let mut lines = AstProgram::Block(AstBlock { nodes: Vec::new(), coords: (0, 0, 0, 0) });
        std::mem::swap(&mut self.lines, &mut lines);
        let r = match &lines {
            AstProgram::Block(b) => self.check_nested(b, Vec::new()),
            AstProgram::Forest(forest) => self.check_forest(&forest.0, &forest.1),
        };
        std::mem::swap(&mut self.lines, &mut lines);
        self.function_defs.truncate(nf);
        self.global_vars.truncate(ng);
        proof {
            assert(self.function_defs@ =~= old(self).function_defs@);
            assert(self.global_vars@ =~= old(self).global_vars@);
        }
        r
    }

    fn check_forest(&mut self, fs: &Vec<AstFunction>, gs: &Vec<(String, Coords, Type, Expression)>) -> (r: Result<ReturnType, Error>)
        requires
            old(self).scope.frames@.len() > 0,
        ensures
            res_matches(r, spec_check_program_in(old(self).env(), AstProgram::Forest((*fs, *gs)))),
            final(self).scope.frames@ == old(self).scope.frames@,
            final(self).function_defs@.len() >= old(self).function_defs@.len(),
            final(self).function_defs@.subrange(0, old(self).function_defs@.len() as int) == old(self).function_defs@,
            final(self).global_vars@.len() >= old(self).global_vars@.len(),
            final(self).global_vars@.subrange(0, old(self).global_vars@.len() as int) == old(self).global_vars@,
    {
        let ghost env0 = self.env();
        proof {
            assert(self.function_defs@.subrange(0, self.function_defs@.len() as int) =~= self.function_defs@);
            assert(self.global_vars@.subrange(0, self.global_vars@.len() as int) =~= self.global_vars@);
        }
        let mut i: usize = 0;
        proof {
            assert(fs@.subrange(0, fs@.len() as int) =~= fs@);
            assert(fs@.subrange(0, 0).map_values(|f: AstFunction| sig_of(f)) =~= seq![]);
            assert(env0.funcs + seq![] =~= env0.funcs);
        }
        while i < fs.len()
            invariant
                i <= fs@.len(),
                self.function_defs@.len() >= old(self).function_defs@.len(),
                self.function_defs@.subrange(0, old(self).function_defs@.len() as int) == old(self).function_defs@,
                self.global_vars@.len() >= old(self).global_vars@.len(),
                self.global_vars@.subrange(0, old(self).global_vars@.len() as int) == old(self).global_vars@,
                self.scope.frames@ == old(self).scope.frames@,
                self.global_vars == old(self).global_vars,
                self.env().frames == env0.frames,
                self.env().globals == env0.globals,
                self.env().funcs == env0.funcs + fs@.subrange(0, i as int).map_values(|f: AstFunction| sig_of(f)),
                env0 == old(self).env(),
                spec_first_sig_error(fs@) == spec_first_sig_error(fs@.subrange(i as int, fs@.len() as int)),
            decreases fs.len() - i,
        {
            proof {
                let sub = fs@.subrange(i as int, fs@.len() as int);
                assert(sub[0] == fs@[i as int]);
                assert(sub.drop_first() =~= fs@.subrange(i + 1, fs@.len() as int));
            }
            if let Some(err) = check_sig(&fs[i]) {
                return Err(err);
            }
            let f = &fs[i];
            let ghost before = self.function_defs@;
            self.function_defs.push((f.name.clone(), clone_params(&f.args), clone_opt_type(&f.return_type)));
            proof {
                assert(self.function_defs@.subrange(0, old(self).function_defs@.len() as int) =~= before.subrange(0, old(self).function_defs@.len() as int));
            }
            i += 1;
            proof {
                assert(self.function_defs@ =~= before.push(self.function_defs@.last()));
                assert(funcs_view(self.function_defs@) =~= funcs_view(before).push(sig_of(fs@[i - 1])));
                assert(fs@.subrange(0, i as int).map_values(|f: AstFunction| sig_of(f)) =~= fs@.subrange(0, i - 1).map_values(|f: AstFunction| sig_of(f)).push(sig_of(fs@[i - 1])));
                assert(self.env().funcs =~= env0.funcs + fs@.subrange(0, i as int).map_values(|f: AstFunction| sig_of(f)));
            }
        }
        proof {
            assert(fs@.subrange(i as int, fs@.len() as int) =~= seq![]);
            assert(fs@.subrange(0, fs@.len() as int) =~= fs@);
        }
        let ghost env1 = self.env();
        let mut j: usize = 0;
        proof {
            assert(gs@.subrange(0, gs@.len() as int) =~= gs@);
        }
        while j < gs.len()
            invariant
                j <= gs@.len(),
                self.function_defs@.len() >= old(self).function_defs@.len(),
                self.function_defs@.subrange(0, old(self).function_defs@.len() as int) == old(self).function_defs@,
                self.global_vars@.len() >= old(self).global_vars@.len(),
                self.global_vars@.subrange(0, old(self).global_vars@.len() as int) == old(self).global_vars@,
                env0 == old(self).env(),
                spec_first_sig_error(fs@) is None,
                env1 == (CheckEnv { funcs: env0.funcs + fs@.map_values(|f: AstFunction| sig_of(f)), ..env0 }),
                self.scope.frames@ == old(self).scope.frames@,
                self.scope.frames@.len() > 0,
                self.env().frames == env1.frames,
                self.env().funcs == env1.funcs,
                spec_check_globals(env1, gs@) == spec_check_globals(self.env(), gs@.subrange(j as int, gs@.len() as int)),
            decreases gs.len() - j,
        {
            proof {
                let sub = gs@.subrange(j as int, gs@.len() as int);
                assert(sub[0] == gs@[j as int]);
                assert(sub.drop_first() =~= gs@.subrange(j + 1, gs@.len() as int));
            }
            let g = &gs[j];
            if is_keyword(&g.0) {
                return Err(Error::typeEr(join3("'", g.0.as_str(), "' is a keyword, it cannot be the name of a variable"), g.1));
            }
            let et = self.type_check_expr(&g.3)?;
            if !(et.name == g.2.name) {
                return Err(Error::typeEr(join3("Global variable ", g.0.as_str(), " is initialized with a value of another type"), g.1));
            }
            if self.get(&g.0).is_some() {
                return Err(Error::logic(join3("Global variable ", g.0.as_str(), " is re-defined!"), g.1));
            }
            let ghost gbefore = self.global_vars@;
            self.global_vars.push((g.0.clone(), g.2.clone()));
            proof {
                assert(self.global_vars@.subrange(0, old(self).global_vars@.len() as int) =~= gbefore.subrange(0, old(self).global_vars@.len() as int));
            }
            j += 1;
        }
        proof {
            assert(gs@.subrange(j as int, gs@.len() as int) =~= seq![]);
            assert(self.env() == (CheckEnv { globals: self.env().globals, ..self.env() }));
        }
        let ghost env2 = self.env();
        let mut k: usize = 0;
        proof {
            assert(fs@.subrange(0, fs@.len() as int) =~= fs@);
        }
        while k < fs.len()
            invariant
                k <= fs@.len(),
                self.function_defs@.len() >= old(self).function_defs@.len(),
                self.function_defs@.subrange(0, old(self).function_defs@.len() as int) == old(self).function_defs@,
                self.global_vars@.len() >= old(self).global_vars@.len(),
                self.global_vars@.subrange(0, old(self).global_vars@.len() as int) == old(self).global_vars@,
                self.scope.frames@ == old(self).scope.frames@,
                env0 == old(self).env(),
                spec_first_sig_error(fs@) is None,
                env1 == (CheckEnv { funcs: env0.funcs + fs@.map_values(|f: AstFunction| sig_of(f)), ..env0 }),
                spec_check_globals(env1, gs@) == Ok::<CheckEnv, SErr>(env2),
                self.scope.frames@.len() > 0,
                self.env() == env2,
                spec_check_bodies(env2, fs@) == spec_check_bodies(env2, fs@.subrange(k as int, fs@.len() as int)),
            decreases fs.len() - k,
        {
            proof {
                let sub = fs@.subrange(k as int, fs@.len() as int);
                assert(sub[0] == fs@[k as int]);
                assert(sub.drop_first() =~= fs@.subrange(k + 1, fs@.len() as int));
            }
            let f = &fs[k];
            let ghost frames_before = self.scope.frames@;
            let params = clone_params(&f.args);
            proof {
                lemma_frames_push(self.scope.frames@, params);
            }
            self.scope.frames.push(params);
            let res = self.type_check_function(f);
            self.scope.frames.pop();
            proof {
                assert(self.scope.frames@ =~= frames_before);
                assert(self.env() =~= env2);
            }
            if let Some(err) = res {
                return Err(err);
            }
            k += 1;
        }
        proof {
            assert(fs@.subrange(k as int, fs@.len() as int) =~= seq![]);
        }
        Ok(ReturnType::NoReturn)
    }
}

impl ReturnType {
    /// The returned type, if the block returns on some path.
    pub fn t(&self) -> (r: Option<&Type>)
        ensures
            match spec_rt_type(*self) {
                Some(t) => r is Some && *r->0 == t,
                None => r is None,
            },
    {
        match self {
            ReturnType::NoReturn => None,
            ReturnType::Partial(t) => Some(t),
            ReturnType::Full(t) => Some(t),
        }
    }
}

/// The integer type.
pub fn int_type() -> (r: Type)
    ensures
        r == styp(BaseType::Int),
{
    Type::typ(BaseType::Int)
}

/// The color type.
pub fn color_type() -> (r: Type)
    ensures
        r == styp(BaseType::Color),
{
    Type::typ(BaseType::Color)
}

} // verus!
