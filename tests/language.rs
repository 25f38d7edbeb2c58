use quanta_lang::ast::{
    goes_before, is_arith, AstBlock, AstFunction, AstNode, AstProgram, AstStatement, BaseValue, BaseValueType, Coords,
    Expression, ExpressionType, Operator, SimpleExpression, SimpleExpressionType, SimpleValue, SimpleValueType,
    UnaryOperator, VariableCall,
};
use quanta_lang::builder::AstBuilder;
use quanta_lang::error::{Error, ErrorType};
use quanta_lang::execution::{color_to_str, Execution};
use quanta_lang::keys::key_to_number;
use quanta_lang::message::{group_commands, CommandStatus, RuntimeError};
use quanta_lang::program::{create_program, ReturnType};
use quanta_lang::runtime::{compile_program, Runtime};
use quanta_lang::types::{BaseType, Type, TypeName};

const FUEL: u64 = 10_000;

fn at(line: usize) -> Coords {
    (line, 1, line, 20)
}

fn val_at(v: BaseValueType, line: usize) -> Expression {
    Expression { expr_type: ExpressionType::Value(BaseValue { val: v, coords: at(line) }), coords: at(line) }
}

fn val(v: BaseValueType) -> Expression {
    val_at(v, 0)
}

fn num(i: i32) -> Expression {
    val(BaseValueType::Int(i))
}

fn float(f: f32) -> Expression {
    val(BaseValueType::Float(f.to_bits()))
}

fn var(name: &str) -> Expression {
    val(BaseValueType::Id(VariableCall::Name(name.to_string())))
}

fn red() -> Expression {
    val(BaseValueType::Color(233, 35, 49))
}

fn blue() -> Expression {
    val(BaseValueType::Color(46, 115, 230))
}

fn simple_int(i: i32) -> SimpleExpression {
    SimpleExpression { expr: SimpleExpressionType::Value(SimpleValue { val: SimpleValueType::Int(i), coords: at(0) }), coords: at(0) }
}

fn elem(name: &str, i: i32) -> Expression {
    val(BaseValueType::Id(VariableCall::ArrayCall(name.to_string(), vec![simple_int(i)])))
}

fn call(name: &str, args: Vec<Expression>, ret: BaseType) -> Expression {
    val(BaseValueType::FunctionCall(name.to_string(), args, Type::typ(ret)))
}

fn bin(op: Operator, l: Expression, r: Expression) -> Expression {
    Expression { expr_type: ExpressionType::Binary(op, Box::new(l), Box::new(r)), coords: at(0) }
}

fn neg(e: Expression) -> Expression {
    Expression { expr_type: ExpressionType::Unary(UnaryOperator::UnaryMinus, Box::new(e)), coords: at(0) }
}

fn node_at(statement: AstStatement, line: usize) -> AstNode {
    AstNode { statement, coords: at(line) }
}

fn node(statement: AstStatement) -> AstNode {
    node_at(statement, 1)
}

fn cmd(name: &str, args: Vec<Expression>) -> AstNode {
    node(AstStatement::Command { name: name.to_string(), args })
}

fn init(t: Type, name: &str, expr: Expression) -> AstNode {
    node(AstStatement::Init { typ: t, val: name.to_string(), expr })
}

fn set(target: VariableCall, expr: Expression) -> AstNode {
    node(AstStatement::SetVal { val: target, expr })
}

fn ret(expr: Expression) -> AstNode {
    node(AstStatement::Return { expr })
}

fn block(nodes: Vec<AstNode>) -> AstBlock {
    AstBlock { nodes, coords: at(2) }
}

fn if_else(clause: Expression, then: Vec<AstNode>, otherwise: Option<Vec<AstNode>>) -> AstNode {
    node(AstStatement::If { clause, block: block(then), else_block: otherwise.map(block) })
}

fn for_loop(v: &str, from: i32, to: i32, body: Vec<AstNode>) -> AstNode {
    node(AstStatement::For {
        val: v.to_string(),
        from: BaseValue { val: BaseValueType::Int(from), coords: at(3) },
        to: BaseValue { val: BaseValueType::Int(to), coords: at(3) },
        block: block(body),
    })
}

fn while_loop(clause: Expression, body: Vec<AstNode>) -> AstNode {
    node(AstStatement::While { clause, block: block(body) })
}

fn int_t() -> Type {
    Type::typ(BaseType::Int)
}

fn func(name: &str, args: Vec<(&str, Type)>, ret_t: Option<Type>, body: Vec<AstNode>, line: usize) -> AstFunction {
    AstFunction {
        name: name.to_string(),
        args: args.into_iter().map(|(n, t)| (n.to_string(), t)).collect(),
        return_type: ret_t,
        block: block(body),
        header: at(line),
    }
}

fn forest(funcs: Vec<AstFunction>) -> AstProgram {
    AstProgram::Forest((funcs, vec![]))
}

fn flat(nodes: Vec<AstNode>) -> AstProgram {
    AstProgram::Block(block(nodes))
}

fn check(p: AstProgram) -> Result<ReturnType, Error> {
    create_program(p).type_check()
}

/// Checks, then runs, a program; yields the emitted commands, or the error.
fn run(p: AstProgram) -> Result<Vec<String>, Error> {
    let mut program = create_program(p);
    program.type_check()?;
    let mut exec = Execution::new(program.lines, 42);
    exec.init_globals(FUEL)?;
    exec.execute(FUEL)?;
    Ok(exec.commands)
}

fn strings(v: &[&str]) -> Vec<String> {
    v.iter().map(|s| s.to_string()).collect()
}

fn circle(x: Expression) -> AstNode {
    cmd("circle", vec![x, num(1), num(1)])
}

// ------------------------------------------------------------- properties

#[test]
fn shapes_use_default_style_without_style_calls() {
    let p = forest(vec![
        func("dot", vec![("x", int_t())], None, vec![circle(var("x"))], 1),
        func(
            "main",
            vec![],
            None,
            vec![
                for_loop("i", 0, 1, vec![cmd("dot", vec![var("i")])]),
                cmd("line", vec![num(0), num(0), num(1), num(1)]),
                cmd("frame", vec![]),
            ],
            5,
        ),
    ]);
    let cmds = run(p).unwrap();
    assert_eq!(
        cmds,
        strings(&[
            "circle 0 1 1 fill=#ffffff stroke=#000000 width=1",
            "circle 1 1 1 fill=#ffffff stroke=#000000 width=1",
            "line 0 0 1 1 stroke=#000000 width=1",
            "frame",
            "end",
        ])
    );
}

#[test]
fn style_persists_across_loops_and_calls() {
    let p = forest(vec![
        func("paint", vec![], None, vec![cmd("setFigureColor", vec![red()]), cmd("setLineWidth", vec![num(4)])], 1),
        func(
            "main",
            vec![],
            None,
            vec![
                cmd("paint", vec![]),
                for_loop("i", 1, 2, vec![circle(var("i"))]),
                while_loop(val(BaseValueType::Bool(false)), vec![cmd("setFigureColor", vec![blue()])]),
                circle(num(3)),
            ],
            5,
        ),
    ]);
    let cmds = run(p).unwrap();
    assert_eq!(
        cmds,
        strings(&[
            "circle 1 1 1 fill=#e92331 stroke=#000000 width=4",
            "circle 2 1 1 fill=#e92331 stroke=#000000 width=4",
            "circle 3 1 1 fill=#e92331 stroke=#000000 width=4",
            "end",
        ])
    );
}

#[test]
fn block_locals_do_not_escape() {
    let inside_only = vec![if_else(bin(Operator::EQ, num(1), num(1)), vec![init(int_t(), "y", num(3))], None), circle(var("y"))];
    let err = check(flat(inside_only)).unwrap_err();
    assert_eq!(err.error_type, ErrorType::LogicError);
    let shadow_later = vec![
        for_loop("i", 0, 1, vec![init(int_t(), "k", var("i"))]),
        init(int_t(), "k", num(7)),
        circle(var("k")),
    ];
    assert_eq!(run(flat(shadow_later)).unwrap(), strings(&["circle 7 1 1 fill=#ffffff stroke=#000000 width=1", "end"]));
}

#[test]
fn outer_assignments_inside_loops_survive() {
    let p = flat(vec![
        init(int_t(), "n", num(0)),
        for_loop("i", 1, 4, vec![set(VariableCall::Name("n".to_string()), bin(Operator::Plus, var("n"), var("i")))]),
        circle(var("n")),
    ]);
    assert_eq!(run(p).unwrap(), strings(&["circle 10 1 1 fill=#ffffff stroke=#000000 width=1", "end"]));
}

#[test]
fn for_loop_direction_does_not_matter() {
    let up = run(flat(vec![for_loop("v", 2, 5, vec![circle(var("v"))])])).unwrap();
    let down = run(flat(vec![for_loop("v", 5, 2, vec![circle(var("v"))])])).unwrap();
    assert_eq!(up, down);
    assert_eq!(up.len(), 5);
    assert_eq!(up[0], "circle 2 1 1 fill=#ffffff stroke=#000000 width=1");
    assert_eq!(up[3], "circle 5 1 1 fill=#ffffff stroke=#000000 width=1");
}

#[test]
fn array_write_then_read() {
    let arr_t = Type { name: TypeName::Array(Box::new(Some(int_t())), 3), is_const: false };
    let lit = val(BaseValueType::Array(vec![
        BaseValue { val: BaseValueType::Int(1), coords: at(0) },
        BaseValue { val: BaseValueType::Int(2), coords: at(0) },
        BaseValue { val: BaseValueType::Int(3), coords: at(0) },
    ]));
    let p = flat(vec![
        init(arr_t, "a", lit),
        set(VariableCall::ArrayCall("a".to_string(), vec![simple_int(1)]), num(9)),
        cmd("circle", vec![elem("a", 0), elem("a", 1), elem("a", 2)]),
    ]);
    assert_eq!(run(p).unwrap(), strings(&["circle 1 9 3 fill=#ffffff stroke=#000000 width=1", "end"]));
}

#[test]
fn array_index_out_of_bounds_is_a_runtime_error() {
    let arr_t = Type { name: TypeName::Array(Box::new(Some(int_t())), 1), is_const: false };
    let lit = val(BaseValueType::Array(vec![BaseValue { val: BaseValueType::Int(1), coords: at(0) }]));
    let p = flat(vec![init(arr_t, "a", lit), circle(elem("a", 3))]);
    assert_eq!(run(p).unwrap_err().error_type, ErrorType::RuntimeError);
}

#[test]
fn type_checking_twice_agrees() {
    let make = || flat(vec![init(int_t(), "x", num(1)), node_at(AstStatement::Init { typ: int_t(), val: "x".to_string(), expr: num(2) }, 9)]);
    let a = check(make()).unwrap_err();
    let b = check(make()).unwrap_err();
    assert_eq!(a.error_type, ErrorType::LogicError);
    assert_eq!((a.error_type, a.start, a.finish), (b.error_type, b.start, b.finish));
    assert_eq!(a.start, (9, 1));
}

#[test]
fn missing_return_on_one_path_is_rejected() {
    let f = func(
        "pick",
        vec![("x", int_t())],
        Some(int_t()),
        vec![if_else(bin(Operator::GT, var("x"), num(0)), vec![ret(num(1))], None)],
        4,
    );
    let err = check(forest(vec![f, func("main", vec![], None, vec![], 8)])).unwrap_err();
    assert_eq!(err.error_type, ErrorType::LogicError);
    assert_eq!(err.start, (4, 1));
}

// -------------------------------------------------------------- functions

#[test]
fn functions_return_values() {
    let sq = func("sq", vec![("x", int_t())], Some(int_t()), vec![ret(bin(Operator::Mult, var("x"), var("x")))], 1);
    let main = func("main", vec![], None, vec![circle(call("sq", vec![num(7)], BaseType::Int))], 3);
    assert!(check(forest(vec![
        func("sq", vec![("x", int_t())], Some(int_t()), vec![ret(bin(Operator::Mult, var("x"), var("x")))], 1),
        func("main", vec![], None, vec![circle(call("sq", vec![num(7)], BaseType::Int))], 3),
    ]))
    .is_ok());
    assert_eq!(run(forest(vec![sq, main])).unwrap(), strings(&["circle 49 1 1 fill=#ffffff stroke=#000000 width=1", "end"]));
}

#[test]
fn both_branches_returning_make_a_full_return() {
    let f = func(
        "sign",
        vec![("x", int_t())],
        Some(int_t()),
        vec![if_else(bin(Operator::LT, var("x"), num(0)), vec![ret(neg(num(1)))], Some(vec![ret(num(1))]))],
        1,
    );
    let main = func("main", vec![], None, vec![circle(call("sign", vec![neg(num(5))], BaseType::Int))], 3);
    assert_eq!(run(forest(vec![f, main])).unwrap(), strings(&["circle -1 1 1 fill=#ffffff stroke=#000000 width=1", "end"]));
}

#[test]
fn globals_are_visible_in_functions() {
    let p = AstProgram::Forest((
        vec![func("main", vec![], None, vec![circle(var("g"))], 2)],
        vec![("g".to_string(), at(1), int_t(), bin(Operator::Plus, num(40), num(2)))],
    ));
    assert_eq!(run(p).unwrap(), strings(&["circle 42 1 1 fill=#ffffff stroke=#000000 width=1", "end"]));
}

#[test]
fn missing_main_is_a_runtime_error() {
    let err = run(forest(vec![func("helper", vec![], None, vec![], 1)])).unwrap_err();
    assert_eq!(err.error_type, ErrorType::RuntimeError);
}

#[test]
fn keyboard_and_mouse_handlers_get_the_event() {
    let p = forest(vec![
        func("main", vec![], None, vec![], 1),
        func("keyboard", vec![("key", int_t())], None, vec![circle(var("key"))], 2),
        func("mouse", vec![("x", int_t()), ("y", int_t())], None, vec![cmd("circle", vec![var("x"), var("y"), num(2)])], 3),
    ]);
    let mut program = create_program(p);
    assert!(program.type_check().is_ok());
    let mut exec = Execution::new(program.lines, 1);
    exec.execute_key(36, FUEL).unwrap();
    exec.execute_mouse(5, 6, FUEL).unwrap();
    assert_eq!(
        exec.commands,
        strings(&["circle 36 1 1 fill=#ffffff stroke=#000000 width=1", "circle 5 6 2 fill=#ffffff stroke=#000000 width=1"])
    );
}

#[test]
fn keyboard_handler_with_two_parameters_is_rejected() {
    let p = forest(vec![func("keyboard", vec![("a", int_t()), ("b", int_t())], None, vec![], 7)]);
    let err = check(p).unwrap_err();
    assert_eq!((err.error_type, err.start), (ErrorType::TypeError, (7, 1)));
}

// ----------------------------------------------------------------- errors

#[test]
fn division_by_zero_is_a_runtime_error() {
    let err = run(flat(vec![circle(bin(Operator::Div, num(1), num(0)))])).unwrap_err();
    assert_eq!(err.error_type, ErrorType::RuntimeError);
}

#[test]
fn integer_division_rounds_toward_zero() {
    let cmds = run(flat(vec![cmd(
        "circle",
        vec![bin(Operator::Div, neg(num(7)), num(2)), bin(Operator::Mod, neg(num(7)), num(2)), bin(Operator::Mod, num(7), neg(num(2)))],
    )]))
    .unwrap();
    assert_eq!(cmds[0], "circle -3 -1 1 fill=#ffffff stroke=#000000 width=1");
}

#[test]
fn overflow_is_a_runtime_error() {
    let err = run(flat(vec![circle(bin(Operator::Mult, num(i32::MAX), num(2)))])).unwrap_err();
    assert_eq!(err.error_type, ErrorType::RuntimeError);
}

#[test]
fn negative_width_and_sleep_are_runtime_errors() {
    assert_eq!(run(flat(vec![cmd("setLineWidth", vec![neg(num(1))])])).unwrap_err().error_type, ErrorType::RuntimeError);
    assert_eq!(run(flat(vec![cmd("sleep", vec![neg(num(5))])])).unwrap_err().error_type, ErrorType::RuntimeError);
}

#[test]
fn unknown_command_is_a_logic_error() {
    let err = check(flat(vec![cmd("teleport", vec![])])).unwrap_err();
    assert_eq!(err.error_type, ErrorType::LogicError);
}

#[test]
fn wrong_argument_type_is_a_type_error() {
    let err = check(flat(vec![cmd("circle", vec![red(), num(1), num(1)])])).unwrap_err();
    assert_eq!(err.error_type, ErrorType::TypeError);
}

#[test]
fn wrong_arity_is_a_logic_error() {
    let err = check(flat(vec![cmd("circle", vec![num(1)])])).unwrap_err();
    assert_eq!(err.error_type, ErrorType::LogicError);
}

#[test]
fn redefinition_is_a_logic_error_at_its_line() {
    let p = flat(vec![init(int_t(), "x", num(1)), node_at(AstStatement::Init { typ: int_t(), val: "x".to_string(), expr: num(2) }, 6)]);
    let err = check(p).unwrap_err();
    assert_eq!((err.error_type, err.start, err.finish), (ErrorType::LogicError, (6, 1), (6, 20)));
}

#[test]
fn const_reassignment_is_a_logic_error() {
    let const_int = Type { name: TypeName::Primitive(BaseType::Int), is_const: true };
    let err = check(flat(vec![init(const_int, "c", num(1)), set(VariableCall::Name("c".to_string()), num(2))])).unwrap_err();
    assert_eq!(err.error_type, ErrorType::LogicError);
}

#[test]
fn keyword_as_variable_is_a_type_error() {
    let err = check(flat(vec![init(int_t(), "circle", num(1))])).unwrap_err();
    assert_eq!(err.error_type, ErrorType::TypeError);
}

#[test]
fn non_bool_condition_is_a_logic_error() {
    let err = check(flat(vec![if_else(num(1), vec![], None)])).unwrap_err();
    assert_eq!(err.error_type, ErrorType::LogicError);
}

#[test]
fn mismatched_operands_are_a_type_error() {
    let err = check(flat(vec![circle(bin(Operator::Plus, num(1), red()))])).unwrap_err();
    assert_eq!(err.error_type, ErrorType::TypeError);
}

#[test]
fn endless_loop_runs_out_of_fuel() {
    let p = flat(vec![while_loop(val(BaseValueType::Bool(true)), vec![circle(num(1))])]);
    let err = run(p).unwrap_err();
    assert_eq!(err.error_type, ErrorType::RuntimeError);
}

#[test]
fn error_constructors_keep_kind_and_span() {
    let e = Error::parse("bad".to_string(), (1, 2, 3, 4));
    assert_eq!((e.error_type, e.start, e.finish, e.message.as_str()), (ErrorType::ParseError, (1, 2), (3, 4), "bad"));
    assert_eq!(Error::typeEr(String::new(), (0, 0, 0, 0)).error_type, ErrorType::TypeError);
    assert_eq!(Error::logic(String::new(), (0, 0, 0, 0)).error_type, ErrorType::LogicError);
    assert_eq!(Error::runtime(String::new(), (0, 0, 0, 0)).error_type, ErrorType::RuntimeError);
}

// ------------------------------------------------------------ edge cases

#[test]
fn empty_program_emits_only_end() {
    assert_eq!(run(flat(vec![])).unwrap(), strings(&["end"]));
}

#[test]
fn sleep_and_frame_split_blocks() {
    let cmds = run(flat(vec![circle(num(1)), cmd("sleep", vec![num(250)]), circle(num(2)), cmd("frame", vec![]), cmd("clear", vec![])])).unwrap();
    let blocks = group_commands(&cmds);
    assert_eq!(blocks.len(), 3);
    assert_eq!(blocks[0].sleep_for, 250);
    assert_eq!(blocks[0].get_commands(), strings(&["circle 1 1 1 fill=#ffffff stroke=#000000 width=1"]));
    assert_eq!(blocks[1].get_status(), 0);
    assert_eq!(blocks[2].get_commands(), strings(&["clear"]));
    assert_eq!((blocks[2].get_status(), blocks[2].sleep_for), (2, -1));
}

#[test]
fn random_colors_follow_the_seed() {
    let prog = || flat(vec![cmd("setFigureColor", vec![val(BaseValueType::RandomColor)]), circle(num(1))]);
    let a = run(prog()).unwrap();
    let b = run(prog()).unwrap();
    assert_eq!(a, b);
    assert!(a[0].starts_with("circle 1 1 1 fill=#"));
    assert_ne!(a[0], "circle 1 1 1 fill=#ffffff stroke=#000000 width=1");
}

#[test]
fn float_comparison_and_negation() {
    let p = flat(vec![
        init(Type::typ(BaseType::Float), "t", neg(float(4.5))),
        if_else(bin(Operator::LT, var("t"), float(0.0)), vec![circle(num(1))], Some(vec![circle(num(2))])),
        if_else(bin(Operator::EQ, float(-0.0), float(0.0)), vec![circle(num(3))], None),
        if_else(bin(Operator::EQ, float(f32::NAN), float(f32::NAN)), vec![circle(num(4))], None),
    ]);
    let cmds = run(p).unwrap();
    assert_eq!(
        cmds,
        strings(&["circle 1 1 1 fill=#ffffff stroke=#000000 width=1", "circle 3 1 1 fill=#ffffff stroke=#000000 width=1", "end"])
    );
}

#[test]
fn key_names_map_to_codes() {
    assert_eq!(key_to_number("a"), Some(0));
    assert_eq!(key_to_number("Z"), Some(25));
    assert_eq!(key_to_number("0"), Some(26));
    assert_eq!(key_to_number("9"), Some(35));
    assert_eq!(key_to_number(" "), Some(36));
    assert_eq!(key_to_number("Space"), Some(36));
    assert_eq!(key_to_number("Enter"), Some(37));
    assert_eq!(key_to_number("ArrowUp"), Some(38));
    assert_eq!(key_to_number("arrowright"), Some(41));
    assert_eq!(key_to_number("?"), None);
    assert_eq!(key_to_number(""), None);
}

#[test]
fn colors_render_as_lowercase_hex() {
    assert_eq!(color_to_str(&233, &35, &49), "#e92331");
    assert_eq!(color_to_str(&0, &0, &0), "#000000");
    assert_eq!(color_to_str(&255, &171, &5), "#ffab05");
}

#[test]
fn types_render_as_text() {
    assert_eq!(BaseType::Color.to_string(), "color");
    assert_eq!(int_t().to_string(), " int");
    let c = Type { name: TypeName::Primitive(BaseType::Bool), is_const: true };
    assert_eq!(c.to_string(), "const bool");
    let arr = Type { name: TypeName::Array(Box::new(Some(int_t())), 12), is_const: false };
    assert_eq!(arr.to_string(), " array< int,12>");
    assert_eq!(TypeName::Array(Box::new(None), 0).to_string(), "array<(),0>");
}

#[test]
fn assignability_of_arrays() {
    let arr = |n: usize| Type { name: TypeName::Array(Box::new(Some(int_t())), n), is_const: false };
    let empty = Type { name: TypeName::Array(Box::new(None), 2), is_const: false };
    assert!(arr(2).can_assign(&arr(2)));
    assert!(!arr(2).can_assign(&arr(3)));
    assert!(arr(2).can_assign(&empty));
    assert!(empty.can_assign(&arr(2)));
    assert!(!empty.can_assign(&arr(3)));
    assert!(!arr(2).can_assign(&int_t()));
    assert!(int_t().can_assign(&Type::typ(BaseType::Color)));
}

#[test]
fn operator_classes_and_precedence() {
    assert!(is_arith(Operator::Mod));
    assert!(!is_arith(Operator::LQ));
    assert!(goes_before(Operator::Mult, Operator::Plus));
    assert!(!goes_before(Operator::Plus, Operator::Mult));
    assert!(goes_before(Operator::AND, Operator::OR));
}

#[test]
fn index_expressions_convert() {
    let s = SimpleExpression {
        expr: SimpleExpressionType::Unary(UnaryOperator::UnaryMinus, Box::new(simple_int(3))),
        coords: at(5),
    };
    let e = s.to_expr();
    assert_eq!(e.coords, at(5));
    match e.expr_type {
        ExpressionType::Unary(UnaryOperator::UnaryMinus, inner) => match inner.expr_type {
            ExpressionType::Value(BaseValue { val: BaseValueType::Int(3), .. }) => {},
            other => panic!("unexpected inner expression {:?}", other),
        },
        other => panic!("unexpected expression {:?}", other),
    }
}

#[test]
fn return_classification_exposes_its_type() {
    assert!(ReturnType::NoReturn.t().is_none());
    assert_eq!(ReturnType::Partial(int_t()).t().map(|t| t.to_string()), Some(" int".to_string()));
}

// ---------------------------------------------------------------- runtime

#[test]
fn runtime_reports_errors_to_the_host() {
    let message = compile_program(flat(vec![cmd("polygon", vec![num(1)])]), 0, FUEL);
    assert_eq!(message.error_code, 2);
    assert!(message.runtime.is_none());
    assert!(message.get_error_message().contains("polygon"));

    let message = compile_program(flat(vec![circle(bin(Operator::Div, num(1), num(0)))]), 0, FUEL);
    assert_eq!(message.error_code, 0);
    let mut runtime: Runtime = message.runtime.unwrap();
    runtime.execute();
    assert_eq!(runtime.get_runtime_error().error_code, 4);
    let blocks = runtime.get_commands();
    assert_eq!(blocks.len(), 1);
    assert_eq!(blocks[0].status, CommandStatus::Error);
}

#[test]
fn runtime_hands_over_commands_once() {
    let mut runtime = compile_program(flat(vec![circle(num(8))]), 0, FUEL).runtime.unwrap();
    runtime.execute();
    let blocks = runtime.get_commands();
    assert_eq!(blocks.len(), 1);
    assert_eq!(blocks[0].get_commands(), strings(&["circle 8 1 1 fill=#ffffff stroke=#000000 width=1"]));
    assert_eq!(blocks[0].status, CommandStatus::End);
    assert_eq!(runtime.get_commands().len(), 1);
    assert!(runtime.get_commands()[0].get_commands().is_empty());
    assert_eq!(RuntimeError::zero().error_code, 0);
}

fn sbin(op: Operator, l: SimpleExpression, r: SimpleExpression) -> SimpleExpression {
    SimpleExpression { expr: SimpleExpressionType::Binary(op, Box::new(l), Box::new(r)), coords: at(0) }
}

fn shape(e: &SimpleExpression) -> String {
    match &e.expr {
        SimpleExpressionType::Value(SimpleValue { val: SimpleValueType::Int(i), .. }) => i.to_string(),
        SimpleExpressionType::Value(_) => "v".to_string(),
        SimpleExpressionType::Unary(_, i) => format!("({})", shape(i)),
        SimpleExpressionType::Binary(op, l, r) => format!("[{} {:?} {}]", shape(l), op, shape(r)),
    }
}

#[test]
fn builder_fixes_precedence_of_index_expressions() {
    let builder = AstBuilder::new();
    assert!(builder.function_signatures.is_empty());
    // read as 2 * (3 + 4): the multiplication must bind tighter
    let (fixed, redo) = builder.improve_simple_expr(sbin(Operator::Mult, simple_int(2), sbin(Operator::Plus, simple_int(3), simple_int(4))));
    assert!(!redo);
    assert_eq!(shape(&fixed), "[[2 Mult 3] Plus 4]");
    // 2 + 3 * 4 is already right
    let (kept, _) = builder.improve_simple_expr(sbin(Operator::Plus, simple_int(2), sbin(Operator::Mult, simple_int(3), simple_int(4))));
    assert_eq!(shape(&kept), "[2 Plus [3 Mult 4]]");
    // 1 * 2 - 3 * 4 + 5
    let chain = sbin(
        Operator::Mult,
        simple_int(1),
        sbin(Operator::Minus, simple_int(2), sbin(Operator::Mult, simple_int(3), sbin(Operator::Plus, simple_int(4), simple_int(5)))),
    );
    let (fixed, _) = builder.improve_simple_expr(chain);
    assert_eq!(shape(&fixed), "[[1 Mult 2] Minus [[3 Mult 4] Plus 5]]");
}

fn eshape(e: &Expression) -> String {
    match &e.expr_type {
        ExpressionType::Value(BaseValue { val: BaseValueType::Int(i), .. }) => i.to_string(),
        ExpressionType::Value(_) => "v".to_string(),
        ExpressionType::Unary(_, i) => format!("({})", eshape(i)),
        ExpressionType::Binary(op, l, r) => format!("[{} {:?} {}]", eshape(l), op, eshape(r)),
    }
}

#[test]
fn builder_fixes_precedence_inside_parentheses() {
    let builder = AstBuilder::new();
    let paren = |e: Expression| Expression { expr_type: ExpressionType::Unary(UnaryOperator::Parentheses, Box::new(e)), coords: at(0) };
    // (2 * (3 + 4 read to the right)) - 1, read as (2 * [3 + 4]) - 1
    let e = bin(Operator::Minus, paren(bin(Operator::Mult, num(2), bin(Operator::Plus, num(3), num(4)))), num(1));
    let (fixed, redo) = builder.improve_expr(e);
    assert!(!redo);
    assert_eq!(eshape(&fixed), "[([[2 Mult 3] Plus 4]) Minus 1]");
}

#[test]
fn errors_describe_kind_message_and_span() {
    let e = Error::logic("Variable x is re-defined!".to_string(), (3, 5, 3, 17));
    assert_eq!(e.describe(), "Got logical error: Variable x is re-defined! at 3:5 - 3:17");
    let r = Error::runtime("Division by zero".to_string(), (10, 2, 11, 0));
    assert_eq!(r.describe(), "Got runtime error: Division by zero at 10:2 - 11:0");
}

#[test]
fn polygon_needs_an_even_count_of_integers() {
    let odd = check(flat(vec![cmd("polygon", vec![num(1), num(2), num(3), num(4), num(5), num(6), num(7)])])).unwrap_err();
    assert_eq!(odd.error_type, ErrorType::LogicError);
    let colored = check(flat(vec![cmd("polygon", vec![num(1), num(2), num(3), num(4), num(5), red()])])).unwrap_err();
    assert_eq!(colored.error_type, ErrorType::TypeError);
}

#[test]
fn a_return_only_inside_a_loop_is_not_a_full_return() {
    let w = func("w", vec![], Some(int_t()), vec![while_loop(val(BaseValueType::Bool(false)), vec![ret(num(1))])], 4);
    let err = check(forest(vec![w, func("main", vec![], None, vec![], 8)])).unwrap_err();
    assert_eq!((err.error_type, err.start), (ErrorType::LogicError, (4, 1)));
    let f = func("f", vec![], Some(int_t()), vec![for_loop("i", 0, 3, vec![ret(var("i"))])], 5);
    let err = check(forest(vec![f, func("main", vec![], None, vec![], 8)])).unwrap_err();
    assert_eq!((err.error_type, err.start), (ErrorType::LogicError, (5, 1)));
    let ok = func("g", vec![], Some(int_t()), vec![for_loop("i", 0, 3, vec![ret(var("i"))]), ret(num(0))], 6);
    assert!(check(forest(vec![ok, func("main", vec![], None, vec![], 8)])).is_ok());
    let classified = check(flat(vec![while_loop(val(BaseValueType::Bool(false)), vec![ret(num(1))])])).unwrap();
    assert!(matches!(classified, ReturnType::Partial(_)));
}

#[test]
fn checking_one_program_twice_agrees() {
    let p = AstProgram::Forest((
        vec![func("main", vec![], None, vec![circle(var("g"))], 2)],
        vec![("g".to_string(), at(1), int_t(), num(3))],
    ));
    let mut program = create_program(p);
    assert!(program.type_check().is_ok());
    assert!(program.type_check().is_ok());
    assert!(program.global_vars.is_empty());
    let mut bad = create_program(flat(vec![cmd("polygon", vec![num(0), num(0), num(10), num(0)])]));
    let a = bad.type_check().unwrap_err();
    let b = bad.type_check().unwrap_err();
    assert_eq!((a.error_type, a.start, a.finish, a.message.clone()), (b.error_type, b.start, b.finish, b.message));
    assert_eq!(a.message, "Wrong number of arguments for command polygon: got 4, expected at least 6 (even number) for polygon");
}

#[test]
fn unknown_function_or_arity_in_an_expression_is_a_logic_error() {
    let err = check(flat(vec![circle(call("nowhere", vec![], BaseType::Int))])).unwrap_err();
    assert_eq!(err.error_type, ErrorType::LogicError);
    let sq = func("sq", vec![("x", int_t())], Some(int_t()), vec![ret(var("x"))], 1);
    let main = func("main", vec![], None, vec![circle(call("sq", vec![], BaseType::Int))], 3);
    assert_eq!(check(forest(vec![sq, main])).unwrap_err().error_type, ErrorType::LogicError);
    let arr_t = Type { name: TypeName::Array(Box::new(Some(int_t())), 2), is_const: false };
    let first = func("first", vec![("a", arr_t)], Some(int_t()), vec![ret(num(0))], 1);
    let main = func("main", vec![], None, vec![circle(call("first", vec![num(5)], BaseType::Int))], 3);
    assert_eq!(check(forest(vec![first, main])).unwrap_err().error_type, ErrorType::TypeError);
}
