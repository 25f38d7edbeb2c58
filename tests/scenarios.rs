use quanta_lang::ast::{
    AstBlock, AstNode, AstProgram, AstStatement, BaseValue, BaseValueType, Coords, Expression, ExpressionType,
    Operator, UnaryOperator, VariableCall,
};
use quanta_lang::error::ErrorType;
use quanta_lang::execution::Execution;
use quanta_lang::message::group_commands;
use quanta_lang::program::create_program;
use quanta_lang::types::{BaseType, Type};

const FUEL: u64 = 10_000;

fn at(line: usize) -> Coords {
    (line, 1, line, 20)
}

fn val(v: BaseValueType) -> Expression {
    Expression { expr_type: ExpressionType::Value(BaseValue { val: v, coords: at(0) }), coords: at(0) }
}

fn num(i: i32) -> Expression {
    val(BaseValueType::Int(i))
}

fn boolean(b: bool) -> Expression {
    val(BaseValueType::Bool(b))
}

fn float(f: f32) -> Expression {
    val(BaseValueType::Float(f.to_bits()))
}

fn var(name: &str) -> Expression {
    val(BaseValueType::Id(VariableCall::Name(name.to_string())))
}

fn red() -> Expression {
    val(BaseValueType::Color(233, 35, 49))
}
fn green() -> Expression {
    val(BaseValueType::Color(126, 183, 134))
}
fn blue() -> Expression {
    val(BaseValueType::Color(46, 115, 230))
}
fn yellow() -> Expression {
    val(BaseValueType::Color(253, 226, 93))
}
fn pink() -> Expression {
    val(BaseValueType::Color(251, 154, 181))
}
fn cyan() -> Expression {
    val(BaseValueType::Color(59, 168, 231))
}
fn black() -> Expression {
    val(BaseValueType::Color(0, 0, 0))
}
fn white() -> Expression {
    val(BaseValueType::Color(255, 255, 255))
}

fn bin(op: Operator, l: Expression, r: Expression) -> Expression {
    Expression { expr_type: ExpressionType::Binary(op, Box::new(l), Box::new(r)), coords: at(0) }
}

fn paren(e: Expression) -> Expression {
    Expression { expr_type: ExpressionType::Unary(UnaryOperator::Parentheses, Box::new(e)), coords: at(0) }
}

fn not(e: Expression) -> Expression {
    Expression { expr_type: ExpressionType::Unary(UnaryOperator::NOT, Box::new(e)), coords: at(0) }
}

fn node(statement: AstStatement) -> AstNode {
    AstNode { statement, coords: at(1) }
}

fn cmd(name: &str, args: Vec<Expression>) -> AstNode {
    node(AstStatement::Command { name: name.to_string(), args })
}

fn init(t: BaseType, name: &str, expr: Expression) -> AstNode {
    node(AstStatement::Init { typ: Type::typ(t), val: name.to_string(), expr })
}

fn set(name: &str, expr: Expression) -> AstNode {
    node(AstStatement::SetVal { val: VariableCall::Name(name.to_string()), expr })
}

fn block(nodes: Vec<AstNode>) -> AstBlock {
    AstBlock { nodes, coords: at(2) }
}

fn if_else(clause: Expression, then: Vec<AstNode>, otherwise: Option<Vec<AstNode>>) -> AstNode {
    node(AstStatement::If { clause, block: block(then), else_block: otherwise.map(block) })
}

/// Checks and runs a flat program; returns its commands as the renderer
/// sees them, blocks flattened, with each pause written back as `sleep n`.
fn compile_ok(nodes: Vec<AstNode>) -> Vec<String> {
    let mut program = create_program(AstProgram::Block(block(nodes)));
    let checked = program.type_check();
    assert!(checked.is_ok(), "Unexpected compile error: {:?}", checked.err().map(|e| e.message));
    let mut exec = Execution::new(program.lines, 7);
    assert!(exec.init_globals(FUEL).is_ok());
    assert!(exec.execute(FUEL).is_ok());
    let blocks = group_commands(&exec.commands);
    blocks.iter().fold(vec![], |mut res, b| {
        let mut coms = b.get_commands();
        res.append(&mut coms);
        if b.sleep_for >= 0 {
            res.push(format!("sleep {}", b.sleep_for));
        }
        res
    })
}

fn strings(v: &[&str]) -> Vec<String> {
    v.iter().map(|s| s.to_string()).collect()
}

use Operator::{Div, Minus, Mod, Mult, Plus, AND, EQ, GQ, GT, LQ, LT, NQ, OR};

#[test]
fn circle_with_defaults() {
    let cmds = compile_ok(vec![cmd("circle", vec![num(320), num(240), num(100)])]);
    assert_eq!(cmds, strings(&["circle 320 240 100 fill=#ffffff stroke=#000000 width=1"]));
}

#[test]
fn rectangle_with_custom_styles() {
    let cmds = compile_ok(vec![
        cmd("setFigureColor", vec![red()]),
        cmd("setLineColor", vec![green()]),
        cmd("setLineWidth", vec![num(3)]),
        cmd("rectangle", vec![num(10), num(20), num(110), num(220)]),
    ]);
    assert_eq!(cmds, strings(&["rectangle 10 20 110 220 fill=#e92331 stroke=#7eb786 width=3"]));
}

#[test]
fn style_persists_until_changed() {
    let cmds = compile_ok(vec![
        cmd("setFigureColor", vec![blue()]),
        cmd("circle", vec![num(0), num(0), num(5)]),
        cmd("rectangle", vec![num(1), num(2), num(3), num(4)]),
    ]);
    assert_eq!(
        cmds,
        strings(&[
            "circle 0 0 5 fill=#2e73e6 stroke=#000000 width=1",
            "rectangle 1 2 3 4 fill=#2e73e6 stroke=#000000 width=1",
        ])
    );
}

#[test]
fn style_updates_affect_following_commands_only() {
    let cmds = compile_ok(vec![
        cmd("setFigureColor", vec![blue()]),
        cmd("circle", vec![num(1), num(2), num(3)]),
        cmd("setFigureColor", vec![yellow()]),
        cmd("rectangle", vec![num(4), num(5), num(6), num(7)]),
    ]);
    assert_eq!(
        cmds,
        strings(&[
            "circle 1 2 3 fill=#2e73e6 stroke=#000000 width=1",
            "rectangle 4 5 6 7 fill=#fde25d stroke=#000000 width=1",
        ])
    );
}

#[test]
fn line_command_is_geometry_only() {
    let cmds = compile_ok(vec![
        cmd("setLineColor", vec![green()]),
        cmd("setLineWidth", vec![num(7)]),
        cmd("line", vec![num(10), num(10), num(20), num(20)]),
    ]);
    assert_eq!(cmds, strings(&["line 10 10 20 20 stroke=#7eb786 width=7"]));
}

#[test]
fn polygon_and_arc_match_shape_style_behavior() {
    let cmds = compile_ok(vec![
        cmd("setFigureColor", vec![red()]),
        cmd("setLineColor", vec![blue()]),
        cmd("setLineWidth", vec![num(2)]),
        cmd("polygon", vec![num(0), num(0), num(10), num(0), num(10), num(10), num(0), num(10)]),
        cmd("arc", vec![num(50), num(60), num(40), num(0), num(180)]),
    ]);
    assert_eq!(
        cmds,
        strings(&[
            "polygon 0 0 10 0 10 10 0 10 fill=#e92331 stroke=#2e73e6 width=2",
            "arc 50 60 40 0 180 fill=#e92331 stroke=#2e73e6 width=2",
        ])
    );
}

#[test]
fn more_colors_map_correctly() {
    let cmds = compile_ok(vec![
        cmd("setFigureColor", vec![pink()]),
        cmd("setLineColor", vec![cyan()]),
        cmd("circle", vec![num(5), num(6), num(7)]),
        cmd("setFigureColor", vec![white()]),
        cmd("setLineColor", vec![black()]),
        cmd("rectangle", vec![num(1), num(2), num(3), num(4)]),
    ]);
    assert_eq!(
        cmds,
        strings(&[
            "circle 5 6 7 fill=#fb9ab5 stroke=#3ba8e7 width=1",
            "rectangle 1 2 3 4 fill=#ffffff stroke=#000000 width=1",
        ])
    );
}

#[test]
fn circle_with_arithmetic_expressions() {
    let cmds = compile_ok(vec![cmd(
        "circle",
        vec![bin(Plus, num(10), num(20)), bin(Minus, num(30), num(5)), bin(Mult, num(2), num(10))],
    )]);
    assert_eq!(cmds, strings(&["circle 30 25 20 fill=#ffffff stroke=#000000 width=1"]));
}

#[test]
fn rectangle_with_division_and_modulo() {
    let cmds = compile_ok(vec![
        cmd("setFigureColor", vec![cyan()]),
        cmd(
            "rectangle",
            vec![bin(Div, num(100), num(2)), bin(Mod, num(10), num(3)), bin(Mult, num(7), num(5)), bin(Div, num(80), num(4))],
        ),
    ]);
    assert_eq!(cmds, strings(&["rectangle 50 1 35 20 fill=#3ba8e7 stroke=#000000 width=1"]));
}

#[test]
fn mixed_operations_in_line_and_arc() {
    let cmds = compile_ok(vec![
        cmd("setLineColor", vec![pink()]),
        cmd(
            "line",
            vec![bin(Mult, num(5), num(2)), bin(Div, num(20), num(2)), bin(Minus, num(50), num(25)), bin(Plus, num(3), num(7))],
        ),
        cmd(
            "arc",
            vec![num(100), num(200), bin(Mult, num(10), num(2)), bin(Div, num(360), num(4)), bin(Mod, num(50), num(7))],
        ),
    ]);
    assert_eq!(
        cmds,
        strings(&["line 10 10 25 10 stroke=#fb9ab5 width=1", "arc 100 200 20 90 1 fill=#ffffff stroke=#fb9ab5 width=1"])
    );
}

#[test]
fn precedence_without_parentheses() {
    // 2+3*4, 20-6/2, 10%4+1
    let cmds = compile_ok(vec![cmd(
        "circle",
        vec![
            bin(Plus, num(2), bin(Mult, num(3), num(4))),
            bin(Minus, num(20), bin(Div, num(6), num(2))),
            bin(Plus, bin(Mod, num(10), num(4)), num(1)),
        ],
    )]);
    assert_eq!(cmds, strings(&["circle 14 17 3 fill=#ffffff stroke=#000000 width=1"]));
}

#[test]
fn precedence_with_parentheses() {
    // (2+3)*4, (20-6)/2, (10%4)+1, (8/2)*(3+1)
    let cmds = compile_ok(vec![cmd(
        "rectangle",
        vec![
            bin(Mult, paren(bin(Plus, num(2), num(3))), num(4)),
            bin(Div, paren(bin(Minus, num(20), num(6))), num(2)),
            bin(Plus, paren(bin(Mod, num(10), num(4))), num(1)),
            bin(Mult, paren(bin(Div, num(8), num(2))), paren(bin(Plus, num(3), num(1)))),
        ],
    )]);
    assert_eq!(cmds, strings(&["rectangle 20 7 3 16 fill=#ffffff stroke=#000000 width=1"]));
}

#[test]
fn polygon_with_mixed_precedence_and_parentheses() {
    // 1+2*3, (4+6)%5, 18/3-2, (2+2)*(3+1), 7, 8
    let cmds = compile_ok(vec![
        cmd("setFigureColor", vec![yellow()]),
        cmd(
            "polygon",
            vec![
                bin(Plus, num(1), bin(Mult, num(2), num(3))),
                bin(Mod, paren(bin(Plus, num(4), num(6))), num(5)),
                bin(Minus, bin(Div, num(18), num(3)), num(2)),
                bin(Mult, paren(bin(Plus, num(2), num(2))), paren(bin(Plus, num(3), num(1)))),
                num(7),
                num(8),
            ],
        ),
    ]);
    assert_eq!(cmds, strings(&["polygon 7 0 4 16 7 8 fill=#fde25d stroke=#000000 width=1"]));
}

#[test]
fn line_with_arithmetic_and_styles() {
    let cmds = compile_ok(vec![
        cmd("setLineColor", vec![pink()]),
        cmd("setLineWidth", vec![bin(Mult, num(2), num(3))]),
        cmd(
            "line",
            vec![bin(Mult, num(5), num(2)), bin(Div, num(20), num(2)), bin(Minus, num(50), num(25)), paren(bin(Plus, num(3), num(7)))],
        ),
    ]);
    assert_eq!(cmds, strings(&["line 10 10 25 10 stroke=#fb9ab5 width=6"]));
}

#[test]
fn arc_with_arithmetic_and_line_style() {
    let cmds = compile_ok(vec![
        cmd("setLineColor", vec![cyan()]),
        cmd("setLineWidth", vec![bin(Plus, num(4), num(1))]),
        cmd(
            "arc",
            vec![
                bin(Div, num(100), num(2)),
                bin(Minus, num(200), num(50)),
                bin(Mult, num(5), num(4)),
                bin(Div, num(360), num(4)),
                bin(Mod, num(50), num(7)),
            ],
        ),
    ]);
    assert_eq!(cmds, strings(&["arc 50 150 20 90 1 fill=#ffffff stroke=#3ba8e7 width=5"]));
}

#[test]
fn int_variable_in_circle() {
    let cmds = compile_ok(vec![
        init(BaseType::Int, "x", num(5)),
        cmd("circle", vec![var("x"), bin(Mult, var("x"), num(2)), bin(Plus, var("x"), num(10))]),
    ]);
    assert_eq!(cmds, strings(&["circle 5 10 15 fill=#ffffff stroke=#000000 width=1"]));
}

#[test]
fn color_variable_in_rectangle() {
    let cmds = compile_ok(vec![
        init(BaseType::Color, "b", red()),
        cmd("setFigureColor", vec![var("b")]),
        cmd("rectangle", vec![num(0), num(0), num(20), num(10)]),
    ]);
    assert_eq!(cmds, strings(&["rectangle 0 0 20 10 fill=#e92331 stroke=#000000 width=1"]));
}

#[test]
fn mixed_variables_in_polygon() {
    let cmds = compile_ok(vec![
        init(BaseType::Int, "x", num(2)),
        init(BaseType::Color, "c", blue()),
        cmd("setFigureColor", vec![var("c")]),
        cmd(
            "polygon",
            vec![var("x"), num(3), bin(Mult, var("x"), num(10)), bin(Mult, num(3), num(2)), num(3), num(4)],
        ),
    ]);
    assert_eq!(cmds, strings(&["polygon 2 3 20 6 3 4 fill=#2e73e6 stroke=#000000 width=1"]));
}

#[test]
fn polygon_requires_at_least_six_args() {
    let mut program = create_program(AstProgram::Block(block(vec![cmd(
        "polygon",
        vec![num(0), num(0), num(10), num(0)],
    )])));
    let err = program.type_check().err().expect("expected a compile error");
    assert_ne!(err.error_type, ErrorType::ParseError);
    assert!(err.message.to_lowercase().contains("polygon"));
    assert!(err.message.to_lowercase().contains("6"));
}

#[test]
fn if_true_branch_executes() {
    let cmds = compile_ok(vec![if_else(
        bin(GT, num(3), num(2)),
        vec![cmd("setFigureColor", vec![green()]), cmd("circle", vec![num(10), num(20), num(30)])],
        Some(vec![cmd("setFigureColor", vec![red()]), cmd("circle", vec![num(0), num(0), num(5)])]),
    )]);
    assert_eq!(cmds, strings(&["circle 10 20 30 fill=#7eb786 stroke=#000000 width=1"]));
}

#[test]
fn if_false_branch_executes_else() {
    let cmds = compile_ok(vec![if_else(
        bin(EQ, num(1), num(2)),
        vec![cmd("rectangle", vec![num(0), num(0), num(1), num(1)])],
        Some(vec![cmd("setFigureColor", vec![blue()]), cmd("rectangle", vec![num(10), num(10), num(20), num(20)])]),
    )]);
    assert_eq!(cmds, strings(&["rectangle 10 10 20 20 fill=#2e73e6 stroke=#000000 width=1"]));
}

#[test]
fn if_without_else_skips_when_false() {
    let cmds = compile_ok(vec![if_else(bin(LT, num(5), num(4)), vec![cmd("circle", vec![num(1), num(2), num(3)])], None)]);
    assert!(cmds.is_empty(), "Expected no commands when condition is false and no else-block");
}

#[test]
fn boolean_operator_precedence_and_parentheses() {
    // !false && (true || false)
    let cmds = compile_ok(vec![if_else(
        bin(AND, not(boolean(false)), paren(bin(OR, boolean(true), boolean(false)))),
        vec![
            cmd("setLineColor", vec![cyan()]),
            cmd("setLineWidth", vec![num(2)]),
            cmd("line", vec![num(0), num(0), bin(Mult, num(5), num(2)), bin(Plus, num(4), num(6))]),
        ],
        Some(vec![cmd("line", vec![num(0), num(0), num(1), num(1)])]),
    )]);
    assert_eq!(cmds, strings(&["line 0 0 10 10 stroke=#3ba8e7 width=2"]));
}

#[test]
fn comparisons_on_int_and_float_in_condition() {
    // ((x >= 5) && (t < 5.0)) && (x != 0)
    let cmds = compile_ok(vec![
        init(BaseType::Int, "x", num(5)),
        init(BaseType::Float, "t", float(4.5)),
        if_else(
            bin(
                AND,
                paren(bin(AND, paren(bin(GQ, var("x"), num(5))), paren(bin(LT, var("t"), float(5.0))))),
                paren(bin(NQ, var("x"), num(0))),
            ),
            vec![
                cmd("setFigureColor", vec![yellow()]),
                cmd("circle", vec![bin(Plus, var("x"), num(5)), var("x"), bin(Mult, var("x"), num(2))]),
            ],
            Some(vec![cmd("rectangle", vec![num(0), num(0), num(1), num(1)])]),
        ),
    ]);
    assert_eq!(cmds, strings(&["circle 10 5 10 fill=#fde25d stroke=#000000 width=1"]));
}

#[test]
fn mixed_and_or_with_comparisons() {
    // 2 > 3 || 4 == 4 && 1 <= 2
    let cmds = compile_ok(vec![if_else(
        bin(OR, bin(GT, num(2), num(3)), bin(AND, bin(EQ, num(4), num(4)), bin(LQ, num(1), num(2)))),
        vec![cmd("setFigureColor", vec![pink()]), cmd("circle", vec![num(1), num(1), num(1)])],
        Some(vec![cmd("setFigureColor", vec![red()]), cmd("circle", vec![num(2), num(2), num(2)])]),
    )]);
    assert_eq!(cmds, strings(&["circle 1 1 1 fill=#fb9ab5 stroke=#000000 width=1"]));
}

#[test]
fn style_set_inside_if_persists_after_block() {
    let cmds = compile_ok(vec![
        if_else(bin(EQ, num(1), num(1)), vec![cmd("setFigureColor", vec![red()])], None),
        cmd("rectangle", vec![num(0), num(0), num(10), num(10)]),
    ]);
    assert_eq!(cmds, strings(&["rectangle 0 0 10 10 fill=#e92331 stroke=#000000 width=1"]));
}

#[test]
fn scope_set_inside_if_persists_after_block() {
    let cmds = compile_ok(vec![
        init(BaseType::Int, "x", num(0)),
        if_else(bin(EQ, num(1), num(1)), vec![set("x", num(10)), cmd("setFigureColor", vec![red()])], None),
        cmd("rectangle", vec![num(0), num(0), var("x"), var("x")]),
    ]);
    assert_eq!(cmds, strings(&["rectangle 0 0 10 10 fill=#e92331 stroke=#000000 width=1"]));
}

#[test]
fn polygon_in_if_with_minimum_vertices_and_styles() {
    let cmds = compile_ok(vec![if_else(
        bin(EQ, paren(bin(Mult, num(3), num(3))), num(9)),
        vec![
            cmd("setFigureColor", vec![cyan()]),
            cmd("setLineColor", vec![black()]),
            cmd("setLineWidth", vec![num(3)]),
            cmd("polygon", vec![num(0), num(0), num(10), num(0), num(10), num(10)]),
        ],
        None,
    )]);
    assert_eq!(cmds, strings(&["polygon 0 0 10 0 10 10 fill=#3ba8e7 stroke=#000000 width=3"]));
}
