use vstd::prelude::*;

pub use crate::error::Coords;
use crate::types::Type;

verus! {

/// A reference to a variable: a bare name, or a name indexed one or more
/// times (`a[i][j]`).
#[derive(Debug)]
pub enum VariableCall {
    Name(String),
    ArrayCall(String, Vec<SimpleExpression>),
}

/// A leaf of an index expression.
#[derive(Debug)]
pub enum SimpleValueType {
    Id(VariableCall),
    Int(i32),
}

#[derive(Debug)]
pub struct SimpleValue {
    pub val: SimpleValueType,
    pub coords: Coords,
}

/// An index expression: integers and variables under unary and binary
/// operators.
#[derive(Debug)]
pub enum SimpleExpressionType {
    Value(SimpleValue),
    Unary(UnaryOperator, Box<SimpleExpression>),
    Binary(Operator, Box<SimpleExpression>, Box<SimpleExpression>),
}

#[derive(Debug)]
pub struct SimpleExpression {
    pub expr: SimpleExpressionType,
    pub coords: Coords,
}

/// A literal or leaf value. `Float` holds the bit pattern of an IEEE-754
/// single-precision number; `RandomColor` is resolved when it is used.
#[derive(Debug)]
pub enum BaseValueType {
    Id(VariableCall),
    Int(i32),
    Bool(bool),
    Color(u8, u8, u8),
    RandomColor,
    Float(u32),
    Array(Vec<BaseValue>),
    FunctionCall(String, Vec<Expression>, Type),
}

#[derive(Debug)]
pub struct BaseValue {
    pub val: BaseValueType,
    pub coords: Coords,
}

#[derive(Debug, Clone, Copy, PartialEq, Eq, Structural)]
pub enum UnaryOperator {
    UnaryMinus,
    NOT,
    Parentheses,
}

#[derive(Debug, Clone, Copy, PartialEq, Eq, Structural)]
pub enum Operator {
    EQ,
    NQ,
    GT,
    LT,
    GQ,
    LQ,
    AND,
    OR,
    Plus,
    Minus,
    Mult,
    Div,
    Mod,
}

pub open spec fn spec_is_arith(op: Operator) -> bool {
    op == Operator::Plus || op == Operator::Minus || op == Operator::Mult || op == Operator::Div
        || op == Operator::Mod
}

/// Whether an operator computes a number (rather than a truth value).
pub fn is_arith(op: Operator) -> (r: bool)
    ensures
        r == spec_is_arith(op),
{
    op == Operator::Plus || op == Operator::Minus || op == Operator::Mult || op == Operator::Div
        || op == Operator::Mod
}

/// Binding strength: a smaller number binds tighter.
pub open spec fn spec_prec(op: Operator) -> i32 {
    match op {
        Operator::OR => 10,
        Operator::AND => 9,
        Operator::Mult | Operator::Div | Operator::Mod => 4,
        Operator::Plus | Operator::Minus => 6,
        _ => 8,
    }
}

fn prec(op: Operator) -> (r: i32)
    ensures
        r == spec_prec(op),
{
    if op == Operator::OR {
        10
    } else if op == Operator::AND {
        9
    } else if op == Operator::Mult || op == Operator::Div || op == Operator::Mod {
        4
    } else if op == Operator::Plus || op == Operator::Minus {
        6
    } else {
        8
    }
}

/// Whether `op1` binds strictly tighter than `op2`.
pub fn goes_before(op1: Operator, op2: Operator) -> (r: bool)
    ensures
        r == (spec_prec(op1) < spec_prec(op2)),
{
    prec(op1) < prec(op2)
}

/// An expression of the language.
#[derive(Debug)]
pub enum ExpressionType {
    Value(BaseValue),
    Unary(UnaryOperator, Box<Expression>),
    Binary(Operator, Box<Expression>, Box<Expression>),
}

#[derive(Debug)]
pub struct Expression {
    pub expr_type: ExpressionType,
    pub coords: Coords,
}

/// An index expression read as a general expression.
pub open spec fn spec_to_expr(s: SimpleExpression) -> Expression
    decreases s,
{
    match s.expr {
        SimpleExpressionType::Value(value) => Expression {
            expr_type: ExpressionType::Value(
                match value.val {
                    SimpleValueType::Id(var) => BaseValue { val: BaseValueType::Id(var), coords: value.coords },
                    SimpleValueType::Int(i) => BaseValue { val: BaseValueType::Int(i), coords: value.coords },
                },
            ),
            coords: s.coords,
        },
        SimpleExpressionType::Unary(op, e) => Expression {
            expr_type: ExpressionType::Unary(op, Box::new(spec_to_expr(*e))),
            coords: s.coords,
        },
        SimpleExpressionType::Binary(op, l, r) => Expression {
            expr_type: ExpressionType::Binary(op, Box::new(spec_to_expr(*l)), Box::new(spec_to_expr(*r))),
            coords: s.coords,
        },
    }
}

impl SimpleExpression {
    pub fn to_expr(self) -> (r: Expression)
        ensures
            r == spec_to_expr(self),
        decreases self,
    {
        match self.expr {
            SimpleExpressionType::Value(value) => Expression {
                expr_type: ExpressionType::Value(
                    match value.val {
                        SimpleValueType::Id(var) => BaseValue { val: BaseValueType::Id(var), coords: value.coords },
                        SimpleValueType::Int(i) => BaseValue { val: BaseValueType::Int(i), coords: value.coords },
                    },
                ),
                coords: self.coords,
            },
            SimpleExpressionType::Unary(op, e) => Expression {
                expr_type: ExpressionType::Unary(op, Box::new((*e).to_expr())),
                coords: self.coords,
            },
            SimpleExpressionType::Binary(op, l, r) => Expression {
                expr_type: ExpressionType::Binary(op, Box::new((*l).to_expr()), Box::new((*r).to_expr())),
                coords: self.coords,
            },
        }
    }
}

/// A statement of the language.
#[derive(Debug)]
pub enum AstStatement {
    Command { name: String, args: Vec<Expression> },
    Init { typ: Type, val: String, expr: Expression },
    SetVal { val: VariableCall, expr: Expression },
    For { val: String, from: BaseValue, to: BaseValue, block: AstBlock },
    While { clause: Expression, block: AstBlock },
    If { clause: Expression, block: AstBlock, else_block: Option<AstBlock> },
    Return { expr: Expression },
}

#[derive(Debug)]
pub struct AstNode {
    pub statement: AstStatement,
    pub coords: Coords,
}

#[derive(Debug)]
pub struct AstBlock {
    pub nodes: Vec<AstNode>,
    pub coords: Coords,
}

/// A user function: typed parameters, an optional return type and a body.
#[derive(Debug)]
pub struct AstFunction {
    pub name: String,
    pub args: Vec<(String, Type)>,
    pub return_type: Option<Type>,
    pub block: AstBlock,
    pub header: Coords,
}

/// The functions of a program and its global variables, in declaration
/// order: name, span, declared type and initializer.
pub type FunctionsAndGlobals = (Vec<AstFunction>, Vec<(String, Coords, Type, Expression)>);

/// A whole program: one flat block, or functions with globals.
#[derive(Debug)]
pub enum AstProgram {
    Block(AstBlock),
    Forest(FunctionsAndGlobals),
}

} // verus!
