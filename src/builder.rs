//! The part of building a syntax tree that fixes operator precedence: the
//! grammar reads a chain of binary operators as nested to the right, and
//! the builder re-associates it so that tighter operators sit deeper.
use vstd::prelude::*;

use crate::ast::{
    goes_before, spec_prec, Expression, ExpressionType, Operator, SimpleExpression, SimpleExpressionType, SimpleValue,
    UnaryOperator,
};
use crate::types::Type;

verus! {

/// Builds syntax trees; knows the signatures of the functions seen so far.
#[derive(Debug)]
pub struct AstBuilder {
    pub function_signatures: Vec<(String, Vec<Type>, Option<Type>)>,
}

impl AstBuilder {
    pub fn new() -> (r: AstBuilder)
        ensures
            r.function_signatures@.len() == 0,
    {
        AstBuilder { function_signatures: Vec::new() }
    }
}

pub open spec fn sbin(op: Operator, l: SimpleExpression, r: SimpleExpression, coords: crate::ast::Coords) -> SimpleExpression {
    SimpleExpression { expr: SimpleExpressionType::Binary(op, Box::new(l), Box::new(r)), coords }
}

/// `op` applied to `left` and `right`, with each operator that binds tighter
/// than the operator at the head of its right operand rotated below it.
pub open spec fn spec_improve_parts(op: Operator, left: SimpleExpression, right: SimpleExpression, coords: crate::ast::Coords) -> SimpleExpression
    decreases right,
{
    match right.expr {
        SimpleExpressionType::Binary(r_op, r_left, r_right) => if spec_prec(op) < spec_prec(r_op) {
            spec_improve_parts(r_op, sbin(op, left, *r_left, right.coords), *r_right, coords)
        } else {
            sbin(op, left, spec_improve_parts(r_op, *r_left, *r_right, right.coords), coords)
        },
        _ => sbin(op, left, right, coords),
    }
}

/// An expression with its chain of binary operators re-associated by
/// precedence; operands in parentheses and unary expressions are left as
/// they are.
pub open spec fn spec_improve(e: SimpleExpression) -> SimpleExpression {
    match e.expr {
        SimpleExpressionType::Binary(op, left, right) => spec_improve_parts(op, *left, *right, e.coords),
        _ => e,
    }
}

/// A piece of an expression read left to right.
pub enum Token {
    Leaf(SimpleValue),
    Op(Operator),
    Open(UnaryOperator),
    Close,
}

/// The operands and operators of an expression, left to right.
pub open spec fn spec_tokens(e: SimpleExpression) -> Seq<Token>
    decreases e,
{
    match e.expr {
        SimpleExpressionType::Value(v) => seq![Token::Leaf(v)],
        SimpleExpressionType::Unary(op, i) => seq![Token::Open(op)] + spec_tokens(*i) + seq![Token::Close],
        SimpleExpressionType::Binary(op, l, r) => spec_tokens(*l) + seq![Token::Op(op)] + spec_tokens(*r),
    }
}

fn improve_parts(op: Operator, left: SimpleExpression, right: SimpleExpression, coords: crate::ast::Coords) -> (r: SimpleExpression)
    ensures
        r == spec_improve_parts(op, left, right, coords),
    decreases right,
{
    let right_coords = right.coords;
    match right.expr {
        SimpleExpressionType::Binary(r_op, r_left, r_right) => {
            if goes_before(op, r_op) {
                let inner = SimpleExpression { expr: SimpleExpressionType::Binary(op, Box::new(left), r_left), coords: right_coords };
                improve_parts(r_op, inner, *r_right, coords)
            } else {
                let new_right = improve_parts(r_op, *r_left, *r_right, right_coords);
                SimpleExpression { expr: SimpleExpressionType::Binary(op, Box::new(left), Box::new(new_right)), coords }
            }
        },
        other => {
            let right = SimpleExpression { expr: other, coords: right_coords };
            SimpleExpression { expr: SimpleExpressionType::Binary(op, Box::new(left), Box::new(right)), coords }
        },
    }
}

impl AstBuilder {
    /// Re-associates a chain of binary operators by precedence; the flag is
    /// always false.
    pub fn improve_simple_expr(&self, expr: SimpleExpression) -> (r: (SimpleExpression, bool))
        ensures
            r.0 == spec_improve(expr),
            !r.1,
    {
        let coords = expr.coords;
        match expr.expr {
            SimpleExpressionType::Binary(op, left, right) => (improve_parts(op, *left, *right, coords), false),
            other => (SimpleExpression { expr: other, coords }, false),
        }
    }
}

proof fn lemma_parts_keep_order(op: Operator, left: SimpleExpression, right: SimpleExpression, coords: crate::ast::Coords)
    ensures
        spec_tokens(spec_improve_parts(op, left, right, coords)) == spec_tokens(left) + seq![Token::Op(op)] + spec_tokens(right),
    decreases right,
{
    match right.expr {
        SimpleExpressionType::Binary(r_op, r_left, r_right) => if spec_prec(op) < spec_prec(r_op) {
            lemma_parts_keep_order(r_op, sbin(op, left, *r_left, right.coords), *r_right, coords);
            assert(spec_tokens(sbin(op, left, *r_left, right.coords)) + seq![Token::Op(r_op)] + spec_tokens(*r_right)
                =~= spec_tokens(left) + seq![Token::Op(op)] + spec_tokens(right));
        } else {
            lemma_parts_keep_order(r_op, *r_left, *r_right, right.coords);
        },
        _ => {},
    }
}

/// Fixing precedence only re-associates: the operands and operators, read
/// left to right, are the same before and after.
pub proof fn law_improve_keeps_order(e: SimpleExpression)
    ensures
        spec_tokens(spec_improve(e)) == spec_tokens(e),
{
    match e.expr {
        SimpleExpressionType::Binary(op, left, right) => lemma_parts_keep_order(op, *left, *right, e.coords),
        _ => {},
    }
}

pub open spec fn ebin(op: Operator, l: Expression, r: Expression, coords: crate::ast::Coords) -> Expression {
    Expression { expr_type: ExpressionType::Binary(op, Box::new(l), Box::new(r)), coords }
}

/// An expression re-associated by precedence throughout: inside unary
/// operators and parenthesised left operands too.
pub open spec fn spec_improve_expr(e: Expression) -> Expression
    decreases e, 0nat,
{
    match e.expr_type {
        ExpressionType::Value(_) => e,
        ExpressionType::Unary(op, inner) => Expression {
            expr_type: ExpressionType::Unary(op, Box::new(spec_improve_expr(*inner))),
            coords: e.coords,
        },
        ExpressionType::Binary(op, left, right) => spec_improve_expr_parts(op, spec_fix_left(*left), *right, e.coords),
    }
}

/// A left operand in parentheses is itself re-associated.
pub open spec fn spec_fix_left(l: Expression) -> Expression
    decreases l, 1nat,
{
    match l.expr_type {
        ExpressionType::Unary(UnaryOperator::Parentheses, _) => spec_improve_expr(l),
        _ => l,
    }
}

/// `op` applied to `left` and `right`, re-associated by precedence.
pub open spec fn spec_improve_expr_parts(op: Operator, left: Expression, right: Expression, coords: crate::ast::Coords) -> Expression
    decreases right, 0nat,
{
    match right.expr_type {
        ExpressionType::Binary(r_op, r_left, r_right) => if spec_prec(op) < spec_prec(r_op) {
            spec_improve_expr_parts(r_op, ebin(op, left, *r_left, right.coords), *r_right, coords)
        } else {
            ebin(op, left, spec_improve_expr_parts(r_op, spec_fix_left(*r_left), *r_right, right.coords), coords)
        },
        _ => ebin(op, left, right, coords),
    }
}

fn fix_left(b: &AstBuilder, l: Expression) -> (r: Expression)
    ensures
        r == spec_fix_left(l),
    decreases l, 1nat,
{
    if let ExpressionType::Unary(UnaryOperator::Parentheses, _) = &l.expr_type {
        let (r, _) = b.improve_expr(l);
        r
    } else {
        l
    }
}

fn improve_expr_parts(b: &AstBuilder, op: Operator, left: Expression, right: Expression, coords: crate::ast::Coords) -> (r: Expression)
    ensures
        r == spec_improve_expr_parts(op, left, right, coords),
    decreases right, 0nat,
{
    let right_coords = right.coords;
    match right.expr_type {
        ExpressionType::Binary(r_op, r_left, r_right) => {
            if goes_before(op, r_op) {
                let inner = Expression { expr_type: ExpressionType::Binary(op, Box::new(left), r_left), coords: right_coords };
                improve_expr_parts(b, r_op, inner, *r_right, coords)
            } else {
                let fixed = fix_left(b, *r_left);
                let new_right = improve_expr_parts(b, r_op, fixed, *r_right, right_coords);
                Expression { expr_type: ExpressionType::Binary(op, Box::new(left), Box::new(new_right)), coords }
            }
        },
        other => {
            let right = Expression { expr_type: other, coords: right_coords };
            Expression { expr_type: ExpressionType::Binary(op, Box::new(left), Box::new(right)), coords }
        },
    }
}

impl AstBuilder {
    /// Re-associates the chains of binary operators of an expression by
    /// precedence; the flag is always false.
    pub fn improve_expr(&self, expr: Expression) -> (r: (Expression, bool))
        ensures
            r.0 == spec_improve_expr(expr),
            !r.1,
        decreases expr, 0nat,
    {
        let coords = expr.coords;
        match expr.expr_type {
            ExpressionType::Value(v) => (Expression { expr_type: ExpressionType::Value(v), coords }, false),
            ExpressionType::Unary(op, inner) => {
                let (new_inner, _) = self.improve_expr(*inner);
                (Expression { expr_type: ExpressionType::Unary(op, Box::new(new_inner)), coords }, false)
            },
            ExpressionType::Binary(op, left, right) => {
                let fixed = fix_left(self, *left);
                (improve_expr_parts(self, op, fixed, *right, coords), false)
            },
        }
    }
}

} // verus!
