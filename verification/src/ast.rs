//! The surface expression language: integer literals, an input-read
//! primitive, identifiers, unary negation, addition, subtraction, and
//! lexically scoped `let` bindings.

use vstd::prelude::*;
use vstd::string::*;
use crate::numfmt::dec_chars;
use crate::numfmt::u64_to_dec;

verus! {

#[derive(Debug, Eq, PartialEq, Clone, Copy, Structural)]
pub enum UnaryOpKind {
    Minus,
}

#[derive(Debug, Eq, PartialEq, Clone, Copy, Structural)]
pub enum BinaryOpKind {
    Add,
    Sub,
}

/// A surface expression. Each node owns its children; `Let` introduces a
/// lexical scope in which `body` is resolved, while `init_expr` is resolved
/// in the enclosing scope.
#[derive(Debug, Eq, PartialEq)]
pub enum Expr {
    Integer(u64),
    Read,
    Identifier(String),
    UnaryOperation { kind: UnaryOpKind, operand: Box<Expr> },
    BinaryOperation { kind: BinaryOpKind, left_operand: Box<Expr>, right_operand: Box<Expr> },
    Let { variable_name: String, init_expr: Box<Expr>, body: Box<Expr> },
}

/// The mathematical shape of a surface expression: the same tree with
/// identifier names abstracted to character sequences.
pub enum ExprShape {
    Integer(u64),
    Read,
    Identifier(Seq<char>),
    UnaryOperation { kind: UnaryOpKind, operand: Box<ExprShape> },
    BinaryOperation { kind: BinaryOpKind, left_operand: Box<ExprShape>, right_operand: Box<ExprShape> },
    Let { variable_name: Seq<char>, init_expr: Box<ExprShape>, body: Box<ExprShape> },
}

impl View for Expr {
    type V = ExprShape;

    open spec fn view(&self) -> ExprShape
        decreases self,
    {
        match self {
            Expr::Integer(v) => ExprShape::Integer(*v),
            Expr::Read => ExprShape::Read,
            Expr::Identifier(name) => ExprShape::Identifier(name@),
            Expr::UnaryOperation { kind, operand } => ExprShape::UnaryOperation {
                kind: *kind,
                operand: Box::new((**operand).view()),
            },
            Expr::BinaryOperation { kind, left_operand, right_operand } => ExprShape::BinaryOperation {
                kind: *kind,
                left_operand: Box::new((**left_operand).view()),
                right_operand: Box::new((**right_operand).view()),
            },
            Expr::Let { variable_name, init_expr, body } => ExprShape::Let {
                variable_name: variable_name@,
                init_expr: Box::new((**init_expr).view()),
                body: Box::new((**body).view()),
            },
        }
    }
}

impl DeepView for Expr {
    type V = ExprShape;

    open spec fn deep_view(&self) -> ExprShape {
        self.view()
    }
}

pub open spec fn unary_op_code(kind: UnaryOpKind) -> Seq<char> {
    match kind {
        UnaryOpKind::Minus => "-"@,
    }
}

pub open spec fn binary_op_code(kind: BinaryOpKind) -> Seq<char> {
    match kind {
        BinaryOpKind::Add => "+"@,
        BinaryOpKind::Sub => "-"@,
    }
}

/// The parenthesized prefix rendering of an expression.
pub open spec fn expr_code(e: ExprShape) -> Seq<char>
    decreases e,
{
    match e {
        ExprShape::Integer(v) => dec_chars(v as nat),
        ExprShape::Read => "read"@,
        ExprShape::Identifier(name) => name,
        ExprShape::UnaryOperation { kind, operand } => "("@ + unary_op_code(kind) + " "@
            + expr_code(*operand) + ")"@,
        ExprShape::BinaryOperation { kind, left_operand, right_operand } => "("@
            + binary_op_code(kind) + " "@ + expr_code(*left_operand) + " "@
            + expr_code(*right_operand) + ")"@,
        ExprShape::Let { variable_name, init_expr, body } => "(let (["@ + variable_name + " "@
            + expr_code(*init_expr) + "]) "@ + expr_code(*body) + ")"@,
    }
}

impl Expr {
    /// Renders the expression in the language's parenthesized prefix form.
    pub fn to_code(&self) -> (s: String)
        ensures
            s@ == expr_code(self@),
        decreases self,
    {
        match self {
            Expr::Integer(v) => u64_to_dec(*v),
            Expr::Read => String::from_str("read"),
            Expr::Identifier(name) => name.clone(),
            Expr::UnaryOperation { kind, operand } => {
                let mut s = String::from_str("(");
                match kind {
                    UnaryOpKind::Minus => s.append("-"),
                }
                s.append(" ");
                let operand_code = operand.to_code();
                s.append(operand_code.as_str());
                s.append(")");
                proof {
                    assert(s@ =~= expr_code(self@));
                }
                s
            }
            Expr::BinaryOperation { kind, left_operand, right_operand } => {
                let mut s = String::from_str("(");
                match kind {
                    BinaryOpKind::Add => s.append("+"),
                    BinaryOpKind::Sub => s.append("-"),
                }
                s.append(" ");
                let left_code = left_operand.to_code();
                s.append(left_code.as_str());
                s.append(" ");
                let right_code = right_operand.to_code();
                s.append(right_code.as_str());
                s.append(")");
                proof {
                    assert(s@ =~= expr_code(self@));
                }
                s
            }
            Expr::Let { variable_name, init_expr, body } => {
                let mut s = String::from_str("(let ([");
                s.append(variable_name.as_str());
                s.append(" ");
                let init_code = init_expr.to_code();
                s.append(init_code.as_str());
                s.append("]) ");
                let body_code = body.to_code();
                s.append(body_code.as_str());
                s.append(")");
                proof {
                    assert(s@ =~= expr_code(self@));
                }
                s
            }
        }
    }
}

/// A whole surface program: a single expression to evaluate.
#[derive(Debug, Eq, PartialEq)]
pub struct Program {
    pub body: Expr,
}

} // verus!
