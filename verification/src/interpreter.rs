//! A reference tree-walking evaluator for the surface language, used to
//! check expected values in tests. Input values for `read` are supplied up
//! front and consumed left to right; evaluation is checked 64-bit signed
//! arithmetic with explicit overflow errors.

use vstd::prelude::*;
use vstd::string::*;
use crate::ast::BinaryOpKind;
use crate::ast::Expr;
use crate::ast::ExprShape;
use crate::ast::UnaryOpKind;

verus! {

#[derive(Eq, PartialEq, Clone, Copy, Debug, Structural)]
pub enum OverflowKind {
    NegOverflow(i64),
    AddOverflow(i64, i64),
    SubOverflow(i64, i64),
}

#[derive(Eq, PartialEq, Clone, Debug)]
pub enum InterpreterError {
    /// The literal does not fit a signed 64-bit value.
    IntegerConversionError(u64),
    /// A `read` was evaluated after the supplied inputs ran out.
    InputExhausted,
    ArithmeticOverflow(OverflowKind),
    UnknownIdentifier(String),
}

pub enum ErrorShape {
    IntegerConversion(u64),
    InputExhausted,
    Overflow(OverflowKind),
    Unknown(Seq<char>),
}

impl View for InterpreterError {
    type V = ErrorShape;

    open spec fn view(&self) -> ErrorShape {
        match self {
            InterpreterError::IntegerConversionError(v) => ErrorShape::IntegerConversion(*v),
            InterpreterError::InputExhausted => ErrorShape::InputExhausted,
            InterpreterError::ArithmeticOverflow(kind) => ErrorShape::Overflow(*kind),
            InterpreterError::UnknownIdentifier(name) => ErrorShape::Unknown(name@),
        }
    }
}

/// Resolves a name against the value bindings, innermost binding last.
pub open spec fn lookup_value(stack: Seq<(Seq<char>, i64)>, name: Seq<char>) -> Option<i64>
    decreases stack.len(),
{
    if stack.len() == 0 {
        None
    } else if stack.last().0 == name {
        Some(stack.last().1)
    } else {
        lookup_value(stack.drop_last(), name)
    }
}

/// The meaning of an expression: its value (or the first error), and the
/// position of the next unread input. The initializer of a `let` is
/// evaluated in the enclosing scope; the body under the extended scope.
pub open spec fn eval_expr(
    e: ExprShape,
    stack: Seq<(Seq<char>, i64)>,
    inputs: Seq<i64>,
    pos: nat,
) -> (Result<i64, ErrorShape>, nat)
    decreases e,
{
    match e {
        ExprShape::Integer(v) => if v <= i64::MAX {
            (Ok(v as i64), pos)
        } else {
            (Err(ErrorShape::IntegerConversion(v)), pos)
        },
        ExprShape::Read => if pos < inputs.len() {
            (Ok(inputs[pos as int]), pos + 1)
        } else {
            (Err(ErrorShape::InputExhausted), pos)
        },
        ExprShape::Identifier(name) => match lookup_value(stack, name) {
            Some(v) => (Ok(v), pos),
            None => (Err(ErrorShape::Unknown(name)), pos),
        },
        ExprShape::UnaryOperation { kind, operand } => {
            let (r, p1) = eval_expr(*operand, stack, inputs, pos);
            match r {
                Ok(v) => match kind {
                    UnaryOpKind::Minus => if v == i64::MIN {
                        (Err(ErrorShape::Overflow(OverflowKind::NegOverflow(v))), p1)
                    } else {
                        (Ok((-v) as i64), p1)
                    },
                },
                Err(err) => (Err(err), p1),
            }
        },
        ExprShape::BinaryOperation { kind, left_operand, right_operand } => {
            let (rl, p1) = eval_expr(*left_operand, stack, inputs, pos);
            match rl {
                Ok(lhs) => {
                    let (rr, p2) = eval_expr(*right_operand, stack, inputs, p1);
                    match rr {
                        Ok(rhs) => match kind {
                            BinaryOpKind::Add => if i64::MIN <= lhs + rhs <= i64::MAX {
                                (Ok((lhs + rhs) as i64), p2)
                            } else {
                                (
                                    Err(
                                        ErrorShape::Overflow(OverflowKind::AddOverflow(lhs, rhs)),
                                    ),
                                    p2,
                                )
                            },
                            BinaryOpKind::Sub => if i64::MIN <= lhs - rhs <= i64::MAX {
                                (Ok((lhs - rhs) as i64), p2)
                            } else {
                                (
                                    Err(
                                        ErrorShape::Overflow(OverflowKind::SubOverflow(lhs, rhs)),
                                    ),
                                    p2,
                                )
                            },
                        },
                        Err(err) => (Err(err), p2),
                    }
                },
                Err(err) => (Err(err), p1),
            }
        },
        ExprShape::Let { variable_name, init_expr, body } => {
            let (ri, p1) = eval_expr(*init_expr, stack, inputs, pos);
            match ri {
                Ok(v) => eval_expr(*body, stack.push((variable_name, v)), inputs, p1),
                Err(err) => (Err(err), p1),
            }
        },
    }
}

struct Interpreter {
    symbol_table: Vec<(String, i64)>,
    inputs: Vec<i64>,
    next_input: usize,
}

impl Interpreter {
    fn new(inputs: Vec<i64>) -> (interp: Self)
        ensures
            interp.symbol_table.deep_view() == Seq::<(Seq<char>, i64)>::empty(),
            interp.inputs == inputs,
            interp.next_input == 0,
    {
        let interp = Self { symbol_table: Vec::new(), inputs, next_input: 0 };
        proof {
            assert(interp.symbol_table.deep_view() =~= Seq::<(Seq<char>, i64)>::empty());
        }
        interp
    }

    fn lookup(&self, name: &String) -> (found: Option<i64>)
        ensures
            match found {
                Some(v) => lookup_value(self.symbol_table.deep_view(), name@) == Some(v),
                None => lookup_value(self.symbol_table.deep_view(), name@) is None,
            },
    {
        let ghost full = self.symbol_table.deep_view();
        let mut i: usize = self.symbol_table.len();
        proof {
            assert(full.take(i as int) =~= full);
        }
        while i > 0
            invariant
                i <= self.symbol_table.len(),
                full == self.symbol_table.deep_view(),
                lookup_value(full, name@) == lookup_value(full.take(i as int), name@),
            decreases i,
        {
            let entry = &self.symbol_table[i - 1];
            proof {
                assert(full[i - 1] == (entry.0@, entry.1));
                assert(full.take(i as int).last() == full[i - 1]);
                assert(full.take(i as int).drop_last() =~= full.take(i - 1));
            }
            if entry.0.eq(name) {
                return Some(entry.1);
            }
            i = i - 1;
        }
        proof {
            assert(full.take(0) =~= Seq::<(Seq<char>, i64)>::empty());
        }
        None
    }

    fn evaluate_expr(&mut self, expr: &Expr) -> (result: Result<i64, InterpreterError>)
        ensures
            final(self).inputs == old(self).inputs,
            final(self).symbol_table.deep_view() == old(self).symbol_table.deep_view(),
            ({
                let (r, p) = eval_expr(
                    expr@,
                    old(self).symbol_table.deep_view(),
                    old(self).inputs@,
                    old(self).next_input as nat,
                );
                final(self).next_input == p && match result {
                    Ok(v) => r == Ok::<i64, ErrorShape>(v),
                    Err(err) => r == Err::<i64, ErrorShape>(err@),
                }
            }),
        decreases expr,
    {
        match expr {
            Expr::Integer(v) => {
                if *v <= 0x7fff_ffff_ffff_ffffu64 {
                    Ok(*v as i64)
                } else {
                    Err(InterpreterError::IntegerConversionError(*v))
                }
            },
            Expr::Read => {
                if self.next_input < self.inputs.len() {
                    let v = self.inputs[self.next_input];
                    self.next_input = self.next_input + 1;
                    Ok(v)
                } else {
                    Err(InterpreterError::InputExhausted)
                }
            },
            Expr::Identifier(name) => match self.lookup(name) {
                Some(v) => Ok(v),
                None => Err(InterpreterError::UnknownIdentifier(name.clone())),
            },
            Expr::UnaryOperation { kind, operand } => {
                let operand_value = match self.evaluate_expr(operand) {
                    Ok(v) => v,
                    Err(err) => {
                        return Err(err);
                    },
                };
                match kind {
                    UnaryOpKind::Minus => {
                        if operand_value == i64::MIN {
                            Err(
                                InterpreterError::ArithmeticOverflow(
                                    OverflowKind::NegOverflow(operand_value),
                                ),
                            )
                        } else {
                            Ok(-operand_value)
                        }
                    },
                }
            },
            Expr::BinaryOperation { kind, left_operand, right_operand } => {
                let lhs = match self.evaluate_expr(left_operand) {
                    Ok(v) => v,
                    Err(err) => {
                        return Err(err);
                    },
                };
                let rhs = match self.evaluate_expr(right_operand) {
                    Ok(v) => v,
                    Err(err) => {
                        return Err(err);
                    },
                };
                match kind {
                    BinaryOpKind::Add => {
                        let overflow: bool = if rhs > 0 {
                            lhs > i64::MAX - rhs
                        } else {
                            lhs < i64::MIN - rhs
                        };
                        if overflow {
                            Err(
                                InterpreterError::ArithmeticOverflow(
                                    OverflowKind::AddOverflow(lhs, rhs),
                                ),
                            )
                        } else {
                            Ok(lhs + rhs)
                        }
                    },
                    BinaryOpKind::Sub => {
                        let overflow: bool = if rhs < 0 {
                            lhs > i64::MAX + rhs
                        } else {
                            lhs < i64::MIN + rhs
                        };
                        if overflow {
                            Err(
                                InterpreterError::ArithmeticOverflow(
                                    OverflowKind::SubOverflow(lhs, rhs),
                                ),
                            )
                        } else {
                            Ok(lhs - rhs)
                        }
                    },
                }
            },
            Expr::Let { variable_name, init_expr, body } => {
                let init_value = match self.evaluate_expr(init_expr) {
                    Ok(v) => v,
                    Err(err) => {
                        return Err(err);
                    },
                };
                let ghost stack_before = self.symbol_table.deep_view();
                self.symbol_table.push((variable_name.clone(), init_value));
                proof {
                    assert(self.symbol_table.deep_view() =~= stack_before.push(
                        (variable_name@, init_value),
                    ));
                }
                let result = self.evaluate_expr(body);
                let ghost table_after_body = self.symbol_table@;
                let ghost dv_after = self.symbol_table.deep_view();
                self.symbol_table.pop();
                proof {
                    assert(self.symbol_table@ =~= table_after_body.drop_last());
                    assert forall|k: int|
                        0 <= k < self.symbol_table@.len() implies #[trigger] self
                        .symbol_table
                        .deep_view()[k] == stack_before[k] by {
                        assert(self.symbol_table@[k] == table_after_body[k]);
                        let table_now = self.symbol_table@;
                        assert(self.symbol_table.deep_view()[k] == table_now[k].deep_view());
                        assert(dv_after[k] == table_after_body[k].deep_view());
                    }
                    assert(self.symbol_table.deep_view() =~= stack_before);
                }
                result
            },
        }
    }
}

/// Evaluates an expression against the supplied input values, returning its
/// value or the first error encountered, left to right.
pub fn interp_expr(expr: &Expr, inputs: Vec<i64>) -> (result: Result<i64, InterpreterError>)
    ensures
        ({
            let (r, p) = eval_expr(expr@, Seq::empty(), inputs@, 0);
            match result {
                Ok(v) => r == Ok::<i64, ErrorShape>(v),
                Err(err) => r == Err::<i64, ErrorShape>(err@),
            }
        }),
{
    let mut interp = Interpreter::new(inputs);
    interp.evaluate_expr(expr)
}

} // verus!
