use minicomp::ast::{BinaryOpKind, Expr, UnaryOpKind};
use minicomp::interpreter::{interp_expr, InterpreterError, OverflowKind};
use minicomp::parser::parse_expr;
use minicomp::uniquify::uniquify_expr;

#[test]
fn interp_test() {
    assert_eq!(interp_expr(&Expr::Integer(255), vec![]), Ok(255));

    assert_eq!(
        interp_expr(
            &Expr::UnaryOperation {
                kind: UnaryOpKind::Minus,
                operand: Box::new(Expr::Integer(3))
            },
            vec![]
        ),
        Ok(-3)
    );

    assert_eq!(
        interp_expr(
            &Expr::UnaryOperation {
                kind: UnaryOpKind::Minus,
                operand: Box::new(Expr::UnaryOperation {
                    kind: UnaryOpKind::Minus,
                    operand: Box::new(Expr::Integer(5))
                })
            },
            vec![]
        ),
        Ok(5)
    );

    assert_eq!(
        interp_expr(
            &Expr::BinaryOperation {
                kind: BinaryOpKind::Add,
                left_operand: Box::new(Expr::Integer(1)),
                right_operand: Box::new(Expr::Integer(2))
            },
            vec![]
        ),
        Ok(3)
    );

    assert_eq!(
        interp_expr(
            &Expr::BinaryOperation {
                kind: BinaryOpKind::Add,
                left_operand: Box::new(Expr::Integer(10)),
                right_operand: Box::new(Expr::UnaryOperation {
                    kind: UnaryOpKind::Minus,
                    operand: Box::new(Expr::BinaryOperation {
                        kind: BinaryOpKind::Add,
                        left_operand: Box::new(Expr::Integer(5)),
                        right_operand: Box::new(Expr::Integer(3))
                    })
                })
            },
            vec![]
        ),
        Ok(2)
    );

    assert_eq!(
        interp_expr(
            &Expr::BinaryOperation {
                kind: BinaryOpKind::Sub,
                left_operand: Box::new(Expr::UnaryOperation {
                    kind: UnaryOpKind::Minus,
                    operand: Box::new(Expr::Integer(1))
                }),
                right_operand: Box::new(Expr::BinaryOperation {
                    kind: BinaryOpKind::Add,
                    left_operand: Box::new(Expr::Integer(3)),
                    right_operand: Box::new(Expr::UnaryOperation {
                        kind: UnaryOpKind::Minus,
                        operand: Box::new(Expr::Integer(5))
                    })
                })
            },
            vec![]
        ),
        Ok(1)
    );
}

#[test]
fn interp_variable() {
    assert_eq!(
        interp_expr(
            &Expr::Let {
                variable_name: "x".to_string(),
                init_expr: Box::new(Expr::Integer(1)),
                body: Box::new(Expr::Identifier("x".to_string()))
            },
            vec![]
        ),
        Ok(1)
    );

    assert_eq!(
        interp_expr(
            &Expr::Let {
                variable_name: "x".to_string(),
                init_expr: Box::new(Expr::Integer(32)),
                body: Box::new(Expr::BinaryOperation {
                    kind: BinaryOpKind::Add,
                    left_operand: Box::new(Expr::Let {
                        variable_name: "x".to_string(),
                        init_expr: Box::new(Expr::Integer(10)),
                        body: Box::new(Expr::Identifier("x".to_string()))
                    }),
                    right_operand: Box::new(Expr::Identifier("x".to_string()))
                })
            },
            vec![]
        ),
        Ok(42)
    );

    assert_eq!(
        interp_expr(
            &Expr::Let {
                variable_name: "x".to_string(),
                init_expr: Box::new(Expr::Integer(32)),
                body: Box::new(Expr::BinaryOperation {
                    kind: BinaryOpKind::Add,
                    left_operand: Box::new(Expr::Let {
                        variable_name: "x".to_string(),
                        init_expr: Box::new(Expr::Integer(10)),
                        body: Box::new(Expr::Identifier("x".to_string()))
                    }),
                    right_operand: Box::new(Expr::Identifier("x".to_string()))
                })
            },
            vec![]
        ),
        Ok(42)
    );
}

#[test]
fn interp_error() {
    assert!(matches!(
        interp_expr(&Expr::Integer(u64::MAX), vec![]),
        Err(InterpreterError::IntegerConversionError(_))
    ));

    assert_eq!(
        interp_expr(
            &Expr::UnaryOperation {
                kind: UnaryOpKind::Minus,
                operand: Box::new(Expr::BinaryOperation {
                    kind: BinaryOpKind::Sub,
                    left_operand: Box::new(Expr::UnaryOperation {
                        kind: UnaryOpKind::Minus,
                        operand: Box::new(Expr::Integer(i64::MAX as u64))
                    }),
                    right_operand: Box::new(Expr::Integer(1))
                })
            },
            vec![]
        ),
        Err(InterpreterError::ArithmeticOverflow(
            OverflowKind::NegOverflow(i64::MIN)
        ))
    );

    assert_eq!(
        interp_expr(
            &Expr::BinaryOperation {
                kind: BinaryOpKind::Sub,
                left_operand: Box::new(Expr::BinaryOperation {
                    kind: BinaryOpKind::Sub,
                    left_operand: Box::new(Expr::UnaryOperation {
                        kind: UnaryOpKind::Minus,
                        operand: Box::new(Expr::Integer(i64::MAX as u64))
                    }),
                    right_operand: Box::new(Expr::Integer(1))
                }),
                right_operand: Box::new(Expr::Integer(1))
            },
            vec![]
        ),
        Err(InterpreterError::ArithmeticOverflow(
            OverflowKind::SubOverflow(i64::MIN, 1)
        ))
    );

    assert_eq!(
        interp_expr(
            &Expr::BinaryOperation {
                kind: BinaryOpKind::Add,
                left_operand: Box::new(Expr::Integer(i64::MAX as u64)),
                right_operand: Box::new(Expr::Integer(1))
            },
            vec![]
        ),
        Err(InterpreterError::ArithmeticOverflow(
            OverflowKind::AddOverflow(i64::MAX, 1)
        ))
    );

    assert_eq!(
        interp_expr(
            &Expr::Let {
                variable_name: "x1".to_string(),
                init_expr: Box::new(Expr::Integer(1)),
                body: Box::new(Expr::Identifier("x".to_string()))
            },
            vec![]
        ),
        Err(InterpreterError::UnknownIdentifier("x".to_string()))
    );
}

#[test]
fn interp_read_inputs() {
    assert_eq!(interp_expr(&Expr::Read, vec![7]), Ok(7));
    assert_eq!(
        interp_expr(&Expr::Read, vec![]),
        Err(InterpreterError::InputExhausted)
    );
    // Inputs are consumed left to right: 10 - 4, not 4 - 10.
    assert_eq!(
        interp_expr(
            &Expr::BinaryOperation {
                kind: BinaryOpKind::Sub,
                left_operand: Box::new(Expr::Read),
                right_operand: Box::new(Expr::Read)
            },
            vec![10, 4]
        ),
        Ok(6)
    );
}

#[test]
fn renaming_preserves_observed_values() {
    // The inner reference binds to the inner initializer, the trailing one to
    // the outer: 3 + 2, before and after renaming.
    let expr = parse_expr("let ([x 2]) (+ (let ([x 3]) x) x)").unwrap();
    assert_eq!(interp_expr(&expr, vec![]), Ok(5));
    let renamed = uniquify_expr(expr).unwrap();
    assert_eq!(interp_expr(&renamed, vec![]), Ok(5));

    // Inputs are consumed in the same order before and after renaming.
    let with_reads = parse_expr("let ([x read]) (+ x read)").unwrap();
    assert_eq!(interp_expr(&with_reads, vec![5, 2]), Ok(7));
    let with_reads_renamed = uniquify_expr(with_reads).unwrap();
    assert_eq!(interp_expr(&with_reads_renamed, vec![5, 2]), Ok(7));
}
