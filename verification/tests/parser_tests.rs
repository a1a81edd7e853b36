use minicomp::ast::{BinaryOpKind, Expr, UnaryOpKind};
use minicomp::parser::{parse_expr, ParseError, ParseErrorKind};

#[test]
fn parse_simple_expr() {
    assert_eq!(
        parse_expr("(+ 1 2)"),
        Ok(Expr::BinaryOperation {
            kind: BinaryOpKind::Add,
            left_operand: Box::new(Expr::Integer(1)),
            right_operand: Box::new(Expr::Integer(2))
        })
    );

    assert_eq!(parse_expr("1"), Ok(Expr::Integer(1)));

    assert_eq!(
        parse_expr("-3"),
        Ok(Expr::UnaryOperation {
            kind: UnaryOpKind::Minus,
            operand: Box::new(Expr::Integer(3))
        })
    );

    assert_eq!(
        parse_expr("(( (+ 1 (3) )))"),
        Ok(Expr::BinaryOperation {
            kind: BinaryOpKind::Add,
            left_operand: Box::new(Expr::Integer(1)),
            right_operand: Box::new(Expr::Integer(3))
        })
    );

    assert_eq!(
        parse_expr("(+ 10 (- (+ 5 3)))"),
        Ok(Expr::BinaryOperation {
            kind: BinaryOpKind::Add,
            left_operand: Box::new(Expr::Integer(10)),
            right_operand: Box::new(Expr::UnaryOperation {
                kind: UnaryOpKind::Minus,
                operand: Box::new(Expr::BinaryOperation {
                    kind: BinaryOpKind::Add,
                    left_operand: Box::new(Expr::Integer(5)),
                    right_operand: Box::new(Expr::Integer(3))
                })
            })
        })
    );

    assert_eq!(
        parse_expr("- (- read) (+ 3 (- 5))"),
        Ok(Expr::BinaryOperation {
            kind: BinaryOpKind::Sub,
            left_operand: Box::new(Expr::UnaryOperation {
                kind: UnaryOpKind::Minus,
                operand: Box::new(Expr::Read)
            }),
            right_operand: Box::new(Expr::BinaryOperation {
                kind: BinaryOpKind::Add,
                left_operand: Box::new(Expr::Integer(3)),
                right_operand: Box::new(Expr::UnaryOperation {
                    kind: UnaryOpKind::Minus,
                    operand: Box::new(Expr::Integer(5))
                })
            })
        })
    );
}

#[test]
fn parse_variable() {
    assert_eq!(
        parse_expr("(let ([x 1]) x)"),
        Ok(Expr::Let {
            variable_name: "x".to_string(),
            init_expr: Box::new(Expr::Integer(1)),
            body: Box::new(Expr::Identifier("x".to_string()))
        })
    );

    assert_eq!(
        parse_expr("(let ([x1 1]) x)"),
        Ok(Expr::Let {
            variable_name: "x1".to_string(),
            init_expr: Box::new(Expr::Integer(1)),
            body: Box::new(Expr::Identifier("x".to_string()))
        })
    );

    assert_eq!(
        parse_expr("(((let ([a1b (+ 12 20)]) (+ 10 x))))"),
        Ok(Expr::Let {
            variable_name: "a1b".to_string(),
            init_expr: Box::new(Expr::BinaryOperation {
                kind: BinaryOpKind::Add,
                left_operand: Box::new(Expr::Integer(12)),
                right_operand: Box::new(Expr::Integer(20))
            }),
            body: Box::new(Expr::BinaryOperation {
                kind: BinaryOpKind::Add,
                left_operand: Box::new(Expr::Integer(10)),
                right_operand: Box::new(Expr::Identifier("x".to_string()))
            })
        })
    );

    assert_eq!(
        parse_expr("(let ([x (32)]) (+ (let ([x 10]) x) (x)))"),
        Ok(Expr::Let {
            variable_name: "x".to_string(),
            init_expr: Box::new(Expr::Integer(32)),
            body: Box::new(Expr::BinaryOperation {
                kind: BinaryOpKind::Add,
                left_operand: Box::new(Expr::Let {
                    variable_name: "x".to_string(),
                    init_expr: Box::new(Expr::Integer(10)),
                    body: Box::new(Expr::Identifier("x".to_string()))
                }),
                right_operand: Box::new(Expr::Identifier("x".to_string()))
            })
        })
    );

    assert_eq!(
        parse_expr("(let ([x (read)]) (let ([y (read)]) (+ x (- y))))"),
        Ok(Expr::Let {
            variable_name: "x".to_string(),
            init_expr: Box::new(Expr::Read),
            body: Box::new(Expr::Let {
                variable_name: "y".to_string(),
                init_expr: Box::new(Expr::Read),
                body: Box::new(Expr::BinaryOperation {
                    kind: BinaryOpKind::Add,
                    left_operand: Box::new(Expr::Identifier("x".to_string())),
                    right_operand: Box::new(Expr::UnaryOperation {
                        kind: UnaryOpKind::Minus,
                        operand: Box::new(Expr::Identifier("y".to_string()))
                    })
                })
            })
        })
    );
}

#[test]
fn parse_error() {
    assert!(matches!(
        parse_expr("18446744073709551616"),
        Err(ParseError {
            kind: ParseErrorKind::ParseIntegerError(_),
            location: _
        })
    ));

    assert_eq!(
        parse_expr(" + 3"),
        Err(ParseError {
            kind: ParseErrorKind::InvalidOperandCount(1),
            location: 1
        })
    );

    assert_eq!(
        parse_expr(" + 3 3 1"),
        Err(ParseError {
            kind: ParseErrorKind::InvalidOperandCount(3),
            location: 1
        })
    );

    assert_eq!(
        parse_expr("- 3 3 1"),
        Err(ParseError {
            kind: ParseErrorKind::InvalidOperandCount(3),
            location: 0
        })
    );

    assert_eq!(
        parse_expr(" * 3 3 1"),
        Err(ParseError {
            kind: ParseErrorKind::UnexpectedToken("*".to_string()),
            location: 1
        })
    );

    assert_eq!(
        parse_expr(" (+ 2 3"),
        Err(ParseError {
            kind: ParseErrorKind::MismatchedOpenParen,
            location: 1
        })
    );

    assert_eq!(
        parse_expr("3 3"),
        Err(ParseError {
            kind: ParseErrorKind::UnexpectedToken("3".to_string()),
            location: 2
        })
    );

    assert_eq!(
        parse_expr("(3))"),
        Err(ParseError {
            kind: ParseErrorKind::UnexpectedToken(")".to_string()),
            location: 3
        })
    );

    assert_eq!(
        parse_expr("let [x 10] 10"),
        Err(ParseError {
            kind: ParseErrorKind::UnexpectedToken("[".to_string()),
            location: 4
        })
    );

    assert_eq!(
        parse_expr("let ([(x) 10]) 10"),
        Err(ParseError {
            kind: ParseErrorKind::UnexpectedToken("(".to_string()),
            location: 6
        })
    );

    assert_eq!(
        parse_expr("let ([x 1 2]) 10"),
        Err(ParseError {
            kind: ParseErrorKind::MismatchedOpenParen,
            location: 5
        })
    );
}

#[test]
fn parse_largest_integer() {
    assert_eq!(
        parse_expr("18446744073709551615"),
        Ok(Expr::Integer(u64::MAX))
    );
    assert_eq!(parse_expr("0"), Ok(Expr::Integer(0)));
}
