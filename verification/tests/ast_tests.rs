use minicomp::ast::{BinaryOpKind, Expr, UnaryOpKind};
use minicomp::numfmt::{i64_to_dec, u64_to_dec, u64_to_hex};

#[test]
fn display_expr() {
    assert_eq!(Expr::Integer(100).to_code(), "100".to_string());

    assert_eq!(
        Expr::UnaryOperation {
            kind: UnaryOpKind::Minus,
            operand: Box::new(Expr::Read)
        }
        .to_code(),
        "(- read)".to_string()
    );

    assert_eq!(
        Expr::BinaryOperation {
            kind: BinaryOpKind::Add,
            left_operand: Box::new(Expr::BinaryOperation {
                kind: BinaryOpKind::Sub,
                left_operand: Box::new(Expr::Identifier("abc".to_string())),
                right_operand: Box::new(Expr::Read)
            }),
            right_operand: Box::new(Expr::UnaryOperation {
                kind: UnaryOpKind::Minus,
                operand: Box::new(Expr::Integer(42))
            })
        }
        .to_code(),
        "(+ (- abc read) (- 42))".to_string()
    );

    assert_eq!(
        Expr::Let {
            variable_name: "x1".to_string(),
            init_expr: Box::new(Expr::BinaryOperation {
                kind: BinaryOpKind::Add,
                left_operand: Box::new(Expr::Identifier("x1".to_string())),
                right_operand: Box::new(Expr::Integer(5))
            }),
            body: Box::new(Expr::Let {
                variable_name: "x2".to_string(),
                init_expr: Box::new(Expr::UnaryOperation {
                    kind: UnaryOpKind::Minus,
                    operand: Box::new(Expr::Read)
                }),
                body: Box::new(Expr::BinaryOperation {
                    kind: BinaryOpKind::Sub,
                    left_operand: Box::new(Expr::Identifier("x1".to_string())),
                    right_operand: Box::new(Expr::Identifier("x2".to_string()))
                })
            })
        }
        .to_code(),
        "(let ([x1 (+ x1 5)]) (let ([x2 (- read)]) (- x1 x2)))".to_string()
    );
}

#[test]
fn number_rendering() {
    assert_eq!(u64_to_dec(0), "0".to_string());
    assert_eq!(u64_to_dec(12345), "12345".to_string());
    assert_eq!(u64_to_dec(u64::MAX), "18446744073709551615".to_string());
    assert_eq!(i64_to_dec(-8), "-8".to_string());
    assert_eq!(i64_to_dec(0), "0".to_string());
    assert_eq!(i64_to_dec(i64::MIN), "-9223372036854775808".to_string());
    assert_eq!(u64_to_hex(0x2a), "2a".to_string());
    assert_eq!(u64_to_hex(0), "0".to_string());
    assert_eq!(u64_to_hex(0xdeadbeef), "deadbeef".to_string());
}
