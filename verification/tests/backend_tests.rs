use minicomp::assign_homes::assign_homes;
use minicomp::cvar::Stmt;
use minicomp::cvar::{Atom, Expr as CExpr};
use minicomp::remove_complex_operands::remove_complex_operands;
use minicomp::select_instructions::generate_result_target;
use minicomp::uniquify::PassError;
use minicomp::explicate_control::explicate_control;
use minicomp::parser::parse_expr;
use minicomp::patch_instructions::patch_instructions;
use minicomp::select_instructions::select_instructions;
use minicomp::uniquify::uniquify_expr;
use minicomp::x86::{Reg, VarArg, VarInstr, VarProgram, VarBlock};
use minicomp::x86::VarArg::{Deref, Imm};

#[test]
fn uniquify() {
    assert_eq!(
        uniquify_expr(parse_expr("let ([x 0]) x").unwrap())
            .unwrap()
            .to_code(),
        "(let ([x0 0]) x0)"
    );

    assert_eq!(
        uniquify_expr(parse_expr("let ([x0 0]) x0").unwrap())
            .unwrap()
            .to_code(),
        "(let ([x0 0]) x0)"
    );

    assert_eq!(
        uniquify_expr(parse_expr("let ([x1 0]) x1").unwrap())
            .unwrap()
            .to_code(),
        "(let ([x0 0]) x0)"
    );

    // shadow
    assert_eq!(
        uniquify_expr(parse_expr("let ([x (+ 1 2)]) (+ (let ([x x]) x) x)").unwrap())
            .unwrap()
            .to_code(),
        "(let ([x0 (+ 1 2)]) (+ (let ([x1 x0]) x1) x0))"
    );

    assert_eq!(
        uniquify_expr(parse_expr("let ([x0 (let ([x0 1]) (+ x0 2))]) (- x0)").unwrap())
            .unwrap()
            .to_code(),
        "(let ([x1 (let ([x0 1]) (+ x0 2))]) (- x1))"
    );
}

#[test]
fn uniquify_unknown_identifier() {
    assert_eq!(
        uniquify_expr(parse_expr("x").unwrap()),
        Err(PassError::UnknownIdentifier("x".to_string()))
    );
    assert_eq!(
        uniquify_expr(parse_expr("let ([x x]) x").unwrap()),
        Err(PassError::UnknownIdentifier("x".to_string()))
    );
}

#[test]
fn test_remove_complex_operands() {
    assert_eq!(
        remove_complex_operands(parse_expr("let ([x (+ 42 (- 10))]) (+ x 10)").unwrap())
            .to_code(),
        "(let ([x (let ([tmp0 (- 10)]) (+ 42 tmp0))]) (+ x 10))"
    );

    assert_eq!(
        remove_complex_operands(parse_expr("let ([a 42]) (let ([b a]) b)").unwrap())
            .to_code(),
        "(let ([a 42]) (let ([b a]) b))"
    );

    assert_eq!(
        parse_expr(
            &remove_complex_operands(
                parse_expr("+ (+ (- 3) (+ 1 (- 2))) (- (+ 1 2) (- 1))").unwrap()
            )
            .to_code()
        ),
        parse_expr(
            r#" (let ([tmp0 (- 3)])
                    (let ([tmp1 (- 2)])
                        (let ([tmp2 (+ 1 tmp1)])
                            (let ([tmp3 (+ tmp0 tmp2)])
                                (let ([tmp4 (+ 1 2)])
                                    (let ([tmp5 (- 1)])
                                        (let ([tmp6 (- tmp4 tmp5)])
                                            (+ tmp3 tmp6)
                                        )
                                    )
                                )
                            )
                        )
                    )
                )"#
        )
    );
}

#[test]
fn flatten_is_idempotent_on_flat_input() {
    let flat = remove_complex_operands(parse_expr("+ (+ 1 2) (- 3)").unwrap());
    let rendered = flat.to_code();
    let again = remove_complex_operands(parse_expr(&rendered).unwrap());
    assert_eq!(again.to_code(), rendered);
}

#[test]
fn test_explicate_control() {
    assert_eq!(
        explicate_control(parse_expr("+ 1 2").unwrap()).to_code(),
        r#"
start:
    return (+ 1 2);
"#
        .trim_start()
    );

    assert_eq!(
        explicate_control(
            parse_expr("let ([y (let ([x1 20]) (let ([x2 22]) (+ x1 x2)))]) y").unwrap()
        )
        .to_code(),
        r#"
local: [x1, x2, y]
start:
    x1 = 20;
    x2 = 22;
    y = (+ x1 x2);
    return y;
"#
        .trim_start()
    );

    assert_eq!(
        explicate_control(
            parse_expr(
                r#"(let ([tmp0 (- 3)])
                (let ([tmp1 (- 2)])
                    (let ([tmp2 (+ 1 tmp1)])
                        (let ([tmp3 (+ tmp0 tmp2)])
                            (let ([tmp4 (+ 1 2)])
                                (let ([tmp5 (- 1)])
                                    (let ([tmp6 (- tmp4 tmp5)])
                                        (+ tmp3 tmp6)
                                    )
                                )
                            )
                        )
                    )
                )
            )"#
            )
            .unwrap()
        )
        .to_code(),
        r#"
local: [tmp0, tmp1, tmp2, tmp3, tmp4, tmp5, tmp6]
start:
    tmp0 = (- 3);
    tmp1 = (- 2);
    tmp2 = (+ 1 tmp1);
    tmp3 = (+ tmp0 tmp2);
    tmp4 = (+ 1 2);
    tmp5 = (- 1);
    tmp6 = (- tmp4 tmp5);
    return (+ tmp3 tmp6);
"#
        .trim_start()
    );
}

#[test]
fn explicate_single_return_last() {
    let program =
        explicate_control(parse_expr("let ([a 1]) (let ([b 2]) (+ a b))").unwrap());
    let returns = program
        .body
        .iter()
        .filter(|s| matches!(s, Stmt::Return(_)))
        .count();
    assert_eq!(returns, 1);
    assert!(matches!(program.body.last(), Some(Stmt::Return(_))));
    assert_eq!(program.locals, vec!["a".to_string(), "b".to_string()]);
}

fn prepare_cvar_program(code: &str) -> minicomp::cvar::Program {
    explicate_control(parse_expr(code).unwrap())
}

#[test]
fn select_instructions_test() {
    assert_eq!(
        select_instructions(prepare_cvar_program(
            "let ([y (let ([x1 (- 20)]) (let ([x2 22]) (+ x1 x2)))]) y"
        ))
        .to_code()
        .trim(),
        r#"
main:
    movq    $0x14, x1
    negq    x1
    movq    $0x16, x2
    movq    x1, y
    addq    x2, y
    movq    y, %rax
    jmp     conclusion
conclusion:
    "#
        .trim()
    );

    assert_eq!(
        select_instructions(prepare_cvar_program(
            "let ([x1 read]) (let ([x2 (- x1 15)]) (+ x1 x2))"
        ))
        .to_code()
        .trim(),
        r#"
main:
    callq   read_int
    movq    %rax, x1
    movq    x1, x2
    subq    $0xf, x2
    movq    x1, %rax
    addq    x2, %rax
    jmp     conclusion
conclusion:
    "#
        .trim()
    );
}

#[test]
fn move_elision_rule() {
    // A variable moved to itself is always elided.
    assert_eq!(
        generate_result_target(
            VarArg::Variable("a".to_string()),
            VarArg::Variable("a".to_string())
        ),
        None
    );
    // Distinct locations are never elided.
    assert_eq!(
        generate_result_target(
            VarArg::Variable("a".to_string()),
            VarArg::Variable("b".to_string())
        ),
        Some(VarInstr::Movq {
            from: VarArg::Variable("b".to_string()),
            to: VarArg::Variable("a".to_string())
        })
    );
    // Equal immediates are still materialized.
    assert_eq!(
        generate_result_target(VarArg::Imm(5), VarArg::Imm(5)),
        Some(VarInstr::Movq {
            from: VarArg::Imm(5),
            to: VarArg::Imm(5)
        })
    );
}

fn prepare_var_program(code: &str) -> VarProgram {
    select_instructions(explicate_control(parse_expr(code).unwrap()))
}

#[test]
fn assign_homes_test() {
    assert_eq!(
        assign_homes(prepare_var_program("let ([a 42]) (let ([b a]) b)"))
            .to_code()
            .trim(),
        r#"
main:
    movq    $0x2a, -8(%rbp)
    movq    -8(%rbp), -16(%rbp)
    movq    -16(%rbp), %rax
    jmp     conclusion
conclusion:
    "#
        .trim()
    );

    assert_eq!(
        assign_homes(prepare_var_program(
            "let ([y (let ([x1 (- 20)]) (let ([x2 22]) (+ x1 x2)))]) y"
        ))
        .to_code()
        .trim(),
        r#"
main:
    movq    $0x14, -8(%rbp)
    negq    -8(%rbp)
    movq    $0x16, -16(%rbp)
    movq    -8(%rbp), -24(%rbp)
    addq    -16(%rbp), -24(%rbp)
    movq    -24(%rbp), %rax
    jmp     conclusion
conclusion:
    "#
        .trim()
    );
}

#[test]
fn assign_homes_clears_variables_and_uses_dense_offsets() {
    let program =
        assign_homes(prepare_var_program("let ([a 1]) (let ([b 2]) (let ([c 3]) c))"));
    assert!(program.local_variables.is_empty());
    let homes: Vec<_> = program.body[0]
        .instructions
        .iter()
        .filter_map(|i| match i {
            VarInstr::Movq {
                to: VarArg::Deref(Reg::RBP, offset),
                ..
            } => Some(*offset),
            _ => None,
        })
        .collect();
    assert_eq!(homes, vec![-8, -16, -24]);
    for block in &program.body {
        for instr in &block.instructions {
            let args: Vec<&VarArg> = match instr {
                VarInstr::Addq { lhs, rhs } | VarInstr::Subq { lhs, rhs } => vec![lhs, rhs],
                VarInstr::Movq { from, to } => vec![from, to],
                VarInstr::Negq { operand }
                | VarInstr::Pushq { operand }
                | VarInstr::Popq { operand } => vec![operand],
                _ => vec![],
            };
            for arg in args {
                assert!(!matches!(arg, VarArg::Variable(_)));
            }
        }
    }
}

fn generate_test_program(instructions: Vec<VarInstr>) -> VarProgram {
    VarProgram {
        local_variables: Vec::new(),
        body: vec![VarBlock {
            label: "test".to_string(),
            instructions,
        }],
    }
}

#[test]
fn patch_instructions_test() {
    assert_eq!(
        patch_instructions(generate_test_program(vec![
            VarInstr::Movq {
                from: Deref(Reg::RBP, -8),
                to: Deref(Reg::RBP, -16)
            },
            VarInstr::Subq {
                lhs: Deref(Reg::RBP, -24),
                rhs: Deref(Reg::RBP, -32)
            },
            VarInstr::Addq {
                lhs: Deref(Reg::RBP, -40),
                rhs: Imm(65537)
            },
        ]))
        .body[0]
            .instructions,
        vec![
            VarInstr::Movq {
                from: Deref(Reg::RBP, -8),
                to: Reg::RAX.into(),
            },
            VarInstr::Movq {
                from: Reg::RAX.into(),
                to: Deref(Reg::RBP, -16)
            },
            VarInstr::Movq {
                from: Deref(Reg::RBP, -32),
                to: Reg::RAX.into(),
            },
            VarInstr::Subq {
                lhs: Deref(Reg::RBP, -24),
                rhs: Reg::RAX.into(),
            },
            VarInstr::Movq {
                from: Imm(65537),
                to: Reg::RAX.into(),
            },
            VarInstr::Addq {
                lhs: Deref(Reg::RBP, -40),
                rhs: Reg::RAX.into(),
            },
        ]
    );
}

#[test]
fn patch_moves_large_immediate_through_scratch() {
    // A large immediate moved to memory goes through the accumulator as a
    // genuine move, and an immediate at the threshold is left alone.
    assert_eq!(
        patch_instructions(generate_test_program(vec![
            VarInstr::Movq {
                from: Imm(65537),
                to: Deref(Reg::RBP, -8)
            },
            VarInstr::Movq {
                from: Imm(65536),
                to: Deref(Reg::RBP, -16)
            },
        ]))
        .body[0]
            .instructions,
        vec![
            VarInstr::Movq {
                from: Imm(65537),
                to: Reg::RAX.into(),
            },
            VarInstr::Movq {
                from: Reg::RAX.into(),
                to: Deref(Reg::RBP, -8)
            },
            VarInstr::Movq {
                from: Imm(65536),
                to: Deref(Reg::RBP, -16)
            },
        ]
    );
}

#[test]
fn patch_output_has_no_two_memory_instructions() {
    let patched = patch_instructions(assign_homes(prepare_var_program(
        "let ([a 1]) (let ([b a]) (+ a b))",
    )));
    for block in &patched.body {
        for instr in &block.instructions {
            let two_mem = match instr {
                VarInstr::Addq { lhs, rhs } | VarInstr::Subq { lhs, rhs } => {
                    matches!(lhs, VarArg::Deref(..)) && matches!(rhs, VarArg::Deref(..))
                }
                VarInstr::Movq { from, to } => {
                    matches!(from, VarArg::Deref(..)) && matches!(to, VarArg::Deref(..))
                }
                _ => false,
            };
            assert!(!two_mem);
        }
    }
}

#[test]
fn end_to_end_pipeline() {
    let expr = parse_expr("let ([a 42]) (let ([b a]) b)").unwrap();
    let renamed = uniquify_expr(expr).unwrap();
    let flat = minicomp::remove_complex_operands::remove_complex_operands(renamed);
    let homed = assign_homes(select_instructions(explicate_control(flat)));

    assert_eq!(homed.body.len(), 2);
    assert_eq!(homed.body[0].label, "main");
    assert_eq!(homed.body[1].label, "conclusion");
    assert!(homed.body[1].instructions.is_empty());
    assert_eq!(
        homed.body[0].instructions,
        vec![
            VarInstr::Movq {
                from: VarArg::Imm(42),
                to: VarArg::Deref(Reg::RBP, -8)
            },
            VarInstr::Movq {
                from: VarArg::Deref(Reg::RBP, -8),
                to: VarArg::Deref(Reg::RBP, -16)
            },
            VarInstr::Movq {
                from: VarArg::Deref(Reg::RBP, -16),
                to: VarArg::Reg(Reg::RAX)
            },
            VarInstr::Jmp {
                target: "conclusion".to_string()
            },
        ]
    );

    // The legalizer then splits the one memory-to-memory move.
    let patched = patch_instructions(homed);
    assert_eq!(patched.body[0].instructions.len(), 5);
}

#[test]
fn flatten_hoists_let_operands() {
    // A let in operand position is hoisted bodily above the operator.
    assert_eq!(
        remove_complex_operands(parse_expr("(+ (let ([z 2]) z) 1)").unwrap()).to_code(),
        "(let ([z 2]) (+ z 1))"
    );
    assert_eq!(
        remove_complex_operands(
            parse_expr("(- (let ([z 2]) (- z)) (let ([w 3]) w))").unwrap()
        )
        .to_code(),
        "(let ([z 2]) (let ([tmp0 (- z)]) (let ([w 3]) (- tmp0 w))))"
    );
}

#[test]
fn let_operand_compiles_through_pipeline() {
    let expr = parse_expr("let ([a 1]) (+ (let ([b 2]) b) a)").unwrap();
    assert_eq!(minicomp::interpreter::interp_expr(&expr, vec![]), Ok(3));
    let renamed = uniquify_expr(expr).unwrap();
    let flat = remove_complex_operands(renamed);
    let program = explicate_control(flat);
    assert_eq!(
        program.to_code(),
        "local: [x0, x1]\nstart:\n    x0 = 1;\n    x1 = 2;\n    return (+ x1 x0);\n"
    );
    let homed = assign_homes(select_instructions(program));
    assert!(homed.local_variables.is_empty());
}

#[test]
fn atom_self_move_is_elided() {
    // An assignment of a variable to itself selects to no instruction at all;
    // the return's move and jump are all that remain.
    let program = minicomp::cvar::Program {
        locals: vec!["x".to_string()],
        body: vec![
            Stmt::Assign {
                lhs: "x".to_string(),
                rhs: CExpr::Atom(Atom::Variable("x".to_string())),
            },
            Stmt::Return(CExpr::Atom(Atom::Integer(0))),
        ],
    };
    let selected = select_instructions(program);
    assert_eq!(
        selected.body[0].instructions,
        vec![
            VarInstr::Movq {
                from: VarArg::Imm(0),
                to: VarArg::Reg(Reg::RAX)
            },
            VarInstr::Jmp {
                target: "conclusion".to_string()
            },
        ]
    );
}

#[test]
fn explicate_references_follow_declarations() {
    // Every variable a statement reads was declared by an earlier statement.
    let program = explicate_control(
        remove_complex_operands(
            uniquify_expr(
                parse_expr("let ([a 1]) (+ (let ([b a]) b) a)").unwrap()
            )
            .unwrap(),
        ),
    );
    let mut declared: Vec<String> = Vec::new();
    for stmt in &program.body {
        let rhs = match stmt {
            Stmt::Assign { rhs, .. } => rhs,
            Stmt::Return(e) => e,
        };
        let atoms = match rhs {
            CExpr::Atom(a) => vec![a],
            CExpr::Read => vec![],
            CExpr::UnaryOperation { operand, .. } => vec![operand],
            CExpr::BinaryOperation {
                left_operand,
                right_operand,
                ..
            } => vec![left_operand, right_operand],
        };
        for atom in atoms {
            if let Atom::Variable(name) = atom {
                assert!(declared.contains(name));
            }
        }
        if let Stmt::Assign { lhs, .. } = stmt {
            declared.push(lhs.clone());
        }
    }
    assert_eq!(declared, program.locals);
}

#[test]
fn uniquify_succeeds_exactly_on_closed_programs() {
    // Renaming succeeds exactly when every reference has an enclosing binding.
    assert!(uniquify_expr(parse_expr("let ([x 1]) (+ x x)").unwrap()).is_ok());
    assert!(uniquify_expr(parse_expr("(+ (let ([x 1]) x) x)").unwrap()).is_err());
}
