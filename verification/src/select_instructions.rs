//! The instruction selector: maps a three-address program onto two
//! pseudo-assembly blocks. `main` computes every statement, targeting either
//! the symbolic location of an assignment or the accumulator for the final
//! return, which then jumps to the empty `conclusion` block.

use vstd::prelude::*;
use vstd::string::*;
use crate::cvar::Atom;
use crate::cvar::AtomShape;
use crate::cvar::Expr as CExpr;
use crate::cvar::ExprShape as CShape;
use crate::cvar::Program as CProgram;
use crate::cvar::ProgramShape;
use crate::cvar::Stmt;
use crate::cvar::StmtShape;
use crate::ast::BinaryOpKind;
use crate::ast::UnaryOpKind;
use crate::x86::Block;
use crate::x86::BlockShape;
use crate::x86::InstrShape;
use crate::x86::Reg;
use crate::x86::VarArg;
use crate::x86::VarArgShape;
use crate::x86::VarInstr;
use crate::x86::VarProgram;
use crate::x86::X86ProgramShape;

verus! {

/// The operand an atom selects to: an immediate or a symbolic variable.
pub open spec fn atom_arg(a: AtomShape) -> VarArgShape {
    match a {
        AtomShape::Integer(v) => VarArgShape::Imm(v),
        AtomShape::Variable(name) => VarArgShape::Variable(name),
    }
}

/// The move that deposits `expected` into `actual`, or nothing when the two
/// are the identical symbolic variable. Equal immediates are still moved:
/// only a variable-to-itself move is elided.
pub open spec fn result_target_shape(actual: VarArgShape, expected: VarArgShape) -> Option<
    InstrShape<VarArgShape>,
> {
    if actual matches VarArgShape::Variable(_) && actual == expected {
        None
    } else {
        Some(InstrShape::Movq { from: expected, to: actual })
    }
}

/// The setup move as an instruction sequence: empty exactly when elided.
pub open spec fn target_setup(actual: VarArgShape, expected: VarArgShape) -> Seq<
    InstrShape<VarArgShape>,
> {
    match result_target_shape(actual, expected) {
        None => Seq::empty(),
        Some(instr) => seq![instr],
    }
}

/// The instructions that compute one right-hand side into `result`. A bare
/// atom is a single move, elided by the same rule as every other setup move:
/// only when it would move a symbolic variable onto itself.
pub open spec fn expr_instrs(e: CShape, result: VarArgShape) -> Seq<InstrShape<VarArgShape>> {
    match e {
        CShape::Atom(a) => target_setup(result, atom_arg(a)),
        CShape::Read => seq![
            InstrShape::Callq { callee: "read_int"@ },
            InstrShape::Movq { from: VarArgShape::Reg(Reg::RAX), to: result },
        ],
        CShape::UnaryOperation { kind, operand } => target_setup(result, atom_arg(operand))
            + match kind {
            UnaryOpKind::Minus => seq![InstrShape::Negq { operand: result }],
        },
        CShape::BinaryOperation { kind, left_operand, right_operand } => target_setup(
            result,
            atom_arg(left_operand),
        ) + match kind {
            BinaryOpKind::Add => seq![
                InstrShape::Addq { lhs: result, rhs: atom_arg(right_operand) },
            ],
            BinaryOpKind::Sub => seq![
                InstrShape::Subq { lhs: result, rhs: atom_arg(right_operand) },
            ],
        },
    }
}

/// The instructions one statement selects to.
pub open spec fn stmt_instrs(s: StmtShape) -> Seq<InstrShape<VarArgShape>> {
    match s {
        StmtShape::Assign { lhs, rhs } => expr_instrs(rhs, VarArgShape::Variable(lhs)),
        StmtShape::Return(e) => expr_instrs(e, VarArgShape::Reg(Reg::RAX)) + seq![
            InstrShape::Jmp { target: "conclusion"@ },
        ],
    }
}

/// The `main` block's instructions for a whole body.
pub open spec fn body_instrs(body: Seq<StmtShape>) -> Seq<InstrShape<VarArgShape>>
    decreases body.len(),
{
    if body.len() == 0 {
        Seq::empty()
    } else {
        body_instrs(body.drop_last()) + stmt_instrs(body.last())
    }
}

/// The selected program: the locals carried through unchanged, a `main`
/// block holding every computed statement, and an empty `conclusion` block.
pub open spec fn select_shape(p: ProgramShape) -> X86ProgramShape<VarArgShape> {
    X86ProgramShape {
        local_variables: p.locals,
        body: seq![
            BlockShape { label: "main"@, instructions: body_instrs(p.body) },
            BlockShape { label: "conclusion"@, instructions: Seq::empty() },
        ],
    }
}

/// The symbolic name of the external routine that reads one input integer.
pub fn read_int_func_name() -> (name: String)
    ensures
        name@ == "read_int"@,
{
    String::from_str("read_int")
}

/// The architectural accumulator as an operand.
pub fn rax_reg() -> (arg: VarArg)
    ensures
        arg@ == VarArgShape::Reg(Reg::RAX),
{
    VarArg::Reg(Reg::RAX)
}

fn copy_arg(a: &VarArg) -> (copy: VarArg)
    ensures
        copy@ == a@,
{
    match a {
        VarArg::Imm(v) => VarArg::Imm(*v),
        VarArg::Reg(r) => VarArg::Reg(*r),
        VarArg::Deref(r, offset) => VarArg::Deref(*r, *offset),
        VarArg::Variable(name) => VarArg::Variable(name.clone()),
    }
}

/// LAW: the move-elision rule, exactly: the setup move is omitted if and only
/// if the destination and the source are the identical symbolic variable, so
/// a move between distinct locations is never elided and a variable's
/// self-move always is.
pub fn generate_result_target(actual_result: VarArg, expected_result: VarArg) -> (setup: Option<
    VarInstr,
>)
    ensures
        match setup {
            None => result_target_shape(actual_result@, expected_result@) is None,
            Some(instr) => result_target_shape(actual_result@, expected_result@) == Some(instr@),
        },
        setup is None <==> (actual_result@ matches VarArgShape::Variable(_) && actual_result@
            == expected_result@),
{
    let elide: bool = match (&actual_result, &expected_result) {
        (VarArg::Variable(actual_name), VarArg::Variable(expected_name)) => actual_name.eq(
            expected_name,
        ),
        _ => false,
    };
    if elide {
        None
    } else {
        Some(VarInstr::Movq { from: expected_result, to: actual_result })
    }
}

/// Selects the operand for an atom.
pub fn handle_atom(atom: &Atom) -> (arg: VarArg)
    ensures
        arg@ == atom_arg(atom@),
{
    match atom {
        Atom::Integer(v) => VarArg::Imm(*v),
        Atom::Variable(name) => VarArg::Variable(name.clone()),
    }
}

/// Emits into the block the instructions that deposit the value of `expr`
/// into the location `result`.
fn handle_expr(expr: &CExpr, result: VarArg, target_block: &mut Block<VarArg>)
    ensures
        final(target_block)@.label == old(target_block)@.label,
        final(target_block)@.instructions == old(target_block)@.instructions + expr_instrs(
            expr@,
            result@,
        ),
{
    let ghost before = target_block@.instructions;
    match expr {
        CExpr::Atom(atom) => {
            match generate_result_target(result, handle_atom(atom)) {
                Some(instr) => {
                    target_block.add_instr(instr);
                },
                None => {},
            }
            proof {
                assert(target_block@.instructions =~= before + expr_instrs(expr@, result@));
            }
        },
        CExpr::Read => {
            target_block.add_instr(VarInstr::Callq { callee: read_int_func_name() });
            target_block.add_instr(VarInstr::Movq { from: rax_reg(), to: result });
            proof {
                assert(target_block@.instructions =~= before + expr_instrs(expr@, result@));
            }
        },
        CExpr::UnaryOperation { kind, operand } => {
            let result_copy = copy_arg(&result);
            match generate_result_target(result_copy, handle_atom(operand)) {
                Some(instr) => {
                    target_block.add_instr(instr);
                },
                None => {},
            }
            match kind {
                UnaryOpKind::Minus => {
                    target_block.add_instr(VarInstr::Negq { operand: result });
                },
            }
            proof {
                assert(target_block@.instructions =~= before + expr_instrs(expr@, result@));
            }
        },
        CExpr::BinaryOperation { kind, left_operand, right_operand } => {
            let result_copy = copy_arg(&result);
            match generate_result_target(result_copy, handle_atom(left_operand)) {
                Some(instr) => {
                    target_block.add_instr(instr);
                },
                None => {},
            }
            match kind {
                BinaryOpKind::Add => {
                    target_block.add_instr(
                        VarInstr::Addq { lhs: result, rhs: handle_atom(right_operand) },
                    );
                },
                BinaryOpKind::Sub => {
                    target_block.add_instr(
                        VarInstr::Subq { lhs: result, rhs: handle_atom(right_operand) },
                    );
                },
            }
            proof {
                assert(target_block@.instructions =~= before + expr_instrs(expr@, result@));
            }
        },
    }
}

/// Emits the instructions for one statement: an assignment targets the
/// symbolic variable it binds; the return targets the accumulator and jumps
/// to the conclusion.
fn handle_stmt(stmt: &Stmt, target_block: &mut Block<VarArg>)
    ensures
        final(target_block)@.label == old(target_block)@.label,
        final(target_block)@.instructions == old(target_block)@.instructions + stmt_instrs(stmt@),
{
    let ghost before = target_block@.instructions;
    match stmt {
        Stmt::Assign { lhs, rhs } => {
            handle_expr(rhs, VarArg::Variable(lhs.clone()), target_block);
            proof {
                assert(target_block@.instructions =~= before + stmt_instrs(stmt@));
            }
        },
        Stmt::Return(operand) => {
            handle_expr(operand, rax_reg(), target_block);
            target_block.add_instr(VarInstr::Jmp { target: String::from_str("conclusion") });
            proof {
                assert(target_block@.instructions =~= before + stmt_instrs(stmt@));
            }
        },
    }
}

/// The instruction selector: lowers a three-address program to a symbolic
/// pseudo-assembly program of two blocks, carrying the declared locals
/// through unchanged.
pub fn select_instructions(program: CProgram) -> (result: VarProgram)
    ensures
        result@ == select_shape(program@),
{
    let mut main_block: Block<VarArg> = Block::new(String::from_str("main"));
    let conclusion_block: Block<VarArg> = Block::new(String::from_str("conclusion"));
    let ghost body_shapes = program.body.deep_view();

    let mut i: usize = 0;
    while i < program.body.len()
        invariant
            i <= program.body.len(),
            body_shapes == program.body.deep_view(),
            main_block@.label == "main"@,
            main_block@.instructions == body_instrs(body_shapes.take(i as int)),
        decreases program.body.len() - i,
    {
        handle_stmt(&program.body[i], &mut main_block);
        proof {
            assert(body_shapes.take(i + 1).drop_last() =~= body_shapes.take(i as int));
            assert(body_shapes.take(i + 1).last() == body_shapes[i as int]);
            assert(body_shapes[i as int] == program.body@[i as int]@);
            assert(main_block@.instructions =~= body_instrs(body_shapes.take(i + 1)));
        }
        i = i + 1;
    }

    let ghost main_shape = main_block@;
    let ghost conclusion_shape = conclusion_block@;
    let mut result: VarProgram = VarProgram::new();
    proof {
        assert(result@.body.len() == 0);
        assert(result.body@.len() == 0);
    }
    result.local_variables = program.locals;
    result.body.push(main_block);
    result.body.push(conclusion_block);
    proof {
        assert(body_shapes.take(program.body@.len() as int) =~= body_shapes);
        assert(result@.local_variables =~= select_shape(program@).local_variables);
        let dv = result.body.deep_view();
        let spec_body = select_shape(program@).body;
        assert(result.body@.len() == 2);
        assert(dv[0] == result.body@[0]@);
        assert(dv[1] == result.body@[1]@);
        assert(result.body@[0]@ == main_shape);
        assert(result.body@[1]@ == conclusion_shape);
        assert(main_shape =~~= spec_body[0]);
        assert(conclusion_shape =~~= spec_body[1]);
        assert(dv =~~= spec_body);
        assert(result@ =~~= select_shape(program@));
    }
    result
}

} // verus!
