//! The legalizer pass: rewrites each instruction whose operand combination
//! the target cannot encode — two memory operands, or an immediate beyond
//! the field-width limit of 0x10000 — into a two-instruction sequence
//! through the accumulator. A large immediate moved to memory goes through
//! the accumulator as a genuine move, so the destination's prior contents
//! never matter. All other instructions pass through unchanged, in order.

use vstd::prelude::*;
use vstd::string::*;
use crate::x86::Block;
use crate::x86::BlockShape;
use crate::x86::InstrShape;
use crate::x86::Reg;
use crate::x86::VarArg;
use crate::x86::VarArgShape;
use crate::x86::VarBlock;
use crate::x86::VarInstr;
use crate::x86::VarProgram;
use crate::x86::X86ProgramShape;

verus! {

/// The instructions one input instruction legalizes to, checked in priority
/// order: two-memory arithmetic, two-memory move, over-limit immediate
/// arithmetic, over-limit immediate move to memory, then everything else
/// unchanged.
pub open spec fn patch_instr(i: InstrShape<VarArgShape>) -> Seq<InstrShape<VarArgShape>> {
    match i {
        InstrShape::Addq { lhs, rhs } => match (lhs, rhs) {
            (VarArgShape::Deref(reg_lhs, offset_lhs), VarArgShape::Deref(reg_rhs, offset_rhs)) => seq![
                InstrShape::Movq {
                    from: VarArgShape::Deref(reg_rhs, offset_rhs),
                    to: VarArgShape::Reg(Reg::RAX),
                },
                InstrShape::Addq {
                    lhs: VarArgShape::Deref(reg_lhs, offset_lhs),
                    rhs: VarArgShape::Reg(Reg::RAX),
                },
            ],
            (VarArgShape::Deref(reg_lhs, offset_lhs), VarArgShape::Imm(value)) => if value
                > 0x10000 {
                seq![
                    InstrShape::Movq {
                        from: VarArgShape::Imm(value),
                        to: VarArgShape::Reg(Reg::RAX),
                    },
                    InstrShape::Addq {
                        lhs: VarArgShape::Deref(reg_lhs, offset_lhs),
                        rhs: VarArgShape::Reg(Reg::RAX),
                    },
                ]
            } else {
                seq![i]
            },
            _ => seq![i],
        },
        InstrShape::Subq { lhs, rhs } => match (lhs, rhs) {
            (VarArgShape::Deref(reg_lhs, offset_lhs), VarArgShape::Deref(reg_rhs, offset_rhs)) => seq![
                InstrShape::Movq {
                    from: VarArgShape::Deref(reg_rhs, offset_rhs),
                    to: VarArgShape::Reg(Reg::RAX),
                },
                InstrShape::Subq {
                    lhs: VarArgShape::Deref(reg_lhs, offset_lhs),
                    rhs: VarArgShape::Reg(Reg::RAX),
                },
            ],
            (VarArgShape::Deref(reg_lhs, offset_lhs), VarArgShape::Imm(value)) => if value
                > 0x10000 {
                seq![
                    InstrShape::Movq {
                        from: VarArgShape::Imm(value),
                        to: VarArgShape::Reg(Reg::RAX),
                    },
                    InstrShape::Subq {
                        lhs: VarArgShape::Deref(reg_lhs, offset_lhs),
                        rhs: VarArgShape::Reg(Reg::RAX),
                    },
                ]
            } else {
                seq![i]
            },
            _ => seq![i],
        },
        InstrShape::Movq { from, to } => match (from, to) {
            (VarArgShape::Deref(reg_rhs, offset_rhs), VarArgShape::Deref(reg_lhs, offset_lhs)) => seq![
                InstrShape::Movq {
                    from: VarArgShape::Deref(reg_rhs, offset_rhs),
                    to: VarArgShape::Reg(Reg::RAX),
                },
                InstrShape::Movq {
                    from: VarArgShape::Reg(Reg::RAX),
                    to: VarArgShape::Deref(reg_lhs, offset_lhs),
                },
            ],
            (VarArgShape::Imm(value), VarArgShape::Deref(reg_lhs, offset_lhs)) => if value
                > 0x10000 {
                seq![
                    InstrShape::Movq {
                        from: VarArgShape::Imm(value),
                        to: VarArgShape::Reg(Reg::RAX),
                    },
                    InstrShape::Movq {
                        from: VarArgShape::Reg(Reg::RAX),
                        to: VarArgShape::Deref(reg_lhs, offset_lhs),
                    },
                ]
            } else {
                seq![i]
            },
            _ => seq![i],
        },
        _ => seq![i],
    }
}

/// The legalized form of a whole instruction sequence, order preserved.
pub open spec fn patched_instrs(instrs: Seq<InstrShape<VarArgShape>>) -> Seq<
    InstrShape<VarArgShape>,
>
    decreases instrs.len(),
{
    if instrs.len() == 0 {
        Seq::empty()
    } else {
        patched_instrs(instrs.drop_last()) + patch_instr(instrs.last())
    }
}

pub open spec fn block_patched(b: BlockShape<VarArgShape>) -> BlockShape<VarArgShape> {
    BlockShape { label: b.label, instructions: patched_instrs(b.instructions) }
}

pub open spec fn blocks_patched(blocks: Seq<BlockShape<VarArgShape>>) -> Seq<
    BlockShape<VarArgShape>,
>
    decreases blocks.len(),
{
    if blocks.len() == 0 {
        Seq::empty()
    } else {
        blocks_patched(blocks.drop_last()).push(block_patched(blocks.last()))
    }
}

/// The legalized program: every block rewritten, labels and the variable
/// list untouched.
pub open spec fn patch_shape(p: X86ProgramShape<VarArgShape>) -> X86ProgramShape<VarArgShape> {
    X86ProgramShape { local_variables: p.local_variables, body: blocks_patched(p.body) }
}

/// An instruction the target can encode: arithmetic and moves use at most
/// one memory operand, and no over-limit immediate feeds an add, a subtract,
/// or a move into memory.
pub open spec fn instr_legal(i: InstrShape<VarArgShape>) -> bool {
    match i {
        InstrShape::Addq { lhs, rhs } => !(lhs matches VarArgShape::Deref(_, _) && rhs
            matches VarArgShape::Deref(_, _)) && !(lhs matches VarArgShape::Deref(_, _) && (
        rhs matches VarArgShape::Imm(v) && v > 0x10000)),
        InstrShape::Subq { lhs, rhs } => !(lhs matches VarArgShape::Deref(_, _) && rhs
            matches VarArgShape::Deref(_, _)) && !(lhs matches VarArgShape::Deref(_, _) && (
        rhs matches VarArgShape::Imm(v) && v > 0x10000)),
        InstrShape::Movq { from, to } => !(from matches VarArgShape::Deref(_, _) && to
            matches VarArgShape::Deref(_, _)) && !((from matches VarArgShape::Imm(v) && v
            > 0x10000) && to matches VarArgShape::Deref(_, _)),
        _ => true,
    }
}

/// Every instruction the legalizer emits for one input is encodable.
proof fn lemma_patch_instr_legal(i: InstrShape<VarArgShape>)
    ensures
        forall|k: int| 0 <= k < patch_instr(i).len() ==> instr_legal(#[trigger] patch_instr(i)[k]),
{
    let out = patch_instr(i);
    assert forall|k: int| 0 <= k < out.len() implies instr_legal(#[trigger] out[k]) by {
        if out.len() == 1 {
            assert(out[0] == i || instr_legal(out[0]));
            if out[0] == i {
                assert(instr_legal(i));
            }
        }
    }
}

/// LAW: after legalization no instruction has two memory operands, and no
/// over-limit immediate feeds an add, a subtract, or a move into memory.
pub proof fn lemma_patched_instrs_legal(instrs: Seq<InstrShape<VarArgShape>>)
    ensures
        forall|k: int|
            0 <= k < patched_instrs(instrs).len() ==> instr_legal(
                #[trigger] patched_instrs(instrs)[k],
            ),
    decreases instrs.len(),
{
    if instrs.len() > 0 {
        lemma_patched_instrs_legal(instrs.drop_last());
        lemma_patch_instr_legal(instrs.last());
        let prefix = patched_instrs(instrs.drop_last());
        let tail = patch_instr(instrs.last());
        assert forall|k: int|
            0 <= k < patched_instrs(instrs).len() implies instr_legal(
            #[trigger] patched_instrs(instrs)[k],
        ) by {
            if k < prefix.len() {
                assert(patched_instrs(instrs)[k] == prefix[k]);
            } else {
                assert(patched_instrs(instrs)[k] == tail[k - prefix.len()]);
            }
        }
    }
}

/// LAW: legalization leaves every block's label in place and every whole
/// program's block count and variable list unchanged, and each block holds
/// only encodable instructions.
pub proof fn lemma_patch_program_legal(p: X86ProgramShape<VarArgShape>)
    ensures
        patch_shape(p).local_variables == p.local_variables,
        patch_shape(p).body.len() == p.body.len(),
        forall|b: int|
            0 <= b < p.body.len() ==> (#[trigger] patch_shape(p).body[b]).label == p.body[b].label,
        forall|b: int, k: int|
            0 <= b < patch_shape(p).body.len() && 0 <= k < patch_shape(
                p,
            ).body[b].instructions.len() ==> instr_legal(
                #[trigger] patch_shape(p).body[b].instructions[k],
            ),
{
    lemma_blocks_patched_pointwise(p.body);
    assert forall|b: int, k: int|
        0 <= b < patch_shape(p).body.len() && 0 <= k < patch_shape(
            p,
        ).body[b].instructions.len() implies instr_legal(
        #[trigger] patch_shape(p).body[b].instructions[k],
    ) by {
        assert(patch_shape(p).body[b] == block_patched(p.body[b]));
        lemma_patched_instrs_legal(p.body[b].instructions);
    }
}

/// Each legalized block is the legalization of the block at the same index.
proof fn lemma_blocks_patched_pointwise(blocks: Seq<BlockShape<VarArgShape>>)
    ensures
        blocks_patched(blocks).len() == blocks.len(),
        forall|b: int|
            0 <= b < blocks.len() ==> #[trigger] blocks_patched(blocks)[b] == block_patched(
                blocks[b],
            ),
    decreases blocks.len(),
{
    if blocks.len() > 0 {
        lemma_blocks_patched_pointwise(blocks.drop_last());
        assert forall|b: int|
            0 <= b < blocks.len() implies #[trigger] blocks_patched(blocks)[b] == block_patched(
            blocks[b],
        ) by {
            if b < blocks.len() - 1 {
                assert(blocks_patched(blocks)[b] == blocks_patched(blocks.drop_last())[b]);
                assert(blocks.drop_last()[b] == blocks[b]);
            }
        }
    }
}

fn copy_arg(a: &VarArg) -> (copy: VarArg)
    ensures
        copy@ == a@,
{
    match a {
        VarArg::Imm(v) => VarArg::Imm(*v),
        VarArg::Reg(r) => VarArg::Reg(*r),
        VarArg::Deref(r, offset) => VarArg::Deref(*r, *offset),
        VarArg::Variable(name) => VarArg::Variable(name.clone()),
    }
}

fn copy_instr(instr: &VarInstr) -> (copy: VarInstr)
    ensures
        copy@ == instr@,
{
    match instr {
        VarInstr::Addq { lhs, rhs } => VarInstr::Addq {
            lhs: copy_arg(lhs),
            rhs: copy_arg(rhs),
        },
        VarInstr::Subq { lhs, rhs } => VarInstr::Subq {
            lhs: copy_arg(lhs),
            rhs: copy_arg(rhs),
        },
        VarInstr::Negq { operand } => VarInstr::Negq { operand: copy_arg(operand) },
        VarInstr::Movq { from, to } => VarInstr::Movq {
            from: copy_arg(from),
            to: copy_arg(to),
        },
        VarInstr::Pushq { operand } => VarInstr::Pushq { operand: copy_arg(operand) },
        VarInstr::Popq { operand } => VarInstr::Popq { operand: copy_arg(operand) },
        VarInstr::Callq { callee } => VarInstr::Callq { callee: callee.clone() },
        VarInstr::Retq => VarInstr::Retq,
        VarInstr::Jmp { target } => VarInstr::Jmp { target: target.clone() },
    }
}

/// Legalizes one block, instruction by instruction, with no cross-instruction
/// state: each offending instruction becomes its two-instruction sequence in
/// place.
pub fn transform_block(block: &VarBlock) -> (result: VarBlock)
    ensures
        result@ == block_patched(block@),
{
    let mut result: VarBlock = Block::new(block.label.clone());
    let mut i: usize = 0;
    while i < block.instructions.len()
        invariant
            i <= block.instructions.len(),
            result@.label == block@.label,
            result@.instructions == patched_instrs(block@.instructions.take(i as int)),
        decreases block.instructions.len() - i,
    {
        let ghost before = result@.instructions;
        let instr = &block.instructions[i];
        proof {
            assert(block@.instructions[i as int] == block.instructions@[i as int]@);
        }
        match instr {
            VarInstr::Addq {
                lhs: VarArg::Deref(reg_lhs, offset_lhs),
                rhs: VarArg::Deref(reg_rhs, offset_rhs),
            } => {
                result.add_instr(
                    VarInstr::Movq {
                        from: VarArg::Deref(*reg_rhs, *offset_rhs),
                        to: VarArg::Reg(Reg::RAX),
                    },
                );
                result.add_instr(
                    VarInstr::Addq {
                        lhs: VarArg::Deref(*reg_lhs, *offset_lhs),
                        rhs: VarArg::Reg(Reg::RAX),
                    },
                );
            },
            VarInstr::Subq {
                lhs: VarArg::Deref(reg_lhs, offset_lhs),
                rhs: VarArg::Deref(reg_rhs, offset_rhs),
            } => {
                result.add_instr(
                    VarInstr::Movq {
                        from: VarArg::Deref(*reg_rhs, *offset_rhs),
                        to: VarArg::Reg(Reg::RAX),
                    },
                );
                result.add_instr(
                    VarInstr::Subq {
                        lhs: VarArg::Deref(*reg_lhs, *offset_lhs),
                        rhs: VarArg::Reg(Reg::RAX),
                    },
                );
            },
            VarInstr::Movq {
                from: VarArg::Deref(reg_rhs, offset_rhs),
                to: VarArg::Deref(reg_lhs, offset_lhs),
            } => {
                result.add_instr(
                    VarInstr::Movq {
                        from: VarArg::Deref(*reg_rhs, *offset_rhs),
                        to: VarArg::Reg(Reg::RAX),
                    },
                );
                result.add_instr(
                    VarInstr::Movq {
                        from: VarArg::Reg(Reg::RAX),
                        to: VarArg::Deref(*reg_lhs, *offset_lhs),
                    },
                );
            },
            VarInstr::Addq {
                lhs: VarArg::Deref(reg_lhs, offset_lhs),
                rhs: VarArg::Imm(value),
            } if *value > 0x10000 => {
                result.add_instr(
                    VarInstr::Movq { from: VarArg::Imm(*value), to: VarArg::Reg(Reg::RAX) },
                );
                result.add_instr(
                    VarInstr::Addq {
                        lhs: VarArg::Deref(*reg_lhs, *offset_lhs),
                        rhs: VarArg::Reg(Reg::RAX),
                    },
                );
            },
            VarInstr::Subq {
                lhs: VarArg::Deref(reg_lhs, offset_lhs),
                rhs: VarArg::Imm(value),
            } if *value > 0x10000 => {
                result.add_instr(
                    VarInstr::Movq { from: VarArg::Imm(*value), to: VarArg::Reg(Reg::RAX) },
                );
                result.add_instr(
                    VarInstr::Subq {
                        lhs: VarArg::Deref(*reg_lhs, *offset_lhs),
                        rhs: VarArg::Reg(Reg::RAX),
                    },
                );
            },
            VarInstr::Movq {
                from: VarArg::Imm(value),
                to: VarArg::Deref(reg_lhs, offset_lhs),
            } if *value > 0x10000 => {
                result.add_instr(
                    VarInstr::Movq { from: VarArg::Imm(*value), to: VarArg::Reg(Reg::RAX) },
                );
                result.add_instr(
                    VarInstr::Movq {
                        from: VarArg::Reg(Reg::RAX),
                        to: VarArg::Deref(*reg_lhs, *offset_lhs),
                    },
                );
            },
            other => {
                result.add_instr(copy_instr(other));
            },
        }
        proof {
            let all = block@.instructions;
            assert(all.take(i + 1).drop_last() =~= all.take(i as int));
            assert(all.take(i + 1).last() == all[i as int]);
            assert(result@.instructions =~= patched_instrs(all.take(i + 1)));
        }
        i = i + 1;
    }
    proof {
        assert(block@.instructions.take(block@.instructions.len() as int)
            =~= block@.instructions);
        assert(result@ =~~= block_patched(block@));
    }
    result
}

/// The legalizer: rewrites every block of the program so each instruction's
/// operand combination is encodable, preserving labels, order, and the
/// variable list.
pub fn patch_instructions(program: VarProgram) -> (result: VarProgram)
    ensures
        result@ == patch_shape(program@),
{
    let VarProgram { local_variables, body } = program;
    let mut new_body: Vec<VarBlock> = Vec::new();
    let mut i: usize = 0;
    proof {
        assert(new_body.deep_view() =~= Seq::<BlockShape<VarArgShape>>::empty());
        assert(blocks_patched(program@.body.take(0)) =~= Seq::<BlockShape<VarArgShape>>::empty());
    }
    while i < body.len()
        invariant
            i <= body.len(),
            program@.body == body.deep_view(),
            new_body.deep_view() == blocks_patched(program@.body.take(i as int)),
        decreases body.len() - i,
    {
        let ghost dv_before = new_body.deep_view();
        proof {
            assert(program@.body[i as int] == body@[i as int]@);
        }
        let patched = transform_block(&body[i]);
        let ghost pushed = patched@;
        new_body.push(patched);
        proof {
            let all = program@.body;
            assert(new_body.deep_view() =~= dv_before.push(pushed));
            assert(all.take(i + 1).drop_last() =~= all.take(i as int));
            assert(all.take(i + 1).last() == all[i as int]);
            assert(new_body.deep_view() =~= blocks_patched(all.take(i + 1)));
        }
        i = i + 1;
    }
    let result = VarProgram { local_variables, body: new_body };
    proof {
        assert(program@.body.take(program@.body.len() as int) =~= program@.body);
        assert(result@ =~~= patch_shape(program@));
    }
    result
}

} // verus!
