//! The home assigner: replaces every symbolic-variable operand with a
//! concrete stack-frame memory reference. The first declared variable lives
//! at offset -8 from the frame base, and each later one eight bytes below
//! the previous, in declaration order.

use vstd::prelude::*;
use vstd::string::*;
use crate::uniquify::no_duplicate_names;
use crate::x86::Block;
use crate::x86::BlockShape;
use crate::x86::InstrShape;
use crate::x86::Reg;
use crate::x86::VarArg;
use crate::x86::VarArgShape;
use crate::x86::VarBlock;
use crate::x86::VarInstr;
use crate::x86::VarProgram;
use crate::x86::X86ProgramShape;

verus! {

/// The stack offset a name is assigned, scanning declarations from the last
/// one backwards so that a repeated name keeps its latest offset.
pub open spec fn home_offset(locals: Seq<Seq<char>>, name: Seq<char>) -> Option<int>
    decreases locals.len(),
{
    if locals.len() == 0 {
        None
    } else if locals.last() == name {
        Some(-8 * locals.len())
    } else {
        home_offset(locals.drop_last(), name)
    }
}

/// A symbolic operand is replaced by its memory home; every other operand is
/// untouched.
pub open spec fn map_arg(locals: Seq<Seq<char>>, a: VarArgShape) -> VarArgShape {
    match a {
        VarArgShape::Variable(name) => match home_offset(locals, name) {
            Some(offset) => VarArgShape::Deref(Reg::RBP, offset as i64),
            None => arbitrary(),
        },
        _ => a,
    }
}

/// Rewrites the operand positions of one instruction; callees and labels are
/// untouched.
pub open spec fn map_instr(locals: Seq<Seq<char>>, i: InstrShape<VarArgShape>) -> InstrShape<
    VarArgShape,
> {
    match i {
        InstrShape::Addq { lhs, rhs } => InstrShape::Addq {
            lhs: map_arg(locals, lhs),
            rhs: map_arg(locals, rhs),
        },
        InstrShape::Subq { lhs, rhs } => InstrShape::Subq {
            lhs: map_arg(locals, lhs),
            rhs: map_arg(locals, rhs),
        },
        InstrShape::Negq { operand } => InstrShape::Negq { operand: map_arg(locals, operand) },
        InstrShape::Movq { from, to } => InstrShape::Movq {
            from: map_arg(locals, from),
            to: map_arg(locals, to),
        },
        InstrShape::Pushq { operand } => InstrShape::Pushq { operand: map_arg(locals, operand) },
        InstrShape::Popq { operand } => InstrShape::Popq { operand: map_arg(locals, operand) },
        _ => i,
    }
}

/// Each instruction rewritten over the same declaration list.
pub open spec fn mapped_instrs(locals: Seq<Seq<char>>, instrs: Seq<InstrShape<VarArgShape>>) -> Seq<
    InstrShape<VarArgShape>,
> {
    instrs.map_values(|i| map_instr(locals, i))
}

pub open spec fn map_block(locals: Seq<Seq<char>>, b: BlockShape<VarArgShape>) -> BlockShape<
    VarArgShape,
> {
    BlockShape { label: b.label, instructions: mapped_instrs(locals, b.instructions) }
}

/// Each block rewritten over the same declaration list.
pub open spec fn mapped_blocks(
    locals: Seq<Seq<char>>,
    blocks: Seq<BlockShape<VarArgShape>>,
) -> Seq<BlockShape<VarArgShape>> {
    blocks.map_values(|b| map_block(locals, b))
}

/// The program after home assignment: the variable list is cleared, and
/// every block is rewritten over the old list.
pub open spec fn assign_homes_shape(p: X86ProgramShape<VarArgShape>) -> X86ProgramShape<
    VarArgShape,
> {
    X86ProgramShape {
        local_variables: Seq::empty(),
        body: mapped_blocks(p.local_variables, p.body),
    }
}

/// The operand's name, if symbolic, has a recorded home.
pub open spec fn arg_homed(locals: Seq<Seq<char>>, a: VarArgShape) -> bool {
    a matches VarArgShape::Variable(name) ==> home_offset(locals, name) is Some
}

pub open spec fn instr_homed(locals: Seq<Seq<char>>, i: InstrShape<VarArgShape>) -> bool {
    match i {
        InstrShape::Addq { lhs, rhs } => arg_homed(locals, lhs) && arg_homed(locals, rhs),
        InstrShape::Subq { lhs, rhs } => arg_homed(locals, lhs) && arg_homed(locals, rhs),
        InstrShape::Negq { operand } => arg_homed(locals, operand),
        InstrShape::Movq { from, to } => arg_homed(locals, from) && arg_homed(locals, to),
        InstrShape::Pushq { operand } => arg_homed(locals, operand),
        InstrShape::Popq { operand } => arg_homed(locals, operand),
        _ => true,
    }
}

/// Every symbolic operand anywhere in the program has a recorded home: the
/// selector only emits variables the explicator declared.
pub open spec fn program_homed(p: X86ProgramShape<VarArgShape>) -> bool {
    forall|b: int, i: int|
        0 <= b < p.body.len() && 0 <= i < p.body[b].instructions.len() ==> instr_homed(
            p.local_variables,
            #[trigger] p.body[b].instructions[i],
        )
}

/// The operand is not a symbolic variable.
pub open spec fn arg_concrete(a: VarArgShape) -> bool {
    !(a matches VarArgShape::Variable(_))
}

pub open spec fn instr_concrete(i: InstrShape<VarArgShape>) -> bool {
    match i {
        InstrShape::Addq { lhs, rhs } => arg_concrete(lhs) && arg_concrete(rhs),
        InstrShape::Subq { lhs, rhs } => arg_concrete(lhs) && arg_concrete(rhs),
        InstrShape::Negq { operand } => arg_concrete(operand),
        InstrShape::Movq { from, to } => arg_concrete(from) && arg_concrete(to),
        InstrShape::Pushq { operand } => arg_concrete(operand),
        InstrShape::Popq { operand } => arg_concrete(operand),
        _ => true,
    }
}

/// LAW: after home assignment no operand anywhere in the program is a
/// symbolic variable.
pub proof fn lemma_homes_concrete(p: X86ProgramShape<VarArgShape>)
    requires
        program_homed(p),
    ensures
        forall|b: int, i: int|
            0 <= b < assign_homes_shape(p).body.len() && 0 <= i < assign_homes_shape(
                p,
            ).body[b].instructions.len() ==> instr_concrete(
                #[trigger] assign_homes_shape(p).body[b].instructions[i],
            ),
{
    let q = assign_homes_shape(p);
    assert forall|b: int, i: int|
        0 <= b < q.body.len() && 0 <= i < q.body[b].instructions.len() implies instr_concrete(
        #[trigger] q.body[b].instructions[i],
    ) by {
        assert(q.body[b] == map_block(p.local_variables, p.body[b]));
        assert(q.body[b].instructions[i] == map_instr(
            p.local_variables,
            p.body[b].instructions[i],
        ));
        assert(instr_homed(p.local_variables, p.body[b].instructions[i]));
    }
}

/// LAW: with distinct declared names — the renamer's guarantee — the k-th
/// declared variable is homed exactly at offset -8 * (k + 1): offsets are
/// unique, multiples of eight, strictly negative, and densely assigned in
/// first-declaration order starting at -8.
pub proof fn lemma_homes_offsets(locals: Seq<Seq<char>>, k: int)
    requires
        no_duplicate_names(locals),
        0 <= k < locals.len(),
    ensures
        home_offset(locals, locals[k]) == Some(-8 * (k + 1)),
    decreases locals.len(),
{
    if k == locals.len() - 1 {
    } else {
        assert(locals.last() != locals[k]);
        assert(no_duplicate_names(locals.drop_last())) by {
            assert(forall|i: int, j: int|
                0 <= i < j < locals.drop_last().len() ==> locals.drop_last()[i]
                    != locals.drop_last()[j]);
        }
        assert(locals.drop_last()[k] == locals[k]);
        lemma_homes_offsets(locals.drop_last(), k);
    }
}

/// The names of the recorded homes, in recording order.
pub open spec fn table_locals(table: Seq<(Seq<char>, i64)>) -> Seq<Seq<char>> {
    table.map_values(|entry: (Seq<char>, i64)| entry.0)
}

/// The table is well-formed: entry k holds the offset of the k-th name.
pub open spec fn table_wf(table: Seq<(Seq<char>, i64)>) -> bool {
    forall|k: int| 0 <= k < table.len() ==> (#[trigger] table[k]).1 == -8 * (k + 1)
}

struct AssignHomesImpl {
    variable_locations: Vec<(String, i64)>,
}

impl AssignHomesImpl {
    spec fn locals(&self) -> Seq<Seq<char>> {
        table_locals(self.variable_locations.deep_view())
    }

    fn new() -> (pass: Self)
        ensures
            pass.variable_locations.deep_view() == Seq::<(Seq<char>, i64)>::empty(),
    {
        let pass = Self { variable_locations: Vec::new() };
        proof {
            assert(pass.variable_locations.deep_view() =~= Seq::<(Seq<char>, i64)>::empty());
        }
        pass
    }

    /// A stack home relative to the frame base register.
    fn rbp_reg(offset: i64) -> (arg: VarArg)
        ensures
            arg@ == VarArgShape::Deref(Reg::RBP, offset),
    {
        VarArg::Deref(Reg::RBP, offset)
    }

    /// Records one home per declared variable: -8 for the first, eight bytes
    /// lower for each next one.
    fn assign_homes_for_variables(&mut self, variables: Vec<String>)
        requires
            old(self).variable_locations.deep_view() == Seq::<(Seq<char>, i64)>::empty(),
            8 * (variables.deep_view().len() + 1) <= i64::MAX,
        ensures
            final(self).locals() == variables.deep_view(),
            table_wf(final(self).variable_locations.deep_view()),
    {
        let ghost vars_dv = variables.deep_view();
        let mut offset: i64 = -8;
        let mut i: usize = 0;
        proof {
            assert(self.variable_locations.deep_view().len() == 0);
            assert(self.variable_locations@.len() == 0);
        }
        while i < variables.len()
            invariant
                i <= variables.len(),
                vars_dv == variables.deep_view(),
                8 * (vars_dv.len() + 1) <= i64::MAX,
                self.variable_locations.deep_view().len() == i,
                offset == -8 * (i + 1),
                forall|k: int|
                    0 <= k < i ==> #[trigger] self.variable_locations.deep_view()[k] == (
                        vars_dv[k],
                        (-8 * (k + 1)) as i64,
                    ),
            decreases variables.len() - i,
        {
            let ghost dv_before = self.variable_locations.deep_view();
            self.variable_locations.push((variables[i].clone(), offset));
            proof {
                assert(self.variable_locations.deep_view() =~= dv_before.push(
                    (vars_dv[i as int], offset),
                ));
            }
            offset = offset - 8;
            i = i + 1;
        }
        proof {
            assert(self.locals() =~= vars_dv);
        }
    }

    /// Finds the recorded home of a name, latest recording first.
    fn lookup(&self, name: &String) -> (found: Option<i64>)
        requires
            table_wf(self.variable_locations.deep_view()),
        ensures
            match found {
                Some(offset) => home_offset(self.locals(), name@) == Some(offset as int),
                None => home_offset(self.locals(), name@) is None,
            },
    {
        let ghost full = self.locals();
        let mut i: usize = self.variable_locations.len();
        proof {
            assert(full.take(i as int) =~= full);
        }
        while i > 0
            invariant
                i <= self.variable_locations.len(),
                table_wf(self.variable_locations.deep_view()),
                full == self.locals(),
                full.len() == self.variable_locations@.len(),
                home_offset(full, name@) == home_offset(full.take(i as int), name@),
            decreases i,
        {
            let entry = &self.variable_locations[i - 1];
            proof {
                assert(self.variable_locations.deep_view()[i - 1] == (entry.0@, entry.1));
                assert(full[i - 1] == entry.0@);
                assert(full.take(i as int).last() == full[i - 1]);
                assert(full.take(i as int).drop_last() =~= full.take(i - 1));
            }
            if entry.0.eq(name) {
                proof {
                    assert(full.take(i as int).len() == i);
                    assert(home_offset(full.take(i as int), name@) == Some(
                        -8 * (i as int),
                    ));
                    assert((self.variable_locations.deep_view()[i - 1]).1 == -8 * (i - 1 + 1));
                    assert(entry.1 == -8 * (i as int));
                }
                return Some(entry.1);
            }
            i = i - 1;
        }
        proof {
            assert(full.take(0) =~= Seq::<Seq<char>>::empty());
        }
        None
    }

    /// Rewrites one operand: a variable becomes its stack home.
    fn modify_arg(&self, arg: &VarArg) -> (result: VarArg)
        requires
            table_wf(self.variable_locations.deep_view()),
            arg_homed(self.locals(), arg@),
        ensures
            result@ == map_arg(self.locals(), arg@),
    {
        match arg {
            VarArg::Variable(name) => {
                let found = self.lookup(name);
                match found {
                    Some(offset) => Self::rbp_reg(offset),
                    None => {
                        proof {
                            assert(false);
                        }
                        VarArg::Imm(0)
                    },
                }
            },
            VarArg::Imm(v) => VarArg::Imm(*v),
            VarArg::Reg(r) => VarArg::Reg(*r),
            VarArg::Deref(r, offset) => VarArg::Deref(*r, *offset),
        }
    }

    /// Rewrites one instruction's operand positions; call, return and jump
    /// instructions pass through untouched.
    fn modify_instr(&self, instr: &VarInstr) -> (result: VarInstr)
        requires
            table_wf(self.variable_locations.deep_view()),
            instr_homed(self.locals(), instr@),
        ensures
            result@ == map_instr(self.locals(), instr@),
    {
        match instr {
            VarInstr::Addq { lhs, rhs } => VarInstr::Addq {
                lhs: self.modify_arg(lhs),
                rhs: self.modify_arg(rhs),
            },
            VarInstr::Subq { lhs, rhs } => VarInstr::Subq {
                lhs: self.modify_arg(lhs),
                rhs: self.modify_arg(rhs),
            },
            VarInstr::Negq { operand } => VarInstr::Negq { operand: self.modify_arg(operand) },
            VarInstr::Movq { from, to } => VarInstr::Movq {
                from: self.modify_arg(from),
                to: self.modify_arg(to),
            },
            VarInstr::Pushq { operand } => VarInstr::Pushq { operand: self.modify_arg(operand) },
            VarInstr::Popq { operand } => VarInstr::Popq { operand: self.modify_arg(operand) },
            VarInstr::Callq { callee } => VarInstr::Callq { callee: callee.clone() },
            VarInstr::Retq => VarInstr::Retq,
            VarInstr::Jmp { target } => VarInstr::Jmp { target: target.clone() },
        }
    }

    /// Rewrites every instruction of a block.
    fn modify_block(&self, block: &VarBlock) -> (result: VarBlock)
        requires
            table_wf(self.variable_locations.deep_view()),
            forall|i: int|
                0 <= i < block@.instructions.len() ==> instr_homed(
                    self.locals(),
                    #[trigger] block@.instructions[i],
                ),
        ensures
            result@ == map_block(self.locals(), block@),
    {
        let mut instructions: Vec<VarInstr> = Vec::new();
        let mut i: usize = 0;
        proof {
            assert(instructions.deep_view() =~= Seq::<InstrShape<VarArgShape>>::empty());
        }
        while i < block.instructions.len()
            invariant
                i <= block.instructions.len(),
                forall|k: int|
                    0 <= k < block@.instructions.len() ==> instr_homed(
                        self.locals(),
                        #[trigger] block@.instructions[k],
                    ),
                table_wf(self.variable_locations.deep_view()),
                instructions.deep_view() == mapped_instrs(
                    self.locals(),
                    block@.instructions.take(i as int),
                ),
            decreases block.instructions.len() - i,
        {
            let ghost dv_before = instructions.deep_view();
            proof {
                assert(block@.instructions[i as int] == block.instructions@[i as int]@);
            }
            let rewritten = self.modify_instr(&block.instructions[i]);
            let ghost pushed = rewritten@;
            instructions.push(rewritten);
            proof {
                assert(instructions.deep_view() =~= dv_before.push(pushed));
                let all = block@.instructions;
                assert forall|k: int|
                    0 <= k < i + 1 implies mapped_instrs(self.locals(), all.take(i + 1))[k]
                    == instructions.deep_view()[k] by {
                    assert(mapped_instrs(self.locals(), all.take(i + 1))[k] == map_instr(
                        self.locals(),
                        all.take(i + 1)[k],
                    ));
                    if k < i {
                        assert(dv_before[k] == map_instr(self.locals(), all.take(i as int)[k]));
                    }
                }
                assert(instructions.deep_view() =~= mapped_instrs(
                    self.locals(),
                    all.take(i + 1),
                ));
            }
            i = i + 1;
        }
        let result = VarBlock { label: block.label.clone(), instructions };
        proof {
            assert(block@.instructions.take(block@.instructions.len() as int)
                =~= block@.instructions);
            assert(result@ =~~= map_block(self.locals(), block@));
        }
        result
    }
}

/// The home assigner: gives each declared variable a unique stack home,
/// rewrites every operand to use it, and clears the variable list.
pub fn assign_homes(program: VarProgram) -> (result: VarProgram)
    requires
        program_homed(program@),
        8 * (program@.local_variables.len() + 1) <= i64::MAX,
    ensures
        result@ == assign_homes_shape(program@),
{
    let VarProgram { local_variables, body } = program;
    let ghost locals_dv = local_variables.deep_view();
    let mut pass = AssignHomesImpl::new();
    pass.assign_homes_for_variables(local_variables);

    let mut new_body: Vec<VarBlock> = Vec::new();
    let mut i: usize = 0;
    proof {
        assert(new_body.deep_view() =~= Seq::<BlockShape<VarArgShape>>::empty());
    }
    while i < body.len()
        invariant
            i <= body.len(),
            table_wf(pass.variable_locations.deep_view()),
            pass.locals() == locals_dv,
            program@.local_variables == locals_dv,
            program@.body == body.deep_view(),
            program_homed(program@),
            new_body.deep_view() == mapped_blocks(locals_dv, program@.body.take(i as int)),
        decreases body.len() - i,
    {
        proof {
            assert(program@.body[i as int] == body@[i as int]@);
            assert forall|k: int|
                0 <= k < body@[i as int]@.instructions.len() implies instr_homed(
                pass.locals(),
                #[trigger] body@[i as int]@.instructions[k],
            ) by {
                assert(instr_homed(locals_dv, program@.body[i as int].instructions[k]));
            }
        }
        let ghost dv_before = new_body.deep_view();
        let rewritten_block = pass.modify_block(&body[i]);
        let ghost pushed = rewritten_block@;
        new_body.push(rewritten_block);
        proof {
            assert(new_body.deep_view() =~= dv_before.push(pushed));
            let all = program@.body;
            assert forall|k: int|
                0 <= k < i + 1 implies mapped_blocks(locals_dv, all.take(i + 1))[k]
                == new_body.deep_view()[k] by {
                assert(mapped_blocks(locals_dv, all.take(i + 1))[k] == map_block(
                    locals_dv,
                    all.take(i + 1)[k],
                ));
                if k < i {
                    assert(dv_before[k] == map_block(locals_dv, all.take(i as int)[k]));
                }
            }
            assert(new_body.deep_view() =~= mapped_blocks(locals_dv, all.take(i + 1)));
        }
        i = i + 1;
    }
    let result = VarProgram { local_variables: Vec::new(), body: new_body };
    proof {
        assert(program@.body.take(program@.body.len() as int) =~= program@.body);
        assert(result@.local_variables =~= Seq::<Seq<char>>::empty());
        assert(result@ =~~= assign_homes_shape(program@));
    }
    result
}

} // verus!
