//! The pseudo-assembly IR: labeled blocks of x86-like instructions. The
//! instruction shapes are generic over their operand representation; the
//! symbolic stage uses operands that may still name variables, which the home
//! assigner later replaces with concrete stack references.

use vstd::prelude::*;
use vstd::string::*;
use crate::numfmt::dec_chars_signed;
use crate::numfmt::hex_chars;
use crate::numfmt::i64_to_dec;
use crate::numfmt::u64_to_hex;

verus! {

/// The sixteen general-purpose architectural registers.
#[derive(Debug, Eq, PartialEq, Clone, Copy, Structural)]
pub enum Reg {
    RSP,
    RBP,
    RAX,
    RBX,
    RCX,
    RDX,
    RSI,
    RDI,
    R8,
    R9,
    R10,
    R11,
    R12,
    R13,
    R14,
    R15,
}

/// An operand of the symbolic stage: an immediate, a register, a memory
/// reference relative to a register, or a still-symbolic variable name.
#[derive(Debug, Eq, PartialEq, Clone)]
pub enum VarArg {
    Imm(i64),
    Reg(Reg),
    Deref(Reg, i64),
    Variable(String),
}

pub enum VarArgShape {
    Imm(i64),
    Reg(Reg),
    Deref(Reg, i64),
    Variable(Seq<char>),
}

impl View for VarArg {
    type V = VarArgShape;

    open spec fn view(&self) -> VarArgShape {
        match self {
            VarArg::Imm(v) => VarArgShape::Imm(*v),
            VarArg::Reg(r) => VarArgShape::Reg(*r),
            VarArg::Deref(r, offset) => VarArgShape::Deref(*r, *offset),
            VarArg::Variable(name) => VarArgShape::Variable(name@),
        }
    }
}

impl DeepView for VarArg {
    type V = VarArgShape;

    open spec fn deep_view(&self) -> VarArgShape {
        self.view()
    }
}

impl From<Reg> for VarArg {
    fn from(value: Reg) -> (arg: Self) {
        VarArg::Reg(value)
    }
}

impl vstd::std_specs::convert::FromSpecImpl<Reg> for VarArg {
    open spec fn obeys_from_spec() -> bool {
        true
    }

    open spec fn from_spec(value: Reg) -> Self {
        VarArg::Reg(value)
    }
}

/// One instruction shape, generic over the operand representation. For
/// `Addq`/`Subq`, `lhs` is both an input and the output: the instruction
/// computes `lhs := lhs + rhs` or `lhs := lhs - rhs`.
#[derive(Debug, Eq, PartialEq, Clone)]
pub enum Instruction<Arg> {
    Addq { lhs: Arg, rhs: Arg },
    Subq { lhs: Arg, rhs: Arg },
    Negq { operand: Arg },
    Movq { from: Arg, to: Arg },
    Pushq { operand: Arg },
    Popq { operand: Arg },
    Callq { callee: String },
    Retq,
    Jmp { target: String },
}

pub enum InstrShape<A> {
    Addq { lhs: A, rhs: A },
    Subq { lhs: A, rhs: A },
    Negq { operand: A },
    Movq { from: A, to: A },
    Pushq { operand: A },
    Popq { operand: A },
    Callq { callee: Seq<char> },
    Retq,
    Jmp { target: Seq<char> },
}

impl<Arg: DeepView> View for Instruction<Arg> {
    type V = InstrShape<Arg::V>;

    open spec fn view(&self) -> InstrShape<Arg::V> {
        match self {
            Instruction::Addq { lhs, rhs } => InstrShape::Addq {
                lhs: lhs.deep_view(),
                rhs: rhs.deep_view(),
            },
            Instruction::Subq { lhs, rhs } => InstrShape::Subq {
                lhs: lhs.deep_view(),
                rhs: rhs.deep_view(),
            },
            Instruction::Negq { operand } => InstrShape::Negq { operand: operand.deep_view() },
            Instruction::Movq { from, to } => InstrShape::Movq {
                from: from.deep_view(),
                to: to.deep_view(),
            },
            Instruction::Pushq { operand } => InstrShape::Pushq { operand: operand.deep_view() },
            Instruction::Popq { operand } => InstrShape::Popq { operand: operand.deep_view() },
            Instruction::Callq { callee } => InstrShape::Callq { callee: callee@ },
            Instruction::Retq => InstrShape::Retq,
            Instruction::Jmp { target } => InstrShape::Jmp { target: target@ },
        }
    }
}

impl<Arg: DeepView> DeepView for Instruction<Arg> {
    type V = InstrShape<Arg::V>;

    open spec fn deep_view(&self) -> InstrShape<Arg::V> {
        self.view()
    }
}

pub type VarInstr = Instruction<VarArg>;

/// A labeled block of instructions.
#[derive(Debug, Eq, PartialEq, Clone)]
pub struct Block<ArgType> {
    pub label: String,
    pub instructions: Vec<Instruction<ArgType>>,
}

#[verifier::ext_equal]
pub struct BlockShape<A> {
    pub label: Seq<char>,
    pub instructions: Seq<InstrShape<A>>,
}

impl<ArgType: DeepView> View for Block<ArgType> {
    type V = BlockShape<ArgType::V>;

    open spec fn view(&self) -> BlockShape<ArgType::V> {
        BlockShape { label: self.label@, instructions: self.instructions.deep_view() }
    }
}

impl<ArgType: DeepView> DeepView for Block<ArgType> {
    type V = BlockShape<ArgType::V>;

    open spec fn deep_view(&self) -> BlockShape<ArgType::V> {
        self.view()
    }
}

pub type VarBlock = Block<VarArg>;

impl<ArgType: DeepView> Block<ArgType> {
    pub fn new(label: String) -> (block: Self)
        ensures
            block@.label == label@,
            block@.instructions == Seq::<InstrShape<ArgType::V>>::empty(),
    {
        let block = Self { label, instructions: Vec::new() };
        proof {
            assert(block@.instructions =~= Seq::<InstrShape<ArgType::V>>::empty());
        }
        block
    }

    pub fn add_instr(&mut self, instr: Instruction<ArgType>)
        ensures
            final(self)@.label == old(self)@.label,
            final(self)@.instructions == old(self)@.instructions.push(instr@),
    {
        let ghost before = self@.instructions;
        let ghost pushed = instr@;
        self.instructions.push(instr);
        proof {
            assert(self@.instructions =~= before.push(pushed));
        }
    }
}

/// A pseudo-assembly program: the declared variable names carried over from
/// the three-address program (cleared once homes are assigned) and the
/// ordered blocks.
#[derive(Debug, Eq, PartialEq, Clone)]
pub struct Program<ArgType> {
    pub local_variables: Vec<String>,
    pub body: Vec<Block<ArgType>>,
}

#[verifier::ext_equal]
pub struct X86ProgramShape<A> {
    pub local_variables: Seq<Seq<char>>,
    pub body: Seq<BlockShape<A>>,
}

impl<ArgType: DeepView> View for Program<ArgType> {
    type V = X86ProgramShape<ArgType::V>;

    open spec fn view(&self) -> X86ProgramShape<ArgType::V> {
        X86ProgramShape {
            local_variables: self.local_variables.deep_view(),
            body: self.body.deep_view(),
        }
    }
}

impl<ArgType: DeepView> DeepView for Program<ArgType> {
    type V = X86ProgramShape<ArgType::V>;

    open spec fn deep_view(&self) -> X86ProgramShape<ArgType::V> {
        self.view()
    }
}

pub type VarProgram = Program<VarArg>;

impl<ArgType: DeepView> Program<ArgType> {
    pub fn new() -> (program: Self)
        ensures
            program@.local_variables == Seq::<Seq<char>>::empty(),
            program@.body == Seq::<BlockShape<ArgType::V>>::empty(),
    {
        let program = Self { local_variables: Vec::new(), body: Vec::new() };
        proof {
            assert(program@.local_variables =~= Seq::<Seq<char>>::empty());
            assert(program@.body =~= Seq::<BlockShape<ArgType::V>>::empty());
        }
        program
    }
}

pub open spec fn reg_text(r: Reg) -> Seq<char> {
    match r {
        Reg::RSP => "%rsp"@,
        Reg::RBP => "%rbp"@,
        Reg::RAX => "%rax"@,
        Reg::RBX => "%rbx"@,
        Reg::RCX => "%rcx"@,
        Reg::RDX => "%rdx"@,
        Reg::RSI => "%rsi"@,
        Reg::RDI => "%rdi"@,
        Reg::R8 => "%r8"@,
        Reg::R9 => "%r9"@,
        Reg::R10 => "%r10"@,
        Reg::R11 => "%r11"@,
        Reg::R12 => "%r12"@,
        Reg::R13 => "%r13"@,
        Reg::R14 => "%r14"@,
        Reg::R15 => "%r15"@,
    }
}

/// An immediate renders as `$0x` and the hexadecimal form of its 64-bit
/// two's-complement representation; a memory reference as a signed decimal
/// offset before the parenthesized base register.
pub open spec fn arg_text(a: VarArgShape) -> Seq<char> {
    match a {
        VarArgShape::Imm(v) => "$0x"@ + hex_chars((v as u64) as nat),
        VarArgShape::Reg(r) => reg_text(r),
        VarArgShape::Deref(r, offset) => dec_chars_signed(offset as int) + "("@ + reg_text(r)
            + ")"@,
        VarArgShape::Variable(name) => name,
    }
}

/// One rendered instruction: the mnemonic padded to eight columns, then the
/// operands in AT&T order — source first, destination second.
pub open spec fn instr_text(i: InstrShape<VarArgShape>) -> Seq<char> {
    match i {
        InstrShape::Addq { lhs, rhs } => "addq    "@ + arg_text(rhs) + ", "@ + arg_text(lhs),
        InstrShape::Subq { lhs, rhs } => "subq    "@ + arg_text(rhs) + ", "@ + arg_text(lhs),
        InstrShape::Negq { operand } => "negq    "@ + arg_text(operand),
        InstrShape::Movq { from, to } => "movq    "@ + arg_text(from) + ", "@ + arg_text(to),
        InstrShape::Pushq { operand } => "pushq   "@ + arg_text(operand),
        InstrShape::Popq { operand } => "popq    "@ + arg_text(operand),
        InstrShape::Callq { callee } => "callq   "@ + callee,
        InstrShape::Retq => "retq"@,
        InstrShape::Jmp { target } => "jmp     "@ + target,
    }
}

/// The instruction lines of a block, each indented and newline-terminated.
pub open spec fn instr_lines_text(instrs: Seq<InstrShape<VarArgShape>>) -> Seq<char>
    decreases instrs.len(),
{
    if instrs.len() == 0 {
        Seq::empty()
    } else {
        instr_lines_text(instrs.drop_last()) + "    "@ + instr_text(instrs.last()) + "\n"@
    }
}

pub open spec fn block_text(b: BlockShape<VarArgShape>) -> Seq<char> {
    b.label + ":\n"@ + instr_lines_text(b.instructions)
}

pub open spec fn blocks_text(blocks: Seq<BlockShape<VarArgShape>>) -> Seq<char>
    decreases blocks.len(),
{
    if blocks.len() == 0 {
        Seq::empty()
    } else {
        blocks_text(blocks.drop_last()) + block_text(blocks.last())
    }
}

pub open spec fn program_text(p: X86ProgramShape<VarArgShape>) -> Seq<char> {
    blocks_text(p.body)
}

fn reg_to_code(r: &Reg) -> (s: &'static str)
    ensures
        s@ == reg_text(*r),
{
    match r {
        Reg::RSP => "%rsp",
        Reg::RBP => "%rbp",
        Reg::RAX => "%rax",
        Reg::RBX => "%rbx",
        Reg::RCX => "%rcx",
        Reg::RDX => "%rdx",
        Reg::RSI => "%rsi",
        Reg::RDI => "%rdi",
        Reg::R8 => "%r8",
        Reg::R9 => "%r9",
        Reg::R10 => "%r10",
        Reg::R11 => "%r11",
        Reg::R12 => "%r12",
        Reg::R13 => "%r13",
        Reg::R14 => "%r14",
        Reg::R15 => "%r15",
    }
}

impl VarArg {
    pub fn to_code(&self) -> (s: String)
        ensures
            s@ == arg_text(self@),
    {
        match self {
            VarArg::Imm(v) => {
                let mut s = String::from_str("$0x");
                let hex = u64_to_hex(#[verifier::truncate] (*v as u64));
                s.append(hex.as_str());
                proof {
                    assert(s@ =~= arg_text(self@));
                }
                s
            },
            VarArg::Reg(r) => String::from_str(reg_to_code(r)),
            VarArg::Deref(r, offset) => {
                let mut s = i64_to_dec(*offset);
                s.append("(");
                s.append(reg_to_code(r));
                s.append(")");
                proof {
                    assert(s@ =~= arg_text(self@));
                }
                s
            },
            VarArg::Variable(name) => name.clone(),
        }
    }
}

impl Instruction<VarArg> {
    pub fn to_code(&self) -> (s: String)
        ensures
            s@ == instr_text(self@),
    {
        match self {
            Instruction::Addq { lhs, rhs } => {
                let mut s = String::from_str("addq    ");
                let rhs_code = rhs.to_code();
                s.append(rhs_code.as_str());
                s.append(", ");
                let lhs_code = lhs.to_code();
                s.append(lhs_code.as_str());
                proof {
                    assert(s@ =~= instr_text(self@));
                }
                s
            },
            Instruction::Subq { lhs, rhs } => {
                let mut s = String::from_str("subq    ");
                let rhs_code = rhs.to_code();
                s.append(rhs_code.as_str());
                s.append(", ");
                let lhs_code = lhs.to_code();
                s.append(lhs_code.as_str());
                proof {
                    assert(s@ =~= instr_text(self@));
                }
                s
            },
            Instruction::Negq { operand } => {
                let mut s = String::from_str("negq    ");
                let operand_code = operand.to_code();
                s.append(operand_code.as_str());
                proof {
                    assert(s@ =~= instr_text(self@));
                }
                s
            },
            Instruction::Movq { from, to } => {
                let mut s = String::from_str("movq    ");
                let from_code = from.to_code();
                s.append(from_code.as_str());
                s.append(", ");
                let to_code = to.to_code();
                s.append(to_code.as_str());
                proof {
                    assert(s@ =~= instr_text(self@));
                }
                s
            },
            Instruction::Pushq { operand } => {
                let mut s = String::from_str("pushq   ");
                let operand_code = operand.to_code();
                s.append(operand_code.as_str());
                proof {
                    assert(s@ =~= instr_text(self@));
                }
                s
            },
            Instruction::Popq { operand } => {
                let mut s = String::from_str("popq    ");
                let operand_code = operand.to_code();
                s.append(operand_code.as_str());
                proof {
                    assert(s@ =~= instr_text(self@));
                }
                s
            },
            Instruction::Callq { callee } => {
                let mut s = String::from_str("callq   ");
                s.append(callee.as_str());
                proof {
                    assert(s@ =~= instr_text(self@));
                }
                s
            },
            Instruction::Retq => String::from_str("retq"),
            Instruction::Jmp { target } => {
                let mut s = String::from_str("jmp     ");
                s.append(target.as_str());
                proof {
                    assert(s@ =~= instr_text(self@));
                }
                s
            },
        }
    }
}

impl Block<VarArg> {
    pub fn to_code(&self) -> (s: String)
        ensures
            s@ == block_text(self@),
    {
        let mut s = self.label.clone();
        s.append(":\n");
        let ghost header = s@;
        let mut i: usize = 0;
        while i < self.instructions.len()
            invariant
                i <= self.instructions.len(),
                s@ == header + instr_lines_text(self.instructions.deep_view().take(i as int)),
            decreases self.instructions.len() - i,
        {
            s.append("    ");
            let line = self.instructions[i].to_code();
            s.append(line.as_str());
            s.append("\n");
            proof {
                let dv = self.instructions.deep_view();
                assert(dv.take(i + 1).drop_last() =~= dv.take(i as int));
                assert(dv.take(i + 1).last() == dv[i as int]);
                assert(dv[i as int] == self.instructions@[i as int]@);
                assert(s@ =~= header + instr_lines_text(dv.take(i + 1)));
            }
            i = i + 1;
        }
        proof {
            let dv = self.instructions.deep_view();
            assert(dv.take(dv.len() as int) =~= dv);
            assert(s@ =~= block_text(self@));
        }
        s
    }
}

impl Program<VarArg> {
    pub fn to_code(&self) -> (s: String)
        ensures
            s@ == program_text(self@),
    {
        let mut s = String::new();
        let mut i: usize = 0;
        while i < self.body.len()
            invariant
                i <= self.body.len(),
                s@ == blocks_text(self.body.deep_view().take(i as int)),
            decreases self.body.len() - i,
        {
            let block_code = self.body[i].to_code();
            s.append(block_code.as_str());
            proof {
                let dv = self.body.deep_view();
                assert(dv.take(i + 1).drop_last() =~= dv.take(i as int));
                assert(dv.take(i + 1).last() == dv[i as int]);
                assert(dv[i as int] == self.body@[i as int]@);
                assert(s@ =~= blocks_text(dv.take(i + 1)));
            }
            i = i + 1;
        }
        proof {
            let dv = self.body.deep_view();
            assert(dv.take(dv.len() as int) =~= dv);
            assert(s@ =~= program_text(self@));
        }
        s
    }
}

} // verus!
