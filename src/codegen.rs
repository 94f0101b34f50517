//! The x86-64 instruction tree and its construction from three-address code.
use vstd::prelude::*;
use crate::tacky::{instrs_view, InstrView, Instruction, TacBinary, TacFunction, TacProgram, TacUnary, Value, ValueView};

verus! {

#[derive(Clone, Copy, Debug, PartialEq, Eq, Structural)]
pub enum Reg {
    AX,
    DX,
    CX,
    R10,
    R11,
}

#[derive(Clone, Copy, Debug, PartialEq, Eq, Structural)]
pub enum AsmUnary {
    Neg,
    Not,
}

#[derive(Clone, Copy, Debug, PartialEq, Eq, Structural)]
pub enum AsmBinary {
    Add,
    Sub,
    Mult,
    And,
    Or,
    Xor,
    Shl,
    Sar,
}

#[derive(Clone, Copy, Debug, PartialEq, Eq, Structural)]
pub enum CondCode {
    E,
    NE,
    G,
    GE,
    L,
    LE,
}

#[derive(Debug)]
pub enum Operand {
    Imm(i64),
    Register(Reg),
    Pseudo(String),
    /// An offset from `%rbp`.
    Stack(i64),
}

#[derive(Debug)]
pub enum AsmInstr {
    Mov { src: Operand, dst: Operand },
    Ret,
    AllocateStack(i64),
    Unary { op: AsmUnary, operand: Operand },
    Binary { op: AsmBinary, src: Operand, dst: Operand },
    /// `cmp lhs, rhs` sets the flags from `rhs - lhs`.
    Cmp { lhs: Operand, rhs: Operand },
    Idiv(Operand),
    Cdq,
    Jmp(String),
    JmpCC { cc: CondCode, label: String },
    SetCC { cc: CondCode, operand: Operand },
    Label(String),
}

#[derive(Debug)]
pub struct AsmFunction {
    pub name: String,
    pub instructions: Vec<AsmInstr>,
}

#[derive(Debug)]
pub struct AsmProgram {
    pub function: AsmFunction,
}

pub enum OperandView {
    Imm(i64),
    Register(Reg),
    Pseudo(Seq<char>),
    Stack(i64),
}

pub enum AsmView {
    Mov { src: OperandView, dst: OperandView },
    Ret,
    AllocateStack(i64),
    Unary { op: AsmUnary, operand: OperandView },
    Binary { op: AsmBinary, src: OperandView, dst: OperandView },
    Cmp { lhs: OperandView, rhs: OperandView },
    Idiv(OperandView),
    Cdq,
    Jmp(Seq<char>),
    JmpCC { cc: CondCode, label: Seq<char> },
    SetCC { cc: CondCode, operand: OperandView },
    Label(Seq<char>),
}

impl View for Operand {
    type V = OperandView;

    open spec fn view(&self) -> OperandView {
        match self {
            Operand::Imm(i) => OperandView::Imm(*i),
            Operand::Register(r) => OperandView::Register(*r),
            Operand::Pseudo(s) => OperandView::Pseudo(s@),
            Operand::Stack(o) => OperandView::Stack(*o),
        }
    }
}

impl View for AsmInstr {
    type V = AsmView;

    open spec fn view(&self) -> AsmView {
        match self {
            AsmInstr::Mov { src, dst } => AsmView::Mov { src: src@, dst: dst@ },
            AsmInstr::Ret => AsmView::Ret,
            AsmInstr::AllocateStack(n) => AsmView::AllocateStack(*n),
            AsmInstr::Unary { op, operand } => AsmView::Unary { op: *op, operand: operand@ },
            AsmInstr::Binary { op, src, dst } => AsmView::Binary { op: *op, src: src@, dst: dst@ },
            AsmInstr::Cmp { lhs, rhs } => AsmView::Cmp { lhs: lhs@, rhs: rhs@ },
            AsmInstr::Idiv(o) => AsmView::Idiv(o@),
            AsmInstr::Cdq => AsmView::Cdq,
            AsmInstr::Jmp(l) => AsmView::Jmp(l@),
            AsmInstr::JmpCC { cc, label } => AsmView::JmpCC { cc: *cc, label: label@ },
            AsmInstr::SetCC { cc, operand } => AsmView::SetCC { cc: *cc, operand: operand@ },
            AsmInstr::Label(l) => AsmView::Label(l@),
        }
    }
}

pub open spec fn asm_view(s: Seq<AsmInstr>) -> Seq<AsmView> {
    s.map_values(|i: AsmInstr| i@)
}

impl AsmProgram {
    pub open spec fn body_view(&self) -> Seq<AsmView> {
        asm_view(self.function.instructions@)
    }
}

pub proof fn lemma_asm_view_push(s: Seq<AsmInstr>, i: AsmInstr)
    ensures
        asm_view(s.push(i)) == asm_view(s).push(i@),
{
    assert(asm_view(s.push(i)) =~= asm_view(s).push(i@));
}

pub fn push_asm(out: &mut Vec<AsmInstr>, i: AsmInstr)
    ensures
        asm_view(final(out)@) == asm_view(old(out)@).push(i@),
{
    proof { lemma_asm_view_push(out@, i); }
    out.push(i);
}

pub open spec fn operand_of(v: ValueView) -> OperandView {
    match v {
        ValueView::Constant(c) => OperandView::Imm(c as i64),
        ValueView::Var(x) => OperandView::Pseudo(x),
    }
}

pub open spec fn reg(r: Reg) -> OperandView {
    OperandView::Register(r)
}

/// The condition code that tests a relational operator.
pub open spec fn cond_code(op: TacBinary) -> CondCode {
    match op {
        TacBinary::Equal => CondCode::E,
        TacBinary::NotEqual => CondCode::NE,
        TacBinary::LessThan => CondCode::L,
        TacBinary::Leq => CondCode::LE,
        TacBinary::GreaterThan => CondCode::G,
        _ => CondCode::GE,
    }
}

pub open spec fn is_relational(op: TacBinary) -> bool {
    op == TacBinary::Equal || op == TacBinary::NotEqual || op == TacBinary::LessThan
        || op == TacBinary::Leq || op == TacBinary::GreaterThan || op == TacBinary::Geq
}

pub open spec fn asm_binop(op: TacBinary) -> AsmBinary {
    match op {
        TacBinary::Add => AsmBinary::Add,
        TacBinary::Subtract => AsmBinary::Sub,
        TacBinary::Multiply => AsmBinary::Mult,
        TacBinary::BitwiseAnd => AsmBinary::And,
        TacBinary::BitwiseOr => AsmBinary::Or,
        TacBinary::BitwiseXor => AsmBinary::Xor,
        TacBinary::LeftShift => AsmBinary::Shl,
        _ => AsmBinary::Sar,
    }
}

/// The x86 instructions for one three-address instruction.
pub open spec fn asm_of(i: InstrView) -> Seq<AsmView> {
    match i {
        InstrView::Return(v) => seq![AsmView::Mov { src: operand_of(v), dst: reg(Reg::AX) }, AsmView::Ret],
        InstrView::Unary { op, src, dst } => {
            let d = operand_of(dst);
            if op == TacUnary::Not {
                seq![AsmView::Cmp { lhs: OperandView::Imm(0), rhs: operand_of(src) },
                    AsmView::Mov { src: OperandView::Imm(0), dst: d },
                    AsmView::SetCC { cc: CondCode::E, operand: d }]
            } else {
                seq![AsmView::Mov { src: operand_of(src), dst: d },
                    AsmView::Unary { op: if op == TacUnary::Negate { AsmUnary::Neg } else { AsmUnary::Not }, operand: d }]
            }
        },
        InstrView::Binary { op, src1, src2, dst } => {
            let (a, b, d) = (operand_of(src1), operand_of(src2), operand_of(dst));
            if op == TacBinary::Divide || op == TacBinary::Remainder {
                seq![AsmView::Mov { src: a, dst: reg(Reg::AX) }, AsmView::Cdq, AsmView::Idiv(b),
                    AsmView::Mov { src: if op == TacBinary::Divide { reg(Reg::AX) } else { reg(Reg::DX) }, dst: d }]
            } else if op == TacBinary::LeftShift || op == TacBinary::RightShift {
                seq![AsmView::Mov { src: a, dst: d }, AsmView::Mov { src: b, dst: reg(Reg::CX) },
                    AsmView::Binary { op: asm_binop(op), src: reg(Reg::CX), dst: d }]
            } else if is_relational(op) {
                seq![AsmView::Cmp { lhs: b, rhs: a }, AsmView::Mov { src: OperandView::Imm(0), dst: d },
                    AsmView::SetCC { cc: cond_code(op), operand: d }]
            } else {
                seq![AsmView::Mov { src: a, dst: d }, AsmView::Binary { op: asm_binop(op), src: b, dst: d }]
            }
        },
        InstrView::Copy { src, dst } => seq![AsmView::Mov { src: operand_of(src), dst: operand_of(dst) }],
        InstrView::Jump(l) => seq![AsmView::Jmp(l)],
        InstrView::JumpIfZero { cond, target } => seq![AsmView::Cmp { lhs: OperandView::Imm(0), rhs: operand_of(cond) },
            AsmView::JmpCC { cc: CondCode::E, label: target }],
        InstrView::JumpIfNotZero { cond, target } => seq![AsmView::Cmp { lhs: OperandView::Imm(0), rhs: operand_of(cond) },
            AsmView::JmpCC { cc: CondCode::NE, label: target }],
        InstrView::Label(l) => seq![AsmView::Label(l)],
    }
}

/// The x86 instructions for a sequence of three-address instructions, in order.
pub open spec fn asm_of_all(s: Seq<InstrView>) -> Seq<AsmView>
    decreases s.len(),
{
    if s.len() == 0 {
        Seq::empty()
    } else {
        asm_of_all(s.drop_last()) + asm_of(s.last())
    }
}

pub fn parse_operand(v: &Value) -> (r: Operand)
    ensures
        r@ == operand_of(v@),
{
    match v {
        Value::Constant(c) => Operand::Imm(*c as i64),
        Value::Var(x) => Operand::Pseudo(x.clone()),
    }
}

pub fn parse_relational_to_cc(op: TacBinary) -> (r: CondCode)
    ensures
        r == cond_code(op),
{
    match op {
        TacBinary::Equal => CondCode::E,
        TacBinary::NotEqual => CondCode::NE,
        TacBinary::LessThan => CondCode::L,
        TacBinary::Leq => CondCode::LE,
        TacBinary::GreaterThan => CondCode::G,
        _ => CondCode::GE,
    }
}

pub fn parse_binary(op: TacBinary) -> (r: AsmBinary)
    ensures
        r == asm_binop(op),
{
    match op {
        TacBinary::Add => AsmBinary::Add,
        TacBinary::Subtract => AsmBinary::Sub,
        TacBinary::Multiply => AsmBinary::Mult,
        TacBinary::BitwiseAnd => AsmBinary::And,
        TacBinary::BitwiseOr => AsmBinary::Or,
        TacBinary::BitwiseXor => AsmBinary::Xor,
        TacBinary::LeftShift => AsmBinary::Shl,
        _ => AsmBinary::Sar,
    }
}

/// The x86 operation of `-` (negl) or `~` (notl).
pub fn parse_unary(op: TacUnary) -> (r: AsmUnary)
    ensures
        r == (if op == TacUnary::Negate { AsmUnary::Neg } else { AsmUnary::Not }),
{
    if op == TacUnary::Negate { AsmUnary::Neg } else { AsmUnary::Not }
}

/// Appends the x86 instructions for one three-address instruction.
pub fn parse_instruction(i: &Instruction, out: &mut Vec<AsmInstr>)
    ensures
        asm_view(final(out)@) == asm_view(old(out)@) + asm_of(i@),
{
    let ghost out0 = asm_view(out@);
    match i {
        Instruction::Return(v) => {
            push_asm(out, AsmInstr::Mov { src: parse_operand(v), dst: Operand::Register(Reg::AX) });
            push_asm(out, AsmInstr::Ret);
        },
        Instruction::Unary { op, src, dst } => {
            if *op == TacUnary::Not {
                push_asm(out, AsmInstr::Cmp { lhs: Operand::Imm(0), rhs: parse_operand(src) });
                push_asm(out, AsmInstr::Mov { src: Operand::Imm(0), dst: parse_operand(dst) });
                push_asm(out, AsmInstr::SetCC { cc: CondCode::E, operand: parse_operand(dst) });
            } else {
                push_asm(out, AsmInstr::Mov { src: parse_operand(src), dst: parse_operand(dst) });
                push_asm(out, AsmInstr::Unary { op: parse_unary(*op), operand: parse_operand(dst) });
            }
        },
        Instruction::Binary { op, src1, src2, dst } => {
            let op = *op;
            if op == TacBinary::Divide || op == TacBinary::Remainder {
                push_asm(out, AsmInstr::Mov { src: parse_operand(src1), dst: Operand::Register(Reg::AX) });
                push_asm(out, AsmInstr::Cdq);
                push_asm(out, AsmInstr::Idiv(parse_operand(src2)));
                let r = if op == TacBinary::Divide { Reg::AX } else { Reg::DX };
                push_asm(out, AsmInstr::Mov { src: Operand::Register(r), dst: parse_operand(dst) });
            } else if op == TacBinary::LeftShift || op == TacBinary::RightShift {
                push_asm(out, AsmInstr::Mov { src: parse_operand(src1), dst: parse_operand(dst) });
                push_asm(out, AsmInstr::Mov { src: parse_operand(src2), dst: Operand::Register(Reg::CX) });
                push_asm(out, AsmInstr::Binary { op: parse_binary(op), src: Operand::Register(Reg::CX), dst: parse_operand(dst) });
            } else if op == TacBinary::Equal || op == TacBinary::NotEqual || op == TacBinary::LessThan
                || op == TacBinary::Leq || op == TacBinary::GreaterThan || op == TacBinary::Geq {
                push_asm(out, AsmInstr::Cmp { lhs: parse_operand(src2), rhs: parse_operand(src1) });
                push_asm(out, AsmInstr::Mov { src: Operand::Imm(0), dst: parse_operand(dst) });
                push_asm(out, AsmInstr::SetCC { cc: parse_relational_to_cc(op), operand: parse_operand(dst) });
            } else {
                push_asm(out, AsmInstr::Mov { src: parse_operand(src1), dst: parse_operand(dst) });
                push_asm(out, AsmInstr::Binary { op: parse_binary(op), src: parse_operand(src2), dst: parse_operand(dst) });
            }
        },
        Instruction::Copy { src, dst } => {
            push_asm(out, AsmInstr::Mov { src: parse_operand(src), dst: parse_operand(dst) });
        },
        Instruction::Jump(l) => {
            push_asm(out, AsmInstr::Jmp(l.clone()));
        },
        Instruction::JumpIfZero { cond, target } => {
            push_asm(out, AsmInstr::Cmp { lhs: Operand::Imm(0), rhs: parse_operand(cond) });
            push_asm(out, AsmInstr::JmpCC { cc: CondCode::E, label: target.clone() });
        },
        Instruction::JumpIfNotZero { cond, target } => {
            push_asm(out, AsmInstr::Cmp { lhs: Operand::Imm(0), rhs: parse_operand(cond) });
            push_asm(out, AsmInstr::JmpCC { cc: CondCode::NE, label: target.clone() });
        },
        Instruction::Label(l) => {
            push_asm(out, AsmInstr::Label(l.clone()));
        },
    }
    assert(asm_view(out@) =~= out0 + asm_of(i@));
}

/// Builds the x86 instructions of a function, one three-address
/// instruction at a time; operands are still pseudo-registers.
pub fn parse_function(func: &TacFunction) -> (r: AsmFunction)
    ensures
        r.name@ == func.name@,
        asm_view(r.instructions@) == asm_of_all(instrs_view(func.body@)),
{
    let body = &func.body;
    let mut out: Vec<AsmInstr> = Vec::new();
    let mut i: usize = 0;
    while i < body.len()
        invariant
            0 <= i <= body@.len(),
            asm_view(out@) == asm_of_all(instrs_view(body@.subrange(0, i as int))),
        decreases body@.len() - i,
    {
        let ghost pre = instrs_view(body@.subrange(0, i as int));
        parse_instruction(&body[i], &mut out);
        assert(instrs_view(body@.subrange(0, i + 1)).drop_last() =~= pre);
        assert(instrs_view(body@.subrange(0, i + 1)).last() == body@[i as int]@);
        i = i + 1;
    }
    assert(body@.subrange(0, i as int) =~= body@);
    AsmFunction { name: func.name.clone(), instructions: out }
}

/// Builds the x86 tree of a program.
pub fn parse_program(p: &TacProgram) -> (r: AsmProgram)
    ensures
        r.function.name@ == p.function.name@,
        r.body_view() == asm_of_all(p.body_view()),
{
    AsmProgram { function: parse_function(&p.function) }
}

} // verus!
