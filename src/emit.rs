//! The text of an x86 program in AT&T syntax.
use vstd::prelude::*;
use crate::codegen::{asm_view, AsmBinary, AsmInstr, AsmProgram, AsmUnary, AsmView, CondCode, Operand, OperandView, Reg};
use crate::names::{int_text, push_int};
use crate::error::Error;

verus! {

pub open spec fn reg32(r: Reg) -> Seq<char> {
    match r {
        Reg::AX => "%eax"@,
        Reg::DX => "%edx"@,
        Reg::CX => "%ecx"@,
        Reg::R10 => "%r10d"@,
        Reg::R11 => "%r11d"@,
    }
}

pub open spec fn reg8(r: Reg) -> Seq<char> {
    match r {
        Reg::AX => "%al"@,
        Reg::DX => "%dl"@,
        Reg::CX => "%cl"@,
        Reg::R10 => "%r10b"@,
        Reg::R11 => "%r11b"@,
    }
}

/// An operand's text; registers by their one-byte names when `byte` holds.
pub open spec fn operand_text(o: OperandView, byte: bool) -> Seq<char> {
    match o {
        OperandView::Imm(i) => "$"@ + int_text(i as int),
        OperandView::Register(r) => if byte { reg8(r) } else { reg32(r) },
        OperandView::Stack(off) => int_text(off as int) + "(%rbp)"@,
        OperandView::Pseudo(_) => Seq::empty(),
    }
}

pub open spec fn cc_text(cc: CondCode) -> Seq<char> {
    match cc {
        CondCode::E => "e"@,
        CondCode::NE => "ne"@,
        CondCode::G => "g"@,
        CondCode::GE => "ge"@,
        CondCode::L => "l"@,
        CondCode::LE => "le"@,
    }
}

pub open spec fn binary_mnemonic(op: AsmBinary) -> Seq<char> {
    match op {
        AsmBinary::Add => "  addl "@,
        AsmBinary::Sub => "  subl "@,
        AsmBinary::Mult => "  imull "@,
        AsmBinary::And => "  andl "@,
        AsmBinary::Or => "  orl "@,
        AsmBinary::Xor => "  xorl "@,
        AsmBinary::Shl => "  shll "@,
        AsmBinary::Sar => "  sarl "@,
    }
}

pub open spec fn two(m: Seq<char>, a: Seq<char>, b: Seq<char>) -> Seq<char> {
    m + a + ", "@ + b + "\n"@
}

/// The text of one instruction, ending in a newline.
pub open spec fn instr_text(i: AsmView) -> Seq<char> {
    match i {
        AsmView::Mov { src, dst } => two("  movl "@, operand_text(src, false), operand_text(dst, false)),
        AsmView::Ret => "  movq %rbp, %rsp\n  popq %rbp\n  ret\n"@,
        AsmView::AllocateStack(n) => "  subq $"@ + int_text(n as int) + ", %rsp\n"@,
        AsmView::Unary { op, operand } => (if op == AsmUnary::Neg { "  negl "@ } else { "  notl "@ })
            + operand_text(operand, false) + "\n"@,
        AsmView::Binary { op, src, dst } => two(binary_mnemonic(op),
            operand_text(src, (op == AsmBinary::Shl || op == AsmBinary::Sar) && src == OperandView::Register(Reg::CX)),
            operand_text(dst, false)),
        AsmView::Cmp { lhs, rhs } => two("  cmpl "@, operand_text(lhs, false), operand_text(rhs, false)),
        AsmView::Idiv(o) => "  idivl "@ + operand_text(o, false) + "\n"@,
        AsmView::Cdq => "  cdq\n"@,
        AsmView::Jmp(l) => "  jmp .L"@ + l + "\n"@,
        AsmView::JmpCC { cc, label } => "  j"@ + cc_text(cc) + " .L"@ + label + "\n"@,
        AsmView::SetCC { cc, operand } => "  set"@ + cc_text(cc) + " "@ + operand_text(operand, true) + "\n"@,
        AsmView::Label(l) => ".L"@ + l + ":\n"@,
    }
}

pub open spec fn mentions_pseudo(i: AsmView) -> bool {
    match i {
        AsmView::Mov { src, dst } => src is Pseudo || dst is Pseudo,
        AsmView::Unary { operand, .. } => operand is Pseudo,
        AsmView::Binary { src, dst, .. } => src is Pseudo || dst is Pseudo,
        AsmView::Cmp { lhs, rhs } => lhs is Pseudo || rhs is Pseudo,
        AsmView::Idiv(o) => o is Pseudo,
        AsmView::SetCC { operand, .. } => operand is Pseudo,
        _ => false,
    }
}

pub open spec fn body_text(s: Seq<AsmView>) -> Seq<char>
    decreases s.len(),
{
    if s.len() == 0 {
        Seq::empty()
    } else {
        body_text(s.drop_last()) + instr_text(s.last())
    }
}

/// The whole file: the function's prologue and body, and on Linux the note
/// that the stack is not executable.  On macOS symbols take a leading `_`.
pub open spec fn program_text(name: Seq<char>, body: Seq<AsmView>, macos: bool) -> Seq<char> {
    let sym = if macos { "_"@ + name } else { name };
    ".globl "@ + sym + "\n"@ + sym + ":\n"@ + "  pushq %rbp\n  movq %rsp, %rbp\n"@ + body_text(body)
        + if macos { Seq::empty() } else { ".section .note.GNU-stack,\"\",@progbits\n"@ }
}

fn push_operand(s: &mut String, o: &Operand, byte: bool)
    ensures
        final(s)@ == old(s)@ + operand_text(o@, byte),
{
    match o {
        Operand::Imm(i) => {
            s.append("$");
            push_int(s, *i);
        },
        Operand::Register(r) => {
            let t = if byte {
                match r { Reg::AX => "%al", Reg::DX => "%dl", Reg::CX => "%cl", Reg::R10 => "%r10b", Reg::R11 => "%r11b" }
            } else {
                match r { Reg::AX => "%eax", Reg::DX => "%edx", Reg::CX => "%ecx", Reg::R10 => "%r10d", Reg::R11 => "%r11d" }
            };
            s.append(t);
        },
        Operand::Stack(off) => {
            push_int(s, *off);
            s.append("(%rbp)");
        },
        Operand::Pseudo(_) => {},
    }
    assert(final(s)@ =~= old(s)@ + operand_text(o@, byte));
}

impl Operand {
    /// Appends the operand with registers by their one-byte names, as
    /// `set<cc>` and shift counts need.  A pseudo-register has no text and
    /// is an error.
    pub fn emit_one_byte(&self, s: &mut String) -> (r: Result<(), Error>)
        ensures
            final(s)@ == old(s)@ + operand_text(self@, true),
            r is Err <==> self@ is Pseudo,
            r matches Err(e) ==> e is CodeEmission,
    {
        push_operand(s, self, true);
        if is_pseudo(self) { Err(Error::CodeEmission) } else { Ok(()) }
    }
}

fn push_two(s: &mut String, m: &str, a: &Operand, a_byte: bool, b: &Operand)
    ensures
        final(s)@ == old(s)@ + two(m@, operand_text(a@, a_byte), operand_text(b@, false)),
{
    s.append(m);
    push_operand(s, a, a_byte);
    s.append(", ");
    push_operand(s, b, false);
    s.append("\n");
    assert(final(s)@ =~= old(s)@ + two(m@, operand_text(a@, a_byte), operand_text(b@, false)));
}

fn cc_str(cc: CondCode) -> (r: &'static str)
    ensures
        r@ == cc_text(cc),
{
    match cc {
        CondCode::E => "e",
        CondCode::NE => "ne",
        CondCode::G => "g",
        CondCode::GE => "ge",
        CondCode::L => "l",
        CondCode::LE => "le",
    }
}

/// Appends the text of one instruction.
pub fn push_instruction(s: &mut String, i: &AsmInstr)
    ensures
        final(s)@ == old(s)@ + instr_text(i@),
{
    let ghost s0 = s@;
    match i {
        AsmInstr::Mov { src, dst } => push_two(s, "  movl ", src, false, dst),
        AsmInstr::Ret => s.append("  movq %rbp, %rsp\n  popq %rbp\n  ret\n"),
        AsmInstr::AllocateStack(n) => {
            s.append("  subq $");
            push_int(s, *n);
            s.append(", %rsp\n");
        },
        AsmInstr::Unary { op, operand } => {
            s.append(if *op == AsmUnary::Neg { "  negl " } else { "  notl " });
            push_operand(s, operand, false);
            s.append("\n");
        },
        AsmInstr::Binary { op, src, dst } => {
            let m = match op {
                AsmBinary::Add => "  addl ",
                AsmBinary::Sub => "  subl ",
                AsmBinary::Mult => "  imull ",
                AsmBinary::And => "  andl ",
                AsmBinary::Or => "  orl ",
                AsmBinary::Xor => "  xorl ",
                AsmBinary::Shl => "  shll ",
                AsmBinary::Sar => "  sarl ",
            };
            let byte = (*op == AsmBinary::Shl || *op == AsmBinary::Sar) && matches!(src, Operand::Register(Reg::CX));
            push_two(s, m, src, byte, dst);
        },
        AsmInstr::Cmp { lhs, rhs } => push_two(s, "  cmpl ", lhs, false, rhs),
        AsmInstr::Idiv(o) => {
            s.append("  idivl ");
            push_operand(s, o, false);
            s.append("\n");
        },
        AsmInstr::Cdq => s.append("  cdq\n"),
        AsmInstr::Jmp(l) => {
            s.append("  jmp .L");
            s.append(l.as_str());
            s.append("\n");
        },
        AsmInstr::JmpCC { cc, label } => {
            s.append("  j");
            s.append(cc_str(*cc));
            s.append(" .L");
            s.append(label.as_str());
            s.append("\n");
        },
        AsmInstr::SetCC { cc, operand } => {
            s.append("  set");
            s.append(cc_str(*cc));
            s.append(" ");
            let _ = operand.emit_one_byte(s);
            s.append("\n");
        },
        AsmInstr::Label(l) => {
            s.append(".L");
            s.append(l.as_str());
            s.append(":\n");
        },
    }
    assert(final(s)@ =~= s0 + instr_text(i@));
}

fn is_pseudo(o: &Operand) -> (r: bool)
    ensures
        r == (o@ is Pseudo),
{
    matches!(o, Operand::Pseudo(_))
}

fn has_pseudo(i: &AsmInstr) -> (r: bool)
    ensures
        r == mentions_pseudo(i@),
{
    match i {
        AsmInstr::Mov { src, dst } => is_pseudo(src) || is_pseudo(dst),
        AsmInstr::Unary { operand, .. } => is_pseudo(operand),
        AsmInstr::Binary { src, dst, .. } => is_pseudo(src) || is_pseudo(dst),
        AsmInstr::Cmp { lhs, rhs } => is_pseudo(lhs) || is_pseudo(rhs),
        AsmInstr::Idiv(o) => is_pseudo(o),
        AsmInstr::SetCC { operand, .. } => is_pseudo(operand),
        _ => false,
    }
}

/// The assembly text of a program.  `None` when a pseudo-register is left,
/// which only a program that has not been through `asm_gen` can hold.
pub fn code_emission(p: &AsmProgram, macos: bool) -> (r: Option<String>)
    ensures
        r is None <==> exists|k: int| 0 <= k < p.body_view().len() && mentions_pseudo(#[trigger] p.body_view()[k]),
        r matches Some(t) ==> t@ == program_text(p.function.name@, p.body_view(), macos),
{
    let body = &p.function.instructions;
    let ghost bv = asm_view(body@);
    let mut s = String::new();
    s.append(".globl ");
    if macos {
        s.append("_");
    }
    s.append(p.function.name.as_str());
    s.append("\n");
    if macos {
        s.append("_");
    }
    s.append(p.function.name.as_str());
    s.append(":\n");
    s.append("  pushq %rbp\n  movq %rsp, %rbp\n");
    let ghost head = s@;
    let mut i: usize = 0;
    while i < body.len()
        invariant
            0 <= i <= body@.len(),
            bv == asm_view(body@),
            bv == p.body_view(),
            s@ == head + body_text(asm_view(body@.subrange(0, i as int))),
            forall|k: int| 0 <= k < i ==> !mentions_pseudo(#[trigger] bv[k]),
        decreases body@.len() - i,
    {
        if has_pseudo(&body[i]) {
            assert(bv[i as int] == body@[i as int]@);
            assert(mentions_pseudo(p.body_view()[i as int]));
            return None;
        }
        push_instruction(&mut s, &body[i]);
        assert(asm_view(body@.subrange(0, i + 1)).drop_last() =~= asm_view(body@.subrange(0, i as int)));
        i = i + 1;
    }
    assert(body@.subrange(0, i as int) =~= body@);
    if !macos {
        s.append(".section .note.GNU-stack,\"\",@progbits\n");
    }
    let ghost name = p.function.name@;
    let ghost sym = if macos { "_"@ + name } else { name };
    assert(head =~= ".globl "@ + sym + "\n"@ + sym + ":\n"@ + "  pushq %rbp\n  movq %rsp, %rbp\n"@);
    assert(s@ =~= program_text(name, bv, macos));
    Some(s)
}

} // verus!
