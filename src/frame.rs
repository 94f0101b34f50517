//! Stack slots for pseudo-registers, and the rewriting of instructions that
//! x86 does not accept as they stand.
use vstd::prelude::*;
use crate::codegen::{asm_of_all, asm_view, parse_program, push_asm, AsmBinary, AsmFunction, AsmInstr, AsmProgram, AsmView, Operand, OperandView, Reg};
use crate::tacky::TacProgram;

verus! {

/// No more instructions than this are given stack slots.
pub const MAX_INSTRUCTIONS: usize = 1073741824;

pub open spec fn names_view(s: Seq<String>) -> Seq<Seq<char>> {
    s.map_values(|x: String| x@)
}

/// The position of the first occurrence of `x` in `seen`, or -1.
pub open spec fn slot_index(seen: Seq<Seq<char>>, x: Seq<char>) -> int
    decreases seen.len(),
{
    if seen.len() == 0 {
        -1
    } else if seen[0] == x {
        0
    } else {
        let k = slot_index(seen.subrange(1, seen.len() as int), x);
        if k < 0 { -1 } else { k + 1 }
    }
}

/// The stack offset of the `k`-th pseudo-register: -4, -8, -12, ...
pub open spec fn slot_offset(k: int) -> int {
    -4 * (k + 1)
}

/// Replaces a pseudo-register by its slot, giving a new name the next slot.
pub open spec fn replace_operand(o: OperandView, seen: Seq<Seq<char>>) -> (OperandView, Seq<Seq<char>>) {
    match o {
        OperandView::Pseudo(x) => {
            let k = slot_index(seen, x);
            if k >= 0 {
                (OperandView::Stack(slot_offset(k) as i64), seen)
            } else {
                (OperandView::Stack(slot_offset(seen.len() as int) as i64), seen.push(x))
            }
        },
        _ => (o, seen),
    }
}

pub open spec fn replace_pair(a: OperandView, b: OperandView, seen: Seq<Seq<char>>) -> (OperandView, OperandView, Seq<Seq<char>>) {
    let (a1, s1) = replace_operand(a, seen);
    let (b1, s2) = replace_operand(b, s1);
    (a1, b1, s2)
}

/// Replaces the operands of one instruction, first to last.
pub open spec fn replace_instr(i: AsmView, seen: Seq<Seq<char>>) -> (AsmView, Seq<Seq<char>>) {
    match i {
        AsmView::Mov { src, dst } => {
            let (a, b, s) = replace_pair(src, dst, seen);
            (AsmView::Mov { src: a, dst: b }, s)
        },
        AsmView::Unary { op, operand } => {
            let (a, s) = replace_operand(operand, seen);
            (AsmView::Unary { op, operand: a }, s)
        },
        AsmView::Binary { op, src, dst } => {
            let (a, b, s) = replace_pair(src, dst, seen);
            (AsmView::Binary { op, src: a, dst: b }, s)
        },
        AsmView::Cmp { lhs, rhs } => {
            let (a, b, s) = replace_pair(lhs, rhs, seen);
            (AsmView::Cmp { lhs: a, rhs: b }, s)
        },
        AsmView::Idiv(o) => {
            let (a, s) = replace_operand(o, seen);
            (AsmView::Idiv(a), s)
        },
        AsmView::SetCC { cc, operand } => {
            let (a, s) = replace_operand(operand, seen);
            (AsmView::SetCC { cc, operand: a }, s)
        },
        _ => (i, seen),
    }
}

/// Replaces the pseudo-registers of a sequence of instructions, in order:
/// the result and the names met, in the order in which they were first met.
pub open spec fn replace_all(s: Seq<AsmView>) -> (Seq<AsmView>, Seq<Seq<char>>)
    decreases s.len(),
{
    if s.len() == 0 {
        (Seq::empty(), Seq::empty())
    } else {
        let (pre, seen) = replace_all(s.drop_last());
        let (i, seen2) = replace_instr(s.last(), seen);
        (pre.push(i), seen2)
    }
}

pub open spec fn is_stack(o: OperandView) -> bool {
    o is Stack
}

/// The instructions that do the work of `i` within x86's operand rules.
pub open spec fn legalize(i: AsmView) -> Seq<AsmView> {
    let r10 = OperandView::Register(Reg::R10);
    let r11 = OperandView::Register(Reg::R11);
    match i {
        AsmView::Mov { src, dst } => if is_stack(src) && is_stack(dst) {
            seq![AsmView::Mov { src, dst: r10 }, AsmView::Mov { src: r10, dst }]
        } else {
            seq![i]
        },
        AsmView::Binary { op, src, dst } => if op == AsmBinary::Mult && is_stack(dst) {
            seq![AsmView::Mov { src: dst, dst: r11 }, AsmView::Binary { op, src, dst: r11 }, AsmView::Mov { src: r11, dst }]
        } else if (op == AsmBinary::Add || op == AsmBinary::Sub || op == AsmBinary::And || op == AsmBinary::Or
            || op == AsmBinary::Xor) && is_stack(src) && is_stack(dst) {
            seq![AsmView::Mov { src, dst: r10 }, AsmView::Binary { op, src: r10, dst }]
        } else {
            seq![i]
        },
        AsmView::Idiv(o) => if o is Imm {
            seq![AsmView::Mov { src: o, dst: r10 }, AsmView::Idiv(r10)]
        } else {
            seq![i]
        },
        AsmView::Cmp { lhs, rhs } => if rhs is Imm {
            seq![AsmView::Mov { src: rhs, dst: r11 }, AsmView::Cmp { lhs, rhs: r11 }]
        } else if is_stack(lhs) && is_stack(rhs) {
            seq![AsmView::Mov { src: lhs, dst: r10 }, AsmView::Cmp { lhs: r10, rhs }]
        } else {
            seq![i]
        },
        _ => seq![i],
    }
}

pub open spec fn legalize_all(s: Seq<AsmView>) -> Seq<AsmView>
    decreases s.len(),
{
    if s.len() == 0 {
        Seq::empty()
    } else {
        legalize_all(s.drop_last()) + legalize(s.last())
    }
}

/// The final function body: room for every slot, then the legal instructions.
pub open spec fn frame_body(s: Seq<AsmView>) -> Seq<AsmView> {
    let (replaced, seen) = replace_all(s);
    seq![AsmView::AllocateStack((4 * seen.len()) as i64)] + legalize_all(replaced)
}

fn find_slot(seen: &Vec<String>, x: &String) -> (r: Option<usize>)
    ensures
        r matches Some(k) ==> k < seen@.len() && slot_index(names_view(seen@), x@) == k,
        r is None ==> slot_index(names_view(seen@), x@) == -1,
{
    let ghost v = names_view(seen@);
    let n = seen.len();
    let mut j: usize = 0;
    assert(v.subrange(0, n as int) =~= v);
    while j < n
        invariant
            0 <= j <= n,
            n == seen@.len(),
            v == names_view(seen@),
            slot_index(v, x@) == (if slot_index(v.subrange(j as int, n as int), x@) < 0 { -1 }
                else { j + slot_index(v.subrange(j as int, n as int), x@) }),
        decreases n - j,
    {
        let ghost sub = v.subrange(j as int, n as int);
        assert(sub[0] == seen@[j as int]@);
        if seen[j] == *x {
            return Some(j);
        }
        assert(sub.subrange(1, sub.len() as int) =~= v.subrange(j + 1, n as int));
        j = j + 1;
    }
    None
}

fn replace_one(o: &Operand, seen: &mut Vec<String>) -> (r: Operand)
    requires
        old(seen)@.len() < MAX_INSTRUCTIONS * 2,
    ensures
        (r@, names_view(final(seen)@)) == replace_operand(o@, names_view(old(seen)@)),
        final(seen)@.len() <= old(seen)@.len() + 1,
{
    match o {
        Operand::Pseudo(x) => {
            match find_slot(seen, x) {
                Some(k) => Operand::Stack(-4 * (k as i64 + 1)),
                None => {
                    let k = seen.len();
                    let ghost before = names_view(seen@);
                    seen.push(x.clone());
                    assert(names_view(seen@) =~= before.push(x@));
                    Operand::Stack(-4 * (k as i64 + 1))
                },
            }
        },
        Operand::Imm(i) => Operand::Imm(*i),
        Operand::Register(r) => Operand::Register(*r),
        Operand::Stack(s) => Operand::Stack(*s),
    }
}

fn replace_instruction(i: &AsmInstr, seen: &mut Vec<String>) -> (r: AsmInstr)
    requires
        old(seen)@.len() + 2 <= MAX_INSTRUCTIONS * 2,
    ensures
        (r@, names_view(final(seen)@)) == replace_instr(i@, names_view(old(seen)@)),
        final(seen)@.len() <= old(seen)@.len() + 2,
{
    match i {
        AsmInstr::Mov { src, dst } => {
            let a = replace_one(src, seen);
            let b = replace_one(dst, seen);
            AsmInstr::Mov { src: a, dst: b }
        },
        AsmInstr::Unary { op, operand } => AsmInstr::Unary { op: *op, operand: replace_one(operand, seen) },
        AsmInstr::Binary { op, src, dst } => {
            let a = replace_one(src, seen);
            let b = replace_one(dst, seen);
            AsmInstr::Binary { op: *op, src: a, dst: b }
        },
        AsmInstr::Cmp { lhs, rhs } => {
            let a = replace_one(lhs, seen);
            let b = replace_one(rhs, seen);
            AsmInstr::Cmp { lhs: a, rhs: b }
        },
        AsmInstr::Idiv(o) => AsmInstr::Idiv(replace_one(o, seen)),
        AsmInstr::SetCC { cc, operand } => AsmInstr::SetCC { cc: *cc, operand: replace_one(operand, seen) },
        AsmInstr::Ret => AsmInstr::Ret,
        AsmInstr::AllocateStack(n) => AsmInstr::AllocateStack(*n),
        AsmInstr::Cdq => AsmInstr::Cdq,
        AsmInstr::Jmp(l) => AsmInstr::Jmp(l.clone()),
        AsmInstr::JmpCC { cc, label } => AsmInstr::JmpCC { cc: *cc, label: label.clone() },
        AsmInstr::Label(l) => AsmInstr::Label(l.clone()),
    }
}

/// Replaces every pseudo-register by a stack slot: the same name always gets
/// the same slot, and a new name the next one down.  Returns the names met.
pub fn replace_psuedoregisters(instrs: &Vec<AsmInstr>) -> (r: (Vec<AsmInstr>, Vec<String>))
    requires
        instrs@.len() <= MAX_INSTRUCTIONS,
    ensures
        (asm_view(r.0@), names_view(r.1@)) == replace_all(asm_view(instrs@)),
        r.1@.len() <= 2 * instrs@.len(),
{
    let mut out: Vec<AsmInstr> = Vec::new();
    let mut seen: Vec<String> = Vec::new();
    let mut i: usize = 0;
    assert(names_view(seen@) =~= Seq::<Seq<char>>::empty());
    while i < instrs.len()
        invariant
            0 <= i <= instrs@.len() <= MAX_INSTRUCTIONS,
            seen@.len() <= 2 * i,
            (asm_view(out@), names_view(seen@)) == replace_all(asm_view(instrs@.subrange(0, i as int))),
        decreases instrs@.len() - i,
    {
        let r = replace_instruction(&instrs[i], &mut seen);
        push_asm(&mut out, r);
        assert(asm_view(instrs@.subrange(0, i + 1)).drop_last() =~= asm_view(instrs@.subrange(0, i as int)));
        i = i + 1;
    }
    assert(instrs@.subrange(0, i as int) =~= instrs@);
    (out, seen)
}

fn take_operand(o: &Operand) -> (r: Operand)
    ensures
        r@ == o@,
{
    match o {
        Operand::Pseudo(x) => Operand::Pseudo(x.clone()),
        Operand::Imm(i) => Operand::Imm(*i),
        Operand::Register(r) => Operand::Register(*r),
        Operand::Stack(s) => Operand::Stack(*s),
    }
}

fn copy_instr(i: &AsmInstr) -> (r: AsmInstr)
    ensures
        r@ == i@,
{
    match i {
        AsmInstr::Mov { src, dst } => AsmInstr::Mov { src: take_operand(src), dst: take_operand(dst) },
        AsmInstr::Unary { op, operand } => AsmInstr::Unary { op: *op, operand: take_operand(operand) },
        AsmInstr::Binary { op, src, dst } => AsmInstr::Binary { op: *op, src: take_operand(src), dst: take_operand(dst) },
        AsmInstr::Cmp { lhs, rhs } => AsmInstr::Cmp { lhs: take_operand(lhs), rhs: take_operand(rhs) },
        AsmInstr::Idiv(o) => AsmInstr::Idiv(take_operand(o)),
        AsmInstr::SetCC { cc, operand } => AsmInstr::SetCC { cc: *cc, operand: take_operand(operand) },
        AsmInstr::Ret => AsmInstr::Ret,
        AsmInstr::AllocateStack(n) => AsmInstr::AllocateStack(*n),
        AsmInstr::Cdq => AsmInstr::Cdq,
        AsmInstr::Jmp(l) => AsmInstr::Jmp(l.clone()),
        AsmInstr::JmpCC { cc, label } => AsmInstr::JmpCC { cc: *cc, label: label.clone() },
        AsmInstr::Label(l) => AsmInstr::Label(l.clone()),
    }
}

/// Appends the legal form of one instruction.
pub fn legalize_instruction(i: &AsmInstr, out: &mut Vec<AsmInstr>)
    ensures
        asm_view(final(out)@) == asm_view(old(out)@) + legalize(i@),
{
    let ghost out0 = asm_view(out@);
    let r10 = Operand::Register(Reg::R10);
    match i {
        AsmInstr::Mov { src: src @ Operand::Stack(_), dst: dst @ Operand::Stack(_) } => {
            push_asm(out, AsmInstr::Mov { src: take_operand(src), dst: Operand::Register(Reg::R10) });
            push_asm(out, AsmInstr::Mov { src: Operand::Register(Reg::R10), dst: take_operand(dst) });
        },
        AsmInstr::Binary { op: AsmBinary::Mult, src, dst: dst @ Operand::Stack(_) } => {
            push_asm(out, AsmInstr::Mov { src: take_operand(dst), dst: Operand::Register(Reg::R11) });
            push_asm(out, AsmInstr::Binary { op: AsmBinary::Mult, src: take_operand(src), dst: Operand::Register(Reg::R11) });
            push_asm(out, AsmInstr::Mov { src: Operand::Register(Reg::R11), dst: take_operand(dst) });
        },
        AsmInstr::Binary { op: op @ (AsmBinary::Add | AsmBinary::Sub | AsmBinary::And | AsmBinary::Or | AsmBinary::Xor),
            src: src @ Operand::Stack(_), dst: dst @ Operand::Stack(_) } => {
            push_asm(out, AsmInstr::Mov { src: take_operand(src), dst: r10 });
            push_asm(out, AsmInstr::Binary { op: *op, src: Operand::Register(Reg::R10), dst: take_operand(dst) });
        },
        AsmInstr::Idiv(o @ Operand::Imm(_)) => {
            push_asm(out, AsmInstr::Mov { src: take_operand(o), dst: r10 });
            push_asm(out, AsmInstr::Idiv(Operand::Register(Reg::R10)));
        },
        AsmInstr::Cmp { lhs, rhs: rhs @ Operand::Imm(_) } => {
            push_asm(out, AsmInstr::Mov { src: take_operand(rhs), dst: Operand::Register(Reg::R11) });
            push_asm(out, AsmInstr::Cmp { lhs: take_operand(lhs), rhs: Operand::Register(Reg::R11) });
        },
        AsmInstr::Cmp { lhs: lhs @ Operand::Stack(_), rhs: rhs @ Operand::Stack(_) } => {
            push_asm(out, AsmInstr::Mov { src: take_operand(lhs), dst: r10 });
            push_asm(out, AsmInstr::Cmp { lhs: Operand::Register(Reg::R10), rhs: take_operand(rhs) });
        },
        _ => {
            push_asm(out, copy_instr(i));
        },
    }
    assert(asm_view(out@) =~= out0 + legalize(i@));
}

/// Reserves `4 * slots` bytes of stack and makes every instruction legal.
pub fn resolve_stack(replaced: &Vec<AsmInstr>, slots: usize) -> (r: Vec<AsmInstr>)
    requires
        slots <= 2 * MAX_INSTRUCTIONS,
    ensures
        asm_view(r@) == seq![AsmView::AllocateStack((4 * slots) as i64)] + legalize_all(asm_view(replaced@)),
{
    let mut out: Vec<AsmInstr> = Vec::new();
    push_asm(&mut out, AsmInstr::AllocateStack(4 * slots as i64));
    let mut i: usize = 0;
    while i < replaced.len()
        invariant
            0 <= i <= replaced@.len(),
            asm_view(out@) == seq![AsmView::AllocateStack((4 * slots) as i64)]
                + legalize_all(asm_view(replaced@.subrange(0, i as int))),
        decreases replaced@.len() - i,
    {
        legalize_instruction(&replaced[i], &mut out);
        assert(asm_view(replaced@.subrange(0, i + 1)).drop_last() =~= asm_view(replaced@.subrange(0, i as int)));
        i = i + 1;
    }
    assert(replaced@.subrange(0, i as int) =~= replaced@);
    out
}

/// The x86 program of three-address code: built, every pseudo-register
/// given a stack slot, the frame reserved and every instruction made legal.
/// `None` only for a body of more than `MAX_INSTRUCTIONS` x86 instructions.
pub fn asm_gen(p: &TacProgram) -> (r: Option<AsmProgram>)
    ensures
        r is Some <==> asm_of_all(p.body_view()).len() <= MAX_INSTRUCTIONS,
        r matches Some(q) ==> q.function.name@ == p.function.name@
            && q.body_view() == frame_body(asm_of_all(p.body_view())),
{
    let built = parse_program(p);
    let instrs = &built.function.instructions;
    assert(asm_view(instrs@).len() == instrs@.len());
    if instrs.len() > MAX_INSTRUCTIONS {
        return None;
    }
    let (replaced, seen) = replace_psuedoregisters(instrs);
    let out = resolve_stack(&replaced, seen.len());
    Some(AsmProgram { function: AsmFunction { name: built.function.name, instructions: out } })
}

} // verus!
