//! Three-address code and the lowering of a validated syntax tree into it.
use vstd::prelude::*;
use crate::ast::{BinaryOperator, BlockItem, Declaration, Expression, ForInit, PostfixOperator, Program, Statement, UnaryOperator};
use crate::names::{label_name, make_temp_identifier, make_temp_label, temp_name, NameGen};
use crate::error::Error;
use crate::ast::{Block, Function};
use crate::checks::{items_lvalues_ok, stmt_lvalues_ok};
use crate::loops::{items_labels_present, stmt_labels_present};

verus! {

#[derive(Clone, Copy, Debug, PartialEq, Eq, Structural)]
pub enum TacUnary {
    Complement,
    Negate,
    Not,
}

#[derive(Clone, Copy, Debug, PartialEq, Eq, Structural)]
pub enum TacBinary {
    Add,
    Subtract,
    Multiply,
    Divide,
    Remainder,
    BitwiseAnd,
    BitwiseOr,
    BitwiseXor,
    LeftShift,
    RightShift,
    Equal,
    NotEqual,
    LessThan,
    Leq,
    GreaterThan,
    Geq,
}

#[derive(Debug)]
pub enum Value {
    Constant(i32),
    Var(String),
}

#[derive(Debug)]
pub enum Instruction {
    Return(Value),
    Unary { op: TacUnary, src: Value, dst: Value },
    Binary { op: TacBinary, src1: Value, src2: Value, dst: Value },
    Copy { src: Value, dst: Value },
    Jump(String),
    JumpIfZero { cond: Value, target: String },
    JumpIfNotZero { cond: Value, target: String },
    Label(String),
}

#[derive(Debug)]
pub struct TacFunction {
    pub name: String,
    pub body: Vec<Instruction>,
}

#[derive(Debug)]
pub struct TacProgram {
    pub function: TacFunction,
}

/// What a `Value` denotes, with names as character sequences.
pub enum ValueView {
    Constant(i32),
    Var(Seq<char>),
}

/// What an `Instruction` denotes, with names as character sequences.
pub enum InstrView {
    Return(ValueView),
    Unary { op: TacUnary, src: ValueView, dst: ValueView },
    Binary { op: TacBinary, src1: ValueView, src2: ValueView, dst: ValueView },
    Copy { src: ValueView, dst: ValueView },
    Jump(Seq<char>),
    JumpIfZero { cond: ValueView, target: Seq<char> },
    JumpIfNotZero { cond: ValueView, target: Seq<char> },
    Label(Seq<char>),
}

impl View for Value {
    type V = ValueView;

    open spec fn view(&self) -> ValueView {
        match self {
            Value::Constant(c) => ValueView::Constant(*c),
            Value::Var(s) => ValueView::Var(s@),
        }
    }
}

impl View for Instruction {
    type V = InstrView;

    open spec fn view(&self) -> InstrView {
        match self {
            Instruction::Return(v) => InstrView::Return(v@),
            Instruction::Unary { op, src, dst } => InstrView::Unary { op: *op, src: src@, dst: dst@ },
            Instruction::Binary { op, src1, src2, dst } => InstrView::Binary { op: *op, src1: src1@, src2: src2@, dst: dst@ },
            Instruction::Copy { src, dst } => InstrView::Copy { src: src@, dst: dst@ },
            Instruction::Jump(l) => InstrView::Jump(l@),
            Instruction::JumpIfZero { cond, target } => InstrView::JumpIfZero { cond: cond@, target: target@ },
            Instruction::JumpIfNotZero { cond, target } => InstrView::JumpIfNotZero { cond: cond@, target: target@ },
            Instruction::Label(l) => InstrView::Label(l@),
        }
    }
}

/// The views of a sequence of instructions.
pub open spec fn instrs_view(s: Seq<Instruction>) -> Seq<InstrView> {
    s.map_values(|i: Instruction| i@)
}

pub proof fn lemma_instrs_view_push(s: Seq<Instruction>, i: Instruction)
    ensures
        instrs_view(s.push(i)) == instrs_view(s).push(i@),
{
    assert(instrs_view(s.push(i)) =~= instrs_view(s).push(i@));
}

/// The three-address operator of a non-logical binary operator.
pub open spec fn tac_binop(op: BinaryOperator) -> TacBinary {
    match op {
        BinaryOperator::Add => TacBinary::Add,
        BinaryOperator::Subtract => TacBinary::Subtract,
        BinaryOperator::Multiply => TacBinary::Multiply,
        BinaryOperator::Divide => TacBinary::Divide,
        BinaryOperator::Remainder => TacBinary::Remainder,
        BinaryOperator::BitwiseAnd => TacBinary::BitwiseAnd,
        BinaryOperator::BitwiseOr => TacBinary::BitwiseOr,
        BinaryOperator::BitwiseXor => TacBinary::BitwiseXor,
        BinaryOperator::LeftShift => TacBinary::LeftShift,
        BinaryOperator::RightShift => TacBinary::RightShift,
        BinaryOperator::Equal => TacBinary::Equal,
        BinaryOperator::NotEqual => TacBinary::NotEqual,
        BinaryOperator::LessThan => TacBinary::LessThan,
        BinaryOperator::Leq => TacBinary::Leq,
        BinaryOperator::GreaterThan => TacBinary::GreaterThan,
        BinaryOperator::Geq => TacBinary::Geq,
        BinaryOperator::And | BinaryOperator::Or => TacBinary::BitwiseAnd,
    }
}

pub open spec fn is_logical(op: BinaryOperator) -> bool {
    op == BinaryOperator::And || op == BinaryOperator::Or
}

/// The variable that an lvalue finally names: `x` for `x`, `++x`, `--(++x)`.
pub open spec fn lvalue_name(e: Expression) -> Seq<char>
    decreases e,
{
    match e {
        Expression::Var(v) => v@,
        Expression::Unary { expr, .. } => lvalue_name(*expr),
        _ => Seq::empty(),
    }
}

/// An expression that lowering accepts: every assignment targets a
/// variable, every increment and decrement an lvalue, and no compound
/// assignment is `&&` or `||`.
pub open spec fn expr_lowerable(e: Expression) -> bool
    decreases e,
{
    match e {
        Expression::IntConstant(_) | Expression::Var(_) => true,
        Expression::Unary { op, expr } => expr_lowerable(*expr) && ((op == UnaryOperator::Increment
            || op == UnaryOperator::Decrement) ==> expr.spec_is_lvalue()),
        Expression::Binary { left, right, .. } => expr_lowerable(*left) && expr_lowerable(*right),
        Expression::Assignment { left, right, op } => expr_lowerable(*left) && expr_lowerable(*right)
            && (*left) is Var && (op matches Some(o) ==> !is_logical(o)),
        Expression::Postfix { expr, .. } => expr_lowerable(*expr) && expr.spec_is_lvalue(),
        Expression::Conditional { cond, then_expr, else_expr } => expr_lowerable(*cond)
            && expr_lowerable(*then_expr) && expr_lowerable(*else_expr),
    }
}

/// The instructions that store `rhs` into `v`, or combine `v` with it by `op`.
pub open spec fn store(v: Seq<char>, rhs: ValueView, op: Option<BinaryOperator>) -> InstrView {
    match op {
        None => InstrView::Copy { src: rhs, dst: ValueView::Var(v) },
        Some(o) => InstrView::Binary { op: tac_binop(o), src1: ValueView::Var(v), src2: rhs, dst: ValueView::Var(v) },
    }
}

/// Lowering of an assignment target from counter `n`: a variable emits
/// nothing, a prefix increment or decrement is lowered first.
pub open spec fn target_prefix(lowered: (Seq<InstrView>, ValueView, nat), left: Expression, n: nat) -> (Seq<InstrView>, nat) {
    match left {
        Expression::Var(_) => (Seq::empty(), n),
        _ => (lowered.0, lowered.2),
    }
}

/// Lowering of an expression from counter `n`: the instructions, the value
/// that holds the result, and the counter after it.
pub open spec fn tac_expr(e: Expression, f: Seq<char>, n: nat) -> (Seq<InstrView>, ValueView, nat)
    decreases e,
{
    match e {
        Expression::IntConstant(c) => (Seq::empty(), ValueView::Constant(c), n),
        Expression::Var(v) => (Seq::empty(), ValueView::Var(v@), n),
        Expression::Unary { op, expr } => {
            if op == UnaryOperator::Increment || op == UnaryOperator::Decrement {
                let (il, n1) = target_prefix(tac_expr(*expr, f, n), *expr, n);
                let v = lvalue_name(*expr);
                let bop = if op == UnaryOperator::Increment { BinaryOperator::Add } else { BinaryOperator::Subtract };
                (il + seq![store(v, ValueView::Constant(1), Some(bop))], ValueView::Var(v), n1)
            } else {
                let (i, s, n1) = tac_expr(*expr, f, n);
                let d = ValueView::Var(temp_name(f, n1));
                let top = if op == UnaryOperator::Complement { TacUnary::Complement }
                    else if op == UnaryOperator::Negate { TacUnary::Negate } else { TacUnary::Not };
                (i + seq![InstrView::Unary { op: top, src: s, dst: d }], d, n1 + 1)
            }
        },
        Expression::Binary { op, left, right } => {
            if op == BinaryOperator::And || op == BinaryOperator::Or {
                let (il, lv, n1) = tac_expr(*left, f, n);
                let short = label_name(f, n1);
                let d = ValueView::Var(temp_name(f, n1 + 1));
                let (ir, rv, n2) = tac_expr(*right, f, n1 + 2);
                let end = label_name(f, n2);
                let (jump_l, jump_r, first, second) = if op == BinaryOperator::And {
                    (InstrView::JumpIfZero { cond: lv, target: short }, InstrView::JumpIfZero { cond: rv, target: short }, 1i32, 0i32)
                } else {
                    (InstrView::JumpIfNotZero { cond: lv, target: short }, InstrView::JumpIfNotZero { cond: rv, target: short }, 0i32, 1i32)
                };
                (il + seq![jump_l] + ir + seq![jump_r,
                    InstrView::Copy { src: ValueView::Constant(first), dst: d },
                    InstrView::Jump(end),
                    InstrView::Label(short),
                    InstrView::Copy { src: ValueView::Constant(second), dst: d },
                    InstrView::Label(end)], d, n2 + 1)
            } else {
                let (il, lv, n1) = tac_expr(*left, f, n);
                let (ir, rv, n2) = tac_expr(*right, f, n1);
                let d = ValueView::Var(temp_name(f, n2));
                (il + ir + seq![InstrView::Binary { op: tac_binop(op), src1: lv, src2: rv, dst: d }], d, n2 + 1)
            }
        },
        Expression::Assignment { left, right, op } => {
            let (il, n1) = target_prefix(tac_expr(*left, f, n), *left, n);
            let (ir, rv, n2) = tac_expr(*right, f, n1);
            let v = lvalue_name(*left);
            (il + ir + seq![store(v, rv, op)], ValueView::Var(v), n2)
        },
        Expression::Postfix { op, expr } => {
            let (i, s, n1) = tac_expr(*expr, f, n);
            let d = ValueView::Var(temp_name(f, n1));
            let bop = if op == PostfixOperator::Increment { TacBinary::Add } else { TacBinary::Subtract };
            (i + seq![InstrView::Copy { src: s, dst: d },
                InstrView::Binary { op: bop, src1: s, src2: ValueView::Constant(1), dst: s }], d, n1 + 1)
        },
        Expression::Conditional { cond, then_expr, else_expr } => {
            let (ic, cv, n1) = tac_expr(*cond, f, n);
            let end = label_name(f, n1);
            let e2 = label_name(f, n1 + 1);
            let (it, v1, n2) = tac_expr(*then_expr, f, n1 + 2);
            let r = ValueView::Var(temp_name(f, n2));
            let (ie, v2, n3) = tac_expr(*else_expr, f, n2 + 1);
            (ic + seq![InstrView::JumpIfZero { cond: cv, target: e2 }] + it
                + seq![InstrView::Copy { src: v1, dst: r }, InstrView::Jump(end), InstrView::Label(e2)]
                + ie + seq![InstrView::Copy { src: v2, dst: r }, InstrView::Label(end)], r, n3)
        },
    }
}

/// Lowering never moves the counter backwards.
pub proof fn lemma_tac_expr_counter(e: Expression, f: Seq<char>, n: nat)
    ensures
        tac_expr(e, f, n).2 >= n,
    decreases e,
{
    match e {
        Expression::IntConstant(_) | Expression::Var(_) => {},
        Expression::Unary { op, expr } => {
            lemma_tac_expr_counter(*expr, f, n);
        },
        Expression::Binary { op, left, right } => {
            lemma_tac_expr_counter(*left, f, n);
            let n1 = tac_expr(*left, f, n).2;
            lemma_tac_expr_counter(*right, f, n1);
            lemma_tac_expr_counter(*right, f, n1 + 2);
        },
        Expression::Assignment { left, right, op } => {
            lemma_tac_expr_counter(*left, f, n);
            let n1 = target_prefix(tac_expr(*left, f, n), *left, n).1;
            lemma_tac_expr_counter(*right, f, n1);
        },
        Expression::Postfix { op, expr } => {
            lemma_tac_expr_counter(*expr, f, n);
        },
        Expression::Conditional { cond, then_expr, else_expr } => {
            lemma_tac_expr_counter(*cond, f, n);
            let n1 = tac_expr(*cond, f, n).2;
            lemma_tac_expr_counter(*then_expr, f, n1 + 2);
            let n2 = tac_expr(*then_expr, f, n1 + 2).2;
            lemma_tac_expr_counter(*else_expr, f, n2 + 1);
        },
    }
}

impl Value {
    pub fn duplicate(&self) -> (r: Value)
        ensures
            r@ == self@,
    {
        match self {
            Value::Constant(c) => Value::Constant(*c),
            Value::Var(s) => Value::Var(s.clone()),
        }
    }
}

/// The three-address operator of a non-logical binary operator.
pub fn parse_binary_operator(op: BinaryOperator) -> (r: TacBinary)
    ensures
        r == tac_binop(op),
{
    match op {
        BinaryOperator::Add => TacBinary::Add,
        BinaryOperator::Subtract => TacBinary::Subtract,
        BinaryOperator::Multiply => TacBinary::Multiply,
        BinaryOperator::Divide => TacBinary::Divide,
        BinaryOperator::Remainder => TacBinary::Remainder,
        BinaryOperator::BitwiseAnd => TacBinary::BitwiseAnd,
        BinaryOperator::BitwiseOr => TacBinary::BitwiseOr,
        BinaryOperator::BitwiseXor => TacBinary::BitwiseXor,
        BinaryOperator::LeftShift => TacBinary::LeftShift,
        BinaryOperator::RightShift => TacBinary::RightShift,
        BinaryOperator::Equal => TacBinary::Equal,
        BinaryOperator::NotEqual => TacBinary::NotEqual,
        BinaryOperator::LessThan => TacBinary::LessThan,
        BinaryOperator::Leq => TacBinary::Leq,
        BinaryOperator::GreaterThan => TacBinary::GreaterThan,
        BinaryOperator::Geq => TacBinary::Geq,
        BinaryOperator::And | BinaryOperator::Or => TacBinary::BitwiseAnd,
    }
}

/// The three-address operator of `~`, `-` or `!`.
pub fn parse_unary_operator(op: UnaryOperator) -> (r: TacUnary)
    ensures
        r == (if op == UnaryOperator::Complement { TacUnary::Complement }
            else if op == UnaryOperator::Negate { TacUnary::Negate } else { TacUnary::Not }),
{
    match op {
        UnaryOperator::Complement => TacUnary::Complement,
        UnaryOperator::Negate => TacUnary::Negate,
        _ => TacUnary::Not,
    }
}

/// The operation that a postfix `++` or `--` applies.
pub fn parse_postfix_operator(op: PostfixOperator) -> (r: TacBinary)
    ensures
        r == (if op == PostfixOperator::Increment { TacBinary::Add } else { TacBinary::Subtract }),
{
    match op {
        PostfixOperator::Increment => TacBinary::Add,
        PostfixOperator::Decrement => TacBinary::Subtract,
    }
}

fn target_name(e: &Expression) -> (r: String)
    ensures
        r@ == lvalue_name(*e),
    decreases e,
{
    match e {
        Expression::Var(v) => v.clone(),
        Expression::Unary { expr, .. } => target_name(expr),
        _ => String::new(),
    }
}

fn store_instr(v: &String, rhs: Value, op: Option<BinaryOperator>) -> (r: Instruction)
    ensures
        r@ == store(v@, rhs@, op),
{
    match op {
        None => Instruction::Copy { src: rhs, dst: Value::Var(v.clone()) },
        Some(o) => Instruction::Binary { op: parse_binary_operator(o), src1: Value::Var(v.clone()), src2: rhs, dst: Value::Var(v.clone()) },
    }
}

fn emit(out: &mut Vec<Instruction>, i: Instruction)
    ensures
        instrs_view(final(out)@) == instrs_view(old(out)@).push(i@),
{
    proof { lemma_instrs_view_push(out@, i); }
    out.push(i);
}

/// Lowers an expression, appending its instructions to `out`, and returns
/// the value that holds its result.
pub fn parse_expression_to_tacky(e: Expression, f: &str, gen: &mut NameGen, out: &mut Vec<Instruction>) -> (v: Value)
    requires
        expr_lowerable(e),
        tac_expr(e, f@, old(gen).next as nat).2 <= u64::MAX,
    ensures
        instrs_view(final(out)@) == instrs_view(old(out)@) + tac_expr(e, f@, old(gen).next as nat).0,
        v@ == tac_expr(e, f@, old(gen).next as nat).1,
        final(gen).next == tac_expr(e, f@, old(gen).next as nat).2,
    decreases e, 1nat,
{
    let ghost n = gen.next as nat;
    let ghost out0 = instrs_view(out@);
    let ghost fs = f@;
    proof { lemma_tac_expr_counter(e, fs, n); }
    match e {
        Expression::IntConstant(c) => {
            assert(out0 + tac_expr(e, fs, n).0 =~= out0);
            Value::Constant(c)
        },
        Expression::Var(v) => {
            assert(out0 + tac_expr(e, fs, n).0 =~= out0);
            Value::Var(v)
        },
        Expression::Unary { op, expr } => {
            if op == UnaryOperator::Increment || op == UnaryOperator::Decrement {
                lower_update(Expression::Unary { op, expr }, f, gen, out)
            } else {
                let s = parse_expression_to_tacky(*expr, f, gen, out);
                let d = Value::Var(make_temp_identifier(f, gen));
                let top = parse_unary_operator(op);
                let dd = d.duplicate();
                emit(out, Instruction::Unary { op: top, src: s, dst: dd });
                assert(instrs_view(out@) =~= out0 + tac_expr(e, fs, n).0);
                d
            }
        },
        Expression::Binary { op, left, right } => {
            if op == BinaryOperator::And || op == BinaryOperator::Or {
                lower_logical(Expression::Binary { op, left, right }, f, gen, out)
            } else {
                proof {
                    lemma_tac_expr_counter(*left, fs, n);
                    lemma_tac_expr_counter(*right, fs, tac_expr(*left, fs, n).2);
                }
                let lv = parse_expression_to_tacky(*left, f, gen, out);
                let rv = parse_expression_to_tacky(*right, f, gen, out);
                let d = Value::Var(make_temp_identifier(f, gen));
                emit(out, Instruction::Binary { op: parse_binary_operator(op), src1: lv, src2: rv, dst: d.duplicate() });
                assert(instrs_view(out@) =~= out0 + tac_expr(e, fs, n).0);
                d
            }
        },
        Expression::Assignment { left, right, op } => {
            lower_update(Expression::Assignment { left, right, op }, f, gen, out)
        },
        Expression::Postfix { op, expr } => {
            let s = parse_expression_to_tacky(*expr, f, gen, out);
            let d = Value::Var(make_temp_identifier(f, gen));
            let bop = parse_postfix_operator(op);
            emit(out, Instruction::Copy { src: s.duplicate(), dst: d.duplicate() });
            emit(out, Instruction::Binary { op: bop, src1: s.duplicate(), src2: Value::Constant(1), dst: s });
            assert(instrs_view(out@) =~= out0 + tac_expr(e, fs, n).0);
            d
        },
        Expression::Conditional { cond, then_expr, else_expr } => {
            lower_conditional(Expression::Conditional { cond, then_expr, else_expr }, f, gen, out)
        },
    }
}

/// Lowers an assignment, a compound assignment, or a prefix increment or
/// decrement (which is `x += 1` or `x -= 1`).
fn lower_update(e: Expression, f: &str, gen: &mut NameGen, out: &mut Vec<Instruction>) -> (v: Value)
    requires
        expr_lowerable(e),
        e is Assignment || (e matches Expression::Unary { op, .. } && (op == UnaryOperator::Increment || op == UnaryOperator::Decrement)),
        tac_expr(e, f@, old(gen).next as nat).2 <= u64::MAX,
    ensures
        instrs_view(final(out)@) == instrs_view(old(out)@) + tac_expr(e, f@, old(gen).next as nat).0,
        v@ == tac_expr(e, f@, old(gen).next as nat).1,
        final(gen).next == tac_expr(e, f@, old(gen).next as nat).2,
    decreases e, 0nat,
{
    let ghost n = gen.next as nat;
    let ghost out0 = instrs_view(out@);
    let ghost fs = f@;
    let (left, right, op) = match e {
        Expression::Assignment { left, right, op } => (left, Some(right), op),
        Expression::Unary { op, expr } => {
            let bop = if op == UnaryOperator::Increment { BinaryOperator::Add } else { BinaryOperator::Subtract };
            (expr, None, Some(bop))
        },
        _ => { return Value::Constant(0); },
    };
    let v = target_name(&left);
    let is_var = matches!(*left, Expression::Var(_));
    proof {
        lemma_tac_expr_counter(*left, fs, n);
        if right is Some {
            lemma_tac_expr_counter(*right.unwrap(), fs, target_prefix(tac_expr(*left, fs, n), *left, n).1);
        }
    }
    if !is_var {
        let _ = parse_expression_to_tacky(*left, f, gen, out);
    }
    let rv = match right {
        Some(r) => parse_expression_to_tacky(*r, f, gen, out),
        None => Value::Constant(1),
    };
    let st = store_instr(&v, rv, op);
    emit(out, st);
    assert(instrs_view(out@) =~= out0 + tac_expr(e, fs, n).0);
    Value::Var(v)
}

/// Lowers `&&` and `||` with jumps, so that the right operand runs only
/// when the left one does not decide the result.
fn lower_logical(e: Expression, f: &str, gen: &mut NameGen, out: &mut Vec<Instruction>) -> (v: Value)
    requires
        expr_lowerable(e),
        e matches Expression::Binary { op, .. } && is_logical(op),
        tac_expr(e, f@, old(gen).next as nat).2 <= u64::MAX,
    ensures
        instrs_view(final(out)@) == instrs_view(old(out)@) + tac_expr(e, f@, old(gen).next as nat).0,
        v@ == tac_expr(e, f@, old(gen).next as nat).1,
        final(gen).next == tac_expr(e, f@, old(gen).next as nat).2,
    decreases e, 0nat,
{
    let ghost n = gen.next as nat;
    let ghost out0 = instrs_view(out@);
    let ghost fs = f@;
    let (op, left, right) = match e {
        Expression::Binary { op, left, right } => (op, left, right),
        _ => { return Value::Constant(0); },
    };
    proof {
        lemma_tac_expr_counter(*left, fs, n);
        lemma_tac_expr_counter(*right, fs, tac_expr(*left, fs, n).2 + 2);
    }
    let lv = parse_expression_to_tacky(*left, f, gen, out);
    let short = make_temp_label(f, gen);
    let d = Value::Var(make_temp_identifier(f, gen));
    let is_and = op == BinaryOperator::And;
    let jl = if is_and {
        Instruction::JumpIfZero { cond: lv, target: short.clone() }
    } else {
        Instruction::JumpIfNotZero { cond: lv, target: short.clone() }
    };
    emit(out, jl);
    let rv = parse_expression_to_tacky(*right, f, gen, out);
    let end = make_temp_label(f, gen);
    let jr = if is_and {
        Instruction::JumpIfZero { cond: rv, target: short.clone() }
    } else {
        Instruction::JumpIfNotZero { cond: rv, target: short.clone() }
    };
    let (first, second) = if is_and { (1i32, 0i32) } else { (0i32, 1i32) };
    emit(out, jr);
    emit(out, Instruction::Copy { src: Value::Constant(first), dst: d.duplicate() });
    emit(out, Instruction::Jump(end.clone()));
    emit(out, Instruction::Label(short));
    emit(out, Instruction::Copy { src: Value::Constant(second), dst: d.duplicate() });
    emit(out, Instruction::Label(end));
    assert(instrs_view(out@) =~= out0 + tac_expr(e, fs, n).0);
    d
}

/// Lowers `c ? t : f` with a jump over each branch.
fn lower_conditional(e: Expression, f: &str, gen: &mut NameGen, out: &mut Vec<Instruction>) -> (v: Value)
    requires
        expr_lowerable(e),
        e is Conditional,
        tac_expr(e, f@, old(gen).next as nat).2 <= u64::MAX,
    ensures
        instrs_view(final(out)@) == instrs_view(old(out)@) + tac_expr(e, f@, old(gen).next as nat).0,
        v@ == tac_expr(e, f@, old(gen).next as nat).1,
        final(gen).next == tac_expr(e, f@, old(gen).next as nat).2,
    decreases e, 0nat,
{
    let ghost n = gen.next as nat;
    let ghost out0 = instrs_view(out@);
    let ghost fs = f@;
    let (cond, then_expr, else_expr) = match e {
        Expression::Conditional { cond, then_expr, else_expr } => (cond, then_expr, else_expr),
        _ => { return Value::Constant(0); },
    };
    proof {
        lemma_tac_expr_counter(*cond, fs, n);
        let n1 = tac_expr(*cond, fs, n).2;
        lemma_tac_expr_counter(*then_expr, fs, n1 + 2);
        lemma_tac_expr_counter(*else_expr, fs, tac_expr(*then_expr, fs, n1 + 2).2 + 1);
    }
    let cv = parse_expression_to_tacky(*cond, f, gen, out);
    let end = make_temp_label(f, gen);
    let e2 = make_temp_label(f, gen);
    emit(out, Instruction::JumpIfZero { cond: cv, target: e2.clone() });
    let v1 = parse_expression_to_tacky(*then_expr, f, gen, out);
    let r = Value::Var(make_temp_identifier(f, gen));
    emit(out, Instruction::Copy { src: v1, dst: r.duplicate() });
    emit(out, Instruction::Jump(end.clone()));
    emit(out, Instruction::Label(e2));
    let v2 = parse_expression_to_tacky(*else_expr, f, gen, out);
    emit(out, Instruction::Copy { src: v2, dst: r.duplicate() });
    emit(out, Instruction::Label(end));
    assert(instrs_view(out@) =~= out0 + tac_expr(e, fs, n).0);
    r
}

/// The three labels derived from a loop's label `l`.
pub open spec fn continue_label(l: Seq<char>) -> Seq<char> {
    l + ".continue"@
}

pub open spec fn break_label(l: Seq<char>) -> Seq<char> {
    l + ".break"@
}

pub open spec fn start_label(l: Seq<char>) -> Seq<char> {
    l + ".start"@
}

pub open spec fn opt_label(l: Option<String>) -> Seq<char> {
    match l {
        Some(s) => s@,
        None => Seq::empty(),
    }
}

pub open spec fn opt_expr_lowerable(e: Option<Expression>) -> bool {
    match e {
        Some(x) => expr_lowerable(x),
        None => true,
    }
}

pub open spec fn decl_lowerable(d: Declaration) -> bool {
    opt_expr_lowerable(d.init)
}

/// A statement that lowering accepts: it passed the lvalue check, and loop
/// labelling gave every loop, `break` and `continue` a label.
pub open spec fn stmt_lowerable(s: Statement) -> bool {
    stmt_lvalues_ok(s) && stmt_labels_present(s)
}

pub open spec fn item_lowerable(item: BlockItem) -> bool {
    match item {
        BlockItem::S(s) => stmt_lowerable(s),
        BlockItem::D(d) => decl_lowerable(d),
    }
}

pub open spec fn items_lowerable(items: Seq<BlockItem>) -> bool {
    items_lvalues_ok(items) && items_labels_present(items)
}

pub proof fn lemma_items_lowerable(items: Seq<BlockItem>)
    requires
        items_lowerable(items),
    ensures
        forall|k: int| 0 <= k < items.len() ==> item_lowerable(#[trigger] items[k]),
    decreases items.len(),
{
    if items.len() > 0 {
        lemma_items_lowerable(items.drop_last());
        assert forall|k: int| 0 <= k < items.len() implies item_lowerable(#[trigger] items[k]) by {
            if k < items.len() - 1 {
                assert(items[k] == items.drop_last()[k]);
            }
        }
    }
}

/// Lowering of a declaration: a copy of the initializer into the variable.
pub open spec fn tac_decl(d: Declaration, f: Seq<char>, n: nat) -> (Seq<InstrView>, nat) {
    match d.init {
        Some(e) => {
            let (i, s, n1) = tac_expr(e, f, n);
            (i + seq![InstrView::Copy { src: s, dst: ValueView::Var(d.name@) }], n1)
        },
        None => (Seq::empty(), n),
    }
}

pub open spec fn tac_opt_expr(e: Option<Expression>, f: Seq<char>, n: nat) -> (Seq<InstrView>, nat) {
    match e {
        Some(x) => { let r = tac_expr(x, f, n); (r.0, r.2) },
        None => (Seq::empty(), n),
    }
}

pub open spec fn tac_for_init(init: ForInit, f: Seq<char>, n: nat) -> (Seq<InstrView>, nat) {
    match init {
        ForInit::Decl(d) => tac_decl(d, f, n),
        ForInit::Expr(e) => tac_opt_expr(e, f, n),
    }
}

/// The test at the top of a `for` loop, if it has a condition.
pub open spec fn tac_for_cond(cond: Option<Expression>, l: Seq<char>, f: Seq<char>, n: nat) -> (Seq<InstrView>, nat) {
    match cond {
        Some(c) => {
            let (i, cv, m) = tac_expr(c, f, n);
            (i + seq![InstrView::JumpIfZero { cond: cv, target: break_label(l) }], m)
        },
        None => (Seq::empty(), n),
    }
}

/// Lowering of a statement from counter `n`: its instructions and the
/// counter after it.
pub open spec fn tac_stmt(s: Statement, f: Seq<char>, n: nat) -> (Seq<InstrView>, nat)
    decreases s,
{
    match s {
        Statement::Return(e) => {
            let (i, v, n1) = tac_expr(e, f, n);
            (i + seq![InstrView::Return(v)], n1)
        },
        Statement::Expression(e) => {
            let r = tac_expr(e, f, n);
            (r.0, r.2)
        },
        Statement::If { cond, then_stmt, else_stmt } => {
            let (ic, cv, n1) = tac_expr(cond, f, n);
            let else_l = label_name(f, n1);
            let (it, n2) = tac_stmt(*then_stmt, f, n1 + 1);
            match else_stmt {
                None => (ic + seq![InstrView::JumpIfZero { cond: cv, target: else_l }] + it
                    + seq![InstrView::Label(else_l)], n2),
                Some(x) => {
                    let end = label_name(f, n2);
                    let (ie, n3) = tac_stmt(*x, f, n2 + 1);
                    (ic + seq![InstrView::JumpIfZero { cond: cv, target: else_l }] + it
                        + seq![InstrView::Jump(end), InstrView::Label(else_l)] + ie
                        + seq![InstrView::Label(end)], n3)
                },
            }
        },
        Statement::Compound(b) => tac_items(b.items@, f, n),
        Statement::While { cond, body, label } => {
            let l = opt_label(label);
            let (ic, cv, n1) = tac_expr(cond, f, n);
            let (ib, n2) = tac_stmt(*body, f, n1);
            (seq![InstrView::Label(continue_label(l))] + ic
                + seq![InstrView::JumpIfZero { cond: cv, target: break_label(l) }] + ib
                + seq![InstrView::Jump(continue_label(l)), InstrView::Label(break_label(l))], n2)
        },
        Statement::DoWhile { body, cond, label } => {
            let l = opt_label(label);
            let (ib, n1) = tac_stmt(*body, f, n);
            let (ic, cv, n2) = tac_expr(cond, f, n1);
            (seq![InstrView::Label(start_label(l))] + ib + seq![InstrView::Label(continue_label(l))] + ic
                + seq![InstrView::JumpIfNotZero { cond: cv, target: start_label(l) },
                    InstrView::Label(break_label(l))], n2)
        },
        Statement::For { init, cond, post, body, label } => {
            let l = opt_label(label);
            let (ii, n1) = tac_for_init(init, f, n);
            let (ic, n2) = tac_for_cond(cond, l, f, n1);
            let (ib, n3) = tac_stmt(*body, f, n2);
            let (ip, n4) = tac_opt_expr(post, f, n3);
            (ii + seq![InstrView::Label(start_label(l))] + ic + ib + seq![InstrView::Label(continue_label(l))]
                + ip + seq![InstrView::Jump(start_label(l)), InstrView::Label(break_label(l))], n4)
        },
        Statement::Break(l) => (seq![InstrView::Jump(break_label(opt_label(l)))], n),
        Statement::Continue(l) => (seq![InstrView::Jump(continue_label(opt_label(l)))], n),
        Statement::Goto(l) => (seq![InstrView::Jump(l@)], n),
        Statement::Label(l) => (seq![InstrView::Label(l@)], n),
        Statement::Null => (Seq::empty(), n),
    }
}

/// Lowering of a sequence of block items, in order.
pub open spec fn tac_items(items: Seq<BlockItem>, f: Seq<char>, n: nat) -> (Seq<InstrView>, nat)
    decreases items,
{
    if items.len() == 0 {
        (Seq::empty(), n)
    } else {
        let (i0, n1) = match items[0] {
            BlockItem::S(s) => tac_stmt(s, f, n),
            BlockItem::D(d) => tac_decl(d, f, n),
        };
        let (i1, n2) = tac_items(items.subrange(1, items.len() as int), f, n1);
        (i0 + i1, n2)
    }
}

pub proof fn lemma_tac_stmt_counter(s: Statement, f: Seq<char>, n: nat)
    ensures
        tac_stmt(s, f, n).1 >= n,
    decreases s,
{
    match s {
        Statement::Return(e) | Statement::Expression(e) => lemma_tac_expr_counter(e, f, n),
        Statement::If { cond, then_stmt, else_stmt } => {
            lemma_tac_expr_counter(cond, f, n);
            let n1 = tac_expr(cond, f, n).2;
            lemma_tac_stmt_counter(*then_stmt, f, n1 + 1);
            if let Some(x) = else_stmt {
                lemma_tac_stmt_counter(*x, f, tac_stmt(*then_stmt, f, n1 + 1).1 + 1);
            }
        },
        Statement::Compound(b) => lemma_tac_items_counter(b.items@, f, n),
        Statement::While { cond, body, .. } => {
            lemma_tac_expr_counter(cond, f, n);
            lemma_tac_stmt_counter(*body, f, tac_expr(cond, f, n).2);
        },
        Statement::DoWhile { body, cond, .. } => {
            lemma_tac_stmt_counter(*body, f, n);
            lemma_tac_expr_counter(cond, f, tac_stmt(*body, f, n).1);
        },
        Statement::For { init, cond, post, body, label } => {
            match init {
                ForInit::Decl(d) => if let Some(x) = d.init { lemma_tac_expr_counter(x, f, n) },
                ForInit::Expr(e) => if let Some(x) = e { lemma_tac_expr_counter(x, f, n) },
            }
            let n1 = tac_for_init(init, f, n).1;
            if let Some(c) = cond { lemma_tac_expr_counter(c, f, n1); }
            let n2 = tac_for_cond(cond, opt_label(label), f, n1).1;
            lemma_tac_stmt_counter(*body, f, n2);
            let n3 = tac_stmt(*body, f, n2).1;
            if let Some(p) = post { lemma_tac_expr_counter(p, f, n3); }
        },
        _ => {},
    }
}

pub proof fn lemma_tac_items_counter(items: Seq<BlockItem>, f: Seq<char>, n: nat)
    ensures
        tac_items(items, f, n).1 >= n,
    decreases items,
{
    if items.len() > 0 {
        let n1 = match items[0] {
            BlockItem::S(s) => tac_stmt(s, f, n).1,
            BlockItem::D(d) => tac_decl(d, f, n).1,
        };
        match items[0] {
            BlockItem::S(s) => lemma_tac_stmt_counter(s, f, n),
            BlockItem::D(d) => if let Some(x) = d.init { lemma_tac_expr_counter(x, f, n) },
        }
        lemma_tac_items_counter(items.subrange(1, items.len() as int), f, n1);
    }
}

fn suffixed(l: &String, suffix: &str) -> (r: String)
    ensures
        r@ == l@ + suffix@,
{
    let mut s = l.clone();
    s.append(suffix);
    s
}

/// Lowers a declaration: with an initializer, a copy into the variable.
pub fn parse_declaration(d: Declaration, f: &str, gen: &mut NameGen, out: &mut Vec<Instruction>)
    requires
        decl_lowerable(d),
        tac_decl(d, f@, old(gen).next as nat).1 <= u64::MAX,
    ensures
        instrs_view(final(out)@) == instrs_view(old(out)@) + tac_decl(d, f@, old(gen).next as nat).0,
        final(gen).next == tac_decl(d, f@, old(gen).next as nat).1,
{
    let ghost out0 = instrs_view(out@);
    let ghost n = gen.next as nat;
    match d.init {
        Some(e) => {
            let v = parse_expression_to_tacky(e, f, gen, out);
            emit(out, Instruction::Copy { src: v, dst: Value::Var(d.name) });
            assert(instrs_view(out@) =~= out0 + tac_decl(d, f@, n).0);
        },
        None => {
            assert(instrs_view(out@) =~= out0 + tac_decl(d, f@, n).0);
        },
    }
}

fn lower_opt_expression(e: Option<Expression>, f: &str, gen: &mut NameGen, out: &mut Vec<Instruction>)
    requires
        opt_expr_lowerable(e),
        tac_opt_expr(e, f@, old(gen).next as nat).1 <= u64::MAX,
    ensures
        instrs_view(final(out)@) == instrs_view(old(out)@) + tac_opt_expr(e, f@, old(gen).next as nat).0,
        final(gen).next == tac_opt_expr(e, f@, old(gen).next as nat).1,
{
    let ghost out0 = instrs_view(out@);
    match e {
        Some(x) => {
            let _ = parse_expression_to_tacky(x, f, gen, out);
        },
        None => {
            assert(instrs_view(out@) =~= out0 + Seq::<InstrView>::empty());
        },
    }
}

/// Lowers a statement, appending its instructions to `out`.
pub fn lower_statement(s: Statement, f: &str, gen: &mut NameGen, out: &mut Vec<Instruction>)
    requires
        stmt_lowerable(s),
        tac_stmt(s, f@, old(gen).next as nat).1 <= u64::MAX,
    ensures
        instrs_view(final(out)@) == instrs_view(old(out)@) + tac_stmt(s, f@, old(gen).next as nat).0,
        final(gen).next == tac_stmt(s, f@, old(gen).next as nat).1,
    decreases s, 1nat,
{
    let ghost out0 = instrs_view(out@);
    let ghost n = gen.next as nat;
    let ghost fs = f@;
    let ghost gs = s;
    match s {
        Statement::Return(e) => {
            let v = parse_expression_to_tacky(e, f, gen, out);
            emit(out, Instruction::Return(v));
            assert(instrs_view(out@) =~= out0 + tac_stmt(gs, fs, n).0);
        },
        Statement::Expression(e) => {
            let _ = parse_expression_to_tacky(e, f, gen, out);
        },
        Statement::If { cond, then_stmt, else_stmt } => {
            lower_if(Statement::If { cond, then_stmt, else_stmt }, f, gen, out);
        },
        Statement::Compound(b) => {
            lower_items(b.items, f, gen, out);
        },
        Statement::While { cond, body, label } => {
            lower_while(Statement::While { cond, body, label }, f, gen, out);
        },
        Statement::DoWhile { body, cond, label } => {
            lower_do_while(Statement::DoWhile { body, cond, label }, f, gen, out);
        },
        Statement::For { init, cond, post, body, label } => {
            lower_for(Statement::For { init, cond, post, body, label }, f, gen, out);
        },
        Statement::Break(l) => {
            let l = l.unwrap();
            emit(out, Instruction::Jump(suffixed(&l, ".break")));
            assert(instrs_view(out@) =~= out0 + tac_stmt(gs, fs, n).0);
        },
        Statement::Continue(l) => {
            let l = l.unwrap();
            emit(out, Instruction::Jump(suffixed(&l, ".continue")));
            assert(instrs_view(out@) =~= out0 + tac_stmt(gs, fs, n).0);
        },
        Statement::Goto(l) => {
            emit(out, Instruction::Jump(l));
            assert(instrs_view(out@) =~= out0 + tac_stmt(gs, fs, n).0);
        },
        Statement::Label(l) => {
            emit(out, Instruction::Label(l));
            assert(instrs_view(out@) =~= out0 + tac_stmt(gs, fs, n).0);
        },
        Statement::Null => {
            assert(instrs_view(out@) =~= out0 + tac_stmt(gs, fs, n).0);
        },
    }
}

/// Lowers `if (c) t` and `if (c) t else e`.
fn lower_if(s: Statement, f: &str, gen: &mut NameGen, out: &mut Vec<Instruction>)
    requires
        stmt_lowerable(s),
        s is If,
        tac_stmt(s, f@, old(gen).next as nat).1 <= u64::MAX,
    ensures
        instrs_view(final(out)@) == instrs_view(old(out)@) + tac_stmt(s, f@, old(gen).next as nat).0,
        final(gen).next == tac_stmt(s, f@, old(gen).next as nat).1,
    decreases s, 0nat,
{
    let ghost out0 = instrs_view(out@);
    let ghost n = gen.next as nat;
    let ghost fs = f@;
    let ghost gs = s;
    let (cond, then_stmt, else_stmt) = match s {
        Statement::If { cond, then_stmt, else_stmt } => (cond, then_stmt, else_stmt),
        _ => { return; },
    };
    proof {
        lemma_tac_expr_counter(cond, fs, n);
        let n1 = tac_expr(cond, fs, n).2;
        lemma_tac_stmt_counter(*then_stmt, fs, n1 + 1);
        if else_stmt is Some {
            lemma_tac_stmt_counter(*(else_stmt->Some_0), fs, tac_stmt(*then_stmt, fs, n1 + 1).1 + 1);
        }
    }
    let cv = parse_expression_to_tacky(cond, f, gen, out);
    let else_l = make_temp_label(f, gen);
    emit(out, Instruction::JumpIfZero { cond: cv, target: else_l.clone() });
    lower_statement(*then_stmt, f, gen, out);
    match else_stmt {
        None => {
            emit(out, Instruction::Label(else_l));
            assert(instrs_view(out@) =~= out0 + tac_stmt(gs, fs, n).0);
        },
        Some(x) => {
            let end = make_temp_label(f, gen);
            emit(out, Instruction::Jump(end.clone()));
            emit(out, Instruction::Label(else_l));
            lower_statement(*x, f, gen, out);
            emit(out, Instruction::Label(end));
            assert(instrs_view(out@) =~= out0 + tac_stmt(gs, fs, n).0);
        },
    }
}

/// Lowers `while (c) body`.
fn lower_while(s: Statement, f: &str, gen: &mut NameGen, out: &mut Vec<Instruction>)
    requires
        stmt_lowerable(s),
        s is While,
        tac_stmt(s, f@, old(gen).next as nat).1 <= u64::MAX,
    ensures
        instrs_view(final(out)@) == instrs_view(old(out)@) + tac_stmt(s, f@, old(gen).next as nat).0,
        final(gen).next == tac_stmt(s, f@, old(gen).next as nat).1,
    decreases s, 0nat,
{
    let ghost out0 = instrs_view(out@);
    let ghost n = gen.next as nat;
    let ghost fs = f@;
    let ghost gs = s;
    let (cond, body, label) = match s {
        Statement::While { cond, body, label } => (cond, body, label),
        _ => { return; },
    };
    let l = label.unwrap();
    let lc = suffixed(&l, ".continue");
    let lb = suffixed(&l, ".break");
    proof {
        lemma_tac_expr_counter(cond, fs, n);
        lemma_tac_stmt_counter(*body, fs, tac_expr(cond, fs, n).2);
    }
    emit(out, Instruction::Label(lc.clone()));
    let cv = parse_expression_to_tacky(cond, f, gen, out);
    emit(out, Instruction::JumpIfZero { cond: cv, target: lb.clone() });
    lower_statement(*body, f, gen, out);
    emit(out, Instruction::Jump(lc));
    emit(out, Instruction::Label(lb));
    assert(instrs_view(out@) =~= out0 + tac_stmt(gs, fs, n).0);
}

/// Lowers `do body while (c);`.
fn lower_do_while(s: Statement, f: &str, gen: &mut NameGen, out: &mut Vec<Instruction>)
    requires
        stmt_lowerable(s),
        s is DoWhile,
        tac_stmt(s, f@, old(gen).next as nat).1 <= u64::MAX,
    ensures
        instrs_view(final(out)@) == instrs_view(old(out)@) + tac_stmt(s, f@, old(gen).next as nat).0,
        final(gen).next == tac_stmt(s, f@, old(gen).next as nat).1,
    decreases s, 0nat,
{
    let ghost out0 = instrs_view(out@);
    let ghost n = gen.next as nat;
    let ghost fs = f@;
    let ghost gs = s;
    let (body, cond, label) = match s {
        Statement::DoWhile { body, cond, label } => (body, cond, label),
        _ => { return; },
    };
    let l = label.unwrap();
    let ls = suffixed(&l, ".start");
    let lc = suffixed(&l, ".continue");
    let lb = suffixed(&l, ".break");
    proof {
        lemma_tac_stmt_counter(*body, fs, n);
        lemma_tac_expr_counter(cond, fs, tac_stmt(*body, fs, n).1);
    }
    emit(out, Instruction::Label(ls.clone()));
    lower_statement(*body, f, gen, out);
    emit(out, Instruction::Label(lc));
    let cv = parse_expression_to_tacky(cond, f, gen, out);
    emit(out, Instruction::JumpIfNotZero { cond: cv, target: ls });
    emit(out, Instruction::Label(lb));
    assert(instrs_view(out@) =~= out0 + tac_stmt(gs, fs, n).0);
}

/// Lowers `for (init; cond; post) body`.
#[verifier::rlimit(40)]
fn lower_for(s: Statement, f: &str, gen: &mut NameGen, out: &mut Vec<Instruction>)
    requires
        stmt_lowerable(s),
        s is For,
        tac_stmt(s, f@, old(gen).next as nat).1 <= u64::MAX,
    ensures
        instrs_view(final(out)@) == instrs_view(old(out)@) + tac_stmt(s, f@, old(gen).next as nat).0,
        final(gen).next == tac_stmt(s, f@, old(gen).next as nat).1,
    decreases s, 0nat,
{
    let ghost out0 = instrs_view(out@);
    let ghost n = gen.next as nat;
    let ghost fs = f@;
    let ghost gs = s;
    let (init, cond, post, body, label) = match s {
        Statement::For { init, cond, post, body, label } => (init, cond, post, body, label),
        _ => { return; },
    };
    let l = label.unwrap();
    let ls = suffixed(&l, ".start");
    let lc = suffixed(&l, ".continue");
    let lb = suffixed(&l, ".break");
    proof { lemma_for_counters(init, cond, post, *body, l@, fs, n); }
    lower_for_init(init, f, gen, out);
    emit(out, Instruction::Label(ls.clone()));
    lower_for_cond(cond, &l, f, gen, out);
    lower_statement(*body, f, gen, out);
    emit(out, Instruction::Label(lc));
    lower_opt_expression(post, f, gen, out);
    emit(out, Instruction::Jump(ls));
    emit(out, Instruction::Label(lb));
    assert(instrs_view(out@) =~= out0 + tac_stmt(gs, fs, n).0);
}

fn lower_for_init(init: ForInit, f: &str, gen: &mut NameGen, out: &mut Vec<Instruction>)
    requires
        match init {
            ForInit::Decl(d) => decl_lowerable(d),
            ForInit::Expr(e) => opt_expr_lowerable(e),
        },
        tac_for_init(init, f@, old(gen).next as nat).1 <= u64::MAX,
    ensures
        instrs_view(final(out)@) == instrs_view(old(out)@) + tac_for_init(init, f@, old(gen).next as nat).0,
        final(gen).next == tac_for_init(init, f@, old(gen).next as nat).1,
{
    match init {
        ForInit::Decl(d) => parse_declaration(d, f, gen, out),
        ForInit::Expr(e) => lower_opt_expression(e, f, gen, out),
    }
}

fn lower_for_cond(cond: Option<Expression>, l: &String, f: &str, gen: &mut NameGen, out: &mut Vec<Instruction>)
    requires
        opt_expr_lowerable(cond),
        tac_for_cond(cond, l@, f@, old(gen).next as nat).1 <= u64::MAX,
    ensures
        instrs_view(final(out)@) == instrs_view(old(out)@) + tac_for_cond(cond, l@, f@, old(gen).next as nat).0,
        final(gen).next == tac_for_cond(cond, l@, f@, old(gen).next as nat).1,
{
    let ghost out0 = instrs_view(out@);
    let ghost n = gen.next as nat;
    match cond {
        Some(c) => {
            let cv = parse_expression_to_tacky(c, f, gen, out);
            emit(out, Instruction::JumpIfZero { cond: cv, target: suffixed(l, ".break") });
            assert(instrs_view(out@) =~= out0 + tac_for_cond(cond, l@, f@, n).0);
        },
        None => {
            assert(instrs_view(out@) =~= out0 + tac_for_cond(cond, l@, f@, n).0);
        },
    }
}

pub open spec fn tac_item(item: BlockItem, f: Seq<char>, n: nat) -> (Seq<InstrView>, nat) {
    match item {
        BlockItem::S(s) => tac_stmt(s, f, n),
        BlockItem::D(d) => tac_decl(d, f, n),
    }
}

/// Lowers one block item: a statement, or a declaration's initialization.
pub fn parse_block_item(item: BlockItem, f: &str, gen: &mut NameGen, out: &mut Vec<Instruction>)
    requires
        item_lowerable(item),
        tac_item(item, f@, old(gen).next as nat).1 <= u64::MAX,
    ensures
        instrs_view(final(out)@) == instrs_view(old(out)@) + tac_item(item, f@, old(gen).next as nat).0,
        final(gen).next == tac_item(item, f@, old(gen).next as nat).1,
    decreases item,
{
    match item {
        BlockItem::S(st) => lower_statement(st, f, gen, out),
        BlockItem::D(d) => parse_declaration(d, f, gen, out),
    }
}

/// Lowers the items of a block in order.
pub fn lower_items(items: Vec<BlockItem>, f: &str, gen: &mut NameGen, out: &mut Vec<Instruction>)
    requires
        items_lowerable(items@),
        tac_items(items@, f@, old(gen).next as nat).1 <= u64::MAX,
    ensures
        instrs_view(final(out)@) == instrs_view(old(out)@) + tac_items(items@, f@, old(gen).next as nat).0,
        final(gen).next == tac_items(items@, f@, old(gen).next as nat).1,
    decreases items, 0nat,
{
    let ghost out0 = instrs_view(out@);
    let ghost n0 = gen.next as nat;
    let ghost all = items@;
    let ghost fs = f@;
    let mut rest = items;
    proof { assert(out0 + tac_items(all, fs, n0).0 =~= instrs_view(out@) + tac_items(rest@, fs, n0).0); }
    proof { lemma_items_lowerable(all); }
    while rest.len() > 0
        invariant
            forall|k: int| 0 <= k < rest@.len() ==> item_lowerable(#[trigger] rest@[k]),
            tac_items(rest@, fs, gen.next as nat).1 == tac_items(all, fs, n0).1,
            tac_items(all, fs, n0).1 <= u64::MAX,
            instrs_view(out@) + tac_items(rest@, fs, gen.next as nat).0 == out0 + tac_items(all, fs, n0).0,
            fs == f@,
            decreases_to!(items => rest@),
        decreases rest.len(),
    {
        let ghost before = rest@;
        let ghost n = gen.next as nat;
        let ghost out1 = instrs_view(out@);
        let item = rest.remove(0);
        assert(rest@ =~= before.subrange(1, before.len() as int));
        assert(item_lowerable(before[0]));
        assert forall|k: int| 0 <= k < rest@.len() implies item_lowerable(#[trigger] rest@[k]) by {
            assert(rest@[k] == before[k + 1]);
        }
        proof { lemma_tac_items_counter(before, fs, n); lemma_first_item_counter(before, fs, n); }
        parse_block_item(item, f, gen, out);
        assert(instrs_view(out@) + tac_items(rest@, fs, gen.next as nat).0 =~= out1 + tac_items(before, fs, n).0);
    }
    assert(tac_items(rest@, fs, gen.next as nat).0 =~= Seq::<InstrView>::empty());
    assert(instrs_view(out@) =~= instrs_view(out@) + tac_items(rest@, fs, gen.next as nat).0);
}

proof fn lemma_for_counters(init: ForInit, cond: Option<Expression>, post: Option<Expression>, body: Statement, l: Seq<char>, f: Seq<char>, n: nat)
    ensures
        ({
            let n1 = tac_for_init(init, f, n).1;
            let n2 = tac_for_cond(cond, l, f, n1).1;
            let n3 = tac_stmt(body, f, n2).1;
            n <= n1 <= n2 <= n3 <= tac_opt_expr(post, f, n3).1
        }),
{
    match init {
        ForInit::Decl(d) => if let Some(x) = d.init { lemma_tac_expr_counter(x, f, n) },
        ForInit::Expr(e) => if let Some(x) = e { lemma_tac_expr_counter(x, f, n) },
    }
    let n1 = tac_for_init(init, f, n).1;
    if let Some(c) = cond { lemma_tac_expr_counter(c, f, n1); }
    let n2 = tac_for_cond(cond, l, f, n1).1;
    lemma_tac_stmt_counter(body, f, n2);
    let n3 = tac_stmt(body, f, n2).1;
    if let Some(p) = post { lemma_tac_expr_counter(p, f, n3); }
}

proof fn lemma_first_item_counter(items: Seq<BlockItem>, f: Seq<char>, n: nat)
    requires
        items.len() > 0,
    ensures
        ({
            let n1 = match items[0] {
                BlockItem::S(s) => tac_stmt(s, f, n).1,
                BlockItem::D(d) => tac_decl(d, f, n).1,
            };
            n <= n1 <= tac_items(items, f, n).1
        }),
{
    match items[0] {
        BlockItem::S(s) => lemma_tac_stmt_counter(s, f, n),
        BlockItem::D(d) => if let Some(x) = d.init { lemma_tac_expr_counter(x, f, n) },
    }
    let n1 = match items[0] {
        BlockItem::S(s) => tac_stmt(s, f, n).1,
        BlockItem::D(d) => tac_decl(d, f, n).1,
    };
    lemma_tac_items_counter(items.subrange(1, items.len() as int), f, n1);
}

fn add_names(n: Option<u64>, k: u64) -> (r: Option<u64>)
    ensures
        n is None ==> r is None,
        n matches Some(m) ==> (if m + k <= u64::MAX { r == Some((m + k) as u64) } else { r is None }),
{
    match n {
        Some(m) => m.checked_add(k),
        None => None,
    }
}

/// The counter after lowering `e` from `n`, or `None` when it passes `u64::MAX`.
fn expr_counter(e: &Expression, n: u64, Ghost(f): Ghost<Seq<char>>) -> (r: Option<u64>)
    ensures
        r matches Some(m) ==> m == tac_expr(*e, f, n as nat).2,
        r is None ==> tac_expr(*e, f, n as nat).2 > u64::MAX,
    decreases e,
{
    proof { lemma_tac_expr_counter(*e, f, n as nat); }
    match e {
        Expression::IntConstant(_) | Expression::Var(_) => Some(n),
        Expression::Unary { op, expr } => {
            let is_var = matches!(**expr, Expression::Var(_));
            if *op == UnaryOperator::Increment || *op == UnaryOperator::Decrement {
                if is_var { Some(n) } else { expr_counter(expr, n, Ghost(f)) }
            } else {
                add_names(expr_counter(expr, n, Ghost(f)), 1)
            }
        },
        Expression::Binary { op, left, right } => {
            proof {
                lemma_tac_expr_counter(**left, f, n as nat);
                let n1 = tac_expr(**left, f, n as nat).2;
                lemma_tac_expr_counter(**right, f, n1);
                lemma_tac_expr_counter(**right, f, n1 + 2);
            }
            let logical = *op == BinaryOperator::And || *op == BinaryOperator::Or;
            match add_names(expr_counter(left, n, Ghost(f)), if logical { 2 } else { 0 }) {
                None => None,
                Some(n1) => {
                    proof { lemma_tac_expr_counter(**right, f, n1 as nat); }
                    add_names(expr_counter(right, n1, Ghost(f)), 1)
                },
            }
        },
        Expression::Assignment { left, right, .. } => {
            proof {
                lemma_tac_expr_counter(**left, f, n as nat);
                lemma_tac_expr_counter(**right, f, target_prefix(tac_expr(**left, f, n as nat), **left, n as nat).1);
            }
            let is_var = matches!(**left, Expression::Var(_));
            let n1 = if is_var { Some(n) } else { expr_counter(left, n, Ghost(f)) };
            match n1 {
                None => None,
                Some(m) => {
                    proof { lemma_tac_expr_counter(**right, f, m as nat); }
                    expr_counter(right, m, Ghost(f))
                },
            }
        },
        Expression::Postfix { expr, .. } => add_names(expr_counter(expr, n, Ghost(f)), 1),
        Expression::Conditional { cond, then_expr, else_expr } => {
            proof {
                lemma_tac_expr_counter(**cond, f, n as nat);
                let n1 = tac_expr(**cond, f, n as nat).2;
                lemma_tac_expr_counter(**then_expr, f, n1 + 2);
                lemma_tac_expr_counter(**else_expr, f, tac_expr(**then_expr, f, n1 + 2).2 + 1);
            }
            match add_names(expr_counter(cond, n, Ghost(f)), 2) {
                None => None,
                Some(n1) => {
                    proof { lemma_tac_expr_counter(**then_expr, f, n1 as nat); }
                    match add_names(expr_counter(then_expr, n1, Ghost(f)), 1) {
                        None => None,
                        Some(n2) => {
                            proof { lemma_tac_expr_counter(**else_expr, f, n2 as nat); }
                            expr_counter(else_expr, n2, Ghost(f))
                        },
                    }
                },
            }
        },
    }
}

fn opt_expr_counter(e: &Option<Expression>, n: u64, Ghost(f): Ghost<Seq<char>>) -> (r: Option<u64>)
    ensures
        r matches Some(m) ==> m == tac_opt_expr(*e, f, n as nat).1,
        r is None ==> tac_opt_expr(*e, f, n as nat).1 > u64::MAX,
{
    match e {
        Some(x) => expr_counter(x, n, Ghost(f)),
        None => Some(n),
    }
}

fn decl_counter(d: &Declaration, n: u64, Ghost(f): Ghost<Seq<char>>) -> (r: Option<u64>)
    ensures
        r matches Some(m) ==> m == tac_decl(*d, f, n as nat).1,
        r is None ==> tac_decl(*d, f, n as nat).1 > u64::MAX,
{
    opt_expr_counter(&d.init, n, Ghost(f))
}

/// The counter after lowering `s` from `n`, or `None` when it passes `u64::MAX`.
fn stmt_counter(s: &Statement, n: u64, Ghost(f): Ghost<Seq<char>>) -> (r: Option<u64>)
    ensures
        r matches Some(m) ==> m == tac_stmt(*s, f, n as nat).1,
        r is None ==> tac_stmt(*s, f, n as nat).1 > u64::MAX,
    decreases s, 1nat,
{
    proof { lemma_tac_stmt_counter(*s, f, n as nat); }
    match s {
        Statement::Return(e) | Statement::Expression(e) => expr_counter(e, n, Ghost(f)),
        Statement::If { .. } => if_counter(s, n, Ghost(f)),
        Statement::Compound(b) => items_counter(&b.items, n, Ghost(f)),
        Statement::While { cond, body, .. } => {
            proof {
                lemma_tac_expr_counter(*cond, f, n as nat);
                lemma_tac_stmt_counter(**body, f, tac_expr(*cond, f, n as nat).2);
            }
            match expr_counter(cond, n, Ghost(f)) {
                None => None,
                Some(n1) => {
                    proof { lemma_tac_stmt_counter(**body, f, n1 as nat); }
                    stmt_counter(body, n1, Ghost(f))
                },
            }
        },
        Statement::DoWhile { body, cond, .. } => {
            proof {
                lemma_tac_stmt_counter(**body, f, n as nat);
                lemma_tac_expr_counter(*cond, f, tac_stmt(**body, f, n as nat).1);
            }
            match stmt_counter(body, n, Ghost(f)) {
                None => None,
                Some(n1) => {
                    proof { lemma_tac_expr_counter(*cond, f, n1 as nat); }
                    expr_counter(cond, n1, Ghost(f))
                },
            }
        },
        Statement::For { .. } => for_counter(s, n, Ghost(f)),
        _ => Some(n),
    }
}

fn if_counter(s: &Statement, n: u64, Ghost(f): Ghost<Seq<char>>) -> (r: Option<u64>)
    requires
        s is If,
    ensures
        r matches Some(m) ==> m == tac_stmt(*s, f, n as nat).1,
        r is None ==> tac_stmt(*s, f, n as nat).1 > u64::MAX,
    decreases s, 0nat,
{
    proof { lemma_tac_stmt_counter(*s, f, n as nat); }
    match s {
        Statement::If { cond, then_stmt, else_stmt } => {
            proof {
                lemma_tac_expr_counter(*cond, f, n as nat);
                let n1 = tac_expr(*cond, f, n as nat).2;
                lemma_tac_stmt_counter(**then_stmt, f, n1 + 1);
                if else_stmt is Some {
                    lemma_tac_stmt_counter(*(else_stmt->Some_0), f, tac_stmt(**then_stmt, f, n1 + 1).1 + 1);
                }
            }
            match add_names(expr_counter(cond, n, Ghost(f)), 1) {
                None => None,
                Some(n1) => {
                    proof { lemma_tac_stmt_counter(**then_stmt, f, n1 as nat); }
                    let n2 = stmt_counter(then_stmt, n1, Ghost(f));
                    match else_stmt {
                        None => n2,
                        Some(x) => match add_names(n2, 1) {
                            None => None,
                            Some(m) => {
                                proof { lemma_tac_stmt_counter(**x, f, m as nat); }
                                stmt_counter(x, m, Ghost(f))
                            },
                        },
                    }
                },
            }
        },
        _ => None,
    }
}

fn for_counter(s: &Statement, n: u64, Ghost(f): Ghost<Seq<char>>) -> (r: Option<u64>)
    requires
        s is For,
    ensures
        r matches Some(m) ==> m == tac_stmt(*s, f, n as nat).1,
        r is None ==> tac_stmt(*s, f, n as nat).1 > u64::MAX,
    decreases s, 0nat,
{
    proof { lemma_tac_stmt_counter(*s, f, n as nat); }
    match s {
        Statement::For { init, cond, post, body, label } => {
            let ghost l = opt_label(*label);
            proof { lemma_for_counters(*init, *cond, *post, **body, l, f, n as nat); }
            let n1 = match init {
                ForInit::Decl(d) => decl_counter(d, n, Ghost(f)),
                ForInit::Expr(e) => opt_expr_counter(e, n, Ghost(f)),
            };
            match n1 {
                None => None,
                Some(m1) => match opt_expr_counter(cond, m1, Ghost(f)) {
                    None => None,
                    Some(m2) => match stmt_counter(body, m2, Ghost(f)) {
                        None => None,
                        Some(m3) => opt_expr_counter(post, m3, Ghost(f)),
                    },
                },
            }
        },
        _ => None,
    }
}

/// The counter after lowering `items` from `n`, or `None` when it passes `u64::MAX`.
fn items_counter(items: &Vec<BlockItem>, n: u64, Ghost(f): Ghost<Seq<char>>) -> (r: Option<u64>)
    ensures
        r matches Some(m) ==> m == tac_items(items@, f, n as nat).1,
        r is None ==> tac_items(items@, f, n as nat).1 > u64::MAX,
    decreases items, 0nat,
{
    let mut i: usize = 0;
    let mut m: u64 = n;
    proof { assert(items@.subrange(0, items@.len() as int) =~= items@); }
    while i < items.len()
        invariant
            0 <= i <= items@.len(),
            tac_items(items@.subrange(i as int, items@.len() as int), f, m as nat).1 == tac_items(items@, f, n as nat).1,
        decreases items@.len() - i,
    {
        let ghost rest = items@.subrange(i as int, items@.len() as int);
        proof {
            lemma_first_item_counter(rest, f, m as nat);
            assert(rest.subrange(1, rest.len() as int) =~= items@.subrange(i + 1, items@.len() as int));
            assert(rest[0] == items@[i as int]);
        }
        let next = match &items[i] {
            BlockItem::S(s) => stmt_counter(s, m, Ghost(f)),
            BlockItem::D(d) => decl_counter(d, m, Ghost(f)),
        };
        match next {
            None => {
                return None;
            },
            Some(m1) => {
                m = m1;
            },
        }
        i = i + 1;
    }
    assert(items@.subrange(i as int, items@.len() as int).len() == 0);
    Some(m)
}

/// Lowering of a function body: its items, then `return 0`.
pub open spec fn tac_function(func: Function, n: nat) -> (Seq<InstrView>, nat) {
    let (i, n1) = tac_items(func.body.items@, func.name@, n);
    (i + seq![InstrView::Return(ValueView::Constant(0))], n1)
}

pub open spec fn program_lowerable(p: Program) -> bool {
    items_lowerable(p.function.body.items@)
}

impl TacProgram {
    pub open spec fn body_view(&self) -> Seq<InstrView> {
        instrs_view(self.function.body@)
    }
}

/// Lowers a validated function: its body, then `return 0`.  Fails with
/// `TooLarge`, leaving `gen` as it was, only when the counter would pass
/// `u64::MAX`.
pub fn parse_function(func: Function, gen: &mut NameGen) -> (r: Result<TacFunction, Error>)
    requires
        items_lowerable(func.body.items@),
    ensures
        tac_function(func, old(gen).next as nat).1 <= u64::MAX <==> r is Ok,
        r matches Ok(t) ==> {
            &&& t.name@ == func.name@
            &&& instrs_view(t.body@) == tac_function(func, old(gen).next as nat).0
            &&& final(gen).next == tac_function(func, old(gen).next as nat).1
        },
        r matches Err(e) ==> e is TooLarge && final(gen).next == old(gen).next,
{
    let ghost whole = func;
    let Function { name, body } = func;
    let Block { items } = body;
    match items_counter(&items, gen.next, Ghost(name@)) {
        None => Err(Error::TooLarge),
        Some(_) => {
            let mut out: Vec<Instruction> = Vec::new();
            lower_items(items, name.as_str(), gen, &mut out);
            emit(&mut out, Instruction::Return(Value::Constant(0)));
            assert(instrs_view(out@) =~= tac_function(whole, old(gen).next as nat).0);
            Ok(TacFunction { name, body: out })
        },
    }
}

/// Lowers a validated program to three-address code.
pub fn parse_program(p: Program, gen: &mut NameGen) -> (r: Result<TacProgram, Error>)
    requires
        program_lowerable(p),
    ensures
        tac_function(p.function, old(gen).next as nat).1 <= u64::MAX <==> r is Ok,
        r matches Ok(t) ==> {
            &&& t.function.name@ == p.function.name@
            &&& t.body_view() == tac_function(p.function, old(gen).next as nat).0
            &&& final(gen).next == tac_function(p.function, old(gen).next as nat).1
        },
        r matches Err(e) ==> e is TooLarge && final(gen).next == old(gen).next,
{
    let function = parse_function(p.function, gen)?;
    Ok(TacProgram { function })
}

/// Lowers a validated program to three-address code.  Temporaries and
/// labels are drawn from `gen`; the body ends with `return 0`.  Fails with
/// `TooLarge`, leaving `gen` as it was, only when the counter would pass
/// `u64::MAX`.
pub fn tacky_gen(p: Program, gen: &mut NameGen) -> (r: Result<TacProgram, Error>)
    requires
        program_lowerable(p),
    ensures
        tac_function(p.function, old(gen).next as nat).1 <= u64::MAX <==> r is Ok,
        r matches Ok(t) ==> {
            &&& t.function.name@ == p.function.name@
            &&& t.body_view() == tac_function(p.function, old(gen).next as nat).0
            &&& final(gen).next == tac_function(p.function, old(gen).next as nat).1
        },
        r matches Err(e) ==> e is TooLarge && final(gen).next == old(gen).next,
{
    parse_program(p, gen)
}

} // verus!
