//! Properties of the compiler that relate several of its functions.
use vstd::prelude::*;
use crate::ast::{BinaryOperator, BlockItem, Declaration, Expression, PostfixOperator, Statement, UnaryOperator};
use crate::codegen::asm_of_all;
use crate::emit::program_text;
use crate::frame::{frame_body, legalize, legalize_all, replace_all, replace_instr};
use crate::codegen::AsmView;
use crate::emit::mentions_pseudo;
use crate::names::{label_name, temp_name};
use crate::resolve::{declare, enter, lookup, opt_declared, res_decl, res_items, EntryView};
use crate::tacky::{tac_expr, InstrView, TacBinary, ValueView};

verus! {

/// Entering a block keeps every name visible, under the same unique name,
/// but as declared outside the block.
pub proof fn lemma_enter_lookup(m: Seq<EntryView>, x: Seq<char>)
    ensures
        lookup(enter(m), x) == (match lookup(m, x) {
            Some(p) => Some((p.0, false)),
            None => None,
        }),
    decreases m.len(),
{
    if m.len() > 0 {
        assert(enter(m).drop_last() =~= enter(m.drop_last()));
        lemma_enter_lookup(m.drop_last(), x);
    }
}

/// Shadowing: in a nested block a variable of an outer block may be
/// declared again; the new declaration gets its own unique name, which is
/// what the name means inside the block from then on.
pub proof fn lemma_shadowing(m: Seq<EntryView>, d: Declaration, n: nat)
    requires
        n < u64::MAX,
        opt_declared(d.init, declare(enter(m), d.name@, n)),
    ensures
        res_decl(d, enter(m), n).0 is None,
        lookup(res_decl(d, enter(m), n).1, d.name@) == Some((temp_name(d.name@, n), true)),
{
    lemma_enter_lookup(m, d.name@);
    let m1 = declare(enter(m), d.name@, n);
    assert(m1.last() == (d.name@, temp_name(d.name@, n), true));
}

/// A statement never changes the scope of the block around it, so when a
/// nested block ends, the outer names are the ones in scope again.
pub proof fn lemma_statement_keeps_scope(items: Seq<BlockItem>, s: Statement, m: Seq<EntryView>, n: nat)
    requires
        res_items(items, m, n).0 is None,
    ensures
        res_items(items.push(BlockItem::S(s)), m, n).1 == res_items(items, m, n).1,
{
    assert(items.push(BlockItem::S(s)).drop_last() =~= items);
}

/// Short-circuit `&&`: the right operand's code runs only after a jump on
/// a zero left operand to the label that sets the result to 0, which comes
/// after it.  `||` is the same with a jump on a non-zero left operand.
pub proof fn lemma_short_circuit(op: BinaryOperator, l: Expression, r: Expression, f: Seq<char>, n: nat)
    requires
        op == BinaryOperator::And || op == BinaryOperator::Or,
    ensures
        ({
            let (il, lv, n1) = tac_expr(l, f, n);
            let ir = tac_expr(r, f, n1 + 2).0;
            let short = label_name(f, n1);
            let whole = tac_expr(Expression::Binary { op, left: Box::new(l), right: Box::new(r) }, f, n).0;
            let jump = if op == BinaryOperator::And {
                InstrView::JumpIfZero { cond: lv, target: short }
            } else {
                InstrView::JumpIfNotZero { cond: lv, target: short }
            };
            &&& whole.subrange(0, il.len() as int) == il
            &&& whole[il.len() as int] == jump
            &&& whole.subrange(il.len() + 1 as int, il.len() + 1 + ir.len() as int) == ir
            &&& whole[il.len() + ir.len() + 4 as int] == InstrView::Label(short)
        }),
{
    let (il, lv, n1) = tac_expr(l, f, n);
    let ir = tac_expr(r, f, n1 + 2).0;
    let whole = tac_expr(Expression::Binary { op, left: Box::new(l), right: Box::new(r) }, f, n).0;
    assert(whole.subrange(0, il.len() as int) =~= il);
    assert(whole.subrange(il.len() + 1 as int, il.len() + 1 + ir.len() as int) =~= ir);
}

/// Prefix `++x` adds one to `x` and yields `x` itself, the new value;
/// postfix `x++` first copies `x` to a fresh temporary, then adds one to
/// `x`, and yields the temporary, the old value.
pub proof fn lemma_prefix_postfix(x: String, f: Seq<char>, n: nat)
    ensures
        tac_expr(Expression::Unary { op: UnaryOperator::Increment, expr: Box::new(Expression::Var(x)) }, f, n)
            == (seq![InstrView::Binary { op: TacBinary::Add, src1: ValueView::Var(x@), src2: ValueView::Constant(1),
                dst: ValueView::Var(x@) }], ValueView::Var(x@), n),
        tac_expr(Expression::Postfix { op: PostfixOperator::Increment, expr: Box::new(Expression::Var(x)) }, f, n)
            == (seq![InstrView::Copy { src: ValueView::Var(x@), dst: ValueView::Var(temp_name(f, n)) },
                InstrView::Binary { op: TacBinary::Add, src1: ValueView::Var(x@), src2: ValueView::Constant(1),
                dst: ValueView::Var(x@) }], ValueView::Var(temp_name(f, n)), n + 1),
{
    let pre = tac_expr(Expression::Unary { op: UnaryOperator::Increment, expr: Box::new(Expression::Var(x)) }, f, n);
    assert(pre.0 =~= seq![InstrView::Binary { op: TacBinary::Add, src1: ValueView::Var(x@), src2: ValueView::Constant(1),
        dst: ValueView::Var(x@) }]);
    let inner = tac_expr(Expression::Var(x), f, n);
    assert(inner == (Seq::<InstrView>::empty(), ValueView::Var(x@), n));
    let tail = seq![InstrView::Copy { src: ValueView::Var(x@), dst: ValueView::Var(temp_name(f, n)) },
        InstrView::Binary { op: TacBinary::Add, src1: ValueView::Var(x@), src2: ValueView::Constant(1),
        dst: ValueView::Var(x@) }];
    assert(Seq::<InstrView>::empty() + tail =~= tail);
    let post = tac_expr(Expression::Postfix { op: PostfixOperator::Increment, expr: Box::new(Expression::Var(x)) }, f, n);
    assert(post.0 =~= seq![InstrView::Copy { src: ValueView::Var(x@), dst: ValueView::Var(temp_name(f, n)) },
        InstrView::Binary { op: TacBinary::Add, src1: ValueView::Var(x@), src2: ValueView::Constant(1),
        dst: ValueView::Var(x@) }]);
}

/// Determinism: the assembly text is a function of the three-address code,
/// so the same code always gives byte-identical text.
pub proof fn lemma_deterministic(name: Seq<char>, a: Seq<InstrView>, b: Seq<InstrView>, macos: bool)
    requires
        a == b,
    ensures
        program_text(name, frame_body(asm_of_all(a)), macos) == program_text(name, frame_body(asm_of_all(b)), macos),
{
}

pub open spec fn pseudo_free(s: Seq<AsmView>) -> bool {
    forall|k: int| 0 <= k < s.len() ==> !mentions_pseudo(#[trigger] s[k])
}

proof fn lemma_replace_all_pseudo_free(s: Seq<AsmView>)
    ensures
        pseudo_free(replace_all(s).0),
    decreases s.len(),
{
    if s.len() > 0 {
        lemma_replace_all_pseudo_free(s.drop_last());
        let (pre, seen) = replace_all(s.drop_last());
        let (i, _) = replace_instr(s.last(), seen);
        assert(!mentions_pseudo(i));
        assert(replace_all(s).0 == pre.push(i));
        assert forall|k: int| 0 <= k < pre.push(i).len() implies !mentions_pseudo(#[trigger] pre.push(i)[k]) by {
            if k < pre.len() {
                assert(pre.push(i)[k] == pre[k]);
            }
        }
    }
}

proof fn lemma_legalize_all_pseudo_free(s: Seq<AsmView>)
    requires
        pseudo_free(s),
    ensures
        pseudo_free(legalize_all(s)),
    decreases s.len(),
{
    if s.len() > 0 {
        assert(pseudo_free(s.drop_last())) by {
            assert forall|k: int| 0 <= k < s.drop_last().len() implies !mentions_pseudo(#[trigger] s.drop_last()[k]) by {
                assert(s.drop_last()[k] == s[k]);
            }
        }
        lemma_legalize_all_pseudo_free(s.drop_last());
        let a = legalize_all(s.drop_last());
        let b = legalize(s.last());
        assert(!mentions_pseudo(s[s.len() - 1]));
        assert(pseudo_free(b));
        assert forall|k: int| 0 <= k < (a + b).len() implies !mentions_pseudo(#[trigger] (a + b)[k]) by {
            if k < a.len() {
                assert((a + b)[k] == a[k]);
            } else {
                assert((a + b)[k] == b[k - a.len()]);
            }
        }
    }
}

/// After stack slots are given and instructions legalized, no
/// pseudo-register is left for the emitter to meet.
pub proof fn lemma_framed_body_has_no_pseudo(s: Seq<AsmView>)
    ensures
        pseudo_free(frame_body(s)),
{
    lemma_replace_all_pseudo_free(s);
    let (replaced, seen) = replace_all(s);
    lemma_legalize_all_pseudo_free(replaced);
    let head = seq![AsmView::AllocateStack((4 * seen.len()) as i64)];
    let tail = legalize_all(replaced);
    assert forall|k: int| 0 <= k < (head + tail).len() implies !mentions_pseudo(#[trigger] (head + tail)[k]) by {
        if k >= 1 {
            assert((head + tail)[k] == tail[k - 1]);
        }
    }
}

} // verus!
