//! Renaming variables changes nothing that the later semantic passes see.
use vstd::prelude::*;
use crate::ast::{BlockItem, Expression, ForInit, Statement};
use crate::checks::{is_label, items_gotos, items_labels, items_labels_placed, items_lvalues_ok, items_pairs_ok, stmt_gotos,
    stmt_labels, stmt_labels_placed, stmt_lvalues_ok};
use crate::loops::{lab_items, lab_stmt};
use crate::resolve::{expr_renamed, items_renamed, opt_renamed, stmt_renamed, res_items, res_for_init, EntryView};
use crate::tacky::{decl_lowerable, expr_lowerable, opt_expr_lowerable};

verus! {

pub proof fn lemma_expr_renamed(e: Expression, m: Seq<EntryView>, r: Expression)
    requires
        expr_renamed(e, m, r),
    ensures
        expr_lowerable(r) == expr_lowerable(e),
        r.spec_is_lvalue() == e.spec_is_lvalue(),
        (r is Var) == (e is Var),
    decreases e,
{
    match e {
        Expression::Unary { op, expr } => {
            if let Expression::Unary { expr: x2, .. } = r {
                lemma_expr_renamed(*expr, m, *x2);
            }
        },
        Expression::Postfix { op, expr } => {
            if let Expression::Postfix { expr: x2, .. } = r {
                lemma_expr_renamed(*expr, m, *x2);
            }
        },
        Expression::Binary { left, right, .. } => {
            if let Expression::Binary { left: l2, right: r2, .. } = r {
                lemma_expr_renamed(*left, m, *l2);
                lemma_expr_renamed(*right, m, *r2);
            }
        },
        Expression::Assignment { left, right, .. } => {
            if let Expression::Assignment { left: l2, right: r2, .. } = r {
                lemma_expr_renamed(*left, m, *l2);
                lemma_expr_renamed(*right, m, *r2);
            }
        },
        Expression::Conditional { cond, then_expr, else_expr } => {
            if let Expression::Conditional { cond: c2, then_expr: t2, else_expr: e2 } = r {
                lemma_expr_renamed(*cond, m, *c2);
                lemma_expr_renamed(*then_expr, m, *t2);
                lemma_expr_renamed(*else_expr, m, *e2);
            }
        },
        _ => {},
    }
}

pub proof fn lemma_opt_renamed(e: Option<Expression>, m: Seq<EntryView>, r: Option<Expression>)
    requires
        opt_renamed(e, m, r),
    ensures
        opt_expr_lowerable(r) == opt_expr_lowerable(e),
{
    if let Some(x) = e {
        lemma_expr_renamed(x, m, r.unwrap());
    }
}

/// What a statement shows to the lvalue, label and loop passes.
pub open spec fn stmt_same_shape(s: Statement, r: Statement) -> bool {
    &&& stmt_lvalues_ok(r) == stmt_lvalues_ok(s)
    &&& stmt_labels(r) == stmt_labels(s)
    &&& stmt_gotos(r) == stmt_gotos(s)
    &&& stmt_labels_placed(r) == stmt_labels_placed(s)
    &&& (r is Label) == (s is Label)
    &&& forall|cur: Option<Seq<char>>, f: Seq<char>, k: nat| #[trigger] lab_stmt(r, cur, f, k) == lab_stmt(s, cur, f, k)
}

pub open spec fn items_same_shape(items: Seq<BlockItem>, r: Seq<BlockItem>) -> bool {
    &&& r.len() == items.len()
    &&& items_lvalues_ok(r) == items_lvalues_ok(items)
    &&& items_labels(r) == items_labels(items)
    &&& items_gotos(r) == items_gotos(items)
    &&& items_pairs_ok(r) == items_pairs_ok(items)
    &&& items_labels_placed(r) == items_labels_placed(items)
    &&& forall|k: int| 0 <= k < items.len() ==> is_label(#[trigger] r[k]) == is_label(items[k]) && (r[k] is S) == (items[k] is S)
    &&& forall|cur: Option<Seq<char>>, f: Seq<char>, k: nat| #[trigger] lab_items(r, cur, f, k) == lab_items(items, cur, f, k)
}

pub proof fn lemma_stmt_renamed(s: Statement, m: Seq<EntryView>, n: nat, r: Statement)
    requires
        stmt_renamed(s, m, n, r),
    ensures
        stmt_same_shape(s, r),
    decreases s,
{
    match s {
        Statement::Return(e) => {
            if let Statement::Return(e2) = r {
                lemma_expr_renamed(e, m, e2);
            }
        },
        Statement::Expression(e) => {
            if let Statement::Expression(e2) = r {
                lemma_expr_renamed(e, m, e2);
            }
        },
        Statement::If { cond, then_stmt, else_stmt } => {
            if let Statement::If { cond: c2, then_stmt: t2, else_stmt: x2 } = r {
                lemma_expr_renamed(cond, m, c2);
                lemma_stmt_renamed(*then_stmt, m, n, *t2);
                if let Some(x) = else_stmt {
                    lemma_stmt_renamed(*x, m, crate::resolve::res_stmt(*then_stmt, m, n).1, *x2.unwrap());
                }
            }
        },
        Statement::Compound(b) => {
            if let Statement::Compound(b2) = r {
                lemma_items_renamed(b.items@, crate::resolve::enter(m), n, b2.items@);
            }
        },
        Statement::While { cond, body, .. } => {
            if let Statement::While { cond: c2, body: bd2, .. } = r {
                lemma_expr_renamed(cond, m, c2);
                lemma_stmt_renamed(*body, m, n, *bd2);
            }
        },
        Statement::DoWhile { body, cond, .. } => {
            if let Statement::DoWhile { cond: c2, body: bd2, .. } = r {
                lemma_expr_renamed(cond, m, c2);
                lemma_stmt_renamed(*body, m, n, *bd2);
            }
        },
        Statement::For { init, cond, post, body, .. } => {
            if let Statement::For { init: i2, cond: c2, post: post2, body: bd2, .. } = r {
                let (_, m1, n1) = res_for_init(init, m, n);
                match init {
                    ForInit::Decl(d) => {
                        if let ForInit::Decl(d2) = i2 {
                            lemma_opt_renamed(d.init, crate::resolve::declare(crate::resolve::enter(m), d.name@, n), d2.init);
                        }
                    },
                    ForInit::Expr(e) => {
                        if let ForInit::Expr(e2) = i2 {
                            lemma_opt_renamed(e, crate::resolve::enter(m), e2);
                        }
                    },
                }
                lemma_opt_renamed(cond, m1, c2);
                lemma_opt_renamed(post, m1, post2);
                lemma_stmt_renamed(*body, m1, n1, *bd2);
            }
        },
        _ => {},
    }
    assert forall|cur: Option<Seq<char>>, f: Seq<char>, k: nat| #[trigger] lab_stmt(r, cur, f, k) == lab_stmt(s, cur, f, k) by {
        match s {
            Statement::If { then_stmt, else_stmt, .. } => {
                if let Statement::If { then_stmt: t2, else_stmt: x2, .. } = r {
                    assert(lab_stmt(*t2, cur, f, k) == lab_stmt(*then_stmt, cur, f, k));
                    if let Some(x) = else_stmt {
                        let k1 = lab_stmt(*then_stmt, cur, f, k).1;
                        assert(lab_stmt(*x2.unwrap(), cur, f, k1) == lab_stmt(*x, cur, f, k1));
                    }
                }
            },
            Statement::Compound(b) => {
                if let Statement::Compound(b2) = r {
                    assert(lab_items(b2.items@, cur, f, k) == lab_items(b.items@, cur, f, k));
                }
            },
            Statement::While { body, .. } => {
                if let Statement::While { body: bd2, .. } = r {
                    assert(lab_stmt(*bd2, Some(crate::names::label_name(f, k)), f, k + 1)
                        == lab_stmt(*body, Some(crate::names::label_name(f, k)), f, k + 1));
                }
            },
            Statement::DoWhile { body, .. } => {
                if let Statement::DoWhile { body: bd2, .. } = r {
                    assert(lab_stmt(*bd2, Some(crate::names::label_name(f, k)), f, k + 1)
                        == lab_stmt(*body, Some(crate::names::label_name(f, k)), f, k + 1));
                }
            },
            Statement::For { body, .. } => {
                if let Statement::For { body: bd2, .. } = r {
                    assert(lab_stmt(*bd2, Some(crate::names::label_name(f, k)), f, k + 1)
                        == lab_stmt(*body, Some(crate::names::label_name(f, k)), f, k + 1));
                }
            },
            _ => {},
        }
    }
}

pub proof fn lemma_items_renamed(items: Seq<BlockItem>, m: Seq<EntryView>, n: nat, r: Seq<BlockItem>)
    requires
        items_renamed(items, m, n, r),
    ensures
        items_same_shape(items, r),
    decreases items,
{
    if items.len() > 0 {
        let (_, m1, n1) = res_items(items.drop_last(), m, n);
        lemma_items_renamed(items.drop_last(), m, n, r.drop_last());
        match items.last() {
            BlockItem::S(s) => {
                if let BlockItem::S(s2) = r.last() {
                    lemma_stmt_renamed(s, m1, n1, s2);
                }
            },
            BlockItem::D(d) => {
                if let BlockItem::D(d2) = r.last() {
                    lemma_opt_renamed(d.init, crate::resolve::declare(m1, d.name@, n1), d2.init);
                }
            },
        }
        assert forall|k: int| 0 <= k < items.len() implies is_label(#[trigger] r[k]) == is_label(items[k])
            && (r[k] is S) == (items[k] is S) by {
            if k < items.len() - 1 {
                assert(r[k] == r.drop_last()[k]);
                assert(items[k] == items.drop_last()[k]);
            }
        }
        if items.len() >= 2 {
            assert(r[r.len() - 2] == r.drop_last()[r.len() - 2]);
        }
        assert forall|cur: Option<Seq<char>>, f: Seq<char>, k: nat| #[trigger] lab_items(r, cur, f, k) == lab_items(items, cur, f, k) by {
            let k1 = lab_items(items.drop_last(), cur, f, k).1;
            assert(lab_items(r.drop_last(), cur, f, k) == lab_items(items.drop_last(), cur, f, k));
            match items.last() {
                BlockItem::S(st) => {
                    if let BlockItem::S(s2) = r.last() {
                        assert(lab_stmt(s2, cur, f, k1) == lab_stmt(st, cur, f, k1));
                    }
                },
                BlockItem::D(_) => {},
            }
        }
    }
}

} // verus!
