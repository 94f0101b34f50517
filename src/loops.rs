//! Loop labelling: every loop gets a fresh label, and every `break` and
//! `continue` the label of the loop around it.
use vstd::prelude::*;
use crate::ast::{Block, BlockItem, Function, Program, Statement};
use crate::checks::{items_lvalues_ok, stmt_lvalues_ok};
use crate::error::SemanticError;
use crate::names::{label_name, make_temp_label, NameGen};

verus! {

/// Every loop, `break` and `continue` of `s` carries a label.
pub open spec fn stmt_labels_present(s: Statement) -> bool
    decreases s,
{
    match s {
        Statement::If { then_stmt, else_stmt, .. } => stmt_labels_present(*then_stmt)
            && (else_stmt matches Some(x) ==> stmt_labels_present(*x)),
        Statement::Compound(b) => items_labels_present(b.items@),
        Statement::While { body, label, .. } | Statement::DoWhile { body, label, .. } | Statement::For { body, label, .. } =>
            label is Some && stmt_labels_present(*body),
        Statement::Break(l) | Statement::Continue(l) => l is Some,
        _ => true,
    }
}

pub open spec fn items_labels_present(items: Seq<BlockItem>) -> bool
    decreases items,
{
    if items.len() == 0 {
        true
    } else {
        items_labels_present(items.drop_last()) && (items.last() matches BlockItem::S(s) ==> stmt_labels_present(s))
    }
}

/// Labelling `s` inside the loop labelled `cur` (if any) from counter `n`:
/// the first error, if any, and the counter after it.  A loop's label is
/// minted before its body is labelled.
pub open spec fn lab_stmt(s: Statement, cur: Option<Seq<char>>, f: Seq<char>, n: nat) -> (Option<SemanticError>, nat)
    decreases s,
{
    match s {
        Statement::Break(_) => (if cur is None { Some(SemanticError::BreakOutsideLoop) } else { None }, n),
        Statement::Continue(_) => (if cur is None { Some(SemanticError::ContinueOutsideLoop) } else { None }, n),
        Statement::While { body, .. } | Statement::DoWhile { body, .. } | Statement::For { body, .. } =>
            if n >= u64::MAX {
                (Some(SemanticError::TooManyNames), n)
            } else {
                lab_stmt(*body, Some(label_name(f, n)), f, n + 1)
            },
        Statement::If { then_stmt, else_stmt, .. } => {
            let (e1, n1) = lab_stmt(*then_stmt, cur, f, n);
            match (e1, else_stmt) {
                (None, Some(x)) => lab_stmt(*x, cur, f, n1),
                _ => (e1, n1),
            }
        },
        Statement::Compound(b) => lab_items(b.items@, cur, f, n),
        _ => (None, n),
    }
}

pub open spec fn lab_items(items: Seq<BlockItem>, cur: Option<Seq<char>>, f: Seq<char>, n: nat) -> (Option<SemanticError>, nat)
    decreases items,
{
    if items.len() == 0 {
        (None, n)
    } else {
        let (e0, n1) = lab_items(items.drop_last(), cur, f, n);
        if e0 is Some {
            (e0, n1)
        } else {
            match items.last() {
                BlockItem::S(s) => lab_stmt(s, cur, f, n1),
                BlockItem::D(_) => (None, n1),
            }
        }
    }
}

pub open spec fn has_label(l: Option<String>, v: Seq<char>) -> bool {
    l matches Some(x) && x@ == v
}

/// `r` is `s` labelled inside `cur` from counter `n`: the same tree, with
/// labels on loops, `break` and `continue`.
pub open spec fn stmt_labelled(s: Statement, cur: Option<Seq<char>>, f: Seq<char>, n: nat, r: Statement) -> bool
    decreases s,
{
    match s {
        Statement::Break(_) => r matches Statement::Break(l) && cur matches Some(c) && has_label(l, c),
        Statement::Continue(_) => r matches Statement::Continue(l) && cur matches Some(c) && has_label(l, c),
        Statement::While { cond, body, .. } => r matches Statement::While { cond: c2, body: b2, label: l2 }
            && c2 == cond && has_label(l2, label_name(f, n)) && stmt_labelled(*body, Some(label_name(f, n)), f, n + 1, *b2),
        Statement::DoWhile { body, cond, .. } => r matches Statement::DoWhile { body: b2, cond: c2, label: l2 }
            && c2 == cond && has_label(l2, label_name(f, n)) && stmt_labelled(*body, Some(label_name(f, n)), f, n + 1, *b2),
        Statement::For { init, cond, post, body, .. } =>
            r matches Statement::For { init: i2, cond: c2, post: post2, body: b2, label: l2 }
            && i2 == init && c2 == cond && post2 == post && has_label(l2, label_name(f, n))
            && stmt_labelled(*body, Some(label_name(f, n)), f, n + 1, *b2),
        Statement::If { cond, then_stmt, else_stmt } =>
            r matches Statement::If { cond: c2, then_stmt: t2, else_stmt: x2 } && c2 == cond
            && stmt_labelled(*then_stmt, cur, f, n, *t2) && match else_stmt {
                Some(x) => x2 matches Some(y) && stmt_labelled(*x, cur, f, lab_stmt(*then_stmt, cur, f, n).1, *y),
                None => x2 is None,
            },
        Statement::Compound(b) => r matches Statement::Compound(b2) && items_labelled(b.items@, cur, f, n, b2.items@),
        _ => r == s,
    }
}

pub open spec fn items_labelled(items: Seq<BlockItem>, cur: Option<Seq<char>>, f: Seq<char>, n: nat, r: Seq<BlockItem>) -> bool
    decreases items,
{
    r.len() == items.len() && (items.len() > 0 ==> {
        let n1 = lab_items(items.drop_last(), cur, f, n).1;
        items_labelled(items.drop_last(), cur, f, n, r.drop_last()) && match items.last() {
            BlockItem::S(s) => r.last() matches BlockItem::S(s2) && stmt_labelled(s, cur, f, n1, s2),
            BlockItem::D(d) => r.last() == BlockItem::D(d),
        }
    })
}

pub proof fn lemma_lab_items_error(all: Seq<BlockItem>, k: int, cur: Option<Seq<char>>, f: Seq<char>, n: nat)
    requires
        0 <= k <= all.len(),
        lab_items(all.subrange(0, k), cur, f, n).0 is Some,
    ensures
        lab_items(all, cur, f, n).0 == lab_items(all.subrange(0, k), cur, f, n).0,
    decreases all.len(),
{
    if k == all.len() {
        assert(all.subrange(0, k) =~= all);
    } else {
        assert(all.drop_last().subrange(0, k) =~= all.subrange(0, k));
        lemma_lab_items_error(all.drop_last(), k, cur, f, n);
    }
}

fn copy_label(cur: &Option<String>) -> (r: Option<String>)
    ensures
        r matches Some(x) ==> cur matches Some(c) && x@ == c@,
        r is None ==> cur is None,
{
    match cur {
        Some(c) => Some(c.clone()),
        None => None,
    }
}

pub open spec fn opt_view(cur: Option<String>) -> Option<Seq<char>> {
    match cur {
        Some(c) => Some(c@),
        None => None,
    }
}

/// Labels the loops of `s` and the `break` and `continue` statements in
/// them; `cur` is the label of the enclosing loop.
pub fn label_statement(s: Statement, cur: &Option<String>, f: &str, gen: &mut NameGen) -> (r: Result<Statement, SemanticError>)
    ensures
        ({
            let (err, n1) = lab_stmt(s, opt_view(*cur), f@, old(gen).next as nat);
            &&& r is Ok <==> err is None
            &&& r matches Err(e) ==> err == Some(e)
            &&& r matches Ok(s2) ==> {
                &&& stmt_labelled(s, opt_view(*cur), f@, old(gen).next as nat, s2)
                &&& final(gen).next == n1
                &&& stmt_labels_present(s2)
                &&& stmt_lvalues_ok(s) ==> stmt_lvalues_ok(s2)
            }
        }),
    decreases s,
{
    match s {
        Statement::Break(_) => match copy_label(cur) {
            Some(c) => Ok(Statement::Break(Some(c))),
            None => Err(SemanticError::BreakOutsideLoop),
        },
        Statement::Continue(_) => match copy_label(cur) {
            Some(c) => Ok(Statement::Continue(Some(c))),
            None => Err(SemanticError::ContinueOutsideLoop),
        },
        Statement::While { cond, body, .. } => {
            if gen.next == u64::MAX {
                return Err(SemanticError::TooManyNames);
            }
            let l = make_temp_label(f, gen);
            let b = label_statement(*body, &Some(l.clone()), f, gen)?;
            Ok(Statement::While { cond, body: Box::new(b), label: Some(l) })
        },
        Statement::DoWhile { body, cond, .. } => {
            if gen.next == u64::MAX {
                return Err(SemanticError::TooManyNames);
            }
            let l = make_temp_label(f, gen);
            let b = label_statement(*body, &Some(l.clone()), f, gen)?;
            Ok(Statement::DoWhile { body: Box::new(b), cond, label: Some(l) })
        },
        Statement::For { init, cond, post, body, .. } => {
            if gen.next == u64::MAX {
                return Err(SemanticError::TooManyNames);
            }
            let l = make_temp_label(f, gen);
            let b = label_statement(*body, &Some(l.clone()), f, gen)?;
            Ok(Statement::For { init, cond, post, body: Box::new(b), label: Some(l) })
        },
        Statement::If { cond, then_stmt, else_stmt } => {
            let t = label_statement(*then_stmt, cur, f, gen)?;
            let x = match else_stmt {
                Some(x) => Some(Box::new(label_statement(*x, cur, f, gen)?)),
                None => None,
            };
            Ok(Statement::If { cond, then_stmt: Box::new(t), else_stmt: x })
        },
        Statement::Compound(b) => {
            let items = label_items(b.items, cur, f, gen)?;
            Ok(Statement::Compound(Block { items }))
        },
        Statement::Return(e) => Ok(Statement::Return(e)),
        Statement::Expression(e) => Ok(Statement::Expression(e)),
        Statement::Goto(l) => Ok(Statement::Goto(l)),
        Statement::Label(l) => Ok(Statement::Label(l)),
        Statement::Null => Ok(Statement::Null),
    }
}

/// Labels the items of a block in order.
pub fn label_items(items: Vec<BlockItem>, cur: &Option<String>, f: &str, gen: &mut NameGen) -> (r: Result<Vec<BlockItem>, SemanticError>)
    ensures
        ({
            let (err, n1) = lab_items(items@, opt_view(*cur), f@, old(gen).next as nat);
            &&& r is Ok <==> err is None
            &&& r matches Err(e) ==> err == Some(e)
            &&& r matches Ok(out) ==> {
                &&& items_labelled(items@, opt_view(*cur), f@, old(gen).next as nat, out@)
                &&& final(gen).next == n1
                &&& items_labels_present(out@)
                &&& items_lvalues_ok(items@) ==> items_lvalues_ok(out@)
            }
        }),
    decreases items,
{
    let ghost all = items@;
    let ghost c = opt_view(*cur);
    let ghost n0 = gen.next as nat;
    let mut rest = items;
    let mut out: Vec<BlockItem> = Vec::new();
    let ghost mut i: int = 0;
    assert(all.subrange(0, 0) =~= Seq::<BlockItem>::empty());
    assert(rest@ =~= all.subrange(0, all.len() as int));
    while rest.len() > 0
        invariant
            0 <= i <= all.len(),
            rest@ == all.subrange(i, all.len() as int),
            all == items@,
            c == opt_view(*cur),
            n0 == old(gen).next as nat,
            lab_items(all.subrange(0, i), c, f@, n0).0 is None,
            lab_items(all.subrange(0, i), c, f@, n0).1 == gen.next,
            items_labelled(all.subrange(0, i), c, f@, n0, out@),
            items_labels_present(out@),
            items_lvalues_ok(all.subrange(0, i)) ==> items_lvalues_ok(out@),
            decreases_to!(items => rest@),
        decreases rest.len(),
    {
        let ghost pre = all.subrange(0, i);
        let ghost next = all.subrange(0, i + 1);
        let item = rest.remove(0);
        assert(next.drop_last() =~= pre);
        assert(next.last() == item);
        assert(rest@ =~= all.subrange(i + 1, all.len() as int));
        let r = match item {
            BlockItem::S(st) => match label_statement(st, cur, f, gen) {
                Ok(x) => BlockItem::S(x),
                Err(e) => {
                    proof {
                        assert(lab_items(next, c, f@, n0).0 == Some(e));
                        lemma_lab_items_error(all, i + 1, c, f@, n0);
                    }
                    return Err(e);
                },
            },
            BlockItem::D(d) => BlockItem::D(d),
        };
        let ghost out_before = out@;
        out.push(r);
        assert(out@.drop_last() =~= out_before);
        proof { i = i + 1; }
    }
    assert(all.subrange(0, i) =~= all);
    Ok(out)
}

/// Labels the loops of a function body, minting labels `<fn>_tmp_label.<n>`;
/// fails on a `break` or `continue` outside every loop.
pub fn loop_label(p: Program, gen: &mut NameGen) -> (r: Result<Program, SemanticError>)
    ensures
        ({
            let (err, n1) = lab_items(p.function.body.items@, None, p.function.name@, old(gen).next as nat);
            &&& r is Ok <==> err is None
            &&& r matches Err(e) ==> err == Some(e)
            &&& r matches Ok(q) ==> {
                &&& q.function.name@ == p.function.name@
                &&& items_labelled(p.function.body.items@, None, p.function.name@, old(gen).next as nat, q.function.body.items@)
                &&& final(gen).next == n1
                &&& items_labels_present(q.function.body.items@)
                &&& items_lvalues_ok(p.function.body.items@) ==> items_lvalues_ok(q.function.body.items@)
            }
        }),
{
    let Program { function } = p;
    let Function { name, body } = function;
    let items = label_items(body.items, &None, name.as_str(), gen)?;
    assert(opt_view(None) == None::<Seq<char>>);
    Ok(Program { function: Function { name, body: Block { items } } })
}

} // verus!
