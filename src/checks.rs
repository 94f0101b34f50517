//! The read-only semantic checks: lvalues, duplicate labels, and a
//! statement after every label.
use vstd::prelude::*;
use crate::ast::{BlockItem, Declaration, Expression, ForInit, Statement, UnaryOperator, BinaryOperator};
use crate::error::SemanticError;
use crate::tacky::{decl_lowerable, expr_lowerable, opt_expr_lowerable};

verus! {

/// Every expression of `s` assigns, increments and decrements only lvalues.
pub open spec fn stmt_lvalues_ok(s: Statement) -> bool
    decreases s,
{
    match s {
        Statement::Return(e) | Statement::Expression(e) => expr_lowerable(e),
        Statement::If { cond, then_stmt, else_stmt } => expr_lowerable(cond) && stmt_lvalues_ok(*then_stmt)
            && (else_stmt matches Some(x) ==> stmt_lvalues_ok(*x)),
        Statement::Compound(b) => items_lvalues_ok(b.items@),
        Statement::While { cond, body, .. } | Statement::DoWhile { body, cond, .. } =>
            expr_lowerable(cond) && stmt_lvalues_ok(*body),
        Statement::For { init, cond, post, body, .. } => (match init {
                ForInit::Decl(d) => decl_lowerable(d),
                ForInit::Expr(e) => opt_expr_lowerable(e),
            }) && opt_expr_lowerable(cond) && opt_expr_lowerable(post) && stmt_lvalues_ok(*body),
        _ => true,
    }
}

pub open spec fn items_lvalues_ok(items: Seq<BlockItem>) -> bool
    decreases items,
{
    if items.len() == 0 {
        true
    } else {
        items_lvalues_ok(items.drop_last()) && match items.last() {
            BlockItem::S(s) => stmt_lvalues_ok(s),
            BlockItem::D(d) => decl_lowerable(d),
        }
    }
}

pub fn is_lvalue(e: &Expression) -> (r: bool)
    ensures
        r == e.spec_is_lvalue(),
{
    match e {
        Expression::Var(_) => true,
        Expression::Unary { op, .. } => *op == UnaryOperator::Increment || *op == UnaryOperator::Decrement,
        _ => false,
    }
}

/// Whether every assignment in `e` targets a variable, every increment and
/// decrement an lvalue, and no compound assignment is `&&=` or `||=`.
pub fn check_expression(e: &Expression) -> (r: bool)
    ensures
        r == expr_lowerable(*e),
    decreases e,
{
    match e {
        Expression::IntConstant(_) | Expression::Var(_) => true,
        Expression::Unary { op, expr } => check_expression(expr)
            && (!(*op == UnaryOperator::Increment || *op == UnaryOperator::Decrement) || is_lvalue(expr)),
        Expression::Binary { left, right, .. } => check_expression(left) && check_expression(right),
        Expression::Assignment { left, right, op } => check_expression(left) && check_expression(right)
            && matches!(**left, Expression::Var(_)) && match op {
                Some(o) => !(*o == BinaryOperator::And || *o == BinaryOperator::Or),
                None => true,
            },
        Expression::Postfix { expr, .. } => check_expression(expr) && is_lvalue(expr),
        Expression::Conditional { cond, then_expr, else_expr } => check_expression(cond)
            && check_expression(then_expr) && check_expression(else_expr),
    }
}

fn check_opt(e: &Option<Expression>) -> (r: bool)
    ensures
        r == opt_expr_lowerable(*e),
{
    match e {
        Some(x) => check_expression(x),
        None => true,
    }
}

fn check_declaration(d: &Declaration) -> (r: bool)
    ensures
        r == decl_lowerable(*d),
{
    check_opt(&d.init)
}

pub fn check_statement(s: &Statement) -> (r: bool)
    ensures
        r == stmt_lvalues_ok(*s),
    decreases s,
{
    match s {
        Statement::Return(e) | Statement::Expression(e) => check_expression(e),
        Statement::If { cond, then_stmt, else_stmt } => check_expression(cond) && check_statement(then_stmt)
            && match else_stmt {
                Some(x) => check_statement(x),
                None => true,
            },
        Statement::Compound(b) => check_lvalue(&b.items),
        Statement::While { cond, body, .. } | Statement::DoWhile { body, cond, .. } =>
            check_expression(cond) && check_statement(body),
        Statement::For { init, cond, post, body, .. } => (match init {
                ForInit::Decl(d) => check_declaration(d),
                ForInit::Expr(e) => check_opt(e),
            }) && check_opt(cond) && check_opt(post) && check_statement(body),
        _ => true,
    }
}

/// Whether every item of a block passes the lvalue check.
pub fn check_lvalue(items: &Vec<BlockItem>) -> (r: bool)
    ensures
        r == items_lvalues_ok(items@),
    decreases items, 0nat,
{
    let mut i: usize = 0;
    assert(items@.subrange(0, 0) =~= Seq::<BlockItem>::empty());
    while i < items.len()
        invariant
            0 <= i <= items@.len(),
            items_lvalues_ok(items@.subrange(0, i as int)),
        decreases items@.len() - i,
    {
        let ok = match &items[i] {
            BlockItem::S(s) => check_statement(s),
            BlockItem::D(d) => check_declaration(d),
        };
        assert(items@.subrange(0, i + 1).drop_last() =~= items@.subrange(0, i as int));
        if !ok {
            proof { lemma_lvalues_prefix(items@, i + 1); }
            return false;
        }
        i = i + 1;
    }
    assert(items@.subrange(0, i as int) =~= items@);
    true
}

/// A block whose prefix fails the lvalue check fails it.
proof fn lemma_lvalues_prefix(items: Seq<BlockItem>, k: int)
    requires
        0 <= k <= items.len(),
        !items_lvalues_ok(items.subrange(0, k)),
    ensures
        !items_lvalues_ok(items),
    decreases items.len(),
{
    if k < items.len() {
        assert(items.drop_last().subrange(0, k) =~= items.subrange(0, k));
        lemma_lvalues_prefix(items.drop_last(), k);
    } else {
        assert(items.subrange(0, k) =~= items);
    }
}

/// The labels that `s` declares, in order.
pub open spec fn stmt_labels(s: Statement) -> Seq<Seq<char>>
    decreases s,
{
    match s {
        Statement::Label(l) => seq![l@],
        Statement::If { then_stmt, else_stmt, .. } => stmt_labels(*then_stmt) + match else_stmt {
            Some(x) => stmt_labels(*x),
            None => Seq::empty(),
        },
        Statement::Compound(b) => items_labels(b.items@),
        Statement::While { body, .. } | Statement::DoWhile { body, .. } | Statement::For { body, .. } => stmt_labels(*body),
        _ => Seq::empty(),
    }
}

pub open spec fn items_labels(items: Seq<BlockItem>) -> Seq<Seq<char>>
    decreases items,
{
    if items.len() == 0 {
        Seq::empty()
    } else {
        items_labels(items.drop_last()) + match items.last() {
            BlockItem::S(s) => stmt_labels(s),
            BlockItem::D(_) => Seq::empty(),
        }
    }
}

pub open spec fn strings_view(v: Seq<String>) -> Seq<Seq<char>> {
    v.map_values(|s: String| s@)
}

fn collect_labels(s: &Statement, out: &mut Vec<String>)
    ensures
        strings_view(final(out)@) == strings_view(old(out)@) + stmt_labels(*s),
    decreases s,
{
    let ghost out0 = strings_view(out@);
    match s {
        Statement::Label(l) => {
            out.push(l.clone());
        },
        Statement::If { then_stmt, else_stmt, .. } => {
            collect_labels(then_stmt, out);
            match else_stmt {
                Some(x) => collect_labels(x, out),
                None => {},
            }
        },
        Statement::Compound(b) => collect_item_labels(&b.items, out),
        Statement::While { body, .. } | Statement::DoWhile { body, .. } | Statement::For { body, .. } => collect_labels(body, out),
        _ => {},
    }
    assert(strings_view(out@) =~= out0 + stmt_labels(*s));
}

fn collect_item_labels(items: &Vec<BlockItem>, out: &mut Vec<String>)
    ensures
        strings_view(final(out)@) == strings_view(old(out)@) + items_labels(items@),
    decreases items, 0nat,
{
    let ghost out0 = strings_view(out@);
    let mut i: usize = 0;
    assert(out0 =~= out0 + items_labels(items@.subrange(0, 0)));
    while i < items.len()
        invariant
            0 <= i <= items@.len(),
            strings_view(out@) == out0 + items_labels(items@.subrange(0, i as int)),
        decreases items@.len() - i,
    {
        let ghost pre = strings_view(out@);
        match &items[i] {
            BlockItem::S(s) => collect_labels(s, out),
            BlockItem::D(_) => {},
        }
        assert(items@.subrange(0, i + 1).drop_last() =~= items@.subrange(0, i as int));
        assert(strings_view(out@) =~= out0 + items_labels(items@.subrange(0, i + 1)));
        i = i + 1;
    }
    assert(items@.subrange(0, i as int) =~= items@);
}

/// Fails with `DuplicateLabel` exactly when two label statements of the
/// function body share a name.
pub fn duplicate_labels_resolution(items: &Vec<BlockItem>) -> (r: Result<(), SemanticError>)
    ensures
        r is Ok <==> items_labels(items@).no_duplicates(),
        r matches Err(e) ==> e == SemanticError::DuplicateLabel,
{
    let mut labels: Vec<String> = Vec::new();
    assert(strings_view(labels@) =~= Seq::<Seq<char>>::empty());
    collect_item_labels(items, &mut labels);
    let ghost v = strings_view(labels@);
    assert(v =~= items_labels(items@));
    let n = labels.len();
    let mut i: usize = 0;
    while i < n
        invariant
            0 <= i <= n,
            n == labels@.len(),
            v == strings_view(labels@),
            v == items_labels(items@),
            forall|a: int, b: int| 0 <= a < i && a < b < n ==> v[a] != v[b],
        decreases n - i,
    {
        let mut j: usize = i + 1;
        while j < n
            invariant
                i < n,
                i + 1 <= j <= n,
                n == labels@.len(),
                v == strings_view(labels@),
                v == items_labels(items@),
                forall|a: int, b: int| 0 <= a < i && a < b < n ==> v[a] != v[b],
                forall|b: int| i < b < j ==> v[i as int] != v[b],
            decreases n - j,
        {
            if labels[i] == labels[j] {
                assert(v[i as int] == v[j as int]);
                assert(!v.no_duplicates());
                return Err(SemanticError::DuplicateLabel);
            }
            j = j + 1;
        }
        i = i + 1;
    }
    assert(v.no_duplicates()) by {
        assert forall|a: int, b: int| 0 <= a < v.len() && 0 <= b < v.len() && a != b implies v[a] != v[b] by {
            if a > b {
                assert(v[b] != v[a]);
            }
        }
    }
    Ok(())
}

/// The targets of the `goto` statements of `s`, in order.
pub open spec fn stmt_gotos(s: Statement) -> Seq<Seq<char>>
    decreases s,
{
    match s {
        Statement::Goto(l) => seq![l@],
        Statement::If { then_stmt, else_stmt, .. } => stmt_gotos(*then_stmt) + match else_stmt {
            Some(x) => stmt_gotos(*x),
            None => Seq::empty(),
        },
        Statement::Compound(b) => items_gotos(b.items@),
        Statement::While { body, .. } | Statement::DoWhile { body, .. } | Statement::For { body, .. } => stmt_gotos(*body),
        _ => Seq::empty(),
    }
}

pub open spec fn items_gotos(items: Seq<BlockItem>) -> Seq<Seq<char>>
    decreases items,
{
    if items.len() == 0 {
        Seq::empty()
    } else {
        items_gotos(items.drop_last()) + match items.last() {
            BlockItem::S(s) => stmt_gotos(s),
            BlockItem::D(_) => Seq::empty(),
        }
    }
}

fn collect_gotos(s: &Statement, out: &mut Vec<String>)
    ensures
        strings_view(final(out)@) == strings_view(old(out)@) + stmt_gotos(*s),
    decreases s,
{
    let ghost out0 = strings_view(out@);
    match s {
        Statement::Goto(l) => {
            out.push(l.clone());
        },
        Statement::If { then_stmt, else_stmt, .. } => {
            collect_gotos(then_stmt, out);
            match else_stmt {
                Some(x) => collect_gotos(x, out),
                None => {},
            }
        },
        Statement::Compound(b) => collect_item_gotos(&b.items, out),
        Statement::While { body, .. } | Statement::DoWhile { body, .. } | Statement::For { body, .. } => collect_gotos(body, out),
        _ => {},
    }
    assert(strings_view(out@) =~= out0 + stmt_gotos(*s));
}

fn collect_item_gotos(items: &Vec<BlockItem>, out: &mut Vec<String>)
    ensures
        strings_view(final(out)@) == strings_view(old(out)@) + items_gotos(items@),
    decreases items, 0nat,
{
    let ghost out0 = strings_view(out@);
    let mut i: usize = 0;
    assert(out0 =~= out0 + items_gotos(items@.subrange(0, 0)));
    while i < items.len()
        invariant
            0 <= i <= items@.len(),
            strings_view(out@) == out0 + items_gotos(items@.subrange(0, i as int)),
        decreases items@.len() - i,
    {
        match &items[i] {
            BlockItem::S(s) => collect_gotos(s, out),
            BlockItem::D(_) => {},
        }
        assert(items@.subrange(0, i + 1).drop_last() =~= items@.subrange(0, i as int));
        assert(strings_view(out@) =~= out0 + items_gotos(items@.subrange(0, i + 1)));
        i = i + 1;
    }
    assert(items@.subrange(0, i as int) =~= items@);
}

/// Every `goto` of the body names one of its labels.
pub open spec fn gotos_defined(items: Seq<BlockItem>) -> bool {
    forall|k: int| 0 <= k < items_gotos(items).len() ==> items_labels(items).contains(#[trigger] items_gotos(items)[k])
}

/// Fails with `UndefinedLabel` exactly when some `goto` of the function
/// body names no label of it.
pub fn goto_resolution(items: &Vec<BlockItem>) -> (r: Result<(), SemanticError>)
    ensures
        r is Ok <==> gotos_defined(items@),
        r matches Err(e) ==> e == SemanticError::UndefinedLabel,
{
    let mut labels: Vec<String> = Vec::new();
    let mut gotos: Vec<String> = Vec::new();
    assert(strings_view(labels@) =~= Seq::<Seq<char>>::empty());
    assert(strings_view(gotos@) =~= Seq::<Seq<char>>::empty());
    collect_item_labels(items, &mut labels);
    collect_item_gotos(items, &mut gotos);
    let ghost lv = strings_view(labels@);
    let ghost gv = strings_view(gotos@);
    assert(lv =~= items_labels(items@));
    assert(gv =~= items_gotos(items@));
    let mut i: usize = 0;
    while i < gotos.len()
        invariant
            0 <= i <= gotos@.len(),
            gv == strings_view(gotos@),
            lv == strings_view(labels@),
            gv == items_gotos(items@),
            lv == items_labels(items@),
            forall|k: int| 0 <= k < i ==> lv.contains(#[trigger] gv[k]),
        decreases gotos@.len() - i,
    {
        let mut j: usize = 0;
        let mut found = false;
        while j < labels.len()
            invariant
                0 <= j <= labels@.len(),
                i < gotos@.len(),
                gv == strings_view(gotos@),
                lv == strings_view(labels@),
                found ==> lv.contains(gv[i as int]),
                !found ==> forall|k: int| 0 <= k < j ==> lv[k] != gv[i as int],
            decreases labels@.len() - j,
        {
            if labels[j] == gotos[i] {
                assert(lv[j as int] == gv[i as int]);
                found = true;
            }
            j = j + 1;
        }
        if !found {
            assert(!lv.contains(gv[i as int]));
            return Err(SemanticError::UndefinedLabel);
        }
        i = i + 1;
    }
    Ok(())
}

pub open spec fn is_label(item: BlockItem) -> bool {
    item matches BlockItem::S(Statement::Label(_))
}

/// In every block, each label is followed by a statement.
pub open spec fn stmt_labels_placed(s: Statement) -> bool
    decreases s,
{
    match s {
        Statement::If { then_stmt, else_stmt, .. } => stmt_labels_placed(*then_stmt)
            && (else_stmt matches Some(x) ==> stmt_labels_placed(*x)),
        Statement::Compound(b) => items_pairs_ok(b.items@) && (b.items@.len() > 0 ==> !is_label(b.items@.last())),
        Statement::While { body, .. } | Statement::DoWhile { body, .. } | Statement::For { body, .. } => stmt_labels_placed(*body),
        _ => true,
    }
}

/// Each label of the block but the last item is followed by a statement,
/// and nested blocks obey the same rule.
pub open spec fn items_pairs_ok(items: Seq<BlockItem>) -> bool
    decreases items,
{
    if items.len() == 0 {
        true
    } else {
        items_pairs_ok(items.drop_last())
            && (items.len() >= 2 && is_label(items[items.len() - 2]) ==> items.last() is S)
            && (items.last() matches BlockItem::S(s) ==> stmt_labels_placed(s))
    }
}

/// Every label of the block is followed by a statement of the block.
pub open spec fn items_labels_placed(items: Seq<BlockItem>) -> bool {
    items_pairs_ok(items) && (items.len() > 0 ==> !is_label(items.last()))
}

fn check_label_placement(s: &Statement) -> (r: bool)
    ensures
        r == stmt_labels_placed(*s),
    decreases s,
{
    match s {
        Statement::If { then_stmt, else_stmt, .. } => check_label_placement(then_stmt) && match else_stmt {
            Some(x) => check_label_placement(x),
            None => true,
        },
        Statement::Compound(b) => check_items_label_placement(&b.items),
        Statement::While { body, .. } | Statement::DoWhile { body, .. } | Statement::For { body, .. } => check_label_placement(body),
        _ => true,
    }
}

fn item_is_label(item: &BlockItem) -> (r: bool)
    ensures
        r == is_label(*item),
{
    matches!(item, BlockItem::S(Statement::Label(_)))
}

fn check_items_label_placement(items: &Vec<BlockItem>) -> (r: bool)
    ensures
        r == items_labels_placed(items@),
    decreases items, 0nat,
{
    let n = items.len();
    let mut i: usize = 0;
    let mut ok = true;
    assert(items@.subrange(0, 0) =~= Seq::<BlockItem>::empty());
    while i < n
        invariant
            0 <= i <= n,
            n == items@.len(),
            ok == items_pairs_ok(items@.subrange(0, i as int)),
        decreases n - i,
    {
        let ghost sub = items@.subrange(0, i + 1);
        assert(sub.drop_last() =~= items@.subrange(0, i as int));
        assert(sub.last() == items@[i as int]);
        if i >= 1 {
            assert(sub[sub.len() - 2] == items@[i - 1]);
        }
        let here = match &items[i] {
            BlockItem::S(s) => check_label_placement(s),
            BlockItem::D(_) => true,
        };
        let prev_label = i >= 1 && item_is_label(&items[i - 1]);
        let after_ok = !prev_label || matches!(&items[i], BlockItem::S(_));
        ok = ok && after_ok && here;
        i = i + 1;
    }
    assert(items@.subrange(0, i as int) =~= items@);
    ok && (n == 0 || !item_is_label(&items[n - 1]))
}

/// Fails with `LabelWithoutStatement` exactly when some block has a label
/// followed by a declaration, or ends with a label.
pub fn statement_after_labels_resolution(items: &Vec<BlockItem>) -> (r: Result<(), SemanticError>)
    ensures
        r is Ok <==> items_labels_placed(items@),
        r matches Err(e) ==> e == SemanticError::LabelWithoutStatement,
{
    if check_items_label_placement(items) { Ok(()) } else { Err(SemanticError::LabelWithoutStatement) }
}

} // verus!
