//! Variable resolution: every variable is renamed to a unique name, with
//! block scoping and shadowing.
use vstd::prelude::*;
use crate::ast::{Block, BlockItem, Declaration, Expression, ForInit, Function, Program, Statement};
use crate::error::SemanticError;
use crate::names::{make_temporary_name, temp_name, NameGen};

verus! {

pub struct ScopeEntry {
    pub name: String,
    pub unique: String,
    pub from_current_block: bool,
}

/// The variables in scope; a later entry shadows an earlier one of the same name.
pub struct Scope {
    pub entries: Vec<ScopeEntry>,
}

/// An entry seen as (source name, unique name, declared in the current block).
pub type EntryView = (Seq<char>, Seq<char>, bool);

impl View for Scope {
    type V = Seq<EntryView>;

    open spec fn view(&self) -> Seq<EntryView> {
        self.entries@.map_values(|e: ScopeEntry| (e.name@, e.unique@, e.from_current_block))
    }
}

/// The innermost entry for `x`: its unique name and whether the current
/// block declared it.
pub open spec fn lookup(m: Seq<EntryView>, x: Seq<char>) -> Option<(Seq<char>, bool)>
    decreases m.len(),
{
    if m.len() == 0 {
        None
    } else if m.last().0 == x {
        Some((m.last().1, m.last().2))
    } else {
        lookup(m.drop_last(), x)
    }
}

/// The scope inside a new block: the same names, none of them from that block.
pub open spec fn enter(m: Seq<EntryView>) -> Seq<EntryView> {
    m.map_values(|e: EntryView| (e.0, e.1, false))
}

pub open spec fn declare(m: Seq<EntryView>, x: Seq<char>, n: nat) -> Seq<EntryView> {
    m.push((x, temp_name(x, n), true))
}

/// Every variable of `e` is in scope.
pub open spec fn expr_declared(e: Expression, m: Seq<EntryView>) -> bool
    decreases e,
{
    match e {
        Expression::IntConstant(_) => true,
        Expression::Var(x) => lookup(m, x@) is Some,
        Expression::Unary { expr, .. } | Expression::Postfix { expr, .. } => expr_declared(*expr, m),
        Expression::Binary { left, right, .. } | Expression::Assignment { left, right, .. } =>
            expr_declared(*left, m) && expr_declared(*right, m),
        Expression::Conditional { cond, then_expr, else_expr } =>
            expr_declared(*cond, m) && expr_declared(*then_expr, m) && expr_declared(*else_expr, m),
    }
}

/// `r` is `e` with each variable replaced by the unique name it has in `m`.
pub open spec fn expr_renamed(e: Expression, m: Seq<EntryView>, r: Expression) -> bool
    decreases e,
{
    match e {
        Expression::IntConstant(c) => r == Expression::IntConstant(c),
        Expression::Var(x) => r matches Expression::Var(y) && lookup(m, x@) matches Some(p) && y@ == p.0,
        Expression::Unary { op, expr } => r matches Expression::Unary { op: op2, expr: expr2 }
            && op == op2 && expr_renamed(*expr, m, *expr2),
        Expression::Postfix { op, expr } => r matches Expression::Postfix { op: op2, expr: expr2 }
            && op == op2 && expr_renamed(*expr, m, *expr2),
        Expression::Binary { op, left, right } => r matches Expression::Binary { op: op2, left: l2, right: r2 }
            && op == op2 && expr_renamed(*left, m, *l2) && expr_renamed(*right, m, *r2),
        Expression::Assignment { left, right, op } => r matches Expression::Assignment { left: l2, right: r2, op: op2 }
            && op == op2 && expr_renamed(*left, m, *l2) && expr_renamed(*right, m, *r2),
        Expression::Conditional { cond, then_expr, else_expr } =>
            r matches Expression::Conditional { cond: c2, then_expr: t2, else_expr: e2 }
            && expr_renamed(*cond, m, *c2) && expr_renamed(*then_expr, m, *t2) && expr_renamed(*else_expr, m, *e2),
    }
}

pub open spec fn opt_declared(e: Option<Expression>, m: Seq<EntryView>) -> bool {
    match e {
        Some(x) => expr_declared(x, m),
        None => true,
    }
}

pub open spec fn opt_renamed(e: Option<Expression>, m: Seq<EntryView>, r: Option<Expression>) -> bool {
    match e {
        Some(x) => r matches Some(y) && expr_renamed(x, m, y),
        None => r is None,
    }
}

pub open spec fn undeclared_if(ok: bool) -> Option<SemanticError> {
    if ok { None } else { Some(SemanticError::UndeclaredVariable) }
}

/// Resolving `int x = e;` from counter `n`: the error if any, the scope
/// after it and the counter after it.  The new name is in scope in `e`.
pub open spec fn res_decl(d: Declaration, m: Seq<EntryView>, n: nat) -> (Option<SemanticError>, Seq<EntryView>, nat) {
    if lookup(m, d.name@) matches Some(p) && p.1 {
        (Some(SemanticError::DuplicateDeclaration), m, n)
    } else if n >= u64::MAX {
        (Some(SemanticError::TooManyNames), m, n)
    } else {
        let m1 = declare(m, d.name@, n);
        (undeclared_if(opt_declared(d.init, m1)), m1, n + 1)
    }
}

pub open spec fn decl_renamed(d: Declaration, m: Seq<EntryView>, n: nat, r: Declaration) -> bool {
    r.name@ == temp_name(d.name@, n) && opt_renamed(d.init, declare(m, d.name@, n), r.init)
}

/// Resolving the init clause of a `for`, in a scope of its own.
pub open spec fn res_for_init(init: ForInit, m: Seq<EntryView>, n: nat) -> (Option<SemanticError>, Seq<EntryView>, nat) {
    match init {
        ForInit::Decl(d) => res_decl(d, enter(m), n),
        ForInit::Expr(e) => (undeclared_if(opt_declared(e, enter(m))), enter(m), n),
    }
}

pub open spec fn for_init_renamed(init: ForInit, m: Seq<EntryView>, n: nat, r: ForInit) -> bool {
    match init {
        ForInit::Decl(d) => r matches ForInit::Decl(d2) && decl_renamed(d, enter(m), n, d2),
        ForInit::Expr(e) => r matches ForInit::Expr(e2) && opt_renamed(e, enter(m), e2),
    }
}

/// Resolving a statement from counter `n`: the first error, if any, and the
/// counter after it.  A statement leaves the scope it is in as it was.
pub open spec fn res_stmt(s: Statement, m: Seq<EntryView>, n: nat) -> (Option<SemanticError>, nat)
    decreases s,
{
    match s {
        Statement::Return(e) | Statement::Expression(e) => (undeclared_if(expr_declared(e, m)), n),
        Statement::If { cond, then_stmt, else_stmt } => {
            if !expr_declared(cond, m) {
                (Some(SemanticError::UndeclaredVariable), n)
            } else {
                let (e1, n1) = res_stmt(*then_stmt, m, n);
                match (e1, else_stmt) {
                    (None, Some(x)) => res_stmt(*x, m, n1),
                    _ => (e1, n1),
                }
            }
        },
        Statement::Compound(b) => {
            let r = res_items(b.items@, enter(m), n);
            (r.0, r.2)
        },
        Statement::While { cond, body, .. } => {
            if !expr_declared(cond, m) { (Some(SemanticError::UndeclaredVariable), n) } else { res_stmt(*body, m, n) }
        },
        Statement::DoWhile { body, cond, .. } => {
            let (e1, n1) = res_stmt(*body, m, n);
            if e1 is Some { (e1, n1) } else { (undeclared_if(expr_declared(cond, m)), n1) }
        },
        Statement::For { init, cond, post, body, .. } => {
            let (e1, m1, n1) = res_for_init(init, m, n);
            if e1 is Some {
                (e1, n1)
            } else if !opt_declared(cond, m1) || !opt_declared(post, m1) {
                (Some(SemanticError::UndeclaredVariable), n1)
            } else {
                res_stmt(*body, m1, n1)
            }
        },
        _ => (None, n),
    }
}

/// Resolving block items in order: the first error, the scope and the counter.
pub open spec fn res_items(items: Seq<BlockItem>, m: Seq<EntryView>, n: nat) -> (Option<SemanticError>, Seq<EntryView>, nat)
    decreases items,
{
    if items.len() == 0 {
        (None, m, n)
    } else {
        let (e0, m1, n1) = res_items(items.drop_last(), m, n);
        if e0 is Some {
            (e0, m1, n1)
        } else {
            match items.last() {
                BlockItem::S(s) => { let (e2, n2) = res_stmt(s, m1, n1); (e2, m1, n2) },
                BlockItem::D(d) => res_decl(d, m1, n1),
            }
        }
    }
}

/// `r` is `s` resolved in scope `m` from counter `n`.
pub open spec fn stmt_renamed(s: Statement, m: Seq<EntryView>, n: nat, r: Statement) -> bool
    decreases s,
{
    match s {
        Statement::Return(e) => r matches Statement::Return(e2) && expr_renamed(e, m, e2),
        Statement::Expression(e) => r matches Statement::Expression(e2) && expr_renamed(e, m, e2),
        Statement::If { cond, then_stmt, else_stmt } =>
            r matches Statement::If { cond: c2, then_stmt: t2, else_stmt: x2 } && expr_renamed(cond, m, c2)
            && stmt_renamed(*then_stmt, m, n, *t2) && match else_stmt {
                Some(x) => x2 matches Some(y) && stmt_renamed(*x, m, res_stmt(*then_stmt, m, n).1, *y),
                None => x2 is None,
            },
        Statement::Compound(b) => r matches Statement::Compound(b2) && items_renamed(b.items@, enter(m), n, b2.items@),
        Statement::While { cond, body, label } => r matches Statement::While { cond: c2, body: b2, label: l2 }
            && l2 == label && expr_renamed(cond, m, c2) && stmt_renamed(*body, m, n, *b2),
        Statement::DoWhile { body, cond, label } => r matches Statement::DoWhile { body: b2, cond: c2, label: l2 }
            && l2 == label && expr_renamed(cond, m, c2) && stmt_renamed(*body, m, n, *b2),
        Statement::For { init, cond, post, body, label } =>
            r matches Statement::For { init: i2, cond: c2, post: post2, body: b2, label: l2 } && l2 == label
            && for_init_renamed(init, m, n, i2) && ({
                let (_, m1, n1) = res_for_init(init, m, n);
                opt_renamed(cond, m1, c2) && opt_renamed(post, m1, post2) && stmt_renamed(*body, m1, n1, *b2)
            }),
        _ => r == s,
    }
}

pub open spec fn items_renamed(items: Seq<BlockItem>, m: Seq<EntryView>, n: nat, r: Seq<BlockItem>) -> bool
    decreases items,
{
    r.len() == items.len() && (items.len() > 0 ==> {
        let (_, m1, n1) = res_items(items.drop_last(), m, n);
        items_renamed(items.drop_last(), m, n, r.drop_last()) && match items.last() {
            BlockItem::S(s) => r.last() matches BlockItem::S(s2) && stmt_renamed(s, m1, n1, s2),
            BlockItem::D(d) => r.last() matches BlockItem::D(d2) && decl_renamed(d, m1, n1, d2),
        }
    })
}

pub open spec fn entries_view(v: Seq<ScopeEntry>) -> Seq<EntryView> {
    v.map_values(|e: ScopeEntry| (e.name@, e.unique@, e.from_current_block))
}

/// Once a prefix of a block fails, the block fails with the same error.
pub proof fn lemma_res_items_error(all: Seq<BlockItem>, k: int, m: Seq<EntryView>, n: nat)
    requires
        0 <= k <= all.len(),
        res_items(all.subrange(0, k), m, n).0 is Some,
    ensures
        res_items(all, m, n).0 == res_items(all.subrange(0, k), m, n).0,
    decreases all.len(),
{
    if k == all.len() {
        assert(all.subrange(0, k) =~= all);
    } else {
        assert(all.drop_last().subrange(0, k) =~= all.subrange(0, k));
        lemma_res_items_error(all.drop_last(), k, m, n);
    }
}

impl Scope {
    pub fn new() -> (r: Scope)
        ensures
            r@ == Seq::<EntryView>::empty(),
    {
        let r = Scope { entries: Vec::new() };
        assert(r@ =~= Seq::<EntryView>::empty());
        r
    }

    /// The innermost entry for `x`.
    pub fn find(&self, x: &String) -> (r: Option<(String, bool)>)
        ensures
            r matches Some(p) ==> lookup(self@, x@) == Some((p.0@, p.1)),
            r is None ==> lookup(self@, x@) is None,
    {
        let mut j: usize = self.entries.len();
        assert(self@.subrange(0, j as int) =~= self@);
        while j > 0
            invariant
                0 <= j <= self@.len(),
                self@.len() == self.entries@.len(),
                lookup(self@, x@) == lookup(self@.subrange(0, j as int), x@),
            decreases j,
        {
            let e = &self.entries[j - 1];
            let ghost sub = self@.subrange(0, j as int);
            assert(sub.last() == self@[j - 1]);
            if e.name == *x {
                return Some((e.unique.clone(), e.from_current_block));
            }
            assert(sub.drop_last() =~= self@.subrange(0, j - 1));
            j = j - 1;
        }
        None
    }

    /// A copy of the scope for a nested block: every entry marked as outer.
    pub fn copy_variable_map(&self) -> (r: Scope)
        ensures
            r@ == enter(self@),
    {
        let mut entries: Vec<ScopeEntry> = Vec::new();
        let mut i: usize = 0;
        assert(entries_view(entries@) =~= enter(self@).subrange(0, 0));
        while i < self.entries.len()
            invariant
                0 <= i <= self.entries@.len(),
                entries_view(entries@) == enter(self@).subrange(0, i as int),
            decreases self.entries@.len() - i,
        {
            let e = &self.entries[i];
            let ghost before = entries_view(entries@);
            entries.push(ScopeEntry { name: e.name.clone(), unique: e.unique.clone(), from_current_block: false });
            assert(self@[i as int] == (e.name@, e.unique@, e.from_current_block));
            assert(entries_view(entries@) =~= before.push((e.name@, e.unique@, false)));
            assert(entries_view(entries@) =~= enter(self@).subrange(0, i + 1));
            i = i + 1;
        }
        let r = Scope { entries };
        assert(r@ =~= enter(self@));
        r
    }

    fn declare(&mut self, x: &String, unique: String)
        ensures
            final(self)@ == old(self)@.push((x@, unique@, true)),
    {
        self.entries.push(ScopeEntry { name: x.clone(), unique, from_current_block: true });
        assert(final(self)@ =~= old(self)@.push((x@, unique@, true)));
    }
}

/// Renames the variables of an expression to their unique names.
pub fn resolve_expression(e: Expression, m: &Scope) -> (r: Result<Expression, SemanticError>)
    ensures
        r is Ok <==> expr_declared(e, m@),
        r matches Ok(x) ==> expr_renamed(e, m@, x),
        r matches Err(er) ==> er == SemanticError::UndeclaredVariable,
    decreases e,
{
    match e {
        Expression::IntConstant(c) => Ok(Expression::IntConstant(c)),
        Expression::Var(x) => match m.find(&x) {
            Some((u, _)) => Ok(Expression::Var(u)),
            None => Err(SemanticError::UndeclaredVariable),
        },
        Expression::Unary { op, expr } => {
            let x = resolve_expression(*expr, m)?;
            Ok(Expression::Unary { op, expr: Box::new(x) })
        },
        Expression::Postfix { op, expr } => {
            let x = resolve_expression(*expr, m)?;
            Ok(Expression::Postfix { op, expr: Box::new(x) })
        },
        Expression::Binary { op, left, right } => {
            let l = resolve_expression(*left, m)?;
            let r = resolve_expression(*right, m)?;
            Ok(Expression::Binary { op, left: Box::new(l), right: Box::new(r) })
        },
        Expression::Assignment { left, right, op } => {
            let l = resolve_expression(*left, m)?;
            let r = resolve_expression(*right, m)?;
            Ok(Expression::Assignment { left: Box::new(l), right: Box::new(r), op })
        },
        Expression::Conditional { cond, then_expr, else_expr } => {
            let c = resolve_expression(*cond, m)?;
            let t = resolve_expression(*then_expr, m)?;
            let f = resolve_expression(*else_expr, m)?;
            Ok(Expression::Conditional { cond: Box::new(c), then_expr: Box::new(t), else_expr: Box::new(f) })
        },
    }
}

fn resolve_opt(e: Option<Expression>, m: &Scope) -> (r: Result<Option<Expression>, SemanticError>)
    ensures
        r is Ok <==> opt_declared(e, m@),
        r matches Ok(x) ==> opt_renamed(e, m@, x),
        r matches Err(er) ==> er == SemanticError::UndeclaredVariable,
{
    match e {
        Some(x) => Ok(Some(resolve_expression(x, m)?)),
        None => Ok(None),
    }
}

/// Declares a variable under a fresh unique name, then resolves its
/// initializer, in which the new name is already in scope.
pub fn resolve_declaration(d: Declaration, m: &mut Scope, gen: &mut NameGen) -> (r: Result<Declaration, SemanticError>)
    ensures
        ({
            let (err, m1, n1) = res_decl(d, old(m)@, old(gen).next as nat);
            &&& r is Ok <==> err is None
            &&& r matches Err(e) ==> err == Some(e)
            &&& r matches Err(e) ==> (e != SemanticError::UndeclaredVariable ==> final(m)@ == old(m)@ && final(gen).next == old(gen).next)
            &&& r matches Ok(d2) ==> decl_renamed(d, old(m)@, old(gen).next as nat, d2)
                && final(m)@ == m1 && final(gen).next == n1
        }),
{
    match m.find(&d.name) {
        Some((_, true)) => {
            return Err(SemanticError::DuplicateDeclaration);
        },
        _ => {},
    }
    if gen.next == u64::MAX {
        return Err(SemanticError::TooManyNames);
    }
    let unique = make_temporary_name(d.name.as_str(), gen);
    m.declare(&d.name, unique.clone());
    let init = resolve_opt(d.init, m)?;
    Ok(Declaration { name: unique, init })
}

pub fn resolve_for_init(init: ForInit, m: &Scope, gen: &mut NameGen) -> (r: Result<(ForInit, Scope), SemanticError>)
    ensures
        ({
            let (err, m1, n1) = res_for_init(init, m@, old(gen).next as nat);
            &&& r is Ok <==> err is None
            &&& r matches Err(e) ==> err == Some(e)
            &&& r matches Ok(p) ==> for_init_renamed(init, m@, old(gen).next as nat, p.0)
                && p.1@ == m1 && final(gen).next == n1
        }),
{
    let mut inner = m.copy_variable_map();
    match init {
        ForInit::Decl(d) => {
            let d2 = resolve_declaration(d, &mut inner, gen)?;
            Ok((ForInit::Decl(d2), inner))
        },
        ForInit::Expr(e) => {
            let e2 = resolve_opt(e, &inner)?;
            Ok((ForInit::Expr(e2), inner))
        },
    }
}

/// Resolves a statement in scope `m`; a nested block works on a copy of
/// the scope, so that `m` is unchanged.
pub fn resolve_statement(s: Statement, m: &Scope, gen: &mut NameGen) -> (r: Result<Statement, SemanticError>)
    ensures
        ({
            let (err, n1) = res_stmt(s, m@, old(gen).next as nat);
            &&& r is Ok <==> err is None
            &&& r matches Err(e) ==> err == Some(e)
            &&& r matches Ok(s2) ==> stmt_renamed(s, m@, old(gen).next as nat, s2) && final(gen).next == n1
        }),
    decreases s,
{
    match s {
        Statement::Return(e) => Ok(Statement::Return(resolve_expression(e, m)?)),
        Statement::Expression(e) => Ok(Statement::Expression(resolve_expression(e, m)?)),
        Statement::If { cond, then_stmt, else_stmt } => {
            let c = resolve_expression(cond, m)?;
            let t = resolve_statement(*then_stmt, m, gen)?;
            let x = match else_stmt {
                Some(x) => Some(Box::new(resolve_statement(*x, m, gen)?)),
                None => None,
            };
            Ok(Statement::If { cond: c, then_stmt: Box::new(t), else_stmt: x })
        },
        Statement::Compound(b) => Ok(Statement::Compound(resolve_block(b, m, gen)?)),
        Statement::While { cond, body, label } => {
            let c = resolve_expression(cond, m)?;
            let b = resolve_statement(*body, m, gen)?;
            Ok(Statement::While { cond: c, body: Box::new(b), label })
        },
        Statement::DoWhile { body, cond, label } => {
            let b = resolve_statement(*body, m, gen)?;
            let c = resolve_expression(cond, m)?;
            Ok(Statement::DoWhile { body: Box::new(b), cond: c, label })
        },
        Statement::For { init, cond, post, body, label } => {
            let (i2, inner) = resolve_for_init(init, m, gen)?;
            let c = resolve_opt(cond, &inner)?;
            let p = resolve_opt(post, &inner)?;
            let b = resolve_statement(*body, &inner, gen)?;
            Ok(Statement::For { init: i2, cond: c, post: p, body: Box::new(b), label })
        },
        Statement::Break(l) => Ok(Statement::Break(l)),
        Statement::Continue(l) => Ok(Statement::Continue(l)),
        Statement::Goto(l) => Ok(Statement::Goto(l)),
        Statement::Label(l) => Ok(Statement::Label(l)),
        Statement::Null => Ok(Statement::Null),
    }
}

pub open spec fn res_item(item: BlockItem, m: Seq<EntryView>, n: nat) -> (Option<SemanticError>, Seq<EntryView>, nat) {
    match item {
        BlockItem::S(s) => { let (e, n1) = res_stmt(s, m, n); (e, m, n1) },
        BlockItem::D(d) => res_decl(d, m, n),
    }
}

pub open spec fn item_renamed(item: BlockItem, m: Seq<EntryView>, n: nat, r: BlockItem) -> bool {
    match item {
        BlockItem::S(s) => r matches BlockItem::S(s2) && stmt_renamed(s, m, n, s2),
        BlockItem::D(d) => r matches BlockItem::D(d2) && decl_renamed(d, m, n, d2),
    }
}

/// Resolves one block item; a declaration extends `m`.
pub fn resolve_block_item(item: BlockItem, m: &mut Scope, gen: &mut NameGen) -> (r: Result<BlockItem, SemanticError>)
    ensures
        ({
            let (err, m1, n1) = res_item(item, old(m)@, old(gen).next as nat);
            &&& r is Ok <==> err is None
            &&& r matches Err(e) ==> err == Some(e)
            &&& r matches Ok(x) ==> item_renamed(item, old(m)@, old(gen).next as nat, x)
                && final(m)@ == m1 && final(gen).next == n1
        }),
    decreases item,
{
    match item {
        BlockItem::S(st) => Ok(BlockItem::S(resolve_statement(st, m, gen)?)),
        BlockItem::D(d) => Ok(BlockItem::D(resolve_declaration(d, m, gen)?)),
    }
}

/// Resolves a nested block in a copy of `m` whose entries are all outer.
pub fn resolve_block(b: Block, m: &Scope, gen: &mut NameGen) -> (r: Result<Block, SemanticError>)
    ensures
        ({
            let (err, _, n1) = res_items(b.items@, enter(m@), old(gen).next as nat);
            &&& r is Ok <==> err is None
            &&& r matches Err(e) ==> err == Some(e)
            &&& r matches Ok(b2) ==> items_renamed(b.items@, enter(m@), old(gen).next as nat, b2.items@)
                && final(gen).next == n1
        }),
    decreases b, 0nat,
{
    let mut inner = m.copy_variable_map();
    let items = resolve_items(b.items, &mut inner, gen)?;
    Ok(Block { items })
}

/// Resolves the items of a block in order; declarations extend `m`.
pub fn resolve_items(items: Vec<BlockItem>, m: &mut Scope, gen: &mut NameGen) -> (r: Result<Vec<BlockItem>, SemanticError>)
    ensures
        ({
            let (err, m1, n1) = res_items(items@, old(m)@, old(gen).next as nat);
            &&& r is Ok <==> err is None
            &&& r matches Err(e) ==> err == Some(e)
            &&& r matches Ok(out) ==> items_renamed(items@, old(m)@, old(gen).next as nat, out@)
                && final(m)@ == m1 && final(gen).next == n1
        }),
    decreases items,
{
    let ghost all = items@;
    let ghost m0 = m@;
    let ghost n0 = gen.next as nat;
    let mut rest = items;
    let mut out: Vec<BlockItem> = Vec::new();
    let ghost mut i: int = 0;
    assert(all.subrange(0, 0) =~= Seq::<BlockItem>::empty());
    assert(rest@ =~= all.subrange(0, all.len() as int));
    while rest.len() > 0
        invariant
            0 <= i <= all.len(),
            rest@ == all.subrange(i as int, all.len() as int),
            all == items@,
            m0 == old(m)@,
            n0 == old(gen).next as nat,
            res_items(all.subrange(0, i as int), m0, n0).0 is None,
            res_items(all.subrange(0, i as int), m0, n0).1 == m@,
            res_items(all.subrange(0, i as int), m0, n0).2 == gen.next,
            items_renamed(all.subrange(0, i as int), m0, n0, out@),
            decreases_to!(items => rest@),
        decreases rest.len(),
    {
        let ghost pre = all.subrange(0, i as int);
        let ghost next = all.subrange(0, i + 1);
        let item = rest.remove(0);
        assert(next.drop_last() =~= pre);
        assert(next.last() == item);
        assert(rest@ =~= all.subrange(i + 1, all.len() as int));
        let r = match item {
            BlockItem::S(st) => match resolve_statement(st, m, gen) {
                Ok(x) => BlockItem::S(x),
                Err(e) => {
                    proof {
                        assert(res_items(next, m0, n0).0 == Some(e));
                        lemma_res_items_error(all, i + 1, m0, n0);
                        assert(res_items(all, m0, n0).0 == Some(e));
                    }
                    return Err(e);
                },
            },
            BlockItem::D(d) => match resolve_declaration(d, m, gen) {
                Ok(x) => BlockItem::D(x),
                Err(e) => {
                    proof {
                        assert(res_items(next, m0, n0).0 == Some(e));
                        lemma_res_items_error(all, i + 1, m0, n0);
                        assert(res_items(all, m0, n0).0 == Some(e));
                    }
                    return Err(e);
                },
            },
        };
        let ghost out_before = out@;
        out.push(r);
        assert(out@.drop_last() =~= out_before);
        proof { i = i + 1; }
    }
    assert(all.subrange(0, i as int) =~= all);
    Ok(out)
}

/// Resolves a function body in an empty scope; the name is kept.
pub fn resolve_function(f: Function, gen: &mut NameGen) -> (r: Result<Function, SemanticError>)
    ensures
        ({
            let (err, _, n1) = res_items(f.body.items@, Seq::<EntryView>::empty(), old(gen).next as nat);
            &&& r is Ok <==> err is None
            &&& r matches Err(e) ==> err == Some(e)
            &&& r matches Ok(f2) ==> f2.name@ == f.name@
                && items_renamed(f.body.items@, Seq::<EntryView>::empty(), old(gen).next as nat, f2.body.items@)
                && final(gen).next == n1
        }),
{
    let Function { name, body } = f;
    let mut scope = Scope::new();
    let items = resolve_items(body.items, &mut scope, gen)?;
    Ok(Function { name, body: Block { items } })
}

pub fn resolve_program(p: Program, gen: &mut NameGen) -> (r: Result<Program, SemanticError>)
    ensures
        ({
            let (err, _, n1) = res_items(p.function.body.items@, Seq::<EntryView>::empty(), old(gen).next as nat);
            &&& r is Ok <==> err is None
            &&& r matches Err(e) ==> err == Some(e)
            &&& r matches Ok(q) ==> q.function.name@ == p.function.name@
                && items_renamed(p.function.body.items@, Seq::<EntryView>::empty(), old(gen).next as nat, q.function.body.items@)
                && final(gen).next == n1
        }),
{
    Ok(Program { function: resolve_function(p.function, gen)? })
}

/// Gives every variable a unique name `tmp.<name>.<n>`, with block scoping:
/// fails on a declaration repeated in one block and on an undeclared name.
pub fn variable_resolution(p: Program, gen: &mut NameGen) -> (r: Result<Program, SemanticError>)
    ensures
        ({
            let (err, _, n1) = res_items(p.function.body.items@, Seq::<EntryView>::empty(), old(gen).next as nat);
            &&& r is Ok <==> err is None
            &&& r matches Err(e) ==> err == Some(e)
            &&& r matches Ok(q) ==> q.function.name@ == p.function.name@
                && items_renamed(p.function.body.items@, Seq::<EntryView>::empty(), old(gen).next as nat, q.function.body.items@)
                && final(gen).next == n1
        }),
{
    resolve_program(p, gen)
}

} // verus!
