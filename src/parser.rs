//! The parser: tokens to a syntax tree, by recursive descent with
//! precedence climbing for binary operators.
use vstd::prelude::*;
use crate::ast::{BinaryOperator, Block, BlockItem, Declaration, Expression, ForInit, Function, PostfixOperator, Program, Statement, UnaryOperator};
use crate::error::Error;
use crate::lexer::Token;

verus! {

/// An operator that may follow an operand.
#[derive(Clone, Copy, Debug, PartialEq, Eq, Structural)]
pub enum Infix {
    Binary(BinaryOperator),
    Assign,
    CompoundAssign(BinaryOperator),
    Ternary,
}

/// Binding strength of an infix operator; higher binds tighter.
pub open spec fn spec_precedence(op: Infix) -> u64 {
    match op {
        Infix::Binary(b) => match b {
            BinaryOperator::Multiply | BinaryOperator::Divide | BinaryOperator::Remainder => 50,
            BinaryOperator::Add | BinaryOperator::Subtract => 45,
            BinaryOperator::LeftShift | BinaryOperator::RightShift => 40,
            BinaryOperator::LessThan | BinaryOperator::Leq | BinaryOperator::GreaterThan | BinaryOperator::Geq => 39,
            BinaryOperator::Equal | BinaryOperator::NotEqual => 38,
            BinaryOperator::BitwiseAnd => 35,
            BinaryOperator::BitwiseXor => 34,
            BinaryOperator::BitwiseOr => 33,
            BinaryOperator::And => 30,
            BinaryOperator::Or => 29,
        },
        Infix::Ternary => 25,
        Infix::Assign | Infix::CompoundAssign(_) => 20,
    }
}

impl BinaryOperator {
    /// Binding strength of a binary operator; higher binds tighter.
    pub fn precedence(&self) -> (r: u64)
        ensures
            r == spec_precedence(Infix::Binary(*self)),
    {
        match self {
            BinaryOperator::Multiply | BinaryOperator::Divide | BinaryOperator::Remainder => 50,
            BinaryOperator::Add | BinaryOperator::Subtract => 45,
            BinaryOperator::LeftShift | BinaryOperator::RightShift => 40,
            BinaryOperator::LessThan | BinaryOperator::Leq | BinaryOperator::GreaterThan | BinaryOperator::Geq => 39,
            BinaryOperator::Equal | BinaryOperator::NotEqual => 38,
            BinaryOperator::BitwiseAnd => 35,
            BinaryOperator::BitwiseXor => 34,
            BinaryOperator::BitwiseOr => 33,
            BinaryOperator::And => 30,
            BinaryOperator::Or => 29,
        }
    }
}

impl Infix {
    pub fn precedence(&self) -> (r: u64)
        ensures
            r == spec_precedence(*self),
    {
        match self {
            Infix::Binary(b) => b.precedence(),
            Infix::Ternary => 25,
            Infix::Assign | Infix::CompoundAssign(_) => 20,
        }
    }
}

fn parse_error(expected: &str, toks: &Vec<Token>, pos: usize) -> (r: Error)
    ensures
        r is Parser,
{
    let found = if pos < toks.len() { describe(&toks[pos]) } else { String::from_str("end of file") };
    Error::Parser { expected: String::from_str(expected), found }
}

fn describe(t: &Token) -> String {
    match t {
        Token::Identifier(s) => s.clone(),
        Token::IntegerConstant(_) => String::from_str("integer constant"),
        Token::OpenParenthesis => String::from_str("("),
        Token::ClosedParenthesis => String::from_str(")"),
        Token::OpenBrace => String::from_str("{"),
        Token::ClosedBrace => String::from_str("}"),
        Token::Semicolon => String::from_str(";"),
        _ => String::from_str("another token"),
    }
}

/// Consumes the token at `pos` when `f` accepts it.
fn expect(toks: &Vec<Token>, pos: usize, ok: bool, what: &str) -> (r: Result<usize, Error>)
    ensures
        r is Ok <==> ok && pos < toks@.len(),
        r matches Ok(p) ==> p == pos + 1 && pos < toks@.len() && ok,
        r matches Err(e) ==> e is Parser,
        toks@.len() <= usize::MAX,
{
    let n = toks.len();
    if ok && pos < n { Ok(pos + 1) } else { Err(parse_error(what, toks, pos)) }
}

fn at(toks: &Vec<Token>, pos: usize) -> (r: Option<&Token>)
    ensures
        r matches Some(t) ==> pos < toks@.len() && *t == toks@[pos as int],
        r is None ==> pos >= toks@.len(),
        toks@.len() <= usize::MAX,
{
    if pos < toks.len() { Some(&toks[pos]) } else { None }
}

/// The infix operator that a token stands for, if any.
pub open spec fn infix_of(t: Token) -> Option<Infix> {
    match t {
        Token::Hyphen => Some(Infix::Binary(BinaryOperator::Subtract)),
        Token::Plus => Some(Infix::Binary(BinaryOperator::Add)),
        Token::Asterisk => Some(Infix::Binary(BinaryOperator::Multiply)),
        Token::ForwardSlash => Some(Infix::Binary(BinaryOperator::Divide)),
        Token::Percent => Some(Infix::Binary(BinaryOperator::Remainder)),
        Token::Ampersand => Some(Infix::Binary(BinaryOperator::BitwiseAnd)),
        Token::LeftShift => Some(Infix::Binary(BinaryOperator::LeftShift)),
        Token::RightShift => Some(Infix::Binary(BinaryOperator::RightShift)),
        Token::Pipe => Some(Infix::Binary(BinaryOperator::BitwiseOr)),
        Token::Carrot => Some(Infix::Binary(BinaryOperator::BitwiseXor)),
        Token::DoubleAmpersand => Some(Infix::Binary(BinaryOperator::And)),
        Token::DoublePipe => Some(Infix::Binary(BinaryOperator::Or)),
        Token::DoubleEqual => Some(Infix::Binary(BinaryOperator::Equal)),
        Token::NotEqual => Some(Infix::Binary(BinaryOperator::NotEqual)),
        Token::LessThan => Some(Infix::Binary(BinaryOperator::LessThan)),
        Token::Leq => Some(Infix::Binary(BinaryOperator::Leq)),
        Token::GreaterThan => Some(Infix::Binary(BinaryOperator::GreaterThan)),
        Token::Geq => Some(Infix::Binary(BinaryOperator::Geq)),
        Token::Equal => Some(Infix::Assign),
        Token::QuestionMark => Some(Infix::Ternary),
        Token::PlusEqual => Some(Infix::CompoundAssign(BinaryOperator::Add)),
        Token::MinusEqual => Some(Infix::CompoundAssign(BinaryOperator::Subtract)),
        Token::AsteriskEqual => Some(Infix::CompoundAssign(BinaryOperator::Multiply)),
        Token::ForwardSlashEqual => Some(Infix::CompoundAssign(BinaryOperator::Divide)),
        Token::PercentEqual => Some(Infix::CompoundAssign(BinaryOperator::Remainder)),
        Token::AmpersandEqual => Some(Infix::CompoundAssign(BinaryOperator::BitwiseAnd)),
        Token::PipeEqual => Some(Infix::CompoundAssign(BinaryOperator::BitwiseOr)),
        Token::CarrotEqual => Some(Infix::CompoundAssign(BinaryOperator::BitwiseXor)),
        Token::LtLtEqual => Some(Infix::CompoundAssign(BinaryOperator::LeftShift)),
        Token::GtGtEqual => Some(Infix::CompoundAssign(BinaryOperator::RightShift)),
        _ => None,
    }
}

/// The prefix operator that a token stands for, if any.
pub open spec fn prefix_of(t: Token) -> Option<UnaryOperator> {
    match t {
        Token::Hyphen => Some(UnaryOperator::Negate),
        Token::Tilde => Some(UnaryOperator::Complement),
        Token::Exclamation => Some(UnaryOperator::Not),
        Token::DoublePlus => Some(UnaryOperator::Increment),
        Token::DoubleHyphen => Some(UnaryOperator::Decrement),
        _ => None,
    }
}

/// The infix operator at `pos`, if any.
pub fn parse_binary(toks: &Vec<Token>, pos: usize) -> (r: Option<Infix>)
    ensures
        r == (if pos < toks@.len() { infix_of(toks@[pos as int]) } else { None }),
{
    let t = match at(toks, pos) {
        Some(t) => t,
        None => { return None; },
    };
    let op = match t {
        Token::Hyphen => Infix::Binary(BinaryOperator::Subtract),
        Token::Plus => Infix::Binary(BinaryOperator::Add),
        Token::Asterisk => Infix::Binary(BinaryOperator::Multiply),
        Token::ForwardSlash => Infix::Binary(BinaryOperator::Divide),
        Token::Percent => Infix::Binary(BinaryOperator::Remainder),
        Token::Ampersand => Infix::Binary(BinaryOperator::BitwiseAnd),
        Token::LeftShift => Infix::Binary(BinaryOperator::LeftShift),
        Token::RightShift => Infix::Binary(BinaryOperator::RightShift),
        Token::Pipe => Infix::Binary(BinaryOperator::BitwiseOr),
        Token::Carrot => Infix::Binary(BinaryOperator::BitwiseXor),
        Token::DoubleAmpersand => Infix::Binary(BinaryOperator::And),
        Token::DoublePipe => Infix::Binary(BinaryOperator::Or),
        Token::DoubleEqual => Infix::Binary(BinaryOperator::Equal),
        Token::NotEqual => Infix::Binary(BinaryOperator::NotEqual),
        Token::LessThan => Infix::Binary(BinaryOperator::LessThan),
        Token::Leq => Infix::Binary(BinaryOperator::Leq),
        Token::GreaterThan => Infix::Binary(BinaryOperator::GreaterThan),
        Token::Geq => Infix::Binary(BinaryOperator::Geq),
        Token::Equal => Infix::Assign,
        Token::QuestionMark => Infix::Ternary,
        Token::PlusEqual => Infix::CompoundAssign(BinaryOperator::Add),
        Token::MinusEqual => Infix::CompoundAssign(BinaryOperator::Subtract),
        Token::AsteriskEqual => Infix::CompoundAssign(BinaryOperator::Multiply),
        Token::ForwardSlashEqual => Infix::CompoundAssign(BinaryOperator::Divide),
        Token::PercentEqual => Infix::CompoundAssign(BinaryOperator::Remainder),
        Token::AmpersandEqual => Infix::CompoundAssign(BinaryOperator::BitwiseAnd),
        Token::PipeEqual => Infix::CompoundAssign(BinaryOperator::BitwiseOr),
        Token::CarrotEqual => Infix::CompoundAssign(BinaryOperator::BitwiseXor),
        Token::LtLtEqual => Infix::CompoundAssign(BinaryOperator::LeftShift),
        Token::GtGtEqual => Infix::CompoundAssign(BinaryOperator::RightShift),
        _ => { return None; },
    };
    Some(op)
}

/// A prefix operator token's operator.
pub fn parse_unary(t: &Token) -> (r: Option<UnaryOperator>)
    ensures
        r == prefix_of(*t),
{
    match t {
        Token::Hyphen => Some(UnaryOperator::Negate),
        Token::Tilde => Some(UnaryOperator::Complement),
        Token::Exclamation => Some(UnaryOperator::Not),
        Token::DoublePlus => Some(UnaryOperator::Increment),
        Token::DoubleHyphen => Some(UnaryOperator::Decrement),
        _ => None,
    }
}

pub open spec fn is_tok(t: Seq<Token>, p: int, k: Token) -> bool {
    0 <= p < t.len() && t[p] == k
}

/// `e` with the postfix `++` or `--` at `p` applied, if there is one.
pub open spec fn postfix_of(t: Seq<Token>, p: int, e: Expression) -> (Expression, int) {
    if is_tok(t, p, Token::DoublePlus) {
        (Expression::Postfix { op: PostfixOperator::Increment, expr: Box::new(e) }, p + 1)
    } else if is_tok(t, p, Token::DoubleHyphen) {
        (Expression::Postfix { op: PostfixOperator::Decrement, expr: Box::new(e) }, p + 1)
    } else {
        (e, p)
    }
}

/// The factor at `pos` and the position after it:
/// `<int> | <identifier> [++|--] | "(" <exp> ")" [++|--] | <unop> <factor>`.
pub open spec fn factor_of(t: Seq<Token>, pos: int) -> Option<(Expression, int)>
    decreases t.len() - pos, 0nat,
{
    if !(0 <= pos < t.len()) {
        None
    } else {
        match t[pos] {
            Token::IntegerConstant(v) => Some((Expression::IntConstant(v), pos + 1)),
            Token::Identifier(id) => Some(postfix_of(t, pos + 1, Expression::Var(id))),
            Token::OpenParenthesis => match expr_of(t, pos + 1, 0) {
                Some((e, p)) => if is_tok(t, p, Token::ClosedParenthesis) { Some(postfix_of(t, p + 1, e)) } else { None },
                None => None,
            },
            _ => match prefix_of(t[pos]) {
                Some(op) => match factor_of(t, pos + 1) {
                    Some((e, p)) => Some((Expression::Unary { op, expr: Box::new(e) }, p)),
                    None => None,
                },
                None => None,
            },
        }
    }
}

/// The expression at `pos` whose operators bind at least `min`, and the
/// position after it.
pub open spec fn expr_of(t: Seq<Token>, pos: int, min: u64) -> Option<(Expression, int)>
    decreases t.len() - pos, 2nat,
{
    if !(0 <= pos < t.len()) {
        None
    } else {
        match factor_of(t, pos) {
            Some((l, p)) => if pos < p <= t.len() { climb(t, l, p, min, pos) } else { None },
            None => None,
        }
    }
}

/// One step of precedence climbing: the operator at `p`, if it binds at
/// least `min`, with its right operand, combined with `left`.
pub open spec fn infix_step(t: Seq<Token>, left: Expression, p: int, op: Infix) -> Option<(Expression, int)>
    decreases t.len() - p, 0nat,
{
    if !(0 <= p < t.len()) {
        None
    } else {
        let prec = spec_precedence(op);
        match op {
            Infix::Assign => match expr_of(t, p + 1, prec) {
                Some((r, q)) => Some((Expression::Assignment { left: Box::new(left), right: Box::new(r), op: None }, q)),
                None => None,
            },
            Infix::CompoundAssign(b) => match expr_of(t, p + 1, prec) {
                Some((r, q)) => Some((Expression::Assignment { left: Box::new(left), right: Box::new(r), op: Some(b) }, q)),
                None => None,
            },
            Infix::Ternary => match expr_of(t, p + 1, 0) {
                Some((m, q)) => if is_tok(t, q, Token::Colon) && p < q {
                    match expr_of(t, q + 1, prec) {
                        Some((r, q2)) => Some((Expression::Conditional { cond: Box::new(left), then_expr: Box::new(m),
                            else_expr: Box::new(r) }, q2)),
                        None => None,
                    }
                } else {
                    None
                },
                None => None,
            },
            Infix::Binary(b) => match expr_of(t, p + 1, (prec + 1) as u64) {
                Some((r, q)) => Some((Expression::Binary { op: b, left: Box::new(left), right: Box::new(r) }, q)),
                None => None,
            },
        }
    }
}

/// Precedence climbing from `left`, which ends at `p`; `start` is where the
/// whole expression began.
pub open spec fn climb(t: Seq<Token>, left: Expression, p: int, min: u64, start: int) -> Option<(Expression, int)>
    decreases t.len() - p, 1nat,
{
    if !(start < p <= t.len()) {
        None
    } else {
        match (if p < t.len() { infix_of(t[p]) } else { None }) {
            None => Some((left, p)),
            Some(op) => if spec_precedence(op) < min {
                Some((left, p))
            } else {
                match infix_step(t, left, p, op) {
                    Some((nl, q)) => if p < q <= t.len() { climb(t, nl, q, min, start) } else { None },
                    None => None,
                }
            },
        }
    }
}

/// Wraps `e` in the postfix `++` or `--` at `pos`, if there is one.
fn parse_postfix(toks: &Vec<Token>, pos: usize, e: Expression) -> (r: (Expression, usize))
    ensures
        pos <= r.1 <= pos + 1,
        r.1 > pos ==> pos < toks@.len(),
        (r.0, r.1 as int) == postfix_of(toks@, pos as int, e),
{
    match at(toks, pos) {
        Some(Token::DoublePlus) => (Expression::Postfix { op: PostfixOperator::Increment, expr: Box::new(e) }, pos + 1),
        Some(Token::DoubleHyphen) => (Expression::Postfix { op: PostfixOperator::Decrement, expr: Box::new(e) }, pos + 1),
        _ => (e, pos),
    }
}

/// `<factor> ::= <int> | <identifier> [++|--] | "(" <exp> ")" [++|--] | <unop> <factor>`
pub fn parse_factor(toks: &Vec<Token>, pos: usize) -> (r: Result<(Expression, usize), Error>)
    ensures
        r is Ok <==> factor_of(toks@, pos as int) is Some,
        r matches Ok(p) ==> pos < p.1 <= toks@.len() && factor_of(toks@, pos as int) == Some((p.0, p.1 as int)),
        r matches Err(e) ==> e is Parser,
    decreases toks@.len() - pos, 0nat,
{
    let t = match at(toks, pos) {
        Some(t) => t,
        None => { return Err(parse_error("factor", toks, pos)); },
    };
    match t {
        Token::IntegerConstant(v) => Ok((Expression::IntConstant(*v), pos + 1)),
        Token::Identifier(id) => Ok(parse_postfix(toks, pos + 1, Expression::Var(id.clone()))),
        Token::OpenParenthesis => {
            let (inner, p) = parse_expression(toks, pos + 1, 0)?;
            let p = expect(toks, p, matches!(at(toks, p), Some(Token::ClosedParenthesis)), ")")?;
            Ok(parse_postfix(toks, p, inner))
        },
        _ => match parse_unary(t) {
            Some(op) => {
                let (e, p) = parse_factor(toks, pos + 1)?;
                Ok((Expression::Unary { op, expr: Box::new(e) }, p))
            },
            None => Err(parse_error("beginning of factor", toks, pos)),
        },
    }
}

/// The operator `op` at `p` with its right operand, combined with `left`.
fn parse_infix_step(toks: &Vec<Token>, left: Expression, p: usize, op: Infix) -> (r: Result<(Expression, usize), Error>)
    requires
        p < toks@.len(),
    ensures
        r is Ok <==> infix_step(toks@, left, p as int, op) is Some,
        r matches Ok(x) ==> p + 1 < x.1 <= toks@.len() && infix_step(toks@, left, p as int, op) == Some((x.0, x.1 as int)),
        r matches Err(e) ==> e is Parser,
    decreases toks@.len() - p, 0nat,
{
    let _n = toks.len();
    let prec = op.precedence();
    let q = p + 1;
    match op {
        Infix::Assign => {
            let (right, q2) = parse_expression(toks, q, prec)?;
            Ok((Expression::Assignment { left: Box::new(left), right: Box::new(right), op: None }, q2))
        },
        Infix::CompoundAssign(b) => {
            let (right, q2) = parse_expression(toks, q, prec)?;
            Ok((Expression::Assignment { left: Box::new(left), right: Box::new(right), op: Some(b) }, q2))
        },
        Infix::Ternary => {
            let (middle, q2) = parse_expression(toks, q, 0)?;
            let q3 = expect(toks, q2, matches!(at(toks, q2), Some(Token::Colon)), "colon")?;
            let (right, q4) = parse_expression(toks, q3, prec)?;
            Ok((Expression::Conditional { cond: Box::new(left), then_expr: Box::new(middle), else_expr: Box::new(right) }, q4))
        },
        Infix::Binary(b) => {
            let (right, q2) = parse_expression(toks, q, prec + 1)?;
            Ok((Expression::Binary { op: b, left: Box::new(left), right: Box::new(right) }, q2))
        },
    }
}

/// Precedence climbing: operators bind while their precedence is at least
/// `min_prec`; assignment and `?:` associate to the right.
pub fn parse_expression(toks: &Vec<Token>, pos: usize, min_prec: u64) -> (r: Result<(Expression, usize), Error>)
    ensures
        r is Ok <==> expr_of(toks@, pos as int, min_prec) is Some,
        r matches Ok(p) ==> pos < p.1 <= toks@.len() && expr_of(toks@, pos as int, min_prec) == Some((p.0, p.1 as int)),
        r matches Err(e) ==> e is Parser,
    decreases toks@.len() - pos, 2nat,
{
    let (mut left, mut p) = parse_factor(toks, pos)?;
    loop
        invariant
            pos < p <= toks@.len(),
            expr_of(toks@, pos as int, min_prec) == climb(toks@, left, p as int, min_prec, pos as int),
        ensures
            pos < p <= toks@.len(),
            expr_of(toks@, pos as int, min_prec) == Some((left, p as int)),
        decreases toks@.len() - p,
    {
        let op = match parse_binary(toks, p) {
            Some(op) => op,
            None => { break; },
        };
        let prec = op.precedence();
        if prec < min_prec {
            break;
        }
        let (nl, q) = parse_infix_step(toks, left, p, op)?;
        left = nl;
        p = q;
    }
    Ok((left, p))
}

/// The declaration `"int" <identifier> [ "=" <exp> ] ";"` at `pos`.
pub open spec fn decl_of(t: Seq<Token>, pos: int) -> Option<(Declaration, int)> {
    if !is_tok(t, pos, Token::Int) || !(pos + 1 < t.len()) {
        None
    } else {
        match t[pos + 1] {
            Token::Identifier(name) => if is_tok(t, pos + 2, Token::Equal) {
                match expr_of(t, pos + 3, 0) {
                    Some((e, p)) => if is_tok(t, p, Token::Semicolon) {
                        Some((Declaration { name, init: Some(e) }, p + 1))
                    } else {
                        None
                    },
                    None => None,
                }
            } else if is_tok(t, pos + 2, Token::Semicolon) {
                Some((Declaration { name, init: None }, pos + 3))
            } else {
                None
            },
            _ => None,
        }
    }
}

pub open spec fn end_tok(semicolon: bool) -> Token {
    if semicolon { Token::Semicolon } else { Token::ClosedParenthesis }
}

/// An optional expression at `pos` and the closing token after it.
pub open spec fn opt_expr_of(t: Seq<Token>, pos: int, semicolon: bool) -> Option<(Option<Expression>, int)> {
    if is_tok(t, pos, end_tok(semicolon)) {
        Some((None, pos + 1))
    } else {
        match expr_of(t, pos, 0) {
            Some((e, p)) => if is_tok(t, p, end_tok(semicolon)) { Some((Some(e), p + 1)) } else { None },
            None => None,
        }
    }
}

fn parse_semicolon(toks: &Vec<Token>, pos: usize) -> (r: Result<usize, Error>)
    ensures
        r is Ok <==> is_tok(toks@, pos as int, Token::Semicolon),
        r matches Ok(p) ==> p == pos + 1 && pos < toks@.len(),
        r matches Err(e) ==> e is Parser,
        toks@.len() <= usize::MAX,
{
    expect(toks, pos, matches!(at(toks, pos), Some(Token::Semicolon)), ";")
}

/// `<declaration> ::= "int" <identifier> [ "=" <exp> ] ";"`
pub fn parse_declaration(toks: &Vec<Token>, pos: usize) -> (r: Result<(Declaration, usize), Error>)
    ensures
        r is Ok <==> decl_of(toks@, pos as int) is Some,
        r matches Ok(p) ==> decl_of(toks@, pos as int) == Some((p.0, p.1 as int)),
        r matches Ok(p) ==> pos < p.1 <= toks@.len(),
        r matches Err(e) ==> e is Parser,
    decreases toks@.len() - pos, 2nat,
{
    let p = expect(toks, pos, matches!(at(toks, pos), Some(Token::Int)), "int")?;
    let name = match at(toks, p) {
        Some(Token::Identifier(id)) => id.clone(),
        _ => { return Err(parse_error("identifier", toks, p)); },
    };
    let p = p + 1;
    if matches!(at(toks, p), Some(Token::Equal)) {
        let (e, pos2) = parse_expression(toks, p + 1, 0)?;
        let pos3 = parse_semicolon(toks, pos2)?;
        Ok((Declaration { name, init: Some(e) }, pos3))
    } else {
        let pos2 = parse_semicolon(toks, p)?;
        Ok((Declaration { name, init: None }, pos2))
    }
}

fn parse_opt_expression(toks: &Vec<Token>, pos: usize, end_semicolon: bool) -> (r: Result<(Option<Expression>, usize), Error>)
    ensures
        r is Ok <==> opt_expr_of(toks@, pos as int, end_semicolon) is Some,
        r matches Ok(p) ==> opt_expr_of(toks@, pos as int, end_semicolon) == Some((p.0, p.1 as int)),
        r matches Ok(p) ==> pos < p.1 <= toks@.len(),
        r matches Err(e) ==> e is Parser,
    decreases toks@.len() - pos, 2nat,
{
    let closes = if end_semicolon { matches!(at(toks, pos), Some(Token::Semicolon)) }
        else { matches!(at(toks, pos), Some(Token::ClosedParenthesis)) };
    if closes {
        return Ok((None, pos + 1));
    }
    let (e, p) = parse_expression(toks, pos, 0)?;
    let ok = if end_semicolon { matches!(at(toks, p), Some(Token::Semicolon)) }
        else { matches!(at(toks, p), Some(Token::ClosedParenthesis)) };
    let pos2 = expect(toks, p, ok, if end_semicolon { ";" } else { ")" })?;
    Ok((Some(e), pos2))
}

pub open spec fn semi_after(t: Seq<Token>, p: int) -> Option<int> {
    if is_tok(t, p, Token::Semicolon) { Some(p + 1) } else { None }
}

pub open spec fn expr_stmt_end(t: Seq<Token>, pos: int) -> Option<int> {
    match expr_of(t, pos, 0) {
        Some((_, p)) => semi_after(t, p),
        None => None,
    }
}

pub open spec fn for_init_end(t: Seq<Token>, p: int) -> Option<int> {
    if is_tok(t, p, Token::Int) {
        match decl_of(t, p) { Some((_, q)) => Some(q), None => None }
    } else {
        match opt_expr_of(t, p, true) { Some((_, q)) => Some(q), None => None }
    }
}

/// Where the statement at `pos` ends, if it parses.
pub open spec fn stmt_end(t: Seq<Token>, pos: int) -> Option<int>
    decreases t.len() - pos, 2nat,
{
    if !(0 <= pos < t.len()) {
        None
    } else {
        match t[pos] {
            Token::Return => expr_stmt_end(t, pos + 1),
            Token::Semicolon => Some(pos + 1),
            Token::If => if !is_tok(t, pos + 1, Token::OpenParenthesis) { None } else {
                match expr_of(t, pos + 2, 0) {
                    Some((_, p)) => if is_tok(t, p, Token::ClosedParenthesis) && pos < p {
                        match stmt_end(t, p + 1) {
                            Some(p2) => if is_tok(t, p2, Token::Else) && pos < p2 { stmt_end(t, p2 + 1) } else { Some(p2) },
                            None => None,
                        }
                    } else { None },
                    None => None,
                }
            },
            Token::Goto => if pos + 1 < t.len() && t[pos + 1] is Identifier { semi_after(t, pos + 2) } else { None },
            Token::OpenBrace => block_end(t, pos),
            Token::While => if !is_tok(t, pos + 1, Token::OpenParenthesis) { None } else {
                match expr_of(t, pos + 2, 0) {
                    Some((_, p)) => if is_tok(t, p, Token::ClosedParenthesis) && pos < p { stmt_end(t, p + 1) } else { None },
                    None => None,
                }
            },
            Token::Do => match stmt_end(t, pos + 1) {
                Some(p) => if is_tok(t, p, Token::While) && is_tok(t, p + 1, Token::OpenParenthesis) {
                    match expr_of(t, p + 2, 0) {
                        Some((_, q)) => if is_tok(t, q, Token::ClosedParenthesis) { semi_after(t, q + 1) } else { None },
                        None => None,
                    }
                } else { None },
                None => None,
            },
            Token::For => if !is_tok(t, pos + 1, Token::OpenParenthesis) { None } else {
                match for_init_end(t, pos + 2) {
                    Some(p) => match opt_expr_of(t, p, true) {
                        Some((_, p2)) => match opt_expr_of(t, p2, false) {
                            Some((_, p3)) => if pos < p3 { stmt_end(t, p3) } else { None },
                            None => None,
                        },
                        None => None,
                    },
                    None => None,
                }
            },
            Token::Break | Token::Continue => semi_after(t, pos + 1),
            Token::Identifier(_) => if is_tok(t, pos + 1, Token::Colon) { Some(pos + 2) } else { expr_stmt_end(t, pos) },
            _ => expr_stmt_end(t, pos),
        }
    }
}

/// Where the block `"{" { <block-item> } "}"` at `pos` ends, if it parses.
pub open spec fn block_end(t: Seq<Token>, pos: int) -> Option<int>
    decreases t.len() - pos, 1nat,
{
    if !is_tok(t, pos, Token::OpenBrace) { None } else { items_end(t, pos + 1, pos) }
}

/// Where the block items from `p` up to and including the closing brace end.
pub open spec fn items_end(t: Seq<Token>, p: int, start: int) -> Option<int>
    decreases t.len() - p, 3nat,
{
    if !(start < p < t.len()) {
        None
    } else if t[p] == Token::ClosedBrace {
        Some(p + 1)
    } else {
        let q = if t[p] == Token::Int {
            match decl_of(t, p) { Some((_, q)) => Some(q), None => None }
        } else {
            stmt_end(t, p)
        };
        match q {
            Some(q) => if p < q <= t.len() { items_end(t, q, start) } else { None },
            None => None,
        }
    }
}

/// The statement `s` parsed at `pos` and ending at `end` has the form that
/// its first tokens announce; a `return`, an expression statement, a
/// `goto` and a label are fixed completely.
pub open spec fn stmt_shape(t: Seq<Token>, pos: int, s: Statement, end: int) -> bool {
    0 <= pos < t.len() && match s {
        Statement::Return(e) => t[pos] == Token::Return && expr_of(t, pos + 1, 0) == Some((e, end - 1)),
        Statement::Expression(e) => expr_of(t, pos, 0) == Some((e, end - 1)),
        Statement::Null => t[pos] == Token::Semicolon && end == pos + 1,
        Statement::If { .. } => t[pos] == Token::If,
        Statement::Compound(_) => t[pos] == Token::OpenBrace,
        Statement::While { label, .. } => t[pos] == Token::While && label is None,
        Statement::DoWhile { label, .. } => t[pos] == Token::Do && label is None,
        Statement::For { label, .. } => t[pos] == Token::For && label is None,
        Statement::Break(l) => t[pos] == Token::Break && l is None,
        Statement::Continue(l) => t[pos] == Token::Continue && l is None,
        Statement::Goto(l) => t[pos] == Token::Goto && pos + 1 < t.len() && t[pos + 1] == Token::Identifier(l) && end == pos + 3,
        Statement::Label(l) => t[pos] == Token::Identifier(l) && is_tok(t, pos + 1, Token::Colon) && end == pos + 2,
    }
}

/// Parses a statement; it succeeds exactly where `stmt_end` says, and
/// ends there.
#[verifier::rlimit(60)]
pub fn parse_statement(toks: &Vec<Token>, pos: usize) -> (r: Result<(Statement, usize), Error>)
    ensures
        r is Ok <==> stmt_end(toks@, pos as int) is Some,
        r matches Ok(p) ==> stmt_end(toks@, pos as int) == Some(p.1 as int) && stmt_shape(toks@, pos as int, p.0, p.1 as int),
        r matches Ok(p) ==> pos < p.1 <= toks@.len(),
        r matches Err(e) ==> e is Parser,
    decreases toks@.len() - pos, 4nat,
{
    let t = match at(toks, pos) {
        Some(t) => t,
        None => { return Err(parse_error("beginning of statement", toks, pos)); },
    };
    match t {
        Token::Return => {
            let (e, p) = parse_expression(toks, pos + 1, 0)?;
            let p = parse_semicolon(toks, p)?;
            Ok((Statement::Return(e), p))
        },
        Token::Semicolon => Ok((Statement::Null, pos + 1)),
        Token::If => {
            let p = expect(toks, pos + 1, matches!(at(toks, pos + 1), Some(Token::OpenParenthesis)), "(")?;
            let (cond, p) = parse_expression(toks, p, 0)?;
            let p = expect(toks, p, matches!(at(toks, p), Some(Token::ClosedParenthesis)), ")")?;
            let (then_stmt, p) = parse_statement(toks, p)?;
            if matches!(at(toks, p), Some(Token::Else)) {
                let (else_stmt, pos2) = parse_statement(toks, p + 1)?;
                Ok((Statement::If { cond, then_stmt: Box::new(then_stmt), else_stmt: Some(Box::new(else_stmt)) }, pos2))
            } else {
                Ok((Statement::If { cond, then_stmt: Box::new(then_stmt), else_stmt: None }, p))
            }
        },
        Token::Goto => {
            let label = match at(toks, pos + 1) {
                Some(Token::Identifier(l)) => l.clone(),
                _ => { return Err(parse_error("label", toks, pos + 1)); },
            };
            let p = parse_semicolon(toks, pos + 2)?;
            Ok((Statement::Goto(label), p))
        },
        Token::OpenBrace => {
            let (b, p) = parse_block(toks, pos)?;
            Ok((Statement::Compound(b), p))
        },
        Token::While => {
            let p = expect(toks, pos + 1, matches!(at(toks, pos + 1), Some(Token::OpenParenthesis)), "(")?;
            let (cond, p) = parse_expression(toks, p, 0)?;
            let p = expect(toks, p, matches!(at(toks, p), Some(Token::ClosedParenthesis)), ")")?;
            let (body, p) = parse_statement(toks, p)?;
            Ok((Statement::While { cond, body: Box::new(body), label: None }, p))
        },
        Token::Do => {
            let (body, p) = parse_statement(toks, pos + 1)?;
            let p = expect(toks, p, matches!(at(toks, p), Some(Token::While)), "while")?;
            let p = expect(toks, p, matches!(at(toks, p), Some(Token::OpenParenthesis)), "(")?;
            let (cond, p) = parse_expression(toks, p, 0)?;
            let p = expect(toks, p, matches!(at(toks, p), Some(Token::ClosedParenthesis)), ")")?;
            let p = parse_semicolon(toks, p)?;
            Ok((Statement::DoWhile { body: Box::new(body), cond, label: None }, p))
        },
        Token::For => {
            let p = expect(toks, pos + 1, matches!(at(toks, pos + 1), Some(Token::OpenParenthesis)), "(")?;
            let (init, p) = if matches!(at(toks, p), Some(Token::Int)) {
                let (d, pos2) = parse_declaration(toks, p)?;
                (ForInit::Decl(d), pos2)
            } else {
                let (e, pos2) = parse_opt_expression(toks, p, true)?;
                (ForInit::Expr(e), pos2)
            };
            let (cond, p) = parse_opt_expression(toks, p, true)?;
            let (post, p) = parse_opt_expression(toks, p, false)?;
            let (body, p) = parse_statement(toks, p)?;
            Ok((Statement::For { init, cond, post, body: Box::new(body), label: None }, p))
        },
        Token::Break => {
            let p = parse_semicolon(toks, pos + 1)?;
            Ok((Statement::Break(None), p))
        },
        Token::Continue => {
            let p = parse_semicolon(toks, pos + 1)?;
            Ok((Statement::Continue(None), p))
        },
        Token::Identifier(l) if matches!(at(toks, pos + 1), Some(Token::Colon)) => {
            Ok((Statement::Label(l.clone()), pos + 2))
        },
        _ => {
            let (e, p) = parse_expression(toks, pos, 0)?;
            let p = parse_semicolon(toks, p)?;
            Ok((Statement::Expression(e), p))
        },
    }
}

/// `<block> ::= "{" { <block-item> } "}"`
pub fn parse_block(toks: &Vec<Token>, pos: usize) -> (r: Result<(Block, usize), Error>)
    ensures
        r is Ok <==> block_end(toks@, pos as int) is Some,
        r matches Ok(p) ==> block_end(toks@, pos as int) == Some(p.1 as int),
        r matches Ok(p) ==> pos < p.1 <= toks@.len(),
        r matches Err(e) ==> e is Parser,
    decreases toks@.len() - pos, 3nat,
{
    let mut p = expect(toks, pos, matches!(at(toks, pos), Some(Token::OpenBrace)), "{")?;
    let mut items: Vec<BlockItem> = Vec::new();
    loop
        invariant
            pos < p <= toks@.len(),
            block_end(toks@, pos as int) == items_end(toks@, p as int, pos as int),
        decreases toks@.len() - p,
    {
        match at(toks, p) {
            None => { return Err(parse_error("}", toks, p)); },
            Some(Token::ClosedBrace) => { return Ok((Block { items }, p + 1)); },
            Some(Token::Int) => {
                let (d, pos2) = parse_declaration(toks, p)?;
                items.push(BlockItem::D(d));
                p = pos2;
            },
            Some(_) => {
                let (s, pos2) = parse_statement(toks, p)?;
                items.push(BlockItem::S(s));
                p = pos2;
            },
        }
    }
}

/// Where `"int" <identifier> "(" "void" ")" <block>` at `pos` ends.
pub open spec fn function_end(t: Seq<Token>, pos: int) -> Option<int> {
    if is_tok(t, pos, Token::Int) && pos + 1 < t.len() && t[pos + 1] is Identifier && is_tok(t, pos + 2, Token::OpenParenthesis)
        && is_tok(t, pos + 3, Token::Void) && is_tok(t, pos + 4, Token::ClosedParenthesis) {
        block_end(t, pos + 5)
    } else {
        None
    }
}

/// The tokens are exactly one function.
pub open spec fn parses(t: Seq<Token>) -> bool {
    function_end(t, 0) == Some(t.len() as int)
}

/// `<function> ::= "int" <identifier> "(" "void" ")" <block>`
pub fn parse_function(toks: &Vec<Token>, pos: usize) -> (r: Result<(Function, usize), Error>)
    ensures
        r is Ok <==> function_end(toks@, pos as int) is Some,
        r matches Ok(p) ==> function_end(toks@, pos as int) == Some(p.1 as int)
            && toks@[pos + 1] == Token::Identifier(p.0.name),
        r matches Ok(p) ==> pos < p.1 <= toks@.len(),
        r matches Err(e) ==> e is Parser,
{
    let p = expect(toks, pos, matches!(at(toks, pos), Some(Token::Int)), "int")?;
    let name = match at(toks, p) {
        Some(Token::Identifier(id)) => id.clone(),
        _ => { return Err(parse_error("identifier", toks, p)); },
    };
    let p = p + 1;
    let p = expect(toks, p, matches!(at(toks, p), Some(Token::OpenParenthesis)), "(")?;
    let p = expect(toks, p, matches!(at(toks, p), Some(Token::Void)), "void")?;
    let p = expect(toks, p, matches!(at(toks, p), Some(Token::ClosedParenthesis)), ")")?;
    let (body, p) = parse_block(toks, p)?;
    Ok((Function { name, body }, p))
}

/// `<program> ::= <function>`
pub fn parse_program(toks: &Vec<Token>, pos: usize) -> (r: Result<(Program, usize), Error>)
    ensures
        r is Ok <==> function_end(toks@, pos as int) is Some,
        r matches Ok(p) ==> function_end(toks@, pos as int) == Some(p.1 as int)
            && toks@[pos + 1] == Token::Identifier(p.0.function.name),
        r matches Ok(p) ==> pos < p.1 <= toks@.len(),
        r matches Err(e) ==> e is Parser,
{
    let (function, p) = parse_function(toks, pos)?;
    Ok((Program { function }, p))
}

/// Parses a whole program; tokens after it are an error.
pub fn parser(toks: &Vec<Token>) -> (r: Result<Program, Error>)
    ensures
        r is Ok <==> parses(toks@),
        r matches Ok(p) ==> toks@[1] == Token::Identifier(p.function.name),
        r matches Err(e) ==> e is Parser,
{
    let (program, p) = parse_program(toks, 0)?;
    if p < toks.len() {
        return Err(parse_error("nothing, end of file", toks, p));
    }
    Ok(program)
}

} // verus!
