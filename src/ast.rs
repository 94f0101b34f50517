//! The syntax tree that the parser builds and the semantic passes rewrite.
use vstd::prelude::*;

verus! {

#[derive(Clone, Copy, Debug, PartialEq, Eq, Structural)]
pub enum UnaryOperator {
    Complement,
    Negate,
    Not,
    Increment,
    Decrement,
}

#[derive(Clone, Copy, Debug, PartialEq, Eq, Structural)]
pub enum PostfixOperator {
    Increment,
    Decrement,
}

#[derive(Clone, Copy, Debug, PartialEq, Eq, Structural)]
pub enum BinaryOperator {
    Add,
    Subtract,
    Multiply,
    Divide,
    Remainder,
    BitwiseAnd,
    BitwiseOr,
    BitwiseXor,
    LeftShift,
    RightShift,
    And,
    Or,
    Equal,
    NotEqual,
    LessThan,
    Leq,
    GreaterThan,
    Geq,
}

#[derive(Debug)]
pub enum Expression {
    IntConstant(i32),
    Var(String),
    Unary { op: UnaryOperator, expr: Box<Expression> },
    Binary { op: BinaryOperator, left: Box<Expression>, right: Box<Expression> },
    /// `left = right`, or `left op= right` when `op` is present.
    Assignment { left: Box<Expression>, right: Box<Expression>, op: Option<BinaryOperator> },
    Postfix { op: PostfixOperator, expr: Box<Expression> },
    Conditional { cond: Box<Expression>, then_expr: Box<Expression>, else_expr: Box<Expression> },
}

#[derive(Debug)]
pub struct Declaration {
    pub name: String,
    pub init: Option<Expression>,
}

#[derive(Debug)]
pub enum ForInit {
    Decl(Declaration),
    Expr(Option<Expression>),
}

/// Loops carry the label that loop labelling gives them; `break` and
/// `continue` carry the label of their enclosing loop.
#[derive(Debug)]
pub enum Statement {
    Return(Expression),
    Expression(Expression),
    If { cond: Expression, then_stmt: Box<Statement>, else_stmt: Option<Box<Statement>> },
    Compound(Block),
    While { cond: Expression, body: Box<Statement>, label: Option<String> },
    DoWhile { body: Box<Statement>, cond: Expression, label: Option<String> },
    For {
        init: ForInit,
        cond: Option<Expression>,
        post: Option<Expression>,
        body: Box<Statement>,
        label: Option<String>,
    },
    Break(Option<String>),
    Continue(Option<String>),
    Goto(String),
    Label(String),
    Null,
}

#[derive(Debug)]
pub enum BlockItem {
    S(Statement),
    D(Declaration),
}

#[derive(Debug)]
pub struct Block {
    pub items: Vec<BlockItem>,
}

#[derive(Debug)]
pub struct Function {
    pub name: String,
    pub body: Block,
}

#[derive(Debug)]
pub struct Program {
    pub function: Function,
}

impl Expression {
    /// An lvalue is a variable or a prefix increment or decrement.
    pub open spec fn spec_is_lvalue(&self) -> bool {
        match self {
            Expression::Var(_) => true,
            Expression::Unary { op, .. } => op == UnaryOperator::Increment || op == UnaryOperator::Decrement,
            _ => false,
        }
    }
}

} // verus!
