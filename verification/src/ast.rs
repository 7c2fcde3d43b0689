//! The syntax tree that the parser builds.
use vstd::prelude::*;

verus! {

/// An operator of the expression language, apart from the token that spells it.
#[derive(Debug, Clone, Copy, PartialEq, Eq, Structural)]
pub enum Operator {
    Equal,
    NotEqual,
    Greater,
    GreaterEqual,
    Less,
    LessEqual,
    Minus,
    Plus,
    Slash,
    Star,
    Bang,
}

/// A constant. A number is held as its IEEE 754 binary64 bit pattern.
#[derive(Debug, Clone, PartialEq)]
pub enum Literal {
    BoolLiteral(bool),
    NilLiteral,
    NumberLiteral(u64),
    StringLiteral(String),
}

/// An operator applied to one operand.
#[derive(Debug, PartialEq)]
pub struct UnaryExpr {
    pub operator: Operator,
    pub right: Expr,
}

/// An operator applied to two operands.
#[derive(Debug, PartialEq)]
pub struct BinaryExpr {
    pub left: Expr,
    pub operator: Operator,
    pub right: Expr,
}

/// An expression that the source wrote in parentheses.
#[derive(Debug, PartialEq)]
pub struct Grouping {
    pub expr: Expr,
}

/// An expression: a tree that owns its children.
#[derive(Debug, PartialEq)]
pub enum Expr {
    Literal(Literal),
    Unary(Box<UnaryExpr>),
    Binary(Box<BinaryExpr>),
    Grouping(Box<Grouping>),
}

/// What a [`Literal`] is in specifications.
pub enum Atom {
    Bool(bool),
    Nil,
    Number(u64),
    Text(Seq<char>),
}

/// What an [`Expr`] is in specifications.
pub enum Tree {
    Literal(Atom),
    Unary(Operator, Box<Tree>),
    Binary(Box<Tree>, Operator, Box<Tree>),
    Grouping(Box<Tree>),
}

impl View for Literal {
    type V = Atom;

    open spec fn view(&self) -> Atom {
        match self {
            Literal::BoolLiteral(b) => Atom::Bool(*b),
            Literal::NilLiteral => Atom::Nil,
            Literal::NumberLiteral(bits) => Atom::Number(*bits),
            Literal::StringLiteral(text) => Atom::Text(text@),
        }
    }
}

impl View for Expr {
    type V = Tree;

    open spec fn view(&self) -> Tree
        decreases self,
    {
        match self {
            Expr::Literal(literal) => Tree::Literal(literal@),
            Expr::Unary(unary) => Tree::Unary(unary.operator, Box::new(unary.right@)),
            Expr::Binary(binary) => Tree::Binary(
                Box::new(binary.left@),
                binary.operator,
                Box::new(binary.right@),
            ),
            Expr::Grouping(grouping) => Tree::Grouping(Box::new(grouping.expr@)),
        }
    }
}

} // verus!
