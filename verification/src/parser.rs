//! The parser: six precedence levels over a cursor, and the function on
//! lexeme sequences that it computes.
use vstd::prelude::*;
use crate::ast::{Atom, BinaryExpr, Expr, Grouping, Literal, Operator, Tree, UnaryExpr};
use crate::cursor::Cursor;
use crate::token::{lexemes, Lexeme, Token, TokenWithContext};

verus! {

/// A precedence level of binary operators, from the loosest to the tightest.
#[derive(Debug, Clone, Copy, PartialEq, Eq, Structural)]
pub enum Level {
    Equality,
    Comparison,
    Term,
    Factor,
}

/// Why a token sequence is not an expression.
#[derive(Debug, Clone, Copy, PartialEq, Eq, Structural)]
pub enum ParseErrorKind {
    /// An operand was due and no token was left.
    UnexpectedEnd,
    /// An operand was due and the token can start none.
    UnexpectedToken,
    /// A parenthesis was opened and the expression inside it is not followed
    /// by a closing one.
    UnclosedGrouping,
}

/// A failed parse: the reason, and the index of the token at which it showed
/// (the length of the sequence, where the sequence ended too early).
#[derive(Debug, Clone, Copy, PartialEq, Eq, Structural)]
pub struct ParseError {
    pub kind: ParseErrorKind,
    pub position: usize,
}

/// What parsing from some position of a lexeme sequence comes to.
pub enum Parsed {
    /// An expression was read: its tree, and how many lexemes it took.
    Accepted { tree: Tree, consumed: nat },
    /// No expression starts there: the reason, and the index of the
    /// offending lexeme.
    Rejected { kind: ParseErrorKind, position: nat },
}

impl Parsed {
    /// The same outcome, seen from `count` lexemes earlier.
    pub open spec fn after(self, count: nat) -> Parsed {
        match self {
            Parsed::Accepted { tree, consumed } => Parsed::Accepted {
                tree,
                consumed: count + consumed,
            },
            Parsed::Rejected { kind, position } => Parsed::Rejected { kind, position },
        }
    }
}

impl Level {
    /// The binary operator that `lexeme` spells at this level, if any.
    pub open spec fn operator(self, lexeme: Lexeme) -> Option<Operator> {
        match (self, lexeme) {
            (Level::Equality, Lexeme::BangEqual) => Some(Operator::NotEqual),
            (Level::Equality, Lexeme::EqualEqual) => Some(Operator::Equal),
            (Level::Comparison, Lexeme::Greater) => Some(Operator::Greater),
            (Level::Comparison, Lexeme::GreaterEqual) => Some(Operator::GreaterEqual),
            (Level::Comparison, Lexeme::Less) => Some(Operator::Less),
            (Level::Comparison, Lexeme::LessEqual) => Some(Operator::LessEqual),
            (Level::Term, Lexeme::Minus) => Some(Operator::Minus),
            (Level::Term, Lexeme::Plus) => Some(Operator::Plus),
            (Level::Factor, Lexeme::Slash) => Some(Operator::Slash),
            (Level::Factor, Lexeme::Star) => Some(Operator::Star),
            _ => None,
        }
    }

    /// How tightly the level binds: 0 for the loosest.
    pub open spec fn rank(self) -> nat {
        match self {
            Level::Equality => 0,
            Level::Comparison => 1,
            Level::Term => 2,
            Level::Factor => 3,
        }
    }
}

/// The prefix operator that `lexeme` spells, if any.
pub open spec fn unary_operator(lexeme: Lexeme) -> Option<Operator> {
    match lexeme {
        Lexeme::Minus => Some(Operator::Minus),
        Lexeme::Bang => Some(Operator::Bang),
        _ => None,
    }
}

/// The constant that `lexeme` spells, if any.
pub open spec fn literal(lexeme: Lexeme) -> Option<Atom> {
    match lexeme {
        Lexeme::False => Some(Atom::Bool(false)),
        Lexeme::True => Some(Atom::Bool(true)),
        Lexeme::Nil => Some(Atom::Nil),
        Lexeme::NumberLiteral(bits) => Some(Atom::Number(bits)),
        Lexeme::StringLiteral(text) => Some(Atom::Text(text)),
        _ => None,
    }
}

/// How many lexemes of `stream` lie at or after `from`.
pub open spec fn remaining(stream: Seq<Lexeme>, from: nat) -> nat {
    if from <= stream.len() {
        (stream.len() - from) as nat
    } else {
        0
    }
}

/// A full expression read from `stream` at `from`.
pub open spec fn parsed_expression(stream: Seq<Lexeme>, from: nat) -> Parsed
    decreases remaining(stream, from), 10nat,
{
    parsed_binary(Level::Equality, stream, from)
}

/// A chain of operands joined by the operators of `level`, read from
/// `stream` at `from`: the first operand, then as many operator and operand
/// pairs as follow it.
pub open spec fn parsed_binary(level: Level, stream: Seq<Lexeme>, from: nat) -> Parsed
    decreases remaining(stream, from), 9 - 2 * level.rank(),
{
    match parsed_operand(level, stream, from) {
        Parsed::Accepted { tree, consumed } => parsed_chain(
            level,
            tree,
            stream,
            from + consumed,
        ).after(consumed),
        rejected => rejected,
    }
}

/// One operand of the operators of `level`: an expression of the next
/// tighter level.
pub open spec fn parsed_operand(level: Level, stream: Seq<Lexeme>, from: nat) -> Parsed
    decreases remaining(stream, from), 8 - 2 * level.rank(),
{
    match level {
        Level::Equality => parsed_binary(Level::Comparison, stream, from),
        Level::Comparison => parsed_binary(Level::Term, stream, from),
        Level::Term => parsed_binary(Level::Factor, stream, from),
        Level::Factor => parsed_unary(stream, from),
    }
}

/// The rest of a chain at `level`, once `left` has been read and the next
/// lexeme stands at `from`: every further operand becomes the right child of
/// a node whose left child is all that came before.
pub open spec fn parsed_chain(level: Level, left: Tree, stream: Seq<Lexeme>, from: nat) -> Parsed
    decreases remaining(stream, from), 0nat,
{
    if from < stream.len() && level.operator(stream[from as int]).is_some() {
        let operator = level.operator(stream[from as int]).unwrap();
        match parsed_operand(level, stream, from + 1) {
            Parsed::Accepted { tree, consumed } => parsed_chain(
                level,
                Tree::Binary(Box::new(left), operator, Box::new(tree)),
                stream,
                from + 1 + consumed,
            ).after(1 + consumed),
            rejected => rejected,
        }
    } else {
        Parsed::Accepted { tree: left, consumed: 0 }
    }
}

/// Any number of prefix operators and then a primary expression; the
/// operator written first ends up outermost.
pub open spec fn parsed_unary(stream: Seq<Lexeme>, from: nat) -> Parsed
    decreases remaining(stream, from), 1nat,
{
    if from < stream.len() && unary_operator(stream[from as int]).is_some() {
        let operator = unary_operator(stream[from as int]).unwrap();
        match parsed_unary(stream, from + 1) {
            Parsed::Accepted { tree, consumed } => Parsed::Accepted {
                tree: Tree::Unary(operator, Box::new(tree)),
                consumed: 1 + consumed,
            },
            rejected => rejected,
        }
    } else {
        parsed_primary(stream, from)
    }
}

/// A constant, or a full expression between parentheses.
pub open spec fn parsed_primary(stream: Seq<Lexeme>, from: nat) -> Parsed
    decreases remaining(stream, from), 0nat,
{
    if from >= stream.len() {
        Parsed::Rejected { kind: ParseErrorKind::UnexpectedEnd, position: stream.len() }
    } else if literal(stream[from as int]).is_some() {
        Parsed::Accepted {
            tree: Tree::Literal(literal(stream[from as int]).unwrap()),
            consumed: 1,
        }
    } else if stream[from as int] == Lexeme::LeftParen {
        match parsed_expression(stream, from + 1) {
            Parsed::Accepted { tree, consumed } => {
                let close = from + 1 + consumed;
                if close < stream.len() && stream[close as int] == Lexeme::RightParen {
                    Parsed::Accepted {
                        tree: Tree::Grouping(Box::new(tree)),
                        consumed: consumed + 2,
                    }
                } else {
                    Parsed::Rejected { kind: ParseErrorKind::UnclosedGrouping, position: close }
                }
            },
            rejected => rejected,
        }
    } else {
        Parsed::Rejected { kind: ParseErrorKind::UnexpectedToken, position: from }
    }
}

/// The outcome of parsing `stream` from its first lexeme.
pub open spec fn parsed(stream: Seq<Lexeme>) -> Parsed {
    parsed_expression(stream, 0)
}

/// Whether `result` is what `parsed` asks for: on success the tree, on
/// failure the reason and the offending position.
pub open spec fn answers(parsed: Parsed, result: Result<Expr, ParseError>) -> bool {
    match parsed {
        Parsed::Accepted { tree, consumed } => result is Ok && result->Ok_0@ == tree,
        Parsed::Rejected { kind, position } => {
            &&& result is Err
            &&& result->Err_0.kind == kind
            &&& result->Err_0.position == position
        },
    }
}

/// Whether `result`, and the way the cursor went from `before` to `after`,
/// are what `parsed` asks for.
///
/// The cursor keeps its sequence. On success it has passed the lexemes that
/// spell the tree. On failure it rests just behind the offending token, or at
/// the end where there is none.
pub open spec fn delivers(
    parsed: Parsed,
    result: Result<Expr, ParseError>,
    before: Cursor,
    after: Cursor,
) -> bool {
    &&& answers(parsed, result)
    &&& after.source() == before.source()
    &&& after.consumed() <= after.source().len()
    &&& after.consumed() == match parsed {
        Parsed::Accepted { tree, consumed } => before.consumed() + consumed,
        Parsed::Rejected { kind, position } => if position < before.source().len() {
            position + 1
        } else {
            before.source().len()
        },
    }
}

/// Parses the expression that `tokens` begins with.
///
/// The tokens must begin with an expression; what follows it is left
/// unread. [`try_parse`] takes any tokens.
pub fn parse(tokens: Vec<TokenWithContext>) -> (expr: Expr)
    requires
        parsed(lexemes(tokens@)) is Accepted,
    ensures
        expr@ == parsed(lexemes(tokens@))->tree,
{
    match try_parse(&tokens) {
        Ok(expr) => expr,
        Err(_) => vstd::pervasive::unreached(),
    }
}

/// Parses the expression that `tokens` begins with, or says why they begin
/// with none.
pub fn try_parse(tokens: &Vec<TokenWithContext>) -> (result: Result<Expr, ParseError>)
    ensures
        answers(parsed(lexemes(tokens@)), result),
{
    let mut cursor = Cursor::new(tokens);
    parse_expression(&mut cursor)
}

/// Recognises the binary operators of one level.
pub fn map_operator(level: Level, token: &Token) -> (operator: Option<Operator>)
    ensures
        operator == level.operator(token@),
{
    match level {
        Level::Equality => match token {
            Token::BangEqual => Some(Operator::NotEqual),
            Token::EqualEqual => Some(Operator::Equal),
            _ => None,
        },
        Level::Comparison => match token {
            Token::Greater => Some(Operator::Greater),
            Token::GreaterEqual => Some(Operator::GreaterEqual),
            Token::Less => Some(Operator::Less),
            Token::LessEqual => Some(Operator::LessEqual),
            _ => None,
        },
        Level::Term => match token {
            Token::Minus => Some(Operator::Minus),
            Token::Plus => Some(Operator::Plus),
            _ => None,
        },
        Level::Factor => match token {
            Token::Slash => Some(Operator::Slash),
            Token::Star => Some(Operator::Star),
            _ => None,
        },
    }
}

/// Recognises the prefix operators.
pub fn map_unary_operator(token: &Token) -> (operator: Option<Operator>)
    ensures
        operator == unary_operator(token@),
{
    match token {
        Token::Minus => Some(Operator::Minus),
        Token::Bang => Some(Operator::Bang),
        _ => None,
    }
}

/// Parses a full expression at the cursor.
pub fn parse_expression(cursor: &mut Cursor) -> (result: Result<Expr, ParseError>)
    ensures
        delivers(
            parsed_expression(old(cursor).stream(), old(cursor).consumed()),
            result,
            *old(cursor),
            *final(cursor),
        ),
    decreases remaining(old(cursor).stream(), old(cursor).consumed()), 14nat,
{
    parse_equality(cursor)
}

/// Parses a chain of operands joined by the operators of `level`, nesting to
/// the left.
pub fn parse_binary(cursor: &mut Cursor, level: Level) -> (result: Result<Expr, ParseError>)
    ensures
        delivers(
            parsed_binary(level, old(cursor).stream(), old(cursor).consumed()),
            result,
            *old(cursor),
            *final(cursor),
        ),
    decreases remaining(old(cursor).stream(), old(cursor).consumed()), 12 - 3 * level.rank(),
{
    let mut expr = match parse_operand(cursor, level) {
        Ok(operand) => operand,
        Err(error) => {
            return Err(error);
        },
    };
    loop
        invariant
            cursor.source() == old(cursor).source(),
            old(cursor).consumed() <= cursor.consumed() <= cursor.source().len(),
            parsed_binary(level, old(cursor).stream(), old(cursor).consumed()) == parsed_chain(
                level,
                expr@,
                cursor.stream(),
                cursor.consumed(),
            ).after((cursor.consumed() - old(cursor).consumed()) as nat),
        decreases remaining(cursor.stream(), cursor.consumed()),
    {
        let operator = match cursor.peek() {
            Some(peeked) => match map_operator(level, &peeked.token) {
                Some(operator) => operator,
                None => {
                    return Ok(expr);
                },
            },
            None => {
                return Ok(expr);
            },
        };
        let _ = cursor.advance();
        let right = match parse_operand(cursor, level) {
            Ok(operand) => operand,
            Err(error) => {
                return Err(error);
            },
        };
        expr = Expr::Binary(Box::new(BinaryExpr { left: expr, operator, right }));
    }
}

/// Parses one operand of the operators of `level`.
pub fn parse_operand(cursor: &mut Cursor, level: Level) -> (result: Result<Expr, ParseError>)
    ensures
        delivers(
            parsed_operand(level, old(cursor).stream(), old(cursor).consumed()),
            result,
            *old(cursor),
            *final(cursor),
        ),
    decreases remaining(old(cursor).stream(), old(cursor).consumed()), 11 - 3 * level.rank(),
{
    match level {
        Level::Equality => parse_comparison(cursor),
        Level::Comparison => parse_term(cursor),
        Level::Term => parse_factor(cursor),
        Level::Factor => parse_unary(cursor),
    }
}

/// Parses a chain of `!=` and `==`.
pub fn parse_equality(cursor: &mut Cursor) -> (result: Result<Expr, ParseError>)
    ensures
        delivers(
            parsed_binary(Level::Equality, old(cursor).stream(), old(cursor).consumed()),
            result,
            *old(cursor),
            *final(cursor),
        ),
    decreases remaining(old(cursor).stream(), old(cursor).consumed()), 13nat,
{
    parse_binary(cursor, Level::Equality)
}

/// Parses a chain of `>`, `>=`, `<` and `<=`.
pub fn parse_comparison(cursor: &mut Cursor) -> (result: Result<Expr, ParseError>)
    ensures
        delivers(
            parsed_binary(Level::Comparison, old(cursor).stream(), old(cursor).consumed()),
            result,
            *old(cursor),
            *final(cursor),
        ),
    decreases remaining(old(cursor).stream(), old(cursor).consumed()), 10nat,
{
    parse_binary(cursor, Level::Comparison)
}

/// Parses a chain of `-` and `+`.
pub fn parse_term(cursor: &mut Cursor) -> (result: Result<Expr, ParseError>)
    ensures
        delivers(
            parsed_binary(Level::Term, old(cursor).stream(), old(cursor).consumed()),
            result,
            *old(cursor),
            *final(cursor),
        ),
    decreases remaining(old(cursor).stream(), old(cursor).consumed()), 7nat,
{
    parse_binary(cursor, Level::Term)
}

/// Parses a chain of `/` and `*`.
pub fn parse_factor(cursor: &mut Cursor) -> (result: Result<Expr, ParseError>)
    ensures
        delivers(
            parsed_binary(Level::Factor, old(cursor).stream(), old(cursor).consumed()),
            result,
            *old(cursor),
            *final(cursor),
        ),
    decreases remaining(old(cursor).stream(), old(cursor).consumed()), 4nat,
{
    parse_binary(cursor, Level::Factor)
}

/// Parses prefix operators and the primary expression that they apply to.
pub fn parse_unary(cursor: &mut Cursor) -> (result: Result<Expr, ParseError>)
    ensures
        delivers(
            parsed_unary(old(cursor).stream(), old(cursor).consumed()),
            result,
            *old(cursor),
            *final(cursor),
        ),
    decreases remaining(old(cursor).stream(), old(cursor).consumed()), 1nat,
{
    let mapped = match cursor.peek() {
        Some(peeked) => map_unary_operator(&peeked.token),
        None => None,
    };
    match mapped {
        Some(operator) => {
            let _ = cursor.advance();
            match parse_unary(cursor) {
                Ok(right) => Ok(Expr::Unary(Box::new(UnaryExpr { operator, right }))),
                Err(error) => Err(error),
            }
        },
        None => parse_primary(cursor),
    }
}

/// Consumes one token and resolves it: a constant, or an opening parenthesis
/// with the expression and the closing parenthesis that belong to it.
pub fn parse_primary(cursor: &mut Cursor) -> (result: Result<Expr, ParseError>)
    ensures
        delivers(
            parsed_primary(old(cursor).stream(), old(cursor).consumed()),
            result,
            *old(cursor),
            *final(cursor),
        ),
    decreases remaining(old(cursor).stream(), old(cursor).consumed()), 0nat,
{
    let start = cursor.position();
    let primary = match cursor.advance() {
        Some(primary) => primary,
        None => {
            return Err(ParseError { kind: ParseErrorKind::UnexpectedEnd, position: start });
        },
    };
    match &primary.token {
        Token::False => Ok(Expr::Literal(Literal::BoolLiteral(false))),
        Token::True => Ok(Expr::Literal(Literal::BoolLiteral(true))),
        Token::Nil => Ok(Expr::Literal(Literal::NilLiteral)),
        Token::NumberLiteral(bits) => Ok(Expr::Literal(Literal::NumberLiteral(*bits))),
        Token::StringLiteral(text) => Ok(Expr::Literal(Literal::StringLiteral(text.clone()))),
        Token::LeftParen => {
            let expr = match parse_expression(cursor) {
                Ok(expr) => expr,
                Err(error) => {
                    return Err(error);
                },
            };
            let close = cursor.position();
            let closed = match cursor.advance() {
                Some(closing) => match &closing.token {
                    Token::RightParen => true,
                    _ => false,
                },
                None => false,
            };
            if closed {
                Ok(Expr::Grouping(Box::new(Grouping { expr })))
            } else {
                Err(ParseError { kind: ParseErrorKind::UnclosedGrouping, position: close })
            }
        },
        _ => Err(ParseError { kind: ParseErrorKind::UnexpectedToken, position: start }),
    }
}

} // verus!
