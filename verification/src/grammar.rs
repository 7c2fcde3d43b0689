//! The grammar of expressions, stated on trees, and the proof that the
//! parser computes exactly what the grammar says.
//!
//! A tree is spelled by a sequence of lexemes, and it is grammatical when no
//! operand binds more loosely than its place allows. The parser accepts a
//! sequence at some position if and only if a grammatical tree is spelled
//! there and cannot go on, and that tree is what it returns.
use vstd::prelude::*;
use crate::ast::{Atom, Operator, Tree};
use crate::parser::{
    literal, parsed, parsed_binary, parsed_chain, parsed_expression, parsed_operand,
    parsed_primary, parsed_unary, remaining, unary_operator, Level, Parsed,
};
use crate::token::Lexeme;

verus! {

/// The rank of prefix expressions, which bind tighter than any binary level.
pub open spec fn unary_rank() -> nat {
    4
}

/// The rank of constants and groupings, which bind tightest.
pub open spec fn primary_rank() -> nat {
    5
}

/// The lexeme that spells a constant.
pub open spec fn atom_lexeme(atom: Atom) -> Lexeme {
    match atom {
        Atom::Bool(true) => Lexeme::True,
        Atom::Bool(false) => Lexeme::False,
        Atom::Nil => Lexeme::Nil,
        Atom::Number(bits) => Lexeme::NumberLiteral(bits),
        Atom::Text(text) => Lexeme::StringLiteral(text),
    }
}

/// The lexeme that spells an operator.
pub open spec fn operator_lexeme(operator: Operator) -> Lexeme {
    match operator {
        Operator::Equal => Lexeme::EqualEqual,
        Operator::NotEqual => Lexeme::BangEqual,
        Operator::Greater => Lexeme::Greater,
        Operator::GreaterEqual => Lexeme::GreaterEqual,
        Operator::Less => Lexeme::Less,
        Operator::LessEqual => Lexeme::LessEqual,
        Operator::Minus => Lexeme::Minus,
        Operator::Plus => Lexeme::Plus,
        Operator::Slash => Lexeme::Slash,
        Operator::Star => Lexeme::Star,
        Operator::Bang => Lexeme::Bang,
    }
}

/// The rank of the level at which an operator joins two operands, if it
/// joins any.
pub open spec fn binary_rank(operator: Operator) -> Option<nat> {
    match operator {
        Operator::Equal | Operator::NotEqual => Some(0),
        Operator::Greater | Operator::GreaterEqual | Operator::Less | Operator::LessEqual => Some(
            1,
        ),
        Operator::Minus | Operator::Plus => Some(2),
        Operator::Slash | Operator::Star => Some(3),
        Operator::Bang => None,
    }
}

/// Whether an operator can stand in front of an operand.
pub open spec fn is_prefix(operator: Operator) -> bool {
    operator == Operator::Minus || operator == Operator::Bang
}

/// The lexemes that spell a tree, in order: operands where they stand,
/// operators between or before them, parentheses around a grouping.
pub open spec fn spelling(tree: Tree) -> Seq<Lexeme>
    decreases tree,
{
    match tree {
        Tree::Literal(atom) => seq![atom_lexeme(atom)],
        Tree::Unary(operator, right) => seq![operator_lexeme(operator)] + spelling(*right),
        Tree::Binary(left, operator, right) => spelling(*left) + seq![operator_lexeme(operator)]
            + spelling(*right),
        Tree::Grouping(inner) => seq![Lexeme::LeftParen] + spelling(*inner) + seq![
            Lexeme::RightParen,
        ],
    }
}

/// How tightly the root of a tree binds: the rank of its operator's level
/// for a binary node, and the ranks above those for the rest.
pub open spec fn tightness(tree: Tree) -> nat {
    match tree {
        Tree::Literal(_) => primary_rank(),
        Tree::Grouping(_) => primary_rank(),
        Tree::Unary(_, _) => unary_rank(),
        Tree::Binary(_, operator, _) => match binary_rank(operator) {
            Some(rank) => rank,
            None => 0,
        },
    }
}

/// Whether a tree is one that the grammar makes.
///
/// A binary node has an operator of a binary level; its left operand binds
/// at least as tightly as the operator and its right operand strictly
/// tighter, which is what nesting to the left means. The operand of a prefix
/// operator is a prefix or primary expression. Inside parentheses anything
/// grammatical may stand.
pub open spec fn grammatical(tree: Tree) -> bool
    decreases tree,
{
    match tree {
        Tree::Literal(_) => true,
        Tree::Grouping(inner) => grammatical(*inner),
        Tree::Unary(operator, right) => {
            &&& is_prefix(operator)
            &&& grammatical(*right)
            &&& tightness(*right) >= unary_rank()
        },
        Tree::Binary(left, operator, right) => {
            &&& binary_rank(operator) is Some
            &&& grammatical(*left)
            &&& grammatical(*right)
            &&& tightness(*left) >= binary_rank(operator).unwrap()
            &&& tightness(*right) > binary_rank(operator).unwrap()
        },
    }
}

/// The `count` lexemes of `stream` from position `from` on.
pub open spec fn span(stream: Seq<Lexeme>, from: nat, count: nat) -> Seq<Lexeme> {
    stream.subrange(from as int, (from + count) as int)
}

/// Whether `tree` is spelled in `stream` from position `from` on.
pub open spec fn spelled_at(stream: Seq<Lexeme>, from: nat, tree: Tree) -> bool {
    &&& from + spelling(tree).len() <= stream.len()
    &&& span(stream, from, spelling(tree).len()) == spelling(tree)
}

/// Whether an expression of rank `rank` that ends just before position `at`
/// cannot go on: the stream ends there, or the lexeme there is no binary
/// operator of that rank or a tighter one.
pub open spec fn ends_at(stream: Seq<Lexeme>, at: nat, rank: nat) -> bool {
    at < stream.len() ==> forall|level: Level|
        level.rank() >= rank ==> #[trigger] level.operator(stream[at as int]) is None
}

/// A binary operator is recognised at its own level, from its own lexeme,
/// and nowhere else.
pub proof fn lemma_operator_lexeme(level: Level, lexeme: Lexeme)
    ensures
        level.operator(lexeme) matches Some(operator) ==> {
            &&& binary_rank(operator) == Some(level.rank())
            &&& operator_lexeme(operator) == lexeme
        },
        forall|operator: Operator| #[trigger]
            binary_rank(operator) == Some(level.rank()) ==> level.operator(
                operator_lexeme(operator),
            ) == Some(operator),
{
}

/// Where a sequence holds `first` and then `second` from `from` on, it holds
/// each of them at its place, and the other way round.
proof fn lemma_span_concat(stream: Seq<Lexeme>, from: nat, first: Seq<Lexeme>, second: Seq<Lexeme>)
    requires
        from + first.len() + second.len() <= stream.len(),
    ensures
        span(stream, from, first.len() + second.len()) == first + second <==> span(
            stream,
            from,
            first.len(),
        ) == first && span(stream, from + first.len(), second.len()) == second,
{
    let whole = span(stream, from, first.len() + second.len());
    let head = span(stream, from, first.len());
    let tail = span(stream, from + first.len(), second.len());
    assert(whole =~= head + tail);
    if whole == first + second {
        assert(head =~= (first + second).subrange(0, first.len() as int));
        assert((first + second).subrange(0, first.len() as int) =~= first);
        assert(tail =~= (first + second).subrange(
            first.len() as int,
            (first.len() + second.len()) as int,
        ));
        assert((first + second).subrange(first.len() as int, (first.len() + second.len()) as int)
            =~= second);
    }
}

/// What it means for `outcome` to be a right answer about `stream` at
/// `from`, for expressions of rank `rank` or tighter.
///
/// An accepted tree is grammatical, binds at least that tightly, is spelled
/// by exactly the lexemes that were consumed, and cannot go on. A rejection
/// points at a position from `from` on and no further than the end.
pub open spec fn vouches(stream: Seq<Lexeme>, from: nat, rank: nat, outcome: Parsed) -> bool {
    match outcome {
        Parsed::Accepted { tree, consumed } => {
            &&& grammatical(tree)
            &&& tightness(tree) >= rank
            &&& consumed == spelling(tree).len()
            &&& spelled_at(stream, from, tree)
            &&& ends_at(stream, from + consumed, rank)
        },
        Parsed::Rejected { kind, position } => from <= position <= stream.len(),
    }
}

/// What is accepted as a primary expression is one, and is spelled there.
pub proof fn lemma_primary_sound(stream: Seq<Lexeme>, from: nat)
    requires
        from <= stream.len(),
    ensures
        vouches(stream, from, primary_rank(), parsed_primary(stream, from)),
    decreases remaining(stream, from), 0nat,
{
    if from < stream.len() {
        let lexeme = stream[from as int];
        if literal(lexeme).is_some() {
            assert(span(stream, from, 1) =~= seq![lexeme]);
        } else if lexeme == Lexeme::LeftParen {
            lemma_expression_sound(stream, from + 1);
            if let Parsed::Accepted { tree, consumed } = parsed_expression(stream, from + 1) {
                let close = from + 1 + consumed;
                if close < stream.len() && stream[close as int] == Lexeme::RightParen {
                    assert(span(stream, from, consumed + 2) =~= seq![Lexeme::LeftParen] + span(
                        stream,
                        from + 1,
                        consumed,
                    ) + seq![Lexeme::RightParen]);
                }
            }
        }
    }
}

/// What is accepted as a prefix expression is one, and is spelled there.
pub proof fn lemma_unary_sound(stream: Seq<Lexeme>, from: nat)
    requires
        from <= stream.len(),
    ensures
        vouches(stream, from, unary_rank(), parsed_unary(stream, from)),
    decreases remaining(stream, from), 1nat,
{
    if from < stream.len() && unary_operator(stream[from as int]).is_some() {
        lemma_unary_sound(stream, from + 1);
        if let Parsed::Accepted { tree, consumed } = parsed_unary(stream, from + 1) {
            assert(span(stream, from, 1 + consumed) =~= seq![stream[from as int]] + span(
                stream,
                from + 1,
                consumed,
            ));
        }
    } else {
        lemma_primary_sound(stream, from);
    }
}

/// What is accepted as an operand of `level` binds tighter than `level`,
/// and is spelled there.
pub proof fn lemma_operand_sound(level: Level, stream: Seq<Lexeme>, from: nat)
    requires
        from <= stream.len(),
    ensures
        vouches(stream, from, level.rank() + 1, parsed_operand(level, stream, from)),
    decreases remaining(stream, from), 8 - 2 * level.rank(),
{
    match level {
        Level::Equality => lemma_binary_sound(Level::Comparison, stream, from),
        Level::Comparison => lemma_binary_sound(Level::Term, stream, from),
        Level::Term => lemma_binary_sound(Level::Factor, stream, from),
        Level::Factor => lemma_unary_sound(stream, from),
    }
}

/// What is accepted as a chain of `level` is a grammatical tree of that
/// level or a tighter one, and is spelled there.
pub proof fn lemma_binary_sound(level: Level, stream: Seq<Lexeme>, from: nat)
    requires
        from <= stream.len(),
    ensures
        vouches(stream, from, level.rank(), parsed_binary(level, stream, from)),
    decreases remaining(stream, from), 9 - 2 * level.rank(),
{
    lemma_operand_sound(level, stream, from);
    if let Parsed::Accepted { tree, consumed } = parsed_operand(level, stream, from) {
        lemma_chain_sound(level, tree, stream, from, from + consumed);
    }
}

/// Going on with a chain of `level` keeps what was read grammatical and
/// spelled from where the chain began.
pub proof fn lemma_chain_sound(
    level: Level,
    left: Tree,
    stream: Seq<Lexeme>,
    start: nat,
    from: nat,
)
    requires
        start <= from <= stream.len(),
        grammatical(left),
        tightness(left) >= level.rank(),
        spelling(left).len() == from - start,
        spelled_at(stream, start, left),
        ends_at(stream, from, level.rank() + 1),
    ensures
        vouches(
            stream,
            start,
            level.rank(),
            parsed_chain(level, left, stream, from).after((from - start) as nat),
        ),
    decreases remaining(stream, from), 0nat,
{
    if from < stream.len() && level.operator(stream[from as int]).is_some() {
        let operator = level.operator(stream[from as int]).unwrap();
        lemma_operator_lexeme(level, stream[from as int]);
        lemma_operand_sound(level, stream, from + 1);
        if let Parsed::Accepted { tree, consumed } = parsed_operand(level, stream, from + 1) {
            let joined = Tree::Binary(Box::new(left), operator, Box::new(tree));
            let next = from + 1 + consumed;
            lemma_span_concat(
                stream,
                start,
                spelling(left) + seq![stream[from as int]],
                spelling(tree),
            );
            lemma_span_concat(stream, start, spelling(left), seq![stream[from as int]]);
            assert(span(stream, from, 1) =~= seq![stream[from as int]]);
            lemma_chain_sound(level, joined, stream, start, next);
        }
    }
}

/// What is accepted as an expression is a grammatical tree, and is spelled
/// there.
pub proof fn lemma_expression_sound(stream: Seq<Lexeme>, from: nat)
    requires
        from <= stream.len(),
    ensures
        vouches(stream, from, 0, parsed_expression(stream, from)),
    decreases remaining(stream, from), 10nat,
{
    lemma_binary_sound(Level::Equality, stream, from);
}

/// A constant or a grouping that is spelled at a position is accepted there
/// as a primary expression.
pub proof fn lemma_primary_complete(tree: Tree, stream: Seq<Lexeme>, from: nat)
    requires
        grammatical(tree),
        tightness(tree) >= primary_rank(),
        spelled_at(stream, from, tree),
    ensures
        parsed_primary(stream, from) == (Parsed::Accepted {
            tree,
            consumed: spelling(tree).len(),
        }),
    decreases tree, 0nat,
{
    match tree {
        Tree::Literal(atom) => {
            assert(span(stream, from, 1)[0] == stream[from as int]);
        },
        Tree::Grouping(inner) => {
            let inside = spelling(*inner);
            lemma_span_concat(
                stream,
                from,
                seq![Lexeme::LeftParen] + inside,
                seq![Lexeme::RightParen],
            );
            lemma_span_concat(stream, from, seq![Lexeme::LeftParen], inside);
            assert(span(stream, from, 1)[0] == stream[from as int]);
            assert(span(stream, from + 1 + inside.len(), 1)[0] == stream[(from + 1 + inside.len()) as int]);
            lemma_expression_complete(*inner, stream, from + 1);
        },
        _ => {},
    }
}

/// A prefix or primary expression that is spelled at a position is accepted
/// there as a prefix expression.
pub proof fn lemma_unary_complete(tree: Tree, stream: Seq<Lexeme>, from: nat)
    requires
        grammatical(tree),
        tightness(tree) >= unary_rank(),
        spelled_at(stream, from, tree),
    ensures
        parsed_unary(stream, from) == (Parsed::Accepted { tree, consumed: spelling(tree).len() }),
    decreases tree, 1nat,
{
    match tree {
        Tree::Unary(operator, right) => {
            lemma_span_concat(stream, from, seq![operator_lexeme(operator)], spelling(*right));
            assert(span(stream, from, 1)[0] == stream[from as int]);
            lemma_unary_complete(*right, stream, from + 1);
        },
        Tree::Literal(atom) => {
            assert(span(stream, from, 1)[0] == stream[from as int]);
            lemma_primary_complete(tree, stream, from);
        },
        Tree::Grouping(inner) => {
            assert(span(stream, from, spelling(tree).len())[0] == stream[from as int]);
            lemma_primary_complete(tree, stream, from);
        },
        _ => {},
    }
}

/// A tree that binds tighter than `level`, is spelled at a position and
/// cannot go on is accepted there as an operand of `level`.
pub proof fn lemma_operand_complete(level: Level, tree: Tree, stream: Seq<Lexeme>, from: nat)
    requires
        grammatical(tree),
        tightness(tree) >= level.rank() + 1,
        spelled_at(stream, from, tree),
        ends_at(stream, from + spelling(tree).len(), level.rank() + 1),
    ensures
        parsed_operand(level, stream, from) == (Parsed::Accepted {
            tree,
            consumed: spelling(tree).len(),
        }),
    decreases tree, 11 - 3 * level.rank(),
{
    match level {
        Level::Equality => lemma_binary_complete(Level::Comparison, tree, stream, from),
        Level::Comparison => lemma_binary_complete(Level::Term, tree, stream, from),
        Level::Term => lemma_binary_complete(Level::Factor, tree, stream, from),
        Level::Factor => lemma_unary_complete(tree, stream, from),
    }
}

/// Reading a chain of `level` from where a tree of that level is spelled
/// comes to the same as having read the tree and going on with the chain
/// behind it, as long as no tighter operator follows the tree.
pub proof fn lemma_chain_resumes(level: Level, tree: Tree, stream: Seq<Lexeme>, from: nat)
    requires
        grammatical(tree),
        tightness(tree) >= level.rank(),
        spelled_at(stream, from, tree),
        ends_at(stream, from + spelling(tree).len(), level.rank() + 1),
    ensures
        parsed_binary(level, stream, from) == parsed_chain(
            level,
            tree,
            stream,
            from + spelling(tree).len(),
        ).after(spelling(tree).len()),
    decreases tree, 12 - 3 * level.rank(),
{
    if tightness(tree) > level.rank() {
        lemma_operand_complete(level, tree, stream, from);
    } else {
        match tree {
            Tree::Binary(left, operator, right) => {
                let lexeme = operator_lexeme(operator);
                let before = spelling(*left).len();
                lemma_operator_lexeme(level, lexeme);
                lemma_span_concat(stream, from, spelling(*left) + seq![lexeme], spelling(*right));
                lemma_span_concat(stream, from, spelling(*left), seq![lexeme]);
                assert(span(stream, from + before, 1)[0] == stream[(from + before) as int]);
                assert(ends_at(stream, from + before, level.rank() + 1));
                lemma_chain_resumes(level, *left, stream, from);
                lemma_operand_complete(level, *right, stream, from + before + 1);
            },
            _ => {},
        }
    }
}

/// A grammatical tree of `level` or tighter that is spelled at a position
/// and cannot go on is accepted there as a chain of `level`.
pub proof fn lemma_binary_complete(level: Level, tree: Tree, stream: Seq<Lexeme>, from: nat)
    requires
        grammatical(tree),
        tightness(tree) >= level.rank(),
        spelled_at(stream, from, tree),
        ends_at(stream, from + spelling(tree).len(), level.rank()),
    ensures
        parsed_binary(level, stream, from) == (Parsed::Accepted {
            tree,
            consumed: spelling(tree).len(),
        }),
    decreases tree, 13 - 3 * level.rank(),
{
    lemma_chain_resumes(level, tree, stream, from);
}

/// A grammatical tree that is spelled at a position and cannot go on is
/// accepted there as an expression.
pub proof fn lemma_expression_complete(tree: Tree, stream: Seq<Lexeme>, from: nat)
    requires
        grammatical(tree),
        spelled_at(stream, from, tree),
        ends_at(stream, from + spelling(tree).len(), 0),
    ensures
        parsed_expression(stream, from) == (Parsed::Accepted {
            tree,
            consumed: spelling(tree).len(),
        }),
    decreases tree, 14nat,
{
    lemma_binary_complete(Level::Equality, tree, stream, from);
}

/// The parser and the grammar agree.
///
/// Parsing `stream` at `from` yields `tree` if and only if `tree` is
/// grammatical, is spelled there, and cannot go on: no binary operator
/// follows it. So the parser returns the one grammatical tree that the
/// lexemes spell, and fails exactly where there is none.
pub proof fn theorem_parser_agrees_with_grammar(stream: Seq<Lexeme>, from: nat, tree: Tree)
    requires
        from <= stream.len(),
    ensures
        parsed_expression(stream, from) == (Parsed::Accepted {
            tree,
            consumed: spelling(tree).len(),
        }) <==> {
            &&& grammatical(tree)
            &&& spelled_at(stream, from, tree)
            &&& ends_at(stream, from + spelling(tree).len(), 0)
        },
        parsed_expression(stream, from) matches Parsed::Accepted { tree: found, consumed }
            ==> consumed == spelling(found).len(),
{
    lemma_expression_sound(stream, from);
    if grammatical(tree) && spelled_at(stream, from, tree) && ends_at(
        stream,
        from + spelling(tree).len(),
        0,
    ) {
        lemma_expression_complete(tree, stream, from);
    }
}

/// The parser fails at a position exactly where the grammar has nothing to
/// offer: where no grammatical tree is spelled there that cannot go on.
pub proof fn theorem_parser_rejects_the_rest(stream: Seq<Lexeme>, from: nat)
    requires
        from <= stream.len(),
    ensures
        parsed_expression(stream, from) is Rejected <==> forall|tree: Tree|
            !(#[trigger] grammatical(tree) && spelled_at(stream, from, tree) && ends_at(
                stream,
                from + spelling(tree).len(),
                0,
            )),
{
    lemma_expression_sound(stream, from);
    if parsed_expression(stream, from) is Rejected {
        assert forall|tree: Tree|
            !(#[trigger] grammatical(tree) && spelled_at(stream, from, tree) && ends_at(
                stream,
                from + spelling(tree).len(),
                0,
            )) by {
            theorem_parser_agrees_with_grammar(stream, from, tree);
        }
    }
}

/// Parsing what spells a grammatical tree gives the tree back, whatever
/// follows it, unless a binary operator follows it.
pub proof fn theorem_parse_inverts_spelling(tree: Tree, rest: Seq<Lexeme>)
    requires
        grammatical(tree),
        rest.len() > 0 ==> forall|level: Level| #[trigger] level.operator(rest[0]) is None,
    ensures
        parsed(spelling(tree) + rest) == (Parsed::Accepted {
            tree,
            consumed: spelling(tree).len(),
        }),
{
    let stream = spelling(tree) + rest;
    assert(span(stream, 0, spelling(tree).len()) =~= spelling(tree));
    if rest.len() > 0 {
        assert(stream[spelling(tree).len() as int] == rest[0]);
    }
    lemma_expression_complete(tree, stream, 0);
}

} // verus!
