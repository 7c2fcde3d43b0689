//! What the grammar means for the shapes that one meets most: chains of one
//! level, operators of two levels, prefix operators, and parentheses.
use vstd::prelude::*;
use crate::ast::{Atom, Operator, Tree};
use crate::grammar::{
    atom_lexeme, binary_rank, grammatical, is_prefix, operator_lexeme, primary_rank, spelling,
    theorem_parse_inverts_spelling, tightness, unary_rank,
};
use crate::parser::{parsed, Level, Parsed};
use crate::token::Lexeme;

verus! {

/// The tree in which `first` and the operands of `rest` are joined by the
/// operators of `rest`, each node holding all that came before it as its
/// left child.
pub open spec fn left_nested(first: Atom, rest: Seq<(Operator, Atom)>) -> Tree
    decreases rest.len(),
{
    if rest.len() == 0 {
        Tree::Literal(first)
    } else {
        Tree::Binary(
            Box::new(left_nested(first, rest.drop_last())),
            rest.last().0,
            Box::new(Tree::Literal(rest.last().1)),
        )
    }
}

/// The lexemes of `first` and then of each operator and operand of `rest`,
/// as they are written from left to right.
pub open spec fn chain_spelling(first: Atom, rest: Seq<(Operator, Atom)>) -> Seq<Lexeme>
    decreases rest.len(),
{
    if rest.len() == 0 {
        seq![atom_lexeme(first)]
    } else {
        chain_spelling(first, rest.drop_last()) + seq![
            operator_lexeme(rest.last().0),
            atom_lexeme(rest.last().1),
        ]
    }
}

/// The left-nested tree of a chain is grammatical, binds as its operators
/// do, and is spelled as the chain is written.
proof fn lemma_left_nested(level: Level, first: Atom, rest: Seq<(Operator, Atom)>)
    requires
        forall|i: int| 0 <= i < rest.len() ==> binary_rank(#[trigger] rest[i].0) == Some(level.rank()),
    ensures
        grammatical(left_nested(first, rest)),
        tightness(left_nested(first, rest)) >= level.rank(),
        spelling(left_nested(first, rest)) == chain_spelling(first, rest),
        chain_spelling(first, rest).len() == 2 * rest.len() + 1,
    decreases rest.len(),
{
    if rest.len() > 0 {
        lemma_left_nested(level, first, rest.drop_last());
        let (operator, atom) = rest[rest.len() - 1];
        let operand = Tree::Literal(atom);
        assert(binary_rank(rest[rest.len() - 1].0) == Some(level.rank()));
        assert(grammatical(operand) && spelling(operand) == seq![atom_lexeme(atom)]);
        assert(spelling(left_nested(first, rest)) =~= chain_spelling(first, rest));
    }
}

/// Operators of one level nest to the left.
///
/// Where constants are joined by operators that all belong to one level,
/// parsing what is written gives the tree in which every operator has all
/// that stands to its left as its left operand, and one constant as its
/// right operand: `1 + 2 - 3` is `(1 + 2) - 3`.
pub proof fn theorem_one_level_nests_left(level: Level, first: Atom, rest: Seq<(Operator, Atom)>)
    requires
        forall|i: int| 0 <= i < rest.len() ==> binary_rank(#[trigger] rest[i].0) == Some(level.rank()),
    ensures
        parsed(chain_spelling(first, rest)) == (Parsed::Accepted {
            tree: left_nested(first, rest),
            consumed: 2 * rest.len() + 1,
        }),
{
    lemma_left_nested(level, first, rest);
    lemma_parse_of_spelling(left_nested(first, rest), chain_spelling(first, rest));
}

/// A constant alone is parsed as that constant, with nothing around it.
pub proof fn theorem_constant_alone(atom: Atom)
    ensures
        parsed(seq![atom_lexeme(atom)]) == (Parsed::Accepted {
            tree: Tree::Literal(atom),
            consumed: 1,
        }),
{
    lemma_parse_of_spelling(Tree::Literal(atom), seq![atom_lexeme(atom)]);
}

/// Parsing the spelling of a grammatical tree, with nothing behind it, gives
/// the tree.
proof fn lemma_parse_of_spelling(tree: Tree, stream: Seq<Lexeme>)
    requires
        grammatical(tree),
        spelling(tree) == stream,
    ensures
        parsed(stream) == (Parsed::Accepted { tree, consumed: stream.len() }),
{
    theorem_parse_inverts_spelling(tree, Seq::empty());
    assert(spelling(tree) + Seq::<Lexeme>::empty() =~= stream);
}

/// A constant is grammatical, binds tightest, and is spelled by one lexeme.
proof fn lemma_constant(atom: Atom)
    ensures
        grammatical(Tree::Literal(atom)),
        tightness(Tree::Literal(atom)) == primary_rank(),
        spelling(Tree::Literal(atom)) == seq![atom_lexeme(atom)],
{
}

/// A binary node over operands that may stand at its sides is grammatical,
/// binds as its operator does, and is spelled by its parts in order.
proof fn lemma_joined(left: Tree, operator: Operator, right: Tree)
    requires
        grammatical(left),
        grammatical(right),
        binary_rank(operator) is Some,
        tightness(left) >= binary_rank(operator).unwrap(),
        tightness(right) > binary_rank(operator).unwrap(),
    ensures
        grammatical(Tree::Binary(Box::new(left), operator, Box::new(right))),
        tightness(Tree::Binary(Box::new(left), operator, Box::new(right))) == binary_rank(
            operator,
        ).unwrap(),
        spelling(Tree::Binary(Box::new(left), operator, Box::new(right))) == spelling(left)
            + seq![operator_lexeme(operator)] + spelling(right),
{
}

/// The tighter of two operators takes its operands first, whichever of the
/// two is written first.
///
/// In `a loose b tight c` the tighter operator joins `b` and `c`, and that
/// node is the right operand of the looser one. In `a tight b loose c` it
/// joins `a` and `b`, and that node is the left operand of the looser one.
pub proof fn theorem_tighter_operator_binds_first(
    a: Atom,
    b: Atom,
    c: Atom,
    loose: Operator,
    tight: Operator,
)
    requires
        binary_rank(loose) is Some,
        binary_rank(tight) is Some,
        binary_rank(loose).unwrap() < binary_rank(tight).unwrap(),
    ensures
        parsed(
            seq![
                atom_lexeme(a),
                operator_lexeme(loose),
                atom_lexeme(b),
                operator_lexeme(tight),
                atom_lexeme(c),
            ],
        ) == (Parsed::Accepted {
            tree: Tree::Binary(
                Box::new(Tree::Literal(a)),
                loose,
                Box::new(
                    Tree::Binary(Box::new(Tree::Literal(b)), tight, Box::new(Tree::Literal(c))),
                ),
            ),
            consumed: 5,
        }),
        parsed(
            seq![
                atom_lexeme(a),
                operator_lexeme(tight),
                atom_lexeme(b),
                operator_lexeme(loose),
                atom_lexeme(c),
            ],
        ) == (Parsed::Accepted {
            tree: Tree::Binary(
                Box::new(
                    Tree::Binary(Box::new(Tree::Literal(a)), tight, Box::new(Tree::Literal(b))),
                ),
                loose,
                Box::new(Tree::Literal(c)),
            ),
            consumed: 5,
        }),
{
    lemma_loose_then_tight(a, b, c, loose, tight);
    lemma_tight_then_loose(a, b, c, loose, tight);
}

/// The first half of the theorem above: the looser operator written first.
proof fn lemma_loose_then_tight(a: Atom, b: Atom, c: Atom, loose: Operator, tight: Operator)
    requires
        binary_rank(loose) is Some,
        binary_rank(tight) is Some,
        binary_rank(loose).unwrap() < binary_rank(tight).unwrap(),
    ensures
        parsed(
            seq![
                atom_lexeme(a),
                operator_lexeme(loose),
                atom_lexeme(b),
                operator_lexeme(tight),
                atom_lexeme(c),
            ],
        ) == (Parsed::Accepted {
            tree: Tree::Binary(
                Box::new(Tree::Literal(a)),
                loose,
                Box::new(
                    Tree::Binary(Box::new(Tree::Literal(b)), tight, Box::new(Tree::Literal(c))),
                ),
            ),
            consumed: 5,
        }),
{
    let inner = Tree::Binary(Box::new(Tree::Literal(b)), tight, Box::new(Tree::Literal(c)));
    let tree = Tree::Binary(Box::new(Tree::Literal(a)), loose, Box::new(inner));
    lemma_constant(a);
    lemma_constant(b);
    lemma_constant(c);
    lemma_joined(Tree::Literal(b), tight, Tree::Literal(c));
    lemma_joined(Tree::Literal(a), loose, inner);
    let stream = seq![
        atom_lexeme(a),
        operator_lexeme(loose),
        atom_lexeme(b),
        operator_lexeme(tight),
        atom_lexeme(c),
    ];
    assert(spelling(tree) =~= stream);
    lemma_parse_of_spelling(tree, stream);
}

/// The second half: the tighter operator written first.
proof fn lemma_tight_then_loose(a: Atom, b: Atom, c: Atom, loose: Operator, tight: Operator)
    requires
        binary_rank(loose) is Some,
        binary_rank(tight) is Some,
        binary_rank(loose).unwrap() < binary_rank(tight).unwrap(),
    ensures
        parsed(
            seq![
                atom_lexeme(a),
                operator_lexeme(tight),
                atom_lexeme(b),
                operator_lexeme(loose),
                atom_lexeme(c),
            ],
        ) == (Parsed::Accepted {
            tree: Tree::Binary(
                Box::new(
                    Tree::Binary(Box::new(Tree::Literal(a)), tight, Box::new(Tree::Literal(b))),
                ),
                loose,
                Box::new(Tree::Literal(c)),
            ),
            consumed: 5,
        }),
{
    let inner = Tree::Binary(Box::new(Tree::Literal(a)), tight, Box::new(Tree::Literal(b)));
    let tree = Tree::Binary(Box::new(inner), loose, Box::new(Tree::Literal(c)));
    lemma_constant(a);
    lemma_constant(b);
    lemma_constant(c);
    lemma_joined(Tree::Literal(a), tight, Tree::Literal(b));
    lemma_joined(inner, loose, Tree::Literal(c));
    let stream = seq![
        atom_lexeme(a),
        operator_lexeme(tight),
        atom_lexeme(b),
        operator_lexeme(loose),
        atom_lexeme(c),
    ];
    assert(spelling(tree) =~= stream);
    lemma_parse_of_spelling(tree, stream);
}

/// `operand` with the prefix operators of `operators` in front of it, the
/// first of them outermost.
pub open spec fn prefixed(operators: Seq<Operator>, operand: Tree) -> Tree
    decreases operators.len(),
{
    if operators.len() == 0 {
        operand
    } else {
        Tree::Unary(operators.first(), Box::new(prefixed(operators.drop_first(), operand)))
    }
}

/// The lexemes of a sequence of operators, in order.
pub open spec fn operator_lexemes(operators: Seq<Operator>) -> Seq<Lexeme> {
    Seq::new(operators.len(), |i: int| operator_lexeme(operators[i]))
}

/// A prefixed constant is grammatical, is a prefix or primary expression,
/// and is spelled by its operators and then the constant.
proof fn lemma_prefixed(operators: Seq<Operator>, atom: Atom)
    requires
        forall|i: int| 0 <= i < operators.len() ==> is_prefix(#[trigger] operators[i]),
    ensures
        grammatical(prefixed(operators, Tree::Literal(atom))),
        tightness(prefixed(operators, Tree::Literal(atom))) >= unary_rank(),
        spelling(prefixed(operators, Tree::Literal(atom))) == operator_lexemes(operators) + seq![
            atom_lexeme(atom),
        ],
    decreases operators.len(),
{
    if operators.len() == 0 {
        assert(spelling(Tree::Literal(atom)) =~= operator_lexemes(operators) + seq![
            atom_lexeme(atom),
        ]);
    } else {
        lemma_prefixed(operators.drop_first(), atom);
        assert(is_prefix(operators[0]));
        assert(spelling(prefixed(operators, Tree::Literal(atom))) =~= operator_lexemes(operators)
            + seq![atom_lexeme(atom)]);
    }
}

/// Prefix operators nest to the right.
///
/// Any number of prefix operators in front of a constant are parsed as one
/// node for each, the first written outermost and the constant innermost:
/// `!!true` is `!(!true)`.
pub proof fn theorem_prefix_operators_nest_right(operators: Seq<Operator>, atom: Atom)
    requires
        forall|i: int| 0 <= i < operators.len() ==> is_prefix(#[trigger] operators[i]),
    ensures
        parsed(operator_lexemes(operators) + seq![atom_lexeme(atom)]) == (Parsed::Accepted {
            tree: prefixed(operators, Tree::Literal(atom)),
            consumed: operators.len() + 1,
        }),
{
    lemma_prefixed(operators, atom);
    lemma_parse_of_spelling(
        prefixed(operators, Tree::Literal(atom)),
        operator_lexemes(operators) + seq![atom_lexeme(atom)],
    );
}

/// What stands in parentheses is one operand, however loosely it binds
/// inside.
///
/// A parenthesised expression followed by a binary operator and a constant
/// is parsed as that operator applied to the grouping and the constant:
/// `(1 + 2) * 3` has `*` at its root and the grouping as the left operand.
pub proof fn theorem_grouping_is_one_operand(inner: Tree, operator: Operator, right: Atom)
    requires
        grammatical(inner),
        binary_rank(operator) is Some,
    ensures
        parsed(
            seq![Lexeme::LeftParen] + spelling(inner) + seq![
                Lexeme::RightParen,
                operator_lexeme(operator),
                atom_lexeme(right),
            ],
        ) == (Parsed::Accepted {
            tree: Tree::Binary(
                Box::new(Tree::Grouping(Box::new(inner))),
                operator,
                Box::new(Tree::Literal(right)),
            ),
            consumed: spelling(inner).len() + 4,
        }),
{
    let grouping = Tree::Grouping(Box::new(inner));
    assert(grammatical(grouping));
    assert(spelling(grouping) == seq![Lexeme::LeftParen] + spelling(inner) + seq![
        Lexeme::RightParen,
    ]);
    lemma_joined(grouping, operator, Tree::Literal(right));
    let tree = Tree::Binary(Box::new(grouping), operator, Box::new(Tree::Literal(right)));
    let stream = seq![Lexeme::LeftParen] + spelling(inner) + seq![
        Lexeme::RightParen,
        operator_lexeme(operator),
        atom_lexeme(right),
    ];
    lemma_constant(right);
    assert(spelling(tree) =~= stream);
    lemma_parse_of_spelling(tree, stream);
}

} // verus!
