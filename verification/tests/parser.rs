use expr_parser::ast::{BinaryExpr, Expr, Grouping, Literal, Operator, UnaryExpr};
use expr_parser::cursor::Cursor;
use expr_parser::parser::{
    map_operator, map_unary_operator, parse, parse_binary, parse_comparison, parse_equality,
    parse_expression, parse_factor, parse_operand, parse_primary, parse_term, parse_unary,
    try_parse, Level, ParseError, ParseErrorKind,
};
use expr_parser::token::{Token, TokenWithContext};

/// A small lexer for the tests: numbers, strings, the three keywords that are
/// constants, identifiers, and punctuation.
fn scan(source: &str) -> Vec<TokenWithContext> {
    let chars: Vec<char> = source.chars().collect();
    let mut tokens = Vec::new();
    let mut i = 0;
    while i < chars.len() {
        let c = chars[i];
        let column = i + 1;
        let two = |second: char| i + 1 < chars.len() && chars[i + 1] == second;
        let (token, width) = match c {
            ' ' | '\t' | '\n' => {
                i += 1;
                continue;
            }
            '(' => (Token::LeftParen, 1),
            ')' => (Token::RightParen, 1),
            '{' => (Token::LeftBrace, 1),
            '}' => (Token::RightBrace, 1),
            ',' => (Token::Comma, 1),
            '.' => (Token::Dot, 1),
            ';' => (Token::Semicolon, 1),
            '-' => (Token::Minus, 1),
            '+' => (Token::Plus, 1),
            '/' => (Token::Slash, 1),
            '*' => (Token::Star, 1),
            '!' if two('=') => (Token::BangEqual, 2),
            '!' => (Token::Bang, 1),
            '=' if two('=') => (Token::EqualEqual, 2),
            '=' => (Token::Equal, 1),
            '>' if two('=') => (Token::GreaterEqual, 2),
            '>' => (Token::Greater, 1),
            '<' if two('=') => (Token::LessEqual, 2),
            '<' => (Token::Less, 1),
            '"' => {
                let mut end = i + 1;
                while end < chars.len() && chars[end] != '"' {
                    end += 1;
                }
                assert!(end < chars.len(), "unterminated string in a test input");
                let text: String = chars[i + 1..end].iter().collect();
                (Token::StringLiteral(text), end + 1 - i)
            }
            _ if c.is_ascii_digit() => {
                let mut end = i;
                while end < chars.len() && (chars[end].is_ascii_digit() || chars[end] == '.') {
                    end += 1;
                }
                let text: String = chars[i..end].iter().collect();
                let value: f64 = text.parse().unwrap();
                (Token::NumberLiteral(value.to_bits()), end - i)
            }
            _ if c.is_ascii_alphabetic() => {
                let mut end = i;
                while end < chars.len() && chars[end].is_ascii_alphanumeric() {
                    end += 1;
                }
                let text: String = chars[i..end].iter().collect();
                let token = match text.as_str() {
                    "true" => Token::True,
                    "false" => Token::False,
                    "nil" => Token::Nil,
                    _ => Token::Identifier(text),
                };
                (token, end - i)
            }
            _ => panic!("a test input holds {:?}", c),
        };
        tokens.push(TokenWithContext { token, line: 1, column });
        i += width;
    }
    tokens
}

fn operator_text(operator: Operator) -> &'static str {
    match operator {
        Operator::Equal => "==",
        Operator::NotEqual => "!=",
        Operator::Greater => ">",
        Operator::GreaterEqual => ">=",
        Operator::Less => "<",
        Operator::LessEqual => "<=",
        Operator::Minus => "-",
        Operator::Plus => "+",
        Operator::Slash => "/",
        Operator::Star => "*",
        Operator::Bang => "!",
    }
}

fn pretty_print(expr: &Expr) -> String {
    match expr {
        Expr::Literal(Literal::BoolLiteral(b)) => format!("{}", b),
        Expr::Literal(Literal::NilLiteral) => format!("nil"),
        Expr::Literal(Literal::NumberLiteral(bits)) => format!("{}", f64::from_bits(*bits)),
        Expr::Literal(Literal::StringLiteral(text)) => format!("\"{}\"", text),
        Expr::Unary(unary) => {
            format!("{}{}", operator_text(unary.operator), pretty_print(&unary.right))
        }
        Expr::Binary(binary) => format!(
            "{} {} {}",
            pretty_print(&binary.left),
            operator_text(binary.operator),
            pretty_print(&binary.right)
        ),
        Expr::Grouping(grouping) => format!("({})", pretty_print(&grouping.expr)),
    }
}

fn number(value: f64) -> Expr {
    Expr::Literal(Literal::NumberLiteral(value.to_bits()))
}

fn binary_node(left: Expr, operator: Operator, right: Expr) -> Expr {
    Expr::Binary(Box::new(BinaryExpr { left, operator, right }))
}

fn unary_node(operator: Operator, right: Expr) -> Expr {
    Expr::Unary(Box::new(UnaryExpr { operator, right }))
}

fn grouping_node(expr: Expr) -> Expr {
    Expr::Grouping(Box::new(Grouping { expr }))
}

fn failure(kind: ParseErrorKind, position: usize) -> Result<Expr, ParseError> {
    Err(ParseError { kind, position })
}

#[test]
fn literal() {
    let tokens = scan("123");
    let expr = parse(tokens);
    assert_eq!("123", &pretty_print(&expr));
}

#[test]
fn binary() {
    let tokens = scan("123+456");
    let expr = parse(tokens);
    assert_eq!("123 + 456", &pretty_print(&expr));
}

#[test]
fn single_literal_is_one_node() {
    assert_eq!(parse(scan("123")), number(123.0));
    assert_eq!(try_parse(&scan("123")), Ok(number(123.0)));
}

#[test]
fn every_constant_token_becomes_its_literal() {
    assert_eq!(parse(scan("true")), Expr::Literal(Literal::BoolLiteral(true)));
    assert_eq!(parse(scan("false")), Expr::Literal(Literal::BoolLiteral(false)));
    assert_eq!(parse(scan("nil")), Expr::Literal(Literal::NilLiteral));
    assert_eq!(parse(scan("1.5")), number(1.5));
    assert_eq!(
        parse(scan("\"hello\"")),
        Expr::Literal(Literal::StringLiteral(String::from("hello")))
    );
}

#[test]
fn addition_and_subtraction_nest_left() {
    assert_eq!(
        parse(scan("1+2+3")),
        binary_node(
            binary_node(number(1.0), Operator::Plus, number(2.0)),
            Operator::Plus,
            number(3.0)
        )
    );
    assert_eq!(
        parse(scan("1-2+3-4")),
        binary_node(
            binary_node(
                binary_node(number(1.0), Operator::Minus, number(2.0)),
                Operator::Plus,
                number(3.0)
            ),
            Operator::Minus,
            number(4.0)
        )
    );
    assert_ne!(
        parse(scan("1+2+3")),
        binary_node(
            number(1.0),
            Operator::Plus,
            binary_node(number(2.0), Operator::Plus, number(3.0))
        )
    );
}

#[test]
fn every_level_nests_left() {
    assert_eq!(
        parse(scan("1==2!=3")),
        binary_node(
            binary_node(number(1.0), Operator::Equal, number(2.0)),
            Operator::NotEqual,
            number(3.0)
        )
    );
    assert_eq!(
        parse(scan("1<2>=3")),
        binary_node(
            binary_node(number(1.0), Operator::Less, number(2.0)),
            Operator::GreaterEqual,
            number(3.0)
        )
    );
    assert_eq!(
        parse(scan("8/4*2")),
        binary_node(
            binary_node(number(8.0), Operator::Slash, number(4.0)),
            Operator::Star,
            number(2.0)
        )
    );
}

#[test]
fn multiplication_binds_tighter_than_addition() {
    let expr = parse(scan("1+2*3"));
    assert_eq!(
        expr,
        binary_node(
            number(1.0),
            Operator::Plus,
            binary_node(number(2.0), Operator::Star, number(3.0))
        )
    );
    assert_eq!("1 + 2 * 3", &pretty_print(&expr));
    assert_eq!(
        parse(scan("1*2+3")),
        binary_node(
            binary_node(number(1.0), Operator::Star, number(2.0)),
            Operator::Plus,
            number(3.0)
        )
    );
}

#[test]
fn the_four_levels_in_one_expression() {
    assert_eq!(
        parse(scan("1 == 2 < 3 + 4 * 5")),
        binary_node(
            number(1.0),
            Operator::Equal,
            binary_node(
                number(2.0),
                Operator::Less,
                binary_node(
                    number(3.0),
                    Operator::Plus,
                    binary_node(number(4.0), Operator::Star, number(5.0))
                )
            )
        )
    );
}

#[test]
fn prefix_operators_chain_to_the_right() {
    assert_eq!(
        parse(scan("!!true")),
        unary_node(
            Operator::Bang,
            unary_node(Operator::Bang, Expr::Literal(Literal::BoolLiteral(true)))
        )
    );
    assert_eq!(
        parse(scan("-!-1")),
        unary_node(
            Operator::Minus,
            unary_node(Operator::Bang, unary_node(Operator::Minus, number(1.0)))
        )
    );
}

#[test]
fn minus_is_prefix_where_an_operand_is_due() {
    assert_eq!(
        parse(scan("1 - -2")),
        binary_node(number(1.0), Operator::Minus, unary_node(Operator::Minus, number(2.0)))
    );
    assert_eq!(
        parse(scan("-1 * 2")),
        binary_node(unary_node(Operator::Minus, number(1.0)), Operator::Star, number(2.0))
    );
}

#[test]
fn grouping_is_one_operand() {
    assert_eq!(
        parse(scan("(1+2)*3")),
        binary_node(
            grouping_node(binary_node(number(1.0), Operator::Plus, number(2.0))),
            Operator::Star,
            number(3.0)
        )
    );
}

#[test]
fn grouping_wraps_the_inner_expression() {
    let expr = parse(scan("(1+2)"));
    assert_eq!(expr, grouping_node(binary_node(number(1.0), Operator::Plus, number(2.0))));
    assert_eq!("(1 + 2)", &pretty_print(&expr));
    assert_eq!(parse(scan("((nil))")), grouping_node(grouping_node(Expr::Literal(Literal::NilLiteral))));
}

#[test]
fn grouping_closes_on_a_right_parenthesis_only() {
    // An opening parenthesis does not close a grouping.
    assert_eq!(try_parse(&scan("(1+2(")), failure(ParseErrorKind::UnclosedGrouping, 4));
    assert_eq!(try_parse(&scan("(1+2")), failure(ParseErrorKind::UnclosedGrouping, 4));
    assert_eq!(try_parse(&scan("(1+2;")), failure(ParseErrorKind::UnclosedGrouping, 4));
    assert_eq!(try_parse(&scan("((1)")), failure(ParseErrorKind::UnclosedGrouping, 4));
}

#[test]
fn empty_input_is_a_failure() {
    assert_eq!(try_parse(&Vec::new()), failure(ParseErrorKind::UnexpectedEnd, 0));
}

#[test]
fn a_missing_operand_is_a_failure() {
    assert_eq!(try_parse(&scan("1+")), failure(ParseErrorKind::UnexpectedEnd, 2));
    assert_eq!(try_parse(&scan("!")), failure(ParseErrorKind::UnexpectedEnd, 1));
    assert_eq!(try_parse(&scan("(")), failure(ParseErrorKind::UnexpectedEnd, 1));
    assert_eq!(try_parse(&scan("1 == 2 * ")), failure(ParseErrorKind::UnexpectedEnd, 4));
}

#[test]
fn a_token_that_starts_no_operand_is_a_failure() {
    assert_eq!(try_parse(&scan(")")), failure(ParseErrorKind::UnexpectedToken, 0));
    assert_eq!(try_parse(&scan("*1")), failure(ParseErrorKind::UnexpectedToken, 0));
    assert_eq!(try_parse(&scan("1+*")), failure(ParseErrorKind::UnexpectedToken, 2));
    assert_eq!(try_parse(&scan("x")), failure(ParseErrorKind::UnexpectedToken, 0));
    assert_eq!(try_parse(&scan("()")), failure(ParseErrorKind::UnexpectedToken, 1));
    assert_eq!(try_parse(&scan("1 + (2 * ;)")), failure(ParseErrorKind::UnexpectedToken, 5));
}

#[test]
fn what_follows_the_expression_is_left_unread() {
    let tokens = scan("1+2 3");
    let mut cursor = Cursor::new(&tokens);
    assert_eq!(
        parse_expression(&mut cursor),
        Ok(binary_node(number(1.0), Operator::Plus, number(2.0)))
    );
    assert_eq!(cursor.position(), 3);
    assert_eq!(parse(scan("1 )")), number(1.0));
    assert_eq!(parse(scan("1 = 2")), number(1.0));
}

#[test]
fn peek_twice_gives_the_same_token_and_does_not_move() {
    let tokens = scan("1+2");
    let mut cursor = Cursor::new(&tokens);
    assert_eq!(cursor.position(), 0);
    let first = cursor.peek();
    let second = cursor.peek();
    assert_eq!(first, Some(&tokens[0]));
    assert_eq!(first, second);
    assert_eq!(cursor.position(), 0);
    assert_eq!(cursor.advance(), Some(&tokens[0]));
    assert_eq!(cursor.position(), 1);
    assert_eq!(cursor.peek(), Some(&tokens[1]));
    assert_eq!(cursor.peek(), Some(&tokens[1]));
    assert_eq!(cursor.position(), 1);
}

#[test]
fn the_cursor_stops_at_the_end() {
    let tokens = scan("1");
    let mut cursor = Cursor::new(&tokens);
    assert_eq!(cursor.advance(), Some(&tokens[0]));
    assert_eq!(cursor.peek(), None);
    assert_eq!(cursor.peek(), None);
    assert_eq!(cursor.advance(), None);
    assert_eq!(cursor.advance(), None);
    assert_eq!(cursor.position(), 1);
    let nothing: Vec<TokenWithContext> = Vec::new();
    let mut empty = Cursor::new(&nothing);
    assert_eq!(empty.peek(), None);
    assert_eq!(empty.advance(), None);
    assert_eq!(empty.position(), 0);
}

#[test]
fn the_cursor_rests_behind_the_offending_token() {
    let tokens = scan("1 + ) 2");
    let mut cursor = Cursor::new(&tokens);
    assert_eq!(parse_expression(&mut cursor), failure(ParseErrorKind::UnexpectedToken, 2));
    assert_eq!(cursor.position(), 3);
    let tokens = scan("(1");
    let mut cursor = Cursor::new(&tokens);
    assert_eq!(parse_expression(&mut cursor), failure(ParseErrorKind::UnclosedGrouping, 2));
    assert_eq!(cursor.position(), 2);
    let tokens = scan("(1 2 3");
    let mut cursor = Cursor::new(&tokens);
    assert_eq!(parse_expression(&mut cursor), failure(ParseErrorKind::UnclosedGrouping, 2));
    assert_eq!(cursor.position(), 3);
}

#[test]
fn each_level_recognises_its_own_operators() {
    let levels = [Level::Equality, Level::Comparison, Level::Term, Level::Factor];
    let table = [
        (Token::BangEqual, Level::Equality, Operator::NotEqual),
        (Token::EqualEqual, Level::Equality, Operator::Equal),
        (Token::Greater, Level::Comparison, Operator::Greater),
        (Token::GreaterEqual, Level::Comparison, Operator::GreaterEqual),
        (Token::Less, Level::Comparison, Operator::Less),
        (Token::LessEqual, Level::Comparison, Operator::LessEqual),
        (Token::Minus, Level::Term, Operator::Minus),
        (Token::Plus, Level::Term, Operator::Plus),
        (Token::Slash, Level::Factor, Operator::Slash),
        (Token::Star, Level::Factor, Operator::Star),
    ];
    for (token, home, operator) in table.iter() {
        for level in levels.iter() {
            let expected = if level == home { Some(*operator) } else { None };
            assert_eq!(map_operator(*level, token), expected);
        }
    }
    for level in levels.iter() {
        assert_eq!(map_operator(*level, &Token::Bang), None);
        assert_eq!(map_operator(*level, &Token::Equal), None);
        assert_eq!(map_operator(*level, &Token::LeftParen), None);
        assert_eq!(map_operator(*level, &Token::NumberLiteral(0)), None);
    }
}

#[test]
fn the_prefix_operators_are_minus_and_bang() {
    assert_eq!(map_unary_operator(&Token::Minus), Some(Operator::Minus));
    assert_eq!(map_unary_operator(&Token::Bang), Some(Operator::Bang));
    assert_eq!(map_unary_operator(&Token::Plus), None);
    assert_eq!(map_unary_operator(&Token::BangEqual), None);
    assert_eq!(map_unary_operator(&Token::True), None);
}

#[test]
fn a_level_leaves_looser_operators_unread() {
    let tokens = scan("1*2+3");
    let mut cursor = Cursor::new(&tokens);
    assert_eq!(
        parse_factor(&mut cursor),
        Ok(binary_node(number(1.0), Operator::Star, number(2.0)))
    );
    assert_eq!(cursor.position(), 3);

    let tokens = scan("1+2<3");
    let mut cursor = Cursor::new(&tokens);
    assert_eq!(
        parse_term(&mut cursor),
        Ok(binary_node(number(1.0), Operator::Plus, number(2.0)))
    );
    assert_eq!(cursor.position(), 3);

    let tokens = scan("1<2==3");
    let mut cursor = Cursor::new(&tokens);
    assert_eq!(
        parse_comparison(&mut cursor),
        Ok(binary_node(number(1.0), Operator::Less, number(2.0)))
    );
    assert_eq!(cursor.position(), 3);

    let mut cursor = Cursor::new(&tokens);
    assert_eq!(
        parse_equality(&mut cursor),
        Ok(binary_node(
            binary_node(number(1.0), Operator::Less, number(2.0)),
            Operator::Equal,
            number(3.0)
        ))
    );
    assert_eq!(cursor.position(), 5);
}

#[test]
fn the_fold_takes_its_operands_from_the_next_level() {
    let tokens = scan("1+2*3-4");
    let mut cursor = Cursor::new(&tokens);
    assert_eq!(
        parse_binary(&mut cursor, Level::Term),
        Ok(binary_node(
            binary_node(
                number(1.0),
                Operator::Plus,
                binary_node(number(2.0), Operator::Star, number(3.0))
            ),
            Operator::Minus,
            number(4.0)
        ))
    );
    assert_eq!(cursor.position(), 7);

    let mut cursor = Cursor::new(&tokens);
    assert_eq!(parse_operand(&mut cursor, Level::Term), Ok(number(1.0)));
    assert_eq!(cursor.position(), 1);

    let tokens = scan("-1*2");
    let mut cursor = Cursor::new(&tokens);
    assert_eq!(
        parse_operand(&mut cursor, Level::Factor),
        Ok(unary_node(Operator::Minus, number(1.0)))
    );
    assert_eq!(cursor.position(), 2);
}

#[test]
fn unary_and_primary_take_one_operand() {
    let tokens = scan("!true == false");
    let mut cursor = Cursor::new(&tokens);
    assert_eq!(
        parse_unary(&mut cursor),
        Ok(unary_node(Operator::Bang, Expr::Literal(Literal::BoolLiteral(true))))
    );
    assert_eq!(cursor.position(), 2);

    let tokens = scan("(1) 2");
    let mut cursor = Cursor::new(&tokens);
    assert_eq!(parse_primary(&mut cursor), Ok(grouping_node(number(1.0))));
    assert_eq!(cursor.position(), 3);
    assert_eq!(parse_primary(&mut cursor), Ok(number(2.0)));
    assert_eq!(parse_primary(&mut cursor), failure(ParseErrorKind::UnexpectedEnd, 4));
    assert_eq!(cursor.position(), 4);

    let tokens = scan("-1");
    let mut cursor = Cursor::new(&tokens);
    assert_eq!(parse_primary(&mut cursor), failure(ParseErrorKind::UnexpectedToken, 0));
    assert_eq!(cursor.position(), 1);
}

#[test]
fn a_string_literal_is_copied_into_the_tree() {
    let tokens = scan("\"a\" + \"b\"");
    assert_eq!(
        try_parse(&tokens),
        Ok(binary_node(
            Expr::Literal(Literal::StringLiteral(String::from("a"))),
            Operator::Plus,
            Expr::Literal(Literal::StringLiteral(String::from("b")))
        ))
    );
    assert_eq!(tokens[0].token, Token::StringLiteral(String::from("a")));
}
