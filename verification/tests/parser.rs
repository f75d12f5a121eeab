use calculator::ast::{FloatLiteral, IntLiteral, Node, Op};
use calculator::parser::{ParseError, Parser};
use calculator::tokeniser::{LexError, TokenKind};

/// Parses one expression with a fresh parser.
fn parse_str(source: &str) -> Result<Node, ParseError> {
    let mut parser = Parser::new(String::from(source));
    parser.parse()
}

/// Folds a tree to a number with standard floating-point semantics, the
/// way the surrounding shell evaluates a parsed expression.
fn evaluate(node: &Node) -> f32 {
    match node {
        Node::BinOp { left, right, op } => {
            let l = evaluate(left);
            let r = evaluate(right);
            match op {
                Op::Add => l + r,
                Op::Sub => l - r,
                Op::Mult => l * r,
                Op::Div => l / r,
            }
        }
        Node::UnaryOp { right, op } => match op {
            Op::Sub => -evaluate(right),
            _ => evaluate(right),
        },
        Node::IntLiteral(lit) => lit.value.parse::<f32>().unwrap(),
        Node::FloatLiteral(lit) => lit.value.parse::<f32>().unwrap(),
    }
}

fn int_leaf(text: &str) -> Node {
    Node::IntLiteral(IntLiteral { value: String::from(text) })
}

#[test]
fn digit_run_parses_to_int_leaf() {
    let tree = parse_str("42").unwrap();
    assert_eq!(tree, int_leaf("42"));
    assert_eq!(evaluate(&tree), 42.0);
}

#[test]
fn decimal_parses_to_float_leaf() {
    let tree = parse_str("3.14").unwrap();
    assert_eq!(tree, Node::FloatLiteral(FloatLiteral { value: String::from("3.14") }));
    assert_eq!(evaluate(&tree), 3.14);
}

#[test]
fn subtraction_is_left_associative() {
    let tree = parse_str("8 - 3 - 2").unwrap();
    assert_eq!(
        tree,
        Node::BinOp {
            left: Box::new(Node::BinOp {
                left: Box::new(int_leaf("8")),
                right: Box::new(int_leaf("3")),
                op: Op::Sub,
            }),
            right: Box::new(int_leaf("2")),
            op: Op::Sub,
        }
    );
    assert_eq!(evaluate(&tree), 3.0);
}

#[test]
fn multiplication_binds_tighter_than_addition() {
    let tree = parse_str("2 + 3 * 4").unwrap();
    assert_eq!(
        tree,
        Node::BinOp {
            left: Box::new(int_leaf("2")),
            right: Box::new(Node::BinOp {
                left: Box::new(int_leaf("3")),
                right: Box::new(int_leaf("4")),
                op: Op::Mult,
            }),
            op: Op::Add,
        }
    );
    assert_eq!(evaluate(&tree), 14.0);
}

#[test]
fn parentheses_override_precedence() {
    let tree = parse_str("(2 + 3) * 4").unwrap();
    assert_eq!(evaluate(&tree), 20.0);
}

#[test]
fn unary_minus_stacks() {
    let tree = parse_str("--3").unwrap();
    assert_eq!(
        tree,
        Node::UnaryOp {
            right: Box::new(Node::UnaryOp { right: Box::new(int_leaf("3")), op: Op::Sub }),
            op: Op::Sub,
        }
    );
    assert_eq!(evaluate(&tree), 3.0);
}

#[test]
fn unary_minus_binds_tighter_than_binary_operators() {
    let tree = parse_str("-2 * 3").unwrap();
    assert_eq!(
        tree,
        Node::BinOp {
            left: Box::new(Node::UnaryOp { right: Box::new(int_leaf("2")), op: Op::Sub }),
            right: Box::new(int_leaf("3")),
            op: Op::Mult,
        }
    );
    assert_eq!(evaluate(&tree), -6.0);
}

#[test]
fn malformed_decimal_fails_with_lexical_error() {
    assert_eq!(
        parse_str("3."),
        Err(ParseError::Lexical(LexError::UnfinishedFloat {
            literal: String::from("3."),
            pos: 2,
        }))
    );
}

#[test]
fn unbalanced_parenthesis_fails_with_syntax_error() {
    assert_eq!(
        parse_str("(1 + 2"),
        Err(ParseError::ExpectedKind {
            expected: TokenKind::RParen,
            actual: TokenKind::EOF,
            pos: 6,
        })
    );
}

#[test]
fn unknown_character_fails_with_lexical_error() {
    assert_eq!(
        parse_str("1 & 2"),
        Err(ParseError::Lexical(LexError::UnrecognisedChar { ch: '&', pos: 2 }))
    );
}

#[test]
fn division_by_zero_evaluates_to_infinity() {
    let tree = parse_str("1 / 0").unwrap();
    assert_eq!(evaluate(&tree), f32::INFINITY);
}

#[test]
fn empty_input_fails_with_unexpected_eof() {
    assert_eq!(
        parse_str(""),
        Err(ParseError::UnexpectedToken { kind: TokenKind::EOF, pos: 0 })
    );
}

#[test]
fn input_past_the_first_expression_is_ignored() {
    // The parser stops after one `expr`; it scans exactly one token of
    // lookahead beyond it and inspects nothing further.
    assert_eq!(parse_str("1 2"), Ok(int_leaf("1")));
}

#[test]
fn set_source_resets_the_parser() {
    let mut parser = Parser::new(String::from("1 +"));
    assert!(parser.parse().is_err());
    parser.set_source(String::from("5"));
    assert_eq!(parser.parse(), Ok(int_leaf("5")));
}

#[test]
fn second_parse_without_new_source_sees_eof() {
    let mut parser = Parser::new(String::from("7"));
    assert_eq!(parser.parse(), Ok(int_leaf("7")));
    // The tokeniser is not reset: a second parse starts at the end of
    // the input and fails on the EOF lookahead.
    assert_eq!(
        parser.parse(),
        Err(ParseError::UnexpectedToken { kind: TokenKind::EOF, pos: 1 })
    );
}

#[test]
fn display_dumps_the_tree_structure() {
    let tree = parse_str("1 + 2").unwrap();
    let expected = "BinOp {\n    left: IntLiteral {\n        value: 1\n    }\n    right: IntLiteral {\n        value: 2\n    }\n    op: Add\n}";
    assert_eq!(tree.display(0), expected);
}

#[test]
fn display_indents_nested_nodes() {
    let tree = parse_str("-1.5").unwrap();
    let expected = "UnaryOp {\n    right: FloatLiteral {\n        value: 1.5\n    }\n    op: Sub\n}";
    assert_eq!(tree.display(0), expected);
}
