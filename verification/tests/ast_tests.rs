use pawn_front::ast::{Expression, Node, ParseError, Parser, Span};
use pawn_front::lexer::Lexer;
use pawn_front::token::{TokenType, TokenValue};

#[test]
fn test_basic() {
    let mut p = Parser::new(Lexer::new("new a = 4;").lex());
    p.parse().expect("failed to parse");

    println!("{:?}", p.root);
}

fn parsed(source: &str) -> Parser {
    let mut p = Parser::new(Lexer::new(source).lex());
    p.parse().expect("failed to parse");
    p
}

fn span(cs: i32, ce: i32) -> Span {
    Span { line_start: 1, line_end: 1, column_start: cs, column_end: ce }
}

fn end_span() -> Span {
    Span { line_start: 0, line_end: 0, column_start: 0, column_end: 0 }
}

fn parse_err(source: &str) -> ParseError {
    let mut p = Parser::new(Lexer::new(source).lex());
    p.parse().expect_err("expected a parse error")
}

fn variable_of(node: &Node) -> (&str, &str) {
    match &node.expr {
        Expression::Variable(v) => (v.name.as_str(), v.tag.as_str()),
        other => panic!("expected a variable, found {:?}", other),
    }
}

#[test]
fn parse_declaration_without_initializer() {
    let p = parsed("new a;");
    assert_eq!(p.root.children.len(), 1);
    let node = &p.root.children[0];
    assert_eq!(variable_of(node), ("a", "_"));
    assert_eq!(node.children.len(), 0);
    assert_eq!(node.tokens.len(), 0);
}

#[test]
fn parse_tagged_declaration() {
    let p = parsed("new Float:x = 5.5;");
    assert_eq!(p.root.children.len(), 1);
    let node = &p.root.children[0];
    assert_eq!(variable_of(node), ("x", "Float"));
    assert_eq!(node.children.len(), 1);
    match &node.children[0].expr {
        Expression::LiteralScalar(l) => {
            assert_eq!(l.tag, "_");
            assert!(!l.negative);
            assert_eq!(l.value, Some(TokenValue::Float("5.5".into())));
        },
        other => panic!("expected a literal initializer, found {:?}", other),
    }
}

#[test]
fn parse_integer_initializer() {
    let p = parsed("new a = 4;");
    let node = &p.root.children[0];
    assert_eq!(variable_of(node), ("a", "_"));
    assert_eq!(node.children.len(), 1);
    match &node.children[0].expr {
        Expression::LiteralScalar(l) => {
            assert_eq!(l.value, Some(TokenValue::Integer(4)));
        },
        other => panic!("expected a literal initializer, found {:?}", other),
    }
}

#[test]
fn parse_negative_initializer() {
    let p = parsed("new a = -4;");
    match &p.root.children[0].children[0].expr {
        Expression::LiteralScalar(l) => {
            assert!(l.negative);
            assert_eq!(l.value, Some(TokenValue::Integer(4)));
        },
        other => panic!("expected a literal initializer, found {:?}", other),
    }
}

#[test]
fn parse_skips_other_top_level_tokens() {
    let p = parsed("x ; new a; }");
    assert_eq!(p.root.children.len(), 1);
    assert_eq!(variable_of(&p.root.children[0]), ("a", "_"));
}

#[test]
fn parse_several_declarations_in_order() {
    let p = parsed("new a; new b = 2; new Float:c;");
    assert_eq!(p.root.children.len(), 3);
    assert_eq!(variable_of(&p.root.children[0]), ("a", "_"));
    assert_eq!(variable_of(&p.root.children[1]), ("b", "_"));
    assert_eq!(variable_of(&p.root.children[2]), ("c", "Float"));
}

#[test]
fn parse_precedence_multiplication_binds_tighter() {
    let p = parsed("new a = 1 + 2 * 3;");
    match &p.root.children[0].children[0].expr {
        Expression::BinaryOperation(top) => {
            assert_eq!(top.operator.token_type, TokenType::Plus);
            match (&*top.left, &*top.right) {
                (Expression::LiteralScalar(l), Expression::BinaryOperation(mul)) => {
                    assert_eq!(l.value, Some(TokenValue::Integer(1)));
                    assert_eq!(mul.operator.token_type, TokenType::Asterisk);
                },
                other => panic!("unexpected shape {:?}", other),
            }
        },
        other => panic!("expected a binary operation, found {:?}", other),
    }
}

#[test]
fn parse_left_associative_subtraction() {
    let p = parsed("new a = 1 - 2 - 3;");
    match &p.root.children[0].children[0].expr {
        Expression::BinaryOperation(top) => {
            assert_eq!(top.operator.token_type, TokenType::Minus);
            match &*top.left {
                Expression::BinaryOperation(inner) => {
                    assert_eq!(inner.operator.token_type, TokenType::Minus);
                },
                other => panic!("left subtree should nest first, found {:?}", other),
            }
            match &*top.right {
                Expression::LiteralScalar(l) => {
                    assert_eq!(l.value, Some(TokenValue::Integer(3)));
                },
                other => panic!("unexpected right subtree {:?}", other),
            }
        },
        other => panic!("expected a binary operation, found {:?}", other),
    }
}

#[test]
fn parse_parenthesized_grouping() {
    let p = parsed("new a = (1 + 2) * 3;");
    match &p.root.children[0].children[0].expr {
        Expression::BinaryOperation(top) => {
            assert_eq!(top.operator.token_type, TokenType::Asterisk);
            match &*top.left {
                Expression::BinaryOperation(inner) => {
                    assert_eq!(inner.operator.token_type, TokenType::Plus);
                },
                other => panic!("expected grouped sum on the left, found {:?}", other),
            }
        },
        other => panic!("expected a binary operation, found {:?}", other),
    }
}

#[test]
fn parse_variable_reference_initializer() {
    let p = parsed("new a = b;");
    match &p.root.children[0].children[0].expr {
        Expression::Variable(v) => {
            assert_eq!(v.name, "b");
            assert_eq!(v.tag, "_");
        },
        other => panic!("expected a variable reference, found {:?}", other),
    }
}

#[test]
fn parse_missing_semicolon_names_found_token() {
    assert_eq!(
        parse_err("new a = 4"),
        ParseError::ExpectedSemicolon { found: TokenType::End, span: end_span() }
    );
    assert_eq!(
        parse_err("new a 4;"),
        ParseError::ExpectedSemicolon { found: TokenType::Integer, span: span(7, 8) }
    );
}

#[test]
fn parse_missing_symbol_names_found_token() {
    assert_eq!(
        parse_err("new 5;"),
        ParseError::ExpectedSymbol { found: TokenType::Integer, span: span(5, 6) }
    );
    assert_eq!(
        parse_err("new Float: = 4;"),
        ParseError::ExpectedSymbol { found: TokenType::Assign, span: span(12, 13) }
    );
}

#[test]
fn parse_missing_expression_names_found_token() {
    assert_eq!(
        parse_err("new a = ;"),
        ParseError::ExpectedExpression { found: TokenType::Semicolon, span: span(9, 10) }
    );
}

#[test]
fn parse_unclosed_parenthesis_names_found_token() {
    assert_eq!(
        parse_err("new a = (1 + 2;"),
        ParseError::ExpectedRightBracket { found: TokenType::Semicolon, span: span(15, 16) }
    );
}

#[test]
fn parse_error_keeps_earlier_declarations() {
    let mut p = Parser::new(Lexer::new("new a; new 5;").lex());
    let r = p.parse();
    assert_eq!(
        r,
        Err(ParseError::ExpectedSymbol { found: TokenType::Integer, span: span(12, 13) })
    );
    assert_eq!(p.root.children.len(), 1);
    assert_eq!(variable_of(&p.root.children[0]), ("a", "_"));
}

#[test]
fn parse_array_literal_initializer() {
    let p = parsed("new a = {1, 2, 3};");
    match &p.root.children[0].children[0].expr {
        Expression::ArrayLiteral(arr) => {
            assert_eq!(arr.elements.len(), 3);
            let expected = [1, 2, 3];
            for (element, want) in arr.elements.iter().zip(expected.iter()) {
                match element {
                    Expression::LiteralScalar(l) => {
                        assert_eq!(l.value, Some(TokenValue::Integer(*want)));
                    },
                    other => panic!("expected a literal element, found {:?}", other),
                }
            }
        },
        other => panic!("expected an array literal, found {:?}", other),
    }
}

#[test]
fn parse_empty_array_literal() {
    let p = parsed("new a = {};");
    match &p.root.children[0].children[0].expr {
        Expression::ArrayLiteral(arr) => assert_eq!(arr.elements.len(), 0),
        other => panic!("expected an array literal, found {:?}", other),
    }
}

#[test]
fn parse_array_of_expressions() {
    let p = parsed("new a = {1 + 2, b};");
    match &p.root.children[0].children[0].expr {
        Expression::ArrayLiteral(arr) => {
            assert_eq!(arr.elements.len(), 2);
            assert!(matches!(arr.elements[0], Expression::BinaryOperation(_)));
            assert!(matches!(arr.elements[1], Expression::Variable(_)));
        },
        other => panic!("expected an array literal, found {:?}", other),
    }
}

#[test]
fn parse_prefix_unary_on_variable() {
    let p = parsed("new a = -b;");
    match &p.root.children[0].children[0].expr {
        Expression::UnaryOperation(u) => {
            assert_eq!(u.operator.token_type, TokenType::Minus);
            assert!(u.prefix);
            assert!(matches!(*u.operand, Expression::Variable(_)));
        },
        other => panic!("expected a unary operation, found {:?}", other),
    }
}

#[test]
fn parse_postfix_increment() {
    let p = parsed("new a = b++;");
    match &p.root.children[0].children[0].expr {
        Expression::UnaryOperation(u) => {
            assert_eq!(u.operator.token_type, TokenType::PlusPlus);
            assert!(!u.prefix);
            assert!(matches!(*u.operand, Expression::Variable(_)));
        },
        other => panic!("expected a unary operation, found {:?}", other),
    }
}

#[test]
fn parse_prefix_binds_tighter_than_binary() {
    let p = parsed("new a = !b && c;");
    match &p.root.children[0].children[0].expr {
        Expression::BinaryOperation(top) => {
            assert_eq!(top.operator.token_type, TokenType::And);
            match &*top.left {
                Expression::UnaryOperation(u) => {
                    assert_eq!(u.operator.token_type, TokenType::Bang);
                    assert!(u.prefix);
                },
                other => panic!("expected a unary operand, found {:?}", other),
            }
        },
        other => panic!("expected a binary operation, found {:?}", other),
    }
}

#[test]
fn parse_unclosed_array_names_found_token() {
    assert_eq!(
        parse_err("new a = {1, 2;"),
        ParseError::ExpectedRightBrace { found: TokenType::Semicolon, span: span(14, 15) }
    );
}
