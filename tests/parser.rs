use rusp::lexer::{lex, Token};
use rusp::parser::{parse, parse_expr, ASTNode, ParseErrorKind};

fn parse_text(s: &str) -> Result<ASTNode, rusp::parser::ParseError> {
    let mut tokens = lex(s);
    parse(&mut tokens)
}

fn statements(node: ASTNode) -> Vec<ASTNode> {
    match node {
        ASTNode::Program { statements } => statements,
        other => panic!("expected a program, found {:?}", other),
    }
}

#[test]
fn parses_call_into_sexpr() {
    let stmts = statements(parse_text("(+ 1 2)").unwrap());
    assert_eq!(stmts.len(), 1);
    match &stmts[0] {
        ASTNode::SExpr { children } => {
            assert_eq!(children.len(), 3);
            assert!(matches!(&children[0], ASTNode::Identifier { name } if name == "+"));
            assert!(matches!(&children[1], ASTNode::Terminal { token: Token::IntLiteral(1) }));
            assert!(matches!(&children[2], ASTNode::Terminal { token: Token::IntLiteral(2) }));
        }
        other => panic!("expected a call, found {:?}", other),
    }
}

#[test]
fn parses_statements_in_order() {
    let stmts = statements(parse_text("1 \"two\" three ()").unwrap());
    assert_eq!(stmts.len(), 4);
    assert!(matches!(&stmts[0], ASTNode::Terminal { token: Token::IntLiteral(1) }));
    assert!(
        matches!(&stmts[1], ASTNode::Terminal { token: Token::StringLiteral(s) } if s == "two")
    );
    assert!(matches!(&stmts[2], ASTNode::Identifier { name } if name == "three"));
    assert!(matches!(&stmts[3], ASTNode::SExpr { children } if children.is_empty()));
}

#[test]
fn empty_text_is_an_empty_program() {
    assert_eq!(statements(parse_text("").unwrap()).len(), 0);
}

#[test]
fn defun_form_becomes_a_definition_node() {
    let stmts = statements(parse_text("(defun inc (x) (+ x 1))").unwrap());
    assert_eq!(stmts.len(), 1);
    match &stmts[0] {
        ASTNode::Defun { name, params, body } => {
            assert_eq!(name, "inc");
            assert_eq!(params, &vec!["x".to_string()]);
            assert_eq!(body.len(), 1);
            assert!(matches!(&body[0], ASTNode::SExpr { children } if children.len() == 3));
        }
        other => panic!("expected a definition, found {:?}", other),
    }
}

#[test]
fn defun_with_no_parameters_and_two_body_expressions() {
    let stmts = statements(parse_text("(defun f () 1 2)").unwrap());
    match &stmts[0] {
        ASTNode::Defun { name, params, body } => {
            assert_eq!(name, "f");
            assert!(params.is_empty());
            assert_eq!(body.len(), 2);
        }
        other => panic!("expected a definition, found {:?}", other),
    }
}

#[test]
fn defun_parameter_must_be_identifier() {
    let err = parse_text("(defun f (x 1) x)").unwrap_err();
    assert_eq!(err.kind, ParseErrorKind::MalformedDefinition);
}

#[test]
fn defun_name_must_be_identifier() {
    let err = parse_text("(defun 3 (x) x)").unwrap_err();
    assert_eq!(err.kind, ParseErrorKind::MalformedDefinition);
}

#[test]
fn defun_needs_parameter_list() {
    let err = parse_text("(defun f x x)").unwrap_err();
    assert_eq!(err.kind, ParseErrorKind::MalformedDefinition);
}

#[test]
fn missing_close_paren_is_unexpected_end() {
    let err = parse_text("(+ 1 2").unwrap_err();
    assert_eq!(err.kind, ParseErrorKind::UnexpectedEnd);
}

#[test]
fn stray_close_paren_is_an_error() {
    let err = parse_text("(+ 1 2))").unwrap_err();
    assert_eq!(err.kind, ParseErrorKind::UnmatchedCloseParen);
}

#[test]
fn token_errors_surface_as_parse_errors() {
    let err = parse_text("(write \"oops)").unwrap_err();
    assert_eq!(err.kind, ParseErrorKind::UnterminatedString);
    let err = parse_text("(+ 99999999999999999999 1)").unwrap_err();
    assert_eq!(err.kind, ParseErrorKind::IntegerOverflow);
}

#[test]
fn parse_expr_reads_one_expression() {
    let mut tokens = lex("(a (b c)) d");
    let first = parse_expr(&mut tokens).unwrap();
    match first {
        ASTNode::SExpr { children } => {
            assert_eq!(children.len(), 2);
            assert!(matches!(&children[1], ASTNode::SExpr { children } if children.len() == 2));
        }
        other => panic!("expected a call, found {:?}", other),
    }
    let second = parse_expr(&mut tokens).unwrap();
    assert!(matches!(second, ASTNode::Identifier { name } if name == "d"));
    let err = parse_expr(&mut tokens).unwrap_err();
    assert_eq!(err.kind, ParseErrorKind::UnexpectedEnd);
}

#[test]
fn copy_node_keeps_structure() {
    let stmts = statements(parse_text("(f \"s\" (g 1))").unwrap());
    let copy = stmts[0].copy_node();
    assert_eq!(format!("{:?}", copy), format!("{:?}", stmts[0]));
}
