use compiler::lexer::tokenize;
use compiler::parser::{parse, Body, ParseError, Parser, Statement};
use compiler::syntax_token::SyntaxKind;

fn parse_src(src: &str) -> Result<compiler::parser::Program, ParseError> {
    parse(tokenize(src).unwrap())
}

#[test]
fn function_with_one_return() {
    let program = parse_src("int f(void) { return 1; }").unwrap();
    assert_eq!(program.statements.len(), 1);
    let f = match &program.statements[0] {
        Statement::Function(f) => f,
        other => panic!("expected a function, got {:?}", other),
    };
    assert_eq!(f.func_type.kind, SyntaxKind::IntKeyword);
    assert_eq!(f.identifier.data, "f");
    assert_eq!(f.parameters.len(), 1);
    assert_eq!(f.parameters[0].kind, SyntaxKind::VoidKeyword);
    assert_eq!(f.func_body.statements.len(), 1);
    match &f.func_body.statements[0] {
        Statement::Return(r) => {
            assert_eq!(r.value.kind, SyntaxKind::NumberLiteral);
            assert_eq!(r.value.data, "1");
        }
        other => panic!("expected a return, got {:?}", other),
    }
}

#[test]
fn clone_is_independent() {
    let program = parse_src("int f(void) { return 1; }").unwrap();
    let mut copy = program.clone();
    assert_eq!(format!("{:?}", copy), format!("{:?}", program));
    if let Statement::Function(f) = &mut copy.statements[0] {
        f.identifier.data = "g".to_string();
        if let Statement::Return(r) = &mut f.func_body.statements[0] {
            r.value.data = "2".to_string();
        }
    }
    assert_ne!(format!("{:?}", copy), format!("{:?}", program));
    match &program.statements[0] {
        Statement::Function(f) => {
            assert_eq!(f.identifier.data, "f");
            match &f.func_body.statements[0] {
                Statement::Return(r) => assert_eq!(r.value.data, "1"),
                _ => panic!("expected a return"),
            }
        }
        _ => panic!("expected a function"),
    }
}

#[test]
fn empty_body_parses() {
    let program = parse_src("void g(void) {}").unwrap();
    match &program.statements[0] {
        Statement::Function(f) => {
            assert!(f.func_body.statements.is_empty());
            assert_eq!(f.func_body.open_curly.kind, SyntaxKind::OpenCurly);
            assert_eq!(f.func_body.close_curly.kind, SyntaxKind::CloseCurly);
        }
        _ => panic!("expected a function"),
    }
    let program = parse_src("int h() {}").unwrap();
    match &program.statements[0] {
        Statement::Function(f) => {
            assert!(f.parameters.is_empty());
            assert!(f.func_body.statements.is_empty());
        }
        _ => panic!("expected a function"),
    }
}

#[test]
fn nested_and_sequential_statements() {
    let program = parse_src("int a(void) { int b(void) { return x; } return 0; } char c() { }").unwrap();
    assert_eq!(program.statements.len(), 2);
    match &program.statements[0] {
        Statement::Function(f) => {
            assert_eq!(f.func_body.statements.len(), 2);
            assert!(matches!(f.func_body.statements[0], Statement::Function(_)));
            assert!(matches!(f.func_body.statements[1], Statement::Return(_)));
        }
        _ => panic!("expected a function"),
    }
    assert!(program.statements[0].get_expressions().is_none());
}

#[test]
fn empty_token_sequence_is_an_empty_program() {
    let program = parse(std::collections::VecDeque::new()).unwrap();
    assert!(program.statements.is_empty());
}

#[test]
fn unexpected_token_reports_expected_and_found() {
    match parse_src("int f(void) { return 1 }") {
        Err(ParseError::UnexpectedToken { expected, found }) => {
            assert_eq!(expected, SyntaxKind::Semicolon);
            assert_eq!(found.kind, SyntaxKind::CloseCurly);
            assert_eq!(found.location.column, 24);
        }
        other => panic!("unexpected result {:?}", other),
    }
    match parse_src("int f(int) {}") {
        Err(ParseError::UnexpectedToken { expected, found }) => {
            assert_eq!(expected, SyntaxKind::VoidKeyword);
            assert_eq!(found.kind, SyntaxKind::IntKeyword);
        }
        other => panic!("unexpected result {:?}", other),
    }
}

#[test]
fn unexpected_end_of_input() {
    assert!(matches!(parse_src("int f(void) { return 1;"), Err(ParseError::UnexpectedEndOfInput)));
    assert!(matches!(parse_src("int"), Err(ParseError::UnexpectedEndOfInput)));
}

#[test]
fn unsupported_construct() {
    match parse_src("x = 1;") {
        Err(ParseError::UnsupportedConstruct(t)) => {
            assert_eq!(t.kind, SyntaxKind::StringLiteral);
            assert_eq!(t.data, "x");
        }
        other => panic!("unexpected result {:?}", other),
    }
}

#[test]
fn parser_expect_consumes_only_on_match() {
    let mut parser = Parser::new(tokenize("int main").unwrap());
    assert!(!parser.expect(SyntaxKind::ReturnKeyword));
    assert!(parser.expect(SyntaxKind::IntKeyword));
    assert!(parser.expect(SyntaxKind::StringLiteral));
    assert!(!parser.expect(SyntaxKind::StringLiteral));
}

#[test]
fn start_parsing_matches_parse() {
    let mut parser = Parser::new(tokenize("int f(void) { return 1; }").unwrap());
    let program = parser.start_parsing().unwrap();
    assert_eq!(program.statements.len(), 1);
}

#[test]
fn body_new_keeps_its_parts() {
    let tokens = tokenize("{}").unwrap();
    let body = Body::new(tokens[0].clone(), Vec::new(), tokens[1].clone());
    assert_eq!(body.open_curly.kind, SyntaxKind::OpenCurly);
    assert!(body.statements.is_empty());
    assert_eq!(body.close_curly.kind, SyntaxKind::CloseCurly);
}
