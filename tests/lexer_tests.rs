use compiler::lexer::{tokenize, LexError, Lexer};
use compiler::syntax_token::{Location, SyntaxKind};

#[test]
fn lexing_whitespace() {
    let str = "\n";
    let mut lexer = Lexer::new(str).unwrap();

    lexer.lex().unwrap();
    assert_eq!(lexer.file.len(), str.len());
    assert_eq!(lexer.tokens.len(), 1);
    assert_eq!(lexer.tokens.front().unwrap().kind, SyntaxKind::NewLine);
    let token = lexer.tokens.pop_front().unwrap();
    assert_eq!(token.data, str);

    let str = "    ";
    let mut lexer = Lexer::new(str).unwrap();
    lexer.lex().unwrap();
    assert_eq!(lexer.file.len(), str.len());
    assert_eq!(lexer.tokens.len(), 0);
}

#[test]
fn lexing_basic_strings() {
    let str = "foobar";
    let mut lexer = Lexer::new(str).unwrap();
    lexer.lex().unwrap();

    assert_eq!(lexer.tokens.front().unwrap().kind, SyntaxKind::StringLiteral);
    assert_eq!(lexer.file.len(), str.len());
    assert_eq!(lexer.tokens.len(), 1);
    let token = lexer.tokens.pop_front().unwrap();
    assert_eq!(token.data, str);

    let str = "foo bar";
    let mut lexer = Lexer::new(str).unwrap();
    lexer.lex().unwrap();

    assert_eq!(lexer.tokens.front().unwrap().kind, SyntaxKind::StringLiteral);
    assert_eq!(lexer.file.len(), str.len());
    assert_eq!(lexer.tokens.len(), 2);
    lexer.tokens.pop_front();
    assert_eq!(lexer.tokens.front().unwrap().kind, SyntaxKind::StringLiteral);
}

#[test]
fn lexing_keywords() {
    let str = "int";
    let mut lexer = Lexer::new(str).unwrap();
    lexer.lex().unwrap();

    assert_eq!(lexer.tokens.front().unwrap().kind, SyntaxKind::IntKeyword);
    assert_eq!(lexer.file.len(), str.len());
    assert_eq!(lexer.tokens.len(), 1);
    let token = lexer.tokens.pop_front().unwrap();
    assert_eq!(token.location, Location { column: 1, line: 1 });

    let str = "return";
    let mut lexer = Lexer::new(str).unwrap();
    lexer.lex().unwrap();

    assert_eq!(lexer.tokens.front().unwrap().kind, SyntaxKind::ReturnKeyword);
    assert_eq!(lexer.file.len(), str.len());
    assert_eq!(lexer.tokens.len(), 1);

    let str = "char";
    let mut lexer = Lexer::new(str).unwrap();
    lexer.lex().unwrap();

    assert_eq!(lexer.tokens.front().unwrap().kind, SyntaxKind::CharKeyword);
    assert_eq!(lexer.file.len(), str.len());
    assert_eq!(lexer.tokens.len(), 1);

    let str = "void";
    let mut lexer = Lexer::new(str).unwrap();
    lexer.lex().unwrap();

    assert_eq!(lexer.tokens.front().unwrap().kind, SyntaxKind::VoidKeyword);
    assert_eq!(lexer.file.len(), str.len());
    assert_eq!(lexer.tokens.len(), 1);
}

#[test]
fn lexing_numbers() {
    let str = "123";
    let mut lexer = Lexer::new(str).unwrap();
    lexer.lex().unwrap();

    assert_eq!(lexer.tokens.front().unwrap().kind, SyntaxKind::NumberLiteral);
    assert_eq!(lexer.file.len(), str.len());
    assert_eq!(lexer.tokens.len(), 1);
    let token = lexer.tokens.pop_front().unwrap();
    assert_eq!(token.data, str);

    let str = "01293";
    let mut lexer = Lexer::new(str).unwrap();
    lexer.lex().unwrap();

    assert_eq!(lexer.tokens.front().unwrap().kind, SyntaxKind::NumberLiteral);
    assert_eq!(lexer.file.len(), str.len());
    assert_eq!(lexer.tokens.len(), 1);
    let token = lexer.tokens.pop_front().unwrap();
    assert_eq!(token.data, str);
}

#[test]
fn basic_symbols() {
    let str = "+ - * / ( \n ) { } = ==";
    let mut lexer = Lexer::new(str).unwrap();
    lexer.lex().unwrap();
    assert_eq!(lexer.file.len(), str.len());
    let expected = [
        (SyntaxKind::Plus, 1, 1),
        (SyntaxKind::Minus, 1, 3),
        (SyntaxKind::Star, 1, 5),
        (SyntaxKind::Slash, 1, 7),
        (SyntaxKind::OpenParen, 1, 9),
        (SyntaxKind::NewLine, 1, 11),
        (SyntaxKind::CloseParen, 2, 2),
        (SyntaxKind::OpenCurly, 2, 4),
        (SyntaxKind::CloseCurly, 2, 6),
        (SyntaxKind::Equal, 2, 8),
        (SyntaxKind::EqualEqual, 2, 10),
    ];
    for (kind, line, column) in expected {
        let token = lexer.tokens.pop_front().unwrap();
        assert_eq!(token.kind, kind);
        assert_eq!(token.location, Location { line, column });
    }
}

#[test]
fn basic_c_program() {
    let str = r#"
        int main(int argc, char **argv) {
            return 0;
        }
        "#;

    let mut lexer = Lexer::new(str).unwrap();
    lexer.lex().unwrap();
    assert_eq!(lexer.file.len(), str.len());
    let expected = [
        SyntaxKind::NewLine,
        SyntaxKind::IntKeyword,
        SyntaxKind::StringLiteral,
        SyntaxKind::OpenParen,
        SyntaxKind::IntKeyword,
        SyntaxKind::StringLiteral,
        SyntaxKind::Comma,
        SyntaxKind::CharKeyword,
        SyntaxKind::Star,
        SyntaxKind::Star,
        SyntaxKind::StringLiteral,
        SyntaxKind::CloseParen,
        SyntaxKind::OpenCurly,
        SyntaxKind::NewLine,
        SyntaxKind::ReturnKeyword,
        SyntaxKind::NumberLiteral,
        SyntaxKind::Semicolon,
        SyntaxKind::NewLine,
        SyntaxKind::CloseCurly,
        SyntaxKind::NewLine,
    ];
    for kind in expected {
        assert_eq!(lexer.tokens.pop_front().unwrap().kind, kind);
    }
    assert!(lexer.tokens.is_empty());
}

#[test]
fn blank_sources_yield_no_tokens() {
    for src in [" ", "\t \t", " \u{3000}\u{a0}\r ", "\u{2003}\u{85}"] {
        assert_eq!(tokenize(src).unwrap().len(), 0);
    }
}

#[test]
fn single_newline_token() {
    let tokens = tokenize("\n").unwrap();
    assert_eq!(tokens.len(), 1);
    let t = &tokens[0];
    assert_eq!(t.kind, SyntaxKind::NewLine);
    assert_eq!(t.location, Location { line: 1, column: 1 });
    assert_eq!(t.data, "\n");
    assert_eq!(t.length, 1);
}

#[test]
fn keywords_are_exact_and_case_sensitive() {
    let cases = [
        ("int", SyntaxKind::IntKeyword),
        ("char", SyntaxKind::CharKeyword),
        ("return", SyntaxKind::ReturnKeyword),
        ("void", SyntaxKind::VoidKeyword),
        ("Int", SyntaxKind::StringLiteral),
        ("integer", SyntaxKind::StringLiteral),
        ("RETURN", SyntaxKind::StringLiteral),
    ];
    for (src, kind) in cases {
        let tokens = tokenize(src).unwrap();
        assert_eq!(tokens.len(), 1);
        assert_eq!(tokens[0].kind, kind);
        assert_eq!(tokens[0].data, src);
        assert_eq!(SyntaxKind::from_str(src).unwrap_or(SyntaxKind::StringLiteral), kind);
    }
    assert_eq!(SyntaxKind::from_str("=="), None);
}

#[test]
fn equal_equal_is_one_token_of_length_two() {
    let tokens = tokenize("a == b").unwrap();
    assert_eq!(tokens.len(), 3);
    assert_eq!(tokens[1].kind, SyntaxKind::EqualEqual);
    assert_eq!(tokens[1].data, "==");
    assert_eq!(tokens[1].length, 2);
    assert_eq!(tokens[1].location, Location { line: 1, column: 3 });
    assert_eq!(tokens[2].location, Location { line: 1, column: 6 });

    let tokens = tokenize("===").unwrap();
    assert_eq!(tokens.len(), 2);
    assert_eq!(tokens[0].kind, SyntaxKind::EqualEqual);
    assert_eq!(tokens[1].kind, SyntaxKind::Equal);
    assert_eq!(tokens[1].location, Location { line: 1, column: 3 });
}

#[test]
fn runs_split_digits_from_letters() {
    let tokens = tokenize("abc123def_9").unwrap();
    let got: Vec<(SyntaxKind, String, usize, usize)> = tokens
        .iter()
        .map(|t| (t.kind, t.data.clone(), t.location.column, t.length))
        .collect();
    assert_eq!(
        got,
        vec![
            (SyntaxKind::StringLiteral, "abc".to_string(), 1, 3),
            (SyntaxKind::NumberLiteral, "123".to_string(), 4, 3),
            (SyntaxKind::StringLiteral, "def".to_string(), 7, 3),
            (SyntaxKind::Underscore, "_".to_string(), 10, 1),
            (SyntaxKind::NumberLiteral, "9".to_string(), 11, 1),
        ]
    );
}

#[test]
fn lengths_and_skipped_whitespace_cover_source() {
    let src = "int  main ( void ) {\n\treturn 42 ;\n}  ";
    let tokens = tokenize(src).unwrap();
    let consumed: usize = tokens.iter().map(|t| t.length).sum();
    let skipped = src.chars().filter(|c| c.is_whitespace() && *c != '\n').count();
    assert_eq!(consumed + skipped, src.chars().count());
    assert_eq!(consumed, 26);
    assert_eq!(skipped, 11);
}

#[test]
fn empty_source_is_an_error() {
    assert_eq!(tokenize("").unwrap_err(), LexError::EmptySource);
    assert!(matches!(Lexer::new(""), Err(LexError::EmptySource)));
}

#[test]
fn unrecognized_character_reports_location() {
    assert_eq!(
        tokenize("int x;\n  @").unwrap_err(),
        LexError::UnrecognizedCharacter('@', Location { line: 2, column: 3 })
    );
    assert_eq!(
        tokenize("é").unwrap_err(),
        LexError::UnrecognizedCharacter('é', Location { line: 1, column: 1 })
    );
}
