use compiler::syntax_token::{Location, SyntaxKind};

#[test]
fn testing_location() {
    let mut location = Location { line: 0, column: 0 };

    assert_eq!(location.line, 0);
    assert_eq!(location.column, 0);
    location.line += 1;
    location.column += 1;
    assert_eq!(location.line, 1);
    assert_eq!(location.column, 1);
    assert_eq!(location.line_and_column(), (1, 1));

    location.set_line_and_column(10, 13);
    assert_eq!(location.line, 10);
    assert_eq!(location.column, 13);
    assert_eq!(location.line_and_column(), (10, 13));
}

#[test]
fn location_accessors_and_setters() {
    let mut location = Location::new(3, 7);
    assert_eq!(location.line(), 3);
    assert_eq!(location.column(), 7);
    location.set_line(4);
    assert_eq!(location, Location::new(4, 7));
    location.set_column(9);
    assert_eq!(location, Location::new(4, 9));
}

#[test]
fn symbol_table() {
    let cases = [
        ('(', SyntaxKind::OpenParen),
        (')', SyntaxKind::CloseParen),
        ('{', SyntaxKind::OpenCurly),
        ('}', SyntaxKind::CloseCurly),
        (';', SyntaxKind::Semicolon),
        (',', SyntaxKind::Comma),
        ('_', SyntaxKind::Underscore),
        ('=', SyntaxKind::Equal),
        ('-', SyntaxKind::Minus),
        ('+', SyntaxKind::Plus),
        ('*', SyntaxKind::Star),
        ('/', SyntaxKind::Slash),
        ('\n', SyntaxKind::NewLine),
    ];
    for (c, kind) in cases {
        assert_eq!(SyntaxKind::from_char(c), Some(kind));
    }
    for c in ['a', '1', ' ', '@', '\t'] {
        assert_eq!(SyntaxKind::from_char(c), None);
    }
}

#[test]
fn type_keywords() {
    assert!(SyntaxKind::IntKeyword.is_type_keyword());
    assert!(SyntaxKind::CharKeyword.is_type_keyword());
    assert!(SyntaxKind::VoidKeyword.is_type_keyword());
    assert!(!SyntaxKind::ReturnKeyword.is_type_keyword());
    assert!(!SyntaxKind::StringLiteral.is_type_keyword());
}
