use vstd::prelude::*;

verus! {

/// The closed set of token classifications shared by the scanner and the parser.
#[derive(Debug, Clone, Copy, PartialEq, Eq, Structural)]
pub enum SyntaxKind {
    // Keywords
    IntKeyword,
    CharKeyword,
    ReturnKeyword,
    VoidKeyword,
    // Literals
    NumberLiteral,
    StringLiteral,
    // Symbols
    OpenParen,
    CloseParen,
    OpenCurly,
    CloseCurly,
    Semicolon,
    Comma,
    Underscore,
    // Operators
    Equal,
    Minus,
    Plus,
    EqualEqual,
    Star,
    Slash,
    // Structure
    NewLine,
}

/// The single-character symbol table.
pub open spec fn symbol_kind(c: char) -> Option<SyntaxKind> {
    if c == '(' {
        Some(SyntaxKind::OpenParen)
    } else if c == ')' {
        Some(SyntaxKind::CloseParen)
    } else if c == '{' {
        Some(SyntaxKind::OpenCurly)
    } else if c == '}' {
        Some(SyntaxKind::CloseCurly)
    } else if c == ';' {
        Some(SyntaxKind::Semicolon)
    } else if c == ',' {
        Some(SyntaxKind::Comma)
    } else if c == '_' {
        Some(SyntaxKind::Underscore)
    } else if c == '=' {
        Some(SyntaxKind::Equal)
    } else if c == '-' {
        Some(SyntaxKind::Minus)
    } else if c == '+' {
        Some(SyntaxKind::Plus)
    } else if c == '*' {
        Some(SyntaxKind::Star)
    } else if c == '/' {
        Some(SyntaxKind::Slash)
    } else if c == '\n' {
        Some(SyntaxKind::NewLine)
    } else {
        None
    }
}

/// The keyword table: exact, case-sensitive matches only.
pub open spec fn keyword_kind(w: Seq<char>) -> Option<SyntaxKind> {
    if w == seq!['i', 'n', 't'] {
        Some(SyntaxKind::IntKeyword)
    } else if w == seq!['c', 'h', 'a', 'r'] {
        Some(SyntaxKind::CharKeyword)
    } else if w == seq!['r', 'e', 't', 'u', 'r', 'n'] {
        Some(SyntaxKind::ReturnKeyword)
    } else if w == seq!['v', 'o', 'i', 'd'] {
        Some(SyntaxKind::VoidKeyword)
    } else {
        None
    }
}

/// Kinds that name a type and so may open a top-level definition.
pub open spec fn type_keyword(k: SyntaxKind) -> bool {
    k == SyntaxKind::IntKeyword || k == SyntaxKind::CharKeyword || k == SyntaxKind::VoidKeyword
}

/// Whether `w` holds exactly the characters of `lit`.
fn chars_equal(w: &[char], lit: &str) -> (r: bool)
    ensures
        r == (w@ == lit@),
{
    let n = lit.unicode_len();
    if w.len() != n {
        return false;
    }
    let mut i: usize = 0;
    while i < n
        invariant
            n == lit@.len(),
            w@.len() == n,
            i <= n,
            forall|j: int| 0 <= j < i ==> w@[j] == lit@[j],
        decreases n - i,
    {
        if w[i] != lit.get_char(i) {
            return false;
        }
        i = i + 1;
    }
    assert(w@ =~= lit@);
    true
}

impl SyntaxKind {
    /// Classifies a single character by the symbol table.
    pub fn from_char(c: char) -> (r: Option<SyntaxKind>)
        ensures
            r == symbol_kind(c),
    {
        match c {
            '(' => Some(SyntaxKind::OpenParen),
            ')' => Some(SyntaxKind::CloseParen),
            '{' => Some(SyntaxKind::OpenCurly),
            '}' => Some(SyntaxKind::CloseCurly),
            ';' => Some(SyntaxKind::Semicolon),
            ',' => Some(SyntaxKind::Comma),
            '_' => Some(SyntaxKind::Underscore),
            '=' => Some(SyntaxKind::Equal),
            '-' => Some(SyntaxKind::Minus),
            '+' => Some(SyntaxKind::Plus),
            '*' => Some(SyntaxKind::Star),
            '/' => Some(SyntaxKind::Slash),
            '\n' => Some(SyntaxKind::NewLine),
            _ => None,
        }
    }

    /// Classifies a whole word by the keyword table.
    pub fn from_chars(w: &[char]) -> (r: Option<SyntaxKind>)
        ensures
            r == keyword_kind(w@),
    {
        proof {
            reveal_strlit("int");
            reveal_strlit("char");
            reveal_strlit("return");
            reveal_strlit("void");
            assert("int"@ =~= seq!['i', 'n', 't']);
            assert("char"@ =~= seq!['c', 'h', 'a', 'r']);
            assert("return"@ =~= seq!['r', 'e', 't', 'u', 'r', 'n']);
            assert("void"@ =~= seq!['v', 'o', 'i', 'd']);
        }
        if chars_equal(w, "int") {
            Some(SyntaxKind::IntKeyword)
        } else if chars_equal(w, "char") {
            Some(SyntaxKind::CharKeyword)
        } else if chars_equal(w, "return") {
            Some(SyntaxKind::ReturnKeyword)
        } else if chars_equal(w, "void") {
            Some(SyntaxKind::VoidKeyword)
        } else {
            None
        }
    }

    /// Classifies a whole word, given as a string, by the keyword table.
    pub fn from_str(s: &str) -> (r: Option<SyntaxKind>)
        ensures
            r == keyword_kind(s@),
    {
        let n = s.unicode_len();
        let mut w: Vec<char> = Vec::new();
        let mut i: usize = 0;
        while i < n
            invariant
                n == s@.len(),
                i <= n,
                w@ == s@.subrange(0, i as int),
            decreases n - i,
        {
            w.push(s.get_char(i));
            i = i + 1;
            assert(w@ =~= s@.subrange(0, i as int));
        }
        assert(w@ =~= s@);
        Self::from_chars(w.as_slice())
    }

    /// Whether this kind names a type.
    pub fn is_type_keyword(&self) -> (r: bool)
        ensures
            r == type_keyword(*self),
    {
        match self {
            SyntaxKind::IntKeyword | SyntaxKind::CharKeyword | SyntaxKind::VoidKeyword => true,
            _ => false,
        }
    }
}

/// A 1-based line and column in the source text.
#[derive(Debug, Clone, Copy, PartialEq, Eq, Structural)]
pub struct Location {
    pub line: usize,
    pub column: usize,
}

impl Location {
    pub fn new(line: usize, column: usize) -> (r: Location)
        ensures
            r.line == line,
            r.column == column,
    {
        Location { line, column }
    }

    pub fn line(&self) -> (r: usize)
        ensures
            r == self.line,
    {
        self.line
    }

    pub fn column(&self) -> (r: usize)
        ensures
            r == self.column,
    {
        self.column
    }

    pub fn line_and_column(&self) -> (r: (usize, usize))
        ensures
            r == (self.line, self.column),
    {
        (self.line, self.column)
    }

    pub fn set_line(&mut self, l: usize)
        ensures
            final(self).line == l,
            final(self).column == old(self).column,
    {
        self.line = l;
    }

    pub fn set_column(&mut self, c: usize)
        ensures
            final(self).line == old(self).line,
            final(self).column == c,
    {
        self.column = c;
    }

    /// Sets both coordinates at once.
    pub fn set_line_and_column(&mut self, l: usize, c: usize)
        ensures
            final(self).line == l,
            final(self).column == c,
    {
        self.line = l;
        self.column = c;
    }
}

} // verus!
