use crate::syntax_token::{keyword_kind, symbol_kind, Location, SyntaxKind};
use std::collections::VecDeque;
use vstd::prelude::*;
use vstd::slice::slice_subrange;
use vstd::string::*;

verus! {

/// An ASCII decimal digit.
pub open spec fn is_digit(c: char) -> bool {
    '0' <= c && c <= '9'
}

/// An ASCII letter.
pub open spec fn is_letter(c: char) -> bool {
    ('a' <= c && c <= 'z') || ('A' <= c && c <= 'Z')
}

/// The characters with Unicode's White_Space property.
pub open spec fn white_space(c: char) -> bool {
    ('\u{9}' <= c && c <= '\u{d}') || c == ' ' || c == '\u{85}' || c == '\u{a0}' || c
        == '\u{1680}' || ('\u{2000}' <= c && c <= '\u{200a}') || c == '\u{2028}' || c
        == '\u{2029}' || c == '\u{202f}' || c == '\u{205f}' || c == '\u{3000}'
}

/// The character class of a run: digits, or else letters.
pub open spec fn in_class(c: char, digits: bool) -> bool {
    if digits {
        is_digit(c)
    } else {
        is_letter(c)
    }
}

/// Length of the maximal run of characters of one class starting at `pos`.
pub open spec fn run_len(s: Seq<char>, pos: int, digits: bool) -> nat
    decreases s.len() - pos,
{
    if 0 <= pos < s.len() && in_class(s[pos], digits) {
        1 + run_len(s, pos + 1, digits)
    } else {
        0
    }
}

/// What a token is, as values: its kind, its verbatim text, where it starts,
/// and how many characters it consumed.
pub struct TokenView {
    pub kind: SyntaxKind,
    pub text: Seq<char>,
    pub line: int,
    pub column: int,
    pub length: int,
}

/// A token whose consumed length is the length of its text.
pub open spec fn token_at(kind: SyntaxKind, text: Seq<char>, line: int, column: int) -> TokenView {
    TokenView { kind, text, line, column, length: text.len() as int }
}

/// A letter run is a keyword when the keyword table holds it, else an identifier.
pub open spec fn word_kind(w: Seq<char>) -> SyntaxKind {
    match keyword_kind(w) {
        Some(k) => k,
        None => SyntaxKind::StringLiteral,
    }
}

/// The outcome of looking at one position of the source.
pub enum Scan {
    Emit(TokenView),
    Skip,
    Reject,
}

/// The dispatch on the character at `pos`, in priority order: symbol table
/// (with `==` as the one two-character symbol), digit run, letter run,
/// whitespace, anything else.
pub open spec fn scan_at(s: Seq<char>, pos: int, line: int, col: int) -> Scan {
    let c = s[pos];
    match symbol_kind(c) {
        Some(k) => if k == SyntaxKind::Equal && pos + 1 < s.len() && s[pos + 1] == '=' {
            Scan::Emit(token_at(SyntaxKind::EqualEqual, s.subrange(pos, pos + 2), line, col))
        } else {
            Scan::Emit(token_at(k, seq![c], line, col))
        },
        None => if is_digit(c) {
            Scan::Emit(
                token_at(
                    SyntaxKind::NumberLiteral,
                    s.subrange(pos, pos + run_len(s, pos, true)),
                    line,
                    col,
                ),
            )
        } else if is_letter(c) {
            let w = s.subrange(pos, pos + run_len(s, pos, false));
            Scan::Emit(token_at(word_kind(w), w, line, col))
        } else if white_space(c) {
            Scan::Skip
        } else {
            Scan::Reject
        },
    }
}

/// Prepends tokens already produced to the outcome of the rest of the scan.
pub open spec fn chain(done: Seq<TokenView>, r: Result<Seq<TokenView>, LexError>) -> Result<
    Seq<TokenView>,
    LexError,
> {
    match r {
        Ok(ts) => Ok(done + ts),
        Err(e) => Err(e),
    }
}

/// The tokens of `s` from position `pos` on, when the scan stands at
/// `line` and `col` there. An emitted token always consumes at least one
/// character within the source; the test on its length only makes the
/// measure of the recursion evident.
pub open spec fn lex_from(s: Seq<char>, pos: int, line: int, col: int) -> Result<
    Seq<TokenView>,
    LexError,
>
    decreases s.len() - pos,
{
    if pos < 0 || pos >= s.len() {
        Ok(Seq::empty())
    } else {
        match scan_at(s, pos, line, col) {
            Scan::Emit(t) => if t.length <= 0 || pos + t.length > s.len() {
                Ok(Seq::empty())
            } else if t.kind == SyntaxKind::NewLine {
                chain(seq![t], lex_from(s, pos + t.length, line + 1, 1))
            } else {
                chain(seq![t], lex_from(s, pos + t.length, line, col + t.length))
            },
            Scan::Skip => lex_from(s, pos + 1, line, col + 1),
            Scan::Reject => Err(
                LexError::UnrecognizedCharacter(
                    s[pos],
                    Location { line: line as usize, column: col as usize },
                ),
            ),
        }
    }
}

/// The whole tokenization of a source text.
pub open spec fn tokenize_spec(s: Seq<char>) -> Result<Seq<TokenView>, LexError> {
    if s.len() == 0 {
        Err(LexError::EmptySource)
    } else {
        lex_from(s, 0, 1, 1)
    }
}

/// A character the scanner skips: whitespace other than a line break.
pub open spec fn blank(c: char) -> bool {
    white_space(c) && c != '\n'
}

/// The number of skipped characters in `s` from position `pos` on.
pub open spec fn blank_count_from(s: Seq<char>, pos: int) -> int
    decreases s.len() - pos,
{
    if pos < 0 || pos >= s.len() {
        0
    } else {
        (if blank(s[pos]) {
            1int
        } else {
            0int
        }) + blank_count_from(s, pos + 1)
    }
}

/// The sum of the consumed lengths of a token sequence.
pub open spec fn total_length(ts: Seq<TokenView>) -> int
    decreases ts.len(),
{
    if ts.len() == 0 {
        0
    } else {
        ts[0].length + total_length(ts.drop_first())
    }
}

proof fn lemma_run_in_class(s: Seq<char>, pos: int, digits: bool)
    requires
        0 <= pos <= s.len(),
    ensures
        pos + run_len(s, pos, digits) <= s.len(),
        forall|k: int| pos <= k < pos + run_len(s, pos, digits) ==> in_class(s[k], digits),
    decreases s.len() - pos,
{
    if pos < s.len() && in_class(s[pos], digits) {
        lemma_run_in_class(s, pos + 1, digits);
    }
}

proof fn lemma_blank_count_skip(s: Seq<char>, pos: int, n: int)
    requires
        0 <= pos,
        0 <= n,
        pos + n <= s.len(),
        forall|k: int| pos <= k < pos + n ==> !blank(#[trigger] s[k]),
    ensures
        blank_count_from(s, pos) == blank_count_from(s, pos + n),
    decreases n,
{
    if n > 0 {
        lemma_blank_count_skip(s, pos + 1, n - 1);
    }
}

/// An emitted token is non-empty, lies within the source, and holds no
/// skipped character.
proof fn lemma_emitted_token(s: Seq<char>, pos: int, line: int, col: int, t: TokenView)
    requires
        0 <= pos < s.len(),
        scan_at(s, pos, line, col) == Scan::Emit(t),
    ensures
        1 <= t.length,
        pos + t.length <= s.len(),
        forall|k: int| pos <= k < pos + t.length ==> !blank(#[trigger] s[k]),
{
    let c = s[pos];
    if symbol_kind(c) is None {
        if is_digit(c) {
            lemma_run_in_class(s, pos, true);
        } else {
            lemma_run_in_class(s, pos, false);
        }
    }
}

proof fn lemma_lengths_from(s: Seq<char>, pos: int, line: int, col: int)
    requires
        0 <= pos <= s.len(),
        lex_from(s, pos, line, col) is Ok,
    ensures
        total_length(lex_from(s, pos, line, col)->Ok_0) + blank_count_from(s, pos) == s.len() - pos,
    decreases s.len() - pos,
{
    if pos < s.len() {
        match scan_at(s, pos, line, col) {
            Scan::Emit(t) => {
                lemma_emitted_token(s, pos, line, col, t);
                let (nl, nc) = if t.kind == SyntaxKind::NewLine {
                    (line + 1, 1)
                } else {
                    (line, col + t.length)
                };
                lemma_lengths_from(s, pos + t.length, nl, nc);
                lemma_blank_count_skip(s, pos, t.length);
                let rest = lex_from(s, pos + t.length, nl, nc)->Ok_0;
                assert((seq![t] + rest).drop_first() =~= rest);
            },
            Scan::Skip => {
                lemma_lengths_from(s, pos + 1, line, col + 1);
            },
            Scan::Reject => {},
        }
    }
}

/// Every character of a source that tokenizes is accounted for: the
/// consumed lengths of the tokens plus the skipped whitespace characters
/// make up the length of the source.
pub proof fn lemma_token_lengths_cover_source(s: Seq<char>)
    requires
        tokenize_spec(s) is Ok,
    ensures
        total_length(tokenize_spec(s)->Ok_0) + blank_count_from(s, 0) == s.len(),
{
    lemma_lengths_from(s, 0, 1, 1);
}

proof fn lemma_blank_from(s: Seq<char>, pos: int, line: int, col: int)
    requires
        0 <= pos <= s.len(),
        forall|i: int| 0 <= i < s.len() ==> blank(#[trigger] s[i]),
    ensures
        lex_from(s, pos, line, col) == Ok::<Seq<TokenView>, LexError>(Seq::empty()),
    decreases s.len() - pos,
{
    if pos < s.len() {
        assert(blank(s[pos]));
        lemma_blank_from(s, pos + 1, line, col + 1);
    }
}

/// A non-empty source made only of whitespace other than line breaks
/// yields an empty token sequence.
pub proof fn lemma_blank_source_has_no_tokens(s: Seq<char>)
    requires
        s.len() > 0,
        forall|i: int| 0 <= i < s.len() ==> blank(#[trigger] s[i]),
    ensures
        tokenize_spec(s) == Ok::<Seq<TokenView>, LexError>(Seq::empty()),
{
    lemma_blank_from(s, 0, 1, 1);
}

/// Why a source text could not be tokenized.
#[derive(Debug, Clone, Copy, PartialEq, Eq, Structural)]
pub enum LexError {
    EmptySource,
    UnrecognizedCharacter(char, Location),
}

/// One token: its kind, verbatim text, start position and consumed length.
#[derive(Debug, Clone)]
pub struct LexerToken {
    pub kind: SyntaxKind,
    pub data: String,
    pub location: Location,
    pub length: usize,
}

impl View for LexerToken {
    type V = TokenView;

    open spec fn view(&self) -> TokenView {
        TokenView {
            kind: self.kind,
            text: self.data@,
            line: self.location.line as int,
            column: self.location.column as int,
            length: self.length as int,
        }
    }
}

/// The values of a queue of tokens, in order.
pub open spec fn tokens_view(q: VecDeque<LexerToken>) -> Seq<TokenView> {
    q@.map_values(|t: LexerToken| t@)
}

/// The value of the outcome of `tokenize`.
pub open spec fn tokenize_result_view(r: Result<VecDeque<LexerToken>, LexError>) -> Result<
    Seq<TokenView>,
    LexError,
> {
    match r {
        Ok(q) => Ok(tokens_view(q)),
        Err(e) => Err(e),
    }
}

/// Whether `c` has Unicode's White_Space property.
fn is_whitespace(c: char) -> (r: bool)
    ensures
        r == white_space(c),
{
    ('\u{9}' <= c && c <= '\u{d}') || c == ' ' || c == '\u{85}' || c == '\u{a0}' || c
        == '\u{1680}' || ('\u{2000}' <= c && c <= '\u{200a}') || c == '\u{2028}' || c
        == '\u{2029}' || c == '\u{202f}' || c == '\u{205f}' || c == '\u{3000}'
}

/// Relies on `regex::Regex::new` and `regex::Regex::is_match`: the class
/// patterns `[0-9]` and `[a-zA-Z]` compile, and a one-character haystack
/// matches such a class exactly when its character lies in one of its ranges.
#[verifier::external_body]
fn class_matches(pattern: &str, c: char) -> (r: bool)
    ensures
        pattern@ == "[0-9]"@ ==> (r == is_digit(c)),
        pattern@ == "[a-zA-Z]"@ ==> (r == is_letter(c)),
{
    match regex::Regex::new(pattern) {
        Ok(re) => re.is_match(&c.to_string()),
        Err(_) => false,
    }
}

/// Relies on `String`'s `FromIterator<&char>`: the characters are collected
/// in order.
#[verifier::external_body]
fn string_from_chars(cs: &[char]) -> (r: String)
    ensures
        r@ == cs@,
{
    cs.iter().collect()
}

/// Tests a character against a run class with the class's pattern.
fn char_in_class(c: char, digits: bool) -> (r: bool)
    ensures
        r == in_class(c, digits),
{
    if digits {
        class_matches("[0-9]", c)
    } else {
        class_matches("[a-zA-Z]", c)
    }
}

proof fn lemma_chain_push(a: Seq<TokenView>, t: TokenView, r: Result<Seq<TokenView>, LexError>)
    ensures
        chain(a.push(t), r) == chain(a, chain(seq![t], r)),
{
    if let Ok(ts) = r {
        assert(a.push(t) + ts =~= a + (seq![t] + ts));
    }
}

proof fn lemma_tokens_view_push(q: VecDeque<LexerToken>, t: LexerToken, q2: VecDeque<LexerToken>)
    requires
        q2@ == q@.push(t),
    ensures
        tokens_view(q2) == tokens_view(q).push(t@),
{
    assert(tokens_view(q2) =~= tokens_view(q).push(t@));
}

/// A single-pass scanner over a source text.
pub struct Lexer {
    pub file: Vec<char>,
    pub tokens: VecDeque<LexerToken>,
    idx: usize,
    current_location: Location,
    current_line: usize,
    current_column: usize,
}

impl Lexer {
    /// The scanner's state is consistent: its cursor, line and column
    /// counters stay within what the characters read so far allow.
    pub closed spec fn wf(&self) -> bool {
        &&& self.file@.len() < usize::MAX
        &&& self.idx <= self.file@.len()
        &&& 1 <= self.current_line <= self.idx + 1
        &&& 1 <= self.current_column <= self.idx + 1
    }

    /// The characters of the source.
    pub closed spec fn source(&self) -> Seq<char> {
        self.file@
    }

    /// The tokens produced so far, in order.
    pub closed spec fn queued(&self) -> Seq<TokenView> {
        tokens_view(self.tokens)
    }

    /// The position of the cursor.
    pub closed spec fn cursor(&self) -> int {
        self.idx as int
    }

    /// The line the cursor stands on.
    pub closed spec fn cursor_line(&self) -> int {
        self.current_line as int
    }

    /// The column the cursor stands on.
    pub closed spec fn cursor_column(&self) -> int {
        self.current_column as int
    }

    /// What is left to scan, from the cursor on.
    pub closed spec fn remaining(&self) -> Result<Seq<TokenView>, LexError> {
        lex_from(self.file@, self.cursor(), self.cursor_line(), self.cursor_column())
    }

    /// Takes a snapshot of the source; an empty source is refused.
    pub fn new(file_data: &str) -> (r: Result<Lexer, LexError>)
        requires
            file_data@.len() < usize::MAX,
        ensures
            match r {
                Ok(l) => {
                    &&& file_data@.len() > 0
                    &&& l.wf()
                    &&& l.source() == file_data@
                    &&& l.queued() == Seq::<TokenView>::empty()
                    &&& l.cursor() == 0
                    &&& l.cursor_line() == 1
                    &&& l.cursor_column() == 1
                    &&& l.remaining() == lex_from(file_data@, 0, 1, 1)
                },
                Err(e) => file_data@.len() == 0 && e == LexError::EmptySource,
            },
    {
        let n = file_data.unicode_len();
        if n == 0 {
            return Err(LexError::EmptySource);
        }
        let mut file: Vec<char> = Vec::new();
        let mut i: usize = 0;
        while i < n
            invariant
                n == file_data@.len(),
                i <= n,
                file@ == file_data@.subrange(0, i as int),
            decreases n - i,
        {
            file.push(file_data.get_char(i));
            i = i + 1;
            assert(file@ =~= file_data@.subrange(0, i as int));
        }
        assert(file@ =~= file_data@);
        Ok(
            Lexer {
                file,
                tokens: VecDeque::new(),
                idx: 0,
                current_location: Location::new(1, 1),
                current_line: 1,
                current_column: 1,
            },
        )
    }

    /// The character `offset` places past the cursor, or `'\0'` past the end.
    fn peek(&self, offset: usize) -> (r: char)
        requires
            self.wf(),
        ensures
            self.idx + offset < self.file@.len() ==> r == self.file@[self.idx + offset],
            self.idx + offset >= self.file@.len() ==> r == '\0',
    {
        if offset < self.file.len() - self.idx {
            self.file[self.idx + offset]
        } else {
            '\0'
        }
    }

    fn current(&self) -> (r: char)
        requires
            self.wf(),
        ensures
            self.idx < self.file@.len() ==> r == self.file@[self.idx as int],
    {
        self.peek(0)
    }

    /// Advances the cursor over the maximal run of one character class and
    /// returns the run's text.
    fn read_while_match(&mut self, digits: bool) -> (r: String)
        requires
            old(self).wf(),
        ensures
            final(self).file == old(self).file,
            final(self).tokens == old(self).tokens,
            final(self).current_location == old(self).current_location,
            final(self).current_line == old(self).current_line,
            final(self).current_column == old(self).current_column,
            final(self).idx == old(self).idx + run_len(old(self).file@, old(self).idx as int, digits),
            final(self).idx <= final(self).file@.len(),
            r@ == old(self).file@.subrange(old(self).idx as int, final(self).idx as int),
    {
        let start = self.idx;
        let mut i: usize = self.idx;
        while i < self.file.len() && char_in_class(self.file[i], digits)
            invariant
                start <= i <= self.file@.len(),
                start + run_len(self.file@, start as int, digits) == i + run_len(
                    self.file@,
                    i as int,
                    digits,
                ),
            decreases self.file@.len() - i,
        {
            i = i + 1;
        }
        self.idx = i;
        string_from_chars(slice_subrange(self.file.as_slice(), start, i))
    }

    /// Reads a run of digits as a number literal.
    fn read_numbers(&mut self) -> (r: LexerToken)
        requires
            old(self).wf(),
            old(self).idx < old(self).file@.len(),
            is_digit(old(self).file@[old(self).idx as int]),
        ensures
            final(self).wf(),
            final(self).file == old(self).file,
            final(self).tokens == old(self).tokens,
            final(self).current_location == old(self).current_location,
            ({
                let n = run_len(old(self).file@, old(self).idx as int, true);
                &&& n >= 1
                &&& final(self).idx == old(self).idx + n
                &&& final(self).current_line == old(self).current_line
                &&& final(self).current_column == old(self).current_column + n
                &&& r@ == token_at(
                    SyntaxKind::NumberLiteral,
                    old(self).file@.subrange(old(self).idx as int, old(self).idx + n),
                    old(self).current_location.line as int,
                    old(self).current_location.column as int,
                )
            }),
    {
        let start = self.idx;
        let st = self.read_while_match(true);
        let len = self.idx - start;
        let result = LexerToken {
            kind: SyntaxKind::NumberLiteral,
            data: st,
            location: self.current_location,
            length: len,
        };
        self.current_column = self.current_column + len;
        result
    }

    /// Reads a run of letters as a keyword or an identifier.
    fn read_chars(&mut self) -> (r: LexerToken)
        requires
            old(self).wf(),
            old(self).idx < old(self).file@.len(),
            is_letter(old(self).file@[old(self).idx as int]),
        ensures
            final(self).wf(),
            final(self).file == old(self).file,
            final(self).tokens == old(self).tokens,
            final(self).current_location == old(self).current_location,
            ({
                let n = run_len(old(self).file@, old(self).idx as int, false);
                let w = old(self).file@.subrange(old(self).idx as int, old(self).idx + n);
                &&& n >= 1
                &&& final(self).idx == old(self).idx + n
                &&& final(self).current_line == old(self).current_line
                &&& final(self).current_column == old(self).current_column + n
                &&& r@ == token_at(
                    word_kind(w),
                    w,
                    old(self).current_location.line as int,
                    old(self).current_location.column as int,
                )
            }),
    {
        let start = self.idx;
        let st = self.read_while_match(false);
        let len = self.idx - start;
        let kind = match SyntaxKind::from_chars(slice_subrange(self.file.as_slice(), start, self.idx)) {
            Some(k) => k,
            None => SyntaxKind::StringLiteral,
        };
        let result = LexerToken { kind, data: st, location: self.current_location, length: len };
        self.current_column = self.current_column + len;
        result
    }

    /// Scans at the cursor: emits a token, skips a whitespace character, or
    /// rejects the character.
    fn parse_char(&mut self, c: char) -> (r: Result<Option<LexerToken>, LexError>)
        requires
            old(self).wf(),
            old(self).idx < old(self).file@.len(),
            c == old(self).file@[old(self).idx as int],
            old(self).current_location == (Location {
                line: old(self).current_line,
                column: old(self).current_column,
            }),
        ensures
            final(self).wf(),
            final(self).file == old(self).file,
            final(self).tokens == old(self).tokens,
            ({
                let s = old(self).file@;
                let i = old(self).idx as int;
                let l = old(self).current_line as int;
                let col = old(self).current_column as int;
                match r {
                    Ok(Some(tok)) => {
                        &&& scan_at(s, i, l, col) == Scan::Emit(tok@)
                        &&& tok@.length >= 1
                        &&& final(self).idx == i + tok@.length
                        &&& tok@.kind == SyntaxKind::NewLine ==> final(self).current_line == l + 1
                            && final(self).current_column == 1
                        &&& tok@.kind != SyntaxKind::NewLine ==> final(self).current_line == l
                            && final(self).current_column == col + tok@.length
                    },
                    Ok(None) => {
                        &&& scan_at(s, i, l, col) == Scan::Skip
                        &&& final(self).idx == i + 1
                        &&& final(self).current_line == l
                        &&& final(self).current_column == col + 1
                    },
                    Err(e) => {
                        &&& scan_at(s, i, l, col) == Scan::Reject
                        &&& e == LexError::UnrecognizedCharacter(
                            c,
                            Location { line: l as usize, column: col as usize },
                        )
                    },
                }
            }),
    {
        match SyntaxKind::from_char(c) {
            Some(k) => {
                let start = self.idx;
                let col = self.current_column;
                if k == SyntaxKind::Equal && self.peek(1) == '=' {
                    self.idx = start + 2;
                    self.current_column = col + 2;
                    let data = string_from_chars(slice_subrange(self.file.as_slice(), start, start + 2));
                    Ok(
                        Some(
                            LexerToken {
                                kind: SyntaxKind::EqualEqual,
                                data,
                                location: self.current_location,
                                length: 2,
                            },
                        ),
                    )
                } else {
                    self.idx = start + 1;
                    if k == SyntaxKind::NewLine {
                        self.current_line = self.current_line + 1;
                        self.current_column = 1;
                    } else {
                        self.current_column = col + 1;
                    }
                    let data = string_from_chars(slice_subrange(self.file.as_slice(), start, start + 1));
                    assert(data@ =~= seq![c]);
                    Ok(Some(LexerToken { kind: k, data, location: self.current_location, length: 1 }))
                }
            },
            None => {
                if char_in_class(c, true) {
                    Ok(Some(self.read_numbers()))
                } else if char_in_class(c, false) {
                    Ok(Some(self.read_chars()))
                } else if is_whitespace(c) {
                    self.idx = self.idx + 1;
                    self.current_column = self.current_column + 1;
                    Ok(None)
                } else {
                    Err(LexError::UnrecognizedCharacter(c, self.current_location))
                }
            },
        }
    }

    /// Scans from the cursor to the end of the source, appending each token
    /// to the queue; stops at the first character that no rule accepts.
    pub fn lex(&mut self) -> (r: Result<(), LexError>)
        requires
            old(self).wf(),
        ensures
            final(self).wf(),
            final(self).source() == old(self).source(),
            match old(self).remaining() {
                Ok(ts) => r is Ok && final(self).queued() == old(self).queued() + ts,
                Err(e) => r == Err::<(), LexError>(e),
            },
    {
        while self.idx < self.file.len()
            invariant
                self.wf(),
                self.file@ == old(self).file@,
                chain(self.queued(), self.remaining()) == chain(
                    old(self).queued(),
                    old(self).remaining(),
                ),
            decreases self.file@.len() - self.idx,
        {
            let cur = self.current();
            self.current_location.set_line_and_column(self.current_line, self.current_column);
            let ghost q0 = self.tokens;
            match self.parse_char(cur) {
                Ok(Some(t)) => {
                    proof {
                        lemma_chain_push(tokens_view(q0), t@, self.remaining());
                    }
                    self.tokens.push_back(t);
                    proof {
                        lemma_tokens_view_push(q0, t, self.tokens);
                    }
                },
                Ok(None) => {},
                Err(e) => {
                    return Err(e);
                },
            }
        }
        assert(self.queued() + Seq::<TokenView>::empty() =~= self.queued());
        Ok(())
    }
}

/// Turns a source text into its token sequence, in source order.
pub fn tokenize(source: &str) -> (r: Result<VecDeque<LexerToken>, LexError>)
    requires
        source@.len() < usize::MAX,
    ensures
        tokenize_result_view(r) == tokenize_spec(source@),
{
    match Lexer::new(source) {
        Ok(mut lexer) => {
            match lexer.lex() {
                Ok(()) => {
                    assert(lexer.queued() =~= Seq::<TokenView>::empty() + lexer.queued());
                    Ok(lexer.tokens)
                },
                Err(e) => Err(e),
            }
        },
        Err(e) => Err(e),
    }
}

} // verus!
