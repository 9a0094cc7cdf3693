use crate::lexer::LexerToken;
use crate::syntax_token::{type_keyword, SyntaxKind};
use std::collections::VecDeque;
use vstd::prelude::*;

verus! {

broadcast use {vstd::seq::group_seq_axioms, vstd::std_specs::vec::group_vec_axioms};

/// What a statement is, as values: the tokens it owns and its nested
/// statements.
pub enum Node {
    Function {
        func_type: LexerToken,
        identifier: LexerToken,
        open_paren: LexerToken,
        parameters: Seq<LexerToken>,
        close_paren: LexerToken,
        body: BlockNode,
    },
    Block(BlockNode),
    Return { return_kw: LexerToken, value: LexerToken, semicolon: LexerToken },
}

/// What a braced block is, as values.
pub struct BlockNode {
    pub open_curly: LexerToken,
    pub statements: Seq<Node>,
    pub close_curly: LexerToken,
}

/// Why a token sequence could not be parsed.
#[derive(Debug, Clone)]
pub enum ParseError {
    UnexpectedToken { expected: SyntaxKind, found: LexerToken },
    UnexpectedEndOfInput,
    UnsupportedConstruct(LexerToken),
}

/// The token at `pos` when it has kind `kind`.
pub open spec fn expect_at(ts: Seq<LexerToken>, pos: int, kind: SyntaxKind) -> Result<
    LexerToken,
    ParseError,
> {
    if pos < 0 || pos >= ts.len() {
        Err(ParseError::UnexpectedEndOfInput)
    } else if ts[pos].kind == kind {
        Ok(ts[pos])
    } else {
        Err(ParseError::UnexpectedToken { expected: kind, found: ts[pos] })
    }
}

/// The parameter list from `pos` up to (not including) the closing
/// parenthesis: only `void` keywords are accepted.
pub open spec fn params_at(ts: Seq<LexerToken>, pos: int) -> Result<Seq<LexerToken>, ParseError>
    decreases ts.len() - pos,
{
    if pos < 0 || pos >= ts.len() {
        Err(ParseError::UnexpectedEndOfInput)
    } else if ts[pos].kind == SyntaxKind::CloseParen {
        Ok(Seq::empty())
    } else if ts[pos].kind == SyntaxKind::VoidKeyword {
        match params_at(ts, pos + 1) {
            Ok(ps) => Ok(seq![ts[pos]] + ps),
            Err(e) => Err(e),
        }
    } else {
        Err(ParseError::UnexpectedToken { expected: SyntaxKind::VoidKeyword, found: ts[pos] })
    }
}

/// `'return' AnyToken ';'` at `pos`, with the position after it.
pub open spec fn return_at(ts: Seq<LexerToken>, pos: int) -> Result<(Node, int), ParseError> {
    match expect_at(ts, pos, SyntaxKind::ReturnKeyword) {
        Err(e) => Err(e),
        Ok(return_kw) => if pos + 1 >= ts.len() {
            Err(ParseError::UnexpectedEndOfInput)
        } else {
            match expect_at(ts, pos + 2, SyntaxKind::Semicolon) {
                Err(e) => Err(e),
                Ok(semicolon) => Ok(
                    (Node::Return { return_kw, value: ts[pos + 1], semicolon }, pos + 3),
                ),
            }
        },
    }
}

/// One statement at `pos`, with the position after it: a definition when
/// the current token names a type, a return statement when it is `return`.
pub open spec fn statement_at(ts: Seq<LexerToken>, pos: int) -> Result<(Node, int), ParseError>
    decreases ts.len() - pos, 2int,
{
    if pos < 0 || pos >= ts.len() {
        Err(ParseError::UnexpectedEndOfInput)
    } else if type_keyword(ts[pos].kind) {
        function_at(ts, pos)
    } else if ts[pos].kind == SyntaxKind::ReturnKeyword {
        return_at(ts, pos)
    } else {
        Err(ParseError::UnsupportedConstruct(ts[pos]))
    }
}

/// `TypeKeyword Identifier '(' void* ')' Body` at `pos`, with the position
/// after it.
pub open spec fn function_at(ts: Seq<LexerToken>, pos: int) -> Result<(Node, int), ParseError>
    decreases ts.len() - pos, 1int,
{
    if pos < 0 || pos >= ts.len() {
        Err(ParseError::UnexpectedEndOfInput)
    } else {
        match expect_at(ts, pos + 1, SyntaxKind::StringLiteral) {
            Err(e) => Err(e),
            Ok(identifier) => match expect_at(ts, pos + 2, SyntaxKind::OpenParen) {
                Err(e) => Err(e),
                Ok(open_paren) => match params_at(ts, pos + 3) {
                    Err(e) => Err(e),
                    Ok(parameters) => {
                        let p = pos + 3 + parameters.len();
                        match expect_at(ts, p, SyntaxKind::CloseParen) {
                            Err(e) => Err(e),
                            Ok(close_paren) => match body_at(ts, p + 1) {
                                Err(e) => Err(e),
                                Ok((body, q)) => Ok(
                                    (
                                        Node::Function {
                                            func_type: ts[pos],
                                            identifier,
                                            open_paren,
                                            parameters,
                                            close_paren,
                                            body,
                                        },
                                        q,
                                    ),
                                ),
                            },
                        }
                    },
                },
            },
        }
    }
}

/// `'{' Statement* '}'` at `pos`, with the position after it.
pub open spec fn body_at(ts: Seq<LexerToken>, pos: int) -> Result<(BlockNode, int), ParseError>
    decreases ts.len() - pos, 4int,
{
    match expect_at(ts, pos, SyntaxKind::OpenCurly) {
        Err(e) => Err(e),
        Ok(open_curly) => if pos < 0 {
            Err(ParseError::UnexpectedEndOfInput)
        } else {
            match items_at(ts, pos + 1) {
                Err(e) => Err(e),
                Ok((statements, p)) => match expect_at(ts, p, SyntaxKind::CloseCurly) {
                    Err(e) => Err(e),
                    Ok(close_curly) => Ok(
                        (BlockNode { open_curly, statements, close_curly }, p + 1),
                    ),
                },
            }
        },
    }
}

/// The statements of a block from `pos` up to its closing brace, with the
/// position of that brace. A parsed statement always lies after `pos`; the
/// test on its end only makes the measure of the recursion evident.
pub open spec fn items_at(ts: Seq<LexerToken>, pos: int) -> Result<(Seq<Node>, int), ParseError>
    decreases ts.len() - pos, 3int,
{
    if pos < 0 || pos >= ts.len() {
        Err(ParseError::UnexpectedEndOfInput)
    } else if ts[pos].kind == SyntaxKind::CloseCurly {
        Ok((Seq::empty(), pos))
    } else {
        match statement_at(ts, pos) {
            Err(e) => Err(e),
            Ok((n, p)) => if p <= pos || p > ts.len() {
                Err(ParseError::UnexpectedEndOfInput)
            } else {
                match items_at(ts, p) {
                    Err(e) => Err(e),
                    Ok((ns, q)) => Ok((seq![n] + ns, q)),
                }
            },
        }
    }
}

/// The top-level statements from `pos` to the end of the tokens. As in
/// `items_at`, the test on a statement's end only makes the measure evident.
pub open spec fn program_at(ts: Seq<LexerToken>, pos: int) -> Result<Seq<Node>, ParseError>
    decreases ts.len() - pos,
{
    if pos < 0 || pos >= ts.len() {
        Ok(Seq::empty())
    } else {
        match statement_at(ts, pos) {
            Err(e) => Err(e),
            Ok((n, p)) => if p <= pos {
                Err(ParseError::UnexpectedEndOfInput)
            } else {
                match program_at(ts, p) {
                    Err(e) => Err(e),
                    Ok(ns) => Ok(seq![n] + ns),
                }
            },
        }
    }
}

/// The program that a whole token sequence parses to.
pub open spec fn parse_spec(ts: Seq<LexerToken>) -> Result<Seq<Node>, ParseError> {
    program_at(ts, 0)
}

/// A block whose closing brace follows its opening brace directly parses
/// to an empty statement sequence.
pub proof fn lemma_empty_body(ts: Seq<LexerToken>, pos: int)
    requires
        0 <= pos,
        pos + 1 < ts.len(),
        ts[pos].kind == SyntaxKind::OpenCurly,
        ts[pos + 1].kind == SyntaxKind::CloseCurly,
    ensures
        body_at(ts, pos) == Ok::<(BlockNode, int), ParseError>(
            (BlockNode { open_curly: ts[pos], statements: Seq::empty(), close_curly: ts[pos + 1] }, pos + 2),
        ),
{
    assert(Seq::<Node>::empty() + Seq::<Node>::empty() =~= Seq::<Node>::empty());
}

/// A function definition; it owns every token it was parsed from.
#[derive(Debug)]
pub struct FunctionStatement {
    pub func_type: LexerToken,
    pub identifier: LexerToken,
    pub open_paren: LexerToken,
    pub parameters: Vec<LexerToken>,
    pub close_paren: LexerToken,
    pub func_body: Body,
}

/// A braced block of statements.
#[derive(Debug)]
pub struct Body {
    pub open_curly: LexerToken,
    pub statements: Vec<Statement>,
    pub close_curly: LexerToken,
}

/// `return <value>;`
#[derive(Debug)]
pub struct ReturnExpr {
    pub return_kw: LexerToken,
    pub value: LexerToken,
    pub semicolon: LexerToken,
}

/// The closed set of statement kinds; a clone is a deep copy.
#[derive(Debug)]
pub enum Statement {
    Function(FunctionStatement),
    Body(Body),
    Return(ReturnExpr),
}

/// The top-level statements of a source, in source order.
#[derive(Debug)]
pub struct Program {
    pub statements: Vec<Statement>,
}

/// The capability shared by every statement kind; it has no operations yet.
pub trait Expression {
}

impl Expression for Statement {
}

impl Expression for FunctionStatement {
}

impl Expression for Body {
}

impl Expression for ReturnExpr {
}

/// The value a statement stands for.
pub open spec fn node_of(s: Statement) -> Node
    decreases s,
{
    match s {
        Statement::Function(f) => Node::Function {
            func_type: f.func_type,
            identifier: f.identifier,
            open_paren: f.open_paren,
            parameters: f.parameters@,
            close_paren: f.close_paren,
            body: block_of(f.func_body),
        },
        Statement::Body(b) => Node::Block(block_of(b)),
        Statement::Return(r) => Node::Return {
            return_kw: r.return_kw,
            value: r.value,
            semicolon: r.semicolon,
        },
    }
}

/// The value a block stands for.
pub open spec fn block_of(b: Body) -> BlockNode
    decreases b,
{
    BlockNode {
        open_curly: b.open_curly,
        statements: nodes_of(b.statements@),
        close_curly: b.close_curly,
    }
}

/// The values a sequence of statements stands for, in order.
pub open spec fn nodes_of(v: Seq<Statement>) -> Seq<Node>
    decreases v,
{
    if v.len() == 0 {
        Seq::empty()
    } else {
        nodes_of(v.subrange(0, v.len() - 1)).push(node_of(v[v.len() - 1]))
    }
}

/// A deep copy of a token.
fn copy_token(t: &LexerToken) -> (r: LexerToken)
    ensures
        r == *t,
{
    LexerToken { kind: t.kind, data: t.data.clone(), location: t.location, length: t.length }
}

fn copy_tokens(v: &Vec<LexerToken>) -> (r: Vec<LexerToken>)
    ensures
        r@ == v@,
{
    let mut r: Vec<LexerToken> = Vec::new();
    let mut i: usize = 0;
    while i < v.len()
        invariant
            i <= v@.len(),
            r@ == v@.subrange(0, i as int),
        decreases v@.len() - i,
    {
        r.push(copy_token(&v[i]));
        i = i + 1;
        assert(r@ =~= v@.subrange(0, i as int));
    }
    assert(v@.subrange(0, v@.len() as int) =~= v@);
    r
}

/// A deep copy of a statement: new tokens and new nested statements, equal
/// in structure to `s`.
fn copy_statement(s: &Statement) -> (r: Statement)
    ensures
        node_of(r) == node_of(*s),
    decreases *s,
{
    match s {
        Statement::Function(f) => Statement::Function(
            FunctionStatement {
                func_type: copy_token(&f.func_type),
                identifier: copy_token(&f.identifier),
                open_paren: copy_token(&f.open_paren),
                parameters: copy_tokens(&f.parameters),
                close_paren: copy_token(&f.close_paren),
                func_body: copy_body(&f.func_body),
            },
        ),
        Statement::Body(b) => Statement::Body(copy_body(b)),
        Statement::Return(x) => Statement::Return(
            ReturnExpr {
                return_kw: copy_token(&x.return_kw),
                value: copy_token(&x.value),
                semicolon: copy_token(&x.semicolon),
            },
        ),
    }
}

fn copy_statements(v: &Vec<Statement>) -> (r: Vec<Statement>)
    ensures
        nodes_of(r@) == nodes_of(v@),
    decreases *v,
{
    let mut r: Vec<Statement> = Vec::new();
    let mut i: usize = 0;
    while i < v.len()
        invariant
            i <= v@.len(),
            r@.len() == i,
            nodes_of(r@) == nodes_of(v@.subrange(0, i as int)),
        decreases v@.len() - i,
    {
        assert(decreases_to!(*v => v@[i as int]));
        let s = copy_statement(&v[i]);
        proof {
            lemma_nodes_push(r@, s);
            lemma_nodes_push(v@.subrange(0, i as int), v@[i as int]);
            assert(v@.subrange(0, i as int).push(v@[i as int]) =~= v@.subrange(0, i + 1));
        }
        r.push(s);
        i = i + 1;
    }
    assert(v@.subrange(0, v@.len() as int) =~= v@);
    r
}

fn copy_body(b: &Body) -> (r: Body)
    ensures
        block_of(r) == block_of(*b),
    decreases *b,
{
    Body {
        open_curly: copy_token(&b.open_curly),
        statements: copy_statements(&b.statements),
        close_curly: copy_token(&b.close_curly),
    }
}

impl Clone for Statement {
    /// A deep copy, equal in structure to `self`.
    fn clone(&self) -> (r: Self)
        ensures
            node_of(r) == node_of(*self),
    {
        copy_statement(self)
    }
}

impl Clone for Body {
    /// A deep copy, equal in structure to `self`.
    fn clone(&self) -> (r: Self)
        ensures
            block_of(r) == block_of(*self),
    {
        copy_body(self)
    }
}

impl Clone for FunctionStatement {
    /// A deep copy, equal in structure to `self`.
    fn clone(&self) -> (r: Self)
        ensures
            node_of(Statement::Function(r)) == node_of(Statement::Function(*self)),
    {
        FunctionStatement {
            func_type: copy_token(&self.func_type),
            identifier: copy_token(&self.identifier),
            open_paren: copy_token(&self.open_paren),
            parameters: copy_tokens(&self.parameters),
            close_paren: copy_token(&self.close_paren),
            func_body: copy_body(&self.func_body),
        }
    }
}

impl Clone for ReturnExpr {
    /// A deep copy, equal in structure to `self`.
    fn clone(&self) -> (r: Self)
        ensures
            node_of(Statement::Return(r)) == node_of(Statement::Return(*self)),
    {
        ReturnExpr {
            return_kw: copy_token(&self.return_kw),
            value: copy_token(&self.value),
            semicolon: copy_token(&self.semicolon),
        }
    }
}

impl Program {
    /// A deep copy of the program, equal in structure to it and sharing
    /// nothing with it.
    pub fn deep_clone(&self) -> (r: Program)
        ensures
            nodes_of(r.statements@) == nodes_of(self.statements@),
    {
        Program { statements: copy_statements(&self.statements) }
    }
}

impl Clone for Program {
    /// A deep copy, equal in structure to `self`.
    fn clone(&self) -> (r: Self)
        ensures
            nodes_of(r.statements@) == nodes_of(self.statements@),
    {
        self.deep_clone()
    }
}

impl Statement {
    /// The expressions nested directly in this statement; no statement kind
    /// has any yet.
    pub fn get_expressions(&self) -> (r: Option<Vec<Statement>>)
        ensures
            r is None,
    {
        None
    }
}

impl Body {
    pub fn new(
        open_curl: LexerToken,
        incoming_statements: Vec<Statement>,
        close_curl: LexerToken,
    ) -> (r: Body)
        ensures
            r.open_curly == open_curl,
            r.statements == incoming_statements,
            r.close_curly == close_curl,
    {
        Body { open_curly: open_curl, statements: incoming_statements, close_curly: close_curl }
    }
}

/// Prepends parameters already read to the outcome of the rest of the list.
pub open spec fn chain_params(
    done: Seq<LexerToken>,
    r: Result<Seq<LexerToken>, ParseError>,
) -> Result<Seq<LexerToken>, ParseError> {
    match r {
        Ok(ps) => Ok(done + ps),
        Err(e) => Err(e),
    }
}

/// Prepends statements already read to the outcome of the rest of a block.
pub open spec fn chain_items(
    done: Seq<Node>,
    r: Result<(Seq<Node>, int), ParseError>,
) -> Result<(Seq<Node>, int), ParseError> {
    match r {
        Ok((ns, p)) => Ok((done + ns, p)),
        Err(e) => Err(e),
    }
}

/// Prepends statements already read to the outcome of the rest of a program.
pub open spec fn chain_program(
    done: Seq<Node>,
    r: Result<Seq<Node>, ParseError>,
) -> Result<Seq<Node>, ParseError> {
    match r {
        Ok(ns) => Ok(done + ns),
        Err(e) => Err(e),
    }
}

proof fn lemma_nodes_push(v: Seq<Statement>, s: Statement)
    ensures
        nodes_of(v.push(s)) == nodes_of(v).push(node_of(s)),
{
    assert(v.push(s).subrange(0, v.len() as int) =~= v);
}

/// A single-lookahead parser: the current token, and the queue of the
/// tokens after it.
pub struct Parser {
    current: Option<LexerToken>,
    lexer_tokens: VecDeque<LexerToken>,
    all: Ghost<Seq<LexerToken>>,
}

impl Parser {
    /// The whole token sequence the parser was made from.
    pub closed spec fn tokens(&self) -> Seq<LexerToken> {
        self.all@
    }

    /// The tokens not yet consumed, the current one first.
    pub closed spec fn rest(&self) -> Seq<LexerToken> {
        match self.current {
            Some(t) => seq![t] + self.lexer_tokens@,
            None => self.lexer_tokens@,
        }
    }

    /// How many tokens have been consumed.
    pub closed spec fn pos(&self) -> int {
        self.all@.len() - self.rest().len()
    }

    /// The unconsumed tokens are the tail of the whole sequence, and a
    /// parser with no current token has nothing queued.
    pub closed spec fn wf(&self) -> bool {
        &&& self.current is None ==> self.lexer_tokens@.len() == 0
        &&& self.rest().len() <= self.all@.len()
        &&& self.rest() == self.all@.subrange(self.pos(), self.all@.len() as int)
    }

    /// Takes ownership of the token sequence; the first token becomes the
    /// current one.
    pub fn new(lexed_tokens: VecDeque<LexerToken>) -> (r: Parser)
        ensures
            r.wf(),
            r.tokens() == lexed_tokens@,
            r.pos() == 0,
            0 <= r.pos() <= r.tokens().len(),
    {
        let ghost all = lexed_tokens@;
        let mut lexer_tokens = lexed_tokens;
        let current = lexer_tokens.pop_front();
        let r = Parser { current, lexer_tokens, all: Ghost(all) };
        proof {
            if r.current is Some {
                assert(r.rest() =~= all);
            }
            assert(all.subrange(0, all.len() as int) =~= all);
        }
        r
    }

    /// The kind of the current token, if any is left.
    fn current_kind(&self) -> (r: Option<SyntaxKind>)
        requires
            self.wf(),
        ensures
            self.pos() < self.tokens().len() ==> r == Some(self.tokens()[self.pos()].kind),
            self.pos() >= self.tokens().len() ==> r is None,
    {
        match &self.current {
            Some(t) => {
                assert(self.rest()[0] == self.tokens()[self.pos()]);
                Some(t.kind)
            },
            None => None,
        }
    }

    /// Takes the current token and makes the next one current.
    fn eat_current_token(&mut self) -> (r: Option<LexerToken>)
        requires
            old(self).wf(),
        ensures
            final(self).wf(),
            final(self).tokens() == old(self).tokens(),
            old(self).pos() < old(self).tokens().len() ==> r == Some(
                old(self).tokens()[old(self).pos()],
            ) && final(self).pos() == old(self).pos() + 1,
            old(self).pos() >= old(self).tokens().len() ==> r is None && final(self).pos()
                == old(self).pos(),
    {
        let ghost rest0 = self.rest();
        let t = self.current.take();
        self.current = self.lexer_tokens.pop_front();
        proof {
            if t is Some {
                assert(rest0[0] == t->Some_0);
                assert(self.rest() =~= rest0.subrange(1, rest0.len() as int));
            }
            assert(self.rest() =~= self.all@.subrange(self.pos(), self.all@.len() as int));
        }
        t
    }

    /// Consumes the current token when its kind is `expected`; tells
    /// whether it did.
    pub fn expect(&mut self, expected: SyntaxKind) -> (r: bool)
        requires
            old(self).wf(),
        ensures
            final(self).wf(),
            final(self).tokens() == old(self).tokens(),
            0 <= final(self).pos() <= final(self).tokens().len(),
            r == expect_at(old(self).tokens(), old(self).pos(), expected) is Ok,
            r ==> final(self).pos() == old(self).pos() + 1,
            !r ==> final(self).pos() == old(self).pos(),
    {
        match self.current_kind() {
            Some(k) => if k == expected {
                let _ = self.eat_current_token();
                true
            } else {
                false
            },
            None => false,
        }
    }

    /// Takes the current token when its kind is `expected`, else reports
    /// what was found.
    fn take_expected(&mut self, expected: SyntaxKind) -> (r: Result<LexerToken, ParseError>)
        requires
            old(self).wf(),
        ensures
            final(self).wf(),
            final(self).tokens() == old(self).tokens(),
            r == expect_at(old(self).tokens(), old(self).pos(), expected),
            r is Ok ==> final(self).pos() == old(self).pos() + 1,
    {
        match self.current_kind() {
            Some(k) => {
                let t = self.eat_current_token();
                match t {
                    Some(t) => if k == expected {
                        Ok(t)
                    } else {
                        Err(ParseError::UnexpectedToken { expected, found: t })
                    },
                    None => Err(ParseError::UnexpectedEndOfInput),
                }
            },
            None => Err(ParseError::UnexpectedEndOfInput),
        }
    }

    /// `'return' AnyToken ';'`
    fn parse_return(&mut self) -> (r: Result<ReturnExpr, ParseError>)
        requires
            old(self).wf(),
        ensures
            final(self).wf(),
            final(self).tokens() == old(self).tokens(),
            match return_at(old(self).tokens(), old(self).pos()) {
                Ok((n, p)) => r is Ok && node_of(Statement::Return(r->Ok_0)) == n && final(self).pos() == p,
                Err(e) => r == Err::<ReturnExpr, ParseError>(e),
            },
    {
        let return_kw = match self.take_expected(SyntaxKind::ReturnKeyword) {
            Ok(t) => t,
            Err(e) => return Err(e),
        };
        let value = match self.eat_current_token() {
            Some(t) => t,
            None => return Err(ParseError::UnexpectedEndOfInput),
        };
        let semicolon = match self.take_expected(SyntaxKind::Semicolon) {
            Ok(t) => t,
            Err(e) => return Err(e),
        };
        Ok(ReturnExpr { return_kw, value, semicolon })
    }

    /// The parameter list up to the closing parenthesis: `void*`.
    fn parse_params(&mut self) -> (r: Result<Vec<LexerToken>, ParseError>)
        requires
            old(self).wf(),
        ensures
            final(self).wf(),
            final(self).tokens() == old(self).tokens(),
            match params_at(old(self).tokens(), old(self).pos()) {
                Ok(ps) => r is Ok && r->Ok_0@ == ps && final(self).pos() == old(self).pos() + ps.len(),
                Err(e) => r == Err::<Vec<LexerToken>, ParseError>(e),
            },
    {
        let ghost ts = self.tokens();
        let ghost p0 = self.pos();
        let mut parameters: Vec<LexerToken> = Vec::new();
        loop
            invariant
                self.wf(),
                self.tokens() == ts,
                ts == old(self).tokens(),
                p0 == old(self).pos(),
                p0 <= self.pos() <= ts.len(),
                self.pos() == p0 + parameters@.len(),
                chain_params(parameters@, params_at(ts, self.pos())) == params_at(ts, p0),
            decreases ts.len() - self.pos(),
        {
            let ghost pos = self.pos();
            match self.current_kind() {
                None => {
                    return Err(ParseError::UnexpectedEndOfInput);
                },
                Some(k) => {
                    if k == SyntaxKind::CloseParen {
                        assert(parameters@ + Seq::<LexerToken>::empty() =~= parameters@);
                        return Ok(parameters);
                    }
                    let t = match self.eat_current_token() {
                        Some(t) => t,
                        None => return Err(ParseError::UnexpectedEndOfInput),
                    };
                    if k != SyntaxKind::VoidKeyword {
                        return Err(ParseError::UnexpectedToken { expected: SyntaxKind::VoidKeyword, found: t });
                    }
                    proof {
                        let x = params_at(ts, pos + 1);
                        if let Ok(ps) = x {
                            assert(parameters@.push(t) + ps =~= parameters@ + (seq![t] + ps));
                        }
                    }
                    parameters.push(t);
                },
            }
        }
    }

    /// `'{' Statement* '}'`
    fn parse_body(&mut self) -> (r: Result<Body, ParseError>)
        requires
            old(self).wf(),
        ensures
            final(self).wf(),
            final(self).tokens() == old(self).tokens(),
            match body_at(old(self).tokens(), old(self).pos()) {
                Ok((b, p)) => r is Ok && block_of(r->Ok_0) == b && final(self).pos() == p && p > old(self).pos(),
                Err(e) => r == Err::<Body, ParseError>(e),
            },
        decreases old(self).tokens().len() - old(self).pos(), 4int,
    {
        let ghost ts = self.tokens();
        let ghost p0 = self.pos();
        let open_curly = match self.take_expected(SyntaxKind::OpenCurly) {
            Ok(t) => t,
            Err(e) => return Err(e),
        };
        let mut statements: Vec<Statement> = Vec::new();
        loop
            invariant
                self.wf(),
                self.tokens() == ts,
                ts == old(self).tokens(),
                p0 == old(self).pos(),
                expect_at(ts, p0, SyntaxKind::OpenCurly) == Ok::<LexerToken, ParseError>(open_curly),
                p0 < self.pos() <= ts.len(),
                chain_items(nodes_of(statements@), items_at(ts, self.pos())) == items_at(ts, p0 + 1),
            decreases ts.len() - self.pos(),
        {
            let ghost pos = self.pos();
            match self.current_kind() {
                None => {
                    return Err(ParseError::UnexpectedEndOfInput);
                },
                Some(k) => {
                    if k == SyntaxKind::CloseCurly {
                        let close_curly = match self.take_expected(SyntaxKind::CloseCurly) {
                            Ok(t) => t,
                            Err(e) => return Err(e),
                        };
                        assert(nodes_of(statements@) + Seq::<Node>::empty() =~= nodes_of(statements@));
                        return Ok(Body { open_curly, statements, close_curly });
                    }
                    let s = match self.parse_statement() {
                        Ok(s) => s,
                        Err(e) => return Err(e),
                    };
                    proof {
                        lemma_nodes_push(statements@, s);
                        let x = items_at(ts, self.pos());
                        if let Ok((ns, q)) = x {
                            assert(nodes_of(statements@).push(node_of(s)) + ns =~= nodes_of(statements@) + (seq![node_of(s)] + ns));
                        }
                    }
                    statements.push(s);
                },
            }
        }
    }

    /// `TypeKeyword Identifier '(' void* ')' Body`
    fn parse_func(&mut self) -> (r: Result<FunctionStatement, ParseError>)
        requires
            old(self).wf(),
        ensures
            final(self).wf(),
            final(self).tokens() == old(self).tokens(),
            match function_at(old(self).tokens(), old(self).pos()) {
                Ok((n, p)) => r is Ok && node_of(Statement::Function(r->Ok_0)) == n && final(self).pos() == p && p > old(self).pos(),
                Err(e) => r == Err::<FunctionStatement, ParseError>(e),
            },
        decreases old(self).tokens().len() - old(self).pos(), 1int,
    {
        let func_type = match self.eat_current_token() {
            Some(t) => t,
            None => return Err(ParseError::UnexpectedEndOfInput),
        };
        let identifier = match self.take_expected(SyntaxKind::StringLiteral) {
            Ok(t) => t,
            Err(e) => return Err(e),
        };
        let open_paren = match self.take_expected(SyntaxKind::OpenParen) {
            Ok(t) => t,
            Err(e) => return Err(e),
        };
        let parameters = match self.parse_params() {
            Ok(ps) => ps,
            Err(e) => return Err(e),
        };
        let close_paren = match self.take_expected(SyntaxKind::CloseParen) {
            Ok(t) => t,
            Err(e) => return Err(e),
        };
        let func_body = match self.parse_body() {
            Ok(b) => b,
            Err(e) => return Err(e),
        };
        Ok(FunctionStatement { func_type, identifier, open_paren, parameters, close_paren, func_body })
    }

    /// One statement, chosen by the current token: a definition after a
    /// type keyword, a return statement after `return`.
    fn parse_statement(&mut self) -> (r: Result<Statement, ParseError>)
        requires
            old(self).wf(),
        ensures
            final(self).wf(),
            final(self).tokens() == old(self).tokens(),
            match statement_at(old(self).tokens(), old(self).pos()) {
                Ok((n, p)) => r is Ok && node_of(r->Ok_0) == n && final(self).pos() == p && p > old(self).pos(),
                Err(e) => r == Err::<Statement, ParseError>(e),
            },
        decreases old(self).tokens().len() - old(self).pos(), 2int,
    {
        match self.current_kind() {
            None => Err(ParseError::UnexpectedEndOfInput),
            Some(k) => if k.is_type_keyword() {
                match self.parse_func() {
                    Ok(f) => Ok(Statement::Function(f)),
                    Err(e) => Err(e),
                }
            } else if k == SyntaxKind::ReturnKeyword {
                match self.parse_return() {
                    Ok(x) => Ok(Statement::Return(x)),
                    Err(e) => Err(e),
                }
            } else {
                match self.eat_current_token() {
                    Some(t) => Err(ParseError::UnsupportedConstruct(t)),
                    None => Err(ParseError::UnexpectedEndOfInput),
                }
            },
        }
    }

    /// Parses the remaining tokens as a sequence of top-level statements.
    pub fn start_parsing(&mut self) -> (r: Result<Program, ParseError>)
        requires
            old(self).wf(),
        ensures
            final(self).wf(),
            final(self).tokens() == old(self).tokens(),
            0 <= final(self).pos() <= final(self).tokens().len(),
            r is Ok ==> final(self).pos() == final(self).tokens().len(),
            match program_at(old(self).tokens(), old(self).pos()) {
                Ok(ns) => r is Ok && nodes_of(r->Ok_0.statements@) == ns,
                Err(e) => r == Err::<Program, ParseError>(e),
            },
    {
        let ghost ts = self.tokens();
        let ghost p0 = self.pos();
        let mut statements: Vec<Statement> = Vec::new();
        loop
            invariant
                self.wf(),
                self.tokens() == ts,
                ts == old(self).tokens(),
                p0 == old(self).pos(),
                0 <= self.pos() <= ts.len(),
                chain_program(nodes_of(statements@), program_at(ts, self.pos())) == program_at(ts, p0),
            decreases ts.len() - self.pos(),
        {
            if self.current_kind().is_none() {
                assert(nodes_of(statements@) + Seq::<Node>::empty() =~= nodes_of(statements@));
                return Ok(Program { statements });
            }
            let s = match self.parse_statement() {
                Ok(s) => s,
                Err(e) => return Err(e),
            };
            proof {
                lemma_nodes_push(statements@, s);
                let x = program_at(ts, self.pos());
                if let Ok(ns) = x {
                    assert(nodes_of(statements@).push(node_of(s)) + ns =~= nodes_of(statements@) + (seq![node_of(s)] + ns));
                }
            }
            statements.push(s);
        }
    }
}

/// Parses a whole token sequence into a program.
pub fn parse(tokens: VecDeque<LexerToken>) -> (r: Result<Program, ParseError>)
    ensures
        match parse_spec(tokens@) {
            Ok(ns) => r is Ok && nodes_of(r->Ok_0.statements@) == ns,
            Err(e) => r == Err::<Program, ParseError>(e),
        },
{
    let mut parser = Parser::new(tokens);
    parser.start_parsing()
}

} // verus!
