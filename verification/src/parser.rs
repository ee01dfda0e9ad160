//! The statement parser: it pulls tokens from a scanner, one token of
//! lookahead ahead of the current one, and builds the statements of a
//! program, collecting a diagnostic wherever a token is not the one that
//! must follow.

use vstd::prelude::*;
use crate::ast::{
    view_of_statement,
    DummyExpr,
    Expression,
    Identifier,
    LetStmt,
    Program,
    ReturnStmt,
    Statement,
    StatementView,
};
use crate::grammar::{
    lemma_statement_bounds,
    let_statement,
    mismatch,
    parsed,
    program,
    return_statement,
    statement,
    statement_end,
};
use crate::lexer::Lexer;
use crate::scan::{
    lemma_token_at_position,
    position_after,
    scan,
    token_at,
    tokens,
};
use crate::token::{Token, TokenType, TokenView};

verus! {

/// The texts of a list of strings.
pub open spec fn texts(strings: Seq<String>) -> Seq<Seq<char>> {
    strings.map_values(|text: String| text@)
}

/// A parser over the tokens of a scanner.
///
/// It holds the current token and one token of lookahead, and the
/// diagnostics collected so far. As a value it is the token sequence of the
/// text from where its scanner stood at the start, the index of the current
/// token in that sequence, and the diagnostics.
pub struct Parser {
    lexer: Lexer,
    cur_token: Token,
    peek_token: Token,
    errors: Vec<String>,
    origin: Ghost<int>,
    consumed: Ghost<nat>,
}

impl Parser {
    /// The token sequence that the parser reads.
    pub closed spec fn tokens(&self) -> Seq<TokenView> {
        tokens(self.lexer@.input, self.origin@)
    }

    /// The index of the current token in the token sequence.
    pub closed spec fn index(&self) -> int {
        self.consumed@ as int
    }

    /// The diagnostics collected so far, oldest first.
    pub closed spec fn diagnostics(&self) -> Seq<Seq<char>> {
        texts(self.errors@)
    }

    /// The parser is consistent: the two tokens it holds are those of its
    /// sequence at the index and after it, and its scanner stands behind
    /// them.
    pub closed spec fn wf(&self) -> bool {
        &&& self.lexer.wf()
        &&& 0 <= self.origin@ <= self.lexer@.input.len()
        &&& self.cur_token@ == token_at(self.tokens(), self.index())
        &&& self.peek_token@ == token_at(self.tokens(), self.index() + 1)
        &&& self.lexer@.position == position_after(
            self.lexer@.input,
            self.origin@,
            self.consumed@ + 2,
        )
    }

    /// The current token.
    pub open spec fn current(&self) -> TokenView {
        token_at(self.tokens(), self.index())
    }

    /// The token after the current one.
    pub open spec fn lookahead(&self) -> TokenView {
        token_at(self.tokens(), self.index() + 1)
    }

    /// A parser at the first token that `lexer` gives out.
    pub fn new(lexer: Lexer) -> (parser: Parser)
        requires
            lexer.wf(),
        ensures
            parser.wf(),
            parser.tokens() == tokens(lexer@.input, lexer@.position),
            parser.index() == 0,
            parser.diagnostics() == Seq::<Seq<char>>::empty(),
    {
        let mut lexer = lexer;
        let ghost input = lexer@.input;
        let ghost origin = lexer@.position;
        proof {
            lexer.lemma_position_bounds();
            lemma_token_at_position(input, origin, 0);
            lemma_token_at_position(input, origin, 1);
            assert(position_after(input, origin, 0) == origin);
            assert(position_after(input, origin, 1) == scan(input, origin).next);
        }
        let cur_token = lexer.next_token();
        let peek_token = lexer.next_token();
        let parser = Parser {
            lexer,
            cur_token,
            peek_token,
            errors: Vec::new(),
            origin: Ghost(origin),
            consumed: Ghost(0),
        };
        assert(parser.diagnostics() =~= Seq::<Seq<char>>::empty());
        parser
    }

    /// The diagnostics collected so far, oldest first.
    pub fn errors(&self) -> (errors: &Vec<String>)
        ensures
            texts(errors@) == self.diagnostics(),
    {
        &self.errors
    }

    /// Records that the lookahead is not of kind `t`.
    pub fn peek_error(&mut self, t: TokenType)
        requires
            old(self).wf(),
        ensures
            final(self).wf(),
            final(self).tokens() == old(self).tokens(),
            final(self).index() == old(self).index(),
            final(self).diagnostics() == old(self).diagnostics().push(
                mismatch(t, old(self).lookahead().ty),
            ),
    {
        let mut message = String::from_str("expected next token to be ");
        message.append(t.name());
        message.append(", got ");
        message.append(self.peek_token.ty.name());
        self.errors.push(message);
        assert(self.diagnostics() =~= old(self).diagnostics().push(message@));
    }

    /// Moves on by one token: the lookahead becomes the current token, and
    /// the next token of the scanner the lookahead.
    pub fn next_token(&mut self)
        requires
            old(self).wf(),
        ensures
            final(self).wf(),
            final(self).tokens() == old(self).tokens(),
            final(self).index() == old(self).index() + 1,
            final(self).diagnostics() == old(self).diagnostics(),
    {
        proof {
            lemma_token_at_position(self.lexer@.input, self.origin@, self.consumed@ + 2);
        }
        let token = self.lexer.next_token();
        core::mem::swap(&mut self.cur_token, &mut self.peek_token);
        self.peek_token = token;
        self.consumed = Ghost(self.consumed@ + 1);
    }

    /// Parses statements up to the first end marker.
    ///
    /// This never fails: a statement that cannot be parsed leaves a
    /// diagnostic and is dropped, and parsing goes on behind it.
    pub fn parse_program(&mut self) -> (parsed_program: Option<Program>)
        requires
            old(self).wf(),
        ensures
            final(self).wf(),
            final(self).tokens() == old(self).tokens(),
            parsed_program matches Some(found) && found@ == program(
                old(self).tokens(),
                old(self).index(),
            ).statements,
            final(self).diagnostics() == old(self).diagnostics() + program(
                old(self).tokens(),
                old(self).index(),
            ).diagnostics,
            final(self).index() == program(old(self).tokens(), old(self).index()).index,
    {
        let mut prog = Program::new();
        let ghost t = self.tokens();
        let ghost whole = program(t, self.index());
        let ghost before = self.diagnostics();
        assert(before + Seq::<Seq<char>>::empty() =~= before);
        while self.cur_token.ty != TokenType::EOF
            invariant
                self.wf(),
                self.tokens() == t,
                0 <= self.index(),
                whole.statements == prog@ + program(t, self.index()).statements,
                before + whole.diagnostics == self.diagnostics() + program(
                    t,
                    self.index(),
                ).diagnostics,
                whole.index == program(t, self.index()).index,
            decreases
                    (if self.index() <= t.len() {
                        t.len() - self.index()
                    } else {
                        0
                    }),
        {
            let ghost k = self.index();
            let ghost first = statement(t, k);
            let ghost rest = program(t, first.index + 1);
            let ghost so_far = prog@;
            let ghost collected = self.diagnostics();
            proof {
                lemma_statement_bounds(t, k);
            }
            match self.parse_statement() {
                Some(stmt) => {
                    prog.statements.push(stmt);
                    assert(prog@ =~= so_far + parsed(first));
                },
                None => {
                    assert(prog@ =~= so_far + parsed(first));
                },
            }
            self.next_token();
            assert(prog@ + rest.statements =~= so_far + (parsed(first) + rest.statements));
            assert(self.diagnostics() + rest.diagnostics =~= collected + (first.diagnostics
                + rest.diagnostics));
        }
        assert(prog@ + Seq::<StatementView>::empty() =~= prog@);
        assert(self.diagnostics() + Seq::<Seq<char>>::empty() =~= self.diagnostics());
        Some(prog)
    }

    /// Attempts the statement that the current token starts: a `let`, a
    /// `return`, or none, in which case nothing is read and nothing recorded.
    pub fn parse_statement(&mut self) -> (stmt: Option<Statement>)
        requires
            old(self).wf(),
        ensures
            final(self).wf(),
            final(self).tokens() == old(self).tokens(),
            view_of_statement(stmt) == statement(old(self).tokens(), old(self).index()).statement,
            final(self).diagnostics() == old(self).diagnostics() + statement(
                old(self).tokens(),
                old(self).index(),
            ).diagnostics,
            final(self).index() == statement(old(self).tokens(), old(self).index()).index,
    {
        match self.cur_token.ty {
            TokenType::Let => self.parse_let_stmt(),
            TokenType::Return => self.parse_return_statement(),
            _ => {
                assert(self.diagnostics() + Seq::<Seq<char>>::empty() =~= self.diagnostics());
                None
            },
        }
    }

    /// Parses a `return` statement that the current token starts: what
    /// follows is passed over up to the end of the statement.
    pub fn parse_return_statement(&mut self) -> (stmt: Option<Statement>)
        requires
            old(self).wf(),
        ensures
            final(self).wf(),
            final(self).tokens() == old(self).tokens(),
            view_of_statement(stmt) == return_statement(
                old(self).tokens(),
                old(self).index(),
            ).statement,
            final(self).diagnostics() == old(self).diagnostics() + return_statement(
                old(self).tokens(),
                old(self).index(),
            ).diagnostics,
            final(self).index() == return_statement(old(self).tokens(), old(self).index()).index,
    {
        let token = self.cur_token.clone();
        self.next_token();
        self.skip_statement();
        assert(self.diagnostics() + Seq::<Seq<char>>::empty() =~= self.diagnostics());
        Some(
            Statement::Return(ReturnStmt { token, value: Expression::Placeholder(DummyExpr) }),
        )
    }

    /// Parses a `let` statement that the current token starts: an
    /// identifier, then `=`, then what is passed over up to the end of the
    /// statement. Where the identifier or `=` is missing, a diagnostic is
    /// recorded and no statement is made.
    pub fn parse_let_stmt(&mut self) -> (stmt: Option<Statement>)
        requires
            old(self).wf(),
        ensures
            final(self).wf(),
            final(self).tokens() == old(self).tokens(),
            view_of_statement(stmt) == let_statement(
                old(self).tokens(),
                old(self).index(),
            ).statement,
            final(self).diagnostics() == old(self).diagnostics() + let_statement(
                old(self).tokens(),
                old(self).index(),
            ).diagnostics,
            final(self).index() == let_statement(old(self).tokens(), old(self).index()).index,
    {
        let ghost before = self.diagnostics();
        let token = self.cur_token.clone();
        if !self.expect_peek(TokenType::Ident) {
            assert(self.diagnostics() =~= before + seq![
                mismatch(TokenType::Ident, old(self).lookahead().ty),
            ]);
            return None;
        }
        let ident = Identifier {
            token: self.cur_token.clone(),
            value: self.cur_token.literal.clone(),
        };
        if !self.expect_peek(TokenType::Assign) {
            assert(self.diagnostics() =~= before + seq![
                mismatch(TokenType::Assign, token_at(old(self).tokens(), old(self).index() + 2).ty),
            ]);
            return None;
        }
        self.skip_statement();
        assert(self.diagnostics() + Seq::<Seq<char>>::empty() =~= self.diagnostics());
        Some(Statement::Let(LetStmt { token, ident, value: Expression::Placeholder(DummyExpr) }))
    }

    /// Moves on by one token if the lookahead is of kind `exp`. Otherwise
    /// records a diagnostic and stays.
    pub fn expect_peek(&mut self, exp: TokenType) -> (found: bool)
        requires
            old(self).wf(),
        ensures
            final(self).wf(),
            final(self).tokens() == old(self).tokens(),
            found == (old(self).lookahead().ty == exp),
            found ==> final(self).index() == old(self).index() + 1 && final(self).diagnostics()
                == old(self).diagnostics(),
            !found ==> final(self).index() == old(self).index() && final(self).diagnostics()
                == old(self).diagnostics().push(mismatch(exp, old(self).lookahead().ty)),
    {
        if self.peek_token.ty == exp {
            self.next_token();
            true
        } else {
            self.peek_error(exp);
            false
        }
    }

    /// Moves on to the end of the statement around the current token: the
    /// first semicolon or end marker from the current token on.
    fn skip_statement(&mut self)
        requires
            old(self).wf(),
        ensures
            final(self).wf(),
            final(self).tokens() == old(self).tokens(),
            final(self).diagnostics() == old(self).diagnostics(),
            final(self).index() == statement_end(old(self).tokens(), old(self).index()),
    {
        while self.cur_token.ty != TokenType::Semicolon && self.cur_token.ty != TokenType::EOF
            invariant
                self.wf(),
                self.tokens() == old(self).tokens(),
                self.diagnostics() == old(self).diagnostics(),
                0 <= self.index(),
                statement_end(self.tokens(), self.index()) == statement_end(
                    old(self).tokens(),
                    old(self).index(),
                ),
            decreases self.tokens().len() - self.index(),
        {
            self.next_token();
        }
    }
}

} // verus!
