//! The syntax tree: a program is a sequence of statements, a statement is a
//! `let` or a `return`, and an expression is an identifier or a placeholder
//! for syntax that is not parsed yet.

use vstd::prelude::*;
use crate::token::{Token, TokenView};

verus! {

/// What every node of the tree offers: the text of the token that
/// introduced it.
pub trait Node {
    /// The text of the token that introduced the node.
    spec fn spec_token_literal(&self) -> Seq<char>;

    /// The text of the token that introduced the node.
    fn token_literal(&self) -> (text: String)
        ensures
            text@ == self.spec_token_literal(),
    ;
}

/// An identifier as a value.
pub struct IdentifierView {
    pub token: TokenView,
    pub value: Seq<char>,
}

/// An expression as a value.
pub enum ExpressionView {
    Identifier(IdentifierView),
    Placeholder,
}

/// A `let` statement as a value.
pub struct LetStmtView {
    pub token: TokenView,
    pub ident: IdentifierView,
    pub value: ExpressionView,
}

/// A `return` statement as a value.
pub struct ReturnStmtView {
    pub token: TokenView,
    pub value: ExpressionView,
}

/// A statement as a value.
pub enum StatementView {
    Let(LetStmtView),
    Return(ReturnStmtView),
}

impl ExpressionView {
    /// The text of the token that introduced the expression. A placeholder
    /// has no token and gives its own name.
    pub open spec fn token_literal(self) -> Seq<char> {
        match self {
            ExpressionView::Identifier(ident) => ident.token.literal,
            ExpressionView::Placeholder => "DummyExpr"@,
        }
    }
}

impl StatementView {
    /// The text of the token that introduced the statement.
    pub open spec fn token_literal(self) -> Seq<char> {
        match self {
            StatementView::Let(stmt) => stmt.token.literal,
            StatementView::Return(stmt) => stmt.token.literal,
        }
    }

    /// The identifier that the statement binds, if it binds one.
    pub open spec fn ident(self) -> Option<IdentifierView> {
        match self {
            StatementView::Let(stmt) => Some(stmt.ident),
            StatementView::Return(_) => None,
        }
    }

    /// The expression that the statement binds.
    pub open spec fn value(self) -> ExpressionView {
        match self {
            StatementView::Let(stmt) => stmt.value,
            StatementView::Return(stmt) => stmt.value,
        }
    }
}

/// The text of the token that introduced a program: that of its first
/// statement, and the empty text for a program without statements.
pub open spec fn program_token_literal(statements: Seq<StatementView>) -> Seq<char> {
    if statements.len() > 0 {
        statements[0].token_literal()
    } else {
        Seq::empty()
    }
}

/// Stands wherever an expression would be parsed: expressions have no
/// grammar yet. It carries no value.
#[derive(Debug)]
pub struct DummyExpr;

impl Node for DummyExpr {
    open spec fn spec_token_literal(&self) -> Seq<char> {
        ExpressionView::Placeholder.token_literal()
    }

    fn token_literal(&self) -> (text: String) {
        String::from_str("DummyExpr")
    }
}

/// A name, with the token it was read from.
#[derive(Debug)]
pub struct Identifier {
    pub token: Token,
    pub value: String,
}

impl View for Identifier {
    type V = IdentifierView;

    open spec fn view(&self) -> IdentifierView {
        IdentifierView { token: self.token@, value: self.value@ }
    }
}

impl Node for Identifier {
    open spec fn spec_token_literal(&self) -> Seq<char> {
        self@.token.literal
    }

    fn token_literal(&self) -> (text: String) {
        self.token.literal.clone()
    }
}

/// An expression: an identifier, or the placeholder.
#[derive(Debug)]
pub enum Expression {
    Identifier(Identifier),
    Placeholder(DummyExpr),
}

impl View for Expression {
    type V = ExpressionView;

    open spec fn view(&self) -> ExpressionView {
        match self {
            Expression::Identifier(ident) => ExpressionView::Identifier(ident@),
            Expression::Placeholder(_) => ExpressionView::Placeholder,
        }
    }
}

impl Node for Expression {
    open spec fn spec_token_literal(&self) -> Seq<char> {
        self@.token_literal()
    }

    fn token_literal(&self) -> (text: String) {
        match self {
            Expression::Identifier(ident) => ident.token_literal(),
            Expression::Placeholder(dummy) => dummy.token_literal(),
        }
    }
}

/// A `let` statement: the `let` token, the identifier it binds and the
/// expression bound to it.
#[derive(Debug)]
pub struct LetStmt {
    pub token: Token,
    pub ident: Identifier,
    pub value: Expression,
}

impl View for LetStmt {
    type V = LetStmtView;

    open spec fn view(&self) -> LetStmtView {
        LetStmtView { token: self.token@, ident: self.ident@, value: self.value@ }
    }
}

impl Node for LetStmt {
    open spec fn spec_token_literal(&self) -> Seq<char> {
        self@.token.literal
    }

    fn token_literal(&self) -> (text: String) {
        self.token.literal.clone()
    }
}

impl LetStmt {
    /// The identifier that the statement binds.
    pub fn ident(&self) -> (ident: &Identifier)
        ensures
            ident == self.ident,
    {
        &self.ident
    }

    /// The expression that the statement binds.
    pub fn value(&self) -> (value: &Expression)
        ensures
            value == self.value,
    {
        &self.value
    }
}

/// A `return` statement: the `return` token and the expression returned.
#[derive(Debug)]
pub struct ReturnStmt {
    pub token: Token,
    pub value: Expression,
}

impl View for ReturnStmt {
    type V = ReturnStmtView;

    open spec fn view(&self) -> ReturnStmtView {
        ReturnStmtView { token: self.token@, value: self.value@ }
    }
}

impl Node for ReturnStmt {
    open spec fn spec_token_literal(&self) -> Seq<char> {
        self@.token.literal
    }

    fn token_literal(&self) -> (text: String) {
        self.token.literal.clone()
    }
}

impl ReturnStmt {
    /// The expression that the statement returns.
    pub fn value(&self) -> (value: &Expression)
        ensures
            value == self.value,
    {
        &self.value
    }
}

/// A statement: a `let` or a `return`.
#[derive(Debug)]
pub enum Statement {
    Let(LetStmt),
    Return(ReturnStmt),
}

impl View for Statement {
    type V = StatementView;

    open spec fn view(&self) -> StatementView {
        match self {
            Statement::Let(stmt) => StatementView::Let(stmt@),
            Statement::Return(stmt) => StatementView::Return(stmt@),
        }
    }
}

impl Node for Statement {
    open spec fn spec_token_literal(&self) -> Seq<char> {
        self@.token_literal()
    }

    fn token_literal(&self) -> (text: String) {
        match self {
            Statement::Let(stmt) => stmt.token_literal(),
            Statement::Return(stmt) => stmt.token_literal(),
        }
    }
}

impl Statement {
    /// The identifier that the statement binds. A `return` binds none and
    /// gives `None`.
    pub fn ident(&self) -> (ident: Option<&Identifier>)
        ensures
            match *self {
                Statement::Let(stmt) => ident == Some(&stmt.ident),
                Statement::Return(_) => ident is None,
            },
            view_of_ident(ident) == self@.ident(),
    {
        match self {
            Statement::Let(stmt) => Some(stmt.ident()),
            Statement::Return(_) => None,
        }
    }

    /// The expression that the statement binds.
    pub fn value(&self) -> (value: &Expression)
        ensures
            match *self {
                Statement::Let(stmt) => value == stmt.value,
                Statement::Return(stmt) => value == stmt.value,
            },
            value@ == self@.value(),
    {
        match self {
            Statement::Let(stmt) => stmt.value(),
            Statement::Return(stmt) => stmt.value(),
        }
    }
}

/// An identifier that may be missing, as a value.
pub open spec fn view_of_ident(ident: Option<&Identifier>) -> Option<IdentifierView> {
    match ident {
        Some(found) => Some(found@),
        None => None,
    }
}

/// A statement that may be missing, as a value.
pub open spec fn view_of_statement(statement: Option<Statement>) -> Option<StatementView> {
    match statement {
        Some(found) => Some(found@),
        None => None,
    }
}

/// A program: its statements in source order.
#[derive(Debug)]
pub struct Program {
    pub statements: Vec<Statement>,
}

impl View for Program {
    type V = Seq<StatementView>;

    open spec fn view(&self) -> Seq<StatementView> {
        self.statements@.map_values(|statement: Statement| statement@)
    }
}

impl Program {
    /// The program without statements.
    pub fn new() -> (program: Program)
        ensures
            program@ == Seq::<StatementView>::empty(),
    {
        let program = Program { statements: Vec::new() };
        assert(program@ =~= Seq::<StatementView>::empty());
        program
    }
}

impl Node for Program {
    open spec fn spec_token_literal(&self) -> Seq<char> {
        program_token_literal(self@)
    }

    fn token_literal(&self) -> (text: String) {
        if self.statements.len() > 0 {
            self.statements[0].token_literal()
        } else {
            String::new()
        }
    }
}

} // verus!
