//! What parsing means, stated over sequences of tokens: where a statement
//! ends, which statement starts at an index, and the statements and
//! diagnostics of a whole sequence.

use vstd::prelude::*;
use crate::ast::{ExpressionView, IdentifierView, LetStmtView, ReturnStmtView, StatementView};
use crate::scan::token_at;
use crate::token::{TokenType, TokenView};

verus! {

/// The outcome of trying to parse one statement.
pub struct Attempt {
    /// The statement, where one was parsed.
    pub statement: Option<StatementView>,
    /// The diagnostics that the attempt adds.
    pub diagnostics: Seq<Seq<char>>,
    /// The index of the current token after the attempt.
    pub index: int,
}

/// The outcome of parsing a whole token sequence.
pub struct Outcome {
    /// The statements parsed, in source order.
    pub statements: Seq<StatementView>,
    /// The diagnostics collected, in the order in which they arose.
    pub diagnostics: Seq<Seq<char>>,
    /// The index of the current token once parsing has stopped.
    pub index: int,
}

/// The diagnostic for a lookahead of kind `actual` where a token of kind
/// `expected` must stand.
pub open spec fn mismatch(expected: TokenType, actual: TokenType) -> Seq<char> {
    "expected next token to be "@ + expected.spec_name() + ", got "@ + actual.spec_name()
}

/// The index at which the statement around index `k` ends: that of the first
/// token from `k` on that is a semicolon or an end marker. Beyond the
/// sequence every token is an end marker.
pub open spec fn statement_end(t: Seq<TokenView>, k: int) -> int
    decreases t.len() - k,
{
    if 0 <= k < t.len() && t[k].ty != TokenType::Semicolon && t[k].ty != TokenType::EOF {
        statement_end(t, k + 1)
    } else {
        k
    }
}

/// A statement ends at or after the index from which its end is sought.
pub proof fn lemma_statement_end_bounds(t: Seq<TokenView>, k: int)
    ensures
        k <= statement_end(t, k),
        k <= t.len() ==> statement_end(t, k) <= t.len(),
    decreases t.len() - k,
{
    if 0 <= k < t.len() && t[k].ty != TokenType::Semicolon && t[k].ty != TokenType::EOF {
        lemma_statement_end_bounds(t, k + 1);
    }
}

/// The attempt at a `let` statement whose first token stands at index `k`.
///
/// An identifier must follow, and `=` after it; a lookahead of another kind
/// adds a diagnostic and ends the attempt without a statement, the lookahead
/// not yet passed. What follows `=` is passed over up to the end of the
/// statement and stands in the tree as a placeholder.
pub open spec fn let_statement(t: Seq<TokenView>, k: int) -> Attempt {
    let name = token_at(t, k + 1);
    let assign = token_at(t, k + 2);
    if name.ty != TokenType::Ident {
        Attempt {
            statement: None,
            diagnostics: seq![mismatch(TokenType::Ident, name.ty)],
            index: k,
        }
    } else if assign.ty != TokenType::Assign {
        Attempt {
            statement: None,
            diagnostics: seq![mismatch(TokenType::Assign, assign.ty)],
            index: k + 1,
        }
    } else {
        Attempt {
            statement: Some(
                StatementView::Let(
                    LetStmtView {
                        token: token_at(t, k),
                        ident: IdentifierView { token: name, value: name.literal },
                        value: ExpressionView::Placeholder,
                    },
                ),
            ),
            diagnostics: Seq::empty(),
            index: statement_end(t, k + 2),
        }
    }
}

/// The attempt at a `return` statement whose first token stands at index
/// `k`. What follows the first token is passed over up to the end of the
/// statement and stands in the tree as a placeholder.
pub open spec fn return_statement(t: Seq<TokenView>, k: int) -> Attempt {
    Attempt {
        statement: Some(
            StatementView::Return(
                ReturnStmtView { token: token_at(t, k), value: ExpressionView::Placeholder },
            ),
        ),
        diagnostics: Seq::empty(),
        index: statement_end(t, k + 1),
    }
}

/// The attempt at the statement whose first token stands at index `k`. A
/// token that starts no statement gives none, and no diagnostic.
pub open spec fn statement(t: Seq<TokenView>, k: int) -> Attempt {
    match token_at(t, k).ty {
        TokenType::Let => let_statement(t, k),
        TokenType::Return => return_statement(t, k),
        _ => Attempt { statement: None, diagnostics: Seq::empty(), index: k },
    }
}

/// An attempt leaves the current token where it was or further on.
pub proof fn lemma_statement_bounds(t: Seq<TokenView>, k: int)
    ensures
        k <= statement(t, k).index,
        k <= let_statement(t, k).index,
        k <= return_statement(t, k).index,
{
    lemma_statement_end_bounds(t, k + 1);
    lemma_statement_end_bounds(t, k + 2);
}

/// The statements of an attempt: one or none.
pub open spec fn parsed(attempt: Attempt) -> Seq<StatementView> {
    match attempt.statement {
        Some(statement) => seq![statement],
        None => Seq::empty(),
    }
}

/// The outcome of parsing `t` from index `k` on.
///
/// Up to the first end marker, a statement is attempted at the current
/// token, and the token after the attempt becomes the current one. Parsing
/// stops at the first end marker; it never fails.
pub open spec fn program(t: Seq<TokenView>, k: int) -> Outcome
    decreases
            (if k <= t.len() {
                t.len() - k
            } else {
                0
            }),
{
    if 0 <= k < t.len() && t[k].ty != TokenType::EOF {
        proof {
            lemma_statement_bounds(t, k);
        }
        let first = statement(t, k);
        let rest = program(t, first.index + 1);
        Outcome {
            statements: parsed(first) + rest.statements,
            diagnostics: first.diagnostics + rest.diagnostics,
            index: rest.index,
        }
    } else {
        Outcome { statements: Seq::empty(), diagnostics: Seq::empty(), index: k }
    }
}

} // verus!
