//! What scanning means, stated over sequences of characters: the token that
//! starts at a position of a text, the tokens of a whole text, and the laws
//! that hold of them.

use vstd::prelude::*;
use crate::text::{char_at, lemma_run_end_bounds, lemma_run_end_unique, run_end, CharClass};
use crate::token::{end_marker, lemma_spelling_classified, lemma_spellings, TokenType, TokenView};

verus! {

/// One step of scanning: the token read, and the position from which the
/// next step reads.
pub struct Scanned {
    pub token: TokenView,
    pub next: int,
}

/// The kind of a run of letters: the keyword that it spells, else an
/// identifier.
pub open spec fn word_kind(text: Seq<char>) -> TokenType {
    match TokenType::of_text(text) {
        Some(kind) => kind,
        None => TokenType::Ident,
    }
}

/// The kind of a single character that starts no number, word or
/// two-character operator: the kind that it spells, else `Illegal`.
pub open spec fn symbol_kind(c: char) -> TokenType {
    match TokenType::of_text(seq![c]) {
        Some(kind) => kind,
        None => TokenType::Illegal,
    }
}

/// The token read from `s` at position `pos`.
///
/// Whitespace before the token is passed over. A digit starts the maximal run
/// of digits, a letter the maximal run of letters. Otherwise a two-character
/// operator is taken where the next two characters spell one, and a single
/// character where they do not. Beyond the last character stands a NUL, which
/// reads as the end marker and is never passed.
pub open spec fn scan(s: Seq<char>, pos: int) -> Scanned {
    let start = run_end(s, pos, CharClass::Space);
    let c = char_at(s, start);
    let d = char_at(s, start + 1);
    if CharClass::Digit.contains(c) {
        let end = run_end(s, start, CharClass::Digit);
        Scanned {
            token: TokenView { literal: s.subrange(start, end), ty: TokenType::Int },
            next: end,
        }
    } else if CharClass::Letter.contains(c) {
        let end = run_end(s, start, CharClass::Letter);
        let text = s.subrange(start, end);
        Scanned { token: TokenView { literal: text, ty: word_kind(text) }, next: end }
    } else if let Some(kind) = TokenType::operator_pair(c, d) {
        Scanned { token: TokenView { literal: seq![c, d], ty: kind }, next: start + 2 }
    } else {
        Scanned {
            token: TokenView { literal: seq![c], ty: symbol_kind(c) },
            next: if start < s.len() {
                start + 1
            } else {
                start
            },
        }
    }
}

/// A step of scanning never moves backwards and never leaves the text.
pub proof fn lemma_scan_bounds(s: Seq<char>, pos: int)
    requires
        0 <= pos <= s.len(),
    ensures
        pos <= scan(s, pos).next <= s.len(),
{
    let start = run_end(s, pos, CharClass::Space);
    lemma_run_end_bounds(s, pos, CharClass::Space);
    lemma_run_end_bounds(s, start, CharClass::Digit);
    lemma_run_end_bounds(s, start, CharClass::Letter);
}

/// A step of scanning that reads anything but the end marker at the end of
/// the text moves forward.
pub proof fn lemma_scan_advances(s: Seq<char>, pos: int)
    ensures
        scan(s, pos).token.ty != TokenType::EOF || scan(s, pos).next < s.len() ==> scan(
            s,
            pos,
        ).next > pos,
{
    let start = run_end(s, pos, CharClass::Space);
    lemma_run_end_bounds(s, pos, CharClass::Space);
    lemma_run_end_bounds(s, start + 1, CharClass::Digit);
    lemma_run_end_bounds(s, start + 1, CharClass::Letter);
    lemma_spellings();
}

/// Once the text is exhausted, every step reads the end marker and stays
/// where it is.
pub proof fn lemma_scan_exhausted(s: Seq<char>, pos: int)
    requires
        pos >= s.len(),
    ensures
        scan(s, pos) == (Scanned { token: end_marker(), next: pos }),
{
    lemma_spellings();
}

/// The tokens of `s` from position `pos` on, up to and including the end
/// marker that is read when the text is exhausted.
pub open spec fn tokens(s: Seq<char>, pos: int) -> Seq<TokenView>
    decreases s.len() - pos,
{
    let step = scan(s, pos);
    if step.token.ty == TokenType::EOF && step.next >= s.len() {
        seq![step.token]
    } else {
        proof {
            lemma_scan_advances(s, pos);
            if 0 <= pos <= s.len() {
                lemma_scan_bounds(s, pos);
            }
        }
        seq![step.token] + tokens(s, step.next)
    }
}

/// The token at index `k` of a token sequence, and the end marker beyond its
/// end: a scanner that has given out its last token goes on giving the end
/// marker.
pub open spec fn token_at(t: Seq<TokenView>, k: int) -> TokenView {
    if 0 <= k < t.len() {
        t[k]
    } else {
        end_marker()
    }
}

/// The position of a scanner that started at `pos` and has read `n` tokens.
pub open spec fn position_after(s: Seq<char>, pos: int, n: nat) -> int
    decreases n,
{
    if n == 0 {
        pos
    } else {
        scan(s, position_after(s, pos, (n - 1) as nat)).next
    }
}

/// Reading one token and then `n` more leaves the scanner where reading
/// `n + 1` tokens leaves it.
pub proof fn lemma_position_after_first(s: Seq<char>, pos: int, n: nat)
    ensures
        position_after(s, pos, n + 1) == position_after(s, scan(s, pos).next, n),
    decreases n,
{
    let first = scan(s, pos).next;
    assert(position_after(s, pos, n + 1) == scan(s, position_after(s, pos, n)).next);
    if n > 0 {
        lemma_position_after_first(s, pos, (n - 1) as nat);
        assert(position_after(s, first, n) == scan(
            s,
            position_after(s, first, (n - 1) as nat),
        ).next);
    } else {
        assert(position_after(s, pos, 0) == pos);
        assert(position_after(s, first, 0) == first);
    }
}

/// A scanner that has exhausted its text stays where it is, however many
/// tokens are read.
pub proof fn lemma_position_after_exhausted(s: Seq<char>, pos: int, n: nat)
    requires
        pos >= s.len(),
    ensures
        position_after(s, pos, n) == pos,
    decreases n,
{
    if n > 0 {
        lemma_position_after_exhausted(s, pos, (n - 1) as nat);
        lemma_scan_exhausted(s, pos);
    }
}

/// The token sequence of a text is what a scanner gives out call by call:
/// the token read after `n` earlier ones is the token at index `n`, and the
/// end marker once the sequence has ended.
pub proof fn lemma_token_at_position(s: Seq<char>, pos: int, n: nat)
    requires
        0 <= pos <= s.len(),
    ensures
        scan(s, position_after(s, pos, n)).token == token_at(tokens(s, pos), n as int),
    decreases n,
{
    let step = scan(s, pos);
    if n > 0 {
        let m = (n - 1) as nat;
        lemma_position_after_first(s, pos, m);
        lemma_scan_bounds(s, pos);
        if step.token.ty == TokenType::EOF && step.next >= s.len() {
            lemma_position_after_exhausted(s, step.next, m);
            lemma_scan_exhausted(s, step.next);
        } else {
            lemma_token_at_position(s, step.next, m);
            let rest = tokens(s, step.next);
            assert(tokens(s, pos) == seq![step.token] + rest);
            assert(token_at(seq![step.token] + rest, n as int) == token_at(rest, m as int));
        }
    }
}

/// A token sequence holds at least the end marker, and ends with it.
pub proof fn lemma_tokens_end(s: Seq<char>, pos: int)
    requires
        0 <= pos <= s.len(),
    ensures
        tokens(s, pos).len() > 0,
        tokens(s, pos).last().ty == TokenType::EOF,
    decreases s.len() - pos,
{
    let step = scan(s, pos);
    if !(step.token.ty == TokenType::EOF && step.next >= s.len()) {
        lemma_scan_advances(s, pos);
        lemma_scan_bounds(s, pos);
        lemma_tokens_end(s, step.next);
    }
}

/// Only the NUL reads as an end marker: a token of kind `EOF` is the end
/// marker, text and all.
pub proof fn lemma_end_marker_only(s: Seq<char>, pos: int)
    ensures
        scan(s, pos).token.ty == TokenType::EOF ==> scan(s, pos).token == end_marker(),
{
    let start = run_end(s, pos, CharClass::Space);
    let c = char_at(s, start);
    lemma_spellings();
    if CharClass::Letter.contains(c) {
        let end = run_end(s, start, CharClass::Letter);
        lemma_run_end_bounds(s, start + 1, CharClass::Letter);
        assert(s.subrange(start, end)[0] == c);
    } else if !CharClass::Digit.contains(c) && TokenType::operator_pair(c, char_at(s, start + 1))
        is None {
        assert(seq![c][0] == c);
        if scan(s, pos).token.ty == TokenType::EOF {
            assert(seq![c] =~= seq!['\0']);
        }
    }
}

/// A character that spells a fixed kind, scanned alone, gives one token of
/// that kind with the character as its text, and the end marker after it.
pub proof fn lemma_symbol_alone(c: char)
    requires
        TokenType::of_text(seq![c]) is Some,
    ensures
        scan(seq![c], 0) == (Scanned {
            token: TokenView { literal: seq![c], ty: TokenType::of_text(seq![c])->0 },
            next: 1,
        }),
        scan(seq![c], 1) == (Scanned { token: end_marker(), next: 1 }),
{
    let s = seq![c];
    lemma_spellings();
    assert(s.len() == 1 && s[0] == c);
    assert(run_end(s, 0, CharClass::Space) == 0);
    lemma_scan_exhausted(s, 1);
}

/// Two characters that spell a two-character operator are read as one token
/// of that operator, not as the token of the first character alone.
pub proof fn lemma_pair_is_one_token(s: Seq<char>, pos: int)
    requires
        TokenType::operator_pair(
            char_at(s, run_end(s, pos, CharClass::Space)),
            char_at(s, run_end(s, pos, CharClass::Space) + 1),
        ) is Some,
    ensures
        ({
            let start = run_end(s, pos, CharClass::Space);
            let a = char_at(s, start);
            let b = char_at(s, start + 1);
            &&& scan(s, pos) == (Scanned {
                token: TokenView { literal: seq![a, b], ty: TokenType::operator_pair(a, b)->0 },
                next: start + 2,
            })
            &&& scan(s, pos).token.ty != symbol_kind(a)
        }),
{
    let a = char_at(s, run_end(s, pos, CharClass::Space));
    lemma_spellings();
    assert(seq![a][0] == a);
    if a == ':' {
        assert(seq![a] =~= ":"@);
    } else if a == '<' {
        assert(seq![a] =~= "<"@);
    } else if a == '=' {
        assert(seq![a] =~= "="@);
    } else {
        assert(seq![a] =~= "!"@);
    }
}

/// The end marker is given again and again: once a scanner has given out
/// the whole token sequence of its text, every further token is the end
/// marker, and the scanner stays at the end of the text.
pub proof fn lemma_end_marker_repeats(s: Seq<char>, pos: int, n: nat)
    requires
        0 <= pos <= s.len(),
        n >= tokens(s, pos).len(),
    ensures
        scan(s, position_after(s, pos, n)) == (Scanned { token: end_marker(), next: s.len() as int }),
        position_after(s, pos, n) == s.len(),
    decreases n,
{
    let step = scan(s, pos);
    lemma_scan_bounds(s, pos);
    if n == 0 {
    } else if step.token.ty == TokenType::EOF && step.next >= s.len() {
        lemma_position_after_first(s, pos, (n - 1) as nat);
        lemma_position_after_exhausted(s, step.next, (n - 1) as nat);
        lemma_scan_exhausted(s, step.next);
    } else {
        lemma_position_after_first(s, pos, (n - 1) as nat);
        lemma_end_marker_repeats(s, step.next, (n - 1) as nat);
    }
}

/// Scanning inverts spelling: the spelling of a fixed kind, scanned, is one
/// token of that kind with that text, and nothing is left over.
pub proof fn lemma_spelling_round_trip(kind: TokenType)
    requires
        kind.spelling() is Some,
    ensures
        scan(kind.spelling()->0, 0) == (Scanned {
            token: TokenView { literal: kind.spelling()->0, ty: kind },
            next: kind.spelling()->0.len() as int,
        }),
{
    let text = kind.spelling()->0;
    lemma_spellings();
    lemma_spelling_classified(kind);
    assert(run_end(text, 0, CharClass::Space) == 0);
    if CharClass::Letter.contains(text[0]) {
        lemma_run_end_unique(text, 0, text.len() as int, CharClass::Letter);
        assert(text.subrange(0, text.len() as int) =~= text);
    } else if text.len() == 2 {
        assert(seq![text[0], text[1]] =~= text);
    } else {
        assert(seq![text[0]] =~= text);
    }
}

} // verus!
