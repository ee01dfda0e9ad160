//! The scanner: it turns a source text into tokens, one call at a time.

use vstd::prelude::*;
use vstd::slice::slice_subrange;
use crate::scan::scan;
use crate::text::{char_at, lemma_run_end_bounds, run_end, to_chars, to_text, CharClass};
use crate::token::{lemma_operator_pair_spelled, lemma_spellings, Token, TokenType};

verus! {

/// A scanner as a value: the text it reads and the position of its current
/// character.
pub struct LexerView {
    pub input: Seq<char>,
    pub position: int,
}

/// A scanner over a source text.
///
/// It holds the current character and knows the one after it. Once the text
/// is exhausted the current character is a NUL, read as the end marker, and
/// the scanner moves no further.
pub struct Lexer {
    input: Vec<char>,
    position: usize,
    read_position: usize,
    ch: char,
}

impl View for Lexer {
    type V = LexerView;

    closed spec fn view(&self) -> LexerView {
        LexerView { input: self.input@, position: self.position as int }
    }
}

impl Lexer {
    /// The scanner is consistent: its position lies within the text or just
    /// behind it, and the characters it holds are those of the text there.
    pub closed spec fn wf(&self) -> bool {
        &&& self.position <= self.input.len()
        &&& self.read_position == if self.position < self.input.len() {
            self.position + 1
        } else {
            self.position as int
        }
        &&& self.ch == char_at(self.input@, self.position as int)
    }

    /// The current character: the one at the scanner's position, and NUL
    /// once the text is exhausted.
    pub open spec fn current(&self) -> char {
        char_at(self@.input, self@.position)
    }

    /// The position of a consistent scanner lies within the text or just
    /// behind it.
    pub proof fn lemma_position_bounds(&self)
        requires
            self.wf(),
        ensures
            0 <= self@.position <= self@.input.len(),
    {
    }

    /// A scanner at the start of `i`.
    pub fn new(i: &str) -> (lexer: Lexer)
        ensures
            lexer.wf(),
            lexer@ == (LexerView { input: i@, position: 0 }),
    {
        let input = to_chars(i);
        if input.len() > 0 {
            let ch: char = input[0];
            Lexer { input, position: 0, read_position: 1, ch }
        } else {
            Lexer { input, position: 0, read_position: 0, ch: '\0' }
        }
    }

    /// Passes over the maximal run of whitespace at the current position.
    pub fn skip(&mut self)
        requires
            old(self).wf(),
        ensures
            final(self).wf(),
            final(self)@.input == old(self)@.input,
            final(self)@.position == run_end(
                old(self)@.input,
                old(self)@.position,
                CharClass::Space,
            ),
    {
        self.read_while(CharClass::Space);
    }

    /// The character after the current one, and NUL where there is none.
    pub fn peek(&self) -> (c: char)
        requires
            self.wf(),
        ensures
            c == char_at(self@.input, self@.position + 1),
    {
        if self.read_position < self.input.len() {
            self.input[self.read_position]
        } else {
            '\0'
        }
    }

    /// Reads the maximal run of letters at the current position and returns
    /// its text.
    pub fn read_ident(&mut self) -> (text: String)
        requires
            old(self).wf(),
        ensures
            final(self).wf(),
            final(self)@.input == old(self)@.input,
            final(self)@.position == run_end(
                old(self)@.input,
                old(self)@.position,
                CharClass::Letter,
            ),
            text@ == old(self)@.input.subrange(old(self)@.position, final(self)@.position),
    {
        let start: usize = self.position;
        self.read_while(CharClass::Letter);
        proof {
            lemma_run_end_bounds(self@.input, start as int, CharClass::Letter);
        }
        to_text(&self.input, start, self.position)
    }

    /// Reads the maximal run of digits at the current position and returns
    /// its text.
    pub fn read_num(&mut self) -> (text: String)
        requires
            old(self).wf(),
        ensures
            final(self).wf(),
            final(self)@.input == old(self)@.input,
            final(self)@.position == run_end(
                old(self)@.input,
                old(self)@.position,
                CharClass::Digit,
            ),
            text@ == old(self)@.input.subrange(old(self)@.position, final(self)@.position),
    {
        let start: usize = self.position;
        self.read_while(CharClass::Digit);
        proof {
            lemma_run_end_bounds(self@.input, start as int, CharClass::Digit);
        }
        to_text(&self.input, start, self.position)
    }

    /// Moves to the next character. At the end of the text the scanner stays
    /// where it is.
    pub fn read_char(&mut self)
        requires
            old(self).wf(),
        ensures
            final(self).wf(),
            final(self)@.input == old(self)@.input,
            final(self)@.position == if old(self)@.position < old(self)@.input.len() {
                old(self)@.position + 1
            } else {
                old(self)@.position
            },
    {
        self.position = self.read_position;
        if self.position < self.input.len() {
            self.ch = self.input[self.position];
            self.read_position = self.position + 1;
        } else {
            self.ch = '\0';
        }
    }

    /// Reads a two-character operator where the current character and the
    /// one after it spell one, and returns its text. Where they spell none,
    /// nothing is read.
    pub fn read_double(&mut self) -> (double: Option<String>)
        requires
            old(self).wf(),
        ensures
            final(self).wf(),
            final(self)@.input == old(self)@.input,
            double is Some <==> TokenType::operator_pair(
                old(self).current(),
                char_at(old(self)@.input, old(self)@.position + 1),
            ) is Some,
            double matches Some(text) ==> {
                &&& text@ == seq![
                    old(self).current(),
                    char_at(old(self)@.input, old(self)@.position + 1),
                ]
                &&& final(self)@.position == old(self)@.position + 2
            },
            double is None ==> final(self)@.position == old(self)@.position,
    {
        let first: char = self.ch;
        let second: char = self.peek();
        let found = match first {
            ':' => second == ':',
            '<' => second == '<',
            '=' => second == '=',
            '!' => second == '=',
            _ => false,
        };
        if found {
            let mut text = String::new();
            text.push(first);
            text.push(second);
            self.read_char();
            self.read_char();
            assert(text@ =~= seq![first, second]);
            Some(text)
        } else {
            None
        }
    }

    /// Reads the next token.
    ///
    /// This never fails: a character that spells nothing becomes an `Illegal`
    /// token. Once the text is exhausted, every call returns the end marker
    /// and leaves the scanner where it is.
    pub fn next_token(&mut self) -> (token: Token)
        requires
            old(self).wf(),
        ensures
            final(self).wf(),
            final(self)@.input == old(self)@.input,
            token@ == scan(old(self)@.input, old(self)@.position).token,
            final(self)@.position == scan(old(self)@.input, old(self)@.position).next,
            old(self)@.position >= old(self)@.input.len() ==> token@ == crate::token::end_marker()
                && final(self)@ == old(self)@,
    {
        proof {
            lemma_spellings();
        }
        self.skip();
        if CharClass::Digit.contains(self.ch) {
            let text = self.read_num();
            return Token { literal: text, ty: TokenType::Int };
        } else if CharClass::Letter.contains(self.ch) {
            let start: usize = self.position;
            let text = self.read_ident();
            proof {
                lemma_run_end_bounds(self@.input, start as int, CharClass::Letter);
            }
            let word = slice_subrange(self.input.as_slice(), start, self.position);
            let ty = match TokenType::from_chars(word) {
                Some(kind) => kind,
                None => TokenType::Ident,
            };
            return Token { literal: text, ty };
        }
        let ghost first = self.ch;
        let ghost second = char_at(self@.input, self@.position + 1);
        match self.read_double() {
            Some(text) => {
                proof {
                    lemma_operator_pair_spelled(first, second);
                }
                let ty = match TokenType::from_str(text.as_str()) {
                    Some(kind) => kind,
                    None => TokenType::Illegal,
                };
                Token { literal: text, ty }
            },
            None => {
                let ty = match TokenType::from_symbol(self.ch) {
                    Some(kind) => kind,
                    None => TokenType::Illegal,
                };
                let mut text = String::new();
                text.push(self.ch);
                self.read_char();
                assert(text@ =~= seq![first]);
                Token { literal: text, ty }
            },
        }
    }

    /// Passes over the maximal run of characters of `class` at the current
    /// position.
    fn read_while(&mut self, class: CharClass)
        requires
            old(self).wf(),
        ensures
            final(self).wf(),
            final(self)@.input == old(self)@.input,
            final(self)@.position == run_end(old(self)@.input, old(self)@.position, class),
    {
        while class.contains(self.ch)
            invariant
                self.wf(),
                self@.input == old(self)@.input,
                run_end(self@.input, self@.position, class) == run_end(
                    old(self)@.input,
                    old(self)@.position,
                    class,
                ),
            decreases self.input.len() - self.position,
        {
            self.read_char();
        }
    }
}

} // verus!
