//! The token model: the closed vocabulary of kinds, the one spelling of each
//! fixed kind, and the token itself, a kind together with the text it was read
//! from.

use vstd::prelude::*;
use crate::text::to_chars;

verus! {

/// The closed vocabulary of token kinds.
///
/// `Illegal`, `Int` and `Ident` carry text that varies from token to token.
/// Every other kind is fixed: it has exactly one spelling, given by
/// [`TokenType::spelling`].
#[derive(Debug, Clone, Copy, PartialEq, Eq, Structural)]
pub enum TokenType {
    Illegal,
    Int,
    Ident,
    EOF,
    Let,
    LParen,
    RParen,
    LBrace,
    RBrace,
    LBracket,
    RBracket,
    Assign,
    Plus,
    Minus,
    Semicolon,
    LessThan,
    GreaterThan,
    If,
    Else,
    Hash,
    Bang,
    Colon,
    DoubleQuote,
    Equal,
    NotEqual,
    DoubleColon,
    DoubleLessThan,
    Return,
    Show,
    Func,
    Comma,
    Asterisk,
    Slash,
    True,
    False,
}

impl TokenType {
    /// The canonical spelling of a fixed kind, and `None` for the three kinds
    /// whose text varies. The end marker is spelled as a single NUL.
    pub open spec fn spelling(self) -> Option<Seq<char>> {
        match self {
            TokenType::Illegal => None,
            TokenType::Int => None,
            TokenType::Ident => None,
            TokenType::EOF => Some("\0"@),
            TokenType::Let => Some("let"@),
            TokenType::LParen => Some("("@),
            TokenType::RParen => Some(")"@),
            TokenType::LBrace => Some("{"@),
            TokenType::RBrace => Some("}"@),
            TokenType::LBracket => Some("["@),
            TokenType::RBracket => Some("]"@),
            TokenType::Assign => Some("="@),
            TokenType::Plus => Some("+"@),
            TokenType::Minus => Some("-"@),
            TokenType::Semicolon => Some(";"@),
            TokenType::LessThan => Some("<"@),
            TokenType::GreaterThan => Some(">"@),
            TokenType::If => Some("if"@),
            TokenType::Else => Some("else"@),
            TokenType::Hash => Some("#"@),
            TokenType::Bang => Some("!"@),
            TokenType::Colon => Some(":"@),
            TokenType::DoubleQuote => Some("\""@),
            TokenType::Equal => Some("=="@),
            TokenType::NotEqual => Some("!="@),
            TokenType::DoubleColon => Some("::"@),
            TokenType::DoubleLessThan => Some("<<"@),
            TokenType::Return => Some("return"@),
            TokenType::Show => Some("show"@),
            TokenType::Func => Some("fn"@),
            TokenType::Comma => Some(","@),
            TokenType::Asterisk => Some("*"@),
            TokenType::Slash => Some("/"@),
            TokenType::True => Some("true"@),
            TokenType::False => Some("false"@),
        }
    }

    /// Classification of a text against the table of fixed spellings: the
    /// kind that is spelled `text`, if there is one.
    pub open spec fn of_text(text: Seq<char>) -> Option<TokenType> {
        if text == "\0"@ {
            Some(TokenType::EOF)
        } else if text == "let"@ {
            Some(TokenType::Let)
        } else if text == "("@ {
            Some(TokenType::LParen)
        } else if text == ")"@ {
            Some(TokenType::RParen)
        } else if text == "{"@ {
            Some(TokenType::LBrace)
        } else if text == "}"@ {
            Some(TokenType::RBrace)
        } else if text == "["@ {
            Some(TokenType::LBracket)
        } else if text == "]"@ {
            Some(TokenType::RBracket)
        } else if text == "="@ {
            Some(TokenType::Assign)
        } else if text == "+"@ {
            Some(TokenType::Plus)
        } else if text == "-"@ {
            Some(TokenType::Minus)
        } else if text == ";"@ {
            Some(TokenType::Semicolon)
        } else if text == "<"@ {
            Some(TokenType::LessThan)
        } else if text == ">"@ {
            Some(TokenType::GreaterThan)
        } else if text == "if"@ {
            Some(TokenType::If)
        } else if text == "else"@ {
            Some(TokenType::Else)
        } else if text == "#"@ {
            Some(TokenType::Hash)
        } else if text == "!"@ {
            Some(TokenType::Bang)
        } else if text == ":"@ {
            Some(TokenType::Colon)
        } else if text == "\""@ {
            Some(TokenType::DoubleQuote)
        } else if text == "=="@ {
            Some(TokenType::Equal)
        } else if text == "!="@ {
            Some(TokenType::NotEqual)
        } else if text == "::"@ {
            Some(TokenType::DoubleColon)
        } else if text == "<<"@ {
            Some(TokenType::DoubleLessThan)
        } else if text == "return"@ {
            Some(TokenType::Return)
        } else if text == "show"@ {
            Some(TokenType::Show)
        } else if text == "fn"@ {
            Some(TokenType::Func)
        } else if text == ","@ {
            Some(TokenType::Comma)
        } else if text == "*"@ {
            Some(TokenType::Asterisk)
        } else if text == "/"@ {
            Some(TokenType::Slash)
        } else if text == "true"@ {
            Some(TokenType::True)
        } else if text == "false"@ {
            Some(TokenType::False)
        } else {
            None
        }
    }

    /// The kind of the two-character operator that `a` followed by `b` spells:
    /// one of `::`, `<<`, `==` and `!=`.
    pub open spec fn operator_pair(a: char, b: char) -> Option<TokenType> {
        if a == ':' && b == ':' {
            Some(TokenType::DoubleColon)
        } else if a == '<' && b == '<' {
            Some(TokenType::DoubleLessThan)
        } else if a == '=' && b == '=' {
            Some(TokenType::Equal)
        } else if a == '!' && b == '=' {
            Some(TokenType::NotEqual)
        } else {
            None
        }
    }

    /// The name of a kind as diagnostics print it.
    pub open spec fn spec_name(self) -> Seq<char> {
        match self {
            TokenType::Illegal => "Illegal"@,
            TokenType::Int => "Int"@,
            TokenType::Ident => "Ident"@,
            TokenType::EOF => "EOF"@,
            TokenType::Let => "Let"@,
            TokenType::LParen => "LParen"@,
            TokenType::RParen => "RParen"@,
            TokenType::LBrace => "LBrace"@,
            TokenType::RBrace => "RBrace"@,
            TokenType::LBracket => "LBracket"@,
            TokenType::RBracket => "RBracket"@,
            TokenType::Assign => "Assign"@,
            TokenType::Plus => "Plus"@,
            TokenType::Minus => "Minus"@,
            TokenType::Semicolon => "Semicolon"@,
            TokenType::LessThan => "LessThan"@,
            TokenType::GreaterThan => "GreaterThan"@,
            TokenType::If => "If"@,
            TokenType::Else => "Else"@,
            TokenType::Hash => "Hash"@,
            TokenType::Bang => "Bang"@,
            TokenType::Colon => "Colon"@,
            TokenType::DoubleQuote => "DoubleQuote"@,
            TokenType::Equal => "Equal"@,
            TokenType::NotEqual => "NotEqual"@,
            TokenType::DoubleColon => "DoubleColon"@,
            TokenType::DoubleLessThan => "DoubleLessThan"@,
            TokenType::Return => "Return"@,
            TokenType::Show => "Show"@,
            TokenType::Func => "Func"@,
            TokenType::Comma => "Comma"@,
            TokenType::Asterisk => "Asterisk"@,
            TokenType::Slash => "Slash"@,
            TokenType::True => "True"@,
            TokenType::False => "False"@,
        }
    }

    /// The name of a kind as diagnostics print it.
    pub fn name(self) -> (text: &'static str)
        ensures
            text@ == self.spec_name(),
    {
        match self {
            TokenType::Illegal => "Illegal",
            TokenType::Int => "Int",
            TokenType::Ident => "Ident",
            TokenType::EOF => "EOF",
            TokenType::Let => "Let",
            TokenType::LParen => "LParen",
            TokenType::RParen => "RParen",
            TokenType::LBrace => "LBrace",
            TokenType::RBrace => "RBrace",
            TokenType::LBracket => "LBracket",
            TokenType::RBracket => "RBracket",
            TokenType::Assign => "Assign",
            TokenType::Plus => "Plus",
            TokenType::Minus => "Minus",
            TokenType::Semicolon => "Semicolon",
            TokenType::LessThan => "LessThan",
            TokenType::GreaterThan => "GreaterThan",
            TokenType::If => "If",
            TokenType::Else => "Else",
            TokenType::Hash => "Hash",
            TokenType::Bang => "Bang",
            TokenType::Colon => "Colon",
            TokenType::DoubleQuote => "DoubleQuote",
            TokenType::Equal => "Equal",
            TokenType::NotEqual => "NotEqual",
            TokenType::DoubleColon => "DoubleColon",
            TokenType::DoubleLessThan => "DoubleLessThan",
            TokenType::Return => "Return",
            TokenType::Show => "Show",
            TokenType::Func => "Func",
            TokenType::Comma => "Comma",
            TokenType::Asterisk => "Asterisk",
            TokenType::Slash => "Slash",
            TokenType::True => "True",
            TokenType::False => "False",
        }
    }

    /// Classifies a text given as characters: the fixed kind that `text`
    /// spells, or `None` where no fixed kind is spelled so.
    pub fn from_chars(text: &[char]) -> (kind: Option<TokenType>)
        ensures
            kind == TokenType::of_text(text@),
    {
        proof {
            lemma_spellings();
        }
        let n: usize = text.len();
        if n == 1 {
            let kind = TokenType::from_symbol(text[0]);
            proof {
                lemma_single(text@);
            }
            kind
        } else if n == 2 {
            let a: char = text[0];
            let b: char = text[1];
            if a == '=' && b == '=' {
                assert(text@ =~= "=="@);
                Some(TokenType::Equal)
            } else if a == '!' && b == '=' {
                assert(text@ =~= "!="@);
                Some(TokenType::NotEqual)
            } else if a == ':' && b == ':' {
                assert(text@ =~= "::"@);
                Some(TokenType::DoubleColon)
            } else if a == '<' && b == '<' {
                assert(text@ =~= "<<"@);
                Some(TokenType::DoubleLessThan)
            } else if a == 'i' && b == 'f' {
                assert(text@ =~= "if"@);
                Some(TokenType::If)
            } else if a == 'f' && b == 'n' {
                assert(text@ =~= "fn"@);
                Some(TokenType::Func)
            } else {
                None
            }
        } else if n == 3 {
            if text[0] == 'l' && text[1] == 'e' && text[2] == 't' {
                assert(text@ =~= "let"@);
                Some(TokenType::Let)
            } else {
                None
            }
        } else if n == 4 {
            let a: char = text[0];
            let b: char = text[1];
            let c: char = text[2];
            let d: char = text[3];
            if a == 'e' && b == 'l' && c == 's' && d == 'e' {
                assert(text@ =~= "else"@);
                Some(TokenType::Else)
            } else if a == 's' && b == 'h' && c == 'o' && d == 'w' {
                assert(text@ =~= "show"@);
                Some(TokenType::Show)
            } else if a == 't' && b == 'r' && c == 'u' && d == 'e' {
                assert(text@ =~= "true"@);
                Some(TokenType::True)
            } else {
                None
            }
        } else if n == 5 {
            if text[0] == 'f' && text[1] == 'a' && text[2] == 'l' && text[3] == 's' && text[4]
                == 'e' {
                assert(text@ =~= "false"@);
                Some(TokenType::False)
            } else {
                None
            }
        } else if n == 6 {
            if text[0] == 'r' && text[1] == 'e' && text[2] == 't' && text[3] == 'u' && text[4]
                == 'r' && text[5] == 'n' {
                assert(text@ =~= "return"@);
                Some(TokenType::Return)
            } else {
                None
            }
        } else {
            None
        }
    }

    /// Classifies one character: the fixed kind that is spelled by `c` alone.
    pub fn from_symbol(c: char) -> (kind: Option<TokenType>)
        ensures
            kind == TokenType::of_text(seq![c]),
    {
        proof {
            lemma_spellings();
            assert(seq![c].len() == 1 && seq![c][0] == c);
        }
        match c {
            '\0' => Some(TokenType::EOF),
            '(' => Some(TokenType::LParen),
            ')' => Some(TokenType::RParen),
            '{' => Some(TokenType::LBrace),
            '}' => Some(TokenType::RBrace),
            '[' => Some(TokenType::LBracket),
            ']' => Some(TokenType::RBracket),
            '=' => Some(TokenType::Assign),
            '+' => Some(TokenType::Plus),
            '-' => Some(TokenType::Minus),
            ';' => Some(TokenType::Semicolon),
            '<' => Some(TokenType::LessThan),
            '>' => Some(TokenType::GreaterThan),
            '#' => Some(TokenType::Hash),
            '!' => Some(TokenType::Bang),
            ':' => Some(TokenType::Colon),
            '"' => Some(TokenType::DoubleQuote),
            ',' => Some(TokenType::Comma),
            '*' => Some(TokenType::Asterisk),
            '/' => Some(TokenType::Slash),
            _ => None,
        }
    }

    /// Classifies a text: the fixed kind that `text` spells, or `None` where
    /// no fixed kind is spelled so.
    pub fn from_str(text: &str) -> (kind: Option<TokenType>)
        ensures
            kind == TokenType::of_text(text@),
    {
        let chars = to_chars(text);
        TokenType::from_chars(chars.as_slice())
    }
}

/// What the literals of the spelling table hold.
pub proof fn lemma_spellings()
    ensures
        "\0"@ =~= seq!['\0'],
        "("@ =~= seq!['('],
        ")"@ =~= seq![')'],
        "{"@ =~= seq!['{'],
        "}"@ =~= seq!['}'],
        "["@ =~= seq!['['],
        "]"@ =~= seq![']'],
        "="@ =~= seq!['='],
        "+"@ =~= seq!['+'],
        "-"@ =~= seq!['-'],
        ";"@ =~= seq![';'],
        "<"@ =~= seq!['<'],
        ">"@ =~= seq!['>'],
        "#"@ =~= seq!['#'],
        "!"@ =~= seq!['!'],
        ":"@ =~= seq![':'],
        "\""@ =~= seq!['"'],
        ","@ =~= seq![','],
        "*"@ =~= seq!['*'],
        "/"@ =~= seq!['/'],
        "=="@ =~= seq!['=', '='],
        "!="@ =~= seq!['!', '='],
        "::"@ =~= seq![':', ':'],
        "<<"@ =~= seq!['<', '<'],
        "if"@ =~= seq!['i', 'f'],
        "fn"@ =~= seq!['f', 'n'],
        "let"@ =~= seq!['l', 'e', 't'],
        "else"@ =~= seq!['e', 'l', 's', 'e'],
        "show"@ =~= seq!['s', 'h', 'o', 'w'],
        "true"@ =~= seq!['t', 'r', 'u', 'e'],
        "false"@ =~= seq!['f', 'a', 'l', 's', 'e'],
        "return"@ =~= seq!['r', 'e', 't', 'u', 'r', 'n'],
{
    reveal_strlit("\0");
    reveal_strlit("(");
    reveal_strlit(")");
    reveal_strlit("{");
    reveal_strlit("}");
    reveal_strlit("[");
    reveal_strlit("]");
    reveal_strlit("=");
    reveal_strlit("+");
    reveal_strlit("-");
    reveal_strlit(";");
    reveal_strlit("<");
    reveal_strlit(">");
    reveal_strlit("#");
    reveal_strlit("!");
    reveal_strlit(":");
    reveal_strlit("\"");
    reveal_strlit(",");
    reveal_strlit("*");
    reveal_strlit("/");
    reveal_strlit("==");
    reveal_strlit("!=");
    reveal_strlit("::");
    reveal_strlit("<<");
    reveal_strlit("if");
    reveal_strlit("fn");
    reveal_strlit("let");
    reveal_strlit("else");
    reveal_strlit("show");
    reveal_strlit("true");
    reveal_strlit("false");
    reveal_strlit("return");
}

/// Each two-character operator is classified as the kind that its two
/// characters spell.
pub proof fn lemma_operator_pair_spelled(a: char, b: char)
    ensures
        TokenType::operator_pair(a, b) matches Some(kind) ==> TokenType::of_text(seq![a, b])
            == Some(kind),
{
    lemma_spellings();
    if TokenType::operator_pair(a, b) is Some {
        assert(seq![a, b].len() == 2 && seq![a, b][0] == a && seq![a, b][1] == b);
        if a == ':' {
            assert(seq![a, b] =~= "::"@);
        } else if a == '<' {
            assert(seq![a, b] =~= "<<"@);
        } else if a == '=' {
            assert(seq![a, b] =~= "=="@);
        } else {
            assert(seq![a, b] =~= "!="@);
        }
    }
}

/// Classification inverts spelling: the spelling of a fixed kind is
/// classified as that kind.
pub proof fn lemma_spelling_classified(kind: TokenType)
    ensures
        kind.spelling() matches Some(text) ==> TokenType::of_text(text) == Some(kind),
{
    lemma_spellings();
    if kind.spelling() is Some {
        // No two spellings agree in both their length and their first
        // character.
        let text = kind.spelling()->0;
        assert(text.len() > 0 && text[0] == text.first());
    }
}

/// Spelling inverts classification: a text that is classified as a kind is
/// the spelling of that kind. So no two fixed kinds share a spelling, and
/// no kind whose text varies is ever the result of classification.
pub proof fn lemma_classified_spelled(text: Seq<char>)
    ensures
        TokenType::of_text(text) matches Some(kind) ==> kind.spelling() == Some(text),
{
}

/// A text of one character is the sequence made of that character.
pub proof fn lemma_single(text: Seq<char>)
    requires
        text.len() == 1,
    ensures
        text == seq![text[0]],
{
    assert(text =~= seq![text[0]]);
}

/// A token as a value: its kind and the text it was read from.
pub struct TokenView {
    pub literal: Seq<char>,
    pub ty: TokenType,
}

/// A classified lexical unit: a kind, and the exact text that produced it.
#[derive(Debug, PartialEq)]
pub struct Token {
    pub literal: String,
    pub ty: TokenType,
}

impl View for Token {
    type V = TokenView;

    open spec fn view(&self) -> TokenView {
        TokenView { literal: self.literal@, ty: self.ty }
    }
}

impl Clone for Token {
    fn clone(&self) -> (copy: Self)
        ensures
            copy == *self,
    {
        Token { literal: self.literal.clone(), ty: self.ty }
    }
}

impl Token {
    /// A token of kind `ty` whose text is `l`.
    pub fn new(ty: TokenType, l: &str) -> (token: Token)
        ensures
            token@ == (TokenView { literal: l@, ty }),
    {
        Token { literal: String::from_str(l), ty }
    }
}

/// The end marker as a value: kind `EOF`, spelled as a single NUL.
pub open spec fn end_marker() -> TokenView {
    TokenView { literal: seq!['\0'], ty: TokenType::EOF }
}

} // verus!
