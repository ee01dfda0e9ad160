use frontend::text::{to_chars, to_text, CharClass};
use frontend::token::{Token, TokenType};

#[test]
fn token_new_keeps_kind_and_text() {
    let tok = Token::new(TokenType::Ident, "foobar");
    assert_eq!(tok.ty, TokenType::Ident);
    assert_eq!(tok.literal, "foobar");
    let copy = tok.clone();
    assert_eq!(copy, tok);
    assert_ne!(tok, Token::new(TokenType::Ident, "foo"));
    assert_ne!(tok, Token::new(TokenType::Let, "foobar"));
}

#[test]
fn from_str_classifies_fixed_spellings() {
    assert_eq!(TokenType::from_str("\0"), Some(TokenType::EOF));
    assert_eq!(TokenType::from_str("let"), Some(TokenType::Let));
    assert_eq!(TokenType::from_str("return"), Some(TokenType::Return));
    assert_eq!(TokenType::from_str("if"), Some(TokenType::If));
    assert_eq!(TokenType::from_str("else"), Some(TokenType::Else));
    assert_eq!(TokenType::from_str("show"), Some(TokenType::Show));
    assert_eq!(TokenType::from_str("fn"), Some(TokenType::Func));
    assert_eq!(TokenType::from_str("true"), Some(TokenType::True));
    assert_eq!(TokenType::from_str("false"), Some(TokenType::False));
    assert_eq!(TokenType::from_str("=="), Some(TokenType::Equal));
    assert_eq!(TokenType::from_str("!="), Some(TokenType::NotEqual));
    assert_eq!(TokenType::from_str("::"), Some(TokenType::DoubleColon));
    assert_eq!(TokenType::from_str("<<"), Some(TokenType::DoubleLessThan));
    assert_eq!(TokenType::from_str(";"), Some(TokenType::Semicolon));
    assert_eq!(TokenType::from_str("\""), Some(TokenType::DoubleQuote));
}

#[test]
fn from_str_rejects_everything_else() {
    for text in [
        "", "x", "Let", "LET", "lets", "le", "retur", "returns", "els", "falsey", "tru", "=!",
        "<:", ":<", "<<<", "===", " ", "  ", "let ", " let", "Int", "Ident", "Illegal", "EOF",
        "0", "42", "@", "_", "\0\0", ">>", "fn(", "iff",
    ] {
        assert_eq!(TokenType::from_str(text), None, "{text:?}");
    }
}

#[test]
fn from_chars_agrees_with_from_str() {
    assert_eq!(TokenType::from_chars(&['l', 'e', 't']), Some(TokenType::Let));
    assert_eq!(TokenType::from_chars(&['<', '<']), Some(TokenType::DoubleLessThan));
    assert_eq!(TokenType::from_chars(&['<']), Some(TokenType::LessThan));
    assert_eq!(TokenType::from_chars(&['r', 'e', 't', 'u', 'r', 'n']), Some(TokenType::Return));
    assert_eq!(TokenType::from_chars(&['r', 'e', 't', 'u', 'r', 'm']), None);
    assert_eq!(TokenType::from_chars(&[]), None);
}

#[test]
fn from_symbol_knows_the_punctuation() {
    let known = "(){}[]=+-;<>#!:\",*/";
    assert_eq!(known.chars().count(), 19);
    for c in known.chars() {
        assert_eq!(TokenType::from_symbol(c), TokenType::from_str(&c.to_string()));
        assert!(TokenType::from_symbol(c).is_some());
    }
    assert_eq!(TokenType::from_symbol('\0'), Some(TokenType::EOF));
    for c in "aZ09 \t\n\r@_$%^&|~`'.?\\é".chars() {
        assert_eq!(TokenType::from_symbol(c), None, "{c:?}");
    }
}

#[test]
fn names_are_the_names_of_the_kinds() {
    for kind in [
        TokenType::Illegal,
        TokenType::Int,
        TokenType::Ident,
        TokenType::EOF,
        TokenType::Let,
        TokenType::LParen,
        TokenType::RParen,
        TokenType::LBrace,
        TokenType::RBrace,
        TokenType::LBracket,
        TokenType::RBracket,
        TokenType::Assign,
        TokenType::Plus,
        TokenType::Minus,
        TokenType::Semicolon,
        TokenType::LessThan,
        TokenType::GreaterThan,
        TokenType::If,
        TokenType::Else,
        TokenType::Hash,
        TokenType::Bang,
        TokenType::Colon,
        TokenType::DoubleQuote,
        TokenType::Equal,
        TokenType::NotEqual,
        TokenType::DoubleColon,
        TokenType::DoubleLessThan,
        TokenType::Return,
        TokenType::Show,
        TokenType::Func,
        TokenType::Comma,
        TokenType::Asterisk,
        TokenType::Slash,
        TokenType::True,
        TokenType::False,
    ] {
        assert_eq!(kind.name(), format!("{kind:?}"));
    }
}

#[test]
fn classes_are_ascii_only() {
    for c in " \t\n\r".chars() {
        assert!(CharClass::Space.contains(c));
        assert!(!CharClass::Digit.contains(c));
        assert!(!CharClass::Letter.contains(c));
    }
    for c in "0123456789".chars() {
        assert!(CharClass::Digit.contains(c));
        assert!(!CharClass::Letter.contains(c));
        assert!(!CharClass::Space.contains(c));
    }
    for c in "azAZmM".chars() {
        assert!(CharClass::Letter.contains(c));
        assert!(!CharClass::Digit.contains(c));
    }
    for c in "\0_@[`{/:é٣\u{b}\u{c}\u{a0}".chars() {
        assert!(!CharClass::Space.contains(c), "{c:?}");
        assert!(!CharClass::Digit.contains(c), "{c:?}");
        assert!(!CharClass::Letter.contains(c), "{c:?}");
    }
}

#[test]
fn to_chars_and_to_text_are_inverse() {
    let chars = to_chars("héllo, wörld");
    assert_eq!(chars, vec!['h', 'é', 'l', 'l', 'o', ',', ' ', 'w', 'ö', 'r', 'l', 'd']);
    assert_eq!(to_text(&chars, 0, chars.len()), "héllo, wörld");
    assert_eq!(to_text(&chars, 1, 5), "éllo");
    assert_eq!(to_text(&chars, 3, 3), "");
    assert_eq!(to_chars(""), Vec::<char>::new());
}
