use frontend::lexer::Lexer;
use frontend::token::{Token, TokenType};

fn eval_tokens(expected: Vec<Token>, sample: &str) {
    let mut l = Lexer::new(sample);
    for (i, exp) in expected.iter().enumerate() {
        let tok = l.next_token();
        assert_eq!(*exp, tok, "At expected index {i} :: Expected, Sample");
    }
}

#[test]
fn read_singles() {
    let sample = r#";[]"<>{}()+-#!:=,*/"#;
    let exp = vec![
        Token::new(TokenType::Semicolon, ";"),
        Token::new(TokenType::LBracket, "["),
        Token::new(TokenType::RBracket, "]"),
        Token::new(TokenType::DoubleQuote, r#"""#),
        Token::new(TokenType::LessThan, "<"),
        Token::new(TokenType::GreaterThan, ">"),
        Token::new(TokenType::LBrace, "{"),
        Token::new(TokenType::RBrace, "}"),
        Token::new(TokenType::LParen, "("),
        Token::new(TokenType::RParen, ")"),
        Token::new(TokenType::Plus, "+"),
        Token::new(TokenType::Minus, "-"),
        Token::new(TokenType::Hash, "#"),
        Token::new(TokenType::Bang, "!"),
        Token::new(TokenType::Colon, ":"),
        Token::new(TokenType::Assign, "="),
        Token::new(TokenType::Comma, ","),
        Token::new(TokenType::Asterisk, "*"),
        Token::new(TokenType::Slash, "/"),
        Token::new(TokenType::EOF, "\0"),
    ];
    eval_tokens(exp, sample);
}

#[test]
fn read_doubles() {
    let sample = "<< :: == !=";
    let exp = vec![
        Token::new(TokenType::DoubleLessThan, "<<"),
        Token::new(TokenType::DoubleColon, "::"),
        Token::new(TokenType::Equal, "=="),
        Token::new(TokenType::NotEqual, "!="),
    ];
    eval_tokens(exp, sample);
}

#[test]
fn read_doubles_then_end() {
    eval_tokens(
        vec![
            Token::new(TokenType::DoubleLessThan, "<<"),
            Token::new(TokenType::DoubleColon, "::"),
            Token::new(TokenType::Equal, "=="),
            Token::new(TokenType::NotEqual, "!="),
            Token::new(TokenType::EOF, "\0"),
        ],
        "<<::==!=",
    );
}

#[test]
fn each_symbol_alone_then_end() {
    let table = vec![
        ("(", TokenType::LParen),
        (")", TokenType::RParen),
        ("{", TokenType::LBrace),
        ("}", TokenType::RBrace),
        ("[", TokenType::LBracket),
        ("]", TokenType::RBracket),
        ("=", TokenType::Assign),
        ("+", TokenType::Plus),
        ("-", TokenType::Minus),
        (";", TokenType::Semicolon),
        ("<", TokenType::LessThan),
        (">", TokenType::GreaterThan),
        ("#", TokenType::Hash),
        ("!", TokenType::Bang),
        (":", TokenType::Colon),
        ("\"", TokenType::DoubleQuote),
        (",", TokenType::Comma),
        ("*", TokenType::Asterisk),
        ("/", TokenType::Slash),
    ];
    assert_eq!(table.len(), 19);
    for (text, kind) in table {
        let mut l = Lexer::new(text);
        assert_eq!(l.next_token(), Token::new(kind, text));
        assert_eq!(l.next_token(), Token::new(TokenType::EOF, "\0"));
    }
}

#[test]
fn each_pair_is_one_token() {
    let table = vec![
        ("<<", TokenType::DoubleLessThan),
        ("::", TokenType::DoubleColon),
        ("==", TokenType::Equal),
        ("!=", TokenType::NotEqual),
    ];
    for (text, kind) in table {
        let mut l = Lexer::new(text);
        assert_eq!(l.next_token(), Token::new(kind, text));
        assert_eq!(l.next_token(), Token::new(TokenType::EOF, "\0"));
    }
}

#[test]
fn lone_prefix_is_a_single() {
    eval_tokens(
        vec![
            Token::new(TokenType::LessThan, "<"),
            Token::new(TokenType::LessThan, "<"),
            Token::new(TokenType::EOF, "\0"),
        ],
        "< <",
    );
    eval_tokens(
        vec![
            Token::new(TokenType::Colon, ":"),
            Token::new(TokenType::Assign, "="),
            Token::new(TokenType::Bang, "!"),
            Token::new(TokenType::LessThan, "<"),
            Token::new(TokenType::EOF, "\0"),
        ],
        ":=!<",
    );
    eval_tokens(
        vec![
            Token::new(TokenType::Assign, "="),
            Token::new(TokenType::Bang, "!"),
            Token::new(TokenType::EOF, "\0"),
        ],
        "=!",
    );
}

#[test]
fn pairs_are_taken_from_the_left() {
    eval_tokens(
        vec![
            Token::new(TokenType::DoubleLessThan, "<<"),
            Token::new(TokenType::LessThan, "<"),
            Token::new(TokenType::EOF, "\0"),
        ],
        "<<<",
    );
    eval_tokens(
        vec![
            Token::new(TokenType::Equal, "=="),
            Token::new(TokenType::Assign, "="),
            Token::new(TokenType::EOF, "\0"),
        ],
        "===",
    );
    eval_tokens(
        vec![
            Token::new(TokenType::NotEqual, "!="),
            Token::new(TokenType::Assign, "="),
            Token::new(TokenType::EOF, "\0"),
        ],
        "!==",
    );
    eval_tokens(
        vec![
            Token::new(TokenType::Comma, ","),
            Token::new(TokenType::Comma, ","),
            Token::new(TokenType::DoubleLessThan, "<<"),
            Token::new(TokenType::Comma, ","),
            Token::new(TokenType::Comma, ","),
            Token::new(TokenType::EOF, "\0"),
        ],
        ",,<<,,",
    );
}

#[test]
fn end_marker_is_repeated() {
    let mut l = Lexer::new("x");
    assert_eq!(l.next_token(), Token::new(TokenType::Ident, "x"));
    for _ in 0..5 {
        assert_eq!(l.next_token(), Token::new(TokenType::EOF, "\0"));
    }
}

#[test]
fn empty_input_is_the_end_marker() {
    let mut l = Lexer::new("");
    for _ in 0..3 {
        assert_eq!(l.next_token(), Token::new(TokenType::EOF, "\0"));
    }
    let mut blank = Lexer::new(" \t\r\n ");
    for _ in 0..3 {
        assert_eq!(blank.next_token(), Token::new(TokenType::EOF, "\0"));
    }
}

#[test]
fn keywords_and_identifiers() {
    eval_tokens(
        vec![
            Token::new(TokenType::Let, "let"),
            Token::new(TokenType::Return, "return"),
            Token::new(TokenType::If, "if"),
            Token::new(TokenType::Else, "else"),
            Token::new(TokenType::Show, "show"),
            Token::new(TokenType::Func, "fn"),
            Token::new(TokenType::True, "true"),
            Token::new(TokenType::False, "false"),
            Token::new(TokenType::Ident, "foobar"),
            Token::new(TokenType::Ident, "Let"),
            Token::new(TokenType::Ident, "lets"),
            Token::new(TokenType::Ident, "Int"),
            Token::new(TokenType::Ident, "i"),
            Token::new(TokenType::EOF, "\0"),
        ],
        "let return if else show fn true false foobar Let lets Int i",
    );
}

#[test]
fn numbers_keep_their_text() {
    eval_tokens(
        vec![
            Token::new(TokenType::Int, "0"),
            Token::new(TokenType::Int, "007"),
            Token::new(TokenType::Int, "838383"),
            Token::new(TokenType::EOF, "\0"),
        ],
        "0 007 838383",
    );
}

#[test]
fn digits_and_letters_do_not_combine() {
    eval_tokens(
        vec![
            Token::new(TokenType::Int, "12"),
            Token::new(TokenType::Ident, "ab"),
            Token::new(TokenType::Ident, "cd"),
            Token::new(TokenType::Int, "34"),
            Token::new(TokenType::EOF, "\0"),
        ],
        "12ab cd34",
    );
}

#[test]
fn unknown_characters_are_illegal() {
    eval_tokens(
        vec![
            Token::new(TokenType::Illegal, "@"),
            Token::new(TokenType::Illegal, "_"),
            Token::new(TokenType::Illegal, "é"),
            Token::new(TokenType::Ident, "x"),
            Token::new(TokenType::Illegal, "$"),
            Token::new(TokenType::EOF, "\0"),
        ],
        "@_é x$",
    );
}

#[test]
fn nul_in_the_text_reads_as_a_marker_and_is_passed() {
    eval_tokens(
        vec![
            Token::new(TokenType::Ident, "a"),
            Token::new(TokenType::EOF, "\0"),
            Token::new(TokenType::Ident, "b"),
            Token::new(TokenType::EOF, "\0"),
            Token::new(TokenType::EOF, "\0"),
        ],
        "a\0b",
    );
}

#[test]
fn whitespace_separates_and_is_dropped() {
    eval_tokens(
        vec![
            Token::new(TokenType::Let, "let"),
            Token::new(TokenType::Ident, "x"),
            Token::new(TokenType::Assign, "="),
            Token::new(TokenType::Int, "4"),
            Token::new(TokenType::Semicolon, ";"),
            Token::new(TokenType::EOF, "\0"),
        ],
        "\n\t let\r\nx   =4 ;\n",
    );
}

#[test]
fn fixed_spellings_scan_to_their_kind() {
    let table = vec![
        ("\0", TokenType::EOF),
        ("let", TokenType::Let),
        ("(", TokenType::LParen),
        (")", TokenType::RParen),
        ("{", TokenType::LBrace),
        ("}", TokenType::RBrace),
        ("[", TokenType::LBracket),
        ("]", TokenType::RBracket),
        ("=", TokenType::Assign),
        ("+", TokenType::Plus),
        ("-", TokenType::Minus),
        (";", TokenType::Semicolon),
        ("<", TokenType::LessThan),
        (">", TokenType::GreaterThan),
        ("if", TokenType::If),
        ("else", TokenType::Else),
        ("#", TokenType::Hash),
        ("!", TokenType::Bang),
        (":", TokenType::Colon),
        ("\"", TokenType::DoubleQuote),
        ("==", TokenType::Equal),
        ("!=", TokenType::NotEqual),
        ("::", TokenType::DoubleColon),
        ("<<", TokenType::DoubleLessThan),
        ("return", TokenType::Return),
        ("show", TokenType::Show),
        ("fn", TokenType::Func),
        (",", TokenType::Comma),
        ("*", TokenType::Asterisk),
        ("/", TokenType::Slash),
        ("true", TokenType::True),
        ("false", TokenType::False),
    ];
    assert_eq!(table.len(), 32);
    for (text, kind) in table {
        let mut first = Lexer::new(text);
        let tok = first.next_token();
        assert_eq!(tok, Token::new(kind, text));
        let mut again = Lexer::new(&tok.literal);
        assert_eq!(again.next_token(), tok);
        assert_eq!(again.next_token().ty, TokenType::EOF);
    }
}

#[test]
fn read_char_moves_one_character_and_stops_at_the_end() {
    let mut l = Lexer::new("ab");
    assert_eq!(l.peek(), 'b');
    l.read_char();
    assert_eq!(l.peek(), '\0');
    assert_eq!(l.read_ident(), "b");
    l.read_char();
    l.read_char();
    assert_eq!(l.peek(), '\0');
    assert_eq!(l.next_token(), Token::new(TokenType::EOF, "\0"));
}

#[test]
fn peek_does_not_move() {
    let l = Lexer::new("<=");
    assert_eq!(l.peek(), '=');
    assert_eq!(l.peek(), '=');
    let mut l = l;
    assert_eq!(l.next_token(), Token::new(TokenType::LessThan, "<"));
    assert_eq!(l.next_token(), Token::new(TokenType::Assign, "="));
    assert_eq!(Lexer::new("").peek(), '\0');
    assert_eq!(Lexer::new("a").peek(), '\0');
}

#[test]
fn skip_passes_whitespace_only() {
    let mut l = Lexer::new("  \t\r\n x y");
    l.skip();
    assert_eq!(l.peek(), ' ');
    assert_eq!(l.read_ident(), "x");
    l.skip();
    l.skip();
    assert_eq!(l.read_ident(), "y");
    l.skip();
    assert_eq!(l.next_token().ty, TokenType::EOF);
}

#[test]
fn read_ident_takes_the_maximal_run_of_letters() {
    let mut l = Lexer::new("abcXYZ9z");
    assert_eq!(l.read_ident(), "abcXYZ");
    assert_eq!(l.read_ident(), "");
    assert_eq!(l.read_num(), "9");
    assert_eq!(l.read_ident(), "z");
    assert_eq!(l.read_ident(), "");
}

#[test]
fn read_num_takes_the_maximal_run_of_digits() {
    let mut l = Lexer::new("0123456789a1");
    assert_eq!(l.read_num(), "0123456789");
    assert_eq!(l.read_num(), "");
    assert_eq!(l.read_ident(), "a");
    assert_eq!(l.read_num(), "1");
    assert_eq!(l.read_num(), "");
}

#[test]
fn read_double_reads_defined_pairs_only() {
    let mut l = Lexer::new("::<<==!=if=<");
    assert_eq!(l.read_double(), Some("::".to_string()));
    assert_eq!(l.read_double(), Some("<<".to_string()));
    assert_eq!(l.read_double(), Some("==".to_string()));
    assert_eq!(l.read_double(), Some("!=".to_string()));
    assert_eq!(l.read_double(), None);
    assert_eq!(l.read_ident(), "if");
    assert_eq!(l.read_double(), None);
    assert_eq!(l.next_token(), Token::new(TokenType::Assign, "="));
    assert_eq!(l.read_double(), None);
    assert_eq!(l.next_token(), Token::new(TokenType::LessThan, "<"));
    assert_eq!(l.read_double(), None);
}
