use gul::lexer::{Lexer, Token};

fn lex(source: &str) -> Vec<Token> {
    Lexer::new(source).tokenize()
}

fn ident(name: &str) -> Token {
    Token::Identifier(name.to_string())
}

fn float_of(token: &Token) -> f64 {
    match token {
        Token::Float(text) => text.parse().unwrap(),
        other => panic!("not a float: {:?}", other),
    }
}

#[test]
fn test_basic_tokens() {
    let mut lexer = Lexer::new("def x = 10");
    let tokens = lexer.tokenize();

    assert_eq!(tokens[0], Token::Def);
    assert_eq!(tokens[1], Token::Identifier("x".to_string()));
    assert_eq!(tokens[2], Token::Equal);
    assert_eq!(tokens[3], Token::Integer(10));
}

#[test]
fn test_ui_sprite() {
    let mut lexer = Lexer::new("def tree = ^÷^[tree]");
    let tokens = lexer.tokenize();

    assert_eq!(tokens[0], Token::Def);
    assert_eq!(tokens[1], Token::Identifier("tree".to_string()));
    assert_eq!(tokens[2], Token::Equal);
    assert_eq!(tokens[3], Token::UiSprite("tree".to_string()));
}

#[test]
fn test_ui_sprite_with_properties() {
    let mut lexer = Lexer::new("^÷^[slider{min=0, max=100}]");
    let tokens = lexer.tokenize();

    assert_eq!(
        tokens[0],
        Token::UiSprite("slider{min=0, max=100}".to_string())
    );
}

#[test]
fn test_multiline_comment() {
    let mut lexer = Lexer::new("#[\nThis is a\nmulti-line comment\n]#\ndef x = 5");
    let tokens = lexer.tokenize();

    // Should skip the multi-line comment
    assert_eq!(tokens[0], Token::Newline);
    assert_eq!(tokens[1], Token::Def);
    assert_eq!(tokens[2], Token::Identifier("x".to_string()));
}

#[test]
fn test_scientific_units() {
    let mut lexer = Lexer::new("def speed = 10 m/s");
    let tokens = lexer.tokenize();

    assert_eq!(tokens[0], Token::Def);
    assert_eq!(tokens[1], Token::Identifier("speed".to_string()));
    assert_eq!(tokens[2], Token::Equal);
    assert_eq!(tokens[3], Token::Integer(10));
    assert_eq!(tokens[4], Token::Unit("m/s".to_string()));
}

#[test]
fn test_scientific_units_complex() {
    let mut lexer = Lexer::new("def accel = 9.81 m/s^2");
    let tokens = lexer.tokenize();

    assert_eq!(tokens[0], Token::Def);
    assert_eq!(tokens[1], Token::Identifier("accel".to_string()));
    assert_eq!(tokens[2], Token::Equal);
    assert_eq!(float_of(&tokens[3]), 9.81);
    assert_eq!(tokens[3], Token::Float("9.81".to_string()));
    assert_eq!(tokens[4], Token::Unit("m/s^2".to_string()));
}

#[test]
fn test_comparison_operators() {
    let mut lexer = Lexer::new("a == b != c < d <= e > f >= g");
    let tokens = lexer.tokenize();

    assert_eq!(tokens[0], Token::Identifier("a".to_string()));
    assert_eq!(tokens[1], Token::EqualEqual);
    assert_eq!(tokens[2], Token::Identifier("b".to_string()));
    assert_eq!(tokens[3], Token::BangEqual);
    assert_eq!(tokens[4], Token::Identifier("c".to_string()));
    assert_eq!(tokens[5], Token::Less);
    assert_eq!(tokens[6], Token::Identifier("d".to_string()));
    assert_eq!(tokens[7], Token::LessEqual);
    assert_eq!(tokens[8], Token::Identifier("e".to_string()));
    assert_eq!(tokens[9], Token::Greater);
    assert_eq!(tokens[10], Token::Identifier("f".to_string()));
    assert_eq!(tokens[11], Token::GreaterEqual);
}

#[test]
fn test_logical_operators() {
    let mut lexer = Lexer::new("a && b || !c");
    let tokens = lexer.tokenize();

    assert_eq!(tokens[0], Token::Identifier("a".to_string()));
    assert_eq!(tokens[1], Token::And);
    assert_eq!(tokens[2], Token::Identifier("b".to_string()));
    assert_eq!(tokens[3], Token::Or);
    assert_eq!(tokens[4], Token::Not);
    assert_eq!(tokens[5], Token::Identifier("c".to_string()));
}

#[test]
fn test_bitwise_operators() {
    let mut lexer = Lexer::new("a & b | c << d >> e");
    let tokens = lexer.tokenize();

    assert_eq!(tokens[0], Token::Identifier("a".to_string()));
    assert_eq!(tokens[1], Token::Ampersand);
    assert_eq!(tokens[2], Token::Identifier("b".to_string()));
    assert_eq!(tokens[3], Token::Pipe);
    assert_eq!(tokens[4], Token::Identifier("c".to_string()));
    assert_eq!(tokens[5], Token::LessLess);
    assert_eq!(tokens[6], Token::Identifier("d".to_string()));
    assert_eq!(tokens[7], Token::GreaterGreater);
}

#[test]
fn test_ownership_keywords() {
    let mut lexer = Lexer::new("own x ref y copy z");
    let tokens = lexer.tokenize();

    assert_eq!(tokens[0], Token::Own);
    assert_eq!(tokens[1], Token::Identifier("x".to_string()));
    assert_eq!(tokens[2], Token::Ref);
    assert_eq!(tokens[3], Token::Identifier("y".to_string()));
    assert_eq!(tokens[4], Token::Copy);
    assert_eq!(tokens[5], Token::Identifier("z".to_string()));
}

#[test]
fn test_async_await() {
    let mut lexer = Lexer::new("asy fetch():\n    res = await http.get(url)");
    let tokens = lexer.tokenize();

    assert_eq!(tokens[0], Token::Asy);
    assert_eq!(tokens[1], Token::Identifier("fetch".to_string()));
    assert_eq!(tokens[2], Token::LeftParen);
    assert_eq!(tokens[3], Token::RightParen);
    assert_eq!(tokens[4], Token::Colon);
    assert_eq!(tokens[5], Token::Newline);
    // ... more tokens
    let await_pos = tokens.iter().position(|t| matches!(t, Token::Await));
    assert!(await_pos.is_some());
}

#[test]
fn test_float_numbers() {
    let mut lexer = Lexer::new("3.14 2.718 0.5");
    let tokens = lexer.tokenize();

    assert_eq!(float_of(&tokens[0]), 3.14);
    assert_eq!(float_of(&tokens[1]), 2.718);
    assert_eq!(float_of(&tokens[2]), 0.5);
}

#[test]
fn test_string_literals() {
    let mut lexer = Lexer::new("\"Hello, World!\" \"test\"");
    let tokens = lexer.tokenize();

    assert_eq!(tokens[0], Token::String("Hello, World!".to_string()));
    assert_eq!(tokens[1], Token::String("test".to_string()));
}

#[test]
fn test_control_flow_keywords() {
    let mut lexer =
        Lexer::new("if x > 0:\n    return x\nelif x < 0:\n    return -x\nelse:\n    return 0");
    let tokens = lexer.tokenize();

    assert_eq!(tokens[0], Token::If);
    let elif_pos = tokens.iter().position(|t| matches!(t, Token::Elif));
    assert!(elif_pos.is_some());
    let else_pos = tokens.iter().position(|t| matches!(t, Token::Else));
    assert!(else_pos.is_some());
    let return_count = tokens.iter().filter(|t| matches!(t, Token::Return)).count();
    assert_eq!(return_count, 3);
}

#[test]
fn definition_lexes_to_four_tokens_and_eof() {
    assert_eq!(
        lex("def x = 10"),
        vec![Token::Def, ident("x"), Token::Equal, Token::Integer(10), Token::Eof]
    );
    assert_eq!(
        lex("def total_2 = 0042"),
        vec![Token::Def, ident("total_2"), Token::Equal, Token::Integer(42), Token::Eof]
    );
}

#[test]
fn sprite_keeps_nested_brackets() {
    assert_eq!(
        lex("^÷^[slider{min=0, max=100}]"),
        vec![Token::UiSprite("slider{min=0, max=100}".to_string()), Token::Eof]
    );
    assert_eq!(
        lex("^÷^[grid[a[b]]c] x"),
        vec![Token::UiSprite("grid[a[b]]c".to_string()), ident("x"), Token::Eof]
    );
}

#[test]
fn sprite_without_end_is_cut_at_the_end_of_text() {
    assert_eq!(lex("^÷^[tree[a]"), vec![Token::UiSprite("tree[a]".to_string()), Token::Eof]);
    assert_eq!(lex("^÷^["), vec![Token::UiSprite(String::new()), Token::Eof]);
}

#[test]
fn caret_without_marker_is_an_operator() {
    assert_eq!(lex("^ 2"), vec![Token::Caret, Token::Integer(2), Token::Eof]);
    assert_eq!(
        lex("^÷[a]"),
        vec![Token::Caret, Token::LeftBracket, ident("a"), Token::RightBracket, Token::Eof]
    );
}

#[test]
fn float_followed_by_unit() {
    assert_eq!(
        lex("9.81 m/s^2"),
        vec![Token::Float("9.81".to_string()), Token::Unit("m/s^2".to_string()), Token::Eof]
    );
    assert_eq!(float_of(&lex("9.81 m/s^2")[0]), 9.81);
}

#[test]
fn identifier_before_caret_becomes_a_unit() {
    assert_eq!(lex("x^2"), vec![Token::Unit("x^2".to_string()), Token::Eof]);
    assert_eq!(lex("x ^ 2"), vec![ident("x"), Token::Caret, Token::Integer(2), Token::Eof]);
    assert_eq!(lex("kg"), vec![ident("kg"), Token::Eof]);
    assert_eq!(lex("a/b_c"), vec![Token::Unit("a/b".to_string()), ident("_c"), Token::Eof]);
}

#[test]
fn keyword_before_slash_stays_a_keyword() {
    assert_eq!(lex("if/x"), vec![Token::If, Token::Slash, ident("x"), Token::Eof]);
}

#[test]
fn ampersand_and_pipe_single_and_double() {
    assert!(lex("a & b").contains(&Token::Ampersand));
    assert!(!lex("a & b").contains(&Token::And));
    assert!(lex("a && b").contains(&Token::And));
    assert!(!lex("a && b").contains(&Token::Ampersand));
    assert!(lex("a | b").contains(&Token::Pipe));
    assert!(!lex("a | b").contains(&Token::Or));
    assert!(lex("a || b").contains(&Token::Or));
    assert!(!lex("a || b").contains(&Token::Pipe));
    assert_eq!(lex("&&&"), vec![Token::And, Token::Ampersand, Token::Eof]);
}

#[test]
fn two_character_operators() {
    assert_eq!(
        lex("== != <= >= << >> -> = ! < > -"),
        vec![
            Token::EqualEqual,
            Token::BangEqual,
            Token::LessEqual,
            Token::GreaterEqual,
            Token::LessLess,
            Token::GreaterGreater,
            Token::Arrow,
            Token::Equal,
            Token::Not,
            Token::Less,
            Token::Greater,
            Token::Minus,
            Token::Eof,
        ]
    );
}

#[test]
fn delimiters() {
    assert_eq!(
        lex("+*/%()[]{},:;."),
        vec![
            Token::Plus,
            Token::Star,
            Token::Slash,
            Token::Percent,
            Token::LeftParen,
            Token::RightParen,
            Token::LeftBracket,
            Token::RightBracket,
            Token::LeftBrace,
            Token::RightBrace,
            Token::Comma,
            Token::Colon,
            Token::Semicolon,
            Token::Dot,
            Token::Eof,
        ]
    );
}

#[test]
fn second_point_is_not_part_of_a_number() {
    assert_eq!(
        lex("1.2.3"),
        vec![Token::Float("1.2".to_string()), Token::Dot, Token::Integer(3), Token::Eof]
    );
    assert_eq!(lex("7."), vec![Token::Float("7.".to_string()), Token::Eof]);
}

#[test]
fn integer_too_large_is_the_largest() {
    assert_eq!(lex("9223372036854775807"), vec![Token::Integer(i64::MAX), Token::Eof]);
    assert_eq!(lex("9223372036854775808"), vec![Token::Integer(i64::MAX), Token::Eof]);
    assert_eq!(lex("99999999999999999999999"), vec![Token::Integer(i64::MAX), Token::Eof]);
    assert_eq!(lex("9223372036854775806"), vec![Token::Integer(i64::MAX - 1), Token::Eof]);
}

#[test]
fn all_keywords() {
    assert_eq!(
        lex("imp def fn asy cs mn own ref copy await loop if elif else for while in return break continue try catch true false"),
        vec![
            Token::Imp,
            Token::Def,
            Token::Fn,
            Token::Asy,
            Token::Cs,
            Token::Mn,
            Token::Own,
            Token::Ref,
            Token::Copy,
            Token::Await,
            Token::Loop,
            Token::If,
            Token::Elif,
            Token::Else,
            Token::For,
            Token::While,
            Token::In,
            Token::Return,
            Token::Break,
            Token::Continue,
            Token::Try,
            Token::Catch,
            Token::Bool(true),
            Token::Bool(false),
            Token::Eof,
        ]
    );
    assert_eq!(lex("define"), vec![ident("define"), Token::Eof]);
    assert_eq!(lex("Def"), vec![ident("Def"), Token::Eof]);
}

#[test]
fn words_go_on_through_letters_of_any_script() {
    assert_eq!(lex("caf\u{e9}1 x"), vec![ident("caf\u{e9}1"), ident("x"), Token::Eof]);
    assert_eq!(lex("a-b"), vec![ident("a"), Token::Minus, ident("b"), Token::Eof]);
    // a word starts with an ASCII letter or an underscore only
    assert_eq!(lex("\u{e9}a"), vec![ident("a"), Token::Eof]);
}

#[test]
fn unknown_characters_are_passed_over() {
    assert_eq!(lex("@rust $ ~ ?"), vec![ident("rust"), Token::Eof]);
    assert_eq!(lex("\r\n"), vec![Token::Newline, Token::Eof]);
}

#[test]
fn line_comment_ends_before_the_line_feed() {
    assert_eq!(lex("a # b c\nd"), vec![ident("a"), Token::Newline, ident("d"), Token::Eof]);
    assert_eq!(lex("# only"), vec![Token::Eof]);
}

#[test]
fn block_comment_does_not_nest() {
    // the first `]#` ends the comment; the `#` of the second opens a line comment
    assert_eq!(lex("#[ a #[ b ]# c ]# d"), vec![ident("c"), Token::RightBracket, Token::Eof]);
    assert_eq!(lex("#[ a #[ b ]# c ] d"), vec![
        ident("c"),
        Token::RightBracket,
        ident("d"),
        Token::Eof,
    ]);
    assert_eq!(lex("a #[ never closed"), vec![ident("a"), Token::Eof]);
    assert_eq!(lex("#[]#x"), vec![ident("x"), Token::Eof]);
}

#[test]
fn string_without_end_is_cut_at_the_end_of_text() {
    assert_eq!(lex("\"abc"), vec![Token::String("abc".to_string()), Token::Eof]);
    assert_eq!(lex("\"a\\\"b"), vec![Token::String("a\\".to_string()), ident("b"), Token::Eof]);
    assert_eq!(lex("\"\""), vec![Token::String(String::new()), Token::Eof]);
}

#[test]
fn empty_text_is_eof_alone() {
    assert_eq!(lex(""), vec![Token::Eof]);
    assert_eq!(lex("  \t "), vec![Token::Eof]);
}

#[test]
fn tokenizing_again_gives_eof_alone() {
    let mut lexer = Lexer::new("def x = 10");
    assert_eq!(lexer.tokenize().len(), 5);
    assert_eq!(lexer.tokenize(), vec![Token::Eof]);
}

#[test]
fn tokens_always_end_with_eof() {
    for source in ["", "a", "\"open", "^÷^[open", "#[ open", "1.", "x^", "\n\n"] {
        assert_eq!(lex(source).last(), Some(&Token::Eof));
    }
}
