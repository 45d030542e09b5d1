use gul::lexer::{Lexer, Span, Token};

fn places(source: &str) -> Vec<(Token, (usize, usize, usize))> {
    Lexer::new(source)
        .tokenize_spanned()
        .into_iter()
        .map(|t| (t.token, (t.span.line, t.span.column, t.span.length)))
        .collect()
}

#[test]
fn tokens_carry_line_column_and_length() {
    assert_eq!(
        places("def x\n  = 10"),
        vec![
            (Token::Def, (0, 0, 3)),
            (Token::Identifier("x".to_string()), (0, 4, 1)),
            (Token::Newline, (0, 5, 1)),
            (Token::Equal, (1, 2, 1)),
            (Token::Integer(10), (1, 4, 2)),
            (Token::Eof, (1, 6, 0)),
        ]
    );
}

#[test]
fn literal_over_several_lines_moves_the_line_count() {
    assert_eq!(
        places("\"a\nb\" c #[ x\n\n]# d"),
        vec![
            (Token::String("a\nb".to_string()), (0, 0, 5)),
            (Token::Identifier("c".to_string()), (1, 3, 1)),
            (Token::Identifier("d".to_string()), (3, 3, 1)),
            (Token::Eof, (3, 4, 0)),
        ]
    );
}

#[test]
fn lengths_count_characters() {
    assert_eq!(
        places("^÷^[a] >= \u{e9}"),
        vec![
            (Token::UiSprite("a".to_string()), (0, 0, 6)),
            (Token::GreaterEqual, (0, 7, 2)),
            (Token::Eof, (0, 11, 0)),
        ]
    );
}

#[test]
fn spanned_tokens_are_the_plain_tokens() {
    for source in ["", "def x = 10", "a\n\"b\nc\" ^÷^[d[e]] 1.5 m/s # z\n#[ y ]# q"] {
        let plain = Lexer::new(source).tokenize();
        let placed: Vec<Token> =
            Lexer::new(source).tokenize_spanned().into_iter().map(|t| t.token).collect();
        assert_eq!(plain, placed);
    }
    assert_eq!(
        Lexer::new("x").tokenize_spanned()[1].span,
        Span { line: 0, column: 1, length: 0 }
    );
}

#[test]
fn token_copy_is_equal() {
    for token in Lexer::new("def x = 1.5 \"s\" ^÷^[t] m/s true 7").tokenize() {
        assert_eq!(token.duplicate(), token);
    }
}

#[test]
fn token_texts() {
    let text = |source: &str| Lexer::new(source).tokenize()[0].to_text();
    assert_eq!(text("name"), "Identifier(name)");
    assert_eq!(text("10"), "Integer(10)");
    assert_eq!(text("0"), "Integer(0)");
    assert_eq!(text("9.81"), "Float(9.81)");
    assert_eq!(text("\"hi\""), "String(\"hi\")");
    assert_eq!(text("^÷^[tree]"), "UiSprite(tree)");
    assert_eq!(text("true"), "Bool(true)");
    assert_eq!(text("false"), "Bool(false)");
    assert_eq!(text("m/s"), "Unit(\"m/s\")");
    assert_eq!(text("def"), "Def");
    assert_eq!(text(">="), "GreaterEqual");
    assert_eq!(text("\n"), "Newline");
    assert_eq!(text(""), "Eof");
    assert_eq!(Token::Integer(-42).to_text(), "Integer(-42)");
    assert_eq!(Token::Integer(i64::MIN).to_text(), "Integer(-9223372036854775808)");
    assert_eq!(Token::Integer(i64::MAX).to_text(), "Integer(9223372036854775807)");
    assert_eq!(Token::Unit("a\"b".to_string()).to_text(), "Unit(\"a\\\"b\")");
    assert_eq!(Token::Indent.to_text(), "Indent");
    assert_eq!(Token::NotEqual.to_text(), "NotEqual");
}
