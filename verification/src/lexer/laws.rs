//! What holds of the lexical grammar for whole families of texts.

use vstd::prelude::*;
use crate::lexer::grammar::{
    decimal_value, integer_value, is_word_char, is_word_start, keyword, lemma_scan_advances,
    lemma_sprite_close, lex, lex_from, scan, scan_number, scan_operator, scan_word,
    sprite_marker_at,
};
use crate::lexer::token::TokenView;
use crate::text::{decimal_digits, digit_char, is_digit, lemma_run_end_at, run_end};

verus! {

/// A word that the scanner reads as an identifier: it starts with an ASCII
/// letter or an underscore, goes on with word characters, and is no keyword.
pub open spec fn is_identifier(word: Seq<char>) -> bool {
    &&& word.len() > 0
    &&& is_word_start(word[0])
    &&& forall|i: int| 0 <= i < word.len() ==> is_word_char(#[trigger] word[i])
    &&& keyword(word) is None
}

/// A non-empty run of decimal digits.
pub open spec fn is_digits(digits: Seq<char>) -> bool {
    &&& digits.len() > 0
    &&& forall|i: int| 0 <= i < digits.len() ==> is_digit(#[trigger] digits[i])
}

/// The text of a definition, `def <name> = <digits>`, with single spaces.
pub open spec fn definition_text(name: Seq<char>, digits: Seq<char>) -> Seq<char> {
    "def "@ + name + " = "@ + digits
}

/// A definition of an identifier by an integer literal lexes to the keyword,
/// the identifier, the equals sign and the integer, in this order, and
/// nothing else before the end.
pub proof fn lex_definition(name: Seq<char>, digits: Seq<char>)
    requires
        is_identifier(name),
        is_digits(digits),
    ensures
        lex(definition_text(name, digits)) == seq![
            TokenView::Def,
            TokenView::Identifier(name),
            TokenView::Equal,
            TokenView::Integer(integer_value(digits)),
            TokenView::Eof,
        ],
{
    reveal_strlit("def ");
    reveal_strlit(" = ");
    reveal_strlit("imp");
    reveal_strlit("def");
    let s = definition_text(name, digits);
    let a = 4int;
    let b = a + name.len();
    let c = b + 3;
    let n = c + digits.len();
    assert(s.len() == n);
    assert(s[0] == 'd' && s[1] == 'e' && s[2] == 'f' && s[3] == ' ');
    assert(forall|i: int| 0 <= i < name.len() ==> s[a + i] == name[i]);
    assert(s[b] == ' ' && s[b + 1] == '=' && s[b + 2] == ' ');
    assert(forall|i: int| 0 <= i < digits.len() ==> s[c + i] == digits[i]);

    // the keyword
    lemma_run_end_at(s, 0, 3, |c: char| is_word_char(c));
    assert(s.subrange(0, 3) =~= "def"@);
    assert(run_end(s, 0, |c: char| is_word_char(c)) == 3);
    assert("def"@[0] == 'd' && "imp"@[0] == 'i');
    assert(keyword("def"@) == Some(TokenView::Def));
    assert(scan_word(s, 0).token == Some(TokenView::Def));
    assert(scan(s, 0) == scan_word(s, 0));
    assert(lex_from(s, 0) == seq![TokenView::Def] + lex_from(s, 3));
    assert(lex_from(s, 3) == lex_from(s, a));

    // the name
    assert forall|i: int| a <= i < b implies is_word_char(#[trigger] s[i]) by {
        assert(s[i] == name[i - a]);
    }
    lemma_run_end_at(s, a, b, |c: char| is_word_char(c));
    assert(s.subrange(a, b) =~= name);
    assert(s[a] == name[0]);
    assert(scan(s, a) == scan_word(s, a));
    assert(scan_word(s, a).token == Some(TokenView::Identifier(name)));
    assert(lex_from(s, a) == seq![TokenView::Identifier(name)] + lex_from(s, b));

    // the equals sign
    assert(lex_from(s, b) == lex_from(s, b + 1));
    assert(scan(s, b + 1) == scan_operator(s, b + 1));
    assert(lex_from(s, b + 1) == seq![TokenView::Equal] + lex_from(s, b + 2));
    assert(lex_from(s, b + 2) == lex_from(s, c));

    // the literal
    assert forall|i: int| c <= i < n implies is_digit(#[trigger] s[i]) by {
        assert(s[i] == digits[i - c]);
    }
    lemma_run_end_at(s, c, n, |c: char| is_digit(c));
    assert(s.subrange(c, n) =~= digits);
    assert(s[c] == digits[0]);
    assert(scan(s, c) == scan_number(s, c));
    assert(lex_from(s, c) == seq![TokenView::Integer(integer_value(digits))] + lex_from(s, n));
    assert(lex_from(s, n) == seq![TokenView::Eof]);

    assert(lex(s) =~= seq![
        TokenView::Def,
        TokenView::Identifier(name),
        TokenView::Equal,
        TokenView::Integer(integer_value(digits)),
        TokenView::Eof,
    ]);
}

/// The digits of a number denote the number.
pub proof fn decimal_digits_denote(n: nat)
    ensures
        decimal_value(decimal_digits(n)) == n,
        decimal_digits(n).len() >= 1,
    decreases n,
{
    let digits = decimal_digits(n);
    if n < 10 {
        assert(digits.drop_last() =~= Seq::empty());
        assert(decimal_value(digits.drop_last()) == 0);
    } else {
        decimal_digits_denote(n / 10);
        assert(digits.drop_last() =~= decimal_digits(n / 10));
        assert(digits.last() == digit_char(n % 10));
    }
}

/// A sprite literal is shorter than the text it stands in: its marker
/// alone takes four characters.
pub proof fn sprites_are_shorter(s: Seq<char>, pos: int, i: int)
    requires
        0 <= pos,
        0 <= i < lex_from(s, pos).len(),
    ensures
        lex_from(s, pos)[i] matches TokenView::UiSprite(text) ==> text.len() + 4 <= s.len(),
    decreases s.len() - pos,
{
    if pos < s.len() {
        lemma_scan_advances(s, pos);
        let step = scan(s, pos);
        match step.token {
            Some(token) => {
                if i == 0 {
                    if token is UiSprite {
                        assert(sprite_marker_at(s, pos));
                        lemma_sprite_close(s, pos + 4, 1);
                    }
                } else {
                    sprites_are_shorter(s, step.next, i - 1);
                }
            },
            None => {
                sprites_are_shorter(s, step.next, i);
            },
        }
    }
}

} // verus!
