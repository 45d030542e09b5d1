//! The lexical grammar, stated on character sequences.
//!
//! Every function here is a specification: [`lex_from`] says which tokens a
//! text holds, and the scanner is proved to produce exactly those.

use vstd::prelude::*;
use crate::lexer::token::{Span, TokenView};
use crate::text::{is_alphanumeric, is_ascii_letter, is_digit, lemma_run_end, run_end};

verus! {

/// A character that may begin a word.
pub open spec fn is_word_start(c: char) -> bool {
    is_ascii_letter(c) || c == '_'
}

/// A character that may continue a word.
pub open spec fn is_word_char(c: char) -> bool {
    is_alphanumeric(c) || c == '_'
}

/// A character that may continue a unit suffix.
pub open spec fn is_unit_char(c: char) -> bool {
    c == '/' || c == '^' || is_alphanumeric(c)
}

/// Whether the character at `pos + 1` exists and is `c`.
pub open spec fn followed_by(s: Seq<char>, pos: int, c: char) -> bool {
    pos + 1 < s.len() && s[pos + 1] == c
}

/// The number that a run of decimal digits denotes.
pub open spec fn decimal_value(digits: Seq<char>) -> int
    decreases digits.len(),
{
    if digits.len() == 0 {
        0
    } else {
        decimal_value(digits.drop_last()) * 10 + (digits.last() as int - '0' as int)
    }
}

/// The value of an integer literal: the number its digits denote, or the
/// largest `i64` where that number does not fit.
pub open spec fn integer_value(digits: Seq<char>) -> int {
    if decimal_value(digits) <= i64::MAX {
        decimal_value(digits)
    } else {
        i64::MAX as int
    }
}

/// What the scanner does at one position: the token it emits, if any, and
/// the position at which it goes on.
pub struct Step {
    pub token: Option<TokenView>,
    pub next: int,
}

pub open spec fn emit(token: TokenView, next: int) -> Step {
    Step { token: Some(token), next }
}

pub open spec fn skip(next: int) -> Step {
    Step { token: None, next }
}

/// A line comment runs up to, and not including, the next line feed.
pub open spec fn line_comment_end(s: Seq<char>, from: int) -> int {
    run_end(s, from, |c: char| c != '\n')
}

/// A block comment ends behind the first `]#` at or after `from`; one that
/// is never closed runs to the end of the text. An opening `#[` inside it has
/// no meaning.
pub open spec fn block_comment_end(s: Seq<char>, from: int) -> int
    decreases s.len() - from,
{
    if from < 0 || from >= s.len() {
        from
    } else if s[from] == ']' && followed_by(s, from, '#') {
        from + 2
    } else {
        block_comment_end(s, from + 1)
    }
}

/// The position of the bracket that closes a sprite literal, scanning from
/// `from` with `depth` brackets open, or the end of the text if none does.
pub open spec fn sprite_close(s: Seq<char>, from: int, depth: nat) -> int
    decreases s.len() - from,
{
    if from < 0 || from >= s.len() {
        from
    } else if s[from] == '[' {
        sprite_close(s, from + 1, depth + 1)
    } else if s[from] == ']' {
        if depth <= 1 {
            from
        } else {
            sprite_close(s, from + 1, (depth - 1) as nat)
        }
    } else {
        sprite_close(s, from + 1, depth)
    }
}

/// The position behind a delimiter found at `close`: one further, unless
/// the text ended first.
pub open spec fn behind(s: Seq<char>, close: int) -> int {
    if close < s.len() {
        close + 1
    } else {
        close
    }
}

/// Whether the four characters of the sprite marker stand at `pos`.
pub open spec fn sprite_marker_at(s: Seq<char>, pos: int) -> bool {
    &&& 0 <= pos
    &&& pos + 3 < s.len()
    &&& s[pos] == '^'
    &&& s[pos + 1] == '\u{f7}'
    &&& s[pos + 2] == '^'
    &&& s[pos + 3] == '['
}

/// A sprite literal at `pos`: everything between the marker and the bracket
/// that closes it, nested brackets included.
pub open spec fn scan_sprite(s: Seq<char>, pos: int) -> Step {
    let close = sprite_close(s, pos + 4, 1);
    emit(TokenView::UiSprite(s.subrange(pos + 4, close)), behind(s, close))
}

/// A string literal at `pos`: everything between the quote at `pos` and the
/// next quote, with no escapes.
pub open spec fn scan_string(s: Seq<char>, pos: int) -> Step {
    let close = run_end(s, pos + 1, |c: char| c != '"');
    emit(TokenView::String(s.subrange(pos + 1, close)), behind(s, close))
}

/// A numeric literal at `pos`: digits, then at most one point with the
/// digits behind it. A literal with a point is a float.
pub open spec fn scan_number(s: Seq<char>, pos: int) -> Step {
    let whole = run_end(s, pos, |c: char| is_digit(c));
    if whole < s.len() && s[whole] == '.' {
        let end = run_end(s, whole + 1, |c: char| is_digit(c));
        emit(TokenView::Float(s.subrange(pos, end)), end)
    } else {
        emit(TokenView::Integer(integer_value(s.subrange(pos, whole))), whole)
    }
}

/// The keyword table. `true` and `false` are the two boolean literals.
pub open spec fn keyword(word: Seq<char>) -> Option<TokenView> {
    if word == "imp"@ {
        Some(TokenView::Imp)
    } else if word == "def"@ {
        Some(TokenView::Def)
    } else if word == "fn"@ {
        Some(TokenView::Fn)
    } else if word == "asy"@ {
        Some(TokenView::Asy)
    } else if word == "cs"@ {
        Some(TokenView::Cs)
    } else if word == "mn"@ {
        Some(TokenView::Mn)
    } else if word == "own"@ {
        Some(TokenView::Own)
    } else if word == "ref"@ {
        Some(TokenView::Ref)
    } else if word == "copy"@ {
        Some(TokenView::Copy)
    } else if word == "await"@ {
        Some(TokenView::Await)
    } else if word == "loop"@ {
        Some(TokenView::Loop)
    } else if word == "if"@ {
        Some(TokenView::If)
    } else if word == "elif"@ {
        Some(TokenView::Elif)
    } else if word == "else"@ {
        Some(TokenView::Else)
    } else if word == "for"@ {
        Some(TokenView::For)
    } else if word == "while"@ {
        Some(TokenView::While)
    } else if word == "in"@ {
        Some(TokenView::In)
    } else if word == "return"@ {
        Some(TokenView::Return)
    } else if word == "break"@ {
        Some(TokenView::Break)
    } else if word == "continue"@ {
        Some(TokenView::Continue)
    } else if word == "try"@ {
        Some(TokenView::Try)
    } else if word == "catch"@ {
        Some(TokenView::Catch)
    } else if word == "true"@ {
        Some(TokenView::Bool(true))
    } else if word == "false"@ {
        Some(TokenView::Bool(false))
    } else {
        None
    }
}

/// A word at `pos`: a keyword, or an identifier. An identifier directly
/// followed by `/` or `^` is read on through slashes, carets, letters and
/// numbers, and the whole is a unit.
pub open spec fn scan_word(s: Seq<char>, pos: int) -> Step {
    let end = run_end(s, pos, |c: char| is_word_char(c));
    let word = s.subrange(pos, end);
    match keyword(word) {
        Some(token) => emit(token, end),
        None => {
            if end < s.len() && (s[end] == '/' || s[end] == '^') {
                let unit_end = run_end(s, end, |c: char| is_unit_char(c));
                emit(TokenView::Unit(s.subrange(pos, unit_end)), unit_end)
            } else {
                emit(TokenView::Identifier(word), end)
            }
        },
    }
}

/// An operator or delimiter at `pos`. The two-character operators are
/// tried before the one-character ones; a character that belongs to no
/// token is passed over.
pub open spec fn scan_operator(s: Seq<char>, pos: int) -> Step {
    let c = s[pos];
    if c == '+' {
        emit(TokenView::Plus, pos + 1)
    } else if c == '-' {
        if followed_by(s, pos, '>') {
            emit(TokenView::Arrow, pos + 2)
        } else {
            emit(TokenView::Minus, pos + 1)
        }
    } else if c == '*' {
        emit(TokenView::Star, pos + 1)
    } else if c == '/' {
        emit(TokenView::Slash, pos + 1)
    } else if c == '%' {
        emit(TokenView::Percent, pos + 1)
    } else if c == '(' {
        emit(TokenView::LeftParen, pos + 1)
    } else if c == ')' {
        emit(TokenView::RightParen, pos + 1)
    } else if c == '[' {
        emit(TokenView::LeftBracket, pos + 1)
    } else if c == ']' {
        emit(TokenView::RightBracket, pos + 1)
    } else if c == '{' {
        emit(TokenView::LeftBrace, pos + 1)
    } else if c == '}' {
        emit(TokenView::RightBrace, pos + 1)
    } else if c == ',' {
        emit(TokenView::Comma, pos + 1)
    } else if c == ':' {
        emit(TokenView::Colon, pos + 1)
    } else if c == ';' {
        emit(TokenView::Semicolon, pos + 1)
    } else if c == '.' {
        emit(TokenView::Dot, pos + 1)
    } else if c == '=' {
        if followed_by(s, pos, '=') {
            emit(TokenView::EqualEqual, pos + 2)
        } else {
            emit(TokenView::Equal, pos + 1)
        }
    } else if c == '!' {
        if followed_by(s, pos, '=') {
            emit(TokenView::BangEqual, pos + 2)
        } else {
            emit(TokenView::Not, pos + 1)
        }
    } else if c == '<' {
        if followed_by(s, pos, '=') {
            emit(TokenView::LessEqual, pos + 2)
        } else if followed_by(s, pos, '<') {
            emit(TokenView::LessLess, pos + 2)
        } else {
            emit(TokenView::Less, pos + 1)
        }
    } else if c == '>' {
        if followed_by(s, pos, '=') {
            emit(TokenView::GreaterEqual, pos + 2)
        } else if followed_by(s, pos, '>') {
            emit(TokenView::GreaterGreater, pos + 2)
        } else {
            emit(TokenView::Greater, pos + 1)
        }
    } else if c == '&' {
        if followed_by(s, pos, '&') {
            emit(TokenView::And, pos + 2)
        } else {
            emit(TokenView::Ampersand, pos + 1)
        }
    } else if c == '|' {
        if followed_by(s, pos, '|') {
            emit(TokenView::Or, pos + 2)
        } else {
            emit(TokenView::Pipe, pos + 1)
        }
    } else {
        skip(pos + 1)
    }
}

/// What stands at `pos`, for `0 <= pos < s.len()`.
pub open spec fn scan(s: Seq<char>, pos: int) -> Step {
    let c = s[pos];
    if c == ' ' || c == '\t' {
        skip(pos + 1)
    } else if c == '\n' {
        emit(TokenView::Newline, pos + 1)
    } else if c == '#' {
        if followed_by(s, pos, '[') {
            skip(block_comment_end(s, pos + 2))
        } else {
            skip(line_comment_end(s, pos))
        }
    } else if c == '"' {
        scan_string(s, pos)
    } else if is_digit(c) {
        scan_number(s, pos)
    } else if is_word_start(c) {
        scan_word(s, pos)
    } else if c == '^' {
        if sprite_marker_at(s, pos) {
            scan_sprite(s, pos)
        } else {
            emit(TokenView::Caret, pos + 1)
        }
    } else {
        scan_operator(s, pos)
    }
}

/// The tokens of the text from `pos` on. The last one is always `Eof`.
pub open spec fn lex_from(s: Seq<char>, pos: int) -> Seq<TokenView>
    decreases s.len() - pos,
    via lex_from_decreases
{
    if pos < 0 || pos >= s.len() {
        seq![TokenView::Eof]
    } else {
        let step = scan(s, pos);
        match step.token {
            Some(token) => seq![token] + lex_from(s, step.next),
            None => lex_from(s, step.next),
        }
    }
}

/// How many line feeds stand before `pos`.
pub open spec fn line_feeds(s: Seq<char>, pos: int) -> int
    decreases pos,
{
    if pos <= 0 {
        0
    } else if pos <= s.len() && s[pos - 1] == '\n' {
        line_feeds(s, pos - 1) + 1
    } else {
        line_feeds(s, pos - 1)
    }
}

/// Where the line of `pos` starts: behind the last line feed before `pos`,
/// or at the start of the text.
pub open spec fn line_start(s: Seq<char>, pos: int) -> int
    decreases pos,
{
    if pos <= 0 {
        0
    } else if pos <= s.len() && s[pos - 1] == '\n' {
        pos
    } else {
        line_start(s, pos - 1)
    }
}

/// The place of what stands from `pos` up to `next`.
pub open spec fn span_between(s: Seq<char>, pos: int, next: int) -> Span {
    Span {
        line: line_feeds(s, pos) as usize,
        column: (pos - line_start(s, pos)) as usize,
        length: (next - pos) as usize,
    }
}

/// The places of the tokens of the text from `pos` on, one for each token
/// of [`lex_from`]. The place of `Eof` is the end of the text.
pub open spec fn spans_from(s: Seq<char>, pos: int) -> Seq<Span>
    decreases s.len() - pos,
    via spans_from_decreases
{
    if pos < 0 || pos >= s.len() {
        seq![span_between(s, s.len() as int, s.len() as int)]
    } else {
        let step = scan(s, pos);
        match step.token {
            Some(_) => seq![span_between(s, pos, step.next)] + spans_from(s, step.next),
            None => spans_from(s, step.next),
        }
    }
}

#[via_fn]
proof fn spans_from_decreases(s: Seq<char>, pos: int) {
    if 0 <= pos < s.len() {
        lemma_scan_advances(s, pos);
    }
}

/// Line and line start of a position are within the text.
pub proof fn lemma_line_bounds(s: Seq<char>, pos: int)
    requires
        0 <= pos <= s.len(),
    ensures
        0 <= line_feeds(s, pos) <= pos,
        0 <= line_start(s, pos) <= pos,
    decreases pos,
{
    if pos > 0 {
        lemma_line_bounds(s, pos - 1);
    }
}

/// The tokens of a whole text.
pub open spec fn lex(s: Seq<char>) -> Seq<TokenView> {
    lex_from(s, 0)
}

#[via_fn]
proof fn lex_from_decreases(s: Seq<char>, pos: int) {
    if 0 <= pos < s.len() {
        lemma_scan_advances(s, pos);
    }
}

/// The tokens of a text always end with `Eof`.
pub proof fn lemma_lex_ends_with_eof(s: Seq<char>, pos: int)
    ensures
        lex_from(s, pos).len() >= 1,
        lex_from(s, pos).last() == TokenView::Eof,
    decreases s.len() - pos,
{
    if 0 <= pos < s.len() {
        lemma_scan_advances(s, pos);
        lemma_lex_ends_with_eof(s, scan(s, pos).next);
    }
}

/// No text has more tokens than characters, the final `Eof` apart.
pub proof fn lemma_lex_len(s: Seq<char>, pos: int)
    requires
        0 <= pos <= s.len(),
    ensures
        lex_from(s, pos).len() <= s.len() - pos + 1,
    decreases s.len() - pos,
{
    if pos < s.len() {
        lemma_scan_advances(s, pos);
        lemma_lex_len(s, scan(s, pos).next);
    }
}

pub proof fn lemma_block_comment_end(s: Seq<char>, from: int)
    requires
        0 <= from <= s.len(),
    ensures
        from <= block_comment_end(s, from) <= s.len(),
    decreases s.len() - from,
{
    if from < s.len() && !(s[from] == ']' && followed_by(s, from, '#')) {
        lemma_block_comment_end(s, from + 1);
    }
}

pub proof fn lemma_sprite_close(s: Seq<char>, from: int, depth: nat)
    requires
        0 <= from <= s.len(),
    ensures
        from <= sprite_close(s, from, depth) <= s.len(),
    decreases s.len() - from,
{
    if from < s.len() {
        if s[from] == '[' {
            lemma_sprite_close(s, from + 1, depth + 1);
        } else if s[from] == ']' {
            if depth > 1 {
                lemma_sprite_close(s, from + 1, (depth - 1) as nat);
            }
        } else {
            lemma_sprite_close(s, from + 1, depth);
        }
    }
}

/// Every step consumes at least one character and stays inside the text.
pub proof fn lemma_scan_advances(s: Seq<char>, pos: int)
    requires
        0 <= pos < s.len(),
    ensures
        pos < scan(s, pos).next <= s.len(),
{
    let c = s[pos];
    if c == '#' {
        if followed_by(s, pos, '[') {
            lemma_block_comment_end(s, pos + 2);
        } else {
            lemma_run_end(s, pos, |c: char| c != '\n');
            // the '#' itself is no line feed
            assert(run_end(s, pos, |c: char| c != '\n') == run_end(s, pos + 1, |c: char| c != '\n'));
            lemma_run_end(s, pos + 1, |c: char| c != '\n');
        }
    } else if c == '"' {
        lemma_run_end(s, pos + 1, |c: char| c != '"');
    } else if is_digit(c) {
        let whole = run_end(s, pos, |c: char| is_digit(c));
        assert(whole == run_end(s, pos + 1, |c: char| is_digit(c)));
        lemma_run_end(s, pos + 1, |c: char| is_digit(c));
        if whole < s.len() {
            lemma_run_end(s, whole + 1, |c: char| is_digit(c));
        }
    } else if is_word_start(c) {
        let end = run_end(s, pos, |c: char| is_word_char(c));
        assert(end == run_end(s, pos + 1, |c: char| is_word_char(c)));
        lemma_run_end(s, pos + 1, |c: char| is_word_char(c));
        lemma_run_end(s, end, |c: char| is_unit_char(c));
    } else if c == '^' {
        if sprite_marker_at(s, pos) {
            lemma_sprite_close(s, pos + 4, 1);
        }
    }
}

} // verus!
