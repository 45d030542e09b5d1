//! The scanner: an executable reading of the lexical grammar.

use vstd::prelude::*;
use crate::lexer::grammar::{
    behind, block_comment_end, decimal_value, integer_value, is_unit_char,
    is_word_char, keyword, lemma_line_bounds, lemma_scan_advances, lex_from,
    line_comment_end, line_feeds, line_start as line_start_of, spans_from,
    scan, scan_number, scan_sprite, scan_string, scan_word, sprite_close,
    sprite_marker_at,
};
use crate::lexer::token::{
    spanned_views, spans_of, token_views, Span, SpannedToken, Token, TokenView,
};
use crate::text::{char_is_alphanumeric, chars_of, is_digit, run_end, str_eq};

verus! {

/// A cursor over the characters of one source text.
pub struct Lexer {
    input: Vec<char>,
    position: usize,
    current_char: Option<char>,
}

/// The keyword that a word spells, if it spells one.
fn keyword_token(word: &str) -> (found: Option<Token>)
    ensures
        match found {
            Some(token) => keyword(word@) == Some(token@),
            None => keyword(word@) is None,
        },
{
    if str_eq(word, "imp") {
        Some(Token::Imp)
    } else if str_eq(word, "def") {
        Some(Token::Def)
    } else if str_eq(word, "fn") {
        Some(Token::Fn)
    } else if str_eq(word, "asy") {
        Some(Token::Asy)
    } else if str_eq(word, "cs") {
        Some(Token::Cs)
    } else if str_eq(word, "mn") {
        Some(Token::Mn)
    } else if str_eq(word, "own") {
        Some(Token::Own)
    } else if str_eq(word, "ref") {
        Some(Token::Ref)
    } else if str_eq(word, "copy") {
        Some(Token::Copy)
    } else if str_eq(word, "await") {
        Some(Token::Await)
    } else if str_eq(word, "loop") {
        Some(Token::Loop)
    } else if str_eq(word, "if") {
        Some(Token::If)
    } else if str_eq(word, "elif") {
        Some(Token::Elif)
    } else if str_eq(word, "else") {
        Some(Token::Else)
    } else if str_eq(word, "for") {
        Some(Token::For)
    } else if str_eq(word, "while") {
        Some(Token::While)
    } else if str_eq(word, "in") {
        Some(Token::In)
    } else if str_eq(word, "return") {
        Some(Token::Return)
    } else if str_eq(word, "break") {
        Some(Token::Break)
    } else if str_eq(word, "continue") {
        Some(Token::Continue)
    } else if str_eq(word, "try") {
        Some(Token::Try)
    } else if str_eq(word, "catch") {
        Some(Token::Catch)
    } else if str_eq(word, "true") {
        Some(Token::Bool(true))
    } else if str_eq(word, "false") {
        Some(Token::Bool(false))
    } else {
        None
    }
}

/// Appending one digit to a run multiplies its value by ten and adds the
/// digit.
proof fn lemma_decimal_value_push(s: Seq<char>, from: int, to: int)
    requires
        0 <= from <= to < s.len(),
    ensures
        decimal_value(s.subrange(from, to + 1)) == decimal_value(s.subrange(from, to)) * 10 + (
        s[to] as int - '0' as int),
{
    let longer = s.subrange(from, to + 1);
    assert(longer.drop_last() =~= s.subrange(from, to));
    assert(longer.last() == s[to]);
}

impl Lexer {
    /// The cursor stands inside the text or at its end, and the character
    /// it holds is the one it stands on.
    pub closed spec fn wf(&self) -> bool {
        &&& self.position <= self.input.len()
        &&& self.current_char == if self.position < self.input.len() {
            Some(self.input[self.position as int])
        } else {
            None
        }
    }

    /// The text being read.
    pub closed spec fn source(&self) -> Seq<char> {
        self.input@
    }

    /// How many characters have been read.
    pub closed spec fn offset(&self) -> int {
        self.position as int
    }

    /// A cursor at the start of `input`.
    pub fn new(input: &str) -> (lexer: Lexer)
        ensures
            lexer.wf(),
            lexer.source() == input@,
            lexer.offset() == 0,
    {
        let chars: Vec<char> = chars_of(input);
        let current_char = if chars.len() > 0 {
            Some(chars[0])
        } else {
            None
        };

        Lexer { input: chars, position: 0, current_char }
    }

    /// Reads what stands at the cursor: one token, or something that is
    /// passed over.
    fn scan_next(&mut self) -> (token: Option<Token>)
        requires
            old(self).wf(),
            old(self).position < old(self).input.len(),
        ensures
            final(self).wf(),
            final(self).input == old(self).input,
            final(self).position == scan(old(self).input@, old(self).position as int).next,
            match token {
                Some(token) => scan(old(self).input@, old(self).position as int).token == Some(
                    token@,
                ),
                None => scan(old(self).input@, old(self).position as int).token is None,
            },
    {
        let ch = self.current_char.unwrap();
        match ch {
            ' ' | '\t' => {
                self.advance();
                None
            },
            '\n' => {
                self.advance();
                Some(Token::Newline)
            },
            '#' => {
                if self.peek(1) == Some('[') {
                    self.skip_multiline_comment();
                } else {
                    self.skip_comment();
                }
                None
            },
            '"' => Some(self.read_string()),
            '0'..='9' => Some(self.read_number()),
            'a'..='z' | 'A'..='Z' | '_' => Some(self.read_identifier_or_unit()),
            '^' => {
                if self.peek(1) == Some('\u{f7}') && self.peek(2) == Some('^') && self.peek(3)
                    == Some('[') {
                    Some(self.read_ui_sprite())
                } else {
                    self.advance();
                    Some(Token::Caret)
                }
            },
            '+' => {
                self.advance();
                Some(Token::Plus)
            },
            '-' => {
                if self.peek(1) == Some('>') {
                    self.advance();
                    self.advance();
                    Some(Token::Arrow)
                } else {
                    self.advance();
                    Some(Token::Minus)
                }
            },
            '*' => {
                self.advance();
                Some(Token::Star)
            },
            '/' => {
                self.advance();
                Some(Token::Slash)
            },
            '%' => {
                self.advance();
                Some(Token::Percent)
            },
            '(' => {
                self.advance();
                Some(Token::LeftParen)
            },
            ')' => {
                self.advance();
                Some(Token::RightParen)
            },
            '[' => {
                self.advance();
                Some(Token::LeftBracket)
            },
            ']' => {
                self.advance();
                Some(Token::RightBracket)
            },
            '{' => {
                self.advance();
                Some(Token::LeftBrace)
            },
            '}' => {
                self.advance();
                Some(Token::RightBrace)
            },
            ',' => {
                self.advance();
                Some(Token::Comma)
            },
            ':' => {
                self.advance();
                Some(Token::Colon)
            },
            ';' => {
                self.advance();
                Some(Token::Semicolon)
            },
            '.' => {
                self.advance();
                Some(Token::Dot)
            },
            '=' => {
                if self.peek(1) == Some('=') {
                    self.advance();
                    self.advance();
                    Some(Token::EqualEqual)
                } else {
                    self.advance();
                    Some(Token::Equal)
                }
            },
            '!' => {
                if self.peek(1) == Some('=') {
                    self.advance();
                    self.advance();
                    Some(Token::BangEqual)
                } else {
                    self.advance();
                    Some(Token::Not)
                }
            },
            '<' => {
                if self.peek(1) == Some('=') {
                    self.advance();
                    self.advance();
                    Some(Token::LessEqual)
                } else if self.peek(1) == Some('<') {
                    self.advance();
                    self.advance();
                    Some(Token::LessLess)
                } else {
                    self.advance();
                    Some(Token::Less)
                }
            },
            '>' => {
                if self.peek(1) == Some('=') {
                    self.advance();
                    self.advance();
                    Some(Token::GreaterEqual)
                } else if self.peek(1) == Some('>') {
                    self.advance();
                    self.advance();
                    Some(Token::GreaterGreater)
                } else {
                    self.advance();
                    Some(Token::Greater)
                }
            },
            '&' => {
                if self.peek(1) == Some('&') {
                    self.advance();
                    self.advance();
                    Some(Token::And)
                } else {
                    self.advance();
                    Some(Token::Ampersand)
                }
            },
            '|' => {
                if self.peek(1) == Some('|') {
                    self.advance();
                    self.advance();
                    Some(Token::Or)
                } else {
                    self.advance();
                    Some(Token::Pipe)
                }
            },
            _ => {
                self.advance();
                None
            },
        }
    }

    /// Reads the rest of the text into tokens. The result is exactly what
    /// the lexical grammar gives for the text from the cursor on, so it
    /// always ends with `Eof`; characters that belong to no token are passed
    /// over, and a literal that the text does not close ends with the text.
    /// The cursor is left at the end.
    pub fn tokenize(&mut self) -> (tokens: Vec<Token>)
        requires
            old(self).wf(),
        ensures
            final(self).wf(),
            final(self).source() == old(self).source(),
            final(self).offset() == old(self).source().len(),
            token_views(tokens@) == lex_from(old(self).source(), old(self).offset()),
            tokens@.len() >= 1,
            tokens@.last()@ == TokenView::Eof,
    {
        let ghost s = self.input@;
        let ghost start = self.position as int;
        let mut tokens: Vec<Token> = Vec::new();
        assert(token_views(tokens@) + lex_from(s, start) =~= lex_from(s, start));

        while self.current_char.is_some()
            invariant
                self.wf(),
                self.input@ == s,
                token_views(tokens@) + lex_from(s, self.position as int) == lex_from(s, start),
            decreases self.input.len() - self.position,
        {
            let ghost before = token_views(tokens@);
            let ghost pos = self.position as int;
            proof {
                lemma_scan_advances(s, pos);
            }
            match self.scan_next() {
                Some(token) => {
                    tokens.push(token);
                    assert(token_views(tokens@) =~= before.push(token@));
                },
                None => {},
            }
            assert(token_views(tokens@) + lex_from(s, self.position as int) =~= before + lex_from(
                s,
                pos,
            ));
        }

        tokens.push(Token::Eof);
        assert(token_views(tokens@) =~= lex_from(s, start));
        tokens
    }

    /// Reads the rest of the text into tokens as [`Lexer::tokenize`] does,
    /// and gives each token its place in the text.
    pub fn tokenize_spanned(&mut self) -> (tokens: Vec<SpannedToken>)
        requires
            old(self).wf(),
        ensures
            final(self).wf(),
            final(self).source() == old(self).source(),
            final(self).offset() == old(self).source().len(),
            spanned_views(tokens@) == lex_from(old(self).source(), old(self).offset()),
            spans_of(tokens@) == spans_from(old(self).source(), old(self).offset()),
            tokens@.len() >= 1,
            tokens@.last().token@ == TokenView::Eof,
    {
        let ghost s = self.input@;
        let ghost start = self.position as int;
        let mut tokens: Vec<SpannedToken> = Vec::new();
        let (mut line, mut line_start) = self.locate();
        assert(spanned_views(tokens@) + lex_from(s, start) =~= lex_from(s, start));
        assert(spans_of(tokens@) + spans_from(s, start) =~= spans_from(s, start));

        while self.current_char.is_some()
            invariant
                self.wf(),
                self.input@ == s,
                line == line_feeds(s, self.position as int),
                line_start == line_start_of(s, self.position as int),
                spanned_views(tokens@) + lex_from(s, self.position as int) == lex_from(s, start),
                spans_of(tokens@) + spans_from(s, self.position as int) == spans_from(s, start),
            decreases self.input.len() - self.position,
        {
            let ghost before = spanned_views(tokens@);
            let ghost spans_before = spans_of(tokens@);
            let from = self.position;
            proof {
                lemma_scan_advances(s, from as int);
                lemma_line_bounds(s, from as int);
            }
            let found = self.scan_next();
            let span = Span { line, column: from - line_start, length: self.position - from };
            match found {
                Some(token) => {
                    tokens.push(SpannedToken { token, span });
                    assert(spanned_views(tokens@) =~= before.push(token@));
                    assert(spans_of(tokens@) =~= spans_before.push(span));
                },
                None => {},
            }
            assert(spanned_views(tokens@) + lex_from(s, self.position as int) =~= before
                + lex_from(s, from as int));
            assert(spans_of(tokens@) + spans_from(s, self.position as int) =~= spans_before
                + spans_from(s, from as int));

            let mut at = from;
            while at < self.position
                invariant
                    from <= at <= self.position <= self.input.len(),
                    self.input@ == s,
                    line == line_feeds(s, at as int),
                    line_start == line_start_of(s, at as int),
                decreases self.position - at,
            {
                proof {
                    lemma_line_bounds(s, at as int);
                }
                if self.input[at] == '\n' {
                    line += 1;
                    line_start = at + 1;
                }
                at += 1;
            }
        }

        proof {
            lemma_line_bounds(s, self.position as int);
        }
        let span = Span { line, column: self.position - line_start, length: 0 };
        let ghost before = spanned_views(tokens@);
        let ghost spans_before = spans_of(tokens@);
        tokens.push(SpannedToken { token: Token::Eof, span });
        assert(spanned_views(tokens@) =~= before.push(TokenView::Eof));
        assert(spans_of(tokens@) =~= spans_before.push(span));
        assert(spanned_views(tokens@) =~= lex_from(s, start));
        assert(spans_of(tokens@) =~= spans_from(s, start));
        tokens
    }

    /// The line of the cursor and where that line starts.
    fn locate(&self) -> (place: (usize, usize))
        requires
            self.wf(),
        ensures
            place.0 == line_feeds(self.input@, self.position as int),
            place.1 == line_start_of(self.input@, self.position as int),
    {
        let mut line: usize = 0;
        let mut line_start: usize = 0;
        let mut at: usize = 0;
        while at < self.position
            invariant
                at <= self.position <= self.input.len(),
                line == line_feeds(self.input@, at as int),
                line_start == line_start_of(self.input@, at as int),
            decreases self.position - at,
        {
            proof {
                lemma_line_bounds(self.input@, at as int);
            }
            if self.input[at] == '\n' {
                line += 1;
                line_start = at + 1;
            }
            at += 1;
        }
        (line, line_start)
    }

    /// Moves the cursor one character on.
    fn advance(&mut self)
        requires
            old(self).wf(),
            old(self).position < old(self).input.len(),
        ensures
            final(self).wf(),
            final(self).input == old(self).input,
            final(self).position == old(self).position + 1,
    {
        self.position += 1;
        self.current_char = if self.position < self.input.len() {
            Some(self.input[self.position])
        } else {
            None
        };
    }

    /// The character `offset` places behind the cursor, if the text
    /// reaches that far.
    fn peek(&self, offset: usize) -> (found: Option<char>)
        requires
            self.wf(),
        ensures
            found == if self.position + offset < self.input.len() {
                Some(self.input[self.position + offset])
            } else {
                None
            },
    {
        if offset < self.input.len() - self.position {
            Some(self.input[self.position + offset])
        } else {
            None
        }
    }

    /// Passes over a line comment, up to the line feed that ends it.
    #[verifier::loop_isolation(false)]
    fn skip_comment(&mut self)
        requires
            old(self).wf(),
        ensures
            final(self).wf(),
            final(self).input == old(self).input,
            final(self).position == line_comment_end(old(self).input@, old(self).position as int),
    {
        let ghost s = self.input@;
        let ghost start = self.position as int;
        while self.current_char.is_some() && self.current_char != Some('\n')
            invariant
                self.wf(),
                self.input@ == s,
                self.input == old(self).input,
                line_comment_end(s, self.position as int) == line_comment_end(s, start),
            decreases self.input.len() - self.position,
        {
            self.advance();
        }
    }

    /// Passes over a block comment, the cursor standing on its `#[`.
    #[verifier::loop_isolation(false)]
    fn skip_multiline_comment(&mut self)
        requires
            old(self).wf(),
            old(self).position + 1 < old(self).input.len(),
        ensures
            final(self).wf(),
            final(self).input == old(self).input,
            final(self).position == block_comment_end(
                old(self).input@,
                old(self).position + 2,
            ),
    {
        let ghost s = self.input@;
        let ghost start = self.position + 2;
        self.advance();
        self.advance();

        while self.current_char.is_some()
            invariant
                self.wf(),
                self.input@ == s,
                self.input == old(self).input,
                block_comment_end(s, self.position as int) == block_comment_end(s, start),
            decreases self.input.len() - self.position,
        {
            let ch = self.current_char.unwrap();
            if ch == ']' && self.peek(1) == Some('#') {
                self.advance();
                self.advance();
                return ;
            }
            self.advance();
        }
    }

    /// Reads a sprite literal, the cursor standing on its marker.
    #[verifier::loop_isolation(false)]
    fn read_ui_sprite(&mut self) -> (token: Token)
        requires
            old(self).wf(),
            sprite_marker_at(old(self).input@, old(self).position as int),
        ensures
            final(self).wf(),
            final(self).input == old(self).input,
            token@ == scan_sprite(old(self).input@, old(self).position as int).token->0,
            final(self).position == scan_sprite(old(self).input@, old(self).position as int).next,
    {
        let ghost s = self.input@;
        let ghost start = self.position + 4;
        self.advance();
        self.advance();
        self.advance();
        self.advance();

        let mut content = String::new();
        let mut depth: usize = 1;

        while self.current_char.is_some()
            invariant
                self.wf(),
                self.input@ == s,
                self.input == old(self).input,
                start <= self.position,
                1 <= depth <= self.position - start + 1,
                content@ == s.subrange(start, self.position as int),
                sprite_close(s, self.position as int, depth as nat) == sprite_close(s, start, 1),
            decreases self.input.len() - self.position,
        {
            let ch = self.current_char.unwrap();
            if ch == '[' {
                depth += 1;
                content.push(ch);
                self.advance();
            } else if ch == ']' {
                depth -= 1;
                if depth == 0 {
                    self.advance();
                    return Token::UiSprite(content);
                }
                content.push(ch);
                self.advance();
            } else {
                content.push(ch);
                self.advance();
            }
            assert(content@ =~= s.subrange(start, self.position as int));
        }

        Token::UiSprite(content)
    }

    /// Reads a string literal, the cursor standing on its opening quote.
    #[verifier::loop_isolation(false)]
    fn read_string(&mut self) -> (token: Token)
        requires
            old(self).wf(),
            old(self).position < old(self).input.len(),
        ensures
            final(self).wf(),
            final(self).input == old(self).input,
            token@ == scan_string(old(self).input@, old(self).position as int).token->0,
            final(self).position == scan_string(old(self).input@, old(self).position as int).next,
    {
        let ghost s = self.input@;
        let ghost start = self.position + 1;
        self.advance();
        let mut value = String::new();

        while self.current_char.is_some()
            invariant
                self.wf(),
                self.input@ == s,
                self.input == old(self).input,
                start <= self.position,
                value@ == s.subrange(start, self.position as int),
                run_end(s, self.position as int, |c: char| c != '"') == run_end(
                    s,
                    start,
                    |c: char| c != '"',
                ),
            decreases self.input.len() - self.position,
        {
            let ch = self.current_char.unwrap();
            if ch == '"' {
                self.advance();
                return Token::String(value);
            }
            value.push(ch);
            self.advance();
            assert(value@ =~= s.subrange(start, self.position as int));
        }

        Token::String(value)
    }

    /// Reads a numeric literal, the cursor standing on its first digit.
    #[verifier::loop_isolation(false)]
    fn read_number(&mut self) -> (token: Token)
        requires
            old(self).wf(),
        ensures
            final(self).wf(),
            final(self).input == old(self).input,
            token@ == scan_number(old(self).input@, old(self).position as int).token->0,
            final(self).position == scan_number(old(self).input@, old(self).position as int).next,
    {
        let ghost s = self.input@;
        let ghost start = self.position as int;
        let ghost whole = run_end(s, start, |c: char| is_digit(c));
        let mut value = String::new();
        let mut number: i64 = 0;
        let mut is_float = false;

        while self.current_char.is_some()
            invariant
                self.wf(),
                self.input@ == s,
                self.input == old(self).input,
                start <= self.position,
                value@ == s.subrange(start, self.position as int),
                whole == run_end(s, start, |c: char| is_digit(c)),
                !is_float ==> run_end(s, self.position as int, |c: char| is_digit(c)) == whole,
                !is_float ==> 0 <= decimal_value(s.subrange(start, self.position as int)),
                !is_float ==> number == integer_value(s.subrange(start, self.position as int)),
                is_float ==> whole < self.position && s[whole] == '.',
                is_float ==> run_end(s, self.position as int, |c: char| is_digit(c)) == run_end(
                    s,
                    whole + 1,
                    |c: char| is_digit(c),
                ),
            decreases self.input.len() - self.position,
        {
            let ch = self.current_char.unwrap();
            if '0' <= ch && ch <= '9' {
                if !is_float {
                    proof {
                        lemma_decimal_value_push(s, start, self.position as int);
                    }
                    let digit: i64 = (ch as u32 - '0' as u32) as i64;
                    if number > (i64::MAX - digit) / 10 {
                        number = i64::MAX;
                    } else {
                        number = number * 10 + digit;
                    }
                }
                value.push(ch);
                self.advance();
            } else if ch == '.' && !is_float {
                is_float = true;
                value.push(ch);
                self.advance();
            } else {
                break ;
            }
            assert(value@ =~= s.subrange(start, self.position as int));
        }

        if is_float {
            Token::Float(value)
        } else {
            Token::Integer(number)
        }
    }

    /// Reads a keyword, an identifier or a unit, the cursor standing on the
    /// first character of the word.
    #[verifier::loop_isolation(false)]
    fn read_identifier_or_unit(&mut self) -> (token: Token)
        requires
            old(self).wf(),
        ensures
            final(self).wf(),
            final(self).input == old(self).input,
            token@ == scan_word(old(self).input@, old(self).position as int).token->0,
            final(self).position == scan_word(old(self).input@, old(self).position as int).next,
    {
        let ghost s = self.input@;
        let ghost start = self.position as int;
        let mut value = String::new();

        while self.current_char.is_some()
            invariant
                self.wf(),
                self.input@ == s,
                self.input == old(self).input,
                start <= self.position,
                value@ == s.subrange(start, self.position as int),
                run_end(s, self.position as int, |c: char| is_word_char(c)) == run_end(
                    s,
                    start,
                    |c: char| is_word_char(c),
                ),
            decreases self.input.len() - self.position,
        {
            let ch = self.current_char.unwrap();
            if char_is_alphanumeric(ch) || ch == '_' {
                value.push(ch);
                self.advance();
            } else {
                break ;
            }
            assert(value@ =~= s.subrange(start, self.position as int));
        }

        match keyword_token(value.as_str()) {
            Some(token) => token,
            None => {
                if self.current_char == Some('/') || self.current_char == Some('^') {
                    let ghost end = self.position as int;
                    let mut unit = value.clone();

                    while self.current_char.is_some()
                        invariant
                            self.wf(),
                            self.input@ == s,
                            self.input == old(self).input,
                            start <= self.position,
                            unit@ == s.subrange(start, self.position as int),
                            run_end(s, self.position as int, |c: char| is_unit_char(c)) == run_end(
                                s,
                                end,
                                |c: char| is_unit_char(c),
                            ),
                        decreases self.input.len() - self.position,
                    {
                        let ch = self.current_char.unwrap();
                        if ch == '/' || ch == '^' || char_is_alphanumeric(ch) {
                            unit.push(ch);
                            self.advance();
                        } else {
                            break ;
                        }
                        assert(unit@ =~= s.subrange(start, self.position as int));
                    }

                    Token::Unit(unit)
                } else {
                    Token::Identifier(value)
                }
            },
        }
    }
}

} // verus!
