//! The token vocabulary of the language.

use vstd::prelude::*;
use crate::text::{debug_text, push_signed, signed_digits, str_debug};

verus! {

/// One lexical unit of a source text.
#[derive(Debug, Clone, PartialEq)]
pub enum Token {
    // Keywords
    Imp,
    Def,
    Fn,
    Asy,
    Cs,
    Mn,
    Own,
    Ref,
    Copy,
    Await,
    Loop,
    If,
    Elif,
    Else,
    For,
    While,
    In,
    Return,
    Break,
    Continue,
    Try,
    Catch,
    // Literals
    Integer(i64),
    /// A literal with a decimal point, kept as it was written.
    Float(String),
    String(String),
    Bool(bool),
    // Identifiers
    Identifier(String),
    // Operators
    Plus,
    Minus,
    Star,
    Slash,
    Percent,
    Caret,
    Equal,
    EqualEqual,
    NotEqual,
    Less,
    Greater,
    LessEqual,
    GreaterEqual,
    And,
    Or,
    Not,
    // Delimiters
    LeftParen,
    RightParen,
    LeftBracket,
    RightBracket,
    LeftBrace,
    RightBrace,
    Comma,
    Colon,
    Dot,
    Arrow,
    /// The text between the sprite marker and its closing bracket.
    UiSprite(String),
    /// A physical unit such as `m/s^2`.
    Unit(String),
    // Structure
    Newline,
    Indent,
    Dedent,
    Eof,
    // Further operators
    BangEqual,
    LessLess,
    GreaterGreater,
    Ampersand,
    Pipe,
    Semicolon,
}

/// The mathematical value of a [`Token`]: texts are character sequences and
/// numbers are unbounded.
pub enum TokenView {
    Imp,
    Def,
    Fn,
    Asy,
    Cs,
    Mn,
    Own,
    Ref,
    Copy,
    Await,
    Loop,
    If,
    Elif,
    Else,
    For,
    While,
    In,
    Return,
    Break,
    Continue,
    Try,
    Catch,
    Integer(int),
    Float(Seq<char>),
    String(Seq<char>),
    Bool(bool),
    Identifier(Seq<char>),
    Plus,
    Minus,
    Star,
    Slash,
    Percent,
    Caret,
    Equal,
    EqualEqual,
    NotEqual,
    Less,
    Greater,
    LessEqual,
    GreaterEqual,
    And,
    Or,
    Not,
    LeftParen,
    RightParen,
    LeftBracket,
    RightBracket,
    LeftBrace,
    RightBrace,
    Comma,
    Colon,
    Dot,
    Arrow,
    UiSprite(Seq<char>),
    Unit(Seq<char>),
    Newline,
    Indent,
    Dedent,
    Eof,
    BangEqual,
    LessLess,
    GreaterGreater,
    Ampersand,
    Pipe,
    Semicolon,
}

impl View for Token {
    type V = TokenView;

    open spec fn view(&self) -> TokenView {
        match self {
            Token::Imp => TokenView::Imp,
            Token::Def => TokenView::Def,
            Token::Fn => TokenView::Fn,
            Token::Asy => TokenView::Asy,
            Token::Cs => TokenView::Cs,
            Token::Mn => TokenView::Mn,
            Token::Own => TokenView::Own,
            Token::Ref => TokenView::Ref,
            Token::Copy => TokenView::Copy,
            Token::Await => TokenView::Await,
            Token::Loop => TokenView::Loop,
            Token::If => TokenView::If,
            Token::Elif => TokenView::Elif,
            Token::Else => TokenView::Else,
            Token::For => TokenView::For,
            Token::While => TokenView::While,
            Token::In => TokenView::In,
            Token::Return => TokenView::Return,
            Token::Break => TokenView::Break,
            Token::Continue => TokenView::Continue,
            Token::Try => TokenView::Try,
            Token::Catch => TokenView::Catch,
            Token::Integer(n) => TokenView::Integer(*n as int),
            Token::Float(s) => TokenView::Float(s@),
            Token::String(s) => TokenView::String(s@),
            Token::Bool(b) => TokenView::Bool(*b),
            Token::Identifier(s) => TokenView::Identifier(s@),
            Token::Plus => TokenView::Plus,
            Token::Minus => TokenView::Minus,
            Token::Star => TokenView::Star,
            Token::Slash => TokenView::Slash,
            Token::Percent => TokenView::Percent,
            Token::Caret => TokenView::Caret,
            Token::Equal => TokenView::Equal,
            Token::EqualEqual => TokenView::EqualEqual,
            Token::NotEqual => TokenView::NotEqual,
            Token::Less => TokenView::Less,
            Token::Greater => TokenView::Greater,
            Token::LessEqual => TokenView::LessEqual,
            Token::GreaterEqual => TokenView::GreaterEqual,
            Token::And => TokenView::And,
            Token::Or => TokenView::Or,
            Token::Not => TokenView::Not,
            Token::LeftParen => TokenView::LeftParen,
            Token::RightParen => TokenView::RightParen,
            Token::LeftBracket => TokenView::LeftBracket,
            Token::RightBracket => TokenView::RightBracket,
            Token::LeftBrace => TokenView::LeftBrace,
            Token::RightBrace => TokenView::RightBrace,
            Token::Comma => TokenView::Comma,
            Token::Colon => TokenView::Colon,
            Token::Dot => TokenView::Dot,
            Token::Arrow => TokenView::Arrow,
            Token::UiSprite(s) => TokenView::UiSprite(s@),
            Token::Unit(s) => TokenView::Unit(s@),
            Token::Newline => TokenView::Newline,
            Token::Indent => TokenView::Indent,
            Token::Dedent => TokenView::Dedent,
            Token::Eof => TokenView::Eof,
            Token::BangEqual => TokenView::BangEqual,
            Token::LessLess => TokenView::LessLess,
            Token::GreaterGreater => TokenView::GreaterGreater,
            Token::Ampersand => TokenView::Ampersand,
            Token::Pipe => TokenView::Pipe,
            Token::Semicolon => TokenView::Semicolon,
        }
    }
}

impl Token {
    /// A copy of the token.
    pub fn duplicate(&self) -> (copy: Token)
        ensures
            copy@ == self@,
    {
        match self {
            Token::Imp => Token::Imp,
            Token::Def => Token::Def,
            Token::Fn => Token::Fn,
            Token::Asy => Token::Asy,
            Token::Cs => Token::Cs,
            Token::Mn => Token::Mn,
            Token::Own => Token::Own,
            Token::Ref => Token::Ref,
            Token::Copy => Token::Copy,
            Token::Await => Token::Await,
            Token::Loop => Token::Loop,
            Token::If => Token::If,
            Token::Elif => Token::Elif,
            Token::Else => Token::Else,
            Token::For => Token::For,
            Token::While => Token::While,
            Token::In => Token::In,
            Token::Return => Token::Return,
            Token::Break => Token::Break,
            Token::Continue => Token::Continue,
            Token::Try => Token::Try,
            Token::Catch => Token::Catch,
            Token::Integer(value) => Token::Integer(*value),
            Token::Float(text) => Token::Float(text.clone()),
            Token::String(text) => Token::String(text.clone()),
            Token::Bool(value) => Token::Bool(*value),
            Token::Identifier(text) => Token::Identifier(text.clone()),
            Token::Plus => Token::Plus,
            Token::Minus => Token::Minus,
            Token::Star => Token::Star,
            Token::Slash => Token::Slash,
            Token::Percent => Token::Percent,
            Token::Caret => Token::Caret,
            Token::Equal => Token::Equal,
            Token::EqualEqual => Token::EqualEqual,
            Token::NotEqual => Token::NotEqual,
            Token::Less => Token::Less,
            Token::Greater => Token::Greater,
            Token::LessEqual => Token::LessEqual,
            Token::GreaterEqual => Token::GreaterEqual,
            Token::And => Token::And,
            Token::Or => Token::Or,
            Token::Not => Token::Not,
            Token::LeftParen => Token::LeftParen,
            Token::RightParen => Token::RightParen,
            Token::LeftBracket => Token::LeftBracket,
            Token::RightBracket => Token::RightBracket,
            Token::LeftBrace => Token::LeftBrace,
            Token::RightBrace => Token::RightBrace,
            Token::Comma => Token::Comma,
            Token::Colon => Token::Colon,
            Token::Dot => Token::Dot,
            Token::Arrow => Token::Arrow,
            Token::UiSprite(text) => Token::UiSprite(text.clone()),
            Token::Unit(text) => Token::Unit(text.clone()),
            Token::Newline => Token::Newline,
            Token::Indent => Token::Indent,
            Token::Dedent => Token::Dedent,
            Token::Eof => Token::Eof,
            Token::BangEqual => Token::BangEqual,
            Token::LessLess => Token::LessLess,
            Token::GreaterGreater => Token::GreaterGreater,
            Token::Ampersand => Token::Ampersand,
            Token::Pipe => Token::Pipe,
            Token::Semicolon => Token::Semicolon,
        }
    }
}

/// The text of a token: the name of its kind, with its content in
/// parentheses where it has one. A string stands in double quotes, a unit as
/// `{:?}` writes it, and a float as it was written.
pub open spec fn token_text(token: TokenView) -> Seq<char> {
    match token {
        TokenView::Identifier(name) => "Identifier("@ + name + ")"@,
        TokenView::Integer(value) => "Integer("@ + signed_digits(value) + ")"@,
        TokenView::Float(text) => "Float("@ + text + ")"@,
        TokenView::String(text) => "String(\""@ + text + "\")"@,
        TokenView::UiSprite(text) => "UiSprite("@ + text + ")"@,
        TokenView::Bool(value) => if value {
            "Bool(true)"@
        } else {
            "Bool(false)"@
        },
        TokenView::Unit(text) => "Unit("@ + debug_text(text) + ")"@,
        TokenView::Imp => "Imp"@,
        TokenView::Def => "Def"@,
        TokenView::Fn => "Fn"@,
        TokenView::Asy => "Asy"@,
        TokenView::Cs => "Cs"@,
        TokenView::Mn => "Mn"@,
        TokenView::Own => "Own"@,
        TokenView::Ref => "Ref"@,
        TokenView::Copy => "Copy"@,
        TokenView::Await => "Await"@,
        TokenView::Loop => "Loop"@,
        TokenView::If => "If"@,
        TokenView::Elif => "Elif"@,
        TokenView::Else => "Else"@,
        TokenView::For => "For"@,
        TokenView::While => "While"@,
        TokenView::In => "In"@,
        TokenView::Return => "Return"@,
        TokenView::Break => "Break"@,
        TokenView::Continue => "Continue"@,
        TokenView::Try => "Try"@,
        TokenView::Catch => "Catch"@,
        TokenView::Plus => "Plus"@,
        TokenView::Minus => "Minus"@,
        TokenView::Star => "Star"@,
        TokenView::Slash => "Slash"@,
        TokenView::Percent => "Percent"@,
        TokenView::Caret => "Caret"@,
        TokenView::Equal => "Equal"@,
        TokenView::EqualEqual => "EqualEqual"@,
        TokenView::NotEqual => "NotEqual"@,
        TokenView::Less => "Less"@,
        TokenView::Greater => "Greater"@,
        TokenView::LessEqual => "LessEqual"@,
        TokenView::GreaterEqual => "GreaterEqual"@,
        TokenView::And => "And"@,
        TokenView::Or => "Or"@,
        TokenView::Not => "Not"@,
        TokenView::LeftParen => "LeftParen"@,
        TokenView::RightParen => "RightParen"@,
        TokenView::LeftBracket => "LeftBracket"@,
        TokenView::RightBracket => "RightBracket"@,
        TokenView::LeftBrace => "LeftBrace"@,
        TokenView::RightBrace => "RightBrace"@,
        TokenView::Comma => "Comma"@,
        TokenView::Colon => "Colon"@,
        TokenView::Dot => "Dot"@,
        TokenView::Arrow => "Arrow"@,
        TokenView::Newline => "Newline"@,
        TokenView::Indent => "Indent"@,
        TokenView::Dedent => "Dedent"@,
        TokenView::Eof => "Eof"@,
        TokenView::BangEqual => "BangEqual"@,
        TokenView::LessLess => "LessLess"@,
        TokenView::GreaterGreater => "GreaterGreater"@,
        TokenView::Ampersand => "Ampersand"@,
        TokenView::Pipe => "Pipe"@,
        TokenView::Semicolon => "Semicolon"@,
    }
}

impl Token {
    /// The text of the token, for messages.
    pub fn to_text(&self) -> (text: String)
        ensures
            text@ == token_text(self@),
    {
        match self {
            Token::Identifier(name) => {
                let mut text = String::from_str("Identifier(");
                text.append(name.as_str());
                text.append(")");
                text
            },
            Token::Integer(value) => {
                let mut text = String::from_str("Integer(");
                push_signed(*value, &mut text);
                text.append(")");
                text
            },
            Token::Float(written) => {
                let mut text = String::from_str("Float(");
                text.append(written.as_str());
                text.append(")");
                text
            },
            Token::String(content) => {
                let mut text = String::from_str("String(\"");
                text.append(content.as_str());
                text.append("\")");
                text
            },
            Token::UiSprite(content) => {
                let mut text = String::from_str("UiSprite(");
                text.append(content.as_str());
                text.append(")");
                text
            },
            Token::Bool(value) => {
                if *value {
                    String::from_str("Bool(true)")
                } else {
                    String::from_str("Bool(false)")
                }
            },
            Token::Unit(unit) => {
                let mut text = String::from_str("Unit(");
                text.append(str_debug(unit.as_str()).as_str());
                text.append(")");
                text
            },
            Token::Imp => String::from_str("Imp"),
            Token::Def => String::from_str("Def"),
            Token::Fn => String::from_str("Fn"),
            Token::Asy => String::from_str("Asy"),
            Token::Cs => String::from_str("Cs"),
            Token::Mn => String::from_str("Mn"),
            Token::Own => String::from_str("Own"),
            Token::Ref => String::from_str("Ref"),
            Token::Copy => String::from_str("Copy"),
            Token::Await => String::from_str("Await"),
            Token::Loop => String::from_str("Loop"),
            Token::If => String::from_str("If"),
            Token::Elif => String::from_str("Elif"),
            Token::Else => String::from_str("Else"),
            Token::For => String::from_str("For"),
            Token::While => String::from_str("While"),
            Token::In => String::from_str("In"),
            Token::Return => String::from_str("Return"),
            Token::Break => String::from_str("Break"),
            Token::Continue => String::from_str("Continue"),
            Token::Try => String::from_str("Try"),
            Token::Catch => String::from_str("Catch"),
            Token::Plus => String::from_str("Plus"),
            Token::Minus => String::from_str("Minus"),
            Token::Star => String::from_str("Star"),
            Token::Slash => String::from_str("Slash"),
            Token::Percent => String::from_str("Percent"),
            Token::Caret => String::from_str("Caret"),
            Token::Equal => String::from_str("Equal"),
            Token::EqualEqual => String::from_str("EqualEqual"),
            Token::NotEqual => String::from_str("NotEqual"),
            Token::Less => String::from_str("Less"),
            Token::Greater => String::from_str("Greater"),
            Token::LessEqual => String::from_str("LessEqual"),
            Token::GreaterEqual => String::from_str("GreaterEqual"),
            Token::And => String::from_str("And"),
            Token::Or => String::from_str("Or"),
            Token::Not => String::from_str("Not"),
            Token::LeftParen => String::from_str("LeftParen"),
            Token::RightParen => String::from_str("RightParen"),
            Token::LeftBracket => String::from_str("LeftBracket"),
            Token::RightBracket => String::from_str("RightBracket"),
            Token::LeftBrace => String::from_str("LeftBrace"),
            Token::RightBrace => String::from_str("RightBrace"),
            Token::Comma => String::from_str("Comma"),
            Token::Colon => String::from_str("Colon"),
            Token::Dot => String::from_str("Dot"),
            Token::Arrow => String::from_str("Arrow"),
            Token::Newline => String::from_str("Newline"),
            Token::Indent => String::from_str("Indent"),
            Token::Dedent => String::from_str("Dedent"),
            Token::Eof => String::from_str("Eof"),
            Token::BangEqual => String::from_str("BangEqual"),
            Token::LessLess => String::from_str("LessLess"),
            Token::GreaterGreater => String::from_str("GreaterGreater"),
            Token::Ampersand => String::from_str("Ampersand"),
            Token::Pipe => String::from_str("Pipe"),
            Token::Semicolon => String::from_str("Semicolon"),
        }
    }
}

/// Where a token stands in its text. Lines and columns are counted from 0,
/// columns and lengths in characters.
#[derive(Debug, Clone, Copy, PartialEq, Eq, Structural)]
pub struct Span {
    pub line: usize,
    pub column: usize,
    pub length: usize,
}

/// A token with its place in the text.
#[derive(Debug, Clone, PartialEq)]
pub struct SpannedToken {
    pub token: Token,
    pub span: Span,
}

/// The values of a run of placed tokens, in order.
pub open spec fn spanned_views(tokens: Seq<SpannedToken>) -> Seq<TokenView> {
    tokens.map_values(|t: SpannedToken| t.token@)
}

/// The places of a run of placed tokens, in order.
pub open spec fn spans_of(tokens: Seq<SpannedToken>) -> Seq<Span> {
    tokens.map_values(|t: SpannedToken| t.span)
}

/// The values of a run of tokens, in order.
pub open spec fn token_views(tokens: Seq<Token>) -> Seq<TokenView> {
    tokens.map_values(|t: Token| t@)
}

} // verus!
