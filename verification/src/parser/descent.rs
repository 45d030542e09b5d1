//! The parser: recursive descent along the grammar.

use vstd::prelude::*;
use crate::ast::{
    entry_views, expr_views, lemma_call_view, lemma_dict_view, lemma_list_view,
    lemma_sprite_view, lemma_statement_views, parameter_views, stmt_views, BinaryOp, ExprView,
    Expression, Ownership, Parameter, ParameterView, Program, Statement, StmtView, UnaryOp,
};
use crate::lexer::grammar::{lex, spans_from};
use crate::lexer::scanner::Lexer;
use crate::lexer::token::{spanned_views, spans_of, Span, SpannedToken, Token, TokenView};
use crate::parser::grammar;
use crate::parser::grammar::{
    binary_operator, distinct_keys, ends_statement, entry_key, precedence,
    token_at, SyntaxError,
};

verus! {

/// Why tokens are no program: the offending token, its place, and what
/// should have stood there.
#[derive(Debug, Clone, PartialEq)]
pub struct ParseError {
    pub token: Token,
    pub span: Span,
    pub expected: String,
}

/// The place of the token at `pos`; behind the last token, the start of the
/// text.
pub open spec fn span_at(tokens: Seq<SpannedToken>, pos: int) -> Span {
    if 0 <= pos < tokens.len() {
        tokens[pos].span
    } else {
        Span { line: 0, column: 0, length: 0 }
    }
}

impl ParseError {
    /// Whether this error reports `error` for `tokens`: it carries the
    /// token at the place of the error, the place of that token, and what
    /// was expected.
    pub open spec fn reports(&self, tokens: Seq<SpannedToken>, error: SyntaxError) -> bool {
        &&& self.token@ == token_at(spanned_views(tokens), error.at)
        &&& self.span == span_at(tokens, error.at)
        &&& self.expected@ == error.expected
    }
}

/// Whether what the parser returned for an expression is what the grammar
/// gives.
pub open spec fn expr_agrees(
    result: Result<(Expression, usize), ParseError>,
    wanted: Result<(ExprView, int), SyntaxError>,
    tokens: Seq<SpannedToken>,
) -> bool {
    match result {
        Ok((expr, next)) => wanted == Ok::<(ExprView, int), SyntaxError>((expr@, next as int)),
        Err(error) => wanted is Err && error.reports(tokens, wanted->Err_0),
    }
}

/// Whether what the parser returned for a run of expressions is what the
/// grammar gives.
pub open spec fn items_agree(
    result: Result<(Vec<Expression>, usize), ParseError>,
    wanted: Result<(Seq<ExprView>, int), SyntaxError>,
    tokens: Seq<SpannedToken>,
) -> bool {
    match result {
        Ok((items, next)) => wanted == Ok::<(Seq<ExprView>, int), SyntaxError>(
            (expr_views(items@), next as int),
        ),
        Err(error) => wanted is Err && error.reports(tokens, wanted->Err_0),
    }
}

/// Whether what the parser returned for a run of keys with values is what
/// the grammar gives.
pub open spec fn entries_agree(
    result: Result<(Vec<(String, Expression)>, usize), ParseError>,
    wanted: Result<(Seq<(Seq<char>, ExprView)>, int), SyntaxError>,
    tokens: Seq<SpannedToken>,
) -> bool {
    match result {
        Ok((entries, next)) => wanted == Ok::<(Seq<(Seq<char>, ExprView)>, int), SyntaxError>(
            (entry_views(entries@), next as int),
        ),
        Err(error) => wanted is Err && error.reports(tokens, wanted->Err_0),
    }
}

/// The token at `pos`, if the tokens reach that far.
pub(crate) fn peek(tokens: &[SpannedToken], pos: usize) -> (token: Option<&Token>)
    ensures
        tokens@.len() <= usize::MAX,
        match token {
            Some(token) => pos < tokens@.len() && token@ == token_at(
                spanned_views(tokens@),
                pos as int,
            ),
            None => pos >= tokens@.len() && token_at(spanned_views(tokens@), pos as int)
                == TokenView::Eof,
        },
{
    if pos < tokens.len() {
        Some(&tokens[pos].token)
    } else {
        None
    }
}

/// The error that `expected` is missing at `pos`.
pub(crate) fn error_at(tokens: &[SpannedToken], pos: usize, expected: &str) -> (error: ParseError)
    ensures
        error.reports(tokens@, SyntaxError { at: pos as int, expected: expected@ }),
{
    if pos < tokens.len() {
        ParseError {
            token: tokens[pos].token.duplicate(),
            span: tokens[pos].span,
            expected: String::from_str(expected),
        }
    } else {
        ParseError {
            token: Token::Eof,
            span: Span { line: 0, column: 0, length: 0 },
            expected: String::from_str(expected),
        }
    }
}

/// The binary operator that a token stands for, with its precedence.
fn operator_of(token: Option<&Token>) -> (found: Option<(BinaryOp, u8)>)
    ensures
        match found {
            Some((op, level)) => token is Some && binary_operator(token->0@) == Some(op) && level
                == precedence(op),
            None => token is None || binary_operator(token->0@) is None,
        },
{
    match token {
        Some(Token::Or) => Some((BinaryOp::Or, 1)),
        Some(Token::And) => Some((BinaryOp::And, 2)),
        Some(Token::EqualEqual) => Some((BinaryOp::Equal, 3)),
        Some(Token::BangEqual) => Some((BinaryOp::NotEqual, 3)),
        Some(Token::NotEqual) => Some((BinaryOp::NotEqual, 3)),
        Some(Token::Less) => Some((BinaryOp::Less, 4)),
        Some(Token::Greater) => Some((BinaryOp::Greater, 4)),
        Some(Token::LessEqual) => Some((BinaryOp::LessEqual, 4)),
        Some(Token::GreaterEqual) => Some((BinaryOp::GreaterEqual, 4)),
        Some(Token::Plus) => Some((BinaryOp::Add, 5)),
        Some(Token::Minus) => Some((BinaryOp::Subtract, 5)),
        Some(Token::Star) => Some((BinaryOp::Multiply, 6)),
        Some(Token::Slash) => Some((BinaryOp::Divide, 6)),
        Some(Token::Percent) => Some((BinaryOp::Modulo, 6)),
        Some(Token::Caret) => Some((BinaryOp::Power, 7)),
        _ => None,
    }
}

/// Whether no key occurs twice.
fn keys_distinct(entries: &Vec<(String, Expression)>) -> (distinct: bool)
    ensures
        distinct == distinct_keys(entry_views(entries@)),
{
    let mut j: usize = 0;
    while j < entries.len()
        invariant
            j <= entries.len(),
            forall|a: int, b: int|
                0 <= a < b < j ==> entry_views(entries@)[a].0 != entry_views(entries@)[b].0,
        decreases entries.len() - j,
    {
        let mut i: usize = 0;
        while i < j
            invariant
                i <= j < entries.len(),
                forall|a: int|
                    0 <= a < i ==> entry_views(entries@)[a].0 != entry_views(entries@)[j as int].0,
            decreases j - i,
        {
            if entries[i].0 == entries[j].0 {
                assert(entry_views(entries@)[i as int].0 == entry_views(entries@)[j as int].0);
                return false;
            }
            i += 1;
        }
        j += 1;
    }
    true
}

/// An expression whose binary operators at the top all have a precedence of
/// at least `min`.
pub(crate) fn parse_binary(tokens: &[SpannedToken], pos: usize, min: u8, limit: usize) -> (result:
    Result<(Expression, usize), ParseError>)
    requires
        pos <= tokens@.len(),
    ensures
        expr_agrees(
            result,
            grammar::parse_binary(spanned_views(tokens@), pos as int, min as nat, limit as nat),
            tokens@,
        ),
        result matches Ok((_, next)) ==> pos < next <= tokens@.len(),
    decreases limit, tokens@.len() - pos, 5nat,
{
    let ghost views = spanned_views(tokens@);
    let ghost wanted = grammar::parse_binary(views, pos as int, min as nat, limit as nat);
    let (mut left, mut at) = match parse_unary(tokens, pos, limit) {
        Ok(found) => found,
        Err(error) => {
            return Err(error);
        },
    };
    loop
        invariant
            views == spanned_views(tokens@),
            wanted == grammar::parse_binary(views, pos as int, min as nat, limit as nat),
            pos < at <= tokens@.len(),
            wanted == grammar::climb(views, at as int, left@, min as nat, limit as nat),
        ensures
            wanted == Ok::<(ExprView, int), SyntaxError>((left@, at as int)),
        decreases tokens@.len() - at,
    {
        match operator_of(peek(tokens, at)) {
            Some((op, level)) => {
                if level >= min {
                    let inner = if level == 7 {
                        level
                    } else {
                        level + 1
                    };
                    match parse_binary(tokens, at + 1, inner, limit) {
                        Ok((right, next)) => {
                            left =
                            Expression::Binary { left: Box::new(left), op, right: Box::new(right) };
                            at = next;
                        },
                        Err(error) => {
                            return Err(error);
                        },
                    }
                } else {
                    break ;
                }
            },
            None => {
                break ;
            },
        }
    }
    Ok((left, at))
}

/// An expression with its prefix operators.
fn parse_unary(tokens: &[SpannedToken], pos: usize, limit: usize) -> (result: Result<
    (Expression, usize),
    ParseError,
>)
    requires
        pos <= tokens@.len(),
    ensures
        expr_agrees(
            result,
            grammar::parse_unary(spanned_views(tokens@), pos as int, limit as nat),
            tokens@,
        ),
        result matches Ok((_, next)) ==> pos < next <= tokens@.len(),
    decreases limit, tokens@.len() - pos, 4nat,
{
    match peek(tokens, pos) {
        Some(Token::Minus) => match parse_unary(tokens, pos + 1, limit) {
            Ok((operand, next)) => Ok(
                (Expression::Unary { op: UnaryOp::Negate, operand: Box::new(operand) }, next),
            ),
            Err(error) => Err(error),
        },
        Some(Token::Not) => match parse_unary(tokens, pos + 1, limit) {
            Ok((operand, next)) => Ok(
                (Expression::Unary { op: UnaryOp::Not, operand: Box::new(operand) }, next),
            ),
            Err(error) => Err(error),
        },
        Some(Token::Await) => match parse_unary(tokens, pos + 1, limit) {
            Ok((operand, next)) => Ok((Expression::Await(Box::new(operand)), next)),
            Err(error) => Err(error),
        },
        _ => parse_postfix(tokens, pos, limit),
    }
}

/// A primary expression with the calls, indexings and member accesses that
/// follow it.
fn parse_postfix(tokens: &[SpannedToken], pos: usize, limit: usize) -> (result: Result<
    (Expression, usize),
    ParseError,
>)
    requires
        pos <= tokens@.len(),
    ensures
        expr_agrees(
            result,
            grammar::parse_postfix(spanned_views(tokens@), pos as int, limit as nat),
            tokens@,
        ),
        result matches Ok((_, next)) ==> pos < next <= tokens@.len(),
    decreases limit, tokens@.len() - pos, 3nat,
{
    let ghost views = spanned_views(tokens@);
    let ghost wanted = grammar::parse_postfix(views, pos as int, limit as nat);
    let (mut base, mut at) = match parse_primary(tokens, pos, limit) {
        Ok(found) => found,
        Err(error) => {
            return Err(error);
        },
    };
    loop
        invariant
            views == spanned_views(tokens@),
            wanted == grammar::parse_postfix(views, pos as int, limit as nat),
            pos < at <= tokens@.len(),
            wanted == grammar::postfix_rest(views, at as int, base@, limit as nat),
        ensures
            wanted == Ok::<(ExprView, int), SyntaxError>((base@, at as int)),
        decreases tokens@.len() - at,
    {
        match peek(tokens, at) {
            Some(Token::LeftParen) => match parse_items(tokens, at + 1, false, limit) {
                Ok((args, next)) => {
                    proof {
                        lemma_call_view(base, args);
                    }
                    base = Expression::Call { function: Box::new(base), args };
                    at = next;
                },
                Err(error) => {
                    return Err(error);
                },
            },
            Some(Token::LeftBracket) => match parse_binary(tokens, at + 1, 1, limit) {
                Ok((index, next)) => {
                    match peek(tokens, next) {
                        Some(Token::RightBracket) => {
                            base =
                            Expression::Index { object: Box::new(base), index: Box::new(index) };
                            at = next + 1;
                        },
                        _ => {
                            return Err(error_at(tokens, next, "']'"));
                        },
                    }
                },
                Err(error) => {
                    return Err(error);
                },
            },
            Some(Token::Dot) => match peek(tokens, at + 1) {
                Some(Token::Identifier(member)) => {
                    base = Expression::Member { object: Box::new(base), member: member.clone() };
                    at = at + 2;
                },
                _ => {
                    return Err(error_at(tokens, at + 1, "member name"));
                },
            },
            _ => {
                break ;
            },
        }
    }
    Ok((base, at))
}

/// A literal, a name, a sprite, an expression in parentheses, a list or a
/// dictionary.
fn parse_primary(tokens: &[SpannedToken], pos: usize, limit: usize) -> (result: Result<
    (Expression, usize),
    ParseError,
>)
    requires
        pos <= tokens@.len(),
    ensures
        expr_agrees(
            result,
            grammar::parse_primary(spanned_views(tokens@), pos as int, limit as nat),
            tokens@,
        ),
        result matches Ok((_, next)) ==> pos < next <= tokens@.len(),
    decreases limit, tokens@.len() - pos, 2nat,
{
    match peek(tokens, pos) {
        Some(Token::Integer(value)) => Ok((Expression::Integer(*value), pos + 1)),
        Some(Token::Float(text)) => Ok((Expression::Float(text.clone()), pos + 1)),
        Some(Token::String(text)) => Ok((Expression::String(text.clone()), pos + 1)),
        Some(Token::Bool(value)) => Ok((Expression::Bool(*value), pos + 1)),
        Some(Token::Identifier(name)) => Ok((Expression::Identifier(name.clone()), pos + 1)),
        Some(Token::UiSprite(text)) => {
            let length = text.as_str().unicode_len();
            if length < limit {
                let mut lexer = Lexer::new(text.as_str());
                let inner = lexer.tokenize_spanned();
                match parse_sprite(inner.as_slice(), length) {
                    Ok((sprite, _)) => Ok((sprite, pos + 1)),
                    Err(error) => Err(error_at(tokens, pos, error.expected.as_str())),
                }
            } else {
                Err(error_at(tokens, pos, "shorter sprite literal"))
            }
        },
        Some(Token::LeftParen) => match parse_binary(tokens, pos + 1, 1, limit) {
            Ok((inner, next)) => match peek(tokens, next) {
                Some(Token::RightParen) => Ok((inner, next + 1)),
                _ => Err(error_at(tokens, next, "')'")),
            },
            Err(error) => Err(error),
        },
        Some(Token::LeftBracket) => match parse_items(tokens, pos + 1, true, limit) {
            Ok((items, next)) => {
                proof {
                    lemma_list_view(items);
                }
                Ok((Expression::List(items), next))
            },
            Err(error) => Err(error),
        },
        Some(Token::LeftBrace) => match parse_entries(tokens, pos + 1, false, limit) {
            Ok((entries, next)) => {
                proof {
                    lemma_dict_view(entries);
                }
                Ok((Expression::Dict(entries), next))
            },
            Err(error) => Err(error),
        },
        _ => Err(error_at(tokens, pos, "expression")),
    }
}

/// The token that closes a run of expressions: `]` for a list, `)` for the
/// arguments of a call.
pub open spec fn closing(square: bool) -> TokenView {
    if square {
        TokenView::RightBracket
    } else {
        TokenView::RightParen
    }
}

/// The token between a key and its value: `=` in a sprite, `:` in a
/// dictionary.
pub open spec fn between(sprite: bool) -> TokenView {
    if sprite {
        TokenView::Equal
    } else {
        TokenView::Colon
    }
}

/// Whether the token closes a run of expressions.
fn closes(token: Option<&Token>, square: bool) -> (r: bool)
    ensures
        r == (token is Some && token->0@ == closing(square)),
{
    match token {
        Some(Token::RightBracket) => square,
        Some(Token::RightParen) => !square,
        _ => false,
    }
}

/// Whether the token stands between a key and its value.
fn separates(token: Option<&Token>, sprite: bool) -> (r: bool)
    ensures
        r == (token is Some && token->0@ == between(sprite)),
{
    match token {
        Some(Token::Equal) => sprite,
        Some(Token::Colon) => !sprite,
        _ => false,
    }
}

/// Expressions separated by commas, up to and with the closing token.
fn parse_items(tokens: &[SpannedToken], pos: usize, square: bool, limit: usize) -> (result: Result<
    (Vec<Expression>, usize),
    ParseError,
>)
    requires
        pos <= tokens@.len(),
    ensures
        items_agree(
            result,
            grammar::parse_items(
                spanned_views(tokens@),
                pos as int,
                closing(square),
                limit as nat,
            ),
            tokens@,
        ),
        result matches Ok((_, next)) ==> pos < next <= tokens@.len(),
    decreases limit, tokens@.len() - pos, 7nat,
{
    let ghost views = spanned_views(tokens@);
    let ghost wanted = grammar::parse_items(views, pos as int, closing(square), limit as nat);
    let mut items: Vec<Expression> = Vec::new();
    if closes(peek(tokens, pos), square) {
        assert(expr_views(items@) =~= Seq::empty());
        return Ok((items, pos + 1));
    }
    let mut at = pos;
    assert(expr_views(items@) =~= Seq::empty());
    loop
        invariant
            views == spanned_views(tokens@),
            wanted == grammar::parse_items(views, pos as int, closing(square), limit as nat),
            pos <= at <= tokens@.len(),
            wanted == grammar::items_rest(
                views,
                at as int,
                closing(square),
                expr_views(items@),
                limit as nat,
            ),
        decreases tokens@.len() - at,
    {
        let ghost done = expr_views(items@);
        match parse_binary(tokens, at, 1, limit) {
            Ok((item, next)) => {
                items.push(item);
                assert(expr_views(items@) =~= done.push(item@));
                match peek(tokens, next) {
                    Some(Token::Comma) => {
                        at = next + 1;
                    },
                    other => {
                        if closes(other, square) {
                            return Ok((items, next + 1));
                        } else {
                            return Err(error_at(tokens, next, "',' or closing bracket"));
                        }
                    },
                }
            },
            Err(error) => {
                return Err(error);
            },
        }
    }
}

/// The key that a token is, if it is one.
fn key_of(token: Option<&Token>) -> (key: Option<String>)
    ensures
        match key {
            Some(key) => token is Some && entry_key(token->0@) == Some(key@),
            None => token is None || entry_key(token->0@) is None,
        },
{
    match token {
        Some(Token::Identifier(name)) => Some(name.clone()),
        Some(Token::String(text)) => Some(text.clone()),
        _ => None,
    }
}

/// Keys with their values, separated by commas, up to and with `}`.
fn parse_entries(tokens: &[SpannedToken], pos: usize, sprite: bool, limit: usize) -> (result:
    Result<(Vec<(String, Expression)>, usize), ParseError>)
    requires
        pos <= tokens@.len(),
    ensures
        entries_agree(
            result,
            grammar::parse_entries(
                spanned_views(tokens@),
                pos as int,
                between(sprite),
                limit as nat,
            ),
            tokens@,
        ),
        result matches Ok((_, next)) ==> pos < next <= tokens@.len(),
    decreases limit, tokens@.len() - pos, 7nat,
{
    let ghost views = spanned_views(tokens@);
    let ghost wanted = grammar::parse_entries(views, pos as int, between(sprite), limit as nat);
    let mut entries: Vec<(String, Expression)> = Vec::new();
    assert(entry_views(entries@) =~= Seq::empty());
    if let Some(Token::RightBrace) = peek(tokens, pos) {
        return Ok((entries, pos + 1));
    }
    let mut at = pos;
    loop
        invariant
            views == spanned_views(tokens@),
            wanted == grammar::parse_entries(views, pos as int, between(sprite), limit as nat),
            pos <= at <= tokens@.len(),
            wanted == grammar::entries_rest(
                views,
                at as int,
                between(sprite),
                entry_views(entries@),
                limit as nat,
            ),
        decreases tokens@.len() - at,
    {
        let ghost done = entry_views(entries@);
        let key = match key_of(peek(tokens, at)) {
            Some(key) => key,
            None => {
                return Err(error_at(tokens, at, "key"));
            },
        };
        if !separates(peek(tokens, at + 1), sprite) {
            return Err(error_at(tokens, at + 1, "separator behind the key"));
        }
        match parse_binary(tokens, at + 2, 1, limit) {
            Ok((value, next)) => {
                let ghost entry = (key@, value@);
                entries.push((key, value));
                assert(entry_views(entries@) =~= done.push(entry));
                match peek(tokens, next) {
                    Some(Token::Comma) => {
                        at = next + 1;
                    },
                    Some(Token::RightBrace) => {
                        return Ok((entries, next + 1));
                    },
                    _ => {
                        return Err(error_at(tokens, next, "',' or '}'"));
                    },
                }
            },
            Err(error) => {
                return Err(error);
            },
        }
    }
}

/// The text of a sprite literal, given as its tokens.
fn parse_sprite(inner: &[SpannedToken], limit: usize) -> (result: Result<
    (Expression, usize),
    ParseError,
>)
    ensures
        expr_agrees(result, grammar::parse_sprite(spanned_views(inner@), limit as nat), inner@),
    decreases limit, inner@.len() + 1, 0nat,
{
    match peek(inner, 0) {
        Some(Token::Identifier(sprite_type)) => match peek(inner, 1) {
            Some(Token::LeftBrace) => match parse_entries(inner, 2, true, limit) {
                Ok((properties, next)) => {
                    if peek(inner, next).is_some() && !matches!(peek(inner, next), Some(Token::Eof)) {
                        Err(error_at(inner, next, "end of sprite"))
                    } else if !keys_distinct(&properties) {
                        Err(error_at(inner, next, "distinct property names"))
                    } else {
                        proof {
                            lemma_sprite_view(*sprite_type, properties);
                        }
                        Ok(
                            (
                                Expression::UiSprite {
                                    sprite_type: sprite_type.clone(),
                                    properties,
                                },
                                next,
                            ),
                        )
                    }
                },
                Err(error) => Err(error),
            },
            Some(Token::Eof) | None => {
                let properties: Vec<(String, Expression)> = Vec::new();
                proof {
                    lemma_sprite_view(*sprite_type, properties);
                    assert(entry_views(properties@) =~= Seq::empty());
                }
                Ok((Expression::UiSprite { sprite_type: sprite_type.clone(), properties }, 1))
            },
            _ => Err(error_at(inner, 1, "'{'")),
        },
        _ => Err(error_at(inner, 0, "sprite type")),
    }
}

/// Whether what the parser returned for a statement is what the grammar
/// gives.
pub open spec fn stmt_agrees(
    result: Result<(Statement, usize), ParseError>,
    wanted: Result<(StmtView, int), SyntaxError>,
    tokens: Seq<SpannedToken>,
) -> bool {
    match result {
        Ok((statement, next)) => wanted == Ok::<(StmtView, int), SyntaxError>(
            (statement@, next as int),
        ),
        Err(error) => wanted is Err && error.reports(tokens, wanted->Err_0),
    }
}

/// Whether what the parser returned for a run of statements is what the
/// grammar gives.
pub open spec fn stmts_agree(
    result: Result<(Vec<Statement>, usize), ParseError>,
    wanted: Result<(Seq<StmtView>, int), SyntaxError>,
    tokens: Seq<SpannedToken>,
) -> bool {
    match result {
        Ok((statements, next)) => wanted == Ok::<(Seq<StmtView>, int), SyntaxError>(
            (stmt_views(statements@), next as int),
        ),
        Err(error) => wanted is Err && error.reports(tokens, wanted->Err_0),
    }
}

/// Whether what the parser returned for a parameter list is what the
/// grammar gives.
pub open spec fn params_agree(
    result: Result<(Vec<Parameter>, usize), ParseError>,
    wanted: Result<(Seq<ParameterView>, int), SyntaxError>,
    tokens: Seq<SpannedToken>,
) -> bool {
    match result {
        Ok((params, next)) => wanted == Ok::<(Seq<ParameterView>, int), SyntaxError>(
            (parameter_views(params@), next as int),
        ),
        Err(error) => wanted is Err && error.reports(tokens, wanted->Err_0),
    }
}

/// An ownership tag at `pos`, if one stands there; else `Own`.
fn parse_ownership(tokens: &[SpannedToken], pos: usize) -> (found: (Ownership, usize))
    requires
        pos <= tokens@.len(),
    ensures
        (found.0, found.1 as int) == grammar::parse_ownership(spanned_views(tokens@), pos as int),
        pos <= found.1 <= tokens@.len(),
{
    match peek(tokens, pos) {
        Some(Token::Own) => (Ownership::Own, pos + 1),
        Some(Token::Ref) => (Ownership::Ref, pos + 1),
        Some(Token::Copy) => (Ownership::Copy, pos + 1),
        _ => (Ownership::Own, pos),
    }
}

/// The position of the first token at or after `pos` that is no line end.
fn skip_newlines(tokens: &[SpannedToken], pos: usize) -> (at: usize)
    requires
        pos <= tokens@.len(),
    ensures
        at == grammar::skip_newlines(spanned_views(tokens@), pos as int),
        pos <= at <= tokens@.len(),
{
    let mut at = pos;
    while matches!(peek(tokens, at), Some(Token::Newline))
        invariant
            pos <= at <= tokens@.len(),
            grammar::skip_newlines(spanned_views(tokens@), at as int) == grammar::skip_newlines(
                spanned_views(tokens@),
                pos as int,
            ),
        decreases tokens@.len() - at,
    {
        at += 1;
    }
    at
}

/// An import behind `imp`.
fn parse_import(tokens: &[SpannedToken], pos: usize) -> (result: Result<
    (Statement, usize),
    ParseError,
>)
    requires
        pos <= tokens@.len(),
    ensures
        stmt_agrees(result, grammar::parse_import(spanned_views(tokens@), pos as int), tokens@),
        result matches Ok((_, next)) ==> pos < next <= tokens@.len(),
{
    let ghost views = spanned_views(tokens@);
    let ghost wanted = grammar::parse_import(views, pos as int);
    match peek(tokens, pos) {
        Some(Token::String(path)) => Ok((Statement::Import(path.clone()), pos + 1)),
        Some(Token::Identifier(first)) => {
            let mut path = first.clone();
            let mut at = pos + 1;
            loop
                invariant
                    views == spanned_views(tokens@),
                    pos < at <= tokens@.len(),
                    wanted == grammar::parse_import(views, pos as int),
                    wanted == grammar::import_rest(views, at as int, path@),
                ensures
                    pos < at <= tokens@.len(),
                    wanted == Ok::<(StmtView, int), SyntaxError>(
                        (StmtView::Import(path@), at as int),
                    ),
                decreases tokens@.len() - at,
            {
                match peek(tokens, at) {
                    Some(Token::Dot) => match peek(tokens, at + 1) {
                        Some(Token::Identifier(part)) => {
                            let ghost before = path@;
                            path.push('.');
                            path.append(part.as_str());
                            assert(path@ =~= before + seq!['.'] + part@);
                            at = at + 2;
                        },
                        _ => {
                            return Err(error_at(tokens, at + 1, "module name"));
                        },
                    },
                    _ => {
                        break ;
                    },
                }
            }
            Ok((Statement::Import(path), at))
        },
        _ => Err(error_at(tokens, pos, "module path")),
    }
}

/// A foreign block behind `cs`.
fn parse_custom_block(tokens: &[SpannedToken], pos: usize) -> (result: Result<
    (Statement, usize),
    ParseError,
>)
    requires
        pos <= tokens@.len(),
    ensures
        stmt_agrees(
            result,
            grammar::parse_custom_block(spanned_views(tokens@), pos as int),
            tokens@,
        ),
        result matches Ok((_, next)) ==> pos < next <= tokens@.len(),
{
    match peek(tokens, pos) {
        Some(Token::Identifier(language)) => match peek(tokens, pos + 1) {
            Some(Token::LeftBrace) => {
                let at = skip_newlines(tokens, pos + 2);
                match peek(tokens, at) {
                    Some(Token::String(code)) => {
                        let end = skip_newlines(tokens, at + 1);
                        match peek(tokens, end) {
                            Some(Token::RightBrace) => Ok(
                                (
                                    Statement::CustomBlock {
                                        language: language.clone(),
                                        code: code.clone(),
                                    },
                                    end + 1,
                                ),
                            ),
                            _ => Err(error_at(tokens, end, "'}'")),
                        }
                    },
                    _ => Err(error_at(tokens, at, "code as a string literal")),
                }
            },
            _ => Err(error_at(tokens, pos + 1, "'{'")),
        },
        _ => Err(error_at(tokens, pos, "language name")),
    }
}

/// A parameter list behind its `(`, up to and with its `)`.
fn parse_params(tokens: &[SpannedToken], pos: usize) -> (result: Result<
    (Vec<Parameter>, usize),
    ParseError,
>)
    requires
        pos <= tokens@.len(),
    ensures
        params_agree(result, grammar::parse_params(spanned_views(tokens@), pos as int), tokens@),
        result matches Ok((_, next)) ==> pos < next <= tokens@.len(),
{
    let ghost views = spanned_views(tokens@);
    let ghost wanted = grammar::parse_params(views, pos as int);
    let mut params: Vec<Parameter> = Vec::new();
    assert(parameter_views(params@) =~= Seq::empty());
    if let Some(Token::RightParen) = peek(tokens, pos) {
        return Ok((params, pos + 1));
    }
    let mut at = pos;
    loop
        invariant
            views == spanned_views(tokens@),
            pos <= at <= tokens@.len(),
            wanted == grammar::parse_params(views, pos as int),
            wanted == grammar::params_rest(views, at as int, parameter_views(params@)),
        decreases tokens@.len() - at,
    {
        let ghost done = parameter_views(params@);
        let (ownership, name_at) = parse_ownership(tokens, at);
        match peek(tokens, name_at) {
            Some(Token::Identifier(name)) => {
                let parameter = Parameter { name: name.clone(), ownership };
                params.push(parameter);
                assert(parameter_views(params@) =~= done.push(
                    ParameterView { name: name@, ownership },
                ));
                match peek(tokens, name_at + 1) {
                    Some(Token::Comma) => {
                        at = name_at + 2;
                    },
                    Some(Token::RightParen) => {
                        return Ok((params, name_at + 2));
                    },
                    _ => {
                        return Err(error_at(tokens, name_at + 1, "',' or ')'"));
                    },
                }
            },
            _ => {
                return Err(error_at(tokens, name_at, "parameter name"));
            },
        }
    }
}

/// Whether a token ends a statement.
fn is_statement_end(token: Option<&Token>) -> (r: bool)
    ensures
        r == (token is None || ends_statement(token->0@)),
{
    match token {
        None => true,
        Some(Token::Newline) => true,
        Some(Token::Semicolon) => true,
        Some(Token::RightBrace) => true,
        Some(Token::Eof) => true,
        _ => false,
    }
}

/// Statements up to, and without, the `}` or the end that follows them.
fn parse_statements(tokens: &[SpannedToken], pos: usize, limit: usize) -> (result: Result<
    (Vec<Statement>, usize),
    ParseError,
>)
    requires
        pos <= tokens@.len(),
    ensures
        stmts_agree(
            result,
            grammar::parse_statements(spanned_views(tokens@), pos as int, limit as nat),
            tokens@,
        ),
        result matches Ok((_, next)) ==> pos <= next <= tokens@.len(),
    decreases limit, tokens@.len() - pos, 10nat,
{
    let ghost views = spanned_views(tokens@);
    let ghost wanted = grammar::parse_statements(views, pos as int, limit as nat);
    let mut statements: Vec<Statement> = Vec::new();
    assert(stmt_views(statements@) =~= Seq::empty());
    let mut at = pos;
    loop
        invariant
            views == spanned_views(tokens@),
            pos <= at <= tokens@.len(),
            wanted == grammar::parse_statements(views, pos as int, limit as nat),
            wanted == grammar::statements_rest(
                views,
                at as int,
                stmt_views(statements@),
                limit as nat,
            ),
        ensures
            pos <= at <= tokens@.len(),
            wanted == Ok::<(Seq<StmtView>, int), SyntaxError>(
                (stmt_views(statements@), at as int),
            ),
        decreases tokens@.len() - at,
    {
        let ghost done = stmt_views(statements@);
        match peek(tokens, at) {
            Some(Token::Newline) => {
                at += 1;
            },
            Some(Token::Semicolon) => {
                at += 1;
            },
            Some(Token::RightBrace) => {
                break ;
            },
            Some(Token::Eof) => {
                break ;
            },
            None => {
                break ;
            },
            _ => match parse_statement(tokens, at, limit) {
                Ok((statement, next)) => {
                    statements.push(statement);
                    assert(stmt_views(statements@) =~= done.push(statement@));
                    at = next;
                },
                Err(error) => {
                    return Err(error);
                },
            },
        }
    }
    Ok((statements, at))
}

/// A body: statements between `{` and `}`.
fn parse_block(tokens: &[SpannedToken], pos: usize, limit: usize) -> (result: Result<
    (Vec<Statement>, usize),
    ParseError,
>)
    requires
        pos <= tokens@.len(),
    ensures
        stmts_agree(
            result,
            grammar::parse_block(spanned_views(tokens@), pos as int, limit as nat),
            tokens@,
        ),
        result matches Ok((_, next)) ==> pos < next <= tokens@.len(),
    decreases limit, tokens@.len() - pos, 11nat,
{
    match peek(tokens, pos) {
        Some(Token::LeftBrace) => match parse_statements(tokens, pos + 1, limit) {
            Ok((body, next)) => match peek(tokens, next) {
                Some(Token::RightBrace) => Ok((body, next + 1)),
                _ => Err(error_at(tokens, next, "'}'")),
            },
            Err(error) => Err(error),
        },
        _ => Err(error_at(tokens, pos, "'{'")),
    }
}

/// A function behind `fn` or `asy`.
fn parse_function(tokens: &[SpannedToken], pos: usize, is_async: bool, limit: usize) -> (result:
    Result<(Statement, usize), ParseError>)
    requires
        pos <= tokens@.len(),
    ensures
        stmt_agrees(
            result,
            grammar::parse_function(spanned_views(tokens@), pos as int, is_async, limit as nat),
            tokens@,
        ),
        result matches Ok((_, next)) ==> pos < next <= tokens@.len(),
    decreases limit, tokens@.len() - pos, 12nat,
{
    match peek(tokens, pos) {
        Some(Token::Identifier(name)) => match peek(tokens, pos + 1) {
            Some(Token::LeftParen) => match parse_params(tokens, pos + 2) {
                Ok((params, next)) => match parse_block(tokens, next, limit) {
                    Ok((body, end)) => {
                        let statement = Statement::Function {
                            name: name.clone(),
                            params,
                            body,
                            is_async,
                        };
                        proof {
                            lemma_statement_views(statement);
                        }
                        Ok((statement, end))
                    },
                    Err(error) => Err(error),
                },
                Err(error) => Err(error),
            },
            _ => Err(error_at(tokens, pos + 1, "'('")),
        },
        _ => Err(error_at(tokens, pos, "function name")),
    }
}

/// A conditional behind `if` or `elif`.
fn parse_conditional(tokens: &[SpannedToken], pos: usize, limit: usize) -> (result: Result<
    (Statement, usize),
    ParseError,
>)
    requires
        pos <= tokens@.len(),
    ensures
        stmt_agrees(
            result,
            grammar::parse_conditional(spanned_views(tokens@), pos as int, limit as nat),
            tokens@,
        ),
        result matches Ok((_, next)) ==> pos < next <= tokens@.len(),
    decreases limit, tokens@.len() - pos, 12nat,
{
    let (condition, next) = match parse_binary(tokens, pos, 1, limit) {
        Ok(found) => found,
        Err(error) => {
            return Err(error);
        },
    };
    let (then_body, after) = match parse_block(tokens, next, limit) {
        Ok(found) => found,
        Err(error) => {
            return Err(error);
        },
    };
    match peek(tokens, after) {
        Some(Token::Elif) => match parse_conditional(tokens, after + 1, limit) {
            Ok((nested, end)) => {
                let ghost inner = nested@;
                let mut else_body: Vec<Statement> = Vec::new();
                else_body.push(nested);
                assert(stmt_views(else_body@) =~= seq![inner]);
                let statement = Statement::If { condition, then_body, else_body: Some(else_body) };
                proof {
                    lemma_statement_views(statement);
                }
                Ok((statement, end))
            },
            Err(error) => Err(error),
        },
        Some(Token::Else) => match parse_block(tokens, after + 1, limit) {
            Ok((else_body, end)) => {
                let statement = Statement::If { condition, then_body, else_body: Some(else_body) };
                proof {
                    lemma_statement_views(statement);
                }
                Ok((statement, end))
            },
            Err(error) => Err(error),
        },
        _ => {
            let statement = Statement::If { condition, then_body, else_body: None };
            proof {
                lemma_statement_views(statement);
            }
            Ok((statement, after))
        },
    }
}

/// One statement.
fn parse_statement(tokens: &[SpannedToken], pos: usize, limit: usize) -> (result: Result<
    (Statement, usize),
    ParseError,
>)
    requires
        pos <= tokens@.len(),
    ensures
        stmt_agrees(
            result,
            grammar::parse_statement(spanned_views(tokens@), pos as int, limit as nat),
            tokens@,
        ),
        result matches Ok((_, next)) ==> pos < next <= tokens@.len(),
    decreases limit, tokens@.len() - pos, 8nat,
{
    match peek(tokens, pos) {
        Some(Token::Imp) => parse_import(tokens, pos + 1),
        Some(Token::Def) => {
            let (ownership, at) = parse_ownership(tokens, pos + 1);
            match peek(tokens, at) {
                Some(Token::Identifier(name)) => match peek(tokens, at + 1) {
                    Some(Token::Equal) => match parse_binary(tokens, at + 2, 1, limit) {
                        Ok((value, next)) => Ok(
                            (Statement::Definition { name: name.clone(), ownership, value }, next),
                        ),
                        Err(error) => Err(error),
                    },
                    _ => Err(error_at(tokens, at + 1, "'='")),
                },
                _ => Err(error_at(tokens, at, "name")),
            }
        },
        Some(Token::Fn) => parse_function(tokens, pos + 1, false, limit),
        Some(Token::Asy) => parse_function(tokens, pos + 1, true, limit),
        Some(Token::Cs) => parse_custom_block(tokens, pos + 1),
        Some(Token::Mn) => match parse_block(tokens, pos + 1, limit) {
            Ok((body, next)) => {
                let statement = Statement::Main { body };
                proof {
                    lemma_statement_views(statement);
                }
                Ok((statement, next))
            },
            Err(error) => Err(error),
        },
        Some(Token::Return) => {
            if is_statement_end(peek(tokens, pos + 1)) {
                Ok((Statement::Return(None), pos + 1))
            } else {
                match parse_binary(tokens, pos + 1, 1, limit) {
                    Ok((value, next)) => Ok((Statement::Return(Some(value)), next)),
                    Err(error) => Err(error),
                }
            }
        },
        Some(Token::If) => parse_conditional(tokens, pos + 1, limit),
        Some(Token::Loop) => match parse_block(tokens, pos + 1, limit) {
            Ok((body, next)) => {
                let statement = Statement::Loop { body };
                proof {
                    lemma_statement_views(statement);
                }
                Ok((statement, next))
            },
            Err(error) => Err(error),
        },
        Some(Token::For) => match peek(tokens, pos + 1) {
            Some(Token::Identifier(variable)) => match peek(tokens, pos + 2) {
                Some(Token::In) => match parse_binary(tokens, pos + 3, 1, limit) {
                    Ok((iterable, next)) => match parse_block(tokens, next, limit) {
                        Ok((body, end)) => {
                            let statement = Statement::For {
                                variable: variable.clone(),
                                iterable,
                                body,
                            };
                            proof {
                                lemma_statement_views(statement);
                            }
                            Ok((statement, end))
                        },
                        Err(error) => Err(error),
                    },
                    Err(error) => Err(error),
                },
                _ => Err(error_at(tokens, pos + 2, "'in'")),
            },
            _ => Err(error_at(tokens, pos + 1, "loop variable")),
        },
        Some(Token::While) => match parse_binary(tokens, pos + 1, 1, limit) {
            Ok((condition, next)) => match parse_block(tokens, next, limit) {
                Ok((body, end)) => {
                    let statement = Statement::While { condition, body };
                    proof {
                        lemma_statement_views(statement);
                    }
                    Ok((statement, end))
                },
                Err(error) => Err(error),
            },
            Err(error) => Err(error),
        },
        Some(Token::Break) => Ok((Statement::Break, pos + 1)),
        Some(Token::Continue) => Ok((Statement::Continue, pos + 1)),
        _ => match parse_binary(tokens, pos, 1, limit) {
            Ok((value, next)) => Ok((Statement::Expression(value), next)),
            Err(error) => Err(error),
        },
    }
}

/// Whether what the parser returned for a program is what the grammar
/// gives.
pub open spec fn program_agrees(
    result: Result<Program, ParseError>,
    wanted: Result<Seq<StmtView>, SyntaxError>,
    tokens: Seq<SpannedToken>,
) -> bool {
    match result {
        Ok(program) => wanted == Ok::<Seq<StmtView>, SyntaxError>(program@),
        Err(error) => wanted is Err && error.reports(tokens, wanted->Err_0),
    }
}

/// Parses a whole run of tokens. The result is the program that the
/// grammar gives for the tokens, or the first error, with the offending
/// token and its place; tokens behind the error are not looked at.
pub fn parse(tokens: &[SpannedToken]) -> (result: Result<Program, ParseError>)
    ensures
        program_agrees(result, grammar::parse_program(spanned_views(tokens@)), tokens@),
{
    match parse_statements(tokens, 0, usize::MAX) {
        Ok((statements, next)) => match peek(tokens, next) {
            Some(Token::Eof) | None => Ok(Program { statements }),
            _ => Err(error_at(tokens, next, "statement")),
        },
        Err(error) => Err(error),
    }
}

/// Whether an error reports `wanted` for a source text: it carries the
/// token at the place of the error, the place of that token in the text,
/// and what was expected.
pub open spec fn reports_in(error: ParseError, source: Seq<char>, wanted: SyntaxError) -> bool {
    &&& error.token@ == token_at(lex(source), wanted.at)
    &&& error.span == if 0 <= wanted.at < spans_from(source, 0).len() {
        spans_from(source, 0)[wanted.at]
    } else {
        Span { line: 0, column: 0, length: 0 }
    }
    &&& error.expected@ == wanted.expected
}

/// Whether what came of a source text is what the grammars give for it.
pub open spec fn source_agrees(result: Result<Program, ParseError>, source: Seq<char>) -> bool {
    match result {
        Ok(program) => grammar::parse_program(lex(source)) == Ok::<Seq<StmtView>, SyntaxError>(
            program@,
        ),
        Err(error) => grammar::parse_program(lex(source)) matches Err(wanted) && reports_in(
            error,
            source,
            wanted,
        ),
    }
}

/// Lexes and parses a source text. The result is the program that the
/// grammar gives for the tokens of the text, or the first error.
pub fn parse_source(source: &str) -> (result: Result<Program, ParseError>)
    ensures
        source_agrees(result, source@),
{
    let mut lexer = Lexer::new(source);
    let tokens = lexer.tokenize_spanned();
    assert(spans_of(tokens@).len() == tokens@.len());
    assert(forall|i: int| 0 <= i < tokens@.len() ==> spans_of(tokens@)[i] == tokens@[i].span);
    parse(tokens.as_slice())
}

/// A parser over a run of tokens.
pub struct Parser {
    tokens: Vec<SpannedToken>,
}

impl Parser {
    /// The tokens to parse.
    pub closed spec fn tokens(&self) -> Seq<SpannedToken> {
        self.tokens@
    }

    pub fn new(tokens: Vec<SpannedToken>) -> (parser: Parser)
        ensures
            parser.tokens() == tokens@,
    {
        Parser { tokens }
    }

    /// Parses the tokens, as [`parse`] does.
    pub fn parse(&self) -> (result: Result<Program, ParseError>)
        ensures
            program_agrees(
                result,
                grammar::parse_program(spanned_views(self.tokens())),
                self.tokens(),
            ),
    {
        parse(self.tokens.as_slice())
    }
}

} // verus!
