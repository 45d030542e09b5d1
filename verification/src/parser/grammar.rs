//! The grammar, stated on token sequences.
//!
//! Every function here is a specification. A parsing function takes the
//! tokens and a position and gives either a value with the position behind
//! it, or the first error. `limit` bounds the length of the sprite literals
//! that are looked into: a sprite inside a sprite is shorter than the outer
//! one, which is what makes the grammar well-founded.

use vstd::prelude::*;
use crate::ast::{BinaryOp, ExprView, Ownership, ParameterView, StmtView, UnaryOp};
use crate::lexer::grammar::lex;
use crate::lexer::token::TokenView;

verus! {

/// Where the tokens stop being a program, and what should have stood there.
pub struct SyntaxError {
    /// The index of the offending token.
    pub at: int,
    pub expected: Seq<char>,
}

/// The token at `pos`. Behind the last token there is `Eof`, forever.
pub open spec fn token_at(tokens: Seq<TokenView>, pos: int) -> TokenView {
    if 0 <= pos < tokens.len() {
        tokens[pos]
    } else {
        TokenView::Eof
    }
}

/// The error that `expected` is missing at `at`.
pub open spec fn fail<T>(at: int, expected: Seq<char>) -> Result<(T, int), SyntaxError> {
    Err(SyntaxError { at, expected })
}

/// A result that went forward from `pos` and stayed within `len` tokens,
/// unchanged. Every parsing function goes forward when it succeeds, as the
/// module `progress` proves, so this changes nothing; it shows that the
/// grammar is well-founded.
pub open spec fn advancing<T>(result: Result<(T, int), SyntaxError>, pos: int, len: nat) -> Result<
    (T, int),
    SyntaxError,
> {
    match result {
        Ok((_, next)) => if pos < next <= len {
            result
        } else {
            fail(pos, "progress"@)
        },
        Err(_) => result,
    }
}

/// The longest sprite literal that is looked into at the top of a program.
pub open spec fn top_limit() -> nat {
    usize::MAX as nat
}

/// The binary operator that a token stands for.
pub open spec fn binary_operator(token: TokenView) -> Option<BinaryOp> {
    match token {
        TokenView::Or => Some(BinaryOp::Or),
        TokenView::And => Some(BinaryOp::And),
        TokenView::EqualEqual => Some(BinaryOp::Equal),
        TokenView::BangEqual => Some(BinaryOp::NotEqual),
        TokenView::NotEqual => Some(BinaryOp::NotEqual),
        TokenView::Less => Some(BinaryOp::Less),
        TokenView::Greater => Some(BinaryOp::Greater),
        TokenView::LessEqual => Some(BinaryOp::LessEqual),
        TokenView::GreaterEqual => Some(BinaryOp::GreaterEqual),
        TokenView::Plus => Some(BinaryOp::Add),
        TokenView::Minus => Some(BinaryOp::Subtract),
        TokenView::Star => Some(BinaryOp::Multiply),
        TokenView::Slash => Some(BinaryOp::Divide),
        TokenView::Percent => Some(BinaryOp::Modulo),
        TokenView::Caret => Some(BinaryOp::Power),
        _ => None,
    }
}

/// How tightly a binary operator binds, from 1 for `||` to 7 for `^`.
pub open spec fn precedence(op: BinaryOp) -> nat {
    match op {
        BinaryOp::Or => 1,
        BinaryOp::And => 2,
        BinaryOp::Equal | BinaryOp::NotEqual => 3,
        BinaryOp::Less | BinaryOp::Greater | BinaryOp::LessEqual | BinaryOp::GreaterEqual => 4,
        BinaryOp::Add | BinaryOp::Subtract => 5,
        BinaryOp::Multiply | BinaryOp::Divide | BinaryOp::Modulo => 6,
        BinaryOp::Power => 7,
    }
}

/// The least precedence that an operator admits in its right operand: its
/// own for `^`, which groups to the right, and one more for the others,
/// which group to the left.
pub open spec fn right_operand_precedence(op: BinaryOp) -> nat {
    if op == BinaryOp::Power {
        precedence(op)
    } else {
        precedence(op) + 1
    }
}

/// The key that a token is in a dictionary or among the properties of a
/// sprite: the text of an identifier or of a string literal.
pub open spec fn entry_key(token: TokenView) -> Option<Seq<char>> {
    match token {
        TokenView::Identifier(name) => Some(name),
        TokenView::String(text) => Some(text),
        _ => None,
    }
}

/// Whether no key occurs twice.
pub open spec fn distinct_keys(entries: Seq<(Seq<char>, ExprView)>) -> bool {
    forall|i: int, j: int| 0 <= i < j < entries.len() ==> entries[i].0 != entries[j].0
}

/// An ownership tag at `pos`, if one stands there; else `Own`. With the tag
/// goes the position behind it.
pub open spec fn parse_ownership(tokens: Seq<TokenView>, pos: int) -> (Ownership, int) {
    match token_at(tokens, pos) {
        TokenView::Own => (Ownership::Own, pos + 1),
        TokenView::Ref => (Ownership::Ref, pos + 1),
        TokenView::Copy => (Ownership::Copy, pos + 1),
        _ => (Ownership::Own, pos),
    }
}

/// The position of the first token at or after `pos` that is no line end.
pub open spec fn skip_newlines(tokens: Seq<TokenView>, pos: int) -> int
    decreases tokens.len() - pos,
{
    if token_at(tokens, pos) == TokenView::Newline {
        skip_newlines(tokens, pos + 1)
    } else {
        pos
    }
}

/// The rest of a dotted module path, `path` having been read.
pub open spec fn import_rest(tokens: Seq<TokenView>, pos: int, path: Seq<char>) -> Result<
    (StmtView, int),
    SyntaxError,
>
    decreases tokens.len() - pos,
{
    if token_at(tokens, pos) == TokenView::Dot {
        match token_at(tokens, pos + 1) {
            TokenView::Identifier(part) => import_rest(tokens, pos + 2, path + seq!['.'] + part),
            _ => fail(pos + 1, "module name"@),
        }
    } else {
        Ok((StmtView::Import(path), pos))
    }
}

/// An import behind `imp`: a dotted path of names, or a string literal.
pub open spec fn parse_import(tokens: Seq<TokenView>, pos: int) -> Result<
    (StmtView, int),
    SyntaxError,
> {
    match token_at(tokens, pos) {
        TokenView::String(path) => Ok((StmtView::Import(path), pos + 1)),
        TokenView::Identifier(first) => import_rest(tokens, pos + 1, first),
        _ => fail(pos, "module path"@),
    }
}

/// A foreign block behind `cs`: the language, then the code as one string
/// literal between braces. Line ends may stand around the literal.
pub open spec fn parse_custom_block(tokens: Seq<TokenView>, pos: int) -> Result<
    (StmtView, int),
    SyntaxError,
> {
    match token_at(tokens, pos) {
        TokenView::Identifier(language) => if token_at(tokens, pos + 1) == TokenView::LeftBrace {
            let at = skip_newlines(tokens, pos + 2);
            match token_at(tokens, at) {
                TokenView::String(code) => {
                    let end = skip_newlines(tokens, at + 1);
                    if token_at(tokens, end) == TokenView::RightBrace {
                        Ok((StmtView::CustomBlock { language, code }, end + 1))
                    } else {
                        fail(end, "'}'"@)
                    }
                },
                _ => fail(at, "code as a string literal"@),
            }
        } else {
            fail(pos + 1, "'{'"@)
        },
        _ => fail(pos, "language name"@),
    }
}

/// The rest of a parameter list, `done` having been read.
pub open spec fn params_rest(tokens: Seq<TokenView>, pos: int, done: Seq<ParameterView>) -> Result<
    (Seq<ParameterView>, int),
    SyntaxError,
>
    decreases tokens.len() - pos,
{
    let (ownership, at) = parse_ownership(tokens, pos);
    match token_at(tokens, at) {
        TokenView::Identifier(name) => {
            let all = done.push(ParameterView { name, ownership });
            match token_at(tokens, at + 1) {
                TokenView::Comma => params_rest(tokens, at + 2, all),
                TokenView::RightParen => Ok((all, at + 2)),
                _ => fail(at + 1, "',' or ')'"@),
            }
        },
        _ => fail(at, "parameter name"@),
    }
}

/// A parameter list behind its `(`, up to and with its `)`: names, each
/// with an ownership tag before it or none, separated by commas.
pub open spec fn parse_params(tokens: Seq<TokenView>, pos: int) -> Result<
    (Seq<ParameterView>, int),
    SyntaxError,
> {
    if token_at(tokens, pos) == TokenView::RightParen {
        Ok((seq![], pos + 1))
    } else {
        params_rest(tokens, pos, seq![])
    }
}

/// Whether a token ends a statement, so that a `return` before it returns
/// nothing.
pub open spec fn ends_statement(token: TokenView) -> bool {
    token == TokenView::Newline || token == TokenView::Semicolon || token == TokenView::RightBrace
        || token == TokenView::Eof
}

/// An expression whose binary operators at the top all have a precedence of
/// at least `min`.
pub open spec fn parse_binary(tokens: Seq<TokenView>, pos: int, min: nat, limit: nat) -> Result<
    (ExprView, int),
    SyntaxError,
>
    decreases limit, tokens.len() - pos, 5nat,
{
    match advancing(parse_unary(tokens, pos, limit), pos, tokens.len()) {
        Ok((left, next)) => climb(tokens, next, left, min, limit),
        Err(error) => Err(error),
    }
}

/// The operators and operands that follow `left`, as long as the operators
/// have a precedence of at least `min`.
pub open spec fn climb(tokens: Seq<TokenView>, pos: int, left: ExprView, min: nat, limit: nat)
    -> Result<(ExprView, int), SyntaxError>
    decreases limit, tokens.len() - pos, 0nat,
{
    match binary_operator(token_at(tokens, pos)) {
        Some(op) => if precedence(op) >= min {
            match advancing(
                parse_binary(tokens, pos + 1, right_operand_precedence(op), limit),
                pos,
                tokens.len(),
            ) {
                Ok((right, next)) => climb(
                    tokens,
                    next,
                    ExprView::Binary { left: Box::new(left), op, right: Box::new(right) },
                    min,
                    limit,
                ),
                Err(error) => Err(error),
            }
        } else {
            Ok((left, pos))
        },
        None => Ok((left, pos)),
    }
}

/// An expression with its prefix operators: `-`, `!` and `await` bind more
/// tightly than every binary operator.
pub open spec fn parse_unary(tokens: Seq<TokenView>, pos: int, limit: nat) -> Result<
    (ExprView, int),
    SyntaxError,
>
    decreases limit, tokens.len() - pos, 4nat,
{
    match token_at(tokens, pos) {
        TokenView::Minus => match parse_unary(tokens, pos + 1, limit) {
            Ok((operand, next)) => Ok(
                (ExprView::Unary { op: UnaryOp::Negate, operand: Box::new(operand) }, next),
            ),
            Err(error) => Err(error),
        },
        TokenView::Not => match parse_unary(tokens, pos + 1, limit) {
            Ok((operand, next)) => Ok(
                (ExprView::Unary { op: UnaryOp::Not, operand: Box::new(operand) }, next),
            ),
            Err(error) => Err(error),
        },
        TokenView::Await => match parse_unary(tokens, pos + 1, limit) {
            Ok((operand, next)) => Ok((ExprView::Await(Box::new(operand)), next)),
            Err(error) => Err(error),
        },
        _ => parse_postfix(tokens, pos, limit),
    }
}

/// A primary expression with the calls, indexings and member accesses that
/// follow it.
pub open spec fn parse_postfix(tokens: Seq<TokenView>, pos: int, limit: nat) -> Result<
    (ExprView, int),
    SyntaxError,
>
    decreases limit, tokens.len() - pos, 3nat,
{
    match advancing(parse_primary(tokens, pos, limit), pos, tokens.len()) {
        Ok((base, next)) => postfix_rest(tokens, next, base, limit),
        Err(error) => Err(error),
    }
}

/// The calls, indexings and member accesses that follow `base`.
pub open spec fn postfix_rest(tokens: Seq<TokenView>, pos: int, base: ExprView, limit: nat)
    -> Result<(ExprView, int), SyntaxError>
    decreases limit, tokens.len() - pos, 0nat,
{
    match token_at(tokens, pos) {
        TokenView::LeftParen => match advancing(
            parse_items(tokens, pos + 1, TokenView::RightParen, limit),
            pos,
            tokens.len(),
        ) {
            Ok((args, next)) => postfix_rest(
                tokens,
                next,
                ExprView::Call { function: Box::new(base), args },
                limit,
            ),
            Err(error) => Err(error),
        },
        TokenView::LeftBracket => match advancing(
            parse_binary(tokens, pos + 1, 1, limit),
            pos,
            tokens.len(),
        ) {
            Ok((index, next)) => if token_at(tokens, next) == TokenView::RightBracket {
                postfix_rest(
                    tokens,
                    next + 1,
                    ExprView::Index { object: Box::new(base), index: Box::new(index) },
                    limit,
                )
            } else {
                fail(next, "']'"@)
            },
            Err(error) => Err(error),
        },
        TokenView::Dot => match token_at(tokens, pos + 1) {
            TokenView::Identifier(member) => postfix_rest(
                tokens,
                pos + 2,
                ExprView::Member { object: Box::new(base), member },
                limit,
            ),
            _ => fail(pos + 1, "member name"@),
        },
        _ => Ok((base, pos)),
    }
}

/// A literal, a name, a sprite, an expression in parentheses, a list or a
/// dictionary.
pub open spec fn parse_primary(tokens: Seq<TokenView>, pos: int, limit: nat) -> Result<
    (ExprView, int),
    SyntaxError,
>
    decreases limit, tokens.len() - pos, 2nat,
{
    match token_at(tokens, pos) {
        TokenView::Integer(value) => Ok((ExprView::Integer(value), pos + 1)),
        TokenView::Float(text) => Ok((ExprView::Float(text), pos + 1)),
        TokenView::String(text) => Ok((ExprView::String(text), pos + 1)),
        TokenView::Bool(value) => Ok((ExprView::Bool(value), pos + 1)),
        TokenView::Identifier(name) => Ok((ExprView::Identifier(name), pos + 1)),
        TokenView::UiSprite(text) => if text.len() < limit {
            match parse_sprite(lex(text), text.len()) {
                Ok((sprite, _)) => Ok((sprite, pos + 1)),
                Err(error) => fail(pos, error.expected),
            }
        } else {
            fail(pos, "shorter sprite literal"@)
        },
        TokenView::LeftParen => match advancing(
            parse_binary(tokens, pos + 1, 1, limit),
            pos,
            tokens.len(),
        ) {
            Ok((inner, next)) => if token_at(tokens, next) == TokenView::RightParen {
                Ok((inner, next + 1))
            } else {
                fail(next, "')'"@)
            },
            Err(error) => Err(error),
        },
        TokenView::LeftBracket => match parse_items(
            tokens,
            pos + 1,
            TokenView::RightBracket,
            limit,
        ) {
            Ok((items, next)) => Ok((ExprView::List(items), next)),
            Err(error) => Err(error),
        },
        TokenView::LeftBrace => match parse_entries(tokens, pos + 1, TokenView::Colon, limit) {
            Ok((entries, next)) => Ok((ExprView::Dict(entries), next)),
            Err(error) => Err(error),
        },
        _ => fail(pos, "expression"@),
    }
}

/// Expressions separated by commas, up to and with the token `close`. There
/// may be none.
pub open spec fn parse_items(tokens: Seq<TokenView>, pos: int, close: TokenView, limit: nat)
    -> Result<(Seq<ExprView>, int), SyntaxError>
    decreases limit, tokens.len() - pos, 7nat,
{
    if token_at(tokens, pos) == close {
        Ok((seq![], pos + 1))
    } else {
        items_rest(tokens, pos, close, seq![], limit)
    }
}

/// The rest of a run of expressions, `done` having been read.
pub open spec fn items_rest(
    tokens: Seq<TokenView>,
    pos: int,
    close: TokenView,
    done: Seq<ExprView>,
    limit: nat,
) -> Result<(Seq<ExprView>, int), SyntaxError>
    decreases limit, tokens.len() - pos, 6nat,
{
    match advancing(parse_binary(tokens, pos, 1, limit), pos, tokens.len()) {
        Ok((item, next)) => {
            let all = done.push(item);
            if token_at(tokens, next) == TokenView::Comma {
                items_rest(tokens, next + 1, close, all, limit)
            } else if token_at(tokens, next) == close && close != TokenView::Eof {
                Ok((all, next + 1))
            } else {
                fail(next, "',' or closing bracket"@)
            }
        },
        Err(error) => Err(error),
    }
}

/// Keys with their values, separated by commas, up to and with `}`. Between
/// a key and its value stands the token `between`. There may be none.
pub open spec fn parse_entries(tokens: Seq<TokenView>, pos: int, between: TokenView, limit: nat)
    -> Result<(Seq<(Seq<char>, ExprView)>, int), SyntaxError>
    decreases limit, tokens.len() - pos, 7nat,
{
    if token_at(tokens, pos) == TokenView::RightBrace {
        Ok((seq![], pos + 1))
    } else {
        entries_rest(tokens, pos, between, seq![], limit)
    }
}

/// The rest of a run of keys with their values, `done` having been read.
pub open spec fn entries_rest(
    tokens: Seq<TokenView>,
    pos: int,
    between: TokenView,
    done: Seq<(Seq<char>, ExprView)>,
    limit: nat,
) -> Result<(Seq<(Seq<char>, ExprView)>, int), SyntaxError>
    decreases limit, tokens.len() - pos, 6nat,
{
    match entry_key(token_at(tokens, pos)) {
        Some(key) => if token_at(tokens, pos + 1) == between && between != TokenView::Eof {
            match advancing(parse_binary(tokens, pos + 2, 1, limit), pos, tokens.len()) {
                Ok((value, next)) => {
                    let all = done.push((key, value));
                    if token_at(tokens, next) == TokenView::Comma {
                        entries_rest(tokens, next + 1, between, all, limit)
                    } else if token_at(tokens, next) == TokenView::RightBrace {
                        Ok((all, next + 1))
                    } else {
                        fail(next, "',' or '}'"@)
                    }
                },
                Err(error) => Err(error),
            }
        } else {
            fail(pos + 1, "separator behind the key"@)
        },
        None => fail(pos, "key"@),
    }
}

/// The text of a sprite literal, given as its tokens: the type of the
/// sprite, then, if anything follows, its properties between braces, each a
/// key, `=` and an expression. No key may occur twice.
pub open spec fn parse_sprite(inner: Seq<TokenView>, limit: nat) -> Result<
    (ExprView, int),
    SyntaxError,
>
    decreases limit, inner.len() + 1, 0nat,
{
    match token_at(inner, 0) {
        TokenView::Identifier(sprite_type) => match token_at(inner, 1) {
            TokenView::LeftBrace => match parse_entries(inner, 2, TokenView::Equal, limit) {
                Ok((properties, next)) => if token_at(inner, next) != TokenView::Eof {
                    fail(next, "end of sprite"@)
                } else if !distinct_keys(properties) {
                    fail(next, "distinct property names"@)
                } else {
                    Ok((ExprView::UiSprite { sprite_type, properties }, next))
                },
                Err(error) => Err(error),
            },
            TokenView::Eof => Ok((ExprView::UiSprite { sprite_type, properties: seq![] }, 1)),
            _ => fail(1, "'{'"@),
        },
        _ => fail(0, "sprite type"@),
    }
}

/// Statements up to, and without, the `}` or the end that follows them.
pub open spec fn parse_statements(tokens: Seq<TokenView>, pos: int, limit: nat) -> Result<
    (Seq<StmtView>, int),
    SyntaxError,
>
    decreases limit, tokens.len() - pos, 10nat,
{
    statements_rest(tokens, pos, seq![], limit)
}

/// The rest of a run of statements, `done` having been read. Line ends and
/// semicolons between statements are passed over.
pub open spec fn statements_rest(
    tokens: Seq<TokenView>,
    pos: int,
    done: Seq<StmtView>,
    limit: nat,
) -> Result<(Seq<StmtView>, int), SyntaxError>
    decreases limit, tokens.len() - pos, 9nat,
{
    match token_at(tokens, pos) {
        TokenView::Newline => statements_rest(tokens, pos + 1, done, limit),
        TokenView::Semicolon => statements_rest(tokens, pos + 1, done, limit),
        TokenView::RightBrace => Ok((done, pos)),
        TokenView::Eof => Ok((done, pos)),
        _ => match advancing(parse_statement(tokens, pos, limit), pos, tokens.len()) {
            Ok((statement, next)) => statements_rest(tokens, next, done.push(statement), limit),
            Err(error) => Err(error),
        },
    }
}

/// A body: statements between `{` and `}`.
pub open spec fn parse_block(tokens: Seq<TokenView>, pos: int, limit: nat) -> Result<
    (Seq<StmtView>, int),
    SyntaxError,
>
    decreases limit, tokens.len() - pos, 11nat,
{
    if token_at(tokens, pos) == TokenView::LeftBrace {
        match parse_statements(tokens, pos + 1, limit) {
            Ok((body, next)) => if token_at(tokens, next) == TokenView::RightBrace {
                Ok((body, next + 1))
            } else {
                fail(next, "'}'"@)
            },
            Err(error) => Err(error),
        }
    } else {
        fail(pos, "'{'"@)
    }
}

/// A function behind `fn` or `asy`: its name, its parameters and its body.
pub open spec fn parse_function(tokens: Seq<TokenView>, pos: int, is_async: bool, limit: nat)
    -> Result<(StmtView, int), SyntaxError>
    decreases limit, tokens.len() - pos, 12nat,
{
    match token_at(tokens, pos) {
        TokenView::Identifier(name) => if token_at(tokens, pos + 1) == TokenView::LeftParen {
            match advancing(parse_params(tokens, pos + 2), pos, tokens.len()) {
                Ok((params, next)) => match parse_block(tokens, next, limit) {
                    Ok((body, end)) => Ok((StmtView::Function { name, params, body, is_async }, end)),
                    Err(error) => Err(error),
                },
                Err(error) => Err(error),
            }
        } else {
            fail(pos + 1, "'('"@)
        },
        _ => fail(pos, "function name"@),
    }
}

/// A conditional behind `if` or `elif`: the condition, the body, and what
/// follows the body directly: `elif` with a further conditional, which
/// becomes the only statement of the else body, or `else` with a body.
pub open spec fn parse_conditional(tokens: Seq<TokenView>, pos: int, limit: nat) -> Result<
    (StmtView, int),
    SyntaxError,
>
    decreases limit, tokens.len() - pos, 12nat,
{
    match advancing(parse_binary(tokens, pos, 1, limit), pos, tokens.len()) {
        Ok((condition, next)) => match advancing(
            parse_block(tokens, next, limit),
            next,
            tokens.len(),
        ) {
            Ok((then_body, after)) => match token_at(tokens, after) {
                TokenView::Elif => match parse_conditional(tokens, after + 1, limit) {
                    Ok((nested, end)) => Ok(
                        (
                            StmtView::If {
                                condition,
                                then_body,
                                else_body: Some(seq![nested]),
                            },
                            end,
                        ),
                    ),
                    Err(error) => Err(error),
                },
                TokenView::Else => match parse_block(tokens, after + 1, limit) {
                    Ok((else_body, end)) => Ok(
                        (StmtView::If { condition, then_body, else_body: Some(else_body) }, end),
                    ),
                    Err(error) => Err(error),
                },
                _ => Ok((StmtView::If { condition, then_body, else_body: None }, after)),
            },
            Err(error) => Err(error),
        },
        Err(error) => Err(error),
    }
}

/// One statement. Each statement keyword opens its own kind of statement;
/// what starts with no such keyword is an expression.
pub open spec fn parse_statement(tokens: Seq<TokenView>, pos: int, limit: nat) -> Result<
    (StmtView, int),
    SyntaxError,
>
    decreases limit, tokens.len() - pos, 8nat,
{
    match token_at(tokens, pos) {
        TokenView::Imp => parse_import(tokens, pos + 1),
        TokenView::Def => {
            let (ownership, at) = parse_ownership(tokens, pos + 1);
            match token_at(tokens, at) {
                TokenView::Identifier(name) => if token_at(tokens, at + 1) == TokenView::Equal {
                    match parse_binary(tokens, at + 2, 1, limit) {
                        Ok((value, next)) => Ok(
                            (StmtView::Definition { name, ownership, value }, next),
                        ),
                        Err(error) => Err(error),
                    }
                } else {
                    fail(at + 1, "'='"@)
                },
                _ => fail(at, "name"@),
            }
        },
        TokenView::Fn => parse_function(tokens, pos + 1, false, limit),
        TokenView::Asy => parse_function(tokens, pos + 1, true, limit),
        TokenView::Cs => parse_custom_block(tokens, pos + 1),
        TokenView::Mn => match parse_block(tokens, pos + 1, limit) {
            Ok((body, next)) => Ok((StmtView::Main { body }, next)),
            Err(error) => Err(error),
        },
        TokenView::Return => if ends_statement(token_at(tokens, pos + 1)) {
            Ok((StmtView::Return(None), pos + 1))
        } else {
            match parse_binary(tokens, pos + 1, 1, limit) {
                Ok((value, next)) => Ok((StmtView::Return(Some(value)), next)),
                Err(error) => Err(error),
            }
        },
        TokenView::If => parse_conditional(tokens, pos + 1, limit),
        TokenView::Loop => match parse_block(tokens, pos + 1, limit) {
            Ok((body, next)) => Ok((StmtView::Loop { body }, next)),
            Err(error) => Err(error),
        },
        TokenView::For => match token_at(tokens, pos + 1) {
            TokenView::Identifier(variable) => if token_at(tokens, pos + 2) == TokenView::In {
                match advancing(parse_binary(tokens, pos + 3, 1, limit), pos, tokens.len()) {
                    Ok((iterable, next)) => match parse_block(tokens, next, limit) {
                        Ok((body, end)) => Ok((StmtView::For { variable, iterable, body }, end)),
                        Err(error) => Err(error),
                    },
                    Err(error) => Err(error),
                }
            } else {
                fail(pos + 2, "'in'"@)
            },
            _ => fail(pos + 1, "loop variable"@),
        },
        TokenView::While => match advancing(
            parse_binary(tokens, pos + 1, 1, limit),
            pos,
            tokens.len(),
        ) {
            Ok((condition, next)) => match parse_block(tokens, next, limit) {
                Ok((body, end)) => Ok((StmtView::While { condition, body }, end)),
                Err(error) => Err(error),
            },
            Err(error) => Err(error),
        },
        TokenView::Break => Ok((StmtView::Break, pos + 1)),
        TokenView::Continue => Ok((StmtView::Continue, pos + 1)),
        _ => match parse_binary(tokens, pos, 1, limit) {
            Ok((value, next)) => Ok((StmtView::Expression(value), next)),
            Err(error) => Err(error),
        },
    }
}

/// A whole program: statements up to the end of the tokens.
pub open spec fn parse_program(tokens: Seq<TokenView>) -> Result<Seq<StmtView>, SyntaxError> {
    match parse_statements(tokens, 0, top_limit()) {
        Ok((statements, next)) => if token_at(tokens, next) == TokenView::Eof {
            Ok(statements)
        } else {
            Err(SyntaxError { at: next, expected: "statement"@ })
        },
        Err(error) => Err(error),
    }
}

} // verus!
