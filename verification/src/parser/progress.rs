//! The grammar goes forward: whatever a parsing function accepts ends
//! behind the position where it started, and within the tokens. So the test
//! that [`advancing`] makes never fails.

use vstd::prelude::*;
use crate::ast::{ExprView, ParameterView, StmtView};
use crate::lexer::token::TokenView;
use crate::parser::grammar::{
    advancing, binary_operator, climb, entries_rest, entry_key, import_rest, items_rest,
    params_rest, parse_binary, parse_block, parse_conditional, parse_custom_block,
    parse_entries, parse_function, parse_import, parse_items, parse_ownership, parse_params,
    parse_postfix, parse_primary, parse_statement, parse_statements, parse_unary, postfix_rest,
    precedence, right_operand_precedence, skip_newlines, statements_rest, token_at, SyntaxError,
};

verus! {

/// Whether a result, if it is a success, ends behind `pos` and within `len`
/// tokens.
pub open spec fn goes_forward<T>(result: Result<(T, int), SyntaxError>, pos: int, len: nat)
    -> bool {
    result matches Ok((_, next)) ==> pos < next <= len
}

/// Whether a result, if it is a success, ends at or behind `pos` and within
/// `len` tokens.
pub open spec fn stays_within<T>(result: Result<(T, int), SyntaxError>, pos: int, len: nat)
    -> bool {
    result matches Ok((_, next)) ==> pos <= next <= len
}

/// A result that goes forward passes the test of [`advancing`] unchanged.
pub proof fn advancing_keeps<T>(result: Result<(T, int), SyntaxError>, pos: int, len: nat)
    requires
        goes_forward(result, pos, len),
    ensures
        advancing(result, pos, len) == result,
{
}

pub proof fn skip_newlines_stays(tokens: Seq<TokenView>, pos: int)
    requires
        0 <= pos <= tokens.len(),
    ensures
        pos <= skip_newlines(tokens, pos) <= tokens.len(),
    decreases tokens.len() - pos,
{
    if token_at(tokens, pos) == TokenView::Newline {
        skip_newlines_stays(tokens, pos + 1);
    }
}

pub proof fn import_rest_stays(tokens: Seq<TokenView>, pos: int, path: Seq<char>)
    requires
        0 <= pos <= tokens.len(),
    ensures
        stays_within(import_rest(tokens, pos, path), pos, tokens.len()),
    decreases tokens.len() - pos,
{
    if token_at(tokens, pos) == TokenView::Dot {
        match token_at(tokens, pos + 1) {
            TokenView::Identifier(part) => {
                import_rest_stays(tokens, pos + 2, path + seq!['.'] + part);
            },
            _ => {},
        }
    }
}

pub proof fn import_goes_forward(tokens: Seq<TokenView>, pos: int)
    requires
        0 <= pos,
    ensures
        goes_forward(parse_import(tokens, pos), pos, tokens.len()),
{
    match token_at(tokens, pos) {
        TokenView::Identifier(first) => {
            import_rest_stays(tokens, pos + 1, first);
        },
        _ => {},
    }
}

pub proof fn custom_block_goes_forward(tokens: Seq<TokenView>, pos: int)
    requires
        0 <= pos,
    ensures
        goes_forward(parse_custom_block(tokens, pos), pos, tokens.len()),
{
    match token_at(tokens, pos) {
        TokenView::Identifier(language) => {
            if token_at(tokens, pos + 1) == TokenView::LeftBrace {
                skip_newlines_stays(tokens, pos + 2);
                let at = skip_newlines(tokens, pos + 2);
                match token_at(tokens, at) {
                    TokenView::String(code) => {
                        skip_newlines_stays(tokens, at + 1);
                    },
                    _ => {},
                }
            }
        },
        _ => {},
    }
}

pub proof fn params_rest_goes_forward(tokens: Seq<TokenView>, pos: int, done: Seq<ParameterView>)
    requires
        0 <= pos,
    ensures
        goes_forward(params_rest(tokens, pos, done), pos, tokens.len()),
    decreases tokens.len() - pos,
{
    let (ownership, at) = parse_ownership(tokens, pos);
    match token_at(tokens, at) {
        TokenView::Identifier(name) => {
            match token_at(tokens, at + 1) {
                TokenView::Comma => {
                    params_rest_goes_forward(
                        tokens,
                        at + 2,
                        done.push(ParameterView { name, ownership }),
                    );
                },
                _ => {},
            }
        },
        _ => {},
    }
}

pub proof fn params_go_forward(tokens: Seq<TokenView>, pos: int)
    requires
        0 <= pos,
    ensures
        goes_forward(parse_params(tokens, pos), pos, tokens.len()),
{
    if token_at(tokens, pos) != TokenView::RightParen {
        params_rest_goes_forward(tokens, pos, seq![]);
    }
}

/// An expression ends behind the position where it starts.
pub proof fn binary_goes_forward(tokens: Seq<TokenView>, pos: int, min: nat, limit: nat)
    requires
        0 <= pos,
    ensures
        goes_forward(parse_binary(tokens, pos, min, limit), pos, tokens.len()),
    decreases limit, tokens.len() - pos, 5nat,
{
    unary_goes_forward(tokens, pos, limit);
    match advancing(parse_unary(tokens, pos, limit), pos, tokens.len()) {
        Ok((left, next)) => {
            climb_stays(tokens, next, left, min, limit);
        },
        Err(_) => {},
    }
}

pub proof fn climb_stays(tokens: Seq<TokenView>, pos: int, left: ExprView, min: nat, limit: nat)
    requires
        0 <= pos <= tokens.len(),
    ensures
        stays_within(climb(tokens, pos, left, min, limit), pos, tokens.len()),
    decreases limit, tokens.len() - pos, 0nat,
{
    match binary_operator(token_at(tokens, pos)) {
        Some(op) => {
            if precedence(op) >= min {
                binary_goes_forward(tokens, pos + 1, right_operand_precedence(op), limit);
                match advancing(
                    parse_binary(tokens, pos + 1, right_operand_precedence(op), limit),
                    pos,
                    tokens.len(),
                ) {
                    Ok((right, next)) => {
                        climb_stays(
                            tokens,
                            next,
                            ExprView::Binary { left: Box::new(left), op, right: Box::new(right) },
                            min,
                            limit,
                        );
                    },
                    Err(_) => {},
                }
            }
        },
        None => {},
    }
}

pub proof fn unary_goes_forward(tokens: Seq<TokenView>, pos: int, limit: nat)
    requires
        0 <= pos,
    ensures
        goes_forward(parse_unary(tokens, pos, limit), pos, tokens.len()),
    decreases limit, tokens.len() - pos, 4nat,
{
    match token_at(tokens, pos) {
        TokenView::Minus => {
            unary_goes_forward(tokens, pos + 1, limit);
        },
        TokenView::Not => {
            unary_goes_forward(tokens, pos + 1, limit);
        },
        TokenView::Await => {
            unary_goes_forward(tokens, pos + 1, limit);
        },
        _ => {
            postfix_goes_forward(tokens, pos, limit);
        },
    }
}

pub proof fn postfix_goes_forward(tokens: Seq<TokenView>, pos: int, limit: nat)
    requires
        0 <= pos,
    ensures
        goes_forward(parse_postfix(tokens, pos, limit), pos, tokens.len()),
    decreases limit, tokens.len() - pos, 3nat,
{
    primary_goes_forward(tokens, pos, limit);
    match advancing(parse_primary(tokens, pos, limit), pos, tokens.len()) {
        Ok((base, next)) => {
            postfix_rest_stays(tokens, next, base, limit);
        },
        Err(_) => {},
    }
}

pub proof fn postfix_rest_stays(tokens: Seq<TokenView>, pos: int, base: ExprView, limit: nat)
    requires
        0 <= pos <= tokens.len(),
    ensures
        stays_within(postfix_rest(tokens, pos, base, limit), pos, tokens.len()),
    decreases limit, tokens.len() - pos, 0nat,
{
    match token_at(tokens, pos) {
        TokenView::LeftParen => {
            items_go_forward(tokens, pos + 1, TokenView::RightParen, limit);
            match advancing(
                parse_items(tokens, pos + 1, TokenView::RightParen, limit),
                pos,
                tokens.len(),
            ) {
                Ok((args, next)) => {
                    postfix_rest_stays(
                        tokens,
                        next,
                        ExprView::Call { function: Box::new(base), args },
                        limit,
                    );
                },
                Err(_) => {},
            }
        },
        TokenView::LeftBracket => {
            binary_goes_forward(tokens, pos + 1, 1, limit);
            match advancing(parse_binary(tokens, pos + 1, 1, limit), pos, tokens.len()) {
                Ok((index, next)) => {
                    if token_at(tokens, next) == TokenView::RightBracket {
                        postfix_rest_stays(
                            tokens,
                            next + 1,
                            ExprView::Index { object: Box::new(base), index: Box::new(index) },
                            limit,
                        );
                    }
                },
                Err(_) => {},
            }
        },
        TokenView::Dot => {
            match token_at(tokens, pos + 1) {
                TokenView::Identifier(member) => {
                    postfix_rest_stays(
                        tokens,
                        pos + 2,
                        ExprView::Member { object: Box::new(base), member },
                        limit,
                    );
                },
                _ => {},
            }
        },
        _ => {},
    }
}

pub proof fn primary_goes_forward(tokens: Seq<TokenView>, pos: int, limit: nat)
    requires
        0 <= pos,
    ensures
        goes_forward(parse_primary(tokens, pos, limit), pos, tokens.len()),
    decreases limit, tokens.len() - pos, 2nat,
{
    match token_at(tokens, pos) {
        TokenView::LeftParen => {
            binary_goes_forward(tokens, pos + 1, 1, limit);
        },
        TokenView::LeftBracket => {
            items_go_forward(tokens, pos + 1, TokenView::RightBracket, limit);
        },
        TokenView::LeftBrace => {
            entries_go_forward(tokens, pos + 1, TokenView::Colon, limit);
        },
        _ => {},
    }
}

pub proof fn items_go_forward(tokens: Seq<TokenView>, pos: int, close: TokenView, limit: nat)
    requires
        0 <= pos,
        close != TokenView::Eof,
    ensures
        goes_forward(parse_items(tokens, pos, close, limit), pos, tokens.len()),
    decreases limit, tokens.len() - pos, 7nat,
{
    if token_at(tokens, pos) != close {
        items_rest_goes_forward(tokens, pos, close, seq![], limit);
    }
}

pub proof fn items_rest_goes_forward(
    tokens: Seq<TokenView>,
    pos: int,
    close: TokenView,
    done: Seq<ExprView>,
    limit: nat,
)
    requires
        0 <= pos,
        close != TokenView::Eof,
    ensures
        goes_forward(items_rest(tokens, pos, close, done, limit), pos, tokens.len()),
    decreases limit, tokens.len() - pos, 6nat,
{
    binary_goes_forward(tokens, pos, 1, limit);
    match advancing(parse_binary(tokens, pos, 1, limit), pos, tokens.len()) {
        Ok((item, next)) => {
            if token_at(tokens, next) == TokenView::Comma {
                items_rest_goes_forward(tokens, next + 1, close, done.push(item), limit);
            }
        },
        Err(_) => {},
    }
}

pub proof fn entries_go_forward(tokens: Seq<TokenView>, pos: int, between: TokenView, limit: nat)
    requires
        0 <= pos,
    ensures
        goes_forward(parse_entries(tokens, pos, between, limit), pos, tokens.len()),
    decreases limit, tokens.len() - pos, 7nat,
{
    if token_at(tokens, pos) != TokenView::RightBrace {
        entries_rest_goes_forward(tokens, pos, between, seq![], limit);
    }
}

pub proof fn entries_rest_goes_forward(
    tokens: Seq<TokenView>,
    pos: int,
    between: TokenView,
    done: Seq<(Seq<char>, ExprView)>,
    limit: nat,
)
    requires
        0 <= pos,
    ensures
        goes_forward(entries_rest(tokens, pos, between, done, limit), pos, tokens.len()),
    decreases limit, tokens.len() - pos, 6nat,
{
    match entry_key(token_at(tokens, pos)) {
        Some(key) => {
            if token_at(tokens, pos + 1) == between && between != TokenView::Eof {
                binary_goes_forward(tokens, pos + 2, 1, limit);
                match advancing(parse_binary(tokens, pos + 2, 1, limit), pos, tokens.len()) {
                    Ok((value, next)) => {
                        if token_at(tokens, next) == TokenView::Comma {
                            entries_rest_goes_forward(
                                tokens,
                                next + 1,
                                between,
                                done.push((key, value)),
                                limit,
                            );
                        }
                    },
                    Err(_) => {},
                }
            }
        },
        None => {},
    }
}

pub proof fn statements_stay(tokens: Seq<TokenView>, pos: int, limit: nat)
    requires
        0 <= pos <= tokens.len(),
    ensures
        stays_within(parse_statements(tokens, pos, limit), pos, tokens.len()),
    decreases limit, tokens.len() - pos, 10nat,
{
    statements_rest_stays(tokens, pos, seq![], limit);
}

pub proof fn statements_rest_stays(
    tokens: Seq<TokenView>,
    pos: int,
    done: Seq<StmtView>,
    limit: nat,
)
    requires
        0 <= pos <= tokens.len(),
    ensures
        stays_within(statements_rest(tokens, pos, done, limit), pos, tokens.len()),
    decreases limit, tokens.len() - pos, 9nat,
{
    match token_at(tokens, pos) {
        TokenView::Newline => {
            statements_rest_stays(tokens, pos + 1, done, limit);
        },
        TokenView::Semicolon => {
            statements_rest_stays(tokens, pos + 1, done, limit);
        },
        TokenView::RightBrace => {},
        TokenView::Eof => {},
        _ => {
            statement_goes_forward(tokens, pos, limit);
            match advancing(parse_statement(tokens, pos, limit), pos, tokens.len()) {
                Ok((statement, next)) => {
                    statements_rest_stays(tokens, next, done.push(statement), limit);
                },
                Err(_) => {},
            }
        },
    }
}

pub proof fn block_goes_forward(tokens: Seq<TokenView>, pos: int, limit: nat)
    requires
        0 <= pos,
    ensures
        goes_forward(parse_block(tokens, pos, limit), pos, tokens.len()),
    decreases limit, tokens.len() - pos, 11nat,
{
    if token_at(tokens, pos) == TokenView::LeftBrace {
        statements_stay(tokens, pos + 1, limit);
    }
}

pub proof fn function_goes_forward(tokens: Seq<TokenView>, pos: int, is_async: bool, limit: nat)
    requires
        0 <= pos,
    ensures
        goes_forward(parse_function(tokens, pos, is_async, limit), pos, tokens.len()),
    decreases limit, tokens.len() - pos, 12nat,
{
    match token_at(tokens, pos) {
        TokenView::Identifier(name) => {
            if token_at(tokens, pos + 1) == TokenView::LeftParen {
                params_go_forward(tokens, pos + 2);
                match advancing(parse_params(tokens, pos + 2), pos, tokens.len()) {
                    Ok((params, next)) => {
                        block_goes_forward(tokens, next, limit);
                    },
                    Err(_) => {},
                }
            }
        },
        _ => {},
    }
}

pub proof fn conditional_goes_forward(tokens: Seq<TokenView>, pos: int, limit: nat)
    requires
        0 <= pos,
    ensures
        goes_forward(parse_conditional(tokens, pos, limit), pos, tokens.len()),
    decreases limit, tokens.len() - pos, 12nat,
{
    binary_goes_forward(tokens, pos, 1, limit);
    match advancing(parse_binary(tokens, pos, 1, limit), pos, tokens.len()) {
        Ok((condition, next)) => {
            block_goes_forward(tokens, next, limit);
            match advancing(parse_block(tokens, next, limit), next, tokens.len()) {
                Ok((then_body, after)) => {
                    match token_at(tokens, after) {
                        TokenView::Elif => {
                            conditional_goes_forward(tokens, after + 1, limit);
                        },
                        TokenView::Else => {
                            block_goes_forward(tokens, after + 1, limit);
                        },
                        _ => {},
                    }
                },
                Err(_) => {},
            }
        },
        Err(_) => {},
    }
}

/// A statement ends behind the position where it starts.
pub proof fn statement_goes_forward(tokens: Seq<TokenView>, pos: int, limit: nat)
    requires
        0 <= pos,
    ensures
        goes_forward(parse_statement(tokens, pos, limit), pos, tokens.len()),
    decreases limit, tokens.len() - pos, 8nat,
{
    match token_at(tokens, pos) {
        TokenView::Imp => {
            import_goes_forward(tokens, pos + 1);
        },
        TokenView::Def => {
            let (ownership, at) = parse_ownership(tokens, pos + 1);
            match token_at(tokens, at) {
                TokenView::Identifier(name) => {
                    if token_at(tokens, at + 1) == TokenView::Equal {
                        binary_goes_forward(tokens, at + 2, 1, limit);
                    }
                },
                _ => {},
            }
        },
        TokenView::Fn => {
            function_goes_forward(tokens, pos + 1, false, limit);
        },
        TokenView::Asy => {
            function_goes_forward(tokens, pos + 1, true, limit);
        },
        TokenView::Cs => {
            custom_block_goes_forward(tokens, pos + 1);
        },
        TokenView::Mn => {
            block_goes_forward(tokens, pos + 1, limit);
        },
        TokenView::Return => {
            binary_goes_forward(tokens, pos + 1, 1, limit);
        },
        TokenView::If => {
            conditional_goes_forward(tokens, pos + 1, limit);
        },
        TokenView::Loop => {
            block_goes_forward(tokens, pos + 1, limit);
        },
        TokenView::For => {
            match token_at(tokens, pos + 1) {
                TokenView::Identifier(variable) => {
                    if token_at(tokens, pos + 2) == TokenView::In {
                        binary_goes_forward(tokens, pos + 3, 1, limit);
                        match advancing(
                            parse_binary(tokens, pos + 3, 1, limit),
                            pos,
                            tokens.len(),
                        ) {
                            Ok((iterable, next)) => {
                                block_goes_forward(tokens, next, limit);
                            },
                            Err(_) => {},
                        }
                    }
                },
                _ => {},
            }
        },
        TokenView::While => {
            binary_goes_forward(tokens, pos + 1, 1, limit);
            match advancing(parse_binary(tokens, pos + 1, 1, limit), pos, tokens.len()) {
                Ok((condition, next)) => {
                    block_goes_forward(tokens, next, limit);
                },
                Err(_) => {},
            }
        },
        TokenView::Break => {},
        TokenView::Continue => {},
        _ => {
            binary_goes_forward(tokens, pos, 1, limit);
        },
    }
}

} // verus!
