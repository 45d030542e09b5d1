//! What holds of the grammar for whole families of token sequences.

use vstd::prelude::*;
use crate::ast::{BinaryOp, ExprView};
use crate::lexer::token::TokenView;
use crate::parser::grammar::{
    advancing, binary_operator, climb, parse_binary, parse_postfix, parse_primary, parse_unary,
    postfix_rest, precedence, right_operand_precedence, token_at, SyntaxError,
};

verus! {

/// The tokens of `a <first> b <second> c`, for integers `a`, `b` and `c`.
pub open spec fn two_operators(a: int, first: TokenView, b: int, second: TokenView, c: int)
    -> Seq<TokenView> {
    seq![
        TokenView::Integer(a),
        first,
        TokenView::Integer(b),
        second,
        TokenView::Integer(c),
        TokenView::Eof,
    ]
}

/// The expression `left <op> right`.
pub open spec fn binary(left: ExprView, op: BinaryOp, right: ExprView) -> ExprView {
    ExprView::Binary { left: Box::new(left), op, right: Box::new(right) }
}

/// An integer literal that no call, indexing or member access follows is an
/// operand by itself.
proof fn integer_operand(tokens: Seq<TokenView>, pos: int, value: int, limit: nat)
    requires
        0 <= pos < tokens.len(),
        tokens[pos] == TokenView::Integer(value),
        token_at(tokens, pos + 1) != TokenView::LeftParen,
        token_at(tokens, pos + 1) != TokenView::LeftBracket,
        token_at(tokens, pos + 1) != TokenView::Dot,
    ensures
        parse_unary(tokens, pos, limit) == Ok::<(ExprView, int), SyntaxError>(
            (ExprView::Integer(value), pos + 1),
        ),
{
    assert(parse_primary(tokens, pos, limit) == Ok::<(ExprView, int), SyntaxError>(
        (ExprView::Integer(value), pos + 1),
    ));
    assert(postfix_rest(tokens, pos + 1, ExprView::Integer(value), limit) == Ok::<
        (ExprView, int),
        SyntaxError,
    >((ExprView::Integer(value), pos + 1)));
    assert(parse_postfix(tokens, pos, limit) == Ok::<(ExprView, int), SyntaxError>(
        (ExprView::Integer(value), pos + 1),
    ));
}

/// Precedence and grouping: of two binary operators in a row, the second
/// takes the middle operand exactly if it binds at least as tightly as the
/// right operand of the first admits. So `1 + 2 * 3` is `1 + (2 * 3)`,
/// `1 * 2 + 3` and `1 - 2 - 3` group to the left, and `1 ^ 2 ^ 3` groups to
/// the right.
pub proof fn operators_group_by_precedence(
    a: int,
    first: TokenView,
    b: int,
    second: TokenView,
    c: int,
    limit: nat,
)
    requires
        binary_operator(first) is Some,
        binary_operator(second) is Some,
    ensures
        parse_binary(two_operators(a, first, b, second, c), 0, 1, limit) == Ok::<
            (ExprView, int),
            SyntaxError,
        >(
            (
                if precedence(binary_operator(second)->0) >= right_operand_precedence(
                    binary_operator(first)->0,
                ) {
                    binary(
                        ExprView::Integer(a),
                        binary_operator(first)->0,
                        binary(
                            ExprView::Integer(b),
                            binary_operator(second)->0,
                            ExprView::Integer(c),
                        ),
                    )
                } else {
                    binary(
                        binary(
                            ExprView::Integer(a),
                            binary_operator(first)->0,
                            ExprView::Integer(b),
                        ),
                        binary_operator(second)->0,
                        ExprView::Integer(c),
                    )
                },
                5,
            ),
        ),
{
    let tokens = two_operators(a, first, b, second, c);
    let op1 = binary_operator(first)->0;
    let op2 = binary_operator(second)->0;
    let inner = right_operand_precedence(op1);
    let ea = ExprView::Integer(a);
    let eb = ExprView::Integer(b);
    let ec = ExprView::Integer(c);
    assert(tokens.len() == 6);
    assert(tokens[0] == TokenView::Integer(a) && tokens[1] == first && tokens[2]
        == TokenView::Integer(b) && tokens[3] == second && tokens[4] == TokenView::Integer(c)
        && tokens[5] == TokenView::Eof);
    integer_operand(tokens, 0, a, limit);
    integer_operand(tokens, 2, b, limit);
    integer_operand(tokens, 4, c, limit);

    // the last operand, behind the second operator: nothing follows it
    assert(binary_operator(token_at(tokens, 5)) is None);
    assert forall|min: nat, left: ExprView| #[trigger]
        climb(tokens, 5, left, min, limit) == Ok::<(ExprView, int), SyntaxError>((left, 5)) by {}
    assert forall|min: nat| #[trigger]
        parse_binary(tokens, 4, min, limit) == Ok::<(ExprView, int), SyntaxError>((ec, 5)) by {
        assert(advancing(parse_unary(tokens, 4, limit), 4, tokens.len()) == parse_unary(
            tokens,
            4,
            limit,
        ));
        assert(climb(tokens, 5, ec, min, limit) == Ok::<(ExprView, int), SyntaxError>((ec, 5)));
    }

    if precedence(op2) >= inner {
        // the right operand of the first operator takes the second
        assert(parse_binary(tokens, 4, right_operand_precedence(op2), limit) == Ok::<
            (ExprView, int),
            SyntaxError,
        >((ec, 5)));
        assert(climb(tokens, 5, binary(eb, op2, ec), inner, limit) == Ok::<
            (ExprView, int),
            SyntaxError,
        >((binary(eb, op2, ec), 5)));
        assert(climb(tokens, 3, eb, inner, limit) == Ok::<(ExprView, int), SyntaxError>(
            (binary(eb, op2, ec), 5),
        ));
        assert(advancing(parse_unary(tokens, 2, limit), 2, tokens.len()) == parse_unary(
            tokens,
            2,
            limit,
        ));
        assert(parse_binary(tokens, 2, inner, limit) == Ok::<(ExprView, int), SyntaxError>(
            (binary(eb, op2, ec), 5),
        ));
        assert(climb(tokens, 5, binary(ea, op1, binary(eb, op2, ec)), 1, limit) == Ok::<
            (ExprView, int),
            SyntaxError,
        >((binary(ea, op1, binary(eb, op2, ec)), 5)));
        assert(climb(tokens, 1, ea, 1, limit) == Ok::<(ExprView, int), SyntaxError>(
            (binary(ea, op1, binary(eb, op2, ec)), 5),
        ));
    } else {
        // the right operand of the first operator ends before the second
        assert(climb(tokens, 3, eb, inner, limit) == Ok::<(ExprView, int), SyntaxError>((eb, 3)));
        assert(advancing(parse_unary(tokens, 2, limit), 2, tokens.len()) == parse_unary(
            tokens,
            2,
            limit,
        ));
        assert(parse_binary(tokens, 2, inner, limit) == Ok::<(ExprView, int), SyntaxError>(
            (eb, 3),
        ));
        assert(parse_binary(tokens, 4, right_operand_precedence(op2), limit) == Ok::<
            (ExprView, int),
            SyntaxError,
        >((ec, 5)));
        assert(climb(tokens, 5, binary(binary(ea, op1, eb), op2, ec), 1, limit) == Ok::<
            (ExprView, int),
            SyntaxError,
        >((binary(binary(ea, op1, eb), op2, ec), 5)));
        assert(climb(tokens, 3, binary(ea, op1, eb), 1, limit) == Ok::<
            (ExprView, int),
            SyntaxError,
        >((binary(binary(ea, op1, eb), op2, ec), 5)));
        assert(climb(tokens, 1, ea, 1, limit) == Ok::<(ExprView, int), SyntaxError>(
            (binary(binary(ea, op1, eb), op2, ec), 5),
        ));
    }
    assert(advancing(parse_unary(tokens, 0, limit), 0, tokens.len()) == parse_unary(
        tokens,
        0,
        limit,
    ));
}

} // verus!
