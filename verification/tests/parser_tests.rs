use gul::ast::{BinaryOp, Expression, Ownership, Parameter, Program, Statement, UnaryOp};
use gul::lexer::{Lexer, Span, SpannedToken, Token};
use gul::parser::{parse, parse_source, ParseError, Parser};

fn num(n: i64) -> Expression {
    Expression::Integer(n)
}

fn id(name: &str) -> Expression {
    Expression::Identifier(name.to_string())
}

fn bin(left: Expression, op: BinaryOp, right: Expression) -> Expression {
    Expression::Binary { left: Box::new(left), op, right: Box::new(right) }
}

fn call(function: Expression, args: Vec<Expression>) -> Expression {
    Expression::Call { function: Box::new(function), args }
}

fn expr(source: &str) -> Expression {
    let mut program = parse_source(source).unwrap();
    assert_eq!(program.statements.len(), 1);
    match program.statements.remove(0) {
        Statement::Expression(e) => e,
        other => panic!("not an expression: {:?}", other),
    }
}

fn stmts(source: &str) -> Vec<Statement> {
    parse_source(source).unwrap().statements
}

fn error(source: &str) -> ParseError {
    parse_source(source).unwrap_err()
}

fn e(statement: Expression) -> Statement {
    Statement::Expression(statement)
}

#[test]
fn multiplication_binds_tighter_than_addition() {
    assert_eq!(
        parse_source("1 + 2 * 3"),
        Ok(Program {
            statements: vec![Statement::Expression(bin(
                num(1),
                BinaryOp::Add,
                bin(num(2), BinaryOp::Multiply, num(3))
            ))]
        })
    );
    assert_eq!(
        expr("1 * 2 + 3"),
        bin(bin(num(1), BinaryOp::Multiply, num(2)), BinaryOp::Add, num(3))
    );
}

#[test]
fn operators_of_one_level_group_to_the_left() {
    assert_eq!(
        expr("1 - 2 - 3"),
        bin(bin(num(1), BinaryOp::Subtract, num(2)), BinaryOp::Subtract, num(3))
    );
    assert_eq!(
        expr("8 / 4 % 3 * 2"),
        bin(
            bin(bin(num(8), BinaryOp::Divide, num(4)), BinaryOp::Modulo, num(3)),
            BinaryOp::Multiply,
            num(2)
        )
    );
}

#[test]
fn power_groups_to_the_right() {
    assert_eq!(
        expr("2 ^ 3 ^ 2"),
        bin(num(2), BinaryOp::Power, bin(num(3), BinaryOp::Power, num(2)))
    );
}

#[test]
fn all_precedence_levels_in_one_expression() {
    assert_eq!(
        expr("a || b && c == d < e + f * g ^ h"),
        bin(
            id("a"),
            BinaryOp::Or,
            bin(
                id("b"),
                BinaryOp::And,
                bin(
                    id("c"),
                    BinaryOp::Equal,
                    bin(
                        id("d"),
                        BinaryOp::Less,
                        bin(
                            id("e"),
                            BinaryOp::Add,
                            bin(id("f"), BinaryOp::Multiply, bin(id("g"), BinaryOp::Power, id("h")))
                        )
                    )
                )
            )
        )
    );
    assert_eq!(expr("a != b"), bin(id("a"), BinaryOp::NotEqual, id("b")));
    assert_eq!(expr("a >= b"), bin(id("a"), BinaryOp::GreaterEqual, id("b")));
    assert_eq!(expr("a <= b"), bin(id("a"), BinaryOp::LessEqual, id("b")));
    assert_eq!(expr("a > b"), bin(id("a"), BinaryOp::Greater, id("b")));
}

#[test]
fn prefix_operators_bind_tighter_than_binary_ones() {
    let minus_two = Expression::Unary { op: UnaryOp::Negate, operand: Box::new(num(2)) };
    assert_eq!(expr("-2 ^ 2"), bin(minus_two, BinaryOp::Power, num(2)));
    assert_eq!(
        expr("!a && b"),
        bin(
            Expression::Unary { op: UnaryOp::Not, operand: Box::new(id("a")) },
            BinaryOp::And,
            id("b")
        )
    );
    assert_eq!(
        expr("- - 1"),
        Expression::Unary {
            op: UnaryOp::Negate,
            operand: Box::new(Expression::Unary { op: UnaryOp::Negate, operand: Box::new(num(1)) })
        }
    );
    assert_eq!(
        expr("1 - -2"),
        bin(
            num(1),
            BinaryOp::Subtract,
            Expression::Unary { op: UnaryOp::Negate, operand: Box::new(num(2)) }
        )
    );
}

#[test]
fn parentheses_group() {
    assert_eq!(
        expr("(1 + 2) * 3"),
        bin(bin(num(1), BinaryOp::Add, num(2)), BinaryOp::Multiply, num(3))
    );
    assert_eq!(expr("((x))"), id("x"));
}

#[test]
fn literals() {
    assert_eq!(expr("42"), num(42));
    assert_eq!(expr("3.14"), Expression::Float("3.14".to_string()));
    assert_eq!(expr("\"hi there\""), Expression::String("hi there".to_string()));
    assert_eq!(expr("true"), Expression::Bool(true));
    assert_eq!(expr("false"), Expression::Bool(false));
    assert_eq!(expr("name_1"), id("name_1"));
}

#[test]
fn calls_indexings_and_members_chain() {
    assert_eq!(
        expr("f(1, 2)[0].name"),
        Expression::Member {
            object: Box::new(Expression::Index {
                object: Box::new(call(id("f"), vec![num(1), num(2)])),
                index: Box::new(num(0)),
            }),
            member: "name".to_string(),
        }
    );
    assert_eq!(expr("f()"), call(id("f"), vec![]));
    assert_eq!(expr("f()()"), call(call(id("f"), vec![]), vec![]));
    assert_eq!(
        expr("http.get(url)"),
        call(
            Expression::Member { object: Box::new(id("http")), member: "get".to_string() },
            vec![id("url")]
        )
    );
}

#[test]
fn lists_and_dictionaries_keep_their_order() {
    assert_eq!(
        expr("[1, [2], []]"),
        Expression::List(vec![
            num(1),
            Expression::List(vec![num(2)]),
            Expression::List(vec![])
        ])
    );
    assert_eq!(
        expr("{b: 1, \"a\": 2, b: 3}"),
        Expression::Dict(vec![
            ("b".to_string(), num(1)),
            ("a".to_string(), num(2)),
            ("b".to_string(), num(3)),
        ])
    );
    assert_eq!(expr("{}"), Expression::Dict(vec![]));
}

#[test]
fn await_wraps_one_expression() {
    assert_eq!(expr("await f(x)"), Expression::Await(Box::new(call(id("f"), vec![id("x")]))));
    assert_eq!(
        expr("await a + b"),
        bin(Expression::Await(Box::new(id("a"))), BinaryOp::Add, id("b"))
    );
}

#[test]
fn sprite_with_properties() {
    assert_eq!(
        expr("^÷^[slider{min=0, max=100}]"),
        Expression::UiSprite {
            sprite_type: "slider".to_string(),
            properties: vec![("min".to_string(), num(0)), ("max".to_string(), num(100))],
        }
    );
    assert_eq!(
        expr("^÷^[tree]"),
        Expression::UiSprite { sprite_type: "tree".to_string(), properties: vec![] }
    );
    assert_eq!(
        expr("^÷^[box{}]"),
        Expression::UiSprite { sprite_type: "box".to_string(), properties: vec![] }
    );
    assert_eq!(
        expr("^÷^[gauge{value=1 + 2 * 3, \"unit\"=[a]}]"),
        Expression::UiSprite {
            sprite_type: "gauge".to_string(),
            properties: vec![
                (
                    "value".to_string(),
                    bin(num(1), BinaryOp::Add, bin(num(2), BinaryOp::Multiply, num(3)))
                ),
                ("unit".to_string(), Expression::List(vec![id("a")])),
            ],
        }
    );
}

#[test]
fn sprite_inside_a_sprite() {
    assert_eq!(
        expr("^÷^[panel{child=^÷^[button{label=\"ok\"}]}]"),
        Expression::UiSprite {
            sprite_type: "panel".to_string(),
            properties: vec![(
                "child".to_string(),
                Expression::UiSprite {
                    sprite_type: "button".to_string(),
                    properties: vec![(
                        "label".to_string(),
                        Expression::String("ok".to_string())
                    )],
                }
            )],
        }
    );
}

#[test]
fn sprite_errors_are_reported_at_the_sprite() {
    let twice = error("x\n^÷^[a{x=1, x=2}]");
    assert_eq!(twice.token, Token::UiSprite("a{x=1, x=2}".to_string()));
    assert_eq!(twice.expected, "distinct property names");
    assert_eq!(twice.span, Span { line: 1, column: 0, length: 16 });
    assert_eq!(error("^÷^[1]").expected, "sprite type");
    assert_eq!(error("^÷^[a b]").expected, "'{'");
    assert_eq!(error("^÷^[a{x=1} y]").expected, "end of sprite");
    assert_eq!(error("^÷^[a{x:1}]").expected, "separator behind the key");
    assert_eq!(error("^÷^[a{1=1}]").expected, "key");
    assert_eq!(error("^÷^[a{x=}]").expected, "expression");
    assert_eq!(error("^÷^[a{x=1 y=2}]").expected, "',' or '}'");
    assert_eq!(error("^÷^[]").expected, "sprite type");
}

#[test]
fn definitions_carry_an_ownership_tag() {
    assert_eq!(
        stmts("def x = 10"),
        vec![Statement::Definition {
            name: "x".to_string(),
            ownership: Ownership::Own,
            value: num(10)
        }]
    );
    assert_eq!(
        stmts("def ref y = x\ndef copy z = 1; def own w = 2"),
        vec![
            Statement::Definition {
                name: "y".to_string(),
                ownership: Ownership::Ref,
                value: id("x")
            },
            Statement::Definition {
                name: "z".to_string(),
                ownership: Ownership::Copy,
                value: num(1)
            },
            Statement::Definition {
                name: "w".to_string(),
                ownership: Ownership::Own,
                value: num(2)
            },
        ]
    );
}

#[test]
fn imports() {
    assert_eq!(stmts("imp std"), vec![Statement::Import("std".to_string())]);
    assert_eq!(stmts("imp std.net.http"), vec![Statement::Import("std.net.http".to_string())]);
    assert_eq!(stmts("imp \"lib/a b\""), vec![Statement::Import("lib/a b".to_string())]);
    assert_eq!(error("imp 1").expected, "module path");
    assert_eq!(error("imp a.").expected, "module name");
}

#[test]
fn functions_plain_and_async() {
    assert_eq!(
        stmts("fn add(a, copy b) { return a + b }"),
        vec![Statement::Function {
            name: "add".to_string(),
            params: vec![
                Parameter { name: "a".to_string(), ownership: Ownership::Own },
                Parameter { name: "b".to_string(), ownership: Ownership::Copy },
            ],
            body: vec![Statement::Return(Some(bin(id("a"), BinaryOp::Add, id("b"))))],
            is_async: false,
        }]
    );
    assert_eq!(
        stmts("asy fetch() {\n    await get()\n}"),
        vec![Statement::Function {
            name: "fetch".to_string(),
            params: vec![],
            body: vec![e(Expression::Await(Box::new(call(id("get"), vec![]))))],
            is_async: true,
        }]
    );
    assert_eq!(error("fn (a) {}").expected, "function name");
    assert_eq!(error("fn f {}").expected, "'('");
    assert_eq!(error("fn f( {}").expected, "parameter name");
    assert_eq!(error("fn f(a b) {}").expected, "',' or ')'");
    assert_eq!(error("fn f(a,) {}").expected, "parameter name");
    assert_eq!(error("fn f(a)").expected, "'{'");
}

#[test]
fn foreign_code_is_taken_as_it_stands() {
    assert_eq!(
        stmts("cs rust { \"fn main() { println!(1 + ); }\" }"),
        vec![Statement::CustomBlock {
            language: "rust".to_string(),
            code: "fn main() { println!(1 + ); }".to_string(),
        }]
    );
    assert_eq!(
        stmts("cs python {\n\n\"def f():\n    return 1\n\"\n}"),
        vec![Statement::CustomBlock {
            language: "python".to_string(),
            code: "def f():\n    return 1\n".to_string(),
        }]
    );
    assert_eq!(error("cs { \"x\" }").expected, "language name");
    assert_eq!(error("cs c \"x\"").expected, "'{'");
    assert_eq!(error("cs c { x }").expected, "code as a string literal");
    assert_eq!(error("cs c { \"x\" \"y\" }").expected, "'}'");
}

#[test]
fn main_and_loops() {
    assert_eq!(stmts("mn { }"), vec![Statement::Main { body: vec![] }]);
    assert_eq!(
        stmts("mn {\n  loop { break; continue }\n}"),
        vec![Statement::Main {
            body: vec![Statement::Loop { body: vec![Statement::Break, Statement::Continue] }]
        }]
    );
    assert_eq!(
        stmts("for i in items { f(i) }"),
        vec![Statement::For {
            variable: "i".to_string(),
            iterable: id("items"),
            body: vec![e(call(id("f"), vec![id("i")]))],
        }]
    );
    assert_eq!(
        stmts("while x < 3 { x }"),
        vec![Statement::While {
            condition: bin(id("x"), BinaryOp::Less, num(3)),
            body: vec![e(id("x"))],
        }]
    );
    assert_eq!(error("for 1 in x {}").expected, "loop variable");
    assert_eq!(error("for i of x {}").expected, "'in'");
    assert_eq!(error("while x").expected, "'{'");
    assert_eq!(error("mn").expected, "'{'");
    assert_eq!(error("mn { a").expected, "'}'");
}

#[test]
fn conditionals_chain_through_the_else_body() {
    assert_eq!(
        stmts("if a { b } elif c { d } else { e }"),
        vec![Statement::If {
            condition: id("a"),
            then_body: vec![e(id("b"))],
            else_body: Some(vec![Statement::If {
                condition: id("c"),
                then_body: vec![e(id("d"))],
                else_body: Some(vec![e(id("e"))]),
            }]),
        }]
    );
    assert_eq!(
        stmts("if a { }"),
        vec![Statement::If { condition: id("a"), then_body: vec![], else_body: None }]
    );
    assert_eq!(
        stmts("if a { } else { }"),
        vec![Statement::If { condition: id("a"), then_body: vec![], else_body: Some(vec![]) }]
    );
    // `else` must follow the body directly
    assert_eq!(error("if a { }\nelse { }").token, Token::Else);
    // a condition that starts with a brace is a dictionary
    assert_eq!(error("if a { } elif { }").expected, "'{'");
    assert_eq!(error("if a { } elif b").expected, "'{'");
}

#[test]
fn return_with_and_without_value() {
    assert_eq!(stmts("return"), vec![Statement::Return(None)]);
    assert_eq!(
        stmts("return\n1"),
        vec![Statement::Return(None), Statement::Expression(num(1))]
    );
    assert_eq!(stmts("return 1"), vec![Statement::Return(Some(num(1)))]);
    assert_eq!(stmts("mn { return }"), vec![Statement::Main { body: vec![Statement::Return(None)] }]);
    assert_eq!(stmts("return; return"), vec![Statement::Return(None), Statement::Return(None)]);
}

#[test]
fn statements_are_separated_by_line_ends_and_semicolons() {
    assert_eq!(stmts("a\nb;c"), vec![e(id("a")), e(id("b")), e(id("c"))]);
    assert_eq!(stmts("\n\n;;a;;\n"), vec![e(id("a"))]);
    assert_eq!(stmts(""), vec![]);
    assert_eq!(stmts("# only a comment"), vec![]);
    // a call must start on the line of what it calls
    assert_eq!(stmts("a\n(b)"), vec![e(id("a")), e(id("b"))]);
    assert_eq!(stmts("a(b)"), vec![e(call(id("a"), vec![id("b")]))]);
}

#[test]
fn first_error_carries_token_place_and_expectation() {
    assert_eq!(
        error("def = 1"),
        ParseError {
            token: Token::Equal,
            span: Span { line: 0, column: 4, length: 1 },
            expected: "name".to_string(),
        }
    );
    assert_eq!(
        error("def x 1"),
        ParseError {
            token: Token::Integer(1),
            span: Span { line: 0, column: 6, length: 1 },
            expected: "'='".to_string(),
        }
    );
    assert_eq!(
        error("a\n  (1"),
        ParseError {
            token: Token::Eof,
            span: Span { line: 1, column: 4, length: 0 },
            expected: "')'".to_string(),
        }
    );
    assert_eq!(
        error("ok\n1 +"),
        ParseError {
            token: Token::Eof,
            span: Span { line: 1, column: 3, length: 0 },
            expected: "expression".to_string(),
        }
    );
    // only the first error is reported
    assert_eq!(error("def = 1\ndef = 2").span.line, 0);
}

#[test]
fn tokens_without_a_statement_are_errors() {
    assert_eq!(error("}").expected, "statement");
    assert_eq!(error("}").token, Token::RightBrace);
    assert_eq!(error("x = 1").token, Token::Equal);
    assert_eq!(error("x = 1").expected, "expression");
    assert_eq!(error("try").token, Token::Try);
    assert_eq!(error("10 m/s").token, Token::Unit("m/s".to_string()));
    assert_eq!(error("f(1").expected, "',' or closing bracket");
    assert_eq!(error("[1 2]").expected, "',' or closing bracket");
    assert_eq!(error("a[1").expected, "']'");
    assert_eq!(error("a.1").expected, "member name");
    assert_eq!(error("{a 1}").expected, "separator behind the key");
    assert_eq!(error("{1: 1}").expected, "key");
    assert_eq!(error("{a: 1 b: 2}").expected, "',' or '}'");
    assert_eq!(error("if x > 0:\n    return x").token, Token::Colon);
}

#[test]
fn tokens_can_be_given_by_hand() {
    let place = Span { line: 7, column: 3, length: 1 };
    let at = |token: Token| SpannedToken { token, span: place };
    assert_eq!(parse(&[]), Ok(Program { statements: vec![] }));
    assert_eq!(
        parse(&[at(Token::Integer(1))]),
        Ok(Program { statements: vec![Statement::Expression(num(1))] })
    );
    assert_eq!(
        parse(&[at(Token::Integer(1)), at(Token::NotEqual), at(Token::Integer(2)), at(Token::Eof)]),
        Ok(Program {
            statements: vec![Statement::Expression(bin(num(1), BinaryOp::NotEqual, num(2)))]
        })
    );
    // behind the last token there is nothing but the end
    assert_eq!(
        parse(&[at(Token::Integer(1)), at(Token::Plus)]),
        Err(ParseError {
            token: Token::Eof,
            span: Span { line: 0, column: 0, length: 0 },
            expected: "expression".to_string(),
        })
    );
    assert_eq!(
        parse(&[at(Token::Indent)]),
        Err(ParseError { token: Token::Indent, span: place, expected: "expression".to_string() })
    );
    // what follows the end is not looked at
    assert_eq!(
        parse(&[at(Token::Break), at(Token::Eof), at(Token::Plus)]),
        Ok(Program { statements: vec![Statement::Break] })
    );
}

#[test]
fn parser_over_lexed_tokens() {
    let tokens = Lexer::new("mn { f() }").tokenize_spanned();
    let parser = Parser::new(tokens);
    assert_eq!(
        parser.parse(),
        Ok(Program {
            statements: vec![Statement::Main { body: vec![e(call(id("f"), vec![]))] }]
        })
    );
    assert_eq!(parser.parse(), parse_source("mn { f() }"));
}
