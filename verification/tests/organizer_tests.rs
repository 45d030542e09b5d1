use gul::ast::{Expression, Ownership, Program, Statement};
use gul::compiler::blocks::{organize, Block, BlockKind, Payload};
use gul::parser::parse_source;

fn custom(language: &str, code: &str) -> Statement {
    Statement::CustomBlock { language: language.to_string(), code: code.to_string() }
}

fn def(name: &str) -> Statement {
    Statement::Definition {
        name: name.to_string(),
        ownership: Ownership::Own,
        value: Expression::Integer(1),
    }
}

fn func(name: &str) -> Statement {
    Statement::Function { name: name.to_string(), params: vec![], body: vec![], is_async: false }
}

fn kinds(blocks: &[Block]) -> Vec<BlockKind> {
    blocks.iter().map(|b| b.kind.clone()).collect()
}

fn foreign(language: &str) -> BlockKind {
    BlockKind::Foreign(language.to_string())
}

#[test]
fn foreign_block_then_main_are_two_blocks() {
    let program = Program {
        statements: vec![custom("rust", "fn helper() {}"), Statement::Main { body: vec![] }],
    };
    let blocks = organize(program);
    assert_eq!(blocks.len(), 2);
    assert_eq!(kinds(&blocks), vec![foreign("rust"), BlockKind::Native]);
    assert_eq!(blocks[0].id, 0);
    assert_eq!(blocks[1].id, 1);
    assert_eq!(blocks[0].payload, Payload::RawText("fn helper() {}".to_string()));
    assert_eq!(blocks[1].payload, Payload::Statements(vec![Statement::Main { body: vec![] }]));
}

#[test]
fn runs_of_one_kind_become_one_block() {
    let program = Program {
        statements: vec![
            custom("rust", "a"),
            custom("rust", "b"),
            custom("python", "c"),
            def("x"),
            func("f"),
            Statement::Break,
            custom("rust", "d"),
        ],
    };
    let blocks = organize(program);
    assert_eq!(
        kinds(&blocks),
        vec![foreign("rust"), foreign("python"), BlockKind::Native, foreign("rust")]
    );
    let ids: Vec<usize> = blocks.iter().map(|b| b.id).collect();
    assert_eq!(ids, vec![0, 1, 2, 3]);
    assert_eq!(blocks[0].payload, Payload::RawText("a\nb".to_string()));
    assert_eq!(blocks[1].payload, Payload::RawText("c".to_string()));
    assert_eq!(
        blocks[2].payload,
        Payload::Statements(vec![def("x"), func("f"), Statement::Break])
    );
    assert_eq!(blocks[3].payload, Payload::RawText("d".to_string()));
    assert_eq!(blocks[2].exported_symbols, vec!["x".to_string(), "f".to_string()]);
}

#[test]
fn empty_program_has_no_blocks() {
    assert!(organize(Program { statements: vec![] }).is_empty());
}

#[test]
fn there_are_no_more_blocks_than_statements() {
    let program = Program {
        statements: vec![def("a"), custom("c", "x"), def("b"), custom("c", "y"), custom("c", "z")],
    };
    let blocks = organize(program);
    assert_eq!(blocks.len(), 4);
    assert_eq!(organize(Program { statements: vec![def("a"), def("b")] }).len(), 1);
}

#[test]
fn native_exports_are_top_level_definitions_and_functions() {
    let program = Program {
        statements: vec![
            def("x"),
            Statement::Main { body: vec![def("inner")] },
            func("f"),
            Statement::Import("m".to_string()),
            def("x"),
        ],
    };
    let blocks = organize(program);
    assert_eq!(
        blocks[0].exported_symbols,
        vec!["x".to_string(), "f".to_string(), "x".to_string()]
    );
}

#[test]
fn foreign_exports_are_scanned_by_language() {
    let rust = "pub fn add(a: i64) -> i64 { a }\nfn helper() {}\n  fn nested() {}\nstruct S;\npub struct T;\nfn\nfn (x)";
    let python = "def area(r):\n    return r\nclass C:\n    def m(self): pass\ndef  spaced (x): pass";
    let js = "function go() {}\nconst x = 1\nfunction\u{a0}wide() {}";
    let program = Program {
        statements: vec![
            custom("rust", rust),
            custom("python", python),
            custom("js", js),
            custom("typescript", "function t() {}"),
            custom("sql", "fn f() def g() function h()"),
            custom("Rust", "fn f() {}"),
        ],
    };
    let blocks = organize(program);
    assert_eq!(blocks[0].exported_symbols, vec!["add".to_string(), "helper".to_string()]);
    assert_eq!(blocks[1].exported_symbols, vec!["area".to_string(), "spaced".to_string()]);
    assert_eq!(blocks[2].exported_symbols, vec!["go".to_string(), "wide".to_string()]);
    assert_eq!(blocks[3].exported_symbols, vec!["t".to_string()]);
    assert!(blocks[4].exported_symbols.is_empty());
    assert!(blocks[5].exported_symbols.is_empty());
}

#[test]
fn exports_of_joined_code_are_those_of_all_its_lines() {
    let program = Program {
        statements: vec![custom("rust", "fn a() {}"), custom("rust", "fn b() {}")],
    };
    let blocks = organize(program);
    assert_eq!(blocks.len(), 1);
    assert_eq!(blocks[0].payload, Payload::RawText("fn a() {}\nfn b() {}".to_string()));
    assert_eq!(blocks[0].exported_symbols, vec!["a".to_string(), "b".to_string()]);
}

#[test]
fn organizing_the_same_program_twice_gives_the_same_blocks() {
    let source = "cs rust { \"fn a() {}\" }\ndef x = 1\nmn { a() }\ncs c { \"int b;\" }";
    let first = organize(parse_source(source).unwrap());
    let second = organize(parse_source(source).unwrap());
    assert_eq!(first, second);
    assert_eq!(first.len(), 3);
}

#[test]
fn organizing_what_the_blocks_stand_for_gives_the_same_blocks() {
    let program = Program {
        statements: vec![
            custom("rust", "fn a() {}"),
            custom("rust", "fn b() {}"),
            def("x"),
            func("f"),
            custom("c", "int y;"),
            custom("rust", "fn c() {}"),
        ],
    };
    let blocks = organize(program);
    let mut statements = Vec::new();
    for block in organize(Program {
        statements: vec![
            custom("rust", "fn a() {}"),
            custom("rust", "fn b() {}"),
            def("x"),
            func("f"),
            custom("c", "int y;"),
            custom("rust", "fn c() {}"),
        ],
    }) {
        match (block.kind, block.payload) {
            (BlockKind::Foreign(language), Payload::RawText(code)) => {
                statements.push(Statement::CustomBlock { language, code })
            }
            (_, Payload::Statements(body)) => statements.extend(body),
            (kind, payload) => panic!("kind {:?} with payload {:?}", kind, payload),
        }
    }
    assert_eq!(organize(Program { statements }), blocks);
}

#[test]
fn neighbouring_blocks_differ_in_kind() {
    let program = Program {
        statements: vec![
            def("a"),
            def("b"),
            custom("c", "1"),
            custom("c", "2"),
            custom("js", "3"),
            def("d"),
        ],
    };
    let blocks = organize(program);
    for pair in blocks.windows(2) {
        assert_ne!(pair[0].kind, pair[1].kind);
    }
}
