use gul::compiler::builder::{BuildAction, BuildSession, Target};
use gul::compiler::symbols::{all_exports, calls_of, resolve};
use gul::compiler::{
    build_source, check_source, organize, organize_source, BlockKind, BuildError, CompileError,
    Compiler,
};
use gul::lexer::{Span, Token};
use gul::parser::{parse_source, ParseError};

fn unresolved(name: &str, block_id: usize) -> BuildError {
    BuildError::UnresolvedSymbol { name: name.to_string(), block_id }
}

#[test]
fn calls_to_declared_names_resolve() {
    assert_eq!(check_source("fn add(a, b) { return a + b }\nmn { add(1, 2) }"), Ok(()));
    assert_eq!(check_source(""), Ok(()));
    assert_eq!(check_source("def x = 1\nmn { x + y }"), Ok(()));
    // a name may be declared behind its call, and in another block
    assert_eq!(check_source("mn { later() }\ncs c { \"int x;\" }\nfn later() { }"), Ok(()));
}

#[test]
fn calls_resolve_against_foreign_declarations() {
    assert_eq!(check_source("cs rust { \"pub fn add() {}\" }\nmn { add() }"), Ok(()));
    assert_eq!(
        check_source("cs c { \"int add();\" }\nmn { add() }"),
        Err(unresolved("add", 1))
    );
}

#[test]
fn first_unresolved_call_is_reported_with_its_block() {
    assert_eq!(check_source("mn { print(1) }"), Err(unresolved("print", 0)));
    assert_eq!(
        check_source("mn { }\ncs c { \"x\" }\nmn { f(missing(), other()) }\nfn f() { }"),
        Err(unresolved("missing", 2))
    );
    assert_eq!(
        check_source("fn f() { }\nmn { f(); a(b()); c() }"),
        Err(unresolved("a", 0))
    );
}

#[test]
fn calls_are_found_in_every_place_of_a_statement() {
    let source = "def d = [one(), {k: two()}]\n\
                  fn f() { if three() { four() } elif five() { } else { six() } }\n\
                  mn { for i in seven() { while eight() { return nine() } } }\n\
                  loop { ten()(eleven()).m(twelve)[thirteen()] }\n\
                  -fourteen(!fifteen()) + await sixteen()\n\
                  ^÷^[w{p=seventeen()}]";
    let blocks = organize(parse_source(source).unwrap());
    assert_eq!(blocks.len(), 1);
    assert_eq!(
        calls_of(&blocks[0]),
        vec![
            "one", "two", "three", "four", "five", "six", "seven", "eight", "nine", "ten",
            "eleven", "thirteen", "fourteen", "fifteen", "sixteen", "seventeen"
        ]
    );
    assert_eq!(all_exports(&blocks), vec!["d", "f"]);
    assert_eq!(resolve(&blocks), Err(unresolved("one", 0)));
}

#[test]
fn foreign_code_is_not_searched_for_calls() {
    let blocks = organize_source("cs rust { \"fn a() { b() }\" }").unwrap();
    assert!(calls_of(&blocks[0]).is_empty());
    assert_eq!(resolve(&blocks), Ok(()));
}

#[test]
fn parse_errors_stop_the_pipeline() {
    let error = ParseError {
        token: Token::Equal,
        span: Span { line: 0, column: 4, length: 1 },
        expected: "name".to_string(),
    };
    assert_eq!(check_source("def = 1"), Err(BuildError::Parse(error.clone())));
    assert_eq!(organize_source("def = 1"), Err(BuildError::Parse(error.clone())));
    assert_eq!(
        build_source("def = 1", "native", false).err(),
        Some(BuildError::Parse(error))
    );
}

#[test]
fn organize_source_gives_the_blocks() {
    let blocks = organize_source("cs rust { \"fn a() {}\" }\nmn { a() }").unwrap();
    let kinds: Vec<BlockKind> = blocks.iter().map(|b| b.kind.clone()).collect();
    assert_eq!(kinds, vec![BlockKind::Foreign("rust".to_string()), BlockKind::Native]);
}

#[test]
fn unknown_target_fails_before_anything_else() {
    let error = build_source("mn { }", "bogus", false).err().unwrap();
    assert_eq!(error, BuildError::UnknownTarget { value: "bogus".to_string() });
    assert_eq!(error.message(), "Unknown target: bogus");
    assert!(error.message().contains("bogus"));
    // the source is not looked at
    assert_eq!(
        build_source("def = 1", "bogus", true).err(),
        Some(BuildError::UnknownTarget { value: "bogus".to_string() })
    );
    assert_eq!(
        build_source("mn { missing() }", "", true).err(),
        Some(BuildError::UnknownTarget { value: String::new() })
    );
}

#[test]
fn unresolved_symbols_stop_the_build() {
    assert_eq!(
        build_source("mn { missing() }", "native", true).err(),
        Some(unresolved("missing", 0))
    );
}

#[test]
fn foreign_blocks_are_held_against_the_target() {
    let source = "cs python { \"def f(): pass\" }\nmn { f() }\ncs rust { \"fn g() {}\" }\ncs js { \"1\" }\ncs c { \"2\" }";
    assert!(build_source(source, "native", false).is_ok());
    assert_eq!(
        build_source(source, "wasm", false).err(),
        Some(BuildError::Compile(vec![
            CompileError {
                block_id: 0,
                backend_message: "code of python cannot be built for target wasm".to_string(),
            },
            CompileError {
                block_id: 3,
                backend_message: "code of js cannot be built for target wasm".to_string(),
            },
        ]))
    );
    assert!(build_source("cs rust { \"\" }\ncs c { \"\" }\nmn { }", "esp32", true).is_ok());
}

#[test]
fn every_block_is_compiled_and_then_linked() {
    let (blocks, mut session) =
        build_source("cs rust { \"fn a() {}\" }\nmn { a() }\ncs c { \"\" }", "wasm", true).unwrap();
    assert_eq!(blocks.len(), 3);
    assert_eq!(session.target(), Target::Wasm);
    assert!(session.optimize());
    assert_eq!(session.next_action(), BuildAction::Compile { block: 0 });
    // asking again changes nothing
    assert_eq!(session.next_action(), BuildAction::Compile { block: 0 });
    session.record(Ok(()));
    assert_eq!(session.next_action(), BuildAction::Compile { block: 1 });
    session.record(Ok(()));
    assert_eq!(session.next_action(), BuildAction::Compile { block: 2 });
    session.record(Ok(()));
    assert_eq!(session.next_action(), BuildAction::Link);
    assert_eq!(session.outcome(), Ok(()));
    session.record(Ok(()));
    assert_eq!(session.next_action(), BuildAction::Finished);
    assert_eq!(session.outcome(), Ok(()));
    session.record(Err("late".to_string()));
    assert_eq!(session.next_action(), BuildAction::Finished);
    assert_eq!(session.outcome(), Ok(()));
}

#[test]
fn failed_blocks_do_not_stop_the_others_but_the_link() {
    let blocks = organize_source("cs rust { \"\" }\nmn { }\ncs c { \"\" }").unwrap();
    let mut session = BuildSession::start(&blocks, "native", false).ok().unwrap();
    assert!(!session.optimize());
    session.record(Err("rustc: error".to_string()));
    assert_eq!(session.next_action(), BuildAction::Compile { block: 1 });
    session.record(Ok(()));
    assert_eq!(session.next_action(), BuildAction::Compile { block: 2 });
    session.record(Err("cc: error".to_string()));
    assert_eq!(session.next_action(), BuildAction::Finished);
    let error = session.outcome().unwrap_err();
    assert_eq!(
        error,
        BuildError::Compile(vec![
            CompileError { block_id: 0, backend_message: "rustc: error".to_string() },
            CompileError { block_id: 2, backend_message: "cc: error".to_string() },
        ])
    );
    assert_eq!(
        error.message(),
        "2 block(s) failed to compile\nblock 0: rustc: error\nblock 2: cc: error"
    );
}

#[test]
fn failed_link_is_a_failure_behind_the_blocks() {
    let blocks = organize_source("mn { }").unwrap();
    let mut session = BuildSession::start(&blocks, "esp32", false).ok().unwrap();
    session.record(Ok(()));
    assert_eq!(session.next_action(), BuildAction::Link);
    session.record(Err("ld: error".to_string()));
    assert_eq!(session.next_action(), BuildAction::Finished);
    assert_eq!(
        session.outcome(),
        Err(BuildError::Compile(vec![CompileError {
            block_id: 1,
            backend_message: "ld: error".to_string()
        }]))
    );
}

#[test]
fn program_without_blocks_is_linked_at_once() {
    let mut session = BuildSession::start(&[], "native", false).ok().unwrap();
    assert_eq!(session.next_action(), BuildAction::Link);
    session.record(Ok(()));
    assert_eq!(session.next_action(), BuildAction::Finished);
    assert_eq!(
        BuildSession::start(&[], "nativ", false).err(),
        Some(BuildError::UnknownTarget { value: "nativ".to_string() })
    );
}

#[test]
fn error_messages() {
    assert_eq!(
        check_source("ok\n  def = 1").unwrap_err().message(),
        "Parse error at line 1, column 6: expected name"
    );
    assert_eq!(unresolved("print", 12).message(), "Unresolved symbol 'print' in block 12");
    assert_eq!(unresolved("", 0).message(), "Unresolved symbol '' in block 0");
    assert_eq!(
        unresolved("x", 1234567890).message(),
        "Unresolved symbol 'x' in block 1234567890"
    );
    assert_eq!(BuildError::Compile(vec![]).message(), "0 block(s) failed to compile");
}

#[test]
fn compiler_organizes_and_resolves() {
    let compiler = Compiler::new(parse_source("cs rust { \"fn a() {}\" }\nmn { a() }").unwrap());
    assert_eq!(compiler.blocks().len(), 2);
    assert_eq!(compiler.organize_blocks(), Ok(()));
    assert_eq!(compiler.compile(), Ok(()));
    let broken = Compiler::new(parse_source("def x = 1\ncs c { \"\" }\nmn { b() }").unwrap());
    assert_eq!(broken.organize_blocks(), Ok(()));
    assert_eq!(broken.compile(), Err("Unresolved symbol 'b' in block 2".to_string()));
}
