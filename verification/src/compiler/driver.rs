//! The pipeline from a source text: parse, organize, resolve, and start a
//! build.

use vstd::prelude::*;
use crate::ast::Program;
use crate::compiler::blocks::{block_views, organize, organized, Block, BlockView};
use crate::compiler::builder::{start_agrees, target_named, BuildSession};
use crate::compiler::error::{unresolved_message, BuildError};
use crate::compiler::symbols::{first_unresolved, resolution_agrees, resolve};
use crate::lexer::grammar::lex;
use crate::parser::descent::{parse_source, reports_in};
use crate::parser::grammar::parse_program;

verus! {

/// Whether what organizing a source text returned is what the grammars and
/// the organizer give for it: the blocks of its program, or its first
/// parse error.
pub open spec fn organizing_agrees(result: Result<Vec<Block>, BuildError>, source: Seq<char>)
    -> bool {
    match parse_program(lex(source)) {
        Ok(statements) => result matches Ok(blocks) && block_views(blocks@) == organized(
            statements,
        ),
        Err(wanted) => result matches Err(BuildError::Parse(error)) && reports_in(
            error,
            source,
            wanted,
        ),
    }
}

/// Whether what checking a source text returned is what the text calls
/// for: its first parse error, else its first unresolved reference, else
/// success.
pub open spec fn checking_agrees(result: Result<(), BuildError>, source: Seq<char>) -> bool {
    match parse_program(lex(source)) {
        Ok(statements) => resolution_agrees(result, first_unresolved(organized(statements), 0)),
        Err(wanted) => result matches Err(BuildError::Parse(error)) && reports_in(
            error,
            source,
            wanted,
        ),
    }
}

/// Whether what starting the build of a source text returned is what the
/// text and the target call for. The target is looked at first.
pub open spec fn building_agrees(
    result: Result<(Vec<Block>, BuildSession), BuildError>,
    source: Seq<char>,
    target: Seq<char>,
    optimize: bool,
) -> bool {
    if target_named(target) is None {
        result matches Err(BuildError::UnknownTarget { value }) && value@ == target
    } else {
        match parse_program(lex(source)) {
            Err(wanted) => result matches Err(BuildError::Parse(error)) && reports_in(
                error,
                source,
                wanted,
            ),
            Ok(statements) => {
                let blocks = organized(statements);
                match first_unresolved(blocks, 0) {
                    Some(unresolved) => result matches Err(
                        BuildError::UnresolvedSymbol { name, block_id },
                    ) && name@ == unresolved.name && block_id == unresolved.block_id,
                    None => match result {
                        Ok((found, session)) => block_views(found@) == blocks && start_agrees(
                            Ok(session),
                            blocks,
                            target,
                            optimize,
                        ),
                        Err(error) => start_agrees(Err(error), blocks, target, optimize),
                    },
                }
            },
        }
    }
}

/// Parses a source text and organizes its program into blocks.
pub fn organize_source(source: &str) -> (result: Result<Vec<Block>, BuildError>)
    ensures
        organizing_agrees(result, source@),
{
    match parse_source(source) {
        Ok(program) => Ok(organize(program)),
        Err(error) => Err(BuildError::Parse(error)),
    }
}

/// Checks a source text without building it: the text must be a program,
/// and every name that its blocks call must be declared by one of them.
pub fn check_source(source: &str) -> (result: Result<(), BuildError>)
    ensures
        checking_agrees(result, source@),
{
    match organize_source(source) {
        Ok(blocks) => resolve(blocks.as_slice()),
        Err(error) => Err(error),
    }
}

/// Prepares the build of a source text for the target of the given name:
/// an unknown target fails before the text is looked at; then the text is
/// checked, and its blocks are held against the target. What comes back
/// are the blocks and the session that steers their build.
pub fn build_source(source: &str, target: &str, optimize: bool) -> (result: Result<
    (Vec<Block>, BuildSession),
    BuildError,
>)
    ensures
        building_agrees(result, source@, target@, optimize),
        result matches Ok((_, session)) ==> session.wf(),
{
    if crate::compiler::builder::parse_target(target).is_none() {
        return Err(BuildError::UnknownTarget { value: String::from_str(target) });
    }
    let blocks = match organize_source(source) {
        Ok(blocks) => blocks,
        Err(error) => {
            return Err(error);
        },
    };
    match resolve(blocks.as_slice()) {
        Ok(_) => {},
        Err(error) => {
            return Err(error);
        },
    }
    match BuildSession::start(blocks.as_slice(), target, optimize) {
        Ok(session) => Ok((blocks, session)),
        Err(error) => Err(error),
    }
}

/// A program on its way to a build: its blocks.
pub struct Compiler {
    blocks: Vec<Block>,
}

impl View for Compiler {
    type V = Seq<BlockView>;

    /// The blocks of the program.
    closed spec fn view(&self) -> Seq<BlockView> {
        block_views(self.blocks@)
    }
}

impl Compiler {
    /// Takes a program and organizes it into blocks.
    pub fn new(program: Program) -> (compiler: Compiler)
        ensures
            compiler@ == organized(program@),
    {
        Compiler { blocks: organize(program) }
    }

    /// Resolves the references between the blocks: it succeeds exactly if
    /// every name that a block calls is declared by some block, and else
    /// names the first missing symbol and the block that calls it.
    pub fn compile(&self) -> (result: Result<(), String>)
        ensures
            match result {
                Ok(_) => first_unresolved(self@, 0) is None,
                Err(message) => first_unresolved(self@, 0) matches Some(unresolved) && message@
                    == unresolved_message(unresolved.name, unresolved.block_id),
            },
    {
        match resolve(self.blocks.as_slice()) {
            Ok(_) => Ok(()),
            Err(error) => Err(error.message()),
        }
    }

    /// The program is organized when the compiler takes it, so this always
    /// succeeds.
    pub fn organize_blocks(&self) -> (result: Result<(), String>)
        ensures
            result is Ok,
    {
        Ok(())
    }

    /// The blocks of the program, in the order of the source.
    pub fn blocks(&self) -> (blocks: &[Block])
        ensures
            block_views(blocks@) == self@,
    {
        self.blocks.as_slice()
    }
}

} // verus!
