//! What can go wrong between a source text and its build.

use vstd::prelude::*;
use crate::parser::descent::ParseError;
use crate::text::{decimal_digits, push_decimal};

verus! {

/// The failure of one block in its backend.
#[derive(Debug, Clone, PartialEq)]
pub struct CompileError {
    pub block_id: usize,
    pub backend_message: String,
}

/// The mathematical value of a [`CompileError`].
pub struct CompileErrorView {
    pub block_id: nat,
    pub backend_message: Seq<char>,
}

impl View for CompileError {
    type V = CompileErrorView;

    open spec fn view(&self) -> CompileErrorView {
        CompileErrorView { block_id: self.block_id as nat, backend_message: self.backend_message@ }
    }
}

/// The values of a run of failures, in order.
pub open spec fn failure_views(failures: Seq<CompileError>) -> Seq<CompileErrorView> {
    failures.map_values(|failure: CompileError| failure@)
}

/// Why a source text was not built.
#[derive(Debug, Clone, PartialEq)]
pub enum BuildError {
    /// The text is no program.
    Parse(ParseError),
    /// A block calls a name that no block declares.
    UnresolvedSymbol { name: String, block_id: usize },
    /// Blocks failed in their backends: all that failed, in their order.
    Compile(Vec<CompileError>),
    /// The target is none of the known ones.
    UnknownTarget { value: String },
}

/// The message of a parse error.
pub open spec fn parse_message(line: nat, column: nat, expected: Seq<char>) -> Seq<char> {
    "Parse error at line "@ + decimal_digits(line) + ", column "@ + decimal_digits(column)
        + ": expected "@ + expected
}

/// The message of an unresolved symbol. It names the symbol and the block.
pub open spec fn unresolved_message(name: Seq<char>, block_id: nat) -> Seq<char> {
    "Unresolved symbol '"@ + name + "' in block "@ + decimal_digits(block_id)
}

/// The message for a name that stands for no target. It ends with the name.
pub open spec fn unknown_target_message(name: Seq<char>) -> Seq<char> {
    "Unknown target: "@ + name
}

/// The messages of a run of failures, each on a line of its own.
pub open spec fn failure_lines(failures: Seq<CompileErrorView>) -> Seq<char>
    decreases failures.len(),
{
    if failures.len() == 0 {
        seq![]
    } else {
        failure_lines(failures.drop_last()) + "\nblock "@ + decimal_digits(
            failures.last().block_id,
        ) + ": "@ + failures.last().backend_message
    }
}

/// The message of failed blocks: how many failed, then each failure.
pub open spec fn compile_message(failures: Seq<CompileErrorView>) -> Seq<char> {
    decimal_digits(failures.len()) + " block(s) failed to compile"@ + failure_lines(failures)
}

impl BuildError {
    /// What the error says, as a specification.
    pub open spec fn message_text(&self) -> Seq<char> {
        match self {
            BuildError::Parse(error) => parse_message(
                error.span.line as nat,
                error.span.column as nat,
                error.expected@,
            ),
            BuildError::UnresolvedSymbol { name, block_id } => unresolved_message(
                name@,
                *block_id as nat,
            ),
            BuildError::Compile(failures) => compile_message(failure_views(failures@)),
            BuildError::UnknownTarget { value } => unknown_target_message(value@),
        }
    }

    /// What the error says.
    pub fn message(&self) -> (text: String)
        ensures
            text@ == self.message_text(),
    {
        match self {
            BuildError::Parse(error) => {
                let mut text = String::from_str("Parse error at line ");
                push_decimal(error.span.line as u64, &mut text);
                text.append(", column ");
                push_decimal(error.span.column as u64, &mut text);
                text.append(": expected ");
                text.append(error.expected.as_str());
                text
            },
            BuildError::UnresolvedSymbol { name, block_id } => {
                let mut text = String::from_str("Unresolved symbol '");
                text.append(name.as_str());
                text.append("' in block ");
                push_decimal(*block_id as u64, &mut text);
                text
            },
            BuildError::Compile(failures) => {
                let mut text = String::new();
                push_decimal(failures.len() as u64, &mut text);
                text.append(" block(s) failed to compile");
                let ghost head = text@;
                let mut i: usize = 0;
                assert(failure_views(failures@).take(0) =~= Seq::empty());
                assert(text@ =~= head + failure_lines(failure_views(failures@).take(0)));
                while i < failures.len()
                    invariant
                        i <= failures.len(),
                        text@ == head + failure_lines(failure_views(failures@).take(i as int)),
                    decreases failures.len() - i,
                {
                    let ghost before = text@;
                    proof {
                        let longer = failure_views(failures@).take(i + 1);
                        assert(longer.drop_last() =~= failure_views(failures@).take(i as int));
                        assert(longer.last() == failures@[i as int]@);
                    }
                    text.append("\nblock ");
                    push_decimal(failures[i].block_id as u64, &mut text);
                    text.append(": ");
                    text.append(failures[i].backend_message.as_str());
                    assert(text@ =~= head + failure_lines(failure_views(failures@).take(i + 1)));
                    i += 1;
                }
                assert(failure_views(failures@).take(i as int) =~= failure_views(failures@));
                text
            },
            BuildError::UnknownTarget { value } => {
                let mut text = String::from_str("Unknown target: ");
                text.append(value.as_str());
                text
            },
        }
    }
}

} // verus!
