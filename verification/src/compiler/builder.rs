//! Build configuration: the target and whether to optimise.

use vstd::prelude::*;
use crate::compiler::blocks::{block_views, Block, BlockKind, BlockView, KindView};
use crate::compiler::error::{
    failure_views, unknown_target_message, BuildError, CompileError, CompileErrorView,
};
use crate::text::str_eq;

verus! {

/// A build destination.
#[derive(Debug, Clone, Copy, PartialEq, Eq, Structural)]
pub enum Target {
    Native,
    Wasm,
    Esp32,
}

/// The target that a name stands for: `native`, `wasm` or `esp32`, spelled
/// exactly so.
pub open spec fn target_named(name: Seq<char>) -> Option<Target> {
    if name == "native"@ {
        Some(Target::Native)
    } else if name == "wasm"@ {
        Some(Target::Wasm)
    } else if name == "esp32"@ {
        Some(Target::Esp32)
    } else {
        None
    }
}

/// The target that a name stands for, if it stands for one.
pub fn parse_target(name: &str) -> (target: Option<Target>)
    ensures
        target == target_named(name@),
{
    if str_eq(name, "native") {
        Some(Target::Native)
    } else if str_eq(name, "wasm") {
        Some(Target::Wasm)
    } else if str_eq(name, "esp32") {
        Some(Target::Esp32)
    } else {
        None
    }
}

/// A build as it was asked for.
pub struct Builder {
    target: String,
    optimize: bool,
}

impl Builder {
    /// The name of the target, as it was given.
    pub closed spec fn target_name(&self) -> Seq<char> {
        self.target@
    }

    /// Whether the build optimises.
    pub closed spec fn optimizes(&self) -> bool {
        self.optimize
    }

    /// A build for the target of the given name. The name is checked when
    /// the build runs.
    pub fn new(target: String, optimize: bool) -> (builder: Builder)
        ensures
            builder.target_name() == target@,
            builder.optimizes() == optimize,
    {
        Builder { target, optimize }
    }

    /// Runs the build: it succeeds for the three known targets and fails,
    /// before anything else is done, for any other name, with a message that
    /// names it.
    pub fn build(&self) -> (result: Result<(), String>)
        ensures
            match result {
                Ok(_) => target_named(self.target_name()) is Some,
                Err(message) => target_named(self.target_name()) is None && message@
                    == unknown_target_message(self.target_name()),
            },
    {
        match parse_target(self.target.as_str()) {
            Some(Target::Native) => self.build_native(),
            Some(Target::Wasm) => self.build_wasm(),
            Some(Target::Esp32) => self.build_esp32(),
            None => {
                let mut message = String::from_str("Unknown target: ");
                message.append(self.target.as_str());
                Err(message)
            },
        }
    }

    fn build_native(&self) -> (result: Result<(), String>)
        ensures
            result is Ok,
    {
        Ok(())
    }

    fn build_wasm(&self) -> (result: Result<(), String>)
        ensures
            result is Ok,
    {
        Ok(())
    }

    fn build_esp32(&self) -> (result: Result<(), String>)
        ensures
            result is Ok,
    {
        Ok(())
    }
}

/// Whether code of a language can be built for a target: code of rust and
/// of c for every target, code of any other language for the native target
/// only.
pub open spec fn language_targets(language: Seq<char>, target: Target) -> bool {
    target == Target::Native || language == "rust"@ || language == "c"@
}

/// Whether a block can be built for a target. A native block can be built
/// for every target.
pub open spec fn block_targets(block: BlockView, target: Target) -> bool {
    match block.kind {
        KindView::Native => true,
        KindView::Foreign(language) => language_targets(language, target),
    }
}

/// The message for a block that cannot be built for the target.
pub open spec fn incompatible_message(language: Seq<char>, target: Seq<char>) -> Seq<char> {
    "code of "@ + language + " cannot be built for target "@ + target
}

/// The failures of the first `count` blocks that cannot be built for the
/// target, in order.
pub open spec fn incompatible_blocks(
    blocks: Seq<BlockView>,
    target: Target,
    name: Seq<char>,
    count: nat,
) -> Seq<CompileErrorView>
    decreases count,
{
    if count == 0 {
        seq![]
    } else {
        let before = incompatible_blocks(blocks, target, name, (count - 1) as nat);
        match blocks[count - 1].kind {
            KindView::Foreign(language) => if language_targets(language, target) {
                before
            } else {
                before.push(
                    CompileErrorView {
                        block_id: blocks[count - 1].id,
                        backend_message: incompatible_message(language, name),
                    },
                )
            },
            KindView::Native => before,
        }
    }
}

/// What is to be done next in a build.
#[derive(Debug, Clone, Copy, PartialEq, Eq, Structural)]
pub enum BuildAction {
    /// Compile the block at this place among the blocks.
    Compile { block: usize },
    /// Link what was compiled.
    Link,
    /// Nothing: the build is over.
    Finished,
}

/// The mathematical value of a [`BuildSession`].
pub struct SessionView {
    pub target: Target,
    pub optimize: bool,
    /// How many blocks there are to compile.
    pub count: nat,
    /// How many of them were handed to their backends.
    pub attempted: nat,
    pub failures: Seq<CompileErrorView>,
    /// Whether the link step was taken.
    pub linked: bool,
}

impl SessionView {
    /// What is to be done next: every block is compiled, whatever became
    /// of the blocks before it; the link step is taken once all are
    /// compiled, and only if none failed.
    pub open spec fn next_action(self) -> BuildAction {
        if self.attempted < self.count {
            BuildAction::Compile { block: self.attempted as usize }
        } else if self.failures.len() == 0 && !self.linked {
            BuildAction::Link
        } else {
            BuildAction::Finished
        }
    }

    /// The state after the pending action came out as `outcome`: `None` for
    /// success, or the message of the backend.
    pub open spec fn after(self, outcome: Option<Seq<char>>) -> SessionView {
        match self.next_action() {
            BuildAction::Compile { block } => SessionView {
                attempted: self.attempted + 1,
                failures: match outcome {
                    Some(message) => self.failures.push(
                        CompileErrorView { block_id: self.attempted, backend_message: message },
                    ),
                    None => self.failures,
                },
                ..self
            },
            BuildAction::Link => SessionView {
                linked: true,
                failures: match outcome {
                    Some(message) => self.failures.push(
                        CompileErrorView { block_id: self.count, backend_message: message },
                    ),
                    None => self.failures,
                },
                ..self
            },
            BuildAction::Finished => self,
        }
    }

    /// The state after the outcomes of several actions, in order.
    pub open spec fn after_all(self, outcomes: Seq<Option<Seq<char>>>) -> SessionView
        decreases outcomes.len(),
    {
        if outcomes.len() == 0 {
            self
        } else {
            self.after_all(outcomes.drop_last()).after(outcomes.last())
        }
    }

    /// A build that has not started.
    pub open spec fn fresh(target: Target, optimize: bool, count: nat) -> SessionView {
        SessionView { target, optimize, count, attempted: 0, failures: seq![], linked: false }
    }
}

/// A build in progress. The backends are run by the caller: the session
/// says what to run next and is told how it came out.
pub struct BuildSession {
    target: Target,
    optimize: bool,
    count: usize,
    attempted: usize,
    failures: Vec<CompileError>,
    linked: bool,
}

impl View for BuildSession {
    type V = SessionView;

    closed spec fn view(&self) -> SessionView {
        SessionView {
            target: self.target,
            optimize: self.optimize,
            count: self.count as nat,
            attempted: self.attempted as nat,
            failures: failure_views(self.failures@),
            linked: self.linked,
        }
    }
}

/// Whether what starting a build returned is what the blocks and the
/// target call for.
pub open spec fn start_agrees(
    result: Result<BuildSession, BuildError>,
    blocks: Seq<BlockView>,
    target: Seq<char>,
    optimize: bool,
) -> bool {
    match target_named(target) {
        None => result matches Err(BuildError::UnknownTarget { value }) && value@ == target,
        Some(known) => {
            let failures = incompatible_blocks(blocks, known, target, blocks.len());
            if failures.len() > 0 {
                result matches Err(BuildError::Compile(found)) && failure_views(found@) == failures
            } else {
                result matches Ok(session) && session@ == SessionView::fresh(
                    known,
                    optimize,
                    blocks.len(),
                )
            }
        },
    }
}

impl BuildSession {
    /// Whether the session can be in this state: no more blocks are
    /// attempted than there are.
    pub closed spec fn wf(&self) -> bool {
        self.attempted <= self.count
    }

    /// Starts a build of `blocks` for the target of the given name. An
    /// unknown target fails at once, before any block is looked at. Then
    /// every foreign block is held against the target: if some cannot be
    /// built for it, the build fails with all of them, before any backend
    /// runs.
    pub fn start(blocks: &[Block], target: &str, optimize: bool) -> (result: Result<
        BuildSession,
        BuildError,
    >)
        ensures
            start_agrees(result, block_views(blocks@), target@, optimize),
            result matches Ok(session) ==> session.wf(),
    {
        let known = match parse_target(target) {
            Some(known) => known,
            None => {
                return Err(BuildError::UnknownTarget { value: String::from_str(target) });
            },
        };
        let ghost views = block_views(blocks@);
        let mut failures: Vec<CompileError> = Vec::new();
        let mut i: usize = 0;
        assert(failure_views(failures@) =~= incompatible_blocks(views, known, target@, 0));
        while i < blocks.len()
            invariant
                i <= blocks.len(),
                views == block_views(blocks@),
                failure_views(failures@) == incompatible_blocks(views, known, target@, i as nat),
            decreases blocks.len() - i,
        {
            let ghost before = failure_views(failures@);
            assert(views[i as int] == blocks@[i as int]@);
            match &blocks[i].kind {
                BlockKind::Foreign(language) => {
                    let fits = match known {
                        Target::Native => true,
                        _ => str_eq(language.as_str(), "rust") || str_eq(language.as_str(), "c"),
                    };
                    if !fits {
                        let mut message = String::from_str("code of ");
                        message.append(language.as_str());
                        message.append(" cannot be built for target ");
                        message.append(target);
                        let failure = CompileError {
                            block_id: blocks[i].id,
                            backend_message: message,
                        };
                        failures.push(failure);
                        assert(failure_views(failures@) =~= before.push(failure@));
                    }
                },
                BlockKind::Native => {},
            }
            i += 1;
        }
        if failures.len() > 0 {
            return Err(BuildError::Compile(failures));
        }
        let session = BuildSession {
            target: known,
            optimize,
            count: blocks.len(),
            attempted: 0,
            failures,
            linked: false,
        };
        assert(session@.failures =~= Seq::empty());
        Ok(session)
    }

    /// What is to be done next.
    pub fn next_action(&self) -> (action: BuildAction)
        ensures
            action == self@.next_action(),
    {
        if self.attempted < self.count {
            BuildAction::Compile { block: self.attempted }
        } else if self.failures.len() == 0 && !self.linked {
            BuildAction::Link
        } else {
            BuildAction::Finished
        }
    }

    /// Takes note of how the pending action came out: `Ok` for success, or
    /// the message of the backend. A failure is kept and the build goes on
    /// with the next block.
    pub fn record(&mut self, outcome: Result<(), String>)
        requires
            old(self).wf(),
        ensures
            final(self).wf(),
            final(self)@ == old(self)@.after(
                match outcome {
                    Ok(_) => None,
                    Err(message) => Some(message@),
                },
            ),
    {
        let ghost before = failure_views(self.failures@);
        match self.next_action() {
            BuildAction::Compile { block } => {
                self.attempted = self.attempted + 1;
                match outcome {
                    Ok(_) => {},
                    Err(message) => {
                        let failure = CompileError { block_id: block, backend_message: message };
                        self.failures.push(failure);
                        assert(failure_views(self.failures@) =~= before.push(failure@));
                    },
                }
            },
            BuildAction::Link => {
                self.linked = true;
                match outcome {
                    Ok(_) => {},
                    Err(message) => {
                        let failure = CompileError {
                            block_id: self.count,
                            backend_message: message,
                        };
                        self.failures.push(failure);
                        assert(failure_views(self.failures@) =~= before.push(failure@));
                    },
                }
            },
            BuildAction::Finished => {},
        }
    }

    /// The target of the build.
    pub fn target(&self) -> (target: Target)
        ensures
            target == self@.target,
    {
        self.target
    }

    /// Whether the build optimises.
    pub fn optimize(&self) -> (optimize: bool)
        ensures
            optimize == self@.optimize,
    {
        self.optimize
    }

    /// How the build stands: `Ok` while nothing has failed, else all
    /// failures so far, in their order.
    pub fn outcome(&self) -> (result: Result<(), BuildError>)
        ensures
            match result {
                Ok(_) => self@.failures.len() == 0,
                Err(BuildError::Compile(failures)) => self@.failures.len() > 0 && failure_views(
                    failures@,
                ) == self@.failures,
                Err(_) => false,
            },
    {
        if self.failures.len() == 0 {
            return Ok(());
        }
        let mut failures: Vec<CompileError> = Vec::new();
        let mut i: usize = 0;
        assert(failure_views(failures@) =~= failure_views(self.failures@).take(0));
        while i < self.failures.len()
            invariant
                i <= self.failures.len(),
                failure_views(failures@) == failure_views(self.failures@).take(i as int),
            decreases self.failures.len() - i,
        {
            let ghost before = failure_views(failures@);
            let copy = CompileError {
                block_id: self.failures[i].block_id,
                backend_message: self.failures[i].backend_message.clone(),
            };
            failures.push(copy);
            assert(failure_views(failures@) =~= before.push(self.failures@[i as int]@));
            assert(failure_views(self.failures@).take(i + 1) =~= before.push(
                self.failures@[i as int]@,
            ));
            i += 1;
        }
        assert(failure_views(self.failures@).take(i as int) =~= failure_views(self.failures@));
        Err(BuildError::Compile(failures))
    }
}

/// The failures among the outcomes of compiling the blocks, in order: each
/// with the place of its block.
pub open spec fn failures_of(outcomes: Seq<Option<Seq<char>>>) -> Seq<CompileErrorView>
    decreases outcomes.len(),
{
    if outcomes.len() == 0 {
        seq![]
    } else {
        let before = failures_of(outcomes.drop_last());
        match outcomes.last() {
            Some(message) => before.push(
                CompileErrorView {
                    block_id: (outcomes.len() - 1) as nat,
                    backend_message: message,
                },
            ),
            None => before,
        }
    }
}

/// Every block is handed to its backend, also when blocks before it
/// failed: after the outcomes of the first blocks, as many blocks were
/// attempted as there are outcomes, every failure among them was kept, and
/// the link step was not taken.
pub proof fn every_block_is_attempted(
    target: Target,
    optimize: bool,
    count: nat,
    outcomes: Seq<Option<Seq<char>>>,
)
    requires
        outcomes.len() <= count,
    ensures
        SessionView::fresh(target, optimize, count).after_all(outcomes) == (SessionView {
            attempted: outcomes.len(),
            failures: failures_of(outcomes),
            ..SessionView::fresh(target, optimize, count)
        }),
    decreases outcomes.len(),
{
    let fresh = SessionView::fresh(target, optimize, count);
    if outcomes.len() > 0 {
        every_block_is_attempted(target, optimize, count, outcomes.drop_last());
        let before = fresh.after_all(outcomes.drop_last());
        assert(before.attempted == outcomes.len() - 1);
        assert(before.next_action() == BuildAction::Compile { block: before.attempted as usize });
        assert(fresh.after_all(outcomes) == before.after(outcomes.last()));
    }
}

/// There is a failure among the outcomes exactly if one of them is none.
pub proof fn failures_of_is_empty(outcomes: Seq<Option<Seq<char>>>)
    ensures
        failures_of(outcomes).len() == 0 <==> forall|i: int|
            0 <= i < outcomes.len() ==> outcomes[i] is None,
    decreases outcomes.len(),
{
    if outcomes.len() > 0 {
        failures_of_is_empty(outcomes.drop_last());
        let shorter = outcomes.drop_last();
        if forall|i: int| 0 <= i < outcomes.len() ==> outcomes[i] is None {
            assert forall|i: int| 0 <= i < shorter.len() implies shorter[i] is None by {
                assert(shorter[i] == outcomes[i]);
            }
        }
        if failures_of(outcomes).len() == 0 {
            assert forall|i: int| 0 <= i < outcomes.len() implies outcomes[i] is None by {
                if i < shorter.len() {
                    assert(shorter[i] == outcomes[i]);
                }
            }
        }
    }
}

/// The link step is taken only if no block failed: once all blocks were
/// attempted, the next action is to link exactly if every outcome was a
/// success, and else the build is over.
pub proof fn link_needs_every_block(
    target: Target,
    optimize: bool,
    outcomes: Seq<Option<Seq<char>>>,
)
    ensures
        SessionView::fresh(target, optimize, outcomes.len()).after_all(outcomes).next_action() == (
        if forall|i: int| 0 <= i < outcomes.len() ==> outcomes[i] is None {
            BuildAction::Link
        } else {
            BuildAction::Finished
        }),
{
    every_block_is_attempted(target, optimize, outcomes.len(), outcomes);
    failures_of_is_empty(outcomes);
}

} // verus!
