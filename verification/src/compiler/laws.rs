//! What holds of the blocks of every program.

use vstd::prelude::*;
use crate::ast::StmtView;
use crate::compiler::blocks::{
    block_of, organized, run_of, runs_of, with_statement, BlockView, Run,
};

verus! {

/// Whether two runs that follow each other would have been one run.
pub open spec fn mergeable(first: Run, second: Run) -> bool {
    match (first, second) {
        (Run::Native(_), Run::Native(_)) => true,
        (Run::Foreign { language: a, .. }, Run::Foreign { language: b, .. }) => a == b,
        _ => false,
    }
}

/// Whether a statement is foreign code.
pub open spec fn is_foreign(statement: StmtView) -> bool {
    statement is CustomBlock
}

/// Runs as the organizer forms them: no two runs that follow each other
/// could be one, every native run has a statement, and none holds foreign
/// code.
pub open spec fn well_cut(runs: Seq<Run>) -> bool {
    &&& forall|i: int| 0 <= i < runs.len() - 1 ==> !mergeable(#[trigger] runs[i], runs[i + 1])
    &&& forall|i: int|
        0 <= i < runs.len() ==> (#[trigger] runs[i] matches Run::Native(statements)
            ==> statements.len() > 0 && forall|j: int|
            0 <= j < statements.len() ==> !is_foreign(#[trigger] statements[j]))
}

/// The statements that a run stands for: its own if it is native, and one
/// statement with all its code if it is foreign.
pub open spec fn statements_of(run: Run) -> Seq<StmtView> {
    match run {
        Run::Native(statements) => statements,
        Run::Foreign { language, code } => seq![StmtView::CustomBlock { language, code }],
    }
}

/// The statements that a sequence of runs stands for, in order.
pub open spec fn flattened(runs: Seq<Run>) -> Seq<StmtView>
    decreases runs.len(),
{
    if runs.len() == 0 {
        seq![]
    } else {
        flattened(runs.drop_last()) + statements_of(runs.last())
    }
}

/// The statements that a sequence of blocks stands for, in order.
pub open spec fn statements_in(blocks: Seq<BlockView>) -> Seq<StmtView> {
    flattened(blocks.map_values(|block: BlockView| run_of(block)))
}

/// The native statements of a sequence of runs, in order.
pub open spec fn native_statements(runs: Seq<Run>) -> Seq<StmtView>
    decreases runs.len(),
{
    if runs.len() == 0 {
        seq![]
    } else {
        match runs.last() {
            Run::Native(statements) => native_statements(runs.drop_last()) + statements,
            Run::Foreign { .. } => native_statements(runs.drop_last()),
        }
    }
}

/// The statements of a program that are no foreign code, in order.
pub open spec fn without_foreign(statements: Seq<StmtView>) -> Seq<StmtView>
    decreases statements.len(),
{
    if statements.len() == 0 {
        seq![]
    } else if is_foreign(statements.last()) {
        without_foreign(statements.drop_last())
    } else {
        without_foreign(statements.drop_last()).push(statements.last())
    }
}

/// The runs of every program are well cut, and there are no more of them
/// than statements.
pub proof fn runs_are_well_cut(statements: Seq<StmtView>)
    ensures
        well_cut(runs_of(statements)),
        runs_of(statements).len() <= statements.len(),
        statements.len() > 0 ==> runs_of(statements).len() > 0,
    decreases statements.len(),
{
    if statements.len() > 0 {
        runs_are_well_cut(statements.drop_last());
        let before = runs_of(statements.drop_last());
        let after = runs_of(statements);
        assert(after == with_statement(before, statements.last()));
        assert forall|i: int| 0 <= i < after.len() - 1 implies !mergeable(
            #[trigger] after[i],
            after[i + 1],
        ) by {
            if i + 1 < before.len() {
                assert(!mergeable(before[i], before[i + 1]));
            }
        }
        assert forall|i: int| 0 <= i < after.len() implies (#[trigger] after[i] matches Run::Native(
            body,
        ) ==> body.len() > 0 && forall|j: int| 0 <= j < body.len() ==> !is_foreign(
            #[trigger] body[j],
        )) by {
            if i < before.len() {
                assert(before[i] matches Run::Native(body) ==> body.len() > 0 && forall|j: int|
                    0 <= j < body.len() ==> !is_foreign(#[trigger] body[j]));
            }
        }
    }
}

/// Blocks never reorder statements: the native statements of the blocks,
/// in the order of the blocks, are the statements of the program that are
/// no foreign code, in the order of the program.
pub proof fn blocks_keep_order(statements: Seq<StmtView>)
    ensures
        native_statements(runs_of(statements)) == without_foreign(statements),
    decreases statements.len(),
{
    if statements.len() > 0 {
        blocks_keep_order(statements.drop_last());
        let before = runs_of(statements.drop_last());
        let after = runs_of(statements);
        let last = statements.last();
        assert(after == with_statement(before, last));
        if is_foreign(last) {
            if after.len() == before.len() {
                assert(after.drop_last() =~= before.drop_last());
            } else {
                assert(after.drop_last() =~= before);
            }
        } else {
            if after.len() == before.len() {
                assert(after.drop_last() =~= before.drop_last());
                assert(native_statements(after) =~= native_statements(before).push(last));
            } else {
                assert(after.drop_last() =~= before);
                assert(native_statements(after) =~= native_statements(before).push(last));
            }
        }
    }
}

/// Native statements behind a program join its last run if that is
/// native, and else form a new run.
proof fn runs_with_native(statements: Seq<StmtView>, more: Seq<StmtView>)
    requires
        more.len() > 0,
        forall|j: int| 0 <= j < more.len() ==> !is_foreign(#[trigger] more[j]),
    ensures
        runs_of(statements + more) == match (if runs_of(statements).len() > 0 {
            Some(runs_of(statements).last())
        } else {
            None
        }) {
            Some(Run::Native(body)) => runs_of(statements).drop_last().push(
                Run::Native(body + more),
            ),
            _ => runs_of(statements).push(Run::Native(more)),
        },
    decreases more.len(),
{
    let all = statements + more;
    assert(all.drop_last() =~= statements + more.drop_last());
    assert(all.last() == more.last());
    let runs = runs_of(statements);
    if more.len() == 1 {
        assert(statements + more.drop_last() =~= statements);
        assert(more =~= seq![more.last()]);
        match (if runs.len() > 0 {
            Some(runs.last())
        } else {
            None
        }) {
            Some(Run::Native(body)) => {
                assert(body + more =~= body.push(more.last()));
            },
            _ => {},
        }
    } else {
        runs_with_native(statements, more.drop_last());
        let shorter = runs_of(statements + more.drop_last());
        assert(!is_foreign(more.drop_last()[0]));
        match (if runs.len() > 0 {
            Some(runs.last())
        } else {
            None
        }) {
            Some(Run::Native(body)) => {
                assert(shorter.last() == Run::Native(body + more.drop_last()));
                assert(shorter.drop_last() =~= runs.drop_last());
                assert((body + more.drop_last()).push(more.last()) =~= body + more);
            },
            _ => {
                assert(shorter.last() == Run::Native(more.drop_last()));
                assert(shorter.drop_last() =~= runs);
                assert(more.drop_last().push(more.last()) =~= more);
            },
        }
    }
}

/// Well-cut runs are the runs of the statements that they stand for.
pub proof fn runs_of_flattened(runs: Seq<Run>)
    requires
        well_cut(runs),
    ensures
        runs_of(flattened(runs)) == runs,
    decreases runs.len(),
{
    if runs.len() > 0 {
        let before = runs.drop_last();
        let last = runs.last();
        assert(well_cut(before)) by {
            assert forall|i: int| 0 <= i < before.len() - 1 implies !mergeable(
                #[trigger] before[i],
                before[i + 1],
            ) by {
                assert(!mergeable(runs[i], runs[i + 1]));
            }
            assert forall|i: int| 0 <= i < before.len() implies (
            #[trigger] before[i] matches Run::Native(body) ==> body.len() > 0 && forall|j: int|
                0 <= j < body.len() ==> !is_foreign(#[trigger] body[j])) by {
                assert(runs[i] matches Run::Native(body) ==> body.len() > 0 && forall|j: int|
                    0 <= j < body.len() ==> !is_foreign(#[trigger] body[j]));
            }
        }
        runs_of_flattened(before);
        if before.len() > 0 {
            assert(!mergeable(runs[before.len() - 1], runs[before.len() - 1 + 1]));
            assert(before.last() == runs[before.len() - 1]);
        }
        match last {
            Run::Native(body) => {
                assert(runs[runs.len() - 1] matches Run::Native(b) ==> b.len() > 0 && forall|
                    j: int,
                |
                    0 <= j < b.len() ==> !is_foreign(#[trigger] b[j]));
                runs_with_native(flattened(before), body);
                assert(before.push(last) =~= runs);
            },
            Run::Foreign { language, code } => {
                let statement = StmtView::CustomBlock { language, code };
                let all = flattened(before) + seq![statement];
                assert(all.drop_last() =~= flattened(before));
                assert(all.last() == statement);
                assert(before.push(last) =~= runs);
            },
        }
    }
}

/// Organizing is idempotent: the statements that the blocks of a program
/// stand for organize to the same blocks.
pub proof fn organize_is_idempotent(statements: Seq<StmtView>)
    ensures
        organized(statements_in(organized(statements))) == organized(statements),
{
    let runs = runs_of(statements);
    let blocks = organized(statements);
    assert(blocks.map_values(|block: BlockView| run_of(block)) =~= runs) by {
        assert forall|i: int| 0 <= i < runs.len() implies run_of(block_of(runs[i], i as nat))
            == runs[i] by {}
    }
    runs_are_well_cut(statements);
    runs_of_flattened(runs);
}

/// Blocks that follow each other differ in kind: the organizer forms the
/// longest runs.
pub proof fn blocks_are_maximal(statements: Seq<StmtView>, i: int)
    requires
        0 <= i,
        i + 1 < organized(statements).len(),
    ensures
        organized(statements)[i].kind != organized(statements)[i + 1].kind,
{
    runs_are_well_cut(statements);
    let runs = runs_of(statements);
    assert(!mergeable(runs[i], runs[i + 1]));
}

/// Organizing is repeatable: whatever blocks two runs of the organizer give
/// for programs of the same value, they are the same blocks.
pub proof fn organize_is_repeatable(
    first_program: Seq<StmtView>,
    first: Seq<BlockView>,
    second_program: Seq<StmtView>,
    second: Seq<BlockView>,
)
    requires
        first_program == second_program,
        first == organized(first_program),
        second == organized(second_program),
    ensures
        first == second,
{
}

} // verus!
