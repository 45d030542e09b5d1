//! Symbol resolution across blocks.
//!
//! A block refers to a name wherever one of its statements calls the name:
//! `name(...)`. Every name that is called must be declared at the top level
//! of some block of the program.

use vstd::prelude::*;
use crate::ast::{
    entry_views, expr_views, lemma_call_view, lemma_dict_view, lemma_list_view,
    lemma_sprite_view, lemma_statement_views, stmt_views, ExprView, Expression,
    Statement, StmtView,
};
use crate::compiler::blocks::{block_views, Block, BlockView, Payload, PayloadView};
use crate::compiler::error::BuildError;
use crate::text::texts;

verus! {

/// The names that an expression calls, in the order of the source.
pub open spec fn called_names(expr: ExprView) -> Seq<Seq<char>>
    decreases expr,
{
    match expr {
        ExprView::Binary { left, op, right } => called_names(*left) + called_names(*right),
        ExprView::Unary { op, operand } => called_names(*operand),
        ExprView::Call { function, args } => (match *function {
            ExprView::Identifier(name) => seq![name],
            _ => called_names(*function),
        }) + called_in_all(args),
        ExprView::Await(inner) => called_names(*inner),
        ExprView::UiSprite { sprite_type, properties } => called_in_entries(properties),
        ExprView::List(items) => called_in_all(items),
        ExprView::Dict(entries) => called_in_entries(entries),
        ExprView::Index { object, index } => called_names(*object) + called_names(*index),
        ExprView::Member { object, member } => called_names(*object),
        _ => seq![],
    }
}

/// The names that a run of expressions calls.
pub open spec fn called_in_all(exprs: Seq<ExprView>) -> Seq<Seq<char>>
    decreases exprs,
{
    if exprs.len() == 0 {
        seq![]
    } else {
        called_in_all(exprs.drop_last()) + called_names(exprs.last())
    }
}

/// The names that the values of a run of entries call.
pub open spec fn called_in_entries(entries: Seq<(Seq<char>, ExprView)>) -> Seq<Seq<char>>
    decreases entries,
{
    if entries.len() == 0 {
        seq![]
    } else {
        called_in_entries(entries.drop_last()) + called_names(entries.last().1)
    }
}

/// The names that a statement calls, its bodies included.
pub open spec fn statement_calls(statement: StmtView) -> Seq<Seq<char>>
    decreases statement,
{
    match statement {
        StmtView::Definition { name, ownership, value } => called_names(value),
        StmtView::Function { name, params, body, is_async } => body_calls(body),
        StmtView::Main { body } => body_calls(body),
        StmtView::Expression(expr) => called_names(expr),
        StmtView::Return(Some(expr)) => called_names(expr),
        StmtView::If { condition, then_body, else_body } => called_names(condition) + body_calls(
            then_body,
        ) + (match else_body {
            Some(body) => body_calls(body),
            None => seq![],
        }),
        StmtView::Loop { body } => body_calls(body),
        StmtView::For { variable, iterable, body } => called_names(iterable) + body_calls(body),
        StmtView::While { condition, body } => called_names(condition) + body_calls(body),
        _ => seq![],
    }
}

/// The names that a run of statements calls.
pub open spec fn body_calls(statements: Seq<StmtView>) -> Seq<Seq<char>>
    decreases statements,
{
    if statements.len() == 0 {
        seq![]
    } else {
        body_calls(statements.drop_last()) + statement_calls(statements.last())
    }
}

/// The names that a block calls. Foreign code is not looked into.
pub open spec fn block_calls(block: BlockView) -> Seq<Seq<char>> {
    match block.payload {
        PayloadView::Statements(statements) => body_calls(statements),
        PayloadView::RawText(_) => seq![],
    }
}

/// The names that the first `count` blocks declare, in order.
pub open spec fn exports_of(blocks: Seq<BlockView>, count: nat) -> Seq<Seq<char>>
    decreases count,
{
    if count == 0 {
        seq![]
    } else {
        exports_of(blocks, (count - 1) as nat) + blocks[count - 1].exported_symbols
    }
}

/// The first of `called` that is not among `declared`.
pub open spec fn first_missing(called: Seq<Seq<char>>, declared: Seq<Seq<char>>) -> Option<
    Seq<char>,
>
    decreases called.len(),
{
    if called.len() == 0 {
        None
    } else if declared.contains(called[0]) {
        first_missing(called.drop_first(), declared)
    } else {
        Some(called[0])
    }
}

/// A name that no block declares, with the block that calls it.
pub struct Unresolved {
    pub name: Seq<char>,
    pub block_id: nat,
}

/// The first unresolved reference among the blocks from `from` on: that of
/// the first block that has one, and in it the first name.
pub open spec fn first_unresolved(blocks: Seq<BlockView>, from: int) -> Option<Unresolved>
    decreases blocks.len() - from,
{
    if from < 0 || from >= blocks.len() {
        None
    } else {
        match first_missing(block_calls(blocks[from]), exports_of(blocks, blocks.len())) {
            Some(name) => Some(Unresolved { name, block_id: blocks[from].id }),
            None => first_unresolved(blocks, from + 1),
        }
    }
}

/// Adds the names that an expression calls to `found`.
fn collect_calls(expr: &Expression, found: &mut Vec<String>)
    ensures
        texts(final(found)@) == texts(old(found)@) + called_names(expr@),
    decreases expr,
{
    let ghost before = texts(found@);
    match expr {
        Expression::Binary { left, op, right } => {
            collect_calls(left, found);
            collect_calls(right, found);
            assert(texts(found@) =~= before + called_names(expr@));
        },
        Expression::Unary { op, operand } => {
            collect_calls(operand, found);
        },
        Expression::Call { function, args } => {
            proof {
                lemma_call_view(**function, *args);
            }
            match &**function {
                Expression::Identifier(name) => {
                    found.push(name.clone());
                    assert(texts(found@) =~= before + seq![name@]);
                },
                other => {
                    collect_calls(other, found);
                },
            }
            collect_all(args, found);
            assert(texts(found@) =~= before + called_names(expr@));
        },
        Expression::Await(inner) => {
            collect_calls(inner, found);
        },
        Expression::UiSprite { sprite_type, properties } => {
            proof {
                lemma_sprite_view(*sprite_type, *properties);
            }
            collect_entries(properties, found);
        },
        Expression::List(items) => {
            proof {
                lemma_list_view(*items);
            }
            collect_all(items, found);
        },
        Expression::Dict(entries) => {
            proof {
                lemma_dict_view(*entries);
            }
            collect_entries(entries, found);
        },
        Expression::Index { object, index } => {
            collect_calls(object, found);
            collect_calls(index, found);
            assert(texts(found@) =~= before + called_names(expr@));
        },
        Expression::Member { object, member } => {
            collect_calls(object, found);
        },
        _ => {
            assert(texts(found@) =~= before + called_names(expr@));
        },
    }
}

/// Adds the names that a run of expressions calls to `found`.
fn collect_all(exprs: &Vec<Expression>, found: &mut Vec<String>)
    ensures
        texts(final(found)@) == texts(old(found)@) + called_in_all(expr_views(exprs@)),
    decreases exprs,
{
    let ghost before = texts(found@);
    let ghost views = expr_views(exprs@);
    let mut i: usize = 0;
    assert(texts(found@) =~= before + called_in_all(views.take(0)));
    while i < exprs.len()
        invariant
            i <= exprs.len(),
            views == expr_views(exprs@),
            texts(found@) == before + called_in_all(views.take(i as int)),
        decreases exprs.len() - i,
    {
        let ghost so_far = texts(found@);
        proof {
            assert(views.take(i + 1).drop_last() =~= views.take(i as int));
            assert(views.take(i + 1).last() == exprs@[i as int]@);
        }
        collect_calls(&exprs[i], found);
        assert(texts(found@) =~= before + called_in_all(views.take(i + 1)));
        i += 1;
    }
    assert(views.take(i as int) =~= views);
}

/// Adds the names that the values of a run of entries call to `found`.
fn collect_entries(entries: &Vec<(String, Expression)>, found: &mut Vec<String>)
    ensures
        texts(final(found)@) == texts(old(found)@) + called_in_entries(entry_views(entries@)),
    decreases entries,
{
    let ghost before = texts(found@);
    let ghost views = entry_views(entries@);
    let mut i: usize = 0;
    assert(texts(found@) =~= before + called_in_entries(views.take(0)));
    while i < entries.len()
        invariant
            i <= entries.len(),
            views == entry_views(entries@),
            texts(found@) == before + called_in_entries(views.take(i as int)),
        decreases entries.len() - i,
    {
        proof {
            assert(views.take(i + 1).drop_last() =~= views.take(i as int));
            assert(views.take(i + 1).last().1 == entries@[i as int].1@);
        }
        collect_calls(&entries[i].1, found);
        assert(texts(found@) =~= before + called_in_entries(views.take(i + 1)));
        i += 1;
    }
    assert(views.take(i as int) =~= views);
}

/// Adds the names that a statement calls to `found`.
fn collect_statement(statement: &Statement, found: &mut Vec<String>)
    ensures
        texts(final(found)@) == texts(old(found)@) + statement_calls(statement@),
    decreases statement,
{
    let ghost before = texts(found@);
    proof {
        lemma_statement_views(*statement);
    }
    match statement {
        Statement::Definition { name, ownership, value } => {
            collect_calls(value, found);
        },
        Statement::Function { name, params, body, is_async } => {
            collect_body(body, found);
        },
        Statement::Main { body } => {
            collect_body(body, found);
        },
        Statement::Expression(expr) => {
            collect_calls(expr, found);
        },
        Statement::Return(Some(expr)) => {
            collect_calls(expr, found);
        },
        Statement::If { condition, then_body, else_body } => {
            collect_calls(condition, found);
            collect_body(then_body, found);
            match else_body {
                Some(body) => {
                    collect_body(body, found);
                },
                None => {},
            }
            assert(texts(found@) =~= before + statement_calls(statement@));
        },
        Statement::Loop { body } => {
            collect_body(body, found);
        },
        Statement::For { variable, iterable, body } => {
            collect_calls(iterable, found);
            collect_body(body, found);
            assert(texts(found@) =~= before + statement_calls(statement@));
        },
        Statement::While { condition, body } => {
            collect_calls(condition, found);
            collect_body(body, found);
            assert(texts(found@) =~= before + statement_calls(statement@));
        },
        _ => {
            assert(texts(found@) =~= before + statement_calls(statement@));
        },
    }
}

/// Adds the names that a run of statements calls to `found`.
fn collect_body(statements: &Vec<Statement>, found: &mut Vec<String>)
    ensures
        texts(final(found)@) == texts(old(found)@) + body_calls(stmt_views(statements@)),
    decreases statements,
{
    let ghost before = texts(found@);
    let ghost views = stmt_views(statements@);
    let mut i: usize = 0;
    assert(texts(found@) =~= before + body_calls(views.take(0)));
    while i < statements.len()
        invariant
            i <= statements.len(),
            views == stmt_views(statements@),
            texts(found@) == before + body_calls(views.take(i as int)),
        decreases statements.len() - i,
    {
        proof {
            assert(views.take(i + 1).drop_last() =~= views.take(i as int));
            assert(views.take(i + 1).last() == statements@[i as int]@);
        }
        collect_statement(&statements[i], found);
        assert(texts(found@) =~= before + body_calls(views.take(i + 1)));
        i += 1;
    }
    assert(views.take(i as int) =~= views);
}

/// The names that a block calls, in the order of the source.
pub fn calls_of(block: &Block) -> (found: Vec<String>)
    ensures
        texts(found@) == block_calls(block@),
{
    let mut found: Vec<String> = Vec::new();
    assert(texts(found@) =~= Seq::empty());
    match &block.payload {
        Payload::Statements(statements) => {
            collect_body(statements, &mut found);
            assert(texts(found@) =~= body_calls(stmt_views(statements@)));
        },
        Payload::RawText(_) => {},
    }
    found
}

/// The names that the blocks declare, in the order of the blocks.
pub fn all_exports(blocks: &[Block]) -> (found: Vec<String>)
    ensures
        texts(found@) == exports_of(block_views(blocks@), blocks@.len()),
{
    let mut found: Vec<String> = Vec::new();
    let ghost views = block_views(blocks@);
    assert(texts(found@) =~= Seq::empty());
    let mut i: usize = 0;
    while i < blocks.len()
        invariant
            i <= blocks.len(),
            views == block_views(blocks@),
            texts(found@) == exports_of(views, i as nat),
        decreases blocks.len() - i,
    {
        let ghost before = texts(found@);
        let symbols = &blocks[i].exported_symbols;
        let mut j: usize = 0;
        assert(texts(found@) =~= before + texts(symbols@).take(0));
        while j < symbols.len()
            invariant
                j <= symbols.len(),
                texts(found@) == before + texts(symbols@).take(j as int),
            decreases symbols.len() - j,
        {
            let ghost so_far = texts(found@);
            found.push(symbols[j].clone());
            assert(texts(found@) =~= so_far.push(symbols@[j as int]@));
            assert(texts(symbols@).take(j + 1) =~= texts(symbols@).take(j as int).push(
                symbols@[j as int]@,
            ));
            assert(texts(found@) =~= before + texts(symbols@).take(j + 1));
            j += 1;
        }
        assert(texts(symbols@).take(j as int) =~= texts(symbols@));
        assert(views[i as int].exported_symbols == texts(symbols@));
        i += 1;
    }
    found
}

/// Whether `name` is among `declared`.
fn is_declared(name: &String, declared: &Vec<String>) -> (r: bool)
    ensures
        r == texts(declared@).contains(name@),
{
    let mut i: usize = 0;
    while i < declared.len()
        invariant
            i <= declared.len(),
            forall|j: int| 0 <= j < i ==> texts(declared@)[j] != name@,
        decreases declared.len() - i,
    {
        if declared[i] == *name {
            assert(texts(declared@)[i as int] == name@);
            return true;
        }
        i += 1;
    }
    false
}

/// The first of `called` that is not among `declared`.
fn find_missing(called: &Vec<String>, declared: &Vec<String>) -> (missing: Option<String>)
    ensures
        match missing {
            Some(name) => first_missing(texts(called@), texts(declared@)) == Some(name@),
            None => first_missing(texts(called@), texts(declared@)) is None,
        },
{
    let mut i: usize = 0;
    assert(texts(called@).skip(0) =~= texts(called@));
    while i < called.len()
        invariant
            i <= called.len(),
            first_missing(texts(called@).skip(i as int), texts(declared@)) == first_missing(
                texts(called@),
                texts(declared@),
            ),
        decreases called.len() - i,
    {
        let ghost rest = texts(called@).skip(i as int);
        assert(rest[0] == called@[i as int]@);
        assert(rest.drop_first() =~= texts(called@).skip(i + 1));
        if !is_declared(&called[i], declared) {
            return Some(called[i].clone());
        }
        i += 1;
    }
    None
}

/// Whether what symbol resolution returned is what the blocks call for.
pub open spec fn resolution_agrees(result: Result<(), BuildError>, wanted: Option<Unresolved>)
    -> bool {
    match result {
        Ok(_) => wanted is None,
        Err(BuildError::UnresolvedSymbol { name, block_id }) => wanted == Some(
            Unresolved { name: name@, block_id: block_id as nat },
        ),
        Err(_) => false,
    }
}

/// Resolves the references of all blocks against the names that all blocks
/// declare. It succeeds exactly if every name that is called is declared;
/// else the error names the first such name of the first block that has
/// one, and that block.
pub fn resolve(blocks: &[Block]) -> (result: Result<(), BuildError>)
    ensures
        resolution_agrees(result, first_unresolved(block_views(blocks@), 0)),
{
    let declared = all_exports(blocks);
    let ghost views = block_views(blocks@);
    let mut i: usize = 0;
    while i < blocks.len()
        invariant
            i <= blocks.len(),
            views == block_views(blocks@),
            texts(declared@) == exports_of(views, views.len()),
            first_unresolved(views, i as int) == first_unresolved(views, 0),
        decreases blocks.len() - i,
    {
        let called = calls_of(&blocks[i]);
        assert(views[i as int] == blocks@[i as int]@);
        match find_missing(&called, &declared) {
            Some(name) => {
                return Err(BuildError::UnresolvedSymbol { name, block_id: blocks[i].id });
            },
            None => {},
        }
        i += 1;
    }
    Ok(())
}

} // verus!
