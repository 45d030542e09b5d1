//! The block organizer: a program as a sequence of blocks, each a longest
//! run of statements of one kind.
//!
//! Statements that are no foreign code form native blocks. Foreign code of
//! one language, in statements that follow each other, forms one foreign
//! block, whose text is the code of those statements, in order, with a line
//! feed between one and the next.

use vstd::prelude::*;
use crate::ast::{stmt_view, stmt_views, Program, Statement, StmtView};
use crate::lexer::grammar::is_word_char;
use crate::text::{
    char_is_alphanumeric, char_is_whitespace, chars_of, lines_of, rows, run_end, split_lines,
    split_words, str_eq, string_of, texts, unicode_whitespace, words_of,
};

verus! {

/// What a block holds: statements of the language itself, or code of
/// another language.
#[derive(Debug, Clone, PartialEq)]
pub enum BlockKind {
    Native,
    Foreign(String),
}

/// The content of a block.
#[derive(Debug, PartialEq)]
pub enum Payload {
    Statements(Vec<Statement>),
    RawText(String),
}

/// A unit of compilation.
#[derive(Debug, PartialEq)]
pub struct Block {
    /// The place of the block among the blocks of its program, from 0.
    pub id: usize,
    pub kind: BlockKind,
    pub payload: Payload,
    /// The names that the block declares at its top level, in the order of
    /// their declarations.
    pub exported_symbols: Vec<String>,
}

/// The mathematical value of a [`BlockKind`].
pub enum KindView {
    Native,
    Foreign(Seq<char>),
}

/// The mathematical value of a [`Payload`].
pub enum PayloadView {
    Statements(Seq<StmtView>),
    RawText(Seq<char>),
}

/// The mathematical value of a [`Block`].
pub struct BlockView {
    pub id: nat,
    pub kind: KindView,
    pub payload: PayloadView,
    pub exported_symbols: Seq<Seq<char>>,
}

impl View for BlockKind {
    type V = KindView;

    open spec fn view(&self) -> KindView {
        match self {
            BlockKind::Native => KindView::Native,
            BlockKind::Foreign(language) => KindView::Foreign(language@),
        }
    }
}

impl View for Payload {
    type V = PayloadView;

    open spec fn view(&self) -> PayloadView {
        match self {
            Payload::Statements(statements) => PayloadView::Statements(stmt_views(statements@)),
            Payload::RawText(code) => PayloadView::RawText(code@),
        }
    }
}

impl View for Block {
    type V = BlockView;

    open spec fn view(&self) -> BlockView {
        BlockView {
            id: self.id as nat,
            kind: self.kind@,
            payload: self.payload@,
            exported_symbols: texts(self.exported_symbols@),
        }
    }
}

/// The values of a run of blocks, in order.
pub open spec fn block_views(blocks: Seq<Block>) -> Seq<BlockView> {
    blocks.map_values(|b: Block| b@)
}

/// A run of statements of one kind, before it is numbered.
pub enum Run {
    Native(Seq<StmtView>),
    Foreign { language: Seq<char>, code: Seq<char> },
}

/// The runs of a program with one more statement at its end: the statement
/// joins the last run if it is of its kind, and else starts a run.
pub open spec fn with_statement(runs: Seq<Run>, statement: StmtView) -> Seq<Run> {
    let last = if runs.len() > 0 {
        Some(runs.last())
    } else {
        None
    };
    match statement {
        StmtView::CustomBlock { language, code } => match last {
            Some(Run::Foreign { language: before, code: text }) => if before == language {
                runs.drop_last().push(Run::Foreign { language, code: text + seq!['\n'] + code })
            } else {
                runs.push(Run::Foreign { language, code })
            },
            _ => runs.push(Run::Foreign { language, code }),
        },
        _ => match last {
            Some(Run::Native(statements)) => runs.drop_last().push(
                Run::Native(statements.push(statement)),
            ),
            _ => runs.push(Run::Native(seq![statement])),
        },
    }
}

/// The runs of a program: its statements in their order, cut wherever the
/// kind changes.
pub open spec fn runs_of(statements: Seq<StmtView>) -> Seq<Run>
    decreases statements.len(),
{
    if statements.len() == 0 {
        seq![]
    } else {
        with_statement(runs_of(statements.drop_last()), statements.last())
    }
}

/// The names that native statements declare at their top level:
/// those of the definitions and functions, in order.
pub open spec fn declared_names(statements: Seq<StmtView>) -> Seq<Seq<char>>
    decreases statements.len(),
{
    if statements.len() == 0 {
        seq![]
    } else {
        let before = declared_names(statements.drop_last());
        match statements.last() {
            StmtView::Definition { name, .. } => before.push(name),
            StmtView::Function { name, .. } => before.push(name),
            _ => before,
        }
    }
}

/// The word that opens a declaration in a language, for the languages whose
/// code is scanned: `fn` in rust, `def` in python, `function` in
/// javascript and typescript.
pub open spec fn declaration_keyword(language: Seq<char>) -> Option<Seq<char>> {
    if language == "rust"@ {
        Some("fn"@)
    } else if language == "python"@ {
        Some("def"@)
    } else if language == "js"@ || language == "javascript"@ || language == "ts"@ || language
        == "typescript"@ {
        Some("function"@)
    } else {
        None
    }
}

/// The word characters at the start of a text.
pub open spec fn leading_word(text: Seq<char>) -> Seq<char> {
    text.subrange(0, run_end(text, 0, |c: char| is_word_char(c)))
}

/// The name that a line of foreign code declares at top level, if it does:
/// the line starts in its first column with the keyword, or with `pub` and
/// the keyword, and the next word starts with a name.
pub open spec fn line_declares(line: Seq<char>, keyword: Seq<char>) -> Option<Seq<char>> {
    let words = words_of(line);
    let at: int = if words.len() > 0 && words[0] == "pub"@ {
        1
    } else {
        0
    };
    if line.len() > 0 && !unicode_whitespace(line[0]) && words.len() >= at + 2 && words[at]
        == keyword && leading_word(words[at + 1]).len() > 0 {
        Some(leading_word(words[at + 1]))
    } else {
        None
    }
}

/// The names that the first `count` lines declare, in order.
pub open spec fn lines_declare(lines: Seq<Seq<char>>, keyword: Seq<char>, count: nat) -> Seq<
    Seq<char>,
>
    decreases count,
{
    if count == 0 {
        seq![]
    } else {
        let before = lines_declare(lines, keyword, (count - 1) as nat);
        match line_declares(lines[count - 1], keyword) {
            Some(name) => before.push(name),
            None => before,
        }
    }
}

/// The names that foreign code declares at its top level, as far as a scan
/// of its lines finds them. Code of a language that is not scanned declares
/// none.
pub open spec fn scanned_names(language: Seq<char>, code: Seq<char>) -> Seq<Seq<char>> {
    match declaration_keyword(language) {
        Some(keyword) => lines_declare(lines_of(code), keyword, lines_of(code).len()),
        None => seq![],
    }
}

/// The block that a run becomes at place `id`.
pub open spec fn block_of(run: Run, id: nat) -> BlockView {
    match run {
        Run::Native(statements) => BlockView {
            id,
            kind: KindView::Native,
            payload: PayloadView::Statements(statements),
            exported_symbols: declared_names(statements),
        },
        Run::Foreign { language, code } => BlockView {
            id,
            kind: KindView::Foreign(language),
            payload: PayloadView::RawText(code),
            exported_symbols: scanned_names(language, code),
        },
    }
}

/// The blocks of a program: its runs, numbered from 0.
pub open spec fn organized(statements: Seq<StmtView>) -> Seq<BlockView> {
    let runs = runs_of(statements);
    Seq::new(runs.len(), |i: int| block_of(runs[i], i as nat))
}

/// The run that a block came from.
pub open spec fn run_of(block: BlockView) -> Run {
    match block.payload {
        PayloadView::Statements(statements) => Run::Native(statements),
        PayloadView::RawText(code) => Run::Foreign {
            language: match block.kind {
                KindView::Foreign(language) => language,
                KindView::Native => seq![],
            },
            code,
        },
    }
}

/// The keyword that opens a declaration in a language.
fn keyword_of(language: &str) -> (keyword: Option<&'static str>)
    ensures
        match keyword {
            Some(word) => declaration_keyword(language@) == Some(word@),
            None => declaration_keyword(language@) is None,
        },
{
    if str_eq(language, "rust") {
        Some("fn")
    } else if str_eq(language, "python") {
        Some("def")
    } else if str_eq(language, "js") || str_eq(language, "javascript") || str_eq(language, "ts")
        || str_eq(language, "typescript") {
        Some("function")
    } else {
        None
    }
}

/// The word characters at the start of a text.
fn leading_word_of(text: &[char]) -> (word: Vec<char>)
    ensures
        word@ == leading_word(text@),
{
    let mut end: usize = 0;
    while end < text.len() && (char_is_alphanumeric(text[end]) || text[end] == '_')
        invariant
            end <= text.len(),
            run_end(text@, end as int, |c: char| is_word_char(c)) == run_end(
                text@,
                0,
                |c: char| is_word_char(c),
            ),
        decreases text.len() - end,
    {
        end += 1;
    }
    vstd::slice::slice_to_vec(vstd::slice::slice_subrange(text, 0, end))
}

/// Whether two texts hold the same characters.
fn same_chars(a: &[char], b: &[char]) -> (same: bool)
    ensures
        same == (a@ == b@),
{
    if a.len() != b.len() {
        return false;
    }
    let mut i: usize = 0;
    while i < a.len()
        invariant
            i <= a.len(),
            a.len() == b.len(),
            forall|j: int| 0 <= j < i ==> a@[j] == b@[j],
        decreases a.len() - i,
    {
        if a[i] != b[i] {
            return false;
        }
        i += 1;
    }
    assert(a@ =~= b@);
    true
}

/// The name that a line of foreign code declares at top level, if it does.
fn declared_in_line(line: &[char], keyword: &[char], visibility: &[char]) -> (name: Option<String>)
    requires
        visibility@ == "pub"@,
    ensures
        match name {
            Some(name) => line_declares(line@, keyword@) == Some(name@),
            None => line_declares(line@, keyword@) is None,
        },
{
    if line.len() == 0 || char_is_whitespace(line[0]) {
        return None;
    }
    let words = split_words(line);
    let at: usize = if words.len() > 0 && same_chars(words[0].as_slice(), visibility) {
        assert(rows(words@)[0] == words@[0]@);
        1
    } else {
        if words.len() > 0 {
            assert(rows(words@)[0] == words@[0]@);
        }
        0
    };
    if words.len() < 2 || words.len() - 2 < at {
        return None;
    }
    assert(rows(words@)[at as int] == words@[at as int]@);
    assert(rows(words@)[at + 1] == words@[at + 1]@);
    if !same_chars(words[at].as_slice(), keyword) {
        return None;
    }
    let name = leading_word_of(words[at + 1].as_slice());
    if name.len() == 0 {
        return None;
    }
    Some(string_of(name.as_slice()))
}

/// The names that foreign code declares at its top level.
fn scan_exports(language: &str, code: &str) -> (found: Vec<String>)
    ensures
        texts(found@) == scanned_names(language@, code@),
{
    let mut found: Vec<String> = Vec::new();
    assert(texts(found@) =~= Seq::empty());
    let keyword = match keyword_of(language) {
        Some(word) => chars_of(word),
        None => {
            return found;
        },
    };
    let visibility = chars_of("pub");
    let chars = chars_of(code);
    let lines = split_lines(chars.as_slice());
    let mut i: usize = 0;
    while i < lines.len()
        invariant
            i <= lines.len(),
            visibility@ == "pub"@,
            rows(lines@) == lines_of(code@),
            texts(found@) == lines_declare(rows(lines@), keyword@, i as nat),
        decreases lines.len() - i,
    {
        let ghost before = texts(found@);
        assert(rows(lines@)[i as int] == lines@[i as int]@);
        match declared_in_line(lines[i].as_slice(), keyword.as_slice(), visibility.as_slice()) {
            Some(name) => {
                found.push(name);
                assert(texts(found@) =~= before.push(name@));
            },
            None => {},
        }
        i += 1;
    }
    found
}

/// The names that native statements declare at their top level.
fn native_exports(statements: &Vec<Statement>) -> (found: Vec<String>)
    ensures
        texts(found@) == declared_names(stmt_views(statements@)),
{
    let mut found: Vec<String> = Vec::new();
    let mut i: usize = 0;
    assert(stmt_views(statements@).take(0) =~= Seq::empty());
    assert(texts(found@) =~= Seq::empty());
    while i < statements.len()
        invariant
            i <= statements.len(),
            texts(found@) == declared_names(stmt_views(statements@).take(i as int)),
        decreases statements.len() - i,
    {
        let ghost before = texts(found@);
        proof {
            let longer = stmt_views(statements@).take(i + 1);
            assert(longer.drop_last() =~= stmt_views(statements@).take(i as int));
            assert(longer.last() == statements@[i as int]@);
        }
        match &statements[i] {
            Statement::Definition { name, .. } => {
                found.push(name.clone());
                assert(texts(found@) =~= before.push(name@));
            },
            Statement::Function { name, .. } => {
                found.push(name.clone());
                assert(texts(found@) =~= before.push(name@));
            },
            _ => {},
        }
        i += 1;
    }
    assert(stmt_views(statements@).take(i as int) =~= stmt_views(statements@));
    found
}

/// The runs that blocks came from, in order.
pub open spec fn runs_in(blocks: Seq<Block>) -> Seq<Run> {
    blocks.map_values(|b: Block| run_of(b@))
}

/// A block holds statements exactly if it is native.
pub open spec fn well_formed(block: BlockView) -> bool {
    match block.kind {
        KindView::Native => block.payload is Statements,
        KindView::Foreign(_) => block.payload is RawText,
    }
}

/// Organizes a program into blocks. The blocks are the longest runs of
/// statements of one kind, in the order of the source and numbered from 0,
/// each with the names that it declares. A program always organizes to the
/// same blocks.
pub fn organize(program: Program) -> (blocks: Vec<Block>)
    ensures
        block_views(blocks@) == organized(program@),
        blocks@.len() <= program@.len(),
{
    let ghost all = program@;
    let mut pending: Vec<Block> = Vec::new();
    assert(all.take(0) =~= Seq::empty());
    assert(runs_in(pending@) =~= runs_of(all.take(0)));
    for statement in it: program.statements
        invariant
            all == stmt_views(it.seq()),
            runs_in(pending@) == runs_of(all.take(it.index())),
            pending@.len() <= it.index(),
            forall|i: int| 0 <= i < pending@.len() ==> well_formed(#[trigger] pending@[i]@),
    {
        let ghost done = it.index();
        let ghost before = runs_in(pending@);
        proof {
            assert(stmt_view(statement) == all[done]);
            assert(all.take(done + 1).drop_last() =~= all.take(done));
            assert(all.take(done + 1).last() == all[done]);
        }
        match statement {
            Statement::CustomBlock { language, code } => {
                let joins = pending.len() > 0 && match &pending[pending.len() - 1].kind {
                    BlockKind::Foreign(last) => str_eq(last.as_str(), language.as_str()),
                    BlockKind::Native => false,
                };
                if joins {
                    let mut block = pending.pop().unwrap();
                    let ghost earlier = runs_in(pending@);
                    match block.payload {
                        Payload::RawText(mut text) => {
                            let ghost old_text = text@;
                            text.push('\n');
                            text.append(code.as_str());
                            assert(text@ =~= old_text + seq!['\n'] + code@);
                            block.payload = Payload::RawText(text);
                        },
                        Payload::Statements(_) => {},
                    }
                    pending.push(block);
                    assert(earlier =~= before.drop_last());
                    assert(runs_in(pending@) =~= earlier.push(run_of(block@)));
                } else {
                    let block = Block {
                        id: pending.len(),
                        kind: BlockKind::Foreign(language),
                        payload: Payload::RawText(code),
                        exported_symbols: Vec::new(),
                    };
                    pending.push(block);
                    assert(runs_in(pending@) =~= before.push(run_of(block@)));
                }
            },
            other => {
                let joins = pending.len() > 0 && match &pending[pending.len() - 1].kind {
                    BlockKind::Native => true,
                    BlockKind::Foreign(_) => false,
                };
                if joins {
                    let mut block = pending.pop().unwrap();
                    let ghost earlier = runs_in(pending@);
                    match block.payload {
                        Payload::Statements(mut body) => {
                            let ghost old_body = stmt_views(body@);
                            body.push(other);
                            assert(stmt_views(body@) =~= old_body.push(stmt_view(other)));
                            block.payload = Payload::Statements(body);
                        },
                        Payload::RawText(_) => {},
                    }
                    pending.push(block);
                    assert(earlier =~= before.drop_last());
                    assert(runs_in(pending@) =~= earlier.push(run_of(block@)));
                } else {
                    let mut body: Vec<Statement> = Vec::new();
                    body.push(other);
                    assert(stmt_views(body@) =~= seq![stmt_view(other)]);
                    let block = Block {
                        id: pending.len(),
                        kind: BlockKind::Native,
                        payload: Payload::Statements(body),
                        exported_symbols: Vec::new(),
                    };
                    pending.push(block);
                    assert(runs_in(pending@) =~= before.push(run_of(block@)));
                }
            },
        }
    }
    assert(all.take(all.len() as int) =~= all);

    // every run is complete now: collect what each block declares
    let ghost runs = runs_of(all);
    let mut blocks: Vec<Block> = Vec::new();
    assert(block_views(blocks@) =~= organized(all).take(0));
    for block in it: pending
        invariant
            runs == runs_of(all),
            runs_in(it.seq()) == runs,
            forall|i: int| 0 <= i < it.seq().len() ==> well_formed(#[trigger] it.seq()[i]@),
            blocks@.len() == it.index(),
            block_views(blocks@) == organized(all).take(it.index()),
    {
        let ghost before = block_views(blocks@);
        let ghost place = it.index();
        assert(run_of(block@) == runs[place] && well_formed(block@)) by {
            assert(runs_in(it.seq())[place] == run_of(it.seq()[place]@));
            assert(well_formed(it.seq()[place]@));
        }
        let mut block = block;
        block.id = blocks.len();
        block.exported_symbols = match (&block.kind, &block.payload) {
            (BlockKind::Foreign(language), Payload::RawText(code)) => scan_exports(
                language.as_str(),
                code.as_str(),
            ),
            (_, Payload::Statements(body)) => native_exports(body),
            (_, _) => Vec::new(),
        };
        assert(block@ == block_of(runs[place], place as nat));
        blocks.push(block);
        assert(block_views(blocks@) =~= before.push(block@));
        assert(block_views(blocks@) =~= organized(all).take(place + 1));
    }
    assert(organized(all).take(runs.len() as int) =~= organized(all));
    blocks
}

} // verus!
