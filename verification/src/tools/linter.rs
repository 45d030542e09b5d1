//! The linter: naming conventions and trailing whitespace, line by line.

use vstd::prelude::*;
use vstd::utf8::encode_utf8;
use crate::text::{
    char_is_lowercase, char_is_numeric, char_is_uppercase, char_to_lowercase, chars_of, contains,
    contains_chars, ends_with, ends_with_char, lines_of, lowercase_mapping, rows, split_lines,
    split_words, string_of, trim_end, trimmed_end, unicode_lowercase, unicode_numeric,
    unicode_uppercase, words_of,
};

verus! {

/// How serious an issue is.
#[derive(Debug, Clone, PartialEq)]
pub enum LintLevel {
    Error,
    Warning,
    Info,
}

/// One finding of the linter.
#[derive(Debug, Clone)]
pub struct LintIssue {
    pub level: LintLevel,
    pub message: String,
    /// The line of the finding, counted from 1.
    pub line: usize,
    pub column: usize,
    pub rule: String,
    /// The text that would mend the finding, where the linter knows one.
    pub auto_fix: Option<String>,
}

/// The mathematical value of a [`LintIssue`].
pub struct LintIssueView {
    pub level: LintLevel,
    pub message: Seq<char>,
    pub line: nat,
    pub column: nat,
    pub rule: Seq<char>,
    pub auto_fix: Option<Seq<char>>,
}

impl View for LintIssue {
    type V = LintIssueView;

    open spec fn view(&self) -> LintIssueView {
        LintIssueView {
            level: self.level,
            message: self.message@,
            line: self.line as nat,
            column: self.column as nat,
            rule: self.rule@,
            auto_fix: match self.auto_fix {
                Some(text) => Some(text@),
                None => None,
            },
        }
    }
}

/// The values of a run of issues, in order.
pub open spec fn issue_views(issues: Seq<LintIssue>) -> Seq<LintIssueView> {
    issues.map_values(|issue: LintIssue| issue@)
}

/// A character that a snake-case name may hold: a lowercase letter, a
/// number or an underscore.
pub open spec fn is_snake_char(c: char) -> bool {
    unicode_lowercase(c) || unicode_numeric(c) || c == '_'
}

/// A name in snake case: every character of it is a snake-case character.
pub open spec fn all_snake(name: Seq<char>) -> bool {
    forall|i: int| 0 <= i < name.len() ==> is_snake_char(#[trigger] name[i])
}

/// What one character of a name becomes in snake case: an uppercase letter
/// becomes the first character of its lowercase mapping, with an underscore
/// before it unless it starts the name; any other character stays.
pub open spec fn snake_piece(c: char, first: bool) -> Seq<char> {
    if unicode_uppercase(c) {
        if first {
            seq![lowercase_mapping(c)[0]]
        } else {
            seq!['_', lowercase_mapping(c)[0]]
        }
    } else {
        seq![c]
    }
}

/// The snake-case form of a name.
pub open spec fn snake_cased(name: Seq<char>) -> Seq<char>
    decreases name.len(),
{
    if name.len() == 0 {
        seq![]
    } else {
        snake_cased(name.drop_last()) + snake_piece(name.last(), name.len() == 1)
    }
}

/// The message of a naming issue.
pub open spec fn naming_message(name: Seq<char>) -> Seq<char> {
    "Variable '"@ + name + "' should use snake_case"@
}

/// The naming issue of a line, if it has one: the line holds `def `, has a
/// second word, and that word is not in snake case.
pub open spec fn naming_issue(line: Seq<char>, number: nat) -> Option<LintIssueView> {
    let words = words_of(line);
    if contains(line, "def "@) && words.len() >= 2 && !all_snake(words[1]) {
        Some(
            LintIssueView {
                level: LintLevel::Warning,
                message: naming_message(words[1]),
                line: number,
                column: 0,
                rule: "naming-convention"@,
                auto_fix: Some(snake_cased(words[1])),
            },
        )
    } else {
        None
    }
}

/// The whitespace issue of a line, if it has one: the line ends with a
/// space or a tab. Its column is the length of the line in bytes, and its
/// fix is the line without the whitespace at its end.
pub open spec fn trailing_issue(line: Seq<char>, number: nat) -> Option<LintIssueView> {
    if ends_with(line, ' ') || ends_with(line, '\t') {
        Some(
            LintIssueView {
                level: LintLevel::Info,
                message: "Line has trailing whitespace"@,
                line: number,
                column: (encode_utf8(line).len() as usize) as nat,
                rule: "trailing-whitespace"@,
                auto_fix: Some(trimmed_end(line)),
            },
        )
    } else {
        None
    }
}

/// Zero or one issue as a sequence.
pub open spec fn found(issue: Option<LintIssueView>) -> Seq<LintIssueView> {
    match issue {
        Some(issue) => seq![issue],
        None => seq![],
    }
}

/// The issues of one line: the naming issue before the whitespace issue.
pub open spec fn line_issues(line: Seq<char>, number: nat) -> Seq<LintIssueView> {
    found(naming_issue(line, number)) + found(trailing_issue(line, number))
}

/// The issues of the first `count` lines, in the order of the lines.
pub open spec fn lint_lines(lines: Seq<Seq<char>>, count: nat) -> Seq<LintIssueView>
    decreases count,
{
    if count == 0 {
        seq![]
    } else {
        lint_lines(lines, (count - 1) as nat) + line_issues(lines[count - 1], count)
    }
}

/// The issues of a text.
pub open spec fn lint(content: Seq<char>) -> Seq<LintIssueView> {
    lint_lines(lines_of(content), lines_of(content).len())
}

/// Whether a name is in snake case.
fn is_snake_case_chars(name: &[char]) -> (r: bool)
    ensures
        r == all_snake(name@),
{
    let mut i: usize = 0;
    while i < name.len()
        invariant
            i <= name.len(),
            forall|j: int| 0 <= j < i ==> is_snake_char(#[trigger] name@[j]),
        decreases name.len() - i,
    {
        let c = name[i];
        if !(char_is_lowercase(c) || char_is_numeric(c) || c == '_') {
            return false;
        }
        i += 1;
    }
    true
}

/// The snake-case form of a name.
fn to_snake_case_chars(name: &[char]) -> (out: String)
    ensures
        out@ == snake_cased(name@),
{
    let mut result = String::new();
    let mut i: usize = 0;
    while i < name.len()
        invariant
            i <= name.len(),
            result@ == snake_cased(name@.take(i as int)),
        decreases name.len() - i,
    {
        let c = name[i];
        proof {
            assert(name@.take(i + 1).drop_last() =~= name@.take(i as int));
        }
        if char_is_uppercase(c) {
            if i > 0 {
                result.push('_');
            }
            let lower = char_to_lowercase(c);
            result.push(lower[0]);
        } else {
            result.push(c);
        }
        assert(result@ =~= snake_cased(name@.take(i + 1)));
        i += 1;
    }
    assert(name@.take(i as int) =~= name@);
    result
}

/// A copy of one issue.
fn copy_issue(issue: &LintIssue) -> (copy: LintIssue)
    ensures
        copy@ == issue@,
{
    LintIssue {
        level: match issue.level {
            LintLevel::Error => LintLevel::Error,
            LintLevel::Warning => LintLevel::Warning,
            LintLevel::Info => LintLevel::Info,
        },
        message: issue.message.clone(),
        line: issue.line,
        column: issue.column,
        rule: issue.rule.clone(),
        auto_fix: match &issue.auto_fix {
            Some(text) => Some(text.clone()),
            None => None,
        },
    }
}

/// A copy of a run of issues.
fn copy_issues(issues: &Vec<LintIssue>) -> (copy: Vec<LintIssue>)
    ensures
        issue_views(copy@) == issue_views(issues@),
{
    let mut copy: Vec<LintIssue> = Vec::new();
    let mut i: usize = 0;
    while i < issues.len()
        invariant
            i <= issues.len(),
            issue_views(copy@) == issue_views(issues@.take(i as int)),
        decreases issues.len() - i,
    {
        let ghost before = issue_views(copy@);
        copy.push(copy_issue(&issues[i]));
        assert(issue_views(copy@) =~= before.push(issues@[i as int]@));
        assert(issue_views(issues@.take(i + 1)) =~= before.push(issues@[i as int]@));
        i += 1;
    }
    assert(issues@.take(i as int) =~= issues@);
    copy
}

/// Checks source texts and remembers what it found in the last one.
pub struct Linter {
    issues: Vec<LintIssue>,
}

impl View for Linter {
    type V = Seq<LintIssueView>;

    /// The issues of the text that was checked last.
    closed spec fn view(&self) -> Seq<LintIssueView> {
        issue_views(self.issues@)
    }
}

impl Linter {
    /// A linter that has found nothing yet.
    pub fn new() -> (linter: Linter)
        ensures
            linter@ == Seq::<LintIssueView>::empty(),
    {
        let linter = Linter { issues: Vec::new() };
        assert(linter@ =~= Seq::<LintIssueView>::empty());
        linter
    }

    /// Checks a text line by line and returns its issues, which replace
    /// those of the text checked before.
    pub fn lint_file(&mut self, content: &str) -> (issues: Vec<LintIssue>)
        ensures
            issue_views(issues@) == lint(content@),
            final(self)@ == lint(content@),
    {
        self.issues.clear();

        let chars = chars_of(content);
        let lines = split_lines(chars.as_slice());
        let marker = chars_of("def ");
        let mut line_num: usize = 0;
        assert(issue_views(self.issues@) =~= lint_lines(rows(lines@), 0));
        while line_num < lines.len()
            invariant
                line_num <= lines.len(),
                rows(lines@) == lines_of(content@),
                marker@ == "def "@,
                issue_views(self.issues@) == lint_lines(rows(lines@), line_num as nat),
            decreases lines.len() - line_num,
        {
            let line = lines[line_num].as_slice();
            let ghost before = issue_views(self.issues@);
            let ghost number = (line_num + 1) as nat;
            assert(line@ == rows(lines@)[line_num as int]);

            if contains_chars(line, marker.as_slice()) {
                let parts = split_words(line);
                if parts.len() >= 2 {
                    let name = parts[1].as_slice();
                    assert(name@ == rows(parts@)[1]);
                    if !is_snake_case_chars(name) {
                        let mut message = String::from_str("Variable '");
                        message.append(string_of(name).as_str());
                        message.append("' should use snake_case");
                        self.add_issue(
                            LintLevel::Warning,
                            message,
                            line_num + 1,
                            0,
                            "naming-convention",
                            Some(to_snake_case_chars(name)),
                        );
                    }
                }
            }
            assert(issue_views(self.issues@) =~= before + found(naming_issue(line@, number)));

            if ends_with_char(line, ' ') || ends_with_char(line, '\t') {
                let text = string_of(line);
                self.add_issue(
                    LintLevel::Info,
                    String::from_str("Line has trailing whitespace"),
                    line_num + 1,
                    text.as_str().len(),
                    "trailing-whitespace",
                    Some(string_of(trim_end(line).as_slice())),
                );
            }
            assert(issue_views(self.issues@) =~= before + line_issues(line@, number));

            line_num += 1;
        }

        copy_issues(&self.issues)
    }

    /// Whether a name is in snake case: lowercase letters, numbers and
    /// underscores only.
    pub fn is_snake_case(&self, name: &str) -> (r: bool)
        ensures
            r == all_snake(name@),
    {
        let chars = chars_of(name);
        is_snake_case_chars(chars.as_slice())
    }

    /// The snake-case form of a name: every uppercase letter in lowercase,
    /// with an underscore before it unless it starts the name.
    pub fn to_snake_case(&self, name: &str) -> (out: String)
        ensures
            out@ == snake_cased(name@),
    {
        let chars = chars_of(name);
        to_snake_case_chars(chars.as_slice())
    }

    /// Records one issue behind those already found.
    fn add_issue(
        &mut self,
        level: LintLevel,
        message: String,
        line: usize,
        column: usize,
        rule: &str,
        auto_fix: Option<String>,
    )
        ensures
            issue_views(final(self).issues@) == issue_views(old(self).issues@).push(
                LintIssueView {
                    level,
                    message: message@,
                    line: line as nat,
                    column: column as nat,
                    rule: rule@,
                    auto_fix: match auto_fix {
                        Some(text) => Some(text@),
                        None => None,
                    },
                },
            ),
    {
        self.issues.push(
            LintIssue { level, message, line, column, rule: String::from_str(rule), auto_fix },
        );
        assert(issue_views(self.issues@) =~= issue_views(old(self).issues@).push(
            self.issues@.last()@,
        ));
    }

    /// The issues of the text that was checked last.
    pub fn get_issues(&self) -> (issues: &[LintIssue])
        ensures
            issue_views(issues@) == self@,
    {
        self.issues.as_slice()
    }

    /// Whether one of the issues is an error.
    pub fn has_errors(&self) -> (r: bool)
        ensures
            r == exists|i: int| 0 <= i < self@.len() && #[trigger] self@[i].level == LintLevel::Error,
    {
        let mut i: usize = 0;
        while i < self.issues.len()
            invariant
                i <= self.issues.len(),
                forall|j: int| 0 <= j < i ==> #[trigger] self@[j].level != LintLevel::Error,
            decreases self.issues.len() - i,
        {
            if let LintLevel::Error = self.issues[i].level {
                assert(self@[i as int].level == LintLevel::Error);
                return true;
            }
            assert(self@[i as int].level == self.issues@[i as int].level);
            i += 1;
        }
        false
    }
}

impl Default for Linter {
    fn default() -> (linter: Linter)
        ensures
            linter@ == Seq::<LintIssueView>::empty(),
    {
        Linter::new()
    }
}

} // verus!
