use gul::tools::linter::{LintLevel, Linter};

#[test]
fn test_linter_creation() {
    let linter = Linter::new();
    assert_eq!(linter.get_issues().len(), 0);
}

#[test]
fn test_naming_convention() {
    let mut linter = Linter::new();
    let code = "def BadName = 42";

    let issues = linter.lint_file(code);
    assert!(issues.iter().any(|i| i.rule == "naming-convention"));
}

#[test]
fn test_snake_case_check() {
    let linter = Linter::new();
    assert!(linter.is_snake_case("valid_name"));
    assert!(linter.is_snake_case("another_valid_123"));
    assert!(!linter.is_snake_case("InvalidName"));
    assert!(!linter.is_snake_case("badName"));
}

#[test]
fn test_to_snake_case() {
    let linter = Linter::new();
    assert_eq!(linter.to_snake_case("CamelCase"), "camel_case");
    assert_eq!(linter.to_snake_case("HTTPServer"), "h_t_t_p_server");
}

#[test]
fn test_trailing_whitespace() {
    let mut linter = Linter::new();
    let code = "def x = 10  \ndef y = 20";

    let issues = linter.lint_file(code);
    assert!(issues.iter().any(|i| i.rule == "trailing-whitespace"));
}

#[test]
fn naming_issue_in_full() {
    let mut linter = Linter::new();
    let issues = linter.lint_file("x = 1\n  def   BadName = 42");
    assert_eq!(issues.len(), 1);
    let issue = &issues[0];
    assert_eq!(issue.level, LintLevel::Warning);
    assert_eq!(issue.message, "Variable 'BadName' should use snake_case");
    assert_eq!(issue.line, 2);
    assert_eq!(issue.column, 0);
    assert_eq!(issue.rule, "naming-convention");
    assert_eq!(issue.auto_fix, Some("bad_name".to_string()));
}

#[test]
fn trailing_issue_in_full() {
    let mut linter = Linter::new();
    let issues = linter.lint_file("ok\n\u{e9}t\u{e9} = 1 \t");
    assert_eq!(issues.len(), 1);
    let issue = &issues[0];
    assert_eq!(issue.level, LintLevel::Info);
    assert_eq!(issue.message, "Line has trailing whitespace");
    assert_eq!(issue.line, 2);
    // the length of the line in bytes: two of its letters take two bytes
    assert_eq!(issue.column, 11);
    assert_eq!(issue.rule, "trailing-whitespace");
    assert_eq!(issue.auto_fix, Some("\u{e9}t\u{e9} = 1".to_string()));
}

#[test]
fn both_issues_of_one_line_naming_first() {
    let mut linter = Linter::new();
    let issues = linter.lint_file("def x = 10  \ndef Y = 20 ");
    let rules: Vec<&str> = issues.iter().map(|i| i.rule.as_str()).collect();
    assert_eq!(rules, vec!["trailing-whitespace", "naming-convention", "trailing-whitespace"]);
    assert_eq!(issues[0].line, 1);
    assert_eq!(issues[0].column, 12);
    assert_eq!(issues[0].auto_fix, Some("def x = 10".to_string()));
    assert_eq!(issues[1].line, 2);
    assert_eq!(issues[1].auto_fix, Some("y".to_string()));
    assert_eq!(issues[2].line, 2);
}

#[test]
fn lines_end_at_line_feeds_with_or_without_carriage_return() {
    let mut linter = Linter::new();
    // the carriage return before a line feed is no part of the line
    assert_eq!(linter.lint_file("a \r\nb\r\n").len(), 1);
    assert_eq!(linter.lint_file("a\r\nb \r\n")[0].line, 2);
    // a line feed at the end opens no further line
    assert_eq!(linter.lint_file("a\n \n").len(), 1);
    assert_eq!(linter.lint_file("a\n \n")[0].line, 2);
    assert_eq!(linter.lint_file("\n\n \n")[0].line, 3);
}

#[test]
fn naming_rule_needs_the_marker_and_a_second_word() {
    let mut linter = Linter::new();
    assert!(linter.lint_file("def").is_empty());
    assert!(linter.lint_file("def ").iter().all(|i| i.rule != "naming-convention"));
    assert!(linter.lint_file("define BadName").is_empty());
    assert!(linter.lint_file("def good_name = 1").is_empty());
    // the marker may stand anywhere in the line: the second word is judged
    assert_eq!(linter.lint_file("x Bad def y").len(), 1);
    assert_eq!(
        linter.lint_file("x Bad def y")[0].message,
        "Variable 'Bad' should use snake_case"
    );
    // words are split at any whitespace
    assert_eq!(
        linter.lint_file("def \u{a0}Wide\u{2003}= 1")[0].message,
        "Variable 'Wide' should use snake_case"
    );
}

#[test]
fn issues_are_replaced_by_each_run() {
    let mut linter = Linter::new();
    linter.lint_file("def A = 1\ndef B = 2");
    assert_eq!(linter.get_issues().len(), 2);
    let issues = linter.lint_file("def C = 3 ");
    assert_eq!(issues.len(), 2);
    assert_eq!(linter.get_issues().len(), 2);
    assert_eq!(linter.get_issues()[0].message, issues[0].message);
    linter.lint_file("");
    assert!(linter.get_issues().is_empty());
}

#[test]
fn linter_never_reports_errors() {
    let mut linter = Linter::new();
    assert!(!linter.has_errors());
    linter.lint_file("def Bad = 1 ");
    assert!(!linter.has_errors());
}

#[test]
fn snake_case_of_other_scripts_and_digits() {
    let linter = Linter::default();
    assert!(linter.is_snake_case(""));
    assert!(linter.is_snake_case("stra\u{df}e_9"));
    assert!(!linter.is_snake_case("a-b"));
    assert!(!linter.is_snake_case("\u{c9}t\u{e9}"));
    assert_eq!(linter.to_snake_case(""), "");
    assert_eq!(linter.to_snake_case("already_snake"), "already_snake");
    assert_eq!(linter.to_snake_case("\u{c9}t\u{c9}"), "\u{e9}t_\u{e9}");
    assert_eq!(linter.to_snake_case("aB"), "a_b");
    // only the first character of a lowercase mapping is taken
    assert_eq!(linter.to_snake_case("\u{130}"), "i");
}
