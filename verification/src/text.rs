//! Texts as character sequences: conversions, character classes, and the
//! searching and splitting that the other modules share.

use vstd::prelude::*;
use vstd::slice::{slice_subrange, slice_to_vec};

verus! {

/// `String::push` appends exactly one character.
pub assume_specification[ std::string::String::push ](s: &mut std::string::String, c: char)
    ensures
        final(s)@ == old(s)@.push(c),
;

/// Comparison of two string slices with `==`: they are equal exactly when
/// they hold the same characters.
#[verifier::external_body]
pub(crate) fn str_eq(a: &str, b: &str) -> (r: bool)
    ensures
        r == (a@ == b@),
{
    a == b
}

/// What `char::is_alphanumeric` answers for a character.
pub uninterp spec fn unicode_alphanumeric(c: char) -> bool;

/// What `char::is_whitespace` answers for a character.
pub uninterp spec fn unicode_whitespace(c: char) -> bool;

/// What `char::is_lowercase` answers for a character.
pub uninterp spec fn unicode_lowercase(c: char) -> bool;

/// What `char::is_uppercase` answers for a character.
pub uninterp spec fn unicode_uppercase(c: char) -> bool;

/// What `char::is_numeric` answers for a character.
pub uninterp spec fn unicode_numeric(c: char) -> bool;

/// The characters that `char::to_lowercase` yields for a character.
pub uninterp spec fn lowercase_mapping(c: char) -> Seq<char>;

/// The text that `str::to_lowercase` returns for a text.
pub uninterp spec fn lowercase_text(s: Seq<char>) -> Seq<char>;

/// `char::is_alphanumeric`: the Unicode classification, which on ASCII
/// characters accepts exactly the letters and the decimal digits.
#[verifier::external_body]
pub(crate) fn char_is_alphanumeric(c: char) -> (r: bool)
    ensures
        r == unicode_alphanumeric(c),
        c <= '\x7f' ==> r == (is_ascii_letter(c) || is_digit(c)),
{
    c.is_alphanumeric()
}

/// `char::is_whitespace`: the Unicode classification, through its name.
#[verifier::external_body]
pub(crate) fn char_is_whitespace(c: char) -> (r: bool)
    ensures
        r == unicode_whitespace(c),
{
    c.is_whitespace()
}

/// `char::is_lowercase`: the Unicode classification, through its name.
#[verifier::external_body]
pub(crate) fn char_is_lowercase(c: char) -> (r: bool)
    ensures
        r == unicode_lowercase(c),
{
    c.is_lowercase()
}

/// `char::is_uppercase`: the Unicode classification, through its name.
#[verifier::external_body]
pub(crate) fn char_is_uppercase(c: char) -> (r: bool)
    ensures
        r == unicode_uppercase(c),
{
    c.is_uppercase()
}

/// `char::is_numeric`: the Unicode classification, through its name.
#[verifier::external_body]
pub(crate) fn char_is_numeric(c: char) -> (r: bool)
    ensures
        r == unicode_numeric(c),
{
    c.is_numeric()
}

/// `char::to_lowercase`: the lowercase mapping of one character, which is
/// one character or more.
#[verifier::external_body]
pub(crate) fn char_to_lowercase(c: char) -> (r: Vec<char>)
    ensures
        r@ == lowercase_mapping(c),
        r@.len() >= 1,
{
    c.to_lowercase().collect()
}

/// `str::to_lowercase`: the lowercase form of a text, through its name.
#[verifier::external_body]
pub(crate) fn str_to_lowercase(s: &str) -> (r: String)
    ensures
        r@ == lowercase_text(s@),
{
    s.to_lowercase()
}

/// The text that `{:?}` writes for a text: the text in double quotes, with
/// escapes.
pub uninterp spec fn debug_text(s: Seq<char>) -> Seq<char>;

/// Formatting of a string slice with `{:?}`, through its name.
#[verifier::external_body]
pub(crate) fn str_debug(s: &str) -> (r: String)
    ensures
        r@ == debug_text(s@),
{
    format!("{:?}", s)
}

/// An ASCII decimal digit.
pub open spec fn is_digit(c: char) -> bool {
    '0' <= c && c <= '9'
}

/// An ASCII letter.
pub open spec fn is_ascii_letter(c: char) -> bool {
    ('a' <= c && c <= 'z') || ('A' <= c && c <= 'Z')
}

/// A letter or a number: among the ASCII characters the letters and the
/// decimal digits, beyond them whatever Unicode classes as alphabetic or
/// numeric.
pub open spec fn is_alphanumeric(c: char) -> bool {
    if c <= '\x7f' {
        is_ascii_letter(c) || is_digit(c)
    } else {
        unicode_alphanumeric(c)
    }
}

/// The texts of a run of strings, in order.
pub open spec fn texts(strings: Seq<String>) -> Seq<Seq<char>> {
    strings.map_values(|s: String| s@)
}

/// The texts of a run of character vectors, in order.
pub open spec fn rows(lines: Seq<Vec<char>>) -> Seq<Seq<char>> {
    lines.map_values(|line: Vec<char>| line@)
}

/// The characters of a string, in order.
pub fn chars_of(s: &str) -> (out: Vec<char>)
    ensures
        out@ == s@,
{
    let mut out: Vec<char> = Vec::new();
    for c in it: s.chars()
        invariant
            out@ == it.seq().take(it.index@),
    {
        out.push(c);
    }
    out
}

/// The string that holds the given characters, in order.
pub fn string_of(chars: &[char]) -> (out: String)
    ensures
        out@ == chars@,
{
    let mut out = String::new();
    let mut i: usize = 0;
    while i < chars.len()
        invariant
            i <= chars.len(),
            out@ == chars@.take(i as int),
        decreases chars.len() - i,
    {
        out.push(chars[i]);
        i += 1;
    }
    out
}

/// The end of the longest run of characters that satisfy `p`, starting at
/// `from`: the first position at or after `from` whose character fails `p`,
/// or the end of the text.
pub open spec fn run_end(s: Seq<char>, from: int, p: spec_fn(char) -> bool) -> int
    decreases s.len() - from,
{
    if 0 <= from < s.len() && p(s[from]) {
        run_end(s, from + 1, p)
    } else {
        from
    }
}

/// A run ends at or behind its start, inside the text, on a character that
/// fails the test or at the end; every character before that passes.
pub proof fn lemma_run_end(s: Seq<char>, from: int, p: spec_fn(char) -> bool)
    requires
        0 <= from <= s.len(),
    ensures
        from <= run_end(s, from, p) <= s.len(),
        run_end(s, from, p) < s.len() ==> !p(s[run_end(s, from, p)]),
        forall|i: int| from <= i < run_end(s, from, p) ==> p(#[trigger] s[i]),
    decreases s.len() - from,
{
    if from < s.len() && p(s[from]) {
        lemma_run_end(s, from + 1, p);
    }
}

/// A run that is known to pass the test up to `end`, and to stop there, ends
/// at `end`.
pub proof fn lemma_run_end_at(s: Seq<char>, from: int, end: int, p: spec_fn(char) -> bool)
    requires
        0 <= from <= end <= s.len(),
        forall|i: int| from <= i < end ==> p(#[trigger] s[i]),
        end < s.len() ==> !p(s[end]),
    ensures
        run_end(s, from, p) == end,
    decreases end - from,
{
    if from < end {
        lemma_run_end_at(s, from + 1, end, p);
    }
}

/// Whether `needle` stands in `hay` at position `at`.
pub open spec fn occurs_at(hay: Seq<char>, needle: Seq<char>, at: int) -> bool {
    &&& 0 <= at
    &&& at + needle.len() <= hay.len()
    &&& hay.subrange(at, at + needle.len()) == needle
}

/// Whether `needle` stands somewhere in `hay`. The empty text stands in
/// every text.
pub open spec fn contains(hay: Seq<char>, needle: Seq<char>) -> bool {
    exists|at: int| occurs_at(hay, needle, at)
}

/// Whether `needle` stands in `hay` at position `at`.
pub fn matches_at(hay: &[char], needle: &[char], at: usize) -> (r: bool)
    requires
        at + needle.len() <= hay.len(),
    ensures
        r == occurs_at(hay@, needle@, at as int),
{
    let mut k: usize = 0;
    while k < needle.len()
        invariant
            k <= needle.len(),
            at + needle.len() <= hay.len(),
            forall|j: int| 0 <= j < k ==> hay@[at + j] == needle@[j],
        decreases needle.len() - k,
    {
        if hay[at + k] != needle[k] {
            assert(hay@.subrange(at as int, at + needle@.len())[k as int] != needle@[k as int]);
            return false;
        }
        k += 1;
    }
    assert(hay@.subrange(at as int, at + needle@.len()) =~= needle@);
    true
}

/// Whether `needle` stands somewhere in `hay`.
pub fn contains_chars(hay: &[char], needle: &[char]) -> (r: bool)
    ensures
        r == contains(hay@, needle@),
{
    if needle.len() > hay.len() {
        return false;
    }
    if needle.len() == 0 {
        assert(hay@.subrange(0, 0) =~= needle@);
        assert(occurs_at(hay@, needle@, 0));
        return true;
    }
    let last: usize = hay.len() - needle.len();
    let mut at: usize = 0;
    while at <= last
        invariant
            at <= last + 1,
            last == hay.len() - needle.len(),
            0 < needle.len() <= hay.len(),
            forall|j: int| 0 <= j < at ==> !occurs_at(hay@, needle@, j),
        decreases last + 1 - at,
    {
        if matches_at(hay, needle, at) {
            return true;
        }
        at += 1;
    }
    false
}

/// Whether the text ends with `suffix`.
pub open spec fn has_suffix(s: Seq<char>, suffix: Seq<char>) -> bool {
    suffix.len() <= s.len() && s.subrange(s.len() - suffix.len(), s.len() as int) == suffix
}

/// Whether the text ends with `suffix`.
pub fn ends_with_chars(s: &[char], suffix: &[char]) -> (r: bool)
    ensures
        r == has_suffix(s@, suffix@),
{
    if suffix.len() > s.len() {
        return false;
    }
    matches_at(s, suffix, s.len() - suffix.len())
}

/// Whether the text ends with the character `c`.
pub open spec fn ends_with(s: Seq<char>, c: char) -> bool {
    s.len() > 0 && s.last() == c
}

/// Whether the text ends with the character `c`.
pub fn ends_with_char(s: &[char], c: char) -> (r: bool)
    ensures
        r == ends_with(s@, c),
{
    s.len() > 0 && s[s.len() - 1] == c
}

/// A line without the carriage return that stood before its line feed.
pub open spec fn without_carriage_return(line: Seq<char>) -> Seq<char> {
    if ends_with(line, '\r') {
        line.drop_last()
    } else {
        line
    }
}

/// The lines of the text from `from` on. A line ends with a line feed, or
/// with a carriage return and a line feed; neither belongs to the line. What
/// follows the last line feed is a line of its own if it is not empty, and
/// keeps a carriage return at its end.
pub open spec fn lines_from(s: Seq<char>, from: int) -> Seq<Seq<char>>
    decreases s.len() - from,
    via lines_from_decreases
{
    if from < 0 || from >= s.len() {
        seq![]
    } else {
        let feed = run_end(s, from, |c: char| c != '\n');
        if feed < s.len() {
            seq![without_carriage_return(s.subrange(from, feed))] + lines_from(s, feed + 1)
        } else {
            seq![s.subrange(from, feed)]
        }
    }
}

#[via_fn]
proof fn lines_from_decreases(s: Seq<char>, from: int) {
    if 0 <= from < s.len() {
        lemma_run_end(s, from, |c: char| c != '\n');
    }
}

/// The lines of a text.
pub open spec fn lines_of(s: Seq<char>) -> Seq<Seq<char>> {
    lines_from(s, 0)
}

/// The position of the first line feed at or after `from`, or the length.
fn find_line_feed(s: &[char], from: usize) -> (feed: usize)
    requires
        from <= s.len(),
    ensures
        feed == run_end(s@, from as int, |c: char| c != '\n'),
        from <= feed <= s.len(),
{
    let mut at: usize = from;
    while at < s.len() && s[at] != '\n'
        invariant
            from <= at <= s.len(),
            run_end(s@, at as int, |c: char| c != '\n') == run_end(
                s@,
                from as int,
                |c: char| c != '\n',
            ),
        decreases s.len() - at,
    {
        at += 1;
    }
    at
}

/// The lines of a text, as `str::lines` gives them.
pub fn split_lines(s: &[char]) -> (lines: Vec<Vec<char>>)
    ensures
        rows(lines@) == lines_of(s@),
{
    let mut lines: Vec<Vec<char>> = Vec::new();
    let mut from: usize = 0;
    assert(rows(lines@) + lines_from(s@, 0) =~= lines_of(s@));
    while from < s.len()
        invariant
            from <= s.len(),
            rows(lines@) + lines_from(s@, from as int) == lines_of(s@),
        decreases s.len() - from,
    {
        let ghost before = rows(lines@);
        let feed = find_line_feed(s, from);
        if feed < s.len() {
            let end = if feed > from && s[feed - 1] == '\r' {
                feed - 1
            } else {
                feed
            };
            let line = slice_to_vec(slice_subrange(s, from, end));
            assert(line@ =~= without_carriage_return(s@.subrange(from as int, feed as int)));
            lines.push(line);
            assert(rows(lines@) =~= before.push(line@));
            assert(rows(lines@) + lines_from(s@, feed + 1) =~= before + lines_from(
                s@,
                from as int,
            ));
            from = feed + 1;
        } else {
            let line = slice_to_vec(slice_subrange(s, from, feed));
            lines.push(line);
            assert(rows(lines@) =~= before.push(line@));
            assert(rows(lines@) + lines_from(s@, feed as int) =~= before + lines_from(
                s@,
                from as int,
            ));
            from = feed;
        }
    }
    assert(rows(lines@) + lines_from(s@, from as int) =~= rows(lines@));
    lines
}

/// The words of the text from `from` on: the longest runs of characters
/// that are not whitespace.
pub open spec fn words_from(s: Seq<char>, from: int) -> Seq<Seq<char>>
    decreases s.len() - from,
    via words_from_decreases
{
    let start = run_end(s, from, |c: char| unicode_whitespace(c));
    if from < 0 || start >= s.len() {
        seq![]
    } else {
        let end = run_end(s, start, |c: char| !unicode_whitespace(c));
        seq![s.subrange(start, end)] + words_from(s, end)
    }
}

#[via_fn]
proof fn words_from_decreases(s: Seq<char>, from: int) {
    if 0 <= from {
        if from <= s.len() {
            lemma_run_end(s, from, |c: char| unicode_whitespace(c));
            let start = run_end(s, from, |c: char| unicode_whitespace(c));
            if start < s.len() {
                lemma_run_end(s, start + 1, |c: char| !unicode_whitespace(c));
            }
        }
    }
}

/// The words of a text.
pub open spec fn words_of(s: Seq<char>) -> Seq<Seq<char>> {
    words_from(s, 0)
}

/// The end of the run of whitespace (or, with `blank` false, of other
/// characters) that starts at `from`.
fn find_run_end(s: &[char], from: usize, blank: bool) -> (end: usize)
    requires
        from <= s.len(),
    ensures
        blank ==> end == run_end(s@, from as int, |c: char| unicode_whitespace(c)),
        !blank ==> end == run_end(s@, from as int, |c: char| !unicode_whitespace(c)),
        from <= end <= s.len(),
{
    let mut at: usize = from;
    while at < s.len() && char_is_whitespace(s[at]) == blank
        invariant
            from <= at <= s.len(),
            blank ==> run_end(s@, at as int, |c: char| unicode_whitespace(c)) == run_end(
                s@,
                from as int,
                |c: char| unicode_whitespace(c),
            ),
            !blank ==> run_end(s@, at as int, |c: char| !unicode_whitespace(c)) == run_end(
                s@,
                from as int,
                |c: char| !unicode_whitespace(c),
            ),
        decreases s.len() - at,
    {
        at += 1;
    }
    at
}

/// The words of a text, as `str::split_whitespace` gives them.
pub fn split_words(s: &[char]) -> (words: Vec<Vec<char>>)
    ensures
        rows(words@) == words_of(s@),
{
    let mut words: Vec<Vec<char>> = Vec::new();
    let mut from: usize = 0;
    assert(rows(words@) + words_from(s@, 0) =~= words_of(s@));
    loop
        invariant
            from <= s.len(),
            rows(words@) + words_from(s@, from as int) == words_of(s@),
        ensures
            rows(words@) == words_of(s@),
        decreases s.len() - from,
    {
        let ghost before = rows(words@);
        let start = find_run_end(s, from, true);
        if start >= s.len() {
            assert(rows(words@) + words_from(s@, from as int) =~= rows(words@));
            break ;
        }
        let end = find_run_end(s, start, false);
        proof {
            lemma_run_end(s@, start + 1, |c: char| !unicode_whitespace(c));
        }
        let word = slice_to_vec(slice_subrange(s, start, end));
        words.push(word);
        assert(rows(words@) =~= before.push(word@));
        assert(rows(words@) + words_from(s@, end as int) =~= before + words_from(s@, from as int));
        from = end;
    }
    words
}

/// The length of the text without the whitespace at its end.
pub open spec fn trimmed_len(s: Seq<char>) -> int
    decreases s.len(),
{
    if s.len() > 0 && unicode_whitespace(s.last()) {
        trimmed_len(s.drop_last())
    } else {
        s.len() as int
    }
}

/// The text without the whitespace at its end.
pub open spec fn trimmed_end(s: Seq<char>) -> Seq<char> {
    s.subrange(0, trimmed_len(s))
}

/// The text without the whitespace at its end, as `str::trim_end` gives it.
pub fn trim_end(s: &[char]) -> (out: Vec<char>)
    ensures
        out@ == trimmed_end(s@),
{
    let mut end: usize = s.len();
    assert(s@.subrange(0, end as int) =~= s@);
    while end > 0 && char_is_whitespace(s[end - 1])
        invariant
            end <= s.len(),
            trimmed_len(s@.subrange(0, end as int)) == trimmed_len(s@),
        decreases end,
    {
        assert(s@.subrange(0, end as int).drop_last() =~= s@.subrange(0, end - 1));
        end -= 1;
    }
    slice_to_vec(slice_subrange(s, 0, end))
}

/// The character of a decimal digit.
pub open spec fn digit_char(digit: nat) -> char {
    if digit == 0 {
        '0'
    } else if digit == 1 {
        '1'
    } else if digit == 2 {
        '2'
    } else if digit == 3 {
        '3'
    } else if digit == 4 {
        '4'
    } else if digit == 5 {
        '5'
    } else if digit == 6 {
        '6'
    } else if digit == 7 {
        '7'
    } else if digit == 8 {
        '8'
    } else {
        '9'
    }
}

/// A number in decimal digits, without leading zeros.
pub open spec fn decimal_digits(n: nat) -> Seq<char>
    decreases n,
{
    if n < 10 {
        seq![digit_char(n)]
    } else {
        decimal_digits(n / 10).push(digit_char(n % 10))
    }
}

/// The character of a decimal digit.
fn digit_of(digit: u64) -> (c: char)
    requires
        digit < 10,
    ensures
        c == digit_char(digit as nat),
{
    if digit == 0 {
        '0'
    } else if digit == 1 {
        '1'
    } else if digit == 2 {
        '2'
    } else if digit == 3 {
        '3'
    } else if digit == 4 {
        '4'
    } else if digit == 5 {
        '5'
    } else if digit == 6 {
        '6'
    } else if digit == 7 {
        '7'
    } else if digit == 8 {
        '8'
    } else {
        '9'
    }
}

/// Writes a number in decimal digits behind `out`.
pub fn push_decimal(n: u64, out: &mut String)
    ensures
        final(out)@ == old(out)@ + decimal_digits(n as nat),
    decreases n,
{
    let ghost before = out@;
    if n >= 10 {
        push_decimal(n / 10, out);
    }
    out.push(digit_of(n % 10));
    assert(out@ =~= before + decimal_digits(n as nat));
}

/// A number in decimal digits, with a minus sign before it if it is
/// negative.
pub open spec fn signed_digits(n: int) -> Seq<char> {
    if n < 0 {
        seq!['-'] + decimal_digits((-n) as nat)
    } else {
        decimal_digits(n as nat)
    }
}

/// Writes a number in decimal digits behind `out`, with a minus sign before
/// it if it is negative.
pub fn push_signed(n: i64, out: &mut String)
    ensures
        final(out)@ == old(out)@ + signed_digits(n as int),
{
    let ghost before = out@;
    if n < 0 {
        out.push('-');
        let magnitude: u64 = (-(n + 1)) as u64 + 1;
        push_decimal(magnitude, out);
        assert(out@ =~= before + signed_digits(n as int));
    } else {
        push_decimal(n as u64, out);
    }
}

} // verus!
