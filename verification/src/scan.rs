//! Line recognition: the task-line and date-log-line grammars.
//!
//! Both grammars are simple enough for direct character scanning: optional
//! leading whitespace, a dash, and either a `[ ]`/`[x]` checkbox or a
//! `dddd-dd-dd:` date token, followed by free text. The spec functions
//! [`task_match`] and [`date_match`] define the grammars; the executable
//! scanners are proved to return exactly what those definitions say.

use vstd::prelude::*;
use vstd::string::StrSliceExecFns;

verus! {

/// A character the scanner counts as whitespace: the Unicode `White_Space`
/// set (the set `char::is_whitespace` recognizes). Indentation is measured
/// in characters, so a tab counts as one.
pub open spec fn is_ws(c: char) -> bool {
    c == ' ' || c == '\t' || c == '\n' || c == '\u{b}' || c == '\u{c}' || c == '\r'
        || c == '\u{85}' || c == '\u{a0}' || c == '\u{1680}' || c == '\u{2000}'
        || c == '\u{2001}' || c == '\u{2002}' || c == '\u{2003}' || c == '\u{2004}'
        || c == '\u{2005}' || c == '\u{2006}' || c == '\u{2007}' || c == '\u{2008}'
        || c == '\u{2009}' || c == '\u{200a}' || c == '\u{2028}' || c == '\u{2029}'
        || c == '\u{202f}' || c == '\u{205f}' || c == '\u{3000}'
}

/// A decimal digit, `'0'` through `'9'`.
pub open spec fn is_digit(c: char) -> bool {
    c == '0' || c == '1' || c == '2' || c == '3' || c == '4' || c == '5' || c == '6'
        || c == '7' || c == '8' || c == '9'
}

fn ws_char(c: char) -> (r: bool)
    ensures
        r == is_ws(c),
{
    c == ' ' || c == '\t' || c == '\n' || c == '\u{b}' || c == '\u{c}' || c == '\r'
        || c == '\u{85}' || c == '\u{a0}' || c == '\u{1680}' || c == '\u{2000}'
        || c == '\u{2001}' || c == '\u{2002}' || c == '\u{2003}' || c == '\u{2004}'
        || c == '\u{2005}' || c == '\u{2006}' || c == '\u{2007}' || c == '\u{2008}'
        || c == '\u{2009}' || c == '\u{200a}' || c == '\u{2028}' || c == '\u{2029}'
        || c == '\u{202f}' || c == '\u{205f}' || c == '\u{3000}'
}

fn digit_char(c: char) -> (r: bool)
    ensures
        r == is_digit(c),
{
    c == '0' || c == '1' || c == '2' || c == '3' || c == '4' || c == '5' || c == '6'
        || c == '7' || c == '8' || c == '9'
}

/// The index of the first non-whitespace character of `s` at or after `i`
/// (`s.len()` when only whitespace remains).
pub open spec fn skip_ws(s: Seq<char>, i: int) -> int
    decreases s.len() - i,
{
    if 0 <= i < s.len() && is_ws(s[i]) {
        skip_ws(s, i + 1)
    } else {
        i
    }
}

pub proof fn lemma_skip_ws_bounds(s: Seq<char>, i: int)
    requires
        0 <= i <= s.len(),
    ensures
        i <= skip_ws(s, i) <= s.len(),
    decreases s.len() - i,
{
    if i < s.len() && is_ws(s[i]) {
        lemma_skip_ws_bounds(s, i + 1);
    }
}

fn skip_ws_at(s: &str, from: usize) -> (r: usize)
    requires
        from <= s@.len(),
    ensures
        r == skip_ws(s@, from as int),
        from <= r <= s@.len(),
{
    let n: usize = s.unicode_len();
    let mut j: usize = from;
    while j < n && ws_char(s.get_char(j))
        invariant
            from <= j <= n,
            n == s@.len(),
            skip_ws(s@, from as int) == skip_ws(s@, j as int),
        decreases n - j,
    {
        proof {
            assert(skip_ws(s@, j as int) == skip_ws(s@, j as int + 1));
        }
        j = j + 1;
    }
    j
}

/// What the task-line grammar found on one line: the count of leading
/// whitespace characters, the checkbox state, and the text after the
/// checkbox (with the whitespace that followed the checkbox removed).
pub struct TaskLine {
    pub indent: int,
    pub completed: bool,
    pub text: Seq<char>,
}

/// What the date-log-line grammar found on one line: the count of leading
/// whitespace characters, the ten-character date token, and the log text
/// after the colon (with the whitespace that followed the colon removed).
pub struct DateLine {
    pub indent: int,
    pub date: Seq<char>,
    pub log: Seq<char>,
}

/// The task-line grammar: optional whitespace, `-`, optional whitespace,
/// `[`, a single space or `x`, `]`, optional whitespace, then the rest of
/// the line as the task text. Any other shape does not match.
pub open spec fn task_match(s: Seq<char>) -> Option<TaskLine> {
    let i = skip_ws(s, 0);
    if i < s.len() && s[i] == '-' {
        let j = skip_ws(s, i + 1);
        if j + 2 < s.len() && s[j] == '[' && (s[j + 1] == ' ' || s[j + 1] == 'x') && s[j + 2]
            == ']' {
            let k = skip_ws(s, j + 3);
            Some(
                TaskLine {
                    indent: i,
                    completed: s[j + 1] == 'x',
                    text: s.subrange(k, s.len() as int),
                },
            )
        } else {
            None
        }
    } else {
        None
    }
}

/// The date-log-line grammar: optional whitespace, `-`, optional
/// whitespace, a date token of exactly four digits, `-`, two digits, `-`,
/// two digits, immediately followed by `:`, optional whitespace, then the
/// rest of the line as the log text. Digit counts are exact; the values are
/// not checked against the calendar.
pub open spec fn date_match(s: Seq<char>) -> Option<DateLine> {
    let i = skip_ws(s, 0);
    if i < s.len() && s[i] == '-' {
        let d = skip_ws(s, i + 1);
        if d + 10 < s.len() && is_digit(s[d]) && is_digit(s[d + 1]) && is_digit(s[d + 2])
            && is_digit(s[d + 3]) && s[d + 4] == '-' && is_digit(s[d + 5]) && is_digit(s[d + 6])
            && s[d + 7] == '-' && is_digit(s[d + 8]) && is_digit(s[d + 9]) && s[d + 10] == ':' {
            let k = skip_ws(s, d + 11);
            Some(
                DateLine {
                    indent: i,
                    date: s.subrange(d, d + 10),
                    log: s.subrange(k, s.len() as int),
                },
            )
        } else {
            None
        }
    } else {
        None
    }
}

/// No line matches both grammars: after the dash and the whitespace that
/// follows it, a task line carries `[` where a date line carries a digit.
pub proof fn lemma_grammars_disjoint(s: Seq<char>)
    ensures
        date_match(s) is Some ==> task_match(s) is None,
{
}

/// A matched date token is exactly ten characters long.
pub proof fn lemma_date_token_len(s: Seq<char>)
    requires
        date_match(s) is Some,
    ensures
        date_match(s)->Some_0.date.len() == 10,
        date_match(s)->Some_0.date.len() > 0,
{
    lemma_skip_ws_bounds(s, 0);
    let i = skip_ws(s, 0);
    lemma_skip_ws_bounds(s, i + 1);
}

/// The result of scanning one line against the task grammar.
pub struct TaskToken {
    pub indent: usize,
    pub completed: bool,
    pub text: String,
}

impl View for TaskToken {
    type V = TaskLine;

    open spec fn view(&self) -> TaskLine {
        TaskLine { indent: self.indent as int, completed: self.completed, text: self.text@ }
    }
}

/// The result of scanning one line against the date-log grammar.
pub struct DateToken {
    pub indent: usize,
    pub date: String,
    pub log: String,
}

impl View for DateToken {
    type V = DateLine;

    open spec fn view(&self) -> DateLine {
        DateLine { indent: self.indent as int, date: self.date@, log: self.log@ }
    }
}

/// Scans one line against the task-line grammar.
pub fn scan_task_line(s: &str) -> (r: Option<TaskToken>)
    ensures
        match r {
            Some(t) => task_match(s@) == Some(t@),
            None => task_match(s@) is None,
        },
{
    let n: usize = s.unicode_len();
    let i: usize = skip_ws_at(s, 0);
    if i < n && s.get_char(i) == '-' {
        let j: usize = skip_ws_at(s, i + 1);
        if n - j >= 3 {
            let c0: char = s.get_char(j);
            let c1: char = s.get_char(j + 1);
            let c2: char = s.get_char(j + 2);
            if c0 == '[' && (c1 == ' ' || c1 == 'x') && c2 == ']' {
                let k: usize = skip_ws_at(s, j + 3);
                let text: String = s.substring_char(k, n).to_owned();
                return Some(TaskToken { indent: i, completed: c1 == 'x', text });
            }
        }
    }
    None
}

/// Scans one line against the date-log-line grammar.
pub fn scan_date_line(s: &str) -> (r: Option<DateToken>)
    ensures
        match r {
            Some(d) => date_match(s@) == Some(d@),
            None => date_match(s@) is None,
        },
{
    let n: usize = s.unicode_len();
    let i: usize = skip_ws_at(s, 0);
    if i < n && s.get_char(i) == '-' {
        let d: usize = skip_ws_at(s, i + 1);
        if n - d >= 11 {
            let shape_ok: bool = digit_char(s.get_char(d)) && digit_char(s.get_char(d + 1))
                && digit_char(s.get_char(d + 2)) && digit_char(s.get_char(d + 3)) && s.get_char(
                d + 4,
            ) == '-' && digit_char(s.get_char(d + 5)) && digit_char(s.get_char(d + 6))
                && s.get_char(d + 7) == '-' && digit_char(s.get_char(d + 8)) && digit_char(
                s.get_char(d + 9),
            ) && s.get_char(d + 10) == ':';
            if shape_ok {
                let k: usize = skip_ws_at(s, d + 11);
                let date: String = s.substring_char(d, d + 10).to_owned();
                let log: String = s.substring_char(k, n).to_owned();
                return Some(DateToken { indent: i, date, log });
            }
        }
    }
    None
}

} // verus!
