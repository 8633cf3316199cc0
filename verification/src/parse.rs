//! The two-pass-free, single-scan parser: walks the input lines once,
//! carries the most recently recognized task, and emits a record for each
//! date-log line that belongs to it. [`parse_tasks`] keeps only logs whose
//! date equals a caller-supplied target; [`parse_tasks_all_dates`] keeps
//! every log and adds a placeholder record for each task that logged
//! nothing.
//!
//! The spec-level scans [`single_run`] and [`all_run`] fold the per-line
//! transitions [`single_step`] and [`all_step`] over a prefix of the input;
//! the executable functions are proved to return exactly their results.

use vstd::prelude::*;

use crate::scan::{date_match, scan_date_line, scan_task_line, task_match};

verus! {

/// The most recently recognized task line, carried until superseded by the
/// next task line: its indentation, checkbox state, text, and line index.
pub struct TaskMarker {
    pub indent: int,
    pub completed: bool,
    pub text: Seq<char>,
    pub line: int,
}

/// A single-date-mode record: one qualifying log line of a task.
pub struct ParsedTaskView {
    pub is_completed: bool,
    pub text: Seq<char>,
    pub line: int,
    pub log: Seq<char>,
}

/// An all-dates-mode record: one qualifying log line of a task together
/// with its date token, or a placeholder with empty `log` and `date` for a
/// task that had no qualifying log line at all.
pub struct ParsedTaskWithDateView {
    pub is_completed: bool,
    pub text: Seq<char>,
    pub line: int,
    pub log: Seq<char>,
    pub date: Seq<char>,
}

/// One log entry of a task, found in single-date mode: the owning task's
/// checkbox state, text and zero-based line index, and the log text.
pub struct ParsedTask {
    pub is_completed: bool,
    pub text: String,
    pub line: usize,
    pub log: String,
}

impl View for ParsedTask {
    type V = ParsedTaskView;

    open spec fn view(&self) -> ParsedTaskView {
        ParsedTaskView {
            is_completed: self.is_completed,
            text: self.text@,
            line: self.line as int,
            log: self.log@,
        }
    }
}

/// One log entry of a task, found in all-dates mode, carrying the matched
/// date token; a task without any log entry yields one such record with
/// empty `log` and `date`.
pub struct ParsedTaskWithDate {
    pub is_completed: bool,
    pub text: String,
    pub line: usize,
    pub log: String,
    pub date: String,
}

impl View for ParsedTaskWithDate {
    type V = ParsedTaskWithDateView;

    open spec fn view(&self) -> ParsedTaskWithDateView {
        ParsedTaskWithDateView {
            is_completed: self.is_completed,
            text: self.text@,
            line: self.line as int,
            log: self.log@,
            date: self.date@,
        }
    }
}

/// The input lines as character sequences.
pub open spec fn lines_view(lines: Seq<String>) -> Seq<Seq<char>> {
    lines.map_values(|s: String| s@)
}

/// The emitted single-date records as their spec-level views.
pub open spec fn records_view(rs: Seq<ParsedTask>) -> Seq<ParsedTaskView> {
    rs.map_values(|t: ParsedTask| t@)
}

/// The emitted all-dates records as their spec-level views.
pub open spec fn dated_records_view(rs: Seq<ParsedTaskWithDate>) -> Seq<ParsedTaskWithDateView> {
    rs.map_values(|t: ParsedTaskWithDate| t@)
}

/// What one line does in single-date mode: a task line replaces the current
/// task; a date line whose indentation exceeds the current task's and whose
/// date equals `target` emits one record; every other line changes nothing.
pub open spec fn single_step(
    st: Option<TaskMarker>,
    line: Seq<char>,
    idx: int,
    target: Seq<char>,
) -> (Option<TaskMarker>, Seq<ParsedTaskView>) {
    match task_match(line) {
        Some(t) => (
            Some(TaskMarker { indent: t.indent, completed: t.completed, text: t.text, line: idx }),
            Seq::<ParsedTaskView>::empty(),
        ),
        None => match date_match(line) {
            Some(d) => match st {
                Some(ct) => if d.date == target && d.indent > ct.indent {
                    (
                        st,
                        seq![
                            ParsedTaskView {
                                is_completed: ct.completed,
                                text: ct.text,
                                line: ct.line,
                                log: d.log,
                            },
                        ],
                    )
                } else {
                    (st, Seq::<ParsedTaskView>::empty())
                },
                None => (st, Seq::<ParsedTaskView>::empty()),
            },
            None => (st, Seq::<ParsedTaskView>::empty()),
        },
    }
}

/// The single-date scan over the first `n` lines: the current-task state it
/// ends in and everything it emitted, in input order.
pub open spec fn single_run(lines: Seq<Seq<char>>, target: Seq<char>, n: int) -> (
    Option<TaskMarker>,
    Seq<ParsedTaskView>,
)
    decreases n,
{
    if n <= 0 {
        (None, Seq::<ParsedTaskView>::empty())
    } else {
        let prev = single_run(lines, target, n - 1);
        let step = single_step(prev.0, lines[n - 1], n - 1, target);
        (step.0, prev.1 + step.1)
    }
}

/// Everything single-date mode emits for `lines` and target date `target`.
pub open spec fn parse_tasks_spec(lines: Seq<Seq<char>>, target: Seq<char>) -> Seq<
    ParsedTaskView,
> {
    single_run(lines, target, lines.len() as int).1
}

/// The placeholder record for a task that had no qualifying log line.
pub open spec fn placeholder(ct: TaskMarker) -> ParsedTaskWithDateView {
    ParsedTaskWithDateView {
        is_completed: ct.completed,
        text: ct.text,
        line: ct.line,
        log: Seq::<char>::empty(),
        date: Seq::<char>::empty(),
    }
}

/// What one line does in all-dates mode. The state is the current task
/// paired with a flag telling whether it has emitted at least one log
/// record. A task line first flushes a placeholder for a logless current
/// task, then takes its place; a date line whose indentation exceeds the
/// current task's emits one record and sets the flag; every other line
/// changes nothing.
pub open spec fn all_step(st: (Option<TaskMarker>, bool), line: Seq<char>, idx: int) -> (
    (Option<TaskMarker>, bool),
    Seq<ParsedTaskWithDateView>,
) {
    match task_match(line) {
        Some(t) => {
            let flushed = match st.0 {
                Some(ct) => if !st.1 {
                    seq![placeholder(ct)]
                } else {
                    Seq::<ParsedTaskWithDateView>::empty()
                },
                None => Seq::<ParsedTaskWithDateView>::empty(),
            };
            (
                (
                    Some(
                        TaskMarker {
                            indent: t.indent,
                            completed: t.completed,
                            text: t.text,
                            line: idx,
                        },
                    ),
                    false,
                ),
                flushed,
            )
        },
        None => match date_match(line) {
            Some(d) => match st.0 {
                Some(ct) => if d.indent > ct.indent {
                    (
                        (st.0, true),
                        seq![
                            ParsedTaskWithDateView {
                                is_completed: ct.completed,
                                text: ct.text,
                                line: ct.line,
                                log: d.log,
                                date: d.date,
                            },
                        ],
                    )
                } else {
                    (st, Seq::<ParsedTaskWithDateView>::empty())
                },
                None => (st, Seq::<ParsedTaskWithDateView>::empty()),
            },
            None => (st, Seq::<ParsedTaskWithDateView>::empty()),
        },
    }
}

/// The all-dates scan over the first `n` lines: the state it ends in and
/// everything it emitted, in input order.
pub open spec fn all_run(lines: Seq<Seq<char>>, n: int) -> (
    (Option<TaskMarker>, bool),
    Seq<ParsedTaskWithDateView>,
)
    decreases n,
{
    if n <= 0 {
        ((None, false), Seq::<ParsedTaskWithDateView>::empty())
    } else {
        let prev = all_run(lines, n - 1);
        let step = all_step(prev.0, lines[n - 1], n - 1);
        (step.0, prev.1 + step.1)
    }
}

/// Everything all-dates mode emits for `lines`: the scan's records, plus a
/// final placeholder when the last task logged nothing.
pub open spec fn parse_tasks_all_dates_spec(lines: Seq<Seq<char>>) -> Seq<
    ParsedTaskWithDateView,
> {
    let r = all_run(lines, lines.len() as int);
    match r.0.0 {
        Some(ct) => if !r.0.1 {
            r.1 + seq![placeholder(ct)]
        } else {
            r.1
        },
        None => r.1,
    }
}

struct CurrentTask {
    indent: usize,
    completed: bool,
    text: String,
    line: usize,
}

spec fn current_view(c: Option<CurrentTask>) -> Option<TaskMarker> {
    match c {
        Some(ct) => Some(
            TaskMarker {
                indent: ct.indent as int,
                completed: ct.completed,
                text: ct.text@,
                line: ct.line as int,
            },
        ),
        None => None,
    }
}

/// Single-date mode: scans `lines` in order and returns, in input order,
/// one record for every date-log line whose date token equals
/// `target_date` and whose indentation strictly exceeds that of the most
/// recent task line before it. Lines matching neither grammar, date lines
/// before the first task line, and date lines at insufficient indentation
/// contribute nothing; no input is an error.
pub fn parse_tasks(lines: &Vec<String>, target_date: &str) -> (r: Vec<ParsedTask>)
    ensures
        records_view(r@) == parse_tasks_spec(lines_view(lines@), target_date@),
{
    let ghost lv = lines_view(lines@);
    let ghost target = target_date@;
    let target_owned: String = target_date.to_owned();
    let mut out: Vec<ParsedTask> = Vec::new();
    let mut current: Option<CurrentTask> = None;
    let mut i: usize = 0;
    while i < lines.len()
        invariant
            i <= lines.len(),
            lv == lines_view(lines@),
            target == target_date@,
            target_owned@ == target,
            current_view(current) == single_run(lv, target, i as int).0,
            records_view(out@) == single_run(lv, target, i as int).1,
        decreases lines.len() - i,
    {
        let ghost prev_state = current_view(current);
        let line: &String = &lines[i];
        proof {
            assert(lv[i as int] == line@);
        }
        if let Some(t) = scan_task_line(line.as_str()) {
            current = Some(
                CurrentTask { indent: t.indent, completed: t.completed, text: t.text, line: i },
            );
        } else if let Some(d) = scan_date_line(line.as_str()) {
            if let Some(ct) = &current {
                if d.indent > ct.indent {
                    if d.date == target_owned {
                        out.push(
                            ParsedTask {
                                is_completed: ct.completed,
                                text: ct.text.clone(),
                                line: ct.line,
                                log: d.log,
                            },
                        );
                    }
                }
            }
        }
        proof {
            let step = single_step(prev_state, lv[i as int], i as int, target);
            assert(current_view(current) == step.0);
            assert(records_view(out@) =~= single_run(lv, target, i as int).1 + step.1);
            assert(single_run(lv, target, i as int + 1).1 == single_run(lv, target, i as int).1
                + step.1);
        }
        i = i + 1;
    }
    out
}

/// All-dates mode: scans `lines` in order and returns, in input order, one
/// record for every date-log line whose indentation strictly exceeds that
/// of the most recent task line before it, carrying the matched date token;
/// and, for every task line with no such log line, one placeholder record
/// with empty `log` and `date`, emitted where the task was superseded or,
/// for the last task, at end of input.
pub fn parse_tasks_all_dates(lines: &Vec<String>) -> (r: Vec<ParsedTaskWithDate>)
    ensures
        dated_records_view(r@) == parse_tasks_all_dates_spec(lines_view(lines@)),
{
    let ghost lv = lines_view(lines@);
    let mut out: Vec<ParsedTaskWithDate> = Vec::new();
    let mut current: Option<CurrentTask> = None;
    let mut has_log: bool = false;
    let mut i: usize = 0;
    while i < lines.len()
        invariant
            i <= lines.len(),
            lv == lines_view(lines@),
            (current_view(current), has_log) == all_run(lv, i as int).0,
            dated_records_view(out@) == all_run(lv, i as int).1,
        decreases lines.len() - i,
    {
        let ghost prev_state = (current_view(current), has_log);
        let line: &String = &lines[i];
        proof {
            assert(lv[i as int] == line@);
        }
        if let Some(t) = scan_task_line(line.as_str()) {
            if let Some(ct) = &current {
                if !has_log {
                    out.push(
                        ParsedTaskWithDate {
                            is_completed: ct.completed,
                            text: ct.text.clone(),
                            line: ct.line,
                            log: String::new(),
                            date: String::new(),
                        },
                    );
                }
            }
            current = Some(
                CurrentTask { indent: t.indent, completed: t.completed, text: t.text, line: i },
            );
            has_log = false;
        } else if let Some(d) = scan_date_line(line.as_str()) {
            if let Some(ct) = &current {
                if d.indent > ct.indent {
                    out.push(
                        ParsedTaskWithDate {
                            is_completed: ct.completed,
                            text: ct.text.clone(),
                            line: ct.line,
                            log: d.log,
                            date: d.date,
                        },
                    );
                    has_log = true;
                }
            }
        }
        proof {
            let step = all_step(prev_state, lv[i as int], i as int);
            assert((current_view(current), has_log) == step.0);
            assert(dated_records_view(out@) =~= all_run(lv, i as int).1 + step.1);
            assert(all_run(lv, i as int + 1).1 == all_run(lv, i as int).1 + step.1);
        }
        i = i + 1;
    }
    if let Some(ct) = &current {
        if !has_log {
            out.push(
                ParsedTaskWithDate {
                    is_completed: ct.completed,
                    text: ct.text.clone(),
                    line: ct.line,
                    log: String::new(),
                    date: String::new(),
                },
            );
        }
    }
    proof {
        assert(dated_records_view(out@) =~= parse_tasks_all_dates_spec(lv));
    }
    out
}

} // verus!
