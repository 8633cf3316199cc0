//! Properties of the two parsing modes, stated over the spec-level scans
//! and proved once and for all: what a non-matching line does, what record
//! shapes particular inputs yield, and how the two modes agree.

use vstd::prelude::*;

use crate::parse::{
    all_run, all_step, parse_tasks_all_dates_spec, parse_tasks_spec, placeholder, single_run,
    single_step, ParsedTaskView, ParsedTaskWithDateView, TaskMarker,
};
use crate::scan::{
    date_match, lemma_date_token_len, lemma_grammars_disjoint, task_match, DateLine, TaskLine,
};

verus! {

/// Empty input yields an empty record sequence in both modes.
pub proof fn lemma_empty_input(target: Seq<char>)
    ensures
        parse_tasks_spec(Seq::<Seq<char>>::empty(), target) == Seq::<ParsedTaskView>::empty(),
        parse_tasks_all_dates_spec(Seq::<Seq<char>>::empty()) == Seq::<
            ParsedTaskWithDateView,
        >::empty(),
{
}

/// A line matching neither grammar contributes no record and leaves the
/// scan state unchanged, in both modes.
pub proof fn lemma_skip_line(
    st: Option<TaskMarker>,
    ast: (Option<TaskMarker>, bool),
    line: Seq<char>,
    idx: int,
    target: Seq<char>,
)
    requires
        task_match(line) is None,
        date_match(line) is None,
    ensures
        single_step(st, line, idx, target).0 == st,
        single_step(st, line, idx, target).1 == Seq::<ParsedTaskView>::empty(),
        all_step(ast, line, idx).0 == ast,
        all_step(ast, line, idx).1 == Seq::<ParsedTaskWithDateView>::empty(),
{
}

/// Single-date mode: a date-log line whose date token differs from the
/// target, or whose indentation does not exceed the current task's,
/// contributes no record and leaves the current task unchanged.
pub proof fn lemma_unmatched_date_line(
    ct: TaskMarker,
    line: Seq<char>,
    idx: int,
    target: Seq<char>,
    d: DateLine,
)
    requires
        date_match(line) == Some(d),
        d.date != target || d.indent <= ct.indent,
    ensures
        single_step(Some(ct), line, idx, target).0 == Some(ct),
        single_step(Some(ct), line, idx, target).1 == Seq::<ParsedTaskView>::empty(),
{
    lemma_grammars_disjoint(line);
}

/// Single-date mode: a task line followed by two date-log lines that both
/// carry the target date and sufficient indentation yields two records,
/// both carrying the task's line index, text, and checkbox state.
pub proof fn lemma_two_matching_logs(
    t: Seq<char>,
    d1: Seq<char>,
    d2: Seq<char>,
    target: Seq<char>,
    tm: TaskLine,
    l1: DateLine,
    l2: DateLine,
)
    requires
        task_match(t) == Some(tm),
        date_match(d1) == Some(l1),
        date_match(d2) == Some(l2),
        l1.date == target,
        l2.date == target,
        l1.indent > tm.indent,
        l2.indent > tm.indent,
    ensures
        parse_tasks_spec(seq![t, d1, d2], target) == seq![
            (ParsedTaskView { is_completed: tm.completed, text: tm.text, line: 0, log: l1.log }),
            (ParsedTaskView { is_completed: tm.completed, text: tm.text, line: 0, log: l2.log }),
        ],
{
    lemma_grammars_disjoint(d1);
    lemma_grammars_disjoint(d2);
    let lines = seq![t, d1, d2];
    assert(lines[0] == t);
    assert(lines[1] == d1);
    assert(lines[2] == d2);
    let marker = TaskMarker { indent: tm.indent, completed: tm.completed, text: tm.text, line: 0 };
    let rec1 = ParsedTaskView {
        is_completed: tm.completed,
        text: tm.text,
        line: 0,
        log: l1.log,
    };
    let rec2 = ParsedTaskView {
        is_completed: tm.completed,
        text: tm.text,
        line: 0,
        log: l2.log,
    };
    let r0 = single_run(lines, target, 0);
    assert(r0.0 is None);
    assert(r0.1 =~= Seq::<ParsedTaskView>::empty());
    let r1 = single_run(lines, target, 1);
    assert(r1.0 == Some(marker));
    assert(r1.1 =~= Seq::<ParsedTaskView>::empty());
    let r2 = single_run(lines, target, 2);
    assert(r2.0 == Some(marker));
    assert(r2.1 =~= seq![rec1]);
    let r3 = single_run(lines, target, 3);
    assert(r3.1 =~= seq![rec1, rec2]);
}

/// All-dates mode: a task line with no date-log lines after it, followed
/// by end of input, yields exactly one placeholder record with empty log
/// and empty date.
pub proof fn lemma_single_task_placeholder(t: Seq<char>, tm: TaskLine)
    requires
        task_match(t) == Some(tm),
    ensures
        parse_tasks_all_dates_spec(seq![t]) == seq![
            (ParsedTaskWithDateView {
                is_completed: tm.completed,
                text: tm.text,
                line: 0,
                log: Seq::<char>::empty(),
                date: Seq::<char>::empty(),
            }),
        ],
{
    let lines = seq![t];
    assert(lines[0] == t);
    let marker = TaskMarker { indent: tm.indent, completed: tm.completed, text: tm.text, line: 0 };
    let r0 = all_run(lines, 0);
    assert(r0.0.0 is None);
    assert(r0.1 =~= Seq::<ParsedTaskWithDateView>::empty());
    let r1 = all_run(lines, 1);
    assert(r1.0 == (Some(marker), false));
    assert(r1.1 =~= Seq::<ParsedTaskWithDateView>::empty());
    assert(parse_tasks_all_dates_spec(lines) =~= seq![placeholder(marker)]);
}

/// All-dates mode: two consecutive task lines with no date-log lines in
/// between yield two placeholder records, in task order, each carrying its
/// own task's line index, text, and checkbox state.
pub proof fn lemma_consecutive_tasks_placeholders(
    t1: Seq<char>,
    t2: Seq<char>,
    tm1: TaskLine,
    tm2: TaskLine,
)
    requires
        task_match(t1) == Some(tm1),
        task_match(t2) == Some(tm2),
    ensures
        parse_tasks_all_dates_spec(seq![t1, t2]) == seq![
            (ParsedTaskWithDateView {
                is_completed: tm1.completed,
                text: tm1.text,
                line: 0,
                log: Seq::<char>::empty(),
                date: Seq::<char>::empty(),
            }),
            (ParsedTaskWithDateView {
                is_completed: tm2.completed,
                text: tm2.text,
                line: 1,
                log: Seq::<char>::empty(),
                date: Seq::<char>::empty(),
            }),
        ],
{
    let lines = seq![t1, t2];
    assert(lines[0] == t1);
    assert(lines[1] == t2);
    let m1 = TaskMarker { indent: tm1.indent, completed: tm1.completed, text: tm1.text, line: 0 };
    let m2 = TaskMarker { indent: tm2.indent, completed: tm2.completed, text: tm2.text, line: 1 };
    let r0 = all_run(lines, 0);
    assert(r0.0.0 is None);
    assert(r0.1 =~= Seq::<ParsedTaskWithDateView>::empty());
    let r1 = all_run(lines, 1);
    assert(r1.0 == (Some(m1), false));
    assert(r1.1 =~= Seq::<ParsedTaskWithDateView>::empty());
    let r2 = all_run(lines, 2);
    assert(r2.0 == (Some(m2), false));
    assert(r2.1 =~= seq![placeholder(m1)]);
    assert(parse_tasks_all_dates_spec(lines) =~= seq![placeholder(m1), placeholder(m2)]);
}

/// The all-dates records that carry date token `target`, in order, each
/// stripped of its date field. Placeholder records, whose date is empty,
/// are dropped; a matched date token is never empty.
pub open spec fn selected(rs: Seq<ParsedTaskWithDateView>, target: Seq<char>) -> Seq<
    ParsedTaskView,
>
    decreases rs.len(),
{
    if rs.len() == 0 {
        Seq::<ParsedTaskView>::empty()
    } else {
        let kept = selected(rs.drop_last(), target);
        let last = rs.last();
        if last.date == target && last.date.len() > 0 {
            kept + seq![
                (ParsedTaskView {
                    is_completed: last.is_completed,
                    text: last.text,
                    line: last.line,
                    log: last.log,
                }),
            ]
        } else {
            kept
        }
    }
}

proof fn lemma_selected_snoc(
    a: Seq<ParsedTaskWithDateView>,
    x: ParsedTaskWithDateView,
    target: Seq<char>,
)
    ensures
        selected(a + seq![x], target) == (if x.date == target && x.date.len() > 0 {
            selected(a, target) + seq![
                (ParsedTaskView {
                    is_completed: x.is_completed,
                    text: x.text,
                    line: x.line,
                    log: x.log,
                }),
            ]
        } else {
            selected(a, target)
        }),
{
    let s = a + seq![x];
    assert(s.len() == a.len() + 1);
    assert(s.drop_last() =~= a);
    assert(s.last() == x);
}

proof fn lemma_modes_agree_run(lines: Seq<Seq<char>>, target: Seq<char>, n: int)
    requires
        0 <= n <= lines.len(),
    ensures
        single_run(lines, target, n).0 == all_run(lines, n).0.0,
        single_run(lines, target, n).1 == selected(all_run(lines, n).1, target),
    decreases n,
{
    if n > 0 {
        lemma_modes_agree_run(lines, target, n - 1);
        let line = lines[n - 1];
        let sp = single_run(lines, target, n - 1);
        let ap = all_run(lines, n - 1);
        let sstep = single_step(sp.0, line, n - 1, target);
        let astep = all_step(ap.0, line, n - 1);
        match task_match(line) {
            Some(t) => {
                assert(sp.1 + sstep.1 =~= sp.1);
                match ap.0.0 {
                    Some(ct) => {
                        if !ap.0.1 {
                            lemma_selected_snoc(ap.1, placeholder(ct), target);
                        } else {
                            assert(ap.1 + astep.1 =~= ap.1);
                        }
                    },
                    None => {
                        assert(ap.1 + astep.1 =~= ap.1);
                    },
                }
            },
            None => {
                match date_match(line) {
                    Some(d) => {
                        lemma_date_token_len(line);
                        match ap.0.0 {
                            Some(ct) => {
                                if d.indent > ct.indent {
                                    let full = ParsedTaskWithDateView {
                                        is_completed: ct.completed,
                                        text: ct.text,
                                        line: ct.line,
                                        log: d.log,
                                        date: d.date,
                                    };
                                    lemma_selected_snoc(ap.1, full, target);
                                    if d.date == target {
                                        assert(sp.1 + sstep.1 =~= sp.1.push(
                                            (ParsedTaskView {
                                                is_completed: ct.completed,
                                                text: ct.text,
                                                line: ct.line,
                                                log: d.log,
                                            }),
                                        ));
                                        assert(selected(ap.1, target) + seq![
                                            (ParsedTaskView {
                                                is_completed: full.is_completed,
                                                text: full.text,
                                                line: full.line,
                                                log: full.log,
                                            }),
                                        ] =~= sp.1 + sstep.1);
                                    } else {
                                        assert(sp.1 + sstep.1 =~= sp.1);
                                    }
                                } else {
                                    assert(sp.1 + sstep.1 =~= sp.1);
                                    assert(ap.1 + astep.1 =~= ap.1);
                                }
                            },
                            None => {
                                assert(sp.1 + sstep.1 =~= sp.1);
                                assert(ap.1 + astep.1 =~= ap.1);
                            },
                        }
                    },
                    None => {
                        assert(sp.1 + sstep.1 =~= sp.1);
                        assert(ap.1 + astep.1 =~= ap.1);
                    },
                }
            },
        }
    }
}

/// Running all-dates mode and keeping only the records whose date token
/// equals `target` (dropping placeholders, whose date is empty) yields
/// exactly the output of single-date mode called with that target, for any
/// input.
pub proof fn lemma_modes_agree(lines: Seq<Seq<char>>, target: Seq<char>)
    ensures
        parse_tasks_spec(lines, target) == selected(parse_tasks_all_dates_spec(lines), target),
{
    lemma_modes_agree_run(lines, target, lines.len() as int);
    let r = all_run(lines, lines.len() as int);
    match r.0.0 {
        Some(ct) => {
            if !r.0.1 {
                lemma_selected_snoc(r.1, placeholder(ct), target);
            }
        },
        None => {},
    }
}

} // verus!
