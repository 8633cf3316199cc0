use outline_tasks::{parse_tasks, parse_tasks_all_dates};

fn lines(xs: &[&str]) -> Vec<String> {
    xs.iter().map(|s| s.to_string()).collect()
}

#[test]
fn empty_input_yields_no_records() {
    let input: Vec<String> = Vec::new();
    assert_eq!(parse_tasks(&input, "2024-01-01").len(), 0);
    assert_eq!(parse_tasks_all_dates(&input).len(), 0);
}

#[test]
fn concrete_scenario_single_date() {
    let input = lines(&["- [ ] Buy milk", "  - 2024-01-01: bought oat milk", "- [x] Clean house"]);
    let out = parse_tasks(&input, "2024-01-01");
    assert_eq!(out.len(), 1);
    assert_eq!(out[0].is_completed, false);
    assert_eq!(out[0].text, "Buy milk");
    assert_eq!(out[0].line, 0);
    assert_eq!(out[0].log, "bought oat milk");
}

#[test]
fn concrete_scenario_all_dates() {
    let input = lines(&["- [ ] Buy milk", "  - 2024-01-01: bought oat milk", "- [x] Clean house"]);
    let out = parse_tasks_all_dates(&input);
    assert_eq!(out.len(), 2);
    assert_eq!(out[0].is_completed, false);
    assert_eq!(out[0].text, "Buy milk");
    assert_eq!(out[0].line, 0);
    assert_eq!(out[0].log, "bought oat milk");
    assert_eq!(out[0].date, "2024-01-01");
    assert_eq!(out[1].is_completed, true);
    assert_eq!(out[1].text, "Clean house");
    assert_eq!(out[1].line, 2);
    assert_eq!(out[1].log, "");
    assert_eq!(out[1].date, "");
}

#[test]
fn two_logs_with_target_date_give_two_records() {
    let input = lines(&[
        "- [x] Water plants",
        "  - 2023-05-02: front room",
        "  - 2023-05-02: balcony",
    ]);
    let out = parse_tasks(&input, "2023-05-02");
    assert_eq!(out.len(), 2);
    assert_eq!(out[0].text, "Water plants");
    assert_eq!(out[0].line, 0);
    assert_eq!(out[0].is_completed, true);
    assert_eq!(out[0].log, "front room");
    assert_eq!(out[1].text, "Water plants");
    assert_eq!(out[1].line, 0);
    assert_eq!(out[1].is_completed, true);
    assert_eq!(out[1].log, "balcony");
}

#[test]
fn other_date_gives_no_record() {
    let input = lines(&["- [ ] Read", "  - 2023-05-03: one chapter"]);
    assert_eq!(parse_tasks(&input, "2023-05-02").len(), 0);
}

#[test]
fn equal_or_lesser_indent_gives_no_record() {
    let input = lines(&[
        "  - [ ] Read",
        "  - 2023-05-02: same indent",
        "- 2023-05-02: lesser indent",
    ]);
    assert_eq!(parse_tasks(&input, "2023-05-02").len(), 0);
    assert_eq!(parse_tasks_all_dates(&input).len(), 1);
    let out = parse_tasks_all_dates(&input);
    assert_eq!(out[0].text, "Read");
    assert_eq!(out[0].log, "");
    assert_eq!(out[0].date, "");
}

#[test]
fn task_without_logs_gives_one_placeholder() {
    let input = lines(&["- [ ] Call the plumber"]);
    let out = parse_tasks_all_dates(&input);
    assert_eq!(out.len(), 1);
    assert_eq!(out[0].is_completed, false);
    assert_eq!(out[0].text, "Call the plumber");
    assert_eq!(out[0].line, 0);
    assert_eq!(out[0].log, "");
    assert_eq!(out[0].date, "");
}

#[test]
fn consecutive_tasks_give_two_placeholders() {
    let input = lines(&["- [ ] First", "- [x] Second"]);
    let out = parse_tasks_all_dates(&input);
    assert_eq!(out.len(), 2);
    assert_eq!(out[0].text, "First");
    assert_eq!(out[0].line, 0);
    assert_eq!(out[0].is_completed, false);
    assert_eq!(out[1].text, "Second");
    assert_eq!(out[1].line, 1);
    assert_eq!(out[1].is_completed, true);
}

#[test]
fn non_matching_lines_change_nothing() {
    let plain = lines(&["- [ ] Task", "  - 2024-02-03: done a bit"]);
    let noisy = lines(&[
        "# heading",
        "- [ ] Task",
        "plain prose, no dash",
        "  - 2024-02-03: done a bit",
        "* other bullet",
    ]);
    let a = parse_tasks(&plain, "2024-02-03");
    let b = parse_tasks(&noisy, "2024-02-03");
    assert_eq!(a.len(), 1);
    assert_eq!(b.len(), 1);
    assert_eq!(a[0].text, b[0].text);
    assert_eq!(a[0].log, b[0].log);
    assert_eq!(a[0].is_completed, b[0].is_completed);
    assert_eq!(b[0].line, 1);
}

#[test]
fn date_line_before_any_task_is_ignored() {
    let input = lines(&["  - 2024-01-01: orphan log", "- [ ] Task"]);
    assert_eq!(parse_tasks(&input, "2024-01-01").len(), 0);
    let out = parse_tasks_all_dates(&input);
    assert_eq!(out.len(), 1);
    assert_eq!(out[0].text, "Task");
    assert_eq!(out[0].date, "");
}

#[test]
fn other_checkbox_char_is_not_a_task() {
    let input = lines(&["- [y] Not a task", "  - 2024-01-01: orphan"]);
    assert_eq!(parse_tasks(&input, "2024-01-01").len(), 0);
    assert_eq!(parse_tasks_all_dates(&input).len(), 0);
}

#[test]
fn date_token_shape_is_exact() {
    let input = lines(&[
        "- [ ] Task",
        "  - 2024-1-01: month too short",
        "  - 12345-01-01: year too long",
        "  - 2024-01-01 no colon",
        "  - 2024-01-012: day too long",
    ]);
    let out = parse_tasks_all_dates(&input);
    assert_eq!(out.len(), 1);
    assert_eq!(out[0].log, "");
    assert_eq!(out[0].date, "");
}

#[test]
fn indent_counts_characters_tabs_included() {
    let input = lines(&["\t- [ ] Tabbed task", "\t\t- 2024-06-07: deeper by one tab"]);
    let out = parse_tasks(&input, "2024-06-07");
    assert_eq!(out.len(), 1);
    assert_eq!(out[0].text, "Tabbed task");
    assert_eq!(out[0].log, "deeper by one tab");
}

#[test]
fn spacing_inside_markers_is_flexible() {
    let input = lines(&["-[x]tight", "  -  2020-12-31:  padded log"]);
    let out = parse_tasks(&input, "2020-12-31");
    assert_eq!(out.len(), 1);
    assert_eq!(out[0].is_completed, true);
    assert_eq!(out[0].text, "tight");
    assert_eq!(out[0].log, "padded log");
}

#[test]
fn new_task_supersedes_regardless_of_indent() {
    let input = lines(&[
        "- [ ] Outer",
        "    - [x] Inner",
        "  - 2024-03-04: shallow log",
    ]);
    // The log line's indent exceeds Outer's, but Inner is the current task
    // and the log does not exceed Inner's indent.
    assert_eq!(parse_tasks(&input, "2024-03-04").len(), 0);
}

#[test]
fn empty_text_and_empty_log_are_kept() {
    let input = lines(&["- [ ]", "  - 2024-08-09:"]);
    let out = parse_tasks_all_dates(&input);
    assert_eq!(out.len(), 1);
    assert_eq!(out[0].text, "");
    assert_eq!(out[0].log, "");
    assert_eq!(out[0].date, "2024-08-09");
}

#[test]
fn all_dates_filtered_matches_single_date() {
    let input = lines(&[
        "junk line",
        "- [ ] Alpha",
        "  - 2024-01-01: a1",
        "  - 2024-01-02: a2",
        "- [x] Beta",
        "- [ ] Gamma",
        "  - 2024-01-01: g1",
        "- 2024-01-01: too shallow",
    ]);
    for target in ["2024-01-01", "2024-01-02", "2024-12-31"] {
        let single = parse_tasks(&input, target);
        let all = parse_tasks_all_dates(&input);
        let filtered: Vec<_> = all
            .into_iter()
            .filter(|r| r.date == target && !r.date.is_empty())
            .collect();
        assert_eq!(single.len(), filtered.len());
        for (s, f) in single.iter().zip(filtered.iter()) {
            assert_eq!(s.is_completed, f.is_completed);
            assert_eq!(s.text, f.text);
            assert_eq!(s.line, f.line);
            assert_eq!(s.log, f.log);
        }
    }
}
