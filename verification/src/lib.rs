//! Extracts checklist-style task entries and their nested, dated log lines
//! from plain-text outline documents.
//!
//! The scanner in [`scan`] recognizes two line shapes: a task line
//! (`- [ ] text` / `- [x] text`) and a date-log line (`- 2024-01-01: text`).
//! The parser in [`parse`] walks the lines once, associates each log line
//! with the most recent task whose indentation it exceeds, and emits records
//! either for one target date or for every date.

pub mod laws;
pub mod parse;
pub mod scan;

pub use parse::{parse_tasks, parse_tasks_all_dates, ParsedTask, ParsedTaskWithDate};
