//! Compact handling of the JSON diagnostic stream that `cargo check` and
//! `cargo clippy` emit with `--message-format json`.
//!
//! The crate decodes the newline-delimited byte stream into typed [`Entry`]
//! values, renders compact one-line reports, and drives a watch loop: a
//! snapshot of reportable diagnostics, interactive commands against it
//! (`show`, `fix`, `quit`), and byte-exact application of compiler-suggested
//! fixes.

mod command;
mod decode;
mod error;
pub mod fix;
mod model;
mod print;
mod report;
mod traverse;
mod watch;

pub use command::{command_exits, help_text, is_blank, parse_command, parse_usize, Command};
pub use error::Error;
pub use decode::{decode_all, first_newline, lemma_decode_stream, records_of, stream_of,
    StreamDecoder, NEWLINE};
pub use fix::FixError;
pub use print::{entries, entry, entry_width, headers, message, message_width, prompt_text,
    reportable_msg_pred, spec_entry_line_count, spec_lines_total, spec_message_line,
    spec_prompt_text, INDEX_COLUMN_WIDTH};
pub use report::{progress_line, spec_problem_counts, spec_progress_line, summary_line, dec_str, dec_string, spaces, spec_file_text, spec_line_text, spec_msg_text,
    spec_report_headers, spec_report_line, paint, ansi_color, message_column_width, pad_left_spec, pad_right_spec,
    printable_ascii, spec_level_text, spec_paint, terminal_width, ELIPSES_COLUMN_WIDTH,
    FILE_COLUMN_WIDTH, LEVEL_COLUMN_WIDTH, LINE_COLUMN_WIDTH};
pub use model::{Checker, Code, CrateType, Entry, Expansion, Level, Message, Profile, Reason, Span,
    Target, TargetKind, Text};
pub use traverse::{children_of, first_primary, first_replacement, has_replacement,
    lemma_primary_span_some, spans_of, spec_primary_span, spec_replacement_span,
    spec_replacement_span_in, spec_unroll, spec_unroll_in, unroll_pairs};
pub use watch::{lemma_write_burst_single_trigger, error_pred, is_reportable, reportable_pred, should_rerun, spec_is_error,
    spec_is_warning, spec_reportable, spec_should_rerun, warning_pred, Action, FixPlan, FsEvent,
    Orchestrator, Phase, Snapshot, SnapshotError, SnapshotIndex, Summary};
