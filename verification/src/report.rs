use vstd::prelude::*;
use vstd::string::{StrSliceExecFns, StringExecFns};

use crate::model::{Entry, Level, Message, Span};
use crate::traverse::spec_primary_span;
use crate::watch::{spec_reportable, Summary};

verus! {

/// Width of the level column of a report line.
pub const LEVEL_COLUMN_WIDTH: usize = 7;

/// Width of the file column of a report line.
pub const FILE_COLUMN_WIDTH: usize = 18;

/// Width of the line:column column of a report line.
pub const LINE_COLUMN_WIDTH: usize = 8;

/// Width of the ellipsis that marks a truncated message.
pub const ELIPSES_COLUMN_WIDTH: usize = 3;

/// The fixed columns and separators of a report line take 39 characters;
/// the message column keeps the rest of the terminal.
pub const FIXED_COLUMNS_WIDTH: usize = 39;

/// Whether every character is printable ASCII, so that one character takes
/// one terminal column.
pub open spec fn printable_ascii(s: Seq<char>) -> bool {
    forall|i: int| 0 <= i < s.len() ==> (' ' <= #[trigger] s[i] && s[i] <= '~')
}

/// `n` spaces.
pub open spec fn spaces(n: nat) -> Seq<char>
    decreases n,
{
    if n == 0 {
        Seq::empty()
    } else {
        spaces((n - 1) as nat).push(' ')
    }
}

/// The text right-aligned in a column of `w` spaces; text at least `w`
/// wide stays as it is.
pub open spec fn pad_left_spec(s: Seq<char>, w: nat) -> Seq<char> {
    if s.len() >= w {
        s
    } else {
        spaces((w - s.len()) as nat) + s
    }
}

/// The text left-aligned in a column of `w` spaces; text at least `w`
/// wide stays as it is.
pub open spec fn pad_right_spec(s: Seq<char>, w: nat) -> Seq<char> {
    if s.len() >= w {
        s
    } else {
        s + spaces((w - s.len()) as nat)
    }
}

/// The text wrapped in the ANSI escape that selects color `code`, and the
/// escape that resets it.
pub open spec fn ansi_color(code: Seq<char>, s: Seq<char>) -> Seq<char> {
    ("\u{1b}[")@ + code + ("m")@ + s + ("\u{1b}[0m")@
}

/// The text colored when color is on, bare when it is off.
pub open spec fn spec_paint(code: Seq<char>, s: Seq<char>, color: bool) -> Seq<char> {
    if color {
        ansi_color(code, s)
    } else {
        s
    }
}

/// Wrap the text in an ANSI color escape, or hand it back unchanged when
/// color is off.
pub fn paint(code: &str, s: &str, color: bool) -> (r: String)
    ensures
        r@ == spec_paint(code@, s@, color),
{
    if color {
        let mut out = String::from_str("\u{1b}[");
        out.append(code);
        out.append("m");
        out.append(s);
        out.append("\u{1b}[0m");
        proof {
            assert(out@ =~= ansi_color(code@, s@));
        }
        out
    } else {
        s.to_owned()
    }
}

/// Relies on pad's `pad_to_width_with_alignment`: spaces fill the text out
/// to `width` columns, before it for right alignment, after it for left,
/// and text at least `width` wide comes back unchanged. The crate counts
/// unicode columns, which on printable ASCII equal the character count;
/// the contract speaks of that case alone.
#[verifier::external_body]
pub(crate) fn pad_to_width(s: &str, width: usize, right: bool) -> (r: String)
    ensures
        printable_ascii(s@) ==> r@ == (if right {
            pad_left_spec(s@, width as nat)
        } else {
            pad_right_spec(s@, width as nat)
        }),
{
    let alignment = if right {
        pad::Alignment::Right
    } else {
        pad::Alignment::Left
    };
    pad::PadStr::pad_to_width_with_alignment(s, width, alignment)
}

/// Relies on terminal_size::terminal_size: the column width of the
/// attached terminal, if any. The result depends on the environment, so
/// nothing is promised of it.
#[verifier::external_body]
fn query_terminal_width() -> (r: Option<u16>) {
    terminal_size::terminal_size().map(|(w, _)| w.0)
}

/// Get the width of the terminal
///
/// Falls back to 100 columns when no terminal width can be queried.
pub fn terminal_width() -> (r: usize)
    ensures
        r <= u16::MAX,
{
    match query_terminal_width() {
        Some(w) => w as usize,
        None => 100,
    }
}

/// The width left for the message column of a report line.
pub fn message_column_width(terminal_width: usize) -> (r: usize)
    requires
        terminal_width >= FIXED_COLUMNS_WIDTH + ELIPSES_COLUMN_WIDTH,
    ensures
        r == terminal_width - FIXED_COLUMNS_WIDTH,
        r >= ELIPSES_COLUMN_WIDTH,
{
    terminal_width - LEVEL_COLUMN_WIDTH - FILE_COLUMN_WIDTH - LINE_COLUMN_WIDTH - 6
}

/// The decimal digit `d` as a character.
pub open spec fn digit_char(d: nat) -> char {
    if d == 0 {
        '0'
    } else if d == 1 {
        '1'
    } else if d == 2 {
        '2'
    } else if d == 3 {
        '3'
    } else if d == 4 {
        '4'
    } else if d == 5 {
        '5'
    } else if d == 6 {
        '6'
    } else if d == 7 {
        '7'
    } else if d == 8 {
        '8'
    } else {
        '9'
    }
}

/// The decimal digits of `n`, most significant first.
pub open spec fn dec_str(n: nat) -> Seq<char>
    decreases n,
{
    if n < 10 {
        seq![digit_char(n)]
    } else {
        dec_str(n / 10) + seq![digit_char(n % 10)]
    }
}

/// One decimal digit as a string.
fn digit_str(d: usize) -> (r: &'static str)
    requires
        d < 10,
    ensures
        r@ == seq![digit_char(d as nat)],
{
    let r = match d {
        0 => "0",
        1 => "1",
        2 => "2",
        3 => "3",
        4 => "4",
        5 => "5",
        6 => "6",
        7 => "7",
        8 => "8",
        _ => "9",
    };
    proof {
        reveal_strlit("0");
        reveal_strlit("1");
        reveal_strlit("2");
        reveal_strlit("3");
        reveal_strlit("4");
        reveal_strlit("5");
        reveal_strlit("6");
        reveal_strlit("7");
        reveal_strlit("8");
        reveal_strlit("9");
        assert(r@ =~= seq![digit_char(d as nat)]);
    }
    r
}

/// Write a number in decimal.
pub fn dec_string(n: usize) -> (r: String)
    ensures
        r@ == dec_str(n as nat),
    decreases n,
{
    if n < 10 {
        String::from_str(digit_str(n))
    } else {
        let mut s = dec_string(n / 10);
        s.append(digit_str(n % 10));
        proof {
            assert(s@ =~= dec_str(n as nat));
        }
        s
    }
}

/// Two printable texts concatenate to a printable text.
proof fn lemma_printable_concat(a: Seq<char>, b: Seq<char>)
    requires
        printable_ascii(a),
        printable_ascii(b),
    ensures
        printable_ascii(a + b),
{
    assert forall|i: int| 0 <= i < (a + b).len() implies ' ' <= #[trigger] (a + b)[i] && (a + b)[i]
        <= '~' by {
        if i < a.len() {
            assert((a + b)[i] == a[i]);
        } else {
            assert((a + b)[i] == b[i - a.len()]);
        }
    }
}

/// Decimal digits are printable.
pub(crate) proof fn lemma_printable_dec(n: nat)
    ensures
        printable_ascii(dec_str(n)),
    decreases n,
{
    if n < 10 {
        assert(' ' <= digit_char(n) && digit_char(n) <= '~');
        assert(printable_ascii(dec_str(n)));
    } else {
        lemma_printable_dec(n / 10);
        assert(' ' <= digit_char(n % 10) && digit_char(n % 10) <= '~');
        assert(printable_ascii(seq![digit_char(n % 10)]));
        lemma_printable_concat(dec_str(n / 10), seq![digit_char(n % 10)]);
    }
}

/// Printable text is ASCII.
proof fn lemma_printable_is_ascii(s: Seq<char>)
    requires
        printable_ascii(s),
    ensures
        vstd::utf8::is_ascii_chars(s),
{
    assert forall|i: int| 0 <= i < s.len() implies '\0' <= #[trigger] s[i] <= '\u{7f}' by {
        assert(' ' <= s[i] && s[i] <= '~');
    }
}

/// The level column of a report line: the level's name right-aligned to
/// its column, in its color; an empty level shows nothing.
pub open spec fn spec_level_text(l: Level, color: bool) -> Seq<char> {
    match l {
        Level::Empty => Seq::empty(),
        Level::Note => spec_paint(("96")@, ("   note")@, color),
        Level::Help => spec_paint(("92")@, ("   help")@, color),
        Level::Warning => spec_paint(("93")@, ("warning")@, color),
        Level::Error => spec_paint(("91")@, ("  error")@, color),
    }
}

/// An ellipsis is printable.
proof fn lemma_printable_dots()
    ensures
        printable_ascii(("...")@),
{
    reveal_strlit("...");
    assert forall|i: int| 0 <= i < ("...")@.len() implies ' ' <= #[trigger] ("...")@[i]
        && ("...")@[i] <= '~' by {
        if i == 0 {
        } else if i == 1 {
        } else {
        }
    }
}

/// The file column of a report line: a name wider than the column keeps
/// its tail behind an ellipsis.
pub open spec fn spec_file_shown(name: Seq<char>) -> Seq<char> {
    if name.len() <= FILE_COLUMN_WIDTH {
        name
    } else {
        ("...")@ + name.skip(name.len() - (FILE_COLUMN_WIDTH - ELIPSES_COLUMN_WIDTH))
    }
}

/// The file column of a report line, right-aligned and bright cyan.
pub open spec fn spec_file_text(name: Seq<char>, color: bool) -> Seq<char> {
    spec_paint(("96")@, pad_left_spec(spec_file_shown(name), FILE_COLUMN_WIDTH as nat), color)
}

/// The line:column column of a report line, left-aligned and bright cyan.
pub open spec fn spec_line_text(line: nat, column: nat, color: bool) -> Seq<char> {
    spec_paint(
        ("96")@,
        pad_right_spec(dec_str(line) + (":")@ + dec_str(column), LINE_COLUMN_WIDTH as nat),
        color,
    )
}

/// The message column of a report line: text wider than the column is cut
/// and ends in an ellipsis.
pub open spec fn spec_msg_shown(text: Seq<char>, mcw: nat) -> Seq<char> {
    if text.len() <= mcw {
        text
    } else {
        text.take(mcw - ELIPSES_COLUMN_WIDTH) + ("...")@
    }
}

/// The message column of a report line, left-aligned and white.
pub open spec fn spec_msg_text(text: Seq<char>, mcw: nat, color: bool) -> Seq<char> {
    spec_paint(("37")@, pad_right_spec(spec_msg_shown(text, mcw), mcw), color)
}

/// One compact report line: level, file, line:column and message, each in
/// its own column, in the width the terminal gives.
pub open spec fn spec_report_line(m: Message, s: Span, color: bool, tw: nat) -> Seq<char> {
    spec_level_text(m.level, color) + (" ")@ + spec_file_text(s.file_name@, color) + (" at ")@
        + spec_line_text(s.line_start as nat, s.column_start as nat, color) + (" ")@
        + spec_msg_text(m.message@, (tw - FIXED_COLUMNS_WIDTH) as nat, color)
}

/// The column headers above the report lines.
pub open spec fn spec_report_headers(color: bool) -> Seq<char> {
    spec_paint(("97")@, ("  Level")@, color) + (" ")@ + spec_paint(
        ("97")@,
        ("              File")@,
        color,
    ) + ("    ")@ + spec_paint(("97")@, ("Line    ")@, color) + (" ")@ + spec_paint(
        ("97")@,
        ("Message")@,
        color,
    )
}

impl Message {
    /// Get a string containing the column headers for reports
    pub fn report_headers(color: bool) -> (r: String)
        ensures
            r@ == spec_report_headers(color),
    {
        let mut out = paint("97", "  Level", color);
        out.append(" ");
        let file = paint("97", "              File", color);
        out.append(file.as_str());
        out.append("    ");
        let line = paint("97", "Line    ", color);
        out.append(line.as_str());
        out.append(" ");
        let message = paint("97", "Message", color);
        out.append(message.as_str());
        proof {
            assert(out@ =~= spec_report_headers(color));
        }
        out
    }

    /// Get the message as a compact report
    ///
    /// One line: the level, the primary span's file, its line and column,
    /// and the message text, each padded to its column. Nothing comes back
    /// for a message without a reportable level or without a span. The
    /// exact text is pinned down for printable-ASCII names and messages;
    /// other text still renders, with the crate's unicode-width padding.
    pub fn report(&self, color: bool, terminal_width: usize) -> (r: Option<String>)
        requires
            terminal_width >= FIXED_COLUMNS_WIDTH + ELIPSES_COLUMN_WIDTH,
        ensures
            r is Some <==> (self.level != Level::Empty && spec_primary_span(*self) is Some),
            r is Some && printable_ascii(spec_primary_span(*self)->0.file_name@)
                && printable_ascii(self.message@) ==> r->0@ == spec_report_line(
                *self,
                spec_primary_span(*self)->0,
                color,
                terminal_width as nat,
            ),
    {
        if self.level.is_none() {
            return None;
        }
        let span = match self.primary_span() {
            Some(s) => s,
            None => {
                return None;
            },
        };
        let ghost name = span.file_name@;
        let level_text = self.level.format(color);

        // File column
        let file = span.file_name_string();
        let flen = file.as_str().unicode_len();
        let file_shown: String;
        if flen <= FILE_COLUMN_WIDTH {
            file_shown = file;
            proof {
                assert(file_shown@ == spec_file_shown(name));
            }
        } else if file.as_str().is_ascii() {
            let mut t = String::from_str("...");
            t.append(file.as_str().substring_ascii(flen - 15, flen));
            file_shown = t;
            proof {
                assert(file_shown@ =~= spec_file_shown(name));
            }
        } else {
            file_shown = file;
            proof {
                if printable_ascii(name) {
                    lemma_printable_is_ascii(name);
                    assert(false);
                }
            }
        }
        proof {
            if printable_ascii(name) {
                assert(file_shown@ == spec_file_shown(name));
                lemma_printable_dots();
                if name.len() > FILE_COLUMN_WIDTH {
                    assert forall|i: int|
                        0 <= i < name.skip(
                            name.len() - (FILE_COLUMN_WIDTH - ELIPSES_COLUMN_WIDTH),
                        ).len() implies ' ' <= #[trigger] name.skip(
                        name.len() - (FILE_COLUMN_WIDTH - ELIPSES_COLUMN_WIDTH),
                    )[i] && name.skip(name.len() - (FILE_COLUMN_WIDTH - ELIPSES_COLUMN_WIDTH))[i]
                        <= '~' by {
                        assert(name.skip(name.len() - (FILE_COLUMN_WIDTH - ELIPSES_COLUMN_WIDTH))[i]
                            == name[i + name.len() - (FILE_COLUMN_WIDTH - ELIPSES_COLUMN_WIDTH)]);
                    }
                    lemma_printable_concat(
                        ("...")@,
                        name.skip(name.len() - (FILE_COLUMN_WIDTH - ELIPSES_COLUMN_WIDTH)),
                    );
                }
                assert(printable_ascii(file_shown@));
            }
        }
        let file_padded = pad_to_width(file_shown.as_str(), FILE_COLUMN_WIDTH, true);
        let file_text = paint("96", file_padded.as_str(), color);

        // Line column
        let (line, column) = span.line();
        let mut lc = dec_string(line);
        lc.append(":");
        let col_s = dec_string(column);
        lc.append(col_s.as_str());
        proof {
            reveal_strlit(":");
            lemma_printable_dec(line as nat);
            lemma_printable_dec(column as nat);
            assert(printable_ascii((":")@)) by {
                assert((":")@[0] == ':');
            }
            lemma_printable_concat(dec_str(line as nat), (":")@);
            lemma_printable_concat(dec_str(line as nat) + (":")@, dec_str(column as nat));
            assert(lc@ =~= dec_str(line as nat) + (":")@ + dec_str(column as nat));
        }
        let lc_padded = pad_to_width(lc.as_str(), LINE_COLUMN_WIDTH, false);
        let line_text = paint("96", lc_padded.as_str(), color);

        // Message column
        let mcw = message_column_width(terminal_width);
        let mlen = self.message.as_str().unicode_len();
        let msg_shown: String;
        if mlen <= mcw {
            msg_shown = self.message.clone();
            proof {
                assert(msg_shown@ == spec_msg_shown(self.message@, mcw as nat));
            }
        } else if self.message.as_str().is_ascii() {
            let mut t = String::from_str(
                self.message.as_str().substring_ascii(0, mcw - ELIPSES_COLUMN_WIDTH),
            );
            t.append("...");
            msg_shown = t;
            proof {
                assert(msg_shown@ =~= spec_msg_shown(self.message@, mcw as nat));
            }
        } else {
            msg_shown = self.message.clone();
            proof {
                if printable_ascii(self.message@) {
                    lemma_printable_is_ascii(self.message@);
                    assert(false);
                }
            }
        }
        proof {
            if printable_ascii(self.message@) {
                assert(msg_shown@ == spec_msg_shown(self.message@, mcw as nat));
                lemma_printable_dots();
                if self.message@.len() > mcw {
                    assert forall|i: int|
                        0 <= i < self.message@.take(mcw - ELIPSES_COLUMN_WIDTH).len() implies ' '
                        <= #[trigger] self.message@.take(mcw - ELIPSES_COLUMN_WIDTH)[i]
                        && self.message@.take(mcw - ELIPSES_COLUMN_WIDTH)[i] <= '~' by {
                        assert(self.message@.take(mcw - ELIPSES_COLUMN_WIDTH)[i]
                            == self.message@[i]);
                    }
                    lemma_printable_concat(self.message@.take(mcw - ELIPSES_COLUMN_WIDTH), ("...")@);
                }
                assert(printable_ascii(msg_shown@));
            }
        }
        let msg_padded = pad_to_width(msg_shown.as_str(), mcw, false);
        let msg_text = paint("37", msg_padded.as_str(), color);

        // Compose the line
        let mut out = level_text;
        out.append(" ");
        out.append(file_text.as_str());
        out.append(" at ");
        out.append(line_text.as_str());
        out.append(" ");
        out.append(msg_text.as_str());
        proof {
            if printable_ascii(name) && printable_ascii(self.message@) {
                assert(out@ =~= spec_report_line(
                    *self,
                    spec_primary_span(*self)->0,
                    color,
                    terminal_width as nat,
                ));
            }
        }
        Some(out)
    }
}

proof fn lemma_printable_no_problems()
    ensures
        printable_ascii(("No problems")@),
{
    reveal_strlit("No problems");
    assert forall|i: int| 0 <= i < ("No problems")@.len() implies ' ' <= #[trigger] ("No problems")@[i]
        && ("No problems")@[i] <= '~' by {
        if i == 0 {
        } else if i == 1 {
        } else if i == 2 {
        } else if i == 3 {
        } else if i == 4 {
        } else if i == 5 {
        } else if i == 6 {
        } else if i == 7 {
        } else if i == 8 {
        } else if i == 9 {
        } else {
        }
    }
}

proof fn lemma_printable_error_word()
    ensures
        printable_ascii(("error")@),
{
    reveal_strlit("error");
    assert forall|i: int| 0 <= i < ("error")@.len() implies ' ' <= #[trigger] ("error")@[i]
        && ("error")@[i] <= '~' by {
        if i == 0 {
        } else if i == 1 {
        } else if i == 2 {
        } else if i == 3 {
        } else {
        }
    }
}

proof fn lemma_printable_errors_word()
    ensures
        printable_ascii(("errors")@),
{
    reveal_strlit("errors");
    assert forall|i: int| 0 <= i < ("errors")@.len() implies ' ' <= #[trigger] ("errors")@[i]
        && ("errors")@[i] <= '~' by {
        if i == 0 {
        } else if i == 1 {
        } else if i == 2 {
        } else if i == 3 {
        } else if i == 4 {
        } else {
        }
    }
}

proof fn lemma_printable_warning_word()
    ensures
        printable_ascii(("warning")@),
{
    reveal_strlit("warning");
    assert forall|i: int| 0 <= i < ("warning")@.len() implies ' ' <= #[trigger] ("warning")@[i]
        && ("warning")@[i] <= '~' by {
        if i == 0 {
        } else if i == 1 {
        } else if i == 2 {
        } else if i == 3 {
        } else if i == 4 {
        } else if i == 5 {
        } else {
        }
    }
}

proof fn lemma_printable_warnings_word()
    ensures
        printable_ascii(("warnings")@),
{
    reveal_strlit("warnings");
    assert forall|i: int| 0 <= i < ("warnings")@.len() implies ' ' <= #[trigger] ("warnings")@[i]
        && ("warnings")@[i] <= '~' by {
        if i == 0 {
        } else if i == 1 {
        } else if i == 2 {
        } else if i == 3 {
        } else if i == 4 {
        } else if i == 5 {
        } else if i == 6 {
        } else {
        }
    }
}

proof fn lemma_printable_comma()
    ensures
        printable_ascii((", ")@),
{
    reveal_strlit(", ");
    assert forall|i: int| 0 <= i < (", ")@.len() implies ' ' <= #[trigger] (", ")@[i]
        && (", ")@[i] <= '~' by {
        if i == 0 {
        } else {
        }
    }
}

proof fn lemma_printable_space()
    ensures
        printable_ascii((" ")@),
{
    reveal_strlit(" ");
    assert forall|i: int| 0 <= i < (" ")@.len() implies ' ' <= #[trigger] (" ")@[i]
        && (" ")@[i] <= '~' by {
        assert(i == 0);
    }
}

proof fn lemma_printable_compiled()
    ensures
        printable_ascii(("compiled ")@),
{
    reveal_strlit("compiled ");
    assert forall|i: int| 0 <= i < ("compiled ")@.len() implies ' ' <= #[trigger] ("compiled ")@[i]
        && ("compiled ")@[i] <= '~' by {
        if i == 0 {
        } else if i == 1 {
        } else if i == 2 {
        } else if i == 3 {
        } else if i == 4 {
        } else if i == 5 {
        } else if i == 6 {
        } else if i == 7 {
        } else {
        }
    }
}

/// The body of the run summary: the number of errors and of warnings,
/// each with its word, pluralized, colored, and separated by a comma;
/// counts of zero stay silent.
pub open spec fn spec_problem_counts(errors: nat, warnings: nat, color: bool) -> Seq<char> {
    let et = spec_paint(("91")@, if errors == 1 { ("error")@ } else { ("errors")@ }, color);
    let wt = spec_paint(("93")@, if warnings == 1 { ("warning")@ } else { ("warnings")@ }, color);
    if errors > 0 && warnings > 0 {
        dec_str(errors) + (" ")@ + et + (", ")@ + dec_str(warnings) + (" ")@ + wt
    } else if errors > 0 {
        dec_str(errors) + (" ")@ + et
    } else if warnings > 0 {
        dec_str(warnings) + (" ")@ + wt
    } else {
        Seq::empty()
    }
}

/// The one-line summary printed after a run: `No problems` in bright
/// green for an empty snapshot, else the problem counts; either is laid
/// out to the width of the terminal.
///
/// With color off the text is pinned down exactly. With color on, the
/// padding counts the escape bytes the colored words carry, so only the
/// empty case, colored after padding, is stated.
pub fn summary_line(snapshot_len: usize, s: Summary, color: bool, width: usize) -> (r: String)
    ensures
        snapshot_len == 0 ==> r@ == spec_paint(
            ("92")@,
            pad_right_spec(("No problems")@, width as nat),
            color,
        ),
        snapshot_len > 0 && !color ==> r@ == pad_right_spec(
            spec_problem_counts(s.errors as nat, s.warnings as nat, false),
            width as nat,
        ),
{
    if snapshot_len == 0 {
        proof {
            lemma_printable_no_problems();
        }
        let padded = pad_to_width("No problems", width, false);
        return paint("92", padded.as_str(), color);
    }
    let mut text = String::new();
    if s.errors > 0 {
        let n = dec_string(s.errors);
        text.append(n.as_str());
        text.append(" ");
        let word = paint("91", if s.errors == 1 { "error" } else { "errors" }, color);
        text.append(word.as_str());
    }
    if s.warnings > 0 {
        if s.errors > 0 {
            text.append(", ");
        }
        let n = dec_string(s.warnings);
        text.append(n.as_str());
        text.append(" ");
        let word = paint("93", if s.warnings == 1 { "warning" } else { "warnings" }, color);
        text.append(word.as_str());
    }
    proof {
        assert(text@ =~= spec_problem_counts(s.errors as nat, s.warnings as nat, color));
        if !color {
            lemma_printable_error_word();
            lemma_printable_errors_word();
            lemma_printable_warning_word();
            lemma_printable_warnings_word();
            lemma_printable_comma();
            lemma_printable_space();
            lemma_printable_dec(s.errors as nat);
            lemma_printable_dec(s.warnings as nat);
            if s.errors > 0 && s.warnings > 0 {
                lemma_printable_concat(dec_str(s.errors as nat), (" ")@);
                lemma_printable_concat(dec_str(s.errors as nat) + (" ")@, if s.errors == 1 { ("error")@ } else { ("errors")@ });
                lemma_printable_concat(dec_str(s.errors as nat) + (" ")@ + (if s.errors == 1 { ("error")@ } else { ("errors")@ }), (", ")@);
                lemma_printable_concat(dec_str(s.errors as nat) + (" ")@ + (if s.errors == 1 { ("error")@ } else { ("errors")@ }) + (", ")@, dec_str(s.warnings as nat));
                lemma_printable_concat(dec_str(s.errors as nat) + (" ")@ + (if s.errors == 1 { ("error")@ } else { ("errors")@ }) + (", ")@ + dec_str(s.warnings as nat), (" ")@);
                lemma_printable_concat(dec_str(s.errors as nat) + (" ")@ + (if s.errors == 1 { ("error")@ } else { ("errors")@ }) + (", ")@ + dec_str(s.warnings as nat) + (" ")@, if s.warnings == 1 { ("warning")@ } else { ("warnings")@ });
            } else if s.errors > 0 {
                lemma_printable_concat(dec_str(s.errors as nat), (" ")@);
                lemma_printable_concat(dec_str(s.errors as nat) + (" ")@, if s.errors == 1 { ("error")@ } else { ("errors")@ });
            } else if s.warnings > 0 {
                lemma_printable_concat(dec_str(s.warnings as nat), (" ")@);
                lemma_printable_concat(dec_str(s.warnings as nat) + (" ")@, if s.warnings == 1 { ("warning")@ } else { ("warnings")@ });
            }
            assert(printable_ascii(text@));
        }
    }
    pad_to_width(text.as_str(), width, false)
}

/// The one-line progress note shown while an artifact compiles: the
/// package name after `compiled`, laid out to the width of the terminal
/// and cut to it.
pub open spec fn spec_progress_line(package_id: Seq<char>, w: nat) -> Seq<char> {
    let s = ("compiled ")@ + package_id;
    if s.len() <= w {
        pad_right_spec(s, w)
    } else {
        s.take(w as int)
    }
}

/// The progress note for one compiled package, exact for printable-ASCII
/// package names.
pub fn progress_line(package_id: &str, width: usize) -> (r: String)
    ensures
        printable_ascii(package_id@) ==> r@ == spec_progress_line(package_id@, width as nat),
{
    let mut text = String::from_str("compiled ");
    text.append(package_id);
    let n = text.as_str().unicode_len();
    proof {
        if printable_ascii(package_id@) {
            lemma_printable_compiled();
            lemma_printable_concat(("compiled ")@, package_id@);
        }
    }
    if n <= width {
        pad_to_width(text.as_str(), width, false)
    } else if text.as_str().is_ascii() {
        let cut = text.as_str().substring_ascii(0, width);
        cut.to_owned()
    } else {
        proof {
            if printable_ascii(package_id@) {
                lemma_printable_compiled();
                lemma_printable_concat(("compiled ")@, package_id@);
                lemma_printable_is_ascii(text@);
                assert(false);
            }
        }
        text
    }
}

impl Entry {
    /// Same as [`Entry::report`] but uses a custom terminal width
    pub fn report_width(&self, terminal_width: usize) -> (r: Option<String>)
        requires
            terminal_width >= FIXED_COLUMNS_WIDTH + ELIPSES_COLUMN_WIDTH,
        ensures
            r is Some <==> spec_reportable(*self),
            r is Some && printable_ascii(spec_primary_span(self.message->0)->0.file_name@)
                && printable_ascii(self.message->0.message@) ==> r->0@ == spec_report_line(
                self.message->0,
                spec_primary_span(self.message->0)->0,
                self.color,
                terminal_width as nat,
            ),
    {
        match &self.message {
            Some(m) => {
                proof {
                    crate::traverse::lemma_primary_span_some(self.message->0);
                }
                m.report(self.color, terminal_width)
            },
            None => None,
        }
    }

    /// Get an error, warning, or info report from the `Entry`
    ///
    /// The line is laid out for the width of the attached terminal; a
    /// terminal too narrow for the fixed columns is treated as just wide
    /// enough for them.
    pub fn report(&self) -> (r: Option<String>)
        ensures
            r is Some <==> spec_reportable(*self),
            r is Some && printable_ascii(spec_primary_span(self.message->0)->0.file_name@)
                && printable_ascii(self.message->0.message@) ==> exists|w: nat|
                w >= FIXED_COLUMNS_WIDTH + ELIPSES_COLUMN_WIDTH && r->0@ == spec_report_line(
                    self.message->0,
                    spec_primary_span(self.message->0)->0,
                    self.color,
                    w,
                ),
    {
        let tw = terminal_width();
        let tw = if tw < FIXED_COLUMNS_WIDTH + ELIPSES_COLUMN_WIDTH {
            FIXED_COLUMNS_WIDTH + ELIPSES_COLUMN_WIDTH
        } else {
            tw
        };
        let r = self.report_width(tw);
        proof {
            if r is Some && printable_ascii(spec_primary_span(self.message->0)->0.file_name@)
                && printable_ascii(self.message->0.message@) {
                assert(tw as nat >= FIXED_COLUMNS_WIDTH + ELIPSES_COLUMN_WIDTH && r->0@
                    == spec_report_line(
                    self.message->0,
                    spec_primary_span(self.message->0)->0,
                    self.color,
                    tw as nat,
                ));
            }
        }
        r
    }
}

impl Level {
    /// The level's report column: its name right-aligned to the level
    /// column width, in the level's color.
    pub fn format(self, color: bool) -> (r: String)
        ensures
            r@ == spec_level_text(self, color),
    {
        match self {
            Level::Empty => String::new(),
            Level::Note => paint("96", "   note", color),
            Level::Help => paint("92", "   help", color),
            Level::Warning => paint("93", "warning", color),
            Level::Error => paint("91", "  error", color),
        }
    }
}

} // verus!
