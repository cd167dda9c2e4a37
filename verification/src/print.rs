use vstd::prelude::*;
use vstd::string::{StrSliceExecFns, StringExecFns};

use crate::model::{Entry, Level, Message};
use crate::report::{dec_str, dec_string, pad_left_spec, printable_ascii, spaces, spec_report_headers,
    spec_report_line, terminal_width, ELIPSES_COLUMN_WIDTH, FIXED_COLUMNS_WIDTH};
use crate::traverse::{spec_primary_span, spec_unroll, unroll_pairs};

verus! {

/// The width a report may take beside a three-character index column and
/// one separating space.
pub const INDEX_COLUMN_WIDTH: usize = 4;

/// The text of the CLI prompt: a blank line as wide as the terminal, a
/// carriage return, then an arrow.
pub open spec fn spec_prompt_text(width: nat) -> Seq<char> {
    spaces(width) + ("\r> ")@
}

/// The text of the CLI prompt for a terminal of this width.
pub fn prompt_text(width: usize) -> (r: String)
    ensures
        r@ == spec_prompt_text(width as nat),
{
    let mut s = crate::report::pad_to_width("", width, false);
    proof {
        reveal_strlit("");
        assert(printable_ascii(("")@));
        if width > 0 {
            assert((("")@ + spaces(width as nat)) =~= spaces(width as nat));
        } else {
            assert(s@ =~= spaces(width as nat));
        }
    }
    s.append("\r> ");
    s
}

/// Whether a message yields a report line: a reportable level and a span.
pub open spec fn reportable_msg_pred() -> spec_fn((int, Message)) -> bool {
    |p: (int, Message)| p.1.level != Level::Empty && spec_primary_span(p.1) is Some
}

/// One numbered report line: the index right-aligned to three characters,
/// a space, then the message's report.
pub open spec fn spec_message_line(index: nat, color: bool, m: Message, w: nat) -> Seq<char> {
    pad_left_spec(dec_str(index), 3) + (" ")@ + spec_report_line(
        m,
        spec_primary_span(m)->0,
        color,
        w,
    )
}

/// Format a `Message` under an assigned index, in a report of the given
/// width: the index right-aligned to three characters, a space, then the
/// message's compact report. Nothing comes back for a message without a
/// reportable level or a span.
pub fn message_width(index: usize, color: bool, message: &Message, width: usize) -> (r: Option<
    String,
>)
    requires
        width >= FIXED_COLUMNS_WIDTH + ELIPSES_COLUMN_WIDTH,
    ensures
        r is Some <==> (message.level != Level::Empty && spec_primary_span(*message) is Some),
        r is Some && printable_ascii(spec_primary_span(*message)->0.file_name@) && printable_ascii(
            message.message@,
        ) ==> r->0@ == spec_message_line(index as nat, color, *message, width as nat),
{
    match message.report(color, width) {
        Some(rep) => {
            let idx = dec_string(index);
            let mut line = crate::report::pad_to_width(idx.as_str(), 3, true);
            proof {
                crate::report::lemma_printable_dec(index as nat);
            }
            line.append(" ");
            line.append(rep.as_str());
            Some(line)
        },
        None => None,
    }
}

/// Format a `Message` with an assigned index, for the attached terminal,
/// leaving room for the index column; a terminal too narrow for the fixed
/// columns is treated as just wide enough for them.
pub fn message(index: usize, color: bool, msg: &Message) -> (r: Option<String>)
    ensures
        r is Some <==> (msg.level != Level::Empty && spec_primary_span(*msg) is Some),
{
    let tw = terminal_width();
    let floor = FIXED_COLUMNS_WIDTH + ELIPSES_COLUMN_WIDTH + INDEX_COLUMN_WIDTH;
    let tw = if tw < floor {
        floor
    } else {
        tw
    };
    message_width(index, color, msg, tw - INDEX_COLUMN_WIDTH)
}

/// Format an `Entry` with an assigned index, in a report of the given
/// width: one numbered line for the entry's message and for each nested
/// child, depth-first, keeping only the ones worth a report.
pub fn entry_width(index: usize, e: &Entry, width: usize) -> (r: Vec<String>)
    requires
        width >= FIXED_COLUMNS_WIDTH + ELIPSES_COLUMN_WIDTH,
    ensures
        e.message is None ==> r@.len() == 0,
        e.message is Some ==> {
            let lines = spec_unroll(e.message->0, 0).filter(reportable_msg_pred());
            &&& r@.len() == lines.len()
            &&& forall|k: int|
                0 <= k < lines.len() ==> (printable_ascii(
                    spec_primary_span(#[trigger] lines[k].1)->0.file_name@,
                ) && printable_ascii(lines[k].1.message@) ==> r@[k]@ == spec_message_line(
                    index as nat,
                    e.color,
                    lines[k].1,
                    width as nat,
                ))
        },
    {
        let mut out: Vec<String> = Vec::new();
        let m = match &e.message {
            Some(m) => m,
            None => {
                return out;
            },
        };
        let pairs = m.unroll();
        let ghost all = spec_unroll(e.message->0, 0);
        let ghost pred = reportable_msg_pred();
        let n = pairs.len();
        proof {
            assert(all.take(0) =~= Seq::<(int, Message)>::empty());
            assert(all.take(0).filter(pred) =~= Seq::<(int, Message)>::empty());
        }
        let mut i: usize = 0;
        while i < n
            invariant
                width >= FIXED_COLUMNS_WIDTH + ELIPSES_COLUMN_WIDTH,
                pred == reportable_msg_pred(),
                all == spec_unroll(e.message->0, 0),
                unroll_pairs(pairs@) == all,
                n == pairs@.len(),
                i <= n,
                out@.len() == all.take(i as int).filter(pred).len(),
                forall|k: int|
                    0 <= k < out@.len() ==> (printable_ascii(
                        spec_primary_span(#[trigger] all.take(i as int).filter(pred)[k].1)->0.file_name@,
                    ) && printable_ascii(all.take(i as int).filter(pred)[k].1.message@) ==> out@[k]@
                        == spec_message_line(
                        index as nat,
                        e.color,
                        all.take(i as int).filter(pred)[k].1,
                        width as nat,
                    )),
            decreases n - i,
        {
            proof {
                assert(all[i as int] == (pairs@[i as int].0 as int, *pairs@[i as int].1));
                assert(all.take(i as int + 1) =~= all.take(i as int).push(all[i as int]));
                all.take(i as int).lemma_filter_push(all[i as int], pred);
            }
            let line = message_width(index, e.color, pairs[i].1, width);
            match line {
                Some(l) => {
                    out.push(l);
                },
                None => {
                },
            }
            i = i + 1;
        }
        proof {
            assert(all.take(n as int) =~= all);
        }
        out
    }

/// Format an `Entry` with an assigned index for the attached terminal,
/// leaving room for the index column.
pub fn entry(index: usize, e: &Entry) -> (r: Vec<String>)
    ensures
        e.message is None ==> r@.len() == 0,
        e.message is Some ==> r@.len() == spec_unroll(e.message->0, 0).filter(
            reportable_msg_pred(),
        ).len(),
{
    let tw = terminal_width();
    let floor = FIXED_COLUMNS_WIDTH + ELIPSES_COLUMN_WIDTH + INDEX_COLUMN_WIDTH;
    let tw = if tw < floor {
        floor
    } else {
        tw
    };
    entry_width(index, e, tw - INDEX_COLUMN_WIDTH)
}

/// The `Entry` column headers, indented past the index column.
pub fn headers(color: bool) -> (r: String)
    ensures
        r@ == ("    ")@ + spec_report_headers(color),
{
    let mut s = String::from_str("    ");
    let h = Message::report_headers(color);
    s.append(h.as_str());
    s
}

/// The number of report lines an entry contributes to a listing.
pub open spec fn spec_entry_line_count(e: Entry) -> nat {
    if e.message is Some {
        spec_unroll(e.message->0, 0).filter(reportable_msg_pred()).len()
    } else {
        0
    }
}

/// The number of report lines a listing of these entries holds.
pub open spec fn spec_lines_total(es: Seq<Entry>) -> nat
    decreases es.len(),
{
    if es.len() == 0 {
        0
    } else {
        spec_entry_line_count(es[0]) + spec_lines_total(es.drop_first())
    }
}

/// Format a compact listing of entries: the column headers first, then
/// each entry's numbered report lines, the entries indexed in order.
pub fn entries(color: bool, list: &Vec<Entry>) -> (r: Vec<String>)
    ensures
        r@.len() == 1 + spec_lines_total(list@),
        r@[0]@ == ("    ")@ + spec_report_headers(color),
{
    let mut out: Vec<String> = Vec::new();
    out.push(headers(color));
    let n = list.len();
    let mut i: usize = 0;
    proof {
        assert(list@.skip(0) =~= list@);
    }
    while i < n
        invariant
            n == list@.len(),
            i <= n,
            out@.len() == 1 + spec_lines_total(list@) - spec_lines_total(list@.skip(i as int)),
            spec_lines_total(list@.skip(i as int)) <= spec_lines_total(list@),
            out@.len() >= 1,
            out@[0]@ == ("    ")@ + spec_report_headers(color),
        decreases n - i,
    {
        let ghost rest = list@.skip(i as int);
        proof {
            assert(rest[0] == list@[i as int]);
            assert(rest.drop_first() =~= list@.skip(i as int + 1));
            lemma_lines_total_skip(list@, i as int);
        }
        let mut lines = entry(i, &list[i]);
        out.append(&mut lines);
        i = i + 1;
    }
    proof {
        assert(list@.skip(n as int) =~= Seq::<Entry>::empty());
    }
    out
}

/// Cutting the first entry off a listing takes its lines off the total.
proof fn lemma_lines_total_skip(es: Seq<Entry>, i: int)
    requires
        0 <= i < es.len(),
    ensures
        spec_lines_total(es.skip(i)) == spec_entry_line_count(es[i]) + spec_lines_total(
            es.skip(i + 1),
        ),
{
    assert(es.skip(i)[0] == es[i]);
    assert(es.skip(i).drop_first() =~= es.skip(i + 1));
}

} // verus!
