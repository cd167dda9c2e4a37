use vstd::prelude::*;
use vstd::slice::slice_subrange;

verus! {

/// One line of user input, interpreted.
#[derive(Debug, Clone, Copy, PartialEq, Eq, Structural)]
pub enum Command {
    /// Print the command help.
    Help,
    /// Stop watching.
    Quit,
    /// Apply the suggested fix of the message at this snapshot index.
    Fix(usize),
    /// A `fix` command with no index after it.
    FixMissingIndex,
    /// A `fix` command whose index is not a number that fits.
    FixBadIndex,
    /// Expand the message at this snapshot index.
    Show(usize),
    /// Anything else.
    Unknown,
}

/// Whether a byte is ASCII whitespace, as `str::trim` treats it.
pub open spec fn ws(b: u8) -> bool {
    b == 32 || (9 <= b && b <= 13)
}

/// Whether a byte is an ASCII decimal digit.
pub open spec fn is_digit(b: u8) -> bool {
    48 <= b && b <= 57
}

/// The input with its leading whitespace removed.
pub open spec fn trim_left(s: Seq<u8>) -> Seq<u8>
    decreases s.len(),
{
    if s.len() > 0 && ws(s[0]) {
        trim_left(s.drop_first())
    } else {
        s
    }
}

/// The input with its trailing whitespace removed.
pub open spec fn trim_right(s: Seq<u8>) -> Seq<u8>
    decreases s.len(),
{
    if s.len() > 0 && ws(s.last()) {
        trim_right(s.drop_last())
    } else {
        s
    }
}

/// The input with whitespace removed from both ends.
pub open spec fn trimmed(s: Seq<u8>) -> Seq<u8> {
    trim_right(trim_left(s))
}

/// Index of the first whitespace byte, or the length if there is none.
pub open spec fn first_ws(s: Seq<u8>) -> nat
    decreases s.len(),
{
    if s.len() == 0 {
        0
    } else if ws(s[0]) {
        0
    } else {
        1 + first_ws(s.drop_first())
    }
}

/// The first whitespace-separated token of the input, empty when the input
/// holds nothing but whitespace.
pub open spec fn first_token(s: Seq<u8>) -> Seq<u8> {
    trim_left(s).take(first_ws(trim_left(s)) as int)
}

/// Whether the input is one or more decimal digits.
pub open spec fn is_number(s: Seq<u8>) -> bool {
    s.len() > 0 && forall|j: int| 0 <= j < s.len() ==> is_digit(#[trigger] s[j])
}

/// The value of a string of decimal digits.
pub open spec fn digits_val(s: Seq<u8>) -> nat
    decreases s.len(),
{
    if s.len() == 0 {
        0
    } else {
        digits_val(s.drop_last()) * 10 + ((s.last() - 48) as nat)
    }
}

/// The keyword that prints the help.
pub open spec fn help_kw() -> Seq<u8> {
    seq![104u8, 101u8, 108u8, 112u8]  // "help"
}

/// The prefix of a fix command: `fix` and one space.
pub open spec fn fix_kw() -> Seq<u8> {
    seq![102u8, 105u8, 120u8, 32u8]  // "fix "
}

/// The keywords that stop the watch loop.
pub open spec fn is_exit_word(s: Seq<u8>) -> bool {
    s == seq![113u8]  // "q"
    || s == seq![113u8, 117u8, 105u8, 116u8]  // "quit"
    || s == seq![101u8, 120u8, 105u8, 116u8]  // "exit"
}

/// How one line of input is interpreted.
///
/// The line is trimmed; `help` asks for help, a line opening with `fix ` asks
/// to apply the fix at the index given by its second token, an exit keyword
/// stops the loop, a bare number expands the message at that index, and
/// everything else is unknown.
pub open spec fn spec_parse_command(line: Seq<u8>) -> Command {
    let t = trimmed(line);
    if t == help_kw() {
        Command::Help
    } else if t.len() >= 4 && t.take(4) == fix_kw() {
        let tok = first_token(t.skip(4));
        if tok.len() == 0 {
            Command::FixMissingIndex
        } else if is_number(tok) && digits_val(tok) <= usize::MAX {
            Command::Fix(digits_val(tok) as usize)
        } else {
            Command::FixBadIndex
        }
    } else if is_exit_word(t) {
        Command::Quit
    } else if is_number(t) && digits_val(t) <= usize::MAX {
        Command::Show(digits_val(t) as usize)
    } else {
        Command::Unknown
    }
}

proof fn lemma_trim_left_skip(s: Seq<u8>, i: int)
    requires
        0 <= i <= s.len(),
        forall|j: int| 0 <= j < i ==> ws(#[trigger] s[j]),
    ensures
        trim_left(s) == trim_left(s.skip(i)),
    decreases i,
{
    if i > 0 {
        assert(s.drop_first().skip(i - 1) =~= s.skip(i));
        lemma_trim_left_skip(s.drop_first(), i - 1);
    } else {
        assert(s.skip(0) =~= s);
    }
}

proof fn lemma_trim_left_fixed(s: Seq<u8>)
    requires
        s.len() == 0 || !ws(s[0]),
    ensures
        trim_left(s) == s,
{
}

proof fn lemma_trim_right_take(s: Seq<u8>, k: int)
    requires
        0 <= k <= s.len(),
        forall|j: int| k <= j < s.len() ==> ws(#[trigger] s[j]),
    ensures
        trim_right(s) == trim_right(s.take(k)),
    decreases s.len(),
{
    if k < s.len() {
        assert(ws(s.last()));
        assert(s.drop_last().take(k) =~= s.take(k));
        lemma_trim_right_take(s.drop_last(), k);
    } else {
        assert(s.take(k) =~= s);
    }
}

proof fn lemma_trim_right_fixed(s: Seq<u8>)
    requires
        s.len() == 0 || !ws(s.last()),
    ensures
        trim_right(s) == s,
{
}

proof fn lemma_first_ws_at(s: Seq<u8>, i: int)
    requires
        0 <= i <= s.len(),
        forall|j: int| 0 <= j < i ==> !ws(#[trigger] s[j]),
        i < s.len() ==> ws(s[i]),
    ensures
        first_ws(s) == i,
    decreases i,
{
    if i > 0 {
        lemma_first_ws_at(s.drop_first(), i - 1);
    }
}

proof fn lemma_digits_val_grows(s: Seq<u8>, i: int)
    requires
        0 <= i <= s.len(),
    ensures
        digits_val(s.take(i)) <= digits_val(s),
    decreases s.len() - i,
{
    if i < s.len() {
        lemma_digits_val_grows(s, i + 1);
        assert(s.take(i + 1).drop_last() =~= s.take(i));
        assert(digits_val(s.take(i + 1)) == digits_val(s.take(i)) * 10 + ((s.take(i + 1).last()
            - 48) as nat));
    } else {
        assert(s.take(i) =~= s);
    }
}

/// Parse a string of decimal digits as a `usize`.
///
/// Nothing comes back when the input is not all digits, is empty, or names a
/// value too large for `usize`.
pub fn parse_usize(s: &[u8]) -> (r: Option<usize>)
    ensures
        match r {
            Some(v) => is_number(s@) && digits_val(s@) == v,
            None => !(is_number(s@) && digits_val(s@) <= usize::MAX),
        },
{
    let n = s.len();
    if n == 0 {
        return None;
    }
    let mut acc: usize = 0;
    let mut i: usize = 0;
    while i < n
        invariant
            n == s@.len(),
            0 < n,
            i <= n,
            forall|j: int| 0 <= j < i ==> is_digit(#[trigger] s@[j]),
            acc == digits_val(s@.take(i as int)),
        decreases n - i,
    {
        let b = *vstd::slice::slice_index_get(s, i);
        if b < 48 || b > 57 {
            assert(!is_number(s@));
            return None;
        }
        let d = b - 48;
        let ghost pre = s@.take(i as int);
        proof {
            assert(s@.take(i as int + 1).drop_last() =~= pre);
            assert(digits_val(s@.take(i as int + 1)) == digits_val(pre) * 10 + d);
        }
        let next = match acc.checked_mul(10) {
            Some(x) => x.checked_add(d as usize),
            None => None,
        };
        match next {
            Some(v) => {
                acc = v;
            },
            None => {
                proof {
                    assert(digits_val(s@.take(i as int + 1)) > usize::MAX);
                    lemma_digits_val_grows(s@, i as int + 1);
                }
                return None;
            },
        }
        i = i + 1;
    }
    proof {
        assert(s@.take(n as int) =~= s@);
    }
    Some(acc)
}

/// Whether byte `i` of the slice is ASCII whitespace.
fn ws_at(s: &[u8], i: usize) -> (r: bool)
    requires
        i < s@.len(),
    ensures
        r == ws(s@[i as int]),
{
    let b = *vstd::slice::slice_index_get(s, i);
    b == 32 || (9 <= b && b <= 13)
}

/// Find the absolute bounds of the trimmed line.
fn trim_bounds(line: &[u8]) -> (r: (usize, usize))
    ensures
        r.0 <= r.1 <= line@.len(),
        trimmed(line@) == line@.subrange(r.0 as int, r.1 as int),
{
    let n = line.len();
    let mut start: usize = 0;
    while start < n && ws_at(line, start)
        invariant
            n == line@.len(),
            start <= n,
            forall|j: int| 0 <= j < start ==> ws(#[trigger] line@[j]),
        decreases n - start,
    {
        start = start + 1;
    }
    let mut end: usize = n;
    while end > start && ws_at(line, end - 1)
        invariant
            n == line@.len(),
            start <= end <= n,
            forall|j: int| 0 <= j < start ==> ws(#[trigger] line@[j]),
            start < end ==> !ws(line@[start as int]),
            forall|j: int| end <= j < n ==> ws(#[trigger] line@[j]),
        decreases end,
    {
        end = end - 1;
    }
    proof {
        let s = line@;
        lemma_trim_left_skip(s, start as int);
        let u = s.skip(start as int);
        lemma_trim_left_fixed(u);
        lemma_trim_right_take(u, end - start);
        let v = u.take(end - start);
        assert(v =~= s.subrange(start as int, end as int));
        if end > start {
            assert(v.last() == s[end - 1]);
        }
        lemma_trim_right_fixed(v);
    }
    (start, end)
}

/// Compare a token against a one-byte keyword.
fn eq1(t: &[u8], a: u8) -> (r: bool)
    ensures
        r == (t@ == seq![a]),
{
    if t.len() == 1 {
        let r = *vstd::slice::slice_index_get(t, 0) == a;
        proof {
            if r {
                assert(t@ =~= seq![a]);
            }
        }
        r
    } else {
        false
    }
}

/// Compare a token against a four-byte keyword.
fn eq4(t: &[u8], a: u8, b: u8, c: u8, d: u8) -> (r: bool)
    ensures
        r == (t@ == seq![a, b, c, d]),
{
    if t.len() == 4 {
        let r = *vstd::slice::slice_index_get(t, 0) == a && *vstd::slice::slice_index_get(t, 1)
            == b && *vstd::slice::slice_index_get(t, 2) == c && *vstd::slice::slice_index_get(t, 3)
            == d;
        proof {
            if r {
                assert(t@ =~= seq![a, b, c, d]);
            }
        }
        r
    } else {
        false
    }
}

/// Interpret one line of user input.
pub fn parse_command(line: &[u8]) -> (c: Command)
    ensures
        c == spec_parse_command(line@),
{
    let (start, end) = trim_bounds(line);
    let t = slice_subrange(line, start, end);
    let tn = t.len();
    // "help"
    if eq4(t, 104, 101, 108, 112) {
        proof {
            assert(trimmed(line@) =~= help_kw());
        }
        return Command::Help;
    }
    // the "fix " prefix
    if tn >= 4 && eq4(slice_subrange(t, 0, 4), 102, 105, 120, 32) {
        proof {
            assert(trimmed(line@).take(4) =~= fix_kw());
            assert(trimmed(line@) != help_kw());
        }
        // The index is the first token after the `fix ` prefix.
        let rest = slice_subrange(t, 4, tn);
        let rn = rest.len();
        let mut p: usize = 0;
        while p < rn && ws_at(rest, p)
            invariant
                rn == rest@.len(),
                p <= rn,
                forall|j: int| 0 <= j < p ==> ws(#[trigger] rest@[j]),
            decreases rn - p,
        {
            p = p + 1;
        }
        let mut q: usize = p;
        while q < rn && !ws_at(rest, q)
            invariant
                rn == rest@.len(),
                p <= q <= rn,
                forall|j: int| p <= j < q ==> !ws(#[trigger] rest@[j]),
            decreases rn - q,
        {
            q = q + 1;
        }
        proof {
            lemma_trim_left_skip(rest@, p as int);
            let u = rest@.skip(p as int);
            lemma_trim_left_fixed(u);
            lemma_first_ws_at(u, q - p);
            assert(first_token(rest@) =~= rest@.subrange(p as int, q as int));
        }
        let tok = slice_subrange(rest, p, q);
        if tok.len() == 0 {
            return Command::FixMissingIndex;
        }
        return match parse_usize(tok) {
            Some(v) => Command::Fix(v),
            None => Command::FixBadIndex,
        };
    }
    // "q", "quit" and "exit"
    if eq1(t, 113) || eq4(t, 113, 117, 105, 116) || eq4(t, 101, 120, 105, 116) {
        proof {
            assert(trimmed(line@) != help_kw());
            if trimmed(line@).len() >= 4 {
                assert(trimmed(line@).take(4)[3] != fix_kw()[3]);
            }
        }
        return Command::Quit;
    }
    let c = match parse_usize(t) {
        Some(v) => Command::Show(v),
        None => Command::Unknown,
    };
    proof {
        let tt = trimmed(line@);
        assert(tt != help_kw());
        assert(!is_exit_word(tt));
        if tt.len() >= 4 && tt.take(4) == fix_kw() {
            assert(tt[3] == 32u8);
            assert(!is_digit(tt[3]));
            assert(!is_number(tt));
        }
    }
    c
}

/// The static text that the help command, and any unknown command, print.
pub fn help_text() -> (r: &'static str)
    ensures
        r@ == ("\nCommands:\n    <index>      expand the message at the index\n    fix <index>  apply the compiler-suggested fix, if there is one\n    quit         quit watching\n    help         display this message\n")@,
{
    "\nCommands:\n    <index>      expand the message at the index\n    fix <index>  apply the compiler-suggested fix, if there is one\n    quit         quit watching\n    help         display this message\n"
}

/// Whether this line of input asks to stop the watch loop.
pub fn command_exits(line: &[u8]) -> (r: bool)
    ensures
        r == (spec_parse_command(line@) == Command::Quit),
{
    let c = parse_command(line);
    c == Command::Quit
}

/// Whether this line holds nothing but whitespace.
pub fn is_blank(line: &[u8]) -> (r: bool)
    ensures
        r == (trimmed(line@).len() == 0),
{
    let (start, end) = trim_bounds(line);
    end == start
}

} // verus!
