use vstd::prelude::*;

verus! {

/// The byte that terminates one record in the checker's output stream.
pub const NEWLINE: u8 = 10;

/// Index of the first newline in `s`, or `s.len()` if there is none.
pub open spec fn first_newline(s: Seq<u8>) -> nat
    decreases s.len(),
{
    if s.len() == 0 {
        0
    } else if s[0] == NEWLINE {
        0
    } else {
        1 + first_newline(s.drop_first())
    }
}

/// `first_newline` points at the first newline of `s`, or past the end when
/// `s` holds none.
pub proof fn lemma_first_newline(s: Seq<u8>)
    ensures
        first_newline(s) <= s.len(),
        first_newline(s) < s.len() ==> s[first_newline(s) as int] == NEWLINE,
        forall|j: int| 0 <= j < first_newline(s) ==> s[j] != NEWLINE,
        s.contains(NEWLINE) ==> first_newline(s) < s.len(),
    decreases s.len(),
{
    if s.len() == 0 {
    } else if s[0] == NEWLINE {
    } else {
        lemma_first_newline(s.drop_first());
        assert forall|j: int| 0 <= j < first_newline(s) implies s[j] != NEWLINE by {
            if j > 0 {
                assert(s.drop_first()[j - 1] == s[j]);
            }
        }
        if s.contains(NEWLINE) {
            let k = choose|k: int| 0 <= k < s.len() && s[k] == NEWLINE;
            assert(s.drop_first()[k - 1] == s[k]);
            assert(s.drop_first().contains(NEWLINE));
        }
    }
}

/// The complete newline-terminated records at the front of `s`, in order.
/// Trailing bytes with no terminator are not part of any record.
pub open spec fn records_of(s: Seq<u8>) -> Seq<Seq<u8>>
    decreases s.len(),
{
    let i = first_newline(s) as int;
    if i >= s.len() {
        Seq::empty()
    } else {
        seq![s.take(i)] + records_of(s.skip(i + 1))
    }
}

/// A stream with no newline holds no complete record.
pub proof fn lemma_records_of_fragment(s: Seq<u8>)
    requires
        !s.contains(NEWLINE),
    ensures
        records_of(s) == Seq::<Seq<u8>>::empty(),
{
    lemma_first_newline(s);
    if first_newline(s) < s.len() {
        assert(s.contains(NEWLINE));
    }
}

/// Taking one terminated record off the front of a stream takes the first
/// element off its record sequence.
pub proof fn lemma_records_of_prepend(rec: Seq<u8>, rest: Seq<u8>)
    requires
        !rec.contains(NEWLINE),
    ensures
        records_of(rec + seq![NEWLINE] + rest) == seq![rec] + records_of(rest),
{
    let s = rec + seq![NEWLINE] + rest;
    lemma_first_newline(s);
    if first_newline(s) < rec.len() {
        assert(rec.contains(NEWLINE)) by {
            assert(rec[first_newline(s) as int] == s[first_newline(s) as int]);
        }
    }
    assert(s[rec.len() as int] == NEWLINE);
    assert(first_newline(s) == rec.len());
    assert(s.take(rec.len() as int) =~= rec);
    assert(s.skip(rec.len() as int + 1) =~= rest);
    assert(records_of(s) =~= seq![rec] + records_of(rest));
}

/// Incremental decoder for the newline-delimited record stream.
///
/// Bytes read from the checker's output pipe are pushed in chunks of
/// arbitrary size; each complete newline-terminated record is handed back
/// exactly once, in stream order. Bytes after the last terminator stay
/// buffered and are never emitted as a record: dropping the decoder at
/// end-of-stream silently discards them.
pub struct StreamDecoder {
    buffer: Vec<u8>,
}

impl StreamDecoder {
    /// The bytes received and not yet emitted as records.
    pub closed spec fn buffered(&self) -> Seq<u8> {
        self.buffer@
    }

    /// A fresh decoder with an empty buffer.
    pub fn new() -> (d: StreamDecoder)
        ensures
            d.buffered() == Seq::<u8>::empty(),
    {
        StreamDecoder { buffer: Vec::new() }
    }

    /// Append one chunk read from the stream.
    pub fn push_chunk(&mut self, chunk: &[u8])
        ensures
            final(self).buffered() == old(self).buffered() + chunk@,
    {
        self.buffer.extend_from_slice(chunk);
    }

    /// True while no complete record is buffered, so another read is needed
    /// before `next_record` can yield anything.
    pub fn wants_input(&self) -> (r: bool)
        ensures
            r == !self.buffered().contains(NEWLINE),
    {
        let i = self.find_newline();
        i.is_none()
    }

    /// Index of the first newline in the buffer, if any.
    fn find_newline(&self) -> (r: Option<usize>)
        ensures
            match r {
                Some(i) => i < self.buffered().len() && self.buffered()[i as int] == NEWLINE
                    && forall|j: int| 0 <= j < i ==> self.buffered()[j] != NEWLINE,
                None => !self.buffered().contains(NEWLINE),
            },
    {
        let n = self.buffer.len();
        let mut j: usize = 0;
        while j < n
            invariant
                n == self.buffered().len(),
                j <= n,
                forall|k: int| 0 <= k < j ==> self.buffered()[k] != NEWLINE,
            decreases n - j,
        {
            if self.buffer[j] == NEWLINE {
                return Some(j);
            }
            j = j + 1;
        }
        None
    }

    /// Take the first complete record off the buffer, without its
    /// terminator. `None` means no terminator is buffered yet.
    pub fn next_record(&mut self) -> (r: Option<Vec<u8>>)
        ensures
            match r {
                Some(rec) => !rec@.contains(NEWLINE) && old(self).buffered() == rec@ + seq![
                    NEWLINE,
                ] + final(self).buffered() && records_of(old(self).buffered()) == seq![rec@]
                    + records_of(final(self).buffered()),
                None => *final(self) == *old(self) && !old(self).buffered().contains(NEWLINE),
            },
    {
        let n = self.buffer.len();
        match self.find_newline() {
            None => None,
            Some(i) => {
                assert(i < n);
                let ghost pre = self.buffer@;
                let mut rest = self.buffer.split_off(i + 1);
                self.buffer.truncate(i);
                core::mem::swap(&mut self.buffer, &mut rest);
                let rec = rest;
                proof {
                    assert(rec@ =~= pre.take(i as int));
                    assert(!rec@.contains(NEWLINE)) by {
                        if rec@.contains(NEWLINE) {
                            let k = choose|k: int| 0 <= k < rec@.len() && rec@[k] == NEWLINE;
                            assert(pre[k] == NEWLINE);
                        }
                    }
                    assert(pre =~= rec@ + seq![NEWLINE] + self.buffer@);
                    lemma_records_of_prepend(rec@, self.buffer@);
                }
                Some(rec)
            },
        }
    }
}

/// Split a fully buffered stream into its complete records.
///
/// The result holds exactly the newline-terminated records of `stream`, in
/// order; an unterminated trailing fragment contributes nothing.
pub fn decode_all(stream: &[u8]) -> (r: Vec<Vec<u8>>)
    ensures
        r.deep_view() == records_of(stream@),
{
    let mut d = StreamDecoder::new();
    d.push_chunk(stream);
    proof {
        assert(d.buffered() =~= stream@);
    }
    let mut out: Vec<Vec<u8>> = Vec::new();
    loop
        invariant
            records_of(stream@) == out.deep_view() + records_of(d.buffered()),
        decreases d.buffered().len(),
    {
        let ghost pre_out = out.deep_view();
        match d.next_record() {
            Some(rec) => {
                let ghost recv = rec@;
                out.push(rec);
                proof {
                    assert(out.deep_view() =~~= pre_out + seq![recv]);
                    assert(out.deep_view() + records_of(d.buffered()) =~~= records_of(stream@));
                }
            },
            None => {
                proof {
                    lemma_records_of_fragment(d.buffered());
                    assert(out.deep_view() =~~= records_of(stream@));
                }
                return out;
            },
        }
    }
}

/// A stream laid out as complete newline-terminated records followed by an
/// unterminated fragment.
pub open spec fn stream_of(records: Seq<Seq<u8>>, fragment: Seq<u8>) -> Seq<u8>
    decreases records.len(),
{
    if records.len() == 0 {
        fragment
    } else {
        records[0] + seq![NEWLINE] + stream_of(records.drop_first(), fragment)
    }
}

/// A stream of `N` well-formed newline-terminated records plus an optional
/// unterminated trailing fragment decodes to exactly those `N` records, in
/// order; the fragment is discarded.
pub proof fn lemma_decode_stream(records: Seq<Seq<u8>>, fragment: Seq<u8>)
    requires
        forall|i: int| 0 <= i < records.len() ==> !(#[trigger] records[i]).contains(NEWLINE),
        !fragment.contains(NEWLINE),
    ensures
        records_of(stream_of(records, fragment)) == records,
    decreases records.len(),
{
    if records.len() == 0 {
        lemma_records_of_fragment(fragment);
        assert(records_of(stream_of(records, fragment)) =~= records);
    } else {
        lemma_decode_stream(records.drop_first(), fragment);
        lemma_records_of_prepend(records[0], stream_of(records.drop_first(), fragment));
        assert(records_of(stream_of(records, fragment)) =~= records);
    }
}

} // verus!
