use vstd::prelude::*;

use crate::model::{Message, Span};

verus! {

broadcast use vstd::std_specs::vec::group_vec_axioms;

/// The spans attached to a message; empty when none were decoded.
pub open spec fn spans_of(m: Message) -> Seq<Span> {
    match m.spans {
        Some(v) => v@,
        None => Seq::empty(),
    }
}

/// The children of a message; empty when none were decoded.
pub open spec fn children_of(m: Message) -> Seq<Message> {
    match m.children {
        Some(v) => v@,
        None => Seq::empty(),
    }
}

/// Whether a span carries a compiler-suggested replacement.
pub open spec fn has_replacement(s: Span) -> bool {
    s.suggested_replacement is Some
}

/// The first span of the list flagged `is_primary`, if any.
pub open spec fn first_primary(sp: Seq<Span>) -> Option<Span>
    decreases sp.len(),
{
    if sp.len() == 0 {
        None
    } else if sp[0].is_primary {
        Some(sp[0])
    } else {
        first_primary(sp.drop_first())
    }
}

/// The span a report points at: the first span flagged `is_primary`, with a
/// fall-back to the last span of the list when none carries the flag.
pub open spec fn spec_primary_span(m: Message) -> Option<Span> {
    match first_primary(spans_of(m)) {
        Some(s) => Some(s),
        None => if spans_of(m).len() > 0 {
            Some(spans_of(m).last())
        } else {
            None
        },
    }
}

/// The first span of the list that carries a suggested replacement, if any.
pub open spec fn first_replacement(sp: Seq<Span>) -> Option<Span>
    decreases sp.len(),
{
    if sp.len() == 0 {
        None
    } else if has_replacement(sp[0]) {
        Some(sp[0])
    } else {
        first_replacement(sp.drop_first())
    }
}

/// The first span carrying a suggested replacement in a depth-first search
/// of the message and its children.
pub open spec fn spec_replacement_span(m: Message) -> Option<Span>
    decreases m,
{
    match first_replacement(spans_of(m)) {
        Some(s) => Some(s),
        None => match m.children {
            Some(cs) => spec_replacement_span_in(cs@),
            None => None,
        },
    }
}

/// The first replacement span found over a list of messages, in order.
pub open spec fn spec_replacement_span_in(cs: Seq<Message>) -> Option<Span>
    decreases cs,
{
    if cs.len() == 0 {
        None
    } else {
        match spec_replacement_span(cs[0]) {
            Some(s) => Some(s),
            None => spec_replacement_span_in(cs.drop_first()),
        }
    }
}

/// The display traversal of a message: the message itself, then every
/// nested child depth-first, in order, each paired with its nesting depth.
pub open spec fn spec_unroll(m: Message, depth: int) -> Seq<(int, Message)>
    decreases m,
{
    seq![(depth, m)] + (match m.children {
        Some(cs) => spec_unroll_in(cs@, depth + 1),
        None => Seq::empty(),
    })
}

/// The display traversals of a list of messages, concatenated in order.
pub open spec fn spec_unroll_in(cs: Seq<Message>, depth: int) -> Seq<(int, Message)>
    decreases cs,
{
    if cs.len() == 0 {
        Seq::empty()
    } else {
        spec_unroll(cs[0], depth) + spec_unroll_in(cs.drop_first(), depth)
    }
}

/// The mathematical pairs described by an unrolled vector.
pub open spec fn unroll_pairs(s: Seq<(usize, &Message)>) -> Seq<(int, Message)> {
    s.map_values(|p: (usize, &Message)| (p.0 as int, *p.1))
}

/// A message has a primary span to report exactly when it has any span.
pub proof fn lemma_primary_span_some(m: Message)
    ensures
        (spec_primary_span(m) is Some) == (spans_of(m).len() > 0),
{
    if spans_of(m).len() == 0 {
        assert(first_primary(spans_of(m)) is None);
    }
}

proof fn lemma_first_primary_at(sp: Seq<Span>, i: int)
    requires
        0 <= i < sp.len(),
        sp[i].is_primary,
        forall|j: int| 0 <= j < i ==> !sp[j].is_primary,
    ensures
        first_primary(sp) == Some(sp[i]),
    decreases i,
{
    if i > 0 {
        lemma_first_primary_at(sp.drop_first(), i - 1);
    }
}

proof fn lemma_first_primary_none(sp: Seq<Span>)
    requires
        forall|j: int| 0 <= j < sp.len() ==> !sp[j].is_primary,
    ensures
        first_primary(sp) is None,
    decreases sp.len(),
{
    if sp.len() > 0 {
        lemma_first_primary_none(sp.drop_first());
    }
}

proof fn lemma_first_replacement_at(sp: Seq<Span>, i: int)
    requires
        0 <= i < sp.len(),
        has_replacement(sp[i]),
        forall|j: int| 0 <= j < i ==> !has_replacement(sp[j]),
    ensures
        first_replacement(sp) == Some(sp[i]),
    decreases i,
{
    if i > 0 {
        lemma_first_replacement_at(sp.drop_first(), i - 1);
    }
}

proof fn lemma_first_replacement_none(sp: Seq<Span>)
    requires
        forall|j: int| 0 <= j < sp.len() ==> !has_replacement(sp[j]),
    ensures
        first_replacement(sp) is None,
    decreases sp.len(),
{
    if sp.len() > 0 {
        lemma_first_replacement_none(sp.drop_first());
    }
}

proof fn lemma_replacement_in_found(cs: Seq<Message>, i: int, s: Span)
    requires
        0 <= i < cs.len(),
        spec_replacement_span(cs[i]) == Some(s),
        forall|j: int| 0 <= j < i ==> spec_replacement_span(#[trigger] cs[j]) is None,
    ensures
        spec_replacement_span_in(cs) == Some(s),
    decreases i,
{
    if i > 0 {
        lemma_replacement_in_found(cs.drop_first(), i - 1, s);
    }
}

proof fn lemma_replacement_in_none(cs: Seq<Message>)
    requires
        forall|j: int| 0 <= j < cs.len() ==> spec_replacement_span(#[trigger] cs[j]) is None,
    ensures
        spec_replacement_span_in(cs) is None,
    decreases cs.len(),
{
    if cs.len() > 0 {
        lemma_replacement_in_none(cs.drop_first());
    }
}

impl Message {
    /// Unroll the message tree for display: a finite, restartable sequence
    /// of `(depth, message)` pairs, depth-first, starting with the message
    /// itself at depth 0.
    pub fn unroll(&self) -> (r: Vec<(usize, &Message)>)
        ensures
            unroll_pairs(r@) == spec_unroll(*self, 0),
    {
        let mut out: Vec<(usize, &Message)> = Vec::new();
        self.unroll_into(0, &mut out);
        proof {
            assert(unroll_pairs(Seq::<(usize, &Message)>::empty()) =~= Seq::<(
                int,
                Message,
            )>::empty());
        }
        out
    }

    /// Append the unrolled tree to `out`, with the root at `depth`.
    fn unroll_into<'a>(&'a self, depth: usize, out: &mut Vec<(usize, &'a Message)>)
        requires
            depth <= old(out)@.len(),
        ensures
            unroll_pairs(final(out)@) == unroll_pairs(old(out)@) + spec_unroll(
                *self,
                depth as int,
            ),
        decreases *self,
    {
        let ghost base = out@;
        out.push((depth, self));
        proof {
            assert(unroll_pairs(out@) =~= unroll_pairs(base) + seq![(depth as int, *self)]);
        }
        match &self.children {
            None => {
                proof {
                    assert(unroll_pairs(out@) =~= unroll_pairs(base) + spec_unroll(
                        *self,
                        depth as int,
                    ));
                }
            },
            Some(children) => {
                let n = children.len();
                let cur = out.len();
                assert(depth < cur);
                let d = depth + 1;
                proof {
                    assert(spec_unroll(*self, depth as int) == seq![(depth as int, *self)]
                        + spec_unroll_in(children@, depth as int + 1));
                    assert(children@.skip(0) =~= children@);
                    assert(unroll_pairs(out@) + spec_unroll_in(children@, d as int)
                        =~= unroll_pairs(base) + spec_unroll(*self, depth as int));
                }
                let mut i: usize = 0;
                while i < n
                    invariant
                        n == children@.len(),
                        i <= n,
                        self.children == Some(*children),
                        d == depth + 1,
                        d <= out@.len(),
                        unroll_pairs(out@) + spec_unroll_in(children@.skip(i as int), d as int)
                            == unroll_pairs(base) + spec_unroll(*self, depth as int),
                    decreases n - i,
                {
                    let ghost rest = children@.skip(i as int);
                    let ghost prev = out@;
                    let child = &children[i];
                    child.unroll_into(d, out);
                    proof {
                        assert(unroll_pairs(out@).len() == unroll_pairs(prev).len()
                            + spec_unroll(children@[i as int], d as int).len());
                        assert(out@.len() >= prev.len());
                        assert(rest[0] == children@[i as int]);
                        assert(rest.drop_first() =~= children@.skip(i as int + 1));
                        assert(spec_unroll_in(rest, d as int) == spec_unroll(
                            children@[i as int],
                            d as int,
                        ) + spec_unroll_in(children@.skip(i as int + 1), d as int));
                    }
                    i = i + 1;
                }
                proof {
                    assert(children@.skip(n as int) =~= Seq::empty());
                    assert(spec_unroll_in(children@.skip(n as int), d as int)
                        =~= Seq::<(int, Message)>::empty());
                }
            },
        }
    }

    /// The span a report of this message points at: the first span flagged
    /// `is_primary`, or the last span when none carries the flag.
    pub fn primary_span(&self) -> (r: Option<&Span>)
        ensures
            match r {
                Some(s) => spec_primary_span(*self) == Some(*s),
                None => spec_primary_span(*self) is None,
            },
    {
        match &self.spans {
            None => {
                proof {
                    lemma_first_primary_none(spans_of(*self));
                }
                None
            },
            Some(spans) => {
                let n = spans.len();
                let mut i: usize = 0;
                while i < n
                    invariant
                        n == spans@.len(),
                        i <= n,
                        spans@ == spans_of(*self),
                        forall|j: int| 0 <= j < i ==> !spans@[j].is_primary,
                    decreases n - i,
                {
                    if spans[i].is_primary {
                        proof {
                            lemma_first_primary_at(spans@, i as int);
                        }
                        return Some(&spans[i]);
                    }
                    i = i + 1;
                }
                proof {
                    lemma_first_primary_none(spans@);
                }
                if n > 0 {
                    Some(&spans[n - 1])
                } else {
                    None
                }
            },
        }
    }

    /// Search the message and its nested children depth-first for the first
    /// span carrying a suggested replacement.
    pub fn replacement_span(&self) -> (r: Option<&Span>)
        ensures
            match r {
                Some(s) => spec_replacement_span(*self) == Some(*s),
                None => spec_replacement_span(*self) is None,
            },
        decreases *self,
    {
        if let Some(spans) = &self.spans {
            let n = spans.len();
            let mut i: usize = 0;
            while i < n
                invariant
                    n == spans@.len(),
                    i <= n,
                    spans@ == spans_of(*self),
                    forall|j: int| 0 <= j < i ==> !has_replacement(spans@[j]),
                decreases n - i,
            {
                if spans[i].suggested_replacement.is_some() {
                    proof {
                        lemma_first_replacement_at(spans@, i as int);
                    }
                    return Some(&spans[i]);
                }
                i = i + 1;
            }
            proof {
                lemma_first_replacement_none(spans@);
            }
        } else {
            proof {
                lemma_first_replacement_none(spans_of(*self));
            }
        }
        if let Some(children) = &self.children {
            let n = children.len();
            let mut i: usize = 0;
            while i < n
                invariant
                    n == children@.len(),
                    i <= n,
                    children@ == children_of(*self),
                    first_replacement(spans_of(*self)) is None,
                    forall|j: int|
                        0 <= j < i ==> spec_replacement_span(#[trigger] children@[j]) is None,
                decreases n - i,
            {
                let found = children[i].replacement_span();
                if found.is_some() {
                    proof {
                        let s = found->0;
                        lemma_replacement_in_found(children@, i as int, *s);
                    }
                    return found;
                }
                i = i + 1;
            }
            proof {
                lemma_replacement_in_none(children@);
            }
        } else {
            proof {
                lemma_replacement_in_none(children_of(*self));
            }
        }
        None
    }
}

} // verus!
