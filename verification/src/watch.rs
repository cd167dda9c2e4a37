use vstd::prelude::*;

use crate::command::Command;
use crate::model::{Entry, Level, Message, Span};
use crate::traverse::{has_replacement, spans_of, spec_replacement_span};

verus! {

/// Whether an entry is worth a report: it carries a message at a reportable
/// level with at least one span to point at.
pub open spec fn spec_reportable(e: Entry) -> bool {
    &&& e.message is Some
    &&& e.message->0.level != Level::Empty
    &&& spans_of(e.message->0).len() > 0
}

/// Whether an entry carries a message at level `Error`.
pub open spec fn spec_is_error(e: Entry) -> bool {
    e.message is Some && e.message->0.level == Level::Error
}

/// Whether an entry carries a message at level `Warning`.
pub open spec fn spec_is_warning(e: Entry) -> bool {
    e.message is Some && e.message->0.level == Level::Warning
}

/// The reportability test, as a predicate value for `Seq::filter`.
pub open spec fn reportable_pred() -> spec_fn(Entry) -> bool {
    |e: Entry| spec_reportable(e)
}

/// The error test, as a predicate value for `Seq::filter`.
pub open spec fn error_pred() -> spec_fn(Entry) -> bool {
    |e: Entry| spec_is_error(e)
}

/// The warning test, as a predicate value for `Seq::filter`.
pub open spec fn warning_pred() -> spec_fn(Entry) -> bool {
    |e: Entry| spec_is_warning(e)
}

/// Whether an entry is worth a report.
pub fn is_reportable(e: &Entry) -> (r: bool)
    ensures
        r == spec_reportable(*e),
{
    match &e.message {
        Some(m) => match &m.spans {
            Some(v) => m.level.is_some() && v.len() > 0,
            None => false,
        },
        None => false,
    }
}

/// The counts by level of one completed analysis run.
#[derive(Debug, Clone, Copy, PartialEq, Eq, Structural)]
pub struct Summary {
    pub errors: usize,
    pub warnings: usize,
}

/// A reference to one message of one particular snapshot: the index is only
/// meaningful against the snapshot generation it was taken from.
#[derive(Debug, Clone, Copy, PartialEq, Eq, Structural)]
pub struct SnapshotIndex {
    /// The generation of the snapshot the index was taken from.
    pub generation: u64,
    /// The 0-based index within that snapshot.
    pub index: usize,
}

/// Why a command against the snapshot failed.
#[derive(Debug, Clone, Copy, PartialEq, Eq, Structural)]
pub enum SnapshotError {
    /// The index is outside the snapshot.
    InvalidIndex,
    /// The chosen message carries no suggested replacement.
    NoReplacementAvailable,
}

/// The diagnostics snapshot of one completed analysis run: the reportable
/// entries in stream order, under stable 0-based indices.
///
/// A snapshot is replaced wholesale by the next run, never merged; the
/// generation number tells the runs apart, so an index taken from one
/// snapshot is invalid against every later one.
pub struct Snapshot {
    entries: Vec<Entry>,
    generation: u64,
}

impl View for Snapshot {
    type V = Seq<Entry>;

    closed spec fn view(&self) -> Seq<Entry> {
        self.entries@
    }
}

impl Snapshot {
    /// Every entry of a snapshot is reportable.
    pub closed spec fn wf(&self) -> bool {
        forall|i: int| 0 <= i < self.entries@.len() ==> spec_reportable(#[trigger] self.entries@[i])
    }

    /// The generation of the run that produced this snapshot.
    pub closed spec fn spec_generation(&self) -> u64 {
        self.generation
    }

    /// Whether an index reference is valid against this snapshot: it was
    /// taken from the same generation and lies inside it.
    pub open spec fn valid_index(&self, t: SnapshotIndex) -> bool {
        t.generation == self.spec_generation() && t.index < self@.len()
    }

    /// The empty snapshot that exists before the first run.
    pub fn empty() -> (s: Snapshot)
        ensures
            s@ == Seq::<Entry>::empty(),
            s.spec_generation() == 0,
            s.wf(),
    {
        Snapshot { entries: Vec::new(), generation: 0 }
    }

    /// Build the snapshot of one run: keep the reportable entries of the
    /// run's output, in order.
    pub fn from_run(entries: Vec<Entry>, generation: u64) -> (s: Snapshot)
        ensures
            s@ == entries@.filter(reportable_pred()),
            s.spec_generation() == generation,
            s.wf(),
    {
        let ghost all = entries@;
        let ghost pred = reportable_pred();
        let mut rest = entries;
        let mut kept: Vec<Entry> = Vec::new();
        let ghost mut i: int = 0;
        proof {
            assert(all.take(0) =~= Seq::<Entry>::empty());
            assert(all.take(0).filter(pred) =~= Seq::<Entry>::empty());
            assert(rest@ =~= all.skip(0));
        }
        while rest.len() > 0
            invariant
                pred == reportable_pred(),
                0 <= i <= all.len(),
                rest@ == all.skip(i),
                kept@ == all.take(i).filter(pred),
            decreases rest@.len(),
        {
            let e = rest.remove(0);
            proof {
                assert(e == all[i]);
                assert(rest@ =~= all.skip(i + 1));
                assert(all.take(i + 1) =~= all.take(i).push(all[i]));
                all.take(i).lemma_filter_push(all[i], pred);
            }
            if is_reportable(&e) {
                kept.push(e);
            }
            proof {
                i = i + 1;
            }
        }
        proof {
            assert(all.take(all.len() as int) =~= all);
        }
        let s = Snapshot { entries: kept, generation };
        proof {
            assert forall|j: int| 0 <= j < s.entries@.len() implies spec_reportable(
                #[trigger] s.entries@[j],
            ) by {
                all.lemma_filter_pred(pred, j);
            }
        }
        s
    }

    /// The number of reportable messages in the snapshot.
    pub fn len(&self) -> (n: usize)
        ensures
            n == self@.len(),
    {
        self.entries.len()
    }

    /// The entry at an index, if the index is inside the snapshot.
    pub fn get(&self, i: usize) -> (r: Option<&Entry>)
        ensures
            match r {
                Some(e) => i < self@.len() && *e == self@[i as int],
                None => i >= self@.len(),
            },
    {
        if i < self.entries.len() {
            Some(&self.entries[i])
        } else {
            None
        }
    }

    /// The generation of the run that produced this snapshot.
    pub fn generation(&self) -> (g: u64)
        ensures
            g == self.spec_generation(),
    {
        self.generation
    }

    /// Whether an index reference is valid against this snapshot.
    pub fn is_valid_index(&self, t: SnapshotIndex) -> (r: bool)
        ensures
            r == self.valid_index(t),
    {
        t.generation == self.generation && t.index < self.entries.len()
    }

    /// An index reference against this snapshot.
    pub fn handle(&self, i: usize) -> (t: SnapshotIndex)
        ensures
            t == (SnapshotIndex { generation: self.spec_generation(), index: i }),
    {
        SnapshotIndex { generation: self.generation, index: i }
    }

    /// The rendered text of the message at `i`: its render if one was
    /// decoded, nothing when the message has none, and `InvalidIndex` when
    /// the index is outside the snapshot. The snapshot itself is never
    /// changed by a failed or successful lookup.
    pub fn show(&self, i: usize) -> (r: Result<Option<&str>, SnapshotError>)
        ensures
            r is Ok <==> i < self@.len(),
            r is Err ==> r->Err_0 == SnapshotError::InvalidIndex,
            i < self@.len() ==> match self@[i as int].message {
                Some(m) => match m.rendered {
                    Some(s) => r->Ok_0 is Some && r->Ok_0->0@ == s@,
                    None => r->Ok_0 is None,
                },
                None => r->Ok_0 is None,
            },
    {
        if i < self.entries.len() {
            Ok(self.entries[i].rendered())
        } else {
            Err(SnapshotError::InvalidIndex)
        }
    }

    /// The span whose suggested replacement a `fix` of index `i` would
    /// apply: the first replacement-carrying span in a depth-first search
    /// of the message and its children. `InvalidIndex` outside the
    /// snapshot, `NoReplacementAvailable` when the search finds nothing;
    /// the snapshot itself is never changed.
    pub fn fix_target(&self, i: usize) -> (r: Result<&Span, SnapshotError>)
        requires
            self.wf(),
        ensures
            i >= self@.len() ==> r == Result::<&Span, SnapshotError>::Err(
                SnapshotError::InvalidIndex,
            ),
            i < self@.len() ==> match spec_replacement_span(self@[i as int].message->0) {
                Some(s) => r is Ok && *r->Ok_0 == s && has_replacement(s),
                None => r == Result::<&Span, SnapshotError>::Err(
                    SnapshotError::NoReplacementAvailable,
                ),
            },
    {
        if i >= self.entries.len() {
            return Err(SnapshotError::InvalidIndex);
        }
        match &self.entries[i].message {
            Some(m) => match m.replacement_span() {
                Some(s) => {
                    proof {
                        lemma_replacement_span_has(self@[i as int].message->0);
                    }
                    Ok(s)
                },
                None => Err(SnapshotError::NoReplacementAvailable),
            },
            None => {
                proof {
                    assert(spec_reportable(self@[i as int]));
                    assert(false);
                }
                Err(SnapshotError::NoReplacementAvailable)
            },
        }
    }

    /// Count the entries by level: how many errors and how many warnings
    /// the snapshot holds.
    pub fn summary(&self) -> (s: Summary)
        ensures
            s.errors == self@.filter(error_pred()).len(),
            s.warnings == self@.filter(warning_pred()).len(),
    {
        let ghost all = self.entries@;
        let ghost perr = error_pred();
        let ghost pwarn = warning_pred();
        let n = self.entries.len();
        let mut errors: usize = 0;
        let mut warnings: usize = 0;
        let mut i: usize = 0;
        proof {
            assert(all.take(0) =~= Seq::<Entry>::empty());
            assert(all.take(0).filter(perr) =~= Seq::<Entry>::empty());
            assert(all.take(0).filter(pwarn) =~= Seq::<Entry>::empty());
        }
        while i < n
            invariant
                all == self.entries@,
                perr == error_pred(),
                pwarn == warning_pred(),
                n == all.len(),
                i <= n,
                errors == all.take(i as int).filter(perr).len(),
                warnings == all.take(i as int).filter(pwarn).len(),
                errors <= i,
                warnings <= i,
            decreases n - i,
        {
            proof {
                assert(all.take(i as int + 1) =~= all.take(i as int).push(all[i as int]));
                all.take(i as int).lemma_filter_push(all[i as int], perr);
                all.take(i as int).lemma_filter_push(all[i as int], pwarn);
            }
            if self.entries[i].is_error() {
                errors = errors + 1;
            }
            if self.entries[i].is_warning() {
                warnings = warnings + 1;
            }
            i = i + 1;
        }
        proof {
            assert(all.take(n as int) =~= all);
        }
        Summary { errors, warnings }
    }
}

/// A coalesced filesystem notification handed in by the watcher.
#[derive(Debug, Clone, PartialEq, Eq)]
pub enum FsEvent {
    /// A file's contents were written.
    Write(String),
    /// Any other notification.
    Other,
}

/// Whether a drained batch of notifications asks for a re-analysis: it
/// holds at least one write.
pub open spec fn spec_should_rerun(events: Seq<FsEvent>) -> bool {
    exists|i: int| 0 <= i < events.len() && events[i] is Write
}

/// Whether a drained batch of notifications asks for a re-analysis.
pub fn should_rerun(events: &Vec<FsEvent>) -> (r: bool)
    ensures
        r == spec_should_rerun(events@),
{
    let n = events.len();
    let mut i: usize = 0;
    while i < n
        invariant
            n == events@.len(),
            i <= n,
            forall|j: int| 0 <= j < i ==> !(#[trigger] events@[j] is Write),
        decreases n - i,
    {
        if let FsEvent::Write(_) = &events[i] {
            return true;
        }
        i = i + 1;
    }
    false
}

/// However many write notifications land within one debounce window, the
/// batch drained at the next poll asks for a re-analysis as one whole: the
/// poll makes a single trigger decision for all of them, so `N` writes
/// produce exactly one run, started by [`Orchestrator::poll_fs`].
pub proof fn lemma_write_burst_single_trigger(events: Seq<FsEvent>)
    requires
        events.len() > 0,
        forall|i: int| 0 <= i < events.len() ==> #[trigger] events[i] is Write,
    ensures
        spec_should_rerun(events),
{
    assert(events[0] is Write);
}

/// The watch-loop phase: between runs, or consuming one run's output.
#[derive(Debug, Clone, Copy, PartialEq, Eq, Structural)]
pub enum Phase {
    /// Waiting for commands and filesystem notifications.
    Idle,
    /// An analysis run is consuming the checker's output.
    Running,
}

/// Everything a suggested fix application needs: which file to rewrite,
/// the byte range to splice over, and the replacement text.
#[derive(Debug, PartialEq, Eq)]
pub struct FixPlan {
    pub file_name: String,
    pub byte_start: usize,
    pub byte_end: usize,
    pub replacement: String,
}

/// What the caller is to do after one command was interpreted against the
/// snapshot.
#[derive(Debug, PartialEq, Eq)]
pub enum Action {
    /// Print the command help text.
    PrintHelp,
    /// Print this rendered message.
    ShowRendered(String),
    /// The chosen message has no render available.
    NoRender,
    /// The index is outside the snapshot.
    InvalidIndex,
    /// Apply this fix, then report back with `begin_run` on success.
    ApplyFix(FixPlan),
    /// The chosen message suggests no replacement.
    NoReplacement,
    /// A fix command without an index.
    FixMissingIndex,
    /// A fix command whose index is not a number.
    FixBadIndex,
    /// Stop the watch loop.
    Quit,
    /// The input was no command; print the help text.
    UnknownCommand,
}

/// The watch-loop state machine: it owns the diagnostics snapshot of the
/// latest completed run, replaces it wholesale on each new run, and
/// interprets commands against it while idle.
pub struct Orchestrator {
    phase: Phase,
    snapshot: Snapshot,
}

impl Orchestrator {
    /// The current phase, for use in contracts.
    pub closed spec fn spec_phase(&self) -> Phase {
        self.phase
    }

    /// The current snapshot, for use in contracts.
    pub closed spec fn spec_snapshot(&self) -> Snapshot {
        self.snapshot
    }

    /// The snapshot a well-formed orchestrator holds is well-formed.
    pub open spec fn wf(&self) -> bool {
        self.spec_snapshot().wf()
    }

    /// A fresh orchestrator: idle, with the empty snapshot of generation 0.
    pub fn new() -> (o: Orchestrator)
        ensures
            o.spec_phase() == Phase::Idle,
            o.spec_snapshot()@ == Seq::<Entry>::empty(),
            o.spec_snapshot().spec_generation() == 0,
            o.wf(),
    {
        Orchestrator { phase: Phase::Idle, snapshot: Snapshot::empty() }
    }

    /// The current phase.
    pub fn phase(&self) -> (p: Phase)
        ensures
            p == self.spec_phase(),
    {
        self.phase
    }

    /// The snapshot of the latest completed run.
    pub fn snapshot(&self) -> (s: &Snapshot)
        ensures
            *s == self.spec_snapshot(),
    {
        &self.snapshot
    }

    /// Enter a run: from idle to running, keeping the old snapshot until
    /// the run completes.
    pub fn begin_run(&mut self)
        requires
            old(self).spec_phase() == Phase::Idle,
        ensures
            final(self).spec_phase() == Phase::Running,
            final(self).spec_snapshot() == old(self).spec_snapshot(),
    {
        self.phase = Phase::Running;
    }

    /// Drain one batch of filesystem notifications: any write among them
    /// starts exactly one run; a batch without writes changes nothing.
    pub fn poll_fs(&mut self, events: &Vec<FsEvent>) -> (run: bool)
        requires
            old(self).spec_phase() == Phase::Idle,
        ensures
            run == spec_should_rerun(events@),
            run ==> final(self).spec_phase() == Phase::Running,
            !run ==> *final(self) == *old(self),
            final(self).spec_snapshot() == old(self).spec_snapshot(),
    {
        if should_rerun(events) {
            self.phase = Phase::Running;
            true
        } else {
            false
        }
    }

    /// Complete a run: replace the snapshot wholesale with the run's
    /// reportable entries under a fresh generation, return the counts by
    /// level, and go back to idle.
    ///
    /// Every index reference taken from the previous snapshot is invalid
    /// against the new one: no index aliases across runs.
    pub fn complete_run(&mut self, entries: Vec<Entry>) -> (s: Summary)
        requires
            old(self).spec_phase() == Phase::Running,
            old(self).spec_snapshot().spec_generation() < u64::MAX,
        ensures
            final(self).spec_phase() == Phase::Idle,
            final(self).spec_snapshot()@ == entries@.filter(reportable_pred()),
            final(self).spec_snapshot().spec_generation()
                == old(self).spec_snapshot().spec_generation() + 1,
            final(self).wf(),
            s.errors == final(self).spec_snapshot()@.filter(error_pred()).len(),
            s.warnings == final(self).spec_snapshot()@.filter(warning_pred()).len(),
            forall|t: SnapshotIndex|
                old(self).spec_snapshot().valid_index(t)
                    ==> !final(self).spec_snapshot().valid_index(t),
    {
        let generation = self.snapshot.generation + 1;
        let snap = Snapshot::from_run(entries, generation);
        let summary = snap.summary();
        self.snapshot = snap;
        self.phase = Phase::Idle;
        summary
    }

    /// Interpret one parsed command against the current snapshot. The
    /// orchestrator and its snapshot are never changed: an out-of-range
    /// index reports `InvalidIndex` and mutates no state, and a fix is
    /// only described by the returned plan, never applied here.
    pub fn handle_command(&self, cmd: Command) -> (a: Action)
        requires
            self.wf(),
            self.spec_phase() == Phase::Idle,
        ensures
            (match cmd {
                Command::Help => a == Action::PrintHelp,
                Command::Quit => a == Action::Quit,
                Command::FixMissingIndex => a == Action::FixMissingIndex,
                Command::FixBadIndex => a == Action::FixBadIndex,
                Command::Unknown => a == Action::UnknownCommand,
                Command::Show(i) => {
                    if i < self.spec_snapshot()@.len() {
                        match self.spec_snapshot()@[i as int].message {
                            Some(m) => match m.rendered {
                                Some(s) => a matches Action::ShowRendered(t) && t@ == s@,
                                None => a == Action::NoRender,
                            },
                            None => a == Action::NoRender,
                        }
                    } else {
                        a == Action::InvalidIndex
                    }
                },
                Command::Fix(i) => {
                    if i < self.spec_snapshot()@.len() {
                        match spec_replacement_span(self.spec_snapshot()@[i as int].message->0) {
                            Some(sp) => a matches Action::ApplyFix(p) && p.file_name@
                                == sp.file_name@ && p.byte_start == sp.byte_start && p.byte_end
                                == sp.byte_end && p.replacement@ == sp.suggested_replacement->0@,
                            None => a == Action::NoReplacement,
                        }
                    } else {
                        a == Action::InvalidIndex
                    }
                },
            }),
    {
        match cmd {
            Command::Help => Action::PrintHelp,
            Command::Quit => Action::Quit,
            Command::FixMissingIndex => Action::FixMissingIndex,
            Command::FixBadIndex => Action::FixBadIndex,
            Command::Unknown => Action::UnknownCommand,
            Command::Show(i) => match self.snapshot.show(i) {
                Ok(Some(text)) => Action::ShowRendered(text.to_owned()),
                Ok(None) => Action::NoRender,
                Err(_) => Action::InvalidIndex,
            },
            Command::Fix(i) => match self.snapshot.fix_target(i) {
                Ok(span) => {
                    let replacement = match &span.suggested_replacement {
                        Some(r) => r.clone(),
                        None => {
                            proof {
                                assert(false);
                            }
                            String::new()
                        },
                    };
                    Action::ApplyFix(
                        FixPlan {
                            file_name: span.file_name.clone(),
                            byte_start: span.byte_start,
                            byte_end: span.byte_end,
                            replacement,
                        },
                    )
                },
                Err(SnapshotError::InvalidIndex) => Action::InvalidIndex,
                Err(SnapshotError::NoReplacementAvailable) => Action::NoReplacement,
            },
        }
    }
}

/// A replacement span always carries a suggested replacement.
proof fn lemma_first_replacement_has(sp: Seq<Span>)
    ensures
        crate::traverse::first_replacement(sp) is Some ==> has_replacement(
            crate::traverse::first_replacement(sp)->0,
        ),
    decreases sp.len(),
{
    if sp.len() > 0 && !has_replacement(sp[0]) {
        lemma_first_replacement_has(sp.drop_first());
    }
}

/// The span found by the depth-first replacement search always carries a
/// suggested replacement.
proof fn lemma_replacement_span_has(m: Message)
    ensures
        spec_replacement_span(m) is Some ==> has_replacement(spec_replacement_span(m)->0),
    decreases m,
{
    lemma_first_replacement_has(spans_of(m));
    if crate::traverse::first_replacement(spans_of(m)) is None {
        match m.children {
            Some(cs) => {
                lemma_replacement_span_in_has(cs@);
            },
            None => {},
        }
    }
}

proof fn lemma_replacement_span_in_has(cs: Seq<Message>)
    ensures
        crate::traverse::spec_replacement_span_in(cs) is Some ==> has_replacement(
            crate::traverse::spec_replacement_span_in(cs)->0,
        ),
    decreases cs,
{
    if cs.len() > 0 {
        lemma_replacement_span_has(cs[0]);
        if spec_replacement_span(cs[0]) is None {
            lemma_replacement_span_in_has(cs.drop_first());
        }
    }
}

} // verus!
