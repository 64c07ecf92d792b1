use vstd::prelude::*;

verus! {

/// How long the output of a new terminal must stay quiet before queued input is written to it.
pub const WRITE_AFTER_INITIAL_OUTPUT_QUIET_FOR_MS: u64 = 100;

/// How the next read from the terminal is made.
#[derive(Clone, Copy, Debug, PartialEq, Eq, Structural)]
pub enum ReadMode {
    /// Wait for output as long as it takes.
    Blocking,
    /// Wait for output at most the quiet period.
    WithQuietTimeout,
}

/// What a read from the terminal gave.
#[derive(Clone, Copy, Debug, PartialEq, Eq, Structural)]
pub enum ReadEvent {
    /// This many bytes of output (none: the end of the output).
    Bytes(usize),
    /// The read failed.
    Failed,
    /// The output stayed quiet for the whole quiet period.
    QuietTimeout,
}

/// What the reader does next.
#[derive(Clone, Copy, Debug, PartialEq, Eq, Structural)]
pub enum ListenAction {
    /// Hand the bytes read to the screen, then read again.
    ForwardBytes,
    /// Write the queued input to the terminal, then read again.
    WritePendingInput,
    /// Read again.
    ReadAgain,
    /// Ask the screen to render once more and stop: the terminal's output has ended.
    Finish,
}

/// The decisions of a terminal's output reader: whether input waits to be written once the
/// initial output settles, and whether output has come since.
#[derive(Clone, Copy, Debug, PartialEq, Eq, Structural)]
pub struct TerminalBytes {
    pub terminal_id: u32,
    pub waiting_for_initial_output_to_settle: bool,
    pub has_pending_write: bool,
    pub finished: bool,
}

/// The reader after an event, and what it does.
pub open spec fn listen_step(s: TerminalBytes, event: ReadEvent) -> (TerminalBytes, ListenAction) {
    match event {
        ReadEvent::QuietTimeout => if s.waiting_for_initial_output_to_settle && s.has_pending_write {
            (TerminalBytes { waiting_for_initial_output_to_settle: false, has_pending_write: false, ..s }, ListenAction::WritePendingInput)
        } else {
            (TerminalBytes { waiting_for_initial_output_to_settle: false, ..s }, ListenAction::ReadAgain)
        },
        ReadEvent::Bytes(n) => if n == 0 {
            (TerminalBytes { finished: true, ..s }, ListenAction::Finish)
        } else {
            (TerminalBytes { waiting_for_initial_output_to_settle: s.has_pending_write, ..s }, ListenAction::ForwardBytes)
        },
        ReadEvent::Failed => (TerminalBytes { finished: true, ..s }, ListenAction::Finish),
    }
}

impl TerminalBytes {
    /// A reader for a terminal, with or without input queued for when its initial output
    /// settles.
    pub fn new(terminal_id: u32, has_pending_write: bool) -> (t: Self)
        ensures
            t == (TerminalBytes { terminal_id, waiting_for_initial_output_to_settle: false, has_pending_write, finished: false }),
    {
        TerminalBytes { terminal_id, waiting_for_initial_output_to_settle: false, has_pending_write, finished: false }
    }

    /// How to read next: with the quiet period as a time limit while queued input waits for
    /// output to settle, else blocking.
    pub fn read_mode(&self) -> (m: ReadMode)
        ensures
            m == (if self.waiting_for_initial_output_to_settle && self.has_pending_write {
                ReadMode::WithQuietTimeout
            } else {
                ReadMode::Blocking
            }),
    {
        if self.waiting_for_initial_output_to_settle && self.has_pending_write {
            ReadMode::WithQuietTimeout
        } else {
            ReadMode::Blocking
        }
    }

    /// Takes what a read gave and says what to do: output is forwarded, and while input is
    /// queued the reader then waits for the output to go quiet; when it does, the input is
    /// written, once (a quiet period before any output writes nothing); the end of the output
    /// or a failed read finishes the reader.
    pub fn on_read(&mut self, event: ReadEvent) -> (action: ListenAction)
        ensures
            (*final(self), action) == listen_step(*old(self), event),
    {
        match event {
            ReadEvent::QuietTimeout => {
                let settled = self.waiting_for_initial_output_to_settle;
                self.waiting_for_initial_output_to_settle = false;
                if settled && self.has_pending_write {
                    self.has_pending_write = false;
                    ListenAction::WritePendingInput
                } else {
                    ListenAction::ReadAgain
                }
            },
            ReadEvent::Bytes(n) => {
                if n == 0 {
                    self.finished = true;
                    ListenAction::Finish
                } else {
                    self.waiting_for_initial_output_to_settle = self.has_pending_write;
                    ListenAction::ForwardBytes
                }
            },
            ReadEvent::Failed => {
                self.finished = true;
                ListenAction::Finish
            },
        }
    }
}

/// Queued input is written at most once: once written, no event queues it again.
pub proof fn law_pending_input_is_written_once(s: TerminalBytes, event: ReadEvent)
    requires
        !s.has_pending_write,
    ensures
        !listen_step(s, event).0.has_pending_write,
        listen_step(s, event).1 != ListenAction::WritePendingInput,
{
}

/// Queued input is only written after the output went quiet, never right after output came.
pub proof fn law_input_waits_for_quiet_output(s: TerminalBytes, event: ReadEvent)
    ensures
        listen_step(s, event).1 == ListenAction::WritePendingInput ==> event == ReadEvent::QuietTimeout
            && s.has_pending_write && s.waiting_for_initial_output_to_settle,
        event is Bytes && event->0 > 0 ==> listen_step(s, event).0.waiting_for_initial_output_to_settle
            == s.has_pending_write,
{
}

/// The reader after a run of read events, and what it did at each.
pub open spec fn run(s: TerminalBytes, events: Seq<ReadEvent>) -> (TerminalBytes, Seq<ListenAction>)
    decreases events.len(),
{
    if events.len() == 0 {
        (s, Seq::empty())
    } else {
        let (before, actions) = run(s, events.drop_last());
        let (after, action) = listen_step(before, events.last());
        (after, actions.push(action))
    }
}

/// Some output came among the first `k` events.
pub open spec fn output_came(events: Seq<ReadEvent>, k: int) -> bool {
    exists|j: int| 0 <= j < k && (#[trigger] events[j]) is Bytes && events[j]->0 > 0
}

proof fn lemma_run_waits_only_after_output(s: TerminalBytes, events: Seq<ReadEvent>)
    requires
        !s.waiting_for_initial_output_to_settle,
    ensures
        run(s, events).1.len() == events.len(),
        run(s, events).0.waiting_for_initial_output_to_settle ==> output_came(events, events.len() as int),
        forall|i: int| 0 <= i < events.len() && #[trigger] run(s, events).1[i] == ListenAction::WritePendingInput
            ==> output_came(events, i),
    decreases events.len(),
{
    if events.len() > 0 {
        let prefix = events.drop_last();
        lemma_run_waits_only_after_output(s, prefix);
        let n = events.len() - 1;
        assert forall|j: int| 0 <= j < n implies events[j] == #[trigger] prefix[j] by {}
        let (before, actions) = run(s, prefix);
        let (after, action) = listen_step(before, events.last());
        assert(run(s, events).1 == actions.push(action));
        if before.waiting_for_initial_output_to_settle {
            let j = choose|j: int| 0 <= j < n && (#[trigger] prefix[j]) is Bytes && prefix[j]->0 > 0;
            assert(events[j] == prefix[j]);
        }
        assert forall|i: int| 0 <= i < events.len() && #[trigger] run(s, events).1[i] == ListenAction::WritePendingInput
            implies output_came(events, i) by {
            if i < n {
                assert(run(s, events).1[i] == actions[i]);
                let j = choose|j: int| 0 <= j < i && (#[trigger] prefix[j]) is Bytes && prefix[j]->0 > 0;
                assert(events[j] == prefix[j]);
            } else {
                let j = choose|j: int| 0 <= j < n && (#[trigger] prefix[j]) is Bytes && prefix[j]->0 > 0;
                assert(events[j] == prefix[j]);
            }
        }
        if after.waiting_for_initial_output_to_settle && !before.waiting_for_initial_output_to_settle {
            assert(events[n] is Bytes && events[n]->0 > 0);
        } else if after.waiting_for_initial_output_to_settle {
            let j = choose|j: int| 0 <= j < n && (#[trigger] prefix[j]) is Bytes && prefix[j]->0 > 0;
            assert(events[j] == prefix[j]);
        }
    }
}

/// Over any run of reads of a new reader, queued input is written only after some output came
/// and then went quiet: every write answers a quiet period and follows output.
pub proof fn law_input_is_written_only_after_output(terminal_id: u32, has_pending_write: bool, events: Seq<ReadEvent>)
    ensures
        ({
            let actions = run(TerminalBytes { terminal_id, waiting_for_initial_output_to_settle: false, has_pending_write, finished: false }, events).1;
            &&& actions.len() == events.len()
            &&& forall|i: int| 0 <= i < events.len() && #[trigger] actions[i] == ListenAction::WritePendingInput
                ==> events[i] == ReadEvent::QuietTimeout && output_came(events, i)
        }),
{
    let s = TerminalBytes { terminal_id, waiting_for_initial_output_to_settle: false, has_pending_write, finished: false };
    lemma_run_waits_only_after_output(s, events);
    lemma_run_actions_answer_events(s, events);
}

proof fn lemma_run_actions_answer_events(s: TerminalBytes, events: Seq<ReadEvent>)
    ensures
        run(s, events).1.len() == events.len(),
        forall|i: int| 0 <= i < events.len() && #[trigger] run(s, events).1[i] == ListenAction::WritePendingInput
            ==> events[i] == ReadEvent::QuietTimeout,
    decreases events.len(),
{
    if events.len() > 0 {
        let prefix = events.drop_last();
        lemma_run_actions_answer_events(s, prefix);
        let (before, actions) = run(s, prefix);
        let (after, action) = listen_step(before, events.last());
        assert(run(s, events).1 == actions.push(action));
        assert forall|i: int| 0 <= i < events.len() && #[trigger] run(s, events).1[i] == ListenAction::WritePendingInput
            implies events[i] == ReadEvent::QuietTimeout by {
            if i < events.len() - 1 {
                assert(run(s, events).1[i] == actions[i]);
                assert(events[i] == prefix[i]);
            }
        }
    }
}


/// The output went quiet at event `i`, after some output came.
pub open spec fn quiet_after_output(events: Seq<ReadEvent>, i: int) -> bool {
    events[i] == ReadEvent::QuietTimeout && output_came(events, i)
}

/// No quiet period after output among the first `k` events.
pub open spec fn no_quiet_after_output(events: Seq<ReadEvent>, k: int) -> bool {
    forall|j: int| 0 <= j < k ==> !#[trigger] quiet_after_output(events, j)
}

/// Event `i` ends the output: its end, or a failed read.
pub open spec fn ends_output(event: ReadEvent) -> bool {
    event == ReadEvent::Bytes(0) || event == ReadEvent::Failed
}

proof fn lemma_output_came_in_prefix(events: Seq<ReadEvent>, k: int)
    requires
        0 <= k < events.len(),
    ensures
        output_came(events, k) == output_came(events.drop_last(), k),
        output_came(events, k + 1) == (output_came(events, k) || (events[k] is Bytes && events[k]->0 > 0)),
{
    let prefix = events.drop_last();
    if output_came(events, k) {
        let j = choose|j: int| 0 <= j < k && (#[trigger] events[j]) is Bytes && events[j]->0 > 0;
        assert(prefix[j] == events[j]);
    }
    if output_came(prefix, k) {
        let j = choose|j: int| 0 <= j < k && (#[trigger] prefix[j]) is Bytes && prefix[j]->0 > 0;
        assert(prefix[j] == events[j]);
    }
    if output_came(events, k + 1) && !output_came(events, k) {
        let j = choose|j: int| 0 <= j < k + 1 && (#[trigger] events[j]) is Bytes && events[j]->0 > 0;
        assert(j == k);
    }
    if events[k] is Bytes && events[k]->0 > 0 {
        assert(output_came(events, k + 1));
    }
}

proof fn lemma_run_settles(s0: TerminalBytes, events: Seq<ReadEvent>)
    requires
        s0.has_pending_write,
        !s0.waiting_for_initial_output_to_settle,
    ensures
        run(s0, events).1.len() == events.len(),
        run(s0, events).0.has_pending_write == no_quiet_after_output(events, events.len() as int),
        run(s0, events).0.waiting_for_initial_output_to_settle == (run(s0, events).0.has_pending_write
            && output_came(events, events.len() as int)),
        forall|i: int| 0 <= i < events.len() ==> (#[trigger] run(s0, events).1[i] == ListenAction::WritePendingInput)
            == (quiet_after_output(events, i) && no_quiet_after_output(events, i)),
        forall|i: int| 0 <= i < events.len() ==> (#[trigger] run(s0, events).1[i] == ListenAction::Finish)
            == ends_output(events[i]),
    decreases events.len(),
{
    if events.len() == 0 {
        assert(!output_came(events, 0));
    } else {
        let n = events.len() - 1;
        let prefix = events.drop_last();
        lemma_run_settles(s0, prefix);
        let (before, actions) = run(s0, prefix);
        let (after, action) = listen_step(before, events[n]);
        assert(run(s0, events).1 == actions.push(action));
        lemma_output_came_in_prefix(events, n);
        assert forall|j: int| 0 <= j < n implies #[trigger] quiet_after_output(events, j)
            == quiet_after_output(prefix, j) by {
            lemma_output_came_prefix_any(events, prefix, j);
        }
        lemma_no_quiet_same(events, prefix, n);
        assert(no_quiet_after_output(events, n + 1) == (no_quiet_after_output(events, n) && !quiet_after_output(events, n)));
        assert forall|i: int| 0 <= i < events.len() implies (#[trigger] run(s0, events).1[i]
            == ListenAction::WritePendingInput) == (quiet_after_output(events, i) && no_quiet_after_output(events, i))
            && (run(s0, events).1[i] == ListenAction::Finish) == ends_output(events[i]) by {
            if i < n {
                assert(run(s0, events).1[i] == actions[i]);
                assert(events[i] == prefix[i]);
                lemma_no_quiet_same(events, prefix, i);
            }
        }
    }
}

proof fn lemma_no_quiet_same(a: Seq<ReadEvent>, b: Seq<ReadEvent>, k: int)
    requires
        forall|j: int| 0 <= j < k ==> #[trigger] quiet_after_output(a, j) == quiet_after_output(b, j),
    ensures
        no_quiet_after_output(a, k) == no_quiet_after_output(b, k),
{
    if no_quiet_after_output(a, k) {
        assert forall|j: int| 0 <= j < k implies !#[trigger] quiet_after_output(b, j) by {
            assert(quiet_after_output(a, j) == quiet_after_output(b, j));
        }
    }
    if no_quiet_after_output(b, k) {
        assert forall|j: int| 0 <= j < k implies !#[trigger] quiet_after_output(a, j) by {
            assert(quiet_after_output(a, j) == quiet_after_output(b, j));
        }
    }
}

proof fn lemma_output_came_prefix_any(events: Seq<ReadEvent>, prefix: Seq<ReadEvent>, j: int)
    requires
        0 <= j <= prefix.len(),
        prefix.len() <= events.len(),
        forall|m: int| 0 <= m < prefix.len() ==> prefix[m] == events[m],
    ensures
        output_came(events, j) == output_came(prefix, j),
{
    if output_came(events, j) {
        let m = choose|m: int| 0 <= m < j && (#[trigger] events[m]) is Bytes && events[m]->0 > 0;
        assert(prefix[m] == events[m]);
    }
    if output_came(prefix, j) {
        let m = choose|m: int| 0 <= m < j && (#[trigger] prefix[m]) is Bytes && prefix[m]->0 > 0;
        assert(prefix[m] == events[m]);
    }
}

/// With input queued, a new reader writes it exactly at the first quiet period that follows
/// some output, and never at another read; it finishes exactly at the end of the output or a
/// failed read, after which nothing more is read.
pub proof fn law_queued_input_is_written_when_output_settles(terminal_id: u32, events: Seq<ReadEvent>)
    ensures
        ({
            let actions = run(TerminalBytes { terminal_id, waiting_for_initial_output_to_settle: false, has_pending_write: true, finished: false }, events).1;
            &&& actions.len() == events.len()
            &&& forall|i: int| 0 <= i < events.len() ==> (#[trigger] actions[i] == ListenAction::WritePendingInput)
                == (quiet_after_output(events, i) && no_quiet_after_output(events, i))
            &&& forall|i: int| 0 <= i < events.len() ==> (#[trigger] actions[i] == ListenAction::Finish) == ends_output(events[i])
        }),
{
    lemma_run_settles(TerminalBytes { terminal_id, waiting_for_initial_output_to_settle: false, has_pending_write: true, finished: false }, events);
}

proof fn lemma_plain_run(s0: TerminalBytes, events: Seq<ReadEvent>)
    requires
        !s0.has_pending_write,
        forall|i: int| 0 <= i < events.len() ==> #[trigger] events[i] is Bytes && events[i]->0 > 0,
    ensures
        run(s0, events).1 == Seq::new(events.len(), |i: int| ListenAction::ForwardBytes),
        !run(s0, events).0.has_pending_write,
        !run(s0, events).0.waiting_for_initial_output_to_settle || s0.waiting_for_initial_output_to_settle && events.len() == 0,
        run(s0, events).0.finished == s0.finished,
    decreases events.len(),
{
    if events.len() > 0 {
        let prefix = events.drop_last();
        assert forall|i: int| 0 <= i < prefix.len() implies #[trigger] prefix[i] is Bytes && prefix[i]->0 > 0 by {
            assert(prefix[i] == events[i]);
        }
        lemma_plain_run(s0, prefix);
        assert(events[events.len() - 1] is Bytes);
        assert(run(s0, events).1 =~= Seq::new(events.len(), |i: int| ListenAction::ForwardBytes));
    }
}

/// A reader with no queued input reads without a time limit, hands every chunk of output to
/// the screen in order, and finishes (asking for a last render) at the end of the output or a
/// failed read.
pub proof fn law_plain_reader_forwards_every_chunk_then_finishes(terminal_id: u32, chunks: Seq<usize>, last: ReadEvent)
    requires
        forall|i: int| 0 <= i < chunks.len() ==> #[trigger] chunks[i] > 0,
        ends_output(last),
    ensures
        ({
            let s0 = TerminalBytes { terminal_id, waiting_for_initial_output_to_settle: false, has_pending_write: false, finished: false };
            let events = chunks.map_values(|n: usize| ReadEvent::Bytes(n)).push(last);
            &&& run(s0, events).1 == Seq::new(chunks.len(), |i: int| ListenAction::ForwardBytes).push(ListenAction::Finish)
            &&& run(s0, events).0.finished
            &&& forall|k: int| 0 <= k <= events.len() ==> !(#[trigger] run(s0, events.take(k))).0.waiting_for_initial_output_to_settle
        }),
{
    let s0 = TerminalBytes { terminal_id, waiting_for_initial_output_to_settle: false, has_pending_write: false, finished: false };
    let body = chunks.map_values(|n: usize| ReadEvent::Bytes(n));
    let events = body.push(last);
    assert forall|i: int| 0 <= i < body.len() implies #[trigger] body[i] is Bytes && body[i]->0 > 0 by {}
    lemma_plain_run(s0, body);
    assert(events.drop_last() =~= body);
    assert forall|k: int| 0 <= k <= events.len() implies !(#[trigger] run(s0, events.take(k))).0.waiting_for_initial_output_to_settle by {
        if k <= body.len() {
            assert(events.take(k) =~= body.take(k));
            assert forall|i: int| 0 <= i < body.take(k).len() implies #[trigger] body.take(k)[i] is Bytes && body.take(k)[i]->0 > 0 by {
                assert(body.take(k)[i] == body[i]);
            }
            lemma_plain_run(s0, body.take(k));
        } else {
            assert(events.take(k) =~= events);
            assert(events.take(k).drop_last() =~= body);
        }
    }
}

} // verus!
