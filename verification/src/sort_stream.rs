//! The decisions of the cuDF sort streams, as state machines.
//!
//! A cuDF sort pulls record batches from its input stream. The full sort holds
//! every batch and sorts their concatenation once the input ends. The top-K
//! sort (a sort with a fetch limit) holds at most `limit` rows at any time: when
//! a batch arrives it is concatenated with the rows held so far, and if there
//! are more than `limit` rows, they are sorted and only the first `limit` are
//! kept. The host side performs the GPU work that each step names.
use vstd::prelude::*;

verus! {

/// What a poll of the input stream gave.
#[derive(Clone, Copy, PartialEq, Eq, Debug, Structural)]
pub enum InputEvent {
    /// A record batch with this many rows; `on_gpu` where every column of it
    /// is a cuDF array.
    Batch { rows: usize, on_gpu: bool },
    /// An error, which the sort passes on.
    Error,
    /// The end of the input.
    End,
}

/// State of a top-K sort stream.
#[derive(Clone, Copy, PartialEq, Eq, Debug, Structural)]
pub struct TopKState {
    /// The fetch limit K.
    pub limit: usize,
    /// Number of rows held so far, if any batch was held.
    pub held: Option<usize>,
    /// Whether the stream has yielded its result or ended.
    pub finished: bool,
}

/// What a top-K sort does after a poll of its input.
#[derive(Clone, Copy, PartialEq, Eq, Debug, Structural)]
pub enum TopKAction {
    /// Yield the end of the stream.
    Done,
    /// Yield the input's error.
    PassError,
    /// Yield the error that a column of the batch is not a cuDF array.
    RejectBatch,
    /// Hold the new batch, after concatenating it with the rows held so far
    /// where `concat`, then sorting the rows by the keys and keeping the first
    /// `limit` of them where `trim`; then poll again. Where that GPU work fails,
    /// its error is yielded and the stream reports it.
    Hold { concat: bool, trim: bool },
    /// Sort the held rows by the keys and yield them as the result.
    Emit,
}

/// The state of a new top-K sort stream.
pub open spec fn topk_initial(limit: usize) -> TopKState {
    TopKState { limit, held: None, finished: false }
}

/// Rows held, zero where nothing is held.
pub open spec fn held_rows(s: TopKState) -> int {
    match s.held {
        Some(n) => n as int,
        None => 0,
    }
}

/// The next state and the action of a top-K sort stream on an input event.
pub open spec fn topk_next(s: TopKState, e: InputEvent) -> (TopKState, TopKAction) {
    if s.finished {
        (s, TopKAction::Done)
    } else {
        match e {
            InputEvent::Batch { rows, on_gpu } => if !on_gpu {
                (s, TopKAction::RejectBatch)
            } else {
                let merged = held_rows(s) + rows;
                let trim = merged > s.limit;
                let kept: usize = if trim { s.limit } else { merged as usize };
                (TopKState { held: Some(kept), ..s }, TopKAction::Hold { concat: s.held is Some, trim })
            },
            InputEvent::Error => (s, TopKAction::PassError),
            InputEvent::End => (
                TopKState { held: None, finished: true, ..s },
                if s.held is Some { TopKAction::Emit } else { TopKAction::Done },
            ),
        }
    }
}

impl TopKState {
    /// A top-K sort stream that has seen nothing yet.
    pub fn new(limit: usize) -> (r: TopKState)
        ensures
            r == topk_initial(limit),
    {
        TopKState { limit, held: None, finished: false }
    }

    /// Takes one input event and says what the stream does.
    pub fn step(&mut self, e: InputEvent) -> (a: TopKAction)
        ensures
            (*final(self), a) == topk_next(*old(self), e),
    {
        if self.finished {
            return TopKAction::Done;
        }
        match e {
            InputEvent::Batch { rows, on_gpu } => {
                if !on_gpu {
                    return TopKAction::RejectBatch;
                }
                let concat = self.held.is_some();
                let held: usize = match self.held {
                    Some(n) => n,
                    None => 0,
                };
                let (kept, trim) = match held.checked_add(rows) {
                    Some(merged) => {
                        if merged > self.limit {
                            (self.limit, true)
                        } else {
                            (merged, false)
                        }
                    },
                    None => (self.limit, true),
                };
                self.held = Some(kept);
                TopKAction::Hold { concat, trim }
            },
            InputEvent::Error => TopKAction::PassError,
            InputEvent::End => {
                let had = self.held.is_some();
                self.held = None;
                self.finished = true;
                if had {
                    TopKAction::Emit
                } else {
                    TopKAction::Done
                }
            },
        }
    }

    /// The GPU work of a `Hold` failed after the rows held so far were taken
    /// for it: they are lost, and the stream goes on with nothing held.
    pub fn merge_failed(&mut self)
        requires
            !old(self).finished,
        ensures
            *final(self) == (TopKState { held: None, ..*old(self) }),
    {
        self.held = None;
    }
}

/// Total rows of a sequence of batches.
pub open spec fn total_rows(rows: Seq<usize>) -> int
    decreases rows.len(),
{
    if rows.len() == 0 {
        0
    } else {
        total_rows(rows.drop_last()) + rows.last()
    }
}

/// The state after a top-K sort stream took these batches, in order.
pub open spec fn topk_after_batches(s: TopKState, rows: Seq<usize>) -> TopKState
    decreases rows.len(),
{
    if rows.len() == 0 {
        s
    } else {
        topk_next(topk_after_batches(s, rows.drop_last()), InputEvent::Batch { rows: rows.last(), on_gpu: true }).0
    }
}

/// However the input is cut into batches, a top-K sort holds exactly as many
/// rows as the input had so far, but never more than its limit: no row is
/// dropped while the input stays within the limit, and no more than `limit`
/// rows are ever held.
pub proof fn lemma_topk_holds_min_of_total_and_limit(limit: usize, rows: Seq<usize>)
    requires
        rows.len() > 0,
    ensures
        topk_after_batches(topk_initial(limit), rows).held is Some,
        held_rows(topk_after_batches(topk_initial(limit), rows)) == if total_rows(rows) > limit {
            limit as int
        } else {
            total_rows(rows)
        },
        !topk_after_batches(topk_initial(limit), rows).finished,
        topk_after_batches(topk_initial(limit), rows).limit == limit,
    decreases rows.len(),
{
    lemma_total_rows_nonnegative(rows);
    if rows.len() > 1 {
        lemma_topk_holds_min_of_total_and_limit(limit, rows.drop_last());
    } else {
        reveal_with_fuel(topk_after_batches, 2);
        reveal_with_fuel(total_rows, 2);
    }
}

proof fn lemma_total_rows_nonnegative(rows: Seq<usize>)
    ensures
        total_rows(rows) >= 0,
    decreases rows.len(),
{
    if rows.len() > 0 {
        lemma_total_rows_nonnegative(rows.drop_last());
    }
}

/// The state of a top-K sort stream after these input events, and what it did
/// on each.
pub open spec fn topk_run(s: TopKState, es: Seq<InputEvent>) -> (TopKState, Seq<TopKAction>)
    decreases es.len(),
{
    if es.len() == 0 {
        (s, Seq::empty())
    } else {
        let prev = topk_run(s, es.drop_last());
        let step = topk_next(prev.0, es.last());
        (step.0, prev.1.push(step.1))
    }
}

/// Some event before position `i` is the end of the input.
pub open spec fn ended_before(es: Seq<InputEvent>, i: int) -> bool {
    exists|q: int| 0 <= q < i && #[trigger] es[q] == InputEvent::End
}

/// Some event before position `i` is a batch held on the GPU.
pub open spec fn gpu_batch_before(es: Seq<InputEvent>, i: int) -> bool {
    exists|q: int| 0 <= q < i && (#[trigger] es[q] matches InputEvent::Batch { on_gpu: true, .. })
}

proof fn lemma_topk_run_state(limit: usize, es: Seq<InputEvent>)
    ensures
        topk_run(topk_initial(limit), es).1.len() == es.len(),
        topk_run(topk_initial(limit), es).0.limit == limit,
        topk_run(topk_initial(limit), es).0.finished == ended_before(es, es.len() as int),
        topk_run(topk_initial(limit), es).0.held is Some <==> !ended_before(es, es.len() as int) && gpu_batch_before(
            es,
            es.len() as int,
        ),
        es.len() > 0 ==> topk_run(topk_initial(limit), es).1.drop_last() == topk_run(topk_initial(limit), es.drop_last()).1,
    decreases es.len(),
{
    if es.len() > 0 {
        let p = es.drop_last();
        lemma_topk_run_state(limit, p);
        let n = es.len() - 1;
        assert forall|q: int| 0 <= q < n implies #[trigger] p[q] == es[q] by {}
        if ended_before(p, n) {
            let q = choose|q: int| 0 <= q < n && #[trigger] p[q] == InputEvent::End;
            assert(es[q] == InputEvent::End);
        }
        if gpu_batch_before(p, n) {
            let q = choose|q: int| 0 <= q < n && (#[trigger] p[q] matches InputEvent::Batch { on_gpu: true, .. });
            assert(es[q] matches InputEvent::Batch { on_gpu: true, .. });
        }
        if ended_before(es, n + 1) && !ended_before(p, n) {
            let q = choose|q: int| 0 <= q < n + 1 && #[trigger] es[q] == InputEvent::End;
            if q < n {
                assert(p[q] == InputEvent::End);
            }
        }
        if gpu_batch_before(es, n + 1) && !gpu_batch_before(p, n) {
            let q = choose|q: int| 0 <= q < n + 1 && (#[trigger] es[q] matches InputEvent::Batch { on_gpu: true, .. });
            if q < n {
                assert(p[q] matches InputEvent::Batch { on_gpu: true, .. });
            }
        }
        if es[n] == InputEvent::End {
            assert(ended_before(es, n + 1));
        }
        if es[n] matches InputEvent::Batch { on_gpu: true, .. } {
            assert(gpu_batch_before(es, n + 1));
        }
    }
}

/// Over any run of input events, a top-K sort stream emits at most one result:
/// at the first end of the input, exactly where a batch on the GPU came before
/// it. Until then it passes each input error on; from then on it only ends.
pub proof fn lemma_topk_run(limit: usize, es: Seq<InputEvent>)
    ensures
        topk_run(topk_initial(limit), es).1.len() == es.len(),
        forall|i: int|
            0 <= i < es.len() ==> (#[trigger] topk_run(topk_initial(limit), es).1[i] == TopKAction::Emit <==> (es[i]
                == InputEvent::End && !ended_before(es, i) && gpu_batch_before(es, i))),
        forall|i: int|
            0 <= i < es.len() && !ended_before(es, i) && es[i] == InputEvent::Error ==> #[trigger] topk_run(
                topk_initial(limit),
                es,
            ).1[i] == TopKAction::PassError,
        forall|i: int|
            0 <= i < es.len() && !ended_before(es, i) && (es[i] matches InputEvent::Batch { on_gpu: false, .. })
                ==> #[trigger] topk_run(topk_initial(limit), es).1[i] == TopKAction::RejectBatch,
        forall|i: int|
            0 <= i < es.len() && !ended_before(es, i) && (es[i] matches InputEvent::Batch { on_gpu: true, .. })
                ==> (#[trigger] topk_run(topk_initial(limit), es).1[i] matches TopKAction::Hold { concat, .. } && concat
                == gpu_batch_before(es, i)),
        forall|i: int|
            0 <= i < es.len() && ended_before(es, i) ==> #[trigger] topk_run(topk_initial(limit), es).1[i]
                == TopKAction::Done,
        forall|i: int, j: int|
            0 <= i < j < es.len() && #[trigger] topk_run(topk_initial(limit), es).1[i] == TopKAction::Emit
                ==> #[trigger] topk_run(topk_initial(limit), es).1[j] != TopKAction::Emit,
    decreases es.len(),
{
    lemma_topk_run_state(limit, es);
    if es.len() > 0 {
        let p = es.drop_last();
        let n = es.len() - 1;
        lemma_topk_run(limit, p);
        lemma_topk_run_state(limit, p);
        let acts = topk_run(topk_initial(limit), es).1;
        let pacts = topk_run(topk_initial(limit), p).1;
        assert forall|q: int| 0 <= q < n implies #[trigger] p[q] == es[q] by {}
        assert forall|i: int| 0 <= i < n implies #[trigger] acts[i] == pacts[i] by {
            assert(acts.drop_last()[i] == acts[i]);
        }
        assert forall|i: int| 0 <= i <= n implies ended_before(p, i) == ended_before(es, i) && gpu_batch_before(p, i)
            == gpu_batch_before(es, i) by {
            if ended_before(p, i) {
                let q = choose|q: int| 0 <= q < i && #[trigger] p[q] == InputEvent::End;
                assert(es[q] == InputEvent::End);
            }
            if ended_before(es, i) {
                let q = choose|q: int| 0 <= q < i && #[trigger] es[q] == InputEvent::End;
                assert(p[q] == InputEvent::End);
            }
            if gpu_batch_before(p, i) {
                let q = choose|q: int| 0 <= q < i && (#[trigger] p[q] matches InputEvent::Batch { on_gpu: true, .. });
                assert(es[q] matches InputEvent::Batch { on_gpu: true, .. });
            }
            if gpu_batch_before(es, i) {
                let q = choose|q: int| 0 <= q < i && (#[trigger] es[q] matches InputEvent::Batch { on_gpu: true, .. });
                assert(p[q] matches InputEvent::Batch { on_gpu: true, .. });
            }
        }
        assert(acts[n] == topk_next(topk_run(topk_initial(limit), p).0, es[n]).1);
        assert forall|i: int, j: int|
            0 <= i < j < es.len() && #[trigger] acts[i] == TopKAction::Emit implies #[trigger] acts[j] != TopKAction::Emit by {
            assert(es[i] == InputEvent::End);
            assert(ended_before(es, j));
        }
    }
}

/// State of a full sort stream.
#[derive(Clone, Copy, PartialEq, Eq, Debug, Structural)]
pub struct SortState {
    /// Number of batches held so far.
    pub held_batches: usize,
    /// Whether the stream has yielded its result or ended.
    pub finished: bool,
}

/// What a full sort does after a poll of its input.
#[derive(Clone, Copy, PartialEq, Eq, Debug, Structural)]
pub enum SortAction {
    /// Yield the end of the stream.
    Done,
    /// Yield the input's error.
    PassError,
    /// Yield the error that a column of the batch is not a cuDF array.
    RejectBatch,
    /// Hold the new batch and poll again.
    Hold,
    /// Concatenate the held batches, sort the rows by the keys and yield them.
    Emit,
}

/// The next state and the action of a full sort stream on an input event.
pub open spec fn sort_next(s: SortState, e: InputEvent) -> (SortState, SortAction) {
    if s.finished {
        (s, SortAction::Done)
    } else {
        match e {
            InputEvent::Batch { on_gpu, .. } => if on_gpu {
                (SortState { held_batches: (s.held_batches + 1) as usize, ..s }, SortAction::Hold)
            } else {
                (s, SortAction::RejectBatch)
            },
            InputEvent::Error => (s, SortAction::PassError),
            InputEvent::End => (
                SortState { held_batches: 0, finished: true },
                if s.held_batches > 0 { SortAction::Emit } else { SortAction::Done },
            ),
        }
    }
}

impl SortState {
    /// A full sort stream that has seen nothing yet.
    pub fn new() -> (r: SortState)
        ensures
            r == (SortState { held_batches: 0, finished: false }),
    {
        SortState { held_batches: 0, finished: false }
    }

    /// Takes one input event and says what the stream does. A stream cannot
    /// hold more batches than a `Vec` can.
    pub fn step(&mut self, e: InputEvent) -> (a: SortAction)
        requires
            e matches InputEvent::Batch { on_gpu: true, .. } && !old(self).finished ==> old(self).held_batches < usize::MAX,
        ensures
            (*final(self), a) == sort_next(*old(self), e),
    {
        if self.finished {
            return SortAction::Done;
        }
        match e {
            InputEvent::Batch { on_gpu, .. } => {
                if !on_gpu {
                    return SortAction::RejectBatch;
                }
                self.held_batches = self.held_batches + 1;
                SortAction::Hold
            },
            InputEvent::Error => SortAction::PassError,
            InputEvent::End => {
                let had = self.held_batches > 0;
                self.held_batches = 0;
                self.finished = true;
                if had {
                    SortAction::Emit
                } else {
                    SortAction::Done
                }
            },
        }
    }
}

/// Once a sort stream has ended it stays ended: every later poll yields the end.
pub proof fn lemma_sort_streams_stay_finished(t: TopKState, s: SortState, e: InputEvent)
    requires
        t.finished,
        s.finished,
    ensures
        topk_next(t, e) == (t, TopKAction::Done),
        sort_next(s, e) == (s, SortAction::Done),
{
}

/// The state of a full sort stream after these input events, and what it did
/// on each.
pub open spec fn sort_run(s: SortState, es: Seq<InputEvent>) -> (SortState, Seq<SortAction>)
    decreases es.len(),
{
    if es.len() == 0 {
        (s, Seq::empty())
    } else {
        let prev = sort_run(s, es.drop_last());
        let step = sort_next(prev.0, es.last());
        (step.0, prev.1.push(step.1))
    }
}

/// The number of batches on the GPU among the first `i` events.
pub open spec fn gpu_batches(es: Seq<InputEvent>, i: int) -> nat
    decreases i,
{
    if i <= 0 {
        0
    } else {
        gpu_batches(es, i - 1) + if es[i - 1] matches InputEvent::Batch { on_gpu: true, .. } { 1nat } else { 0nat }
    }
}

proof fn lemma_gpu_batches_positive(es: Seq<InputEvent>, i: int)
    ensures
        gpu_batches(es, i) > 0 <==> gpu_batch_before(es, i),
    decreases i,
{
    if i > 0 {
        lemma_gpu_batches_positive(es, i - 1);
        if gpu_batch_before(es, i) && !gpu_batch_before(es, i - 1) {
            let q = choose|q: int| 0 <= q < i && (#[trigger] es[q] matches InputEvent::Batch { on_gpu: true, .. });
            assert(q == i - 1);
        }
        if gpu_batch_before(es, i - 1) {
            let q = choose|q: int| 0 <= q < i - 1 && (#[trigger] es[q] matches InputEvent::Batch { on_gpu: true, .. });
            assert(0 <= q < i);
        }
        if es[i - 1] matches InputEvent::Batch { on_gpu: true, .. } {
            assert(gpu_batch_before(es, i));
        }
    }
}

proof fn lemma_ended_before_step(es: Seq<InputEvent>, i: int)
    requires
        0 < i,
    ensures
        ended_before(es, i) <==> (ended_before(es, i - 1) || es[i - 1] == InputEvent::End),
{
    if ended_before(es, i) && !ended_before(es, i - 1) {
        let q = choose|q: int| 0 <= q < i && #[trigger] es[q] == InputEvent::End;
        assert(q == i - 1);
    }
    if ended_before(es, i - 1) {
        let q = choose|q: int| 0 <= q < i - 1 && #[trigger] es[q] == InputEvent::End;
        assert(0 <= q < i);
    }
    if es[i - 1] == InputEvent::End {
        assert(ended_before(es, i));
    }
}

proof fn lemma_prefix_events(es: Seq<InputEvent>, i: int)
    requires
        0 <= i <= es.len() - 1,
    ensures
        ended_before(es.drop_last(), i) == ended_before(es, i),
        gpu_batches(es.drop_last(), i) == gpu_batches(es, i),
    decreases i,
{
    let p = es.drop_last();
    if ended_before(p, i) {
        let q = choose|q: int| 0 <= q < i && #[trigger] p[q] == InputEvent::End;
        assert(es[q] == InputEvent::End);
    }
    if ended_before(es, i) {
        let q = choose|q: int| 0 <= q < i && #[trigger] es[q] == InputEvent::End;
        assert(p[q] == InputEvent::End);
    }
    if i > 0 {
        lemma_prefix_events(es, i - 1);
        assert(p[i - 1] == es[i - 1]);
    }
}

proof fn lemma_sort_run_state(es: Seq<InputEvent>)
    requires
        gpu_batches(es, es.len() as int) <= usize::MAX,
    ensures
        sort_run(SortState { held_batches: 0, finished: false }, es).1.len() == es.len(),
        sort_run(SortState { held_batches: 0, finished: false }, es).0.finished == ended_before(es, es.len() as int),
        !ended_before(es, es.len() as int) ==> sort_run(SortState { held_batches: 0, finished: false }, es).0.held_batches
            == gpu_batches(es, es.len() as int),
        es.len() > 0 ==> sort_run(SortState { held_batches: 0, finished: false }, es).1.drop_last() == sort_run(
            SortState { held_batches: 0, finished: false },
            es.drop_last(),
        ).1,
    decreases es.len(),
{
    if es.len() > 0 {
        let p = es.drop_last();
        let n = es.len() - 1;
        lemma_prefix_events(es, n);
        lemma_sort_run_state(p);
        lemma_ended_before_step(es, n + 1);
    }
}

/// Over any run of input events, a full sort stream emits at most one result:
/// at the first end of the input, exactly where a batch on the GPU came before
/// it. Until then it holds each batch on the GPU, rejects any other batch and
/// passes input errors on; from then on it only ends. (The stream holds its
/// batches in a `Vec`, so there are at most `usize::MAX` of them.)
pub proof fn lemma_sort_run(es: Seq<InputEvent>)
    requires
        gpu_batches(es, es.len() as int) <= usize::MAX,
    ensures
        sort_run(SortState { held_batches: 0, finished: false }, es).1.len() == es.len(),
        forall|i: int|
            0 <= i < es.len() ==> (#[trigger] sort_run(SortState { held_batches: 0, finished: false }, es).1[i]
                == SortAction::Emit <==> (es[i] == InputEvent::End && !ended_before(es, i) && gpu_batch_before(es, i))),
        forall|i: int|
            0 <= i < es.len() && !ended_before(es, i) ==> (#[trigger] sort_run(
                SortState { held_batches: 0, finished: false },
                es,
            ).1[i] == match es[i] {
                InputEvent::Batch { on_gpu, .. } => if on_gpu { SortAction::Hold } else { SortAction::RejectBatch },
                InputEvent::Error => SortAction::PassError,
                InputEvent::End => if gpu_batch_before(es, i) { SortAction::Emit } else { SortAction::Done },
            }),
        forall|i: int|
            0 <= i < es.len() && ended_before(es, i) ==> #[trigger] sort_run(
                SortState { held_batches: 0, finished: false },
                es,
            ).1[i] == SortAction::Done,
    decreases es.len(),
{
    let init = SortState { held_batches: 0, finished: false };
    lemma_sort_run_state(es);
    if es.len() > 0 {
        let p = es.drop_last();
        let n = es.len() - 1;
        lemma_prefix_events(es, n);
        assert(gpu_batches(es, n + 1) >= gpu_batches(es, n));
        lemma_sort_run(p);
        lemma_sort_run_state(p);
        let acts = sort_run(init, es).1;
        let pacts = sort_run(init, p).1;
        assert forall|i: int| 0 <= i < n implies #[trigger] acts[i] == pacts[i] by {
            assert(acts.drop_last()[i] == acts[i]);
        }
        assert forall|i: int| 0 <= i <= n implies ended_before(p, i) == ended_before(es, i) && gpu_batch_before(p, i)
            == gpu_batch_before(es, i) by {
            lemma_prefix_events(es, i);
            lemma_gpu_batches_positive(p, i);
            lemma_gpu_batches_positive(es, i);
        }
        lemma_gpu_batches_positive(es, n);
        assert(acts[n] == sort_next(sort_run(init, p).0, es[n]).1);
    }
}

/// The stream a cuDF sort runs: a top-K sort where the sort has a fetch limit,
/// a full sort otherwise.
#[derive(Clone, Copy, PartialEq, Eq, Debug, Structural)]
pub enum CuDFSortStream {
    TopK(TopKState),
    Full(SortState),
}

pub fn sort_stream_for(fetch: Option<usize>) -> (r: CuDFSortStream)
    ensures
        r == match fetch {
            Some(limit) => CuDFSortStream::TopK(topk_initial(limit)),
            None => CuDFSortStream::Full(SortState { held_batches: 0, finished: false }),
        },
{
    match fetch {
        Some(limit) => CuDFSortStream::TopK(TopKState::new(limit)),
        None => CuDFSortStream::Full(SortState::new()),
    }
}

/// Which input a cuDF sort reads for one of its output partitions.
#[derive(Clone, Copy, PartialEq, Eq, Debug, Structural)]
pub enum SortInput {
    /// The same partition of the input.
    Partition(usize),
    /// All input partitions, merged into one stream.
    Merged,
}

/// A sort that keeps the input partitioning reads the same partition of its
/// input; otherwise it reads all of the input.
pub fn sort_input(preserve_partitioning: bool, partition: usize) -> (r: SortInput)
    ensures
        r == if preserve_partitioning { SortInput::Partition(partition) } else { SortInput::Merged },
{
    if preserve_partitioning {
        SortInput::Partition(partition)
    } else {
        SortInput::Merged
    }
}

} // verus!
