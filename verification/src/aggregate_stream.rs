//! The decisions of the cuDF aggregate stream, as a state machine.
//!
//! Input batches are accumulated into a pending buffer. Once the buffer reaches
//! the configured byte budget (or input is exhausted), pending batches are
//! concatenated on the GPU into a single table and aggregated in one kernel
//! call. The result (at most G rows, where G is the group cardinality) is merged
//! into the running state using the standard partial-state merge. After all
//! input is consumed, a single output batch is produced from the running state,
//! if there is one. The host side performs the GPU work that each step names
//! and reports how it went.
use vstd::prelude::*;
use crate::aggregate::{
    output_layout, spec_output_layout, AggregateMode, ColumnMapping, OutputColumn,
};

verus! {

/// What a poll of the aggregate's input gave.
#[derive(Clone, Copy, PartialEq, Eq, Debug, Structural)]
pub enum AggregateInput {
    /// A record batch holding this many bytes.
    Batch { bytes: usize },
    /// An error, which the stream passes on.
    Error,
    /// The end of the input.
    End,
}

/// Where the stream stands.
#[derive(Clone, Copy, PartialEq, Eq, Debug, Structural)]
pub enum AggregatePhase {
    ReadingInput,
    ProducingOutput,
    Done,
}

/// State of a cuDF aggregate stream.
#[derive(Clone, Copy, PartialEq, Eq, Debug, Structural)]
pub struct AggregateStreamState {
    pub phase: AggregatePhase,
    /// Batches accumulated since the last flush.
    pub pending_batches: usize,
    /// Estimated GPU memory held by the pending batches (saturating).
    pub pending_bytes: usize,
    /// Target input bytes accumulated before running an aggregate/merge cycle.
    pub chunk_target_bytes: usize,
    /// Whether there is a running state (unique keys and state columns).
    pub has_running: bool,
}

/// What a flush does with the pending batches, once they are concatenated and
/// aggregated into a chunk result.
#[derive(Clone, Copy, PartialEq, Eq, Debug, Structural)]
pub enum Flush {
    /// There is no running state yet: the chunk result becomes it.
    Store,
    /// Concatenate the running state with the chunk result and aggregate them
    /// again with the merge requests.
    Merge,
}

/// How a flush went on the GPU.
#[derive(Clone, Copy, PartialEq, Eq, Debug, Structural)]
pub enum FlushOutcome {
    /// The pending batches were aggregated into the running state.
    Done,
    /// Concatenating the pending batches failed: they stay pending.
    ConcatFailed,
    /// Evaluating or aggregating the concatenated chunk failed: the pending
    /// batches are dropped and the running state is kept.
    ChunkFailed,
    /// Merging the chunk result into the running state failed: the pending
    /// batches and the running state are dropped.
    MergeFailed,
}

/// What the stream does after a poll of its input.
#[derive(Clone, Copy, PartialEq, Eq, Debug, Structural)]
pub enum InputAction {
    /// Yield the input's error.
    PassError,
    /// Hold the batch; where a flush is given, perform it and report how it
    /// went (a failure is yielded as the stream's error); then poll again.
    Hold { flush: Option<Flush> },
    /// The input has ended: produce the output.
    Produce,
}

/// The flush of the pending batches: none where nothing is pending.
pub open spec fn due_flush(s: AggregateStreamState) -> Option<Flush> {
    if s.pending_batches == 0 {
        None
    } else {
        Some(if s.has_running { Flush::Merge } else { Flush::Store })
    }
}

/// The state after a flush went as `o` says.
pub open spec fn flushed_next(s: AggregateStreamState, o: FlushOutcome) -> AggregateStreamState {
    match o {
        FlushOutcome::Done => AggregateStreamState { pending_batches: 0, pending_bytes: 0, has_running: true, ..s },
        FlushOutcome::ConcatFailed => s,
        FlushOutcome::ChunkFailed => AggregateStreamState { pending_batches: 0, pending_bytes: 0, ..s },
        FlushOutcome::MergeFailed => AggregateStreamState {
            pending_batches: 0,
            pending_bytes: 0,
            has_running: false,
            ..s
        },
    }
}

/// The next state and action on an input event, while reading input.
pub open spec fn input_next(s: AggregateStreamState, e: AggregateInput) -> (AggregateStreamState, InputAction) {
    match e {
        AggregateInput::Batch { bytes } => {
            let bytes_now = if s.pending_bytes + bytes > usize::MAX {
                usize::MAX
            } else {
                (s.pending_bytes + bytes) as usize
            };
            let held = AggregateStreamState {
                pending_batches: (s.pending_batches + 1) as usize,
                pending_bytes: bytes_now,
                ..s
            };
            (held, InputAction::Hold { flush: if bytes_now >= s.chunk_target_bytes { due_flush(held) } else { None } })
        },
        AggregateInput::Error => (s, InputAction::PassError),
        AggregateInput::End => (
            AggregateStreamState { phase: AggregatePhase::ProducingOutput, ..s },
            InputAction::Produce,
        ),
    }
}

impl AggregateStreamState {
    /// A stream that has read nothing; a byte budget of zero is taken as one.
    pub fn new(chunk_target_bytes: usize) -> (r: AggregateStreamState)
        ensures
            r == (AggregateStreamState {
                phase: AggregatePhase::ReadingInput,
                pending_batches: 0,
                pending_bytes: 0,
                chunk_target_bytes: if chunk_target_bytes == 0 { 1 } else { chunk_target_bytes },
                has_running: false,
            }),
    {
        AggregateStreamState {
            phase: AggregatePhase::ReadingInput,
            pending_batches: 0,
            pending_bytes: 0,
            chunk_target_bytes: if chunk_target_bytes > 1 { chunk_target_bytes } else { 1 },
            has_running: false,
        }
    }

    fn due_flush(&self) -> (f: Option<Flush>)
        ensures
            f == due_flush(*self),
    {
        if self.pending_batches == 0 {
            None
        } else if self.has_running {
            Some(Flush::Merge)
        } else {
            Some(Flush::Store)
        }
    }

    /// Takes what a poll of the input gave, while reading input. The pending
    /// batches are held in a `Vec`, so there are fewer than `usize::MAX`.
    pub fn on_input(&mut self, e: AggregateInput) -> (a: InputAction)
        requires
            old(self).phase == AggregatePhase::ReadingInput,
            e is Batch ==> old(self).pending_batches < usize::MAX,
        ensures
            (*final(self), a) == input_next(*old(self), e),
    {
        match e {
            AggregateInput::Batch { bytes } => {
                self.pending_bytes = self.pending_bytes.saturating_add(bytes);
                self.pending_batches = self.pending_batches + 1;
                if self.pending_bytes >= self.chunk_target_bytes {
                    InputAction::Hold { flush: self.due_flush() }
                } else {
                    InputAction::Hold { flush: None }
                }
            },
            AggregateInput::Error => InputAction::PassError,
            AggregateInput::End => {
                self.phase = AggregatePhase::ProducingOutput;
                InputAction::Produce
            },
        }
    }

    /// Takes how a flush of the pending batches went. A failed merge can only
    /// come from a merge into a running state.
    pub fn flushed(&mut self, o: FlushOutcome)
        requires
            old(self).pending_batches > 0,
            o == FlushOutcome::MergeFailed ==> old(self).has_running,
        ensures
            *final(self) == flushed_next(*old(self), o),
    {
        match o {
            FlushOutcome::Done => {
                self.pending_batches = 0;
                self.pending_bytes = 0;
                self.has_running = true;
            },
            FlushOutcome::ConcatFailed => {},
            FlushOutcome::ChunkFailed => {
                self.pending_batches = 0;
                self.pending_bytes = 0;
            },
            FlushOutcome::MergeFailed => {
                self.pending_batches = 0;
                self.pending_bytes = 0;
                self.has_running = false;
            },
        }
    }

    /// Once the input has ended: the flush of what is still pending, to be
    /// performed and reported before the output is taken.
    pub fn produce(&self) -> (f: Option<Flush>)
        requires
            self.phase == AggregatePhase::ProducingOutput,
        ensures
            f == due_flush(*self),
    {
        self.due_flush()
    }

    /// Takes the running state for the output: whether there is an output
    /// batch to build from it. Nothing is pending any more.
    pub fn take_output(&mut self) -> (emit: bool)
        requires
            old(self).phase == AggregatePhase::ProducingOutput,
            old(self).pending_batches == 0,
        ensures
            emit == old(self).has_running,
            *final(self) == (AggregateStreamState { has_running: false, ..*old(self) }),
    {
        let emit = self.has_running;
        self.has_running = false;
        emit
    }

    /// The output was yielded (or there was none): the stream is done. Where
    /// building the output failed, the error is yielded instead and the stream
    /// produces again, with nothing left to flush or emit.
    pub fn finish(&mut self)
        requires
            old(self).phase == AggregatePhase::ProducingOutput,
        ensures
            *final(self) == (AggregateStreamState { phase: AggregatePhase::Done, ..*old(self) }),
    {
        self.phase = AggregatePhase::Done;
    }
}

/// The state after the stream read these batches, given by their sizes, where
/// every flush went through.
pub open spec fn after_batches(s: AggregateStreamState, bytes: Seq<usize>) -> AggregateStreamState
    decreases bytes.len(),
{
    if bytes.len() == 0 {
        s
    } else {
        let (t, a) = input_next(after_batches(s, bytes.drop_last()), AggregateInput::Batch { bytes: bytes.last() });
        match a {
            InputAction::Hold { flush: Some(_) } => flushed_next(t, FlushOutcome::Done),
            _ => t,
        }
    }
}

/// The state in which the output is taken, once the input has ended and the
/// last flush went through.
pub open spec fn before_output(s: AggregateStreamState) -> AggregateStreamState {
    let p = input_next(s, AggregateInput::End).0;
    match due_flush(p) {
        Some(_) => flushed_next(p, FlushOutcome::Done),
        None => p,
    }
}

/// While reading input, the pending bytes stay under the byte budget, and data
/// is held (pending or in the running state) exactly when some batch was read;
/// so, where every flush goes through, the output is a batch exactly when the
/// input had one.
pub proof fn lemma_aggregate_emits_iff_input(chunk_target_bytes: usize, bytes: Seq<usize>)
    requires
        chunk_target_bytes >= 1,
        bytes.len() < usize::MAX,
    ensures
        ({
            let s = after_batches(
                AggregateStreamState {
                    phase: AggregatePhase::ReadingInput,
                    pending_batches: 0,
                    pending_bytes: 0,
                    chunk_target_bytes,
                    has_running: false,
                },
                bytes,
            );
            &&& s.phase == AggregatePhase::ReadingInput
            &&& s.chunk_target_bytes == chunk_target_bytes
            &&& s.pending_bytes < chunk_target_bytes
            &&& s.pending_batches <= bytes.len()
            &&& (s.has_running || s.pending_batches > 0) <==> bytes.len() > 0
            &&& before_output(s).phase == AggregatePhase::ProducingOutput
            &&& before_output(s).pending_batches == 0
            &&& before_output(s).has_running <==> bytes.len() > 0
        }),
    decreases bytes.len(),
{
    if bytes.len() > 0 {
        lemma_aggregate_emits_iff_input(chunk_target_bytes, bytes.drop_last());
    }
}

/// A failed flush never makes data appear: afterwards the stream holds data
/// only where it held some before, and a failed concatenation loses nothing.
pub proof fn lemma_failed_flush_adds_nothing(s: AggregateStreamState, o: FlushOutcome)
    requires
        o != FlushOutcome::Done,
    ensures
        flushed_next(s, o).has_running ==> s.has_running,
        flushed_next(s, o).pending_batches <= s.pending_batches,
        o == FlushOutcome::ConcatFailed ==> flushed_next(s, o) == s,
        flushed_next(s, o).phase == s.phase,
{
}

/// The output columns the stream builds from its running state: the key
/// columns, then per aggregate its slice of the state columns (Partial mode) or
/// its finalized result.
pub fn build_output_layout(mode: AggregateMode, num_keys: usize, mapping: &ColumnMapping) -> (r: Vec<
    OutputColumn,
>)
    ensures
        r@ == spec_output_layout(mode, num_keys as nat, mapping.ranges@.map_values(|x: (usize, usize)| x.1)),
{
    let mut counts: Vec<usize> = Vec::new();
    let mut i: usize = 0;
    while i < mapping.ranges.len()
        invariant
            i <= mapping.ranges.len(),
            counts@ == mapping.ranges@.take(i as int).map_values(|x: (usize, usize)| x.1),
        decreases mapping.ranges.len() - i,
    {
        counts.push(mapping.ranges[i].1);
        assert(mapping.ranges@.take(i as int + 1) == mapping.ranges@.take(i as int).push(mapping.ranges@[i as int]));
        i = i + 1;
        assert(counts@ =~= mapping.ranges@.take(i as int).map_values(|x: (usize, usize)| x.1));
    }
    assert(mapping.ranges@.take(i as int) == mapping.ranges@);
    output_layout(mode, num_keys, &counts)
}

/// The batch the stream builds has the columns of the output schema: where the
/// column mapping was built from the same numbers of state columns that the
/// aggregates' state fields have, the built layout is the schema's.
pub proof fn lemma_output_matches_schema(
    mode: AggregateMode,
    num_keys: nat,
    ranges: Seq<(usize, usize)>,
    state_field_counts: Seq<usize>,
)
    requires
        ranges.len() == state_field_counts.len(),
        forall|i: int| 0 <= i < ranges.len() ==> #[trigger] ranges[i].1 == state_field_counts[i],
    ensures
        spec_output_layout(mode, num_keys, ranges.map_values(|x: (usize, usize)| x.1))
            == spec_output_layout(mode, num_keys, state_field_counts),
{
    assert(ranges.map_values(|x: (usize, usize)| x.1) =~= state_field_counts);
}

/// Why a chunk of pending batches could not be aggregated.
#[derive(Clone, Copy, PartialEq, Eq, Debug, Structural)]
pub enum ChunkError {
    /// `Expected single grouping set, got {sets}`
    GroupingSets { sets: usize },
    /// `Expected Array to be of type CuDFColumnView`: this group key column is on the host.
    KeyNotOnGpu { column: usize },
    /// `Expected Array to be of type CuDFColumnView after CuDFLoadExec`: this
    /// column of this pending batch is on the host.
    ColumnNotOnGpu { column: usize, batch: usize },
}

/// The group keys of a chunk come from a single grouping set, all on the GPU
/// (`on_gpu[i]` for key column `i`); the first host column is reported.
pub fn check_group_keys(sets: usize, on_gpu: &Vec<bool>) -> (r: Result<(), ChunkError>)
    ensures
        sets != 1 ==> r == Err::<(), ChunkError>(ChunkError::GroupingSets { sets }),
        sets == 1 ==> match r {
            Ok(_) => forall|i: int| 0 <= i < on_gpu.len() ==> #[trigger] on_gpu@[i],
            Err(e) => exists|c: int|
                0 <= c < on_gpu.len() && !#[trigger] on_gpu@[c] && (forall|j: int| 0 <= j < c ==> on_gpu@[j])
                    && e == (ChunkError::KeyNotOnGpu { column: c as usize }),
        },
{
    if sets != 1 {
        return Err(ChunkError::GroupingSets { sets });
    }
    let mut i: usize = 0;
    while i < on_gpu.len()
        invariant
            i <= on_gpu.len(),
            sets == 1,
            forall|j: int| 0 <= j < i ==> #[trigger] on_gpu@[j],
        decreases on_gpu.len() - i,
    {
        if !on_gpu[i] {
            return Err(ChunkError::KeyNotOnGpu { column: i });
        }
        i = i + 1;
    }
    Ok(())
}

/// Whether every column of every pending batch is on the GPU; `on_gpu[b][i]`
/// for column `i` of batch `b`. Columns are concatenated one after the other,
/// so the first host column found is the first in column-major order.
pub fn check_concat_columns(num_columns: usize, on_gpu: &Vec<Vec<bool>>) -> (r: Result<(), ChunkError>)
    requires
        forall|b: int| 0 <= b < on_gpu.len() ==> (#[trigger] on_gpu@[b]).len() == num_columns,
    ensures
        r is Ok <==> forall|b: int, i: int|
            0 <= b < on_gpu.len() && 0 <= i < num_columns ==> #[trigger] on_gpu@[b]@[i],
        r matches Err(e) ==> exists|i: int, b: int|
            0 <= i < num_columns && 0 <= b < on_gpu.len() && !#[trigger] on_gpu@[b]@[i]
                && (forall|x: int, c: int| 0 <= x < on_gpu.len() && 0 <= c < i ==> on_gpu@[x]@[c])
                && (forall|x: int| 0 <= x < b ==> on_gpu@[x]@[i])
                && e == (ChunkError::ColumnNotOnGpu { column: i as usize, batch: b as usize }),
{
    let mut i: usize = 0;
    while i < num_columns
        invariant
            i <= num_columns,
            forall|b: int| 0 <= b < on_gpu.len() ==> (#[trigger] on_gpu@[b]).len() == num_columns,
            forall|b: int, c: int| 0 <= b < on_gpu.len() && 0 <= c < i ==> #[trigger] on_gpu@[b]@[c],
        decreases num_columns - i,
    {
        let mut b: usize = 0;
        while b < on_gpu.len()
            invariant
                i < num_columns,
                b <= on_gpu.len(),
                forall|x: int| 0 <= x < on_gpu.len() ==> (#[trigger] on_gpu@[x]).len() == num_columns,
                forall|x: int, c: int| 0 <= x < on_gpu.len() && 0 <= c < i ==> #[trigger] on_gpu@[x]@[c],
                forall|x: int| 0 <= x < b ==> #[trigger] on_gpu@[x]@[i as int],
            decreases on_gpu.len() - b,
        {
            if !on_gpu[b][i] {
                return Err(ChunkError::ColumnNotOnGpu { column: i, batch: b });
            }
            b = b + 1;
        }
        i = i + 1;
    }
    Ok(())
}

} // verus!
