//! Query-scoped cuDF runtime state: the CUDA stream of each active GPU segment
//! and partition, and which stream an operator runs its work on.
use vstd::prelude::*;
use std::collections::HashMap;
use crate::config::ConfigOptions;
use crate::planner::CuDFConfig;

verus! {

broadcast use vstd::std_specs::hash::group_hash_axioms;

/// The key a `(segment, partition)` pair is stored under: the segment in the
/// high 64 bits, the partition in the low 64 bits.
pub open spec fn stream_key(segment_id: usize, partition: usize) -> u128 {
    (segment_id as int * 0x1_0000_0000_0000_0000 + partition as int) as u128
}

proof fn lemma_stream_key_injective(s1: usize, p1: usize, s2: usize, p2: usize)
    ensures
        stream_key(s1, p1) == stream_key(s2, p2) ==> s1 == s2 && p1 == p2,
{
    assert(p1 < 0x1_0000_0000_0000_0000 && p2 < 0x1_0000_0000_0000_0000);
    assert(s1 as int * 0x1_0000_0000_0000_0000 + p1 as int <= u128::MAX);
    assert(s2 as int * 0x1_0000_0000_0000_0000 + p2 as int <= u128::MAX);
    if s1 < s2 {
        assert(s1 as int * 0x1_0000_0000_0000_0000 + 0x1_0000_0000_0000_0000 <= s2 as int
            * 0x1_0000_0000_0000_0000) by (nonlinear_arith)
            requires
                s1 < s2,
        ;
    } else if s2 < s1 {
        assert(s2 as int * 0x1_0000_0000_0000_0000 + 0x1_0000_0000_0000_0000 <= s1 as int
            * 0x1_0000_0000_0000_0000) by (nonlinear_arith)
            requires
                s2 < s1,
        ;
    }
}

fn pack_key(segment_id: usize, partition: usize) -> (r: u128)
    ensures
        r == stream_key(segment_id, partition),
{
    segment_id as u128 * 0x1_0000_0000_0000_0000 + partition as u128
}

/// Query-scoped cuDF runtime state attached to a task context.
///
/// Holds the CUDA stream assigned to each active GPU segment + partition.
/// Streams are looked up by `(segment_id, partition)` so that a query plan
/// containing multiple GPU segments separated by CPU repartition boundaries
/// can use a fresh stream per segment.
pub struct CuDFTaskContext<S> {
    streams: HashMap<u128, S>,
}

impl<S> View for CuDFTaskContext<S> {
    type V = Map<(usize, usize), S>;

    closed spec fn view(&self) -> Map<(usize, usize), S> {
        Map::new(
            |k: (usize, usize)| self.streams@.contains_key(stream_key(k.0, k.1)),
            |k: (usize, usize)| self.streams@[stream_key(k.0, k.1)],
        )
    }
}

impl<S> CuDFTaskContext<S> {
    /// A context with no stream.
    pub fn new() -> (r: CuDFTaskContext<S>)
        ensures
            r@ == Map::<(usize, usize), S>::empty(),
    {
        let r = CuDFTaskContext { streams: HashMap::new() };
        assert(r@ =~= Map::<(usize, usize), S>::empty());
        r
    }

    /// The stream of this segment and partition, if one is set.
    pub fn stream(&self, segment_id: usize, partition: usize) -> (r: Option<&S>)
        ensures
            match r {
                Some(s) => self@.contains_key((segment_id, partition)) && *s == self@[(
                    segment_id,
                    partition,
                )],
                None => !self@.contains_key((segment_id, partition)),
            },
    {
        let key = pack_key(segment_id, partition);
        self.streams.get(&key)
    }

    /// Sets the stream of this segment and partition.
    pub fn set_stream(&mut self, segment_id: usize, partition: usize, stream: S)
        ensures
            final(self)@ == old(self)@.insert((segment_id, partition), stream),
    {
        let key = pack_key(segment_id, partition);
        self.streams.insert(key, stream);
        proof {
            assert forall|k: (usize, usize)| #[trigger] self@.contains_key(k) == old(self)@.insert(
                (segment_id, partition),
                stream,
            ).contains_key(k) by {
                lemma_stream_key_injective(k.0, k.1, segment_id, partition);
            }
            assert(self@ =~= old(self)@.insert((segment_id, partition), stream));
        }
    }

    /// Removes the stream of this segment and partition, and gives it back.
    pub fn unset_stream(&mut self, segment_id: usize, partition: usize) -> (r: Option<S>)
        ensures
            final(self)@ == old(self)@.remove((segment_id, partition)),
            r == old(self)@.get((segment_id, partition)),
    {
        let key = pack_key(segment_id, partition);
        let r = self.streams.remove(&key);
        proof {
            assert forall|k: (usize, usize)| #[trigger] self@.contains_key(k) == old(self)@.remove(
                (segment_id, partition),
            ).contains_key(k) by {
                lemma_stream_key_injective(k.0, k.1, segment_id, partition);
            }
            assert(self@ =~= old(self)@.remove((segment_id, partition)));
        }
        r
    }
}

/// What the stream registry gives back: the stream last set for a segment and
/// partition, until it is unset; setting or unsetting one pair leaves the
/// others as they were.
pub proof fn lemma_stream_registry<S>(
    m: Map<(usize, usize), S>,
    k: (usize, usize),
    other: (usize, usize),
    s: S,
)
    requires
        other != k,
    ensures
        m.insert(k, s).get(k) == Some(s),
        m.insert(k, s).remove(k).get(k) == None::<S>,
        m.insert(k, s).get(other) == m.get(other),
        m.remove(k).get(other) == m.get(other),
{
}

/// Whether CUDA streams are enabled: the cuDF options are registered and say so.
pub fn cuda_streams_enabled(options: &ConfigOptions<CuDFConfig>) -> (r: bool)
    ensures
        r == (match options.extension {
            Some(cfg) => cfg.cuda_streams,
            None => false,
        }),
{
    match &options.extension {
        Some(cfg) => cfg.cuda_streams,
        None => false,
    }
}

/// The registry entry an operator of GPU segment `segment_id` looks its stream
/// up under, for a partition: none where streams are disabled or for segment
/// `0`, the planner's "use the default stream" sentinel.
pub fn stream_lookup(cuda_streams: bool, segment_id: usize, partition: usize) -> (r: Option<(usize, usize)>)
    ensures
        r == (if cuda_streams && segment_id != 0 {
            Some((segment_id, partition))
        } else {
            None
        }),
{
    if cuda_streams && segment_id != 0 {
        Some((segment_id, partition))
    } else {
        None
    }
}

/// The registry entry a cuDF unload releases once its partition stream ends.
#[derive(Clone, Copy, PartialEq, Eq, Debug, Structural)]
pub struct StreamCleanup {
    pub segment_id: usize,
    pub partition: usize,
}

/// Why the cuDF task context could not be read.
#[derive(Clone, Copy, PartialEq, Eq, Debug, Structural)]
pub enum TaskContextError {
    /// `CuDFTaskContext extension not installed in TaskContext`
    NotInstalled,
}

/// The cuDF task context among the task context's extensions, `installed`
/// where one was installed.
pub fn task_context_from<'a, S>(installed: Option<&'a CuDFTaskContext<S>>) -> (r: Result<
    &'a CuDFTaskContext<S>,
    TaskContextError,
>)
    ensures
        match installed {
            Some(c) => r == Ok::<&CuDFTaskContext<S>, TaskContextError>(c),
            None => r == Err::<&CuDFTaskContext<S>, TaskContextError>(TaskContextError::NotInstalled),
        },
{
    match installed {
        Some(c) => Ok(c),
        None => Err(TaskContextError::NotInstalled),
    }
}

/// The stream a cuDF unload runs on, and the entry it releases at the end;
/// `installed` is the cuDF task context, where one is installed. Where streams
/// are disabled or for segment `0`, it runs on the default stream, releases
/// nothing and does not read the task context. Otherwise the task context must
/// be installed (else the error); where no stream is registered (segments with
/// non-stream-aware operators may have none), it runs on the default stream and
/// releases nothing.
pub fn unload_stream<'a, S>(
    installed: Option<&'a CuDFTaskContext<S>>,
    cuda_streams: bool,
    segment_id: usize,
    partition: usize,
) -> (r: Result<(Option<&'a S>, Option<StreamCleanup>), TaskContextError>)
    ensures
        !(cuda_streams && segment_id != 0) ==> r == Ok::<(Option<&S>, Option<StreamCleanup>), TaskContextError>(
            (None, None),
        ),
        cuda_streams && segment_id != 0 && installed is None ==> r == Err::<
            (Option<&S>, Option<StreamCleanup>),
            TaskContextError,
        >(TaskContextError::NotInstalled),
        cuda_streams && segment_id != 0 && installed is Some ==> ({
            let ctx = installed->0;
            match r {
                Ok((Some(s), cleanup)) => ctx@.contains_key((segment_id, partition)) && *s == ctx@[(
                    segment_id,
                    partition,
                )] && cleanup == Some(StreamCleanup { segment_id, partition }),
                Ok((None, cleanup)) => !ctx@.contains_key((segment_id, partition)) && cleanup is None,
                Err(_) => false,
            }
        }),
{
    match stream_lookup(cuda_streams, segment_id, partition) {
        Some((seg, part)) => {
            let ctx = task_context_from(installed)?;
            match ctx.stream(seg, part) {
                Some(s) => Ok((Some(s), Some(StreamCleanup { segment_id, partition }))),
                None => Ok((None, None)),
            }
        },
        None => Ok((None, None)),
    }
}

/// The release of an unload's stream entry, which happens once: when the batch
/// stream ends or is dropped, whichever comes first.
pub struct UnsetStreamOnEnd {
    pub cleanup: Option<StreamCleanup>,
}

impl UnsetStreamOnEnd {
    pub fn new(cleanup: Option<StreamCleanup>) -> (r: UnsetStreamOnEnd)
        ensures
            r.cleanup == cleanup,
    {
        UnsetStreamOnEnd { cleanup }
    }

    /// The entry to release now, if it has not been released yet; afterwards
    /// there is none left to release.
    pub fn cleanup(&mut self) -> (r: Option<StreamCleanup>)
        ensures
            r == old(self).cleanup,
            final(self).cleanup is None,
    {
        let r = self.cleanup;
        self.cleanup = None;
        r
    }

    /// After a poll of the batch stream: the entry to release, where the poll
    /// gave the end of the stream.
    pub fn on_poll(&mut self, ended: bool) -> (r: Option<StreamCleanup>)
        ensures
            ended ==> r == old(self).cleanup && final(self).cleanup is None,
            !ended ==> r is None && final(self).cleanup == old(self).cleanup,
    {
        if ended {
            self.cleanup()
        } else {
            None
        }
    }
}

} // verus!
