//! The pinned-upload reaper: it keeps pinned host batches alive until the GPU
//! has finished uploading them.
//!
//! Batches whose upload has been enqueued arrive one by one. They are gathered
//! into an open group; a group is sealed with a CUDA event recorded after the
//! uploads once it holds `MAX_GROUP_BATCHES` batches or has been open for
//! `GROUP_INTERVAL_NANOS`. Sealed groups are released in the order they were
//! sealed, once their event has completed. Times are nanoseconds on a monotonic
//! clock that the caller reads.
use vstd::prelude::*;
use std::collections::VecDeque;

verus! {

/// Most batches in one group.
pub const MAX_GROUP_BATCHES: usize = 32;

/// Longest time a group stays open, in nanoseconds (5 ms).
pub const GROUP_INTERVAL_NANOS: u64 = 5_000_000;

/// How long the reaper waits for a batch before it looks at its groups, in
/// nanoseconds (1 ms).
pub const POLL_INTERVAL_NANOS: u64 = 1_000_000;

/// CUDA's `cudaEventDisableTiming` flag, with which the group events are created.
pub const CUDA_EVENT_DISABLE_TIMING: u32 = 2;

/// Whether pinned upload batches are kept by the reaper, from the value of the
/// `LIBCUDF_PINNED_UPLOAD_REAPER` environment variable: yes unless it is `0`.
pub fn pinned_upload_reaper_enabled_from(value: Option<String>) -> (r: bool)
    ensures
        r == match value {
            None => true,
            Some(v) => v@ != "0"@,
        },
{
    match value {
        None => true,
        Some(v) => v != "0".to_owned(),
    }
}

/// A sealed group: its batches, and the event recorded after their uploads.
pub struct SealedGroup<B, E> {
    pub batches: Vec<B>,
    pub event: E,
}

/// The batches of the groups, group after group.
pub open spec fn flatten<B, E>(groups: Seq<SealedGroup<B, E>>) -> Seq<B>
    decreases groups.len(),
{
    if groups.len() == 0 {
        Seq::empty()
    } else {
        flatten(groups.drop_last()) + groups.last().batches@
    }
}

proof fn lemma_flatten_push<B, E>(groups: Seq<SealedGroup<B, E>>, g: SealedGroup<B, E>)
    ensures
        flatten(groups.push(g)) == flatten(groups) + g.batches@,
{
    assert(groups.push(g).drop_last() == groups);
}

proof fn lemma_flatten_split<B, E>(groups: Seq<SealedGroup<B, E>>, n: int)
    requires
        0 <= n <= groups.len(),
    ensures
        flatten(groups) == flatten(groups.take(n)) + flatten(groups.skip(n)),
    decreases groups.len(),
{
    if n == groups.len() {
        assert(groups.take(n) == groups);
        assert(groups.skip(n).len() == 0);
        assert(flatten(groups) + Seq::<B>::empty() == flatten(groups));
    } else {
        lemma_flatten_split(groups.drop_last(), n);
        assert(groups.drop_last().take(n) == groups.take(n));
        assert(groups.skip(n).drop_last() == groups.drop_last().skip(n));
        assert(groups.skip(n).last() == groups.last());
        assert(flatten(groups.take(n)) + flatten(groups.drop_last().skip(n)) + groups.last().batches@
            == flatten(groups.take(n)) + (flatten(groups.drop_last().skip(n)) + groups.last().batches@));
    }
}

proof fn lemma_held_after_reap<B, E>(start: Seq<SealedGroup<B, E>>, n: int, open: Seq<B>)
    requires
        0 <= n <= start.len(),
    ensures
        (flatten(start) + open).skip(flatten(start.take(n)).len() as int) == flatten(start.skip(n))
            + open,
{
    lemma_flatten_split(start, n);
    let a = flatten(start.take(n));
    let b = flatten(start.skip(n));
    assert((a + b + open).skip(a.len() as int) =~= b + open);
}

/// The reaper's groups: the open group, the time it was opened, and the sealed
/// groups in the order they were sealed.
pub struct UploadReaper<B, E> {
    open: Vec<B>,
    opened_at: u64,
    sealed: VecDeque<SealedGroup<B, E>>,
}

impl<B, E> UploadReaper<B, E> {
    /// Batches of the open group, in arrival order.
    pub closed spec fn open_batches(&self) -> Seq<B> {
        self.open@
    }

    /// When the open group's interval started.
    pub closed spec fn opened_at(&self) -> u64 {
        self.opened_at
    }

    /// The sealed groups, oldest first.
    pub closed spec fn sealed_groups(&self) -> Seq<SealedGroup<B, E>> {
        self.sealed@
    }

    /// Every batch the reaper keeps alive, in arrival order.
    pub open spec fn held(&self) -> Seq<B> {
        flatten(self.sealed_groups()) + self.open_batches()
    }

    /// A reaper with no batch, whose interval starts now.
    pub fn new(now: u64) -> (r: UploadReaper<B, E>)
        ensures
            r.open_batches() == Seq::<B>::empty(),
            r.sealed_groups() == Seq::<SealedGroup<B, E>>::empty(),
            r.opened_at() == now,
    {
        UploadReaper { open: Vec::new(), opened_at: now, sealed: VecDeque::new() }
    }

    /// Number of batches in the open group.
    pub fn open_len(&self) -> (r: usize)
        ensures
            r == self.open_batches().len(),
    {
        self.open.len()
    }

    /// Number of sealed groups.
    pub fn sealed_len(&self) -> (r: usize)
        ensures
            r == self.sealed_groups().len(),
    {
        self.sealed.len()
    }

    /// Adds a batch to the open group; the group's interval starts with its
    /// first batch.
    pub fn push_open_batch(&mut self, batch: B, now: u64)
        ensures
            final(self).open_batches() == old(self).open_batches().push(batch),
            final(self).sealed_groups() == old(self).sealed_groups(),
            final(self).opened_at() == if old(self).open_batches().len() == 0 {
                now
            } else {
                old(self).opened_at()
            },
            final(self).held() == old(self).held().push(batch),
    {
        if self.open.len() == 0 {
            self.opened_at = now;
        }
        self.open.push(batch);
        assert(self.held() =~= old(self).held().push(batch));
    }

    /// Whether the open group has room for another batch before it is sealed.
    pub fn has_room(&self) -> (r: bool)
        ensures
            r == (self.open_batches().len() < MAX_GROUP_BATCHES),
    {
        self.open.len() < MAX_GROUP_BATCHES
    }

    /// Whether the open group is full and is to be sealed.
    pub fn is_full(&self) -> (r: bool)
        ensures
            r == (self.open_batches().len() >= MAX_GROUP_BATCHES),
    {
        self.open.len() >= MAX_GROUP_BATCHES
    }

    /// Whether the open group holds batches and has been open for the group
    /// interval (a clock reading before the opening counts as no time).
    pub fn interval_elapsed(&self, now: u64) -> (r: bool)
        ensures
            r == (self.open_batches().len() > 0 && now >= self.opened_at() && now - self.opened_at()
                >= GROUP_INTERVAL_NANOS),
    {
        self.open.len() > 0 && now.saturating_sub(self.opened_at) >= GROUP_INTERVAL_NANOS
    }

    /// Seals the open group with `event`, recorded after its uploads, and starts
    /// a new interval; with no open batch only the interval restarts and the
    /// event is not kept.
    pub fn seal_open_group(&mut self, event: E, now: u64)
        ensures
            final(self).opened_at() == now,
            final(self).open_batches() == Seq::<B>::empty(),
            old(self).open_batches().len() == 0 ==> final(self).sealed_groups() == old(
                self,
            ).sealed_groups(),
            old(self).open_batches().len() > 0 ==> {
                &&& final(self).sealed_groups().len() == old(self).sealed_groups().len() + 1
                &&& final(self).sealed_groups().drop_last() == old(self).sealed_groups()
                &&& final(self).sealed_groups().last().batches@ == old(self).open_batches()
                &&& final(self).sealed_groups().last().event == event
            },
            final(self).held() == old(self).held(),
    {
        if self.open.len() == 0 {
            self.opened_at = now;
            assert(self.held() =~= old(self).held());
            return;
        }
        let mut batches: Vec<B> = Vec::new();
        std::mem::swap(&mut batches, &mut self.open);
        let ghost g = SealedGroup { batches, event };
        self.sealed.push_back(SealedGroup { batches, event });
        self.opened_at = now;
        proof {
            lemma_flatten_push(old(self).sealed@, g);
            assert(self.sealed@.drop_last() =~= old(self).sealed@);
            assert(self.held() =~= old(self).held());
        }
    }

    /// Releases the oldest sealed groups whose event `query` reports complete,
    /// in order, stopping at the first that is not; gives their number. A failed
    /// query is passed on, and the groups released before it stay released.
    pub fn reap_completed_groups<X, F: Fn(&E) -> Result<bool, X>>(&mut self, query: F) -> (r: Result<usize, X>)
        requires
            forall|e: &E| #[trigger] query.requires((e,)),
        ensures
            final(self).open_batches() == old(self).open_batches(),
            final(self).opened_at() == old(self).opened_at(),
            exists|n: int|
                0 <= n <= old(self).sealed_groups().len() && final(self).sealed_groups() == old(
                    self,
                ).sealed_groups().skip(n) && final(self).held() == old(self).held().skip(
                    flatten(old(self).sealed_groups().take(n)).len() as int,
                ) && (forall|i: int|
                    0 <= i < n ==> query.ensures((&old(self).sealed_groups()[i].event,), Ok(true)))
                    && match r {
                    Ok(count) => count == n && (n == old(self).sealed_groups().len()
                        || query.ensures((&old(self).sealed_groups()[n].event,), Ok(false))),
                    Err(x) => n < old(self).sealed_groups().len() && query.ensures(
                        (&old(self).sealed_groups()[n].event,),
                        Err(x),
                    ),
                },
    {
        let ghost start = self.sealed@;
        let total = self.sealed.len();
        let mut completed: usize = 0;
        assert(start.skip(0) == start);
        while self.sealed.len() > 0
            invariant
                self.open@ == old(self).open@,
                self.opened_at == old(self).opened_at,
                start == old(self).sealed@,
                start.len() == total,
                completed <= start.len(),
                self.sealed@ == start.skip(completed as int),
                forall|e: &E| #[trigger] query.requires((e,)),
                forall|i: int| 0 <= i < completed ==> query.ensures((&start[i].event,), Ok(true)),
            decreases self.sealed.len(),
        {
            let done = query(&self.sealed[0].event);
            assert(self.sealed@[0] == start[completed as int]);
            match done {
                Err(x) => {
                    proof {
                        lemma_held_after_reap(start, completed as int, self.open@);
                        assert(self.held() == old(self).held().skip(flatten(start.take(completed as int)).len() as int));
                    }
                    return Err(x);
                },
                Ok(false) => {
                    proof {
                        lemma_held_after_reap(start, completed as int, self.open@);
                        assert(self.held() == old(self).held().skip(flatten(start.take(completed as int)).len() as int));
                    }
                    return Ok(completed);
                },
                Ok(true) => {},
            }
            let _ = self.sealed.pop_front();
            assert(self.sealed@ =~= start.skip(completed as int + 1));
            completed = completed + 1;
        }
        proof {
            lemma_held_after_reap(start, completed as int, self.open@);
            assert(self.held() == old(self).held().skip(flatten(start.take(completed as int)).len() as int));
        }
        Ok(completed)
    }

    /// Takes the oldest sealed group out, for the final synchronization.
    pub fn pop_front_group(&mut self) -> (r: Option<SealedGroup<B, E>>)
        ensures
            final(self).open_batches() == old(self).open_batches(),
            match r {
                Some(g) => old(self).sealed_groups().len() > 0 && g == old(self).sealed_groups()[0]
                    && final(self).sealed_groups() == old(self).sealed_groups().skip(1),
                None => old(self).sealed_groups().len() == 0 && final(self).sealed_groups() == old(
                    self,
                ).sealed_groups(),
            },
    {
        let r = self.sealed.pop_front();
        assert(r is Some ==> self.sealed@ =~= old(self).sealed@.skip(1));
        r
    }
}

/// Every group holds at most `MAX_GROUP_BATCHES` batches, and every sealed
/// group holds at least one.
pub open spec fn groups_bounded<B, E>(r: UploadReaper<B, E>) -> bool {
    &&& r.open_batches().len() <= MAX_GROUP_BATCHES
    &&& forall|i: int|
        0 <= i < r.sealed_groups().len() ==> 0 < (#[trigger] r.sealed_groups()[i]).batches@.len()
            <= MAX_GROUP_BATCHES
}

/// What the reaper task heard from its channel.
pub enum ReaperInput<B> {
    /// A batch whose upload has been enqueued.
    Batch(B),
    /// No batch was ready: the channel was empty, or the poll interval passed.
    NothingReady,
    /// Every sender is gone.
    Closed,
}

/// What the reaper task does next.
#[derive(Clone, Copy, PartialEq, Eq, Debug, Structural)]
pub enum ReaperAction {
    /// Take the next batch from the channel where one is ready, without waiting.
    ReceiveNow,
    /// Record an event on the default stream, after the open group's uploads,
    /// and seal the open group with it.
    Seal,
    /// Release the oldest sealed groups whose event has completed.
    Reap,
    /// Wait up to the poll interval for the next batch.
    Wait,
    /// Take the sealed groups oldest first, and synchronize on each one's event
    /// before dropping its batches; then the task ends.
    Drain,
}

/// The end of a pass over the channel: seal the open group where it is full or
/// has been open for the group interval, else reap.
pub open spec fn pass_end<B, E>(r: UploadReaper<B, E>, now: u64) -> ReaperAction {
    if r.open_batches().len() >= MAX_GROUP_BATCHES || (r.open_batches().len() > 0 && now >= r.opened_at()
        && now - r.opened_at() >= GROUP_INTERVAL_NANOS) {
        ReaperAction::Seal
    } else {
        ReaperAction::Reap
    }
}

/// The reaper task: its groups, whether its channel is closed, and whether the
/// last seal, once the channel closed, is under way.
pub struct ReaperTask<B, E> {
    pub reaper: UploadReaper<B, E>,
    pub closed: bool,
    pub finishing: bool,
}

impl<B, E> ReaperTask<B, E> {
    /// A task with no batch, whose interval starts now; it first waits.
    pub fn new(now: u64) -> (r: ReaperTask<B, E>)
        ensures
            r.reaper.open_batches() == Seq::<B>::empty(),
            r.reaper.sealed_groups() == Seq::<SealedGroup<B, E>>::empty(),
            r.reaper.opened_at() == now,
            !r.closed,
            !r.finishing,
            groups_bounded(r.reaper),
    {
        ReaperTask { reaper: UploadReaper::new(now), closed: false, finishing: false }
    }

    fn end_pass(&self, now: u64) -> (a: ReaperAction)
        ensures
            a == pass_end(self.reaper, now),
    {
        if self.reaper.is_full() || self.reaper.interval_elapsed(now) {
            ReaperAction::Seal
        } else {
            ReaperAction::Reap
        }
    }

    /// Takes what the channel gave, after `Wait` or `ReceiveNow`. A batch joins
    /// the open group, and more are taken at once while the group has room;
    /// otherwise the pass ends. The task only receives while the open group has
    /// room.
    pub fn on_input(&mut self, input: ReaperInput<B>, now: u64) -> (a: ReaperAction)
        requires
            !old(self).closed,
            old(self).reaper.open_batches().len() < MAX_GROUP_BATCHES,
        ensures
            final(self).finishing == old(self).finishing,
            groups_bounded(old(self).reaper) ==> groups_bounded(final(self).reaper),
            match input {
                ReaperInput::Batch(b) => {
                    &&& final(self).reaper.open_batches() == old(self).reaper.open_batches().push(b)
                    &&& final(self).reaper.sealed_groups() == old(self).reaper.sealed_groups()
                    &&& final(self).reaper.opened_at() == if old(self).reaper.open_batches().len() == 0 {
                        now
                    } else {
                        old(self).reaper.opened_at()
                    }
                    &&& !final(self).closed
                    &&& a == if final(self).reaper.open_batches().len() < MAX_GROUP_BATCHES {
                        ReaperAction::ReceiveNow
                    } else {
                        pass_end(final(self).reaper, now)
                    }
                },
                ReaperInput::NothingReady => {
                    &&& final(self).reaper == old(self).reaper
                    &&& !final(self).closed
                    &&& a == pass_end(old(self).reaper, now)
                },
                ReaperInput::Closed => {
                    &&& final(self).reaper == old(self).reaper
                    &&& final(self).closed
                    &&& a == pass_end(old(self).reaper, now)
                },
            },
    {
        match input {
            ReaperInput::Batch(b) => {
                self.reaper.push_open_batch(b, now);
                if self.reaper.has_room() {
                    ReaperAction::ReceiveNow
                } else {
                    self.end_pass(now)
                }
            },
            ReaperInput::NothingReady => self.end_pass(now),
            ReaperInput::Closed => {
                self.closed = true;
                self.end_pass(now)
            },
        }
    }

    /// Takes the event recorded for a `Seal` and seals the open group with it;
    /// the task then reaps, or drains where this was the last seal.
    pub fn on_sealed(&mut self, event: E, now: u64) -> (a: ReaperAction)
        requires
            old(self).reaper.open_batches().len() > 0,
        ensures
            final(self).closed == old(self).closed,
            final(self).finishing == old(self).finishing,
            final(self).reaper.open_batches() == Seq::<B>::empty(),
            final(self).reaper.opened_at() == now,
            final(self).reaper.sealed_groups().len() == old(self).reaper.sealed_groups().len() + 1,
            final(self).reaper.sealed_groups().drop_last() == old(self).reaper.sealed_groups(),
            final(self).reaper.sealed_groups().last().batches@ == old(self).reaper.open_batches(),
            final(self).reaper.sealed_groups().last().event == event,
            groups_bounded(old(self).reaper) ==> groups_bounded(final(self).reaper),
            a == if old(self).finishing { ReaperAction::Drain } else { ReaperAction::Reap },
    {
        self.reaper.seal_open_group(event, now);
        proof {
            let s = final(self).reaper.sealed_groups();
            if groups_bounded(old(self).reaper) {
                assert forall|i: int| 0 <= i < s.len() implies 0 < (#[trigger] s[i]).batches@.len() <= MAX_GROUP_BATCHES by {
                    if i < s.len() - 1 {
                        assert(s[i] == s.drop_last()[i]);
                    }
                }
            }
        }
        if self.finishing {
            ReaperAction::Drain
        } else {
            ReaperAction::Reap
        }
    }

    /// After a reap: wait for more batches while the channel is open; once it
    /// is closed, seal what is still open and then drain.
    pub fn after_reap(&mut self) -> (a: ReaperAction)
        ensures
            final(self).reaper == old(self).reaper,
            final(self).closed == old(self).closed,
            final(self).finishing == old(self).closed,
            a == if !old(self).closed {
                ReaperAction::Wait
            } else if old(self).reaper.open_batches().len() > 0 {
                ReaperAction::Seal
            } else {
                ReaperAction::Drain
            },
    {
        self.finishing = self.closed;
        if !self.closed {
            return ReaperAction::Wait;
        }
        if self.reaper.open_len() > 0 {
            ReaperAction::Seal
        } else {
            ReaperAction::Drain
        }
    }
}

/// A step of the reaper, as its groups see it.
pub enum ReaperOp<B, E> {
    /// A batch whose upload was enqueued joins the open group.
    Receive(B),
    /// The open group is sealed with an event recorded after its uploads (with
    /// no open batch, nothing is sealed).
    Seal(E),
    /// The oldest `n` sealed groups are released: their events have completed
    /// (a query reported it, or the task synchronized on them).
    Release(nat),
}

/// What the reaper has done after a run of steps: the groups it released, in
/// order, the sealed groups it holds, and its open group.
pub struct ReaperTrace<B, E> {
    pub released: Seq<(Seq<B>, E)>,
    pub sealed: Seq<(Seq<B>, E)>,
    pub open: Seq<B>,
}

/// The trace of a run of steps from a reaper with no batch.
pub open spec fn reaper_run<B, E>(ops: Seq<ReaperOp<B, E>>) -> ReaperTrace<B, E>
    decreases ops.len(),
{
    if ops.len() == 0 {
        ReaperTrace { released: Seq::empty(), sealed: Seq::empty(), open: Seq::empty() }
    } else {
        let t = reaper_run(ops.drop_last());
        match ops.last() {
            ReaperOp::Receive(b) => ReaperTrace { open: t.open.push(b), ..t },
            ReaperOp::Seal(e) => if t.open.len() == 0 {
                t
            } else {
                ReaperTrace { sealed: t.sealed.push((t.open, e)), open: Seq::empty(), ..t }
            },
            ReaperOp::Release(n) => {
                let k: int = if n <= t.sealed.len() { n as int } else { t.sealed.len() as int };
                ReaperTrace { released: t.released + t.sealed.take(k), sealed: t.sealed.skip(k), ..t }
            },
        }
    }
}

/// The batches received in a run, in order.
pub open spec fn received<B, E>(ops: Seq<ReaperOp<B, E>>) -> Seq<B>
    decreases ops.len(),
{
    if ops.len() == 0 {
        Seq::empty()
    } else {
        match ops.last() {
            ReaperOp::Receive(b) => received(ops.drop_last()).push(b),
            _ => received(ops.drop_last()),
        }
    }
}

/// The batches of groups, group after group.
pub open spec fn group_batches<B, E>(groups: Seq<(Seq<B>, E)>) -> Seq<B>
    decreases groups.len(),
{
    if groups.len() == 0 {
        Seq::empty()
    } else {
        group_batches(groups.drop_last()) + groups.last().0
    }
}

proof fn lemma_group_batches_add<B, E>(a: Seq<(Seq<B>, E)>, b: Seq<(Seq<B>, E)>)
    ensures
        group_batches(a + b) == group_batches(a) + group_batches(b),
    decreases b.len(),
{
    if b.len() == 0 {
        assert(a + b =~= a);
        assert(group_batches(a) + Seq::<B>::empty() =~= group_batches(a));
    } else {
        lemma_group_batches_add(a, b.drop_last());
        assert((a + b).drop_last() =~= a + b.drop_last());
        assert((a + b).last() == b.last());
        assert(group_batches(a) + group_batches(b.drop_last()) + b.last().0 =~= group_batches(a) + (group_batches(
            b.drop_last(),
        ) + b.last().0));
    }
}

/// Over any run of the reaper, every batch received is, in arrival order,
/// either released, held in a sealed group, or held in the open group: none is
/// lost, duplicated or reordered. Batches leave only with the group they were
/// sealed in, oldest group first, and only by a release, which comes after the
/// group's event (recorded after the group's batches arrived) completed.
pub proof fn lemma_reaper_run_keeps_batches<B, E>(ops: Seq<ReaperOp<B, E>>)
    ensures
        group_batches(reaper_run(ops).released) + group_batches(reaper_run(ops).sealed) + reaper_run(ops).open
            == received(ops),
    decreases ops.len(),
{
    if ops.len() > 0 {
        let p = ops.drop_last();
        lemma_reaper_run_keeps_batches(p);
        let t = reaper_run(p);
        let rel = group_batches(t.released);
        let sea = group_batches(t.sealed);
        match ops.last() {
            ReaperOp::Receive(b) => {
                assert(rel + sea + t.open.push(b) =~= (rel + sea + t.open).push(b));
            },
            ReaperOp::Seal(e) => {
                if t.open.len() > 0 {
                    assert(t.sealed.push((t.open, e)).drop_last() =~= t.sealed);
                    assert(rel + (sea + t.open) + Seq::<B>::empty() =~= rel + sea + t.open);
                }
            },
            ReaperOp::Release(n) => {
                let k: int = if n <= t.sealed.len() { n as int } else { t.sealed.len() as int };
                lemma_group_batches_add(t.released, t.sealed.take(k));
                lemma_group_batches_add(t.sealed.take(k), t.sealed.skip(k));
                assert(t.sealed.take(k) + t.sealed.skip(k) =~= t.sealed);
                let x = group_batches(t.sealed.take(k));
                let y = group_batches(t.sealed.skip(k));
                assert(rel + x + y + t.open =~= rel + (x + y) + t.open);
            },
        }
    }
}

/// The reaper holds what the trace says it holds.
pub open spec fn reaper_models<B, E>(r: UploadReaper<B, E>, t: ReaperTrace<B, E>) -> bool {
    &&& r.open_batches() == t.open
    &&& r.sealed_groups().len() == t.sealed.len()
    &&& forall|i: int|
        0 <= i < t.sealed.len() ==> (#[trigger] r.sealed_groups()[i]).batches@ == t.sealed[i].0
            && r.sealed_groups()[i].event == t.sealed[i].1
}

/// The reaper's operations are the steps of its runs: adding a batch
/// (`push_open_batch`) is a receive, sealing (`seal_open_group`) a seal, and
/// releasing the oldest groups (`reap_completed_groups`, or `pop_front_group`
/// once the task synchronized on the group's event) a release.
pub proof fn lemma_reaper_steps<B, E>(
    before: UploadReaper<B, E>,
    after: UploadReaper<B, E>,
    ops: Seq<ReaperOp<B, E>>,
    op: ReaperOp<B, E>,
)
    requires
        reaper_models(before, reaper_run(ops)),
        match op {
            ReaperOp::Receive(b) => after.open_batches() == before.open_batches().push(b) && after.sealed_groups()
                == before.sealed_groups(),
            ReaperOp::Seal(e) => {
                &&& after.open_batches() == Seq::<B>::empty()
                &&& before.open_batches().len() == 0 ==> after.sealed_groups() == before.sealed_groups()
                &&& before.open_batches().len() > 0 ==> {
                    &&& after.sealed_groups().len() == before.sealed_groups().len() + 1
                    &&& after.sealed_groups().drop_last() == before.sealed_groups()
                    &&& after.sealed_groups().last().batches@ == before.open_batches()
                    &&& after.sealed_groups().last().event == e
                }
            },
            ReaperOp::Release(n) => n <= before.sealed_groups().len() && after.open_batches() == before.open_batches()
                && after.sealed_groups() == before.sealed_groups().skip(n as int),
        },
    ensures
        reaper_models(after, reaper_run(ops.push(op))),
{
    let t = reaper_run(ops);
    assert(ops.push(op).drop_last() == ops);
    assert(ops.push(op).last() == op);
    let u = reaper_run(ops.push(op));
    match op {
        ReaperOp::Receive(b) => {
            assert(u.open == t.open.push(b));
            assert(before.open_batches() == t.open);
            assert(after.open_batches() == before.open_batches().push(b));
            assert(after.open_batches() == u.open);
            assert(u.sealed == t.sealed);
            assert(reaper_models(after, u));
        },
        ReaperOp::Seal(e) => {
            if before.open_batches().len() > 0 {
                assert forall|i: int| 0 <= i < u.sealed.len() implies (#[trigger] after.sealed_groups()[i]).batches@
                    == u.sealed[i].0 && after.sealed_groups()[i].event == u.sealed[i].1 by {
                    if i < t.sealed.len() {
                        assert(after.sealed_groups()[i] == after.sealed_groups().drop_last()[i]);
                    }
                }
                assert(u.open == Seq::<B>::empty());
            } else {
                assert(u == t);
                assert(after.open_batches() =~= u.open);
                assert forall|i: int| 0 <= i < u.sealed.len() implies (#[trigger] after.sealed_groups()[i]).batches@
                    == u.sealed[i].0 && after.sealed_groups()[i].event == u.sealed[i].1 by {
                    assert(after.sealed_groups()[i] == before.sealed_groups()[i]);
                }
            }
            assert(reaper_models(after, u));
        },
        ReaperOp::Release(n) => {
            assert(u.open == t.open);
            assert forall|i: int| 0 <= i < u.sealed.len() implies (#[trigger] after.sealed_groups()[i]).batches@
                == u.sealed[i].0 && after.sealed_groups()[i].event == u.sealed[i].1 by {
                assert(after.sealed_groups()[i] == before.sealed_groups()[i + n]);
                assert(u.sealed[i] == t.sealed[i + n]);
            }
            assert(reaper_models(after, u));
        },
    }
}

/// Releasing the oldest groups keeps every group within bounds.
pub proof fn lemma_reap_keeps_groups_bounded<B, E>(before: UploadReaper<B, E>, after: UploadReaper<B, E>, n: int)
    requires
        groups_bounded(before),
        0 <= n <= before.sealed_groups().len(),
        after.open_batches() == before.open_batches(),
        after.sealed_groups() == before.sealed_groups().skip(n),
    ensures
        groups_bounded(after),
{
    assert forall|i: int| 0 <= i < after.sealed_groups().len() implies 0 < (#[trigger] after.sealed_groups()[i]).batches@.len()
        <= MAX_GROUP_BATCHES by {
        assert(after.sealed_groups()[i] == before.sealed_groups()[i + n]);
    }
}

} // verus!
