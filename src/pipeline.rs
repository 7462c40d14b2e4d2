use vstd::prelude::*;

verus! {

/// The blocks `start..end`.
#[derive(Clone, Copy, Debug, PartialEq, Eq, Structural)]
pub struct BlockRange {
    pub start: u64,
    pub end: u64,
}

/// Where a range stands: waiting for a worker, in its parallel step, waiting for its turn
/// in the sequential step, or in the sequential step.
#[derive(Clone, Copy, Debug, PartialEq, Eq, Structural)]
pub enum TaskState {
    Pending,
    Running,
    Ready,
    Sequential,
}

#[derive(Clone, Copy, Debug, PartialEq, Eq, Structural)]
pub struct PipelineTask {
    pub range: BlockRange,
    pub state: TaskState,
}

/// What the runner of a pipeline is asked to do next.
#[derive(Clone, Copy, Debug, PartialEq, Eq, Structural)]
pub enum PipelineAction {
    StartParallel(BlockRange),
    StartSequential(BlockRange),
}

pub open spec fn count_state(s: Seq<PipelineTask>, st: TaskState) -> nat
    decreases s.len(),
{
    if s.len() == 0 {
        0
    } else {
        count_state(s.drop_last(), st) + if s.last().state == st { 1nat } else { 0nat }
    }
}

proof fn lemma_count_bound(s: Seq<PipelineTask>, st: TaskState)
    ensures
        count_state(s, st) <= s.len(),
    decreases s.len(),
{
    if s.len() > 0 {
        lemma_count_bound(s.drop_last(), st);
    }
}

/// The tasks of a pipeline, in order of their ranges.
pub open spec fn tasks_ok(
    tasks: Seq<PipelineTask>,
    n_started: nat,
    parallelization: nat,
    batch_size: nat,
    next_input: u64,
) -> bool {
    &&& n_started <= tasks.len()
    &&& n_started <= parallelization
    &&& forall|i: int| 0 <= i < tasks.len() ==> #[trigger] tasks[i].range.start < tasks[i].range.end
    &&& forall|i: int| 0 <= i < tasks.len() ==> #[trigger] tasks[i].range.end - tasks[i].range.start <= batch_size
    &&& forall|i: int| 0 <= i < tasks.len() - 1 ==> #[trigger] tasks[i].range.end == tasks[i + 1].range.start
    &&& tasks.len() > 0 ==> tasks.last().range.end == next_input
    &&& forall|i: int| 0 <= i < tasks.len() ==> (#[trigger] tasks[i].state == TaskState::Pending <==> i >= n_started)
    &&& forall|i: int| 1 <= i < tasks.len() ==> #[trigger] tasks[i].state != TaskState::Sequential
}

/// The first block not yet handed to the sequential step.
pub open spec fn frontier(tasks: Seq<PipelineTask>, next_input: u64) -> u64 {
    if tasks.len() == 0 { next_input } else { tasks[0].range.start }
}

/// The ranges handed to the sequential step so far come in order of their start, below
/// the ranges still in the pipeline; the last is the one in its sequential step, if any.
pub open spec fn log_ok(log: Seq<BlockRange>, tasks: Seq<PipelineTask>, next_input: u64) -> bool {
    &&& forall|k: int| 0 <= k < log.len() - 1 ==> #[trigger] log[k].start < log[k + 1].start
    &&& forall|k: int| 0 <= k < log.len() ==> #[trigger] log[k].start <= frontier(tasks, next_input)
    &&& (tasks.len() > 0 && tasks[0].state == TaskState::Sequential) ==> log.len() > 0 && log.last() == tasks[0].range
    &&& (log.len() > 0 && !(tasks.len() > 0 && tasks[0].state == TaskState::Sequential)) ==> log.last().start
        < frontier(tasks, next_input)
}

/// The ranges that pushing `start..end` queues: consecutive, each of at most `batch` blocks,
/// all waiting.
pub open spec fn split_ranges(start: u64, end: u64, batch: nat) -> Seq<PipelineTask>
    decreases end - start,
{
    if start >= end || batch == 0 {
        Seq::empty()
    } else {
        let m: u64 = if end - start <= batch { end } else { (start + batch) as u64 };
        seq![PipelineTask { range: BlockRange { start, end: m }, state: TaskState::Pending }] + split_ranges(
            m,
            end,
            batch,
        )
    }
}

/// Scheduler of a two-step pipeline: each pushed range of blocks runs a parallel step,
/// then, strictly in order of the ranges, a sequential step.
pub struct PipelineController {
    parallelization: usize,
    batch_size: usize,
    next_input_block_n: u64,
    tasks: Vec<PipelineTask>,
    n_started: usize,
    failed: bool,
    sequenced: Ghost<Seq<BlockRange>>,
}

impl PipelineController {
    pub closed spec fn tasks_spec(&self) -> Seq<PipelineTask> {
        self.tasks@
    }

    pub closed spec fn parallelization_spec(&self) -> nat {
        self.parallelization as nat
    }

    pub closed spec fn batch_size_spec(&self) -> nat {
        self.batch_size as nat
    }

    pub closed spec fn next_input_spec(&self) -> u64 {
        self.next_input_block_n
    }

    pub closed spec fn failed_spec(&self) -> bool {
        self.failed
    }

    /// The ranges handed to the sequential step, in the order they were handed out.
    pub closed spec fn sequenced(&self) -> Seq<BlockRange> {
        self.sequenced@
    }

    pub closed spec fn n_started_spec(&self) -> nat {
        self.n_started as nat
    }

    pub closed spec fn wf(&self) -> bool {
        &&& self.parallelization > 0
        &&& self.batch_size > 0
        &&& tasks_ok(
            self.tasks@,
            self.n_started as nat,
            self.parallelization as nat,
            self.batch_size as nat,
            self.next_input_block_n,
        )
        &&& log_ok(self.sequenced@, self.tasks@, self.next_input_block_n)
    }

    /// The first block whose range has not finished its sequential step.
    pub open spec fn frontier_spec(&self) -> u64 {
        frontier(self.tasks_spec(), self.next_input_spec())
    }

    /// Whether [`PipelineController::next_action`] has a step to hand out.
    pub open spec fn has_step(&self, allow_sequential: bool) -> bool {
        let t = self.tasks_spec();
        &&& !self.failed_spec()
        &&& ((allow_sequential && t.len() > 0 && t[0].state == TaskState::Ready) || (self.n_started_spec()
            < t.len() && self.n_started_spec() < self.parallelization_spec()))
    }

    /// The tasks whose parallel step has started and whose sequential step has not ended.
    pub open spec fn n_in_flight(&self) -> nat {
        self.n_started_spec()
    }

    pub fn new(parallelization: usize, batch_size: usize, starting_block_n: u64) -> (r: PipelineController)
        requires
            parallelization > 0,
            batch_size > 0,
        ensures
            r.wf(),
            r.tasks_spec().len() == 0,
            r.next_input_spec() == starting_block_n,
            r.parallelization_spec() == parallelization,
            r.batch_size_spec() == batch_size,
            !r.failed_spec(),
            r.sequenced().len() == 0,
            r.frontier_spec() == starting_block_n,
            r.n_started_spec() == 0,
    {
        PipelineController {
            parallelization,
            batch_size,
            next_input_block_n: starting_block_n,
            tasks: Vec::new(),
            n_started: 0,
            failed: false,
            sequenced: Ghost(Seq::empty()),
        }
    }

    /// The first block that has not been pushed.
    pub fn next_input_block_n(&self) -> (r: u64)
        ensures
            r == self.next_input_spec(),
    {
        self.next_input_block_n
    }

    pub fn is_empty(&self) -> (r: bool)
        ensures
            r <==> self.tasks_spec().len() == 0,
    {
        self.tasks.len() == 0
    }

    pub fn has_failed(&self) -> (r: bool)
        ensures
            r == self.failed_spec(),
    {
        self.failed
    }

    pub open spec fn can_schedule_more_spec(&self) -> bool {
        !self.failed_spec() && self.tasks_spec().len() < self.parallelization_spec()
    }

    /// Whether one more range may be pushed: the pipeline has not failed and holds fewer
    /// ranges than it runs in parallel.
    pub fn can_schedule_more(&self) -> (r: bool)
        ensures
            r == self.can_schedule_more_spec(),
    {
        !self.failed && self.tasks.len() < self.parallelization
    }

    /// The number of ranges in their parallel step.
    pub fn n_running(&self) -> (r: usize)
        ensures
            r == count_state(self.tasks_spec(), TaskState::Running),
    {
        let mut n: usize = 0;
        let mut i: usize = 0;
        while i < self.tasks.len()
            invariant
                i <= self.tasks@.len(),
                n == count_state(self.tasks@.subrange(0, i as int), TaskState::Running),
            decreases self.tasks@.len() - i,
        {
            proof {
                assert(self.tasks@.subrange(0, i + 1).drop_last() =~= self.tasks@.subrange(0, i as int));
                lemma_count_bound(self.tasks@.subrange(0, i as int), TaskState::Running);
            }
            if self.tasks[i].state == TaskState::Running {
                n = n + 1;
            }
            i = i + 1;
        }
        assert(self.tasks@.subrange(0, i as int) =~= self.tasks@);
        n
    }

    /// Queues the range `start..end`, which follows the last range pushed and fits in a batch.
    fn push_one(&mut self, start: u64, end: u64)
        requires
            old(self).wf(),
            start == old(self).next_input_spec(),
            start < end,
            end - start <= old(self).batch_size_spec(),
        ensures
            final(self).wf(),
            final(self).tasks_spec() == old(self).tasks_spec().push(
                PipelineTask { range: BlockRange { start, end }, state: TaskState::Pending },
            ),
            final(self).next_input_spec() == end,
            final(self).sequenced() == old(self).sequenced(),
            final(self).parallelization_spec() == old(self).parallelization_spec(),
            final(self).batch_size_spec() == old(self).batch_size_spec(),
            final(self).failed_spec() == old(self).failed_spec(),
            final(self).n_started_spec() == old(self).n_started_spec(),
            final(self).frontier_spec() == old(self).frontier_spec(),
    {
        self.tasks.push(PipelineTask { range: BlockRange { start, end }, state: TaskState::Pending });
        self.next_input_block_n = end;
        assert(tasks_ok(
            self.tasks@,
            self.n_started as nat,
            self.parallelization as nat,
            self.batch_size as nat,
            self.next_input_block_n,
        ));
    }

    /// Queues the blocks `start..end`, which follow the last block pushed, as ranges of at
    /// most `batch_size` blocks.
    pub fn push(&mut self, start: u64, end: u64)
        requires
            old(self).wf(),
            start == old(self).next_input_spec(),
            start <= end,
        ensures
            pushed(*old(self), *final(self), start, end),
            final(self).frontier_spec() == old(self).frontier_spec(),
    {
        let mut cur: u64 = start;
        let ghost goal = old(self).tasks@ + split_ranges(start, end, self.batch_size as nat);
        while cur < end
            invariant
                self.wf(),
                start <= cur <= end,
                self.next_input_block_n == cur,
                goal == self.tasks@ + split_ranges(cur, end, self.batch_size as nat),
                self.parallelization == old(self).parallelization,
                self.batch_size == old(self).batch_size,
                self.failed == old(self).failed,
                self.sequenced == old(self).sequenced,
                self.n_started == old(self).n_started,
                frontier(self.tasks@, self.next_input_block_n) == frontier(old(self).tasks@, old(self).next_input_block_n),
            decreases end - cur,
        {
            let b = self.batch_size as u64;
            let m: u64 = if end - cur <= b { end } else { cur + b };
            let ghost before = self.tasks@;
            self.push_one(cur, m);
            proof {
                let t = PipelineTask { range: BlockRange { start: cur, end: m }, state: TaskState::Pending };
                assert(split_ranges(cur, end, self.batch_size as nat) == seq![t] + split_ranges(m, end, self.batch_size as nat));
                assert(goal =~= self.tasks@ + split_ranges(m, end, self.batch_size as nat));
            }
            cur = m;
        }
        assert(split_ranges(end, end, self.batch_size as nat) =~= Seq::<PipelineTask>::empty());
        assert(goal =~= self.tasks@);
    }

    /// The next step to run: the sequential step of the first range once its parallel step
    /// is done and `allow_sequential` holds, else the parallel step of the next waiting range
    /// while fewer than `parallelization` ranges are started. Nothing new starts once the
    /// pipeline failed.
    pub fn next_action(&mut self, allow_sequential: bool) -> (r: Option<PipelineAction>)
        requires
            old(self).wf(),
        ensures
            final(self).wf(),
            final(self).frontier_spec() == old(self).frontier_spec(),
            r is Some <==> old(self).has_step(allow_sequential),
            r is None ==> *final(self) == *old(self),
            final(self).tasks_spec().len() == old(self).tasks_spec().len(),
            forall|i: int|
                0 <= i < final(self).tasks_spec().len() ==> (#[trigger] final(self).tasks_spec()[i]).range
                    == old(self).tasks_spec()[i].range,
            final(self).next_input_spec() == old(self).next_input_spec(),
            final(self).parallelization_spec() == old(self).parallelization_spec(),
            final(self).batch_size_spec() == old(self).batch_size_spec(),
            final(self).failed_spec() == old(self).failed_spec(),
            final(self).tasks_spec().len() == old(self).tasks_spec().len(),
            ({
                let t = old(self).tasks_spec();
                let front_ready = allow_sequential && t.len() > 0 && t[0].state == TaskState::Ready;
                let can_start = old(self).n_started_spec() < t.len() && old(self).n_started_spec()
                    < old(self).parallelization_spec();
                &&& old(self).failed_spec() ==> r is None && final(self).tasks_spec() == t
                &&& !old(self).failed_spec() && front_ready ==> r == Some(PipelineAction::StartSequential(t[0].range))
                    && final(self).tasks_spec() == t.update(0, PipelineTask { state: TaskState::Sequential, ..t[0] })
                    && final(self).sequenced() == old(self).sequenced().push(t[0].range)
                &&& !old(self).failed_spec() && !front_ready && can_start ==> ({
                    let k = old(self).n_started_spec() as int;
                    &&& r == Some(PipelineAction::StartParallel(t[k].range))
                    &&& final(self).tasks_spec() == t.update(k, PipelineTask { state: TaskState::Running, ..t[k] })
                    &&& final(self).n_started_spec() == k + 1
                })
                &&& !old(self).failed_spec() && !front_ready && !can_start ==> r is None
                    && final(self).tasks_spec() == t
                &&& !(!old(self).failed_spec() && front_ready) ==> final(self).sequenced() == old(self).sequenced()
            }),
    {
        if self.failed {
            return None;
        }
        if allow_sequential && self.tasks.len() > 0 && self.tasks[0].state == TaskState::Ready {
            let t = self.tasks[0];
            let range = t.range;
            self.tasks.set(0, PipelineTask { range, state: TaskState::Sequential });
            proof {
                let old_log = self.sequenced@;
                self.sequenced@ = old_log.push(range);
                assert(old_log.len() > 0 ==> old_log.last().start < range.start);
            }
            assert(tasks_ok(
                self.tasks@,
                self.n_started as nat,
                self.parallelization as nat,
                self.batch_size as nat,
                self.next_input_block_n,
            ));
            return Some(PipelineAction::StartSequential(range));
        }
        if self.n_started < self.tasks.len() && self.n_started < self.parallelization {
            let k = self.n_started;
            let range = self.tasks[k].range;
            self.tasks.set(k, PipelineTask { range, state: TaskState::Running });
            self.n_started = k + 1;
            assert(tasks_ok(
                self.tasks@,
                self.n_started as nat,
                self.parallelization as nat,
                self.batch_size as nat,
                self.next_input_block_n,
            ));
            return Some(PipelineAction::StartParallel(range));
        }
        None
    }

    /// The parallel step of the range starting at `start` finished. Returns whether such a
    /// range was in its parallel step.
    pub fn parallel_done(&mut self, start: u64) -> (r: bool)
        requires
            old(self).wf(),
        ensures
            final(self).wf(),
            final(self).next_input_spec() == old(self).next_input_spec(),
            final(self).parallelization_spec() == old(self).parallelization_spec(),
            final(self).batch_size_spec() == old(self).batch_size_spec(),
            final(self).failed_spec() == old(self).failed_spec(),
            final(self).sequenced() == old(self).sequenced(),
            final(self).n_started_spec() == old(self).n_started_spec(),
            final(self).frontier_spec() == old(self).frontier_spec(),
            final(self).tasks_spec().len() == old(self).tasks_spec().len(),
            forall|i: int|
                0 <= i < final(self).tasks_spec().len() ==> (#[trigger] final(self).tasks_spec()[i]).range
                    == old(self).tasks_spec()[i].range,
            r <==> exists|i: int|
                0 <= i < old(self).tasks_spec().len() && (#[trigger] old(self).tasks_spec()[i]).range.start == start
                    && old(self).tasks_spec()[i].state == TaskState::Running,
            r ==> exists|i: int|
                0 <= i < old(self).tasks_spec().len() && (#[trigger] old(self).tasks_spec()[i]).range.start == start
                    && final(self).tasks_spec() == old(self).tasks_spec().update(
                    i,
                    PipelineTask { state: TaskState::Ready, ..old(self).tasks_spec()[i] },
                ),
            !r ==> final(self).tasks_spec() == old(self).tasks_spec(),
            parallel_done_post(*old(self), *final(self), start, r),
    {
        let mut i: usize = 0;
        while i < self.tasks.len()
            invariant
                i <= self.tasks@.len(),
                *self == *old(self),
                self.wf(),
                forall|j: int| 0 <= j < i ==> !((#[trigger] self.tasks@[j]).range.start == start
                    && self.tasks@[j].state == TaskState::Running),
            decreases self.tasks@.len() - i,
        {
            if self.tasks[i].range.start == start && self.tasks[i].state == TaskState::Running {
                let range = self.tasks[i].range;
                self.tasks.set(i, PipelineTask { range, state: TaskState::Ready });
                assert(tasks_ok(
                    self.tasks@,
                    self.n_started as nat,
                    self.parallelization as nat,
                    self.batch_size as nat,
                    self.next_input_block_n,
                ));
                assert(self.tasks@ == old(self).tasks@.update(
                    i as int,
                    PipelineTask { state: TaskState::Ready, ..old(self).tasks@[i as int] },
                ));
                return true;
            }
            i = i + 1;
        }
        false
    }

    /// The sequential step of the first range finished: the range leaves the pipeline and
    /// is returned.
    pub fn sequential_done(&mut self) -> (r: Option<BlockRange>)
        requires
            old(self).wf(),
        ensures
            final(self).wf(),
            final(self).next_input_spec() == old(self).next_input_spec(),
            final(self).parallelization_spec() == old(self).parallelization_spec(),
            final(self).batch_size_spec() == old(self).batch_size_spec(),
            final(self).failed_spec() == old(self).failed_spec(),
            final(self).sequenced() == old(self).sequenced(),
            r matches Some(range) ==> range.start == old(self).frontier_spec() && final(self).frontier_spec()
                == range.end && range.start < range.end && range.end - range.start <= old(self).batch_size_spec(),
            r is None ==> final(self).frontier_spec() == old(self).frontier_spec(),
            sequential_done_post(*old(self), *final(self), r),
            ({
                let t = old(self).tasks_spec();
                let in_seq = t.len() > 0 && t[0].state == TaskState::Sequential;
                &&& in_seq ==> r == Some(t[0].range) && final(self).tasks_spec() == t.drop_first()
                    && final(self).n_started_spec() + 1 == old(self).n_started_spec()
                &&& !in_seq ==> r is None && final(self).tasks_spec() == t && final(self).n_started_spec()
                    == old(self).n_started_spec()
            }),
    {
        if self.tasks.len() == 0 || self.tasks[0].state != TaskState::Sequential {
            return None;
        }
        let ghost old_tasks = self.tasks@;
        let t = self.tasks.remove(0);
        self.n_started = self.n_started - 1;
        assert(self.tasks@ =~= old_tasks.drop_first());
        assert(tasks_ok(
            self.tasks@,
            self.n_started as nat,
            self.parallelization as nat,
            self.batch_size as nat,
            self.next_input_block_n,
        ));
        assert(log_ok(self.sequenced@, self.tasks@, self.next_input_block_n)) by {
            assert(old_tasks.len() > 1 ==> old_tasks[0].range.end == old_tasks[1].range.start);
        }
        Some(t.range)
    }

    /// A step failed: no new step starts from now on.
    pub fn fail(&mut self)
        requires
            old(self).wf(),
        ensures
            final(self).wf(),
            final(self).failed_spec(),
            final(self).tasks_spec() == old(self).tasks_spec(),
            final(self).next_input_spec() == old(self).next_input_spec(),
            final(self).parallelization_spec() == old(self).parallelization_spec(),
            final(self).batch_size_spec() == old(self).batch_size_spec(),
            final(self).sequenced() == old(self).sequenced(),
            final(self).n_started_spec() == old(self).n_started_spec(),
            final(self).frontier_spec() == old(self).frontier_spec(),
            fail_post(*old(self), *final(self)),
    {
        self.failed = true;
    }
}

/// The settings and progress of two pipelines agree; only their tasks may differ.
pub open spec fn same_but_tasks(a: PipelineController, b: PipelineController) -> bool {
    &&& a.next_input_spec() == b.next_input_spec()
    &&& a.parallelization_spec() == b.parallelization_spec()
    &&& a.batch_size_spec() == b.batch_size_spec()
    &&& a.failed_spec() == b.failed_spec()
    &&& a.sequenced() == b.sequenced()
    &&& a.n_started_spec() == b.n_started_spec()
}

/// `new` is `old` with the blocks `start..end` pushed.
pub open spec fn pushed(old: PipelineController, new: PipelineController, start: u64, end: u64) -> bool {
    &&& new.wf()
    &&& new.tasks_spec() == old.tasks_spec() + split_ranges(start, end, old.batch_size_spec())
    &&& new.next_input_spec() == end
    &&& new.parallelization_spec() == old.parallelization_spec()
    &&& new.batch_size_spec() == old.batch_size_spec()
    &&& new.failed_spec() == old.failed_spec()
    &&& new.sequenced() == old.sequenced()
    &&& new.n_started_spec() == old.n_started_spec()
}

/// What [`PipelineController::parallel_done`] does: the running range that starts at `start`,
/// if there is one, becomes ready, and `r` says whether there was one.
pub open spec fn parallel_done_post(old: PipelineController, new: PipelineController, start: u64, r: bool) -> bool {
    &&& new.wf()
    &&& r <==> exists|i: int|
        0 <= i < old.tasks_spec().len() && (#[trigger] old.tasks_spec()[i]).range.start == start
            && old.tasks_spec()[i].state == TaskState::Running
    &&& r ==> same_but_tasks(old, new) && exists|i: int|
        0 <= i < old.tasks_spec().len() && (#[trigger] old.tasks_spec()[i]).range.start == start
            && old.tasks_spec()[i].state == TaskState::Running && new.tasks_spec() == old.tasks_spec().update(
            i,
            PipelineTask { state: TaskState::Ready, ..old.tasks_spec()[i] },
        )
    &&& !r ==> new == old
}

/// What [`PipelineController::sequential_done`] does: the first range, if it is in its
/// sequential step, leaves the pipeline and is returned.
pub open spec fn sequential_done_post(old: PipelineController, new: PipelineController, r: Option<BlockRange>) -> bool {
    let t = old.tasks_spec();
    let in_seq = t.len() > 0 && t[0].state == TaskState::Sequential;
    &&& new.wf()
    &&& in_seq ==> {
        &&& r == Some(t[0].range)
        &&& new.tasks_spec() == t.drop_first()
        &&& new.n_started_spec() + 1 == old.n_started_spec()
        &&& new.next_input_spec() == old.next_input_spec()
        &&& new.parallelization_spec() == old.parallelization_spec()
        &&& new.batch_size_spec() == old.batch_size_spec()
        &&& new.failed_spec() == old.failed_spec()
        &&& new.sequenced() == old.sequenced()
        &&& new.frontier_spec() == t[0].range.end
    }
    &&& !in_seq ==> r is None && new == old
}

/// What [`PipelineController::fail`] does: the pipeline is marked failed, nothing else changes.
pub open spec fn fail_post(old: PipelineController, new: PipelineController) -> bool {
    &&& new.wf()
    &&& new.failed_spec()
    &&& new.tasks_spec() == old.tasks_spec()
    &&& new.next_input_spec() == old.next_input_spec()
    &&& new.parallelization_spec() == old.parallelization_spec()
    &&& new.batch_size_spec() == old.batch_size_spec()
    &&& new.sequenced() == old.sequenced()
    &&& new.n_started_spec() == old.n_started_spec()
}

/// The sizes a well-formed pipeline is built with are positive, and its frontier is not
/// past the next block to push.
pub proof fn lemma_controller_facts(p: &PipelineController)
    requires
        p.wf(),
    ensures
        p.parallelization_spec() > 0,
        p.batch_size_spec() > 0,
        p.frontier_spec() <= p.next_input_spec(),
        p.tasks_spec().len() == 0 ==> p.frontier_spec() == p.next_input_spec(),
{
    let t = p.tasks_spec();
    if t.len() > 0 {
        lemma_range_chain(t, 0, t.len() - 1);
    }
}

proof fn lemma_range_chain(t: Seq<PipelineTask>, i: int, j: int)
    requires
        forall|k: int| 0 <= k < t.len() ==> #[trigger] t[k].range.start < t[k].range.end,
        forall|k: int| 0 <= k < t.len() - 1 ==> #[trigger] t[k].range.end == t[k + 1].range.start,
        0 <= i <= j < t.len(),
    ensures
        t[i].range.start <= t[j].range.end,
    decreases j - i,
{
    if i < j {
        lemma_range_chain(t, i + 1, j);
        assert(t[i].range.end == t[i + 1].range.start);
    }
}

/// Whatever order the parallel steps finish in, the ranges reach the sequential step in
/// order of their start, and no more than `parallelization` ranges are started at once.
pub proof fn lemma_sequential_order(p: &PipelineController)
    requires
        p.wf(),
    ensures
        forall|i: int, j: int|
            0 <= i < j < p.sequenced().len() ==> (#[trigger] p.sequenced()[i]).start < (#[trigger] p.sequenced()[j]).start,
        count_state(p.tasks_spec(), TaskState::Running) <= p.parallelization_spec(),
{
    reveal_log_order(p);
    lemma_running_bound(p);
}

proof fn reveal_log_order(p: &PipelineController)
    requires
        p.wf(),
    ensures
        forall|i: int, j: int|
            0 <= i < j < p.sequenced().len() ==> (#[trigger] p.sequenced()[i]).start < (#[trigger] p.sequenced()[j]).start,
{
    let log = p.sequenced();
    assert forall|i: int, j: int| 0 <= i < j < log.len() implies (#[trigger] log[i]).start < (#[trigger] log[j]).start by {
        lemma_chain_increasing(log, i, j);
    }
}

proof fn lemma_chain_increasing(log: Seq<BlockRange>, i: int, j: int)
    requires
        forall|k: int| 0 <= k < log.len() - 1 ==> #[trigger] log[k].start < log[k + 1].start,
        0 <= i < j < log.len(),
    ensures
        log[i].start < log[j].start,
    decreases j - i,
{
    if j > i + 1 {
        lemma_chain_increasing(log, i, j - 1);
        assert(log[j - 1].start < log[j].start);
    }
}

proof fn lemma_running_bound(p: &PipelineController)
    requires
        p.wf(),
    ensures
        count_state(p.tasks_spec(), TaskState::Running) <= p.parallelization_spec(),
{
    let t = p.tasks_spec();
    let n = p.n_started_spec() as int;
    lemma_count_prefix(t, n);
    lemma_count_bound(t.subrange(0, n), TaskState::Running);
}

/// Pending tasks do not count as running, so the running ones lie in the started prefix.
proof fn lemma_count_prefix(t: Seq<PipelineTask>, n: int)
    requires
        0 <= n <= t.len(),
        forall|i: int| n <= i < t.len() ==> (#[trigger] t[i]).state == TaskState::Pending,
    ensures
        count_state(t, TaskState::Running) == count_state(t.subrange(0, n), TaskState::Running),
    decreases t.len(),
{
    if t.len() > n {
        assert(t.drop_last().subrange(0, n) =~= t.subrange(0, n));
        lemma_count_prefix(t.drop_last(), n);
    } else {
        assert(t.subrange(0, n) =~= t);
    }
}

} // verus!
