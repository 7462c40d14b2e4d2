use vstd::prelude::*;
use crate::chain_head::{advanced, head_le, latest_full_spec, next_full_spec, opt_le, ChainHead, MadaraBackend};
use crate::pipeline::{
    fail_post, lemma_controller_facts, parallel_done_post, pushed, sequential_done_post, split_ranges, BlockRange,
    PipelineAction, PipelineController, PipelineTask, TaskState,
};

verus! {

/// How many ranges each stage runs at once, and how many blocks a range of it holds.
#[derive(Clone, Copy, Debug, PartialEq, Eq, Structural)]
pub struct ForwardSyncConfig {
    pub block_parallelization: usize,
    pub block_batch_size: usize,
    pub classes_parallelization: usize,
    pub classes_batch_size: usize,
    pub apply_state_parallelization: usize,
    pub apply_state_batch_size: usize,
    pub disable_tries: bool,
}

impl Default for ForwardSyncConfig {
    fn default() -> (r: ForwardSyncConfig)
        ensures
            r == (ForwardSyncConfig {
                block_parallelization: 100,
                block_batch_size: 1,
                classes_parallelization: 200,
                classes_batch_size: 1,
                apply_state_parallelization: 3,
                apply_state_batch_size: 5,
                disable_tries: false,
            }),
    {
        ForwardSyncConfig {
            block_parallelization: 100,
            block_batch_size: 1,
            classes_parallelization: 200,
            classes_batch_size: 1,
            apply_state_parallelization: 3,
            apply_state_batch_size: 5,
            disable_tries: false,
        }
    }
}

impl ForwardSyncConfig {
    pub fn disable_tries(self, val: bool) -> (r: ForwardSyncConfig)
        ensures
            r == (ForwardSyncConfig { disable_tries: val, ..self }),
    {
        ForwardSyncConfig { disable_tries: val, ..self }
    }
}

/// Every stage runs at least one range at a time, and a range holds at least one block.
pub open spec fn config_ok(c: ForwardSyncConfig) -> bool {
    &&& c.block_parallelization > 0
    &&& c.block_batch_size > 0
    &&& c.classes_parallelization > 0
    &&& c.classes_batch_size > 0
    &&& c.apply_state_parallelization > 0
    &&& c.apply_state_batch_size > 0
}

/// A new pipeline: empty, not failed, with nothing started.
pub open spec fn fresh(p: PipelineController, parallelization: usize, batch_size: usize, start: u64) -> bool {
    &&& p.wf()
    &&& p.tasks_spec().len() == 0
    &&& p.n_started_spec() == 0
    &&& !p.failed_spec()
    &&& p.next_input_spec() == start
    &&& p.parallelization_spec() == parallelization
    &&& p.batch_size_spec() == batch_size
}

/// The one-block ranges `a..a+1`, ..., `b-1..b`, waiting.
pub open spec fn unit_tasks(a: u64, b: u64) -> Seq<PipelineTask> {
    Seq::new(
        (b - a) as nat,
        |i: int| PipelineTask { range: BlockRange { start: (a + i) as u64, end: (a + i + 1) as u64 }, state: TaskState::Pending },
    )
}

/// The three stages of the forward sync.
#[derive(Clone, Copy, Debug, PartialEq, Eq, Structural)]
pub enum SyncStage {
    /// Fetch, verify and store headers, transactions, events and state diffs.
    Blocks,
    /// Fetch, compile and verify the declared classes.
    Classes,
    /// Apply the state diffs to the global trie.
    ApplyState,
}

#[derive(Clone, Copy, Debug, PartialEq, Eq, Structural)]
pub struct SyncAction {
    pub stage: SyncStage,
    pub action: PipelineAction,
}

/// The decisions of the forward sync from the gateway. The runner performs the actions it
/// hands out and reports their completion; the head advances only from sequential steps.
pub struct GatewayForwardSync {
    blocks_pipeline: PipelineController,
    classes_pipeline: PipelineController,
    apply_state_pipeline: PipelineController,
    backend: MadaraBackend,
    disable_tries: bool,
}

impl GatewayForwardSync {
    pub closed spec fn blocks(&self) -> PipelineController {
        self.blocks_pipeline
    }

    pub closed spec fn classes(&self) -> PipelineController {
        self.classes_pipeline
    }

    pub closed spec fn apply_state(&self) -> PipelineController {
        self.apply_state_pipeline
    }

    pub closed spec fn backend_spec(&self) -> MadaraBackend {
        self.backend
    }

    pub closed spec fn wf(&self) -> bool {
        &&& self.blocks_pipeline.wf()
        &&& self.classes_pipeline.wf()
        &&& self.apply_state_pipeline.wf()
        &&& self.classes_pipeline.next_input_spec() == self.blocks_pipeline.frontier_spec()
        &&& self.apply_state_pipeline.next_input_spec() == self.blocks_pipeline.frontier_spec()
    }

    pub closed spec fn tries_disabled_spec(&self) -> bool {
        self.disable_tries
    }

    /// The pipeline of a stage.
    pub open spec fn stage_pipeline(&self, stage: SyncStage) -> PipelineController {
        match stage {
            SyncStage::Blocks => self.blocks(),
            SyncStage::Classes => self.classes(),
            SyncStage::ApplyState => self.apply_state(),
        }
    }

    /// The pipelines of the stages other than `stage`, the backend and the settings are
    /// those of `old`.
    pub open spec fn others_unchanged(&self, old: &GatewayForwardSync, stage: SyncStage) -> bool {
        &&& stage != SyncStage::Blocks ==> self.blocks() == old.blocks()
        &&& stage != SyncStage::Classes ==> self.classes() == old.classes()
        &&& stage != SyncStage::ApplyState ==> self.apply_state() == old.apply_state()
        &&& self.tries_disabled_spec() == old.tries_disabled_spec()
    }

    /// Sets up the three stages to start at the first block that is not fully imported.
    pub fn new(config: &ForwardSyncConfig, backend: MadaraBackend) -> (r: GatewayForwardSync)
        requires
            config_ok(*config),
        ensures
            r.wf(),
            r.backend_spec() == backend,
            r.tries_disabled_spec() == config.disable_tries,
            fresh(
                r.blocks(),
                config.block_parallelization,
                config.block_batch_size,
                next_full_spec(&backend.head_status),
            ),
            fresh(
                r.classes(),
                config.classes_parallelization,
                config.classes_batch_size,
                next_full_spec(&backend.head_status),
            ),
            fresh(
                r.apply_state(),
                config.apply_state_parallelization,
                config.apply_state_batch_size,
                next_full_spec(&backend.head_status),
            ),
    {
        let start = backend.head_status.next_full_block();
        GatewayForwardSync {
            blocks_pipeline: PipelineController::new(config.block_parallelization, config.block_batch_size, start),
            classes_pipeline: PipelineController::new(config.classes_parallelization, config.classes_batch_size, start),
            apply_state_pipeline: PipelineController::new(
                config.apply_state_parallelization,
                config.apply_state_batch_size,
                start,
            ),
            backend,
            disable_tries: config.disable_tries,
        }
    }

    pub fn backend(&self) -> (r: &MadaraBackend)
        ensures
            *r == self.backend_spec(),
    {
        &self.backend
    }

    pub fn tries_disabled(&self) -> (r: bool)
        ensures
            r == self.tries_disabled_spec(),
    {
        self.disable_tries
    }

    /// The first block that the block stage has not been given.
    pub fn next_input_block_n(&self) -> (r: u64)
        ensures
            r == self.blocks().next_input_spec(),
    {
        self.blocks_pipeline.next_input_block_n()
    }

    /// Whether no stage holds any range.
    pub fn is_empty(&self) -> (r: bool)
        ensures
            r <==> (self.blocks().tasks_spec().len() == 0 && self.classes().tasks_spec().len() == 0
                && self.apply_state().tasks_spec().len() == 0),
    {
        self.blocks_pipeline.is_empty() && self.classes_pipeline.is_empty() && self.apply_state_pipeline.is_empty()
    }

    /// The latest block that every stage has imported.
    pub fn latest_block(&self) -> (r: Option<u64>)
        ensures
            r == latest_full_spec(&self.backend_spec().head_status),
    {
        self.backend.head_status.latest_full_block_n()
    }

    /// Gives the block stage one-block ranges up to `target_height` while it has room.
    pub fn schedule(&mut self, target_height: u64)
        requires
            old(self).wf(),
            target_height < u64::MAX,
        ensures
            final(self).wf(),
            final(self).backend_spec() == old(self).backend_spec(),
            final(self).others_unchanged(old(self), SyncStage::Blocks),
            final(self).blocks().next_input_spec() >= old(self).blocks().next_input_spec(),
            final(self).blocks().next_input_spec() == old(self).blocks().next_input_spec()
                || final(self).blocks().next_input_spec() <= target_height + 1,
            final(self).blocks().tasks_spec() == old(self).blocks().tasks_spec() + unit_tasks(
                old(self).blocks().next_input_spec(),
                final(self).blocks().next_input_spec(),
            ),
            final(self).blocks().n_started_spec() == old(self).blocks().n_started_spec(),
            final(self).blocks().failed_spec() == old(self).blocks().failed_spec(),
            final(self).blocks().sequenced() == old(self).blocks().sequenced(),
            final(self).blocks().parallelization_spec() == old(self).blocks().parallelization_spec(),
            final(self).blocks().batch_size_spec() == old(self).blocks().batch_size_spec(),
            !(final(self).blocks().can_schedule_more_spec() && final(self).blocks().next_input_spec()
                <= target_height),
    {
        proof { lemma_controller_facts(&self.blocks_pipeline); }
        let ghost n0 = self.blocks_pipeline.next_input_spec();
        while self.blocks_pipeline.can_schedule_more() && self.blocks_pipeline.next_input_block_n() <= target_height
            invariant
                self.wf(),
                target_height < u64::MAX,
                self.backend == old(self).backend,
                self.classes_pipeline == old(self).classes_pipeline,
                self.apply_state_pipeline == old(self).apply_state_pipeline,
                self.disable_tries == old(self).disable_tries,
                n0 == old(self).blocks_pipeline.next_input_spec(),
                self.blocks_pipeline.next_input_spec() >= n0,
                self.blocks_pipeline.next_input_spec() == n0 || self.blocks_pipeline.next_input_spec()
                    <= target_height + 1,
                self.blocks_pipeline.tasks_spec() == old(self).blocks_pipeline.tasks_spec() + unit_tasks(
                    n0,
                    self.blocks_pipeline.next_input_spec(),
                ),
                self.blocks_pipeline.n_started_spec() == old(self).blocks_pipeline.n_started_spec(),
                self.blocks_pipeline.failed_spec() == old(self).blocks_pipeline.failed_spec(),
                self.blocks_pipeline.sequenced() == old(self).blocks_pipeline.sequenced(),
                self.blocks_pipeline.parallelization_spec() == old(self).blocks_pipeline.parallelization_spec(),
                self.blocks_pipeline.batch_size_spec() == old(self).blocks_pipeline.batch_size_spec(),
                self.blocks_pipeline.batch_size_spec() > 0,
            decreases self.blocks_pipeline.parallelization_spec() - self.blocks_pipeline.tasks_spec().len(),
        {
            let next = self.blocks_pipeline.next_input_block_n();
            let ghost before = self.blocks_pipeline.tasks_spec();
            let ghost b = self.blocks_pipeline.batch_size_spec();
            self.blocks_pipeline.push(next, next + 1);
            proof {
                let t = PipelineTask { range: BlockRange { start: next, end: (next + 1) as u64 }, state: TaskState::Pending };
                assert(split_ranges((next + 1) as u64, (next + 1) as u64, b) =~= Seq::<PipelineTask>::empty());
                assert(split_ranges(next, (next + 1) as u64, b) =~= seq![t]);
                assert(unit_tasks(n0, (next + 1) as u64) =~= unit_tasks(n0, next).push(t));
                assert(self.blocks_pipeline.tasks_spec() =~= old(self).blocks_pipeline.tasks_spec() + unit_tasks(
                    n0,
                    (next + 1) as u64,
                ));
            }
        }
    }

    /// The next step to run: an apply-state step, else a class step, else a block step. A
    /// block range enters its sequential step only while both later stages have room.
    pub fn next_action(&mut self) -> (r: Option<SyncAction>)
        requires
            old(self).wf(),
        ensures
            final(self).wf(),
            final(self).backend_spec() == old(self).backend_spec(),
            r matches Some(a) && a.action is StartSequential && a.stage == SyncStage::Blocks ==> old(
                self,
            ).classes().can_schedule_more_spec() && old(self).apply_state().can_schedule_more_spec(),
            ({
                let apply = old(self).apply_state().has_step(true);
                let classes = old(self).classes().has_step(true);
                let blocks = old(self).blocks().has_step(
                    old(self).classes().can_schedule_more_spec() && old(self).apply_state().can_schedule_more_spec(),
                );
                &&& apply ==> (r matches Some(a) && a.stage == SyncStage::ApplyState)
                &&& !apply && classes ==> (r matches Some(a) && a.stage == SyncStage::Classes)
                &&& !apply && !classes && blocks ==> (r matches Some(a) && a.stage == SyncStage::Blocks)
                &&& !apply && !classes && !blocks ==> r is None
            }),
    {
        if let Some(a) = self.apply_state_pipeline.next_action(true) {
            return Some(SyncAction { stage: SyncStage::ApplyState, action: a });
        }
        if let Some(a) = self.classes_pipeline.next_action(true) {
            return Some(SyncAction { stage: SyncStage::Classes, action: a });
        }
        let downstream_ready = self.classes_pipeline.can_schedule_more() && self.apply_state_pipeline.can_schedule_more();
        match self.blocks_pipeline.next_action(downstream_ready) {
            Some(a) => Some(SyncAction { stage: SyncStage::Blocks, action: a }),
            None => None,
        }
    }

    /// The parallel step of the range of `stage` starting at `start` finished.
    pub fn parallel_done(&mut self, stage: SyncStage, start: u64) -> (r: bool)
        requires
            old(self).wf(),
        ensures
            final(self).wf(),
            final(self).backend_spec() == old(self).backend_spec(),
            final(self).others_unchanged(old(self), stage),
            parallel_done_post(old(self).stage_pipeline(stage), final(self).stage_pipeline(stage), start, r),
    {
        match stage {
            SyncStage::Blocks => self.blocks_pipeline.parallel_done(start),
            SyncStage::Classes => self.classes_pipeline.parallel_done(start),
            SyncStage::ApplyState => self.apply_state_pipeline.parallel_done(start),
        }
    }

    /// The sequential step of the first range of `stage` finished. The facets of that stage
    /// move forward to the range's last block; a finished block range goes on to the class
    /// and apply-state stages. Returns the range.
    pub fn sequential_done(&mut self, stage: SyncStage) -> (r: Option<BlockRange>)
        requires
            old(self).wf(),
        ensures
            final(self).wf(),
            head_le(&old(self).backend_spec().head_status, &final(self).backend_spec().head_status),
            opt_le(
                latest_full_spec(&old(self).backend_spec().head_status),
                latest_full_spec(&final(self).backend_spec().head_status),
            ),
            sequential_done_post(old(self).stage_pipeline(stage), final(self).stage_pipeline(stage), r),
            final(self).tries_disabled_spec() == old(self).tries_disabled_spec(),
            r is None ==> *final(self) == *old(self),
            r matches Some(range) ==> range.start < range.end && ({
                let o = old(self).backend_spec().head_status;
                let h = final(self).backend_spec().head_status;
                let last = (range.end - 1) as u64;
                match stage {
                    SyncStage::Blocks => {
                        &&& h.headers@ == advanced(o.headers@, last)
                        &&& h.state_diffs@ == advanced(o.state_diffs@, last)
                        &&& h.transactions@ == advanced(o.transactions@, last)
                        &&& h.events@ == advanced(o.events@, last)
                        &&& h.classes == o.classes
                        &&& h.l1_head == o.l1_head
                        &&& h.global_trie == o.global_trie
                        &&& pushed(old(self).classes(), final(self).classes(), range.start, range.end)
                        &&& pushed(old(self).apply_state(), final(self).apply_state(), range.start, range.end)
                    },
                    SyncStage::Classes => {
                        &&& h.classes@ == advanced(o.classes@, last)
                        &&& h.headers == o.headers && h.state_diffs == o.state_diffs
                        &&& h.transactions == o.transactions && h.events == o.events
                        &&& h.l1_head == o.l1_head && h.global_trie == o.global_trie
                        &&& final(self).blocks() == old(self).blocks()
                        &&& final(self).apply_state() == old(self).apply_state()
                    },
                    SyncStage::ApplyState => {
                        &&& h.global_trie@ == advanced(o.global_trie@, last)
                        &&& h.headers == o.headers && h.state_diffs == o.state_diffs
                        &&& h.transactions == o.transactions && h.events == o.events
                        &&& h.l1_head == o.l1_head && h.classes == o.classes
                        &&& final(self).blocks() == old(self).blocks()
                        &&& final(self).classes() == old(self).classes()
                    },
                }
            }),
    {
        let ghost old_head = self.backend.head_status;
        let r = match stage {
            SyncStage::Blocks => {
                let r = self.blocks_pipeline.sequential_done();
                if let Some(range) = r {
                    let last = range.end - 1;
                    self.backend.head_status.headers.advance(last);
                    self.backend.head_status.state_diffs.advance(last);
                    self.backend.head_status.transactions.advance(last);
                    self.backend.head_status.events.advance(last);
                    self.classes_pipeline.push(range.start, range.end);
                    self.apply_state_pipeline.push(range.start, range.end);
                }
                r
            },
            SyncStage::Classes => {
                let r = self.classes_pipeline.sequential_done();
                if let Some(range) = r {
                    self.backend.head_status.classes.advance(range.end - 1);
                }
                r
            },
            SyncStage::ApplyState => {
                let r = self.apply_state_pipeline.sequential_done();
                if let Some(range) = r {
                    self.backend.head_status.global_trie.advance(range.end - 1);
                }
                r
            },
        };
        proof {
            crate::chain_head::lemma_latest_full_block_monotone(&old_head, &self.backend.head_status);
        }
        r
    }

    /// A step of `stage` failed: that stage starts nothing new.
    pub fn fail(&mut self, stage: SyncStage)
        requires
            old(self).wf(),
        ensures
            final(self).wf(),
            final(self).backend_spec() == old(self).backend_spec(),
            final(self).others_unchanged(old(self), stage),
            fail_post(old(self).stage_pipeline(stage), final(self).stage_pipeline(stage)),
    {
        match stage {
            SyncStage::Blocks => self.blocks_pipeline.fail(),
            SyncStage::Classes => self.classes_pipeline.fail(),
            SyncStage::ApplyState => self.apply_state_pipeline.fail(),
        }
    }
}

/// The block after the last one a counter records.
pub open spec fn next_after(s: Option<u64>) -> u64 {
    match s {
        Some(n) => (n + 1) as u64,
        None => 0,
    }
}

/// The block stage: headers, transactions, events and state diffs, from the first block
/// that is not fully imported.
pub fn block_with_state_update_pipeline(head: &ChainHead, parallelization: usize, batch_size: usize) -> (r:
    PipelineController)
    requires
        parallelization > 0,
        batch_size > 0,
    ensures
        fresh(r, parallelization, batch_size, next_full_spec(head)),
{
    PipelineController::new(parallelization, batch_size, head.next_full_block())
}

/// The classes stage of the peer-to-peer sync, from the block after the last one whose
/// classes are imported.
pub fn classes_pipeline(head: &ChainHead, parallelization: usize, batch_size: usize) -> (r: PipelineController)
    requires
        parallelization > 0,
        batch_size > 0,
    ensures
        fresh(r, parallelization, batch_size, next_after(head.classes@)),
{
    let start = match head.classes.get() {
        Some(n) => n + 1,
        None => 0,
    };
    PipelineController::new(parallelization, batch_size, start)
}

/// The state diff stage of the peer-to-peer sync, from the block after the last one whose
/// state diff is imported.
pub fn state_diffs_pipeline(head: &ChainHead, parallelization: usize, batch_size: usize) -> (r: PipelineController)
    requires
        parallelization > 0,
        batch_size > 0,
    ensures
        fresh(r, parallelization, batch_size, next_after(head.state_diffs@)),
{
    let start = match head.state_diffs.get() {
        Some(n) => n + 1,
        None => 0,
    };
    PipelineController::new(parallelization, batch_size, start)
}

/// The forward sync from the gateway, over the head of `backend`.
pub fn forward_sync(config: &ForwardSyncConfig, backend: MadaraBackend) -> (r: GatewayForwardSync)
    requires
        config_ok(*config),
    ensures
        r.wf(),
        r.backend_spec() == backend,
        r.tries_disabled_spec() == config.disable_tries,
        fresh(r.blocks(), config.block_parallelization, config.block_batch_size, next_full_spec(&backend.head_status)),
        fresh(
            r.classes(),
            config.classes_parallelization,
            config.classes_batch_size,
            next_full_spec(&backend.head_status),
        ),
        fresh(
            r.apply_state(),
            config.apply_state_parallelization,
            config.apply_state_batch_size,
            next_full_spec(&backend.head_status),
        ),
{
    GatewayForwardSync::new(config, backend)
}

} // verus!
