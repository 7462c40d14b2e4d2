use madara_sync::chain_head::{ChainHead, MadaraBackend};
use madara_sync::pipeline::{BlockRange, PipelineAction};
use madara_sync::sync::{
    block_with_state_update_pipeline, classes_pipeline, forward_sync, state_diffs_pipeline, ForwardSyncConfig,
    GatewayForwardSync, SyncAction, SyncStage,
};

fn small_config() -> ForwardSyncConfig {
    ForwardSyncConfig {
        block_parallelization: 2,
        block_batch_size: 1,
        classes_parallelization: 2,
        classes_batch_size: 1,
        apply_state_parallelization: 2,
        apply_state_batch_size: 5,
        disable_tries: false,
    }
}

#[test]
fn forward_sync_config_defaults() {
    let c = ForwardSyncConfig::default();
    assert_eq!(c.block_parallelization, 100);
    assert_eq!(c.block_batch_size, 1);
    assert_eq!(c.classes_parallelization, 200);
    assert_eq!(c.classes_batch_size, 1);
    assert_eq!(c.apply_state_parallelization, 3);
    assert_eq!(c.apply_state_batch_size, 5);
    assert!(!c.disable_tries);
    assert!(c.disable_tries(true).disable_tries);
}

/// Runs every step that the controller hands out, in the order it hands them out.
fn drain(sync: &mut GatewayForwardSync, target: u64) {
    loop {
        sync.schedule(target);
        match sync.next_action() {
            Some(SyncAction { stage, action: PipelineAction::StartParallel(r) }) => {
                assert!(sync.parallel_done(stage, r.start));
            }
            Some(SyncAction { stage, action: PipelineAction::StartSequential(r) }) => {
                assert_eq!(sync.sequential_done(stage), Some(r));
            }
            None => break,
        }
    }
}

#[test]
fn forward_sync_imports_up_to_target() {
    let mut sync = GatewayForwardSync::new(&small_config(), MadaraBackend::new());
    assert_eq!(sync.next_input_block_n(), 0);
    assert_eq!(sync.latest_block(), None);
    drain(&mut sync, 4);
    assert!(sync.is_empty());
    assert_eq!(sync.latest_block(), Some(4));
    assert_eq!(sync.next_input_block_n(), 5);
    let head = sync.backend().head_status();
    assert_eq!(head.headers.get(), Some(4));
    assert_eq!(head.classes.get(), Some(4));
    assert_eq!(head.global_trie.get(), Some(4));
}

#[test]
fn forward_sync_resumes_after_the_latest_full_block() {
    let mut backend = MadaraBackend::new();
    for s in [
        &mut backend.head_status.headers,
        &mut backend.head_status.state_diffs,
        &mut backend.head_status.classes,
        &mut backend.head_status.transactions,
        &mut backend.head_status.events,
        &mut backend.head_status.global_trie,
    ] {
        s.set(Some(9));
    }
    let sync = GatewayForwardSync::new(&small_config(), backend);
    assert_eq!(sync.next_input_block_n(), 10);
    assert_eq!(sync.latest_block(), Some(9));
}

#[test]
fn forward_sync_schedules_within_the_window() {
    let mut sync = GatewayForwardSync::new(&small_config(), MadaraBackend::new());
    sync.schedule(100);
    assert_eq!(sync.next_input_block_n(), 2);
    sync.schedule(100);
    assert_eq!(sync.next_input_block_n(), 2);
}

#[test]
fn forward_sync_head_advances_only_after_sequential_steps() {
    let mut sync = GatewayForwardSync::new(&small_config(), MadaraBackend::new());
    sync.schedule(0);
    let a = sync.next_action().unwrap();
    assert_eq!(a.stage, SyncStage::Blocks);
    assert_eq!(a.action, PipelineAction::StartParallel(BlockRange { start: 0, end: 1 }));
    assert!(sync.parallel_done(SyncStage::Blocks, 0));
    assert_eq!(sync.backend().head_status().headers.get(), None);
    let a = sync.next_action().unwrap();
    assert_eq!(a.action, PipelineAction::StartSequential(BlockRange { start: 0, end: 1 }));
    assert_eq!(sync.sequential_done(SyncStage::Blocks), Some(BlockRange { start: 0, end: 1 }));
    assert_eq!(sync.backend().head_status().headers.get(), Some(0));
    assert_eq!(sync.latest_block(), None);
}

#[test]
fn forward_sync_failed_stage_starts_nothing() {
    let mut sync = GatewayForwardSync::new(&small_config(), MadaraBackend::new());
    sync.fail(SyncStage::Blocks);
    sync.schedule(10);
    assert_eq!(sync.next_input_block_n(), 0);
    assert_eq!(sync.next_action(), None);
}

#[test]
fn stage_pipelines_start_after_their_counters() {
    let mut head = ChainHead::new();
    assert_eq!(block_with_state_update_pipeline(&head, 2, 1).next_input_block_n(), 0);
    assert_eq!(classes_pipeline(&head, 2, 1).next_input_block_n(), 0);
    head.classes.set(Some(4));
    head.state_diffs.set(Some(7));
    assert_eq!(classes_pipeline(&head, 2, 1).next_input_block_n(), 5);
    assert_eq!(state_diffs_pipeline(&head, 2, 1).next_input_block_n(), 8);
    assert_eq!(block_with_state_update_pipeline(&head, 2, 1).next_input_block_n(), 0);
    let sync = forward_sync(&small_config(), MadaraBackend::new());
    assert!(sync.is_empty());
}

#[test]
fn forward_sync_with_larger_block_batches() {
    let config = ForwardSyncConfig {
        block_parallelization: 2,
        block_batch_size: 3,
        classes_parallelization: 1,
        classes_batch_size: 1,
        apply_state_parallelization: 1,
        apply_state_batch_size: 2,
        disable_tries: true,
    };
    let mut sync = GatewayForwardSync::new(&config, MadaraBackend::new());
    assert!(sync.tries_disabled());
    drain(&mut sync, 6);
    assert!(sync.is_empty());
    assert_eq!(sync.latest_block(), Some(6));
}
