use madara_sync::pipeline::{BlockRange, PipelineAction, PipelineController};

fn range(start: u64) -> BlockRange {
    BlockRange { start, end: start + 1 }
}

#[test]
fn pipeline_backpressure() {
    let mut p = PipelineController::new(2, 1, 0);
    for n in 0..4 {
        p.push(n, n + 1);
    }
    assert_eq!(p.next_action(true), Some(PipelineAction::StartParallel(range(0))));
    assert_eq!(p.next_action(true), Some(PipelineAction::StartParallel(range(1))));
    assert_eq!(p.next_action(true), None);
    assert_eq!(p.n_running(), 2);
    assert!(!p.can_schedule_more());

    assert!(p.parallel_done(0));
    assert!(!p.can_schedule_more());
    assert_eq!(p.next_action(true), Some(PipelineAction::StartSequential(range(0))));
    assert_eq!(p.next_action(true), None);
    assert_eq!(p.n_running(), 1);
    assert_eq!(p.sequential_done(), Some(range(0)));
    assert_eq!(p.next_action(true), Some(PipelineAction::StartParallel(range(2))));
    assert_eq!(p.n_running(), 2);
}

#[test]
fn pipeline_sequential_steps_follow_range_order() {
    let mut p = PipelineController::new(3, 1, 10);
    for n in 10..13 {
        p.push(n, n + 1);
    }
    for _ in 0..3 {
        assert!(matches!(p.next_action(true), Some(PipelineAction::StartParallel(_))));
    }
    // The later ranges finish first: nothing reaches the sequential step before range 10.
    assert!(p.parallel_done(12));
    assert!(p.parallel_done(11));
    assert_eq!(p.next_action(true), None);
    assert!(p.parallel_done(10));
    let mut order = vec![];
    loop {
        match p.next_action(true) {
            Some(PipelineAction::StartSequential(r)) => {
                order.push(r.start);
                assert_eq!(p.sequential_done(), Some(r));
            }
            Some(PipelineAction::StartParallel(_)) => panic!("nothing is left to start"),
            None => break,
        }
    }
    assert_eq!(order, vec![10, 11, 12]);
    assert!(p.is_empty());
    assert_eq!(p.next_input_block_n(), 13);
}

#[test]
fn pipeline_holds_sequential_step_when_asked() {
    let mut p = PipelineController::new(1, 4, 0);
    p.push(0, 4);
    assert_eq!(p.next_action(true), Some(PipelineAction::StartParallel(BlockRange { start: 0, end: 4 })));
    assert!(p.parallel_done(0));
    assert_eq!(p.next_action(false), None);
    assert_eq!(p.next_action(true), Some(PipelineAction::StartSequential(BlockRange { start: 0, end: 4 })));
}

#[test]
fn pipeline_stops_after_failure() {
    let mut p = PipelineController::new(2, 1, 0);
    p.push(0, 1);
    p.fail();
    assert!(p.has_failed());
    assert!(!p.can_schedule_more());
    assert_eq!(p.next_action(true), None);
    assert!(!p.parallel_done(0));
    assert_eq!(p.sequential_done(), None);
}

#[test]
fn pipeline_push_splits_into_batches() {
    let mut p = PipelineController::new(5, 2, 3);
    p.push(3, 8);
    assert_eq!(p.next_input_block_n(), 8);
    assert_eq!(p.next_action(true), Some(PipelineAction::StartParallel(BlockRange { start: 3, end: 5 })));
    assert_eq!(p.next_action(true), Some(PipelineAction::StartParallel(BlockRange { start: 5, end: 7 })));
    assert_eq!(p.next_action(true), Some(PipelineAction::StartParallel(BlockRange { start: 7, end: 8 })));
    assert_eq!(p.next_action(true), None);
    p.push(8, 8);
    assert_eq!(p.next_input_block_n(), 8);
}
