use bridges_common::equivocation::{EquivocationDetectionLoop, LoopAction};

/// Runs one pass of the loop after reading `best`, returning the checked
/// blocks.
fn run_pass(state: &mut EquivocationDetectionLoop<u32>, best: Option<u32>) -> Vec<u32> {
    let mut checked = Vec::new();
    let mut action = state.update_blocks_range(best);
    while let LoopAction::CheckBlock { block, until } = action {
        checked.push(block);
        action = state.on_block_checked(block, until);
    }
    checked
}

#[test]
fn loop_starts_without_range() {
    let mut state = EquivocationDetectionLoop::<u32>::new();
    assert_eq!(state.from_block_num, None);
    assert_eq!(state.until_block_num, None);
    // reading the best finalized block failed: the iteration restarts at once
    assert_eq!(state.update_blocks_range(None), LoopAction::Restart);
    assert_eq!(state, EquivocationDetectionLoop::<u32>::new());
}

#[test]
fn loop_checks_blocks_from_first_best_finalized() {
    let mut state = EquivocationDetectionLoop::<u32>::new();
    assert_eq!(run_pass(&mut state, Some(10)), vec![10]);
    assert_eq!(state.from_block_num, Some(10));
    assert_eq!(state.until_block_num, Some(11));
    // the first block stays, the last follows the best finalized block
    assert_eq!(run_pass(&mut state, Some(13)), vec![10, 11, 12, 13]);
    assert_eq!(state.from_block_num, Some(10));
    assert_eq!(state.until_block_num, Some(14));
    // a failed read reuses the block after the last checked one
    assert_eq!(run_pass(&mut state, None), vec![10, 11, 12, 13, 14]);
    assert_eq!(state.until_block_num, Some(15));
}

#[test]
fn loop_sleeps_when_best_finalized_is_below_first_block() {
    let mut state = EquivocationDetectionLoop::<u32>::new();
    run_pass(&mut state, Some(20));
    assert_eq!(state.update_blocks_range(Some(5)), LoopAction::Sleep);
    assert_eq!(state.from_block_num, Some(20));
    assert_eq!(state.until_block_num, Some(20));
}

#[test]
fn block_after_largest_saturates() {
    let mut state = EquivocationDetectionLoop::<u32>::new();
    assert_eq!(
        state.update_blocks_range(Some(u32::MAX)),
        LoopAction::CheckBlock { block: u32::MAX, until: u32::MAX }
    );
    assert_eq!(
        state.on_block_checked(u32::MAX, u32::MAX),
        LoopAction::CheckBlock { block: u32::MAX, until: u32::MAX }
    );
}

#[test]
fn loop_works_with_u64_block_numbers() {
    let mut state = EquivocationDetectionLoop::<u64>::new();
    let first = (1u64 << 40) + 7;
    assert_eq!(
        state.update_blocks_range(Some(first)),
        LoopAction::CheckBlock { block: first, until: first }
    );
    assert_eq!(state.on_block_checked(first, first + 1), LoopAction::CheckBlock {
        block: first + 1,
        until: first + 1
    });
    assert_eq!(state.on_block_checked(first + 1, first + 1), LoopAction::Sleep);
    assert_eq!(state.from_block_num, Some(first));
    assert_eq!(state.until_block_num, Some(first + 2));
    assert_eq!(state.on_block_checked(u64::MAX, u64::MAX), LoopAction::CheckBlock {
        block: u64::MAX,
        until: u64::MAX
    });
}
