use finality_aleph::environment::{
    ref_eq, BlockRef, ChainModel, ClientForAleph, Finalizer, FinalizeOutcome,
};
use finality_aleph::error::Error;

fn block(number: u64, tag: u8) -> BlockRef {
    BlockRef { number, hash: vec![tag; 32] }
}

#[test]
fn finalized_order_drives_the_chain_tip_through_the_batch() {
    // four participants agreed on the order [block1, block2, block3]
    let mut chain = ChainModel::new();
    let mut adapter = Finalizer::new(None);
    let batch = vec![block(1, 0xa1), block(2, 0xa2), block(3, 0xa3)];
    adapter.on_finalized_order(&mut chain, 0, &batch).unwrap();
    assert_eq!(adapter.position(), 3);
    assert!(!adapter.halted());
    let tip = chain.finalized_tip().unwrap();
    assert!(ref_eq(&tip, &block(3, 0xa3)));
    assert_eq!(chain.read_checkpoint(), Some(3));
    // the order within the chain is the batch order
    assert!(chain.is_ancestor(&block(1, 0xa1), &block(2, 0xa2)));
    assert!(chain.is_ancestor(&block(2, 0xa2), &block(3, 0xa3)));
    assert!(!chain.is_ancestor(&block(3, 0xa3), &block(1, 0xa1)));
}

#[test]
fn replaying_an_applied_prefix_changes_nothing() {
    let mut chain = ChainModel::new();
    let mut adapter = Finalizer::new(None);
    let batch = vec![block(1, 0xa1), block(2, 0xa2), block(3, 0xa3)];
    adapter.on_finalized_order(&mut chain, 0, &batch).unwrap();
    // full replay, as after a restart that re-emits from the beginning
    adapter.on_finalized_order(&mut chain, 0, &batch).unwrap();
    assert_eq!(adapter.position(), 3);
    let tip = chain.finalized_tip().unwrap();
    assert!(ref_eq(&tip, &block(3, 0xa3)));
    // and the blocks were not re-finalized: each is already present once
    assert_eq!(chain.finalize_block(&block(2, 0xa2)).unwrap(), FinalizeOutcome::AlreadyFinalized);
    // a replay whose positions were all applied succeeds without any chain
    // call, and so does an empty batch at the current position
    assert!(adapter.on_finalized_order(&mut chain, 1, &vec![block(2, 0xa2), block(3, 0xa3)]).is_ok());
    assert!(adapter.on_finalized_order(&mut chain, 3, &Vec::new()).is_ok());
    assert_eq!(adapter.position(), 3);
    assert!(!adapter.halted());
}

#[test]
fn restart_resumes_from_the_persisted_marker() {
    let mut chain = ChainModel::new();
    let mut adapter = Finalizer::new(None);
    let batch = vec![block(1, 0xa1), block(2, 0xa2)];
    adapter.on_finalized_order(&mut chain, 0, &batch).unwrap();
    // the adapter is dropped and rebuilt, as after a process restart
    let mut resumed = Finalizer::resume(&chain);
    assert_eq!(resumed.position(), 2);
    // the engine replays the old items and adds a new one
    let replay = vec![block(1, 0xa1), block(2, 0xa2), block(3, 0xa3)];
    resumed.on_finalized_order(&mut chain, 0, &replay).unwrap();
    assert_eq!(resumed.position(), 3);
    let tip = chain.finalized_tip().unwrap();
    assert!(ref_eq(&tip, &block(3, 0xa3)));
}

#[test]
fn overlapping_batch_applies_only_the_new_suffix() {
    let mut chain = ChainModel::new();
    let mut adapter = Finalizer::new(None);
    adapter.on_finalized_order(&mut chain, 0, &vec![block(1, 0xa1), block(2, 0xa2)]).unwrap();
    adapter.on_finalized_order(&mut chain, 1, &vec![block(2, 0xa2), block(3, 0xa3)]).unwrap();
    assert_eq!(adapter.position(), 3);
    assert!(ref_eq(&chain.finalized_tip().unwrap(), &block(3, 0xa3)));
}

#[test]
fn double_finalization_is_a_no_op_not_an_error() {
    let mut chain = ChainModel::new();
    assert_eq!(chain.finalize_block(&block(1, 0xa1)).unwrap(), FinalizeOutcome::Applied);
    assert_eq!(chain.finalize_block(&block(1, 0xa1)).unwrap(), FinalizeOutcome::AlreadyFinalized);
    assert_eq!(chain.finalized_tip().unwrap().number, 1);
}

#[test]
fn best_candidate_reports_unavailable_until_a_head_exists() {
    let mut chain = ChainModel::new();
    assert_eq!(chain.best_candidate().unwrap_err(), Error::ChainUnavailable);
    chain.set_best(block(5, 0xb5));
    let head = chain.best_candidate().unwrap();
    assert!(ref_eq(&head, &block(5, 0xb5)));
    let through_trait = chain.best_block().unwrap();
    assert!(ref_eq(&through_trait, &block(5, 0xb5)));
}

#[test]
fn ancestry_needs_both_blocks_finalized() {
    let mut chain = ChainModel::new();
    chain.finalize_block(&block(1, 0xa1)).unwrap();
    assert!(!chain.is_ancestor(&block(1, 0xa1), &block(2, 0xa2)));
    assert!(chain.is_ancestor(&block(1, 0xa1), &block(1, 0xa1)));
}
