use muninn::writer::{WriterAction, WriterSlot, WRITER_MEMORY_BUDGET};

#[test]
fn new_slot_is_empty_and_commit_is_a_no_op() {
    let slot = WriterSlot::new();
    assert!(!slot.is_open());
    assert_eq!(slot.plan_commit(), WriterAction::Nothing);
    assert_eq!(slot.plan_commit(), WriterAction::Nothing);
    assert_eq!(slot.plan_rollback(), WriterAction::Nothing);
}

#[test]
fn first_add_creates_the_writer_once() {
    let mut slot = WriterSlot::new();
    assert_eq!(slot.plan_add(), WriterAction::CreateThenAdd);
    slot.record_created();
    assert!(slot.is_open());
    assert_eq!(slot.plan_add(), WriterAction::Add);
    assert_eq!(slot.plan_commit(), WriterAction::Commit);
    assert_eq!(slot.plan_rollback(), WriterAction::Rollback);
}

#[test]
fn writer_budget_is_fifty_megabytes() {
    assert_eq!(WRITER_MEMORY_BUDGET, 50_000_000);
}
