use nd_secure::error::VaultError;
use nd_secure::trash_flow::{
    DeleteAction, DeleteStage, Place, RestoreAction, StepOutcome, TrashDeletion, TrashRestore,
};

fn ok(machine: &mut TrashDeletion) {
    machine.advance(StepOutcome::Succeeded, None);
}

#[test]
fn deletion_moves_everything_to_the_trash_when_all_steps_succeed() {
    let mut machine = TrashDeletion::new(true);
    assert_eq!(machine.action(), DeleteAction::InsertJournal);
    ok(&mut machine);
    assert_eq!(machine.action(), DeleteAction::RenameObject(Place::Active, Place::Trashing));
    ok(&mut machine);
    assert_eq!(machine.action(), DeleteAction::RenameThumbnail(Place::Active, Place::Trashing));
    ok(&mut machine);
    assert_eq!(machine.action(), DeleteAction::DeleteMediaRow);
    ok(&mut machine);
    assert_eq!(machine.action(), DeleteAction::RenameObject(Place::Trashing, Place::Trash));
    ok(&mut machine);
    assert_eq!(machine.action(), DeleteAction::RenameThumbnail(Place::Trashing, Place::Trash));
    ok(&mut machine);
    assert_eq!(machine.action(), DeleteAction::Finish);
    assert!(machine.state.journal && !machine.state.media_row);
    assert!(machine.finish().is_ok());
}

#[test]
fn failed_thumbnail_move_puts_the_object_back_and_drops_the_journal() {
    let mut machine = TrashDeletion::new(true);
    ok(&mut machine);
    ok(&mut machine);
    machine.advance(StepOutcome::Failed, Some(VaultError::Storage("busy".into())));
    assert_eq!(machine.action(), DeleteAction::RenameObject(Place::Trashing, Place::Active));
    ok(&mut machine);
    assert_eq!(machine.action(), DeleteAction::CheckObjectActive);
    machine.advance(StepOutcome::Observed(true), None);
    assert_eq!(machine.action(), DeleteAction::RemoveJournal);
    ok(&mut machine);
    assert_eq!(machine.state.stage, DeleteStage::Finished);
    assert!(!machine.state.journal);
    assert!(matches!(machine.finish(), Err(VaultError::Storage(detail)) if detail == "busy"));
}

#[test]
fn journal_is_kept_when_the_object_cannot_be_put_back() {
    let mut machine = TrashDeletion::new(false);
    ok(&mut machine);
    ok(&mut machine);
    machine.advance(StepOutcome::Failed, Some(VaultError::NotFound));
    assert_eq!(machine.action(), DeleteAction::RenameObject(Place::Trashing, Place::Active));
    machine.advance(StepOutcome::Failed, Some(VaultError::Storage("x".into())));
    assert_eq!(machine.action(), DeleteAction::Finish);
    assert!(machine.state.journal);
    assert!(matches!(machine.finish(), Err(VaultError::NotFound)));
}

#[test]
fn failing_to_remove_the_journal_reports_that_failure() {
    let mut machine = TrashDeletion::new(false);
    ok(&mut machine);
    machine.advance(StepOutcome::Failed, Some(VaultError::Storage("rename".into())));
    assert_eq!(machine.action(), DeleteAction::RemoveJournal);
    machine.advance(StepOutcome::Failed, Some(VaultError::Database("locked".into())));
    assert!(matches!(machine.finish(), Err(VaultError::Database(detail)) if detail == "locked"));
}

#[test]
fn restore_brings_the_item_back_when_all_steps_succeed() {
    let mut machine = TrashRestore::new(true, false, false);
    assert_eq!(machine.action(), RestoreAction::RenameObject(Place::Trash, Place::Trashing));
    machine.advance(StepOutcome::Succeeded, None);
    assert_eq!(machine.action(), RestoreAction::RenameThumbnail(Place::Trash, Place::Trashing));
    machine.advance(StepOutcome::Succeeded, None);
    assert_eq!(machine.action(), RestoreAction::InsertRows);
    machine.advance(StepOutcome::Succeeded, None);
    assert_eq!(machine.action(), RestoreAction::RenameObject(Place::Trashing, Place::Active));
    machine.advance(StepOutcome::Succeeded, None);
    assert_eq!(machine.action(), RestoreAction::CheckThumbnailSlotFree);
    machine.advance(StepOutcome::Succeeded, None);
    assert_eq!(machine.action(), RestoreAction::RenameThumbnail(Place::Trashing, Place::Active));
    machine.advance(StepOutcome::Succeeded, None);
    assert_eq!(machine.action(), RestoreAction::RemoveJournal);
    machine.advance(StepOutcome::Succeeded, None);
    assert_eq!(machine.action(), RestoreAction::Finish);
    assert!(!machine.state.journal);
    assert!(machine.finish().is_ok());
}

#[test]
fn restore_staged_by_an_earlier_attempt_starts_at_the_rows() {
    let machine = TrashRestore::new(false, true, false);
    assert_eq!(machine.action(), RestoreAction::InsertRows);
}

#[test]
fn failed_activation_undoes_the_restore_and_keeps_the_journal() {
    let mut machine = TrashRestore::new(false, false, false);
    machine.advance(StepOutcome::Succeeded, None);
    machine.advance(StepOutcome::Succeeded, None);
    machine.advance(StepOutcome::Failed, Some(VaultError::Storage("rename".into())));
    assert_eq!(machine.action(), RestoreAction::DeleteMediaRow);
    machine.advance(StepOutcome::Succeeded, None);
    assert_eq!(machine.action(), RestoreAction::CheckObjectAt(Place::Active));
    machine.advance(StepOutcome::Observed(false), None);
    assert_eq!(machine.action(), RestoreAction::CheckObjectAt(Place::Trashing));
    machine.advance(StepOutcome::Observed(true), None);
    assert_eq!(machine.action(), RestoreAction::RenameObject(Place::Trashing, Place::Trash));
    machine.advance(StepOutcome::Succeeded, None);
    assert_eq!(machine.action(), RestoreAction::CheckThumbnailAt(Place::Active));
    machine.advance(StepOutcome::Observed(false), None);
    machine.advance(StepOutcome::Observed(false), None);
    assert_eq!(machine.action(), RestoreAction::Finish);
    assert!(machine.state.journal);
    assert!(matches!(machine.finish(), Err(VaultError::Storage(_))));
}
