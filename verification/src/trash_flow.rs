//! Moving a gallery item to the trash, step by step. The caller carries out
//! each step (a database write or a file rename) and reports how it went;
//! the machine decides the next step, and on failure how to undo what was
//! done. Whatever fails, the item is never lost: either its trash journal
//! row exists, or it is still fully active.
use vstd::prelude::*;
use crate::error::VaultError;

verus! {

/// Where a file of the item is: under its active name, being moved to the
/// trash, or in the trash.
#[derive(Debug, Clone, Copy, PartialEq, Eq, Structural)]
pub enum Place {
    Active,
    Trashing,
    Trash,
}

/// The step a deletion stands at.
#[derive(Debug, Clone, Copy, PartialEq, Eq, Structural)]
pub enum DeleteStage {
    /// Write the encrypted trash journal row.
    InsertJournal,
    /// Rename the object from its active name to `.trashing`.
    MoveObject,
    /// Rename the thumbnail from its active name to `.trashing`.
    MoveThumbnail,
    /// Delete the item's media row.
    DeleteRow,
    /// Rename the object from `.trashing` to `.trash`.
    FinishObject,
    /// Rename the thumbnail from `.trashing` to `.trash`.
    FinishThumbnail,
    /// The object could not be moved: remove the journal row; if that
    /// fails, its error is the one reported.
    UndoJournal,
    /// The thumbnail could not be moved: move the object back.
    UndoObjectAfterThumbnail,
    /// Ask whether the object is back under its active name.
    CheckObject,
    /// Remove the journal row, whatever comes of it.
    DropJournal,
    /// The media row could not be deleted: move the object back.
    UndoObjectAfterRow,
    /// The media row could not be deleted: move the thumbnail back.
    UndoThumbnailAfterRow,
    /// Nothing is left to do.
    Finished,
}

/// What the caller is asked to do next.
#[derive(Debug, Clone, Copy, PartialEq, Eq, Structural)]
pub enum DeleteAction {
    InsertJournal,
    RenameObject(Place, Place),
    RenameThumbnail(Place, Place),
    DeleteMediaRow,
    RemoveJournal,
    CheckObjectActive,
    Finish,
}

/// How a step went.
#[derive(Debug, Clone, Copy, PartialEq, Eq, Structural)]
pub enum StepOutcome {
    Succeeded,
    Failed,
    /// The answer to `CheckObjectActive`.
    Observed(bool),
}

/// What the machine knows of a deletion: its stage, where the files are,
/// whether the journal row and the media row exist, and, while undoing a
/// failed row deletion, whether the object made it back.
#[derive(Debug, Clone, Copy, PartialEq, Eq, Structural)]
pub struct DeleteState {
    pub stage: DeleteStage,
    pub has_thumbnail: bool,
    pub object: Place,
    pub thumbnail: Place,
    pub journal: bool,
    pub media_row: bool,
    pub object_back: bool,
}

/// The item is fully active: its media row exists and its files are under
/// their active names.
pub open spec fn fully_active(s: DeleteState) -> bool {
    &&& s.media_row
    &&& s.object == Place::Active
    &&& (s.has_thumbnail ==> s.thumbnail == Place::Active)
}

/// The item can always be found again: through its trash journal row, or
/// because it is still fully active.
pub open spec fn recoverable(s: DeleteState) -> bool {
    s.journal || fully_active(s)
}

/// The state before a deletion starts.
pub open spec fn spec_delete_start(has_thumbnail: bool) -> DeleteState {
    DeleteState {
        stage: DeleteStage::InsertJournal,
        has_thumbnail,
        object: Place::Active,
        thumbnail: Place::Active,
        journal: false,
        media_row: true,
        object_back: false,
    }
}

/// The step asked for at a stage.
pub open spec fn spec_delete_action(s: DeleteState) -> DeleteAction {
    match s.stage {
        DeleteStage::InsertJournal => DeleteAction::InsertJournal,
        DeleteStage::MoveObject => DeleteAction::RenameObject(Place::Active, Place::Trashing),
        DeleteStage::MoveThumbnail => DeleteAction::RenameThumbnail(Place::Active, Place::Trashing),
        DeleteStage::DeleteRow => DeleteAction::DeleteMediaRow,
        DeleteStage::FinishObject => DeleteAction::RenameObject(Place::Trashing, Place::Trash),
        DeleteStage::FinishThumbnail => DeleteAction::RenameThumbnail(Place::Trashing, Place::Trash),
        DeleteStage::UndoJournal => DeleteAction::RemoveJournal,
        DeleteStage::UndoObjectAfterThumbnail => DeleteAction::RenameObject(Place::Trashing, Place::Active),
        DeleteStage::CheckObject => DeleteAction::CheckObjectActive,
        DeleteStage::DropJournal => DeleteAction::RemoveJournal,
        DeleteStage::UndoObjectAfterRow => DeleteAction::RenameObject(Place::Trashing, Place::Active),
        DeleteStage::UndoThumbnailAfterRow => DeleteAction::RenameThumbnail(Place::Trashing, Place::Active),
        DeleteStage::Finished => DeleteAction::Finish,
    }
}

/// The state after a step went as `outcome` says. A successful rename
/// moves the file; a failed one leaves it; the check reports where the
/// object really is.
pub open spec fn spec_delete_next(s: DeleteState, outcome: StepOutcome) -> DeleteState {
    let ok = outcome == StepOutcome::Succeeded;
    match s.stage {
        DeleteStage::InsertJournal => if ok {
            DeleteState { stage: DeleteStage::MoveObject, journal: true, ..s }
        } else {
            DeleteState { stage: DeleteStage::Finished, ..s }
        },
        DeleteStage::MoveObject => if ok {
            DeleteState {
                stage: if s.has_thumbnail {
                    DeleteStage::MoveThumbnail
                } else {
                    DeleteStage::DeleteRow
                },
                object: Place::Trashing,
                ..s
            }
        } else {
            DeleteState { stage: DeleteStage::UndoJournal, ..s }
        },
        DeleteStage::MoveThumbnail => if ok {
            DeleteState { stage: DeleteStage::DeleteRow, thumbnail: Place::Trashing, ..s }
        } else {
            DeleteState { stage: DeleteStage::UndoObjectAfterThumbnail, ..s }
        },
        DeleteStage::DeleteRow => if ok {
            DeleteState { stage: DeleteStage::FinishObject, media_row: false, ..s }
        } else {
            DeleteState { stage: DeleteStage::UndoObjectAfterRow, ..s }
        },
        DeleteStage::FinishObject => if ok {
            DeleteState {
                stage: if s.has_thumbnail {
                    DeleteStage::FinishThumbnail
                } else {
                    DeleteStage::Finished
                },
                object: Place::Trash,
                ..s
            }
        } else {
            DeleteState { stage: DeleteStage::Finished, ..s }
        },
        DeleteStage::FinishThumbnail => if ok {
            DeleteState { stage: DeleteStage::Finished, thumbnail: Place::Trash, ..s }
        } else {
            DeleteState { stage: DeleteStage::Finished, ..s }
        },
        DeleteStage::UndoJournal => if ok {
            DeleteState { stage: DeleteStage::Finished, journal: false, ..s }
        } else {
            DeleteState { stage: DeleteStage::Finished, ..s }
        },
        DeleteStage::UndoObjectAfterThumbnail => if ok {
            DeleteState { stage: DeleteStage::CheckObject, object: Place::Active, ..s }
        } else {
            DeleteState { stage: DeleteStage::CheckObject, ..s }
        },
        DeleteStage::CheckObject => match outcome {
            StepOutcome::Observed(true) => DeleteState {
                stage: DeleteStage::DropJournal,
                object: Place::Active,
                ..s
            },
            _ => DeleteState { stage: DeleteStage::Finished, ..s },
        },
        DeleteStage::DropJournal => if ok {
            DeleteState { stage: DeleteStage::Finished, journal: false, ..s }
        } else {
            DeleteState { stage: DeleteStage::Finished, ..s }
        },
        DeleteStage::UndoObjectAfterRow => {
            let back = ok;
            let object = if ok {
                Place::Active
            } else {
                s.object
            };
            DeleteState {
                stage: if s.has_thumbnail {
                    DeleteStage::UndoThumbnailAfterRow
                } else if back {
                    DeleteStage::DropJournal
                } else {
                    DeleteStage::Finished
                },
                object,
                object_back: back,
                ..s
            }
        },
        DeleteStage::UndoThumbnailAfterRow => if ok {
            DeleteState {
                stage: if s.object_back {
                    DeleteStage::DropJournal
                } else {
                    DeleteStage::Finished
                },
                thumbnail: Place::Active,
                ..s
            }
        } else {
            DeleteState { stage: DeleteStage::Finished, ..s }
        },
        DeleteStage::Finished => s,
    }
}

/// What the machine holds while the deletion goes on: what it knows, and
/// the error the deletion ends with, if one came.
pub struct TrashDeletion {
    pub state: DeleteState,
    pub error: Option<VaultError>,
}

impl TrashDeletion {
    /// A deletion of an item with or without a thumbnail.
    pub fn new(has_thumbnail: bool) -> (result: Self)
        ensures
            result.state == spec_delete_start(has_thumbnail),
            result.error is None,
    {
        TrashDeletion {
            state: DeleteState {
                stage: DeleteStage::InsertJournal,
                has_thumbnail,
                object: Place::Active,
                thumbnail: Place::Active,
                journal: false,
                media_row: true,
                object_back: false,
            },
            error: None,
        }
    }

    /// The step to carry out next.
    pub fn action(&self) -> (result: DeleteAction)
        ensures
            result == spec_delete_action(self.state),
    {
        match self.state.stage {
            DeleteStage::InsertJournal => DeleteAction::InsertJournal,
            DeleteStage::MoveObject => DeleteAction::RenameObject(Place::Active, Place::Trashing),
            DeleteStage::MoveThumbnail => DeleteAction::RenameThumbnail(Place::Active, Place::Trashing),
            DeleteStage::DeleteRow => DeleteAction::DeleteMediaRow,
            DeleteStage::FinishObject => DeleteAction::RenameObject(Place::Trashing, Place::Trash),
            DeleteStage::FinishThumbnail => DeleteAction::RenameThumbnail(Place::Trashing, Place::Trash),
            DeleteStage::UndoJournal => DeleteAction::RemoveJournal,
            DeleteStage::UndoObjectAfterThumbnail => DeleteAction::RenameObject(Place::Trashing, Place::Active),
            DeleteStage::CheckObject => DeleteAction::CheckObjectActive,
            DeleteStage::DropJournal => DeleteAction::RemoveJournal,
            DeleteStage::UndoObjectAfterRow => DeleteAction::RenameObject(Place::Trashing, Place::Active),
            DeleteStage::UndoThumbnailAfterRow => DeleteAction::RenameThumbnail(Place::Trashing, Place::Active),
            DeleteStage::Finished => DeleteAction::Finish,
        }
    }

    /// Takes in how the step went. The first failure is the error the
    /// deletion ends with, except that a failure to remove the journal row
    /// after the object could not be moved replaces it; failures while
    /// undoing are otherwise not reported.
    pub fn advance(&mut self, outcome: StepOutcome, failure: Option<VaultError>)
        requires
            outcome == StepOutcome::Failed <==> failure is Some,
        ensures
            final(self).state == spec_delete_next(old(self).state, outcome),
            outcome == StepOutcome::Failed && (old(self).state.stage == DeleteStage::InsertJournal
                || old(self).state.stage == DeleteStage::MoveObject || old(self).state.stage
                == DeleteStage::MoveThumbnail || old(self).state.stage == DeleteStage::DeleteRow
                || old(self).state.stage == DeleteStage::FinishObject || old(self).state.stage
                == DeleteStage::FinishThumbnail || old(self).state.stage == DeleteStage::UndoJournal)
                ==> final(self).error == failure,
            !(outcome == StepOutcome::Failed && (old(self).state.stage == DeleteStage::InsertJournal
                || old(self).state.stage == DeleteStage::MoveObject || old(self).state.stage
                == DeleteStage::MoveThumbnail || old(self).state.stage == DeleteStage::DeleteRow
                || old(self).state.stage == DeleteStage::FinishObject || old(self).state.stage
                == DeleteStage::FinishThumbnail || old(self).state.stage == DeleteStage::UndoJournal))
                ==> final(self).error == old(self).error,
    {
        let s = self.state;
        let ok = outcome == StepOutcome::Succeeded;
        let reports = match s.stage {
            DeleteStage::InsertJournal | DeleteStage::MoveObject | DeleteStage::MoveThumbnail
            | DeleteStage::DeleteRow | DeleteStage::FinishObject | DeleteStage::FinishThumbnail
            | DeleteStage::UndoJournal => true,
            _ => false,
        };
        let next = match s.stage {
            DeleteStage::InsertJournal => if ok {
                DeleteState { stage: DeleteStage::MoveObject, journal: true, ..s }
            } else {
                DeleteState { stage: DeleteStage::Finished, ..s }
            },
            DeleteStage::MoveObject => if ok {
                DeleteState {
                    stage: if s.has_thumbnail {
                        DeleteStage::MoveThumbnail
                    } else {
                        DeleteStage::DeleteRow
                    },
                    object: Place::Trashing,
                    ..s
                }
            } else {
                DeleteState { stage: DeleteStage::UndoJournal, ..s }
            },
            DeleteStage::MoveThumbnail => if ok {
                DeleteState { stage: DeleteStage::DeleteRow, thumbnail: Place::Trashing, ..s }
            } else {
                DeleteState { stage: DeleteStage::UndoObjectAfterThumbnail, ..s }
            },
            DeleteStage::DeleteRow => if ok {
                DeleteState { stage: DeleteStage::FinishObject, media_row: false, ..s }
            } else {
                DeleteState { stage: DeleteStage::UndoObjectAfterRow, ..s }
            },
            DeleteStage::FinishObject => if ok {
                DeleteState {
                    stage: if s.has_thumbnail {
                        DeleteStage::FinishThumbnail
                    } else {
                        DeleteStage::Finished
                    },
                    object: Place::Trash,
                    ..s
                }
            } else {
                DeleteState { stage: DeleteStage::Finished, ..s }
            },
            DeleteStage::FinishThumbnail => if ok {
                DeleteState { stage: DeleteStage::Finished, thumbnail: Place::Trash, ..s }
            } else {
                DeleteState { stage: DeleteStage::Finished, ..s }
            },
            DeleteStage::UndoJournal => if ok {
                DeleteState { stage: DeleteStage::Finished, journal: false, ..s }
            } else {
                DeleteState { stage: DeleteStage::Finished, ..s }
            },
            DeleteStage::UndoObjectAfterThumbnail => if ok {
                DeleteState { stage: DeleteStage::CheckObject, object: Place::Active, ..s }
            } else {
                DeleteState { stage: DeleteStage::CheckObject, ..s }
            },
            DeleteStage::CheckObject => match outcome {
                StepOutcome::Observed(true) => DeleteState {
                    stage: DeleteStage::DropJournal,
                    object: Place::Active,
                    ..s
                },
                _ => DeleteState { stage: DeleteStage::Finished, ..s },
            },
            DeleteStage::DropJournal => if ok {
                DeleteState { stage: DeleteStage::Finished, journal: false, ..s }
            } else {
                DeleteState { stage: DeleteStage::Finished, ..s }
            },
            DeleteStage::UndoObjectAfterRow => {
                let object = if ok {
                    Place::Active
                } else {
                    s.object
                };
                DeleteState {
                    stage: if s.has_thumbnail {
                        DeleteStage::UndoThumbnailAfterRow
                    } else if ok {
                        DeleteStage::DropJournal
                    } else {
                        DeleteStage::Finished
                    },
                    object,
                    object_back: ok,
                    ..s
                }
            },
            DeleteStage::UndoThumbnailAfterRow => if ok {
                DeleteState {
                    stage: if s.object_back {
                        DeleteStage::DropJournal
                    } else {
                        DeleteStage::Finished
                    },
                    thumbnail: Place::Active,
                    ..s
                }
            } else {
                DeleteState { stage: DeleteStage::Finished, ..s }
            },
            DeleteStage::Finished => s,
        };
        self.state = next;
        if reports && outcome == StepOutcome::Failed {
            self.error = failure;
        }
    }

    /// How the deletion ended: `Ok` unless a step failed.
    pub fn finish(self) -> (result: Result<(), VaultError>)
        ensures
            match self.error {
                Some(e) => result == Err::<(), VaultError>(e),
                None => result is Ok,
            },
    {
        match self.error {
            Some(e) => Err(e),
            None => Ok(()),
        }
    }
}

/// What holds of a deletion at each stage: the item is recoverable, and
/// the files, rows and journal are where the stage needs them.
pub open spec fn delete_invariant(s: DeleteState) -> bool {
    &&& recoverable(s)
    &&& s.stage == DeleteStage::InsertJournal ==> fully_active(s) && !s.journal
    &&& s.stage == DeleteStage::UndoJournal ==> fully_active(s)
    &&& s.stage == DeleteStage::MoveObject ==> s.journal && fully_active(s)
    &&& s.stage == DeleteStage::MoveThumbnail ==> s.journal && s.media_row && s.object == Place::Trashing
        && s.thumbnail == Place::Active
    &&& s.stage == DeleteStage::UndoObjectAfterThumbnail ==> s.journal && s.media_row && s.thumbnail
        == Place::Active
    &&& s.stage == DeleteStage::CheckObject ==> s.journal && s.media_row && s.thumbnail == Place::Active
    &&& s.stage == DeleteStage::DeleteRow ==> s.journal && s.media_row
    &&& s.stage == DeleteStage::UndoObjectAfterRow ==> s.journal && s.media_row
    &&& s.stage == DeleteStage::UndoThumbnailAfterRow ==> s.journal && s.media_row && (s.object_back
        ==> s.object == Place::Active)
    &&& s.stage == DeleteStage::DropJournal ==> fully_active(s)
    &&& (s.stage == DeleteStage::FinishObject || s.stage == DeleteStage::FinishThumbnail) ==> s.journal
}

/// A deletion starts with its invariant holding.
pub proof fn lemma_deletion_start(has_thumbnail: bool)
    ensures
        delete_invariant(spec_delete_start(has_thumbnail)),
{
}

/// What every step keeps: whatever each step's outcome, a deletion never
/// loses the item. The invariant holds after every step, so at every point
/// the trash journal row exists or the item is still fully active (its
/// media row present, its files under their active names).
pub proof fn lemma_deletion_keeps_item_recoverable(s: DeleteState, outcome: StepOutcome)
    requires
        delete_invariant(s),
    ensures
        delete_invariant(spec_delete_next(s, outcome)),
        recoverable(spec_delete_next(s, outcome)),
{
}

/// When every step succeeds, the item ends in the trash: its media row is
/// gone, its files are under their trash names, and the journal row that
/// lets it be restored exists.
pub proof fn lemma_deletion_completes(has_thumbnail: bool)
    ensures
        ({
            let ok = StepOutcome::Succeeded;
            let s1 = spec_delete_next(spec_delete_start(has_thumbnail), ok);
            let s2 = spec_delete_next(s1, ok);
            let s3 = if has_thumbnail {
                spec_delete_next(s2, ok)
            } else {
                s2
            };
            let s4 = spec_delete_next(s3, ok);
            let s5 = spec_delete_next(s4, ok);
            let s6 = if has_thumbnail {
                spec_delete_next(s5, ok)
            } else {
                s5
            };
            &&& s6.stage == DeleteStage::Finished
            &&& s6.journal
            &&& !s6.media_row
            &&& s6.object == Place::Trash
            &&& has_thumbnail ==> s6.thumbnail == Place::Trash
        }),
{
}

/// The step a restore stands at.
#[derive(Debug, Clone, Copy, PartialEq, Eq, Structural)]
pub enum RestoreStage {
    /// Rename the object from the trash name it was found under to
    /// `.restoring`.
    StageObject,
    /// Rename the thumbnail from its trash name to `.restoring`.
    StageThumbnail,
    /// Insert the media row (and the thumbnail row) in one transaction.
    InsertRows,
    /// Rename the object from `.restoring` to its active name.
    ActivateObject,
    /// Check that no thumbnail holds the active name.
    CheckThumbnailSlot,
    /// Rename the thumbnail from `.restoring` to its active name.
    ActivateThumbnail,
    /// Remove the trash journal row.
    RemoveJournal,
    /// The thumbnail could not be staged: return the object to the trash.
    ReturnObject,
    /// The rows could not be inserted: return the object to the trash.
    ReturnObjectAfterRows,
    /// The rows could not be inserted: return the thumbnail to the trash.
    ReturnThumbnailAfterRows,
    /// Activation failed: delete the media row again.
    DropRow,
    /// Activation failed: ask whether the object holds its active name.
    CheckObjectActive,
    /// Activation failed: ask whether the object is still `.restoring`.
    CheckObjectRestoring,
    /// Activation failed: return the object from its active name.
    ReturnActiveObject,
    /// Activation failed: return the object from `.restoring`.
    ReturnRestoringObject,
    /// Activation failed: ask whether the thumbnail holds its active name.
    CheckThumbnailActive,
    /// Activation failed: ask whether the thumbnail is still `.restoring`.
    CheckThumbnailRestoring,
    /// Activation failed: return the thumbnail from its active name.
    ReturnActiveThumbnail,
    /// Activation failed: return the thumbnail from `.restoring`.
    ReturnRestoringThumbnail,
    /// Nothing is left to do.
    Finished,
}

/// What the caller is asked to do next during a restore.
#[derive(Debug, Clone, Copy, PartialEq, Eq, Structural)]
pub enum RestoreAction {
    RenameObject(Place, Place),
    RenameThumbnail(Place, Place),
    InsertRows,
    CheckThumbnailSlotFree,
    RemoveJournal,
    DeleteMediaRow,
    CheckObjectAt(Place),
    CheckThumbnailAt(Place),
    Finish,
}

/// What the machine knows of a restore. `Trash` stands for the trash name
/// the file was found under, and `Trashing` for the `.restoring` name a
/// file is staged under.
#[derive(Debug, Clone, Copy, PartialEq, Eq, Structural)]
pub struct RestoreState {
    pub stage: RestoreStage,
    pub has_thumbnail: bool,
    pub object: Place,
    pub thumbnail: Place,
    pub journal: bool,
    pub media_row: bool,
}

/// The item is fully restored: its media row exists and its files are
/// under their active names.
pub open spec fn restored(s: RestoreState) -> bool {
    &&& s.media_row
    &&& s.object == Place::Active
    &&& (s.has_thumbnail ==> s.thumbnail == Place::Active)
}

/// The state before a restore starts: the object (and, if one was found,
/// the thumbnail) under a trash name or already staged, the journal row
/// present and no media row.
pub open spec fn spec_restore_start(has_thumbnail: bool, object_staged: bool, thumbnail_staged: bool) -> RestoreState {
    RestoreState {
        stage: if !object_staged {
            RestoreStage::StageObject
        } else if has_thumbnail && !thumbnail_staged {
            RestoreStage::StageThumbnail
        } else {
            RestoreStage::InsertRows
        },
        has_thumbnail,
        object: if object_staged {
            Place::Trashing
        } else {
            Place::Trash
        },
        thumbnail: if has_thumbnail && thumbnail_staged {
            Place::Trashing
        } else {
            Place::Trash
        },
        journal: true,
        media_row: false,
    }
}

/// The state after a restore step went as `outcome` says; a file staged
/// under `.restoring` is at `Place::Trashing`.
pub open spec fn spec_restore_next(s: RestoreState, outcome: StepOutcome, thumbnail_staged: bool) -> RestoreState {
    let ok = outcome == StepOutcome::Succeeded;
    let seen = outcome == StepOutcome::Observed(true);
    match s.stage {
        RestoreStage::StageObject => if ok {
            RestoreState {
                stage: if s.has_thumbnail && !thumbnail_staged {
                    RestoreStage::StageThumbnail
                } else {
                    RestoreStage::InsertRows
                },
                object: Place::Trashing,
                ..s
            }
        } else {
            RestoreState { stage: RestoreStage::Finished, ..s }
        },
        RestoreStage::StageThumbnail => if ok {
            RestoreState { stage: RestoreStage::InsertRows, thumbnail: Place::Trashing, ..s }
        } else {
            RestoreState { stage: RestoreStage::ReturnObject, ..s }
        },
        RestoreStage::ReturnObject => RestoreState {
            stage: RestoreStage::Finished,
            object: if ok {
                Place::Trash
            } else {
                s.object
            },
            ..s
        },
        RestoreStage::InsertRows => if ok {
            RestoreState { stage: RestoreStage::ActivateObject, media_row: true, ..s }
        } else {
            RestoreState { stage: RestoreStage::ReturnObjectAfterRows, ..s }
        },
        RestoreStage::ReturnObjectAfterRows => RestoreState {
            stage: if s.has_thumbnail {
                RestoreStage::ReturnThumbnailAfterRows
            } else {
                RestoreStage::Finished
            },
            object: if ok {
                Place::Trash
            } else {
                s.object
            },
            ..s
        },
        RestoreStage::ReturnThumbnailAfterRows => RestoreState {
            stage: RestoreStage::Finished,
            thumbnail: if ok {
                Place::Trash
            } else {
                s.thumbnail
            },
            ..s
        },
        RestoreStage::ActivateObject => if ok {
            RestoreState {
                stage: if s.has_thumbnail {
                    RestoreStage::CheckThumbnailSlot
                } else {
                    RestoreStage::RemoveJournal
                },
                object: Place::Active,
                ..s
            }
        } else {
            RestoreState { stage: RestoreStage::DropRow, ..s }
        },
        RestoreStage::CheckThumbnailSlot => if ok {
            RestoreState { stage: RestoreStage::ActivateThumbnail, ..s }
        } else {
            RestoreState { stage: RestoreStage::DropRow, ..s }
        },
        RestoreStage::ActivateThumbnail => if ok {
            RestoreState { stage: RestoreStage::RemoveJournal, thumbnail: Place::Active, ..s }
        } else {
            RestoreState { stage: RestoreStage::DropRow, ..s }
        },
        RestoreStage::RemoveJournal => RestoreState {
            stage: RestoreStage::Finished,
            journal: if ok {
                false
            } else {
                s.journal
            },
            ..s
        },
        RestoreStage::DropRow => RestoreState {
            stage: RestoreStage::CheckObjectActive,
            media_row: if ok {
                false
            } else {
                s.media_row
            },
            ..s
        },
        RestoreStage::CheckObjectActive => if seen {
            RestoreState { stage: RestoreStage::ReturnActiveObject, object: Place::Active, ..s }
        } else {
            RestoreState { stage: RestoreStage::CheckObjectRestoring, ..s }
        },
        RestoreStage::CheckObjectRestoring => if seen {
            RestoreState { stage: RestoreStage::ReturnRestoringObject, object: Place::Trashing, ..s }
        } else {
            RestoreState { stage: RestoreStage::CheckThumbnailActive, ..s }
        },
        RestoreStage::ReturnActiveObject | RestoreStage::ReturnRestoringObject => RestoreState {
            stage: RestoreStage::CheckThumbnailActive,
            object: if ok {
                Place::Trash
            } else {
                s.object
            },
            ..s
        },
        RestoreStage::CheckThumbnailActive => if seen {
            RestoreState { stage: RestoreStage::ReturnActiveThumbnail, thumbnail: Place::Active, ..s }
        } else {
            RestoreState { stage: RestoreStage::CheckThumbnailRestoring, ..s }
        },
        RestoreStage::CheckThumbnailRestoring => if seen {
            RestoreState { stage: RestoreStage::ReturnRestoringThumbnail, thumbnail: Place::Trashing, ..s }
        } else {
            RestoreState { stage: RestoreStage::Finished, ..s }
        },
        RestoreStage::ReturnActiveThumbnail | RestoreStage::ReturnRestoringThumbnail => RestoreState {
            stage: RestoreStage::Finished,
            thumbnail: if ok {
                Place::Trash
            } else {
                s.thumbnail
            },
            ..s
        },
        RestoreStage::Finished => s,
    }
}

/// The step asked for at a restore stage.
pub open spec fn spec_restore_action(s: RestoreState) -> RestoreAction {
    match s.stage {
        RestoreStage::StageObject => RestoreAction::RenameObject(Place::Trash, Place::Trashing),
        RestoreStage::StageThumbnail => RestoreAction::RenameThumbnail(Place::Trash, Place::Trashing),
        RestoreStage::InsertRows => RestoreAction::InsertRows,
        RestoreStage::ActivateObject => RestoreAction::RenameObject(Place::Trashing, Place::Active),
        RestoreStage::CheckThumbnailSlot => RestoreAction::CheckThumbnailSlotFree,
        RestoreStage::ActivateThumbnail => RestoreAction::RenameThumbnail(Place::Trashing, Place::Active),
        RestoreStage::RemoveJournal => RestoreAction::RemoveJournal,
        RestoreStage::ReturnObject => RestoreAction::RenameObject(Place::Trashing, Place::Trash),
        RestoreStage::ReturnObjectAfterRows => RestoreAction::RenameObject(Place::Trashing, Place::Trash),
        RestoreStage::ReturnThumbnailAfterRows => RestoreAction::RenameThumbnail(Place::Trashing, Place::Trash),
        RestoreStage::DropRow => RestoreAction::DeleteMediaRow,
        RestoreStage::CheckObjectActive => RestoreAction::CheckObjectAt(Place::Active),
        RestoreStage::CheckObjectRestoring => RestoreAction::CheckObjectAt(Place::Trashing),
        RestoreStage::ReturnActiveObject => RestoreAction::RenameObject(Place::Active, Place::Trash),
        RestoreStage::ReturnRestoringObject => RestoreAction::RenameObject(Place::Trashing, Place::Trash),
        RestoreStage::CheckThumbnailActive => RestoreAction::CheckThumbnailAt(Place::Active),
        RestoreStage::CheckThumbnailRestoring => RestoreAction::CheckThumbnailAt(Place::Trashing),
        RestoreStage::ReturnActiveThumbnail => RestoreAction::RenameThumbnail(Place::Active, Place::Trash),
        RestoreStage::ReturnRestoringThumbnail => RestoreAction::RenameThumbnail(Place::Trashing, Place::Trash),
        RestoreStage::Finished => RestoreAction::Finish,
    }
}

/// Whether a failure at this stage is the error the restore reports.
pub open spec fn restore_reports(stage: RestoreStage) -> bool {
    stage == RestoreStage::StageObject || stage == RestoreStage::StageThumbnail || stage
        == RestoreStage::InsertRows || stage == RestoreStage::ActivateObject || stage
        == RestoreStage::CheckThumbnailSlot || stage == RestoreStage::ActivateThumbnail || stage
        == RestoreStage::RemoveJournal
}

/// What the machine holds while a restore goes on.
pub struct TrashRestore {
    pub state: RestoreState,
    pub thumbnail_staged: bool,
    pub error: Option<VaultError>,
}

impl TrashRestore {
    /// A restore whose object (and thumbnail, if one was found) may already
    /// be staged under `.restoring` by an interrupted earlier attempt.
    pub fn new(has_thumbnail: bool, object_staged: bool, thumbnail_staged: bool) -> (result: Self)
        ensures
            result.state == spec_restore_start(has_thumbnail, object_staged, thumbnail_staged),
            result.thumbnail_staged == thumbnail_staged,
            result.error is None,
    {
        let stage = if !object_staged {
            RestoreStage::StageObject
        } else if has_thumbnail && !thumbnail_staged {
            RestoreStage::StageThumbnail
        } else {
            RestoreStage::InsertRows
        };
        TrashRestore {
            state: RestoreState {
                stage,
                has_thumbnail,
                object: if object_staged {
                    Place::Trashing
                } else {
                    Place::Trash
                },
                thumbnail: if has_thumbnail && thumbnail_staged {
                    Place::Trashing
                } else {
                    Place::Trash
                },
                journal: true,
                media_row: false,
            },
            thumbnail_staged,
            error: None,
        }
    }

    /// The step to carry out next.
    pub fn action(&self) -> (result: RestoreAction)
        ensures
            result == spec_restore_action(self.state),
    {
        match self.state.stage {
            RestoreStage::StageObject => RestoreAction::RenameObject(Place::Trash, Place::Trashing),
            RestoreStage::StageThumbnail => RestoreAction::RenameThumbnail(Place::Trash, Place::Trashing),
            RestoreStage::InsertRows => RestoreAction::InsertRows,
            RestoreStage::ActivateObject => RestoreAction::RenameObject(Place::Trashing, Place::Active),
            RestoreStage::CheckThumbnailSlot => RestoreAction::CheckThumbnailSlotFree,
            RestoreStage::ActivateThumbnail => RestoreAction::RenameThumbnail(Place::Trashing, Place::Active),
            RestoreStage::RemoveJournal => RestoreAction::RemoveJournal,
            RestoreStage::ReturnObject => RestoreAction::RenameObject(Place::Trashing, Place::Trash),
            RestoreStage::ReturnObjectAfterRows => RestoreAction::RenameObject(Place::Trashing, Place::Trash),
            RestoreStage::ReturnThumbnailAfterRows => RestoreAction::RenameThumbnail(
                Place::Trashing,
                Place::Trash,
            ),
            RestoreStage::DropRow => RestoreAction::DeleteMediaRow,
            RestoreStage::CheckObjectActive => RestoreAction::CheckObjectAt(Place::Active),
            RestoreStage::CheckObjectRestoring => RestoreAction::CheckObjectAt(Place::Trashing),
            RestoreStage::ReturnActiveObject => RestoreAction::RenameObject(Place::Active, Place::Trash),
            RestoreStage::ReturnRestoringObject => RestoreAction::RenameObject(Place::Trashing, Place::Trash),
            RestoreStage::CheckThumbnailActive => RestoreAction::CheckThumbnailAt(Place::Active),
            RestoreStage::CheckThumbnailRestoring => RestoreAction::CheckThumbnailAt(Place::Trashing),
            RestoreStage::ReturnActiveThumbnail => RestoreAction::RenameThumbnail(Place::Active, Place::Trash),
            RestoreStage::ReturnRestoringThumbnail => RestoreAction::RenameThumbnail(
                Place::Trashing,
                Place::Trash,
            ),
            RestoreStage::Finished => RestoreAction::Finish,
        }
    }

    /// Takes in how the step went. A failure of a forward step is the
    /// error the restore ends with; failures while undoing are not
    /// reported.
    pub fn advance(&mut self, outcome: StepOutcome, failure: Option<VaultError>)
        requires
            outcome == StepOutcome::Failed <==> failure is Some,
        ensures
            final(self).state == spec_restore_next(old(self).state, outcome, old(self).thumbnail_staged),
            final(self).thumbnail_staged == old(self).thumbnail_staged,
            outcome == StepOutcome::Failed && restore_reports(old(self).state.stage) ==> final(self).error
                == failure,
            !(outcome == StepOutcome::Failed && restore_reports(old(self).state.stage))
                ==> final(self).error == old(self).error,
    {
        let s = self.state;
        let ok = outcome == StepOutcome::Succeeded;
        let seen = outcome == StepOutcome::Observed(true);
        let reports = match s.stage {
            RestoreStage::StageObject | RestoreStage::StageThumbnail | RestoreStage::InsertRows
            | RestoreStage::ActivateObject | RestoreStage::CheckThumbnailSlot
            | RestoreStage::ActivateThumbnail | RestoreStage::RemoveJournal => true,
            _ => false,
        };
        let next = match s.stage {
            RestoreStage::StageObject => if ok {
                RestoreState {
                    stage: if s.has_thumbnail && !self.thumbnail_staged {
                        RestoreStage::StageThumbnail
                    } else {
                        RestoreStage::InsertRows
                    },
                    object: Place::Trashing,
                    ..s
                }
            } else {
                RestoreState { stage: RestoreStage::Finished, ..s }
            },
            RestoreStage::StageThumbnail => if ok {
                RestoreState { stage: RestoreStage::InsertRows, thumbnail: Place::Trashing, ..s }
            } else {
                RestoreState { stage: RestoreStage::ReturnObject, ..s }
            },
            RestoreStage::ReturnObject => RestoreState {
                stage: RestoreStage::Finished,
                object: if ok {
                    Place::Trash
                } else {
                    s.object
                },
                ..s
            },
            RestoreStage::InsertRows => if ok {
                RestoreState { stage: RestoreStage::ActivateObject, media_row: true, ..s }
            } else {
                RestoreState { stage: RestoreStage::ReturnObjectAfterRows, ..s }
            },
            RestoreStage::ReturnObjectAfterRows => RestoreState {
                stage: if s.has_thumbnail {
                    RestoreStage::ReturnThumbnailAfterRows
                } else {
                    RestoreStage::Finished
                },
                object: if ok {
                    Place::Trash
                } else {
                    s.object
                },
                ..s
            },
            RestoreStage::ReturnThumbnailAfterRows => RestoreState {
                stage: RestoreStage::Finished,
                thumbnail: if ok {
                    Place::Trash
                } else {
                    s.thumbnail
                },
                ..s
            },
            RestoreStage::ActivateObject => if ok {
                RestoreState {
                    stage: if s.has_thumbnail {
                        RestoreStage::CheckThumbnailSlot
                    } else {
                        RestoreStage::RemoveJournal
                    },
                    object: Place::Active,
                    ..s
                }
            } else {
                RestoreState { stage: RestoreStage::DropRow, ..s }
            },
            RestoreStage::CheckThumbnailSlot => if ok {
                RestoreState { stage: RestoreStage::ActivateThumbnail, ..s }
            } else {
                RestoreState { stage: RestoreStage::DropRow, ..s }
            },
            RestoreStage::ActivateThumbnail => if ok {
                RestoreState { stage: RestoreStage::RemoveJournal, thumbnail: Place::Active, ..s }
            } else {
                RestoreState { stage: RestoreStage::DropRow, ..s }
            },
            RestoreStage::RemoveJournal => RestoreState {
                stage: RestoreStage::Finished,
                journal: if ok {
                    false
                } else {
                    s.journal
                },
                ..s
            },
            RestoreStage::DropRow => RestoreState {
                stage: RestoreStage::CheckObjectActive,
                media_row: if ok {
                    false
                } else {
                    s.media_row
                },
                ..s
            },
            RestoreStage::CheckObjectActive => if seen {
                RestoreState { stage: RestoreStage::ReturnActiveObject, object: Place::Active, ..s }
            } else {
                RestoreState { stage: RestoreStage::CheckObjectRestoring, ..s }
            },
            RestoreStage::CheckObjectRestoring => if seen {
                RestoreState { stage: RestoreStage::ReturnRestoringObject, object: Place::Trashing, ..s }
            } else {
                RestoreState { stage: RestoreStage::CheckThumbnailActive, ..s }
            },
            RestoreStage::ReturnActiveObject | RestoreStage::ReturnRestoringObject => RestoreState {
                stage: RestoreStage::CheckThumbnailActive,
                object: if ok {
                    Place::Trash
                } else {
                    s.object
                },
                ..s
            },
            RestoreStage::CheckThumbnailActive => if seen {
                RestoreState { stage: RestoreStage::ReturnActiveThumbnail, thumbnail: Place::Active, ..s }
            } else {
                RestoreState { stage: RestoreStage::CheckThumbnailRestoring, ..s }
            },
            RestoreStage::CheckThumbnailRestoring => if seen {
                RestoreState {
                    stage: RestoreStage::ReturnRestoringThumbnail,
                    thumbnail: Place::Trashing,
                    ..s
                }
            } else {
                RestoreState { stage: RestoreStage::Finished, ..s }
            },
            RestoreStage::ReturnActiveThumbnail | RestoreStage::ReturnRestoringThumbnail => RestoreState {
                stage: RestoreStage::Finished,
                thumbnail: if ok {
                    Place::Trash
                } else {
                    s.thumbnail
                },
                ..s
            },
            RestoreStage::Finished => s,
        };
        self.state = next;
        if reports && outcome == StepOutcome::Failed {
            self.error = failure;
        }
    }

    /// How the restore ended: `Ok` unless a forward step failed.
    pub fn finish(self) -> (result: Result<(), VaultError>)
        ensures
            match self.error {
                Some(e) => result == Err::<(), VaultError>(e),
                None => result is Ok,
            },
    {
        match self.error {
            Some(e) => Err(e),
            None => Ok(()),
        }
    }
}

/// What holds of a restore at each stage: the journal row is removed only
/// from a fully restored item.
pub open spec fn restore_invariant(s: RestoreState) -> bool {
    &&& s.journal || restored(s)
    &&& s.stage == RestoreStage::RemoveJournal ==> restored(s)
    &&& s.stage == RestoreStage::ActivateObject ==> s.media_row
    &&& (s.stage == RestoreStage::CheckThumbnailSlot || s.stage == RestoreStage::ActivateThumbnail)
        ==> s.media_row && s.object == Place::Active && s.has_thumbnail
    &&& s.stage != RestoreStage::Finished && s.stage != RestoreStage::RemoveJournal ==> s.journal
}

/// A restore starts with its invariant holding.
pub proof fn lemma_restore_start(has_thumbnail: bool, object_staged: bool, thumbnail_staged: bool)
    ensures
        restore_invariant(spec_restore_start(has_thumbnail, object_staged, thumbnail_staged)),
{
}

/// What every restore step keeps: the trash journal row, through which
/// the item can still be restored, is dropped only once the item is fully
/// back: its media row inserted and its files under their active names.
pub proof fn lemma_restore_keeps_journal_until_restored(s: RestoreState, outcome: StepOutcome, thumbnail_staged: bool)
    requires
        restore_invariant(s),
    ensures
        restore_invariant(spec_restore_next(s, outcome, thumbnail_staged)),
        spec_restore_next(s, outcome, thumbnail_staged).journal || restored(spec_restore_next(s, outcome, thumbnail_staged)),
{
}

/// When every step succeeds, a restore of an item found in the trash ends
/// with the item fully active and its journal row gone.
pub proof fn lemma_restore_completes(has_thumbnail: bool)
    ensures
        ({
            let ok = StepOutcome::Succeeded;
            let s0 = spec_restore_start(has_thumbnail, false, false);
            let s1 = spec_restore_next(s0, ok, false);
            let s2 = if has_thumbnail {
                spec_restore_next(s1, ok, false)
            } else {
                s1
            };
            let s3 = spec_restore_next(s2, ok, false);
            let s4 = spec_restore_next(s3, ok, false);
            let s5 = if has_thumbnail {
                spec_restore_next(spec_restore_next(s4, ok, false), ok, false)
            } else {
                s4
            };
            let s6 = spec_restore_next(s5, ok, false);
            &&& s6.stage == RestoreStage::Finished
            &&& !s6.journal
            &&& restored(s6)
        }),
{
}

} // verus!
