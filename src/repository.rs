//! The metadata repository's decisions. Storing a document pair and deleting a
//! document are each a short conversation with the store; these machines say what to
//! ask next after each answer, so that a pair is committed whole or not at all, and a
//! file is removed only once its rows are gone for good.
use vstd::prelude::*;
use crate::records::{Document, DocumentContent};

verus! {

/// The step of storing a pair that failed.
#[derive(Clone, Copy, Debug, PartialEq, Eq, Structural)]
pub enum PersistFailure {
    Begin,
    InsertDocument,
    InsertContent,
    Commit,
}

/// How storing a pair ended.
#[derive(Clone, Copy, Debug, PartialEq, Eq, Structural)]
pub enum PersistOutcome {
    /// Both rows are committed; the document has this id.
    Stored(i32),
    Failed(PersistFailure),
}

/// What the store is asked to do next while a pair is stored.
#[derive(Clone, Copy, Debug, PartialEq, Eq, Structural)]
pub enum TxAction {
    /// Open a transaction.
    Begin,
    /// Insert the document row and report the id the store gave it.
    InsertDocument,
    /// Insert the content row under this id.
    InsertContent(i32),
    Commit,
    Rollback,
    /// Nothing more: the pair is stored under this id, or storing failed.
    Finish(PersistOutcome),
}

/// The store's answer to the last request.
#[derive(Clone, Copy, Debug, PartialEq, Eq, Structural)]
pub enum TxEvent {
    Succeeded,
    Failed,
    /// The document row was inserted under this id.
    DocumentInserted(i32),
}

#[derive(Clone, Copy, Debug, PartialEq, Eq, Structural)]
pub enum TxStage {
    Beginning,
    InsertingDocument,
    InsertingContent(i32),
    Committing(i32),
    RollingBack(PersistFailure),
    Finished(PersistOutcome),
}

/// The next stage and request after the answer `ev`.
pub open spec fn tx_step(stage: TxStage, ev: TxEvent) -> (TxStage, TxAction) {
    match stage {
        TxStage::Beginning => if ev is Failed {
            (
                TxStage::Finished(PersistOutcome::Failed(PersistFailure::Begin)),
                TxAction::Finish(PersistOutcome::Failed(PersistFailure::Begin)),
            )
        } else {
            (TxStage::InsertingDocument, TxAction::InsertDocument)
        },
        TxStage::InsertingDocument => match ev {
            TxEvent::DocumentInserted(id) => (
                TxStage::InsertingContent(id),
                TxAction::InsertContent(id),
            ),
            _ => (TxStage::RollingBack(PersistFailure::InsertDocument), TxAction::Rollback),
        },
        TxStage::InsertingContent(id) => if ev is Failed {
            (TxStage::RollingBack(PersistFailure::InsertContent), TxAction::Rollback)
        } else {
            (TxStage::Committing(id), TxAction::Commit)
        },
        TxStage::Committing(id) => if ev is Failed {
            (
                TxStage::Finished(PersistOutcome::Failed(PersistFailure::Commit)),
                TxAction::Finish(PersistOutcome::Failed(PersistFailure::Commit)),
            )
        } else {
            (TxStage::Finished(PersistOutcome::Stored(id)), TxAction::Finish(PersistOutcome::Stored(id)))
        },
        TxStage::RollingBack(f) => (TxStage::Finished(PersistOutcome::Failed(f)), TxAction::Finish(PersistOutcome::Failed(f))),
        TxStage::Finished(r) => (TxStage::Finished(r), TxAction::Finish(r)),
    }
}

/// The requests made when the store answers with `events`, starting at `stage`.
pub open spec fn tx_run(stage: TxStage, events: Seq<TxEvent>) -> Seq<TxAction>
    decreases events.len(),
{
    if events.len() == 0 {
        Seq::empty()
    } else {
        let (next, action) = tx_step(stage, events[0]);
        seq![action] + tx_run(next, events.drop_first())
    }
}

/// Storing one document with its content in one transaction. The content row is
/// inserted under the id that inserting the document row returned.
pub struct Persistence {
    pub document: Document,
    pub content: DocumentContent,
    pub stage: TxStage,
}

impl Persistence {
    /// Starts storing the pair; the first request is to open a transaction.
    pub fn start(document: Document, content: DocumentContent) -> (r: (Persistence, TxAction))
        ensures
            r.0.document == document,
            r.0.content == content,
            r.0.stage == TxStage::Beginning,
            r.1 == TxAction::Begin,
    {
        (Persistence { document, content, stage: TxStage::Beginning }, TxAction::Begin)
    }

    /// Takes the store's answer to the last request and gives the next request.
    pub fn step(&mut self, ev: TxEvent) -> (r: TxAction)
        ensures
            (final(self).stage, r) == tx_step(old(self).stage, ev),
            final(self).document == old(self).document,
            final(self).content == old(self).content,
    {
        let (stage, action) = match self.stage {
            TxStage::Beginning => match ev {
                TxEvent::Failed => (
                    TxStage::Finished(PersistOutcome::Failed(PersistFailure::Begin)),
                    TxAction::Finish(PersistOutcome::Failed(PersistFailure::Begin)),
                ),
                _ => (TxStage::InsertingDocument, TxAction::InsertDocument),
            },
            TxStage::InsertingDocument => match ev {
                TxEvent::DocumentInserted(id) => (
                    TxStage::InsertingContent(id),
                    TxAction::InsertContent(id),
                ),
                _ => (TxStage::RollingBack(PersistFailure::InsertDocument), TxAction::Rollback),
            },
            TxStage::InsertingContent(id) => match ev {
                TxEvent::Failed => (
                    TxStage::RollingBack(PersistFailure::InsertContent),
                    TxAction::Rollback,
                ),
                _ => (TxStage::Committing(id), TxAction::Commit),
            },
            TxStage::Committing(id) => match ev {
                TxEvent::Failed => (
                    TxStage::Finished(PersistOutcome::Failed(PersistFailure::Commit)),
                    TxAction::Finish(PersistOutcome::Failed(PersistFailure::Commit)),
                ),
                _ => (TxStage::Finished(PersistOutcome::Stored(id)), TxAction::Finish(PersistOutcome::Stored(id))),
            },
            TxStage::RollingBack(f) => (TxStage::Finished(PersistOutcome::Failed(f)), TxAction::Finish(PersistOutcome::Failed(f))),
            TxStage::Finished(r) => (TxStage::Finished(r), TxAction::Finish(r)),
        };
        self.stage = stage;
        action
    }
}

proof fn lemma_failed_tx_never_commits(stage: TxStage, events: Seq<TxEvent>)
    requires
        stage is RollingBack || stage matches TxStage::Finished(PersistOutcome::Failed(_)),
    ensures
        forall|i: int| 0 <= i < tx_run(stage, events).len() ==> #[trigger] tx_run(stage, events)[i]
            != TxAction::Commit,
        forall|i: int|
            0 <= i < tx_run(stage, events).len() ==> #[trigger] tx_run(stage, events)[i]
                matches TxAction::Finish(PersistOutcome::Failed(_)) || tx_run(stage, events)[i] == TxAction::Rollback,
    decreases events.len(),
{
    if events.len() > 0 {
        let (next, action) = tx_step(stage, events[0]);
        lemma_failed_tx_never_commits(next, events.drop_first());
        let rest = tx_run(next, events.drop_first());
        assert forall|i: int| 0 < i < tx_run(stage, events).len() implies #[trigger] tx_run(
            stage,
            events,
        )[i] == rest[i - 1] by {}
    }
}

/// A pair whose content row fails to insert after its document row went in is never
/// committed: the transaction is rolled back, storing reports the failed content
/// insert, and neither row ever becomes visible.
pub proof fn lemma_failed_content_insert_rolls_back(id: i32, later: Seq<TxEvent>)
    ensures
        ({
            let actions = tx_run(
                TxStage::Beginning,
                seq![TxEvent::Succeeded, TxEvent::DocumentInserted(id), TxEvent::Failed] + later,
            );
            &&& actions[0] == TxAction::InsertDocument
            &&& actions[1] == TxAction::InsertContent(id)
            &&& actions[2] == TxAction::Rollback
            &&& forall|i: int| 0 <= i < actions.len() ==> #[trigger] actions[i] != TxAction::Commit
            &&& later.len() > 0 ==> actions[3] == TxAction::Finish(
                PersistOutcome::Failed(PersistFailure::InsertContent),
            )
        }),
{
    let events = seq![TxEvent::Succeeded, TxEvent::DocumentInserted(id), TxEvent::Failed] + later;
    let e1 = events.drop_first();
    let e2 = e1.drop_first();
    let e3 = e2.drop_first();
    assert(e3 =~= later);
    let s3 = TxStage::RollingBack(PersistFailure::InsertContent);
    lemma_failed_tx_never_commits(s3, later);
    let actions = tx_run(TxStage::Beginning, events);
    assert(events[0] == TxEvent::Succeeded && e1[0] == TxEvent::DocumentInserted(id) && e2[0]
        == TxEvent::Failed);
    let r2 = tx_run(TxStage::InsertingContent(id), e2);
    assert(r2 == seq![TxAction::Rollback] + tx_run(s3, e3));
    let r1 = tx_run(TxStage::InsertingDocument, e1);
    assert(r1 == seq![TxAction::InsertContent(id)] + r2);
    assert(actions == seq![TxAction::InsertDocument] + r1);
    assert(actions =~= seq![
        TxAction::InsertDocument,
        TxAction::InsertContent(id),
        TxAction::Rollback,
    ] + tx_run(s3, later));
    if later.len() > 0 {
        assert(tx_run(s3, later)[0] == TxAction::Finish(PersistOutcome::Failed(PersistFailure::InsertContent)));
    }
    assert forall|i: int| 0 <= i < actions.len() implies #[trigger] actions[i]
        != TxAction::Commit by {
        if i >= 3 {
            assert(actions[i] == tx_run(s3, later)[i - 3]);
        }
    }
}

/// How deleting a document ended.
#[derive(Clone, Copy, Debug, PartialEq, Eq, Structural)]
pub enum DeleteOutcome {
    /// The rows and the file are gone.
    Deleted,
    /// No document has this id; nothing was changed.
    NotFound,
    /// The stored path could not be read; nothing was changed.
    LookupFailed,
    /// Deleting or committing the rows failed; nothing was changed.
    MetadataDeleteFailed,
    /// The rows are gone for good, but the file could not be removed.
    FileRemovalFailed,
}

/// What is asked next while a document is deleted.
#[derive(Clone, Debug, PartialEq, Eq)]
pub enum DeleteAction {
    /// Read the stored path of this document.
    LookUp(i32),
    /// In a transaction, delete this document's content row and document row.
    DeleteRows(i32),
    Commit,
    /// Abandon the transaction, so that no row is deleted.
    Rollback,
    /// Remove the archived file at this path.
    RemoveFile(String),
    Finish(DeleteOutcome),
}

/// The answer to the last request.
#[derive(Clone, Debug, PartialEq, Eq)]
pub enum DeleteEvent {
    /// The document is stored at this path.
    Found(String),
    NotFound,
    Succeeded,
    Failed,
}

#[derive(Clone, Debug)]
pub enum DeleteStage {
    LookingUp(i32),
    DeletingRows(i32, String),
    RollingBack,
    Committing(String),
    RemovingFile,
    Finished(DeleteOutcome),
}

/// The next stage and request after the answer `ev`.
pub open spec fn delete_step(stage: DeleteStage, ev: DeleteEvent) -> (DeleteStage, DeleteAction) {
    match stage {
        DeleteStage::LookingUp(id) => match ev {
            DeleteEvent::Found(path) => (
                DeleteStage::DeletingRows(id, path),
                DeleteAction::DeleteRows(id),
            ),
            DeleteEvent::NotFound => (
                DeleteStage::Finished(DeleteOutcome::NotFound),
                DeleteAction::Finish(DeleteOutcome::NotFound),
            ),
            _ => (
                DeleteStage::Finished(DeleteOutcome::LookupFailed),
                DeleteAction::Finish(DeleteOutcome::LookupFailed),
            ),
        },
        DeleteStage::DeletingRows(_, path) => if ev is Succeeded {
            (DeleteStage::Committing(path), DeleteAction::Commit)
        } else {
            (DeleteStage::RollingBack, DeleteAction::Rollback)
        },
        DeleteStage::RollingBack => (
            DeleteStage::Finished(DeleteOutcome::MetadataDeleteFailed),
            DeleteAction::Finish(DeleteOutcome::MetadataDeleteFailed),
        ),
        DeleteStage::Committing(path) => if ev is Succeeded {
            (DeleteStage::RemovingFile, DeleteAction::RemoveFile(path))
        } else {
            (
                DeleteStage::Finished(DeleteOutcome::MetadataDeleteFailed),
                DeleteAction::Finish(DeleteOutcome::MetadataDeleteFailed),
            )
        },
        DeleteStage::RemovingFile => if ev is Succeeded {
            (
                DeleteStage::Finished(DeleteOutcome::Deleted),
                DeleteAction::Finish(DeleteOutcome::Deleted),
            )
        } else {
            (
                DeleteStage::Finished(DeleteOutcome::FileRemovalFailed),
                DeleteAction::Finish(DeleteOutcome::FileRemovalFailed),
            )
        },
        DeleteStage::Finished(o) => (DeleteStage::Finished(o), DeleteAction::Finish(o)),
    }
}

/// The requests made when the answers are `events`, starting at `stage`.
pub open spec fn delete_run(stage: DeleteStage, events: Seq<DeleteEvent>) -> Seq<DeleteAction>
    decreases events.len(),
{
    if events.len() == 0 {
        Seq::empty()
    } else {
        let (next, action) = delete_step(stage, events[0]);
        seq![action] + delete_run(next, events.drop_first())
    }
}

/// Deleting one document: its rows first, in a committed transaction, and its file
/// only after that.
pub struct Deletion {
    pub stage: DeleteStage,
}

impl Deletion {
    /// Starts deleting the document `id`; the first request reads its stored path.
    pub fn start(id: i32) -> (r: (Deletion, DeleteAction))
        ensures
            r.0.stage == DeleteStage::LookingUp(id),
            r.1 == DeleteAction::LookUp(id),
    {
        (Deletion { stage: DeleteStage::LookingUp(id) }, DeleteAction::LookUp(id))
    }

    /// Takes the answer to the last request and gives the next request.
    pub fn step(&mut self, ev: DeleteEvent) -> (r: DeleteAction)
        ensures
            (final(self).stage, r) == delete_step(old(self).stage, ev),
    {
        let (next, action) = match &self.stage {
            DeleteStage::LookingUp(id) => match ev {
                DeleteEvent::Found(path) => (
                    DeleteStage::DeletingRows(*id, path),
                    DeleteAction::DeleteRows(*id),
                ),
                DeleteEvent::NotFound => (
                    DeleteStage::Finished(DeleteOutcome::NotFound),
                    DeleteAction::Finish(DeleteOutcome::NotFound),
                ),
                _ => (
                    DeleteStage::Finished(DeleteOutcome::LookupFailed),
                    DeleteAction::Finish(DeleteOutcome::LookupFailed),
                ),
            },
            DeleteStage::DeletingRows(_, path) => match ev {
                DeleteEvent::Succeeded => (
                    DeleteStage::Committing(path.clone()),
                    DeleteAction::Commit,
                ),
                _ => (DeleteStage::RollingBack, DeleteAction::Rollback),
            },
            DeleteStage::RollingBack => (
                DeleteStage::Finished(DeleteOutcome::MetadataDeleteFailed),
                DeleteAction::Finish(DeleteOutcome::MetadataDeleteFailed),
            ),
            DeleteStage::Committing(path) => match ev {
                DeleteEvent::Succeeded => (
                    DeleteStage::RemovingFile,
                    DeleteAction::RemoveFile(path.clone()),
                ),
                _ => (
                    DeleteStage::Finished(DeleteOutcome::MetadataDeleteFailed),
                    DeleteAction::Finish(DeleteOutcome::MetadataDeleteFailed),
                ),
            },
            DeleteStage::RemovingFile => match ev {
                DeleteEvent::Succeeded => (
                    DeleteStage::Finished(DeleteOutcome::Deleted),
                    DeleteAction::Finish(DeleteOutcome::Deleted),
                ),
                _ => (
                    DeleteStage::Finished(DeleteOutcome::FileRemovalFailed),
                    DeleteAction::Finish(DeleteOutcome::FileRemovalFailed),
                ),
            },
            DeleteStage::Finished(o) => (DeleteStage::Finished(*o), DeleteAction::Finish(*o)),
        };
        self.stage = next;
        action
    }
}

proof fn lemma_run_after_file_step(stage: DeleteStage, events: Seq<DeleteEvent>)
    requires
        stage is RemovingFile || stage is RollingBack || stage is Finished,
    ensures
        forall|i: int| 0 <= i < delete_run(stage, events).len() ==> #[trigger] delete_run(
            stage,
            events,
        )[i] is Finish,
    decreases events.len(),
{
    if events.len() > 0 {
        let (next, action) = delete_step(stage, events[0]);
        lemma_run_after_file_step(next, events.drop_first());
        let rest = delete_run(next, events.drop_first());
        assert forall|i: int| 0 < i < delete_run(stage, events).len() implies #[trigger] delete_run(
            stage,
            events,
        )[i] == rest[i - 1] by {}
    }
}

/// Rows whose deletion fails are left in place: the transaction is rolled back and
/// the outcome is a failed metadata deletion, with no file removed.
pub proof fn lemma_failed_row_delete_rolls_back(id: i32, path: String, later: Seq<DeleteEvent>)
    ensures
        ({
            let actions = delete_run(
                DeleteStage::LookingUp(id),
                seq![DeleteEvent::Found(path), DeleteEvent::Failed] + later,
            );
            &&& actions[0] == DeleteAction::DeleteRows(id)
            &&& actions[1] == DeleteAction::Rollback
            &&& later.len() > 0 ==> actions[2] == DeleteAction::Finish(
                DeleteOutcome::MetadataDeleteFailed,
            )
            &&& forall|i: int| 2 <= i < actions.len() ==> #[trigger] actions[i] is Finish
        }),
{
    let events = seq![DeleteEvent::Found(path), DeleteEvent::Failed] + later;
    let e1 = events.drop_first();
    let e2 = e1.drop_first();
    assert(e2 =~= later);
    assert(events[0] == DeleteEvent::Found(path) && e1[0] == DeleteEvent::Failed);
    let r2 = delete_run(DeleteStage::RollingBack, later);
    lemma_run_after_file_step(DeleteStage::RollingBack, later);
    let r1 = delete_run(DeleteStage::DeletingRows(id, path), e1);
    assert(r1 == seq![DeleteAction::Rollback] + r2);
    let actions = delete_run(DeleteStage::LookingUp(id), events);
    assert(actions == seq![DeleteAction::DeleteRows(id)] + r1);
    assert forall|i: int| 2 <= i < actions.len() implies #[trigger] actions[i] is Finish by {
        assert(actions[i] == r2[i - 2]);
    }
}

/// A file is removed only after its document's rows were deleted and that deletion
/// was committed: the one request to remove a file is the third, after the stored
/// path was found, the rows deleted and the commit acknowledged.
pub proof fn lemma_file_removed_only_after_commit(id: i32, events: Seq<DeleteEvent>)
    ensures
        forall|i: int|
            0 <= i < delete_run(DeleteStage::LookingUp(id), events).len() && (#[trigger] delete_run(
                DeleteStage::LookingUp(id),
                events,
            )[i] is RemoveFile) ==> {
                &&& i == 2
                &&& events[0] == DeleteEvent::Found(
                    delete_run(DeleteStage::LookingUp(id), events)[i]->RemoveFile_0,
                )
                &&& events[1] == DeleteEvent::Succeeded
                &&& events[2] == DeleteEvent::Succeeded
            },
{
    let actions = delete_run(DeleteStage::LookingUp(id), events);
    if events.len() > 0 {
        let e1 = events.drop_first();
        let (s1, a0) = delete_step(DeleteStage::LookingUp(id), events[0]);
        let r1 = delete_run(s1, e1);
        assert(actions == seq![a0] + r1);
        if s1 is Finished {
            lemma_run_after_file_step(s1, e1);
        } else if e1.len() > 0 {
            let e2 = e1.drop_first();
            let (s2, a1) = delete_step(s1, e1[0]);
            let r2 = delete_run(s2, e2);
            assert(r1 == seq![a1] + r2);
            if !(s2 is Committing) {
                lemma_run_after_file_step(s2, e2);
            } else if e2.len() > 0 {
                let e3 = e2.drop_first();
                let (s3, a2) = delete_step(s2, e2[0]);
                let r3 = delete_run(s3, e3);
                assert(r2 == seq![a2] + r3);
                lemma_run_after_file_step(s3, e3);
                assert forall|i: int| 3 <= i < actions.len() implies #[trigger] actions[i]
                    == r3[i - 3] by {
                    assert(actions[i] == r1[i - 1]);
                    assert(r1[i - 1] == r2[i - 2]);
                }
            }
        }
    }
}

/// Deleting a stored document: its rows are deleted and committed, then its file is
/// removed. When the removal fails the rows stay deleted and the outcome says so,
/// apart from every failure to delete the rows.
pub proof fn lemma_delete_existing(id: i32, path: String, removal: DeleteEvent)
    ensures
        ({
            let actions = delete_run(
                DeleteStage::LookingUp(id),
                seq![DeleteEvent::Found(path), DeleteEvent::Succeeded, DeleteEvent::Succeeded, removal],
            );
            &&& actions.len() == 4
            &&& actions[0] == DeleteAction::DeleteRows(id)
            &&& actions[1] == DeleteAction::Commit
            &&& actions[2] == DeleteAction::RemoveFile(path)
            &&& actions[3] == DeleteAction::Finish(
                if removal is Succeeded {
                    DeleteOutcome::Deleted
                } else {
                    DeleteOutcome::FileRemovalFailed
                },
            )
        }),
{
    let events = seq![DeleteEvent::Found(path), DeleteEvent::Succeeded, DeleteEvent::Succeeded, removal];
    let e1 = events.drop_first();
    let e2 = e1.drop_first();
    let e3 = e2.drop_first();
    let e4 = e3.drop_first();
    assert(e4.len() == 0);
    assert(e3[0] == removal);
    let fin = if removal is Succeeded {
        DeleteOutcome::Deleted
    } else {
        DeleteOutcome::FileRemovalFailed
    };
    let r4 = delete_run(DeleteStage::Finished(fin), e4);
    assert(r4 =~= Seq::<DeleteAction>::empty());
    let r3 = delete_run(DeleteStage::RemovingFile, e3);
    assert(r3 == seq![DeleteAction::Finish(fin)] + r4);
    assert(r3 =~= seq![DeleteAction::Finish(fin)]);
    let r2 = delete_run(DeleteStage::Committing(path), e2);
    assert(r2 == seq![DeleteAction::RemoveFile(path)] + r3);
    let r1 = delete_run(DeleteStage::DeletingRows(id, path), e1);
    assert(r1 == seq![DeleteAction::Commit] + r2);
    let r0 = delete_run(DeleteStage::LookingUp(id), events);
    assert(r0 == seq![DeleteAction::DeleteRows(id)] + r1);
    assert(r0 =~= seq![
        DeleteAction::DeleteRows(id),
        DeleteAction::Commit,
        DeleteAction::RemoveFile(path),
        DeleteAction::Finish(fin),
    ]);
}

} // verus!
