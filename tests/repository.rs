use dmslite::records::{CalendarDate, Document, DocumentContent};
use dmslite::repository::{
    DeleteAction, DeleteEvent, DeleteOutcome, Deletion, PersistFailure, PersistOutcome,
    Persistence, TxAction, TxEvent,
};

fn pair() -> (Document, DocumentContent) {
    (
        Document {
            _id: 0,
            upload_date: CalendarDate { year: 2024, month: 2, day: 29 },
            filepath: "/srv/storage/ab.pdf".to_string(),
            title: "Invoice".to_string(),
        },
        DocumentContent {
            _id: 0,
            content: "text".to_string(),
            summary: "sum".to_string(),
            buzzwords: "kw".to_string(),
        },
    )
}

#[test]
fn pair_is_committed_under_the_returned_id() {
    let (d, c) = pair();
    let (mut tx, first) = Persistence::start(d, c);
    assert_eq!(first, TxAction::Begin);
    assert_eq!(tx.step(TxEvent::Succeeded), TxAction::InsertDocument);
    assert_eq!(tx.step(TxEvent::DocumentInserted(17)), TxAction::InsertContent(17));
    assert_eq!(tx.step(TxEvent::Succeeded), TxAction::Commit);
    assert_eq!(tx.step(TxEvent::Succeeded), TxAction::Finish(PersistOutcome::Stored(17)));
    assert_eq!(tx.document.title, "Invoice");
}

#[test]
fn failed_content_insert_rolls_back() {
    let (d, c) = pair();
    let (mut tx, _) = Persistence::start(d, c);
    tx.step(TxEvent::Succeeded);
    tx.step(TxEvent::DocumentInserted(5));
    assert_eq!(tx.step(TxEvent::Failed), TxAction::Rollback);
    assert_eq!(
        tx.step(TxEvent::Succeeded),
        TxAction::Finish(PersistOutcome::Failed(PersistFailure::InsertContent))
    );
    assert_eq!(
        tx.step(TxEvent::Succeeded),
        TxAction::Finish(PersistOutcome::Failed(PersistFailure::InsertContent))
    );
}

#[test]
fn other_persist_failures() {
    let (d, c) = pair();
    let (mut tx, _) = Persistence::start(d.clone(), c.clone());
    assert_eq!(tx.step(TxEvent::Failed), TxAction::Finish(PersistOutcome::Failed(PersistFailure::Begin)));

    let (mut tx, _) = Persistence::start(d.clone(), c.clone());
    tx.step(TxEvent::Succeeded);
    assert_eq!(tx.step(TxEvent::Failed), TxAction::Rollback);
    assert_eq!(
        tx.step(TxEvent::Failed),
        TxAction::Finish(PersistOutcome::Failed(PersistFailure::InsertDocument))
    );

    let (mut tx, _) = Persistence::start(d, c);
    tx.step(TxEvent::Succeeded);
    tx.step(TxEvent::DocumentInserted(3));
    tx.step(TxEvent::Succeeded);
    assert_eq!(tx.step(TxEvent::Failed), TxAction::Finish(PersistOutcome::Failed(PersistFailure::Commit)));
}

#[test]
fn delete_removes_rows_then_file() {
    let (mut del, first) = Deletion::start(9);
    assert_eq!(first, DeleteAction::LookUp(9));
    assert_eq!(del.step(DeleteEvent::Found("/srv/storage/x.pdf".to_string())), DeleteAction::DeleteRows(9));
    assert_eq!(del.step(DeleteEvent::Succeeded), DeleteAction::Commit);
    assert_eq!(
        del.step(DeleteEvent::Succeeded),
        DeleteAction::RemoveFile("/srv/storage/x.pdf".to_string())
    );
    assert_eq!(del.step(DeleteEvent::Succeeded), DeleteAction::Finish(DeleteOutcome::Deleted));
}

#[test]
fn failed_file_removal_is_reported_apart() {
    let (mut del, _) = Deletion::start(9);
    del.step(DeleteEvent::Found("/srv/storage/x.pdf".to_string()));
    del.step(DeleteEvent::Succeeded);
    del.step(DeleteEvent::Succeeded);
    assert_eq!(del.step(DeleteEvent::Failed), DeleteAction::Finish(DeleteOutcome::FileRemovalFailed));
}

#[test]
fn metadata_failures_keep_the_file() {
    let (mut del, _) = Deletion::start(4);
    assert_eq!(del.step(DeleteEvent::NotFound), DeleteAction::Finish(DeleteOutcome::NotFound));

    let (mut del, _) = Deletion::start(4);
    assert_eq!(del.step(DeleteEvent::Failed), DeleteAction::Finish(DeleteOutcome::LookupFailed));

    let (mut del, _) = Deletion::start(4);
    del.step(DeleteEvent::Found("p".to_string()));
    assert_eq!(del.step(DeleteEvent::Failed), DeleteAction::Rollback);
    assert_eq!(
        del.step(DeleteEvent::Succeeded),
        DeleteAction::Finish(DeleteOutcome::MetadataDeleteFailed)
    );

    let (mut del, _) = Deletion::start(4);
    del.step(DeleteEvent::Found("p".to_string()));
    del.step(DeleteEvent::Succeeded);
    assert_eq!(
        del.step(DeleteEvent::Failed),
        DeleteAction::Finish(DeleteOutcome::MetadataDeleteFailed)
    );
}
