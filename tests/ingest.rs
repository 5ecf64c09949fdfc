use dmslite::extract::{ConversionFailure, ExtractionError};
use dmslite::ingest::{
    model_name, plan_intake, EnrichTask, IngestAction, IngestEvent, IngestOutcome, IngestStage,
    Ingestion,
};
use dmslite::records::CalendarDate;
use dmslite::repository::{PersistFailure, PersistOutcome};

fn test_id() -> String {
    "0123456789abcdef".repeat(4)
}

fn begin() -> Ingestion {
    let (ing, first) = Ingestion::start(
        "/srv/consume/".to_string(),
        "/srv/storage/".to_string(),
        "report.pdf".to_string(),
        test_id(),
        CalendarDate { year: 2024, month: 2, day: 29 },
    );
    match first {
        IngestAction::Extract(name) => assert_eq!(name, "report.pdf"),
        other => panic!("unexpected first action {:?}", other),
    }
    ing
}

fn infer(a: IngestAction) -> (EnrichTask, String) {
    match a {
        IngestAction::Infer(task, prompt) => (task, prompt),
        other => panic!("expected inference, got {:?}", other),
    }
}

#[test]
fn document_goes_through_every_stage() {
    let mut ing = begin();
    let (task, prompt) =
        infer(ing.step(IngestEvent::Extracted(Ok("  Invoice\n  No.   7 \u{7}".to_string()))));
    assert_eq!(task, EnrichTask::Summarize);
    assert_eq!(prompt, "Invoice No. 7");
    let (task, prompt) = infer(ing.step(IngestEvent::Inferred(Some(" A  summary ".to_string()))));
    assert_eq!(task, EnrichTask::ExtractKeywords);
    assert_eq!(prompt, "Invoice No. 7");
    assert_eq!(ing.summary, "A summary");
    let (task, prompt) = infer(ing.step(IngestEvent::Inferred(Some(" invoice,  tax ".to_string()))));
    assert_eq!(task, EnrichTask::GenerateTitle);
    assert_eq!(prompt, " invoice,  tax ");
    assert_eq!(ing.buzzwords, "invoice, tax");
    let (from, to) = match ing.step(IngestEvent::Inferred(Some("**Tax Invoice**".to_string()))) {
        IngestAction::Archive(from, to) => (from, to),
        other => panic!("expected archive, got {:?}", other),
    };
    assert_eq!(ing.title, "Tax Invoice");
    assert_eq!(from, "/srv/consume/report.pdf");
    assert_eq!(to, format!("/srv/storage/{}.pdf", test_id()));
    let (d, c) = match ing.step(IngestEvent::Archived(true)) {
        IngestAction::Persist(d, c) => (d, c),
        other => panic!("expected persist, got {:?}", other),
    };
    assert_eq!(d.filepath, to);
    assert_eq!(d.title, "Tax Invoice");
    assert_eq!(d.upload_date, CalendarDate { year: 2024, month: 2, day: 29 });
    assert_eq!(c.content, "Invoice No. 7");
    assert_eq!(c.summary, "A summary");
    assert_eq!(c.buzzwords, "invoice, tax");
    assert!(matches!(
        ing.step(IngestEvent::Persisted(PersistOutcome::Stored(12))),
        IngestAction::CleanUp
    ));
    assert!(matches!(
        ing.step(IngestEvent::CleanedUp),
        IngestAction::Finish(IngestOutcome::Stored(12))
    ));
    assert_eq!(ing.stage, IngestStage::Done);
}

#[test]
fn generated_texts_are_normalized() {
    let mut ing = begin();
    ing.step(IngestEvent::Extracted(Ok("text".to_string())));
    ing.step(IngestEvent::Inferred(Some("a\u{1}b  é\nc ".to_string())));
    assert_eq!(ing.summary, "ab c");
    let (_, prompt) = infer(ing.step(IngestEvent::Inferred(Some(" k\u{1}w ".to_string()))));
    assert_eq!(prompt, " k\u{1}w ");
    assert_eq!(ing.buzzwords, "kw");
    ing.step(IngestEvent::Inferred(Some("**a\u{1}b**".to_string())));
    assert_eq!(ing.title, "ab");
}

#[test]
fn failed_inference_counts_as_empty() {
    let mut ing = begin();
    ing.step(IngestEvent::Extracted(Ok("text".to_string())));
    ing.step(IngestEvent::Inferred(None));
    assert_eq!(ing.summary, "");
    let (_, prompt) = infer(ing.step(IngestEvent::Inferred(None)));
    assert_eq!(prompt, "");
    assert!(matches!(ing.step(IngestEvent::Inferred(None)), IngestAction::Archive(_, _)));
    assert_eq!(ing.title, "");
}

#[test]
fn extraction_failure_skips_the_document() {
    let mut ing = begin();
    let err = ExtractionError::ConversionFailed(ConversionFailure::OpenPdf);
    assert!(matches!(ing.step(IngestEvent::Extracted(Err(err))), IngestAction::CleanUp));
    assert!(matches!(
        ing.step(IngestEvent::CleanedUp),
        IngestAction::Finish(IngestOutcome::ExtractionFailed(ExtractionError::ConversionFailed(
            ConversionFailure::OpenPdf
        )))
    ));
}

#[test]
fn archive_and_persist_failures_end_the_document() {
    let mut ing = begin();
    ing.step(IngestEvent::Extracted(Ok("text".to_string())));
    ing.step(IngestEvent::Inferred(None));
    ing.step(IngestEvent::Inferred(None));
    ing.step(IngestEvent::Inferred(None));
    assert!(matches!(ing.step(IngestEvent::Archived(false)), IngestAction::CleanUp));
    assert!(matches!(
        ing.step(IngestEvent::CleanedUp),
        IngestAction::Finish(IngestOutcome::ArchiveFailed)
    ));

    let mut ing = begin();
    ing.step(IngestEvent::Extracted(Ok("text".to_string())));
    ing.step(IngestEvent::Inferred(None));
    ing.step(IngestEvent::Inferred(None));
    ing.step(IngestEvent::Inferred(None));
    ing.step(IngestEvent::Archived(true));
    let failed = PersistOutcome::Failed(PersistFailure::InsertContent);
    assert!(matches!(ing.step(IngestEvent::Persisted(failed)), IngestAction::CleanUp));
    assert!(matches!(
        ing.step(IngestEvent::CleanedUp),
        IngestAction::Finish(IngestOutcome::PersistFailed(PersistFailure::InsertContent))
    ));
}

#[test]
fn events_are_checked_against_the_stage() {
    let ing = begin();
    assert!(ing.answers(&IngestEvent::Extracted(Ok(String::new()))));
    assert!(!ing.answers(&IngestEvent::CleanedUp));
    assert!(!ing.answers(&IngestEvent::Inferred(None)));
}

#[test]
fn empty_intake_has_nothing_to_consume() {
    let plan = plan_intake(&Vec::new());
    assert!(plan.nothing_to_consume);
    assert!(plan.documents.is_empty());
}

#[test]
fn intake_keeps_pdfs_in_order() {
    let names: Vec<String> = ["b.pdf", "output.txt", "a.pdf", "b.pdf-1.jpg", "c.pdf"]
        .iter()
        .map(|s| s.to_string())
        .collect();
    let plan = plan_intake(&names);
    assert!(!plan.nothing_to_consume);
    assert_eq!(plan.documents, vec!["b.pdf", "a.pdf", "c.pdf"]);

    let only_other = vec!["notes.txt".to_string()];
    let plan = plan_intake(&only_other);
    assert!(!plan.nothing_to_consume);
    assert!(plan.documents.is_empty());
}

#[test]
fn models_are_named() {
    assert_eq!(model_name(EnrichTask::Summarize), "doc_summarizer");
    assert_eq!(model_name(EnrichTask::ExtractKeywords), "doc_buzzword_generator");
    assert_eq!(model_name(EnrichTask::GenerateTitle), "doc_title_generator");
}
