//! The ingestion orchestrator. Each intake document goes through extraction,
//! enrichment (summary, keywords, then a title made from the keywords), archiving,
//! persistence and cleanup. This machine decides each next step from the result of the
//! last one; whoever drives it performs the steps.
use vstd::prelude::*;
use vstd::string::*;
use crate::archive::{archive_target, archived_name, is_archive_id, is_intake_document, is_pdf_name};
use crate::extract::ExtractionError;
use crate::normalize::{clean_title, normalize, normalized, tidy_title};
use crate::records::{CalendarDate, Document, DocumentContent};
use crate::repository::{PersistFailure, PersistOutcome};

verus! {

/// One of the three texts a language model generates for a document.
#[derive(Clone, Copy, Debug, PartialEq, Eq, Structural)]
pub enum EnrichTask {
    Summarize,
    ExtractKeywords,
    GenerateTitle,
}

pub open spec fn model_of(task: EnrichTask) -> Seq<char> {
    match task {
        EnrichTask::Summarize => "doc_summarizer"@,
        EnrichTask::ExtractKeywords => "doc_buzzword_generator"@,
        EnrichTask::GenerateTitle => "doc_title_generator"@,
    }
}

/// The name of the model that performs `task`.
pub fn model_name(task: EnrichTask) -> (r: String)
    ensures
        r@ == model_of(task),
{
    match task {
        EnrichTask::Summarize => String::from_str("doc_summarizer"),
        EnrichTask::ExtractKeywords => String::from_str("doc_buzzword_generator"),
        EnrichTask::GenerateTitle => String::from_str("doc_title_generator"),
    }
}

/// How ingesting one document ended.
#[derive(Clone, Copy, Debug, PartialEq, Eq, Structural)]
pub enum IngestOutcome {
    /// The document is archived and stored under this id.
    Stored(i32),
    /// No text could be extracted; nothing was archived or stored.
    ExtractionFailed(ExtractionError),
    /// The file could not be moved into storage; nothing was stored.
    ArchiveFailed,
    /// The file is archived, but storing its rows failed.
    PersistFailed(PersistFailure),
}

/// What the driver is asked to do next.
#[derive(Clone, Debug)]
pub enum IngestAction {
    /// Extract the text of this intake file.
    Extract(String),
    /// Run this enrichment task on this text.
    Infer(EnrichTask, String),
    /// Move the file at the first path to the second, by a single rename.
    Archive(String, String),
    /// Store this pair in one transaction.
    Persist(Document, DocumentContent),
    /// Remove the scratch files that extraction left in the intake directory.
    CleanUp,
    Finish(IngestOutcome),
}

/// The result of the last action.
#[derive(Debug)]
pub enum IngestEvent {
    Extracted(Result<String, ExtractionError>),
    /// The model's reply, or `None` when inference failed.
    Inferred(Option<String>),
    /// Whether the file was moved.
    Archived(bool),
    Persisted(PersistOutcome),
    CleanedUp,
}

#[derive(Clone, Copy, Debug, PartialEq, Eq, Structural)]
pub enum IngestStage {
    Extracting,
    Summarizing,
    ExtractingKeywords,
    GeneratingTitle,
    Archiving,
    Persisting,
    CleaningUp,
    Done,
}

/// Whether `ev` answers the action issued at `stage`.
pub open spec fn answers(stage: IngestStage, ev: IngestEvent) -> bool {
    match stage {
        IngestStage::Extracting => ev is Extracted,
        IngestStage::Summarizing => ev is Inferred,
        IngestStage::ExtractingKeywords => ev is Inferred,
        IngestStage::GeneratingTitle => ev is Inferred,
        IngestStage::Archiving => ev is Archived,
        IngestStage::Persisting => ev is Persisted,
        IngestStage::CleaningUp => ev is CleanedUp,
        IngestStage::Done => false,
    }
}

/// The text of a model's reply; a failed inference counts as an empty reply.
pub open spec fn reply_text(ev: IngestEvent) -> Seq<char> {
    match ev {
        IngestEvent::Inferred(Some(s)) => s@,
        _ => Seq::empty(),
    }
}

/// How a document's ingestion ends, given how storing its rows ended.
pub open spec fn outcome_of_persist(o: PersistOutcome) -> IngestOutcome {
    match o {
        PersistOutcome::Stored(id) => IngestOutcome::Stored(id),
        PersistOutcome::Failed(f) => IngestOutcome::PersistFailed(f),
    }
}

/// One intake document on its way into the archive. The driver draws the archive
/// identifier and reads the upload date before it starts.
pub struct Ingestion {
    pub intake_dir: String,
    pub storage_dir: String,
    pub file_name: String,
    pub archive_id: String,
    pub upload_date: CalendarDate,
    pub stage: IngestStage,
    pub content: String,
    pub summary: String,
    pub buzzwords: String,
    pub title: String,
    pub filepath: String,
    pub outcome: Option<IngestOutcome>,
}

impl Ingestion {
    /// The identifier is an archive identifier and the date a day of the calendar;
    /// once cleanup has begun, the outcome is known.
    pub open spec fn wf(self) -> bool {
        &&& is_archive_id(self.archive_id@)
        &&& self.upload_date.is_valid()
        &&& self.stage is CleaningUp || self.stage is Done ==> self.outcome is Some
    }

    pub open spec fn same_document(self, other: Ingestion) -> bool {
        &&& self.intake_dir == other.intake_dir
        &&& self.storage_dir == other.storage_dir
        &&& self.file_name == other.file_name
        &&& self.archive_id == other.archive_id
        &&& self.upload_date == other.upload_date
    }

    /// Starts ingesting the intake file `file_name`, to be archived under `archive_id`
    /// and stored with `upload_date`; the first action extracts its text.
    pub fn start(
        intake_dir: String,
        storage_dir: String,
        file_name: String,
        archive_id: String,
        upload_date: CalendarDate,
    ) -> (r: (Ingestion, IngestAction))
        requires
            is_archive_id(archive_id@),
            upload_date.is_valid(),
        ensures
            r.0.wf(),
            r.0.intake_dir == intake_dir,
            r.0.storage_dir == storage_dir,
            r.0.file_name == file_name,
            r.0.archive_id == archive_id,
            r.0.upload_date == upload_date,
            r.0.stage == IngestStage::Extracting,
            r.1 == IngestAction::Extract(file_name),
    {
        let action = IngestAction::Extract(file_name.clone());
        (
            Ingestion {
                intake_dir,
                storage_dir,
                file_name,
                archive_id,
                upload_date,
                stage: IngestStage::Extracting,
                content: String::new(),
                summary: String::new(),
                buzzwords: String::new(),
                title: String::new(),
                filepath: String::new(),
                outcome: None,
            },
            action,
        )
    }

    /// Whether `ev` answers the last action.
    pub fn answers(&self, ev: &IngestEvent) -> (r: bool)
        ensures
            r == answers(self.stage, *ev),
    {
        match self.stage {
            IngestStage::Extracting => matches!(ev, IngestEvent::Extracted(_)),
            IngestStage::Summarizing => matches!(ev, IngestEvent::Inferred(_)),
            IngestStage::ExtractingKeywords => matches!(ev, IngestEvent::Inferred(_)),
            IngestStage::GeneratingTitle => matches!(ev, IngestEvent::Inferred(_)),
            IngestStage::Archiving => matches!(ev, IngestEvent::Archived(_)),
            IngestStage::Persisting => matches!(ev, IngestEvent::Persisted(_)),
            IngestStage::CleaningUp => matches!(ev, IngestEvent::CleanedUp),
            IngestStage::Done => false,
        }
    }

    /// Takes the result of the last action and gives the next action.
    ///
    /// Extraction failing ends the document before anything is archived or stored; a
    /// failed inference counts as an empty reply; a failed move ends the document
    /// before anything is stored. Cleanup runs however the document ended.
    pub fn step(&mut self, ev: IngestEvent) -> (r: IngestAction)
        requires
            old(self).wf(),
            answers(old(self).stage, ev),
        ensures
            final(self).wf(),
            final(self).same_document(*old(self)),
            old(self).stage is Extracting ==> match ev {
                IngestEvent::Extracted(Ok(text)) => {
                    &&& final(self).stage == IngestStage::Summarizing
                    &&& final(self).content@ == normalized(text@)
                    &&& r == IngestAction::Infer(EnrichTask::Summarize, final(self).content)
                },
                IngestEvent::Extracted(Err(e)) => {
                    &&& final(self).stage == IngestStage::CleaningUp
                    &&& final(self).outcome == Some(IngestOutcome::ExtractionFailed(e))
                    &&& r == IngestAction::CleanUp
                },
                _ => false,
            },
            old(self).stage is Summarizing ==> {
                &&& final(self).stage == IngestStage::ExtractingKeywords
                &&& final(self).content == old(self).content
                &&& final(self).summary@ == normalized(reply_text(ev))
                &&& r == IngestAction::Infer(EnrichTask::ExtractKeywords, old(self).content)
            },
            old(self).stage is ExtractingKeywords ==> {
                &&& final(self).stage == IngestStage::GeneratingTitle
                &&& final(self).content == old(self).content
                &&& final(self).summary == old(self).summary
                &&& final(self).buzzwords@ == normalized(reply_text(ev))
                &&& r matches IngestAction::Infer(EnrichTask::GenerateTitle, prompt)
                    && prompt@ == reply_text(ev)
            },
            old(self).stage is GeneratingTitle ==> {
                &&& final(self).stage == IngestStage::Archiving
                &&& final(self).content == old(self).content
                &&& final(self).summary == old(self).summary
                &&& final(self).buzzwords == old(self).buzzwords
                &&& final(self).title@ == clean_title(reply_text(ev))
                &&& final(self).filepath@ == old(self).storage_dir@ + archived_name(
                    old(self).file_name@,
                    old(self).archive_id@,
                )
                &&& r matches IngestAction::Archive(from, to) && from@ == old(self).intake_dir@
                    + old(self).file_name@ && to == final(self).filepath
            },
            old(self).stage is Archiving ==> match ev {
                IngestEvent::Archived(true) => {
                    &&& final(self).stage == IngestStage::Persisting
                    &&& r matches IngestAction::Persist(d, c) && d._id == 0
                        && d.upload_date == old(self).upload_date && d.filepath == old(self).filepath
                        && d.title == old(self).title && c._id == 0 && c.content
                        == old(self).content && c.summary == old(self).summary && c.buzzwords
                        == old(self).buzzwords
                },
                _ => {
                    &&& final(self).stage == IngestStage::CleaningUp
                    &&& final(self).outcome == Some(IngestOutcome::ArchiveFailed)
                    &&& r == IngestAction::CleanUp
                },
            },
            old(self).stage is Persisting ==> {
                &&& final(self).stage == IngestStage::CleaningUp
                &&& r == IngestAction::CleanUp
                &&& ev matches IngestEvent::Persisted(o) && final(self).outcome == Some(
                    outcome_of_persist(o),
                )
            },
            old(self).stage is CleaningUp ==> {
                &&& final(self).stage == IngestStage::Done
                &&& final(self).outcome == old(self).outcome
                &&& r == IngestAction::Finish(old(self).outcome->0)
            },
    {
        match self.stage {
            IngestStage::Extracting => match ev {
                IngestEvent::Extracted(Ok(text)) => {
                    self.content = normalize(text.as_str());
                    self.stage = IngestStage::Summarizing;
                    IngestAction::Infer(EnrichTask::Summarize, self.content.clone())
                },
                IngestEvent::Extracted(Err(e)) => {
                    self.outcome = Some(IngestOutcome::ExtractionFailed(e));
                    self.stage = IngestStage::CleaningUp;
                    IngestAction::CleanUp
                },
                _ => IngestAction::CleanUp,
            },
            IngestStage::Summarizing => {
                self.summary = normalize(reply_of(ev).as_str());
                self.stage = IngestStage::ExtractingKeywords;
                IngestAction::Infer(EnrichTask::ExtractKeywords, self.content.clone())
            },
            IngestStage::ExtractingKeywords => {
                let keywords = reply_of(ev);
                self.buzzwords = normalize(keywords.as_str());
                self.stage = IngestStage::GeneratingTitle;
                IngestAction::Infer(EnrichTask::GenerateTitle, keywords)
            },
            IngestStage::GeneratingTitle => {
                self.title = tidy_title(reply_of(ev));
                self.filepath = archive_target(
                    self.storage_dir.as_str(),
                    self.file_name.as_str(),
                    self.archive_id.as_str(),
                );
                let mut from = String::from_str(self.intake_dir.as_str());
                from.append(self.file_name.as_str());
                self.stage = IngestStage::Archiving;
                IngestAction::Archive(from, self.filepath.clone())
            },
            IngestStage::Archiving => match ev {
                IngestEvent::Archived(true) => {
                    let document = Document {
                        _id: 0,
                        upload_date: self.upload_date,
                        filepath: self.filepath.clone(),
                        title: self.title.clone(),
                    };
                    let content = DocumentContent {
                        _id: 0,
                        content: self.content.clone(),
                        summary: self.summary.clone(),
                        buzzwords: self.buzzwords.clone(),
                    };
                    self.stage = IngestStage::Persisting;
                    IngestAction::Persist(document, content)
                },
                _ => {
                    self.outcome = Some(IngestOutcome::ArchiveFailed);
                    self.stage = IngestStage::CleaningUp;
                    IngestAction::CleanUp
                },
            },
            IngestStage::Persisting => {
                if let IngestEvent::Persisted(o) = ev {
                    self.outcome = Some(
                        match o {
                            PersistOutcome::Stored(id) => IngestOutcome::Stored(id),
                            PersistOutcome::Failed(f) => IngestOutcome::PersistFailed(f),
                        },
                    );
                }
                self.stage = IngestStage::CleaningUp;
                IngestAction::CleanUp
            },
            IngestStage::CleaningUp => {
                self.stage = IngestStage::Done;
                match self.outcome {
                    Some(o) => IngestAction::Finish(o),
                    None => IngestAction::CleanUp,
                }
            },
            IngestStage::Done => IngestAction::CleanUp,
        }
    }
}

/// The reply carried by an inference result; a failed inference gives an empty reply.
fn reply_of(ev: IngestEvent) -> (r: String)
    ensures
        r@ == reply_text(ev),
{
    match ev {
        IngestEvent::Inferred(Some(s)) => s,
        _ => String::new(),
    }
}

/// The intake entries to ingest, in listing order: those whose name ends in `.pdf`.
pub open spec fn intake_documents(names: Seq<String>) -> Seq<String>
    decreases names.len(),
{
    if names.len() == 0 {
        names
    } else if is_pdf_name(names.last()@) {
        intake_documents(names.drop_last()).push(names.last())
    } else {
        intake_documents(names.drop_last())
    }
}

/// What a run over the intake directory does.
pub struct IntakePlan {
    /// The documents to ingest, one after another.
    pub documents: Vec<String>,
    /// The directory is empty: there is nothing to consume, and nothing is changed.
    pub nothing_to_consume: bool,
}

/// Plans a run over the intake directory whose entries are named `names`.
pub fn plan_intake(names: &Vec<String>) -> (r: IntakePlan)
    ensures
        r.documents@ == intake_documents(names@),
        r.nothing_to_consume == (names.len() == 0),
{
    let mut documents: Vec<String> = Vec::new();
    let mut k: usize = 0;
    while k < names.len()
        invariant
            k <= names.len(),
            documents@ == intake_documents(names@.take(k as int)),
        decreases names.len() - k,
    {
        assert(names@.take(k + 1).drop_last() =~= names@.take(k as int));
        if is_intake_document(names[k].as_str()) {
            documents.push(names[k].clone());
        }
        k = k + 1;
    }
    assert(names@.take(names.len() as int) =~= names@);
    IntakePlan { documents, nothing_to_consume: names.len() == 0 }
}

} // verus!
