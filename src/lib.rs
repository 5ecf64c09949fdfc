//! A personal document archive: text normalisation, archive naming, fuzzy-search
//! ranking and the decision logic of ingestion, persistence and deletion.

pub mod text;
pub mod normalize;
pub mod records;
pub mod search;
pub mod archive;
pub mod command;
pub mod extract;
pub mod repository;
pub mod ingest;
