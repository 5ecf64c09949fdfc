//! How the outcome of text extraction is read: the rasteriser turns a PDF page into an
//! image and the recogniser turns the image into text, each reporting an exit status.
use vstd::prelude::*;

verus! {

/// Why a document could not be rasterised, after the rasteriser's exit status.
#[derive(Clone, Copy, Debug, PartialEq, Eq, Structural)]
pub enum ConversionFailure {
    /// Status 1: the PDF could not be opened.
    OpenPdf,
    /// Status 2: an output file could not be opened.
    OpenOutput,
    /// Status 3: the PDF's permissions forbid it.
    Permissions,
    /// Any other nonzero status.
    Other(i32),
    /// The process was ended by a signal.
    Signal,
    /// The rasteriser could not be started at all.
    NotStarted,
}

/// A failure of text extraction.
#[derive(Clone, Copy, Debug, PartialEq, Eq, Structural)]
pub enum ExtractionError {
    ConversionFailed(ConversionFailure),
    /// The recogniser's nonzero exit status, or `None` when a signal ended it.
    RecognitionFailed(Option<i32>),
    /// The recogniser could not be started at all.
    RecognitionNotStarted,
}

pub open spec fn conversion_result(code: Option<i32>) -> Result<(), ConversionFailure> {
    match code {
        Some(0) => Ok(()),
        Some(1) => Err(ConversionFailure::OpenPdf),
        Some(2) => Err(ConversionFailure::OpenOutput),
        Some(3) => Err(ConversionFailure::Permissions),
        Some(c) => Err(ConversionFailure::Other(c)),
        None => Err(ConversionFailure::Signal),
    }
}

/// Reads the rasteriser's exit status (`None` when a signal ended it).
pub fn conversion_outcome(code: Option<i32>) -> (r: Result<(), ConversionFailure>)
    ensures
        r == conversion_result(code),
{
    match code {
        Some(0) => Ok(()),
        Some(1) => Err(ConversionFailure::OpenPdf),
        Some(2) => Err(ConversionFailure::OpenOutput),
        Some(3) => Err(ConversionFailure::Permissions),
        Some(c) => Err(ConversionFailure::Other(c)),
        None => Err(ConversionFailure::Signal),
    }
}

/// Reads the recogniser's exit status (`None` when a signal ended it).
pub fn recognition_outcome(code: Option<i32>) -> (r: Result<(), ExtractionError>)
    ensures
        code == Some(0i32) ==> r is Ok,
        code != Some(0i32) ==> r == Err::<(), ExtractionError>(
            ExtractionError::RecognitionFailed(code),
        ),
{
    match code {
        Some(0) => Ok(()),
        _ => Err(ExtractionError::RecognitionFailed(code)),
    }
}

} // verus!
