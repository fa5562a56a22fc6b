//! What a content detector reports about a bounded run of bytes.
use vstd::prelude::*;
use crate::content_evidence::ContentEvidence;

verus! {

/// Why an input that belongs to a detector could not be read.
#[derive(Debug, Clone, PartialEq, Eq)]
pub struct ContentDiagnostic {
    pub detector_id: &'static str,
    pub category: &'static str,
    pub message: String,
}

/// The result of running one detector.
#[derive(Debug, Clone, PartialEq, Eq)]
pub enum ContentDetectionOutcome {
    Recognized { evidence: Vec<ContentEvidence> },
    NotRecognized,
    Malformed { evidence: Vec<ContentEvidence>, diagnostic: ContentDiagnostic },
}

impl ContentDetectionOutcome {
    pub fn is_recognized(&self) -> (r: bool)
        ensures
            r == (*self is Recognized),
    {
        match self {
            ContentDetectionOutcome::Recognized { .. } => true,
            _ => false,
        }
    }
}

} // verus!
