//! What planning a library works on and what it produces for each file.
use vstd::prelude::*;
use crate::dat::rom_organisation::OrganisationEntry;
use crate::platform::opt_id;
use crate::platform_evidence_fusion::archive_set_identity::ArchiveSetIdentity;
use crate::platform_evidence_fusion::identity_orchestrator::IdentityResult;
use crate::platform_evidence_fusion::identity_presentation::{
    named_platform, present_identity, status_of, IdentityStatus,
};
use crate::platform_evidence_fusion::release_relationship::ReleaseRelationship;

verus! {

/// One file to plan for, with everything already computed about it.
#[derive(Debug, Clone, PartialEq, Eq)]
pub struct LibraryPlanInput {
    pub source_path: String,
    pub identity: IdentityResult,
    pub set_identity: Option<ArchiveSetIdentity>,
    pub physical_hash: Option<String>,
    pub normalized_hash: Option<String>,
    pub release_relationship: Option<ReleaseRelationship>,
}

/// How far a file's plan is settled.
#[derive(Debug, Clone, Copy, PartialEq, Eq, Structural)]
pub enum PlanStatus {
    Ready,
    NeedsReview,
    Ambiguous,
    Conflict,
    Unknown,
    Unsupported,
}

impl PlanStatus {
    pub open spec fn label_text(self) -> Seq<char> {
        match self {
            PlanStatus::Ready => "Ready"@,
            PlanStatus::NeedsReview => "Needs review"@,
            PlanStatus::Ambiguous => "Ambiguous"@,
            PlanStatus::Conflict => "Conflict"@,
            PlanStatus::Unknown => "Unknown"@,
            PlanStatus::Unsupported => "Unsupported"@,
        }
    }

    pub fn label(self) -> (r: &'static str)
        ensures
            r@ == self.label_text(),
    {
        match self {
            PlanStatus::Ready => "Ready",
            PlanStatus::NeedsReview => "Needs review",
            PlanStatus::Ambiguous => "Ambiguous",
            PlanStatus::Conflict => "Conflict",
            PlanStatus::Unknown => "Unknown",
            PlanStatus::Unsupported => "Unsupported",
        }
    }

    /// The variant's name.
    pub open spec fn name_text(self) -> Seq<char> {
        match self {
            PlanStatus::Ready => "Ready"@,
            PlanStatus::NeedsReview => "NeedsReview"@,
            PlanStatus::Ambiguous => "Ambiguous"@,
            PlanStatus::Conflict => "Conflict"@,
            PlanStatus::Unknown => "Unknown"@,
            PlanStatus::Unsupported => "Unsupported"@,
        }
    }

    pub fn name(self) -> (r: &'static str)
        ensures
            r@ == self.name_text(),
    {
        match self {
            PlanStatus::Ready => "Ready",
            PlanStatus::NeedsReview => "NeedsReview",
            PlanStatus::Ambiguous => "Ambiguous",
            PlanStatus::Conflict => "Conflict",
            PlanStatus::Unknown => "Unknown",
            PlanStatus::Unsupported => "Unsupported",
        }
    }
}

/// What a rename suggestion rests on.
#[derive(Debug, Clone, Copy, PartialEq, Eq, Structural)]
pub enum RenameBasis {
    AuthoritativeDatRelease,
    OriginalNamePreserved,
    Unavailable,
}

/// A rename suggestion, never an authorisation.
#[derive(Debug, Clone, PartialEq, Eq)]
pub struct RenameSuggestion {
    pub basis: RenameBasis,
    pub proposed_name: Option<String>,
    pub blockers: Vec<String>,
}

/// Whether a platform maps to a RomM slug.
#[derive(Debug, Clone, Copy, PartialEq, Eq, Structural)]
pub enum RommMappingStatus {
    Mapped,
    Unmapped,
    Ambiguous,
    Unsupported,
}

/// The proposed RomM mapping of a file.
#[derive(Debug, Clone, PartialEq, Eq)]
pub struct RommMapping {
    pub status: RommMappingStatus,
    pub slug: Option<String>,
    pub canonical_platform: Option<String>,
    pub warnings: Vec<&'static str>,
}

/// The plan for one file.
#[derive(Debug, Clone, PartialEq, Eq)]
pub struct LibraryItemPlan {
    pub status: PlanStatus,
    pub organisation: OrganisationEntry,
    pub set_identity: Option<ArchiveSetIdentity>,
    pub rename: RenameSuggestion,
    pub romm: RommMapping,
}

/// The plans for a batch of files, and how many have each status.
#[derive(Debug, Clone, PartialEq, Eq)]
pub struct LibraryPlanningReport {
    pub items: Vec<LibraryItemPlan>,
    pub ready: usize,
    pub needs_review: usize,
    pub ambiguous: usize,
    pub conflict: usize,
    pub unknown: usize,
    pub unsupported: usize,
    pub romm_mapped: usize,
    pub romm_unmapped: usize,
}

/// The platform an identity settles on: none for a conflicting or ambiguous
/// one, else the platform it names.
pub open spec fn settled_id(identity: IdentityResult) -> Option<Seq<char>> {
    if status_of(identity) == IdentityStatus::Conflict || status_of(identity)
        == IdentityStatus::Ambiguous {
        None
    } else {
        named_platform(identity)
    }
}

/// The platform an identity settles on.
pub fn settled_platform(identity: &IdentityResult) -> (r: Option<&'static str>)
    ensures
        opt_id(r) == settled_id(*identity),
{
    let presentation = present_identity(identity);
    if presentation.status == IdentityStatus::Conflict || presentation.status
        == IdentityStatus::Ambiguous {
        None
    } else {
        presentation.platform
    }
}

} // verus!
