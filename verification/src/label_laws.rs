//! What things are called.
use vstd::prelude::*;
use vstd::string::*;
use crate::content_evidence::ContentEvidenceKind;
use crate::dat::identity::DatPlatformConfidence;
use crate::dat::rom_organisation::OrganisationMode;
use crate::platform_evidence_fusion::canary::CanaryIneligibleReason;
use crate::platform_evidence_fusion::cue_m3u_parsing::ReferenceRejection;
use crate::platform_evidence_fusion::duplicate_taxonomy::DuplicateClass;
use crate::platform_evidence_fusion::identity_presentation::IdentityStatus;
use crate::platform_evidence_fusion::library_plan_export::OperationIntent;
use crate::platform_evidence_fusion::library_planning::PlanStatus;
use crate::platform_evidence_fusion::side_file_classification::SideFileRole;

verus! {

/// The kinds of facts go by their names.
pub proof fn kinds_of_facts_go_by_their_names()
    ensures
        ContentEvidenceKind::BootStructure.name_text() == "BootStructure"@,
        ContentEvidenceKind::ProductCode.name_text() == "ProductCode"@,
        ContentEvidenceKind::ContentSignature.name_text() == "ContentSignature"@,
        ContentEvidenceKind::Filesystem.name_text() == "Filesystem"@,
        ContentEvidenceKind::Container.name_text() == "Container"@,
{
}

/// The confidences of a DAT go by their names.
pub proof fn confidences_go_by_their_names()
    ensures
        DatPlatformConfidence::Weak.name_text() == "Weak"@,
        DatPlatformConfidence::Corroborated.name_text() == "Corroborated"@,
        DatPlatformConfidence::Strong.name_text() == "Strong"@,
{
}

/// The modes say what happens to the file.
pub proof fn modes_say_what_happens_to_the_file()
    ensures
        OrganisationMode::MoveRealFile.label_text() == "Move real file"@,
        OrganisationMode::RenameInPlace.label_text() == "Rename in place"@,
        OrganisationMode::OrganiseSymlinkOnly.label_text() == "Organise symlink only"@,
{
}

/// The intents go by their names, and the absence of one by that.
pub proof fn intents_go_by_their_names()
    ensures
        OperationIntent::MoveToLibraryFolder.name_text() == "MoveToLibraryFolder"@,
        OperationIntent::RenameInPlace.name_text() == "RenameInPlace"@,
        OperationIntent::OrganiseSymlinkOnly.name_text() == "OrganiseSymlinkOnly"@,
        OperationIntent::NoOperation.name_text() == "None"@,
{
}

/// The classes of duplicates go by their names, and their labels say what is shared.
pub proof fn classes_say_what_is_shared()
    ensures
        DuplicateClass::ExactPhysicalDuplicate.name_text() == "ExactPhysicalDuplicate"@,
        DuplicateClass::ExactNormalizedDuplicate.name_text() == "ExactNormalizedDuplicate"@,
        DuplicateClass::SameDatRelease.name_text() == "SameDatRelease"@,
        DuplicateClass::SameGameDifferentDump.name_text() == "SameGameDifferentDump"@,
        DuplicateClass::SameGameDifferentRevision.name_text() == "SameGameDifferentRevision"@,
        DuplicateClass::PossibleDuplicate.name_text() == "PossibleDuplicate"@,
        DuplicateClass::NotDuplicate.name_text() == "NotDuplicate"@,
        DuplicateClass::ExactPhysicalDuplicate.label_text() == "Exact physical duplicate"@,
        DuplicateClass::ExactNormalizedDuplicate.label_text() == "Exact normalized duplicate"@,
        DuplicateClass::SameDatRelease.label_text() == "Same DAT release"@,
        DuplicateClass::SameGameDifferentDump.label_text() == "Same game, different dump"@,
        DuplicateClass::SameGameDifferentRevision.label_text() == "Same game, different revision"@,
        DuplicateClass::PossibleDuplicate.label_text() == "Possible duplicate"@,
        DuplicateClass::NotDuplicate.label_text() == "Not a duplicate"@,
{
}

/// The statuses of a plan go by their names, and are shown as words.
pub proof fn plan_statuses_go_by_their_names()
    ensures
        PlanStatus::Ready.label_text() == "Ready"@,
        PlanStatus::NeedsReview.label_text() == "Needs review"@,
        PlanStatus::Ambiguous.label_text() == "Ambiguous"@,
        PlanStatus::Conflict.label_text() == "Conflict"@,
        PlanStatus::Unknown.label_text() == "Unknown"@,
        PlanStatus::Unsupported.label_text() == "Unsupported"@,
        PlanStatus::Ready.name_text() == "Ready"@,
        PlanStatus::NeedsReview.name_text() == "NeedsReview"@,
        PlanStatus::Ambiguous.name_text() == "Ambiguous"@,
        PlanStatus::Conflict.name_text() == "Conflict"@,
        PlanStatus::Unknown.name_text() == "Unknown"@,
        PlanStatus::Unsupported.name_text() == "Unsupported"@,
{
}

/// The statuses of an identity say what was found.
pub proof fn identity_statuses_say_what_was_found()
    ensures
        IdentityStatus::Conflict.label_text() == "Conflict"@,
        IdentityStatus::Ambiguous.label_text() == "Ambiguous"@,
        IdentityStatus::VerifiedByDat.label_text() == "Verified by DAT"@,
        IdentityStatus::ContentAndDatAgree.label_text() == "Content and DAT agree"@,
        IdentityStatus::ContentOnly.label_text() == "Strong content evidence"@,
        IdentityStatus::DatOnly.label_text() == "DAT only"@,
        IdentityStatus::Unknown.label_text() == "Unknown"@,
{
}

/// The roles of files say what a file is.
pub proof fn roles_say_what_a_file_is()
    ensures
        SideFileRole::PrimaryContent.label_text() == "Primary content"@,
        SideFileRole::CueSheet.label_text() == "Cue sheet"@,
        SideFileRole::Playlist.label_text() == "Playlist"@,
        SideFileRole::Patch.label_text() == "Patch"@,
        SideFileRole::Manual.label_text() == "Manual"@,
        SideFileRole::Artwork.label_text() == "Artwork"@,
        SideFileRole::Readme.label_text() == "Readme"@,
        SideFileRole::Metadata.label_text() == "Metadata"@,
        SideFileRole::SaveOrState.label_text() == "Save or state"@,
        SideFileRole::UnknownSupport.label_text() == "Unknown support file"@,
{
}

/// The rejections of references go by their names.
pub proof fn rejections_go_by_their_names()
    ensures
        ReferenceRejection::AbsolutePath.name_text() == "AbsolutePath"@,
        ReferenceRejection::ParentTraversal.name_text() == "ParentTraversal"@,
        ReferenceRejection::Empty.name_text() == "Empty"@,
{
}

/// The reasons against a canary go by their names.
pub proof fn reasons_go_by_their_names()
    ensures
        CanaryIneligibleReason::DigestStale.name_text() == "DigestStale"@,
        CanaryIneligibleReason::NotReady.name_text() == "NotReady"@,
        CanaryIneligibleReason::HasBlockers.name_text() == "HasBlockers"@,
        CanaryIneligibleReason::NotApproved.name_text() == "NotApproved"@,
        CanaryIneligibleReason::NoDestination.name_text() == "NoDestination"@,
        CanaryIneligibleReason::BelongsToSet.name_text() == "BelongsToSet"@,
        CanaryIneligibleReason::HasSupportAssociation.name_text() == "HasSupportAssociation"@,
        CanaryIneligibleReason::NoHashPrecondition.name_text() == "NoHashPrecondition"@,
        CanaryIneligibleReason::SourceUnderProductionRoot.name_text()
            == "SourceUnderProductionRoot"@,
        CanaryIneligibleReason::SourceOutsideCanaryRoot.name_text() == "SourceOutsideCanaryRoot"@,
        CanaryIneligibleReason::SourceMissing.name_text() == "SourceMissing"@,
        CanaryIneligibleReason::SourceIsSymlink.name_text() == "SourceIsSymlink"@,
        CanaryIneligibleReason::SourceNotRegularFile.name_text() == "SourceNotRegularFile"@,
        CanaryIneligibleReason::DestinationUnderProductionRoot.name_text()
            == "DestinationUnderProductionRoot"@,
        CanaryIneligibleReason::DestinationOutsideCanaryRoot.name_text()
            == "DestinationOutsideCanaryRoot"@,
        CanaryIneligibleReason::DestinationAlreadyExists.name_text() == "DestinationAlreadyExists"@,
        CanaryIneligibleReason::DestinationParentMissing.name_text() == "DestinationParentMissing"@,
        CanaryIneligibleReason::CycleOrDuplicateTarget.name_text() == "CycleOrDuplicateTarget"@,
{
}

} // verus!
