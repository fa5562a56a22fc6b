//! What hashes, lineages and counts say of a library.
use vstd::prelude::*;
use vstd::string::*;
use crate::crc32::{big_endian, crc32};
use crate::dat::audit::{AuditVerdict, KnownFileEvidence};
use crate::platform_evidence_fusion::dat_hash_representation::{
    hashes_of, md5_digest, names_same_game, observes_normalized, representation_outcome,
    sha1_digest, sha256_digest, ByteRepresentation, RepresentationHashes,
    RepresentationMatchOutcome,
};
use crate::platform_evidence_fusion::duplicate_taxonomy::{duplicates, DuplicateClass, GroupModel};
use crate::platform_evidence_fusion::full_library_report::{
    class_count, counts_reflect, state_count, FullLibraryCounts, SupportState,
};
use crate::platform_evidence_fusion::library_grouping::{disc_sets, revisions};
use crate::platform_evidence_fusion::library_planning::{LibraryPlanInput, LibraryPlanningReport};
use crate::platform_evidence_fusion::presentation_laws::is_by_hash;
use crate::platform_evidence_fusion::release_relationship::{
    declared_parent, entry_for, related, DatIndex, ReleaseRelationship,
};
use crate::platform_evidence_fusion::set_destination::SupportModel;
use crate::platform_evidence_fusion::support_attachment::AssociationModel;
use crate::seqs::first_index_unique;
use crate::text::{hex_text, views};

verus! {

/// The verdict names the release by a cryptographic hash.
pub open spec fn names_release(verdict: AuditVerdict, game: Seq<char>) -> bool {
    match verdict {
        AuditVerdict::Exact { game_name, .. } => game_name@ == game,
        AuditVerdict::ExactMultipleCandidates { game_names, .. } => exists|i: int|
            0 <= i < game_names@.len() && (#[trigger] game_names@[i])@ == game,
        AuditVerdict::Probable { .. } => false,
        AuditVerdict::NotFound => false,
    }
}

/// Some release is named by both.
pub open spec fn share_a_release(a: AuditVerdict, b: AuditVerdict) -> bool {
    exists|game: Seq<char>| #[trigger] names_release(a, game) && names_release(b, game)
}

proof fn named_releases(verdict: AuditVerdict, game: Seq<char>)
    ensures
        names_release(verdict, game) <==> verdict.game_names().contains(game),
{
    let all = verdict.game_names();
    match verdict {
        AuditVerdict::Exact { game_name, .. } => {
            assert(all[0] == game_name@);
        },
        AuditVerdict::ExactMultipleCandidates { game_names, .. } => {
            assert(all == views(game_names@));
            if names_release(verdict, game) {
                let i = choose|i: int|
                    0 <= i < game_names@.len() && (#[trigger] game_names@[i])@ == game;
                assert(all[i] == game);
            }
            if all.contains(game) {
                let i = choose|i: int| 0 <= i < all.len() && all[i] == game;
                assert(game_names@[i]@ == game);
            }
        },
        _ => {},
    }
}

/// Two hashes of one file match as one when they name a release in common, and
/// contradict each other when each names releases and none is the other's; with
/// one of them found, that one counts, and with none there is no match. What is
/// found only by a checksum never counts.
pub proof fn hashes_match_by_the_releases_they_name(
    physical: AuditVerdict,
    normalized: Option<AuditVerdict>,
    identical: bool,
)
    ensures
        match (normalized, representation_outcome(physical, normalized, identical)) {
            (Some(n), RepresentationMatchOutcome::BothAgree { verdict, identical_bytes }) => {
                &&& is_by_hash(physical) && is_by_hash(n) && share_a_release(physical, n)
                &&& verdict == physical
                &&& identical_bytes == identical
            },
            (
                Some(n),
                RepresentationMatchOutcome::Disagree { physical_verdict, normalized_verdict },
            ) => {
                &&& is_by_hash(physical) && is_by_hash(n) && !share_a_release(physical, n)
                &&& physical_verdict == physical
                &&& normalized_verdict == n
            },
            (Some(n), RepresentationMatchOutcome::PhysicalOnly { verdict }) => {
                is_by_hash(physical) && !is_by_hash(n) && verdict == physical
            },
            (None, RepresentationMatchOutcome::PhysicalOnly { verdict }) => {
                is_by_hash(physical) && verdict == physical
            },
            (Some(n), RepresentationMatchOutcome::NormalizedOnly { verdict }) => {
                !is_by_hash(physical) && is_by_hash(n) && verdict == n
            },
            (Some(n), RepresentationMatchOutcome::NoMatch) => {
                !is_by_hash(physical) && !is_by_hash(n)
            },
            (None, RepresentationMatchOutcome::NoMatch) => !is_by_hash(physical),
            _ => false,
        },
{
    if let Some(n) = normalized {
        let a = physical.game_names();
        assert(names_same_game(physical, n) <==> share_a_release(physical, n)) by {
            if names_same_game(physical, n) {
                let i = choose|i: int|
                    0 <= i < a.len() && n.game_names().contains(#[trigger] a[i]);
                assert(a.contains(a[i]));
                named_releases(physical, a[i]);
                named_releases(n, a[i]);
            }
            if share_a_release(physical, n) {
                let game = choose|game: Seq<char>| #[trigger]
                    names_release(physical, game) && names_release(n, game);
                named_releases(physical, game);
                named_releases(n, game);
                let i = choose|i: int| 0 <= i < a.len() && a[i] == game;
                assert(n.game_names().contains(a[i]));
            }
        }
    }
}

/// A file's evidence carries its labels and size, and under the name of each
/// algorithm that algorithm's digest in hexadecimal.
pub proof fn every_digest_stands_under_its_name(
    evidence: KnownFileEvidence,
    bytes: Seq<u8>,
    filepath: Seq<char>,
    filename: Seq<char>,
)
    requires
        hashes_of(evidence, bytes, filepath, filename),
    ensures
        evidence.filepath@ == filepath,
        evidence.filename@ == filename,
        evidence.size == Some(bytes.len() as u64),
        evidence.crc32 matches Some(t) && t@ == hex_text(big_endian(crc32(bytes))),
        evidence.md5 matches Some(t) && t@ == hex_text(md5_digest(bytes)),
        evidence.sha1 matches Some(t) && t@ == hex_text(sha1_digest(bytes)),
        evidence.sha256 matches Some(t) && t@ == hex_text(sha256_digest(bytes)),
{
}

/// A normalised representation is hashed from the normalised bytes, says which
/// transform made them, and says that they are the file's own bytes only when
/// they are.
pub proof fn normalized_bytes_are_what_is_hashed(
    r: (RepresentationHashes, bool),
    physical: Seq<u8>,
    normalized: Seq<u8>,
    transform: Seq<char>,
    filepath: Seq<char>,
    filename: Seq<char>,
)
    requires
        observes_normalized(r, physical, normalized, transform, filepath, filename),
    ensures
        r.0.representation matches ByteRepresentation::Normalized { transform: t } && t@
            == transform,
        r.0.evidence.sha1 matches Some(t) && t@ == hex_text(sha1_digest(normalized)),
        r.0.evidence.size == Some(normalized.len() as u64),
        r.1 <==> physical == normalized,
{
}

/// A clone is of its parent's family, a release without a parent of its own, and
/// a release without a DAT match of none.
pub proof fn families_are_named_after_the_parent(
    a: ReleaseRelationship,
    b: ReleaseRelationship,
)
    ensures
        related(a, b) <==> match (a, b) {
            (ReleaseRelationship::Unknown, _) => false,
            (_, ReleaseRelationship::Unknown) => false,
            (
                ReleaseRelationship::Canonical { game_name: x },
                ReleaseRelationship::Canonical { game_name: y },
            ) => x@ == y@,
            (
                ReleaseRelationship::Canonical { game_name: x },
                ReleaseRelationship::CloneOf { parent: y, .. },
            ) => x@ == y@,
            (
                ReleaseRelationship::CloneOf { parent: x, .. },
                ReleaseRelationship::Canonical { game_name: y },
            ) => x@ == y@,
            (
                ReleaseRelationship::CloneOf { parent: x, .. },
                ReleaseRelationship::CloneOf { parent: y, .. },
            ) => x@ == y@,
        },
{
}

/// The first entry of a DAT for a name says whether it has a parent; a name
/// without an entry has none.
pub proof fn the_first_entry_for_a_name_declares_its_parent(
    index: DatIndex,
    name: Seq<char>,
    k: int,
)
    requires
        0 <= k <= index.game_clone_of@.len(),
        forall|j: int| 0 <= j < k ==> (#[trigger] index.game_clone_of@[j]).0@ != name,
        k < index.game_clone_of@.len() ==> index.game_clone_of@[k].0@ == name,
    ensures
        k == index.game_clone_of@.len() ==> declared_parent(index, name) is None,
        k < index.game_clone_of@.len() ==> declared_parent(index, name)
            == match index.game_clone_of@[k].1 {
            Some(parent) => Some(parent@),
            None => None,
        },
{
    assert forall|j: int| 0 <= j < k implies !entry_for(name)(
        #[trigger] index.game_clone_of@[j],
    ) by {
    }
    first_index_unique(index.game_clone_of@, entry_for(name), k);
}

/// The groups of a class.
pub open spec fn of_class(groups: Seq<GroupModel>, class: DuplicateClass) -> Seq<GroupModel> {
    groups.filter(|g: GroupModel| g.classification == class)
}

/// The support files of a state.
pub open spec fn in_state(
    files: Seq<SupportModel>,
    state: spec_fn(AssociationModel) -> bool,
) -> Seq<SupportModel> {
    files.filter(|s: SupportModel| state(s.association))
}

proof fn classes_are_counted(groups: Seq<GroupModel>, a: DuplicateClass, b: DuplicateClass)
    ensures
        class_count(groups, a, a) == of_class(groups, a).len(),
        a != b ==> class_count(groups, a, b) == of_class(groups, a).len() + of_class(
            groups,
            b,
        ).len(),
    decreases groups.len(),
{
    reveal(Seq::filter);
    if groups.len() > 0 {
        classes_are_counted(groups.drop_last(), a, b);
    }
}

proof fn states_are_counted(files: Seq<SupportModel>)
    ensures
        state_count(files, SupportState::Attached) == in_state(
            files,
            |m: AssociationModel| m is Attached,
        ).len(),
        state_count(files, SupportState::Candidate) == in_state(
            files,
            |m: AssociationModel| m is Candidate,
        ).len(),
        state_count(files, SupportState::Unassociated) == in_state(
            files,
            |m: AssociationModel| m is Unassociated,
        ).len(),
        state_count(files, SupportState::Unsafe) == in_state(
            files,
            |m: AssociationModel| m is UnsafeReference,
        ).len(),
    decreases files.len(),
{
    reveal(Seq::filter);
    if files.len() > 0 {
        states_are_counted(files.drop_last());
    }
}

/// A report counts the files, the sets and lineages, the duplicate groups of each
/// class and the support files of each state; what the plan counted it repeats.
pub proof fn reports_count_what_there_is(
    counts: FullLibraryCounts,
    inputs: Seq<LibraryPlanInput>,
    plan: LibraryPlanningReport,
    files: Seq<SupportModel>,
)
    requires
        counts_reflect(counts, inputs, plan, files),
    ensures
        counts.primary_items == inputs.len(),
        counts.support_files == files.len(),
        counts.set_groups == disc_sets(inputs).len(),
        counts.release_groups == revisions(inputs).len(),
        counts.game_groups == 0,
        counts.exact_physical_duplicates == of_class(
            duplicates(inputs),
            DuplicateClass::ExactPhysicalDuplicate,
        ).len(),
        counts.normalized_duplicates == of_class(
            duplicates(inputs),
            DuplicateClass::ExactNormalizedDuplicate,
        ).len(),
        counts.same_dat_release_groups == of_class(
            duplicates(inputs),
            DuplicateClass::SameDatRelease,
        ).len() + of_class(duplicates(inputs), DuplicateClass::SameGameDifferentDump).len(),
        counts.different_revision_groups == of_class(
            duplicates(inputs),
            DuplicateClass::SameGameDifferentRevision,
        ).len(),
        counts.possible_duplicate_groups == of_class(
            duplicates(inputs),
            DuplicateClass::PossibleDuplicate,
        ).len(),
        counts.support_attached == in_state(files, |m: AssociationModel| m is Attached).len(),
        counts.support_candidate == in_state(files, |m: AssociationModel| m is Candidate).len(),
        counts.support_unassociated == in_state(
            files,
            |m: AssociationModel| m is Unassociated,
        ).len(),
        counts.support_unsafe == in_state(
            files,
            |m: AssociationModel| m is UnsafeReference,
        ).len(),
        counts.ready == plan.ready,
        counts.needs_review == plan.needs_review,
        counts.ambiguous == plan.ambiguous,
        counts.conflict == plan.conflict,
        counts.unknown == plan.unknown,
        counts.unsupported == plan.unsupported,
        counts.romm_mapped == plan.romm_mapped,
        counts.romm_unmapped == plan.romm_unmapped,
{
    let groups = duplicates(inputs);
    classes_are_counted(
        groups,
        DuplicateClass::ExactPhysicalDuplicate,
        DuplicateClass::ExactNormalizedDuplicate,
    );
    classes_are_counted(
        groups,
        DuplicateClass::ExactNormalizedDuplicate,
        DuplicateClass::ExactPhysicalDuplicate,
    );
    classes_are_counted(
        groups,
        DuplicateClass::SameDatRelease,
        DuplicateClass::SameGameDifferentDump,
    );
    classes_are_counted(
        groups,
        DuplicateClass::SameGameDifferentRevision,
        DuplicateClass::PossibleDuplicate,
    );
    classes_are_counted(
        groups,
        DuplicateClass::PossibleDuplicate,
        DuplicateClass::SameGameDifferentRevision,
    );
    states_are_counted(files);
}

} // verus!
