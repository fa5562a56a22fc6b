//! Everything known about one file's identity, gathered in one place.
use vstd::prelude::*;
use crate::content_evidence::{facts, ContentEvidence};
use crate::dat::identity::DatPlatformIdentity;
use crate::platform::is_platform;
use crate::platform_evidence_fusion::archive_set_identity::{
    classify_archive_set, member_models, set_of, ArchiveSetIdentity,
};
use crate::platform_evidence_fusion::combined_identity::{
    combine_identity, combines, CombinedIdentityView,
};
use crate::platform_evidence_fusion::dat_hash_representation::RepresentationMatchOutcome;
use crate::platform_evidence_fusion::laws::outcome_shapes;
use crate::platform_evidence_fusion::rules::rule_table;
use crate::platform_evidence_fusion::{
    explains, fired, fuse_platform_evidence, outcome_of, FusionOutcome, ResolutionExplanation,
};

verus! {

/// What has been observed about one file.
#[derive(Debug, Clone, PartialEq, Eq)]
pub struct IdentityInspectionInput {
    pub content_evidence: Vec<ContentEvidence>,
    pub dat: Option<DatPlatformIdentity>,
    pub representation_match: Option<RepresentationMatchOutcome>,
    pub archive_members: Option<Vec<(usize, Vec<ContentEvidence>)>>,
}

impl Default for IdentityInspectionInput {
    /// Nothing was observed.
    fn default() -> (r: IdentityInspectionInput)
        ensures
            r.content_evidence@.len() == 0,
            r.dat is None,
            r.representation_match is None,
            r.archive_members is None,
    {
        IdentityInspectionInput {
            content_evidence: Vec::new(),
            dat: None,
            representation_match: None,
            archive_members: None,
        }
    }
}

/// The identity of one file, with every lane kept apart.
#[derive(Debug, Clone, PartialEq, Eq)]
pub struct IdentityResult {
    pub content: ResolutionExplanation,
    pub dat: Option<DatPlatformIdentity>,
    pub combined: Option<CombinedIdentityView>,
    pub representation_match: Option<RepresentationMatchOutcome>,
    pub set_identity: Option<ArchiveSetIdentity>,
    pub caveats: Vec<&'static str>,
}

impl IdentityResult {
    /// Some lane, or some pair of lanes, contradicts itself: strong content
    /// evidence for several platforms, content against DAT, physical against
    /// normalised hash, or an archive of several platforms.
    pub open spec fn conflicted(self) -> bool {
        ||| self.content.outcome == FusionOutcome::Conflict
        ||| (self.combined matches Some(view) && view.relationship is Disagree)
        ||| (self.representation_match matches Some(m) && m is Disagree)
        ||| (self.set_identity matches Some(set) && set is MultiPlatform)
    }

    pub fn has_conflict(&self) -> (r: bool)
        ensures
            r == self.conflicted(),
    {
        if self.content.outcome == FusionOutcome::Conflict {
            return true;
        }
        if let Some(view) = &self.combined {
            if view.relationship.is_conflict() {
                return true;
            }
        }
        if let Some(m) = &self.representation_match {
            if m.is_conflict() {
                return true;
            }
        }
        if let Some(set) = &self.set_identity {
            if set.is_conflict() {
                return true;
            }
        }
        false
    }
}

/// Fuses the content evidence, combines it with the DAT lane, classifies the
/// archive members, and carries the hash comparison along.
pub fn inspect_identity(input: IdentityInspectionInput) -> (r: IdentityResult)
    requires
        input.dat matches Some(DatPlatformIdentity::Resolved { platform, .. }) ==> is_platform(
            platform@,
        ) || outcome_of(fired(rule_table(), facts(input.content_evidence@)))
            == FusionOutcome::Ambiguous,
    ensures
        explains(r.content, rule_table(), input.content_evidence@),
        r.dat == input.dat,
        r.representation_match == input.representation_match,
        match input.dat {
            Some(dat) => r.combined matches Some(view) && combines(view, r.content, dat),
            None => r.combined is None,
        },
        match input.archive_members {
            Some(members) => r.set_identity matches Some(set) && set@ == set_of(
                member_models(members@),
            ),
            None => r.set_identity is None,
        },
        r.caveats@.len() == 0,
{
    let content = fuse_platform_evidence(input.content_evidence);
    proof {
        outcome_shapes(rule_table(), input.content_evidence@, content);
    }
    let combined = match &input.dat {
        Some(dat) => Some(combine_identity(&content, dat)),
        None => None,
    };
    let set_identity = match &input.archive_members {
        Some(members) => Some(classify_archive_set(members.as_slice())),
        None => None,
    };
    IdentityResult {
        content,
        dat: input.dat,
        combined,
        representation_match: input.representation_match,
        set_identity,
        caveats: Vec::new(),
    }
}

} // verus!
