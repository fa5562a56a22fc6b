//! How the content lane and the DAT lane of one file relate.
//!
//! Both lanes are always kept. Agreement needs two settled, equivalent
//! platforms; a disagreement never has a winner; an ambiguous lane is never
//! promoted by the other.
use vstd::prelude::*;
use crate::dat::identity::{DatPlatformConfidence, DatPlatformIdentity};
use crate::platform::{
    ascending, equivalent, is_platform, opt_id, platform_by_id, strs,
};
use crate::platform_evidence_fusion::{
    equivalence_groups, group_by_equivalence, str_groups, FusionOutcome, ResolutionExplanation,
};
use crate::text::{copy_opt, text_le};

verus! {

/// How the two lanes relate.
#[derive(Debug, Clone, Copy, PartialEq, Eq)]
pub enum IdentityRelationship {
    /// Both lanes settled on the same or an equivalent platform.
    Agree { platform: &'static str },
    /// The lanes settled on platforms that are not equivalent.
    Disagree { content_platform: &'static str, dat_platform: &'static str },
    /// Content settled; the DAT has no opinion.
    ContentOnly { platform: &'static str },
    /// The DAT settled; content has none to offer.
    DatOnly { platform: &'static str },
    /// Neither lane settled.
    Neither,
    /// Content is ambiguous, whatever a DAT that is not ambiguous says.
    ContentAmbiguous { dat_platform: Option<&'static str> },
    /// The DAT is ambiguous and content is not.
    DatAmbiguous { content_platform: Option<&'static str> },
    /// Both lanes are ambiguous.
    BothAmbiguous,
}

impl IdentityRelationship {
    pub fn is_agreement(&self) -> (r: bool)
        ensures
            r == (*self is Agree),
    {
        match self {
            IdentityRelationship::Agree { .. } => true,
            _ => false,
        }
    }

    pub fn is_conflict(&self) -> (r: bool)
        ensures
            r == (*self is Disagree),
    {
        match self {
            IdentityRelationship::Disagree { .. } => true,
            _ => false,
        }
    }
}

/// The state of the DAT lane.
#[derive(Debug, Clone, Copy, PartialEq, Eq, Structural)]
pub enum DatOutcome {
    Unknown,
    Resolved,
    Ambiguous,
}

/// Both lanes and how they relate.
#[derive(Debug, Clone, Copy, PartialEq, Eq)]
pub struct CombinedIdentityView {
    pub content_outcome: FusionOutcome,
    pub content_platform: Option<&'static str>,
    pub dat_outcome: DatOutcome,
    pub dat_platform: Option<&'static str>,
    pub relationship: IdentityRelationship,
}

/// The state of the DAT lane.
pub open spec fn dat_outcome_of(dat: DatPlatformIdentity) -> DatOutcome {
    match dat {
        DatPlatformIdentity::Unknown => DatOutcome::Unknown,
        DatPlatformIdentity::Resolved { .. } => DatOutcome::Resolved,
        DatPlatformIdentity::Ambiguous { .. } => DatOutcome::Ambiguous,
    }
}

/// The registered platform the DAT lane settled on.
pub open spec fn dat_platform_of(dat: DatPlatformIdentity) -> Option<Seq<char>> {
    match dat.platform_text() {
        Some(id) => if is_platform(id) {
            Some(id)
        } else {
            None
        },
        None => None,
    }
}

/// A settled lane that decides a relationship names its platform: resolved
/// content carries one unless the DAT is ambiguous, and a resolved DAT names a
/// registered one unless content is ambiguous.
pub open spec fn combinable(content: ResolutionExplanation, dat: DatPlatformIdentity) -> bool {
    &&& (content.outcome == FusionOutcome::Resolved && !(dat is Ambiguous))
        ==> content.resolved_platform is Some
    &&& (dat is Resolved && content.outcome != FusionOutcome::Ambiguous) ==> dat_platform_of(
        dat,
    ) is Some
}

/// The contents of an [`IdentityRelationship`].
pub enum RelationshipModel {
    Agree(Seq<char>),
    Disagree(Seq<char>, Seq<char>),
    ContentOnly(Seq<char>),
    DatOnly(Seq<char>),
    Neither,
    ContentAmbiguous(Option<Seq<char>>),
    DatAmbiguous(Option<Seq<char>>),
    BothAmbiguous,
}

impl View for IdentityRelationship {
    type V = RelationshipModel;

    open spec fn view(&self) -> RelationshipModel {
        match *self {
            IdentityRelationship::Agree { platform } => RelationshipModel::Agree(platform@),
            IdentityRelationship::Disagree { content_platform, dat_platform } => {
                RelationshipModel::Disagree(content_platform@, dat_platform@)
            },
            IdentityRelationship::ContentOnly { platform } => RelationshipModel::ContentOnly(
                platform@,
            ),
            IdentityRelationship::DatOnly { platform } => RelationshipModel::DatOnly(platform@),
            IdentityRelationship::Neither => RelationshipModel::Neither,
            IdentityRelationship::ContentAmbiguous { dat_platform } => {
                RelationshipModel::ContentAmbiguous(opt_id(dat_platform))
            },
            IdentityRelationship::DatAmbiguous { content_platform } => {
                RelationshipModel::DatAmbiguous(opt_id(content_platform))
            },
            IdentityRelationship::BothAmbiguous => RelationshipModel::BothAmbiguous,
        }
    }
}

/// The earlier of two ids in the order of ids.
pub open spec fn earlier(a: Seq<char>, b: Seq<char>) -> Seq<char> {
    if text_le(a, b) {
        a
    } else {
        b
    }
}

/// How the lanes relate, from their states and platforms.
pub open spec fn relationship_of(
    content: FusionOutcome,
    content_platform: Option<Seq<char>>,
    dat: DatOutcome,
    dat_platform: Option<Seq<char>>,
) -> RelationshipModel {
    match dat {
        DatOutcome::Resolved => match content {
            FusionOutcome::Resolved => if equivalent(content_platform->0, dat_platform->0) {
                RelationshipModel::Agree(earlier(content_platform->0, dat_platform->0))
            } else {
                RelationshipModel::Disagree(content_platform->0, dat_platform->0)
            },
            FusionOutcome::Ambiguous => RelationshipModel::ContentAmbiguous(dat_platform),
            _ => RelationshipModel::DatOnly(dat_platform->0),
        },
        DatOutcome::Unknown => match content {
            FusionOutcome::Resolved => RelationshipModel::ContentOnly(content_platform->0),
            FusionOutcome::Ambiguous => RelationshipModel::ContentAmbiguous(None),
            _ => RelationshipModel::Neither,
        },
        DatOutcome::Ambiguous => match content {
            FusionOutcome::Resolved => RelationshipModel::DatAmbiguous(content_platform),
            FusionOutcome::Ambiguous => RelationshipModel::BothAmbiguous,
            _ => RelationshipModel::DatAmbiguous(None),
        },
    }
}

/// `view` is the combined view of `content` and `dat`.
pub open spec fn combines(
    view: CombinedIdentityView,
    content: ResolutionExplanation,
    dat: DatPlatformIdentity,
) -> bool {
    &&& view.content_outcome == content.outcome
    &&& view.content_platform == content.resolved_platform
    &&& view.dat_outcome == dat_outcome_of(dat)
    &&& opt_id(view.dat_platform) == dat_platform_of(dat)
    &&& view.relationship@ == relationship_of(
        content.outcome,
        opt_id(content.resolved_platform),
        dat_outcome_of(dat),
        dat_platform_of(dat),
    )
}

/// Grouping two ids gives one group exactly when they are equivalent, headed
/// by the earlier one.
proof fn pair_groups(a: Seq<char>, b: Seq<char>)
    ensures
        equivalence_groups(seq![a, b]).len() == if equivalent(a, b) {
            1int
        } else {
            2int
        },
        equivalent(a, b) ==> equivalence_groups(seq![a, b])[0][0] == earlier(a, b),
{
    reveal_with_fuel(ascending, 3);
    reveal_with_fuel(crate::platform_evidence_fusion::grouped, 3);
    reveal_with_fuel(crate::seqs::first_index, 3);
    let one = seq![a, b].drop_last();
    assert(one =~= seq![a]);
    assert(one.drop_last() =~= seq![]);
    let first = ascending(one);
    assert(first =~= seq![a]);
    crate::text::text_le_reflexive(a);
    if a == b {
        assert(first[0] == b);
        assert(first.contains(b));
        assert(ascending(seq![a, b]) =~= seq![a]);
    } else {
        assert(!first.contains(b));
        if text_le(a, b) {
            assert(ascending(seq![a, b]) =~= seq![a, b]);
        } else {
            assert(ascending(seq![a, b]) =~= seq![b, a]);
        }
    }
    let s = ascending(seq![a, b]);
    assert(s.drop_last().len() <= 1);
    if s.len() == 1 {
        assert(s.drop_last() =~= seq![]);
    } else {
        assert(s.drop_last() =~= seq![s[0]]);
        assert(s.drop_last().drop_last() =~= seq![]);
    }
}

/// Combines what fusion resolved with what the DAT describes.
pub fn combine_identity(content: &ResolutionExplanation, dat: &DatPlatformIdentity) -> (r:
    CombinedIdentityView)
    requires
        combinable(*content, *dat),
    ensures
        combines(r, *content, *dat),
{
    let content_platform: Option<&'static str> = content.resolved_platform;
    let dat_platform: Option<&'static str> = match dat.platform() {
        Some(id) => match platform_by_id(id) {
            Some(platform) => Some(platform.id),
            None => None,
        },
        None => None,
    };
    let dat_outcome = match dat {
        DatPlatformIdentity::Unknown => DatOutcome::Unknown,
        DatPlatformIdentity::Resolved { .. } => DatOutcome::Resolved,
        DatPlatformIdentity::Ambiguous { .. } => DatOutcome::Ambiguous,
    };
    let relationship = match (content.outcome, dat_outcome) {
        (FusionOutcome::Resolved, DatOutcome::Resolved) => {
            let c: &'static str = content_platform.unwrap();
            let d: &'static str = dat_platform.unwrap();
            let pair: Vec<&'static str> = vec![c, d];
            let groups = group_by_equivalence(pair.as_slice());
            proof {
                assert(strs(pair@) =~= seq![c@, d@]);
                pair_groups(c@, d@);
                assert(str_groups(groups@).len() == groups@.len());
            }
            if groups.len() == 1 {
                assert(str_groups(groups@)[0][0] == groups@[0]@[0]@);
                IdentityRelationship::Agree { platform: groups[0][0] }
            } else {
                IdentityRelationship::Disagree { content_platform: c, dat_platform: d }
            }
        },
        (FusionOutcome::Resolved, DatOutcome::Unknown) => IdentityRelationship::ContentOnly {
            platform: content_platform.unwrap(),
        },
        (FusionOutcome::Resolved, DatOutcome::Ambiguous) => IdentityRelationship::DatAmbiguous {
            content_platform,
        },
        (FusionOutcome::Ambiguous, DatOutcome::Resolved) => {
            IdentityRelationship::ContentAmbiguous { dat_platform }
        },
        (FusionOutcome::Ambiguous, DatOutcome::Unknown) => {
            IdentityRelationship::ContentAmbiguous { dat_platform: None }
        },
        (FusionOutcome::Ambiguous, DatOutcome::Ambiguous) => IdentityRelationship::BothAmbiguous,
        (_, DatOutcome::Resolved) => IdentityRelationship::DatOnly {
            platform: dat_platform.unwrap(),
        },
        (_, DatOutcome::Unknown) => IdentityRelationship::Neither,
        (_, DatOutcome::Ambiguous) => IdentityRelationship::DatAmbiguous {
            content_platform: None,
        },
    };
    CombinedIdentityView {
        content_outcome: content.outcome,
        content_platform,
        dat_outcome,
        dat_platform,
        relationship,
    }
}

/// An ambiguous content lane stays visibly ambiguous, whatever the DAT says.
pub proof fn dat_never_promotes_ambiguous_content(
    view: CombinedIdentityView,
    content: ResolutionExplanation,
    dat: DatPlatformIdentity,
)
    requires
        combines(view, content, dat),
        content.outcome == FusionOutcome::Ambiguous,
    ensures
        view.relationship is ContentAmbiguous || view.relationship is BothAmbiguous,
{
}

/// The lanes disagree exactly when both are settled on platforms that are not
/// equivalent, and then both platforms are named.
pub proof fn disagreement_names_both_sides(
    view: CombinedIdentityView,
    content: ResolutionExplanation,
    dat: DatPlatformIdentity,
)
    requires
        combines(view, content, dat),
        combinable(content, dat),
    ensures
        view.relationship is Disagree <==> (content.outcome == FusionOutcome::Resolved
            && dat is Resolved && !equivalent(
            content.resolved_platform->0@,
            dat_platform_of(dat)->0,
        )),
        view.relationship matches IdentityRelationship::Disagree { content_platform, dat_platform }
            ==> Some(content_platform@) == opt_id(view.content_platform) && Some(dat_platform@)
            == opt_id(view.dat_platform),
{
}

/// Compact provenance of a settled DAT lane.
#[derive(Debug, Clone, PartialEq, Eq)]
pub struct DatSourceProvenance {
    pub platform: &'static str,
    pub confidence: DatPlatformConfidence,
    /// The label of the first statement at the deciding confidence.
    pub deciding_kind_label: &'static str,
    pub machine_key: Option<String>,
}

/// The index of the first statement at the deciding confidence, or the length.
pub open spec fn deciding_index(
    evidence: Seq<crate::dat::identity::DatPlatformEvidence>,
    confidence: DatPlatformConfidence,
) -> int {
    crate::seqs::first_index(
        evidence,
        |e: crate::dat::identity::DatPlatformEvidence| e.confidence == confidence,
    )
}

/// Provenance of a settled DAT lane that names a registered platform and has a
/// statement at its own confidence; `None` for every other lane.
pub fn dat_source_provenance(dat: &DatPlatformIdentity) -> (r: Option<DatSourceProvenance>)
    ensures
        match *dat {
            DatPlatformIdentity::Resolved { platform, machine_key, confidence, evidence } => {
                let k = deciding_index(evidence@, confidence);
                if is_platform(platform@) && 0 <= k < evidence@.len() {
                    &&& r is Some
                    &&& r->0.platform@ == platform@
                    &&& r->0.confidence == confidence
                    &&& r->0.deciding_kind_label@ == evidence@[k].kind.label_text()
                    &&& r->0.machine_key == machine_key
                } else {
                    r is None
                }
            },
            _ => r is None,
        },
{
    match dat {
        DatPlatformIdentity::Resolved { platform, machine_key, confidence, evidence } => {
            let ghost at_confidence =
                |e: crate::dat::identity::DatPlatformEvidence| e.confidence == *confidence;
            let mut k: usize = 0;
            while k < evidence.len() && evidence[k].confidence != *confidence
                invariant
                    k <= evidence@.len(),
                    at_confidence == (|e: crate::dat::identity::DatPlatformEvidence|
                        e.confidence == *confidence),
                    forall|j: int| 0 <= j < k ==> !at_confidence(#[trigger] evidence@[j]),
                decreases evidence.len() - k,
            {
                k = k + 1;
            }
            proof {
                crate::seqs::first_index_unique(evidence@, at_confidence, k as int);
            }
            match platform_by_id(platform.as_str()) {
                Some(found) => if k < evidence.len() {
                    Some(
                        DatSourceProvenance {
                            platform: found.id,
                            confidence: *confidence,
                            deciding_kind_label: evidence[k].kind.label(),
                            machine_key: copy_opt(machine_key),
                        },
                    )
                } else {
                    None
                },
                None => None,
            }
        },
        _ => None,
    }
}

} // verus!
