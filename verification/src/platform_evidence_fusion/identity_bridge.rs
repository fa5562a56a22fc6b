//! Fusion's opinion as statements about platform identity.
//!
//! A resolved bundle gives one inferred statement and a conflict one for each
//! platform; an ambiguous or unknown bundle gives none. Content and DAT are
//! compared separately, so that a disagreement stays visible whichever source
//! takes precedence.
use vstd::prelude::*;
use vstd::string::*;
use crate::platform::{equivalent, is_platform, strs};
use crate::platform_evidence_fusion::{
    candidate_models, compare_content_and_dat, CandidateModel, DatContentComparison, FiredCandidate,
    FusionOutcome, ResolutionExplanation,
};

use crate::platform_identity::{
    in_tier, resolution, statement_platforms, statements, tier, PlatformIdentityConfidence,
    PlatformIdentityEvidence, PlatformIdentitySource, ResolutionModel, StatementModel,
};
use crate::text::{join_texts, joined, same_text, views};

verus! {

/// The ids of the strong rules that fired for `platform`, in order.
pub open spec fn strong_rule_ids(candidates: Seq<CandidateModel>, platform: Seq<char>) -> Seq<
    Seq<char>,
>
    decreases candidates.len(),
{
    if candidates.len() == 0 {
        seq![]
    } else if candidates.last().platform == platform && candidates.last().has_strong_leg {
        strong_rule_ids(candidates.drop_last(), platform).push(candidates.last().rule_id)
    } else {
        strong_rule_ids(candidates.drop_last(), platform)
    }
}

/// An inferred, strong statement.
pub open spec fn inferred(platform: Seq<char>, generation: u64, detail: Seq<char>) -> StatementModel {
    StatementModel {
        platform,
        source: PlatformIdentitySource::Inference,
        confidence: PlatformIdentityConfidence::Strong,
        generation,
        detail,
    }
}

/// The detail of a statement from a resolved bundle.
pub open spec fn resolved_detail(rule_ids: Seq<Seq<char>>) -> Seq<char> {
    "content evidence fusion resolved this platform from a reviewed strong rule ("@ + joined(
        rule_ids,
        ", "@,
    ) + "); evidence trail retained on the originating ResolutionExplanation"@
}

/// The detail of a statement from a conflict.
pub open spec fn conflict_detail(platform: Seq<char>) -> Seq<char> {
    "content evidence fusion found conflicting reviewed strong evidence naming "@ + platform
        + " among other, non-equivalent platforms - never silently downgraded to a single winner"@
}

/// One statement for each registered platform among `platforms`, in order.
pub open spec fn conflict_statements(platforms: Seq<Seq<char>>, generation: u64) -> Seq<
    StatementModel,
>
    decreases platforms.len(),
{
    if platforms.len() == 0 {
        seq![]
    } else if is_platform(platforms.last()) {
        conflict_statements(platforms.drop_last(), generation).push(
            inferred(platforms.last(), generation, conflict_detail(platforms.last())),
        )
    } else {
        conflict_statements(platforms.drop_last(), generation)
    }
}

/// The statements an explanation gives.
pub open spec fn bridged(e: ResolutionExplanation, generation: u64) -> Seq<StatementModel> {
    match e.outcome {
        FusionOutcome::Resolved => match e.resolved_platform {
            Some(platform) => if is_platform(platform@) {
                seq![
                    inferred(
                        platform@,
                        generation,
                        resolved_detail(
                            strong_rule_ids(candidate_models(e.fired_candidates@), platform@),
                        ),
                    ),
                ]
            } else {
                seq![]
            },
            None => seq![],
        },
        FusionOutcome::Conflict => conflict_statements(strs(e.conflicting_platforms@), generation),
        _ => seq![],
    }
}

fn strong_rule_names(candidates: &Vec<FiredCandidate>, platform: &str) -> (r: Vec<String>)
    ensures
        views(r@) == strong_rule_ids(candidate_models(candidates@), platform@),
{
    let ghost all = candidate_models(candidates@);
    let mut out: Vec<String> = Vec::new();
    let mut i: usize = 0;
    assert(views(out@) =~= strong_rule_ids(all.take(0), platform@));
    while i < candidates.len()
        invariant
            i <= candidates@.len(),
            all == candidate_models(candidates@),
            views(out@) == strong_rule_ids(all.take(i as int), platform@),
        decreases candidates.len() - i,
    {
        proof {
            assert(all.take(i + 1).drop_last() =~= all.take(i as int));
            assert(all.take(i + 1).last() == candidates@[i as int]@);
        }
        if same_text(candidates[i].platform, platform) && candidates[i].has_strong_leg {
            let id = candidates[i].rule_id.to_owned();
            assert(views(out@.push(id)) =~= views(out@).push(id@));
            out.push(id);
        }
        i = i + 1;
    }
    assert(all.take(i as int) =~= all);
    out
}

/// The identity statements an explanation gives for `generation`.
pub fn to_identity_evidence(explanation: &ResolutionExplanation, generation: u64) -> (r: Vec<
    PlatformIdentityEvidence,
>)
    ensures
        statements(r@) == bridged(*explanation, generation),
{
    let mut out: Vec<PlatformIdentityEvidence> = Vec::new();
    match explanation.outcome {
        FusionOutcome::Resolved => {
            if let Some(platform) = explanation.resolved_platform {
                let ids = strong_rule_names(&explanation.fired_candidates, platform);
                let mut detail =
                    "content evidence fusion resolved this platform from a reviewed strong rule (".to_owned();
                detail.append(join_texts(&ids, ", ").as_str());
                detail.append(
                    "); evidence trail retained on the originating ResolutionExplanation",
                );
                if let Some(item) = PlatformIdentityEvidence::canonical(
                    platform,
                    PlatformIdentitySource::Inference,
                    PlatformIdentityConfidence::Strong,
                    generation,
                    detail.as_str(),
                ) {
                    out.push(item);
                }
            }
            assert(statements(out@) =~= bridged(*explanation, generation));
        },
        FusionOutcome::Conflict => {
            let ghost all = strs(explanation.conflicting_platforms@);
            let mut i: usize = 0;
            assert(statements(out@) =~= conflict_statements(all.take(0), generation));
            while i < explanation.conflicting_platforms.len()
                invariant
                    i <= explanation.conflicting_platforms@.len(),
                    all == strs(explanation.conflicting_platforms@),
                    statements(out@) == conflict_statements(all.take(i as int), generation),
                decreases explanation.conflicting_platforms.len() - i,
            {
                let platform: &'static str = explanation.conflicting_platforms[i];
                proof {
                    assert(all.take(i + 1).drop_last() =~= all.take(i as int));
                    assert(all.take(i + 1).last() == platform@);
                }
                let mut detail =
                    "content evidence fusion found conflicting reviewed strong evidence naming ".to_owned();
                detail.append(platform);
                detail.append(
                    " among other, non-equivalent platforms - never silently downgraded to a single winner",
                );
                if let Some(item) = PlatformIdentityEvidence::canonical(
                    platform,
                    PlatformIdentitySource::Inference,
                    PlatformIdentityConfidence::Strong,
                    generation,
                    detail.as_str(),
                ) {
                    assert(statements(out@.push(item)) =~= statements(out@).push(item@));
                    out.push(item);
                }
                i = i + 1;
            }
            assert(all.take(i as int) =~= all);
        },
        _ => {
            assert(statements(out@) =~= seq![]);
        },
    }
    out
}

/// Both trails of the content-versus-DAT question, side by side.
#[derive(Debug, Clone, PartialEq, Eq)]
pub struct ContentDatIdentityView {
    /// What fusion states about the platform.
    pub content_identity: Vec<PlatformIdentityEvidence>,
    /// How that compares with the DAT, whatever takes precedence.
    pub dat_comparison: DatContentComparison,
}

/// Both trails for one explanation and an optional DAT platform.
pub fn content_and_dat_identity_view(
    explanation: &ResolutionExplanation,
    generation: u64,
    dat_platform: Option<&'static str>,
) -> (r: ContentDatIdentityView)
    ensures
        statements(r.content_identity@) == bridged(*explanation, generation),
        r.dat_comparison == match (explanation.resolved_platform, dat_platform) {
            (Some(c), Some(d)) => if equivalent(c@, d@) {
                DatContentComparison::Agree { content_platform: c, dat_platform: d }
            } else {
                DatContentComparison::Disagree { content_platform: c, dat_platform: d }
            },
            (Some(c), None) => DatContentComparison::ContentOnly { content_platform: c },
            (None, Some(d)) => DatContentComparison::DatOnly { dat_platform: d },
            (None, None) => DatContentComparison::Neither,
        },
{
    ContentDatIdentityView {
        content_identity: to_identity_evidence(explanation, generation),
        dat_comparison: compare_content_and_dat(explanation, dat_platform),
    }
}

/// Every statement fusion gives is an inferred, strong one of the requested
/// generation: never at the tier of a manual, DAT or library source.
pub proof fn bridged_statements_are_inferred(e: ResolutionExplanation, generation: u64, i: int)
    requires
        0 <= i < bridged(e, generation).len(),
    ensures
        bridged(e, generation)[i].source == PlatformIdentitySource::Inference,
        bridged(e, generation)[i].confidence == PlatformIdentityConfidence::Strong,
        bridged(e, generation)[i].generation == generation,
        is_platform(bridged(e, generation)[i].platform),
{
    if e.outcome == FusionOutcome::Conflict {
        conflict_statements_are_inferred(strs(e.conflicting_platforms@), generation, i);
    }
}

proof fn conflict_statements_are_inferred(platforms: Seq<Seq<char>>, generation: u64, i: int)
    requires
        0 <= i < conflict_statements(platforms, generation).len(),
    ensures
        conflict_statements(platforms, generation)[i].source == PlatformIdentitySource::Inference,
        conflict_statements(platforms, generation)[i].confidence
            == PlatformIdentityConfidence::Strong,
        conflict_statements(platforms, generation)[i].generation == generation,
        is_platform(conflict_statements(platforms, generation)[i].platform),
    decreases platforms.len(),
{
    let before = conflict_statements(platforms.drop_last(), generation);
    if i < before.len() {
        conflict_statements_are_inferred(platforms.drop_last(), generation, i);
    }
}

/// An ambiguous or unknown bundle asserts nothing about the platform.
pub proof fn ambiguity_asserts_nothing(e: ResolutionExplanation, generation: u64)
    requires
        e.outcome == FusionOutcome::Ambiguous || e.outcome == FusionOutcome::Unknown,
    ensures
        bridged(e, generation).len() == 0,
        resolution(generation, bridged(e, generation)) is Unknown,
{
}

proof fn stale_statements_are_filtered(pool: Seq<StatementModel>, generation: u64, t: int)
    requires
        forall|i: int| 0 <= i < pool.len() ==> (#[trigger] pool[i]).generation != generation,
    ensures
        in_tier(pool, generation, t).len() == 0,
    decreases pool.len(),
{
    if pool.len() > 0 {
        assert(pool[pool.len() - 1].generation != generation);
        assert forall|i: int| 0 <= i < pool.drop_last().len() implies (
        #[trigger] pool.drop_last()[i]).generation != generation by {
            assert(pool.drop_last()[i] == pool[i]);
        }
        stale_statements_are_filtered(pool.drop_last(), generation, t);
    }
}

/// Statements of one generation settle nothing for another.
pub proof fn stale_generations_settle_nothing(e: ResolutionExplanation, made: u64, asked: u64)
    requires
        made != asked,
    ensures
        resolution(asked, bridged(e, made)) is Unknown,
{
    let pool = bridged(e, made);
    assert forall|i: int| 0 <= i < pool.len() implies (#[trigger] pool[i]).generation != asked by {
        bridged_statements_are_inferred(e, made, i);
    }
    stale_statements_are_filtered(pool, asked, 0);
    stale_statements_are_filtered(pool, asked, 1);
    stale_statements_are_filtered(pool, asked, 2);
}

proof fn other_tier_is_empty(pool: Seq<StatementModel>, generation: u64, t: int)
    requires
        forall|i: int| 0 <= i < pool.len() ==> tier((#[trigger] pool[i]).source) != t,
    ensures
        in_tier(pool, generation, t).len() == 0,
    decreases pool.len(),
{
    if pool.len() > 0 {
        assert(tier(pool[pool.len() - 1].source) != t);
        assert forall|i: int| 0 <= i < pool.drop_last().len() implies tier(
            (#[trigger] pool.drop_last()[i]).source,
        ) != t by {
            assert(pool.drop_last()[i] == pool[i]);
        }
        other_tier_is_empty(pool.drop_last(), generation, t);
    }
}

/// A manual, DAT or library statement decides alone: adding it to fusion's own
/// statements settles what it settles by itself.
pub proof fn other_sources_outrank_fusion(
    e: ResolutionExplanation,
    generation: u64,
    other: StatementModel,
)
    requires
        other.source != PlatformIdentitySource::Inference,
        other.generation == generation,
    ensures
        resolution(generation, bridged(e, generation).push(other)) == ResolutionModel::Resolved(
            other.platform,
            other.confidence,
        ),
{
    let pool = bridged(e, generation);
    let t = tier(other.source);
    assert forall|i: int| 0 <= i < pool.len() implies tier((#[trigger] pool[i]).source) == 2 by {
        bridged_statements_are_inferred(e, generation, i);
    }
    other_tier_is_empty(pool, generation, 0);
    other_tier_is_empty(pool, generation, 1);
    let both = pool.push(other);
    assert(both.drop_last() =~= pool);
    assert(both.last() == other);
    let live = in_tier(both, generation, t);
    assert(live =~= seq![other]);
    if t == 1 {
        assert(in_tier(both, generation, 0).len() == 0);
    }
    assert(statement_platforms(live) =~= seq![other.platform]);
    assert(seq![other.platform].drop_last() =~= seq![]);
    reveal_with_fuel(crate::platform::ascending, 2);
    reveal_with_fuel(crate::seqs::first_index, 2);
    assert(crate::platform::ascending(statement_platforms(live)) =~= seq![other.platform]);
}

} // verus!
