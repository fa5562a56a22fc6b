//! Platform evidence fusion: which platform a bundle of neutral content facts
//! stands for.
//!
//! Rules name the facts a platform needs. A rule with a strong leg can resolve
//! its platform; a rule without one only nominates a candidate. Two strong,
//! non-equivalent platforms are a conflict and never have a winner.
pub mod apply_laws;
pub mod archive_set_identity;
pub mod batch_laws;
pub mod canary;
pub mod canary_laws;
pub mod combined_identity;
pub mod cue_m3u_parsing;
pub mod dat_hash_representation;
pub mod digest_laws;
pub mod duplicate_laws;
pub mod duplicate_taxonomy;
pub mod full_library_report;
pub mod grouping_laws;
pub mod identity_bridge;
pub mod identity_laws;
pub mod identity_orchestrator;
pub mod identity_presentation;
pub mod laws;
pub mod library_grouping;
pub mod library_laws;
pub mod library_plan_export;
pub mod library_plan_presentation;
pub mod library_planning;
pub mod listing_laws;
pub mod order_laws;
pub mod outcome_laws;
pub mod plan_apply;
pub mod plan_apply_laws;
pub mod plan_transaction;
pub mod plan_transaction_laws;
pub mod presentation_laws;
pub mod release_relationship;
pub mod rules;
pub mod set_destination;
pub mod side_file_classification;
pub mod signature_laws;
pub mod support_attachment;
pub mod support_laws;

use vstd::prelude::*;
use vstd::string::*;
use crate::content_evidence::{facts, ContentEvidence, ContentEvidenceConfidence, Fact};
use crate::platform::{
    ascending, ascending_ids, equivalent, equivalent_platform_ids, opt_id, strs,
};
use crate::platform_evidence_fusion::rules::{
    rule_models, rule_table, rules, FusionRule, LegModel, RequiredFact, RuleModel,
};
use crate::seqs::{first_index, first_index_unique, has_prefix};
use crate::text::{same_text, starts_with};

verus! {

/// What a bundle of evidence amounts to.
#[derive(Debug, Clone, Copy, PartialEq, Eq, Structural)]
pub enum FusionOutcome {
    /// Exactly one platform (up to equivalence) has a strong rule that fired.
    Resolved,
    /// No rule fired.
    Unknown,
    /// Rules fired, none of them strong.
    Ambiguous,
    /// Strong rules of two or more non-equivalent platforms fired.
    Conflict,
}

/// A rule that fired.
#[derive(Debug, Clone, Copy, PartialEq, Eq)]
pub struct FiredCandidate {
    pub platform: &'static str,
    pub rule_id: &'static str,
    pub has_strong_leg: bool,
}

/// The contents of a [`FiredCandidate`].
pub struct CandidateModel {
    pub platform: Seq<char>,
    pub rule_id: Seq<char>,
    pub has_strong_leg: bool,
}

impl View for FiredCandidate {
    type V = CandidateModel;

    open spec fn view(&self) -> CandidateModel {
        CandidateModel {
            platform: self.platform@,
            rule_id: self.rule_id@,
            has_strong_leg: self.has_strong_leg,
        }
    }
}

/// The contents of a sequence of candidates.
pub open spec fn candidate_models(s: Seq<FiredCandidate>) -> Seq<CandidateModel> {
    s.map_values(|c: FiredCandidate| c@)
}

/// The outcome of fusion together with everything that led to it.
#[derive(Debug, Clone, PartialEq, Eq)]
pub struct ResolutionExplanation {
    pub outcome: FusionOutcome,
    pub resolved_platform: Option<&'static str>,
    pub fired_candidates: Vec<FiredCandidate>,
    pub conflicting_platforms: Vec<&'static str>,
    pub input_evidence: Vec<ContentEvidence>,
}

/// A fact meets a leg.
pub open spec fn meets(fact: Fact, leg: LegModel) -> bool {
    match leg {
        LegModel::Exact { kind, value, min_confidence } => {
            &&& fact.kind == kind
            &&& fact.value == value
            &&& fact.confidence.rank() >= min_confidence.rank()
        },
        LegModel::AnyValue { kind, min_confidence } => {
            &&& fact.kind == kind
            &&& fact.confidence.rank() >= min_confidence.rank()
        },
    }
}

/// Some fact of the bundle meets the leg.
pub open spec fn leg_is_met(leg: LegModel, bundle: Seq<Fact>) -> bool {
    exists|i: int| 0 <= i < bundle.len() && meets(#[trigger] bundle[i], leg)
}

/// Every leg of the rule is met.
pub open spec fn fires(rule: RuleModel, bundle: Seq<Fact>) -> bool {
    forall|i: int| 0 <= i < rule.legs.len() ==> leg_is_met(#[trigger] rule.legs[i], bundle)
}

/// Some leg of the rule asks for strong confidence.
pub open spec fn is_strong_rule(rule: RuleModel) -> bool {
    exists|i: int|
        0 <= i < rule.legs.len() && (#[trigger] rule.legs[i]).floor()
            == ContentEvidenceConfidence::Strong
}

/// The candidate a rule nominates when it fires.
pub open spec fn candidate_of(rule: RuleModel) -> CandidateModel {
    CandidateModel {
        platform: rule.platform,
        rule_id: rule.id,
        has_strong_leg: is_strong_rule(rule),
    }
}

/// The candidates of the rules that fire, in table order.
pub open spec fn fired(table: Seq<RuleModel>, bundle: Seq<Fact>) -> Seq<CandidateModel>
    decreases table.len(),
{
    if table.len() == 0 {
        seq![]
    } else if fires(table.last(), bundle) {
        fired(table.drop_last(), bundle).push(candidate_of(table.last()))
    } else {
        fired(table.drop_last(), bundle)
    }
}

/// The platforms of the strong candidates, in order.
pub open spec fn strong_platforms(candidates: Seq<CandidateModel>) -> Seq<Seq<char>>
    decreases candidates.len(),
{
    if candidates.len() == 0 {
        seq![]
    } else if candidates.last().has_strong_leg {
        strong_platforms(candidates.drop_last()).push(candidates.last().platform)
    } else {
        strong_platforms(candidates.drop_last())
    }
}

/// The test for a group whose first member is equivalent to `id`.
pub open spec fn group_of(id: Seq<char>) -> spec_fn(Seq<Seq<char>>) -> bool {
    |g: Seq<Seq<char>>| equivalent(g[0], id)
}

/// The groups with `id` added to the first group it is equivalent to, or as a
/// group of its own.
pub open spec fn placed(groups: Seq<Seq<Seq<char>>>, id: Seq<char>) -> Seq<Seq<Seq<char>>> {
    let k = first_index(groups, group_of(id));
    if 0 <= k < groups.len() {
        groups.update(k, groups[k].push(id))
    } else {
        groups.push(seq![id])
    }
}

/// The ids put into groups of equivalent ids, in order.
pub open spec fn grouped(ids: Seq<Seq<char>>) -> Seq<Seq<Seq<char>>>
    decreases ids.len(),
{
    if ids.len() == 0 {
        seq![]
    } else {
        placed(grouped(ids.drop_last()), ids.last())
    }
}

/// The distinct ids in ascending order, in groups of equivalent ids.
pub open spec fn equivalence_groups(ids: Seq<Seq<char>>) -> Seq<Seq<Seq<char>>> {
    grouped(ascending(ids))
}

/// The contents of a sequence of id groups.
pub open spec fn str_groups(s: Seq<Vec<&'static str>>) -> Seq<Seq<Seq<char>>> {
    s.map_values(|g: Vec<&'static str>| strs(g@))
}

/// The first id of each group.
pub open spec fn heads(groups: Seq<Seq<Seq<char>>>) -> Seq<Seq<char>> {
    groups.map_values(|g: Seq<Seq<char>>| g[0])
}

/// The groups of strong platforms a bundle stands for.
pub open spec fn strong_groups(candidates: Seq<CandidateModel>) -> Seq<Seq<Seq<char>>> {
    equivalence_groups(strong_platforms(candidates))
}

/// The outcome that a sequence of candidates amounts to.
pub open spec fn outcome_of(candidates: Seq<CandidateModel>) -> FusionOutcome {
    let groups = strong_groups(candidates);
    if groups.len() > 1 {
        FusionOutcome::Conflict
    } else if groups.len() == 1 {
        FusionOutcome::Resolved
    } else if candidates.len() > 0 {
        FusionOutcome::Ambiguous
    } else {
        FusionOutcome::Unknown
    }
}

/// `e` explains the bundle `evidence` under the rules of `table`.
pub open spec fn explains(
    e: ResolutionExplanation,
    table: Seq<RuleModel>,
    evidence: Seq<ContentEvidence>,
) -> bool {
    let candidates = fired(table, facts(evidence));
    let groups = strong_groups(candidates);
    &&& e.outcome == outcome_of(candidates)
    &&& opt_id(e.resolved_platform) == if groups.len() == 1 {
        Some(groups[0][0])
    } else {
        None
    }
    &&& candidate_models(e.fired_candidates@) == candidates
    &&& strs(e.conflicting_platforms@) == if groups.len() > 1 {
        heads(groups)
    } else {
        seq![]
    }
    &&& e.input_evidence@ == evidence
}

fn fact_meets(fact: &ContentEvidence, leg: &RequiredFact) -> (r: bool)
    ensures
        r == meets(fact@, leg@),
{
    match leg {
        RequiredFact::Exact { kind, value, min_confidence } => {
            fact.kind == *kind && same_text(fact.value.as_str(), value) && fact.confidence.at_least(
                *min_confidence,
            )
        },
        RequiredFact::AnyValue { kind, min_confidence } => {
            fact.kind == *kind && fact.confidence.at_least(*min_confidence)
        },
    }
}

fn bundle_meets(evidence: &Vec<ContentEvidence>, leg: &RequiredFact) -> (r: bool)
    ensures
        r == leg_is_met(leg@, facts(evidence@)),
{
    let mut i: usize = 0;
    while i < evidence.len()
        invariant
            i <= evidence@.len(),
            forall|j: int| 0 <= j < i ==> !meets(#[trigger] facts(evidence@)[j], leg@),
        decreases evidence.len() - i,
    {
        assert(facts(evidence@)[i as int] == evidence@[i as int]@);
        if fact_meets(&evidence[i], leg) {
            return true;
        }
        i = i + 1;
    }
    false
}

fn rule_fires(rule: &FusionRule, evidence: &Vec<ContentEvidence>) -> (r: bool)
    ensures
        r == fires(rule@, facts(evidence@)),
{
    let mut i: usize = 0;
    while i < rule.legs.len()
        invariant
            i <= rule.legs@.len(),
            forall|j: int|
                0 <= j < i ==> leg_is_met(#[trigger] rule@.legs[j], facts(evidence@)),
        decreases rule.legs.len() - i,
    {
        assert(rule@.legs[i as int] == rule.legs@[i as int]@);
        if !bundle_meets(evidence, &rule.legs[i]) {
            return false;
        }
        i = i + 1;
    }
    true
}

fn rule_is_strong(rule: &FusionRule) -> (r: bool)
    ensures
        r == is_strong_rule(rule@),
{
    let mut i: usize = 0;
    while i < rule.legs.len()
        invariant
            i <= rule.legs@.len(),
            forall|j: int|
                0 <= j < i ==> (#[trigger] rule@.legs[j]).floor()
                    != ContentEvidenceConfidence::Strong,
        decreases rule.legs.len() - i,
    {
        assert(rule@.legs[i as int] == rule.legs@[i as int]@);
        let floor = rule.legs[i].min_confidence();
        if floor == ContentEvidenceConfidence::Strong {
            return true;
        }
        i = i + 1;
    }
    false
}

fn fire_rules(table: &Vec<FusionRule>, evidence: &Vec<ContentEvidence>) -> (r: Vec<FiredCandidate>)
    ensures
        candidate_models(r@) == fired(rule_models(table@), facts(evidence@)),
{
    let mut out: Vec<FiredCandidate> = Vec::new();
    let mut i: usize = 0;
    assert(candidate_models(out@) =~= fired(rule_models(table@).take(0), facts(evidence@)));
    while i < table.len()
        invariant
            i <= table@.len(),
            candidate_models(out@) == fired(
                rule_models(table@).take(i as int),
                facts(evidence@),
            ),
        decreases table.len() - i,
    {
        let rule = &table[i];
        proof {
            let next = rule_models(table@).take(i + 1);
            assert(next.drop_last() =~= rule_models(table@).take(i as int));
            assert(next.last() == rule@);
        }
        if rule_fires(rule, evidence) {
            let candidate = FiredCandidate {
                platform: rule.platform,
                rule_id: rule.id,
                has_strong_leg: rule_is_strong(rule),
            };
            assert(candidate_models(out@.push(candidate)) =~= candidate_models(out@).push(
                candidate@,
            ));
            out.push(candidate);
        }
        i = i + 1;
    }
    assert(rule_models(table@).take(i as int) =~= rule_models(table@));
    out
}

fn strong_ids(candidates: &Vec<FiredCandidate>) -> (r: Vec<&'static str>)
    ensures
        strs(r@) == strong_platforms(candidate_models(candidates@)),
{
    let mut out: Vec<&'static str> = Vec::new();
    let mut i: usize = 0;
    let ghost all = candidate_models(candidates@);
    assert(strs(out@) =~= strong_platforms(all.take(0)));
    while i < candidates.len()
        invariant
            i <= candidates@.len(),
            all == candidate_models(candidates@),
            strs(out@) == strong_platforms(all.take(i as int)),
        decreases candidates.len() - i,
    {
        proof {
            assert(all.take(i + 1).drop_last() =~= all.take(i as int));
            assert(all.take(i + 1).last() == candidates@[i as int]@);
        }
        if candidates[i].has_strong_leg {
            let id: &'static str = candidates[i].platform;
            assert(strs(out@.push(id)) =~= strs(out@).push(id@));
            out.push(id);
        }
        i = i + 1;
    }
    assert(all.take(i as int) =~= all);
    out
}

/// The distinct ids in ascending order, in groups of equivalent ids.
pub fn group_by_equivalence(ids: &[&'static str]) -> (r: Vec<Vec<&'static str>>)
    ensures
        str_groups(r@) == equivalence_groups(strs(ids@)),
        forall|i: int| 0 <= i < r@.len() ==> (#[trigger] r@[i])@.len() > 0,
{
    let sorted = ascending_ids(ids);
    let mut out: Vec<Vec<&'static str>> = Vec::new();
    let mut i: usize = 0;
    assert(str_groups(out@) =~= grouped(strs(sorted@).take(0)));
    while i < sorted.len()
        invariant
            i <= sorted@.len(),
            str_groups(out@) == grouped(strs(sorted@).take(i as int)),
            forall|k: int| 0 <= k < out@.len() ==> (#[trigger] out@[k])@.len() > 0,
        decreases sorted.len() - i,
    {
        let id: &'static str = sorted[i];
        proof {
            let next = strs(sorted@).take(i + 1);
            assert(next.drop_last() =~= strs(sorted@).take(i as int));
            assert(next.last() == id@);
        }
        let mut k: usize = 0;
        while k < out.len() && !equivalent_platform_ids(out[k][0], id)
            invariant
                k <= out@.len(),
                forall|n: int| 0 <= n < out@.len() ==> (#[trigger] out@[n])@.len() > 0,
                forall|n: int| 0 <= n < k ==> !group_of(id@)(#[trigger] str_groups(out@)[n]),
            ensures
                k <= out@.len(),
                forall|n: int| 0 <= n < k ==> !group_of(id@)(#[trigger] str_groups(out@)[n]),
                k < out@.len() ==> group_of(id@)(str_groups(out@)[k as int]),
            decreases out.len() - k,
        {
            k = k + 1;
        }
        proof {
            first_index_unique(str_groups(out@), group_of(id@), k as int);
        }
        let ghost before = out@;
        if k < out.len() {
            let mut group = out.remove(k);
            let ghost old_group = group@;
            group.push(id);
            assert(strs(group@) =~= strs(old_group).push(id@));
            out.insert(k, group);
            assert(str_groups(out@) =~= str_groups(before).update(
                k as int,
                str_groups(before)[k as int].push(id@),
            ));
        } else {
            let mut group: Vec<&'static str> = Vec::new();
            group.push(id);
            assert(strs(group@) =~= seq![id@]);
            out.push(group);
            assert(str_groups(out@) =~= str_groups(before).push(seq![id@]));
        }
        i = i + 1;
    }
    assert(strs(sorted@).take(i as int) =~= strs(sorted@));
    out
}

/// The first id of each group.
pub(crate) fn group_heads(groups: &Vec<Vec<&'static str>>) -> (r: Vec<&'static str>)
    requires
        forall|i: int| 0 <= i < groups@.len() ==> (#[trigger] groups@[i])@.len() > 0,
    ensures
        strs(r@) == heads(str_groups(groups@)),
{
    let mut out: Vec<&'static str> = Vec::new();
    let mut i: usize = 0;
    while i < groups.len()
        invariant
            i <= groups@.len(),
            forall|k: int| 0 <= k < groups@.len() ==> (#[trigger] groups@[k])@.len() > 0,
            strs(out@) == heads(str_groups(groups@)).take(i as int),
        decreases groups.len() - i,
    {
        let id: &'static str = groups[i][0];
        proof {
            assert(heads(str_groups(groups@))[i as int] == id@);
            assert(strs(out@.push(id)) =~= strs(out@).push(id@));
            assert(heads(str_groups(groups@)).take(i + 1) =~= heads(str_groups(groups@)).take(
                i as int,
            ).push(id@));
        }
        out.push(id);
        i = i + 1;
    }
    assert(heads(str_groups(groups@)).take(i as int) =~= heads(str_groups(groups@)));
    out
}

/// Fuses a bundle of evidence under the rules of `table`.
pub fn fuse_with_rules(table: &Vec<FusionRule>, evidence: Vec<ContentEvidence>) -> (r:
    ResolutionExplanation)
    ensures
        explains(r, rule_models(table@), evidence@),
{
    let fired_candidates = fire_rules(table, &evidence);
    let strong = strong_ids(&fired_candidates);
    let groups = group_by_equivalence(strong.as_slice());
    assert(str_groups(groups@).len() == groups@.len());
    let ghost none = Seq::<Seq<char>>::empty();
    if groups.len() > 1 {
        let conflicting_platforms = group_heads(&groups);
        ResolutionExplanation {
            outcome: FusionOutcome::Conflict,
            resolved_platform: None,
            fired_candidates,
            conflicting_platforms,
            input_evidence: evidence,
        }
    } else if groups.len() == 1 {
        let platform: &'static str = groups[0][0];
        assert(str_groups(groups@)[0][0] == platform@);
        let conflicting_platforms: Vec<&'static str> = Vec::new();
        assert(strs(conflicting_platforms@) =~= none);
        ResolutionExplanation {
            outcome: FusionOutcome::Resolved,
            resolved_platform: Some(platform),
            fired_candidates,
            conflicting_platforms,
            input_evidence: evidence,
        }
    } else {
        let conflicting_platforms: Vec<&'static str> = Vec::new();
        assert(strs(conflicting_platforms@) =~= none);
        let outcome = if fired_candidates.len() > 0 {
            FusionOutcome::Ambiguous
        } else {
            FusionOutcome::Unknown
        };
        assert(candidate_models(fired_candidates@).len() == fired_candidates@.len());
        ResolutionExplanation {
            outcome,
            resolved_platform: None,
            fired_candidates,
            conflicting_platforms,
            input_evidence: evidence,
        }
    }
}

/// Fuses a bundle of evidence under the registered rules.
pub fn fuse_platform_evidence(evidence: Vec<ContentEvidence>) -> (r: ResolutionExplanation)
    ensures
        explains(r, rule_table(), evidence@),
{
    let table = rules();
    fuse_with_rules(&table, evidence)
}

/// How a content platform and a DAT platform relate.
#[derive(Debug, Clone, Copy, PartialEq, Eq)]
pub enum DatContentComparison {
    Agree { content_platform: &'static str, dat_platform: &'static str },
    Disagree { content_platform: &'static str, dat_platform: &'static str },
    ContentOnly { content_platform: &'static str },
    DatOnly { dat_platform: &'static str },
    Neither,
}

/// Compares what fusion resolved with the platform a DAT names, if it names
/// one. Equivalent ids agree; neither side is ever preferred.
pub fn compare_content_and_dat(
    explanation: &ResolutionExplanation,
    dat_platform: Option<&'static str>,
) -> (r: DatContentComparison)
    ensures
        r == match (explanation.resolved_platform, dat_platform) {
            (Some(c), Some(d)) => if equivalent(c@, d@) {
                DatContentComparison::Agree { content_platform: c, dat_platform: d }
            } else {
                DatContentComparison::Disagree { content_platform: c, dat_platform: d }
            },
            (Some(c), None) => DatContentComparison::ContentOnly { content_platform: c },
            (None, Some(d)) => DatContentComparison::DatOnly { dat_platform: d },
            (None, None) => DatContentComparison::Neither,
        },
{
    match (explanation.resolved_platform, dat_platform) {
        (Some(content_platform), Some(dat_platform)) => if equivalent_platform_ids(
            content_platform,
            dat_platform,
        ) {
            DatContentComparison::Agree { content_platform, dat_platform }
        } else {
            DatContentComparison::Disagree { content_platform, dat_platform }
        },
        (Some(content_platform), None) => DatContentComparison::ContentOnly { content_platform },
        (None, Some(dat_platform)) => DatContentComparison::DatOnly { dat_platform },
        (None, None) => DatContentComparison::Neither,
    }
}

/// What marks a fact that was read from a normalised view of the bytes.
pub const NORMALIZED_VIEW_PREFIX: &'static str = "[normalized view] ";

/// The fact with its detail marked, once.
pub open spec fn tagged(fact: Fact) -> Fact {
    if has_prefix(fact.detail, NORMALIZED_VIEW_PREFIX@) {
        fact
    } else {
        Fact {
            kind: fact.kind,
            value: fact.value,
            confidence: fact.confidence,
            detail: NORMALIZED_VIEW_PREFIX@ + fact.detail,
        }
    }
}

/// The facts with their details marked.
pub open spec fn tagged_facts(bundle: Seq<Fact>) -> Seq<Fact> {
    bundle.map_values(|f: Fact| tagged(f))
}

/// Marks every fact as read from a normalised view; one that is marked already
/// stays as it is.
pub fn tag_normalized_view_evidence(evidence: Vec<ContentEvidence>) -> (r: Vec<ContentEvidence>)
    ensures
        facts(r@) == tagged_facts(facts(evidence@)),
{
    let mut out: Vec<ContentEvidence> = Vec::new();
    let mut i: usize = 0;
    while i < evidence.len()
        invariant
            i <= evidence@.len(),
            facts(out@) == tagged_facts(facts(evidence@)).take(i as int),
        decreases evidence.len() - i,
    {
        let item = evidence[i].copy();
        let marked = if starts_with(item.detail.as_str(), NORMALIZED_VIEW_PREFIX) {
            item
        } else {
            let mut detail = NORMALIZED_VIEW_PREFIX.to_owned();
            detail.append(item.detail.as_str());
            ContentEvidence {
                kind: item.kind,
                value: item.value,
                confidence: item.confidence,
                detail,
            }
        };
        proof {
            assert(tagged_facts(facts(evidence@))[i as int] == tagged(evidence@[i as int]@));
            assert(facts(out@.push(marked)) =~= facts(out@).push(marked@));
            assert(tagged_facts(facts(evidence@)).take(i + 1) =~= tagged_facts(
                facts(evidence@),
            ).take(i as int).push(marked@));
        }
        out.push(marked);
        i = i + 1;
    }
    assert(tagged_facts(facts(evidence@)).take(i as int) =~= tagged_facts(facts(evidence@)));
    out
}

} // verus!
