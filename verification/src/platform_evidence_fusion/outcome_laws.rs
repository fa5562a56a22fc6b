//! What fusion makes of the platforms that a bundle suggests and establishes.
use vstd::prelude::*;
use vstd::string::*;
use crate::content_evidence::{facts, ContentEvidence, ContentEvidenceConfidence, Fact};
use crate::platform::{ascending, equivalent, opt_id, strs};
use crate::platform_evidence_fusion::laws::ascending_props;
use crate::platform_evidence_fusion::rules::{rule_table, LegModel, RuleModel};
use crate::platform_evidence_fusion::signature_laws::{
    is_at_least, is_established, is_suggested, lone_signatures_establish_their_platform, stands_for,
};
use crate::platform_evidence_fusion::{
    explains, fired, fires, group_of, grouped, heads, is_strong_rule, leg_is_met, meets, placed,
    strong_groups, strong_platforms, CandidateModel, FusionOutcome, ResolutionExplanation,
};
use crate::seqs::{first_index, first_index_props};
use crate::text::text_le;

verus! {

/// Two different ids name the same machine only where these are its two regional
/// names.
pub proof fn only_regional_names_are_equivalent(a: Seq<char>, b: Seq<char>)
    ensures
        equivalent(a, b) <==> a == b || (a == "PC Engine"@ && b == "TurboGrafx-16"@) || (a
            == "TurboGrafx-16"@ && b == "PC Engine"@),
{
    reveal_strlit("PC Engine");
    reveal_strlit("TurboGrafx-16");
    assert("PC Engine"@.len() != "TurboGrafx-16"@.len());
}

proof fn strong_platforms_props(c: Seq<CandidateModel>)
    ensures
        forall|p: Seq<char>| #[trigger] strong_platforms(c).contains(p) <==> exists|k: int|
            0 <= k < c.len() && (#[trigger] c[k]).platform == p && c[k].has_strong_leg,
    decreases c.len(),
{
    if c.len() > 0 {
        let rest = c.drop_last();
        let before = strong_platforms(rest);
        let all = strong_platforms(c);
        strong_platforms_props(rest);
        assert forall|p: Seq<char>| #[trigger] all.contains(p) <==> exists|k: int|
            0 <= k < c.len() && (#[trigger] c[k]).platform == p && c[k].has_strong_leg by {
            if all.contains(p) {
                let i = choose|i: int| 0 <= i < all.len() && all[i] == p;
                if i < before.len() {
                    assert(before[i] == p);
                    assert(before.contains(p));
                    let k = choose|k: int|
                        0 <= k < rest.len() && (#[trigger] rest[k]).platform == p
                            && rest[k].has_strong_leg;
                    assert(c[k] == rest[k]);
                } else {
                    assert(c[c.len() - 1].platform == p);
                }
            }
            if exists|k: int|
                0 <= k < c.len() && (#[trigger] c[k]).platform == p && c[k].has_strong_leg {
                let k = choose|k: int|
                    0 <= k < c.len() && (#[trigger] c[k]).platform == p && c[k].has_strong_leg;
                if k < rest.len() {
                    assert(rest[k] == c[k]);
                    assert(before.contains(p));
                    let i = choose|i: int| 0 <= i < before.len() && before[i] == p;
                    assert(all[i] == p);
                } else {
                    assert(all[all.len() - 1] == p);
                }
            }
        }
    }
}

/// No group is empty, its head is one of the ids, heads are never equivalent,
/// every id is equivalent to some head, and the first head is the first id.
pub open spec fn well_grouped(ids: Seq<Seq<char>>, groups: Seq<Seq<Seq<char>>>) -> bool {
    &&& groups.len() > 0 <==> ids.len() > 0
    &&& groups.len() > 0 ==> groups[0][0] == ids[0]
    &&& forall|g: int|
        0 <= g < groups.len() ==> (#[trigger] groups[g]).len() > 0 && ids.contains(groups[g][0])
    &&& forall|g: int, h: int|
        0 <= g < h < groups.len() ==> !equivalent(
            (#[trigger] groups[g])[0],
            (#[trigger] groups[h])[0],
        )
    &&& forall|i: int|
        0 <= i < ids.len() ==> has_head(groups, #[trigger] ids[i])
}

/// Some group's head is equivalent to the id.
pub open spec fn has_head(groups: Seq<Seq<Seq<char>>>, id: Seq<char>) -> bool {
    exists|g: int| 0 <= g < groups.len() && equivalent((#[trigger] groups[g])[0], id)
}

/// Grouping ids by equivalence loses none and keeps machines apart.
pub proof fn grouping_is_well(ids: Seq<Seq<char>>)
    ensures
        well_grouped(ids, grouped(ids)),
    decreases ids.len(),
{
    if ids.len() > 0 {
        let rest = ids.drop_last();
        let id = ids.last();
        let before = grouped(rest);
        let now = grouped(ids);
        grouping_is_well(rest);
        let k = first_index(before, group_of(id));
        first_index_props(before, group_of(id));
        assert(now == placed(before, id));
        assert forall|g: int| 0 <= g < before.len() implies (#[trigger] now[g])[0]
            == before[g][0] by {
            assert(before[g].len() > 0);
        }
        assert(ids[ids.len() - 1] == id);
        assert forall|x: Seq<char>| rest.contains(x) implies ids.contains(x) by {
            let i = choose|i: int| 0 <= i < rest.len() && rest[i] == x;
            assert(ids[i] == x);
        }
        assert forall|g: int| 0 <= g < now.len() implies (#[trigger] now[g]).len() > 0
            && ids.contains(now[g][0]) by {
            if g < before.len() {
                assert(before[g].len() > 0);
                assert(rest.contains(before[g][0]));
            }
        }
        assert forall|g: int, h: int| 0 <= g < h < now.len() implies !equivalent(
            (#[trigger] now[g])[0],
            (#[trigger] now[h])[0],
        ) by {
            assert(now[g][0] == before[g][0]);
            if h < before.len() {
                assert(now[h][0] == before[h][0]);
            } else {
                assert(!group_of(id)(before[g]));
            }
        }
        assert forall|i: int| 0 <= i < ids.len() implies has_head(now, #[trigger] ids[i]) by {
            if i < rest.len() {
                assert(rest[i] == ids[i]);
                let g = choose|g: int|
                    0 <= g < before.len() && equivalent((#[trigger] before[g])[0], rest[i]);
                assert(equivalent(now[g][0], ids[i]));
            } else if k < before.len() {
                assert(group_of(id)(before[k]));
                assert(equivalent(now[k][0], id));
            } else {
                assert(now[before.len() as int][0] == id);
            }
        }
        if rest.len() > 0 {
            assert(now[0][0] == before[0][0]);
            assert(rest[0] == ids[0]);
        } else {
            assert(now[0] == seq![id]);
        }
    }
}

/// A group holds exactly the ids that are equivalent to its head.
pub proof fn groups_hold_equivalent_ids(ids: Seq<Seq<char>>, g: int, x: Seq<char>)
    requires
        0 <= g < grouped(ids).len(),
    ensures
        grouped(ids)[g].contains(x) <==> ids.contains(x) && equivalent(grouped(ids)[g][0], x),
    decreases ids.len(),
{
    if ids.len() > 0 {
        let rest = ids.drop_last();
        let id = ids.last();
        let before = grouped(rest);
        let now = grouped(ids);
        grouping_is_well(rest);
        grouping_is_well(ids);
        let k = first_index(before, group_of(id));
        first_index_props(before, group_of(id));
        assert(now == placed(before, id));
        assert(ids[ids.len() - 1] == id);
        assert(ids.contains(x) <==> rest.contains(x) || x == id) by {
            if ids.contains(x) {
                let i = choose|i: int| 0 <= i < ids.len() && ids[i] == x;
                if i < rest.len() {
                    assert(rest[i] == x);
                }
            }
            if rest.contains(x) {
                let i = choose|i: int| 0 <= i < rest.len() && rest[i] == x;
                assert(ids[i] == x);
            }
        }
        if g < before.len() {
            groups_hold_equivalent_ids(rest, g, x);
            assert(before[g].len() > 0);
            if g == k {
                assert(group_of(id)(before[k]));
                let grown = before[g].push(id);
                assert(now[g] == grown);
                assert(grown.contains(x) <==> before[g].contains(x) || x == id) by {
                    assert(grown[before[g].len() as int] == id);
                    if before[g].contains(x) {
                        let i = choose|i: int| 0 <= i < before[g].len() && before[g][i] == x;
                        assert(grown[i] == x);
                    }
                    if grown.contains(x) {
                        let i = choose|i: int| 0 <= i < grown.len() && grown[i] == x;
                        if i < before[g].len() {
                            assert(before[g][i] == x);
                        }
                    }
                }
            } else {
                assert(now[g] == before[g]);
                if equivalent(before[g][0], id) {
                    assert(group_of(id)(before[g]));
                    if k < before.len() {
                        assert(group_of(id)(before[k]));
                        if g < k {
                            assert(!group_of(id)(before[g]));
                        } else {
                            assert(!equivalent(before[k][0], before[g][0]));
                        }
                    } else {
                        assert(!group_of(id)(before[g]));
                    }
                }
            }
        } else {
            assert(now[g] =~= seq![id]);
            assert(now[g][0] == id);
            if ids.contains(x) && x != id && equivalent(id, x) {
                let i = choose|i: int| 0 <= i < rest.len() && rest[i] == x;
                assert(has_head(before, rest[i]));
                let h = choose|h: int|
                    0 <= h < before.len() && equivalent((#[trigger] before[h])[0], rest[i]);
                assert(group_of(id)(before[h]));
            }
        }
    } else {
        assert(grouped(ids).len() == 0);
    }
}

/// Fusion reports `Unknown` when nothing is suggested, `Ambiguous` when something
/// is and nothing is established, `Resolved` when all that is established is one
/// machine, and `Conflict` when two machines are.
pub proof fn outcomes_follow_what_is_established(
    evidence: Seq<ContentEvidence>,
    e: ResolutionExplanation,
)
    requires
        explains(e, rule_table(), evidence),
    ensures
        ({
            let bundle = facts(evidence);
            let something = exists|p: Seq<char>| #[trigger] is_suggested(bundle, p);
            let settled = exists|p: Seq<char>| #[trigger] is_established(bundle, p);
            let agreed = forall|p: Seq<char>, q: Seq<char>| #[trigger]
                is_established(bundle, p) && #[trigger] is_established(bundle, q) ==> equivalent(
                    p,
                    q,
                );
            e.outcome == if !something {
                FusionOutcome::Unknown
            } else if !settled {
                FusionOutcome::Ambiguous
            } else if agreed {
                FusionOutcome::Resolved
            } else {
                FusionOutcome::Conflict
            }
        }),
        e.outcome == FusionOutcome::Resolved ==> e.resolved_platform is Some && is_established(
            facts(evidence),
            e.resolved_platform->0@,
        ) && forall|q: Seq<char>| #[trigger]
            is_established(facts(evidence), q) ==> text_le(e.resolved_platform->0@, q),
        e.outcome != FusionOutcome::Resolved ==> e.resolved_platform is None,
        e.outcome == FusionOutcome::Conflict ==> {
            let named = strs(e.conflicting_platforms@);
            &&& named.len() >= 2
            &&& forall|i: int|
                0 <= i < named.len() ==> is_established(facts(evidence), #[trigger] named[i])
            &&& forall|i: int, j: int|
                0 <= i < j < named.len() ==> !equivalent(#[trigger] named[i], #[trigger] named[j])
            &&& forall|q: Seq<char>| #[trigger]
                is_established(facts(evidence), q) ==> exists|i: int|
                    0 <= i < named.len() && equivalent(#[trigger] named[i], q)
        },
        e.outcome != FusionOutcome::Conflict ==> e.conflicting_platforms@.len() == 0,
        e.input_evidence@ == evidence,
{
    let bundle = facts(evidence);
    let c = fired(rule_table(), bundle);
    let ids = strong_platforms(c);
    let sorted = ascending(ids);
    let groups = strong_groups(c);
    strong_platforms_props(c);
    ascending_props(ids);
    grouping_is_well(sorted);
    assert forall|p: Seq<char>| #[trigger] is_established(bundle, p) <==> sorted.contains(p) by {
        assert(sorted.contains(p) <==> ids.contains(p));
    }
    assert(strs(e.conflicting_platforms@).len() == e.conflicting_platforms@.len());
    if c.len() > 0 {
        assert(is_suggested(bundle, c[0].platform));
    }
    if groups.len() > 0 {
        assert(sorted.contains(sorted[0]));
        assert(is_established(bundle, sorted[0]));
        let h = groups[0][0];
        assert(h == sorted[0]);
        let k = choose|k: int| 0 <= k < c.len() && (#[trigger] c[k]).platform == h;
        assert(is_suggested(bundle, h));
        assert forall|q: Seq<char>| #[trigger] is_established(bundle, q) implies text_le(h, q) by {
            assert(sorted.contains(q));
            let i = choose|i: int| 0 <= i < sorted.len() && sorted[i] == q;
            if i > 0 {
                assert(crate::text::text_lt(sorted[0], sorted[i]));
            } else {
                crate::text::text_le_reflexive(q);
            }
        }
    } else {
        assert forall|p: Seq<char>| !(#[trigger] is_established(bundle, p)) by {
            assert(!sorted.contains(p));
        }
    }
    if groups.len() == 1 {
        let h = groups[0][0];
        assert forall|p: Seq<char>, q: Seq<char>| #[trigger] is_established(bundle, p)
            && #[trigger] is_established(bundle, q) implies equivalent(p, q) by {
            let i = choose|i: int| 0 <= i < sorted.len() && sorted[i] == p;
            let j = choose|j: int| 0 <= j < sorted.len() && sorted[j] == q;
            assert(has_head(groups, sorted[i]));
            assert(has_head(groups, sorted[j]));
            assert(equivalent(h, p) && equivalent(h, q));
        }
    }
    if groups.len() > 1 {
        let named = heads(groups);
        assert(is_established(bundle, groups[0][0])) by {
            assert(sorted.contains(groups[0][0]));
        }
        assert(is_established(bundle, groups[1][0])) by {
            assert(sorted.contains(groups[1][0]));
        }
        assert(!equivalent(groups[0][0], groups[1][0]));
        assert forall|i: int| 0 <= i < named.len() implies is_established(
            bundle,
            #[trigger] named[i],
        ) by {
            assert(named[i] == groups[i][0]);
            assert(sorted.contains(groups[i][0]));
        }
        assert forall|i: int, j: int| 0 <= i < j < named.len() implies !equivalent(
            #[trigger] named[i],
            #[trigger] named[j],
        ) by {
            assert(named[i] == groups[i][0] && named[j] == groups[j][0]);
        }
        assert forall|q: Seq<char>| #[trigger] is_established(bundle, q) implies exists|i: int|
            0 <= i < named.len() && equivalent(#[trigger] named[i], q) by {
            assert(sorted.contains(q));
            let j = choose|j: int| 0 <= j < sorted.len() && sorted[j] == q;
            assert(has_head(groups, sorted[j]));
            let g = choose|g: int|
                0 <= g < groups.len() && equivalent((#[trigger] groups[g])[0], sorted[j]);
            assert(named[g] == groups[g][0]);
        }
    }
}

/// A single strong fact that stands for a platform resolves to that platform.
pub proof fn lone_signatures_resolve(
    evidence: Seq<ContentEvidence>,
    e: ResolutionExplanation,
    platform: Seq<char>,
)
    requires
        evidence.len() == 1,
        stands_for(evidence[0].kind, evidence[0].value@, platform),
        evidence[0].confidence == ContentEvidenceConfidence::Strong,
        explains(e, rule_table(), evidence),
    ensures
        e.outcome == FusionOutcome::Resolved,
        opt_id(e.resolved_platform) == Some(platform),
{
    let fact = evidence[0]@;
    let bundle = facts(evidence);
    assert(bundle =~= seq![fact]);
    lone_signatures_establish_their_platform(fact, platform);
    outcomes_follow_what_is_established(evidence, e);
    assert forall|q: Seq<char>| #[trigger] is_established(bundle, q) implies q == platform by {
        let c = fired(rule_table(), bundle);
        let k = choose|k: int|
            0 <= k < c.len() && (#[trigger] c[k]).platform == q && c[k].has_strong_leg;
        assert(is_suggested(bundle, q));
    }
    assert(is_suggested(bundle, platform)) by {
        let c = fired(rule_table(), bundle);
        let k = choose|k: int|
            0 <= k < c.len() && (#[trigger] c[k]).platform == platform && c[k].has_strong_leg;
    }
    assert(is_established(bundle, platform));
}

/// The fact is what the leg asks for, and strong enough.
pub open spec fn satisfies(fact: Fact, leg: LegModel) -> bool {
    match leg {
        LegModel::Exact { kind, value, min_confidence } => fact.kind == kind && fact.value == value
            && is_at_least(fact.confidence, min_confidence),
        LegModel::AnyValue { kind, min_confidence } => fact.kind == kind && is_at_least(
            fact.confidence,
            min_confidence,
        ),
    }
}

/// Some fact is what the leg asks for.
pub open spec fn is_satisfied(leg: LegModel, bundle: Seq<Fact>) -> bool {
    exists|j: int| 0 <= j < bundle.len() && satisfies(#[trigger] bundle[j], leg)
}

/// Every leg of the rule is satisfied.
pub open spec fn applies(rule: RuleModel, bundle: Seq<Fact>) -> bool {
    forall|i: int| 0 <= i < rule.legs.len() ==> is_satisfied(#[trigger] rule.legs[i], bundle)
}

/// Some leg of the rule asks for a strong fact.
pub open spec fn asks_for_strong(rule: RuleModel) -> bool {
    exists|i: int|
        0 <= i < rule.legs.len() && match #[trigger] rule.legs[i] {
            LegModel::Exact { min_confidence, .. } => min_confidence
                == ContentEvidenceConfidence::Strong,
            LegModel::AnyValue { min_confidence, .. } => min_confidence
                == ContentEvidenceConfidence::Strong,
        }
}

/// The rules that apply.
pub open spec fn applying(table: Seq<RuleModel>, bundle: Seq<Fact>) -> Seq<RuleModel> {
    table.filter(|rule: RuleModel| applies(rule, bundle))
}

proof fn firing_rules_apply(rule: RuleModel, bundle: Seq<Fact>)
    ensures
        applies(rule, bundle) == fires(rule, bundle),
        asks_for_strong(rule) == is_strong_rule(rule),
{
    assert forall|leg: LegModel| #[trigger] is_satisfied(leg, bundle) == leg_is_met(
        leg,
        bundle,
    ) by {
        if is_satisfied(leg, bundle) {
            let j = choose|j: int| 0 <= j < bundle.len() && satisfies(#[trigger] bundle[j], leg);
            assert(meets(bundle[j], leg));
        }
        if leg_is_met(leg, bundle) {
            let j = choose|j: int| 0 <= j < bundle.len() && meets(#[trigger] bundle[j], leg);
            assert(satisfies(bundle[j], leg));
        }
    }
    if applies(rule, bundle) {
        assert forall|i: int| 0 <= i < rule.legs.len() implies leg_is_met(
            #[trigger] rule.legs[i],
            bundle,
        ) by {
            assert(is_satisfied(rule.legs[i], bundle));
        }
    }
    if fires(rule, bundle) {
        assert forall|i: int| 0 <= i < rule.legs.len() implies is_satisfied(
            #[trigger] rule.legs[i],
            bundle,
        ) by {
            assert(leg_is_met(rule.legs[i], bundle));
        }
    }
    if asks_for_strong(rule) {
        let i = choose|i: int|
            0 <= i < rule.legs.len() && match #[trigger] rule.legs[i] {
                LegModel::Exact { min_confidence, .. } => min_confidence
                    == ContentEvidenceConfidence::Strong,
                LegModel::AnyValue { min_confidence, .. } => min_confidence
                    == ContentEvidenceConfidence::Strong,
            };
        assert(rule.legs[i].floor() == ContentEvidenceConfidence::Strong);
    }
    if is_strong_rule(rule) {
        let i = choose|i: int|
            0 <= i < rule.legs.len() && (#[trigger] rule.legs[i]).floor()
                == ContentEvidenceConfidence::Strong;
        assert(rule.legs[i].floor() == ContentEvidenceConfidence::Strong);
    }
}

/// There is one candidate for each rule that applies, in the order of the rules,
/// with the rule's id and platform; it has a strong leg exactly when the rule
/// asks for a strong fact.
pub proof fn candidates_are_the_rules_that_apply(table: Seq<RuleModel>, bundle: Seq<Fact>)
    ensures
        fired(table, bundle).len() == applying(table, bundle).len(),
        forall|k: int|
            0 <= k < fired(table, bundle).len() ==> (#[trigger] fired(table, bundle)[k]).platform
                == applying(table, bundle)[k].platform && fired(table, bundle)[k].rule_id
                == applying(table, bundle)[k].id && fired(table, bundle)[k].has_strong_leg
                == asks_for_strong(applying(table, bundle)[k]),
    decreases table.len(),
{
    reveal(Seq::filter);
    if table.len() > 0 {
        let rest = table.drop_last();
        let rule = table.last();
        candidates_are_the_rules_that_apply(rest, bundle);
        firing_rules_apply(rule, bundle);
        let all = fired(table, bundle);
        let kept = applying(table, bundle);
        if applies(rule, bundle) {
            assert(kept == applying(rest, bundle).push(rule));
            assert forall|k: int| 0 <= k < all.len() implies (#[trigger] all[k]).platform
                == kept[k].platform && all[k].rule_id == kept[k].id && all[k].has_strong_leg
                == asks_for_strong(kept[k]) by {
                if k < fired(rest, bundle).len() {
                    assert(all[k] == fired(rest, bundle)[k]);
                }
            }
        } else {
            assert(kept == applying(rest, bundle));
        }
    } else {
        assert(applying(table, bundle) =~= seq![]);
    }
}

} // verus!
