//! What holds of fusion for every bundle of evidence.
use vstd::prelude::*;
use crate::content_evidence::{facts, ContentEvidence, Fact};
use crate::order::above;
use crate::platform::{ascending, id_order, is_platform, opt_id, strs};
use crate::platform_evidence_fusion::{
    explains, fired, fires, leg_is_met, meets, outcome_of, strong_groups, strong_platforms, tagged,
    tagged_facts, equivalence_groups, FusionOutcome, ResolutionExplanation, NORMALIZED_VIEW_PREFIX,
    CandidateModel,
};
use crate::platform_evidence_fusion::rules::{rule_table, LegModel, RuleModel};
use crate::seqs::{first_index, first_index_props};
use crate::text::{text_le_antisymmetric, text_le_total, text_le_transitive, text_lt};

verus! {

/// Two bundles hold the same facts, in whatever order and number.
pub open spec fn same_facts(a: Seq<Fact>, b: Seq<Fact>) -> bool {
    &&& forall|i: int| 0 <= i < a.len() ==> b.contains(#[trigger] a[i])
    &&& forall|i: int| 0 <= i < b.len() ==> a.contains(#[trigger] b[i])
}

proof fn same_facts_meet(a: Seq<Fact>, b: Seq<Fact>, leg: LegModel)
    requires
        same_facts(a, b),
        leg_is_met(leg, a),
    ensures
        leg_is_met(leg, b),
{
    let i = choose|i: int| 0 <= i < a.len() && meets(#[trigger] a[i], leg);
    assert(b.contains(a[i]));
    let j = choose|j: int| 0 <= j < b.len() && b[j] == a[i];
    assert(meets(b[j], leg));
}

/// The rules that fire depend on which facts are present, never on their order
/// or on how often one is repeated.
pub proof fn fusion_ignores_order_and_repetition(
    table: Seq<RuleModel>,
    a: Seq<Fact>,
    b: Seq<Fact>,
)
    requires
        same_facts(a, b),
    ensures
        fired(table, a) == fired(table, b),
    decreases table.len(),
{
    if table.len() > 0 {
        fusion_ignores_order_and_repetition(table.drop_last(), a, b);
        let rule = table.last();
        assert(fires(rule, a) == fires(rule, b)) by {
            if fires(rule, a) {
                assert forall|i: int| 0 <= i < rule.legs.len() implies leg_is_met(
                    #[trigger] rule.legs[i],
                    b,
                ) by {
                    same_facts_meet(a, b, rule.legs[i]);
                }
            }
            if fires(rule, b) {
                assert forall|i: int| 0 <= i < rule.legs.len() implies leg_is_met(
                    #[trigger] rule.legs[i],
                    a,
                ) by {
                    same_facts_meet(b, a, rule.legs[i]);
                }
            }
        }
    }
}

/// Explanations of bundles with the same facts agree on everything but the
/// evidence they retain.
pub proof fn explanations_ignore_order(
    table: Seq<RuleModel>,
    a: Seq<ContentEvidence>,
    b: Seq<ContentEvidence>,
    x: ResolutionExplanation,
    y: ResolutionExplanation,
)
    requires
        same_facts(facts(a), facts(b)),
        explains(x, table, a),
        explains(y, table, b),
    ensures
        x.outcome == y.outcome,
        opt_id(x.resolved_platform) == opt_id(y.resolved_platform),
        strs(x.conflicting_platforms@) == strs(y.conflicting_platforms@),
{
    fusion_ignores_order_and_repetition(table, facts(a), facts(b));
}

/// A conflict never has a winner and names at least two platforms; a platform
/// is named exactly when the outcome is `Resolved`; without any fired rule the
/// outcome is `Unknown`.
pub proof fn outcome_shapes(
    table: Seq<RuleModel>,
    evidence: Seq<ContentEvidence>,
    e: ResolutionExplanation,
)
    requires
        explains(e, table, evidence),
    ensures
        e.outcome == FusionOutcome::Conflict ==> e.resolved_platform is None
            && e.conflicting_platforms@.len() >= 2,
        e.resolved_platform is Some <==> e.outcome == FusionOutcome::Resolved,
        e.outcome == FusionOutcome::Unknown <==> e.fired_candidates@.len() == 0,
        e.outcome != FusionOutcome::Conflict ==> e.conflicting_platforms@.len() == 0,
{
    let candidates = fired(table, facts(evidence));
    assert(strs(e.conflicting_platforms@).len() == e.conflicting_platforms@.len());
    assert(crate::platform_evidence_fusion::candidate_models(e.fired_candidates@).len()
        == e.fired_candidates@.len());
    if candidates.len() == 0 {
        assert(strong_platforms(candidates) =~= seq![]);
        assert(ascending(strong_platforms(candidates)) =~= seq![]);
        assert(strong_groups(candidates) =~= seq![]);
    }
}

proof fn no_strong_platform(candidates: Seq<CandidateModel>)
    requires
        forall|i: int| 0 <= i < candidates.len() ==> !(#[trigger] candidates[i]).has_strong_leg,
    ensures
        strong_platforms(candidates) == Seq::<Seq<char>>::empty(),
    decreases candidates.len(),
{
    if candidates.len() > 0 {
        assert(!candidates[candidates.len() - 1].has_strong_leg);
        assert forall|i: int| 0 <= i < candidates.drop_last().len() implies !(
        #[trigger] candidates.drop_last()[i]).has_strong_leg by {
            assert(candidates.drop_last()[i] == candidates[i]);
        }
        no_strong_platform(candidates.drop_last());
    }
}

/// Candidates without a strong leg never resolve anything, however many there
/// are.
pub proof fn weak_candidates_never_resolve(candidates: Seq<CandidateModel>)
    requires
        forall|i: int| 0 <= i < candidates.len() ==> !(#[trigger] candidates[i]).has_strong_leg,
    ensures
        outcome_of(candidates) == FusionOutcome::Ambiguous || outcome_of(candidates)
            == FusionOutcome::Unknown,
{
    no_strong_platform(candidates);
    assert(ascending(Seq::<Seq<char>>::empty()) =~= seq![]);
    assert(strong_groups(candidates) =~= seq![]);
}

/// Marking facts a second time changes nothing.
pub proof fn tagging_is_idempotent(bundle: Seq<Fact>)
    ensures
        tagged_facts(tagged_facts(bundle)) == tagged_facts(bundle),
{
    assert forall|i: int| 0 <= i < bundle.len() implies tagged(tagged(#[trigger] bundle[i]))
        == tagged(bundle[i]) by {
        let p = NORMALIZED_VIEW_PREFIX@;
        let d = bundle[i].detail;
        assert((p + d).subrange(0, p.len() as int) =~= p);
    }
    assert(tagged_facts(tagged_facts(bundle)) =~= tagged_facts(bundle));
}

/// Marking facts never changes which rules fire.
pub proof fn tagging_never_changes_fusion(table: Seq<RuleModel>, bundle: Seq<Fact>)
    ensures
        fired(table, tagged_facts(bundle)) == fired(table, bundle),
    decreases table.len(),
{
    if table.len() > 0 {
        tagging_never_changes_fusion(table.drop_last(), bundle);
        let marked = tagged_facts(bundle);
        assert forall|leg: LegModel| leg_is_met(leg, marked) == #[trigger] leg_is_met(
            leg,
            bundle,
        ) by {
            if leg_is_met(leg, marked) {
                let i = choose|i: int| 0 <= i < marked.len() && meets(#[trigger] marked[i], leg);
                assert(meets(bundle[i], leg));
            }
            if leg_is_met(leg, bundle) {
                let i = choose|i: int| 0 <= i < bundle.len() && meets(#[trigger] bundle[i], leg);
                assert(meets(marked[i], leg));
            }
        }
        let rule = table.last();
        assert(fires(rule, marked) == fires(rule, bundle)) by {
            assert forall|i: int| 0 <= i < rule.legs.len() implies leg_is_met(
                #[trigger] rule.legs[i],
                marked,
            ) == leg_is_met(rule.legs[i], bundle) by {}
        }
    }
}

/// Every id comes strictly before every later one.
pub open spec fn strictly_ascending(s: Seq<Seq<char>>) -> bool {
    forall|i: int, j: int| 0 <= i < j < s.len() ==> text_lt(#[trigger] s[i], #[trigger] s[j])
}

/// [`ascending`] holds exactly the given ids, strictly ascending.
pub proof fn ascending_props(ids: Seq<Seq<char>>)
    ensures
        strictly_ascending(ascending(ids)),
        forall|x: Seq<char>| #[trigger] ascending(ids).contains(x) <==> ids.contains(x),
    decreases ids.len(),
{
    if ids.len() > 0 {
        let before = ascending(ids.drop_last());
        let x = ids.last();
        ascending_props(ids.drop_last());
        let r = ascending(ids);
        assert(ids.contains(x)) by {
            assert(ids[ids.len() - 1] == x);
        }
        assert forall|y: Seq<char>| ids.contains(y) implies ids.drop_last().contains(y) || y
            == x by {
            let i = choose|i: int| 0 <= i < ids.len() && ids[i] == y;
            if i < ids.len() - 1 {
                assert(ids.drop_last()[i] == y);
            }
        }
        assert forall|y: Seq<char>| ids.drop_last().contains(y) implies ids.contains(y) by {
            let i = choose|i: int| 0 <= i < ids.drop_last().len() && ids.drop_last()[i] == y;
            assert(ids[i] == y);
        }
        if !before.contains(x) {
            let k = first_index(before, above(id_order(), x));
            first_index_props(before, above(id_order(), x));
            assert(r == before.insert(k, x));
            assert forall|i: int, j: int| 0 <= i < j < r.len() implies text_lt(
                #[trigger] r[i],
                #[trigger] r[j],
            ) by {
                if j < k {
                    assert(text_lt(before[i], before[j]));
                } else if j == k {
                    assert(!above(id_order(), x)(before[i]));
                    assert(before.contains(before[i]));
                } else if i < k {
                    assert(text_lt(before[i], before[j - 1]));
                } else if i == k {
                    assert(above(id_order(), x)(before[k]));
                    text_le_total(before[k], x);
                    assert(before.contains(before[k]));
                    if j - 1 > k {
                        assert(text_lt(before[k], before[j - 1]));
                        text_le_transitive(x, before[k], before[j - 1]);
                        if x == before[j - 1] {
                            assert(before.contains(x));
                        }
                    }
                } else {
                    assert(text_lt(before[i - 1], before[j - 1]));
                }
            }
            assert forall|y: Seq<char>| #[trigger] r.contains(y) implies ids.contains(y) by {
                let i = choose|i: int| 0 <= i < r.len() && r[i] == y;
                if i < k {
                    assert(before.contains(before[i]));
                } else if i > k {
                    assert(before.contains(before[i - 1]));
                }
            }
            assert forall|y: Seq<char>| ids.contains(y) implies #[trigger] r.contains(y) by {
                if y == x {
                    assert(r[k] == x);
                } else {
                    assert(before.contains(y));
                    let i = choose|i: int| 0 <= i < before.len() && before[i] == y;
                    if i < k {
                        assert(r[i] == y);
                    } else {
                        assert(r[i + 1] == y);
                    }
                }
            }
        }
    }
}

proof fn strictly_ascending_unique(a: Seq<Seq<char>>, b: Seq<Seq<char>>)
    requires
        strictly_ascending(a),
        strictly_ascending(b),
        forall|x: Seq<char>| #[trigger] a.contains(x) <==> b.contains(x),
    ensures
        a == b,
    decreases a.len(),
{
    if a.len() == 0 {
        if b.len() > 0 {
            assert(b.contains(b[0]));
            assert(a.contains(b[0]));
        }
        assert(a =~= b);
    } else {
        assert(a.contains(a.last()));
        assert(b.contains(a.last()));
        let m = choose|i: int| 0 <= i < b.len() && b[i] == a.last();
        assert(b.contains(b.last()));
        assert(a.contains(b.last()));
        let n = choose|i: int| 0 <= i < a.len() && a[i] == b.last();
        if m < b.len() - 1 {
            assert(text_lt(b[m], b[b.len() - 1]));
            if n < a.len() - 1 {
                assert(text_lt(a[n], a[a.len() - 1]));
                text_le_antisymmetric(a.last(), b.last());
            }
        }
        assert(a.last() == b.last());
        assert forall|x: Seq<char>| #[trigger] a.drop_last().contains(x) implies b.drop_last().contains(x) by {
            let i = choose|i: int| 0 <= i < a.drop_last().len() && a.drop_last()[i] == x;
            assert(a[i] == x);
            assert(a.contains(x));
            assert(b.contains(x));
            let j = choose|j: int| 0 <= j < b.len() && b[j] == x;
            assert(text_lt(a[i], a[a.len() - 1]));
            assert(j < b.len() - 1);
            assert(b.drop_last()[j] == x);
        }
        assert forall|x: Seq<char>| b.drop_last().contains(x) implies #[trigger] a.drop_last().contains(x) by {
            let i = choose|i: int| 0 <= i < b.drop_last().len() && b.drop_last()[i] == x;
            assert(b[i] == x);
            assert(b.contains(x));
            assert(a.contains(x));
            let j = choose|j: int| 0 <= j < a.len() && a[j] == x;
            assert(text_lt(b[i], b[b.len() - 1]));
            assert(j < a.len() - 1);
            assert(a.drop_last()[j] == x);
        }
        strictly_ascending_unique(a.drop_last(), b.drop_last());
        assert(a =~= a.drop_last().push(a.last()));
        assert(b =~= b.drop_last().push(b.last()));
    }
}

/// Grouping depends on which ids are given, never on their order or on how
/// often one is repeated.
pub proof fn grouping_ignores_order_and_repetition(a: Seq<Seq<char>>, b: Seq<Seq<char>>)
    requires
        forall|x: Seq<char>| #[trigger] a.contains(x) <==> b.contains(x),
    ensures
        equivalence_groups(a) == equivalence_groups(b),
{
    ascending_props(a);
    ascending_props(b);
    assert forall|x: Seq<char>| #[trigger] ascending(a).contains(x) <==> ascending(b).contains(x) by {
        assert(a.contains(x) <==> b.contains(x));
    }
    strictly_ascending_unique(ascending(a), ascending(b));
}

/// Every rule names a registered platform and has at least one leg.
pub proof fn rules_name_registered_platforms(i: int)
    requires
        0 <= i < rule_table().len(),
    ensures
        is_platform(rule_table()[i].platform),
        rule_table()[i].legs.len() > 0,
{
}

} // verus!
