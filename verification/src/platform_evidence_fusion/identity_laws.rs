//! What the lanes of one file settle together.
use vstd::prelude::*;
use vstd::string::*;
use crate::content_evidence::Fact;
use crate::dat::identity::DatPlatformIdentity;
use crate::order::stable_sorted_props;
use crate::platform::{ascending, equivalent, is_platform, opt_id, strs};
use crate::platform_evidence_fusion::archive_set_identity::{
    index_order, member_platforms, resolved_id, resolved_members, set_of, sorted_indices, SetModel,
};
use crate::platform_evidence_fusion::combined_identity::{
    combinable, combines, CombinedIdentityView, DatOutcome, IdentityRelationship,
};
use crate::platform_evidence_fusion::identity_bridge::{
    bridged, conflict_statements, strong_rule_ids,
};
use crate::platform_evidence_fusion::laws::{ascending_props, strictly_ascending};
use crate::platform_evidence_fusion::outcome_laws::{grouping_is_well, has_head};
use crate::platform_evidence_fusion::{
    candidate_models, equivalence_groups, explains, heads, CandidateModel, FusionOutcome,
    ResolutionExplanation,
};
use crate::platform_evidence_fusion::rules::rule_table;
use crate::platform_identity::{
    in_tier, resolution, settled, statement_platforms, tier, PlatformIdentitySource,
    ResolutionModel, StatementModel,
};
use crate::text::{joined, text_le, text_lt};
use crate::text_laws::{parts_stand_in_what_they_make, stands_in, stands_in_parts};

verus! {

/// The lanes agree when both are settled on one machine, by the earlier of its
/// names; they disagree when both are settled on two machines. A lane without an
/// opinion leaves the other's standing, and an ambiguous lane stays visible with
/// what the other one settled.
pub proof fn lanes_relate_by_what_they_settle(
    view: CombinedIdentityView,
    content: ResolutionExplanation,
    dat: DatPlatformIdentity,
)
    requires
        combines(view, content, dat),
        combinable(content, dat),
    ensures
        view.content_outcome == content.outcome,
        view.content_platform == content.resolved_platform,
        view.dat_outcome == DatOutcome::Unknown <==> dat is Unknown,
        view.dat_outcome == DatOutcome::Resolved <==> dat is Resolved,
        view.dat_outcome == DatOutcome::Ambiguous <==> dat is Ambiguous,
        match dat {
            DatPlatformIdentity::Resolved { platform, .. } => opt_id(view.dat_platform)
                == if is_platform(platform@) {
                Some(platform@)
            } else {
                None
            },
            _ => view.dat_platform is None,
        },
        view.relationship is Agree <==> content.outcome == FusionOutcome::Resolved && (dat matches
            DatPlatformIdentity::Resolved { platform, .. } && equivalent(
            (content.resolved_platform->0)@,
            platform@,
        )),
        view.relationship is Disagree <==> content.outcome == FusionOutcome::Resolved && (
        dat matches DatPlatformIdentity::Resolved { platform, .. } && !equivalent(
            (content.resolved_platform->0)@,
            platform@,
        )),
        view.relationship is ContentOnly <==> content.outcome == FusionOutcome::Resolved
            && dat is Unknown,
        view.relationship is DatOnly <==> (content.outcome == FusionOutcome::Unknown
            || content.outcome == FusionOutcome::Conflict) && dat is Resolved,
        view.relationship is Neither <==> (content.outcome == FusionOutcome::Unknown
            || content.outcome == FusionOutcome::Conflict) && dat is Unknown,
        view.relationship is ContentAmbiguous <==> content.outcome == FusionOutcome::Ambiguous
            && !(dat is Ambiguous),
        view.relationship is DatAmbiguous <==> content.outcome != FusionOutcome::Ambiguous
            && dat is Ambiguous,
        view.relationship is BothAmbiguous <==> content.outcome == FusionOutcome::Ambiguous
            && dat is Ambiguous,
        match view.relationship {
            IdentityRelationship::Agree { platform } => {
                let a = (content.resolved_platform->0)@;
                let b = dat->Resolved_platform@;
                (platform@ == a || platform@ == b) && text_le(platform@, a) && text_le(
                    platform@,
                    b,
                )
            },
            IdentityRelationship::Disagree { content_platform, dat_platform } => {
                content_platform@ == (content.resolved_platform->0)@ && dat_platform@
                    == dat->Resolved_platform@
            },
            IdentityRelationship::ContentOnly { platform } => platform@ == (
            content.resolved_platform->0)@,
            IdentityRelationship::DatOnly { platform } => platform@ == dat->Resolved_platform@,
            IdentityRelationship::ContentAmbiguous { dat_platform } => opt_id(dat_platform)
                == opt_id(view.dat_platform),
            IdentityRelationship::DatAmbiguous { content_platform } => opt_id(content_platform)
                == if content.outcome == FusionOutcome::Resolved {
                opt_id(content.resolved_platform)
            } else {
                None
            },
            _ => true,
        },
{
    if content.outcome == FusionOutcome::Resolved && dat is Resolved {
        let a = (content.resolved_platform->0)@;
        let b = dat->Resolved_platform@;
        crate::text::text_le_total(a, b);
        crate::text::text_le_reflexive(a);
        crate::text::text_le_reflexive(b);
    }
}

proof fn conflict_platforms(platforms: Seq<Seq<char>>, generation: u64)
    ensures
        statement_platforms(conflict_statements(platforms, generation)) == platforms.filter(
            |p: Seq<char>| is_platform(p),
        ),
    decreases platforms.len(),
{
    reveal(Seq::filter);
    let keep = |p: Seq<char>| is_platform(p);
    if platforms.len() > 0 {
        conflict_platforms(platforms.drop_last(), generation);
        let before = conflict_statements(platforms.drop_last(), generation);
        if is_platform(platforms.last()) {
            let now = conflict_statements(platforms, generation);
            assert(statement_platforms(now) =~= statement_platforms(before).push(
                platforms.last(),
            ));
        }
    } else {
        assert(statement_platforms(conflict_statements(platforms, generation)) =~= seq![]);
        assert(platforms.filter(keep) =~= seq![]);
    }
}

/// A conflict states every registered platform it is between, in order.
pub proof fn conflicts_state_every_platform(e: ResolutionExplanation, generation: u64)
    requires
        e.outcome == FusionOutcome::Conflict,
    ensures
        statement_platforms(bridged(e, generation)) == strs(e.conflicting_platforms@).filter(
            |p: Seq<char>| is_platform(p),
        ),
{
    conflict_platforms(strs(e.conflicting_platforms@), generation);
}

proof fn strong_rules_are_listed(c: Seq<CandidateModel>, platform: Seq<char>, k: int)
    requires
        0 <= k < c.len(),
        c[k].platform == platform,
        c[k].has_strong_leg,
    ensures
        strong_rule_ids(c, platform).contains(c[k].rule_id),
    decreases c.len(),
{
    let ids = strong_rule_ids(c, platform);
    if k == c.len() - 1 {
        assert(ids[ids.len() - 1] == c[k].rule_id);
    } else {
        let rest = c.drop_last();
        strong_rules_are_listed(rest, platform, k);
        let before = strong_rule_ids(rest, platform);
        let i = choose|i: int| 0 <= i < before.len() && before[i] == c[k].rule_id;
        assert(ids[i] == c[k].rule_id);
    }
}

/// A resolved bundle makes one statement, of its platform; the detail names every
/// strong rule that fired for it.
pub proof fn resolved_bundles_state_their_platform(e: ResolutionExplanation, generation: u64)
    requires
        e.outcome == FusionOutcome::Resolved,
        e.resolved_platform matches Some(p) && is_platform(p@),
    ensures
        bridged(e, generation).len() == 1,
        bridged(e, generation)[0].platform == (e.resolved_platform->0)@,
        forall|k: int|
            0 <= k < e.fired_candidates@.len() && (#[trigger] e.fired_candidates@[k]).platform@ == (
            e.resolved_platform->0)@ && e.fired_candidates@[k].has_strong_leg ==> stands_in(
                e.fired_candidates@[k].rule_id@,
                bridged(e, generation)[0].detail,
            ),
{
    let platform = (e.resolved_platform->0)@;
    let c = candidate_models(e.fired_candidates@);
    let ids = strong_rule_ids(c, platform);
    let detail = bridged(e, generation)[0].detail;
    assert forall|k: int|
        0 <= k < e.fired_candidates@.len() && (#[trigger] e.fired_candidates@[k]).platform@
            == platform && e.fired_candidates@[k].has_strong_leg implies stands_in(
        e.fired_candidates@[k].rule_id@,
        detail,
    ) by {
        assert(c[k].platform == platform);
        strong_rules_are_listed(c, platform, k);
        let i = choose|i: int| 0 <= i < ids.len() && ids[i] == c[k].rule_id;
        parts_stand_in_what_they_make(ids, ", "@, i);
        stands_in_parts(
            ids[i],
            joined(ids, ", "@),
            "content evidence fusion resolved this platform from a reviewed strong rule ("@,
            "); evidence trail retained on the originating ResolutionExplanation"@,
        );
    }
}

/// A manual assignment outranks every other source; a DAT and a library outrank
/// inference.
pub open spec fn outranks(a: PlatformIdentitySource, b: PlatformIdentitySource) -> bool {
    ||| a == PlatformIdentitySource::Manual && b != PlatformIdentitySource::Manual
    ||| a == PlatformIdentitySource::VerifiedDat && b == PlatformIdentitySource::Inference
    ||| a == PlatformIdentitySource::RomM && b == PlatformIdentitySource::Inference
}

/// The statement is of the generation, and none of that generation outranks it.
pub open spec fn decides(pool: Seq<StatementModel>, generation: u64, i: int) -> bool {
    &&& 0 <= i < pool.len()
    &&& pool[i].generation == generation
    &&& forall|j: int|
        0 <= j < pool.len() && (#[trigger] pool[j]).generation == generation ==> !outranks(
            pool[j].source,
            pool[i].source,
        )
}

spec fn counts(s: StatementModel, generation: u64, t: int) -> bool {
    s.generation == generation && tier(s.source) == t
}

proof fn in_tier_holds(pool: Seq<StatementModel>, generation: u64, t: int)
    ensures
        forall|s: StatementModel| #[trigger]
            in_tier(pool, generation, t).contains(s) <==> pool.contains(s) && counts(
                s,
                generation,
                t,
            ),
    decreases pool.len(),
{
    if pool.len() > 0 {
        let rest = pool.drop_last();
        let before = in_tier(rest, generation, t);
        let now = in_tier(pool, generation, t);
        let last = pool.last();
        in_tier_holds(rest, generation, t);
        assert forall|s: StatementModel| #[trigger] now.contains(s) <==> pool.contains(s)
            && counts(s, generation, t) by {
            assert(pool.contains(s) <==> rest.contains(s) || s == last) by {
                assert(pool[pool.len() - 1] == last);
                if pool.contains(s) {
                    let i = choose|i: int| 0 <= i < pool.len() && pool[i] == s;
                    if i < rest.len() {
                        assert(rest[i] == s);
                    }
                }
                if rest.contains(s) {
                    let i = choose|i: int| 0 <= i < rest.len() && rest[i] == s;
                    assert(pool[i] == s);
                }
            }
            if counts(last, generation, t) {
                assert(now == before.push(last));
                assert(now[before.len() as int] == last);
                if now.contains(s) {
                    let i = choose|i: int| 0 <= i < now.len() && now[i] == s;
                    if i < before.len() {
                        assert(before[i] == s);
                        assert(before.contains(s));
                    }
                }
                if before.contains(s) {
                    let i = choose|i: int| 0 <= i < before.len() && before[i] == s;
                    assert(now[i] == s);
                }
            }
        }
    }
}

proof fn first_in_tier(pool: Seq<StatementModel>, generation: u64, t: int, k: int)
    requires
        0 <= k < pool.len(),
        counts(pool[k], generation, t),
        forall|i: int| 0 <= i < k ==> !counts(#[trigger] pool[i], generation, t),
    ensures
        in_tier(pool, generation, t).len() > 0,
        in_tier(pool, generation, t)[0] == pool[k],
    decreases pool.len(),
{
    let rest = pool.drop_last();
    let before = in_tier(rest, generation, t);
    in_tier_holds(rest, generation, t);
    if k == pool.len() - 1 {
        if before.len() > 0 {
            assert(before.contains(before[0]));
            let i = choose|i: int| 0 <= i < rest.len() && rest[i] == before[0];
            assert(!counts(pool[i], generation, t));
        }
    } else {
        assert forall|i: int| 0 <= i < k implies !counts(#[trigger] rest[i], generation, t) by {
            assert(rest[i] == pool[i]);
        }
        first_in_tier(rest, generation, t, k);
    }
}

/// Some deciding statement names the platform.
pub open spec fn is_decided(pool: Seq<StatementModel>, generation: u64, p: Seq<char>) -> bool {
    exists|i: int| #[trigger] decides(pool, generation, i) && pool[i].platform == p
}

proof fn deciding_tier(pool: Seq<StatementModel>, generation: u64, t: int)
    requires
        0 <= t <= 2,
        in_tier(pool, generation, t).len() > 0,
        forall|u: int| 0 <= u < t ==> (#[trigger] in_tier(pool, generation, u)).len() == 0,
    ensures
        forall|i: int| #[trigger]
            decides(pool, generation, i) <==> 0 <= i < pool.len() && counts(
                pool[i],
                generation,
                t,
            ),
        resolution(generation, pool) == settled(in_tier(pool, generation, t)),
{
    let live = in_tier(pool, generation, t);
    in_tier_holds(pool, generation, 0);
    in_tier_holds(pool, generation, 1);
    in_tier_holds(pool, generation, 2);
    assert(live.contains(live[0]));
    let w = choose|w: int| 0 <= w < pool.len() && pool[w] == live[0];
    assert forall|i: int|
        0 <= i < pool.len() && (#[trigger] pool[i]).generation == generation implies tier(
        pool[i].source,
    ) >= t by {
        let u = tier(pool[i].source);
        assert(pool.contains(pool[i]));
        assert(counts(pool[i], generation, u));
        assert(in_tier(pool, generation, u).contains(pool[i]));
        if u < t {
            assert(in_tier(pool, generation, u).len() == 0);
        }
    }
    assert(t > 0 ==> in_tier(pool, generation, 0).len() == 0);
    assert(t > 1 ==> in_tier(pool, generation, 1).len() == 0);
    assert forall|i: int| #[trigger] decides(pool, generation, i) <==> 0 <= i < pool.len()
        && counts(pool[i], generation, t) by {
        if decides(pool, generation, i) {
            assert(!outranks(pool[w].source, pool[i].source));
        }
    }
}

/// Statements of other generations never count. Those that nothing outranks
/// decide: one platform among them is settled, with the confidence of the first;
/// several are a conflict that names each once, in order.
pub proof fn the_strongest_source_decides(generation: u64, pool: Seq<StatementModel>)
    ensures
        match resolution(generation, pool) {
            ResolutionModel::Unknown => forall|i: int|
                0 <= i < pool.len() ==> (#[trigger] pool[i]).generation != generation,
            ResolutionModel::Resolved(platform, confidence) => {
                &&& is_decided(pool, generation, platform)
                &&& forall|i: int| #[trigger]
                    decides(pool, generation, i) ==> pool[i].platform == platform
                &&& forall|i: int| #[trigger]
                    decides(pool, generation, i) && (forall|j: int|
                        0 <= j < i ==> !#[trigger] decides(pool, generation, j))
                        ==> pool[i].confidence == confidence
            },
            ResolutionModel::Conflict(platforms) => {
                &&& platforms.len() >= 2
                &&& strictly_ascending(platforms)
                &&& forall|p: Seq<char>| #[trigger]
                    platforms.contains(p) <==> is_decided(pool, generation, p)
            },
        },
        resolution(generation, pool) is Unknown <==> forall|i: int|
            0 <= i < pool.len() ==> (#[trigger] pool[i]).generation != generation,
{
    in_tier_holds(pool, generation, 0);
    in_tier_holds(pool, generation, 1);
    in_tier_holds(pool, generation, 2);
    if resolution(generation, pool) is Unknown {
        assert forall|i: int| 0 <= i < pool.len() implies (#[trigger] pool[i]).generation
            != generation by {
            if pool[i].generation == generation {
                let u = tier(pool[i].source);
                assert(pool.contains(pool[i]));
                assert(counts(pool[i], generation, u));
                assert(in_tier(pool, generation, u).contains(pool[i]));
                assert(in_tier(pool, generation, u).len() > 0);
            }
        }
    }
    let t: int = if in_tier(pool, generation, 0).len() > 0 {
        0
    } else if in_tier(pool, generation, 1).len() > 0 {
        1
    } else {
        2
    };
    let live = in_tier(pool, generation, t);
    if live.len() > 0 {
        deciding_tier(pool, generation, t);
        assert(live.contains(live[0]));
        let named = statement_platforms(live);
        let ids = ascending(named);
        ascending_props(named);
        assert(named[0] == live[0].platform);
        assert(named.contains(named[0]));
        assert(ids.contains(named[0]));
        assert forall|p: Seq<char>| #[trigger] ids.contains(p) <==> is_decided(
            pool,
            generation,
            p,
        ) by {
            assert(ids.contains(p) <==> named.contains(p));
            if named.contains(p) {
                let k = choose|k: int| 0 <= k < named.len() && named[k] == p;
                assert(live.contains(live[k]));
                let i = choose|i: int| 0 <= i < pool.len() && pool[i] == live[k];
                assert(decides(pool, generation, i));
            }
            if is_decided(pool, generation, p) {
                let i = choose|i: int| #[trigger]
                    decides(pool, generation, i) && pool[i].platform == p;
                assert(pool.contains(pool[i]));
                assert(live.contains(pool[i]));
                let k = choose|k: int| 0 <= k < live.len() && live[k] == pool[i];
                assert(named[k] == p);
            }
        }
        if ids.len() == 1 {
            let platform = ids[0];
            assert(ids.contains(ids[0]));
            assert forall|i: int| #[trigger] decides(pool, generation, i) implies pool[i].platform
                == platform by {
                assert(is_decided(pool, generation, pool[i].platform));
                assert(ids.contains(pool[i].platform));
            }
            assert forall|i: int| #[trigger] decides(pool, generation, i) && (forall|j: int|
                0 <= j < i ==> !#[trigger] decides(pool, generation, j)) implies pool[i].confidence
                == live[0].confidence by {
                assert forall|j: int| 0 <= j < i implies !counts(
                    #[trigger] pool[j],
                    generation,
                    t,
                ) by {
                    assert(!decides(pool, generation, j));
                }
                first_in_tier(pool, generation, t, i);
            }
        }
        let w = choose|w: int| 0 <= w < pool.len() && pool[w] == live[0];
        assert(pool[w].generation == generation);
    }
}

/// The platform a bundle resolves to is the one its explanation names.
pub proof fn resolved_ids_are_what_fusion_resolves(
    evidence: Seq<crate::content_evidence::ContentEvidence>,
    e: ResolutionExplanation,
)
    requires
        explains(e, rule_table(), evidence),
    ensures
        resolved_id(crate::content_evidence::facts(evidence)) == opt_id(e.resolved_platform),
{
}

/// The member resolves a platform.
pub open spec fn resolves(m: (usize, Seq<Fact>)) -> bool {
    resolved_id(m.1) is Some
}

/// The members that resolve a platform.
pub open spec fn resolving(members: Seq<(usize, Seq<Fact>)>) -> Seq<(usize, Seq<Fact>)> {
    members.filter(|m: (usize, Seq<Fact>)| resolves(m))
}

proof fn resolved_members_are_resolving(members: Seq<(usize, Seq<Fact>)>)
    ensures
        resolved_members(members) == resolving(members).map_values(
            |m: (usize, Seq<Fact>)| (m.0, resolved_id(m.1)->0),
        ),
        forall|i: int|
            0 <= i < resolving(members).len() ==> resolves(#[trigger] resolving(members)[i]),
    decreases members.len(),
{
    reveal(Seq::filter);
    let named = |m: (usize, Seq<Fact>)| (m.0, resolved_id(m.1)->0);
    if members.len() > 0 {
        let rest = members.drop_last();
        resolved_members_are_resolving(rest);
        if resolves(members.last()) {
            assert(resolving(members) == resolving(rest).push(members.last()));
            assert(resolving(members).map_values(named) =~= resolving(rest).map_values(named).push(
                named(members.last()),
            ));
            assert forall|i: int| 0 <= i < resolving(members).len() implies resolves(
                #[trigger] resolving(members)[i],
            ) by {
                if i < resolving(rest).len() {
                    assert(resolves(resolving(rest)[i]));
                }
            }
        } else {
            assert(resolving(members) == resolving(rest));
        }
    } else {
        assert(resolving(members) =~= seq![]);
        assert(resolved_members(members) =~= resolving(members).map_values(named));
    }
}

/// The indices of members.
pub open spec fn numbers(members: Seq<(usize, Seq<Fact>)>) -> Seq<usize> {
    members.map_values(|m: (usize, Seq<Fact>)| m.0)
}

/// The indices are those of the members, in ascending order.
pub open spec fn lists(indices: Seq<usize>, members: Seq<(usize, Seq<Fact>)>) -> bool {
    &&& indices.to_multiset() == numbers(members).to_multiset()
    &&& forall|i: int, j: int|
        0 <= i < j < indices.len() ==> #[trigger] indices[i] <= #[trigger] indices[j]
}

/// Some listed platform is the member's machine.
pub open spec fn is_named(platforms: Seq<Seq<char>>, m: (usize, Seq<Fact>)) -> bool {
    exists|k: int|
        0 <= k < platforms.len() && equivalent(#[trigger] platforms[k], resolved_id(m.1)->0)
}

/// Some member resolves the platform.
pub open spec fn is_resolved(members: Seq<(usize, Seq<Fact>)>, p: Seq<char>) -> bool {
    exists|i: int| 0 <= i < members.len() && resolved_id((#[trigger] members[i]).1) == Some(p)
}

/// All members resolve to one machine.
pub open spec fn one_machine(members: Seq<(usize, Seq<Fact>)>) -> bool {
    forall|i: int, j: int|
        0 <= i < members.len() && 0 <= j < members.len() ==> equivalent(
            resolved_id((#[trigger] members[i]).1)->0,
            resolved_id((#[trigger] members[j]).1)->0,
        )
}

spec fn covers(platforms: Seq<Seq<char>>, id: Seq<char>) -> bool {
    exists|k: int| 0 <= k < platforms.len() && equivalent(#[trigger] platforms[k], id)
}

proof fn one_group_is_one_machine(ids: Seq<Seq<char>>)
    requires
        equivalence_groups(ids).len() == 1,
    ensures
        forall|i: int, j: int|
            0 <= i < ids.len() && 0 <= j < ids.len() ==> equivalent(
                #[trigger] ids[i],
                #[trigger] ids[j],
            ),
        ids.contains(equivalence_groups(ids)[0][0]),
        forall|i: int|
            0 <= i < ids.len() ==> text_le(equivalence_groups(ids)[0][0], #[trigger] ids[i]),
{
    let sorted = ascending(ids);
    let groups = equivalence_groups(ids);
    let h = groups[0][0];
    ascending_props(ids);
    grouping_is_well(sorted);
    assert(sorted.contains(h));
    assert forall|i: int| 0 <= i < ids.len() implies equivalent(h, #[trigger] ids[i]) && text_le(
        h,
        ids[i],
    ) by {
        assert(ids.contains(ids[i]));
        assert(sorted.contains(ids[i]));
        let k = choose|k: int| 0 <= k < sorted.len() && sorted[k] == ids[i];
        assert(has_head(groups, sorted[k]));
        if k > 0 {
            assert(text_lt(sorted[0], sorted[k]));
        } else {
            crate::text::text_le_reflexive(h);
        }
    }
}

proof fn several_groups_are_several_machines(ids: Seq<Seq<char>>)
    requires
        equivalence_groups(ids).len() != 1,
        ids.len() > 0,
    ensures
        exists|i: int, j: int|
            0 <= i < ids.len() && 0 <= j < ids.len() && !equivalent(
                #[trigger] ids[i],
                #[trigger] ids[j],
            ),
        strictly_ascending(ascending(heads(equivalence_groups(ids)))),
        forall|k: int|
            0 <= k < ascending(heads(equivalence_groups(ids))).len() ==> ids.contains(
                #[trigger] ascending(heads(equivalence_groups(ids)))[k],
            ),
        forall|k: int, l: int|
            0 <= k < l < ascending(heads(equivalence_groups(ids))).len() ==> !equivalent(
                #[trigger] ascending(heads(equivalence_groups(ids)))[k],
                #[trigger] ascending(heads(equivalence_groups(ids)))[l],
            ),
        forall|i: int|
            0 <= i < ids.len() ==> covers(
                ascending(heads(equivalence_groups(ids))),
                #[trigger] ids[i],
            ),
{
    let sorted = ascending(ids);
    let groups = equivalence_groups(ids);
    let named = heads(groups);
    let platforms = ascending(named);
    ascending_props(ids);
    grouping_is_well(sorted);
    ascending_props(named);
    assert(ids.contains(ids[0]));
    assert(sorted.contains(ids[0]));
    assert(groups.len() >= 2);
    assert(sorted.contains(groups[0][0]) && sorted.contains(groups[1][0]));
    assert(ids.contains(groups[0][0]) && ids.contains(groups[1][0]));
    let a = choose|i: int| 0 <= i < ids.len() && ids[i] == groups[0][0];
    let b = choose|i: int| 0 <= i < ids.len() && ids[i] == groups[1][0];
    assert(!equivalent(ids[a], ids[b]));
    assert forall|k: int| 0 <= k < platforms.len() implies ids.contains(
        #[trigger] platforms[k],
    ) by {
        assert(platforms.contains(platforms[k]));
        let g = choose|g: int| 0 <= g < named.len() && named[g] == platforms[k];
        assert(groups[g][0] == platforms[k]);
        assert(sorted.contains(groups[g][0]));
    }
    assert forall|k: int, l: int| 0 <= k < l < platforms.len() implies !equivalent(
        #[trigger] platforms[k],
        #[trigger] platforms[l],
    ) by {
        assert(platforms.contains(platforms[k]) && platforms.contains(platforms[l]));
        let g = choose|g: int| 0 <= g < named.len() && named[g] == platforms[k];
        let h = choose|h: int| 0 <= h < named.len() && named[h] == platforms[l];
        assert(groups[g][0] == platforms[k] && groups[h][0] == platforms[l]);
        assert(text_lt(platforms[k], platforms[l]));
        if g < h {
            assert(!equivalent(groups[g][0], groups[h][0]));
        } else if h < g {
            assert(!equivalent(groups[h][0], groups[g][0]));
        }
    }
    assert forall|i: int| 0 <= i < ids.len() implies covers(platforms, #[trigger] ids[i]) by {
        assert(ids.contains(ids[i]));
        assert(sorted.contains(ids[i]));
        let k = choose|k: int| 0 <= k < sorted.len() && sorted[k] == ids[i];
        assert(has_head(groups, sorted[k]));
        let g = choose|g: int|
            0 <= g < groups.len() && equivalent((#[trigger] groups[g])[0], sorted[k]);
        assert(named[g] == groups[g][0]);
        assert(named.contains(named[g]));
        assert(platforms.contains(named[g]));
        let l = choose|l: int| 0 <= l < platforms.len() && platforms[l] == named[g];
        assert(equivalent(platforms[l], ids[i]));
    }
}

/// An archive is what the members that resolve a platform make it: none, one,
/// several of one machine, or several of different machines. Their indices come
/// in order, and every machine is named once.
pub proof fn archives_are_what_their_members_resolve(members: Seq<(usize, Seq<Fact>)>)
    ensures
        ({
            let found = resolving(members);
            match set_of(members) {
                SetModel::Unknown => found.len() == 0,
                SetModel::SingleMember(index, platform) => found.len() == 1 && index == found[0].0
                    && resolved_id(found[0].1) == Some(platform),
                SetModel::MultiMemberSamePlatform(indices, platform) => {
                    &&& found.len() >= 2
                    &&& one_machine(found)
                    &&& lists(indices, found)
                    &&& is_resolved(found, platform)
                    &&& forall|i: int|
                        0 <= i < found.len() ==> text_le(
                            platform,
                            resolved_id((#[trigger] found[i]).1)->0,
                        )
                },
                SetModel::MultiPlatform(indices, platforms) => {
                    &&& found.len() >= 2
                    &&& !one_machine(found)
                    &&& lists(indices, found)
                    &&& strictly_ascending(platforms)
                    &&& forall|k: int|
                        0 <= k < platforms.len() ==> is_resolved(found, #[trigger] platforms[k])
                    &&& forall|k: int, l: int|
                        0 <= k < l < platforms.len() ==> !equivalent(
                            #[trigger] platforms[k],
                            #[trigger] platforms[l],
                        )
                    &&& forall|i: int|
                        0 <= i < found.len() ==> is_named(platforms, #[trigger] found[i])
                },
                SetModel::StructuredSet(..) => false,
            }
        }),
{
    let found = resolving(members);
    let resolved = resolved_members(members);
    resolved_members_are_resolving(members);
    assert(resolved.len() == found.len());
    assert forall|i: int| 0 <= i < found.len() implies (#[trigger] resolved[i]).0 == found[i].0
        && resolved_id(found[i].1) == Some(resolved[i].1) by {
        assert(resolves(found[i]));
    }
    if found.len() >= 2 {
        let ids = member_platforms(resolved);
        assert(ids.len() == found.len());
        assert forall|i: int| 0 <= i < found.len() implies resolved_id((#[trigger] found[i]).1)
            == Some(ids[i]) by {
            assert(ids[i] == resolved[i].1);
        }
        assert forall|p: Seq<char>| #[trigger] ids.contains(p) implies is_resolved(found, p) by {
            let i = choose|i: int| 0 <= i < ids.len() && ids[i] == p;
            assert(resolved_id(found[i].1) == Some(p));
        }
        let raw = resolved.map_values(|m: (usize, Seq<char>)| m.0);
        assert(raw =~= numbers(found));
        stable_sorted_props(raw, index_order());
        let indices = sorted_indices(resolved);
        assert forall|i: int, j: int| 0 <= i < j < indices.len() implies #[trigger] indices[i]
            <= #[trigger] indices[j] by {
            assert(index_order()(indices[i], indices[j]));
        }
        assert(lists(indices, found));
        if equivalence_groups(ids).len() == 1 {
            one_group_is_one_machine(ids);
        } else {
            several_groups_are_several_machines(ids);
            let platforms = ascending(heads(equivalence_groups(ids)));
            let (a, b) = choose|i: int, j: int|
                0 <= i < ids.len() && 0 <= j < ids.len() && !equivalent(
                    #[trigger] ids[i],
                    #[trigger] ids[j],
                );
            assert(!equivalent(resolved_id(found[a].1)->0, resolved_id(found[b].1)->0));
            assert forall|i: int| 0 <= i < found.len() implies is_named(
                platforms,
                #[trigger] found[i],
            ) by {
                assert(covers(platforms, ids[i]));
            }
        }
    }
}

} // verus!
