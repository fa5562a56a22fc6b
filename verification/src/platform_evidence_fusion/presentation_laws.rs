//! What is shown of an identity and of a plan.
use vstd::prelude::*;
use vstd::string::*;
use crate::dat::audit::{verdict_debug, AuditVerdict};
use crate::dat::identity::{identity_debug, DatPlatformIdentity};
use crate::dat::rom_organisation::OrganisationMode;
use crate::platform::{is_platform, opt_id, strs};
use crate::platform_evidence_fusion::archive_set_identity::ArchiveSetIdentity;
use crate::platform_evidence_fusion::combined_identity::IdentityRelationship;
use crate::platform_evidence_fusion::dat_hash_representation::RepresentationMatchOutcome;
use crate::platform_evidence_fusion::identity_orchestrator::IdentityResult;
use crate::platform_evidence_fusion::identity_presentation::{
    candidate_platforms, dat_platforms, identity_text, indented, presents, rows_text, status_of,
    IdentityPresentation, IdentityStatus,
};
use crate::platform_evidence_fusion::library_plan_export::{
    exports, LibraryPlanExportItem, OperationIntent,
};
use crate::platform_evidence_fusion::library_plan_presentation::{
    association_line, plan_blockers, plan_text, presents_plan, row_section, set_debug,
    without_repeats, LibraryPlanPresentation,
};
use crate::platform_evidence_fusion::library_planning::{
    settled_id, LibraryItemPlan, PlanStatus, RenameBasis, RommMappingStatus,
};
use crate::platform_evidence_fusion::plan_transaction::PlanTransactionError;
use crate::platform_evidence_fusion::release_relationship::ReleaseRelationship;
use crate::platform_evidence_fusion::support_attachment::AssociationModel;
use crate::platform_evidence_fusion::FusionOutcome;
use crate::text::{decimal, joined, opt_view, views};
use crate::text_laws::{amid, parts_stand_in_what_they_make, stands_in, stands_in_parts};

verus! {

/// Something about the file contradicts something else about it.
pub open spec fn is_contradicted(result: IdentityResult) -> bool {
    ||| result.content.outcome == FusionOutcome::Conflict
    ||| (result.combined matches Some(view) && view.relationship is Disagree)
    ||| result.representation_match matches Some(RepresentationMatchOutcome::Disagree { .. })
    ||| result.set_identity matches Some(ArchiveSetIdentity::MultiPlatform { .. })
}

/// Content or DAT leaves several platforms open.
pub open spec fn is_open(result: IdentityResult) -> bool {
    ||| result.content.outcome == FusionOutcome::Ambiguous
    ||| result.dat matches Some(DatPlatformIdentity::Ambiguous { .. })
}

/// Content and DAT agree.
pub open spec fn is_agreed(result: IdentityResult) -> bool {
    result.combined matches Some(view) && view.relationship is Agree
}

/// The verdict rests on a cryptographic hash.
pub open spec fn is_by_hash(verdict: AuditVerdict) -> bool {
    match verdict {
        AuditVerdict::Exact { .. } => true,
        AuditVerdict::ExactMultipleCandidates { .. } => true,
        AuditVerdict::Probable { .. } => false,
        AuditVerdict::NotFound => false,
    }
}

/// A hash of the file is in the DAT.
pub open spec fn is_found(result: IdentityResult) -> bool {
    match result.representation_match {
        Some(RepresentationMatchOutcome::PhysicalOnly { verdict }) => is_by_hash(verdict),
        Some(RepresentationMatchOutcome::NormalizedOnly { verdict }) => is_by_hash(verdict),
        Some(RepresentationMatchOutcome::BothAgree { verdict, .. }) => is_by_hash(verdict),
        Some(RepresentationMatchOutcome::Disagree { .. }) => false,
        Some(RepresentationMatchOutcome::NoMatch) => false,
        None => false,
    }
}

/// A contradiction is reported whatever else was found, then what is left open.
/// Only after them counts what agrees, what a hash says, and what one lane alone
/// settled.
pub proof fn statuses_report_the_gravest_finding(result: IdentityResult)
    ensures
        status_of(result) == IdentityStatus::Conflict <==> is_contradicted(result),
        status_of(result) == IdentityStatus::Ambiguous <==> !is_contradicted(result) && is_open(
            result,
        ),
        status_of(result) == IdentityStatus::ContentAndDatAgree <==> !is_contradicted(result)
            && !is_open(result) && is_agreed(result),
        status_of(result) == IdentityStatus::VerifiedByDat <==> !is_contradicted(result)
            && !is_open(result) && !is_agreed(result) && is_found(result),
        status_of(result) == IdentityStatus::ContentOnly <==> !is_contradicted(result) && !is_open(
            result,
        ) && !is_agreed(result) && !is_found(result) && result.content.outcome
            == FusionOutcome::Resolved,
        status_of(result) == IdentityStatus::DatOnly <==> !is_contradicted(result) && !is_open(
            result,
        ) && !is_agreed(result) && !is_found(result) && result.content.outcome
            == FusionOutcome::Unknown && (result.dat matches Some(
            DatPlatformIdentity::Resolved { .. },
        )),
        status_of(result) == IdentityStatus::Unknown <==> !is_contradicted(result) && !is_open(
            result,
        ) && !is_agreed(result) && !is_found(result) && result.content.outcome
            == FusionOutcome::Unknown && !(result.dat matches Some(
            DatPlatformIdentity::Resolved { .. },
        )),
{
}

/// A file has a settled platform when nothing is contradicted or open: the one
/// its content names, and only without that the registered one its DAT names.
pub proof fn platforms_are_settled_by_content_before_dat(result: IdentityResult, p: Seq<char>)
    ensures
        settled_id(result) == Some(p) <==> !is_contradicted(result) && !is_open(result) && (
        match result.content.resolved_platform {
            Some(platform) => platform@ == p,
            None => result.dat matches Some(DatPlatformIdentity::Resolved { platform, .. })
                && platform@ == p && is_platform(p),
        }),
{
}

/// Every text of the list stands in the line.
pub open spec fn names_all(line: Seq<char>, texts: Seq<Seq<char>>) -> bool {
    forall|i: int| 0 <= i < texts.len() ==> stands_in(#[trigger] texts[i], line)
}

proof fn lists_name_all(before: Seq<char>, texts: Seq<Seq<char>>, after: Seq<char>)
    ensures
        names_all(before + joined(texts, ", "@) + after, texts),
{
    assert forall|i: int| 0 <= i < texts.len() implies stands_in(
        #[trigger] texts[i],
        before + joined(texts, ", "@) + after,
    ) by {
        parts_stand_in_what_they_make(texts, ", "@, i);
        stands_in_parts(texts[i], joined(texts, ", "@), before, after);
    }
}

/// The content line gives the platform that is resolved, or every one that is
/// suggested or in conflict; the DAT line the platform the DAT names, or every
/// candidate.
pub proof fn lane_lines_name_their_platforms(p: IdentityPresentation, result: IdentityResult)
    requires
        presents(p, result),
    ensures
        match result.content.outcome {
            FusionOutcome::Resolved => result.content.resolved_platform matches Some(platform)
                ==> p.content_summary@ == "Resolved: "@ + platform@,
            FusionOutcome::Ambiguous => names_all(
                p.content_summary@,
                candidate_platforms(result.content.fired_candidates@),
            ) && stands_in("Ambiguous (candidates: "@, p.content_summary@),
            FusionOutcome::Conflict => names_all(
                p.content_summary@,
                strs(result.content.conflicting_platforms@),
            ) && stands_in("Conflict among: "@, p.content_summary@),
            FusionOutcome::Unknown => p.content_summary@
                == "No content evidence resolved a platform"@,
        },
        match result.dat {
            None => p.dat_summary@ == "No DAT consulted"@,
            Some(DatPlatformIdentity::Unknown) => p.dat_summary@ == "DAT: no opinion"@,
            Some(DatPlatformIdentity::Resolved { platform, .. }) => p.dat_summary@ == "DAT: "@
                + platform@,
            Some(DatPlatformIdentity::Ambiguous { candidates }) => names_all(
                p.dat_summary@,
                dat_platforms(candidates@),
            ) && stands_in("DAT: ambiguous ("@, p.dat_summary@),
        },
{
    let empty = Seq::<char>::empty();
    if result.content.outcome == FusionOutcome::Ambiguous {
        let names = candidate_platforms(result.content.fired_candidates@);
        lists_name_all("Ambiguous (candidates: "@, names, ")"@);
        assert(p.content_summary@ =~= amid(
            empty,
            "Ambiguous (candidates: "@,
            joined(names, ", "@) + ")"@,
        ));
    }
    if result.content.outcome == FusionOutcome::Conflict {
        let names = strs(result.content.conflicting_platforms@);
        lists_name_all("Conflict among: "@, names, empty);
        assert(p.content_summary@ =~= "Conflict among: "@ + joined(names, ", "@) + empty);
        assert(p.content_summary@ =~= amid(empty, "Conflict among: "@, joined(names, ", "@)));
    }
    if let Some(DatPlatformIdentity::Ambiguous { candidates }) = result.dat {
        let names = dat_platforms(candidates@);
        lists_name_all("DAT: ambiguous ("@, names, ")"@);
        assert(p.dat_summary@ =~= amid(empty, "DAT: ambiguous ("@, joined(names, ", "@) + ")"@));
    }
}

/// The verdict's name.
pub open spec fn verdict_name(verdict: AuditVerdict) -> Seq<char> {
    match verdict {
        AuditVerdict::Exact { .. } => "Exact"@,
        AuditVerdict::ExactMultipleCandidates { .. } => "Exact (multiple candidates)"@,
        AuditVerdict::Probable { .. } => "Probable"@,
        AuditVerdict::NotFound => "Not found"@,
    }
}

/// The hash line says which bytes matched and how well; the set line what the
/// archive holds.
pub proof fn hash_and_set_lines_say_what_matched(p: IdentityPresentation, result: IdentityResult)
    requires
        presents(p, result),
    ensures
        p.representation_summary@ == match result.representation_match {
            None => "No hash representation compared"@,
            Some(RepresentationMatchOutcome::NoMatch) => "No DAT hash match"@,
            Some(RepresentationMatchOutcome::PhysicalOnly { verdict }) => {
                "Matched physical bytes ("@ + verdict_name(verdict) + ")"@
            },
            Some(RepresentationMatchOutcome::NormalizedOnly { verdict }) => {
                "Matched after normalization ("@ + verdict_name(verdict) + ")"@
            },
            Some(RepresentationMatchOutcome::BothAgree { verdict, identical_bytes: true }) => {
                "Matched physical bytes (already canonical, "@ + verdict_name(verdict) + ")"@
            },
            Some(RepresentationMatchOutcome::BothAgree { verdict, .. }) => {
                "Matched both physical and normalized representations ("@ + verdict_name(verdict)
                    + ")"@
            },
            Some(RepresentationMatchOutcome::Disagree { .. }) => {
                "Physical and normalized representations matched different DAT identities"@
            },
        },
        match result.set_identity {
            None => p.set_summary@ == "Not an archive"@,
            Some(ArchiveSetIdentity::Unknown) => p.set_summary@ == "No member resolved a platform"@,
            Some(ArchiveSetIdentity::SingleMember { platform, .. }) => p.set_summary@
                == "Single member ("@ + platform@ + ")"@,
            Some(ArchiveSetIdentity::MultiMemberSamePlatform { platform, member_indices }) => {
                p.set_summary@ == "Multi-member, same platform ("@ + platform@ + ", "@ + decimal(
                    member_indices@.len(),
                ) + " members)"@
            },
            Some(ArchiveSetIdentity::MultiPlatform { platforms, .. }) => names_all(
                p.set_summary@,
                strs(platforms@),
            ),
            Some(ArchiveSetIdentity::StructuredSet { platform, .. }) => p.set_summary@
                == "Structured set ("@ + platform@ + ")"@,
        },
{
    if let Some(ArchiveSetIdentity::MultiPlatform { platforms, .. }) = result.set_identity {
        lists_name_all("Multi-platform archive ("@, strs(platforms@), ")"@);
    }
}

/// Whether a finding counts as one row.
pub open spec fn one_if(b: bool) -> int {
    if b {
        1
    } else {
        0
    }
}

/// Every content fact has a row, with its kind and value, and so has the DAT.
/// Every contradiction between lanes, hashes or members has a row that names both
/// sides.
pub proof fn rows_show_all_evidence_and_contradictions(
    p: IdentityPresentation,
    result: IdentityResult,
)
    requires
        presents(p, result),
    ensures
        p.provenance_rows@.len() == result.content.input_evidence@.len() + one_if(
            result.dat is Some,
        ),
        forall|i: int|
            0 <= i < result.content.input_evidence@.len() ==> (#[trigger] p.provenance_rows@[i]).0@
                == "content"@ && p.provenance_rows@[i].1@
                == result.content.input_evidence@[i].kind.name_text() + " = "@
                + result.content.input_evidence@[i].value@,
        result.dat matches Some(dat) ==> p.provenance_rows@.last().0@ == "dat"@
            && p.provenance_rows@.last().1@ == identity_debug(dat),
        p.conflict_rows@.len() == one_if(
            result.combined matches Some(view) && view.relationship is Disagree,
        ) + one_if(
            result.representation_match matches Some(RepresentationMatchOutcome::Disagree { .. }),
        ) + one_if(
            result.set_identity matches Some(ArchiveSetIdentity::MultiPlatform { .. }),
        ),
        result.combined matches Some(view) ==> (view.relationship matches
            IdentityRelationship::Disagree { content_platform, dat_platform }
            ==> p.conflict_rows@[0]@ == "Content says "@ + content_platform@ + ", DAT says "@
            + dat_platform@),
        result.set_identity matches Some(ArchiveSetIdentity::MultiPlatform { platforms, .. })
            ==> names_all(p.conflict_rows@.last()@, strs(platforms@)),
        result.representation_match matches Some(
            RepresentationMatchOutcome::Disagree { physical_verdict, normalized_verdict },
        ) ==> exists|i: int|
            0 <= i < p.conflict_rows@.len() && (#[trigger] p.conflict_rows@[i])@
                == "Physical hash matched "@ + verdict_debug(physical_verdict)
                + ", normalized hash matched "@ + verdict_debug(normalized_verdict),
{
    let rows = rows_text(p.provenance_rows@);
    assert(rows.len() == p.provenance_rows@.len());
    assert forall|i: int| 0 <= i < result.content.input_evidence@.len() implies (
    #[trigger] p.provenance_rows@[i]).0@ == "content"@ && p.provenance_rows@[i].1@
        == result.content.input_evidence@[i].kind.name_text() + " = "@
        + result.content.input_evidence@[i].value@ by {
        assert(rows[i] == (p.provenance_rows@[i].0@, p.provenance_rows@[i].1@));
    }
    if result.dat is Some {
        let last = rows.len() - 1;
        assert(rows[last] == (p.provenance_rows@[last].0@, p.provenance_rows@[last].1@));
    }
    let shown = views(p.conflict_rows@);
    assert(shown.len() == p.conflict_rows@.len());
    let first = one_if(result.combined matches Some(view) && view.relationship is Disagree);
    if let Some(view) = result.combined {
        if view.relationship is Disagree {
            assert(shown[0] == p.conflict_rows@[0]@);
        }
    }
    if let Some(RepresentationMatchOutcome::Disagree { .. }) = result.representation_match {
        assert(shown[first] == p.conflict_rows@[first]@);
    }
    if let Some(ArchiveSetIdentity::MultiPlatform { platforms, .. }) = result.set_identity {
        let empty = Seq::<char>::empty();
        let names = strs(platforms@);
        let last = shown.len() - 1;
        assert(shown[last] == p.conflict_rows@[last]@);
        lists_name_all("Archive contains: "@, names, empty);
        assert("Archive contains: "@ + joined(names, ", "@) + empty =~= "Archive contains: "@
            + joined(names, ", "@));
    }
}

/// A presentation names one platform, the content's before the DAT's, and never
/// reports a change to the file.
pub proof fn presentations_change_nothing(p: IdentityPresentation, result: IdentityResult)
    requires
        presents(p, result),
    ensures
        p.status == status_of(result),
        opt_id(p.platform) == match result.content.resolved_platform {
            Some(platform) => Some(platform@),
            None => match result.dat {
                Some(DatPlatformIdentity::Resolved { platform, .. }) => if is_platform(platform@) {
                    Some(platform@)
                } else {
                    None
                },
                _ => None,
            },
        },
        p.headline == p.platform,
        p.caveats@ == result.caveats@,
        !p.source_modified,
{
}

/// Rows are written one to a line, each indented by two spaces.
pub proof fn rows_are_written_line_by_line(rows: Seq<Seq<char>>, row: Seq<char>)
    ensures
        indented(Seq::<Seq<char>>::empty()).len() == 0,
        indented(rows.push(row)) == indented(rows) + "  "@ + row + "\n"@,
{
    assert(rows.push(row).drop_last() =~= rows);
}

/// A headed line of a rendered identity.
pub open spec fn item(head: Seq<char>, value: Seq<char>) -> Seq<char> {
    head + ":\n  "@ + value + "\n"@
}

/// A headed paragraph of a rendered plan.
pub open spec fn paragraph(head: Seq<char>, value: Seq<char>) -> Seq<char> {
    "\n"@ + head + ":\n  "@ + value + "\n"@
}

/// A headed list of a rendering, absent without rows.
pub open spec fn listed(head: Seq<char>, rows: Seq<Seq<char>>, foot: Seq<char>) -> Seq<char> {
    if rows.len() == 0 {
        Seq::empty()
    } else {
        "\n"@ + head + ":\n"@ + indented(rows) + foot
    }
}

/// A rendered identity shows the platform and status, one line for each lane,
/// every conflict without a winner, every caveat, and whether the file changed.
pub proof fn rendered_identities_show_every_lane(p: IdentityPresentation)
    ensures
        identity_text(p) == (match p.platform {
            Some(platform) => platform@,
            None => "Unknown platform"@,
        }) + "\n"@ + p.status.label_text() + "\n\n"@ + item("Content"@, p.content_summary@) + item(
            "DAT"@,
            p.dat_summary@,
        ) + item("Representation"@, p.representation_summary@) + item(
            "Set identity"@,
            p.set_summary@,
        ) + listed("Conflicts"@, views(p.conflict_rows@), "EmuWiz did not choose a winner.\n"@)
            + listed("Caveats"@, strs(p.caveats@), Seq::empty()) + "\nSource modified: "@ + (
        if p.source_modified {
            "Yes"@
        } else {
            "No"@
        }) + "\n"@,
{
    reveal_strlit("\n");
    reveal_strlit(":\n");
    reveal_strlit(":\n  ");
    reveal_strlit("Content");
    reveal_strlit("Content:\n  ");
    reveal_strlit("DAT");
    reveal_strlit("DAT:\n  ");
    reveal_strlit("Representation");
    reveal_strlit("Representation:\n  ");
    reveal_strlit("Set identity");
    reveal_strlit("Set identity:\n  ");
    reveal_strlit("Conflicts");
    reveal_strlit("\nConflicts:\n");
    reveal_strlit("Caveats");
    reveal_strlit("\nCaveats:\n");
    assert("Content:\n  "@ =~= "Content"@ + ":\n  "@);
    assert("DAT:\n  "@ =~= "DAT"@ + ":\n  "@);
    assert("Representation:\n  "@ =~= "Representation"@ + ":\n  "@);
    assert("Set identity:\n  "@ =~= "Set identity"@ + ":\n  "@);
    assert("\nConflicts:\n"@ =~= "\n"@ + "Conflicts"@ + ":\n"@);
    assert("\nCaveats:\n"@ =~= "\n"@ + "Caveats"@ + ":\n"@);
    assert(identity_text(p) =~= (match p.platform {
        Some(platform) => platform@,
        None => "Unknown platform"@,
    }) + "\n"@ + p.status.label_text() + "\n\n"@ + item("Content"@, p.content_summary@) + item(
        "DAT"@,
        p.dat_summary@,
    ) + item("Representation"@, p.representation_summary@) + item("Set identity"@, p.set_summary@)
        + listed("Conflicts"@, views(p.conflict_rows@), "EmuWiz did not choose a winner.\n"@)
        + listed("Caveats"@, strs(p.caveats@), Seq::empty()) + "\nSource modified: "@ + (
    if p.source_modified {
        "Yes"@
    } else {
        "No"@
    }) + "\n"@);
}

proof fn repeats_are_dropped(s: Seq<Seq<char>>)
    ensures
        s.len() > 0 ==> without_repeats(s).len() > 0 && without_repeats(s).last() == s.last(),
        forall|t: Seq<char>| #[trigger] without_repeats(s).contains(t) <==> s.contains(t),
        forall|i: int|
            0 <= i < without_repeats(s).len() - 1 ==> #[trigger] without_repeats(s)[i]
                != without_repeats(s)[i + 1],
    decreases s.len(),
{
    if s.len() >= 2 {
        let rest = s.drop_last();
        let before = without_repeats(rest);
        let now = without_repeats(s);
        repeats_are_dropped(rest);
        assert(rest.last() == s[s.len() - 2]);
        assert forall|t: Seq<char>| #[trigger] now.contains(t) <==> s.contains(t) by {
            assert(s.contains(t) <==> rest.contains(t) || t == s.last()) by {
                assert(s[s.len() - 1] == s.last());
                if s.contains(t) {
                    let i = choose|i: int| 0 <= i < s.len() && s[i] == t;
                    if i < rest.len() {
                        assert(rest[i] == t);
                    }
                }
                if rest.contains(t) {
                    let i = choose|i: int| 0 <= i < rest.len() && rest[i] == t;
                    assert(s[i] == t);
                }
            }
            assert(before.contains(t) <==> rest.contains(t));
            if rest.last() == s.last() {
                assert(rest.contains(rest[rest.len() - 1]));
            } else {
                assert(now == before.push(s.last()));
                assert(now[before.len() as int] == s.last());
                if now.contains(t) {
                    let i = choose|i: int| 0 <= i < now.len() && now[i] == t;
                    if i < before.len() {
                        assert(before[i] == t);
                    }
                }
                if before.contains(t) {
                    let i = choose|i: int| 0 <= i < before.len() && before[i] == t;
                    assert(now[i] == t);
                }
            }
        }
        assert forall|i: int| 0 <= i < now.len() - 1 implies #[trigger] now[i] != now[i + 1] by {
            if i + 1 < before.len() {
                assert(before[i] != before[i + 1]);
            } else if rest.last() != s.last() {
                assert(now[i] == before.last());
            }
        }
    }
}

/// The plan has this reason not to go ahead.
pub open spec fn has_blocker(plan: LibraryItemPlan, text: Seq<char>) -> bool {
    ||| views(plan.rename.blockers@).contains(text)
    ||| plan.organisation.reason matches Some(reason) && reason@ == text
}

/// Exactly the reasons of the rename and of the organisation are shown as
/// blockers, and never one twice in a row.
pub proof fn every_blocker_is_shown(
    p: LibraryPlanPresentation,
    plan: LibraryItemPlan,
    identity: IdentityResult,
)
    requires
        presents_plan(p, plan, identity),
    ensures
        forall|t: Seq<char>| #[trigger] views(p.blockers@).contains(t) <==> has_blocker(plan, t),
        forall|i: int|
            0 <= i < p.blockers@.len() - 1 ==> (#[trigger] p.blockers@[i])@ != p.blockers@[i
                + 1]@,
{
    let first = views(plan.rename.blockers@);
    let all = match plan.organisation.reason {
        Some(reason) => first + seq![reason@],
        None => first,
    };
    assert(plan_blockers(plan) == without_repeats(all)) by {
        match plan.organisation.reason {
            Some(reason) => {},
            None => {
                assert(first + seq![] =~= first);
            },
        }
    }
    repeats_are_dropped(all);
    let shown = views(p.blockers@);
    assert forall|t: Seq<char>| #[trigger] shown.contains(t) <==> has_blocker(plan, t) by {
        assert(shown.contains(t) <==> all.contains(t));
        if first.contains(t) {
            let i = choose|i: int| 0 <= i < first.len() && first[i] == t;
            assert(all[i] == t);
        }
        if let Some(reason) = plan.organisation.reason {
            assert(all[first.len() as int] == reason@);
        }
        if all.contains(t) {
            let i = choose|i: int| 0 <= i < all.len() && all[i] == t;
            if i < first.len() {
                assert(first[i] == t);
            }
        }
    }
    assert forall|i: int| 0 <= i < p.blockers@.len() - 1 implies (#[trigger] p.blockers@[i])@
        != p.blockers@[i + 1]@ by {
        assert(shown[i] == p.blockers@[i]@ && shown[i + 1] == p.blockers@[i + 1]@);
        assert(without_repeats(all)[i] != without_repeats(all)[i + 1]);
    }
}

/// A plan is shown as it is: its status, source and library, a destination only
/// when it is ready, a rename and a mapping only as suggestions, and all the
/// warnings there are.
pub proof fn plans_are_shown_as_they_are(
    p: LibraryPlanPresentation,
    plan: LibraryItemPlan,
    identity: IdentityResult,
)
    requires
        presents_plan(p, plan, identity),
    ensures
        p.status == plan.status,
        p.source@ == plan.organisation.source_path@,
        p.platform_library == plan.organisation.platform,
        plan.status == PlanStatus::Ready ==> (p.destination_preview matches Some(path) && path@
            == plan.organisation.destination_path@),
        plan.status != PlanStatus::Ready ==> p.destination_preview is None,
        p.identity.status == status_of(identity),
        match plan.rename.basis {
            RenameBasis::AuthoritativeDatRelease => plan.rename.proposed_name matches Some(name)
                ==> p.rename_summary@ == "Suggested (from verified DAT release): "@ + name@
                + " -- NOT AUTHORIZED"@,
            RenameBasis::OriginalNamePreserved => plan.rename.proposed_name matches Some(name)
                ==> p.rename_summary@ == "Suggested (original name preserved): "@ + name@
                + " -- NOT AUTHORIZED"@,
            RenameBasis::Unavailable => p.rename_summary@ == "No rename suggestion available"@,
        },
        match plan.romm.status {
            RommMappingStatus::Mapped => plan.romm.slug matches Some(slug) ==> (
            plan.romm.canonical_platform matches Some(platform) ==> p.romm_summary@
                == "Proposed mapping: "@ + slug@ + " ("@ + platform@ + ")"@),
            RommMappingStatus::Unmapped => p.romm_summary@ == "No RomM slug mapping exists yet"@,
            RommMappingStatus::Ambiguous => p.romm_summary@
                == "RomM mapping ambiguous - platform itself is unresolved"@,
            RommMappingStatus::Unsupported => p.romm_summary@ == "No canonical platform to map"@,
        },
        p.warnings@.len() == plan.romm.warnings@.len() + identity.caveats@.len(),
        forall|i: int|
            0 <= i < plan.romm.warnings@.len() ==> (#[trigger] p.warnings@[i])@
                == plan.romm.warnings@[i]@,
        forall|i: int|
            0 <= i < identity.caveats@.len() ==> (#[trigger] identity.caveats@[i])@
                == p.warnings@[plan.romm.warnings@.len() + i]@,
        p.provenance_rows@.len() == 2 + one_if(plan.set_identity is Some),
        p.provenance_rows@[0].0@ == "platform_source"@ && p.provenance_rows@[0].1@
            == plan.organisation.platform_source@,
        p.provenance_rows@[1].0@ == "mode"@ && p.provenance_rows@[1].1@
            == plan.organisation.mode.label_text(),
        !p.source_modified,
{
    let shown = views(p.warnings@);
    assert(shown.len() == p.warnings@.len());
    assert(strs(plan.romm.warnings@).len() == plan.romm.warnings@.len());
    assert(strs(identity.caveats@).len() == identity.caveats@.len());
    assert forall|i: int| 0 <= i < plan.romm.warnings@.len() implies (#[trigger] p.warnings@[i])@
        == plan.romm.warnings@[i]@ by {
        assert(shown[i] == p.warnings@[i]@);
    }
    assert forall|i: int| 0 <= i < identity.caveats@.len() implies (
    #[trigger] identity.caveats@[i])@ == p.warnings@[plan.romm.warnings@.len() + i]@ by {
        let k = plan.romm.warnings@.len() + i;
        assert(shown[k] == p.warnings@[k]@);
        assert(strs(identity.caveats@)[i] == identity.caveats@[i]@);
    }
    let rows = rows_text(p.provenance_rows@);
    assert(rows.len() == p.provenance_rows@.len());
    assert(rows[0] == (p.provenance_rows@[0].0@, p.provenance_rows@[0].1@));
    assert(rows[1] == (p.provenance_rows@[1].0@, p.provenance_rows@[1].1@));
}

/// The text of an option, or what stands for its absence.
pub open spec fn or_else(s: Option<String>, absent: Seq<char>) -> Seq<char> {
    match s {
        Some(t) => t@,
        None => absent,
    }
}

/// A rendered plan has one paragraph for each thing there is to know, in a fixed
/// order, and never authorises a deletion.
pub proof fn rendered_plans_show_everything(p: LibraryPlanPresentation)
    ensures
        plan_text(p) == p.status.label_text() + "\n"@ + paragraph("Source"@, p.source@) + paragraph(
            "Identity"@,
            (match p.identity.platform {
                Some(platform) => platform@,
                None => "Unknown"@,
            }) + " - "@ + p.identity.status.label_text(),
        ) + paragraph(
            "Proposed library"@,
            or_else(p.platform_library, "(none - unresolved identity)"@),
        ) + paragraph(
            "Proposed destination"@,
            or_else(p.destination_preview, "(preview only - not ready)"@),
        ) + paragraph("Set identity"@, p.set_summary@) + paragraph(
            "Rename suggestion"@,
            p.rename_summary@,
        ) + paragraph("RomM"@, p.romm_summary@) + listed(
            "Blockers"@,
            views(p.blockers@),
            Seq::empty(),
        ) + listed("Warnings"@, views(p.warnings@), Seq::empty()) + paragraph(
            "Source modified"@,
            if p.source_modified {
                "YES"@
            } else {
                "NO"@
            },
        ) + (match p.duplicate_relationship {
            Some(group) => paragraph(
                "Duplicate relationship"@,
                group.classification.label_text() + "\n  "@ + group.basis@
                    + "\n  Delete:\n    NOT AUTHORIZED"@,
            ),
            None => Seq::empty(),
        }) + (match p.revision_relationship {
            Some(revision) => paragraph("Release relationship"@, revision.label_text()),
            None => Seq::empty(),
        }) + (match p.multidisc_state {
            Some(state) => paragraph("Multi-disc set"@, state@),
            None => Seq::empty(),
        }) + (match p.support_role {
            Some(support) => paragraph(
                "Support file role"@,
                support.role.label_text() + " - "@ + support.association_label@,
            ),
            None => Seq::empty(),
        }),
{
    plan_paragraphs();
    let n = "\n"@;
    let platform = match p.identity.platform {
        Some(platform) => platform@,
        None => "Unknown"@,
    };
    let modified = if p.source_modified {
        "YES"@
    } else {
        "NO"@
    };
    let label = p.status.label_text();
    let status = p.identity.status.label_text();
    opening_paragraphs(label, p.source@, platform, status);
    let t0 = label + n + paragraph("Source"@, p.source@) + paragraph(
        "Identity"@,
        platform + " - "@ + status,
    );
    let library = or_else(p.platform_library, "(none - unresolved identity)"@);
    let t1 = t0 + paragraph("Proposed library"@, library);
    one_paragraph(t0, "\nProposed library:\n  "@, library, n);
    let destination = or_else(p.destination_preview, "(preview only - not ready)"@);
    let t2 = t1 + paragraph("Proposed destination"@, destination);
    one_paragraph(t1, "\nProposed destination:\n  "@, destination, n);
    let t3 = t2 + paragraph("Set identity"@, p.set_summary@);
    one_paragraph(t2, "\nSet identity:\n  "@, p.set_summary@, n);
    let t4 = t3 + paragraph("Rename suggestion"@, p.rename_summary@);
    one_paragraph(t3, "\nRename suggestion:\n  "@, p.rename_summary@, n);
    let t5 = t4 + paragraph("RomM"@, p.romm_summary@);
    one_paragraph(t4, "\nRomM:\n  "@, p.romm_summary@, n);
    let blockers = listed("Blockers"@, views(p.blockers@), Seq::empty());
    let warnings = listed("Warnings"@, views(p.warnings@), Seq::empty());
    one_list("\nBlockers:\n"@, "Blockers"@, views(p.blockers@));
    one_list("\nWarnings:\n"@, "Warnings"@, views(p.warnings@));
    let t6 = t5 + blockers + warnings;
    one_paragraph(t6, "\nSource modified:\n  "@, modified, n);
    if let Some(group) = p.duplicate_relationship {
        duplicate_paragraph(
            "\nDuplicate relationship:\n  "@,
            group.classification.label_text(),
            n,
            "  "@,
            group.basis@,
            "\n  Delete:\n    NOT AUTHORIZED"@,
            "  Delete:\n    NOT AUTHORIZED\n"@,
        );
    }
    if let Some(support) = p.support_role {
        support_paragraph(
            "\nSupport file role:\n  "@,
            support.role.label_text(),
            " - "@,
            support.association_label@,
            n,
        );
    }
}

proof fn one_list(literal: Seq<char>, head: Seq<char>, rows: Seq<Seq<char>>)
    requires
        literal == "\n"@ + head + ":\n"@,
    ensures
        listed(head, rows, Seq::empty()) == row_section(literal, rows),
{
    assert(listed(head, rows, Seq::empty()) =~= row_section(literal, rows));
}

proof fn support_paragraph(
    head: Seq<char>,
    role: Seq<char>,
    dash: Seq<char>,
    how: Seq<char>,
    n: Seq<char>,
)
    ensures
        head + (role + dash + how) + n == head + role + dash + how + n,
{
    assert(head + (role + dash + how) + n =~= head + role + dash + how + n);
}

proof fn one_paragraph(x: Seq<char>, head: Seq<char>, value: Seq<char>, n: Seq<char>)
    ensures
        x + head + value + n == x + (head + value + n),
{
    assert(x + head + value + n =~= x + (head + value + n));
}

proof fn duplicate_paragraph(
    head: Seq<char>,
    label: Seq<char>,
    n: Seq<char>,
    indent: Seq<char>,
    basis: Seq<char>,
    d: Seq<char>,
    e: Seq<char>,
)
    requires
        d + n == n + e,
    ensures
        head + (label + (n + indent) + basis + d) + n == head + label + n + indent + basis + n + e,
{
    let x = head + label + n + indent + basis;
    assert(head + (label + (n + indent) + basis + d) + n =~= x + (d + n));
    assert(x + (n + e) =~= x + n + e);
}

proof fn opening_paragraphs(
    label: Seq<char>,
    source: Seq<char>,
    platform: Seq<char>,
    status: Seq<char>,
)
    ensures
        label + "\n\n"@ + "Source:\n  "@ + source + "\n\n"@ + "Identity:\n  "@ + platform + " - "@
            + status + "\n"@ == label + "\n"@ + paragraph("Source"@, source) + paragraph(
            "Identity"@,
            platform + " - "@ + status,
        ),
{
    plan_paragraphs();
    let n = "\n"@;
    let h = n + "Source"@ + ":\n  "@;
    let k = n + "Identity"@ + ":\n  "@;
    assert(label + "\n\n"@ + "Source:\n  "@ =~= label + ("\n\n"@ + "Source:\n  "@));
    assert(label + (n + h) =~= label + n + h);
    let x = label + n + h + source;
    assert(x + "\n\n"@ + "Identity:\n  "@ =~= x + ("\n\n"@ + "Identity:\n  "@));
    assert(x + (n + k) =~= x + n + k);
    assert(x + n =~= label + n + (h + source + n));
    let y = x + n;
    assert(y + k + platform + " - "@ + status + n =~= y + (k + (platform + " - "@ + status) + n));
}

proof fn plan_paragraphs()
    ensures
        "\n\n"@ + "Source:\n  "@ == "\n"@ + ("\n"@ + "Source"@ + ":\n  "@),
        "\n\n"@ + "Identity:\n  "@ == "\n"@ + ("\n"@ + "Identity"@ + ":\n  "@),
        "\nProposed library:\n  "@ == "\n"@ + "Proposed library"@ + ":\n  "@,
        "\nProposed destination:\n  "@ == "\n"@ + "Proposed destination"@ + ":\n  "@,
        "\nSet identity:\n  "@ == "\n"@ + "Set identity"@ + ":\n  "@,
        "\nRename suggestion:\n  "@ == "\n"@ + "Rename suggestion"@ + ":\n  "@,
        "\nRomM:\n  "@ == "\n"@ + "RomM"@ + ":\n  "@,
        "\nBlockers:\n"@ == "\n"@ + "Blockers"@ + ":\n"@,
        "\nWarnings:\n"@ == "\n"@ + "Warnings"@ + ":\n"@,
        "\nSource modified:\n  "@ == "\n"@ + "Source modified"@ + ":\n  "@,
        "\nDuplicate relationship:\n  "@ == "\n"@ + "Duplicate relationship"@ + ":\n  "@,
        "\nRelease relationship:\n  "@ == "\n"@ + "Release relationship"@ + ":\n  "@,
        "\nMulti-disc set:\n  "@ == "\n"@ + "Multi-disc set"@ + ":\n  "@,
        "\nSupport file role:\n  "@ == "\n"@ + "Support file role"@ + ":\n  "@,
        "\n  "@ == "\n"@ + "  "@,
        "\n  Delete:\n    NOT AUTHORIZED"@ + "\n"@ == "\n"@ + "  Delete:\n    NOT AUTHORIZED\n"@,
{
    reveal_strlit("\n");
    reveal_strlit("\n\n");
    reveal_strlit("  ");
    reveal_strlit("\n  ");
    reveal_strlit(":\n");
    reveal_strlit(":\n  ");
    reveal_strlit("Proposed library");
    reveal_strlit("Proposed destination");
    reveal_strlit("Set identity");
    reveal_strlit("Rename suggestion");
    reveal_strlit("RomM");
    reveal_strlit("Source modified");
    reveal_strlit("Duplicate relationship");
    reveal_strlit("Release relationship");
    reveal_strlit("Multi-disc set");
    reveal_strlit("Support file role");
    reveal_strlit("Source");
    reveal_strlit("Identity");
    reveal_strlit("Blockers");
    reveal_strlit("Warnings");
    reveal_strlit("\nProposed library:\n  ");
    reveal_strlit("\nProposed destination:\n  ");
    reveal_strlit("\nSet identity:\n  ");
    reveal_strlit("\nRename suggestion:\n  ");
    reveal_strlit("\nRomM:\n  ");
    reveal_strlit("\nSource modified:\n  ");
    reveal_strlit("\nDuplicate relationship:\n  ");
    reveal_strlit("\nRelease relationship:\n  ");
    reveal_strlit("\nMulti-disc set:\n  ");
    reveal_strlit("\nSupport file role:\n  ");
    reveal_strlit("\nBlockers:\n");
    reveal_strlit("\nWarnings:\n");
    reveal_strlit("Source:\n  ");
    reveal_strlit("Identity:\n  ");
    reveal_strlit("\n  Delete:\n    NOT AUTHORIZED");
    reveal_strlit("  Delete:\n    NOT AUTHORIZED\n");
    assert("\n\n"@ + "Source:\n  "@ =~= "\n"@ + ("\n"@ + "Source"@ + ":\n  "@));
    assert("\n\n"@ + "Identity:\n  "@ =~= "\n"@ + ("\n"@ + "Identity"@ + ":\n  "@));
    assert("\nProposed library:\n  "@ =~= "\n"@ + "Proposed library"@ + ":\n  "@);
    assert("\nProposed destination:\n  "@ =~= "\n"@ + "Proposed destination"@ + ":\n  "@);
    assert("\nSet identity:\n  "@ =~= "\n"@ + "Set identity"@ + ":\n  "@);
    assert("\nRename suggestion:\n  "@ =~= "\n"@ + "Rename suggestion"@ + ":\n  "@);
    assert("\nRomM:\n  "@ =~= "\n"@ + "RomM"@ + ":\n  "@);
    assert("\nSource modified:\n  "@ =~= "\n"@ + "Source modified"@ + ":\n  "@);
    assert("\nDuplicate relationship:\n  "@ =~= "\n"@ + "Duplicate relationship"@ + ":\n  "@);
    assert("\nRelease relationship:\n  "@ =~= "\n"@ + "Release relationship"@ + ":\n  "@);
    assert("\nMulti-disc set:\n  "@ =~= "\n"@ + "Multi-disc set"@ + ":\n  "@);
    assert("\nSupport file role:\n  "@ =~= "\n"@ + "Support file role"@ + ":\n  "@);
    assert("\nBlockers:\n"@ =~= "\n"@ + "Blockers"@ + ":\n"@);
    assert("\nWarnings:\n"@ =~= "\n"@ + "Warnings"@ + ":\n"@);
    assert("\n  "@ =~= "\n"@ + "  "@);
    assert("\n  Delete:\n    NOT AUTHORIZED"@ + "\n"@ =~= "\n"@
        + "  Delete:\n    NOT AUTHORIZED\n"@);
}

/// A frozen item says what its plan and presentation say, and proposes to move,
/// rename or link the file by the plan's mode only when the plan is ready.
pub proof fn exports_freeze_their_plan(
    item: LibraryPlanExportItem,
    plan: LibraryItemPlan,
    presentation: LibraryPlanPresentation,
    physical_hash: Option<Seq<char>>,
    normalized_hash: Option<Seq<char>>,
)
    requires
        exports(item, plan, presentation, physical_hash, normalized_hash),
    ensures
        item.status == plan.status,
        item.precondition.source_path@ == plan.organisation.source_path@,
        opt_view(item.precondition.physical_hash) == physical_hash,
        opt_view(item.precondition.normalized_hash) == normalized_hash,
        item.proposed_destination == presentation.destination_preview,
        item.operation_intent == OperationIntent::MoveToLibraryFolder <==> plan.status
            == PlanStatus::Ready && plan.organisation.mode == OrganisationMode::MoveRealFile,
        item.operation_intent == OperationIntent::RenameInPlace <==> plan.status
            == PlanStatus::Ready && plan.organisation.mode == OrganisationMode::RenameInPlace,
        item.operation_intent == OperationIntent::OrganiseSymlinkOnly <==> plan.status
            == PlanStatus::Ready && plan.organisation.mode
            == OrganisationMode::OrganiseSymlinkOnly,
        item.platform_library == presentation.platform_library,
        presentation.identity.platform matches Some(platform) ==> item.display_name@ == platform@,
        presentation.identity.platform is None ==> item.display_name@ == "Unknown"@,
        item.romm_status == plan.romm.status,
        item.romm_slug == plan.romm.slug,
        item.rename_basis == plan.rename.basis,
        item.proposed_name == plan.rename.proposed_name,
        item.duplicate_classification is Some <==> presentation.duplicate_relationship is Some,
        presentation.duplicate_relationship matches Some(group) ==> item.duplicate_classification
            == Some(group.classification),
        item.revision_relationship == presentation.revision_relationship,
        item.blockers@ == presentation.blockers@,
        item.warnings@ == presentation.warnings@,
        item.source_modified == presentation.source_modified,
{
}

/// A plan's set line says what the archive holds, and for several members of one
/// platform that they are not taken for one game.
pub proof fn plan_set_lines_say_what_the_archive_holds(
    p: LibraryPlanPresentation,
    plan: LibraryItemPlan,
    identity: IdentityResult,
)
    requires
        presents_plan(p, plan, identity),
    ensures
        match plan.set_identity {
            None => p.set_summary@ == "Single file (not part of an inspected archive)"@,
            Some(ArchiveSetIdentity::Unknown) => p.set_summary@
                == "Archive member; no member resolved a platform"@,
            Some(ArchiveSetIdentity::SingleMember { platform, .. }) => p.set_summary@
                == "Single game-like member ("@ + platform@ + ")"@,
            Some(ArchiveSetIdentity::MultiMemberSamePlatform { platform, member_indices }) => {
                p.set_summary@ == "Multi-member set, same platform ("@ + platform@ + ", "@
                    + decimal(member_indices@.len())
                    + " members) - exact game/set identity not collapsed"@
            },
            Some(ArchiveSetIdentity::MultiPlatform { platforms, .. }) => names_all(
                p.set_summary@,
                strs(platforms@),
            ),
            Some(ArchiveSetIdentity::StructuredSet { platform, .. }) => p.set_summary@
                == "Structured set ("@ + platform@ + ")"@,
        },
        plan.set_identity matches Some(set) ==> p.provenance_rows@[2].0@ == "set_identity"@
            && p.provenance_rows@[2].1@ == set_debug(set),
{
    if let Some(ArchiveSetIdentity::MultiPlatform { platforms, .. }) = plan.set_identity {
        lists_name_all("Multi-platform archive ("@, strs(platforms@), ")"@);
    }
    if plan.set_identity is Some {
        let rows = rows_text(p.provenance_rows@);
        assert(rows.len() == p.provenance_rows@.len());
        assert(rows[2] == (p.provenance_rows@[2].0@, p.provenance_rows@[2].1@));
    }
}

/// An association is shown by its kind, with the set, the reason or the unsafe
/// reference behind it.
pub proof fn associations_are_shown_with_their_ground(association: AssociationModel)
    ensures
        association_line(association) == match association {
            AssociationModel::Attached(label) => "Attached ("@ + label + ")"@,
            AssociationModel::Candidate(reason) => "Candidate ("@ + reason + ")"@,
            AssociationModel::Unassociated => "Unassociated"@,
            AssociationModel::UnsafeReference(detail) => "UnsafeReference ("@ + detail + ")"@,
        },
{
}

/// A release is shown with the parent that its DAT declares, if it declares one.
pub proof fn releases_are_shown_with_their_parent(release: ReleaseRelationship)
    ensures
        release.label_text() == match release {
            ReleaseRelationship::Unknown => "Unknown (no DAT match)"@,
            ReleaseRelationship::Canonical { .. } => "Canonical release (no declared parent)"@,
            ReleaseRelationship::CloneOf { parent, .. } => {
                "Same game, different revision (parent: "@ + parent@ + ")"@
            },
        },
{
}

/// A refused plan says why: both digests, or every path of the cycle.
pub proof fn refused_plans_say_why(error: PlanTransactionError)
    ensures
        match error {
            PlanTransactionError::DigestMismatch { approved, current } => stands_in(
                approved@,
                error.text(),
            ) && stands_in(current@, error.text()),
            PlanTransactionError::NoApprovedReadyItems => error.text()
                == "no approved item is Ready with a real destination"@,
            PlanTransactionError::CycleDetected(paths) => names_all(error.text(), views(paths@)),
            PlanTransactionError::Underlying(detail) => error.text() == detail@,
        },
{
    match error {
        PlanTransactionError::DigestMismatch { approved, current } => {
            let a = "the plan changed since approval (approved digest "@;
            let b = ", current "@;
            let c = "); the approval no longer applies"@;
            assert(error.text() =~= amid(a, approved@, b + current@ + c));
            assert(error.text() =~= amid(a + approved@ + b, current@, c));
        },
        PlanTransactionError::CycleDetected(paths) => {
            let head = "a destination/source cycle was detected and rejected: "@;
            let all = views(paths@);
            let list = joined(all, " -> "@);
            let empty = Seq::<char>::empty();
            assert forall|i: int| 0 <= i < all.len() implies stands_in(
                #[trigger] all[i],
                error.text(),
            ) by {
                parts_stand_in_what_they_make(all, " -> "@, i);
                stands_in_parts(all[i], list, head, empty);
                assert(error.text() =~= head + list + empty);
            }
        },
        _ => {},
    }
}

} // verus!
