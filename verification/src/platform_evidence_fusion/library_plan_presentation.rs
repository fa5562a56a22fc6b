//! A read-only view of one file's plan, and its plain rendering.
use vstd::prelude::*;
use vstd::string::*;
use crate::platform::{join_ids, strs};
use crate::platform_evidence_fusion::archive_set_identity::ArchiveSetIdentity;
use crate::platform_evidence_fusion::duplicate_taxonomy::DuplicateGroup;
use crate::platform_evidence_fusion::identity_orchestrator::IdentityResult;
use crate::platform_evidence_fusion::identity_presentation::{
    indent, indented, present_identity, presents, rows_text, IdentityPresentation,
};
use crate::platform_evidence_fusion::library_planning::{
    LibraryItemPlan, PlanStatus, RenameBasis, RenameSuggestion, RommMapping, RommMappingStatus,
};
use crate::platform_evidence_fusion::release_relationship::ReleaseRelationship;
use crate::platform_evidence_fusion::side_file_classification::SideFileRole;
use crate::platform_evidence_fusion::support_attachment::{
    AssociationModel, SupportAssociation, SupportFileAttachment,
};
use crate::text::{
    bracket, bracketed, copy_opt, debug_quoted, debug_quoted_text, decimal, decimal_text, joined,
    opt_view, quoted_texts, same_text, views,
};

verus! {

/// A label and a value.
pub type PlanRow = (&'static str, String);

/// A support file's role and how it is associated, in words.
#[derive(Debug, Clone, PartialEq, Eq)]
pub struct SupportRolePresentation {
    pub role: SideFileRole,
    pub association_label: String,
}

/// A read-only view of one file's plan.
#[derive(Debug, Clone, PartialEq, Eq)]
pub struct LibraryPlanPresentation {
    pub status: PlanStatus,
    pub source: String,
    pub identity: IdentityPresentation,
    pub platform_library: Option<String>,
    pub set_summary: String,
    /// Only for a plan that is ready.
    pub destination_preview: Option<String>,
    pub rename_summary: String,
    pub romm_summary: String,
    pub warnings: Vec<String>,
    pub blockers: Vec<String>,
    pub provenance_rows: Vec<PlanRow>,
    pub source_modified: bool,
    pub duplicate_relationship: Option<DuplicateGroup>,
    pub revision_relationship: Option<ReleaseRelationship>,
    pub multidisc_state: Option<String>,
    pub support_role: Option<SupportRolePresentation>,
}

/// One line on the set a file is part of.
pub open spec fn plan_set_line(set: Option<ArchiveSetIdentity>) -> Seq<char> {
    match set {
        None => "Single file (not part of an inspected archive)"@,
        Some(ArchiveSetIdentity::Unknown) => "Archive member; no member resolved a platform"@,
        Some(ArchiveSetIdentity::SingleMember { platform, .. }) => {
            "Single game-like member ("@ + platform@ + ")"@
        },
        Some(ArchiveSetIdentity::MultiMemberSamePlatform { platform, member_indices }) => {
            "Multi-member set, same platform ("@ + platform@ + ", "@ + decimal(
                member_indices@.len(),
            ) + " members) - exact game/set identity not collapsed"@
        },
        Some(ArchiveSetIdentity::MultiPlatform { platforms, .. }) => {
            "Multi-platform archive ("@ + joined(strs(platforms@), ", "@) + ")"@
        },
        Some(ArchiveSetIdentity::StructuredSet { platform, .. }) => {
            "Structured set ("@ + platform@ + ")"@
        },
    }
}

/// The text of an optional string, or a substitute.
pub open spec fn text_or(s: Option<Seq<char>>, substitute: Seq<char>) -> Seq<char> {
    match s {
        Some(t) => t,
        None => substitute,
    }
}

/// One line on the rename suggestion; it never authorises anything.
pub open spec fn rename_line(rename: RenameSuggestion) -> Seq<char> {
    let name = text_or(opt_view(rename.proposed_name), "?"@);
    match rename.basis {
        RenameBasis::AuthoritativeDatRelease => {
            "Suggested (from verified DAT release): "@ + name + " -- NOT AUTHORIZED"@
        },
        RenameBasis::OriginalNamePreserved => {
            "Suggested (original name preserved): "@ + name + " -- NOT AUTHORIZED"@
        },
        RenameBasis::Unavailable => "No rename suggestion available"@,
    }
}

/// One line on the RomM mapping.
pub open spec fn romm_line(romm: RommMapping) -> Seq<char> {
    match romm.status {
        RommMappingStatus::Mapped => {
            "Proposed mapping: "@ + text_or(opt_view(romm.slug), seq![]) + " ("@ + text_or(
                opt_view(romm.canonical_platform),
                seq![],
            ) + ")"@
        },
        RommMappingStatus::Unmapped => "No RomM slug mapping exists yet"@,
        RommMappingStatus::Ambiguous => "RomM mapping ambiguous - platform itself is unresolved"@,
        RommMappingStatus::Unsupported => "No canonical platform to map"@,
    }
}

/// `s` without elements that equal the one before them.
pub open spec fn without_repeats(s: Seq<Seq<char>>) -> Seq<Seq<char>>
    decreases s.len(),
{
    if s.len() < 2 {
        s
    } else if s[s.len() - 2] == s.last() {
        without_repeats(s.drop_last())
    } else {
        without_repeats(s.drop_last()).push(s.last())
    }
}

/// The text of an optional string, as a sequence of none or one.
pub open spec fn opt_row(s: Option<String>) -> Seq<Seq<char>> {
    match s {
        Some(t) => seq![t@],
        None => seq![],
    }
}

/// The blockers of a plan: those of its rename, then the reason it cannot be
/// organised.
pub open spec fn plan_blockers(plan: LibraryItemPlan) -> Seq<Seq<char>> {
    without_repeats(views(plan.rename.blockers@) + opt_row(plan.organisation.reason))
}

/// The text std's `Debug` writes for member indices.
pub open spec fn indices_debug(indices: Seq<usize>) -> Seq<char> {
    bracketed(indices.map_values(|i: usize| decimal(i as nat)))
}

/// The text std's `Debug` writes for an archive's identity.
pub open spec fn set_debug(set: ArchiveSetIdentity) -> Seq<char> {
    match set {
        ArchiveSetIdentity::Unknown => "Unknown"@,
        ArchiveSetIdentity::SingleMember { member_index, platform } => {
            "SingleMember { member_index: "@ + decimal(member_index as nat) + ", platform: "@
                + debug_quoted_text(platform@) + " }"@
        },
        ArchiveSetIdentity::MultiMemberSamePlatform { member_indices, platform } => {
            "MultiMemberSamePlatform { member_indices: "@ + indices_debug(member_indices@)
                + ", platform: "@ + debug_quoted_text(platform@) + " }"@
        },
        ArchiveSetIdentity::MultiPlatform { member_indices, platforms } => {
            "MultiPlatform { member_indices: "@ + indices_debug(member_indices@)
                + ", platforms: "@ + bracketed(quoted_texts(strs(platforms@))) + " }"@
        },
        ArchiveSetIdentity::StructuredSet { member_indices, platform } => {
            "StructuredSet { member_indices: "@ + indices_debug(member_indices@)
                + ", platform: "@ + debug_quoted_text(platform@) + " }"@
        },
    }
}

/// The provenance of a plan: where its platform comes from, its mode, and the
/// archive it is part of.
pub open spec fn plan_provenance(plan: LibraryItemPlan) -> Seq<(Seq<char>, Seq<char>)> {
    let rows = seq![
        ("platform_source"@, plan.organisation.platform_source@),
        ("mode"@, plan.organisation.mode.label_text()),
    ];
    match plan.set_identity {
        Some(set) => rows.push(("set_identity"@, set_debug(set))),
        None => rows,
    }
}

/// `p` shows what the plan and the identity say, whatever its context.
pub open spec fn presents_plan(
    p: LibraryPlanPresentation,
    plan: LibraryItemPlan,
    identity: IdentityResult,
) -> bool {
    &&& p.status == plan.status
    &&& p.source@ == plan.organisation.source_path@
    &&& presents(p.identity, identity)
    &&& p.platform_library == plan.organisation.platform
    &&& p.set_summary@ == plan_set_line(plan.set_identity)
    &&& opt_view(p.destination_preview) == if plan.status == PlanStatus::Ready {
        Some(plan.organisation.destination_path@)
    } else {
        None
    }
    &&& p.rename_summary@ == rename_line(plan.rename)
    &&& p.romm_summary@ == romm_line(plan.romm)
    &&& views(p.warnings@) == strs(plan.romm.warnings@) + strs(identity.caveats@)
    &&& views(p.blockers@) == plan_blockers(plan)
    &&& rows_text(p.provenance_rows@) == plan_provenance(plan)
    &&& !p.source_modified
}

fn set_summary_of(set: &Option<ArchiveSetIdentity>) -> (r: String)
    ensures
        r@ == plan_set_line(*set),
{
    match set {
        None => "Single file (not part of an inspected archive)".to_owned(),
        Some(ArchiveSetIdentity::Unknown) => {
            "Archive member; no member resolved a platform".to_owned()
        },
        Some(ArchiveSetIdentity::SingleMember { platform, .. }) => {
            let mut out = "Single game-like member (".to_owned();
            out.append(platform);
            out.append(")");
            out
        },
        Some(ArchiveSetIdentity::MultiMemberSamePlatform { platform, member_indices }) => {
            let mut out = "Multi-member set, same platform (".to_owned();
            out.append(platform);
            out.append(", ");
            out.append(decimal_text(member_indices.len() as u64).as_str());
            out.append(" members) - exact game/set identity not collapsed");
            out
        },
        Some(ArchiveSetIdentity::MultiPlatform { platforms, .. }) => {
            let mut out = "Multi-platform archive (".to_owned();
            out.append(join_ids(platforms, ", ").as_str());
            out.append(")");
            out
        },
        Some(ArchiveSetIdentity::StructuredSet { platform, .. }) => {
            let mut out = "Structured set (".to_owned();
            out.append(platform);
            out.append(")");
            out
        },
    }
}

fn string_or(s: &Option<String>, substitute: &str) -> (r: String)
    ensures
        r@ == text_or(opt_view(*s), substitute@),
{
    match s {
        Some(t) => t.clone(),
        None => substitute.to_owned(),
    }
}

fn string_or_empty(s: &Option<String>) -> (r: String)
    ensures
        r@ == text_or(opt_view(*s), seq![]),
{
    match s {
        Some(t) => t.clone(),
        None => {
            let empty = String::new();
            assert(empty@ =~= seq![]);
            empty
        },
    }
}

fn rename_summary_of(rename: &RenameSuggestion) -> (r: String)
    ensures
        r@ == rename_line(*rename),
{
    let name = string_or(&rename.proposed_name, "?");
    match rename.basis {
        RenameBasis::AuthoritativeDatRelease => {
            let mut out = "Suggested (from verified DAT release): ".to_owned();
            out.append(name.as_str());
            out.append(" -- NOT AUTHORIZED");
            out
        },
        RenameBasis::OriginalNamePreserved => {
            let mut out = "Suggested (original name preserved): ".to_owned();
            out.append(name.as_str());
            out.append(" -- NOT AUTHORIZED");
            out
        },
        RenameBasis::Unavailable => "No rename suggestion available".to_owned(),
    }
}

fn romm_summary_of(romm: &RommMapping) -> (r: String)
    ensures
        r@ == romm_line(*romm),
{
    match romm.status {
        RommMappingStatus::Mapped => {
            let mut out = "Proposed mapping: ".to_owned();
            out.append(string_or_empty(&romm.slug).as_str());
            out.append(" (");
            out.append(string_or_empty(&romm.canonical_platform).as_str());
            out.append(")");
            out
        },
        RommMappingStatus::Unmapped => "No RomM slug mapping exists yet".to_owned(),
        RommMappingStatus::Ambiguous => {
            "RomM mapping ambiguous - platform itself is unresolved".to_owned()
        },
        RommMappingStatus::Unsupported => "No canonical platform to map".to_owned(),
    }
}

fn drop_repeats(items: &Vec<String>) -> (r: Vec<String>)
    ensures
        views(r@) == without_repeats(views(items@)),
{
    let ghost all = views(items@);
    let mut out: Vec<String> = Vec::new();
    let mut i: usize = 0;
    assert(views(out@) =~= without_repeats(all.take(0)));
    while i < items.len()
        invariant
            i <= items@.len(),
            all == views(items@),
            views(out@) == without_repeats(all.take(i as int)),
        decreases items.len() - i,
    {
        let ghost next = all.take(i + 1);
        proof {
            assert(next.drop_last() =~= all.take(i as int));
            assert(next.last() == items@[i as int]@);
            if i > 0 {
                assert(next[next.len() - 2] == items@[i - 1]@);
            }
        }
        if i == 0 || !same_text(items[i - 1].as_str(), items[i].as_str()) {
            let item = items[i].clone();
            proof {
                assert(views(out@.push(item)) =~= views(out@).push(item@));
                if i == 0 {
                    assert(without_repeats(all.take(0)) =~= seq![]);
                    assert(next =~= seq![item@]);
                }
            }
            out.push(item);
        }
        i = i + 1;
    }
    assert(all.take(i as int) =~= all);
    out
}

fn blockers_of(plan: &LibraryItemPlan) -> (r: Vec<String>)
    ensures
        views(r@) == plan_blockers(*plan),
{
    let mut all = crate::text::copy_strings(&plan.rename.blockers);
    if let Some(reason) = &plan.organisation.reason {
        all.push(reason.clone());
    }
    assert(views(all@) =~= views(plan.rename.blockers@) + opt_row(plan.organisation.reason));
    drop_repeats(&all)
}

fn owned_texts(ids: &Vec<&'static str>) -> (r: Vec<String>)
    ensures
        views(r@) == strs(ids@),
{
    let mut out: Vec<String> = Vec::new();
    let mut i: usize = 0;
    while i < ids.len()
        invariant
            i <= ids@.len(),
            views(out@) == strs(ids@).take(i as int),
        decreases ids.len() - i,
    {
        let text = ids[i].to_owned();
        proof {
            assert(views(out@.push(text)) =~= views(out@).push(text@));
            assert(strs(ids@).take(i + 1) =~= strs(ids@).take(i as int).push(text@));
        }
        out.push(text);
        i = i + 1;
    }
    assert(strs(ids@).take(i as int) =~= strs(ids@));
    out
}

fn debug_indices(indices: &Vec<usize>) -> (r: String)
    ensures
        r@ == indices_debug(indices@),
{
    let ghost all = indices@.map_values(|i: usize| decimal(i as nat));
    let mut out: Vec<String> = Vec::new();
    let mut i: usize = 0;
    while i < indices.len()
        invariant
            i <= indices@.len(),
            all == indices@.map_values(|i: usize| decimal(i as nat)),
            views(out@) == all.take(i as int),
        decreases indices.len() - i,
    {
        let text = decimal_text(indices[i] as u64);
        proof {
            assert(views(out@.push(text)) =~= views(out@).push(text@));
            assert(all.take(i + 1) =~= all.take(i as int).push(text@));
        }
        out.push(text);
        i = i + 1;
    }
    assert(all.take(i as int) =~= all);
    bracket(&out)
}

fn debug_set(set: &ArchiveSetIdentity) -> (r: String)
    ensures
        r@ == set_debug(*set),
{
    match set {
        ArchiveSetIdentity::Unknown => "Unknown".to_owned(),
        ArchiveSetIdentity::SingleMember { member_index, platform } => {
            let mut out = "SingleMember { member_index: ".to_owned();
            out.append(decimal_text(*member_index as u64).as_str());
            out.append(", platform: ");
            out.append(debug_quoted(platform).as_str());
            out.append(" }");
            out
        },
        ArchiveSetIdentity::MultiMemberSamePlatform { member_indices, platform } => {
            let mut out = "MultiMemberSamePlatform { member_indices: ".to_owned();
            out.append(debug_indices(member_indices).as_str());
            out.append(", platform: ");
            out.append(debug_quoted(platform).as_str());
            out.append(" }");
            out
        },
        ArchiveSetIdentity::MultiPlatform { member_indices, platforms } => {
            let mut out = "MultiPlatform { member_indices: ".to_owned();
            out.append(debug_indices(member_indices).as_str());
            out.append(", platforms: ");
            out.append(crate::text::debug_texts(&owned_texts(platforms)).as_str());
            out.append(" }");
            out
        },
        ArchiveSetIdentity::StructuredSet { member_indices, platform } => {
            let mut out = "StructuredSet { member_indices: ".to_owned();
            out.append(debug_indices(member_indices).as_str());
            out.append(", platform: ");
            out.append(debug_quoted(platform).as_str());
            out.append(" }");
            out
        },
    }
}

fn provenance_of(plan: &LibraryItemPlan) -> (r: Vec<PlanRow>)
    ensures
        rows_text(r@) == plan_provenance(*plan),
{
    let mut rows: Vec<PlanRow> = Vec::new();
    rows.push(("platform_source", plan.organisation.platform_source.clone()));
    rows.push(("mode", plan.organisation.mode.label().to_owned()));
    if let Some(set) = &plan.set_identity {
        rows.push(("set_identity", debug_set(set)));
    }
    assert(rows_text(rows@) =~= plan_provenance(*plan));
    rows
}

/// Presents a plan together with the identity it was made from; decides and
/// changes nothing.
pub fn present_library_plan(plan: &LibraryItemPlan, identity: &IdentityResult) -> (r:
    LibraryPlanPresentation)
    ensures
        presents_plan(r, *plan, *identity),
        r.duplicate_relationship is None,
        r.revision_relationship is None,
        r.multidisc_state is None,
        r.support_role is None,
{
    let identity_presentation = present_identity(identity);
    let entry = &plan.organisation;
    let destination_preview = if plan.status == PlanStatus::Ready {
        Some(entry.destination_path.clone())
    } else {
        None
    };
    let mut warnings = owned_texts(&plan.romm.warnings);
    let mut caveats = owned_texts(&identity_presentation.caveats);
    let ghost first = warnings@;
    let ghost second = caveats@;
    warnings.append(&mut caveats);
    assert(views(warnings@) =~= views(first) + views(second));
    LibraryPlanPresentation {
        status: plan.status,
        source: entry.source_path.clone(),
        identity: identity_presentation,
        platform_library: copy_opt(&entry.platform),
        set_summary: set_summary_of(&plan.set_identity),
        destination_preview,
        rename_summary: rename_summary_of(&plan.rename),
        romm_summary: romm_summary_of(&plan.romm),
        warnings,
        blockers: blockers_of(plan),
        provenance_rows: provenance_of(plan),
        source_modified: false,
        duplicate_relationship: None,
        revision_relationship: None,
        multidisc_state: None,
        support_role: None,
    }
}

/// How an association is called.
pub open spec fn association_line(association: AssociationModel) -> Seq<char> {
    match association {
        AssociationModel::Attached(label) => "Attached ("@ + label + ")"@,
        AssociationModel::Candidate(reason) => "Candidate ("@ + reason + ")"@,
        AssociationModel::Unassociated => "Unassociated"@,
        AssociationModel::UnsafeReference(detail) => "UnsafeReference ("@ + detail + ")"@,
    }
}

fn association_label(association: &SupportAssociation) -> (r: String)
    ensures
        r@ == association_line(association@),
{
    match association {
        SupportAssociation::Attached { set_label } => bracketed_label(
            "Attached (",
            set_label.as_str(),
        ),
        SupportAssociation::Candidate { reason } => bracketed_label(
            "Candidate (",
            reason.as_str(),
        ),
        SupportAssociation::Unassociated => "Unassociated".to_owned(),
        SupportAssociation::UnsafeReference { detail } => bracketed_label(
            "UnsafeReference (",
            detail.as_str(),
        ),
    }
}

fn bracketed_label(prefix: &str, text: &str) -> (r: String)
    ensures
        r@ == prefix@ + text@ + ")"@,
{
    let mut out = prefix.to_owned();
    out.append(text);
    out.append(")");
    out
}

/// Presents a plan together with what is known about it from elsewhere.
pub fn present_library_plan_with_context(
    plan: &LibraryItemPlan,
    identity: &IdentityResult,
    duplicate_relationship: Option<&DuplicateGroup>,
    revision_relationship: Option<&ReleaseRelationship>,
    multidisc_state: Option<&str>,
    support: Option<&SupportFileAttachment>,
) -> (r: LibraryPlanPresentation)
    ensures
        presents_plan(r, *plan, *identity),
        match duplicate_relationship {
            Some(group) => r.duplicate_relationship matches Some(g) && g@ == group@,
            None => r.duplicate_relationship is None,
        },
        match revision_relationship {
            Some(revision) => r.revision_relationship == Some(*revision),
            None => r.revision_relationship is None,
        },
        opt_view(r.multidisc_state) == crate::param_sfo::opt_str(multidisc_state),
        match support {
            Some(attachment) => r.support_role matches Some(s) && s.role == attachment.role
                && s.association_label@ == association_line(attachment.association@),
            None => r.support_role is None,
        },
{
    let mut presentation = present_library_plan(plan, identity);
    presentation.duplicate_relationship = match duplicate_relationship {
        Some(group) => Some(group.copy()),
        None => None,
    };
    presentation.revision_relationship = match revision_relationship {
        Some(revision) => Some(revision.copy()),
        None => None,
    };
    presentation.multidisc_state = match multidisc_state {
        Some(state) => Some(state.to_owned()),
        None => None,
    };
    presentation.support_role = match support {
        Some(attachment) => Some(
            SupportRolePresentation {
                role: attachment.role,
                association_label: association_label(&attachment.association),
            },
        ),
        None => None,
    };
    presentation
}

/// A headed section of rows; absent without rows.
pub open spec fn row_section(head: Seq<char>, rows: Seq<Seq<char>>) -> Seq<char> {
    if rows.len() > 0 {
        head + indented(rows)
    } else {
        seq![]
    }
}

/// The section on duplicates; deleting is never authorised.
pub open spec fn duplicate_section(group: Option<DuplicateGroup>) -> Seq<char> {
    match group {
        Some(g) => "\nDuplicate relationship:\n  "@ + g.classification.label_text() + "\n"@ + "  "@
            + g.basis@ + "\n"@ + "  Delete:\n    NOT AUTHORIZED\n"@,
        None => seq![],
    }
}

/// The section on lineage.
pub open spec fn revision_section(revision: Option<ReleaseRelationship>) -> Seq<char> {
    match revision {
        Some(r) => "\nRelease relationship:\n  "@ + r.label_text() + "\n"@,
        None => seq![],
    }
}

/// The section on a multi-disc set.
pub open spec fn multidisc_section(state: Option<Seq<char>>) -> Seq<char> {
    match state {
        Some(s) => "\nMulti-disc set:\n  "@ + s + "\n"@,
        None => seq![],
    }
}

/// The section on a support file.
pub open spec fn support_section(support: Option<SupportRolePresentation>) -> Seq<char> {
    match support {
        Some(s) => "\nSupport file role:\n  "@ + s.role.label_text() + " - "@
            + s.association_label@ + "\n"@,
        None => seq![],
    }
}

/// The rendering of a plan's presentation.
pub open spec fn plan_text(p: LibraryPlanPresentation) -> Seq<char> {
    let platform = match p.identity.platform {
        Some(platform) => platform@,
        None => "Unknown"@,
    };
    let modified = if p.source_modified {
        "YES"@
    } else {
        "NO"@
    };
    p.status.label_text() + "\n\n"@ + "Source:\n  "@ + p.source@ + "\n\n"@ + "Identity:\n  "@
        + platform + " - "@ + p.identity.status.label_text() + "\n"@ + "\nProposed library:\n  "@
        + text_or(opt_view(p.platform_library), "(none - unresolved identity)"@) + "\n"@
        + "\nProposed destination:\n  "@ + text_or(
        opt_view(p.destination_preview),
        "(preview only - not ready)"@,
    ) + "\n"@ + "\nSet identity:\n  "@ + p.set_summary@ + "\n"@ + "\nRename suggestion:\n  "@
        + p.rename_summary@ + "\n"@ + "\nRomM:\n  "@ + p.romm_summary@ + "\n"@ + row_section(
        "\nBlockers:\n"@,
        views(p.blockers@),
    ) + row_section("\nWarnings:\n"@, views(p.warnings@)) + "\nSource modified:\n  "@ + modified
        + "\n"@ + duplicate_section(p.duplicate_relationship) + revision_section(
        p.revision_relationship,
    ) + multidisc_section(opt_view(p.multidisc_state)) + support_section(p.support_role)
}

fn section_of_rows(head: &str, rows: &Vec<String>) -> (r: String)
    ensures
        r@ == row_section(head@, views(rows@)),
{
    assert(views(rows@).len() == rows@.len());
    if rows.len() > 0 {
        let mut out = head.to_owned();
        out.append(indent(rows).as_str());
        out
    } else {
        let empty = String::new();
        assert(empty@ =~= seq![]);
        empty
    }
}

fn section_of_duplicates(group: &Option<DuplicateGroup>) -> (r: String)
    ensures
        r@ == duplicate_section(*group),
{
    match group {
        Some(g) => {
            let mut out = "\nDuplicate relationship:\n  ".to_owned();
            out.append(g.classification.label());
            out.append("\n");
            out.append("  ");
            out.append(g.basis.as_str());
            out.append("\n");
            out.append("  Delete:\n    NOT AUTHORIZED\n");
            out
        },
        None => {
            let empty = String::new();
            assert(empty@ =~= seq![]);
            empty
        },
    }
}

fn section_of_revision(revision: &Option<ReleaseRelationship>) -> (r: String)
    ensures
        r@ == revision_section(*revision),
{
    match revision {
        Some(r) => {
            let mut out = "\nRelease relationship:\n  ".to_owned();
            out.append(r.label().as_str());
            out.append("\n");
            out
        },
        None => {
            let empty = String::new();
            assert(empty@ =~= seq![]);
            empty
        },
    }
}

fn section_of_multidisc(state: &Option<String>) -> (r: String)
    ensures
        r@ == multidisc_section(opt_view(*state)),
{
    match state {
        Some(s) => {
            let mut out = "\nMulti-disc set:\n  ".to_owned();
            out.append(s.as_str());
            out.append("\n");
            out
        },
        None => {
            let empty = String::new();
            assert(empty@ =~= seq![]);
            empty
        },
    }
}

fn section_of_support(support: &Option<SupportRolePresentation>) -> (r: String)
    ensures
        r@ == support_section(*support),
{
    match support {
        Some(s) => {
            let mut out = "\nSupport file role:\n  ".to_owned();
            out.append(s.role.label());
            out.append(" - ");
            out.append(s.association_label.as_str());
            out.append("\n");
            out
        },
        None => {
            let empty = String::new();
            assert(empty@ =~= seq![]);
            empty
        },
    }
}

/// Renders a plan's presentation as plain text.
pub fn render_library_plan_text(presentation: &LibraryPlanPresentation) -> (r: String)
    ensures
        r@ == plan_text(*presentation),
{
    let mut out = presentation.status.label().to_owned();
    out.append("\n\n");
    out.append("Source:\n  ");
    out.append(presentation.source.as_str());
    out.append("\n\n");
    out.append("Identity:\n  ");
    match presentation.identity.platform {
        Some(platform) => out.append(platform),
        None => out.append("Unknown"),
    }
    out.append(" - ");
    out.append(presentation.identity.status.label());
    out.append("\n");
    out.append("\nProposed library:\n  ");
    out.append(
        string_or(&presentation.platform_library, "(none - unresolved identity)").as_str(),
    );
    out.append("\n");
    out.append("\nProposed destination:\n  ");
    out.append(
        string_or(&presentation.destination_preview, "(preview only - not ready)").as_str(),
    );
    out.append("\n");
    out.append("\nSet identity:\n  ");
    out.append(presentation.set_summary.as_str());
    out.append("\n");
    out.append("\nRename suggestion:\n  ");
    out.append(presentation.rename_summary.as_str());
    out.append("\n");
    out.append("\nRomM:\n  ");
    out.append(presentation.romm_summary.as_str());
    out.append("\n");
    out.append(section_of_rows("\nBlockers:\n", &presentation.blockers).as_str());
    out.append(section_of_rows("\nWarnings:\n", &presentation.warnings).as_str());
    out.append("\nSource modified:\n  ");
    out.append(
        if presentation.source_modified {
            "YES"
        } else {
            "NO"
        },
    );
    out.append("\n");
    out.append(section_of_duplicates(&presentation.duplicate_relationship).as_str());
    out.append(section_of_revision(&presentation.revision_relationship).as_str());
    out.append(section_of_multidisc(&presentation.multidisc_state).as_str());
    out.append(section_of_support(&presentation.support_role).as_str());
    out
}

/// A destination is previewed exactly for a plan that is ready.
pub proof fn only_ready_plans_show_a_destination(
    p: LibraryPlanPresentation,
    plan: LibraryItemPlan,
    identity: IdentityResult,
)
    requires
        presents_plan(p, plan, identity),
    ensures
        p.destination_preview is Some <==> plan.status == PlanStatus::Ready,
        !p.source_modified,
{
}

} // verus!
