//! A read-only view of one file's identity, and its plain rendering.
use vstd::prelude::*;
use vstd::string::*;
use crate::content_evidence::{facts, Fact};
use crate::dat::audit::{debug_verdict, verdict_debug, AuditVerdict};
use crate::dat::identity::{
    debug_identity, identity_debug, DatPlatformEvidence, DatPlatformIdentity,
};
use crate::platform::{copy_ids, join_ids, opt_id, platform_by_id, strs};
use crate::platform_evidence_fusion::archive_set_identity::ArchiveSetIdentity;
use crate::platform_evidence_fusion::combined_identity::{dat_platform_of, IdentityRelationship};
use crate::platform_evidence_fusion::dat_hash_representation::RepresentationMatchOutcome;
use crate::platform_evidence_fusion::identity_orchestrator::IdentityResult;
use crate::platform_evidence_fusion::{FiredCandidate, FusionOutcome, ResolutionExplanation};
use crate::text::{decimal, decimal_text, join_texts, joined, views};

verus! {

/// The headline status of an identity, in order of priority.
#[derive(Debug, Clone, Copy, PartialEq, Eq, Structural)]
pub enum IdentityStatus {
    /// Some lanes contradict each other.
    Conflict,
    /// Content or DAT is ambiguous.
    Ambiguous,
    /// A cryptographic DAT hash matched.
    VerifiedByDat,
    /// Content and DAT settled on the same platform.
    ContentAndDatAgree,
    /// Only content settled.
    ContentOnly,
    /// Only the DAT settled.
    DatOnly,
    /// Nothing settled.
    Unknown,
}

impl IdentityStatus {
    pub open spec fn label_text(self) -> Seq<char> {
        match self {
            IdentityStatus::Conflict => "Conflict"@,
            IdentityStatus::Ambiguous => "Ambiguous"@,
            IdentityStatus::VerifiedByDat => "Verified by DAT"@,
            IdentityStatus::ContentAndDatAgree => "Content and DAT agree"@,
            IdentityStatus::ContentOnly => "Strong content evidence"@,
            IdentityStatus::DatOnly => "DAT only"@,
            IdentityStatus::Unknown => "Unknown"@,
        }
    }

    pub fn label(self) -> (r: &'static str)
        ensures
            r@ == self.label_text(),
    {
        match self {
            IdentityStatus::Conflict => "Conflict",
            IdentityStatus::Ambiguous => "Ambiguous",
            IdentityStatus::VerifiedByDat => "Verified by DAT",
            IdentityStatus::ContentAndDatAgree => "Content and DAT agree",
            IdentityStatus::ContentOnly => "Strong content evidence",
            IdentityStatus::DatOnly => "DAT only",
            IdentityStatus::Unknown => "Unknown",
        }
    }
}

/// A label and a value.
pub type ProvenanceRow = (&'static str, String);

/// The contents of a sequence of rows.
pub open spec fn rows_text(rows: Seq<ProvenanceRow>) -> Seq<(Seq<char>, Seq<char>)> {
    rows.map_values(|row: ProvenanceRow| (row.0@, row.1@))
}

/// A read-only view of one file's identity.
#[derive(Debug, Clone, PartialEq, Eq)]
pub struct IdentityPresentation {
    pub headline: Option<&'static str>,
    pub platform: Option<&'static str>,
    pub status: IdentityStatus,
    pub content_summary: String,
    pub dat_summary: String,
    pub representation_summary: String,
    pub set_summary: String,
    pub provenance_rows: Vec<ProvenanceRow>,
    pub conflict_rows: Vec<String>,
    pub caveats: Vec<&'static str>,
    /// Always `false`: presenting an identity changes no file.
    pub source_modified: bool,
}

/// The platform a result names: content's own, else the DAT's registered one.
pub open spec fn named_platform(result: IdentityResult) -> Option<Seq<char>> {
    match result.content.resolved_platform {
        Some(platform) => Some(platform@),
        None => match result.dat {
            Some(dat) => dat_platform_of(dat),
            None => None,
        },
    }
}

/// The verdict of an uncontradicted hash match is a confident one.
pub open spec fn has_confident_match(result: IdentityResult) -> bool {
    match result.representation_match {
        Some(RepresentationMatchOutcome::PhysicalOnly { verdict }) => verdict.confident(),
        Some(RepresentationMatchOutcome::NormalizedOnly { verdict }) => verdict.confident(),
        Some(RepresentationMatchOutcome::BothAgree { verdict, .. }) => verdict.confident(),
        _ => false,
    }
}

/// The headline status: conflict before ambiguity, ambiguity before any
/// settled lane, agreement before a DAT hash, and so on down to unknown.
pub open spec fn status_of(result: IdentityResult) -> IdentityStatus {
    if result.conflicted() {
        IdentityStatus::Conflict
    } else if result.content.outcome == FusionOutcome::Ambiguous || (result.dat matches Some(dat)
        && dat is Ambiguous) {
        IdentityStatus::Ambiguous
    } else if result.combined matches Some(view) && view.relationship is Agree {
        IdentityStatus::ContentAndDatAgree
    } else if has_confident_match(result) {
        IdentityStatus::VerifiedByDat
    } else if result.content.outcome == FusionOutcome::Resolved {
        IdentityStatus::ContentOnly
    } else if result.dat matches Some(dat) && dat is Resolved {
        IdentityStatus::DatOnly
    } else {
        IdentityStatus::Unknown
    }
}

/// The platforms of fired candidates, in order.
pub open spec fn candidate_platforms(s: Seq<FiredCandidate>) -> Seq<Seq<char>> {
    s.map_values(|c: FiredCandidate| c.platform@)
}

/// One line on the content lane.
pub open spec fn content_line(content: ResolutionExplanation) -> Seq<char> {
    match content.outcome {
        FusionOutcome::Resolved => "Resolved: "@ + match content.resolved_platform {
            Some(platform) => platform@,
            None => "?"@,
        },
        FusionOutcome::Ambiguous => "Ambiguous (candidates: "@ + joined(
            candidate_platforms(content.fired_candidates@),
            ", "@,
        ) + ")"@,
        FusionOutcome::Conflict => "Conflict among: "@ + joined(
            strs(content.conflicting_platforms@),
            ", "@,
        ),
        FusionOutcome::Unknown => "No content evidence resolved a platform"@,
    }
}

/// The platforms of DAT statements, in order.
pub open spec fn dat_platforms(s: Seq<DatPlatformEvidence>) -> Seq<Seq<char>> {
    s.map_values(|e: DatPlatformEvidence| e.platform@)
}

/// One line on the DAT lane.
pub open spec fn dat_line(dat: Option<DatPlatformIdentity>) -> Seq<char> {
    match dat {
        None => "No DAT consulted"@,
        Some(DatPlatformIdentity::Unknown) => "DAT: no opinion"@,
        Some(DatPlatformIdentity::Resolved { platform, .. }) => "DAT: "@ + platform@,
        Some(DatPlatformIdentity::Ambiguous { candidates }) => "DAT: ambiguous ("@ + joined(
            dat_platforms(candidates@),
            ", "@,
        ) + ")"@,
    }
}

/// One line on the hash comparison.
pub open spec fn representation_line(m: Option<RepresentationMatchOutcome>) -> Seq<char> {
    match m {
        None => "No hash representation compared"@,
        Some(RepresentationMatchOutcome::NoMatch) => "No DAT hash match"@,
        Some(RepresentationMatchOutcome::PhysicalOnly { verdict }) => {
            "Matched physical bytes ("@ + verdict.label_text() + ")"@
        },
        Some(RepresentationMatchOutcome::NormalizedOnly { verdict }) => {
            "Matched after normalization ("@ + verdict.label_text() + ")"@
        },
        Some(RepresentationMatchOutcome::BothAgree { verdict, identical_bytes }) => {
            if identical_bytes {
                "Matched physical bytes (already canonical, "@ + verdict.label_text() + ")"@
            } else {
                "Matched both physical and normalized representations ("@ + verdict.label_text()
                    + ")"@
            }
        },
        Some(RepresentationMatchOutcome::Disagree { .. }) => {
            "Physical and normalized representations matched different DAT identities"@
        },
    }
}

/// One line on the archive structure.
pub open spec fn set_line(set: Option<ArchiveSetIdentity>) -> Seq<char> {
    match set {
        None => "Not an archive"@,
        Some(ArchiveSetIdentity::Unknown) => "No member resolved a platform"@,
        Some(ArchiveSetIdentity::SingleMember { platform, .. }) => {
            "Single member ("@ + platform@ + ")"@
        },
        Some(ArchiveSetIdentity::MultiMemberSamePlatform { platform, member_indices }) => {
            "Multi-member, same platform ("@ + platform@ + ", "@ + decimal(member_indices@.len())
                + " members)"@
        },
        Some(ArchiveSetIdentity::MultiPlatform { platforms, .. }) => {
            "Multi-platform archive ("@ + joined(strs(platforms@), ", "@) + ")"@
        },
        Some(ArchiveSetIdentity::StructuredSet { platform, .. }) => {
            "Structured set ("@ + platform@ + ")"@
        },
    }
}

/// The row of one content fact.
pub open spec fn content_row(fact: Fact) -> (Seq<char>, Seq<char>) {
    ("content"@, fact.kind.name_text() + " = "@ + fact.value)
}

/// One row for each content fact, then one for the DAT lane.
pub open spec fn provenance_text(result: IdentityResult) -> Seq<(Seq<char>, Seq<char>)> {
    facts(result.content.input_evidence@).map_values(|f: Fact| content_row(f)) + match result.dat {
        Some(dat) => seq![("dat"@, identity_debug(dat))],
        None => seq![],
    }
}

/// The row of a disagreement between content and DAT.
pub open spec fn lane_conflict(result: IdentityResult) -> Seq<Seq<char>> {
    match result.combined {
        Some(view) => match view.relationship {
            IdentityRelationship::Disagree { content_platform, dat_platform } => seq![
                "Content says "@ + content_platform@ + ", DAT says "@ + dat_platform@,
            ],
            _ => seq![],
        },
        None => seq![],
    }
}

/// The row of a disagreement between hashes.
pub open spec fn hash_conflict(result: IdentityResult) -> Seq<Seq<char>> {
    match result.representation_match {
        Some(
            RepresentationMatchOutcome::Disagree { physical_verdict, normalized_verdict },
        ) => seq![
            "Physical hash matched "@ + verdict_debug(physical_verdict)
                + ", normalized hash matched "@ + verdict_debug(normalized_verdict),
        ],
        _ => seq![],
    }
}

/// The row of an archive of several platforms.
pub open spec fn set_conflict(result: IdentityResult) -> Seq<Seq<char>> {
    match result.set_identity {
        Some(ArchiveSetIdentity::MultiPlatform { platforms, .. }) => seq![
            "Archive contains: "@ + joined(strs(platforms@), ", "@),
        ],
        _ => seq![],
    }
}

/// One row for each contradiction, naming both sides.
pub open spec fn conflict_text(result: IdentityResult) -> Seq<Seq<char>> {
    lane_conflict(result) + hash_conflict(result) + set_conflict(result)
}

/// `p` presents `result`.
pub open spec fn presents(p: IdentityPresentation, result: IdentityResult) -> bool {
    &&& opt_id(p.platform) == named_platform(result)
    &&& p.headline == p.platform
    &&& p.status == status_of(result)
    &&& p.content_summary@ == content_line(result.content)
    &&& p.dat_summary@ == dat_line(result.dat)
    &&& p.representation_summary@ == representation_line(result.representation_match)
    &&& p.set_summary@ == set_line(result.set_identity)
    &&& rows_text(p.provenance_rows@) == provenance_text(result)
    &&& views(p.conflict_rows@) == conflict_text(result)
    &&& p.caveats@ == result.caveats@
    &&& !p.source_modified
}

/// Presents a computed identity; changes and decides nothing.
pub fn present_identity(result: &IdentityResult) -> (r: IdentityPresentation)
    ensures
        presents(r, *result),
{
    let platform: Option<&'static str> = match result.content.resolved_platform {
        Some(platform) => Some(platform),
        None => match &result.dat {
            Some(dat) => match dat.platform() {
                Some(id) => match platform_by_id(id) {
                    Some(found) => Some(found.id),
                    None => None,
                },
                None => None,
            },
            None => None,
        },
    };
    IdentityPresentation {
        headline: platform,
        platform,
        status: compute_status(result),
        content_summary: content_summary(&result.content),
        dat_summary: dat_summary(&result.dat),
        representation_summary: representation_summary(&result.representation_match),
        set_summary: set_summary(&result.set_identity),
        provenance_rows: provenance_rows(result),
        conflict_rows: conflict_rows(result),
        caveats: copy_ids(&result.caveats),
        source_modified: false,
    }
}

fn compute_status(result: &IdentityResult) -> (r: IdentityStatus)
    ensures
        r == status_of(*result),
{
    if result.has_conflict() {
        return IdentityStatus::Conflict;
    }
    let content_ambiguous = result.content.outcome == FusionOutcome::Ambiguous;
    let dat_ambiguous = match &result.dat {
        Some(dat) => dat.is_ambiguous(),
        None => false,
    };
    if content_ambiguous || dat_ambiguous {
        return IdentityStatus::Ambiguous;
    }
    let agrees = match &result.combined {
        Some(view) => view.relationship.is_agreement(),
        None => false,
    };
    let confident = match &result.representation_match {
        Some(RepresentationMatchOutcome::PhysicalOnly { verdict }) => verdict.is_confident(),
        Some(RepresentationMatchOutcome::NormalizedOnly { verdict }) => verdict.is_confident(),
        Some(RepresentationMatchOutcome::BothAgree { verdict, .. }) => verdict.is_confident(),
        _ => false,
    };
    let dat_settled = match &result.dat {
        Some(dat) => dat.platform().is_some(),
        None => false,
    };
    if agrees {
        IdentityStatus::ContentAndDatAgree
    } else if confident {
        IdentityStatus::VerifiedByDat
    } else if result.content.outcome == FusionOutcome::Resolved {
        IdentityStatus::ContentOnly
    } else if dat_settled {
        IdentityStatus::DatOnly
    } else {
        IdentityStatus::Unknown
    }
}

fn content_summary(content: &ResolutionExplanation) -> (r: String)
    ensures
        r@ == content_line(*content),
{
    match content.outcome {
        FusionOutcome::Resolved => {
            let mut out = "Resolved: ".to_owned();
            match content.resolved_platform {
                Some(platform) => out.append(platform),
                None => out.append("?"),
            }
            out
        },
        FusionOutcome::Ambiguous => {
            let mut names: Vec<&'static str> = Vec::new();
            let ghost all = candidate_platforms(content.fired_candidates@);
            let mut i: usize = 0;
            while i < content.fired_candidates.len()
                invariant
                    i <= content.fired_candidates@.len(),
                    all == candidate_platforms(content.fired_candidates@),
                    strs(names@) == all.take(i as int),
                decreases content.fired_candidates.len() - i,
            {
                let name: &'static str = content.fired_candidates[i].platform;
                proof {
                    assert(strs(names@.push(name)) =~= strs(names@).push(name@));
                    assert(all.take(i + 1) =~= all.take(i as int).push(name@));
                }
                names.push(name);
                i = i + 1;
            }
            assert(all.take(i as int) =~= all);
            let mut out = "Ambiguous (candidates: ".to_owned();
            out.append(join_ids(&names, ", ").as_str());
            out.append(")");
            out
        },
        FusionOutcome::Conflict => {
            let mut out = "Conflict among: ".to_owned();
            out.append(join_ids(&content.conflicting_platforms, ", ").as_str());
            out
        },
        FusionOutcome::Unknown => "No content evidence resolved a platform".to_owned(),
    }
}

fn dat_summary(dat: &Option<DatPlatformIdentity>) -> (r: String)
    ensures
        r@ == dat_line(*dat),
{
    match dat {
        None => "No DAT consulted".to_owned(),
        Some(DatPlatformIdentity::Unknown) => "DAT: no opinion".to_owned(),
        Some(DatPlatformIdentity::Resolved { platform, .. }) => {
            let mut out = "DAT: ".to_owned();
            out.append(platform.as_str());
            out
        },
        Some(DatPlatformIdentity::Ambiguous { candidates }) => {
            let mut names: Vec<String> = Vec::new();
            let ghost all = dat_platforms(candidates@);
            let mut i: usize = 0;
            while i < candidates.len()
                invariant
                    i <= candidates@.len(),
                    all == dat_platforms(candidates@),
                    views(names@) == all.take(i as int),
                decreases candidates.len() - i,
            {
                let name = candidates[i].platform.clone();
                proof {
                    assert(views(names@.push(name)) =~= views(names@).push(name@));
                    assert(all.take(i + 1) =~= all.take(i as int).push(name@));
                }
                names.push(name);
                i = i + 1;
            }
            assert(all.take(i as int) =~= all);
            let mut out = "DAT: ambiguous (".to_owned();
            out.append(join_texts(&names, ", ").as_str());
            out.append(")");
            out
        },
    }
}

fn representation_summary(m: &Option<RepresentationMatchOutcome>) -> (r: String)
    ensures
        r@ == representation_line(*m),
{
    match m {
        None => "No hash representation compared".to_owned(),
        Some(RepresentationMatchOutcome::NoMatch) => "No DAT hash match".to_owned(),
        Some(RepresentationMatchOutcome::PhysicalOnly { verdict }) => labelled(
            "Matched physical bytes (",
            verdict,
        ),
        Some(RepresentationMatchOutcome::NormalizedOnly { verdict }) => labelled(
            "Matched after normalization (",
            verdict,
        ),
        Some(RepresentationMatchOutcome::BothAgree { verdict, identical_bytes }) => {
            if *identical_bytes {
                labelled("Matched physical bytes (already canonical, ", verdict)
            } else {
                labelled("Matched both physical and normalized representations (", verdict)
            }
        },
        Some(RepresentationMatchOutcome::Disagree { .. }) => {
            "Physical and normalized representations matched different DAT identities".to_owned()
        },
    }
}

fn labelled(prefix: &str, verdict: &AuditVerdict) -> (r: String)
    ensures
        r@ == prefix@ + verdict.label_text() + ")"@,
{
    let mut out = prefix.to_owned();
    out.append(verdict.label());
    out.append(")");
    out
}

fn set_summary(set: &Option<ArchiveSetIdentity>) -> (r: String)
    ensures
        r@ == set_line(*set),
{
    match set {
        None => "Not an archive".to_owned(),
        Some(ArchiveSetIdentity::Unknown) => "No member resolved a platform".to_owned(),
        Some(ArchiveSetIdentity::SingleMember { platform, .. }) => {
            let mut out = "Single member (".to_owned();
            out.append(platform);
            out.append(")");
            out
        },
        Some(ArchiveSetIdentity::MultiMemberSamePlatform { platform, member_indices }) => {
            let mut out = "Multi-member, same platform (".to_owned();
            out.append(platform);
            out.append(", ");
            out.append(decimal_text(member_indices.len() as u64).as_str());
            out.append(" members)");
            out
        },
        Some(ArchiveSetIdentity::MultiPlatform { platforms, .. }) => {
            let mut out = "Multi-platform archive (".to_owned();
            out.append(join_ids(platforms, ", ").as_str());
            out.append(")");
            out
        },
        Some(ArchiveSetIdentity::StructuredSet { platform, .. }) => {
            let mut out = "Structured set (".to_owned();
            out.append(platform);
            out.append(")");
            out
        },
    }
}

fn provenance_rows(result: &IdentityResult) -> (r: Vec<ProvenanceRow>)
    ensures
        rows_text(r@) == provenance_text(*result),
{
    let evidence = &result.content.input_evidence;
    let ghost all = facts(evidence@).map_values(|f: Fact| content_row(f));
    let mut rows: Vec<ProvenanceRow> = Vec::new();
    let mut i: usize = 0;
    while i < evidence.len()
        invariant
            i <= evidence@.len(),
            all == facts(evidence@).map_values(|f: Fact| content_row(f)),
            rows_text(rows@) == all.take(i as int),
        decreases evidence.len() - i,
    {
        let mut value = evidence[i].kind.name().to_owned();
        value.append(" = ");
        value.append(evidence[i].value.as_str());
        let row: ProvenanceRow = ("content", value);
        proof {
            assert(all[i as int] == content_row(evidence@[i as int]@));
            assert(rows_text(rows@.push(row)) =~= rows_text(rows@).push((row.0@, row.1@)));
            assert(all.take(i + 1) =~= all.take(i as int).push((row.0@, row.1@)));
        }
        rows.push(row);
        i = i + 1;
    }
    assert(all.take(i as int) =~= all);
    if let Some(dat) = &result.dat {
        let row: ProvenanceRow = ("dat", debug_identity(dat));
        proof {
            assert(rows_text(rows@.push(row)) =~= rows_text(rows@).push((row.0@, row.1@)));
        }
        rows.push(row);
    }
    assert(rows_text(rows@) =~= provenance_text(*result));
    rows
}

fn conflict_rows(result: &IdentityResult) -> (r: Vec<String>)
    ensures
        views(r@) == conflict_text(*result),
{
    let mut rows: Vec<String> = Vec::new();
    if let Some(view) = &result.combined {
        if let IdentityRelationship::Disagree { content_platform, dat_platform } =
            view.relationship {
            let mut row = "Content says ".to_owned();
            row.append(content_platform);
            row.append(", DAT says ");
            row.append(dat_platform);
            rows.push(row);
        }
    }
    assert(views(rows@) =~= lane_conflict(*result));
    let ghost after_lanes = rows@;
    if let Some(
        RepresentationMatchOutcome::Disagree { physical_verdict, normalized_verdict },
    ) = &result.representation_match {
        let mut row = "Physical hash matched ".to_owned();
        row.append(debug_verdict(physical_verdict).as_str());
        row.append(", normalized hash matched ");
        row.append(debug_verdict(normalized_verdict).as_str());
        rows.push(row);
    }
    assert(views(rows@) =~= views(after_lanes) + hash_conflict(*result));
    let ghost after_hashes = rows@;
    if let Some(ArchiveSetIdentity::MultiPlatform { platforms, .. }) = &result.set_identity {
        let mut row = "Archive contains: ".to_owned();
        row.append(join_ids(platforms, ", ").as_str());
        rows.push(row);
    }
    assert(views(rows@) =~= views(after_hashes) + set_conflict(*result));
    rows
}

/// Each row on a line of its own, indented.
pub open spec fn indented(rows: Seq<Seq<char>>) -> Seq<char>
    decreases rows.len(),
{
    if rows.len() == 0 {
        seq![]
    } else {
        indented(rows.drop_last()) + "  "@ + rows.last() + "\n"@
    }
}

/// The conflict section: absent without conflicts, and never naming a winner.
pub open spec fn conflict_section(rows: Seq<Seq<char>>) -> Seq<char> {
    if rows.len() > 0 {
        "\nConflicts:\n"@ + indented(rows) + "EmuWiz did not choose a winner.\n"@
    } else {
        seq![]
    }
}

/// The caveat section: absent without caveats.
pub open spec fn caveat_section(rows: Seq<Seq<char>>) -> Seq<char> {
    if rows.len() > 0 {
        "\nCaveats:\n"@ + indented(rows)
    } else {
        seq![]
    }
}

/// The rendering of a presentation.
pub open spec fn identity_text(p: IdentityPresentation) -> Seq<char> {
    let head = match p.platform {
        Some(platform) => platform@,
        None => "Unknown platform"@,
    };
    let modified = if p.source_modified {
        "Yes"@
    } else {
        "No"@
    };
    head + "\n"@ + p.status.label_text() + "\n\n"@ + "Content:\n  "@ + p.content_summary@ + "\n"@
        + "DAT:\n  "@ + p.dat_summary@ + "\n"@ + "Representation:\n  "@
        + p.representation_summary@ + "\n"@ + "Set identity:\n  "@ + p.set_summary@ + "\n"@
        + conflict_section(views(p.conflict_rows@)) + caveat_section(strs(p.caveats@))
        + "\nSource modified: "@ + modified + "\n"@
}

/// Renders a presentation as plain text.
pub fn render_identity_text(presentation: &IdentityPresentation) -> (r: String)
    ensures
        r@ == identity_text(*presentation),
{
    let mut out = match presentation.platform {
        Some(platform) => platform.to_owned(),
        None => "Unknown platform".to_owned(),
    };
    out.append("\n");
    out.append(presentation.status.label());
    out.append("\n\n");
    out.append("Content:\n  ");
    out.append(presentation.content_summary.as_str());
    out.append("\n");
    out.append("DAT:\n  ");
    out.append(presentation.dat_summary.as_str());
    out.append("\n");
    out.append("Representation:\n  ");
    out.append(presentation.representation_summary.as_str());
    out.append("\n");
    out.append("Set identity:\n  ");
    out.append(presentation.set_summary.as_str());
    out.append("\n");
    let mut conflicts = String::new();
    if presentation.conflict_rows.len() > 0 {
        conflicts = "\nConflicts:\n".to_owned();
        conflicts.append(indent(&presentation.conflict_rows).as_str());
        conflicts.append("EmuWiz did not choose a winner.\n");
    }
    assert(views(presentation.conflict_rows@).len() == presentation.conflict_rows@.len());
    assert(conflicts@ =~= conflict_section(views(presentation.conflict_rows@)));
    out.append(conflicts.as_str());
    let mut caveats = String::new();
    if presentation.caveats.len() > 0 {
        caveats = "\nCaveats:\n".to_owned();
        caveats.append(indent_ids(&presentation.caveats).as_str());
    }
    assert(strs(presentation.caveats@).len() == presentation.caveats@.len());
    assert(caveats@ =~= caveat_section(strs(presentation.caveats@)));
    out.append(caveats.as_str());
    out.append("\nSource modified: ");
    out.append(
        if presentation.source_modified {
            "Yes"
        } else {
            "No"
        },
    );
    out.append("\n");
    out
}

/// Each row on a line of its own, indented.
pub(crate) fn indent(rows: &Vec<String>) -> (r: String)
    ensures
        r@ == indented(views(rows@)),
{
    let ghost all = views(rows@);
    let mut out = String::new();
    let mut i: usize = 0;
    assert(out@ =~= indented(all.take(0)));
    while i < rows.len()
        invariant
            i <= rows@.len(),
            all == views(rows@),
            out@ == indented(all.take(i as int)),
        decreases rows.len() - i,
    {
        proof {
            assert(all.take(i + 1).drop_last() =~= all.take(i as int));
            assert(all.take(i + 1).last() == rows@[i as int]@);
        }
        out.append("  ");
        out.append(rows[i].as_str());
        out.append("\n");
        i = i + 1;
    }
    assert(all.take(i as int) =~= all);
    out
}

fn indent_ids(rows: &Vec<&'static str>) -> (r: String)
    ensures
        r@ == indented(strs(rows@)),
{
    let ghost all = strs(rows@);
    let mut out = String::new();
    let mut i: usize = 0;
    assert(out@ =~= indented(all.take(0)));
    while i < rows.len()
        invariant
            i <= rows@.len(),
            all == strs(rows@),
            out@ == indented(all.take(i as int)),
        decreases rows.len() - i,
    {
        proof {
            assert(all.take(i + 1).drop_last() =~= all.take(i as int));
            assert(all.take(i + 1).last() == rows@[i as int]@);
        }
        out.append("  ");
        out.append(rows[i]);
        out.append("\n");
        i = i + 1;
    }
    assert(all.take(i as int) =~= all);
    out
}

/// A status of `VerifiedByDat` always rests on a confident hash verdict, never
/// on content evidence alone.
pub proof fn verified_needs_a_confident_verdict(result: IdentityResult)
    ensures
        status_of(result) == IdentityStatus::VerifiedByDat ==> has_confident_match(result),
        result.conflicted() <==> status_of(result) == IdentityStatus::Conflict,
{
}

/// Two presentations of one result show the same.
pub proof fn presentation_is_deterministic(
    result: IdentityResult,
    a: IdentityPresentation,
    b: IdentityPresentation,
)
    requires
        presents(a, result),
        presents(b, result),
    ensures
        identity_text(a) == identity_text(b),
{
    assert(opt_id(a.platform) == opt_id(b.platform));
}

} // verus!
