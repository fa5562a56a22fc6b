//! Plans shown, frozen and reported.
use archivefs_core::content_evidence::{
    ContentEvidence, ContentEvidenceConfidence, ContentEvidenceKind,
};
use archivefs_core::dat::audit::AuditVerdict;
use archivefs_core::dat::identity::{
    DatPlatformConfidence, DatPlatformEvidence, DatPlatformEvidenceKind, DatPlatformIdentity,
};
use archivefs_core::dat::rom_organisation::{OrganisationEntry, OrganisationMode};
use archivefs_core::platform_evidence_fusion::archive_set_identity::ArchiveSetIdentity;
use archivefs_core::platform_evidence_fusion::dat_hash_representation::RepresentationMatchOutcome;
use archivefs_core::platform_evidence_fusion::duplicate_taxonomy::{
    DuplicateClass, DuplicateGroup, DuplicateGroupConfidence,
};
use archivefs_core::platform_evidence_fusion::full_library_report::{
    build_full_report, CountMismatch, FullLibraryCounts,
};
use archivefs_core::platform_evidence_fusion::identity_orchestrator::{
    inspect_identity, IdentityInspectionInput, IdentityResult,
};
use archivefs_core::platform_evidence_fusion::library_grouping::group_multidisc_sets;
use archivefs_core::platform_evidence_fusion::library_plan_export::{
    export_item, export_item_with_context, export_plan, OperationIntent, SetAndSupportContext,
};
use archivefs_core::platform_evidence_fusion::library_plan_presentation::{
    present_library_plan, present_library_plan_with_context, render_library_plan_text,
};
use archivefs_core::platform_evidence_fusion::library_planning::{
    LibraryItemPlan, LibraryPlanInput, LibraryPlanningReport, PlanStatus, RenameBasis,
    RenameSuggestion, RommMapping, RommMappingStatus,
};
use archivefs_core::platform_evidence_fusion::release_relationship::ReleaseRelationship;
use archivefs_core::platform_evidence_fusion::set_destination::{
    plan_set_destinations, SupportCandidate,
};
use archivefs_core::platform_evidence_fusion::side_file_classification::SideFileRole;
use archivefs_core::platform_evidence_fusion::support_attachment::{
    SupportAssociation, SupportFileAttachment,
};

fn strong(kind: ContentEvidenceKind, value: &str) -> ContentEvidence {
    ContentEvidence::new(kind, value, ContentEvidenceConfidence::Strong, "test fact")
}

fn saturn_identity() -> IdentityResult {
    inspect_identity(IdentityInspectionInput {
        content_evidence: vec![strong(
            ContentEvidenceKind::BootStructure,
            "SEGA SEGASATURN",
        )],
        ..Default::default()
    })
}

fn unknown_identity() -> IdentityResult {
    inspect_identity(IdentityInspectionInput::default())
}

fn exact_identity(game: &str, platform: &str) -> IdentityResult {
    inspect_identity(IdentityInspectionInput {
        dat: Some(DatPlatformIdentity::Resolved {
            platform: platform.to_string(),
            machine_key: None,
            confidence: DatPlatformConfidence::Strong,
            evidence: Vec::new(),
        }),
        representation_match: Some(RepresentationMatchOutcome::PhysicalOnly {
            verdict: AuditVerdict::Exact {
                game_name: game.to_string(),
                rom_name: format!("{game}.bin"),
                algorithm: "SHA-1",
            },
        }),
        ..Default::default()
    })
}

/// The plan of a file whose platform is settled, with a slug if there is one.
fn ready_plan(name: &str, slug: Option<&str>) -> LibraryItemPlan {
    LibraryItemPlan {
        status: PlanStatus::Ready,
        organisation: OrganisationEntry {
            source_path: format!("/incoming/{name}"),
            destination_path: format!("/root/saturn/{name}"),
            platform: Some("Saturn".to_string()),
            platform_source: "content evidence".to_string(),
            mode: OrganisationMode::MoveRealFile,
            reason: None,
        },
        set_identity: None,
        rename: RenameSuggestion {
            basis: RenameBasis::OriginalNamePreserved,
            proposed_name: Some(name.to_string()),
            blockers: Vec::new(),
        },
        romm: RommMapping {
            status: if slug.is_some() {
                RommMappingStatus::Mapped
            } else {
                RommMappingStatus::Unmapped
            },
            slug: slug.map(str::to_string),
            canonical_platform: Some("Saturn".to_string()),
            warnings: Vec::new(),
        },
    }
}

/// The plan of a file whose platform is not settled.
fn unready_plan(name: &str, status: PlanStatus) -> LibraryItemPlan {
    let mut plan = ready_plan(name, None);
    plan.status = status;
    plan.organisation.platform = None;
    plan.organisation.reason = Some("platform is not settled".to_string());
    plan.rename.basis = RenameBasis::Unavailable;
    plan.rename.proposed_name = None;
    plan.romm.status = RommMappingStatus::Unsupported;
    plan.romm.canonical_platform = None;
    plan
}

fn report_of(items: Vec<LibraryItemPlan>) -> LibraryPlanningReport {
    let count = |status: PlanStatus| items.iter().filter(|item| item.status == status).count();
    let romm = |status: RommMappingStatus| {
        items
            .iter()
            .filter(|item| item.romm.status == status)
            .count()
    };
    LibraryPlanningReport {
        ready: count(PlanStatus::Ready),
        needs_review: count(PlanStatus::NeedsReview),
        ambiguous: count(PlanStatus::Ambiguous),
        conflict: count(PlanStatus::Conflict),
        unknown: count(PlanStatus::Unknown),
        unsupported: count(PlanStatus::Unsupported),
        romm_mapped: romm(RommMappingStatus::Mapped),
        romm_unmapped: romm(RommMappingStatus::Unmapped),
        items,
    }
}

fn input(name: &str, identity: IdentityResult) -> LibraryPlanInput {
    LibraryPlanInput {
        source_path: format!("/incoming/{name}"),
        identity,
        set_identity: None,
        physical_hash: None,
        normalized_hash: None,
        release_relationship: None,
    }
}

fn candidate(path: &str, role: SideFileRole, association: SupportAssociation) -> SupportCandidate<'_> {
    SupportCandidate {
        path,
        role,
        association,
        referenced_members: Vec::new(),
    }
}

#[test]
fn ready_item_exports_a_real_destination_and_move_intent() {
    let identity = saturn_identity();
    let plan = ready_plan("game.bin", Some("saturn"));
    let presentation = present_library_plan(&plan, &identity);
    let export = export_item(&plan, &presentation, Some("abc123"), None);

    assert_eq!(export.status, PlanStatus::Ready);
    assert!(export.proposed_destination.is_some());
    assert_eq!(
        export.operation_intent,
        OperationIntent::MoveToLibraryFolder
    );
    assert_eq!(export.precondition.physical_hash.as_deref(), Some("abc123"));
    assert_eq!(export.romm_status, RommMappingStatus::Mapped);
}

#[test]
fn non_ready_item_exports_no_destination_and_no_operation() {
    let identity = unknown_identity();
    let plan = unready_plan("game.bin", PlanStatus::Unknown);
    let presentation = present_library_plan(&plan, &identity);
    let export = export_item(&plan, &presentation, None, None);

    assert_eq!(export.status, PlanStatus::Unknown);
    assert!(export.proposed_destination.is_none());
    assert_eq!(export.operation_intent, OperationIntent::NoOperation);
}

#[test]
fn export_never_computes_a_new_hash_it_only_carries_forward_what_was_supplied() {
    let plan = ready_plan("game.bin", None);
    let presentation = present_library_plan(&plan, &saturn_identity());
    let export = export_item(&plan, &presentation, None, None);
    assert!(export.precondition.physical_hash.is_none());
    assert!(export.precondition.normalized_hash.is_none());
}

#[test]
fn export_plan_preserves_caller_supplied_order() {
    let identity = saturn_identity();
    let report = report_of(vec![
        ready_plan("b.bin", Some("saturn")),
        ready_plan("a.bin", Some("saturn")),
    ]);
    let presentations: Vec<_> = report
        .items
        .iter()
        .map(|item| present_library_plan(item, &identity))
        .collect();
    let pairs: Vec<_> = report
        .items
        .iter()
        .zip(presentations.iter())
        .map(|(plan, presentation)| (plan, presentation, None, None))
        .collect();
    let export = export_plan(&pairs);
    assert_eq!(export.items.len(), 2);
    assert_eq!(export.items[0].precondition.source_path, "/incoming/b.bin");
    assert_eq!(export.items[1].precondition.source_path, "/incoming/a.bin");
}

#[test]
fn export_with_context_carries_set_and_support_facts() {
    let plan = ready_plan("game.bin", Some("saturn"));
    let presentation = present_library_plan(&plan, &saturn_identity());
    let set_and_support = SetAndSupportContext {
        set_label: Some("Some Game (USA)".to_string()),
        set_destination: Some("/root/saturn/Some Game (USA)".to_string()),
        support_role: None,
        support_association: None,
    };
    let export = export_item_with_context(&plan, &presentation, None, None, &set_and_support);
    assert_eq!(export.set_label.as_deref(), Some("Some Game (USA)"));
    assert!(export.set_destination.is_some());
}

#[test]
fn export_with_context_default_matches_plain_export_item() {
    let plan = ready_plan("game.bin", None);
    let presentation = present_library_plan(&plan, &saturn_identity());
    let plain = export_item(&plan, &presentation, None, None);
    assert!(plain.set_label.is_none());
    assert!(plain.support_role.is_none());
    let with_default = export_item_with_context(
        &plan,
        &presentation,
        None,
        None,
        &SetAndSupportContext::default(),
    );
    assert_eq!(plain, with_default);
}

#[test]
fn export_intents_follow_the_mode() {
    let identity = saturn_identity();
    for (mode, intent, name) in [
        (
            OrganisationMode::MoveRealFile,
            OperationIntent::MoveToLibraryFolder,
            "MoveToLibraryFolder",
        ),
        (
            OrganisationMode::RenameInPlace,
            OperationIntent::RenameInPlace,
            "RenameInPlace",
        ),
        (
            OrganisationMode::OrganiseSymlinkOnly,
            OperationIntent::OrganiseSymlinkOnly,
            "OrganiseSymlinkOnly",
        ),
    ] {
        let mut plan = ready_plan("game.bin", None);
        plan.organisation.mode = mode;
        let presentation = present_library_plan(&plan, &identity);
        let export = export_item(&plan, &presentation, None, Some("n"));
        assert_eq!(export.operation_intent, intent);
        assert_eq!(export.operation_intent.name(), name);
        assert_eq!(export.precondition.normalized_hash.as_deref(), Some("n"));
        assert_eq!(export.display_name, "Saturn");
    }
    assert_eq!(OperationIntent::NoOperation.name(), "None");
}

#[test]
fn ready_plan_shows_a_real_destination_preview() {
    let presentation =
        present_library_plan(&ready_plan("game.bin", Some("saturn")), &saturn_identity());
    assert!(presentation.destination_preview.is_some());
    assert_eq!(presentation.status, PlanStatus::Ready);
}

#[test]
fn non_ready_plan_never_shows_a_fabricated_destination() {
    let plan = unready_plan("game.bin", PlanStatus::Unknown);
    let presentation = present_library_plan(&plan, &unknown_identity());
    assert!(presentation.destination_preview.is_none());
}

#[test]
fn romm_unmapped_alone_still_reaches_ready_with_a_real_destination() {
    let presentation = present_library_plan(&ready_plan("game.bin", None), &saturn_identity());
    assert!(presentation.destination_preview.is_some());
    assert!(presentation
        .romm_summary
        .to_lowercase()
        .contains("no romm slug mapping"));
}

#[test]
fn rename_summary_always_says_not_authorized_when_a_name_is_proposed() {
    let presentation =
        present_library_plan(&ready_plan("game.bin", Some("saturn")), &saturn_identity());
    assert!(presentation.rename_summary.contains("NOT AUTHORIZED"));
}

#[test]
fn set_summary_reports_single_file_when_no_archive_context() {
    let presentation = present_library_plan(&ready_plan("game.bin", None), &saturn_identity());
    assert!(presentation.set_summary.contains("Single file"));
}

#[test]
fn set_summary_reports_multi_member_when_archive_context_present() {
    let mut plan = ready_plan("game.bin", None);
    plan.set_identity = Some(ArchiveSetIdentity::MultiMemberSamePlatform {
        member_indices: vec![0, 1],
        platform: "SNES",
    });
    let presentation = present_library_plan(&plan, &saturn_identity());
    assert!(presentation.set_summary.contains("Multi-member"));
    assert!(presentation.set_summary.contains("not collapsed"));
    assert_eq!(
        presentation.provenance_rows[2],
        (
            "set_identity",
            "MultiMemberSamePlatform { member_indices: [0, 1], platform: \"SNES\" }".to_string()
        )
    );
}

#[test]
fn romm_summary_reports_unmapped_honestly() {
    let presentation = present_library_plan(&ready_plan("game.bin", None), &saturn_identity());
    assert!(presentation
        .romm_summary
        .to_lowercase()
        .contains("no romm slug mapping"));
}

#[test]
fn tests_render_text_always_reports_source_modified_no() {
    let presentation = present_library_plan(&ready_plan("game.bin", None), &saturn_identity());
    let text = render_library_plan_text(&presentation);
    assert!(text.contains("Source modified:\n  NO"));
}

#[test]
fn render_text_conflict_never_proposes_a_library() {
    let identity = inspect_identity(IdentityInspectionInput {
        content_evidence: vec![
            strong(ContentEvidenceKind::Filesystem, "XDVDFS"),
            strong(ContentEvidenceKind::ContentSignature, "XBEH"),
        ],
        dat: Some(DatPlatformIdentity::Resolved {
            platform: "Xbox360".to_string(),
            machine_key: None,
            confidence: DatPlatformConfidence::Strong,
            evidence: vec![DatPlatformEvidence {
                platform: "Xbox360".to_string(),
                machine_key: None,
                kind: DatPlatformEvidenceKind::HeaderName,
                confidence: DatPlatformConfidence::Strong,
                detail: "test".to_string(),
            }],
        }),
        ..Default::default()
    });
    let plan = unready_plan("game.iso", PlanStatus::Conflict);
    let presentation = present_library_plan(&plan, &identity);
    assert_eq!(presentation.status, PlanStatus::Conflict);
    assert!(presentation.destination_preview.is_none());
    assert!(presentation.platform_library.is_none());
}

#[test]
fn present_library_plan_is_deterministic() {
    let identity = saturn_identity();
    let plan = ready_plan("game.bin", Some("saturn"));
    let a = present_library_plan(&plan, &identity);
    let b = present_library_plan(&plan, &identity);
    assert_eq!(a, b);
}

#[test]
fn plan_text_is_exact() {
    let mut plan = unready_plan("game.bin", PlanStatus::NeedsReview);
    plan.rename.blockers = vec!["no name".to_string(), "platform is not settled".to_string()];
    plan.romm.warnings = vec!["check the slug"];
    let group = DuplicateGroup {
        classification: DuplicateClass::PossibleDuplicate,
        members: Vec::new(),
        basis: "same base name".to_string(),
        confidence: DuplicateGroupConfidence::Weak,
    };
    let revision = ReleaseRelationship::CloneOf {
        game_name: "Game (Rev 1)".to_string(),
        parent: "Game".to_string(),
    };
    let support = SupportFileAttachment {
        path: "/incoming/game.cue".to_string(),
        role: SideFileRole::CueSheet,
        association: SupportAssociation::Attached {
            set_label: "Game".to_string(),
        },
    };
    let presentation = present_library_plan_with_context(
        &plan,
        &unknown_identity(),
        Some(&group),
        Some(&revision),
        Some("Disc 1 of 2"),
        Some(&support),
    );
    assert_eq!(
        render_library_plan_text(&presentation),
        "Needs review\n\nSource:\n  /incoming/game.bin\n\nIdentity:\n  Unknown - Unknown\n\
         \nProposed library:\n  (none - unresolved identity)\n\
         \nProposed destination:\n  (preview only - not ready)\n\
         \nSet identity:\n  Single file (not part of an inspected archive)\n\
         \nRename suggestion:\n  No rename suggestion available\n\
         \nRomM:\n  No canonical platform to map\n\
         \nBlockers:\n  no name\n  platform is not settled\n\
         \nWarnings:\n  check the slug\n\
         \nSource modified:\n  NO\n\
         \nDuplicate relationship:\n  Possible duplicate\n  same base name\n  \
         Delete:\n    NOT AUTHORIZED\n\
         \nRelease relationship:\n  Same game, different revision (parent: Game)\n\
         \nMulti-disc set:\n  Disc 1 of 2\n\
         \nSupport file role:\n  Cue sheet - Attached (Game)\n"
    );
}

#[test]
fn full_report_counts_primary_and_support_files_separately() {
    let inputs = vec![input("game.bin", saturn_identity())];
    let candidates = vec![candidate(
        "/incoming/cover.jpg",
        SideFileRole::Artwork,
        SupportAssociation::Unassociated,
    )];
    let plan = report_of(vec![ready_plan("game.bin", None)]);
    let report = build_full_report(&inputs, plan, &candidates);
    assert_eq!(report.counts.primary_items, 1);
    assert_eq!(report.counts.support_files, 1);
}

#[test]
fn full_report_status_counts_match_the_underlying_plan() {
    let inputs = vec![input("game.bin", saturn_identity())];
    let plan = report_of(vec![ready_plan("game.bin", None)]);
    let report = build_full_report(&inputs, plan, &[]);
    assert_eq!(report.counts.ready, report.plan.ready);
    assert_eq!(report.counts.romm_unmapped, report.plan.romm_unmapped);
}

#[test]
fn full_report_reflects_duplicate_groups() {
    let mut a = input("a.bin", saturn_identity());
    let mut b = input("b.bin", saturn_identity());
    a.physical_hash = Some("hash1".to_string());
    b.physical_hash = Some("hash1".to_string());
    let plan = report_of(vec![ready_plan("a.bin", None), ready_plan("b.bin", None)]);
    let report = build_full_report(&[a, b], plan, &[]);
    assert_eq!(report.counts.exact_physical_duplicates, 1);
    assert_eq!(report.duplicate_groups.len(), 1);
}

#[test]
fn empty_input_yields_a_well_formed_empty_report() {
    let report = build_full_report(&[], report_of(Vec::new()), &[]);
    assert_eq!(report.counts.primary_items, 0);
    assert!(report.duplicate_groups.is_empty());
    assert!(report.multidisc_sets.is_empty());
}

#[test]
fn support_candidates_are_counted_and_reconcile() {
    let inputs = vec![input("game.bin", saturn_identity())];
    let candidates = vec![
        candidate(
            "/incoming/manual.pdf",
            SideFileRole::Manual,
            SupportAssociation::Candidate {
                reason: "ambiguous".to_string(),
            },
        ),
        candidate(
            "/incoming/readme.txt",
            SideFileRole::Readme,
            SupportAssociation::Unassociated,
        ),
        candidate(
            "/incoming/bad.cue",
            SideFileRole::CueSheet,
            SupportAssociation::UnsafeReference {
                detail: "traversal".to_string(),
            },
        ),
    ];
    let plan = report_of(vec![ready_plan("game.bin", None)]);
    let report = build_full_report(&inputs, plan, &candidates);
    assert_eq!(report.counts.support_files, 3);
    assert_eq!(report.counts.support_candidate, 1);
    assert_eq!(report.counts.support_unassociated, 1);
    assert_eq!(report.counts.support_unsafe, 1);
    assert_eq!(report.counts.support_attached, 0);
    assert!(report.counts.check_invariants().is_ok());
}

#[test]
fn attached_support_reaches_a_real_set_destination_via_full_report() {
    let inputs = vec![input("game.bin", saturn_identity())];
    let candidates = vec![SupportCandidate {
        path: "/incoming/game.cue",
        role: SideFileRole::CueSheet,
        association: SupportAssociation::Attached {
            set_label: "game".to_string(),
        },
        referenced_members: vec!["/incoming/game.bin".to_string()],
    }];
    let plan = report_of(vec![ready_plan("game.bin", Some("saturn"))]);
    let report = build_full_report(&inputs, plan, &candidates);
    assert_eq!(report.set_destinations.len(), 1);
    assert_eq!(report.counts.support_attached, 1);
    assert_eq!(
        report.support_items[0].proposed_destination.as_deref(),
        Some("/root/saturn/game/game.cue")
    );
    assert_eq!(report.set_destinations[0].set_folder, "/root/saturn/game");
    assert_eq!(
        report.set_destinations[0].member_destinations,
        vec![(
            "/incoming/game.bin".to_string(),
            "/root/saturn/game/game.bin".to_string()
        )]
    );
    assert!(report.counts.check_invariants().is_ok());
}

#[test]
fn plan_status_totals_reconcile_with_primary_items() {
    let inputs = vec![
        input("a.bin", saturn_identity()),
        input("b.bin", unknown_identity()),
    ];
    let plan = report_of(vec![
        ready_plan("a.bin", None),
        unready_plan("b.bin", PlanStatus::Unknown),
    ]);
    let report = build_full_report(&inputs, plan, &[]);
    assert!(report.counts.check_invariants().is_ok());
    assert_eq!(
        report.counts.ready
            + report.counts.needs_review
            + report.counts.ambiguous
            + report.counts.conflict
            + report.counts.unknown
            + report.counts.unsupported,
        report.counts.primary_items
    );
}

#[test]
fn different_revision_groups_are_counted_and_reconcile() {
    let mut a = input("a.bin", saturn_identity());
    a.release_relationship = Some(ReleaseRelationship::Canonical {
        game_name: "Game (USA)".to_string(),
    });
    let mut b = input("b.bin", saturn_identity());
    b.release_relationship = Some(ReleaseRelationship::CloneOf {
        game_name: "Game (USA) (Rev 1)".to_string(),
        parent: "Game (USA)".to_string(),
    });
    let plan = report_of(vec![ready_plan("a.bin", None), ready_plan("b.bin", None)]);
    let report = build_full_report(&[a, b], plan, &[]);
    assert_eq!(report.counts.different_revision_groups, 1);
    assert_eq!(report.counts.release_groups, 1);
}

#[test]
fn no_item_counted_twice_across_mutually_exclusive_support_states() {
    let paths: Vec<String> = (0..4).map(|i| format!("/incoming/f{i}.txt")).collect();
    let candidates = vec![
        candidate(
            &paths[0],
            SideFileRole::Readme,
            SupportAssociation::Unassociated,
        ),
        candidate(
            &paths[1],
            SideFileRole::Manual,
            SupportAssociation::Candidate {
                reason: "x".to_string(),
            },
        ),
        candidate(
            &paths[2],
            SideFileRole::CueSheet,
            SupportAssociation::UnsafeReference {
                detail: "x".to_string(),
            },
        ),
        candidate(
            &paths[3],
            SideFileRole::Artwork,
            SupportAssociation::Unassociated,
        ),
    ];
    let report = build_full_report(&[], report_of(Vec::new()), &candidates);
    assert_eq!(report.counts.support_unassociated, 2);
    assert_eq!(report.counts.support_candidate, 1);
    assert_eq!(report.counts.support_unsafe, 1);
    assert!(report.counts.check_invariants().is_ok());
}

#[test]
fn no_negative_or_impossible_derived_counts() {
    let report = build_full_report(&[], report_of(Vec::new()), &[]);
    assert_eq!(report.counts, FullLibraryCounts::default());
    assert!(report.counts.check_invariants().is_ok());
}

#[test]
fn counts_that_do_not_add_up_are_named() {
    let mut counts = FullLibraryCounts::default();
    counts.support_files = 1;
    assert_eq!(
        counts.check_invariants(),
        Err(CountMismatch::SupportStates)
    );
    counts.ready = 1;
    assert_eq!(counts.check_invariants(), Err(CountMismatch::PlanStatuses));
    counts.primary_items = 1;
    counts.support_attached = 1;
    assert_eq!(counts.check_invariants(), Ok(()));
}

#[test]
fn disc_sets_get_one_folder_and_need_every_disc() {
    let disc = |part: usize| {
        input(
            &format!("d{part}.bin"),
            exact_identity(&format!("Game (USA) (Disc {part} of 2)"), "PSX"),
        )
    };
    let sets = group_multidisc_sets(&[disc(1), disc(2)]);
    assert_eq!(sets.len(), 1);
    let plans = report_of(vec![ready_plan("d1.bin", None), ready_plan("d2.bin", None)]);
    let report = plan_set_destinations(&plans, &sets, &[]);
    assert_eq!(report.sets.len(), 1);
    assert_eq!(report.sets[0].set_label, "Game (USA)");
    assert_eq!(report.sets[0].set_folder, "/root/saturn/Game (USA)");
    assert_eq!(report.sets[0].member_destinations.len(), 2);

    let partial = report_of(vec![
        ready_plan("d1.bin", None),
        unready_plan("d2.bin", PlanStatus::Unknown),
    ]);
    assert!(plan_set_destinations(&partial, &sets, &[]).sets.is_empty());
}
