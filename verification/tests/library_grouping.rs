//! Titles, disc sets and revisions.
use archivefs_core::dat::audit::AuditVerdict;
use archivefs_core::dat::identity::{
    DatPlatformConfidence, DatPlatformEvidence, DatPlatformEvidenceKind, DatPlatformIdentity,
};
use archivefs_core::platform_evidence_fusion::dat_hash_representation::RepresentationMatchOutcome;
use archivefs_core::platform_evidence_fusion::identity_orchestrator::{
    inspect_identity, IdentityInspectionInput, IdentityResult,
};
use archivefs_core::platform_evidence_fusion::library_grouping::{
    group_multidisc_sets, hierarchy_for, SetMembership,
};
use archivefs_core::platform_evidence_fusion::library_planning::LibraryPlanInput;

fn exact_verdict(game: &str, rom: &str) -> AuditVerdict {
    AuditVerdict::Exact {
        game_name: game.to_string(),
        rom_name: rom.to_string(),
        algorithm: "SHA-1",
    }
}

fn identity_with_verdict(game: &str, rom: &str) -> IdentityResult {
    identity_with_verdict_and_platform(game, rom, "PSX")
}

fn identity_with_verdict_and_platform(game: &str, rom: &str, platform: &str) -> IdentityResult {
    inspect_identity(IdentityInspectionInput {
        dat: Some(DatPlatformIdentity::Resolved {
            platform: platform.to_string(),
            machine_key: None,
            confidence: DatPlatformConfidence::Strong,
            evidence: vec![DatPlatformEvidence {
                platform: platform.to_string(),
                machine_key: None,
                kind: DatPlatformEvidenceKind::HeaderName,
                confidence: DatPlatformConfidence::Strong,
                detail: "test evidence".to_string(),
            }],
        }),
        representation_match: Some(RepresentationMatchOutcome::PhysicalOnly {
            verdict: exact_verdict(game, rom),
        }),
        ..Default::default()
    })
}

fn input(path: &str, identity: IdentityResult) -> LibraryPlanInput {
    LibraryPlanInput {
        source_path: String::from(path),
        identity,
        set_identity: None,
        physical_hash: None,
        normalized_hash: None,
        release_relationship: None,
    }
}

#[test]
fn confident_dat_match_gives_the_exact_release_title() {
    let identity = identity_with_verdict("Tony Hawk's Pro Skater 2 (USA)", "thps2.z64");
    let hierarchy = hierarchy_for(&identity, Some("N64"), "thps2.z64", None);
    assert_eq!(hierarchy.game_label, "Tony Hawk's Pro Skater 2 (USA)");
    assert!(hierarchy.game_label_is_dat_confirmed);
}

#[test]
fn no_dat_match_falls_back_to_original_basename_not_invented() {
    let identity = inspect_identity(IdentityInspectionInput::default());
    let hierarchy = hierarchy_for(&identity, None, "some_unmatched_rom.bin", None);
    assert_eq!(hierarchy.game_label, "some_unmatched_rom.bin");
    assert!(!hierarchy.game_label_is_dat_confirmed);
}

#[test]
fn hierarchy_never_requires_platform_to_be_known() {
    let identity = inspect_identity(IdentityInspectionInput::default());
    let hierarchy = hierarchy_for(&identity, None, "mystery.bin", None);
    assert!(hierarchy.platform.is_none());
}

#[test]
fn single_disc_title_is_single_file_membership() {
    let identity = identity_with_verdict("Chrono Trigger (USA)", "chrono.sfc");
    let hierarchy = hierarchy_for(&identity, Some("SNES"), "chrono.sfc", None);
    assert_eq!(hierarchy.set, SetMembership::SingleFile);
}

#[test]
fn multidisc_title_reports_part_and_total() {
    let identity = identity_with_verdict("Final Fantasy VII (USA) (Disc 1 of 3)", "ff7d1.bin");
    let hierarchy = hierarchy_for(&identity, Some("PSX"), "ff7d1.bin", None);
    assert_eq!(
        hierarchy.set,
        SetMembership::MultiDiscPart {
            base_title: "Final Fantasy VII (USA)".to_string(),
            part: 1,
            total: 3,
        }
    );
}

#[test]
fn title_merely_containing_the_word_disc_is_never_multidisc() {
    let identity = identity_with_verdict("Disc Jockey Simulator (USA)", "dj.bin");
    let hierarchy = hierarchy_for(&identity, Some("PC"), "dj.bin", None);
    assert_eq!(hierarchy.set, SetMembership::SingleFile);
}

#[test]
fn three_disc_set_groups_all_members_in_part_order() {
    let inputs = vec![
        input(
            "/roms/psx/ff7_d2.bin",
            identity_with_verdict("Final Fantasy VII (USA) (Disc 2 of 3)", "ff7d2.bin"),
        ),
        input(
            "/roms/psx/ff7_d1.bin",
            identity_with_verdict("Final Fantasy VII (USA) (Disc 1 of 3)", "ff7d1.bin"),
        ),
        input(
            "/roms/psx/ff7_d3.bin",
            identity_with_verdict("Final Fantasy VII (USA) (Disc 3 of 3)", "ff7d3.bin"),
        ),
    ];
    let sets = group_multidisc_sets(&inputs);
    assert_eq!(sets.len(), 1);
    assert_eq!(sets[0].base_title, "Final Fantasy VII (USA)");
    assert_eq!(sets[0].declared_total, 3);
    assert_eq!(
        sets[0]
            .discs
            .iter()
            .map(|(part, _)| *part)
            .collect::<Vec<_>>(),
        vec![1, 2, 3]
    );
}

#[test]
fn a_lone_disc_with_no_sibling_supplied_is_not_reported_as_a_set() {
    let inputs = vec![input(
        "/roms/psx/ff7_d1.bin",
        identity_with_verdict("Final Fantasy VII (USA) (Disc 1 of 3)", "ff7d1.bin"),
    )];
    assert!(group_multidisc_sets(&inputs).is_empty());
}

#[test]
fn single_disc_games_never_get_grouped_into_a_set() {
    let inputs = vec![
        input(
            "/roms/snes/a.sfc",
            identity_with_verdict("Game A (USA)", "a.sfc"),
        ),
        input(
            "/roms/snes/b.sfc",
            identity_with_verdict("Game B (USA)", "b.sfc"),
        ),
    ];
    assert!(group_multidisc_sets(&inputs).is_empty());
}

#[test]
fn different_platforms_with_the_same_base_title_never_merge_into_one_set() {
    let inputs = vec![
        input(
            "/roms/psx/d1.bin",
            identity_with_verdict_and_platform("Some Game (USA) (Disc 1 of 2)", "d1.bin", "PSX"),
        ),
        input(
            "/roms/ps2/d2.bin",
            identity_with_verdict_and_platform("Some Game (USA) (Disc 2 of 2)", "d2.bin", "PS2"),
        ),
    ];
    assert!(group_multidisc_sets(&inputs).is_empty());
}

#[test]
fn tests_grouping_is_deterministic_regardless_of_input_order() {
    let make = || {
        vec![
            input(
                "/roms/psx/ff7_d2.bin",
                identity_with_verdict("Final Fantasy VII (USA) (Disc 2 of 3)", "ff7d2.bin"),
            ),
            input(
                "/roms/psx/ff7_d1.bin",
                identity_with_verdict("Final Fantasy VII (USA) (Disc 1 of 3)", "ff7d1.bin"),
            ),
            input(
                "/roms/psx/ff7_d3.bin",
                identity_with_verdict("Final Fantasy VII (USA) (Disc 3 of 3)", "ff7d3.bin"),
            ),
        ]
    };
    let forward = make();
    let mut backward = make();
    backward.reverse();
    assert_eq!(
        group_multidisc_sets(&forward),
        group_multidisc_sets(&backward)
    );
}

#[test]
fn two_members_declaring_the_same_disc_part_are_both_retained_not_silently_dropped() {
    let inputs = vec![
        input(
            "/roms/psx/variant_a.bin",
            identity_with_verdict("Ambiguous Game (USA) (Disc 1 of 2)", "a.bin"),
        ),
        input(
            "/roms/psx/variant_b.bin",
            identity_with_verdict("Ambiguous Game (USA) (Disc 1 of 2)", "b.bin"),
        ),
    ];
    let sets = group_multidisc_sets(&inputs);
    assert_eq!(sets.len(), 1);
    assert_eq!(
        sets[0].discs.len(),
        2,
        "both same-part members must be retained, not deduplicated away"
    );
    assert!(sets[0].discs.iter().all(|(part, _)| *part == 1));
}
