//! The library's laws on concrete values.
use archivefs_core::content_detector::ContentDetectionOutcome;
use archivefs_core::content_evidence::{
    ContentEvidence, ContentEvidenceConfidence, ContentEvidenceKind,
};
use archivefs_core::dat::audit::AuditVerdict;
use archivefs_core::dat::identity::{DatPlatformConfidence, DatPlatformIdentity};
use archivefs_core::game_identity::MAX_SYSTEM_CNF_BYTES;
use archivefs_core::param_sfo::{SfoEntry, SfoObservation, SfoValue};
use archivefs_core::path::path_is_under;
use archivefs_core::platform::platform_by_id;
use archivefs_core::platform_evidence_fusion::archive_set_identity::classify_archive_set;
use archivefs_core::platform_evidence_fusion::combined_identity::{
    combine_identity, IdentityRelationship,
};
use archivefs_core::platform_evidence_fusion::cue_m3u_parsing::parse_m3u_references;
use archivefs_core::platform_evidence_fusion::dat_hash_representation::RepresentationMatchOutcome;
use archivefs_core::platform_evidence_fusion::duplicate_taxonomy::{
    group_duplicates, DuplicateClass,
};
use archivefs_core::platform_evidence_fusion::identity_bridge::to_identity_evidence;
use archivefs_core::platform_evidence_fusion::identity_orchestrator::{
    inspect_identity, IdentityInspectionInput, IdentityResult,
};
use archivefs_core::platform_evidence_fusion::identity_presentation::{
    present_identity, render_identity_text, IdentityStatus,
};
use archivefs_core::platform_evidence_fusion::library_grouping::{
    group_multidisc_sets, group_revisions,
};
use archivefs_core::platform_evidence_fusion::library_planning::LibraryPlanInput;
use archivefs_core::platform_evidence_fusion::release_relationship::{
    group_by_lineage, ReleaseRelationship,
};
use archivefs_core::platform_evidence_fusion::rules::rules;
use archivefs_core::platform_evidence_fusion::side_file_classification::{
    classify_side_file, SideFileRole,
};
use archivefs_core::platform_evidence_fusion::support_attachment::{
    attach_existing_support_file, attach_support_file, SingleGameContext, SupportAssociation,
};
use archivefs_core::platform_evidence_fusion::{
    fuse_platform_evidence, FusionOutcome, ResolutionExplanation,
};
use archivefs_core::platform_identity::{
    resolve_platform_identity, PlatformIdentityConfidence, PlatformIdentityEvidence,
    PlatformIdentityResolution, PlatformIdentitySource,
};
use archivefs_core::playstation_boot_evidence::{
    parse_system_cnf_boot, PsxExeDetector, SystemCnfDetector,
};
use archivefs_core::ps3_boot_evidence::Ps3LayoutObservation;

fn fact(kind: ContentEvidenceKind, value: &str, c: ContentEvidenceConfidence) -> ContentEvidence {
    ContentEvidence::new(kind, value, c, "test fact")
}

fn strong(kind: ContentEvidenceKind, value: &str) -> ContentEvidence {
    fact(kind, value, ContentEvidenceConfidence::Strong)
}

fn dat(platform: &str) -> DatPlatformIdentity {
    DatPlatformIdentity::Resolved {
        platform: platform.to_string(),
        machine_key: None,
        confidence: DatPlatformConfidence::Strong,
        evidence: Vec::new(),
    }
}

fn exact(game: &str, rom: &str) -> AuditVerdict {
    AuditVerdict::Exact {
        game_name: game.to_string(),
        rom_name: rom.to_string(),
        algorithm: "SHA-1",
    }
}

fn matched(game: &str, rom: &str, platform: &str) -> IdentityResult {
    inspect_identity(IdentityInspectionInput {
        dat: Some(dat(platform)),
        representation_match: Some(RepresentationMatchOutcome::PhysicalOnly {
            verdict: exact(game, rom),
        }),
        ..Default::default()
    })
}

fn input(path: &str, identity: IdentityResult) -> LibraryPlanInput {
    LibraryPlanInput {
        source_path: path.to_string(),
        identity,
        set_identity: None,
        physical_hash: None,
        normalized_hash: None,
        release_relationship: None,
    }
}

/// A library with a group of every class.
fn library() -> Vec<LibraryPlanInput> {
    let unknown = || inspect_identity(IdentityInspectionInput::default());
    let saturn = || {
        inspect_identity(IdentityInspectionInput {
            content_evidence: vec![strong(
                ContentEvidenceKind::BootStructure,
                "SEGA SEGASATURN",
            )],
            ..Default::default()
        })
    };
    let mut all = vec![
        input("/l/p2", unknown()),
        input("/l/p1", unknown()),
        input("/l/n1", unknown()),
        input("/l/n2", unknown()),
        input("/l/r1", matched("Game A", "a.bin", "PSX")),
        input("/l/r2", matched("Game A", "a.bin", "PSX")),
        input("/l/d1", matched("Game B", "b1.bin", "PSX")),
        input("/l/d2", matched("Game B", "b2.bin", "PSX")),
        input("/l/v1", unknown()),
        input("/l/v2", unknown()),
        input("/x/same.bin", saturn()),
        input("/y/SAME.iso", saturn()),
        input("/l/disc2", matched("Title (USA) (Disc 2 of 2)", "t2", "PSX")),
        input("/l/disc1", matched("Title (USA) (Disc 1 of 2)", "t1", "PSX")),
    ];
    all[0].physical_hash = Some("h".to_string());
    all[1].physical_hash = Some("h".to_string());
    all[2].normalized_hash = Some("n".to_string());
    all[3].normalized_hash = Some("n".to_string());
    all[8].release_relationship = Some(ReleaseRelationship::Canonical {
        game_name: "Root".to_string(),
    });
    all[9].release_relationship = Some(ReleaseRelationship::CloneOf {
        game_name: "Root (Rev 1)".to_string(),
        parent: "Root".to_string(),
    });
    all
}

#[test]
fn groups_do_not_depend_on_the_order_of_files() {
    let given = library();
    let duplicates = group_duplicates(&given);
    let sets = group_multidisc_sets(&given);
    let revisions = group_revisions(&given);
    let classes: Vec<DuplicateClass> = duplicates.iter().map(|g| g.classification).collect();
    assert_eq!(
        classes,
        vec![
            DuplicateClass::ExactPhysicalDuplicate,
            DuplicateClass::ExactNormalizedDuplicate,
            DuplicateClass::SameDatRelease,
            DuplicateClass::SameGameDifferentDump,
            DuplicateClass::SameGameDifferentRevision,
            DuplicateClass::PossibleDuplicate,
        ]
    );
    assert_eq!(sets.len(), 1);
    assert_eq!(
        sets[0].discs,
        vec![(1, "/l/disc1".to_string()), (2, "/l/disc2".to_string())]
    );
    assert_eq!(revisions.len(), 1);
    for turn in 0..given.len() {
        let mut turned = given.clone();
        turned.rotate_left(turn);
        assert_eq!(group_duplicates(&turned), duplicates);
        assert_eq!(group_multidisc_sets(&turned), sets);
        assert_eq!(group_revisions(&turned), revisions);
        turned.reverse();
        assert_eq!(group_duplicates(&turned), duplicates);
        assert_eq!(group_multidisc_sets(&turned), sets);
        assert_eq!(group_revisions(&turned), revisions);
    }
}

#[test]
fn groups_share_their_basis_and_no_file_is_in_two() {
    let groups = group_duplicates(&library());
    assert_eq!(groups[0].members, vec!["/l/p1", "/l/p2"]);
    assert_eq!(groups[0].basis, "identical physical hash h");
    assert_eq!(groups[1].basis, "identical normalized representation hash n");
    assert_eq!(
        groups[2].basis,
        "both confidently match the same DAT release: Game A / a.bin"
    );
    assert_eq!(
        groups[3].basis,
        "both confidently match the same DAT game \"Game B\", under different rom entries"
    );
    assert_eq!(
        groups[4].basis,
        "share a DAT-declared cloneof lineage rooted at \"Root\""
    );
    assert_eq!(
        groups[5].basis,
        "same basename (\"same\") and resolved platform (Saturn) - filename similarity only, \
         never stronger"
    );
    let mut members: Vec<&String> = groups.iter().flat_map(|g| &g.members).collect();
    let count = members.len();
    members.sort();
    members.dedup();
    assert_eq!(members.len(), count);
}

#[test]
fn revisions_are_listed_by_name() {
    let groups = group_revisions(&library());
    assert_eq!(groups[0].lineage_root, "Root");
    assert_eq!(
        groups[0].releases,
        vec![
            ("Root".to_string(), "/l/v1".to_string()),
            ("Root (Rev 1)".to_string(), "/l/v2".to_string())
        ]
    );
}

#[test]
fn rules_name_only_registered_platforms() {
    for rule in rules() {
        assert!(platform_by_id(rule.platform).is_some(), "{}", rule.id);
    }
}

#[test]
fn outcomes_have_their_shapes() {
    let conflict = fuse_platform_evidence(vec![
        strong(ContentEvidenceKind::BootStructure, "SEGA SEGASATURN"),
        strong(ContentEvidenceKind::BootStructure, "SEGA SEGAKATANA"),
    ]);
    assert_eq!(conflict.outcome, FusionOutcome::Conflict);
    assert_eq!(conflict.resolved_platform, None);
    assert_eq!(conflict.conflicting_platforms, vec!["Dreamcast", "Saturn"]);
    let weak = fuse_platform_evidence(vec![
        fact(
            ContentEvidenceKind::BootStructure,
            "BOOT2",
            ContentEvidenceConfidence::Corroborated,
        ),
        fact(
            ContentEvidenceKind::ContentSignature,
            "ELF",
            ContentEvidenceConfidence::Weak,
        ),
    ]);
    assert_eq!(weak.outcome, FusionOutcome::Ambiguous);
    assert!(!weak.fired_candidates.is_empty());
    assert!(weak.conflicting_platforms.is_empty());
}

#[test]
fn archives_do_not_depend_on_the_order_of_members() {
    let members = vec![
        (
            4,
            vec![strong(ContentEvidenceKind::BootStructure, "SEGA SEGASATURN")],
        ),
        (1, vec![strong(ContentEvidenceKind::BootStructure, "Wii")]),
        (7, Vec::new()),
    ];
    let expected = classify_archive_set(&members);
    let mut turned = members.clone();
    for _ in 0..3 {
        turned.rotate_left(1);
        assert_eq!(classify_archive_set(&turned), expected);
    }
    assert!(expected.is_conflict());
}

#[test]
fn a_dat_never_settles_ambiguous_content() {
    let ambiguous = fuse_platform_evidence(vec![fact(
        ContentEvidenceKind::BootStructure,
        "SEGA GENESIS",
        ContentEvidenceConfidence::Corroborated,
    )]);
    let view = combine_identity(&ambiguous, &dat("MegaDrive"));
    assert_eq!(
        view.relationship,
        IdentityRelationship::ContentAmbiguous {
            dat_platform: Some("MegaDrive")
        }
    );
    assert_eq!(view.content_platform, None);
}

#[test]
fn fusion_speaks_last_and_only_for_its_generation() {
    let saturn = fuse_platform_evidence(vec![strong(
        ContentEvidenceKind::BootStructure,
        "SEGA SEGASATURN",
    )]);
    let mut pool = to_identity_evidence(&saturn, 3);
    assert_eq!(
        resolve_platform_identity(4, pool.clone()),
        PlatformIdentityResolution::Unknown {}
    );
    pool.push(
        PlatformIdentityEvidence::canonical(
            "Wii",
            PlatformIdentitySource::RomM,
            PlatformIdentityConfidence::High,
            3,
            "from RomM",
        )
        .unwrap(),
    );
    assert_eq!(
        resolve_platform_identity(3, pool.clone()).platform(),
        Some("Wii")
    );
    pool.push(PlatformIdentityEvidence::manual("PSX", 3).unwrap());
    assert_eq!(resolve_platform_identity(3, pool).platform(), Some("PSX"));
    assert!(PlatformIdentityEvidence::manual("No Such Platform", 3).is_none());
}

#[test]
fn only_a_confident_verdict_is_called_verified() {
    let checked = present_identity(&matched("Game", "g.bin", "PSX"));
    assert_eq!(checked.status, IdentityStatus::VerifiedByDat);
    let unchecked = present_identity(&inspect_identity(IdentityInspectionInput {
        dat: Some(dat("PSX")),
        ..Default::default()
    }));
    assert_eq!(unchecked.status, IdentityStatus::DatOnly);
    assert!(render_identity_text(&unchecked).starts_with("PSX\n"));
}

#[test]
fn references_never_leave_the_directory() {
    let listing = "a.bin\n./sub/b.bin\n../up.bin\n/abs.bin\nx/../../y.bin\n";
    let references = parse_m3u_references("/games/psx/set.m3u", listing);
    assert_eq!(references.len(), 5);
    for reference in &references {
        match &reference.resolved {
            Some(path) => {
                assert!(reference.is_safe());
                assert!(path_is_under(path, "/games/psx"));
            }
            None => assert!(!reference.is_safe()),
        }
    }
    assert_eq!(
        references[1].resolved.as_deref(),
        Some("/games/psx/./sub/b.bin")
    );
    assert!(references[2..].iter().all(|r| !r.is_safe()));
}

#[test]
fn listings_need_their_files_and_neighbours_are_never_attached() {
    let contents = "FILE \"one.bin\" BINARY\nFILE \"two.bin\" BINARY\n";
    let both = vec!["/g/one.bin".to_string(), "/g/two.bin".to_string()];
    let attached = attach_existing_support_file("/g/set.cue", Some(contents), None, &both);
    assert_eq!(
        attached.association,
        SupportAssociation::Attached {
            set_label: "set".to_string()
        }
    );
    let one = vec!["/g/one.bin".to_string()];
    let candidate = attach_existing_support_file("/g/set.cue", Some(contents), None, &one);
    assert_eq!(
        candidate.association,
        SupportAssociation::Candidate {
            reason: "referenced member does not exist on disk: \"two.bin\"".to_string()
        }
    );
    let escaping = attach_existing_support_file(
        "/g/set.cue",
        Some("FILE \"../x.bin\" BINARY\n"),
        None,
        &both,
    );
    assert_eq!(
        escaping.association,
        SupportAssociation::UnsafeReference {
            detail: "\"../x.bin\": Some(ParentTraversal)".to_string()
        }
    );
    let context = SingleGameContext { set_label: "Game" };
    for path in ["/g/fix.ips", "/g/readme.txt", "/g/list.xml", "/g/a.sav", "/g/odd.zzz"] {
        let neighbour = attach_support_file(path, None, Some(&context));
        assert_eq!(neighbour.association, SupportAssociation::Unassociated, "{path}");
    }
}

#[test]
fn only_extensions_make_primary_content() {
    assert_eq!(classify_side_file("x.GBA"), SideFileRole::PrimaryContent);
    assert_ne!(classify_side_file("gba"), SideFileRole::PrimaryContent);
}

#[test]
fn detectors_say_what_they_found() {
    assert_eq!(SystemCnfDetector.id(), "system_cnf_boot");
    assert_eq!(PsxExeDetector.id(), "psx_exe_magic");
    let huge = vec![0x41u8; MAX_SYSTEM_CNF_BYTES as usize + 1];
    match SystemCnfDetector.detect(&huge) {
        ContentDetectionOutcome::Malformed {
            evidence,
            diagnostic,
        } => {
            assert!(evidence.is_empty());
            assert_eq!(diagnostic.category, "system_cnf_too_large");
            assert_eq!(
                diagnostic.message,
                "SYSTEM.CNF is 65537 bytes, exceeding the 65536-byte bound"
            );
        }
        other => panic!("expected Malformed, got {other:?}"),
    }
    assert!(SystemCnfDetector
        .detect(b"BOOT=cdrom:\\SLUS_014.18;1\n")
        .is_recognized());
    assert_eq!(
        SystemCnfDetector.detect(b"TCB=4\n"),
        ContentDetectionOutcome::NotRecognized
    );
}

#[test]
fn unsafe_boot_paths_have_no_executable_and_no_serial() {
    for line in [
        "BOOT=cdrom:\\..\\SLUS_014.18;1\n",
        "BOOT=cdrom:A\\\\SLUS_014.18\n",
        "BOOT=cdrom:;1\n",
        "BOOT=SLUS_014.18\n",
    ] {
        let fact = parse_system_cnf_boot(line.as_bytes()).unwrap();
        assert_eq!(fact.executable_path, None, "{line:?}");
        assert_eq!(fact.serial_candidate, None, "{line:?}");
    }
    let nested = parse_system_cnf_boot(b"BOOT=CDROM0:/DIR/SLUS_014.18;1\n").unwrap();
    assert_eq!(nested.executable_path.as_deref(), Some("DIR/SLUS_014.18"));
    assert_eq!(nested.serial_candidate.as_deref(), Some("SLUS-01418"));
}

#[test]
fn layouts_read_their_texts() {
    let entry = |key: &str, value: &str| SfoEntry {
        key: key.to_string(),
        value: SfoValue::Text(value.to_string()),
    };
    let observation = Ps3LayoutObservation {
        param_sfo: Some(SfoObservation {
            entries: vec![
                entry("TITLE", "A Game"),
                entry("CATEGORY", "DG"),
                entry("APP_VER", "01.02"),
                SfoEntry {
                    key: "TITLE_ID".to_string(),
                    value: SfoValue::Integer(7),
                },
            ],
        }),
        ..Default::default()
    };
    assert_eq!(observation.title(), Some("A Game"));
    assert_eq!(observation.category(), Some("DG"));
    assert_eq!(observation.app_version(), Some("01.02"));
    assert_eq!(observation.title_id(), None);
}

#[test]
fn groups_of_repeated_paths_do_not_depend_on_the_order() {
    let hashed = |path: &str, hash: &str| {
        let mut file = input(path, inspect_identity(IdentityInspectionInput::default()));
        file.physical_hash = Some(hash.to_string());
        file
    };
    let released = |path: &str, name: &str| {
        let mut file = input(path, inspect_identity(IdentityInspectionInput::default()));
        file.release_relationship = Some(ReleaseRelationship::CloneOf {
            game_name: name.to_string(),
            parent: "Root".to_string(),
        });
        file
    };
    let given = vec![
        hashed("/l/a", "two"),
        hashed("/l/b", "one"),
        hashed("/l/a", "one"),
        hashed("/l/b", "two"),
        released("/l/c", "x"),
        released("/l/c", "x"),
    ];
    let duplicates = group_duplicates(&given);
    assert_eq!(duplicates.len(), 3);
    assert_eq!(duplicates[0].basis, "identical physical hash one");
    assert_eq!(duplicates[1].basis, "identical physical hash two");
    assert_eq!(duplicates[0].members, duplicates[1].members);
    let revisions = group_revisions(&given);
    assert_eq!(revisions[0].releases.len(), 2);
    for turn in 0..given.len() {
        let mut turned = given.clone();
        turned.rotate_left(turn);
        assert_eq!(group_duplicates(&turned), duplicates);
        assert_eq!(group_revisions(&turned), revisions);
    }
}

#[test]
fn spellings_of_one_path_only_change_the_text() {
    let hashed = |path: &str| {
        let mut file = input(path, inspect_identity(IdentityInspectionInput::default()));
        file.physical_hash = Some("h".to_string());
        file
    };
    let one = group_duplicates(&[hashed("/l/a"), hashed("/l//a"), hashed("/l/b")]);
    let other = group_duplicates(&[hashed("/l//a"), hashed("/l/b"), hashed("/l/a")]);
    assert_eq!(one[0].members, vec!["/l/a", "/l//a", "/l/b"]);
    assert_eq!(other[0].members, vec!["/l//a", "/l/a", "/l/b"]);
    for (x, y) in one[0].members.iter().zip(&other[0].members) {
        assert_eq!(std::path::Path::new(x), std::path::Path::new(y));
    }
}

#[test]
fn an_ambiguous_dat_asks_nothing_of_content() {
    let content = ResolutionExplanation {
        outcome: FusionOutcome::Resolved,
        resolved_platform: None,
        fired_candidates: Vec::new(),
        conflicting_platforms: Vec::new(),
        input_evidence: Vec::new(),
    };
    let ambiguous = DatPlatformIdentity::Ambiguous {
        candidates: Vec::new(),
    };
    assert_eq!(
        combine_identity(&content, &ambiguous).relationship,
        IdentityRelationship::DatAmbiguous {
            content_platform: None
        }
    );
}

#[test]
fn ambiguous_content_asks_nothing_of_the_dat() {
    let result = inspect_identity(IdentityInspectionInput {
        content_evidence: vec![fact(
            ContentEvidenceKind::BootStructure,
            "SEGA GENESIS",
            ContentEvidenceConfidence::Corroborated,
        )],
        dat: Some(dat("No Such Platform")),
        ..Default::default()
    });
    assert_eq!(
        result.combined.unwrap().relationship,
        IdentityRelationship::ContentAmbiguous { dat_platform: None }
    );
}

#[test]
fn every_root_is_listed_once_with_all_its_keys() {
    let clone = ReleaseRelationship::CloneOf {
        game_name: "b".to_string(),
        parent: "a".to_string(),
    };
    let own = ReleaseRelationship::Canonical {
        game_name: "a".to_string(),
    };
    let other = ReleaseRelationship::Canonical {
        game_name: "c".to_string(),
    };
    let groups = group_by_lineage(vec![
        (1, &clone),
        (2, &other),
        (3, &ReleaseRelationship::Unknown),
        (4, &own),
        (1, &clone),
    ]);
    assert_eq!(
        groups,
        vec![
            ("a".to_string(), vec![1, 4, 1]),
            ("c".to_string(), vec![2])
        ]
    );
}
