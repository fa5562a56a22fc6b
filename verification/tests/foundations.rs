//! Paths, texts, orders, hashes and the platform registry.
use archivefs_core::crc32::{crc32_hex, crc32_of};
use archivefs_core::dat::audit::AuditVerdict;
use archivefs_core::dat::classification::multidisc_group_key;
use archivefs_core::game_identity::serial_from_boot_path;
use archivefs_core::path::{
    components_of, extension_of, file_name_of, file_stem_of, join_path, parent_of, path_at_most,
    path_is_absolute, path_is_under, same_path, sort_paths,
};
use archivefs_core::platform::{equivalent_platform_ids, platform_by_id, registers_extension};
use archivefs_core::platform_evidence_fusion::dat_hash_representation::{
    audit_representation, compare_representations, hash_bytes,
    normalized_header_stripped_representation, normalized_n64_representation,
    normalized_smd_representation, observe_representation, ByteRepresentation,
    RepresentationMatchOutcome, StrippedImage,
};
use archivefs_core::platform_evidence_fusion::release_relationship::{
    group_by_lineage, resolve_release_relationship, same_lineage, DatIndex, ReleaseRelationship,
};
use archivefs_core::platform_evidence_fusion::set_destination::is_safe_basename;
use archivefs_core::playstation_boot_evidence::parse_system_cnf_boot;
use archivefs_core::text::{
    contains_text, decimal_text, hex, join_texts, split_char, starts_with, text_at_most, to_lower,
    trim, trim_start, white_space,
};
use std::path::Path;

const PATHS: [&str; 34] = [
    "", "/", "//", ".", "./", "..", "../", "/..", "/.", "a", "/a", "a/", "/a/", "a/b", "/a/b",
    "a//b", "a/./b", "./a", "./a/b", "a/../b", "/a/b/c.txt", "c.tar.gz", ".hidden", "a/.hidden",
    "a.", "a..b", "...", "a/..", "a/.", "b/a.x", "/b", "/a b/c", "A/b", "caf\u{e9}/x.bin",
];

#[test]
fn components_agree_with_std() {
    for path in PATHS {
        let ours = components_of(path);
        let theirs: Vec<String> = Path::new(path)
            .components()
            .map(|c| c.as_os_str().to_str().unwrap().to_string())
            .collect();
        assert_eq!(ours, theirs, "{path:?}");
        assert_eq!(path_is_absolute(path), Path::new(path).is_absolute());
    }
}

#[test]
fn names_and_parents_agree_with_std() {
    for path in PATHS {
        let std_path = Path::new(path);
        assert_eq!(
            file_name_of(path).as_deref(),
            std_path.file_name().and_then(|s| s.to_str()),
            "{path:?}"
        );
        assert_eq!(
            file_stem_of(path).as_deref(),
            std_path.file_stem().and_then(|s| s.to_str()),
            "{path:?}"
        );
        assert_eq!(
            extension_of(path).as_deref(),
            std_path.extension().and_then(|s| s.to_str()),
            "{path:?}"
        );
        assert_eq!(
            parent_of(path).as_deref(),
            std_path.parent().and_then(|p| p.to_str()),
            "{path:?}"
        );
    }
}

#[test]
fn pairs_of_paths_agree_with_std() {
    for a in PATHS {
        for b in PATHS {
            let (x, y) = (Path::new(a), Path::new(b));
            assert_eq!(same_path(a, b), x == y, "{a:?} {b:?}");
            assert_eq!(path_at_most(a, b), x <= y, "{a:?} {b:?}");
            assert_eq!(path_is_under(a, b), x.starts_with(y), "{a:?} {b:?}");
            assert_eq!(
                join_path(a, b),
                x.join(y).to_str().unwrap(),
                "{a:?} {b:?}"
            );
        }
    }
}

#[test]
fn sorting_paths_agrees_with_std() {
    let paths: Vec<String> = PATHS.iter().map(|p| p.to_string()).collect();
    let mut expected = paths.clone();
    expected.sort_by(|a, b| Path::new(a).cmp(Path::new(b)));
    assert_eq!(sort_paths(paths), expected);
}

#[test]
fn texts_agree_with_std() {
    for code in 0..0x3100u32 {
        if let Some(c) = char::from_u32(code) {
            assert_eq!(white_space(c), c.is_whitespace(), "{code:x}");
        }
    }
    for text in ["", "  a b ", "\t\u{a0}x\u{3000}", "\u{200b}y", "none"] {
        assert_eq!(trim(text), text.trim());
        assert_eq!(trim_start(text), text.trim_start());
        assert_eq!(to_lower(text), text.to_ascii_lowercase());
        let pieces: Vec<&str> = text.split(' ').collect();
        assert_eq!(split_char(text, ' '), pieces);
        assert_eq!(starts_with(text, " "), text.starts_with(' '));
        assert_eq!(contains_text(text, "y"), text.contains('y'));
    }
    assert_eq!(to_lower("\u{c9}A z"), "\u{c9}a z");
    assert!(text_at_most("a", "b") && text_at_most("a", "a") && !text_at_most("b", "a"));
    assert!(text_at_most("Z", "a") && text_at_most("a", "aa"));
    assert_eq!(
        join_texts(&vec!["a".to_string(), "b".to_string()], ", "),
        "a, b"
    );
}

#[test]
fn numbers_are_written_as_std_writes_them() {
    for n in [0u64, 7, 10, 65_535, 1_000_000, u64::MAX] {
        assert_eq!(decimal_text(n), n.to_string());
    }
    assert_eq!(hex(&[0x00, 0x0f, 0xa0, 0xff]), "000fa0ff");
}

#[test]
fn crc32_of_known_bytes() {
    assert_eq!(crc32_of(b"123456789"), 0xcbf4_3926);
    assert_eq!(crc32_hex(b"123456789"), "cbf43926");
    assert_eq!(crc32_hex(b""), "00000000");
}

#[test]
fn hashes_of_known_bytes() {
    let evidence = hash_bytes(b"abc", "/roms/abc.bin", "abc.bin");
    assert_eq!(evidence.filepath, "/roms/abc.bin");
    assert_eq!(evidence.filename, "abc.bin");
    assert_eq!(evidence.size, Some(3));
    assert_eq!(evidence.crc32.as_deref(), Some("352441c2"));
    assert_eq!(
        evidence.md5.as_deref(),
        Some("900150983cd24fb0d6963f7d28e17f72")
    );
    assert_eq!(
        evidence.sha1.as_deref(),
        Some("a9993e364706816aba3e25717850c26c9cd0d89d")
    );
    assert_eq!(
        evidence.sha256.as_deref(),
        Some("ba7816bf8f01cfea414140de5dae2223b00361a396177a9cb410ff61f20015ad")
    );
}

#[test]
fn representations_say_which_bytes_they_hash() {
    let physical = observe_representation(ByteRepresentation::Physical, b"abcd", "/r", "r");
    assert!(physical.representation.is_physical());
    let swapped = b"badc".to_vec();
    let (n64, same) =
        normalized_n64_representation(b"abcd", Some(&swapped), "/r", "r").expect("normalised");
    assert!(n64.representation.is_normalized());
    assert!(!same);
    assert_eq!(n64.evidence, hash_bytes(b"badc", "/r", "r"));
    assert!(normalized_n64_representation(b"abcd", None, "/r", "r").is_none());
    let unchanged = b"abcd".to_vec();
    let (_, same) =
        normalized_smd_representation(b"abcd", Some(&unchanged), "/r", "r").expect("normalised");
    assert!(same);
    let stripped = StrippedImage {
        bytes: b"cd".to_vec(),
        transform_id: "strip-header",
    };
    let (image, same) =
        normalized_header_stripped_representation(b"abcd", Some(&stripped), "/r", "r")
            .expect("stripped");
    assert_eq!(
        image.representation,
        ByteRepresentation::Normalized {
            transform: "strip-header"
        }
    );
    assert!(!same);
}

fn exact(game: &str) -> AuditVerdict {
    AuditVerdict::Exact {
        game_name: game.to_string(),
        rom_name: format!("{game}.bin"),
        algorithm: "SHA-1",
    }
}

#[test]
fn representation_outcomes_follow_the_confident_verdicts() {
    let hashes = observe_representation(ByteRepresentation::Physical, b"x", "/r", "r");
    assert_eq!(
        audit_representation(&hashes, exact("A")),
        (ByteRepresentation::Physical, exact("A"))
    );
    assert_eq!(
        compare_representations(AuditVerdict::NotFound, None, false),
        RepresentationMatchOutcome::NoMatch
    );
    assert_eq!(
        compare_representations(exact("A"), None, false),
        RepresentationMatchOutcome::PhysicalOnly {
            verdict: exact("A")
        }
    );
    assert_eq!(
        compare_representations(AuditVerdict::NotFound, Some(exact("A")), false),
        RepresentationMatchOutcome::NormalizedOnly {
            verdict: exact("A")
        }
    );
    assert_eq!(
        compare_representations(exact("A"), Some(exact("A")), true),
        RepresentationMatchOutcome::BothAgree {
            verdict: exact("A"),
            identical_bytes: true
        }
    );
    let disagreement = compare_representations(exact("A"), Some(exact("B")), false);
    assert!(disagreement.is_conflict() && disagreement.is_confident());
}

#[test]
fn bytes_that_are_no_text_are_replaced() {
    let fact = parse_system_cnf_boot(b"BOOT=cdrom:\\A\xffB.EXE;1\n").unwrap();
    assert_eq!(fact.executable_path.as_deref(), Some("A\u{fffd}B.EXE"));
}

#[test]
fn serials_have_one_shape() {
    assert_eq!(
        serial_from_boot_path(b"dir\\slus_014.18"),
        Some("SLUS-01418".to_string())
    );
    assert_eq!(serial_from_boot_path(b"SLUS_0141.8"), None);
    assert_eq!(serial_from_boot_path(b""), None);
}

#[test]
fn disc_titles_are_read_from_their_final_brackets() {
    let token = multidisc_group_key("Final Fantasy VII (USA) (Disc 2 of 3)").unwrap();
    assert_eq!(token.base_title, "Final Fantasy VII (USA)");
    assert_eq!((token.part, token.total), (2, 3));
    assert!(multidisc_group_key("Final Fantasy VII (USA)").is_none());
    assert!(multidisc_group_key("Game (Disc x of 3)").is_none());
    assert!(multidisc_group_key("").is_none());
}

#[test]
fn safe_names_are_single_components() {
    for name in ["game.bin", "a b", ".hidden", "..."] {
        assert!(is_safe_basename(name), "{name:?}");
    }
    for name in ["", ".", "..", "a/b", "a\\b", "a\0b"] {
        assert!(!is_safe_basename(name), "{name:?}");
    }
}

#[test]
fn only_registered_platforms_have_an_id() {
    assert_eq!(platform_by_id("Saturn").unwrap().id, "Saturn");
    assert!(platform_by_id("saturn").is_none());
    assert!(equivalent_platform_ids("PC Engine", "TurboGrafx-16"));
    assert!(equivalent_platform_ids("Saturn", "Saturn"));
    assert!(!equivalent_platform_ids("Xbox", "Xbox360"));
    assert!(registers_extension("gba") && !registers_extension("txt"));
}

fn clone_of(name: &str, parent: &str) -> ReleaseRelationship {
    ReleaseRelationship::CloneOf {
        game_name: name.to_string(),
        parent: parent.to_string(),
    }
}

fn canonical(name: &str) -> ReleaseRelationship {
    ReleaseRelationship::Canonical {
        game_name: name.to_string(),
    }
}

#[test]
fn lineage_comes_from_declared_parents_only() {
    let index = DatIndex {
        game_clone_of: vec![
            ("Game (USA) (Rev 1)".to_string(), Some("Game (USA)".to_string())),
            ("Game (USA)".to_string(), None),
        ],
    };
    assert_eq!(
        resolve_release_relationship(&index, "Game (USA) (Rev 1)"),
        clone_of("Game (USA) (Rev 1)", "Game (USA)")
    );
    assert_eq!(
        resolve_release_relationship(&index, "Game (USA)"),
        canonical("Game (USA)")
    );
    assert_eq!(
        resolve_release_relationship(&index, "Game (USA) (Rev 2)"),
        canonical("Game (USA) (Rev 2)")
    );
}

#[test]
fn lineage_is_shared_by_clones_and_their_parent() {
    let parent = canonical("Game");
    let first = clone_of("Game (Rev 1)", "Game");
    let second = clone_of("Game (Rev 2)", "Game");
    let other = canonical("Other");
    assert!(same_lineage(&parent, &first) && same_lineage(&first, &second));
    assert!(!same_lineage(&parent, &other));
    assert!(!same_lineage(
        &ReleaseRelationship::Unknown,
        &ReleaseRelationship::Unknown
    ));
    let groups = group_by_lineage(vec![
        (1, &first),
        (2, &other),
        (3, &ReleaseRelationship::Unknown),
        (4, &parent),
    ]);
    assert_eq!(
        groups,
        vec![
            ("Game".to_string(), vec![1, 4]),
            ("Other".to_string(), vec![2])
        ]
    );
    assert_eq!(first.lineage_root(), Some("Game"));
    assert_eq!(first.game_name(), Some("Game (Rev 1)"));
    assert_eq!(
        first.debug(),
        "CloneOf { game_name: \"Game (Rev 1)\", parent: \"Game\" }"
    );
    assert_eq!(first.debug(), format!("{first:?}"));
    assert_eq!(parent.debug(), format!("{parent:?}"));
    assert_eq!(ReleaseRelationship::Unknown.label(), "Unknown (no DAT match)");
}
