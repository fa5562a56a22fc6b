//! PlayStation boot files.
use archivefs_core::content_detector::ContentDetectionOutcome;
use archivefs_core::content_evidence::{ContentEvidenceConfidence, ContentEvidenceKind};
use archivefs_core::game_identity::MAX_SYSTEM_CNF_BYTES;
use archivefs_core::playstation_boot_evidence::{
    looks_like_psx_exe, observe_system_cnf_evidence, parse_system_cnf_boot, PsxExeDetector,
    PSX_EXECUTABLE_HEADER_BYTES,
};

const PSX_EXE_MAGIC: &[u8; 8] = b"PS-X EXE";

#[test]
fn boot_line_is_parsed() {
    let fact = parse_system_cnf_boot(b"BOOT=cdrom:\\SLUS_014.18;1\r\nTCB=4\r\n").unwrap();
    assert_eq!(fact.boot_key, "BOOT");
    assert_eq!(fact.executable_path.as_deref(), Some("SLUS_014.18"));
}

#[test]
fn whitespace_and_case_variation_are_tolerated() {
    let fact = parse_system_cnf_boot(b"  boot   =   cdrom:\\SLUS_014.18;1  \n").unwrap();
    assert_eq!(fact.boot_key, "BOOT");
    assert_eq!(fact.executable_path.as_deref(), Some("SLUS_014.18"));
}

#[test]
fn crlf_and_lf_both_work() {
    let crlf = parse_system_cnf_boot(b"BOOT=cdrom:\\SLUS_014.18;1\r\n").unwrap();
    let lf = parse_system_cnf_boot(b"BOOT=cdrom:\\SLUS_014.18;1\n").unwrap();
    assert_eq!(crlf.executable_path, lf.executable_path);
}

#[test]
fn version_suffix_is_stripped() {
    let with_suffix = parse_system_cnf_boot(b"BOOT=cdrom:\\SLES_123.45;1\n").unwrap();
    let without_suffix = parse_system_cnf_boot(b"BOOT=cdrom:\\SLES_123.45\n").unwrap();
    assert_eq!(with_suffix.executable_path, without_suffix.executable_path);
}

#[test]
fn malformed_line_without_prefix_fails_safely() {
    let fact = parse_system_cnf_boot(b"BOOT=SLUS_014.18;1\n").unwrap();
    assert_eq!(fact.boot_key, "BOOT");
    assert_eq!(fact.raw_value, "SLUS_014.18;1");
    assert_eq!(fact.executable_path, None);
    assert_eq!(fact.serial_candidate, None);
}

#[test]
fn oversized_system_cnf_is_bounded() {
    let huge = vec![b'A'; MAX_SYSTEM_CNF_BYTES as usize + 1];
    assert_eq!(parse_system_cnf_boot(&huge), None);
}

#[test]
fn no_boot_key_returns_none() {
    assert_eq!(parse_system_cnf_boot(b"TCB=4\nEVENT=16\n"), None);
}

#[test]
fn known_serial_family_is_extracted() {
    let fact = parse_system_cnf_boot(b"BOOT=cdrom:\\SLUS_014.18;1\n").unwrap();
    assert_eq!(fact.serial_candidate.as_deref(), Some("SLUS-01418"));
}

#[test]
fn unknown_serial_shape_is_preserved_but_not_promoted() {
    let fact = parse_system_cnf_boot(b"BOOT=cdrom:\\MAIN.EXE;1\n").unwrap();
    assert_eq!(fact.executable_path.as_deref(), Some("MAIN.EXE"));
    assert_eq!(fact.serial_candidate, None);
}

#[test]
fn psx_exe_magic_is_detected() {
    let mut header = vec![0u8; PSX_EXECUTABLE_HEADER_BYTES];
    header[0..8].copy_from_slice(PSX_EXE_MAGIC);
    assert!(looks_like_psx_exe(&header));
    assert!(PsxExeDetector.detect(&header).is_recognized());
}

#[test]
fn missing_executable_header_is_not_recognized() {
    assert!(!looks_like_psx_exe(b"not an executable"));
    assert_eq!(
        PsxExeDetector.detect(b"ELF\0garbage"),
        ContentDetectionOutcome::NotRecognized
    );
}

#[test]
fn generic_boot_key_evidence_never_assigns_a_platform() {
    let fact = parse_system_cnf_boot(b"BOOT=cdrom:\\SLUS_014.18;1\n").unwrap();
    let evidence = observe_system_cnf_evidence(&fact);
    for item in &evidence {
        assert!(matches!(
            item.kind,
            ContentEvidenceKind::BootStructure | ContentEvidenceKind::ProductCode
        ));
    }
}

#[test]
fn system_cnf_alone_does_not_assign_playstation() {
    let fact = parse_system_cnf_boot(b"BOOT=cdrom:\\SLUS_014.18;1\n").unwrap();
    let evidence = observe_system_cnf_evidence(&fact);
    assert!(
        evidence
            .iter()
            .any(|item| item.kind == ContentEvidenceKind::BootStructure)
    );
}

#[test]
fn boot_evidence_confidence_is_corroborated_not_strong() {
    let fact = parse_system_cnf_boot(b"BOOT=cdrom:\\SLUS_014.18;1\n").unwrap();
    let evidence = observe_system_cnf_evidence(&fact);
    for item in &evidence {
        assert_eq!(item.confidence, ContentEvidenceConfidence::Corroborated);
    }
}

#[test]
fn no_serial_candidate_means_no_product_code_evidence() {
    let fact = parse_system_cnf_boot(b"BOOT=cdrom:\\MAIN.EXE;1\n").unwrap();
    let evidence = observe_system_cnf_evidence(&fact);
    assert!(
        !evidence
            .iter()
            .any(|item| item.kind == ContentEvidenceKind::ProductCode)
    );
}

#[test]
fn parsing_never_mutates_input() {
    let data = b"BOOT=cdrom:\\SLUS_014.18;1\n".to_vec();
    let before = data.clone();
    let _ = parse_system_cnf_boot(&data);
    assert_eq!(data, before);
}

#[test]
fn repeated_parse_is_deterministic() {
    let data = b"BOOT=cdrom:\\SLUS_014.18;1\n";
    assert_eq!(parse_system_cnf_boot(data), parse_system_cnf_boot(data));
}
