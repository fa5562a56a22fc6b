//! PlayStation 3 layouts.
use archivefs_core::content_evidence::{ContentEvidenceConfidence, ContentEvidenceKind};
use archivefs_core::param_sfo::{SfoEntry, SfoObservation, SfoValue};
use archivefs_core::ps3_boot_evidence::{
    check_eboot_self_magic, observe_ps3_evidence, Ps3LayoutObservation,
};

fn sfo_with(key: &str, value: &str) -> SfoObservation {
    SfoObservation {
        entries: vec![SfoEntry {
            key: key.to_string(),
            value: SfoValue::Text(value.to_string()),
        }],
    }
}

#[test]
fn ps3_game_layout_is_observed() {
    let observation = Ps3LayoutObservation {
        ps3_game_dir_present: true,
        ..Default::default()
    };
    let evidence = observe_ps3_evidence(&observation);
    assert!(evidence.iter().any(
        |item| item.kind == ContentEvidenceKind::BootStructure && item.value == "PS3_GAME"
    ));
}

#[test]
fn title_id_is_extracted() {
    let observation = Ps3LayoutObservation {
        param_sfo: Some(sfo_with("TITLE_ID", "BLUS30000")),
        ..Default::default()
    };
    assert_eq!(observation.title_id(), Some("BLUS30000"));
}

#[test]
fn title_id_evidence_is_corroborated() {
    let observation = Ps3LayoutObservation {
        param_sfo: Some(sfo_with("TITLE_ID", "BLUS30000")),
        ..Default::default()
    };
    let evidence = observe_ps3_evidence(&observation);
    let product = evidence
        .iter()
        .find(|item| item.kind == ContentEvidenceKind::ProductCode)
        .unwrap();
    assert_eq!(product.confidence, ContentEvidenceConfidence::Corroborated);
}

#[test]
fn self_magic_is_checked_from_header() {
    let mut observation = Ps3LayoutObservation::default();
    check_eboot_self_magic(&mut observation, &[0x53, 0x43, 0x45, 0x00]);
    assert_eq!(observation.eboot_self_magic_present, Some(true));
}

#[test]
fn non_self_header_is_observed_as_false() {
    let mut observation = Ps3LayoutObservation::default();
    check_eboot_self_magic(&mut observation, b"not a self file");
    assert_eq!(observation.eboot_self_magic_present, Some(false));
}

#[test]
fn self_magic_evidence_is_strong() {
    let mut observation = Ps3LayoutObservation::default();
    check_eboot_self_magic(&mut observation, &[0x53, 0x43, 0x45, 0x00]);
    let evidence = observe_ps3_evidence(&observation);
    let self_evidence = evidence.iter().find(|item| item.value == "SELF").unwrap();
    assert_eq!(self_evidence.confidence, ContentEvidenceConfidence::Strong);
}

#[test]
fn param_sfo_or_eboot_alone_does_not_assign_ps3() {
    let observation = Ps3LayoutObservation {
        eboot_bin_present: true,
        ..Default::default()
    };
    assert!(observe_ps3_evidence(&observation).is_empty());
}

#[test]
fn ps3_boot_evidence_evidence_never_assigns_a_platform() {
    let mut observation = Ps3LayoutObservation {
        ps3_game_dir_present: true,
        param_sfo: Some(sfo_with("TITLE_ID", "BLUS30000")),
        ..Default::default()
    };
    check_eboot_self_magic(&mut observation, &[0x53, 0x43, 0x45, 0x00]);
    for item in observe_ps3_evidence(&observation) {
        assert!(matches!(
            item.kind,
            ContentEvidenceKind::BootStructure
                | ContentEvidenceKind::ProductCode
                | ContentEvidenceKind::ContentSignature
        ));
    }
}

#[test]
fn ps3_boot_evidence_repeated_observation_is_deterministic() {
    let observation = Ps3LayoutObservation {
        ps3_game_dir_present: true,
        ..Default::default()
    };
    assert_eq!(
        observe_ps3_evidence(&observation),
        observe_ps3_evidence(&observation)
    );
}
