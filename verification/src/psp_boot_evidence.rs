//! PSP layout evidence: the `PSP_GAME` directory, `UMD_DATA.BIN` and
//! `PARAM.SFO`.
//!
//! `UMD_DATA.BIN` names the PSP's own disc medium and is the one strong fact;
//! the directory and the product code follow conventions shared with other
//! platforms.
use vstd::prelude::*;
use crate::content_evidence::{
    facts, ContentEvidence, ContentEvidenceConfidence, ContentEvidenceKind, Fact,
};
use crate::param_sfo::{opt_str, product_code_evidence, SfoObservation};
use crate::ps3_boot_evidence::{fact_if, get_sfo_text, product_code_facts, sfo_text};

verus! {

/// What was observed about a PSP-style disc layout.
#[derive(Debug, Clone, PartialEq, Eq)]
pub struct PspLayoutObservation {
    pub psp_game_dir_present: bool,
    pub sysdir_present: bool,
    pub eboot_bin_present: bool,
    /// Whether the medium identification file is present at the disc root.
    pub umd_data_bin_present: bool,
    pub param_sfo: Option<SfoObservation>,
}

impl Default for PspLayoutObservation {
    /// Nothing was observed.
    fn default() -> (r: PspLayoutObservation)
        ensures
            !r.psp_game_dir_present,
            !r.sysdir_present,
            !r.eboot_bin_present,
            !r.umd_data_bin_present,
            r.param_sfo is None,
    {
        PspLayoutObservation {
            psp_game_dir_present: false,
            sysdir_present: false,
            eboot_bin_present: false,
            umd_data_bin_present: false,
            param_sfo: None,
        }
    }
}

impl PspLayoutObservation {
    pub fn disc_id(&self) -> (r: Option<&str>)
        ensures
            opt_str(r) == sfo_text(self.param_sfo, "DISC_ID"@),
    {
        get_sfo_text(&self.param_sfo, "DISC_ID")
    }

    pub fn title(&self) -> (r: Option<&str>)
        ensures
            opt_str(r) == sfo_text(self.param_sfo, "TITLE"@),
    {
        get_sfo_text(&self.param_sfo, "TITLE")
    }

    pub fn category(&self) -> (r: Option<&str>)
        ensures
            opt_str(r) == sfo_text(self.param_sfo, "CATEGORY"@),
    {
        get_sfo_text(&self.param_sfo, "CATEGORY")
    }

    pub fn disc_version(&self) -> (r: Option<&str>)
        ensures
            opt_str(r) == sfo_text(self.param_sfo, "DISC_VERSION"@),
    {
        get_sfo_text(&self.param_sfo, "DISC_VERSION")
    }
}

/// The `PSP_GAME` directory fact.
pub open spec fn psp_directory_fact() -> Fact {
    Fact {
        kind: ContentEvidenceKind::BootStructure,
        value: "PSP_GAME"@,
        confidence: ContentEvidenceConfidence::Corroborated,
        detail:
            "PSP_GAME root directory present - a conventional layout marker, not unique proof of platform"@,
    }
}

/// The `UMD_DATA.BIN` fact.
pub open spec fn umd_fact() -> Fact {
    Fact {
        kind: ContentEvidenceKind::BootStructure,
        value: "UMD_DATA.BIN"@,
        confidence: ContentEvidenceConfidence::Strong,
        detail:
            "UMD_DATA.BIN medium-identification file present at the disc root - PSP-UMD-exclusive, no other Sony optical format in this crate uses this file"@,
    }
}

/// The directory, medium and product code facts, in that order.
pub open spec fn psp_facts(observation: PspLayoutObservation) -> Seq<Fact> {
    fact_if(observation.psp_game_dir_present, psp_directory_fact()) + fact_if(
        observation.umd_data_bin_present,
        umd_fact(),
    ) + product_code_facts(observation.param_sfo, "DISC_ID"@)
}

/// Neutral evidence for an observation.
pub fn observe_psp_evidence(observation: &PspLayoutObservation) -> (r: Vec<ContentEvidence>)
    ensures
        facts(r@) == psp_facts(*observation),
{
    let mut evidence: Vec<ContentEvidence> = Vec::new();
    if observation.psp_game_dir_present {
        evidence.push(
            ContentEvidence::new(
                ContentEvidenceKind::BootStructure,
                "PSP_GAME",
                ContentEvidenceConfidence::Corroborated,
                "PSP_GAME root directory present - a conventional layout marker, not unique proof of platform",
            ),
        );
    }
    if observation.umd_data_bin_present {
        evidence.push(
            ContentEvidence::new(
                ContentEvidenceKind::BootStructure,
                "UMD_DATA.BIN",
                ContentEvidenceConfidence::Strong,
                "UMD_DATA.BIN medium-identification file present at the disc root - PSP-UMD-exclusive, no other Sony optical format in this crate uses this file",
            ),
        );
    }
    if let Some(sfo) = &observation.param_sfo {
        if let Some(item) = product_code_evidence(sfo, "DISC_ID") {
            evidence.push(item);
        }
    }
    assert(facts(evidence@) =~= psp_facts(*observation));
    evidence
}

/// Strong PSP evidence comes from `UMD_DATA.BIN` and from nothing else.
pub proof fn only_umd_is_strong(observation: PspLayoutObservation, i: int)
    requires
        0 <= i < psp_facts(observation).len(),
        psp_facts(observation)[i].confidence == ContentEvidenceConfidence::Strong,
    ensures
        observation.umd_data_bin_present,
        psp_facts(observation)[i] == umd_fact(),
{
}

} // verus!
