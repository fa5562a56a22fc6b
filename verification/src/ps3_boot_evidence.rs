//! PS3 layout evidence: the `PS3_GAME` directory, `PARAM.SFO` and the signed
//! executable magic of `EBOOT.BIN`.
use vstd::prelude::*;
use crate::content_evidence::{
    facts, ContentEvidence, ContentEvidenceConfidence, ContentEvidenceKind, Fact,
};
use crate::executable_signatures::{looks_like_self, self_magic};
use crate::param_sfo::{
    opt_str, product_code_evidence, product_code_fact, text_entry, SfoObservation,
};
use crate::seqs::has_prefix;

verus! {

/// What was observed about a PS3-style disc layout.
#[derive(Debug, Clone, PartialEq, Eq)]
pub struct Ps3LayoutObservation {
    pub ps3_game_dir_present: bool,
    pub usrdir_present: bool,
    pub eboot_bin_present: bool,
    pub param_sfo: Option<SfoObservation>,
    /// Whether the header of `PS3_GAME/USRDIR/EBOOT.BIN` began with the signed
    /// executable magic; `None` when no header was read.
    pub eboot_self_magic_present: Option<bool>,
}

impl Default for Ps3LayoutObservation {
    /// Nothing was observed.
    fn default() -> (r: Ps3LayoutObservation)
        ensures
            !r.ps3_game_dir_present,
            !r.usrdir_present,
            !r.eboot_bin_present,
            r.param_sfo is None,
            r.eboot_self_magic_present is None,
    {
        Ps3LayoutObservation {
            ps3_game_dir_present: false,
            usrdir_present: false,
            eboot_bin_present: false,
            param_sfo: None,
            eboot_self_magic_present: None,
        }
    }
}

/// The text value of `key`, when there is a `PARAM.SFO`.
pub open spec fn sfo_text(sfo: Option<SfoObservation>, key: Seq<char>) -> Option<Seq<char>> {
    match sfo {
        Some(sfo) => text_entry(sfo.entries@, key),
        None => None,
    }
}

/// The text value of `key`, when there is a `PARAM.SFO`.
pub fn get_sfo_text<'a>(sfo: &'a Option<SfoObservation>, key: &str) -> (r: Option<&'a str>)
    ensures
        opt_str(r) == sfo_text(*sfo, key@),
{
    match sfo {
        Some(sfo) => sfo.get_text(key),
        None => None,
    }
}

impl Ps3LayoutObservation {
    pub fn title_id(&self) -> (r: Option<&str>)
        ensures
            opt_str(r) == sfo_text(self.param_sfo, "TITLE_ID"@),
    {
        get_sfo_text(&self.param_sfo, "TITLE_ID")
    }

    pub fn title(&self) -> (r: Option<&str>)
        ensures
            opt_str(r) == sfo_text(self.param_sfo, "TITLE"@),
    {
        get_sfo_text(&self.param_sfo, "TITLE")
    }

    pub fn category(&self) -> (r: Option<&str>)
        ensures
            opt_str(r) == sfo_text(self.param_sfo, "CATEGORY"@),
    {
        get_sfo_text(&self.param_sfo, "CATEGORY")
    }

    pub fn app_version(&self) -> (r: Option<&str>)
        ensures
            opt_str(r) == sfo_text(self.param_sfo, "APP_VER"@),
    {
        get_sfo_text(&self.param_sfo, "APP_VER")
    }
}

/// Records whether `header` began with the signed executable magic, leaving
/// the rest of the observation as it was.
pub fn check_eboot_self_magic(observation: &mut Ps3LayoutObservation, header: &[u8])
    ensures
        *final(observation) == (Ps3LayoutObservation {
            eboot_self_magic_present: Some(has_prefix(header@, self_magic())),
            ..*old(observation)
        }),
{
    observation.eboot_self_magic_present = Some(looks_like_self(header));
}

/// The `PS3_GAME` directory fact.
pub open spec fn ps3_directory_fact() -> Fact {
    Fact {
        kind: ContentEvidenceKind::BootStructure,
        value: "PS3_GAME"@,
        confidence: ContentEvidenceConfidence::Corroborated,
        detail:
            "PS3_GAME root directory present - a conventional layout marker, not unique proof of platform"@,
    }
}

/// The signed executable fact.
pub open spec fn ps3_self_fact() -> Fact {
    Fact {
        kind: ContentEvidenceKind::ContentSignature,
        value: "SELF"@,
        confidence: ContentEvidenceConfidence::Strong,
        detail: "PS3 SELF magic present in PS3_GAME/USRDIR/EBOOT.BIN"@,
    }
}

/// A one-element sequence when `present`, else an empty one.
pub open spec fn fact_if(present: bool, fact: Fact) -> Seq<Fact> {
    if present {
        seq![fact]
    } else {
        seq![]
    }
}

/// The product code that `key` of an optional `PARAM.SFO` gives, as a sequence
/// of none or one.
pub open spec fn product_code_facts(sfo: Option<SfoObservation>, key: Seq<char>) -> Seq<Fact> {
    match sfo {
        Some(sfo) => match product_code_fact(sfo, key) {
            Some(fact) => seq![fact],
            None => seq![],
        },
        None => seq![],
    }
}

/// The directory, product code and signed executable facts, in that order.
pub open spec fn ps3_facts(observation: Ps3LayoutObservation) -> Seq<Fact> {
    fact_if(observation.ps3_game_dir_present, ps3_directory_fact()) + product_code_facts(
        observation.param_sfo,
        "TITLE_ID"@,
    ) + fact_if(observation.eboot_self_magic_present == Some(true), ps3_self_fact())
}

/// Neutral evidence for an observation.
pub fn observe_ps3_evidence(observation: &Ps3LayoutObservation) -> (r: Vec<ContentEvidence>)
    ensures
        facts(r@) == ps3_facts(*observation),
{
    let mut evidence: Vec<ContentEvidence> = Vec::new();
    if observation.ps3_game_dir_present {
        evidence.push(
            ContentEvidence::new(
                ContentEvidenceKind::BootStructure,
                "PS3_GAME",
                ContentEvidenceConfidence::Corroborated,
                "PS3_GAME root directory present - a conventional layout marker, not unique proof of platform",
            ),
        );
    }
    if let Some(sfo) = &observation.param_sfo {
        if let Some(item) = product_code_evidence(sfo, "TITLE_ID") {
            evidence.push(item);
        }
    }
    if let Some(true) = observation.eboot_self_magic_present {
        evidence.push(
            ContentEvidence::new(
                ContentEvidenceKind::ContentSignature,
                "SELF",
                ContentEvidenceConfidence::Strong,
                "PS3 SELF magic present in PS3_GAME/USRDIR/EBOOT.BIN",
            ),
        );
    }
    assert(facts(evidence@) =~= ps3_facts(*observation));
    evidence
}

} // verus!
