//! PlayStation 2 boot evidence: a `BOOT2=` line and the ELF magic of the
//! executable it names.
//!
//! A `BOOT2` key is strong evidence only once its executable has been
//! confirmed to be an ELF; the text of the key alone never is. Neither fact is
//! a platform decision.
use vstd::prelude::*;
use vstd::string::*;
use crate::content_evidence::{
    facts, ContentEvidence, ContentEvidenceConfidence, ContentEvidenceKind, Fact,
};
use crate::executable_signatures::{elf_magic, looks_like_elf};
use crate::playstation_boot_evidence::{
    boot_key_fact, observe_system_cnf_evidence, parse_system_cnf_boot, states_assignment,
    system_cnf_assignment, system_cnf_facts, SystemCnfBootFact,
};
use crate::seqs::has_prefix;
use crate::text::same_text;

verus! {

/// A boot line together with what is known of its executable.
#[derive(Debug, Clone, PartialEq, Eq)]
pub struct Ps2BootObservation {
    pub system_cnf: SystemCnfBootFact,
    /// Whether the named executable began with the ELF magic; `None` when its
    /// header was not read.
    pub elf_magic_present: Option<bool>,
}

/// Combines a boot line with an optional, separately read executable header.
pub fn observe_ps2_boot(
    system_cnf: SystemCnfBootFact,
    executable_header: Option<&[u8]>,
) -> (r: Ps2BootObservation)
    ensures
        r.system_cnf == system_cnf,
        r.elf_magic_present == match executable_header {
            Some(header) => Some(has_prefix(header@, elf_magic())),
            None => None,
        },
{
    let elf_magic_present = match executable_header {
        Some(header) => Some(looks_like_elf(header)),
        None => None,
    };
    Ps2BootObservation { system_cnf, elf_magic_present }
}

/// The boot line of a `SYSTEM.CNF`, if its key is `BOOT2`.
pub fn parse_ps2_system_cnf(bytes: &[u8]) -> (r: Option<SystemCnfBootFact>)
    ensures
        r is Some <==> (system_cnf_assignment(bytes@) matches Some(a) && a.0 == "BOOT2"@),
        r matches Some(fact) ==> states_assignment(
            fact,
            (system_cnf_assignment(bytes@)->0).0,
            (system_cnf_assignment(bytes@)->0).1,
        ),
{
    match parse_system_cnf_boot(bytes) {
        Some(fact) => if same_text(fact.boot_key, "BOOT2") {
            Some(fact)
        } else {
            None
        },
        None => None,
    }
}

/// What is added to the detail of a `BOOT2` fact whose executable is an ELF.
pub const CONFIRMED_DETAIL: &'static str = " - confirmed against a validated ELF executable at the named path (BOOT2 is PS2-exclusive in this crate's grammar, unlike BOOT)";

/// The detail of the ELF fact.
pub const ELF_DETAIL: &'static str = "ELF magic present in the BOOT2 executable - a generic executable-format signature, not platform evidence on its own";

/// The boot-key fact of `system_cnf` once its executable is known to be an ELF.
pub open spec fn confirmed_key_fact(system_cnf: SystemCnfBootFact) -> Fact {
    let plain = boot_key_fact(system_cnf);
    if system_cnf.boot_key@ == "BOOT2"@ {
        Fact {
            kind: plain.kind,
            value: plain.value,
            confidence: ContentEvidenceConfidence::Strong,
            detail: plain.detail + CONFIRMED_DETAIL@,
        }
    } else {
        plain
    }
}

/// The facts of an observation: those of its boot line, and with an ELF
/// executable a strong `BOOT2` key and a weak ELF signature.
pub open spec fn ps2_facts(observation: Ps2BootObservation) -> Seq<Fact> {
    let plain = system_cnf_facts(observation.system_cnf);
    if observation.elf_magic_present == Some(true) {
        plain.update(0, confirmed_key_fact(observation.system_cnf)).push(
            Fact {
                kind: ContentEvidenceKind::ContentSignature,
                value: "ELF"@,
                confidence: ContentEvidenceConfidence::Weak,
                detail: ELF_DETAIL@,
            },
        )
    } else {
        plain
    }
}

/// Neutral evidence for an observation.
pub fn observe_ps2_evidence(observation: &Ps2BootObservation) -> (r: Vec<ContentEvidence>)
    ensures
        facts(r@) == ps2_facts(*observation),
{
    let mut evidence = observe_system_cnf_evidence(&observation.system_cnf);
    let ghost plain = system_cnf_facts(observation.system_cnf);
    assert(facts(evidence@).len() == plain.len());
    if let Some(true) = observation.elf_magic_present {
        assert(facts(evidence@)[0] == evidence@[0]@);
        if same_text(observation.system_cnf.boot_key, "BOOT2") {
            let mut detail = evidence[0].detail.clone();
            detail.append(CONFIRMED_DETAIL);
            let strong = ContentEvidence::new(
                ContentEvidenceKind::BootStructure,
                observation.system_cnf.boot_key,
                ContentEvidenceConfidence::Strong,
                detail.as_str(),
            );
            evidence.set(0, strong);
        }
        assert(facts(evidence@) =~= plain.update(0, confirmed_key_fact(observation.system_cnf)));
        let ghost before = evidence@;
        let elf = ContentEvidence::new(
            ContentEvidenceKind::ContentSignature,
            "ELF",
            ContentEvidenceConfidence::Weak,
            ELF_DETAIL,
        );
        evidence.push(elf);
        assert(facts(evidence@) =~= facts(before).push(elf@));
    }
    evidence
}

/// A `BOOT2` fact is strong exactly when its executable was confirmed to be an
/// ELF; every other fact of an observation keeps the confidence it had.
pub proof fn boot2_is_strong_iff_elf_confirmed(observation: Ps2BootObservation)
    requires
        observation.system_cnf.boot_key@ == "BOOT2"@,
    ensures
        ps2_facts(observation)[0].kind == ContentEvidenceKind::BootStructure,
        ps2_facts(observation)[0].value == "BOOT2"@,
        ps2_facts(observation)[0].confidence == ContentEvidenceConfidence::Strong
            <==> observation.elf_magic_present == Some(true),
        forall|i: int|
            1 <= i < ps2_facts(observation).len() ==> (#[trigger] ps2_facts(
                observation,
            )[i]).confidence != ContentEvidenceConfidence::Strong,
{
}

/// A `BOOT` key is never raised above `Corroborated`, whatever its executable.
pub proof fn boot_is_never_strong(observation: Ps2BootObservation, i: int)
    requires
        observation.system_cnf.boot_key@ != "BOOT2"@,
        0 <= i < ps2_facts(observation).len(),
    ensures
        ps2_facts(observation)[i].confidence != ContentEvidenceConfidence::Strong,
{
}

} // verus!
