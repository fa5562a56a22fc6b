//! The platform that a DAT describes.
use vstd::prelude::*;
use vstd::string::*;
use crate::text::{
    bracket, bracketed, debug_opt, debug_opt_text, debug_quoted, debug_quoted_text, opt_view, views,
};

verus! {

/// Where a statement about a DAT's platform was read.
#[derive(Debug, Clone, Copy, PartialEq, Eq, Structural)]
pub enum DatPlatformEvidenceKind {
    HeaderName,
}

impl DatPlatformEvidenceKind {
    pub open spec fn label_text(self) -> Seq<char> {
        "DAT header name"@
    }

    pub fn label(self) -> (r: &'static str)
        ensures
            r@ == self.label_text(),
    {
        "DAT header name"
    }
}

/// How much a statement about a DAT's platform carries, weakest first.
#[derive(Debug, Clone, Copy, PartialEq, Eq, Structural)]
pub enum DatPlatformConfidence {
    Weak,
    Corroborated,
    Strong,
}

impl DatPlatformConfidence {
    /// The variant's name.
    pub open spec fn name_text(self) -> Seq<char> {
        match self {
            DatPlatformConfidence::Weak => "Weak"@,
            DatPlatformConfidence::Corroborated => "Corroborated"@,
            DatPlatformConfidence::Strong => "Strong"@,
        }
    }

    fn name(self) -> (r: &'static str)
        ensures
            r@ == self.name_text(),
    {
        match self {
            DatPlatformConfidence::Weak => "Weak",
            DatPlatformConfidence::Corroborated => "Corroborated",
            DatPlatformConfidence::Strong => "Strong",
        }
    }
}

/// One statement about a DAT's platform.
#[derive(Debug, Clone, PartialEq, Eq)]
pub struct DatPlatformEvidence {
    pub platform: String,
    pub machine_key: Option<String>,
    pub kind: DatPlatformEvidenceKind,
    pub confidence: DatPlatformConfidence,
    pub detail: String,
}

/// The platform a DAT describes, as far as it is settled.
#[derive(Debug, Clone, PartialEq, Eq)]
pub enum DatPlatformIdentity {
    Unknown,
    /// One platform, with the statements behind it, strongest first.
    Resolved {
        platform: String,
        machine_key: Option<String>,
        confidence: DatPlatformConfidence,
        evidence: Vec<DatPlatformEvidence>,
    },
    /// Several platforms are stated equally strongly.
    Ambiguous { candidates: Vec<DatPlatformEvidence> },
}

impl DatPlatformIdentity {
    /// The settled platform.
    pub open spec fn platform_text(self) -> Option<Seq<char>> {
        match self {
            DatPlatformIdentity::Resolved { platform, .. } => Some(platform@),
            _ => None,
        }
    }

    /// The settled platform, if there is one.
    pub fn platform(&self) -> (r: Option<&str>)
        ensures
            crate::param_sfo::opt_str(r) == self.platform_text(),
    {
        match self {
            DatPlatformIdentity::Resolved { platform, .. } => Some(platform.as_str()),
            _ => None,
        }
    }

    pub fn is_ambiguous(&self) -> (r: bool)
        ensures
            r == (*self is Ambiguous),
    {
        match self {
            DatPlatformIdentity::Ambiguous { .. } => true,
            _ => false,
        }
    }
}

/// The text std's `Debug` writes for one statement.
pub open spec fn evidence_debug(e: DatPlatformEvidence) -> Seq<char> {
    "DatPlatformEvidence { platform: "@ + debug_quoted_text(e.platform@) + ", machine_key: "@
        + debug_opt_text(opt_view(e.machine_key)) + ", kind: HeaderName, confidence: "@
        + e.confidence.name_text() + ", detail: "@ + debug_quoted_text(e.detail@) + " }"@
}

/// The texts std's `Debug` writes for a sequence of statements.
pub open spec fn evidence_debugs(s: Seq<DatPlatformEvidence>) -> Seq<Seq<char>> {
    s.map_values(|e: DatPlatformEvidence| evidence_debug(e))
}

/// The text std's `Debug` writes for an identity.
pub open spec fn identity_debug(d: DatPlatformIdentity) -> Seq<char> {
    match d {
        DatPlatformIdentity::Unknown => "Unknown"@,
        DatPlatformIdentity::Resolved { platform, machine_key, confidence, evidence } => {
            "Resolved { platform: "@ + debug_quoted_text(platform@) + ", machine_key: "@
                + debug_opt_text(opt_view(machine_key)) + ", confidence: "@
                + confidence.name_text() + ", evidence: "@ + bracketed(evidence_debugs(evidence@))
                + " }"@
        },
        DatPlatformIdentity::Ambiguous { candidates } => {
            "Ambiguous { candidates: "@ + bracketed(evidence_debugs(candidates@)) + " }"@
        },
    }
}

fn debug_evidence(e: &DatPlatformEvidence) -> (r: String)
    ensures
        r@ == evidence_debug(*e),
{
    let mut r = "DatPlatformEvidence { platform: ".to_owned();
    r.append(debug_quoted(e.platform.as_str()).as_str());
    r.append(", machine_key: ");
    r.append(debug_opt(&e.machine_key).as_str());
    r.append(", kind: HeaderName, confidence: ");
    r.append(e.confidence.name());
    r.append(", detail: ");
    r.append(debug_quoted(e.detail.as_str()).as_str());
    r.append(" }");
    r
}

fn debug_evidence_list(s: &Vec<DatPlatformEvidence>) -> (r: String)
    ensures
        r@ == bracketed(evidence_debugs(s@)),
{
    let mut out: Vec<String> = Vec::new();
    let mut i: usize = 0;
    while i < s.len()
        invariant
            i <= s@.len(),
            views(out@) == evidence_debugs(s@).take(i as int),
        decreases s.len() - i,
    {
        let q = debug_evidence(&s[i]);
        proof {
            assert(views(out@.push(q)) =~= views(out@).push(q@));
            assert(evidence_debugs(s@).take(i + 1) =~= evidence_debugs(s@).take(i as int).push(q@));
        }
        out.push(q);
        i = i + 1;
    }
    assert(evidence_debugs(s@).take(i as int) =~= evidence_debugs(s@));
    bracket(&out)
}

/// The text std's `Debug` writes for an identity.
pub fn debug_identity(d: &DatPlatformIdentity) -> (r: String)
    ensures
        r@ == identity_debug(*d),
{
    match d {
        DatPlatformIdentity::Unknown => "Unknown".to_owned(),
        DatPlatformIdentity::Resolved { platform, machine_key, confidence, evidence } => {
            let mut r = "Resolved { platform: ".to_owned();
            r.append(debug_quoted(platform.as_str()).as_str());
            r.append(", machine_key: ");
            r.append(debug_opt(machine_key).as_str());
            r.append(", confidence: ");
            r.append(confidence.name());
            r.append(", evidence: ");
            r.append(debug_evidence_list(evidence).as_str());
            r.append(" }");
            r
        },
        DatPlatformIdentity::Ambiguous { candidates } => {
            let mut r = "Ambiguous { candidates: ".to_owned();
            r.append(debug_evidence_list(candidates).as_str());
            r.append(" }");
            r
        },
    }
}

} // verus!
