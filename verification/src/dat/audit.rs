//! Hashes of a file, and the verdict of looking them up in a DAT.
use vstd::prelude::*;
use vstd::string::*;
use crate::text::{bracketed, debug_quoted, debug_quoted_text, debug_texts, quoted_texts, views};

verus! {

/// What is known of a file without reading it again.
#[derive(Debug, Clone, PartialEq, Eq)]
pub struct KnownFileEvidence {
    /// Display only.
    pub filepath: String,
    /// Display only.
    pub filename: String,
    pub size: Option<u64>,
    pub crc32: Option<String>,
    pub md5: Option<String>,
    pub sha1: Option<String>,
    pub sha256: Option<String>,
}

impl KnownFileEvidence {
    /// A file of which only the labels are known.
    pub fn new(filepath: &str, filename: &str) -> (r: KnownFileEvidence)
        ensures
            r.filepath@ == filepath@,
            r.filename@ == filename@,
            r.size is None,
            r.crc32 is None,
            r.md5 is None,
            r.sha1 is None,
            r.sha256 is None,
    {
        KnownFileEvidence {
            filepath: filepath.to_owned(),
            filename: filename.to_owned(),
            size: None,
            crc32: None,
            md5: None,
            sha1: None,
            sha256: None,
        }
    }

    pub fn with_size(self, size: u64) -> (r: KnownFileEvidence)
        ensures
            r == (KnownFileEvidence { size: Some(size), ..self }),
    {
        KnownFileEvidence { size: Some(size), ..self }
    }

    pub fn with_crc32(self, crc32: String) -> (r: KnownFileEvidence)
        ensures
            r == (KnownFileEvidence { crc32: Some(crc32), ..self }),
    {
        KnownFileEvidence { crc32: Some(crc32), ..self }
    }

    pub fn with_md5(self, md5: String) -> (r: KnownFileEvidence)
        ensures
            r == (KnownFileEvidence { md5: Some(md5), ..self }),
    {
        KnownFileEvidence { md5: Some(md5), ..self }
    }

    pub fn with_sha1(self, sha1: String) -> (r: KnownFileEvidence)
        ensures
            r == (KnownFileEvidence { sha1: Some(sha1), ..self }),
    {
        KnownFileEvidence { sha1: Some(sha1), ..self }
    }

    pub fn with_sha256(self, sha256: String) -> (r: KnownFileEvidence)
        ensures
            r == (KnownFileEvidence { sha256: Some(sha256), ..self }),
    {
        KnownFileEvidence { sha256: Some(sha256), ..self }
    }
}

/// The verdict of looking a file's hashes up in a DAT.
#[derive(Debug, Clone, PartialEq, Eq)]
pub enum AuditVerdict {
    /// A cryptographic hash names one release.
    Exact { game_name: String, rom_name: String, algorithm: &'static str },
    /// A cryptographic hash names several releases.
    ExactMultipleCandidates { game_names: Vec<String>, algorithm: &'static str },
    /// Only a checksum matches.
    Probable { game_name: String, rom_name: String },
    /// Nothing matches.
    NotFound,
}

impl AuditVerdict {
    /// A verdict that rests on a cryptographic hash.
    pub open spec fn confident(self) -> bool {
        self is Exact || self is ExactMultipleCandidates
    }

    /// Whether the verdict rests on a cryptographic hash.
    pub fn is_confident(&self) -> (r: bool)
        ensures
            r == self.confident(),
    {
        match self {
            AuditVerdict::Exact { .. } => true,
            AuditVerdict::ExactMultipleCandidates { .. } => true,
            _ => false,
        }
    }

    pub open spec fn label_text(self) -> Seq<char> {
        match self {
            AuditVerdict::Exact { .. } => "Exact"@,
            AuditVerdict::ExactMultipleCandidates { .. } => "Exact (multiple candidates)"@,
            AuditVerdict::Probable { .. } => "Probable"@,
            AuditVerdict::NotFound => "Not found"@,
        }
    }

    pub fn label(&self) -> (r: &'static str)
        ensures
            r@ == self.label_text(),
    {
        match self {
            AuditVerdict::Exact { .. } => "Exact",
            AuditVerdict::ExactMultipleCandidates { .. } => "Exact (multiple candidates)",
            AuditVerdict::Probable { .. } => "Probable",
            AuditVerdict::NotFound => "Not found",
        }
    }

    /// The releases a confident verdict names.
    pub open spec fn game_names(self) -> Seq<Seq<char>> {
        match self {
            AuditVerdict::Exact { game_name, .. } => seq![game_name@],
            AuditVerdict::ExactMultipleCandidates { game_names, .. } => views(game_names@),
            _ => seq![],
        }
    }
}

/// The text std's `Debug` writes for a verdict.
pub open spec fn verdict_debug(v: AuditVerdict) -> Seq<char> {
    match v {
        AuditVerdict::Exact { game_name, rom_name, algorithm } => {
            "Exact { game_name: "@ + debug_quoted_text(game_name@) + ", rom_name: "@
                + debug_quoted_text(rom_name@) + ", algorithm: "@ + debug_quoted_text(algorithm@)
                + " }"@
        },
        AuditVerdict::ExactMultipleCandidates { game_names, algorithm } => {
            "ExactMultipleCandidates { game_names: "@ + bracketed(
                quoted_texts(views(game_names@)),
            ) + ", algorithm: "@ + debug_quoted_text(algorithm@) + " }"@
        },
        AuditVerdict::Probable { game_name, rom_name } => {
            "Probable { game_name: "@ + debug_quoted_text(game_name@) + ", rom_name: "@
                + debug_quoted_text(rom_name@) + " }"@
        },
        AuditVerdict::NotFound => "NotFound"@,
    }
}

/// The text std's `Debug` writes for a verdict.
pub fn debug_verdict(v: &AuditVerdict) -> (r: String)
    ensures
        r@ == verdict_debug(*v),
{
    match v {
        AuditVerdict::Exact { game_name, rom_name, algorithm } => {
            let mut r = "Exact { game_name: ".to_owned();
            r.append(debug_quoted(game_name.as_str()).as_str());
            r.append(", rom_name: ");
            r.append(debug_quoted(rom_name.as_str()).as_str());
            r.append(", algorithm: ");
            r.append(debug_quoted(algorithm).as_str());
            r.append(" }");
            r
        },
        AuditVerdict::ExactMultipleCandidates { game_names, algorithm } => {
            let mut r = "ExactMultipleCandidates { game_names: ".to_owned();
            r.append(debug_texts(game_names).as_str());
            r.append(", algorithm: ");
            r.append(debug_quoted(algorithm).as_str());
            r.append(" }");
            r
        },
        AuditVerdict::Probable { game_name, rom_name } => {
            let mut r = "Probable { game_name: ".to_owned();
            r.append(debug_quoted(game_name.as_str()).as_str());
            r.append(", rom_name: ");
            r.append(debug_quoted(rom_name.as_str()).as_str());
            r.append(" }");
            r
        },
        AuditVerdict::NotFound => "NotFound".to_owned(),
    }
}

} // verus!
