//! Where organising a file would put it.
use vstd::prelude::*;

verus! {

/// What organising would do with a file.
#[derive(Debug, Clone, Copy, PartialEq, Eq, Structural)]
pub enum OrganisationMode {
    MoveRealFile,
    RenameInPlace,
    OrganiseSymlinkOnly,
}

impl OrganisationMode {
    pub open spec fn label_text(self) -> Seq<char> {
        match self {
            OrganisationMode::MoveRealFile => "Move real file"@,
            OrganisationMode::RenameInPlace => "Rename in place"@,
            OrganisationMode::OrganiseSymlinkOnly => "Organise symlink only"@,
        }
    }

    pub fn label(self) -> (r: &'static str)
        ensures
            r@ == self.label_text(),
    {
        match self {
            OrganisationMode::MoveRealFile => "Move real file",
            OrganisationMode::RenameInPlace => "Rename in place",
            OrganisationMode::OrganiseSymlinkOnly => "Organise symlink only",
        }
    }
}

/// The proposal for one file.
#[derive(Debug, Clone, PartialEq, Eq)]
pub struct OrganisationEntry {
    pub source_path: String,
    pub destination_path: String,
    pub platform: Option<String>,
    pub platform_source: String,
    pub mode: OrganisationMode,
    /// Why the file cannot be organised, if it cannot.
    pub reason: Option<String>,
}

} // verus!
