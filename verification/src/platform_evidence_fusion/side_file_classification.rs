//! The role a file plays, from its extension and, for readmes and manuals, its
//! base name. A role never says anything about platform or game.
use vstd::prelude::*;
use vstd::string::*;
use crate::path::{extension, file_stem, file_stem_of};
use crate::platform::{extension_of, is_content_extension, registers_extension};
use crate::seqs::contains_run;
use crate::text::{contains_text, lower_text, same_text, to_lower};

verus! {

/// The role of a file.
#[derive(Debug, Clone, Copy, PartialEq, Eq, Structural)]
pub enum SideFileRole {
    /// The game, ROM or disc image itself.
    PrimaryContent,
    CueSheet,
    Playlist,
    Patch,
    Manual,
    Artwork,
    Readme,
    Metadata,
    SaveOrState,
    /// Nothing is known of the file's role.
    UnknownSupport,
}

impl SideFileRole {
    pub open spec fn label_text(self) -> Seq<char> {
        match self {
            SideFileRole::PrimaryContent => "Primary content"@,
            SideFileRole::CueSheet => "Cue sheet"@,
            SideFileRole::Playlist => "Playlist"@,
            SideFileRole::Patch => "Patch"@,
            SideFileRole::Manual => "Manual"@,
            SideFileRole::Artwork => "Artwork"@,
            SideFileRole::Readme => "Readme"@,
            SideFileRole::Metadata => "Metadata"@,
            SideFileRole::SaveOrState => "Save or state"@,
            SideFileRole::UnknownSupport => "Unknown support file"@,
        }
    }

    pub fn label(self) -> (r: &'static str)
        ensures
            r@ == self.label_text(),
    {
        match self {
            SideFileRole::PrimaryContent => "Primary content",
            SideFileRole::CueSheet => "Cue sheet",
            SideFileRole::Playlist => "Playlist",
            SideFileRole::Patch => "Patch",
            SideFileRole::Manual => "Manual",
            SideFileRole::Artwork => "Artwork",
            SideFileRole::Readme => "Readme",
            SideFileRole::Metadata => "Metadata",
            SideFileRole::SaveOrState => "Save or state",
            SideFileRole::UnknownSupport => "Unknown support file",
        }
    }

    /// Whether the file is planned for on its own.
    pub fn is_primary(self) -> (r: bool)
        ensures
            r == (self == SideFileRole::PrimaryContent),
    {
        match self {
            SideFileRole::PrimaryContent => true,
            _ => false,
        }
    }
}

/// The extensions of patches.
pub open spec fn is_patch_extension(e: Seq<char>) -> bool {
    e == "ips"@ || e == "bps"@ || e == "xdelta"@ || e == "ppf"@ || e == "ups"@
}

/// The extensions of artwork.
pub open spec fn is_artwork_extension(e: Seq<char>) -> bool {
    e == "jpg"@ || e == "jpeg"@ || e == "png"@ || e == "webp"@ || e == "gif"@ || e == "bmp"@
}

/// The extensions of saves and save states.
pub open spec fn is_save_extension(e: Seq<char>) -> bool {
    ||| e == "sav"@ || e == "srm"@ || e == "state"@ || e == "mcr"@
    ||| e == "st0"@ || e == "st1"@ || e == "st2"@ || e == "st3"@ || e == "st4"@
    ||| e == "st5"@ || e == "st6"@ || e == "st7"@ || e == "st8"@ || e == "st9"@
    ||| e == "ss0"@ || e == "ss1"@ || e == "ss2"@ || e == "ss3"@ || e == "ss4"@
    ||| e == "ss5"@ || e == "ss6"@ || e == "ss7"@ || e == "ss8"@ || e == "ss9"@
}

/// The extensions of metadata, besides `nfo`.
pub open spec fn is_metadata_extension(e: Seq<char>) -> bool {
    e == "xml"@ || e == "json"@ || e == "yaml"@ || e == "yml"@
}

/// The role a base name suggests.
pub open spec fn stem_role(path: Seq<char>) -> SideFileRole {
    match file_stem(path) {
        Some(stem) => if contains_run(lower_text(stem), "readme"@) {
            SideFileRole::Readme
        } else if contains_run(lower_text(stem), "manual"@) {
            SideFileRole::Manual
        } else {
            SideFileRole::UnknownSupport
        },
        None => SideFileRole::UnknownSupport,
    }
}

/// The role of a file with extension `e`: a listing is never primary content,
/// and the base name decides only where the extension does not.
pub open spec fn extension_role(e: Seq<char>, path: Seq<char>) -> SideFileRole {
    if e == "cue"@ {
        SideFileRole::CueSheet
    } else if e == "m3u"@ || e == "m3u8"@ {
        SideFileRole::Playlist
    } else if is_content_extension(e) {
        SideFileRole::PrimaryContent
    } else if is_patch_extension(e) {
        SideFileRole::Patch
    } else if is_artwork_extension(e) {
        SideFileRole::Artwork
    } else if is_save_extension(e) {
        SideFileRole::SaveOrState
    } else if e == "nfo"@ {
        SideFileRole::Readme
    } else if is_metadata_extension(e) {
        SideFileRole::Metadata
    } else {
        stem_role(path)
    }
}

/// The role of a file.
pub open spec fn role_of(path: Seq<char>) -> SideFileRole {
    match extension(path) {
        Some(e) => extension_role(lower_text(e), path),
        None => stem_role(path),
    }
}

fn classify_by_stem(path: &str) -> (r: SideFileRole)
    ensures
        r == stem_role(path@),
{
    match file_stem_of(path) {
        Some(stem) => {
            let lower = to_lower(stem.as_str());
            if contains_text(lower.as_str(), "readme") {
                SideFileRole::Readme
            } else if contains_text(lower.as_str(), "manual") {
                SideFileRole::Manual
            } else {
                SideFileRole::UnknownSupport
            }
        },
        None => SideFileRole::UnknownSupport,
    }
}

fn names_patch(e: &str) -> (r: bool)
    ensures
        r == is_patch_extension(e@),
{
    same_text(e, "ips") || same_text(e, "bps") || same_text(e, "xdelta") || same_text(e, "ppf")
        || same_text(e, "ups")
}

fn names_artwork(e: &str) -> (r: bool)
    ensures
        r == is_artwork_extension(e@),
{
    same_text(e, "jpg") || same_text(e, "jpeg") || same_text(e, "png") || same_text(e, "webp")
        || same_text(e, "gif") || same_text(e, "bmp")
}

fn names_save(e: &str) -> (r: bool)
    ensures
        r == is_save_extension(e@),
{
    same_text(e, "sav") || same_text(e, "srm") || same_text(e, "state") || same_text(e, "mcr")
        || same_text(e, "st0") || same_text(e, "st1") || same_text(e, "st2") || same_text(e, "st3")
        || same_text(e, "st4") || same_text(e, "st5") || same_text(e, "st6") || same_text(e, "st7")
        || same_text(e, "st8") || same_text(e, "st9") || same_text(e, "ss0") || same_text(e, "ss1")
        || same_text(e, "ss2") || same_text(e, "ss3") || same_text(e, "ss4") || same_text(e, "ss5")
        || same_text(e, "ss6") || same_text(e, "ss7") || same_text(e, "ss8") || same_text(e, "ss9")
}

fn names_metadata(e: &str) -> (r: bool)
    ensures
        r == is_metadata_extension(e@),
{
    same_text(e, "xml") || same_text(e, "json") || same_text(e, "yaml") || same_text(e, "yml")
}

/// Classifies a file by its extension and base name.
pub fn classify_side_file(path: &str) -> (r: SideFileRole)
    ensures
        r == role_of(path@),
{
    match extension_of(path) {
        Some(ext) => {
            let e: &str = ext.as_str();
            if same_text(e, "cue") {
                SideFileRole::CueSheet
            } else if same_text(e, "m3u") || same_text(e, "m3u8") {
                SideFileRole::Playlist
            } else if registers_extension(e) {
                SideFileRole::PrimaryContent
            } else if names_patch(e) {
                SideFileRole::Patch
            } else if names_artwork(e) {
                SideFileRole::Artwork
            } else if names_save(e) {
                SideFileRole::SaveOrState
            } else if same_text(e, "nfo") {
                SideFileRole::Readme
            } else if names_metadata(e) {
                SideFileRole::Metadata
            } else {
                classify_by_stem(path)
            }
        },
        None => classify_by_stem(path),
    }
}

/// A file is primary content exactly when its extension is registered for
/// some platform and is not that of a listing; its name plays no part.
pub proof fn only_extensions_make_primary_content(path: Seq<char>)
    ensures
        role_of(path) == SideFileRole::PrimaryContent <==> (extension(path) matches Some(e)
            && is_content_extension(lower_text(e)) && lower_text(e) != "cue"@ && lower_text(e)
            != "m3u"@ && lower_text(e) != "m3u8"@),
{
}

} // verus!
