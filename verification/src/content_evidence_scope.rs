//! How far a fact reaches: any file format, a family of platforms, or one
//! platform.
use vstd::prelude::*;
use vstd::string::*;
use crate::content_evidence::ContentEvidenceKind;
use crate::text::same_text;

verus! {

/// How far a fact reaches.
#[derive(Debug, Clone, Copy, PartialEq, Eq)]
pub enum EvidenceScope {
    /// A format shared by unrelated platforms.
    Generic,
    /// A convention shared by one family of platforms.
    Family(&'static str),
    /// A fact that only one platform's media carry.
    PlatformSpecific(&'static str),
}

/// The contents of an [`EvidenceScope`].
pub enum ScopeModel {
    Generic,
    Family(Seq<char>),
    PlatformSpecific(Seq<char>),
}

impl View for EvidenceScope {
    type V = ScopeModel;

    open spec fn view(&self) -> ScopeModel {
        match *self {
            EvidenceScope::Generic => ScopeModel::Generic,
            EvidenceScope::Family(name) => ScopeModel::Family(name@),
            EvidenceScope::PlatformSpecific(id) => ScopeModel::PlatformSpecific(id@),
        }
    }
}

/// The boot-structure values that only one platform's media carry.
pub open spec fn boot_platform(value: Seq<char>) -> Option<Seq<char>> {
    if value == "SEGA SEGASATURN"@ {
        Some("Saturn"@)
    } else if value == "SEGA SEGAKATANA"@ || value == "SEGA SEGAMARIO"@ {
        Some("Dreamcast"@)
    } else if value == "OperaFS"@ {
        Some("3DO"@)
    } else if value == "SEGADISCSYSTEM"@ {
        Some("SegaCD"@)
    } else if value == "BOOT2"@ {
        Some("PS2"@)
    } else if value == "UMD_DATA.BIN"@ {
        Some("PSP"@)
    } else if value == "Nintendo Game Boy logo"@ {
        Some("Game Boy"@)
    } else if value == "GBA cartridge header"@ {
        Some("Game Boy Advance"@)
    } else if value == "GameCube"@ {
        Some("GameCube"@)
    } else if value == "Wii"@ {
        Some("Wii"@)
    } else if value == "LYNX"@ {
        Some("Lynx"@)
    } else if value == "ATARI7800"@ {
        Some("Atari 7800"@)
    } else {
        None
    }
}

/// The content-signature values that only one platform's media carry.
pub open spec fn signature_platform(value: Seq<char>) -> Option<Seq<char>> {
    if value == "PS-X EXE"@ {
        Some("PSX"@)
    } else if value == "SELF"@ {
        Some("PS3"@)
    } else if value == "XBEH"@ {
        Some("Xbox"@)
    } else if value == "XEX2"@ {
        Some("Xbox360"@)
    } else if value == "iNES"@ {
        Some("NES"@)
    } else if value == "LoROM"@ || value == "HiROM"@ || value == "ExHiROM"@ {
        Some("SNES"@)
    } else if value == "z64"@ || value == "v64"@ || value == "n64"@ {
        Some("N64"@)
    } else {
        None
    }
}

/// The family a value is shared in.
pub open spec fn value_family(kind: ContentEvidenceKind, value: Seq<char>) -> Option<Seq<char>> {
    if kind == ContentEvidenceKind::BootStructure && value == "BOOT"@ {
        Some("PlayStation"@)
    } else if kind == ContentEvidenceKind::BootStructure && value == "TMR SEGA"@ {
        Some("Sega 8-bit"@)
    } else if kind == ContentEvidenceKind::Filesystem && value == "XDVDFS"@ {
        Some("Xbox"@)
    } else {
        None
    }
}

/// The platform that alone carries `value` as a fact of `kind`.
pub open spec fn value_platform(kind: ContentEvidenceKind, value: Seq<char>) -> Option<Seq<char>> {
    match kind {
        ContentEvidenceKind::BootStructure => boot_platform(value),
        ContentEvidenceKind::ContentSignature => signature_platform(value),
        _ => None,
    }
}

/// The scope of a fact; anything not listed is generic.
pub open spec fn scope_model(kind: ContentEvidenceKind, value: Seq<char>) -> ScopeModel {
    match value_platform(kind, value) {
        Some(id) => ScopeModel::PlatformSpecific(id),
        None => match value_family(kind, value) {
            Some(name) => ScopeModel::Family(name),
            None => ScopeModel::Generic,
        },
    }
}

fn boot_platform_of(value: &str) -> (r: Option<&'static str>)
    ensures
        crate::platform::opt_id(r) == boot_platform(value@),
{
    if same_text(value, "SEGA SEGASATURN") {
        Some("Saturn")
    } else if same_text(value, "SEGA SEGAKATANA") || same_text(value, "SEGA SEGAMARIO") {
        Some("Dreamcast")
    } else if same_text(value, "OperaFS") {
        Some("3DO")
    } else if same_text(value, "SEGADISCSYSTEM") {
        Some("SegaCD")
    } else if same_text(value, "BOOT2") {
        Some("PS2")
    } else if same_text(value, "UMD_DATA.BIN") {
        Some("PSP")
    } else if same_text(value, "Nintendo Game Boy logo") {
        Some("Game Boy")
    } else if same_text(value, "GBA cartridge header") {
        Some("Game Boy Advance")
    } else if same_text(value, "GameCube") {
        Some("GameCube")
    } else if same_text(value, "Wii") {
        Some("Wii")
    } else if same_text(value, "LYNX") {
        Some("Lynx")
    } else if same_text(value, "ATARI7800") {
        Some("Atari 7800")
    } else {
        None
    }
}

fn signature_platform_of(value: &str) -> (r: Option<&'static str>)
    ensures
        crate::platform::opt_id(r) == signature_platform(value@),
{
    if same_text(value, "PS-X EXE") {
        Some("PSX")
    } else if same_text(value, "SELF") {
        Some("PS3")
    } else if same_text(value, "XBEH") {
        Some("Xbox")
    } else if same_text(value, "XEX2") {
        Some("Xbox360")
    } else if same_text(value, "iNES") {
        Some("NES")
    } else if same_text(value, "LoROM") || same_text(value, "HiROM") || same_text(
        value,
        "ExHiROM",
    ) {
        Some("SNES")
    } else if same_text(value, "z64") || same_text(value, "v64") || same_text(value, "n64") {
        Some("N64")
    } else {
        None
    }
}

/// The scope of a fact; anything not listed is generic.
pub fn scope_of(kind: ContentEvidenceKind, value: &str) -> (r: EvidenceScope)
    ensures
        r@ == scope_model(kind, value@),
{
    let specific = match kind {
        ContentEvidenceKind::BootStructure => boot_platform_of(value),
        ContentEvidenceKind::ContentSignature => signature_platform_of(value),
        _ => None,
    };
    if let Some(id) = specific {
        return EvidenceScope::PlatformSpecific(id);
    }
    match kind {
        ContentEvidenceKind::BootStructure => if same_text(value, "BOOT") {
            EvidenceScope::Family("PlayStation")
        } else if same_text(value, "TMR SEGA") {
            EvidenceScope::Family("Sega 8-bit")
        } else {
            EvidenceScope::Generic
        },
        ContentEvidenceKind::Filesystem => if same_text(value, "XDVDFS") {
            EvidenceScope::Family("Xbox")
        } else {
            EvidenceScope::Generic
        },
        _ => EvidenceScope::Generic,
    }
}

} // verus!
