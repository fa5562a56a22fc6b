//! The registered fusion rules.
use vstd::prelude::*;
use crate::content_evidence::{ContentEvidenceConfidence, ContentEvidenceKind};

verus! {

/// One fact that a rule needs.
#[derive(Debug, Clone, Copy, PartialEq, Eq)]
pub enum RequiredFact {
    /// A fact of this kind with exactly this value.
    Exact {
        kind: ContentEvidenceKind,
        value: &'static str,
        min_confidence: ContentEvidenceConfidence,
    },
    /// A fact of this kind, whatever its value.
    AnyValue { kind: ContentEvidenceKind, min_confidence: ContentEvidenceConfidence },
}

/// The contents of a [`RequiredFact`].
pub enum LegModel {
    Exact {
        kind: ContentEvidenceKind,
        value: Seq<char>,
        min_confidence: ContentEvidenceConfidence,
    },
    AnyValue { kind: ContentEvidenceKind, min_confidence: ContentEvidenceConfidence },
}

impl LegModel {
    /// The confidence the leg asks for.
    pub open spec fn floor(self) -> ContentEvidenceConfidence {
        match self {
            LegModel::Exact { min_confidence, .. } => min_confidence,
            LegModel::AnyValue { min_confidence, .. } => min_confidence,
        }
    }
}

impl View for RequiredFact {
    type V = LegModel;

    open spec fn view(&self) -> LegModel {
        match *self {
            RequiredFact::Exact { kind, value, min_confidence } => LegModel::Exact {
                kind,
                value: value@,
                min_confidence,
            },
            RequiredFact::AnyValue { kind, min_confidence } => LegModel::AnyValue {
                kind,
                min_confidence,
            },
        }
    }
}

impl RequiredFact {
    /// The confidence the leg asks for.
    pub fn min_confidence(&self) -> (r: ContentEvidenceConfidence)
        ensures
            r == self@.floor(),
    {
        match self {
            RequiredFact::Exact { min_confidence, .. } => *min_confidence,
            RequiredFact::AnyValue { min_confidence, .. } => *min_confidence,
        }
    }
}

/// A platform and the facts that together stand for it.
#[derive(Debug, Clone, PartialEq, Eq)]
pub struct FusionRule {
    pub id: &'static str,
    pub platform: &'static str,
    pub legs: Vec<RequiredFact>,
}

/// The contents of a [`FusionRule`].
pub struct RuleModel {
    pub id: Seq<char>,
    pub platform: Seq<char>,
    pub legs: Seq<LegModel>,
}

impl View for FusionRule {
    type V = RuleModel;

    open spec fn view(&self) -> RuleModel {
        RuleModel {
            id: self.id@,
            platform: self.platform@,
            legs: self.legs@.map_values(|l: RequiredFact| l@),
        }
    }
}

/// The contents of a sequence of rules.
pub open spec fn rule_models(s: Seq<FusionRule>) -> Seq<RuleModel> {
    s.map_values(|r: FusionRule| r@)
}

/// A leg for one exact value.
pub open spec fn exact_leg(
    kind: ContentEvidenceKind,
    value: Seq<char>,
    min_confidence: ContentEvidenceConfidence,
) -> LegModel {
    LegModel::Exact { kind, value, min_confidence }
}

/// A leg for any value.
pub open spec fn any_leg(
    kind: ContentEvidenceKind,
    min_confidence: ContentEvidenceConfidence,
) -> LegModel {
    LegModel::AnyValue { kind, min_confidence }
}

fn exact_fact(
    kind: ContentEvidenceKind,
    value: &'static str,
    min_confidence: ContentEvidenceConfidence,
) -> (r: RequiredFact)
    ensures
        r@ == exact_leg(kind, value@, min_confidence),
{
    RequiredFact::Exact { kind, value, min_confidence }
}

fn any_fact(kind: ContentEvidenceKind, min_confidence: ContentEvidenceConfidence) -> (r:
    RequiredFact)
    ensures
        r@ == any_leg(kind, min_confidence),
{
    RequiredFact::AnyValue { kind, min_confidence }
}

/// The registered rules.
pub open spec fn rule_table() -> Seq<RuleModel> {
    seq![
        RuleModel {
            id: "saturn_boot_signature"@,
            platform: "Saturn"@,
            legs: seq![
                exact_leg(
                    ContentEvidenceKind::BootStructure,
                    "SEGA SEGASATURN"@,
                    ContentEvidenceConfidence::Strong,
                ),
            ],
        },
        RuleModel {
            id: "dreamcast_katana_signature"@,
            platform: "Dreamcast"@,
            legs: seq![
                exact_leg(
                    ContentEvidenceKind::BootStructure,
                    "SEGA SEGAKATANA"@,
                    ContentEvidenceConfidence::Strong,
                ),
            ],
        },
        RuleModel {
            id: "dreamcast_mario_signature"@,
            platform: "Dreamcast"@,
            legs: seq![
                exact_leg(
                    ContentEvidenceKind::BootStructure,
                    "SEGA SEGAMARIO"@,
                    ContentEvidenceConfidence::Strong,
                ),
            ],
        },
        RuleModel {
            id: "3do_operafs"@,
            platform: "3DO"@,
            legs: seq![
                exact_leg(
                    ContentEvidenceKind::BootStructure,
                    "OperaFS"@,
                    ContentEvidenceConfidence::Strong,
                ),
            ],
        },
        RuleModel {
            id: "segacd_boot_signature"@,
            platform: "SegaCD"@,
            legs: seq![
                exact_leg(
                    ContentEvidenceKind::BootStructure,
                    "SEGADISCSYSTEM"@,
                    ContentEvidenceConfidence::Strong,
                ),
            ],
        },
        RuleModel {
            id: "xbox_original_disc"@,
            platform: "Xbox"@,
            legs: seq![
                exact_leg(
                    ContentEvidenceKind::Filesystem,
                    "XDVDFS"@,
                    ContentEvidenceConfidence::Strong,
                ),
                exact_leg(
                    ContentEvidenceKind::ContentSignature,
                    "XBEH"@,
                    ContentEvidenceConfidence::Strong,
                ),
            ],
        },
        RuleModel {
            id: "xbox360_disc"@,
            platform: "Xbox360"@,
            legs: seq![
                exact_leg(
                    ContentEvidenceKind::Filesystem,
                    "XDVDFS"@,
                    ContentEvidenceConfidence::Strong,
                ),
                exact_leg(
                    ContentEvidenceKind::ContentSignature,
                    "XEX2"@,
                    ContentEvidenceConfidence::Strong,
                ),
            ],
        },
        RuleModel {
            id: "psx_exe_boot"@,
            platform: "PSX"@,
            legs: seq![
                exact_leg(
                    ContentEvidenceKind::ContentSignature,
                    "PS-X EXE"@,
                    ContentEvidenceConfidence::Strong,
                ),
                exact_leg(
                    ContentEvidenceKind::BootStructure,
                    "BOOT"@,
                    ContentEvidenceConfidence::Corroborated,
                ),
            ],
        },
        RuleModel {
            id: "ps2_system_cnf_boot2_strong"@,
            platform: "PS2"@,
            legs: seq![
                exact_leg(
                    ContentEvidenceKind::BootStructure,
                    "BOOT2"@,
                    ContentEvidenceConfidence::Strong,
                ),
            ],
        },
        RuleModel {
            id: "ps2_system_cnf_boot2_candidate"@,
            platform: "PS2"@,
            legs: seq![
                exact_leg(
                    ContentEvidenceKind::BootStructure,
                    "BOOT2"@,
                    ContentEvidenceConfidence::Corroborated,
                ),
                exact_leg(
                    ContentEvidenceKind::ContentSignature,
                    "ELF"@,
                    ContentEvidenceConfidence::Weak,
                ),
            ],
        },
        RuleModel {
            id: "ps3_disc_layout"@,
            platform: "PS3"@,
            legs: seq![
                exact_leg(
                    ContentEvidenceKind::BootStructure,
                    "PS3_GAME"@,
                    ContentEvidenceConfidence::Corroborated,
                ),
                exact_leg(
                    ContentEvidenceKind::ContentSignature,
                    "SELF"@,
                    ContentEvidenceConfidence::Strong,
                ),
                any_leg(ContentEvidenceKind::ProductCode, ContentEvidenceConfidence::Corroborated),
            ],
        },
        RuleModel {
            id: "psp_umd_layout"@,
            platform: "PSP"@,
            legs: seq![
                exact_leg(
                    ContentEvidenceKind::BootStructure,
                    "UMD_DATA.BIN"@,
                    ContentEvidenceConfidence::Strong,
                ),
                exact_leg(
                    ContentEvidenceKind::BootStructure,
                    "PSP_GAME"@,
                    ContentEvidenceConfidence::Corroborated,
                ),
            ],
        },
        RuleModel {
            id: "psp_layout_candidate"@,
            platform: "PSP"@,
            legs: seq![
                exact_leg(
                    ContentEvidenceKind::BootStructure,
                    "PSP_GAME"@,
                    ContentEvidenceConfidence::Corroborated,
                ),
                any_leg(ContentEvidenceKind::ProductCode, ContentEvidenceConfidence::Corroborated),
            ],
        },
        RuleModel {
            id: "megadrive_header_candidate"@,
            platform: "MegaDrive"@,
            legs: seq![
                exact_leg(
                    ContentEvidenceKind::BootStructure,
                    "SEGA GENESIS"@,
                    ContentEvidenceConfidence::Corroborated,
                ),
            ],
        },
        RuleModel {
            id: "sega32x_header_candidate"@,
            platform: "Sega 32X"@,
            legs: seq![
                exact_leg(
                    ContentEvidenceKind::BootStructure,
                    "SEGA 32X      JU"@,
                    ContentEvidenceConfidence::Corroborated,
                ),
                exact_leg(
                    ContentEvidenceKind::ContentSignature,
                    "32X"@,
                    ContentEvidenceConfidence::Weak,
                ),
            ],
        },
        RuleModel {
            id: "gb_logo_and_checksum"@,
            platform: "Game Boy"@,
            legs: seq![
                exact_leg(
                    ContentEvidenceKind::BootStructure,
                    "Nintendo Game Boy logo"@,
                    ContentEvidenceConfidence::Strong,
                ),
            ],
        },
        RuleModel {
            id: "gb_logo_only_candidate"@,
            platform: "Game Boy"@,
            legs: seq![
                exact_leg(
                    ContentEvidenceKind::BootStructure,
                    "Nintendo Game Boy logo"@,
                    ContentEvidenceConfidence::Corroborated,
                ),
            ],
        },
        RuleModel {
            id: "gba_header"@,
            platform: "Game Boy Advance"@,
            legs: seq![
                exact_leg(
                    ContentEvidenceKind::BootStructure,
                    "GBA cartridge header"@,
                    ContentEvidenceConfidence::Strong,
                ),
            ],
        },
        RuleModel {
            id: "gba_header_only_candidate"@,
            platform: "Game Boy Advance"@,
            legs: seq![
                exact_leg(
                    ContentEvidenceKind::BootStructure,
                    "GBA cartridge header"@,
                    ContentEvidenceConfidence::Weak,
                ),
            ],
        },
        RuleModel {
            id: "gamecube_disc_header"@,
            platform: "GameCube"@,
            legs: seq![
                exact_leg(
                    ContentEvidenceKind::BootStructure,
                    "GameCube"@,
                    ContentEvidenceConfidence::Strong,
                ),
            ],
        },
        RuleModel {
            id: "wii_disc_header"@,
            platform: "Wii"@,
            legs: seq![
                exact_leg(
                    ContentEvidenceKind::BootStructure,
                    "Wii"@,
                    ContentEvidenceConfidence::Strong,
                ),
            ],
        },
        RuleModel {
            id: "nes_ines_header"@,
            platform: "NES"@,
            legs: seq![
                exact_leg(
                    ContentEvidenceKind::ContentSignature,
                    "iNES"@,
                    ContentEvidenceConfidence::Strong,
                ),
            ],
        },
        RuleModel {
            id: "snes_lorom_header"@,
            platform: "SNES"@,
            legs: seq![
                exact_leg(
                    ContentEvidenceKind::ContentSignature,
                    "LoROM"@,
                    ContentEvidenceConfidence::Strong,
                ),
            ],
        },
        RuleModel {
            id: "snes_hirom_header"@,
            platform: "SNES"@,
            legs: seq![
                exact_leg(
                    ContentEvidenceKind::ContentSignature,
                    "HiROM"@,
                    ContentEvidenceConfidence::Strong,
                ),
            ],
        },
        RuleModel {
            id: "snes_exhirom_header"@,
            platform: "SNES"@,
            legs: seq![
                exact_leg(
                    ContentEvidenceKind::ContentSignature,
                    "ExHiROM"@,
                    ContentEvidenceConfidence::Strong,
                ),
            ],
        },
        RuleModel {
            id: "n64_big_endian_header"@,
            platform: "N64"@,
            legs: seq![
                exact_leg(
                    ContentEvidenceKind::ContentSignature,
                    "z64"@,
                    ContentEvidenceConfidence::Strong,
                ),
            ],
        },
        RuleModel {
            id: "n64_byte_swapped_header"@,
            platform: "N64"@,
            legs: seq![
                exact_leg(
                    ContentEvidenceKind::ContentSignature,
                    "v64"@,
                    ContentEvidenceConfidence::Strong,
                ),
            ],
        },
        RuleModel {
            id: "n64_little_endian_header"@,
            platform: "N64"@,
            legs: seq![
                exact_leg(
                    ContentEvidenceKind::ContentSignature,
                    "n64"@,
                    ContentEvidenceConfidence::Strong,
                ),
            ],
        },
        RuleModel {
            id: "master_system_japan"@,
            platform: "MasterSystem"@,
            legs: seq![
                exact_leg(
                    ContentEvidenceKind::BootStructure,
                    "TMR SEGA"@,
                    ContentEvidenceConfidence::Strong,
                ),
                exact_leg(
                    ContentEvidenceKind::ContentSignature,
                    "Master System (Japan)"@,
                    ContentEvidenceConfidence::Corroborated,
                ),
            ],
        },
        RuleModel {
            id: "master_system_export"@,
            platform: "MasterSystem"@,
            legs: seq![
                exact_leg(
                    ContentEvidenceKind::BootStructure,
                    "TMR SEGA"@,
                    ContentEvidenceConfidence::Strong,
                ),
                exact_leg(
                    ContentEvidenceKind::ContentSignature,
                    "Master System (Export)"@,
                    ContentEvidenceConfidence::Corroborated,
                ),
            ],
        },
        RuleModel {
            id: "game_gear_japan"@,
            platform: "GameGear"@,
            legs: seq![
                exact_leg(
                    ContentEvidenceKind::BootStructure,
                    "TMR SEGA"@,
                    ContentEvidenceConfidence::Strong,
                ),
                exact_leg(
                    ContentEvidenceKind::ContentSignature,
                    "Game Gear (Japan)"@,
                    ContentEvidenceConfidence::Corroborated,
                ),
            ],
        },
        RuleModel {
            id: "game_gear_export"@,
            platform: "GameGear"@,
            legs: seq![
                exact_leg(
                    ContentEvidenceKind::BootStructure,
                    "TMR SEGA"@,
                    ContentEvidenceConfidence::Strong,
                ),
                exact_leg(
                    ContentEvidenceKind::ContentSignature,
                    "Game Gear (Export)"@,
                    ContentEvidenceConfidence::Corroborated,
                ),
            ],
        },
        RuleModel {
            id: "game_gear_international"@,
            platform: "GameGear"@,
            legs: seq![
                exact_leg(
                    ContentEvidenceKind::BootStructure,
                    "TMR SEGA"@,
                    ContentEvidenceConfidence::Strong,
                ),
                exact_leg(
                    ContentEvidenceKind::ContentSignature,
                    "Game Gear (International)"@,
                    ContentEvidenceConfidence::Corroborated,
                ),
            ],
        },
        RuleModel {
            id: "lynx_header"@,
            platform: "Lynx"@,
            legs: seq![
                exact_leg(
                    ContentEvidenceKind::BootStructure,
                    "LYNX"@,
                    ContentEvidenceConfidence::Strong,
                ),
            ],
        },
        RuleModel {
            id: "atari7800_header"@,
            platform: "Atari 7800"@,
            legs: seq![
                exact_leg(
                    ContentEvidenceKind::BootStructure,
                    "ATARI7800"@,
                    ContentEvidenceConfidence::Strong,
                ),
            ],
        },
    ]
}

/// The registered rules.
pub fn rules() -> (r: Vec<FusionRule>)
    ensures
        rule_models(r@) == rule_table(),
{
    let r = vec![
        FusionRule {
            id: "saturn_boot_signature",
            platform: "Saturn",
            legs: vec![
                exact_fact(
                    ContentEvidenceKind::BootStructure,
                    "SEGA SEGASATURN",
                    ContentEvidenceConfidence::Strong,
                ),
            ],
        },
        FusionRule {
            id: "dreamcast_katana_signature",
            platform: "Dreamcast",
            legs: vec![
                exact_fact(
                    ContentEvidenceKind::BootStructure,
                    "SEGA SEGAKATANA",
                    ContentEvidenceConfidence::Strong,
                ),
            ],
        },
        FusionRule {
            id: "dreamcast_mario_signature",
            platform: "Dreamcast",
            legs: vec![
                exact_fact(
                    ContentEvidenceKind::BootStructure,
                    "SEGA SEGAMARIO",
                    ContentEvidenceConfidence::Strong,
                ),
            ],
        },
        FusionRule {
            id: "3do_operafs",
            platform: "3DO",
            legs: vec![
                exact_fact(
                    ContentEvidenceKind::BootStructure,
                    "OperaFS",
                    ContentEvidenceConfidence::Strong,
                ),
            ],
        },
        FusionRule {
            id: "segacd_boot_signature",
            platform: "SegaCD",
            legs: vec![
                exact_fact(
                    ContentEvidenceKind::BootStructure,
                    "SEGADISCSYSTEM",
                    ContentEvidenceConfidence::Strong,
                ),
            ],
        },
        FusionRule {
            id: "xbox_original_disc",
            platform: "Xbox",
            legs: vec![
                exact_fact(
                    ContentEvidenceKind::Filesystem,
                    "XDVDFS",
                    ContentEvidenceConfidence::Strong,
                ),
                exact_fact(
                    ContentEvidenceKind::ContentSignature,
                    "XBEH",
                    ContentEvidenceConfidence::Strong,
                ),
            ],
        },
        FusionRule {
            id: "xbox360_disc",
            platform: "Xbox360",
            legs: vec![
                exact_fact(
                    ContentEvidenceKind::Filesystem,
                    "XDVDFS",
                    ContentEvidenceConfidence::Strong,
                ),
                exact_fact(
                    ContentEvidenceKind::ContentSignature,
                    "XEX2",
                    ContentEvidenceConfidence::Strong,
                ),
            ],
        },
        FusionRule {
            id: "psx_exe_boot",
            platform: "PSX",
            legs: vec![
                exact_fact(
                    ContentEvidenceKind::ContentSignature,
                    "PS-X EXE",
                    ContentEvidenceConfidence::Strong,
                ),
                exact_fact(
                    ContentEvidenceKind::BootStructure,
                    "BOOT",
                    ContentEvidenceConfidence::Corroborated,
                ),
            ],
        },
        FusionRule {
            id: "ps2_system_cnf_boot2_strong",
            platform: "PS2",
            legs: vec![
                exact_fact(
                    ContentEvidenceKind::BootStructure,
                    "BOOT2",
                    ContentEvidenceConfidence::Strong,
                ),
            ],
        },
        FusionRule {
            id: "ps2_system_cnf_boot2_candidate",
            platform: "PS2",
            legs: vec![
                exact_fact(
                    ContentEvidenceKind::BootStructure,
                    "BOOT2",
                    ContentEvidenceConfidence::Corroborated,
                ),
                exact_fact(
                    ContentEvidenceKind::ContentSignature,
                    "ELF",
                    ContentEvidenceConfidence::Weak,
                ),
            ],
        },
        FusionRule {
            id: "ps3_disc_layout",
            platform: "PS3",
            legs: vec![
                exact_fact(
                    ContentEvidenceKind::BootStructure,
                    "PS3_GAME",
                    ContentEvidenceConfidence::Corroborated,
                ),
                exact_fact(
                    ContentEvidenceKind::ContentSignature,
                    "SELF",
                    ContentEvidenceConfidence::Strong,
                ),
                any_fact(ContentEvidenceKind::ProductCode, ContentEvidenceConfidence::Corroborated),
            ],
        },
        FusionRule {
            id: "psp_umd_layout",
            platform: "PSP",
            legs: vec![
                exact_fact(
                    ContentEvidenceKind::BootStructure,
                    "UMD_DATA.BIN",
                    ContentEvidenceConfidence::Strong,
                ),
                exact_fact(
                    ContentEvidenceKind::BootStructure,
                    "PSP_GAME",
                    ContentEvidenceConfidence::Corroborated,
                ),
            ],
        },
        FusionRule {
            id: "psp_layout_candidate",
            platform: "PSP",
            legs: vec![
                exact_fact(
                    ContentEvidenceKind::BootStructure,
                    "PSP_GAME",
                    ContentEvidenceConfidence::Corroborated,
                ),
                any_fact(ContentEvidenceKind::ProductCode, ContentEvidenceConfidence::Corroborated),
            ],
        },
        FusionRule {
            id: "megadrive_header_candidate",
            platform: "MegaDrive",
            legs: vec![
                exact_fact(
                    ContentEvidenceKind::BootStructure,
                    "SEGA GENESIS",
                    ContentEvidenceConfidence::Corroborated,
                ),
            ],
        },
        FusionRule {
            id: "sega32x_header_candidate",
            platform: "Sega 32X",
            legs: vec![
                exact_fact(
                    ContentEvidenceKind::BootStructure,
                    "SEGA 32X      JU",
                    ContentEvidenceConfidence::Corroborated,
                ),
                exact_fact(
                    ContentEvidenceKind::ContentSignature,
                    "32X",
                    ContentEvidenceConfidence::Weak,
                ),
            ],
        },
        FusionRule {
            id: "gb_logo_and_checksum",
            platform: "Game Boy",
            legs: vec![
                exact_fact(
                    ContentEvidenceKind::BootStructure,
                    "Nintendo Game Boy logo",
                    ContentEvidenceConfidence::Strong,
                ),
            ],
        },
        FusionRule {
            id: "gb_logo_only_candidate",
            platform: "Game Boy",
            legs: vec![
                exact_fact(
                    ContentEvidenceKind::BootStructure,
                    "Nintendo Game Boy logo",
                    ContentEvidenceConfidence::Corroborated,
                ),
            ],
        },
        FusionRule {
            id: "gba_header",
            platform: "Game Boy Advance",
            legs: vec![
                exact_fact(
                    ContentEvidenceKind::BootStructure,
                    "GBA cartridge header",
                    ContentEvidenceConfidence::Strong,
                ),
            ],
        },
        FusionRule {
            id: "gba_header_only_candidate",
            platform: "Game Boy Advance",
            legs: vec![
                exact_fact(
                    ContentEvidenceKind::BootStructure,
                    "GBA cartridge header",
                    ContentEvidenceConfidence::Weak,
                ),
            ],
        },
        FusionRule {
            id: "gamecube_disc_header",
            platform: "GameCube",
            legs: vec![
                exact_fact(
                    ContentEvidenceKind::BootStructure,
                    "GameCube",
                    ContentEvidenceConfidence::Strong,
                ),
            ],
        },
        FusionRule {
            id: "wii_disc_header",
            platform: "Wii",
            legs: vec![
                exact_fact(
                    ContentEvidenceKind::BootStructure,
                    "Wii",
                    ContentEvidenceConfidence::Strong,
                ),
            ],
        },
        FusionRule {
            id: "nes_ines_header",
            platform: "NES",
            legs: vec![
                exact_fact(
                    ContentEvidenceKind::ContentSignature,
                    "iNES",
                    ContentEvidenceConfidence::Strong,
                ),
            ],
        },
        FusionRule {
            id: "snes_lorom_header",
            platform: "SNES",
            legs: vec![
                exact_fact(
                    ContentEvidenceKind::ContentSignature,
                    "LoROM",
                    ContentEvidenceConfidence::Strong,
                ),
            ],
        },
        FusionRule {
            id: "snes_hirom_header",
            platform: "SNES",
            legs: vec![
                exact_fact(
                    ContentEvidenceKind::ContentSignature,
                    "HiROM",
                    ContentEvidenceConfidence::Strong,
                ),
            ],
        },
        FusionRule {
            id: "snes_exhirom_header",
            platform: "SNES",
            legs: vec![
                exact_fact(
                    ContentEvidenceKind::ContentSignature,
                    "ExHiROM",
                    ContentEvidenceConfidence::Strong,
                ),
            ],
        },
        FusionRule {
            id: "n64_big_endian_header",
            platform: "N64",
            legs: vec![
                exact_fact(
                    ContentEvidenceKind::ContentSignature,
                    "z64",
                    ContentEvidenceConfidence::Strong,
                ),
            ],
        },
        FusionRule {
            id: "n64_byte_swapped_header",
            platform: "N64",
            legs: vec![
                exact_fact(
                    ContentEvidenceKind::ContentSignature,
                    "v64",
                    ContentEvidenceConfidence::Strong,
                ),
            ],
        },
        FusionRule {
            id: "n64_little_endian_header",
            platform: "N64",
            legs: vec![
                exact_fact(
                    ContentEvidenceKind::ContentSignature,
                    "n64",
                    ContentEvidenceConfidence::Strong,
                ),
            ],
        },
        FusionRule {
            id: "master_system_japan",
            platform: "MasterSystem",
            legs: vec![
                exact_fact(
                    ContentEvidenceKind::BootStructure,
                    "TMR SEGA",
                    ContentEvidenceConfidence::Strong,
                ),
                exact_fact(
                    ContentEvidenceKind::ContentSignature,
                    "Master System (Japan)",
                    ContentEvidenceConfidence::Corroborated,
                ),
            ],
        },
        FusionRule {
            id: "master_system_export",
            platform: "MasterSystem",
            legs: vec![
                exact_fact(
                    ContentEvidenceKind::BootStructure,
                    "TMR SEGA",
                    ContentEvidenceConfidence::Strong,
                ),
                exact_fact(
                    ContentEvidenceKind::ContentSignature,
                    "Master System (Export)",
                    ContentEvidenceConfidence::Corroborated,
                ),
            ],
        },
        FusionRule {
            id: "game_gear_japan",
            platform: "GameGear",
            legs: vec![
                exact_fact(
                    ContentEvidenceKind::BootStructure,
                    "TMR SEGA",
                    ContentEvidenceConfidence::Strong,
                ),
                exact_fact(
                    ContentEvidenceKind::ContentSignature,
                    "Game Gear (Japan)",
                    ContentEvidenceConfidence::Corroborated,
                ),
            ],
        },
        FusionRule {
            id: "game_gear_export",
            platform: "GameGear",
            legs: vec![
                exact_fact(
                    ContentEvidenceKind::BootStructure,
                    "TMR SEGA",
                    ContentEvidenceConfidence::Strong,
                ),
                exact_fact(
                    ContentEvidenceKind::ContentSignature,
                    "Game Gear (Export)",
                    ContentEvidenceConfidence::Corroborated,
                ),
            ],
        },
        FusionRule {
            id: "game_gear_international",
            platform: "GameGear",
            legs: vec![
                exact_fact(
                    ContentEvidenceKind::BootStructure,
                    "TMR SEGA",
                    ContentEvidenceConfidence::Strong,
                ),
                exact_fact(
                    ContentEvidenceKind::ContentSignature,
                    "Game Gear (International)",
                    ContentEvidenceConfidence::Corroborated,
                ),
            ],
        },
        FusionRule {
            id: "lynx_header",
            platform: "Lynx",
            legs: vec![
                exact_fact(
                    ContentEvidenceKind::BootStructure,
                    "LYNX",
                    ContentEvidenceConfidence::Strong,
                ),
            ],
        },
        FusionRule {
            id: "atari7800_header",
            platform: "Atari 7800",
            legs: vec![
                exact_fact(
                    ContentEvidenceKind::BootStructure,
                    "ATARI7800",
                    ContentEvidenceConfidence::Strong,
                ),
            ],
        },
    ];
    proof {
        let have = rule_models(r@);
        let want = rule_table();
        assert(have.len() == want.len());
        assert forall|i: int| 0 <= i < have.len() implies have[i] == want[i] by {
            assert(have[i].legs =~= want[i].legs);
        }
        assert(have =~= want);
    }
    r
}

} // verus!
