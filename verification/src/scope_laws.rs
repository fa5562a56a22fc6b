//! How far a fact reaches: one platform, a family, or anything.
use vstd::prelude::*;
use vstd::string::*;
use crate::content_evidence::{ContentEvidenceKind, Fact};
use crate::content_evidence_scope::{boot_platform, scope_model, signature_platform, ScopeModel};
use crate::dat::identity::{DatPlatformConfidence, DatPlatformEvidence};
use crate::platform::is_platform;
use crate::platform_evidence_fusion::combined_identity::deciding_index;
use crate::platform_evidence_fusion::signature_laws::stands_for;
use crate::platform_evidence_fusion::{tagged, tagged_facts};
use crate::seqs::{first_index_unique, has_prefix};

verus! {

/// A sign that only one platform's media carry: one that can stand for it alone,
/// or one of those that need another sign beside them.
pub open spec fn is_exclusive(
    kind: ContentEvidenceKind,
    value: Seq<char>,
    platform: Seq<char>,
) -> bool {
    ||| stands_for(kind, value, platform)
    ||| kind == ContentEvidenceKind::BootStructure && value == "UMD_DATA.BIN"@ && platform
        == "PSP"@
    ||| kind == ContentEvidenceKind::ContentSignature && value == "PS-X EXE"@ && platform == "PSX"@
    ||| kind == ContentEvidenceKind::ContentSignature && value == "SELF"@ && platform == "PS3"@
    ||| kind == ContentEvidenceKind::ContentSignature && value == "XBEH"@ && platform == "Xbox"@
    ||| kind == ContentEvidenceKind::ContentSignature && value == "XEX2"@ && platform
        == "Xbox360"@
}

proof fn boot_values_are_apart(value: Seq<char>)
    ensures
        boot_platform(value) matches Some(p) ==> is_exclusive(
            ContentEvidenceKind::BootStructure,
            value,
            p,
        ) && value != "BOOT"@ && value != "TMR SEGA"@,
        forall|p: Seq<char>| #[trigger]
            is_exclusive(ContentEvidenceKind::BootStructure, value, p) ==> boot_platform(value)
                == Some(p),
        "BOOT"@ != "TMR SEGA"@,
{
    reveal_strlit("SEGA SEGASATURN");
    reveal_strlit("SEGA SEGAKATANA");
    reveal_strlit("SEGA SEGAMARIO");
    reveal_strlit("OperaFS");
    reveal_strlit("SEGADISCSYSTEM");
    reveal_strlit("BOOT2");
    reveal_strlit("UMD_DATA.BIN");
    reveal_strlit("Nintendo Game Boy logo");
    reveal_strlit("GBA cartridge header");
    reveal_strlit("GameCube");
    reveal_strlit("Wii");
    reveal_strlit("LYNX");
    reveal_strlit("ATARI7800");
    reveal_strlit("BOOT");
    reveal_strlit("TMR SEGA");
    assert("SEGA SEGASATURN"@.len() == 15 && "SEGA SEGAKATANA"@.len() == 15);
    assert("SEGA SEGAMARIO"@.len() == 14);
    assert("OperaFS"@.len() == 7 && "SEGADISCSYSTEM"@.len() == 14 && "BOOT2"@.len() == 5);
    assert("UMD_DATA.BIN"@.len() == 12 && "Nintendo Game Boy logo"@.len() == 22);
    assert("GBA cartridge header"@.len() == 20);
    assert("GameCube"@.len() == 8 && "Wii"@.len() == 3 && "LYNX"@.len() == 4);
    assert("ATARI7800"@.len() == 9 && "BOOT"@.len() == 4 && "TMR SEGA"@.len() == 8);
    assert("SEGA SEGASATURN"@[9] == 'S');
    assert("SEGA SEGAKATANA"@[9] == 'K');
    assert("SEGA SEGAMARIO"@[4] == ' ');
    assert("SEGADISCSYSTEM"@[4] == 'D');
    assert("GameCube"@[0] == 'G');
    assert("TMR SEGA"@[0] == 'T');
    assert("LYNX"@[0] == 'L');
    assert("BOOT"@[0] == 'B');
}

proof fn signature_values_are_apart(value: Seq<char>)
    ensures
        signature_platform(value) matches Some(p) ==> is_exclusive(
            ContentEvidenceKind::ContentSignature,
            value,
            p,
        ),
        forall|p: Seq<char>| #[trigger]
            is_exclusive(ContentEvidenceKind::ContentSignature, value, p) ==> signature_platform(
                value,
            ) == Some(p),
{
    reveal_strlit("PS-X EXE");
    reveal_strlit("SELF");
    reveal_strlit("XBEH");
    reveal_strlit("XEX2");
    reveal_strlit("iNES");
    reveal_strlit("LoROM");
    reveal_strlit("HiROM");
    reveal_strlit("ExHiROM");
    reveal_strlit("z64");
    reveal_strlit("v64");
    reveal_strlit("n64");
    assert("PS-X EXE"@.len() == 8 && "SELF"@.len() == 4 && "XBEH"@.len() == 4);
    assert("XEX2"@.len() == 4 && "iNES"@.len() == 4 && "LoROM"@.len() == 5);
    assert("HiROM"@.len() == 5 && "ExHiROM"@.len() == 7 && "z64"@.len() == 3);
    assert("v64"@.len() == 3 && "n64"@.len() == 3);
    assert("SELF"@[3] == 'F');
    assert("XBEH"@[3] == 'H');
    assert("XEX2"@[3] == '2');
    assert("iNES"@[3] == 'S');
    assert("LoROM"@[0] == 'L');
    assert("HiROM"@[0] == 'H');
    assert("z64"@[0] == 'z');
    assert("v64"@[0] == 'v');
    assert("n64"@[0] == 'n');
}

/// A fact is specific to a platform exactly when its value is one of that
/// platform's exclusive signs. `BOOT`, `TMR SEGA` and `XDVDFS` reach a family of
/// platforms; every other fact reaches any.
pub proof fn facts_reach_as_far_as_their_sign(kind: ContentEvidenceKind, value: Seq<char>)
    ensures
        forall|p: Seq<char>|
            scope_model(kind, value) == ScopeModel::PlatformSpecific(p) <==> #[trigger]
            is_exclusive(kind, value, p),
        scope_model(kind, value) == ScopeModel::Family("PlayStation"@) <==> kind
            == ContentEvidenceKind::BootStructure && value == "BOOT"@,
        scope_model(kind, value) == ScopeModel::Family("Sega 8-bit"@) <==> kind
            == ContentEvidenceKind::BootStructure && value == "TMR SEGA"@,
        scope_model(kind, value) == ScopeModel::Family("Xbox"@) <==> kind
            == ContentEvidenceKind::Filesystem && value == "XDVDFS"@,
        scope_model(kind, value) is Generic <==> !(scope_model(kind, value) is PlatformSpecific)
            && !((kind == ContentEvidenceKind::BootStructure && (value == "BOOT"@ || value
            == "TMR SEGA"@)) || (kind == ContentEvidenceKind::Filesystem && value == "XDVDFS"@)),
{
    boot_values_are_apart(value);
    signature_values_are_apart(value);
    reveal_strlit("PlayStation");
    reveal_strlit("Sega 8-bit");
    reveal_strlit("Xbox");
    assert("PlayStation"@.len() != "Sega 8-bit"@.len());
    assert("PlayStation"@.len() != "Xbox"@.len() && "Sega 8-bit"@.len() != "Xbox"@.len());
}

/// Every exclusive sign is that of a registered platform.
pub proof fn exclusive_signs_name_registered_platforms(
    kind: ContentEvidenceKind,
    value: Seq<char>,
    platform: Seq<char>,
)
    requires
        is_exclusive(kind, value, platform),
    ensures
        is_platform(platform),
{
}

/// A fact read from a normalised view says so at the front of its detail, once,
/// and is otherwise the fact it was.
pub proof fn marks_stand_in_front_of_the_detail(bundle: Seq<Fact>, i: int)
    requires
        0 <= i < bundle.len(),
    ensures
        tagged_facts(bundle).len() == bundle.len(),
        tagged_facts(bundle)[i].kind == bundle[i].kind,
        tagged_facts(bundle)[i].value == bundle[i].value,
        tagged_facts(bundle)[i].confidence == bundle[i].confidence,
        has_prefix(tagged_facts(bundle)[i].detail, "[normalized view] "@),
        has_prefix(bundle[i].detail, "[normalized view] "@) ==> tagged_facts(bundle)[i].detail
            == bundle[i].detail,
        !has_prefix(bundle[i].detail, "[normalized view] "@) ==> tagged_facts(bundle)[i].detail
            == "[normalized view] "@ + bundle[i].detail,
{
    let p = "[normalized view] "@;
    assert((p + bundle[i].detail).subrange(0, p.len() as int) =~= p);
    assert(tagged_facts(bundle)[i] == tagged(bundle[i]));
}

/// The first statement at a confidence is the one that decides.
pub proof fn the_first_statement_at_a_confidence_decides(
    evidence: Seq<DatPlatformEvidence>,
    confidence: DatPlatformConfidence,
    k: int,
)
    requires
        0 <= k <= evidence.len(),
        forall|j: int| 0 <= j < k ==> (#[trigger] evidence[j]).confidence != confidence,
        k < evidence.len() ==> evidence[k].confidence == confidence,
    ensures
        deciding_index(evidence, confidence) == k,
{
    let p = |e: DatPlatformEvidence| e.confidence == confidence;
    assert forall|j: int| 0 <= j < k implies !p(#[trigger] evidence[j]) by {
    }
    first_index_unique(evidence, p, k);
}

/// The platforms that are known by an id.
pub open spec fn known_ids() -> Seq<Seq<char>> {
    seq![
        "3DO"@, "Atari 7800"@, "Dreamcast"@, "Game Boy"@,
        "Game Boy Advance"@, "GameCube"@, "GameGear"@, "Lynx"@,
        "MasterSystem"@, "MegaDrive"@, "N64"@, "NES"@,
        "PC Engine"@, "PS2"@, "PS3"@, "PSP"@,
        "PSX"@, "SNES"@, "Saturn"@, "Sega 32X"@,
        "SegaCD"@, "TurboGrafx-16"@, "Wii"@, "Xbox"@,
        "Xbox360"@,
    ]
}

/// An id is registered exactly when it is one of the known ones, letter by letter.
pub proof fn registered_ids_are_the_known_ones(id: Seq<char>)
    ensures
        is_platform(id) <==> known_ids().contains(id),
{
    let all = known_ids();
    assert(all.len() == 25);
    assert(all[0] == "3DO"@);
    assert(all[1] == "Atari 7800"@);
    assert(all[2] == "Dreamcast"@);
    assert(all[3] == "Game Boy"@);
    assert(all[4] == "Game Boy Advance"@);
    assert(all[5] == "GameCube"@);
    assert(all[6] == "GameGear"@);
    assert(all[7] == "Lynx"@);
    assert(all[8] == "MasterSystem"@);
    assert(all[9] == "MegaDrive"@);
    assert(all[10] == "N64"@);
    assert(all[11] == "NES"@);
    assert(all[12] == "PC Engine"@);
    assert(all[13] == "PS2"@);
    assert(all[14] == "PS3"@);
    assert(all[15] == "PSP"@);
    assert(all[16] == "PSX"@);
    assert(all[17] == "SNES"@);
    assert(all[18] == "Saturn"@);
    assert(all[19] == "Sega 32X"@);
    assert(all[20] == "SegaCD"@);
    assert(all[21] == "TurboGrafx-16"@);
    assert(all[22] == "Wii"@);
    assert(all[23] == "Xbox"@);
    assert(all[24] == "Xbox360"@);
}

} // verus!
