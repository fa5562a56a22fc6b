//! What the registered signatures stand for, and what fusion makes of them.
use vstd::prelude::*;
use vstd::string::*;
use crate::content_evidence::{
    ContentEvidenceConfidence, ContentEvidenceKind, Fact,
};
use crate::platform_evidence_fusion::rules::{
    any_leg, exact_leg, rule_table, LegModel, RuleModel,
};
use crate::platform_evidence_fusion::{
    candidate_of, fired, fires, is_strong_rule, leg_is_met, meets, CandidateModel,
};

verus! {

/// `confidence` is `floor` or stronger.
pub open spec fn is_at_least(
    confidence: ContentEvidenceConfidence,
    floor: ContentEvidenceConfidence,
) -> bool {
    ||| confidence == ContentEvidenceConfidence::Strong
    ||| confidence == ContentEvidenceConfidence::Corroborated && floor
        != ContentEvidenceConfidence::Strong
    ||| floor == ContentEvidenceConfidence::Weak
}

/// The bundle has a fact of this kind and value that is strong enough.
pub open spec fn holds(
    bundle: Seq<Fact>,
    kind: ContentEvidenceKind,
    value: Seq<char>,
    floor: ContentEvidenceConfidence,
) -> bool {
    exists|i: int|
        0 <= i < bundle.len() && (#[trigger] bundle[i]).kind == kind && bundle[i].value == value
            && is_at_least(bundle[i].confidence, floor)
}

/// The bundle has this boot structure.
pub open spec fn has_boot(
    bundle: Seq<Fact>,
    value: Seq<char>,
    floor: ContentEvidenceConfidence,
) -> bool {
    holds(bundle, ContentEvidenceKind::BootStructure, value, floor)
}

/// The bundle has this content signature.
pub open spec fn has_signature(
    bundle: Seq<Fact>,
    value: Seq<char>,
    floor: ContentEvidenceConfidence,
) -> bool {
    holds(bundle, ContentEvidenceKind::ContentSignature, value, floor)
}

/// The bundle has this file system.
pub open spec fn has_filesystem(
    bundle: Seq<Fact>,
    value: Seq<char>,
    floor: ContentEvidenceConfidence,
) -> bool {
    holds(bundle, ContentEvidenceKind::Filesystem, value, floor)
}

/// The bundle has some product code.
pub open spec fn has_product_code(
    bundle: Seq<Fact>,
    floor: ContentEvidenceConfidence,
) -> bool {
    exists|i: int|
        0 <= i < bundle.len() && (#[trigger] bundle[i]).kind == ContentEvidenceKind::ProductCode
            && is_at_least(bundle[i].confidence, floor)
}

/// Some rule that fires on the bundle names the platform.
pub open spec fn is_suggested(bundle: Seq<Fact>, platform: Seq<char>) -> bool {
    exists|k: int|
        0 <= k < fired(rule_table(), bundle).len() && (#[trigger] fired(
            rule_table(),
            bundle,
        )[k]).platform == platform
}

/// Some strong rule that fires on the bundle names the platform.
pub open spec fn is_established(bundle: Seq<Fact>, platform: Seq<char>) -> bool {
    exists|k: int|
        0 <= k < fired(rule_table(), bundle).len() && (#[trigger] fired(
            rule_table(),
            bundle,
        )[k]).platform == platform && fired(rule_table(), bundle)[k].has_strong_leg
}

proof fn exact_legs(
    bundle: Seq<Fact>,
    kind: ContentEvidenceKind,
    value: Seq<char>,
    floor: ContentEvidenceConfidence,
)
    ensures
        leg_is_met(exact_leg(kind, value, floor), bundle) == holds(bundle, kind, value, floor),
{
    let leg = exact_leg(kind, value, floor);
    if leg_is_met(leg, bundle) {
        let i = choose|i: int| 0 <= i < bundle.len() && meets(#[trigger] bundle[i], leg);
        assert(bundle[i].kind == kind);
    }
    if holds(bundle, kind, value, floor) {
        let i = choose|i: int|
            0 <= i < bundle.len() && (#[trigger] bundle[i]).kind == kind && bundle[i].value
                == value && is_at_least(bundle[i].confidence, floor);
        assert(meets(bundle[i], leg));
    }
}

proof fn code_legs(bundle: Seq<Fact>, floor: ContentEvidenceConfidence)
    ensures
        leg_is_met(any_leg(ContentEvidenceKind::ProductCode, floor), bundle) == has_product_code(
            bundle,
            floor,
        ),
{
    let leg = any_leg(ContentEvidenceKind::ProductCode, floor);
    if leg_is_met(leg, bundle) {
        let i = choose|i: int| 0 <= i < bundle.len() && meets(#[trigger] bundle[i], leg);
        assert(bundle[i].kind == ContentEvidenceKind::ProductCode);
    }
    if has_product_code(bundle, floor) {
        let i = choose|i: int|
            0 <= i < bundle.len() && (#[trigger] bundle[i]).kind
                == ContentEvidenceKind::ProductCode && is_at_least(bundle[i].confidence, floor);
        assert(meets(bundle[i], leg));
    }
}

/// The rule names `platform`, fires exactly when `met`, and is strong or not.
spec fn obeys(
    rule: RuleModel,
    bundle: Seq<Fact>,
    platform: Seq<char>,
    met: bool,
    strong: bool,
) -> bool {
    rule.platform == platform && fires(rule, bundle) == met && is_strong_rule(rule) == strong
}

proof fn one_leg(rule: RuleModel, bundle: Seq<Fact>, a: LegModel)
    requires
        rule.legs == seq![a],
    ensures
        obeys(
            rule,
            bundle,
            rule.platform,
            leg_is_met(a, bundle),
            a.floor() == ContentEvidenceConfidence::Strong,
        ),
{
    assert(rule.legs[0] == a);
}

proof fn two_legs(rule: RuleModel, bundle: Seq<Fact>, a: LegModel, b: LegModel)
    requires
        rule.legs == seq![a, b],
    ensures
        obeys(
            rule,
            bundle,
            rule.platform,
            leg_is_met(a, bundle) && leg_is_met(b, bundle),
            a.floor() == ContentEvidenceConfidence::Strong || b.floor()
                == ContentEvidenceConfidence::Strong,
        ),
{
    assert(rule.legs[0] == a && rule.legs[1] == b);
}

proof fn three_legs(
    rule: RuleModel,
    bundle: Seq<Fact>,
    a: LegModel,
    b: LegModel,
    c: LegModel,
)
    requires
        rule.legs == seq![a, b, c],
    ensures
        obeys(
            rule,
            bundle,
            rule.platform,
            leg_is_met(a, bundle) && leg_is_met(b, bundle) && leg_is_met(c, bundle),
            a.floor() == ContentEvidenceConfidence::Strong || b.floor()
                == ContentEvidenceConfidence::Strong || c.floor()
                == ContentEvidenceConfidence::Strong,
        ),
{
    assert(rule.legs[0] == a && rule.legs[1] == b && rule.legs[2] == c);
}

/// The rules, one by one.
spec fn table_obeys(table: Seq<RuleModel>, bundle: Seq<Fact>) -> bool {
    &&& table.len() == 35
    &&& obeys(
        table[0],
        bundle,
        "Saturn"@,
        has_boot(bundle, "SEGA SEGASATURN"@, ContentEvidenceConfidence::Strong),
        true,
    )
    &&& obeys(
        table[1],
        bundle,
        "Dreamcast"@,
        has_boot(bundle, "SEGA SEGAKATANA"@, ContentEvidenceConfidence::Strong),
        true,
    )
    &&& obeys(
        table[2],
        bundle,
        "Dreamcast"@,
        has_boot(bundle, "SEGA SEGAMARIO"@, ContentEvidenceConfidence::Strong),
        true,
    )
    &&& obeys(
        table[3],
        bundle,
        "3DO"@,
        has_boot(bundle, "OperaFS"@, ContentEvidenceConfidence::Strong),
        true,
    )
    &&& obeys(
        table[4],
        bundle,
        "SegaCD"@,
        has_boot(bundle, "SEGADISCSYSTEM"@, ContentEvidenceConfidence::Strong),
        true,
    )
    &&& obeys(
        table[5],
        bundle,
        "Xbox"@,
        has_filesystem(bundle, "XDVDFS"@, ContentEvidenceConfidence::Strong)
            && has_signature(bundle, "XBEH"@, ContentEvidenceConfidence::Strong),
        true,
    )
    &&& obeys(
        table[6],
        bundle,
        "Xbox360"@,
        has_filesystem(bundle, "XDVDFS"@, ContentEvidenceConfidence::Strong)
            && has_signature(bundle, "XEX2"@, ContentEvidenceConfidence::Strong),
        true,
    )
    &&& obeys(
        table[7],
        bundle,
        "PSX"@,
        has_signature(bundle, "PS-X EXE"@, ContentEvidenceConfidence::Strong)
            && has_boot(bundle, "BOOT"@, ContentEvidenceConfidence::Corroborated),
        true,
    )
    &&& obeys(
        table[8],
        bundle,
        "PS2"@,
        has_boot(bundle, "BOOT2"@, ContentEvidenceConfidence::Strong),
        true,
    )
    &&& obeys(
        table[9],
        bundle,
        "PS2"@,
        has_boot(bundle, "BOOT2"@, ContentEvidenceConfidence::Corroborated)
            && has_signature(bundle, "ELF"@, ContentEvidenceConfidence::Weak),
        false,
    )
    &&& obeys(
        table[10],
        bundle,
        "PS3"@,
        has_boot(bundle, "PS3_GAME"@, ContentEvidenceConfidence::Corroborated)
            && has_signature(bundle, "SELF"@, ContentEvidenceConfidence::Strong)
                && has_product_code(bundle, ContentEvidenceConfidence::Corroborated),
        true,
    )
    &&& obeys(
        table[11],
        bundle,
        "PSP"@,
        has_boot(bundle, "UMD_DATA.BIN"@, ContentEvidenceConfidence::Strong)
            && has_boot(bundle, "PSP_GAME"@, ContentEvidenceConfidence::Corroborated),
        true,
    )
    &&& obeys(
        table[12],
        bundle,
        "PSP"@,
        has_boot(bundle, "PSP_GAME"@, ContentEvidenceConfidence::Corroborated)
            && has_product_code(bundle, ContentEvidenceConfidence::Corroborated),
        false,
    )
    &&& obeys(
        table[13],
        bundle,
        "MegaDrive"@,
        has_boot(bundle, "SEGA GENESIS"@, ContentEvidenceConfidence::Corroborated),
        false,
    )
    &&& obeys(
        table[14],
        bundle,
        "Sega 32X"@,
        has_boot(bundle, "SEGA 32X      JU"@, ContentEvidenceConfidence::Corroborated)
            && has_signature(bundle, "32X"@, ContentEvidenceConfidence::Weak),
        false,
    )
    &&& obeys(
        table[15],
        bundle,
        "Game Boy"@,
        has_boot(bundle, "Nintendo Game Boy logo"@, ContentEvidenceConfidence::Strong),
        true,
    )
    &&& obeys(
        table[16],
        bundle,
        "Game Boy"@,
        has_boot(bundle, "Nintendo Game Boy logo"@, ContentEvidenceConfidence::Corroborated),
        false,
    )
    &&& obeys(
        table[17],
        bundle,
        "Game Boy Advance"@,
        has_boot(bundle, "GBA cartridge header"@, ContentEvidenceConfidence::Strong),
        true,
    )
    &&& obeys(
        table[18],
        bundle,
        "Game Boy Advance"@,
        has_boot(bundle, "GBA cartridge header"@, ContentEvidenceConfidence::Weak),
        false,
    )
    &&& obeys(
        table[19],
        bundle,
        "GameCube"@,
        has_boot(bundle, "GameCube"@, ContentEvidenceConfidence::Strong),
        true,
    )
    &&& obeys(
        table[20],
        bundle,
        "Wii"@,
        has_boot(bundle, "Wii"@, ContentEvidenceConfidence::Strong),
        true,
    )
    &&& obeys(
        table[21],
        bundle,
        "NES"@,
        has_signature(bundle, "iNES"@, ContentEvidenceConfidence::Strong),
        true,
    )
    &&& obeys(
        table[22],
        bundle,
        "SNES"@,
        has_signature(bundle, "LoROM"@, ContentEvidenceConfidence::Strong),
        true,
    )
    &&& obeys(
        table[23],
        bundle,
        "SNES"@,
        has_signature(bundle, "HiROM"@, ContentEvidenceConfidence::Strong),
        true,
    )
    &&& obeys(
        table[24],
        bundle,
        "SNES"@,
        has_signature(bundle, "ExHiROM"@, ContentEvidenceConfidence::Strong),
        true,
    )
    &&& obeys(
        table[25],
        bundle,
        "N64"@,
        has_signature(bundle, "z64"@, ContentEvidenceConfidence::Strong),
        true,
    )
    &&& obeys(
        table[26],
        bundle,
        "N64"@,
        has_signature(bundle, "v64"@, ContentEvidenceConfidence::Strong),
        true,
    )
    &&& obeys(
        table[27],
        bundle,
        "N64"@,
        has_signature(bundle, "n64"@, ContentEvidenceConfidence::Strong),
        true,
    )
    &&& obeys(
        table[28],
        bundle,
        "MasterSystem"@,
        has_boot(bundle, "TMR SEGA"@, ContentEvidenceConfidence::Strong)
            && has_signature(bundle, "Master System (Japan)"@,
                ContentEvidenceConfidence::Corroborated),
        true,
    )
    &&& obeys(
        table[29],
        bundle,
        "MasterSystem"@,
        has_boot(bundle, "TMR SEGA"@, ContentEvidenceConfidence::Strong)
            && has_signature(bundle, "Master System (Export)"@,
                ContentEvidenceConfidence::Corroborated),
        true,
    )
    &&& obeys(
        table[30],
        bundle,
        "GameGear"@,
        has_boot(bundle, "TMR SEGA"@, ContentEvidenceConfidence::Strong)
            && has_signature(bundle, "Game Gear (Japan)"@, ContentEvidenceConfidence::Corroborated),
        true,
    )
    &&& obeys(
        table[31],
        bundle,
        "GameGear"@,
        has_boot(bundle, "TMR SEGA"@, ContentEvidenceConfidence::Strong)
            && has_signature(bundle, "Game Gear (Export)"@,
                ContentEvidenceConfidence::Corroborated),
        true,
    )
    &&& obeys(
        table[32],
        bundle,
        "GameGear"@,
        has_boot(bundle, "TMR SEGA"@, ContentEvidenceConfidence::Strong)
            && has_signature(bundle, "Game Gear (International)"@,
                ContentEvidenceConfidence::Corroborated),
        true,
    )
    &&& obeys(
        table[33],
        bundle,
        "Lynx"@,
        has_boot(bundle, "LYNX"@, ContentEvidenceConfidence::Strong),
        true,
    )
    &&& obeys(
        table[34],
        bundle,
        "Atari 7800"@,
        has_boot(bundle, "ATARI7800"@, ContentEvidenceConfidence::Strong),
        true,
    )
}

proof fn the_table_obeys(bundle: Seq<Fact>)
    ensures
        table_obeys(rule_table(), bundle),
{
    let table = rule_table();
    exact_legs(bundle, ContentEvidenceKind::BootStructure, "SEGA SEGASATURN"@,
        ContentEvidenceConfidence::Strong);
    one_leg(
        table[0],
        bundle,
        exact_leg(ContentEvidenceKind::BootStructure, "SEGA SEGASATURN"@,
            ContentEvidenceConfidence::Strong),
    );
    exact_legs(bundle, ContentEvidenceKind::BootStructure, "SEGA SEGAKATANA"@,
        ContentEvidenceConfidence::Strong);
    one_leg(
        table[1],
        bundle,
        exact_leg(ContentEvidenceKind::BootStructure, "SEGA SEGAKATANA"@,
            ContentEvidenceConfidence::Strong),
    );
    exact_legs(bundle, ContentEvidenceKind::BootStructure, "SEGA SEGAMARIO"@,
        ContentEvidenceConfidence::Strong);
    one_leg(
        table[2],
        bundle,
        exact_leg(ContentEvidenceKind::BootStructure, "SEGA SEGAMARIO"@,
            ContentEvidenceConfidence::Strong),
    );
    exact_legs(bundle, ContentEvidenceKind::BootStructure, "OperaFS"@,
        ContentEvidenceConfidence::Strong);
    one_leg(
        table[3],
        bundle,
        exact_leg(ContentEvidenceKind::BootStructure, "OperaFS"@,
            ContentEvidenceConfidence::Strong),
    );
    exact_legs(bundle, ContentEvidenceKind::BootStructure, "SEGADISCSYSTEM"@,
        ContentEvidenceConfidence::Strong);
    one_leg(
        table[4],
        bundle,
        exact_leg(ContentEvidenceKind::BootStructure, "SEGADISCSYSTEM"@,
            ContentEvidenceConfidence::Strong),
    );
    exact_legs(bundle, ContentEvidenceKind::Filesystem, "XDVDFS"@,
        ContentEvidenceConfidence::Strong);
    exact_legs(bundle, ContentEvidenceKind::ContentSignature, "XBEH"@,
        ContentEvidenceConfidence::Strong);
    two_legs(
        table[5],
        bundle,
        exact_leg(ContentEvidenceKind::Filesystem, "XDVDFS"@, ContentEvidenceConfidence::Strong),
        exact_leg(ContentEvidenceKind::ContentSignature, "XBEH"@,
            ContentEvidenceConfidence::Strong),
    );
    exact_legs(bundle, ContentEvidenceKind::Filesystem, "XDVDFS"@,
        ContentEvidenceConfidence::Strong);
    exact_legs(bundle, ContentEvidenceKind::ContentSignature, "XEX2"@,
        ContentEvidenceConfidence::Strong);
    two_legs(
        table[6],
        bundle,
        exact_leg(ContentEvidenceKind::Filesystem, "XDVDFS"@, ContentEvidenceConfidence::Strong),
        exact_leg(ContentEvidenceKind::ContentSignature, "XEX2"@,
            ContentEvidenceConfidence::Strong),
    );
    exact_legs(bundle, ContentEvidenceKind::ContentSignature, "PS-X EXE"@,
        ContentEvidenceConfidence::Strong);
    exact_legs(bundle, ContentEvidenceKind::BootStructure, "BOOT"@,
        ContentEvidenceConfidence::Corroborated);
    two_legs(
        table[7],
        bundle,
        exact_leg(ContentEvidenceKind::ContentSignature, "PS-X EXE"@,
            ContentEvidenceConfidence::Strong),
        exact_leg(ContentEvidenceKind::BootStructure, "BOOT"@,
            ContentEvidenceConfidence::Corroborated),
    );
    exact_legs(bundle, ContentEvidenceKind::BootStructure, "BOOT2"@,
        ContentEvidenceConfidence::Strong);
    one_leg(
        table[8],
        bundle,
        exact_leg(ContentEvidenceKind::BootStructure, "BOOT2"@, ContentEvidenceConfidence::Strong),
    );
    exact_legs(bundle, ContentEvidenceKind::BootStructure, "BOOT2"@,
        ContentEvidenceConfidence::Corroborated);
    exact_legs(bundle, ContentEvidenceKind::ContentSignature, "ELF"@,
        ContentEvidenceConfidence::Weak);
    two_legs(
        table[9],
        bundle,
        exact_leg(ContentEvidenceKind::BootStructure, "BOOT2"@,
            ContentEvidenceConfidence::Corroborated),
        exact_leg(ContentEvidenceKind::ContentSignature, "ELF"@, ContentEvidenceConfidence::Weak),
    );
    exact_legs(bundle, ContentEvidenceKind::BootStructure, "PS3_GAME"@,
        ContentEvidenceConfidence::Corroborated);
    exact_legs(bundle, ContentEvidenceKind::ContentSignature, "SELF"@,
        ContentEvidenceConfidence::Strong);
    code_legs(bundle, ContentEvidenceConfidence::Corroborated);
    three_legs(
        table[10],
        bundle,
        exact_leg(ContentEvidenceKind::BootStructure, "PS3_GAME"@,
            ContentEvidenceConfidence::Corroborated),
        exact_leg(ContentEvidenceKind::ContentSignature, "SELF"@,
            ContentEvidenceConfidence::Strong),
        any_leg(ContentEvidenceKind::ProductCode, ContentEvidenceConfidence::Corroborated),
    );
    exact_legs(bundle, ContentEvidenceKind::BootStructure, "UMD_DATA.BIN"@,
        ContentEvidenceConfidence::Strong);
    exact_legs(bundle, ContentEvidenceKind::BootStructure, "PSP_GAME"@,
        ContentEvidenceConfidence::Corroborated);
    two_legs(
        table[11],
        bundle,
        exact_leg(ContentEvidenceKind::BootStructure, "UMD_DATA.BIN"@,
            ContentEvidenceConfidence::Strong),
        exact_leg(ContentEvidenceKind::BootStructure, "PSP_GAME"@,
            ContentEvidenceConfidence::Corroborated),
    );
    exact_legs(bundle, ContentEvidenceKind::BootStructure, "PSP_GAME"@,
        ContentEvidenceConfidence::Corroborated);
    code_legs(bundle, ContentEvidenceConfidence::Corroborated);
    two_legs(
        table[12],
        bundle,
        exact_leg(ContentEvidenceKind::BootStructure, "PSP_GAME"@,
            ContentEvidenceConfidence::Corroborated),
        any_leg(ContentEvidenceKind::ProductCode, ContentEvidenceConfidence::Corroborated),
    );
    exact_legs(bundle, ContentEvidenceKind::BootStructure, "SEGA GENESIS"@,
        ContentEvidenceConfidence::Corroborated);
    one_leg(
        table[13],
        bundle,
        exact_leg(ContentEvidenceKind::BootStructure, "SEGA GENESIS"@,
            ContentEvidenceConfidence::Corroborated),
    );
    exact_legs(bundle, ContentEvidenceKind::BootStructure, "SEGA 32X      JU"@,
        ContentEvidenceConfidence::Corroborated);
    exact_legs(bundle, ContentEvidenceKind::ContentSignature, "32X"@,
        ContentEvidenceConfidence::Weak);
    two_legs(
        table[14],
        bundle,
        exact_leg(ContentEvidenceKind::BootStructure, "SEGA 32X      JU"@,
            ContentEvidenceConfidence::Corroborated),
        exact_leg(ContentEvidenceKind::ContentSignature, "32X"@, ContentEvidenceConfidence::Weak),
    );
    exact_legs(bundle, ContentEvidenceKind::BootStructure, "Nintendo Game Boy logo"@,
        ContentEvidenceConfidence::Strong);
    one_leg(
        table[15],
        bundle,
        exact_leg(ContentEvidenceKind::BootStructure, "Nintendo Game Boy logo"@,
            ContentEvidenceConfidence::Strong),
    );
    exact_legs(bundle, ContentEvidenceKind::BootStructure, "Nintendo Game Boy logo"@,
        ContentEvidenceConfidence::Corroborated);
    one_leg(
        table[16],
        bundle,
        exact_leg(ContentEvidenceKind::BootStructure, "Nintendo Game Boy logo"@,
            ContentEvidenceConfidence::Corroborated),
    );
    exact_legs(bundle, ContentEvidenceKind::BootStructure, "GBA cartridge header"@,
        ContentEvidenceConfidence::Strong);
    one_leg(
        table[17],
        bundle,
        exact_leg(ContentEvidenceKind::BootStructure, "GBA cartridge header"@,
            ContentEvidenceConfidence::Strong),
    );
    exact_legs(bundle, ContentEvidenceKind::BootStructure, "GBA cartridge header"@,
        ContentEvidenceConfidence::Weak);
    one_leg(
        table[18],
        bundle,
        exact_leg(ContentEvidenceKind::BootStructure, "GBA cartridge header"@,
            ContentEvidenceConfidence::Weak),
    );
    exact_legs(bundle, ContentEvidenceKind::BootStructure, "GameCube"@,
        ContentEvidenceConfidence::Strong);
    one_leg(
        table[19],
        bundle,
        exact_leg(ContentEvidenceKind::BootStructure, "GameCube"@,
            ContentEvidenceConfidence::Strong),
    );
    exact_legs(bundle, ContentEvidenceKind::BootStructure, "Wii"@,
        ContentEvidenceConfidence::Strong);
    one_leg(
        table[20],
        bundle,
        exact_leg(ContentEvidenceKind::BootStructure, "Wii"@, ContentEvidenceConfidence::Strong),
    );
    exact_legs(bundle, ContentEvidenceKind::ContentSignature, "iNES"@,
        ContentEvidenceConfidence::Strong);
    one_leg(
        table[21],
        bundle,
        exact_leg(ContentEvidenceKind::ContentSignature, "iNES"@,
            ContentEvidenceConfidence::Strong),
    );
    exact_legs(bundle, ContentEvidenceKind::ContentSignature, "LoROM"@,
        ContentEvidenceConfidence::Strong);
    one_leg(
        table[22],
        bundle,
        exact_leg(ContentEvidenceKind::ContentSignature, "LoROM"@,
            ContentEvidenceConfidence::Strong),
    );
    exact_legs(bundle, ContentEvidenceKind::ContentSignature, "HiROM"@,
        ContentEvidenceConfidence::Strong);
    one_leg(
        table[23],
        bundle,
        exact_leg(ContentEvidenceKind::ContentSignature, "HiROM"@,
            ContentEvidenceConfidence::Strong),
    );
    exact_legs(bundle, ContentEvidenceKind::ContentSignature, "ExHiROM"@,
        ContentEvidenceConfidence::Strong);
    one_leg(
        table[24],
        bundle,
        exact_leg(ContentEvidenceKind::ContentSignature, "ExHiROM"@,
            ContentEvidenceConfidence::Strong),
    );
    exact_legs(bundle, ContentEvidenceKind::ContentSignature, "z64"@,
        ContentEvidenceConfidence::Strong);
    one_leg(
        table[25],
        bundle,
        exact_leg(ContentEvidenceKind::ContentSignature, "z64"@, ContentEvidenceConfidence::Strong),
    );
    exact_legs(bundle, ContentEvidenceKind::ContentSignature, "v64"@,
        ContentEvidenceConfidence::Strong);
    one_leg(
        table[26],
        bundle,
        exact_leg(ContentEvidenceKind::ContentSignature, "v64"@, ContentEvidenceConfidence::Strong),
    );
    exact_legs(bundle, ContentEvidenceKind::ContentSignature, "n64"@,
        ContentEvidenceConfidence::Strong);
    one_leg(
        table[27],
        bundle,
        exact_leg(ContentEvidenceKind::ContentSignature, "n64"@, ContentEvidenceConfidence::Strong),
    );
    exact_legs(bundle, ContentEvidenceKind::BootStructure, "TMR SEGA"@,
        ContentEvidenceConfidence::Strong);
    exact_legs(bundle, ContentEvidenceKind::ContentSignature, "Master System (Japan)"@,
        ContentEvidenceConfidence::Corroborated);
    two_legs(
        table[28],
        bundle,
        exact_leg(ContentEvidenceKind::BootStructure, "TMR SEGA"@,
            ContentEvidenceConfidence::Strong),
        exact_leg(ContentEvidenceKind::ContentSignature, "Master System (Japan)"@,
            ContentEvidenceConfidence::Corroborated),
    );
    exact_legs(bundle, ContentEvidenceKind::BootStructure, "TMR SEGA"@,
        ContentEvidenceConfidence::Strong);
    exact_legs(bundle, ContentEvidenceKind::ContentSignature, "Master System (Export)"@,
        ContentEvidenceConfidence::Corroborated);
    two_legs(
        table[29],
        bundle,
        exact_leg(ContentEvidenceKind::BootStructure, "TMR SEGA"@,
            ContentEvidenceConfidence::Strong),
        exact_leg(ContentEvidenceKind::ContentSignature, "Master System (Export)"@,
            ContentEvidenceConfidence::Corroborated),
    );
    exact_legs(bundle, ContentEvidenceKind::BootStructure, "TMR SEGA"@,
        ContentEvidenceConfidence::Strong);
    exact_legs(bundle, ContentEvidenceKind::ContentSignature, "Game Gear (Japan)"@,
        ContentEvidenceConfidence::Corroborated);
    two_legs(
        table[30],
        bundle,
        exact_leg(ContentEvidenceKind::BootStructure, "TMR SEGA"@,
            ContentEvidenceConfidence::Strong),
        exact_leg(ContentEvidenceKind::ContentSignature, "Game Gear (Japan)"@,
            ContentEvidenceConfidence::Corroborated),
    );
    exact_legs(bundle, ContentEvidenceKind::BootStructure, "TMR SEGA"@,
        ContentEvidenceConfidence::Strong);
    exact_legs(bundle, ContentEvidenceKind::ContentSignature, "Game Gear (Export)"@,
        ContentEvidenceConfidence::Corroborated);
    two_legs(
        table[31],
        bundle,
        exact_leg(ContentEvidenceKind::BootStructure, "TMR SEGA"@,
            ContentEvidenceConfidence::Strong),
        exact_leg(ContentEvidenceKind::ContentSignature, "Game Gear (Export)"@,
            ContentEvidenceConfidence::Corroborated),
    );
    exact_legs(bundle, ContentEvidenceKind::BootStructure, "TMR SEGA"@,
        ContentEvidenceConfidence::Strong);
    exact_legs(bundle, ContentEvidenceKind::ContentSignature, "Game Gear (International)"@,
        ContentEvidenceConfidence::Corroborated);
    two_legs(
        table[32],
        bundle,
        exact_leg(ContentEvidenceKind::BootStructure, "TMR SEGA"@,
            ContentEvidenceConfidence::Strong),
        exact_leg(ContentEvidenceKind::ContentSignature, "Game Gear (International)"@,
            ContentEvidenceConfidence::Corroborated),
    );
    exact_legs(bundle, ContentEvidenceKind::BootStructure, "LYNX"@,
        ContentEvidenceConfidence::Strong);
    one_leg(
        table[33],
        bundle,
        exact_leg(ContentEvidenceKind::BootStructure, "LYNX"@, ContentEvidenceConfidence::Strong),
    );
    exact_legs(bundle, ContentEvidenceKind::BootStructure, "ATARI7800"@,
        ContentEvidenceConfidence::Strong);
    one_leg(
        table[34],
        bundle,
        exact_leg(ContentEvidenceKind::BootStructure, "ATARI7800"@,
            ContentEvidenceConfidence::Strong),
    );
    assert(table.len() == 35);
}

/// The candidate is that of a rule that fires.
spec fn comes_from(table: Seq<RuleModel>, bundle: Seq<Fact>, c: CandidateModel) -> bool {
    exists|i: int|
        0 <= i < table.len() && fires(#[trigger] table[i], bundle) && candidate_of(table[i]) == c
}

proof fn fired_rules(table: Seq<RuleModel>, bundle: Seq<Fact>)
    ensures
        forall|k: int|
            0 <= k < fired(table, bundle).len() ==> comes_from(
                table,
                bundle,
                #[trigger] fired(table, bundle)[k],
            ),
        forall|i: int|
            0 <= i < table.len() && fires(#[trigger] table[i], bundle) ==> fired(
                table,
                bundle,
            ).contains(candidate_of(table[i])),
    decreases table.len(),
{
    if table.len() > 0 {
        let rest = table.drop_last();
        let before = fired(rest, bundle);
        let all = fired(table, bundle);
        fired_rules(rest, bundle);
        assert forall|k: int| 0 <= k < all.len() implies comes_from(
            table,
            bundle,
            #[trigger] all[k],
        ) by {
            if k < before.len() {
                assert(all[k] == before[k]);
                let i = choose|i: int|
                    0 <= i < rest.len() && fires(#[trigger] rest[i], bundle) && candidate_of(
                        rest[i],
                    ) == before[k];
                assert(table[i] == rest[i]);
            } else {
                assert(fires(table[table.len() - 1], bundle));
            }
        }
        assert forall|i: int| 0 <= i < table.len() && fires(#[trigger] table[i], bundle) implies
            all.contains(candidate_of(table[i])) by {
            if i < rest.len() {
                assert(rest[i] == table[i]);
                let k = choose|k: int| 0 <= k < before.len() && before[k] == candidate_of(rest[i]);
                assert(all[k] == before[k]);
            } else {
                assert(all[all.len() - 1] == candidate_of(table[i]));
            }
        }
    }
}

/// Some rule of the table fires and names the platform.
spec fn named_by(
    table: Seq<RuleModel>,
    bundle: Seq<Fact>,
    platform: Seq<char>,
    strong: bool,
) -> bool {
    exists|i: int|
        0 <= i < table.len() && fires(#[trigger] table[i], bundle) && table[i].platform == platform
            && (strong ==> is_strong_rule(table[i]))
}

proof fn suggestions_are_rules(bundle: Seq<Fact>, platform: Seq<char>)
    ensures
        is_suggested(bundle, platform) == named_by(rule_table(), bundle, platform, false),
        is_established(bundle, platform) == named_by(rule_table(), bundle, platform, true),
{
    let table = rule_table();
    let all = fired(table, bundle);
    fired_rules(table, bundle);
    if is_suggested(bundle, platform) {
        let k = choose|k: int| 0 <= k < all.len() && (#[trigger] all[k]).platform == platform;
        assert(comes_from(table, bundle, all[k]));
        let i = choose|i: int|
            0 <= i < table.len() && fires(#[trigger] table[i], bundle) && candidate_of(table[i])
                == all[k];
        assert(table[i].platform == platform);
    }
    if is_established(bundle, platform) {
        let k = choose|k: int|
            0 <= k < all.len() && (#[trigger] all[k]).platform == platform && all[k].has_strong_leg;
        assert(comes_from(table, bundle, all[k]));
        let i = choose|i: int|
            0 <= i < table.len() && fires(#[trigger] table[i], bundle) && candidate_of(table[i])
                == all[k];
        assert(table[i].platform == platform);
    }
    if named_by(table, bundle, platform, false) {
        let i = choose|i: int|
            0 <= i < table.len() && fires(#[trigger] table[i], bundle) && table[i].platform
                == platform;
        let k = choose|k: int| 0 <= k < all.len() && all[k] == candidate_of(table[i]);
        assert(all[k].platform == platform);
    }
    if named_by(table, bundle, platform, true) {
        let i = choose|i: int|
            0 <= i < table.len() && fires(#[trigger] table[i], bundle) && table[i].platform
                == platform && is_strong_rule(table[i]);
        let k = choose|k: int| 0 <= k < all.len() && all[k] == candidate_of(table[i]);
        assert(all[k].platform == platform && all[k].has_strong_leg);
    }
}

/// Which characters tell the platform ids apart.
proof fn platform_marks()
    ensures
        "3DO"@.len() == 3 && "3DO"@[0] == '3',
        "Atari 7800"@.len() == 10,
        "Dreamcast"@.len() == 9 && "Dreamcast"@[0] == 'D',
        "Game Boy"@.len() == 8 && "Game Boy"@[0] == 'G' && "Game Boy"@[4] == ' ',
        "Game Boy Advance"@.len() == 16,
        "GameCube"@.len() == 8 && "GameCube"@[0] == 'G' && "GameCube"@[4] == 'C',
        "GameGear"@.len() == 8 && "GameGear"@[0] == 'G' && "GameGear"@[4] == 'G',
        "Lynx"@.len() == 4 && "Lynx"@[0] == 'L',
        "MasterSystem"@.len() == 12,
        "MegaDrive"@.len() == 9 && "MegaDrive"@[0] == 'M',
        "N64"@.len() == 3 && "N64"@[0] == 'N' && "N64"@[1] == '6',
        "NES"@.len() == 3 && "NES"@[0] == 'N' && "NES"@[1] == 'E',
        "PS2"@.len() == 3 && "PS2"@[0] == 'P' && "PS2"@[2] == '2',
        "PS3"@.len() == 3 && "PS3"@[0] == 'P' && "PS3"@[2] == '3',
        "PSP"@.len() == 3 && "PSP"@[0] == 'P' && "PSP"@[2] == 'P',
        "PSX"@.len() == 3 && "PSX"@[0] == 'P' && "PSX"@[2] == 'X',
        "SNES"@.len() == 4 && "SNES"@[0] == 'S',
        "Saturn"@.len() == 6 && "Saturn"@[1] == 'a',
        "Sega 32X"@.len() == 8 && "Sega 32X"@[0] == 'S',
        "SegaCD"@.len() == 6 && "SegaCD"@[1] == 'e',
        "Wii"@.len() == 3 && "Wii"@[0] == 'W',
        "Xbox"@.len() == 4 && "Xbox"@[0] == 'X',
        "Xbox360"@.len() == 7,
{
    reveal_strlit("3DO");
    reveal_strlit("Atari 7800");
    reveal_strlit("Dreamcast");
    reveal_strlit("Game Boy");
    reveal_strlit("Game Boy Advance");
    reveal_strlit("GameCube");
    reveal_strlit("GameGear");
    reveal_strlit("Lynx");
    reveal_strlit("MasterSystem");
    reveal_strlit("MegaDrive");
    reveal_strlit("N64");
    reveal_strlit("NES");
    reveal_strlit("PS2");
    reveal_strlit("PS3");
    reveal_strlit("PSP");
    reveal_strlit("PSX");
    reveal_strlit("SNES");
    reveal_strlit("Saturn");
    reveal_strlit("Sega 32X");
    reveal_strlit("SegaCD");
    reveal_strlit("Wii");
    reveal_strlit("Xbox");
    reveal_strlit("Xbox360");
}

proof fn rule_indices(i: int)
    requires
        0 <= i < 35,
    ensures
        i == 0 || i == 1 || i == 2 || i == 3 || i == 4 || i == 5 || i == 6 || i == 7 || i == 8
            || i == 9 || i == 10 || i == 11 || i == 12 || i == 13 || i == 14 || i == 15 || i == 16
                || i == 17 || i == 18 || i == 19 || i == 20 || i == 21 || i == 22 || i == 23
                    || i == 24 || i == 25 || i == 26 || i == 27 || i == 28 || i == 29 || i == 30
                        || i == 31 || i == 32 || i == 33 || i == 34,
{
}

/// What suggests and what establishes each platform: `suggested` and
/// `established` hold of its id exactly when the bundle has these facts.
pub open spec fn signs_are_read(
    bundle: Seq<Fact>,
    suggested: spec_fn(Seq<char>) -> bool,
    established: spec_fn(Seq<char>) -> bool,
) -> bool {
    &&& suggested("Saturn"@)
        == (has_boot(bundle, "SEGA SEGASATURN"@, ContentEvidenceConfidence::Strong))
    &&& established("Saturn"@)
        == (has_boot(bundle, "SEGA SEGASATURN"@, ContentEvidenceConfidence::Strong))
    &&& suggested("Dreamcast"@)
        == ((has_boot(bundle, "SEGA SEGAKATANA"@, ContentEvidenceConfidence::Strong))
        || (has_boot(bundle, "SEGA SEGAMARIO"@, ContentEvidenceConfidence::Strong)))
    &&& established("Dreamcast"@)
        == ((has_boot(bundle, "SEGA SEGAKATANA"@, ContentEvidenceConfidence::Strong))
        || (has_boot(bundle, "SEGA SEGAMARIO"@, ContentEvidenceConfidence::Strong)))
    &&& suggested("3DO"@) == (has_boot(bundle, "OperaFS"@, ContentEvidenceConfidence::Strong))
    &&& established("3DO"@) == (has_boot(bundle, "OperaFS"@, ContentEvidenceConfidence::Strong))
    &&& suggested("SegaCD"@)
        == (has_boot(bundle, "SEGADISCSYSTEM"@, ContentEvidenceConfidence::Strong))
    &&& established("SegaCD"@)
        == (has_boot(bundle, "SEGADISCSYSTEM"@, ContentEvidenceConfidence::Strong))
    &&& suggested("Xbox"@)
        == (has_filesystem(bundle, "XDVDFS"@, ContentEvidenceConfidence::Strong)
            && has_signature(bundle, "XBEH"@, ContentEvidenceConfidence::Strong))
    &&& established("Xbox"@)
        == (has_filesystem(bundle, "XDVDFS"@, ContentEvidenceConfidence::Strong)
            && has_signature(bundle, "XBEH"@, ContentEvidenceConfidence::Strong))
    &&& suggested("Xbox360"@)
        == (has_filesystem(bundle, "XDVDFS"@, ContentEvidenceConfidence::Strong)
            && has_signature(bundle, "XEX2"@, ContentEvidenceConfidence::Strong))
    &&& established("Xbox360"@)
        == (has_filesystem(bundle, "XDVDFS"@, ContentEvidenceConfidence::Strong)
            && has_signature(bundle, "XEX2"@, ContentEvidenceConfidence::Strong))
    &&& suggested("PSX"@)
        == (has_signature(bundle, "PS-X EXE"@, ContentEvidenceConfidence::Strong)
            && has_boot(bundle, "BOOT"@, ContentEvidenceConfidence::Corroborated))
    &&& established("PSX"@)
        == (has_signature(bundle, "PS-X EXE"@, ContentEvidenceConfidence::Strong)
            && has_boot(bundle, "BOOT"@, ContentEvidenceConfidence::Corroborated))
    &&& suggested("PS2"@) == ((has_boot(bundle, "BOOT2"@, ContentEvidenceConfidence::Strong))
        || (has_boot(bundle, "BOOT2"@, ContentEvidenceConfidence::Corroborated)
            && has_signature(bundle, "ELF"@, ContentEvidenceConfidence::Weak)))
    &&& established("PS2"@) == (has_boot(bundle, "BOOT2"@, ContentEvidenceConfidence::Strong))
    &&& suggested("PS3"@)
        == (has_boot(bundle, "PS3_GAME"@, ContentEvidenceConfidence::Corroborated)
            && has_signature(bundle, "SELF"@, ContentEvidenceConfidence::Strong)
                && has_product_code(bundle, ContentEvidenceConfidence::Corroborated))
    &&& established("PS3"@)
        == (has_boot(bundle, "PS3_GAME"@, ContentEvidenceConfidence::Corroborated)
            && has_signature(bundle, "SELF"@, ContentEvidenceConfidence::Strong)
                && has_product_code(bundle, ContentEvidenceConfidence::Corroborated))
    &&& suggested("PSP"@)
        == ((has_boot(bundle, "UMD_DATA.BIN"@, ContentEvidenceConfidence::Strong)
            && has_boot(bundle, "PSP_GAME"@, ContentEvidenceConfidence::Corroborated))
        || (has_boot(bundle, "PSP_GAME"@, ContentEvidenceConfidence::Corroborated)
            && has_product_code(bundle, ContentEvidenceConfidence::Corroborated)))
    &&& established("PSP"@)
        == (has_boot(bundle, "UMD_DATA.BIN"@, ContentEvidenceConfidence::Strong)
            && has_boot(bundle, "PSP_GAME"@, ContentEvidenceConfidence::Corroborated))
    &&& suggested("MegaDrive"@)
        == (has_boot(bundle, "SEGA GENESIS"@, ContentEvidenceConfidence::Corroborated))
    &&& established("MegaDrive"@) == false
    &&& suggested("Sega 32X"@)
        == (has_boot(bundle, "SEGA 32X      JU"@, ContentEvidenceConfidence::Corroborated)
            && has_signature(bundle, "32X"@, ContentEvidenceConfidence::Weak))
    &&& established("Sega 32X"@) == false
    &&& suggested("Game Boy"@)
        == ((has_boot(bundle, "Nintendo Game Boy logo"@, ContentEvidenceConfidence::Strong))
        || (has_boot(bundle, "Nintendo Game Boy logo"@, ContentEvidenceConfidence::Corroborated)))
    &&& established("Game Boy"@)
        == (has_boot(bundle, "Nintendo Game Boy logo"@, ContentEvidenceConfidence::Strong))
    &&& suggested("Game Boy Advance"@)
        == ((has_boot(bundle, "GBA cartridge header"@, ContentEvidenceConfidence::Strong))
        || (has_boot(bundle, "GBA cartridge header"@, ContentEvidenceConfidence::Weak)))
    &&& established("Game Boy Advance"@)
        == (has_boot(bundle, "GBA cartridge header"@, ContentEvidenceConfidence::Strong))
    &&& suggested("GameCube"@) == (has_boot(bundle, "GameCube"@, ContentEvidenceConfidence::Strong))
    &&& established("GameCube"@)
        == (has_boot(bundle, "GameCube"@, ContentEvidenceConfidence::Strong))
    &&& suggested("Wii"@) == (has_boot(bundle, "Wii"@, ContentEvidenceConfidence::Strong))
    &&& established("Wii"@) == (has_boot(bundle, "Wii"@, ContentEvidenceConfidence::Strong))
    &&& suggested("NES"@) == (has_signature(bundle, "iNES"@, ContentEvidenceConfidence::Strong))
    &&& established("NES"@) == (has_signature(bundle, "iNES"@, ContentEvidenceConfidence::Strong))
    &&& suggested("SNES"@) == ((has_signature(bundle, "LoROM"@, ContentEvidenceConfidence::Strong))
        || (has_signature(bundle, "HiROM"@, ContentEvidenceConfidence::Strong))
        || (has_signature(bundle, "ExHiROM"@, ContentEvidenceConfidence::Strong)))
    &&& established("SNES"@)
        == ((has_signature(bundle, "LoROM"@, ContentEvidenceConfidence::Strong))
        || (has_signature(bundle, "HiROM"@, ContentEvidenceConfidence::Strong))
        || (has_signature(bundle, "ExHiROM"@, ContentEvidenceConfidence::Strong)))
    &&& suggested("N64"@) == ((has_signature(bundle, "z64"@, ContentEvidenceConfidence::Strong))
        || (has_signature(bundle, "v64"@, ContentEvidenceConfidence::Strong))
        || (has_signature(bundle, "n64"@, ContentEvidenceConfidence::Strong)))
    &&& established("N64"@) == ((has_signature(bundle, "z64"@, ContentEvidenceConfidence::Strong))
        || (has_signature(bundle, "v64"@, ContentEvidenceConfidence::Strong))
        || (has_signature(bundle, "n64"@, ContentEvidenceConfidence::Strong)))
    &&& suggested("MasterSystem"@)
        == ((has_boot(bundle, "TMR SEGA"@, ContentEvidenceConfidence::Strong)
            && has_signature(bundle, "Master System (Japan)"@,
                ContentEvidenceConfidence::Corroborated))
        || (has_boot(bundle, "TMR SEGA"@, ContentEvidenceConfidence::Strong)
            && has_signature(bundle, "Master System (Export)"@,
                ContentEvidenceConfidence::Corroborated)))
    &&& established("MasterSystem"@)
        == ((has_boot(bundle, "TMR SEGA"@, ContentEvidenceConfidence::Strong)
            && has_signature(bundle, "Master System (Japan)"@,
                ContentEvidenceConfidence::Corroborated))
        || (has_boot(bundle, "TMR SEGA"@, ContentEvidenceConfidence::Strong)
            && has_signature(bundle, "Master System (Export)"@,
                ContentEvidenceConfidence::Corroborated)))
    &&& suggested("GameGear"@)
        == ((has_boot(bundle, "TMR SEGA"@, ContentEvidenceConfidence::Strong)
            && has_signature(bundle, "Game Gear (Japan)"@, ContentEvidenceConfidence::Corroborated))
        || (has_boot(bundle, "TMR SEGA"@, ContentEvidenceConfidence::Strong)
            && has_signature(bundle, "Game Gear (Export)"@,
                ContentEvidenceConfidence::Corroborated))
        || (has_boot(bundle, "TMR SEGA"@, ContentEvidenceConfidence::Strong)
            && has_signature(bundle, "Game Gear (International)"@,
                ContentEvidenceConfidence::Corroborated)))
    &&& established("GameGear"@)
        == ((has_boot(bundle, "TMR SEGA"@, ContentEvidenceConfidence::Strong)
            && has_signature(bundle, "Game Gear (Japan)"@, ContentEvidenceConfidence::Corroborated))
        || (has_boot(bundle, "TMR SEGA"@, ContentEvidenceConfidence::Strong)
            && has_signature(bundle, "Game Gear (Export)"@,
                ContentEvidenceConfidence::Corroborated))
        || (has_boot(bundle, "TMR SEGA"@, ContentEvidenceConfidence::Strong)
            && has_signature(bundle, "Game Gear (International)"@,
                ContentEvidenceConfidence::Corroborated)))
    &&& suggested("Lynx"@) == (has_boot(bundle, "LYNX"@, ContentEvidenceConfidence::Strong))
    &&& established("Lynx"@) == (has_boot(bundle, "LYNX"@, ContentEvidenceConfidence::Strong))
    &&& suggested("Atari 7800"@)
        == (has_boot(bundle, "ATARI7800"@, ContentEvidenceConfidence::Strong))
    &&& established("Atari 7800"@)
        == (has_boot(bundle, "ATARI7800"@, ContentEvidenceConfidence::Strong))
}

proof fn saturn_rules(table: Seq<RuleModel>, bundle: Seq<Fact>)
    requires
        table_obeys(table, bundle),
    ensures
        named_by(table, bundle, "Saturn"@, false) == (fires(table[0], bundle)),
        named_by(table, bundle, "Saturn"@, true)
            == ((fires(table[0], bundle) && is_strong_rule(table[0]))),
{
    platform_marks();
    assert forall|i: int| 0 <= i < 35 && (#[trigger] table[i]).platform == "Saturn"@
        implies i == 0 by {
        rule_indices(i);
    }
    assert(table[0].platform == "Saturn"@);
}

proof fn dreamcast_rules(table: Seq<RuleModel>, bundle: Seq<Fact>)
    requires
        table_obeys(table, bundle),
    ensures
        named_by(table, bundle, "Dreamcast"@, false)
            == (fires(table[1], bundle) || fires(table[2], bundle)),
        named_by(table, bundle, "Dreamcast"@, true)
            == ((fires(table[1], bundle) && is_strong_rule(table[1]))
                || (fires(table[2], bundle) && is_strong_rule(table[2]))),
{
    platform_marks();
    assert forall|i: int| 0 <= i < 35 && (#[trigger] table[i]).platform == "Dreamcast"@
        implies i == 1 || i == 2 by {
        rule_indices(i);
    }
    assert(table[1].platform == "Dreamcast"@ && table[2].platform == "Dreamcast"@);
}

proof fn the_3do_rules(table: Seq<RuleModel>, bundle: Seq<Fact>)
    requires
        table_obeys(table, bundle),
    ensures
        named_by(table, bundle, "3DO"@, false) == (fires(table[3], bundle)),
        named_by(table, bundle, "3DO"@, true)
            == ((fires(table[3], bundle) && is_strong_rule(table[3]))),
{
    platform_marks();
    assert forall|i: int| 0 <= i < 35 && (#[trigger] table[i]).platform == "3DO"@
        implies i == 3 by {
        rule_indices(i);
    }
    assert(table[3].platform == "3DO"@);
}

proof fn segacd_rules(table: Seq<RuleModel>, bundle: Seq<Fact>)
    requires
        table_obeys(table, bundle),
    ensures
        named_by(table, bundle, "SegaCD"@, false) == (fires(table[4], bundle)),
        named_by(table, bundle, "SegaCD"@, true)
            == ((fires(table[4], bundle) && is_strong_rule(table[4]))),
{
    platform_marks();
    assert forall|i: int| 0 <= i < 35 && (#[trigger] table[i]).platform == "SegaCD"@
        implies i == 4 by {
        rule_indices(i);
    }
    assert(table[4].platform == "SegaCD"@);
}

proof fn xbox_rules(table: Seq<RuleModel>, bundle: Seq<Fact>)
    requires
        table_obeys(table, bundle),
    ensures
        named_by(table, bundle, "Xbox"@, false) == (fires(table[5], bundle)),
        named_by(table, bundle, "Xbox"@, true)
            == ((fires(table[5], bundle) && is_strong_rule(table[5]))),
{
    platform_marks();
    assert forall|i: int| 0 <= i < 35 && (#[trigger] table[i]).platform == "Xbox"@
        implies i == 5 by {
        rule_indices(i);
    }
    assert(table[5].platform == "Xbox"@);
}

proof fn xbox360_rules(table: Seq<RuleModel>, bundle: Seq<Fact>)
    requires
        table_obeys(table, bundle),
    ensures
        named_by(table, bundle, "Xbox360"@, false) == (fires(table[6], bundle)),
        named_by(table, bundle, "Xbox360"@, true)
            == ((fires(table[6], bundle) && is_strong_rule(table[6]))),
{
    platform_marks();
    assert forall|i: int| 0 <= i < 35 && (#[trigger] table[i]).platform == "Xbox360"@
        implies i == 6 by {
        rule_indices(i);
    }
    assert(table[6].platform == "Xbox360"@);
}

proof fn psx_rules(table: Seq<RuleModel>, bundle: Seq<Fact>)
    requires
        table_obeys(table, bundle),
    ensures
        named_by(table, bundle, "PSX"@, false) == (fires(table[7], bundle)),
        named_by(table, bundle, "PSX"@, true)
            == ((fires(table[7], bundle) && is_strong_rule(table[7]))),
{
    platform_marks();
    assert forall|i: int| 0 <= i < 35 && (#[trigger] table[i]).platform == "PSX"@
        implies i == 7 by {
        rule_indices(i);
    }
    assert(table[7].platform == "PSX"@);
}

proof fn ps2_rules(table: Seq<RuleModel>, bundle: Seq<Fact>)
    requires
        table_obeys(table, bundle),
    ensures
        named_by(table, bundle, "PS2"@, false)
            == (fires(table[8], bundle) || fires(table[9], bundle)),
        named_by(table, bundle, "PS2"@, true)
            == ((fires(table[8], bundle) && is_strong_rule(table[8]))
                || (fires(table[9], bundle) && is_strong_rule(table[9]))),
{
    platform_marks();
    assert forall|i: int| 0 <= i < 35 && (#[trigger] table[i]).platform == "PS2"@ implies i == 8
        || i == 9 by {
        rule_indices(i);
    }
    assert(table[8].platform == "PS2"@ && table[9].platform == "PS2"@);
}

proof fn ps3_rules(table: Seq<RuleModel>, bundle: Seq<Fact>)
    requires
        table_obeys(table, bundle),
    ensures
        named_by(table, bundle, "PS3"@, false) == (fires(table[10], bundle)),
        named_by(table, bundle, "PS3"@, true)
            == ((fires(table[10], bundle) && is_strong_rule(table[10]))),
{
    platform_marks();
    assert forall|i: int| 0 <= i < 35 && (#[trigger] table[i]).platform == "PS3"@
        implies i == 10 by {
        rule_indices(i);
    }
    assert(table[10].platform == "PS3"@);
}

proof fn psp_rules(table: Seq<RuleModel>, bundle: Seq<Fact>)
    requires
        table_obeys(table, bundle),
    ensures
        named_by(table, bundle, "PSP"@, false)
            == (fires(table[11], bundle) || fires(table[12], bundle)),
        named_by(table, bundle, "PSP"@, true)
            == ((fires(table[11], bundle) && is_strong_rule(table[11]))
                || (fires(table[12], bundle) && is_strong_rule(table[12]))),
{
    platform_marks();
    assert forall|i: int| 0 <= i < 35 && (#[trigger] table[i]).platform == "PSP"@ implies i == 11
        || i == 12 by {
        rule_indices(i);
    }
    assert(table[11].platform == "PSP"@ && table[12].platform == "PSP"@);
}

proof fn megadrive_rules(table: Seq<RuleModel>, bundle: Seq<Fact>)
    requires
        table_obeys(table, bundle),
    ensures
        named_by(table, bundle, "MegaDrive"@, false) == (fires(table[13], bundle)),
        named_by(table, bundle, "MegaDrive"@, true)
            == ((fires(table[13], bundle) && is_strong_rule(table[13]))),
{
    platform_marks();
    assert forall|i: int| 0 <= i < 35 && (#[trigger] table[i]).platform == "MegaDrive"@
        implies i == 13 by {
        rule_indices(i);
    }
    assert(table[13].platform == "MegaDrive"@);
}

proof fn sega_32x_rules(table: Seq<RuleModel>, bundle: Seq<Fact>)
    requires
        table_obeys(table, bundle),
    ensures
        named_by(table, bundle, "Sega 32X"@, false) == (fires(table[14], bundle)),
        named_by(table, bundle, "Sega 32X"@, true)
            == ((fires(table[14], bundle) && is_strong_rule(table[14]))),
{
    platform_marks();
    assert forall|i: int| 0 <= i < 35 && (#[trigger] table[i]).platform == "Sega 32X"@
        implies i == 14 by {
        rule_indices(i);
    }
    assert(table[14].platform == "Sega 32X"@);
}

proof fn game_boy_rules(table: Seq<RuleModel>, bundle: Seq<Fact>)
    requires
        table_obeys(table, bundle),
    ensures
        named_by(table, bundle, "Game Boy"@, false)
            == (fires(table[15], bundle) || fires(table[16], bundle)),
        named_by(table, bundle, "Game Boy"@, true)
            == ((fires(table[15], bundle) && is_strong_rule(table[15]))
                || (fires(table[16], bundle) && is_strong_rule(table[16]))),
{
    platform_marks();
    assert forall|i: int| 0 <= i < 35 && (#[trigger] table[i]).platform == "Game Boy"@
        implies i == 15 || i == 16 by {
        rule_indices(i);
    }
    assert(table[15].platform == "Game Boy"@ && table[16].platform == "Game Boy"@);
}

proof fn game_boy_advance_rules(table: Seq<RuleModel>, bundle: Seq<Fact>)
    requires
        table_obeys(table, bundle),
    ensures
        named_by(table, bundle, "Game Boy Advance"@, false)
            == (fires(table[17], bundle) || fires(table[18], bundle)),
        named_by(table, bundle, "Game Boy Advance"@, true)
            == ((fires(table[17], bundle) && is_strong_rule(table[17]))
                || (fires(table[18], bundle) && is_strong_rule(table[18]))),
{
    platform_marks();
    assert forall|i: int| 0 <= i < 35 && (#[trigger] table[i]).platform == "Game Boy Advance"@
        implies i == 17 || i == 18 by {
        rule_indices(i);
    }
    assert(table[17].platform == "Game Boy Advance"@ && table[18].platform == "Game Boy Advance"@);
}

proof fn gamecube_rules(table: Seq<RuleModel>, bundle: Seq<Fact>)
    requires
        table_obeys(table, bundle),
    ensures
        named_by(table, bundle, "GameCube"@, false) == (fires(table[19], bundle)),
        named_by(table, bundle, "GameCube"@, true)
            == ((fires(table[19], bundle) && is_strong_rule(table[19]))),
{
    platform_marks();
    assert forall|i: int| 0 <= i < 35 && (#[trigger] table[i]).platform == "GameCube"@
        implies i == 19 by {
        rule_indices(i);
    }
    assert(table[19].platform == "GameCube"@);
}

proof fn wii_rules(table: Seq<RuleModel>, bundle: Seq<Fact>)
    requires
        table_obeys(table, bundle),
    ensures
        named_by(table, bundle, "Wii"@, false) == (fires(table[20], bundle)),
        named_by(table, bundle, "Wii"@, true)
            == ((fires(table[20], bundle) && is_strong_rule(table[20]))),
{
    platform_marks();
    assert forall|i: int| 0 <= i < 35 && (#[trigger] table[i]).platform == "Wii"@
        implies i == 20 by {
        rule_indices(i);
    }
    assert(table[20].platform == "Wii"@);
}

proof fn nes_rules(table: Seq<RuleModel>, bundle: Seq<Fact>)
    requires
        table_obeys(table, bundle),
    ensures
        named_by(table, bundle, "NES"@, false) == (fires(table[21], bundle)),
        named_by(table, bundle, "NES"@, true)
            == ((fires(table[21], bundle) && is_strong_rule(table[21]))),
{
    platform_marks();
    assert forall|i: int| 0 <= i < 35 && (#[trigger] table[i]).platform == "NES"@
        implies i == 21 by {
        rule_indices(i);
    }
    assert(table[21].platform == "NES"@);
}

proof fn snes_rules(table: Seq<RuleModel>, bundle: Seq<Fact>)
    requires
        table_obeys(table, bundle),
    ensures
        named_by(table, bundle, "SNES"@, false)
            == (fires(table[22], bundle) || fires(table[23], bundle) || fires(table[24], bundle)),
        named_by(table, bundle, "SNES"@, true)
            == ((fires(table[22], bundle) && is_strong_rule(table[22]))
                || (fires(table[23], bundle) && is_strong_rule(table[23]))
                    || (fires(table[24], bundle) && is_strong_rule(table[24]))),
{
    platform_marks();
    assert forall|i: int| 0 <= i < 35 && (#[trigger] table[i]).platform == "SNES"@ implies i == 22
        || i == 23 || i == 24 by {
        rule_indices(i);
    }
    assert(table[22].platform == "SNES"@ && table[23].platform == "SNES"@
        && table[24].platform == "SNES"@);
}

proof fn n64_rules(table: Seq<RuleModel>, bundle: Seq<Fact>)
    requires
        table_obeys(table, bundle),
    ensures
        named_by(table, bundle, "N64"@, false)
            == (fires(table[25], bundle) || fires(table[26], bundle) || fires(table[27], bundle)),
        named_by(table, bundle, "N64"@, true)
            == ((fires(table[25], bundle) && is_strong_rule(table[25]))
                || (fires(table[26], bundle) && is_strong_rule(table[26]))
                    || (fires(table[27], bundle) && is_strong_rule(table[27]))),
{
    platform_marks();
    assert forall|i: int| 0 <= i < 35 && (#[trigger] table[i]).platform == "N64"@ implies i == 25
        || i == 26 || i == 27 by {
        rule_indices(i);
    }
    assert(table[25].platform == "N64"@ && table[26].platform == "N64"@
        && table[27].platform == "N64"@);
}

proof fn mastersystem_rules(table: Seq<RuleModel>, bundle: Seq<Fact>)
    requires
        table_obeys(table, bundle),
    ensures
        named_by(table, bundle, "MasterSystem"@, false)
            == (fires(table[28], bundle) || fires(table[29], bundle)),
        named_by(table, bundle, "MasterSystem"@, true)
            == ((fires(table[28], bundle) && is_strong_rule(table[28]))
                || (fires(table[29], bundle) && is_strong_rule(table[29]))),
{
    platform_marks();
    assert forall|i: int| 0 <= i < 35 && (#[trigger] table[i]).platform == "MasterSystem"@
        implies i == 28 || i == 29 by {
        rule_indices(i);
    }
    assert(table[28].platform == "MasterSystem"@ && table[29].platform == "MasterSystem"@);
}

proof fn gamegear_rules(table: Seq<RuleModel>, bundle: Seq<Fact>)
    requires
        table_obeys(table, bundle),
    ensures
        named_by(table, bundle, "GameGear"@, false)
            == (fires(table[30], bundle) || fires(table[31], bundle) || fires(table[32], bundle)),
        named_by(table, bundle, "GameGear"@, true)
            == ((fires(table[30], bundle) && is_strong_rule(table[30]))
                || (fires(table[31], bundle) && is_strong_rule(table[31]))
                    || (fires(table[32], bundle) && is_strong_rule(table[32]))),
{
    platform_marks();
    assert forall|i: int| 0 <= i < 35 && (#[trigger] table[i]).platform == "GameGear"@
        implies i == 30 || i == 31 || i == 32 by {
        rule_indices(i);
    }
    assert(table[30].platform == "GameGear"@ && table[31].platform == "GameGear"@
        && table[32].platform == "GameGear"@);
}

proof fn lynx_rules(table: Seq<RuleModel>, bundle: Seq<Fact>)
    requires
        table_obeys(table, bundle),
    ensures
        named_by(table, bundle, "Lynx"@, false) == (fires(table[33], bundle)),
        named_by(table, bundle, "Lynx"@, true)
            == ((fires(table[33], bundle) && is_strong_rule(table[33]))),
{
    platform_marks();
    assert forall|i: int| 0 <= i < 35 && (#[trigger] table[i]).platform == "Lynx"@
        implies i == 33 by {
        rule_indices(i);
    }
    assert(table[33].platform == "Lynx"@);
}

proof fn atari_7800_rules(table: Seq<RuleModel>, bundle: Seq<Fact>)
    requires
        table_obeys(table, bundle),
    ensures
        named_by(table, bundle, "Atari 7800"@, false) == (fires(table[34], bundle)),
        named_by(table, bundle, "Atari 7800"@, true)
            == ((fires(table[34], bundle) && is_strong_rule(table[34]))),
{
    platform_marks();
    assert forall|i: int| 0 <= i < 35 && (#[trigger] table[i]).platform == "Atari 7800"@
        implies i == 34 by {
        rule_indices(i);
    }
    assert(table[34].platform == "Atari 7800"@);
}

proof fn the_signs_are_read(table: Seq<RuleModel>, bundle: Seq<Fact>)
    requires
        table_obeys(table, bundle),
    ensures
        signs_are_read(
            bundle,
            |p: Seq<char>| named_by(table, bundle, p, false),
            |p: Seq<char>| named_by(table, bundle, p, true),
        ),
{
    saturn_rules(table, bundle);
    dreamcast_rules(table, bundle);
    the_3do_rules(table, bundle);
    segacd_rules(table, bundle);
    xbox_rules(table, bundle);
    xbox360_rules(table, bundle);
    psx_rules(table, bundle);
    ps2_rules(table, bundle);
    ps3_rules(table, bundle);
    psp_rules(table, bundle);
    megadrive_rules(table, bundle);
    sega_32x_rules(table, bundle);
    game_boy_rules(table, bundle);
    game_boy_advance_rules(table, bundle);
    gamecube_rules(table, bundle);
    wii_rules(table, bundle);
    nes_rules(table, bundle);
    snes_rules(table, bundle);
    n64_rules(table, bundle);
    mastersystem_rules(table, bundle);
    gamegear_rules(table, bundle);
    lynx_rules(table, bundle);
    atari_7800_rules(table, bundle);
}

/// Each platform is suggested, and is established, by exactly the registered
/// facts, whatever else a bundle holds.
pub proof fn every_platform_has_its_signs(bundle: Seq<Fact>)
    ensures
        signs_are_read(
            bundle,
            |p: Seq<char>| is_suggested(bundle, p),
            |p: Seq<char>| is_established(bundle, p),
        ),
{
    the_table_obeys(bundle);
    assert forall|p: Seq<char>| is_suggested(bundle, p) == #[trigger] named_by(
        rule_table(),
        bundle,
        p,
        false,
    ) by {
        suggestions_are_rules(bundle, p);
    }
    assert forall|p: Seq<char>| is_established(bundle, p) == #[trigger] named_by(
        rule_table(),
        bundle,
        p,
        true,
    ) by {
        suggestions_are_rules(bundle, p);
    }
    the_signs_are_read(rule_table(), bundle);
}

/// One fact of this kind and value, if strong, stands for the platform.
pub open spec fn stands_for(
    kind: ContentEvidenceKind,
    value: Seq<char>,
    platform: Seq<char>,
) -> bool {
    ||| kind == ContentEvidenceKind::BootStructure && value == "SEGA SEGASATURN"@
        && platform == "Saturn"@
    ||| kind == ContentEvidenceKind::BootStructure && value == "SEGA SEGAKATANA"@
        && platform == "Dreamcast"@
    ||| kind == ContentEvidenceKind::BootStructure && value == "SEGA SEGAMARIO"@
        && platform == "Dreamcast"@
    ||| kind == ContentEvidenceKind::BootStructure && value == "OperaFS"@ && platform == "3DO"@
    ||| kind == ContentEvidenceKind::BootStructure && value == "SEGADISCSYSTEM"@
        && platform == "SegaCD"@
    ||| kind == ContentEvidenceKind::BootStructure && value == "BOOT2"@ && platform == "PS2"@
    ||| kind == ContentEvidenceKind::BootStructure && value == "Nintendo Game Boy logo"@
        && platform == "Game Boy"@
    ||| kind == ContentEvidenceKind::BootStructure && value == "GBA cartridge header"@
        && platform == "Game Boy Advance"@
    ||| kind == ContentEvidenceKind::BootStructure && value == "GameCube"@
        && platform == "GameCube"@
    ||| kind == ContentEvidenceKind::BootStructure && value == "Wii"@ && platform == "Wii"@
    ||| kind == ContentEvidenceKind::ContentSignature && value == "iNES"@ && platform == "NES"@
    ||| kind == ContentEvidenceKind::ContentSignature && value == "LoROM"@ && platform == "SNES"@
    ||| kind == ContentEvidenceKind::ContentSignature && value == "HiROM"@ && platform == "SNES"@
    ||| kind == ContentEvidenceKind::ContentSignature && value == "ExHiROM"@ && platform == "SNES"@
    ||| kind == ContentEvidenceKind::ContentSignature && value == "z64"@ && platform == "N64"@
    ||| kind == ContentEvidenceKind::ContentSignature && value == "v64"@ && platform == "N64"@
    ||| kind == ContentEvidenceKind::ContentSignature && value == "n64"@ && platform == "N64"@
    ||| kind == ContentEvidenceKind::BootStructure && value == "LYNX"@ && platform == "Lynx"@
    ||| kind == ContentEvidenceKind::BootStructure && value == "ATARI7800"@
        && platform == "Atari 7800"@
}

/// Which characters tell the values of facts apart.
proof fn value_marks()
    ensures
        "32X"@.len() == 3 && "32X"@[0] == '3',
        "ATARI7800"@.len() == 9,
        "BOOT"@.len() == 4 && "BOOT"@[0] == 'B',
        "BOOT2"@.len() == 5 && "BOOT2"@[0] == 'B',
        "ELF"@.len() == 3 && "ELF"@[0] == 'E',
        "ExHiROM"@.len() == 7 && "ExHiROM"@[0] == 'E',
        "GBA cartridge header"@.len() == 20,
        "Game Gear (Export)"@.len() == 18,
        "Game Gear (International)"@.len() == 25,
        "Game Gear (Japan)"@.len() == 17,
        "GameCube"@.len() == 8 && "GameCube"@[0] == 'G',
        "HiROM"@.len() == 5 && "HiROM"@[0] == 'H',
        "LYNX"@.len() == 4 && "LYNX"@[0] == 'L',
        "LoROM"@.len() == 5 && "LoROM"@[0] == 'L',
        "Master System (Export)"@.len() == 22 && "Master System (Export)"@[0] == 'M',
        "Master System (Japan)"@.len() == 21,
        "Nintendo Game Boy logo"@.len() == 22 && "Nintendo Game Boy logo"@[0] == 'N',
        "OperaFS"@.len() == 7 && "OperaFS"@[0] == 'O',
        "PS-X EXE"@.len() == 8 && "PS-X EXE"@[0] == 'P' && "PS-X EXE"@[2] == '-',
        "PS3_GAME"@.len() == 8 && "PS3_GAME"@[0] == 'P' && "PS3_GAME"@[2] == '3',
        "PSP_GAME"@.len() == 8 && "PSP_GAME"@[0] == 'P' && "PSP_GAME"@[2] == 'P',
        "SEGA 32X      JU"@.len() == 16,
        "SEGA GENESIS"@.len() == 12 && "SEGA GENESIS"@[0] == 'S',
        "SEGA SEGAKATANA"@.len() == 15 && "SEGA SEGAKATANA"@[9] == 'K',
        "SEGA SEGAMARIO"@.len() == 14 && "SEGA SEGAMARIO"@[4] == ' ',
        "SEGA SEGASATURN"@.len() == 15 && "SEGA SEGASATURN"@[9] == 'S',
        "SEGADISCSYSTEM"@.len() == 14 && "SEGADISCSYSTEM"@[4] == 'D',
        "SELF"@.len() == 4 && "SELF"@[0] == 'S',
        "TMR SEGA"@.len() == 8 && "TMR SEGA"@[0] == 'T',
        "UMD_DATA.BIN"@.len() == 12 && "UMD_DATA.BIN"@[0] == 'U',
        "Wii"@.len() == 3 && "Wii"@[0] == 'W',
        "XBEH"@.len() == 4 && "XBEH"@[0] == 'X' && "XBEH"@[1] == 'B',
        "XDVDFS"@.len() == 6,
        "XEX2"@.len() == 4 && "XEX2"@[0] == 'X' && "XEX2"@[1] == 'E',
        "iNES"@.len() == 4 && "iNES"@[0] == 'i',
        "n64"@.len() == 3 && "n64"@[0] == 'n',
        "v64"@.len() == 3 && "v64"@[0] == 'v',
        "z64"@.len() == 3 && "z64"@[0] == 'z',
{
    reveal_strlit("32X");
    reveal_strlit("ATARI7800");
    reveal_strlit("BOOT");
    reveal_strlit("BOOT2");
    reveal_strlit("ELF");
    reveal_strlit("ExHiROM");
    reveal_strlit("GBA cartridge header");
    reveal_strlit("Game Gear (Export)");
    reveal_strlit("Game Gear (International)");
    reveal_strlit("Game Gear (Japan)");
    reveal_strlit("GameCube");
    reveal_strlit("HiROM");
    reveal_strlit("LYNX");
    reveal_strlit("LoROM");
    reveal_strlit("Master System (Export)");
    reveal_strlit("Master System (Japan)");
    reveal_strlit("Nintendo Game Boy logo");
    reveal_strlit("OperaFS");
    reveal_strlit("PS-X EXE");
    reveal_strlit("PS3_GAME");
    reveal_strlit("PSP_GAME");
    reveal_strlit("SEGA 32X      JU");
    reveal_strlit("SEGA GENESIS");
    reveal_strlit("SEGA SEGAKATANA");
    reveal_strlit("SEGA SEGAMARIO");
    reveal_strlit("SEGA SEGASATURN");
    reveal_strlit("SEGADISCSYSTEM");
    reveal_strlit("SELF");
    reveal_strlit("TMR SEGA");
    reveal_strlit("UMD_DATA.BIN");
    reveal_strlit("Wii");
    reveal_strlit("XBEH");
    reveal_strlit("XDVDFS");
    reveal_strlit("XEX2");
    reveal_strlit("iNES");
    reveal_strlit("n64");
    reveal_strlit("v64");
    reveal_strlit("z64");
}

/// A bundle in which some leg asks for another fact.
proof fn lone_fact(fact: Fact, kind: ContentEvidenceKind, value: Seq<char>,
    floor: ContentEvidenceConfidence)
    ensures
        holds(seq![fact], kind, value, floor) ==> fact.kind == kind && fact.value == value,
        fact.kind == kind && fact.value == value && fact.confidence
            == ContentEvidenceConfidence::Strong ==> holds(seq![fact], kind, value, floor),
{
    let bundle = seq![fact];
    assert(bundle[0] == fact);
    if holds(bundle, kind, value, floor) {
        let i = choose|i: int|
            0 <= i < bundle.len() && (#[trigger] bundle[i]).kind == kind && bundle[i].value
                == value && is_at_least(bundle[i].confidence, floor);
        assert(i == 0);
    }
}

proof fn lone_rules(table: Seq<RuleModel>, fact: Fact, platform: Seq<char>)
    requires
        table_obeys(table, seq![fact]),
        stands_for(fact.kind, fact.value, platform),
        fact.confidence == ContentEvidenceConfidence::Strong,
    ensures
        named_by(table, seq![fact], platform, true),
        forall|i: int|
            0 <= i < table.len() && fires(#[trigger] table[i], seq![fact]) ==> table[i].platform
                == platform,
{
    let bundle = seq![fact];
    value_marks();
    lone_fact(fact, ContentEvidenceKind::BootStructure, "SEGA SEGASATURN"@,
        ContentEvidenceConfidence::Strong);
    lone_fact(fact, ContentEvidenceKind::BootStructure, "SEGA SEGAKATANA"@,
        ContentEvidenceConfidence::Strong);
    lone_fact(fact, ContentEvidenceKind::BootStructure, "SEGA SEGAMARIO"@,
        ContentEvidenceConfidence::Strong);
    lone_fact(fact, ContentEvidenceKind::BootStructure, "OperaFS"@,
        ContentEvidenceConfidence::Strong);
    lone_fact(fact, ContentEvidenceKind::BootStructure, "SEGADISCSYSTEM"@,
        ContentEvidenceConfidence::Strong);
    lone_fact(fact, ContentEvidenceKind::Filesystem, "XDVDFS"@, ContentEvidenceConfidence::Strong);
    lone_fact(fact, ContentEvidenceKind::ContentSignature, "XBEH"@,
        ContentEvidenceConfidence::Strong);
    lone_fact(fact, ContentEvidenceKind::ContentSignature, "XEX2"@,
        ContentEvidenceConfidence::Strong);
    lone_fact(fact, ContentEvidenceKind::ContentSignature, "PS-X EXE"@,
        ContentEvidenceConfidence::Strong);
    lone_fact(fact, ContentEvidenceKind::BootStructure, "BOOT"@,
        ContentEvidenceConfidence::Corroborated);
    lone_fact(fact, ContentEvidenceKind::BootStructure, "BOOT2"@,
        ContentEvidenceConfidence::Strong);
    lone_fact(fact, ContentEvidenceKind::BootStructure, "BOOT2"@,
        ContentEvidenceConfidence::Corroborated);
    lone_fact(fact, ContentEvidenceKind::ContentSignature, "ELF"@, ContentEvidenceConfidence::Weak);
    lone_fact(fact, ContentEvidenceKind::BootStructure, "PS3_GAME"@,
        ContentEvidenceConfidence::Corroborated);
    lone_fact(fact, ContentEvidenceKind::ContentSignature, "SELF"@,
        ContentEvidenceConfidence::Strong);
    lone_fact(fact, ContentEvidenceKind::BootStructure, "UMD_DATA.BIN"@,
        ContentEvidenceConfidence::Strong);
    lone_fact(fact, ContentEvidenceKind::BootStructure, "PSP_GAME"@,
        ContentEvidenceConfidence::Corroborated);
    lone_fact(fact, ContentEvidenceKind::BootStructure, "SEGA GENESIS"@,
        ContentEvidenceConfidence::Corroborated);
    lone_fact(fact, ContentEvidenceKind::BootStructure, "SEGA 32X      JU"@,
        ContentEvidenceConfidence::Corroborated);
    lone_fact(fact, ContentEvidenceKind::ContentSignature, "32X"@, ContentEvidenceConfidence::Weak);
    lone_fact(fact, ContentEvidenceKind::BootStructure, "Nintendo Game Boy logo"@,
        ContentEvidenceConfidence::Strong);
    lone_fact(fact, ContentEvidenceKind::BootStructure, "Nintendo Game Boy logo"@,
        ContentEvidenceConfidence::Corroborated);
    lone_fact(fact, ContentEvidenceKind::BootStructure, "GBA cartridge header"@,
        ContentEvidenceConfidence::Strong);
    lone_fact(fact, ContentEvidenceKind::BootStructure, "GBA cartridge header"@,
        ContentEvidenceConfidence::Weak);
    lone_fact(fact, ContentEvidenceKind::BootStructure, "GameCube"@,
        ContentEvidenceConfidence::Strong);
    lone_fact(fact, ContentEvidenceKind::BootStructure, "Wii"@, ContentEvidenceConfidence::Strong);
    lone_fact(fact, ContentEvidenceKind::ContentSignature, "iNES"@,
        ContentEvidenceConfidence::Strong);
    lone_fact(fact, ContentEvidenceKind::ContentSignature, "LoROM"@,
        ContentEvidenceConfidence::Strong);
    lone_fact(fact, ContentEvidenceKind::ContentSignature, "HiROM"@,
        ContentEvidenceConfidence::Strong);
    lone_fact(fact, ContentEvidenceKind::ContentSignature, "ExHiROM"@,
        ContentEvidenceConfidence::Strong);
    lone_fact(fact, ContentEvidenceKind::ContentSignature, "z64"@,
        ContentEvidenceConfidence::Strong);
    lone_fact(fact, ContentEvidenceKind::ContentSignature, "v64"@,
        ContentEvidenceConfidence::Strong);
    lone_fact(fact, ContentEvidenceKind::ContentSignature, "n64"@,
        ContentEvidenceConfidence::Strong);
    lone_fact(fact, ContentEvidenceKind::BootStructure, "TMR SEGA"@,
        ContentEvidenceConfidence::Strong);
    lone_fact(fact, ContentEvidenceKind::ContentSignature, "Master System (Japan)"@,
        ContentEvidenceConfidence::Corroborated);
    lone_fact(fact, ContentEvidenceKind::ContentSignature, "Master System (Export)"@,
        ContentEvidenceConfidence::Corroborated);
    lone_fact(fact, ContentEvidenceKind::ContentSignature, "Game Gear (Japan)"@,
        ContentEvidenceConfidence::Corroborated);
    lone_fact(fact, ContentEvidenceKind::ContentSignature, "Game Gear (Export)"@,
        ContentEvidenceConfidence::Corroborated);
    lone_fact(fact, ContentEvidenceKind::ContentSignature, "Game Gear (International)"@,
        ContentEvidenceConfidence::Corroborated);
    lone_fact(fact, ContentEvidenceKind::BootStructure, "LYNX"@, ContentEvidenceConfidence::Strong);
    lone_fact(fact, ContentEvidenceKind::BootStructure, "ATARI7800"@,
        ContentEvidenceConfidence::Strong);
    assert forall|i: int| 0 <= i < 35 && fires(#[trigger] table[i], bundle)
        implies table[i].platform
        == platform by {
        rule_indices(i);
    }
    assert(fact.value == "SEGA SEGASATURN"@ ==> fires(table[0], bundle));
    assert(fact.value == "SEGA SEGAKATANA"@ ==> fires(table[1], bundle));
    assert(fact.value == "SEGA SEGAMARIO"@ ==> fires(table[2], bundle));
    assert(fact.value == "OperaFS"@ ==> fires(table[3], bundle));
    assert(fact.value == "SEGADISCSYSTEM"@ ==> fires(table[4], bundle));
    assert(fact.value == "BOOT2"@ ==> fires(table[8], bundle));
    assert(fact.value == "Nintendo Game Boy logo"@ ==> fires(table[15], bundle));
    assert(fact.value == "GBA cartridge header"@ ==> fires(table[17], bundle));
    assert(fact.value == "GameCube"@ ==> fires(table[19], bundle));
    assert(fact.value == "Wii"@ ==> fires(table[20], bundle));
    assert(fact.value == "iNES"@ ==> fires(table[21], bundle));
    assert(fact.value == "LoROM"@ ==> fires(table[22], bundle));
    assert(fact.value == "HiROM"@ ==> fires(table[23], bundle));
    assert(fact.value == "ExHiROM"@ ==> fires(table[24], bundle));
    assert(fact.value == "z64"@ ==> fires(table[25], bundle));
    assert(fact.value == "v64"@ ==> fires(table[26], bundle));
    assert(fact.value == "n64"@ ==> fires(table[27], bundle));
    assert(fact.value == "LYNX"@ ==> fires(table[33], bundle));
    assert(fact.value == "ATARI7800"@ ==> fires(table[34], bundle));
}

/// A strong fact that stands for a platform establishes it, and alone it
/// suggests no other.
pub proof fn lone_signatures_establish_their_platform(fact: Fact, platform: Seq<char>)
    requires
        stands_for(fact.kind, fact.value, platform),
        fact.confidence == ContentEvidenceConfidence::Strong,
    ensures
        is_established(seq![fact], platform),
        forall|q: Seq<char>| #[trigger] is_suggested(seq![fact], q) ==> q == platform,
{
    let bundle = seq![fact];
    the_table_obeys(bundle);
    lone_rules(rule_table(), fact, platform);
    suggestions_are_rules(bundle, platform);
    assert forall|q: Seq<char>| #[trigger] is_suggested(bundle, q) implies q == platform by {
        suggestions_are_rules(bundle, q);
    }
}

} // verus!
