//! PlayStation boot evidence: the `BOOT=`/`BOOT2=` line of a `SYSTEM.CNF` and
//! the magic of a PS-X executable.
//!
//! Everything here reports what was found, never a platform. A `SYSTEM.CNF`
//! that is too large is not read; a boot target that cannot be normalised
//! safely is kept as raw text and yields neither a path nor a serial.
use vstd::prelude::*;
use vstd::string::*;
use vstd::utf8::encode_utf8;
use crate::bytes::{
    ascii_space, find_byte, is_byte, lossy_text, lower_bytes, same_ignoring_case, slices,
    split_byte, starts_with_bytes, starts_with_ignoring_case, text_from_utf8_lossy, trim_ascii,
};
use crate::content_detector::{ContentDetectionOutcome, ContentDiagnostic};
use crate::content_evidence::{
    facts, ContentEvidence, ContentEvidenceConfidence, ContentEvidenceKind, Fact,
};
use crate::game_identity::{serial_from_boot_path, serial_of, MAX_SYSTEM_CNF_BYTES};
use crate::seqs::{first_index, has_prefix, pieces, pieces_step, skip_front, skip_front_run, trim_where};
use crate::text::{decimal, decimal_text, opt_view};

verus! {

/// The fixed size of a PS-X executable header: one CD-ROM sector.
pub const PSX_EXECUTABLE_HEADER_BYTES: usize = 2048;

/// The longest boot path that is accepted.
pub const MAX_BOOT_PATH_BYTES: usize = 512;

/// `PS-X EXE`, the first eight bytes of a PS-X executable.
pub open spec fn psx_exe_magic() -> Seq<u8> {
    seq![0x50u8, 0x53u8, 0x2du8, 0x58u8, 0x20u8, 0x45u8, 0x58u8, 0x45u8]
}

/// What one `SYSTEM.CNF` boot line directly states.
#[derive(Debug, Clone, PartialEq, Eq)]
pub struct SystemCnfBootFact {
    /// `"BOOT"` or `"BOOT2"`, whichever key was found.
    pub boot_key: &'static str,
    /// The trimmed text after `=`.
    pub raw_value: String,
    /// `raw_value` without its `cdrom:`/`cdrom0:` prefix, leading separators
    /// and `;version` suffix; `None` if it cannot be normalised safely.
    pub executable_path: Option<String>,
    /// The serial that `executable_path` names, if it has the serial shape.
    pub serial_candidate: Option<String>,
}

/// The boot key a `SYSTEM.CNF` key stands for, whatever the case of its
/// letters.
pub open spec fn boot_key_of(key: Seq<u8>) -> Option<Seq<char>> {
    if lower_bytes(key) == seq![0x62u8, 0x6fu8, 0x6fu8, 0x74u8] {
        Some("BOOT"@)
    } else if lower_bytes(key) == seq![0x62u8, 0x6fu8, 0x6fu8, 0x74u8, 0x32u8] {
        Some("BOOT2"@)
    } else {
        None
    }
}

/// The boot key and value that one line assigns, if it is a boot line.
pub open spec fn boot_assignment(line: Seq<u8>) -> Option<(Seq<char>, Seq<u8>)> {
    let l = trim_where(line, ascii_space());
    let equals = first_index(l, is_byte(0x3d));
    if 0 <= equals < l.len() {
        match boot_key_of(trim_where(l.take(equals), ascii_space())) {
            Some(key) => Some((key, trim_where(l.skip(equals + 1), ascii_space()))),
            None => None,
        }
    } else {
        None
    }
}

/// The first boot assignment among `lines`.
pub open spec fn first_assignment(lines: Seq<Seq<u8>>) -> Option<(Seq<char>, Seq<u8>)>
    decreases lines.len(),
{
    if lines.len() == 0 {
        None
    } else if boot_assignment(lines[0]) is Some {
        boot_assignment(lines[0])
    } else {
        first_assignment(lines.drop_first())
    }
}

/// The boot assignment a `SYSTEM.CNF` makes: its first one, if the file is
/// within the size bound.
pub open spec fn system_cnf_assignment(bytes: Seq<u8>) -> Option<(Seq<char>, Seq<u8>)> {
    if bytes.len() > MAX_SYSTEM_CNF_BYTES {
        None
    } else {
        first_assignment(pieces(bytes, is_byte(0x0a)))
    }
}

/// The test for a path separator, `/` or `\`.
pub open spec fn separator() -> spec_fn(u8) -> bool {
    |b: u8| b == 0x2f || b == 0x5c
}

/// The length of a `cdrom0:` or `cdrom:` prefix, in any case; 0 if there is
/// neither.
pub open spec fn device_prefix_len(value: Seq<u8>) -> int {
    if has_prefix(
        lower_bytes(value),
        lower_bytes(seq![0x63u8, 0x64u8, 0x72u8, 0x6fu8, 0x6du8, 0x30u8, 0x3au8]),
    ) {
        7
    } else if has_prefix(
        lower_bytes(value),
        lower_bytes(seq![0x63u8, 0x64u8, 0x72u8, 0x6fu8, 0x6du8, 0x3au8]),
    ) {
        6
    } else {
        0
    }
}

/// An empty path component, or one of the traversal segments `.` and `..`.
pub open spec fn is_unsafe_component(c: Seq<u8>) -> bool {
    c == Seq::<u8>::empty() || c == seq![0x2eu8] || c == seq![0x2eu8, 0x2eu8]
}

/// The path left of a boot value once prefix, leading separators and version
/// suffix are gone.
pub open spec fn bare_path(value: Seq<u8>) -> Seq<u8> {
    let path = skip_front(value.skip(device_prefix_len(value)), separator());
    path.take(first_index(path, is_byte(0x3b)))
}

/// The normalised boot path: `None` without a device prefix, for an empty or
/// over-long path, and for one with an unsafe component.
pub open spec fn boot_target(value: Seq<u8>) -> Option<Seq<u8>> {
    let path = bare_path(value);
    if device_prefix_len(value) == 0 || path.len() == 0 || path.len() > MAX_BOOT_PATH_BYTES || (
    exists|i: int|
        0 <= i < pieces(path, separator()).len() && is_unsafe_component(
            #[trigger] pieces(path, separator())[i],
        )) {
        None
    } else {
        Some(path)
    }
}

/// `fact` states the assignment of `value` to `key`.
pub open spec fn states_assignment(fact: SystemCnfBootFact, key: Seq<char>, value: Seq<u8>) -> bool {
    &&& fact.boot_key@ == key
    &&& fact.raw_value@ == lossy_text(value)
    &&& opt_view(fact.executable_path) == match boot_target(value) {
        Some(path) => Some(lossy_text(path)),
        None => None,
    }
    &&& opt_view(fact.serial_candidate) == match boot_target(value) {
        Some(path) => serial_of(encode_utf8(lossy_text(path))),
        None => None,
    }
}

/// Reads the boot line of a `SYSTEM.CNF`.
///
/// `None` exactly when the file is over the size bound or has no
/// `BOOT=`/`BOOT2=` line; otherwise what the first such line states.
pub fn parse_system_cnf_boot(bytes: &[u8]) -> (r: Option<SystemCnfBootFact>)
    ensures
        r is Some <==> system_cnf_assignment(bytes@) is Some,
        r matches Some(fact) ==> states_assignment(
            fact,
            (system_cnf_assignment(bytes@)->0).0,
            (system_cnf_assignment(bytes@)->0).1,
        ),
{
    if bytes.len() as u64 > MAX_SYSTEM_CNF_BYTES {
        return None;
    }
    let lines = split_byte(bytes, 0x0a);
    let ghost all = pieces(bytes@, is_byte(0x0a));
    assert(all.skip(0) =~= all);
    let mut i: usize = 0;
    while i < lines.len()
        invariant
            i <= lines@.len(),
            slices(lines@) == all,
            all == pieces(bytes@, is_byte(0x0a)),
            bytes@.len() <= MAX_SYSTEM_CNF_BYTES,
            first_assignment(all) == first_assignment(all.skip(i as int)),
        decreases lines.len() - i,
    {
        assert(all.skip(i as int)[0] == lines@[i as int]@);
        assert(all.skip(i as int).drop_first() =~= all.skip(i + 1));
        if let Some((boot_key, value)) = read_assignment(lines[i]) {
            let raw_value = text_from_utf8_lossy(value);
            let executable_path = normalize_boot_target(value);
            let serial_candidate = match &executable_path {
                Some(path) => serial_from_boot_path(path.as_str().as_bytes()),
                None => None,
            };
            return Some(
                SystemCnfBootFact { boot_key, raw_value, executable_path, serial_candidate },
            );
        }
        i = i + 1;
    }
    None
}

fn read_assignment<'a>(line: &'a [u8]) -> (r: Option<(&'static str, &'a [u8])>)
    ensures
        r is Some <==> boot_assignment(line@) is Some,
        r matches Some((key, value)) ==> boot_assignment(line@) == Some((key@, value@)),
{
    let l = trim_ascii(line);
    let equals: usize = find_byte(l, 0x3d);
    if equals == l.len() {
        return None;
    }
    let key = trim_ascii(&l[0..equals]);
    let value = trim_ascii(&l[equals + 1..l.len()]);
    proof {
        assert(l@.take(equals as int) =~= l@.subrange(0, equals as int));
        assert(l@.skip(equals + 1) =~= l@.subrange(equals + 1, l@.len() as int));
    }
    let boot: Vec<u8> = vec![0x62, 0x6f, 0x6f, 0x74];
    let boot2: Vec<u8> = vec![0x62, 0x6f, 0x6f, 0x74, 0x32];
    assert(lower_bytes(boot@) =~= seq![0x62u8, 0x6fu8, 0x6fu8, 0x74u8]);
    assert(lower_bytes(boot2@) =~= seq![0x62u8, 0x6fu8, 0x6fu8, 0x74u8, 0x32u8]);
    if same_ignoring_case(key, boot.as_slice()) {
        Some(("BOOT", value))
    } else if same_ignoring_case(key, boot2.as_slice()) {
        Some(("BOOT2", value))
    } else {
        None
    }
}

fn normalize_boot_target(value: &[u8]) -> (r: Option<String>)
    ensures
        opt_view(r) == match boot_target(value@) {
            Some(path) => Some(lossy_text(path)),
            None => None,
        },
{
    let cdrom0: Vec<u8> = vec![0x63, 0x64, 0x72, 0x6f, 0x6d, 0x30, 0x3a];
    let cdrom: Vec<u8> = vec![0x63, 0x64, 0x72, 0x6f, 0x6d, 0x3a];
    assert(cdrom0@ =~= seq![0x63u8, 0x64u8, 0x72u8, 0x6fu8, 0x6du8, 0x30u8, 0x3au8]);
    assert(cdrom@ =~= seq![0x63u8, 0x64u8, 0x72u8, 0x6fu8, 0x6du8, 0x3au8]);
    let prefix_len: usize = if starts_with_ignoring_case(value, cdrom0.as_slice()) {
        7
    } else if starts_with_ignoring_case(value, cdrom.as_slice()) {
        6
    } else {
        return None;
    };
    let rest = &value[prefix_len..value.len()];
    assert(value@.skip(prefix_len as int) =~= rest@);
    let mut from: usize = 0;
    while from < rest.len() && (rest[from] == 0x2f || rest[from] == 0x5c)
        invariant
            from <= rest@.len(),
            forall|i: int| 0 <= i < from ==> separator()(#[trigger] rest@[i]),
        decreases rest.len() - from,
    {
        from = from + 1;
    }
    let path = &rest[from..rest.len()];
    proof {
        skip_front_run(rest@, separator(), from as int);
        assert(rest@.skip(from as int) =~= path@);
    }
    let version: usize = find_byte(path, 0x3b);
    let bare = &path[0..version];
    assert(path@.take(version as int) =~= bare@);
    if bare.len() == 0 || bare.len() > MAX_BOOT_PATH_BYTES {
        return None;
    }
    if has_unsafe_component(bare) {
        return None;
    }
    Some(text_from_utf8_lossy(bare))
}

fn has_unsafe_component(path: &[u8]) -> (r: bool)
    ensures
        r == (exists|i: int|
            0 <= i < pieces(path@, separator()).len() && is_unsafe_component(
                #[trigger] pieces(path@, separator())[i],
            )),
{
    let ghost all = pieces(path@, separator());
    let ghost mut done = Seq::<Seq<u8>>::empty();
    let mut start: usize = 0;
    let mut i: usize = 0;
    assert(path@.skip(0) =~= path@);
    assert(done + all =~= all);
    while i < path.len()
        invariant
            start <= i <= path@.len(),
            all == pieces(path@, separator()),
            forall|j: int| start <= j < i ==> !separator()(#[trigger] path@[j]),
            done + pieces(path@.skip(start as int), separator()) == all,
            forall|j: int| 0 <= j < done.len() ==> !is_unsafe_component(#[trigger] done[j]),
        decreases path.len() - i,
    {
        if path[i] == 0x2f || path[i] == 0x5c {
            let piece = &path[start..i];
            proof {
                let rest = path@.skip(start as int);
                assert forall|j: int| 0 <= j < i - start implies !separator()(
                    #[trigger] rest[j],
                ) by {
                    assert(rest[j] == path@[start + j]);
                }
                pieces_step(rest, separator(), i - start);
                assert(rest.take(i - start) =~= piece@);
                assert(rest.skip(i - start + 1) =~= path@.skip(i + 1));
                let tail = pieces(path@.skip(i + 1), separator());
                assert(done + (seq![piece@] + tail) =~= done.push(piece@) + tail);
                assert(all[done.len() as int] == piece@);
                done = done.push(piece@);
            }
            if unsafe_component(piece) {
                return true;
            }
            start = i + 1;
        }
        i = i + 1;
    }
    let last = &path[start..path.len()];
    proof {
        let rest = path@.skip(start as int);
        assert forall|j: int| 0 <= j < rest.len() implies !separator()(#[trigger] rest[j]) by {
            assert(rest[j] == path@[start + j]);
        }
        pieces_step(rest, separator(), rest.len() as int);
        assert(rest =~= last@);
        assert(all =~= done.push(last@));
        assert(all[done.len() as int] == last@);
    }
    unsafe_component(last)
}

fn unsafe_component(c: &[u8]) -> (r: bool)
    ensures
        r == is_unsafe_component(c@),
{
    if c.len() == 0 {
        assert(c@ =~= Seq::<u8>::empty());
        true
    } else if c.len() == 1 && c[0] == 0x2e {
        assert(c@ =~= seq![0x2eu8]);
        true
    } else if c.len() == 2 && c[0] == 0x2e && c[1] == 0x2e {
        assert(c@ =~= seq![0x2eu8, 0x2eu8]);
        true
    } else {
        proof {
            if c@ == seq![0x2eu8] {
                assert(c@[0] == 0x2e);
            }
            if c@ == seq![0x2eu8, 0x2eu8] {
                assert(c@[0] == 0x2e && c@[1] == 0x2e);
            }
        }
        false
    }
}

/// Whether `header` begins with the PS-X executable magic.
pub fn looks_like_psx_exe(header: &[u8]) -> (r: bool)
    ensures
        r == has_prefix(header@, psx_exe_magic()),
{
    let magic: Vec<u8> = vec![0x50, 0x53, 0x2d, 0x58, 0x20, 0x45, 0x58, 0x45];
    assert(magic@ =~= psx_exe_magic());
    starts_with_bytes(header, magic.as_slice())
}

/// The caveat carried by every serial read out of a `SYSTEM.CNF`.
pub const SERIAL_DETAIL: &'static str = "candidate serial parsed from the SYSTEM.CNF boot executable filename - not verified against a canonical release list, and not proof of any one platform";

/// The boot-key fact for a parsed boot line.
pub open spec fn boot_key_fact(fact: SystemCnfBootFact) -> Fact {
    Fact {
        kind: ContentEvidenceKind::BootStructure,
        value: fact.boot_key@,
        confidence: ContentEvidenceConfidence::Corroborated,
        detail: "SYSTEM.CNF declares "@ + fact.boot_key@ + "="@ + fact.raw_value@,
    }
}

/// The facts a parsed boot line gives: its key, and its serial if it has one.
pub open spec fn system_cnf_facts(fact: SystemCnfBootFact) -> Seq<Fact> {
    match fact.serial_candidate {
        Some(serial) => seq![
            boot_key_fact(fact),
            Fact {
                kind: ContentEvidenceKind::ProductCode,
                value: serial@,
                confidence: ContentEvidenceConfidence::Corroborated,
                detail: SERIAL_DETAIL@,
            },
        ],
        None => seq![boot_key_fact(fact)],
    }
}

/// Turns a parsed boot line into neutral evidence.
///
/// The key is `Corroborated` boot structure; a serial, where one was read, is
/// a `Corroborated` product code.
pub fn observe_system_cnf_evidence(fact: &SystemCnfBootFact) -> (r: Vec<ContentEvidence>)
    ensures
        facts(r@) == system_cnf_facts(*fact),
{
    let mut detail = "SYSTEM.CNF declares ".to_owned();
    detail.append(fact.boot_key);
    detail.append("=");
    detail.append(fact.raw_value.as_str());
    let mut evidence: Vec<ContentEvidence> = Vec::new();
    evidence.push(
        ContentEvidence::new(
            ContentEvidenceKind::BootStructure,
            fact.boot_key,
            ContentEvidenceConfidence::Corroborated,
            detail.as_str(),
        ),
    );
    if let Some(serial) = &fact.serial_candidate {
        evidence.push(
            ContentEvidence::new(
                ContentEvidenceKind::ProductCode,
                serial.as_str(),
                ContentEvidenceConfidence::Corroborated,
                SERIAL_DETAIL,
            ),
        );
    }
    assert(facts(evidence@) =~= system_cnf_facts(*fact));
    evidence
}

/// Detects a boot line in the bytes of a `SYSTEM.CNF`.
pub struct SystemCnfDetector;

impl SystemCnfDetector {
    pub fn id(&self) -> (r: &'static str)
        ensures
            r@ == "system_cnf_boot"@,
    {
        "system_cnf_boot"
    }

    /// Over the size bound the input is malformed; otherwise it is recognised
    /// exactly when it has a boot line, with that line's evidence.
    pub fn detect(&self, data: &[u8]) -> (r: ContentDetectionOutcome)
        ensures
            match r {
                ContentDetectionOutcome::Malformed { evidence, diagnostic } => {
                    &&& data@.len() > MAX_SYSTEM_CNF_BYTES
                    &&& evidence@.len() == 0
                    &&& diagnostic.detector_id@ == "system_cnf_boot"@
                    &&& diagnostic.category@ == "system_cnf_too_large"@
                    &&& diagnostic.message@ == "SYSTEM.CNF is "@ + decimal(data@.len())
                        + " bytes, exceeding the "@ + decimal(MAX_SYSTEM_CNF_BYTES as nat)
                        + "-byte bound"@
                },
                ContentDetectionOutcome::Recognized { evidence } => {
                    &&& system_cnf_assignment(data@) is Some
                    &&& exists|fact: SystemCnfBootFact|
                        #![trigger system_cnf_facts(fact)]
                        states_assignment(
                            fact,
                            (system_cnf_assignment(data@)->0).0,
                            (system_cnf_assignment(data@)->0).1,
                        ) && facts(evidence@) == system_cnf_facts(fact)
                },
                ContentDetectionOutcome::NotRecognized => {
                    &&& data@.len() <= MAX_SYSTEM_CNF_BYTES
                    &&& system_cnf_assignment(data@) is None
                },
            },
    {
        if data.len() as u64 > MAX_SYSTEM_CNF_BYTES {
            let mut message = "SYSTEM.CNF is ".to_owned();
            message.append(decimal_text(data.len() as u64).as_str());
            message.append(" bytes, exceeding the ");
            message.append(decimal_text(MAX_SYSTEM_CNF_BYTES).as_str());
            message.append("-byte bound");
            return ContentDetectionOutcome::Malformed {
                evidence: Vec::new(),
                diagnostic: ContentDiagnostic {
                    detector_id: "system_cnf_boot",
                    category: "system_cnf_too_large",
                    message,
                },
            };
        }
        match parse_system_cnf_boot(data) {
            Some(fact) => ContentDetectionOutcome::Recognized {
                evidence: observe_system_cnf_evidence(&fact),
            },
            None => ContentDetectionOutcome::NotRecognized,
        }
    }
}

/// Detects the PS-X executable magic in a bounded header.
pub struct PsxExeDetector;

impl PsxExeDetector {
    pub fn id(&self) -> (r: &'static str)
        ensures
            r@ == "psx_exe_magic"@,
    {
        "psx_exe_magic"
    }

    pub fn detect(&self, data: &[u8]) -> (r: ContentDetectionOutcome)
        ensures
            match r {
                ContentDetectionOutcome::Recognized { evidence } => {
                    &&& has_prefix(data@, psx_exe_magic())
                    &&& facts(evidence@) == seq![
                        Fact {
                            kind: ContentEvidenceKind::ContentSignature,
                            value: "PS-X EXE"@,
                            confidence: ContentEvidenceConfidence::Strong,
                            detail: "PS-X EXE magic present at the start of the boot executable"@,
                        },
                    ]
                },
                ContentDetectionOutcome::NotRecognized => !has_prefix(data@, psx_exe_magic()),
                ContentDetectionOutcome::Malformed { .. } => false,
            },
    {
        if !looks_like_psx_exe(data) {
            return ContentDetectionOutcome::NotRecognized;
        }
        let mut evidence: Vec<ContentEvidence> = Vec::new();
        evidence.push(
            ContentEvidence::new(
                ContentEvidenceKind::ContentSignature,
                "PS-X EXE",
                ContentEvidenceConfidence::Strong,
                "PS-X EXE magic present at the start of the boot executable",
            ),
        );
        assert(facts(evidence@) =~= seq![evidence@[0]@]);
        ContentDetectionOutcome::Recognized { evidence }
    }
}

/// A boot path is never empty or over-long and never has an empty or traversal
/// component; without one there is no serial.
pub proof fn boot_paths_are_safe(fact: SystemCnfBootFact, key: Seq<char>, value: Seq<u8>)
    requires
        states_assignment(fact, key, value),
    ensures
        match boot_target(value) {
            Some(path) => {
                &&& 0 < path.len() <= MAX_BOOT_PATH_BYTES
                &&& forall|i: int|
                    0 <= i < pieces(path, separator()).len() ==> !is_unsafe_component(
                        #[trigger] pieces(path, separator())[i],
                    )
            },
            None => true,
        },
        fact.executable_path is None ==> fact.serial_candidate is None,
{
}

} // verus!
