//! Which bytes of a file produced a DAT hash match: the bytes as stored, or a
//! reversible normalisation of them.
use sha2::Digest;
use vstd::prelude::*;
use vstd::string::*;
use crate::crc32::{big_endian, crc32, crc32_hex};
use crate::dat::audit::{AuditVerdict, KnownFileEvidence};
use crate::text::{contains_string, hex, hex_text, opt_view, views};

verus! {

/// The MD5 digest of `bytes`.
pub uninterp spec fn md5_digest(bytes: Seq<u8>) -> Seq<u8>;

/// The SHA-1 digest of `bytes`.
pub uninterp spec fn sha1_digest(bytes: Seq<u8>) -> Seq<u8>;

/// `md5::Md5::digest`: the 16-byte MD5 digest, a function of the bytes alone.
#[verifier::external_body]
fn md5_of(bytes: &[u8]) -> (r: Vec<u8>)
    ensures
        r@ == md5_digest(bytes@),
        r@.len() == 16,
{
    md5::Md5::digest(bytes).to_vec()
}

/// `sha1::Sha1::digest`: the 20-byte SHA-1 digest, a function of the bytes
/// alone.
#[verifier::external_body]
fn sha1_of(bytes: &[u8]) -> (r: Vec<u8>)
    ensures
        r@ == sha1_digest(bytes@),
        r@.len() == 20,
{
    sha1::Sha1::digest(bytes).to_vec()
}

/// The SHA-256 digest of `bytes`.
pub uninterp spec fn sha256_digest(bytes: Seq<u8>) -> Seq<u8>;

/// `sha2::Sha256::digest`: the 32-byte SHA-256 digest, a function of the bytes
/// alone.
#[verifier::external_body]
pub(crate) fn sha256_of(bytes: &[u8]) -> (r: Vec<u8>)
    ensures
        r@ == sha256_digest(bytes@),
        r@.len() == 32,
{
    sha2::Sha256::digest(bytes).to_vec()
}

/// Which bytes a hash was computed from.
#[derive(Debug, Clone, PartialEq, Eq)]
pub enum ByteRepresentation {
    /// The file's own bytes.
    Physical,
    /// The bytes after the named reversible transform.
    Normalized { transform: &'static str },
    /// The bytes of one archive member.
    ArchiveMember { member_name: String },
}

impl ByteRepresentation {
    pub fn is_physical(&self) -> (r: bool)
        ensures
            r == (*self is Physical),
    {
        match self {
            ByteRepresentation::Physical => true,
            _ => false,
        }
    }

    pub fn is_normalized(&self) -> (r: bool)
        ensures
            r == (*self is Normalized),
    {
        match self {
            ByteRepresentation::Normalized { .. } => true,
            _ => false,
        }
    }

    /// An equal representation.
    pub fn copy(&self) -> (r: ByteRepresentation)
        ensures
            r == *self,
    {
        match self {
            ByteRepresentation::Physical => ByteRepresentation::Physical,
            ByteRepresentation::Normalized { transform } => ByteRepresentation::Normalized {
                transform,
            },
            ByteRepresentation::ArchiveMember { member_name } => {
                ByteRepresentation::ArchiveMember { member_name: member_name.clone() }
            },
        }
    }
}

/// The hashes of one representation.
#[derive(Debug, Clone, PartialEq, Eq)]
pub struct RepresentationHashes {
    pub representation: ByteRepresentation,
    pub evidence: KnownFileEvidence,
}

/// `evidence` holds the size and hashes of `bytes` under the given labels.
pub open spec fn hashes_of(
    evidence: KnownFileEvidence,
    bytes: Seq<u8>,
    filepath: Seq<char>,
    filename: Seq<char>,
) -> bool {
    &&& evidence.filepath@ == filepath
    &&& evidence.filename@ == filename
    &&& evidence.size == Some(bytes.len() as u64)
    &&& opt_view(evidence.crc32) == Some(hex_text(big_endian(crc32(bytes))))
    &&& opt_view(evidence.md5) == Some(hex_text(md5_digest(bytes)))
    &&& opt_view(evidence.sha1) == Some(hex_text(sha1_digest(bytes)))
    &&& opt_view(evidence.sha256) == Some(hex_text(sha256_digest(bytes)))
}

/// Size, CRC-32, MD5, SHA-1 and SHA-256 of `bytes`, under display labels.
pub fn hash_bytes(bytes: &[u8], filepath: &str, filename: &str) -> (r: KnownFileEvidence)
    ensures
        hashes_of(r, bytes@, filepath@, filename@),
{
    let md5 = md5_of(bytes);
    let sha1 = sha1_of(bytes);
    let sha256 = sha256_of(bytes);
    KnownFileEvidence::new(filepath, filename).with_size(bytes.len() as u64).with_crc32(
        crc32_hex(bytes),
    ).with_md5(hex(md5.as_slice())).with_sha1(hex(sha1.as_slice())).with_sha256(
        hex(sha256.as_slice()),
    )
}

/// The hashes of `bytes` under `representation`.
pub fn observe_representation(
    representation: ByteRepresentation,
    bytes: &[u8],
    filepath: &str,
    filename: &str,
) -> (r: RepresentationHashes)
    ensures
        r.representation == representation,
        hashes_of(r.evidence, bytes@, filepath@, filename@),
{
    RepresentationHashes { representation, evidence: hash_bytes(bytes, filepath, filename) }
}

/// The transform of N64 images to big-endian byte order.
pub const N64_BYTE_ORDER_TRANSFORM_ID: &'static str = "n64_byte_order";

/// The transform of interleaved Mega Drive images to plain ones.
pub const SMD_DEINTERLEAVE_TRANSFORM_ID: &'static str = "smd_deinterleave";

/// What a header-stripping normaliser made of an image.
#[derive(Debug, Clone, PartialEq, Eq)]
pub struct StrippedImage {
    pub bytes: Vec<u8>,
    pub transform_id: &'static str,
}

/// `r` holds the hashes of `normalized` under `transform`, and whether those
/// bytes are the physical ones.
pub open spec fn observes_normalized(
    r: (RepresentationHashes, bool),
    physical: Seq<u8>,
    normalized: Seq<u8>,
    transform: Seq<char>,
    filepath: Seq<char>,
    filename: Seq<char>,
) -> bool {
    &&& r.0.representation matches ByteRepresentation::Normalized { transform: t }
        && t@ == transform
    &&& hashes_of(r.0.evidence, normalized, filepath, filename)
    &&& r.1 == (physical == normalized)
}

fn bytes_identical(a: &[u8], b: &[u8]) -> (r: bool)
    ensures
        r == (a@ == b@),
{
    if a.len() != b.len() {
        return false;
    }
    let mut i: usize = 0;
    while i < a.len()
        invariant
            i <= a@.len(),
            a@.len() == b@.len(),
            forall|j: int| 0 <= j < i ==> a@[j] == b@[j],
        decreases a.len() - i,
    {
        if a[i] != b[i] {
            return false;
        }
        i = i + 1;
    }
    assert(a@ =~= b@);
    true
}

fn observe_normalized(
    bytes: &[u8],
    normalized: &Vec<u8>,
    transform: &'static str,
    filepath: &str,
    filename: &str,
) -> (r: (RepresentationHashes, bool))
    ensures
        observes_normalized(r, bytes@, normalized@, transform@, filepath@, filename@),
{
    let identical = bytes_identical(bytes, normalized.as_slice());
    (
        observe_representation(
            ByteRepresentation::Normalized { transform },
            normalized.as_slice(),
            filepath,
            filename,
        ),
        identical,
    )
}

/// The normalised representation of an N64 image.
///
/// `normalized` is the image in big-endian byte order, `None` when the bytes
/// are not an N64 image; it is hashed even when it equals the physical bytes.
pub fn normalized_n64_representation(
    bytes: &[u8],
    normalized: Option<&Vec<u8>>,
    filepath: &str,
    filename: &str,
) -> (r: Option<(RepresentationHashes, bool)>)
    ensures
        r is Some <==> normalized is Some,
        r matches Some(h) ==> observes_normalized(
            h,
            bytes@,
            normalized->0@,
            N64_BYTE_ORDER_TRANSFORM_ID@,
            filepath@,
            filename@,
        ),
{
    match normalized {
        Some(n) => Some(
            observe_normalized(bytes, n, N64_BYTE_ORDER_TRANSFORM_ID, filepath, filename),
        ),
        None => None,
    }
}

/// The headerless representation of a cartridge image.
///
/// `stripped` is the image without its known header, `None` when no header was
/// recognised or it could not be removed.
pub fn normalized_header_stripped_representation(
    bytes: &[u8],
    stripped: Option<&StrippedImage>,
    filepath: &str,
    filename: &str,
) -> (r: Option<(RepresentationHashes, bool)>)
    ensures
        r is Some <==> stripped is Some,
        r matches Some(h) ==> observes_normalized(
            h,
            bytes@,
            stripped->0.bytes@,
            stripped->0.transform_id@,
            filepath@,
            filename@,
        ),
{
    match stripped {
        Some(s) => Some(
            observe_normalized(bytes, &s.bytes, s.transform_id, filepath, filename),
        ),
        None => None,
    }
}

/// The de-interleaved representation of a Mega Drive copier image.
///
/// `normalized` is the plain image, `None` when the bytes are not an
/// interleaved image.
pub fn normalized_smd_representation(
    bytes: &[u8],
    normalized: Option<&Vec<u8>>,
    filepath: &str,
    filename: &str,
) -> (r: Option<(RepresentationHashes, bool)>)
    ensures
        r is Some <==> normalized is Some,
        r matches Some(h) ==> observes_normalized(
            h,
            bytes@,
            normalized->0@,
            SMD_DEINTERLEAVE_TRANSFORM_ID@,
            filepath@,
            filename@,
        ),
{
    match normalized {
        Some(n) => Some(
            observe_normalized(bytes, n, SMD_DEINTERLEAVE_TRANSFORM_ID, filepath, filename),
        ),
        None => None,
    }
}

/// Pairs the representation of `hashes` with the verdict that looking those
/// hashes up in a DAT gave.
pub fn audit_representation(hashes: &RepresentationHashes, verdict: AuditVerdict) -> (r: (
    ByteRepresentation,
    AuditVerdict,
))
    ensures
        r == (hashes.representation, verdict),
{
    (hashes.representation.copy(), verdict)
}

/// How the audits of the two representations relate.
#[derive(Debug, Clone, PartialEq, Eq)]
pub enum RepresentationMatchOutcome {
    /// Only the physical bytes matched confidently.
    PhysicalOnly { verdict: AuditVerdict },
    /// Only the normalised bytes matched confidently.
    NormalizedOnly { verdict: AuditVerdict },
    /// Both matched the same release; `identical_bytes` tells one proof from
    /// two.
    BothAgree { verdict: AuditVerdict, identical_bytes: bool },
    /// Both matched, and name different releases.
    Disagree { physical_verdict: AuditVerdict, normalized_verdict: AuditVerdict },
    /// Neither matched confidently.
    NoMatch,
}

impl RepresentationMatchOutcome {
    pub fn is_confident(&self) -> (r: bool)
        ensures
            r == !(*self is NoMatch),
    {
        match self {
            RepresentationMatchOutcome::NoMatch => false,
            _ => true,
        }
    }

    pub fn is_conflict(&self) -> (r: bool)
        ensures
            r == (*self is Disagree),
    {
        match self {
            RepresentationMatchOutcome::Disagree { .. } => true,
            _ => false,
        }
    }
}

/// Some release is named by both verdicts.
pub open spec fn names_same_game(a: AuditVerdict, b: AuditVerdict) -> bool {
    exists|i: int|
        0 <= i < a.game_names().len() && b.game_names().contains(#[trigger] a.game_names()[i])
}

/// How two audits relate. Only confident verdicts take part, and neither
/// representation is ever preferred over the other.
pub open spec fn representation_outcome(
    physical: AuditVerdict,
    normalized: Option<AuditVerdict>,
    identical_bytes: bool,
) -> RepresentationMatchOutcome {
    let n_confident = match normalized {
        Some(n) => n.confident(),
        None => false,
    };
    if physical.confident() && n_confident {
        if names_same_game(physical, normalized->0) {
            RepresentationMatchOutcome::BothAgree { verdict: physical, identical_bytes }
        } else {
            RepresentationMatchOutcome::Disagree {
                physical_verdict: physical,
                normalized_verdict: normalized->0,
            }
        }
    } else if physical.confident() {
        RepresentationMatchOutcome::PhysicalOnly { verdict: physical }
    } else if n_confident {
        RepresentationMatchOutcome::NormalizedOnly { verdict: normalized->0 }
    } else {
        RepresentationMatchOutcome::NoMatch
    }
}

fn verdict_game_names(verdict: &AuditVerdict) -> (r: Vec<String>)
    ensures
        views(r@) == verdict.game_names(),
{
    match verdict {
        AuditVerdict::Exact { game_name, .. } => {
            let mut r: Vec<String> = Vec::new();
            r.push(game_name.clone());
            assert(views(r@) =~= seq![game_name@]);
            r
        },
        AuditVerdict::ExactMultipleCandidates { game_names, .. } => crate::text::copy_strings(
            game_names,
        ),
        _ => {
            let r: Vec<String> = Vec::new();
            assert(views(r@) =~= seq![]);
            r
        },
    }
}

fn verdict_names_same_game(left: &AuditVerdict, right: &AuditVerdict) -> (r: bool)
    ensures
        r == names_same_game(*left, *right),
{
    let l = verdict_game_names(left);
    let rr = verdict_game_names(right);
    let mut i: usize = 0;
    while i < l.len()
        invariant
            i <= l@.len(),
            views(l@) == left.game_names(),
            views(rr@) == right.game_names(),
            forall|j: int|
                0 <= j < i ==> !right.game_names().contains(#[trigger] left.game_names()[j]),
        decreases l.len() - i,
    {
        assert(left.game_names()[i as int] == l@[i as int]@);
        if contains_string(&rr, l[i].as_str()) {
            return true;
        }
        i = i + 1;
    }
    assert(views(l@).len() == l@.len());
    false
}

/// Combines the audit of the physical bytes with that of the normalised ones,
/// if there are any.
pub fn compare_representations(
    physical_verdict: AuditVerdict,
    normalized: Option<AuditVerdict>,
    identical_bytes: bool,
) -> (r: RepresentationMatchOutcome)
    ensures
        r == representation_outcome(physical_verdict, normalized, identical_bytes),
{
    let physical_confident = physical_verdict.is_confident();
    match normalized {
        None => if physical_confident {
            RepresentationMatchOutcome::PhysicalOnly { verdict: physical_verdict }
        } else {
            RepresentationMatchOutcome::NoMatch
        },
        Some(normalized_verdict) => {
            let normalized_confident = normalized_verdict.is_confident();
            if physical_confident && normalized_confident {
                if verdict_names_same_game(&physical_verdict, &normalized_verdict) {
                    RepresentationMatchOutcome::BothAgree {
                        verdict: physical_verdict,
                        identical_bytes,
                    }
                } else {
                    RepresentationMatchOutcome::Disagree { physical_verdict, normalized_verdict }
                }
            } else if physical_confident {
                RepresentationMatchOutcome::PhysicalOnly { verdict: physical_verdict }
            } else if normalized_confident {
                RepresentationMatchOutcome::NormalizedOnly { verdict: normalized_verdict }
            } else {
                RepresentationMatchOutcome::NoMatch
            }
        },
    }
}

/// Two confident verdicts that name no release in common are always a
/// disagreement that keeps both; neither side is preferred.
pub proof fn confident_disagreement_is_never_settled(
    physical: AuditVerdict,
    normalized: AuditVerdict,
    identical_bytes: bool,
)
    requires
        physical.confident(),
        normalized.confident(),
        !names_same_game(physical, normalized),
    ensures
        representation_outcome(physical, Some(normalized), identical_bytes)
            == (RepresentationMatchOutcome::Disagree {
            physical_verdict: physical,
            normalized_verdict: normalized,
        }),
{
}

/// A verdict that rests on a checksum alone never makes a match.
pub proof fn only_confident_verdicts_match(
    physical: AuditVerdict,
    normalized: Option<AuditVerdict>,
    identical_bytes: bool,
)
    ensures
        representation_outcome(physical, normalized, identical_bytes) is NoMatch
            <==> !physical.confident() && (normalized matches Some(n) ==> !n.confident()),
        representation_outcome(physical, normalized, identical_bytes) is Disagree ==> (
        normalized matches Some(n) && physical.confident() && n.confident() && !names_same_game(
            physical,
            n,
        )),
{
}

} // verus!
