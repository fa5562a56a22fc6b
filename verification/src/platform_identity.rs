//! Platform identity: statements about one file's platform from several
//! sources, and what they settle.
use vstd::prelude::*;
use vstd::string::*;
use crate::platform::{ascending, ascending_ids, is_platform, platform_by_id, strs};


verus! {

/// Where a statement comes from.
#[derive(Debug, Clone, Copy, PartialEq, Eq, Structural)]
pub enum PlatformIdentitySource {
    Manual,
    VerifiedDat,
    RomM,
    Inference,
}

/// How much a statement carries.
#[derive(Debug, Clone, Copy, PartialEq, Eq, Structural)]
pub enum PlatformIdentityConfidence {
    UserSelected,
    Verified,
    High,
    Strong,
    Inferred,
}

/// One statement about a file's platform, for one generation of the file.
#[derive(Debug, Clone, PartialEq, Eq)]
pub struct PlatformIdentityEvidence {
    pub platform: &'static str,
    pub source: PlatformIdentitySource,
    pub confidence: PlatformIdentityConfidence,
    pub generation: u64,
    pub detail: String,
}

/// The contents of a [`PlatformIdentityEvidence`].
pub struct StatementModel {
    pub platform: Seq<char>,
    pub source: PlatformIdentitySource,
    pub confidence: PlatformIdentityConfidence,
    pub generation: u64,
    pub detail: Seq<char>,
}

impl View for PlatformIdentityEvidence {
    type V = StatementModel;

    open spec fn view(&self) -> StatementModel {
        StatementModel {
            platform: self.platform@,
            source: self.source,
            confidence: self.confidence,
            generation: self.generation,
            detail: self.detail@,
        }
    }
}

/// The contents of a sequence of statements.
pub open spec fn statements(s: Seq<PlatformIdentityEvidence>) -> Seq<StatementModel> {
    s.map_values(|e: PlatformIdentityEvidence| e@)
}

/// The detail of a manual assignment.
pub const MANUAL_DETAIL: &'static str = "assigned by the user";

impl PlatformIdentityEvidence {
    /// A statement that names a registered platform; `None` for any other id.
    pub fn canonical(
        platform: &str,
        source: PlatformIdentitySource,
        confidence: PlatformIdentityConfidence,
        generation: u64,
        detail: &str,
    ) -> (r: Option<PlatformIdentityEvidence>)
        ensures
            r is Some <==> is_platform(platform@),
            r matches Some(e) ==> e@ == (StatementModel {
                platform: platform@,
                source,
                confidence,
                generation,
                detail: detail@,
            }),
    {
        match platform_by_id(platform) {
            Some(found) => Some(
                PlatformIdentityEvidence {
                    platform: found.id,
                    source,
                    confidence,
                    generation,
                    detail: detail.to_owned(),
                },
            ),
            None => None,
        }
    }

    /// A manual assignment of a registered platform; `None` for any other id.
    pub fn manual(platform: &str, generation: u64) -> (r: Option<PlatformIdentityEvidence>)
        ensures
            r is Some <==> is_platform(platform@),
            r matches Some(e) ==> e@ == (StatementModel {
                platform: platform@,
                source: PlatformIdentitySource::Manual,
                confidence: PlatformIdentityConfidence::UserSelected,
                generation,
                detail: MANUAL_DETAIL@,
            }),
    {
        PlatformIdentityEvidence::canonical(
            platform,
            PlatformIdentitySource::Manual,
            PlatformIdentityConfidence::UserSelected,
            generation,
            MANUAL_DETAIL,
        )
    }
}

/// What a pool of statements settles.
#[derive(Debug, Clone, PartialEq, Eq)]
pub enum PlatformIdentityResolution {
    Resolved { platform: &'static str, confidence: PlatformIdentityConfidence },
    Conflict { platforms: Vec<&'static str> },
    Unknown {  },
}

/// The contents of a [`PlatformIdentityResolution`].
pub enum ResolutionModel {
    Resolved(Seq<char>, PlatformIdentityConfidence),
    Conflict(Seq<Seq<char>>),
    Unknown,
}

impl View for PlatformIdentityResolution {
    type V = ResolutionModel;

    open spec fn view(&self) -> ResolutionModel {
        match *self {
            PlatformIdentityResolution::Resolved { platform, confidence } => {
                ResolutionModel::Resolved(platform@, confidence)
            },
            PlatformIdentityResolution::Conflict { platforms } => ResolutionModel::Conflict(
                strs(platforms@),
            ),
            PlatformIdentityResolution::Unknown {  } => ResolutionModel::Unknown,
        }
    }
}

impl ResolutionModel {
    /// The settled platform.
    pub open spec fn platform(self) -> Option<Seq<char>> {
        match self {
            ResolutionModel::Resolved(id, _) => Some(id),
            _ => None,
        }
    }
}

impl PlatformIdentityResolution {
    /// The settled platform, if there is one.
    pub fn platform(&self) -> (r: Option<&'static str>)
        ensures
            crate::platform::opt_id(r) == self@.platform(),
    {
        match self {
            PlatformIdentityResolution::Resolved { platform, .. } => Some(platform),
            _ => None,
        }
    }

    pub fn is_conflict(&self) -> (r: bool)
        ensures
            r == (*self is Conflict),
    {
        match self {
            PlatformIdentityResolution::Conflict { .. } => true,
            _ => false,
        }
    }
}

/// The precedence of a source: manual, then authoritative, then inferred.
pub open spec fn tier(source: PlatformIdentitySource) -> int {
    match source {
        PlatformIdentitySource::Manual => 0,
        PlatformIdentitySource::VerifiedDat => 1,
        PlatformIdentitySource::RomM => 1,
        PlatformIdentitySource::Inference => 2,
    }
}

/// The statements of one generation and tier, in order.
pub open spec fn in_tier(pool: Seq<StatementModel>, generation: u64, t: int) -> Seq<StatementModel>
    decreases pool.len(),
{
    if pool.len() == 0 {
        seq![]
    } else if pool.last().generation == generation && tier(pool.last().source) == t {
        in_tier(pool.drop_last(), generation, t).push(pool.last())
    } else {
        in_tier(pool.drop_last(), generation, t)
    }
}

/// The platforms of a sequence of statements.
pub open spec fn statement_platforms(s: Seq<StatementModel>) -> Seq<Seq<char>> {
    s.map_values(|e: StatementModel| e.platform)
}

/// What the statements of one tier settle: one platform, or a conflict.
pub open spec fn settled(s: Seq<StatementModel>) -> ResolutionModel {
    let platforms = ascending(statement_platforms(s));
    if platforms.len() == 1 {
        ResolutionModel::Resolved(platforms[0], s[0].confidence)
    } else {
        ResolutionModel::Conflict(platforms)
    }
}

/// What a pool settles for one generation: the strongest tier with any
/// statement decides alone.
pub open spec fn resolution(generation: u64, pool: Seq<StatementModel>) -> ResolutionModel {
    if in_tier(pool, generation, 0).len() > 0 {
        settled(in_tier(pool, generation, 0))
    } else if in_tier(pool, generation, 1).len() > 0 {
        settled(in_tier(pool, generation, 1))
    } else if in_tier(pool, generation, 2).len() > 0 {
        settled(in_tier(pool, generation, 2))
    } else {
        ResolutionModel::Unknown
    }
}

fn tier_of(source: PlatformIdentitySource) -> (r: u8)
    ensures
        r == tier(source),
{
    match source {
        PlatformIdentitySource::Manual => 0,
        PlatformIdentitySource::VerifiedDat => 1,
        PlatformIdentitySource::RomM => 1,
        PlatformIdentitySource::Inference => 2,
    }
}

fn settle_tier(generation: u64, pool: &Vec<PlatformIdentityEvidence>, t: u8) -> (r: Option<
    PlatformIdentityResolution,
>)
    ensures
        r is Some <==> in_tier(statements(pool@), generation, t as int).len() > 0,
        r matches Some(resolved) ==> resolved@ == settled(
            in_tier(statements(pool@), generation, t as int),
        ),
{
    let mut platforms: Vec<&'static str> = Vec::new();
    let mut confidence: Option<PlatformIdentityConfidence> = None;
    let mut i: usize = 0;
    let ghost all = statements(pool@);
    let ghost mut live = Seq::<StatementModel>::empty();
    assert(live =~= in_tier(all.take(0), generation, t as int));
    assert(strs(platforms@) =~= statement_platforms(live));
    while i < pool.len()
        invariant
            i <= pool@.len(),
            all == statements(pool@),
            live == in_tier(all.take(i as int), generation, t as int),
            strs(platforms@) == statement_platforms(live),
            live.len() > 0 ==> confidence == Some(live[0].confidence),
            live.len() == 0 ==> confidence is None,
        decreases pool.len() - i,
    {
        let item = &pool[i];
        proof {
            assert(all.take(i + 1).drop_last() =~= all.take(i as int));
            assert(all.take(i + 1).last() == item@);
        }
        if item.generation == generation && tier_of(item.source) == t {
            proof {
                let now = live.push(item@);
                assert(strs(platforms@.push(item.platform)) =~= strs(platforms@).push(
                    item.platform@,
                ));
                assert(statement_platforms(now) =~= statement_platforms(live).push(
                    item.platform@,
                ));
                live = now;
            }
            platforms.push(item.platform);
            if confidence.is_none() {
                confidence = Some(item.confidence);
            }
        }
        i = i + 1;
    }
    assert(all.take(i as int) =~= all);
    assert(statement_platforms(live).len() == live.len());
    match confidence {
        Some(first) => {
            let distinct = ascending_ids(platforms.as_slice());
            assert(strs(distinct@).len() == distinct@.len());
            if distinct.len() == 1 {
                assert(strs(distinct@)[0] == distinct@[0]@);
                Some(
                    PlatformIdentityResolution::Resolved {
                        platform: distinct[0],
                        confidence: first,
                    },
                )
            } else {
                Some(PlatformIdentityResolution::Conflict { platforms: distinct })
            }
        },
        None => None,
    }
}

/// What a pool of statements settles for one generation. Statements of other
/// generations do not count; a manual assignment decides alone, then DAT and
/// library sources, then inference; two platforms in the deciding tier are a
/// conflict.
pub fn resolve_platform_identity(
    generation: u64,
    evidence: Vec<PlatformIdentityEvidence>,
) -> (r: PlatformIdentityResolution)
    ensures
        r@ == resolution(generation, statements(evidence@)),
{
    if let Some(r) = settle_tier(generation, &evidence, 0) {
        return r;
    }
    if let Some(r) = settle_tier(generation, &evidence, 1) {
        return r;
    }
    if let Some(r) = settle_tier(generation, &evidence, 2) {
        return r;
    }
    PlatformIdentityResolution::Unknown {  }
}

} // verus!
