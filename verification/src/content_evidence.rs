//! Neutral observations about a file's content, before any platform decision.
use vstd::prelude::*;

verus! {

/// What kind of fact was observed.
#[derive(Debug, Clone, Copy, PartialEq, Eq, Structural)]
pub enum ContentEvidenceKind {
    BootStructure,
    ProductCode,
    ContentSignature,
    Filesystem,
    Container,
}

impl ContentEvidenceKind {
    /// The variant's name.
    pub open spec fn name_text(self) -> Seq<char> {
        match self {
            ContentEvidenceKind::BootStructure => "BootStructure"@,
            ContentEvidenceKind::ProductCode => "ProductCode"@,
            ContentEvidenceKind::ContentSignature => "ContentSignature"@,
            ContentEvidenceKind::Filesystem => "Filesystem"@,
            ContentEvidenceKind::Container => "Container"@,
        }
    }

    pub fn name(self) -> (r: &'static str)
        ensures
            r@ == self.name_text(),
    {
        match self {
            ContentEvidenceKind::BootStructure => "BootStructure",
            ContentEvidenceKind::ProductCode => "ProductCode",
            ContentEvidenceKind::ContentSignature => "ContentSignature",
            ContentEvidenceKind::Filesystem => "Filesystem",
            ContentEvidenceKind::Container => "Container",
        }
    }
}

/// How much an observation carries, weakest first.
#[derive(Debug, Clone, Copy, PartialEq, Eq, Structural)]
pub enum ContentEvidenceConfidence {
    Weak,
    Corroborated,
    Strong,
}

impl ContentEvidenceConfidence {
    /// The position in the order Weak, Corroborated, Strong.
    pub open spec fn rank(self) -> int {
        match self {
            ContentEvidenceConfidence::Weak => 0,
            ContentEvidenceConfidence::Corroborated => 1,
            ContentEvidenceConfidence::Strong => 2,
        }
    }

    /// Whether `self` is at least as strong as `floor`.
    pub fn at_least(self, floor: ContentEvidenceConfidence) -> (r: bool)
        ensures
            r == (self.rank() >= floor.rank()),
    {
        match (self, floor) {
            (_, ContentEvidenceConfidence::Weak) => true,
            (ContentEvidenceConfidence::Strong, _) => true,
            (ContentEvidenceConfidence::Corroborated, ContentEvidenceConfidence::Corroborated) => true,
            _ => false,
        }
    }
}

/// One observed fact.
#[derive(Debug, Clone, PartialEq, Eq)]
pub struct ContentEvidence {
    pub kind: ContentEvidenceKind,
    pub value: String,
    pub confidence: ContentEvidenceConfidence,
    pub detail: String,
}

/// The contents of a [`ContentEvidence`].
pub struct Fact {
    pub kind: ContentEvidenceKind,
    pub value: Seq<char>,
    pub confidence: ContentEvidenceConfidence,
    pub detail: Seq<char>,
}

impl View for ContentEvidence {
    type V = Fact;

    open spec fn view(&self) -> Fact {
        Fact {
            kind: self.kind,
            value: self.value@,
            confidence: self.confidence,
            detail: self.detail@,
        }
    }
}

/// The contents of a sequence of observations.
pub open spec fn facts(evidence: Seq<ContentEvidence>) -> Seq<Fact> {
    evidence.map_values(|e: ContentEvidence| e@)
}

impl ContentEvidence {
    pub fn new(
        kind: ContentEvidenceKind,
        value: &str,
        confidence: ContentEvidenceConfidence,
        detail: &str,
    ) -> (r: ContentEvidence)
        ensures
            r@ == (Fact { kind, value: value@, confidence, detail: detail@ }),
    {
        ContentEvidence { kind, value: value.to_owned(), confidence, detail: detail.to_owned() }
    }

    /// An equal observation.
    pub fn copy(&self) -> (r: ContentEvidence)
        ensures
            r == *self,
    {
        ContentEvidence {
            kind: self.kind,
            value: self.value.clone(),
            confidence: self.confidence,
            detail: self.detail.clone(),
        }
    }
}

/// Equal observations, in order.
pub fn copy_evidence(evidence: &Vec<ContentEvidence>) -> (r: Vec<ContentEvidence>)
    ensures
        r@ == evidence@,
{
    let mut r: Vec<ContentEvidence> = Vec::new();
    let mut i: usize = 0;
    while i < evidence.len()
        invariant
            i <= evidence@.len(),
            r@ == evidence@.take(i as int),
        decreases evidence.len() - i,
    {
        r.push(evidence[i].copy());
        assert(evidence@.take(i + 1) =~= evidence@.take(i as int).push(evidence@[i as int]));
        i = i + 1;
    }
    assert(evidence@.take(evidence@.len() as int) =~= evidence@);
    r
}

} // verus!
