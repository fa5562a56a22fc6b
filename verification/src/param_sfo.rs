//! Entries already read out of a `PARAM.SFO`.
use vstd::prelude::*;
use vstd::string::*;
use crate::content_evidence::{
    ContentEvidence, ContentEvidenceConfidence, ContentEvidenceKind, Fact,
};
use crate::text::same_text;

verus! {

/// The value of one entry.
#[derive(Debug, Clone, PartialEq, Eq)]
pub enum SfoValue {
    Text(String),
    Integer(u32),
}

/// One key and its value.
#[derive(Debug, Clone, PartialEq, Eq)]
pub struct SfoEntry {
    pub key: String,
    pub value: SfoValue,
}

/// The entries of one file, in file order.
#[derive(Debug, Clone, PartialEq, Eq)]
pub struct SfoObservation {
    pub entries: Vec<SfoEntry>,
}

/// The text value of the first entry for `key`, if that entry is text.
pub open spec fn text_entry(entries: Seq<SfoEntry>, key: Seq<char>) -> Option<Seq<char>>
    decreases entries.len(),
{
    if entries.len() == 0 {
        None
    } else if entries[0].key@ == key {
        match entries[0].value {
            SfoValue::Text(text) => Some(text@),
            SfoValue::Integer(_) => None,
        }
    } else {
        text_entry(entries.drop_first(), key)
    }
}

/// The view of an optional string slice.
pub open spec fn opt_str(s: Option<&str>) -> Option<Seq<char>> {
    match s {
        Some(t) => Some(t@),
        None => None,
    }
}

impl SfoObservation {
    /// The text value of the first entry for `key`, if that entry is text.
    pub fn get_text(&self, key: &str) -> (r: Option<&str>)
        ensures
            opt_str(r) == text_entry(self.entries@, key@),
    {
        let ghost all = self.entries@;
        let mut i: usize = 0;
        assert(all.skip(0) =~= all);
        while i < self.entries.len()
            invariant
                i <= self.entries@.len(),
                all == self.entries@,
                text_entry(all, key@) == text_entry(all.skip(i as int), key@),
            decreases self.entries.len() - i,
        {
            assert(all.skip(i as int)[0] == all[i as int]);
            assert(all.skip(i as int).drop_first() =~= all.skip(i + 1));
            let entry = &self.entries[i];
            if same_text(entry.key.as_str(), key) {
                return match &entry.value {
                    SfoValue::Text(text) => Some(text.as_str()),
                    SfoValue::Integer(_) => None,
                };
            }
            i = i + 1;
        }
        None
    }
}

/// The caveat carried by every product code read out of a `PARAM.SFO`.
pub const PRODUCT_CODE_DETAIL: &'static str = "product code declared by PARAM.SFO - a candidate, not proof of any one platform";

/// The product-code fact that `key` gives, if it has a text value.
pub open spec fn product_code_fact(sfo: SfoObservation, key: Seq<char>) -> Option<Fact> {
    match text_entry(sfo.entries@, key) {
        Some(text) => Some(
            Fact {
                kind: ContentEvidenceKind::ProductCode,
                value: text,
                confidence: ContentEvidenceConfidence::Corroborated,
                detail: PRODUCT_CODE_DETAIL@,
            },
        ),
        None => None,
    }
}

/// A `Corroborated` product code from the text value of `key`.
pub fn product_code_evidence(sfo: &SfoObservation, key: &str) -> (r: Option<ContentEvidence>)
    ensures
        match r {
            Some(e) => Some(e@) == product_code_fact(*sfo, key@),
            None => product_code_fact(*sfo, key@) is None,
        },
{
    match sfo.get_text(key) {
        Some(text) => Some(
            ContentEvidence::new(
                ContentEvidenceKind::ProductCode,
                text,
                ContentEvidenceConfidence::Corroborated,
                PRODUCT_CODE_DETAIL,
            ),
        ),
        None => None,
    }
}

} // verus!
