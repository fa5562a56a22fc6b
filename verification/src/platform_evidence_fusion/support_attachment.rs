//! Which set a support file belongs to.
//!
//! A cue sheet or playlist belongs to the set its own references describe; a
//! manual or artwork only to a set that is the single one in question; nothing
//! is ever attached for merely sharing a folder.
use vstd::prelude::*;
use vstd::string::*;
use crate::path::{components, file_stem, file_stem_of, same_path};
use crate::platform_evidence_fusion::cue_m3u_parsing::{
    cue_listing, m3u_listing, parse_cue_file_references, parse_m3u_references, reference_models,
    ParsedReference, ReferenceModel, ReferenceRejection,
};
use crate::platform_evidence_fusion::side_file_classification::{
    classify_side_file, role_of, SideFileRole,
};
use crate::seqs::{first_index, first_index_unique};
use crate::text::{debug_quoted, debug_quoted_text, views};

verus! {

/// How a support file relates to a set.
#[derive(Debug, Clone, PartialEq, Eq)]
pub enum SupportAssociation {
    /// The relation is established.
    Attached { set_label: String },
    /// A relation is plausible but not established.
    Candidate { reason: String },
    /// There is no relation.
    Unassociated,
    /// The file refers to something unsafe.
    UnsafeReference { detail: String },
}

/// The contents of a [`SupportAssociation`].
pub enum AssociationModel {
    Attached(Seq<char>),
    Candidate(Seq<char>),
    Unassociated,
    UnsafeReference(Seq<char>),
}

impl View for SupportAssociation {
    type V = AssociationModel;

    open spec fn view(&self) -> AssociationModel {
        match *self {
            SupportAssociation::Attached { set_label } => AssociationModel::Attached(set_label@),
            SupportAssociation::Candidate { reason } => AssociationModel::Candidate(reason@),
            SupportAssociation::Unassociated => AssociationModel::Unassociated,
            SupportAssociation::UnsafeReference { detail } => AssociationModel::UnsafeReference(
                detail@,
            ),
        }
    }
}

impl SupportAssociation {
    /// An equal association.
    pub fn copy(&self) -> (r: SupportAssociation)
        ensures
            r == *self,
    {
        match self {
            SupportAssociation::Attached { set_label } => SupportAssociation::Attached {
                set_label: set_label.clone(),
            },
            SupportAssociation::Candidate { reason } => SupportAssociation::Candidate {
                reason: reason.clone(),
            },
            SupportAssociation::Unassociated => SupportAssociation::Unassociated,
            SupportAssociation::UnsafeReference { detail } => {
                SupportAssociation::UnsafeReference { detail: detail.clone() }
            },
        }
    }
}

/// A support file with its role and association.
#[derive(Debug, Clone, PartialEq, Eq)]
pub struct SupportFileAttachment {
    pub path: String,
    pub role: SideFileRole,
    pub association: SupportAssociation,
}

/// The one set that a manual or artwork can belong to.
#[derive(Debug, Clone, Copy, PartialEq, Eq)]
pub struct SingleGameContext<'a> {
    pub set_label: &'a str,
}

/// The test for an unsafe reference.
pub open spec fn is_unsafe_reference() -> spec_fn(ReferenceModel) -> bool {
    |r: ReferenceModel| r.rejection is Some
}

/// The test for a reference whose file is not among `existing`.
pub open spec fn is_missing(existing: Seq<Seq<char>>) -> spec_fn(ReferenceModel) -> bool {
    |r: ReferenceModel|
        !(r.resolved matches Some(path) && exists|i: int|
            0 <= i < existing.len() && components(#[trigger] existing[i]) == components(path))
}

/// The text std's `Debug` writes for an optional rejection.
pub open spec fn rejection_debug(r: Option<ReferenceRejection>) -> Seq<char> {
    match r {
        Some(rejection) => "Some("@ + rejection.name_text() + ")"@,
        None => "None"@,
    }
}

/// The label of the set a listing describes.
pub open spec fn listing_label(path: Seq<char>) -> Seq<char> {
    match file_stem(path) {
        Some(stem) => stem,
        None => path,
    }
}

/// What the references of a listing establish, if its files are present.
pub open spec fn reference_association(path: Seq<char>, references: Seq<ReferenceModel>) -> AssociationModel {
    let bad = first_index(references, is_unsafe_reference());
    if references.len() == 0 {
        AssociationModel::Candidate("no references found in this cue/m3u"@)
    } else if 0 <= bad < references.len() {
        AssociationModel::UnsafeReference(
            debug_quoted_text(references[bad].raw) + ": "@ + rejection_debug(
                references[bad].rejection,
            ),
        )
    } else {
        AssociationModel::Attached(listing_label(path))
    }
}

/// What the references of a listing establish, given which files exist: a
/// missing one keeps the listing a candidate.
pub open spec fn checked_association(
    path: Seq<char>,
    references: Seq<ReferenceModel>,
    existing: Seq<Seq<char>>,
) -> AssociationModel {
    let missing = first_index(references, is_missing(existing));
    match reference_association(path, references) {
        AssociationModel::Attached(label) => if 0 <= missing < references.len() {
            AssociationModel::Candidate(
                "referenced member does not exist on disk: "@ + debug_quoted_text(
                    references[missing].raw,
                ),
            )
        } else {
            AssociationModel::Attached(label)
        },
        other => other,
    }
}

/// The references of a listing by its role.
pub open spec fn listing_of(path: Seq<char>, role: SideFileRole, contents: Seq<char>) -> Seq<
    ReferenceModel,
> {
    if role == SideFileRole::CueSheet {
        cue_listing(path, contents)
    } else {
        m3u_listing(path, contents)
    }
}

/// The association of a file that is not a listing.
pub open spec fn plain_association(
    role: SideFileRole,
    context: Option<Seq<char>>,
) -> AssociationModel {
    if role == SideFileRole::Manual || role == SideFileRole::Artwork {
        match context {
            Some(label) => AssociationModel::Attached(label),
            None => AssociationModel::Unassociated,
        }
    } else {
        AssociationModel::Unassociated
    }
}

/// A cue sheet or playlist.
pub open spec fn is_listing(role: SideFileRole) -> bool {
    role == SideFileRole::CueSheet || role == SideFileRole::Playlist
}

/// The association of a listing whose contents were not read.
pub open spec fn unread_listing() -> AssociationModel {
    AssociationModel::Candidate("cue/m3u contents were not supplied to attach_support_file"@)
}

/// The set label of an optional context.
pub open spec fn context_label(context: Option<&SingleGameContext<'_>>) -> Option<Seq<char>> {
    match context {
        Some(c) => Some(c.set_label@),
        None => None,
    }
}

/// The association of a support file.
pub open spec fn association_of(
    path: Seq<char>,
    contents: Option<Seq<char>>,
    context: Option<Seq<char>>,
) -> AssociationModel {
    let role = role_of(path);
    if is_listing(role) {
        match contents {
            Some(text) => reference_association(path, listing_of(path, role, text)),
            None => unread_listing(),
        }
    } else {
        plain_association(role, context)
    }
}

/// The association of a support file, given which referenced files exist.
pub open spec fn existing_association_of(
    path: Seq<char>,
    contents: Option<Seq<char>>,
    context: Option<Seq<char>>,
    existing: Seq<Seq<char>>,
) -> AssociationModel {
    let role = role_of(path);
    if is_listing(role) {
        match contents {
            Some(text) => checked_association(path, listing_of(path, role, text), existing),
            None => unread_listing(),
        }
    } else {
        plain_association(role, context)
    }
}

/// The view of optional contents.
pub open spec fn opt_text(s: Option<&str>) -> Option<Seq<char>> {
    match s {
        Some(t) => Some(t@),
        None => None,
    }
}

fn listing_references(path: &str, role: SideFileRole, contents: &str) -> (r: Vec<ParsedReference>)
    ensures
        reference_models(r@) == listing_of(path@, role, contents@),
{
    match role {
        SideFileRole::CueSheet => parse_cue_file_references(path, contents),
        _ => parse_m3u_references(path, contents),
    }
}

fn label_of_listing(path: &str) -> (r: String)
    ensures
        r@ == listing_label(path@),
{
    match file_stem_of(path) {
        Some(stem) => stem,
        None => path.to_owned(),
    }
}

fn debug_rejection(rejection: Option<ReferenceRejection>) -> (r: String)
    ensures
        r@ == rejection_debug(rejection),
{
    match rejection {
        Some(rejection) => {
            let mut r = "Some(".to_owned();
            r.append(rejection.name());
            r.append(")");
            r
        },
        None => "None".to_owned(),
    }
}

fn associate_by_references(path: &str, references: &Vec<ParsedReference>) -> (r:
    SupportAssociation)
    ensures
        r@ == reference_association(path@, reference_models(references@)),
{
    let ghost models = reference_models(references@);
    assert(models.len() == references@.len());
    if references.len() == 0 {
        return SupportAssociation::Candidate {
            reason: "no references found in this cue/m3u".to_owned(),
        };
    }
    let mut k: usize = 0;
    while k < references.len() && references[k].is_safe()
        invariant
            k <= references@.len(),
            models == reference_models(references@),
            forall|j: int| 0 <= j < k ==> !is_unsafe_reference()(#[trigger] models[j]),
        ensures
            k <= references@.len(),
            forall|j: int| 0 <= j < k ==> !is_unsafe_reference()(#[trigger] models[j]),
            k < references@.len() ==> is_unsafe_reference()(models[k as int]),
        decreases references.len() - k,
    {
        k = k + 1;
    }
    proof {
        first_index_unique(models, is_unsafe_reference(), k as int);
    }
    if k < references.len() {
        let mut detail = debug_quoted(references[k].raw.as_str());
        detail.append(": ");
        detail.append(debug_rejection(references[k].rejection).as_str());
        return SupportAssociation::UnsafeReference { detail };
    }
    SupportAssociation::Attached { set_label: label_of_listing(path) }
}

fn reference_exists(reference: &ParsedReference, existing: &Vec<String>) -> (r: bool)
    ensures
        r == !is_missing(views(existing@))(reference@),
{
    match &reference.resolved {
        Some(path) => {
            let mut i: usize = 0;
            while i < existing.len()
                invariant
                    i <= existing@.len(),
                    reference@.resolved == Some(path@),
                    forall|j: int|
                        0 <= j < i ==> components(#[trigger] views(existing@)[j]) != components(
                            path@,
                        ),
                decreases existing.len() - i,
            {
                assert(views(existing@)[i as int] == existing@[i as int]@);
                if same_path(existing[i].as_str(), path.as_str()) {
                    return true;
                }
                i = i + 1;
            }
            assert(views(existing@).len() == existing@.len());
            false
        },
        None => false,
    }
}

fn associate_by_existing(
    path: &str,
    references: &Vec<ParsedReference>,
    existing: &Vec<String>,
) -> (r: SupportAssociation)
    ensures
        r@ == checked_association(path@, reference_models(references@), views(existing@)),
{
    let ghost models = reference_models(references@);
    let ghost gone = is_missing(views(existing@));
    let association = associate_by_references(path, references);
    match association {
        SupportAssociation::Attached { set_label } => {
            let mut k: usize = 0;
            while k < references.len() && reference_exists(&references[k], existing)
                invariant
                    k <= references@.len(),
                    models == reference_models(references@),
                    gone == is_missing(views(existing@)),
                    forall|j: int| 0 <= j < k ==> !gone(#[trigger] models[j]),
                ensures
                    k <= references@.len(),
                    forall|j: int| 0 <= j < k ==> !gone(#[trigger] models[j]),
                    k < references@.len() ==> gone(models[k as int]),
                decreases references.len() - k,
            {
                k = k + 1;
            }
            proof {
                first_index_unique(models, gone, k as int);
            }
            if k < references.len() {
                let mut reason = "referenced member does not exist on disk: ".to_owned();
                reason.append(debug_quoted(references[k].raw.as_str()).as_str());
                SupportAssociation::Candidate { reason }
            } else {
                SupportAssociation::Attached { set_label }
            }
        },
        other => other,
    }
}

fn plain(role: SideFileRole, context: Option<&SingleGameContext<'_>>) -> (r: SupportAssociation)
    ensures
        r@ == plain_association(role, context_label(context)),
{
    match role {
        SideFileRole::Manual | SideFileRole::Artwork => match context {
            Some(c) => SupportAssociation::Attached { set_label: c.set_label.to_owned() },
            None => SupportAssociation::Unassociated,
        },
        _ => SupportAssociation::Unassociated,
    }
}

fn unread() -> (r: SupportAssociation)
    ensures
        r@ == unread_listing(),
{
    SupportAssociation::Candidate {
        reason: "cue/m3u contents were not supplied to attach_support_file".to_owned(),
    }
}

/// Attaches a support file by what its own text establishes. `contents` is the
/// text of a cue sheet or playlist.
pub fn attach_support_file(
    path: &str,
    contents: Option<&str>,
    context: Option<&SingleGameContext<'_>>,
) -> (r: SupportFileAttachment)
    ensures
        r.path@ == path@,
        r.role == role_of(path@),
        r.association@ == association_of(path@, opt_text(contents), context_label(context)),
{
    let role = classify_side_file(path);
    let association = match role {
        SideFileRole::CueSheet | SideFileRole::Playlist => match contents {
            Some(text) => associate_by_references(path, &listing_references(path, role, text)),
            None => unread(),
        },
        _ => plain(role, context),
    };
    SupportFileAttachment { path: path.to_owned(), role, association }
}

/// Attaches a support file by what its own text establishes and by which of
/// the files it refers to exist: a listing with a missing file stays a
/// candidate. `existing` holds the paths of existing files.
pub fn attach_existing_support_file(
    path: &str,
    contents: Option<&str>,
    context: Option<&SingleGameContext<'_>>,
    existing: &Vec<String>,
) -> (r: SupportFileAttachment)
    ensures
        r.path@ == path@,
        r.role == role_of(path@),
        r.association@ == existing_association_of(
            path@,
            opt_text(contents),
            context_label(context),
            views(existing@),
        ),
{
    let role = classify_side_file(path);
    let association = match role {
        SideFileRole::CueSheet | SideFileRole::Playlist => match contents {
            Some(text) => associate_by_existing(
                path,
                &listing_references(path, role, text),
                existing,
            ),
            None => unread(),
        },
        _ => plain(role, context),
    };
    SupportFileAttachment { path: path.to_owned(), role, association }
}

/// Patches, readmes, metadata, saves and unknown files are never attached,
/// whatever stands next to them.
pub proof fn folder_neighbours_are_never_attached(
    path: Seq<char>,
    contents: Option<Seq<char>>,
    context: Option<Seq<char>>,
)
    requires
        !is_listing(role_of(path)),
        role_of(path) != SideFileRole::Manual,
        role_of(path) != SideFileRole::Artwork,
    ensures
        association_of(path, contents, context) is Unassociated,
{
}

/// A listing is attached only when every one of its references is safe, and
/// with a check of existence only when every one of them exists too.
pub proof fn attached_listings_are_safe(
    path: Seq<char>,
    references: Seq<ReferenceModel>,
    existing: Seq<Seq<char>>,
    i: int,
)
    requires
        0 <= i < references.len(),
    ensures
        reference_association(path, references) is Attached ==> references[i].rejection is None,
        checked_association(path, references, existing) is Attached ==> references[i].rejection
            is None && !is_missing(existing)(references[i]),
{
    crate::seqs::first_index_props(references, is_unsafe_reference());
    crate::seqs::first_index_props(references, is_missing(existing));
    if references[i].rejection is Some {
        assert(is_unsafe_reference()(references[i]));
    }
}

} // verus!
