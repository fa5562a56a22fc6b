//! What support files are, and when they belong to a set.
use vstd::prelude::*;
use vstd::string::*;
use crate::path::{components, extension, file_stem};
use crate::platform_evidence_fusion::cue_m3u_parsing::{
    cue_listing, m3u_listing, ReferenceModel, ReferenceRejection,
};
use crate::platform_evidence_fusion::side_file_classification::{
    is_save_extension, role_of, SideFileRole,
};
use crate::platform_evidence_fusion::support_attachment::{
    association_of, existing_association_of, is_missing, is_unsafe_reference, AssociationModel,
};
use crate::seqs::{first_index, first_index_props};
use crate::text::{debug_quoted_text, lower_text};
use crate::text_laws::{contained_runs_stand_in_their_text, stands_in};

verus! {

/// The extensions of patches.
pub open spec fn names_a_patch(e: Seq<char>) -> bool {
    ||| e == "ips"@ || e == "bps"@ || e == "xdelta"@ || e == "ppf"@ || e == "ups"@
}

/// The extensions of pictures.
pub open spec fn names_artwork(e: Seq<char>) -> bool {
    ||| e == "jpg"@ || e == "jpeg"@ || e == "png"@ || e == "webp"@ || e == "gif"@
    ||| e == "bmp"@
}

/// The extensions of metadata.
pub open spec fn names_metadata(e: Seq<char>) -> bool {
    ||| e == "xml"@ || e == "json"@ || e == "yaml"@ || e == "yml"@
}

/// The extensions that some platform registers for its games.
pub open spec fn names_content(e: Seq<char>) -> bool {
    ||| e == "32x"@ || e == "a78"@ || e == "cdi"@ || e == "chd"@ || e == "gb"@
    ||| e == "gba"@ || e == "gbc"@ || e == "gcm"@ || e == "gdi"@ || e == "gen"@
    ||| e == "gg"@ || e == "iso"@ || e == "lnx"@ || e == "md"@ || e == "n64"@
    ||| e == "nes"@ || e == "pce"@ || e == "rvz"@ || e == "sfc"@ || e == "smc"@
    ||| e == "sms"@ || e == "v64"@ || e == "wbfs"@ || e == "xiso"@ || e == "z64"@
}

/// The extensions of saves and of numbered save states.
pub open spec fn names_a_save(e: Seq<char>) -> bool {
    ||| e == "sav"@ || e == "srm"@ || e == "state"@ || e == "mcr"@
    ||| e.len() == 3 && e[0] == 's' && (e[1] == 't' || e[1] == 's') && '0' <= e[2] <= '9'
}

/// The base name, in lower case, has the word in it.
pub open spec fn mentions(path: Seq<char>, word: Seq<char>) -> bool {
    file_stem(path) matches Some(stem) && stands_in(word, lower_text(stem))
}

/// The extension says nothing about the file.
pub open spec fn is_unclassified(e: Seq<char>) -> bool {
    &&& e != "cue"@ && e != "m3u"@ && e != "m3u8"@ && e != "nfo"@
    &&& !names_content(e)
    &&& !names_a_patch(e)
    &&& !names_artwork(e)
    &&& !names_a_save(e)
    &&& !names_metadata(e)
}

proof fn numbered_states(e: Seq<char>)
    ensures
        names_a_save(e) == is_save_extension(e),
{
    reveal_strlit("st0");
    reveal_strlit("st1");
    reveal_strlit("st2");
    reveal_strlit("st3");
    reveal_strlit("st4");
    reveal_strlit("st5");
    reveal_strlit("st6");
    reveal_strlit("st7");
    reveal_strlit("st8");
    reveal_strlit("st9");
    reveal_strlit("ss0");
    reveal_strlit("ss1");
    reveal_strlit("ss2");
    reveal_strlit("ss3");
    reveal_strlit("ss4");
    reveal_strlit("ss5");
    reveal_strlit("ss6");
    reveal_strlit("ss7");
    reveal_strlit("ss8");
    reveal_strlit("ss9");
    if e.len() == 3 && e[0] == 's' && (e[1] == 't' || e[1] == 's') && '0' <= e[2] && e[2] <= '9' {
        if e[1] == 't' && e[2] == '0' {
            assert(e =~= "st0"@);
        }
        if e[1] == 't' && e[2] == '1' {
            assert(e =~= "st1"@);
        }
        if e[1] == 't' && e[2] == '2' {
            assert(e =~= "st2"@);
        }
        if e[1] == 't' && e[2] == '3' {
            assert(e =~= "st3"@);
        }
        if e[1] == 't' && e[2] == '4' {
            assert(e =~= "st4"@);
        }
        if e[1] == 't' && e[2] == '5' {
            assert(e =~= "st5"@);
        }
        if e[1] == 't' && e[2] == '6' {
            assert(e =~= "st6"@);
        }
        if e[1] == 't' && e[2] == '7' {
            assert(e =~= "st7"@);
        }
        if e[1] == 't' && e[2] == '8' {
            assert(e =~= "st8"@);
        }
        if e[1] == 't' && e[2] == '9' {
            assert(e =~= "st9"@);
        }
        if e[1] == 's' && e[2] == '0' {
            assert(e =~= "ss0"@);
        }
        if e[1] == 's' && e[2] == '1' {
            assert(e =~= "ss1"@);
        }
        if e[1] == 's' && e[2] == '2' {
            assert(e =~= "ss2"@);
        }
        if e[1] == 's' && e[2] == '3' {
            assert(e =~= "ss3"@);
        }
        if e[1] == 's' && e[2] == '4' {
            assert(e =~= "ss4"@);
        }
        if e[1] == 's' && e[2] == '5' {
            assert(e =~= "ss5"@);
        }
        if e[1] == 's' && e[2] == '6' {
            assert(e =~= "ss6"@);
        }
        if e[1] == 's' && e[2] == '7' {
            assert(e =~= "ss7"@);
        }
        if e[1] == 's' && e[2] == '8' {
            assert(e =~= "ss8"@);
        }
        if e[1] == 's' && e[2] == '9' {
            assert(e =~= "ss9"@);
        }
    }
}

proof fn extensions_are_apart(e: Seq<char>)
    ensures
        names_a_save(e) == is_save_extension(e),
        names_content(e) || names_a_patch(e) || names_artwork(e) || names_a_save(e)
            || names_metadata(e) ==> e != "cue"@ && e != "m3u"@ && e != "m3u8"@ && e != "nfo"@,
        names_content(e) ==> !names_a_patch(e) && !names_artwork(e) && !names_a_save(e)
            && !names_metadata(e),
        names_a_patch(e) ==> !names_artwork(e) && !names_a_save(e) && !names_metadata(e),
        names_artwork(e) ==> !names_a_save(e) && !names_metadata(e),
        names_a_save(e) ==> !names_metadata(e),
        "cue"@ != "m3u"@ && "cue"@ != "m3u8"@ && "cue"@ != "nfo"@ && "m3u"@ != "nfo"@ && "m3u8"@
            != "nfo"@,
{
    numbered_states(e);
    reveal_strlit("32x");
    reveal_strlit("a78");
    reveal_strlit("cdi");
    reveal_strlit("chd");
    reveal_strlit("gb");
    reveal_strlit("gba");
    reveal_strlit("gbc");
    reveal_strlit("gcm");
    reveal_strlit("gdi");
    reveal_strlit("gen");
    reveal_strlit("gg");
    reveal_strlit("iso");
    reveal_strlit("lnx");
    reveal_strlit("md");
    reveal_strlit("n64");
    reveal_strlit("nes");
    reveal_strlit("pce");
    reveal_strlit("rvz");
    reveal_strlit("sfc");
    reveal_strlit("smc");
    reveal_strlit("sms");
    reveal_strlit("v64");
    reveal_strlit("wbfs");
    reveal_strlit("xiso");
    reveal_strlit("z64");
    reveal_strlit("ips");
    reveal_strlit("bps");
    reveal_strlit("xdelta");
    reveal_strlit("ppf");
    reveal_strlit("ups");
    reveal_strlit("jpg");
    reveal_strlit("jpeg");
    reveal_strlit("png");
    reveal_strlit("webp");
    reveal_strlit("gif");
    reveal_strlit("bmp");
    reveal_strlit("xml");
    reveal_strlit("json");
    reveal_strlit("yaml");
    reveal_strlit("yml");
    reveal_strlit("cue");
    reveal_strlit("m3u");
    reveal_strlit("m3u8");
    reveal_strlit("nfo");
    reveal_strlit("sav");
    reveal_strlit("srm");
    reveal_strlit("state");
    reveal_strlit("mcr");
    assert("32x"@[0] == '3' && "32x"@[1] == '2' && "32x"@[2] == 'x');
    assert("a78"@[0] == 'a' && "a78"@[1] == '7' && "a78"@[2] == '8');
    assert("cdi"@[0] == 'c' && "cdi"@[1] == 'd' && "cdi"@[2] == 'i');
    assert("chd"@[0] == 'c' && "chd"@[1] == 'h' && "chd"@[2] == 'd');
    assert("gb"@[0] == 'g' && "gb"@[1] == 'b');
    assert("gba"@[0] == 'g' && "gba"@[1] == 'b' && "gba"@[2] == 'a');
    assert("gbc"@[0] == 'g' && "gbc"@[1] == 'b' && "gbc"@[2] == 'c');
    assert("gcm"@[0] == 'g' && "gcm"@[1] == 'c' && "gcm"@[2] == 'm');
    assert("gdi"@[0] == 'g' && "gdi"@[1] == 'd' && "gdi"@[2] == 'i');
    assert("gen"@[0] == 'g' && "gen"@[1] == 'e' && "gen"@[2] == 'n');
    assert("gg"@[0] == 'g' && "gg"@[1] == 'g');
    assert("iso"@[0] == 'i' && "iso"@[1] == 's' && "iso"@[2] == 'o');
    assert("lnx"@[0] == 'l' && "lnx"@[1] == 'n' && "lnx"@[2] == 'x');
    assert("md"@[0] == 'm' && "md"@[1] == 'd');
    assert("n64"@[0] == 'n' && "n64"@[1] == '6' && "n64"@[2] == '4');
    assert("nes"@[0] == 'n' && "nes"@[1] == 'e' && "nes"@[2] == 's');
    assert("pce"@[0] == 'p' && "pce"@[1] == 'c' && "pce"@[2] == 'e');
    assert("rvz"@[0] == 'r' && "rvz"@[1] == 'v' && "rvz"@[2] == 'z');
    assert("sfc"@[0] == 's' && "sfc"@[1] == 'f' && "sfc"@[2] == 'c');
    assert("smc"@[0] == 's' && "smc"@[1] == 'm' && "smc"@[2] == 'c');
    assert("sms"@[0] == 's' && "sms"@[1] == 'm' && "sms"@[2] == 's');
    assert("v64"@[0] == 'v' && "v64"@[1] == '6' && "v64"@[2] == '4');
    assert("wbfs"@[0] == 'w' && "wbfs"@[1] == 'b' && "wbfs"@[2] == 'f');
    assert("xiso"@[0] == 'x' && "xiso"@[1] == 'i' && "xiso"@[2] == 's');
    assert("z64"@[0] == 'z' && "z64"@[1] == '6' && "z64"@[2] == '4');
    assert("ips"@[0] == 'i' && "ips"@[1] == 'p' && "ips"@[2] == 's');
    assert("bps"@[0] == 'b' && "bps"@[1] == 'p' && "bps"@[2] == 's');
    assert("xdelta"@[0] == 'x' && "xdelta"@[1] == 'd' && "xdelta"@[2] == 'e');
    assert("ppf"@[0] == 'p' && "ppf"@[1] == 'p' && "ppf"@[2] == 'f');
    assert("ups"@[0] == 'u' && "ups"@[1] == 'p' && "ups"@[2] == 's');
    assert("jpg"@[0] == 'j' && "jpg"@[1] == 'p' && "jpg"@[2] == 'g');
    assert("jpeg"@[0] == 'j' && "jpeg"@[1] == 'p' && "jpeg"@[2] == 'e');
    assert("png"@[0] == 'p' && "png"@[1] == 'n' && "png"@[2] == 'g');
    assert("webp"@[0] == 'w' && "webp"@[1] == 'e' && "webp"@[2] == 'b');
    assert("gif"@[0] == 'g' && "gif"@[1] == 'i' && "gif"@[2] == 'f');
    assert("bmp"@[0] == 'b' && "bmp"@[1] == 'm' && "bmp"@[2] == 'p');
    assert("xml"@[0] == 'x' && "xml"@[1] == 'm' && "xml"@[2] == 'l');
    assert("json"@[0] == 'j' && "json"@[1] == 's' && "json"@[2] == 'o');
    assert("yaml"@[0] == 'y' && "yaml"@[1] == 'a' && "yaml"@[2] == 'm');
    assert("yml"@[0] == 'y' && "yml"@[1] == 'm' && "yml"@[2] == 'l');
    assert("cue"@[0] == 'c' && "cue"@[1] == 'u' && "cue"@[2] == 'e');
    assert("m3u"@[0] == 'm' && "m3u"@[1] == '3' && "m3u"@[2] == 'u');
    assert("m3u8"@[0] == 'm' && "m3u8"@[1] == '3' && "m3u8"@[2] == 'u');
    assert("nfo"@[0] == 'n' && "nfo"@[1] == 'f' && "nfo"@[2] == 'o');
    assert("sav"@[0] == 's' && "sav"@[1] == 'a' && "sav"@[2] == 'v');
    assert("srm"@[0] == 's' && "srm"@[1] == 'r' && "srm"@[2] == 'm');
    assert("state"@[0] == 's' && "state"@[1] == 't' && "state"@[2] == 'a');
    assert("mcr"@[0] == 'm' && "mcr"@[1] == 'c' && "mcr"@[2] == 'r');
}

/// A file with a known extension is what the extension says, whatever its name
/// and in any case; only without one does a name speak for a readme or a manual.
pub proof fn roles_go_by_extension_before_name(path: Seq<char>, e: Seq<char>)
    requires
        extension(path) matches Some(x) && lower_text(x) == e,
    ensures
        role_of(path) == SideFileRole::CueSheet <==> e == "cue"@,
        role_of(path) == SideFileRole::Playlist <==> e == "m3u"@ || e == "m3u8"@,
        role_of(path) == SideFileRole::PrimaryContent <==> names_content(e),
        role_of(path) == SideFileRole::Patch <==> names_a_patch(e),
        role_of(path) == SideFileRole::Artwork <==> names_artwork(e),
        role_of(path) == SideFileRole::SaveOrState <==> names_a_save(e),
        role_of(path) == SideFileRole::Metadata <==> names_metadata(e),
        role_of(path) == SideFileRole::Readme <==> e == "nfo"@ || (is_unclassified(e) && mentions(
            path,
            "readme"@,
        )),
        role_of(path) == SideFileRole::Manual <==> is_unclassified(e) && mentions(path, "manual"@)
            && !mentions(path, "readme"@),
        role_of(path) == SideFileRole::UnknownSupport <==> is_unclassified(e) && !mentions(
            path,
            "manual"@,
        ) && !mentions(path, "readme"@),
{
    extensions_are_apart(e);
    if let Some(stem) = file_stem(path) {
        contained_runs_stand_in_their_text(lower_text(stem), "readme"@);
        contained_runs_stand_in_their_text(lower_text(stem), "manual"@);
    }
}

/// A file without an extension is a readme or a manual by its name, and never
/// anything else that is known.
pub proof fn files_without_extension_go_by_name(path: Seq<char>)
    requires
        extension(path) is None,
    ensures
        role_of(path) == if mentions(path, "readme"@) {
            SideFileRole::Readme
        } else if mentions(path, "manual"@) {
            SideFileRole::Manual
        } else {
            SideFileRole::UnknownSupport
        },
{
    if let Some(stem) = file_stem(path) {
        contained_runs_stand_in_their_text(lower_text(stem), "readme"@);
        contained_runs_stand_in_their_text(lower_text(stem), "manual"@);
    }
}

/// What a cue sheet or a playlist refers to.
pub open spec fn refers(path: Seq<char>, text: Seq<char>) -> Seq<ReferenceModel> {
    if role_of(path) == SideFileRole::CueSheet {
        cue_listing(path, text)
    } else {
        m3u_listing(path, text)
    }
}

/// Every reference is safe.
pub open spec fn all_safe(references: Seq<ReferenceModel>) -> bool {
    forall|i: int| 0 <= i < references.len() ==> (#[trigger] references[i]).rejection is None
}

/// The path is that of an existing file.
pub open spec fn is_there(existing: Seq<Seq<char>>, path: Seq<char>) -> bool {
    exists|k: int| 0 <= k < existing.len() && components(#[trigger] existing[k]) == components(path)
}

/// Every reference is to an existing file.
pub open spec fn all_there(references: Seq<ReferenceModel>, existing: Seq<Seq<char>>) -> bool {
    forall|i: int|
        0 <= i < references.len() ==> ((#[trigger] references[i]).resolved matches Some(path)
            && is_there(existing, path))
}

/// What is said of an unsafe reference.
pub open spec fn complaint(r: ReferenceModel) -> Seq<char> {
    debug_quoted_text(r.raw) + ": "@ + ("Some("@ + match r.rejection {
        Some(ReferenceRejection::AbsolutePath) => "AbsolutePath"@,
        Some(ReferenceRejection::ParentTraversal) => "ParentTraversal"@,
        _ => "Empty"@,
    } + ")"@)
}

/// The detail is about the first unsafe reference.
pub open spec fn names_the_first_unsafe(
    detail: Seq<char>,
    references: Seq<ReferenceModel>,
) -> bool {
    exists|k: int|
        0 <= k < references.len() && (#[trigger] references[k]).rejection is Some && all_safe(
            references.take(k),
        ) && detail == complaint(references[k])
}

proof fn first_unsafe(references: Seq<ReferenceModel>)
    ensures
        ({
            let bad = first_index(references, is_unsafe_reference());
            &&& 0 <= bad <= references.len()
            &&& bad == references.len() <==> all_safe(references)
            &&& bad < references.len() ==> references[bad].rejection is Some && all_safe(
                references.take(bad),
            )
        }),
{
    first_index_props(references, is_unsafe_reference());
    let bad = first_index(references, is_unsafe_reference());
    assert forall|i: int| 0 <= i < bad implies (#[trigger] references[i]).rejection is None by {
        assert(!is_unsafe_reference()(references[i]));
    }
    if bad < references.len() {
        assert forall|i: int| 0 <= i < bad implies (#[trigger] references.take(bad)[i]).rejection
            is None by {
            assert(references[i].rejection is None);
        }
    }
}

/// A cue sheet or playlist that was read belongs to the set named like it exactly
/// when it refers to something and to nothing unsafe; an unsafe reference is
/// reported by the first such one, and an empty or unread listing stays open.
pub proof fn safe_listings_belong_to_their_set(
    path: Seq<char>,
    contents: Option<Seq<char>>,
    context: Option<Seq<char>>,
)
    requires
        role_of(path) == SideFileRole::CueSheet || role_of(path) == SideFileRole::Playlist,
    ensures
        match contents {
            None => association_of(path, contents, context) == AssociationModel::Candidate(
                "cue/m3u contents were not supplied to attach_support_file"@,
            ),
            Some(text) => match association_of(path, contents, context) {
                AssociationModel::Attached(label) => refers(path, text).len() > 0 && all_safe(
                    refers(path, text),
                ) && Some(label) == file_stem(path),
                AssociationModel::UnsafeReference(detail) => names_the_first_unsafe(
                    detail,
                    refers(path, text),
                ),
                AssociationModel::Candidate(reason) => refers(path, text).len() == 0 && reason
                    == "no references found in this cue/m3u"@,
                AssociationModel::Unassociated => false,
            },
        },
{
    extension_gives_a_stem(path);
    if let Some(text) = contents {
        first_unsafe(refers(path, text));
    }
}

proof fn extension_gives_a_stem(path: Seq<char>)
    requires
        role_of(path) == SideFileRole::CueSheet || role_of(path) == SideFileRole::Playlist,
    ensures
        file_stem(path) is Some,
{
}

/// Where it is known which files exist, a safe listing belongs to its set exactly
/// when all of them are there, and stays open for the first one that is not.
pub proof fn complete_listings_belong_to_their_set(
    path: Seq<char>,
    contents: Option<Seq<char>>,
    context: Option<Seq<char>>,
    existing: Seq<Seq<char>>,
)
    requires
        role_of(path) == SideFileRole::CueSheet || role_of(path) == SideFileRole::Playlist,
    ensures
        match contents {
            Some(text) => {
                let found = existing_association_of(path, contents, context, existing);
                let references = refers(path, text);
                if references.len() > 0 && all_safe(references) {
                    if all_there(references, existing) {
                        found matches AssociationModel::Attached(label) && Some(label)
                            == file_stem(path)
                    } else {
                        found matches AssociationModel::Candidate(reason) && exists|k: int|
                            0 <= k < references.len() && !all_there(
                                seq![#[trigger] references[k]],
                                existing,
                            ) && all_there(references.take(k), existing) && reason
                                == "referenced member does not exist on disk: "@
                                + debug_quoted_text(references[k].raw)
                    }
                } else {
                    found == association_of(path, contents, context)
                }
            },
            None => existing_association_of(path, contents, context, existing) == association_of(
                path,
                contents,
                context,
            ),
        },
{
    extension_gives_a_stem(path);
    if let Some(text) = contents {
        let references = refers(path, text);
        first_unsafe(references);
        let missing = first_index(references, is_missing(existing));
        first_index_props(references, is_missing(existing));
        assert forall|i: int| 0 <= i < references.len() implies (is_missing(existing)(
            #[trigger] references[i],
        ) <==> !(references[i].resolved matches Some(path) && is_there(existing, path))) by {
        }
        if missing < references.len() {
            assert(is_missing(existing)(references[missing]));
            assert(!all_there(seq![references[missing]], existing)) by {
                assert(seq![references[missing]][0] == references[missing]);
            }
            assert forall|i: int| 0 <= i < missing implies ((#[trigger] references.take(
                missing,
            )[i]).resolved matches Some(path) && is_there(existing, path)) by {
                assert(!is_missing(existing)(references[i]));
            }
        } else {
            assert forall|i: int| 0 <= i < references.len() implies ((
            #[trigger] references[i]).resolved matches Some(path) && is_there(existing, path)) by {
                assert(!is_missing(existing)(references[i]));
            }
        }
    }
}

/// A manual or a picture belongs to the one set in question, if there is one; no
/// other file that is not a listing belongs to any.
pub proof fn manuals_and_pictures_belong_to_the_one_set(
    path: Seq<char>,
    contents: Option<Seq<char>>,
    context: Option<Seq<char>>,
    existing: Seq<Seq<char>>,
)
    requires
        role_of(path) != SideFileRole::CueSheet,
        role_of(path) != SideFileRole::Playlist,
    ensures
        association_of(path, contents, context) == if role_of(path) == SideFileRole::Manual
            || role_of(path) == SideFileRole::Artwork {
            match context {
                Some(label) => AssociationModel::Attached(label),
                None => AssociationModel::Unassociated,
            }
        } else {
            AssociationModel::Unassociated
        },
        existing_association_of(path, contents, context, existing) == association_of(
            path,
            contents,
            context,
        ),
{
}

} // verus!
