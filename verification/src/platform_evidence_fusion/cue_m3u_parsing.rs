//! The files that a `.cue` sheet or an `.m3u` playlist names.
//!
//! Only the text is looked at. A reference that is absolute or that climbs out
//! of its directory is rejected, never resolved, and a listing over the size
//! bound is not read at all.
use vstd::prelude::*;
use vstd::string::*;
use vstd::utf8::encode_utf8;
use crate::path::{
    components, components_of, is_absolute, is_under, join, join_appends, join_path, names, parent,
    parent_of, path_is_absolute, segments_are_components,
};
use crate::seqs::{first_index, has_prefix};
use crate::text::{
    find_char, is_char, opt_view, split_char, split_text, starts_with, text_after, trim, trim_start,
    trimmed, trimmed_start, views, chars_of, text_of,
};

verus! {

/// The largest listing that is read, in bytes.
pub const MAX_PARSE_BYTES: usize = 65536;

/// Why a reference was not resolved.
#[derive(Debug, Clone, Copy, PartialEq, Eq, Structural)]
pub enum ReferenceRejection {
    AbsolutePath,
    /// The reference has a `..` component.
    ParentTraversal,
    Empty,
}

impl ReferenceRejection {
    /// The variant's name.
    pub open spec fn name_text(self) -> Seq<char> {
        match self {
            ReferenceRejection::AbsolutePath => "AbsolutePath"@,
            ReferenceRejection::ParentTraversal => "ParentTraversal"@,
            ReferenceRejection::Empty => "Empty"@,
        }
    }

    pub fn name(self) -> (r: &'static str)
        ensures
            r@ == self.name_text(),
    {
        match self {
            ReferenceRejection::AbsolutePath => "AbsolutePath",
            ReferenceRejection::ParentTraversal => "ParentTraversal",
            ReferenceRejection::Empty => "Empty",
        }
    }
}

/// One reference.
#[derive(Debug, Clone, PartialEq, Eq)]
pub struct ParsedReference {
    /// The trimmed text of the reference.
    pub raw: String,
    /// The path next to the listing, exactly when nothing was rejected.
    pub resolved: Option<String>,
    pub rejection: Option<ReferenceRejection>,
}

/// The contents of a [`ParsedReference`].
pub struct ReferenceModel {
    pub raw: Seq<char>,
    pub resolved: Option<Seq<char>>,
    pub rejection: Option<ReferenceRejection>,
}

impl View for ParsedReference {
    type V = ReferenceModel;

    open spec fn view(&self) -> ReferenceModel {
        ReferenceModel {
            raw: self.raw@,
            resolved: opt_view(self.resolved),
            rejection: self.rejection,
        }
    }
}

/// The contents of a sequence of references.
pub open spec fn reference_models(s: Seq<ParsedReference>) -> Seq<ReferenceModel> {
    s.map_values(|r: ParsedReference| r@)
}

impl ParsedReference {
    pub fn is_safe(&self) -> (r: bool)
        ensures
            r == (self.rejection is None),
    {
        self.rejection.is_none()
    }
}

/// Why a trimmed reference is rejected, if it is.
pub open spec fn rejection_of(reference: Seq<char>) -> Option<ReferenceRejection> {
    if reference.len() == 0 {
        Some(ReferenceRejection::Empty)
    } else if is_absolute(reference) {
        Some(ReferenceRejection::AbsolutePath)
    } else if components(reference).contains(seq!['.', '.']) {
        Some(ReferenceRejection::ParentTraversal)
    } else {
        None
    }
}

/// What a raw reference below `base_dir` amounts to.
pub open spec fn reference_of(raw: Seq<char>, base_dir: Seq<char>) -> ReferenceModel {
    let reference = trimmed(raw);
    ReferenceModel {
        raw: reference,
        resolved: if rejection_of(reference) is None {
            Some(join(base_dir, reference))
        } else {
            None
        },
        rejection: rejection_of(reference),
    }
}

/// The directory a listing stands in.
pub open spec fn directory_of(path: Seq<char>) -> Seq<char> {
    match parent(path) {
        Some(dir) => dir,
        None => seq![],
    }
}

/// The quoted name of a `FILE "name" TYPE` line.
pub open spec fn cue_name(line: Seq<char>) -> Option<Seq<char>> {
    let t = trimmed(line);
    if has_prefix(t, "FILE"@) || has_prefix(t, "file"@) {
        let rest = trimmed_start(t.skip(4));
        if rest.len() > 0 && rest[0] == '"' {
            let quoted = rest.skip(1);
            let end = first_index(quoted, is_char('"'));
            if 0 <= end < quoted.len() {
                Some(quoted.take(end))
            } else {
                None
            }
        } else {
            None
        }
    } else {
        None
    }
}

/// The references of the `FILE` lines among `lines`, in order.
pub open spec fn cue_references(lines: Seq<Seq<char>>, base_dir: Seq<char>) -> Seq<ReferenceModel>
    decreases lines.len(),
{
    if lines.len() == 0 {
        seq![]
    } else {
        let before = cue_references(lines.drop_last(), base_dir);
        match cue_name(lines.last()) {
            Some(name) => before.push(reference_of(name, base_dir)),
            None => before,
        }
    }
}

/// A playlist line that names a file: neither blank nor a `#` line.
pub open spec fn is_m3u_reference(line: Seq<char>) -> bool {
    let t = trimmed(line);
    t.len() > 0 && t[0] != '#'
}

/// The references among the lines of a playlist, in order.
pub open spec fn m3u_references(lines: Seq<Seq<char>>, base_dir: Seq<char>) -> Seq<ReferenceModel>
    decreases lines.len(),
{
    if lines.len() == 0 {
        seq![]
    } else {
        let before = m3u_references(lines.drop_last(), base_dir);
        if is_m3u_reference(lines.last()) {
            before.push(reference_of(trimmed(lines.last()), base_dir))
        } else {
            before
        }
    }
}

/// A listing within the size bound.
pub open spec fn is_bounded(contents: Seq<char>) -> bool {
    encode_utf8(contents).len() <= MAX_PARSE_BYTES
}

/// The references of a cue sheet.
pub open spec fn cue_listing(cue_path: Seq<char>, contents: Seq<char>) -> Seq<ReferenceModel> {
    if is_bounded(contents) {
        cue_references(split_text(contents, '\n'), directory_of(cue_path))
    } else {
        seq![]
    }
}

/// The references of a playlist.
pub open spec fn m3u_listing(m3u_path: Seq<char>, contents: Seq<char>) -> Seq<ReferenceModel> {
    if is_bounded(contents) {
        m3u_references(split_text(contents, '\n'), directory_of(m3u_path))
    } else {
        seq![]
    }
}

fn has_parent_component(reference: &str) -> (r: bool)
    ensures
        r == components(reference@).contains(seq!['.', '.']),
{
    let parts = components_of(reference);
    let ghost dots: Seq<char> = seq!['.', '.'];
    let mut i: usize = 0;
    while i < parts.len()
        invariant
            i <= parts@.len(),
            views(parts@) == components(reference@),
            dots == seq!['.', '.'],
            forall|j: int| 0 <= j < i ==> views(parts@)[j] != dots,
        decreases parts.len() - i,
    {
        let chars = chars_of(parts[i].as_str());
        assert(views(parts@)[i as int] == chars@);
        if chars.len() == 2 && chars[0] == '.' && chars[1] == '.' {
            assert(chars@ =~= dots);
            return true;
        }
        proof {
            if chars@ == dots {
                assert(chars@.len() == 2 && chars@[0] == '.' && chars@[1] == '.');
            }
        }
        i = i + 1;
    }
    assert(views(parts@).len() == parts@.len());
    false
}

fn resolve_reference(raw: &str, base_dir: &str) -> (r: ParsedReference)
    ensures
        r@ == reference_of(raw@, base_dir@),
{
    let reference = trim(raw);
    if reference.as_str().is_empty() {
        return ParsedReference {
            raw: reference,
            resolved: None,
            rejection: Some(ReferenceRejection::Empty),
        };
    }
    if path_is_absolute(reference.as_str()) {
        return ParsedReference {
            raw: reference,
            resolved: None,
            rejection: Some(ReferenceRejection::AbsolutePath),
        };
    }
    if has_parent_component(reference.as_str()) {
        return ParsedReference {
            raw: reference,
            resolved: None,
            rejection: Some(ReferenceRejection::ParentTraversal),
        };
    }
    let resolved = join_path(base_dir, reference.as_str());
    ParsedReference { raw: reference, resolved: Some(resolved), rejection: None }
}

fn listing_directory(path: &str) -> (r: String)
    ensures
        r@ == directory_of(path@),
{
    match parent_of(path) {
        Some(dir) => dir,
        None => {
            let empty = String::new();
            assert(empty@ =~= seq![]);
            empty
        },
    }
}

fn cue_line_name(line: &str) -> (r: Option<String>)
    ensures
        opt_view(r) == cue_name(line@),
{
    let t = trim(line);
    if !(starts_with(t.as_str(), "FILE") || starts_with(t.as_str(), "file")) {
        return None;
    }
    proof {
        reveal_strlit("FILE");
        reveal_strlit("file");
    }
    let rest = trim_start(text_after(t.as_str(), 4).as_str());
    let chars = chars_of(rest.as_str());
    if chars.len() == 0 || chars[0] != '"' {
        return None;
    }
    let quoted = text_after(rest.as_str(), 1);
    let end: usize = find_char(quoted.as_str(), '"');
    let inner = chars_of(quoted.as_str());
    if end < inner.len() {
        let name = text_of(&inner, 0, end);
        assert(inner@.subrange(0, end as int) =~= inner@.take(end as int));
        Some(name)
    } else {
        None
    }
}

/// The references of the `FILE "name" TYPE` lines of a cue sheet, in order,
/// resolved next to the sheet; other lines are ignored.
pub fn parse_cue_file_references(cue_path: &str, contents: &str) -> (r: Vec<ParsedReference>)
    ensures
        reference_models(r@) == cue_listing(cue_path@, contents@),
{
    let mut out: Vec<ParsedReference> = Vec::new();
    if contents.as_bytes().len() > MAX_PARSE_BYTES {
        assert(reference_models(out@) =~= seq![]);
        return out;
    }
    let base_dir = listing_directory(cue_path);
    let lines = split_char(contents, '\n');
    let ghost all = split_text(contents@, '\n');
    let mut i: usize = 0;
    assert(reference_models(out@) =~= cue_references(all.take(0), base_dir@));
    while i < lines.len()
        invariant
            i <= lines@.len(),
            views(lines@) == all,
            reference_models(out@) == cue_references(all.take(i as int), base_dir@),
        decreases lines.len() - i,
    {
        proof {
            assert(all.take(i + 1).drop_last() =~= all.take(i as int));
            assert(all.take(i + 1).last() == lines@[i as int]@);
        }
        if let Some(name) = cue_line_name(lines[i].as_str()) {
            let reference = resolve_reference(name.as_str(), base_dir.as_str());
            assert(reference_models(out@.push(reference)) =~= reference_models(out@).push(
                reference@,
            ));
            out.push(reference);
        }
        i = i + 1;
    }
    assert(all.len() == lines@.len());
    assert(all.take(i as int) =~= all);
    out
}

/// The references of a playlist: every line that is neither blank nor a `#`
/// line, in order, resolved next to the playlist.
pub fn parse_m3u_references(m3u_path: &str, contents: &str) -> (r: Vec<ParsedReference>)
    ensures
        reference_models(r@) == m3u_listing(m3u_path@, contents@),
{
    let mut out: Vec<ParsedReference> = Vec::new();
    if contents.as_bytes().len() > MAX_PARSE_BYTES {
        assert(reference_models(out@) =~= seq![]);
        return out;
    }
    let base_dir = listing_directory(m3u_path);
    let lines = split_char(contents, '\n');
    let ghost all = split_text(contents@, '\n');
    let mut i: usize = 0;
    assert(reference_models(out@) =~= m3u_references(all.take(0), base_dir@));
    while i < lines.len()
        invariant
            i <= lines@.len(),
            views(lines@) == all,
            reference_models(out@) == m3u_references(all.take(i as int), base_dir@),
        decreases lines.len() - i,
    {
        proof {
            assert(all.take(i + 1).drop_last() =~= all.take(i as int));
            assert(all.take(i + 1).last() == lines@[i as int]@);
        }
        let line = trim(lines[i].as_str());
        let chars = chars_of(line.as_str());
        if chars.len() > 0 && chars[0] != '#' {
            let reference = resolve_reference(line.as_str(), base_dir.as_str());
            assert(reference_models(out@.push(reference)) =~= reference_models(out@).push(
                reference@,
            ));
            out.push(reference);
        }
        i = i + 1;
    }
    assert(all.len() == lines@.len());
    assert(all.take(i as int) =~= all);
    out
}

/// A reference is resolved exactly when nothing was rejected, and then it is
/// relative, not empty and has no `..` component.
pub proof fn resolved_references_are_safe(raw: Seq<char>, base_dir: Seq<char>)
    ensures
        reference_of(raw, base_dir).resolved is Some <==> reference_of(
            raw,
            base_dir,
        ).rejection is None,
        reference_of(raw, base_dir).rejection is None ==> trimmed(raw).len() > 0 && !is_absolute(
            trimmed(raw),
        ) && !components(trimmed(raw)).contains(seq!['.', '.']),
{
}

/// A resolved reference stays below the listing's directory: its path is that
/// of the directory, and what follows has no `..` component.
pub proof fn resolved_references_stay_below(raw: Seq<char>, base_dir: Seq<char>)
    ensures
        match reference_of(raw, base_dir).resolved {
            Some(path) => {
                &&& is_under(path, base_dir)
                &&& !components(path).skip(components(base_dir).len() as int).contains(
                    seq!['.', '.'],
                )
            },
            None => true,
        },
{
    let reference = trimmed(raw);
    if rejection_of(reference) is None {
        let path = join(base_dir, reference);
        let base = components(base_dir);
        if base_dir.len() == 0 {
            assert(path =~= reference);
            assert(base =~= seq![]);
            assert(components(path).subrange(0, 0) =~= base);
            assert(components(path).skip(0) =~= components(path));
        } else {
            join_appends(base_dir, reference);
            segments_are_components(reference);
            assert(components(path).subrange(0, base.len() as int) =~= base);
            assert(components(path).skip(base.len() as int) =~= names(reference, 0));
        }
    }
}

} // verus!
