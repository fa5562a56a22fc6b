//! What a playlist or a cue sheet names, line by line.
use vstd::prelude::*;
use vstd::string::*;
use vstd::utf8::encode_utf8;
use crate::path::{components, join_appends, names, parent, parents_drop_the_last_component};
use crate::platform_evidence_fusion::cue_m3u_parsing::{
    cue_listing, cue_name, cue_references, directory_of, is_m3u_reference, m3u_listing,
    m3u_references, reference_of, ReferenceModel, ReferenceRejection,
};
use crate::seqs::{first_index_unique, has_prefix};
use crate::text::{is_char, is_white_space, joined, split_text, trimmed};
use crate::text_laws::{
    all_white, encoding_is_piecewise, every_text_can_be_trimmed, is_tight,
    pieces_split_at_separators, text_without_separator_is_one_piece,
    trimming_cuts_outer_white_space,
};

verus! {

/// A text small enough to be read.
pub open spec fn is_readable(text: Seq<char>) -> bool {
    encode_utf8(text).len() <= 65536
}

/// A line that names a file in a playlist: its first character that is not
/// white space is not `#`.
pub open spec fn names_a_file(line: Seq<char>) -> bool {
    exists|k: int|
        0 <= k < line.len() && !is_white_space(#[trigger] line[k]) && line[k] != '#'
            && all_white(line.take(k))
}

proof fn readable_parts(a: Seq<char>, b: Seq<char>)
    requires
        is_readable(a + seq!['\n'] + b),
    ensures
        is_readable(a),
        is_readable(b),
        is_readable(a + seq!['\n']),
{
    encoding_is_piecewise(a + seq!['\n'], b);
    encoding_is_piecewise(a, seq!['\n']);
}

proof fn m3u_references_append(a: Seq<Seq<char>>, b: Seq<Seq<char>>, dir: Seq<char>)
    ensures
        m3u_references(a + b, dir) == m3u_references(a, dir) + m3u_references(b, dir),
    decreases b.len(),
{
    if b.len() == 0 {
        assert(a + b =~= a);
        assert(m3u_references(a, dir) + m3u_references(b, dir) =~= m3u_references(a, dir));
    } else {
        m3u_references_append(a, b.drop_last(), dir);
        assert((a + b).drop_last() =~= a + b.drop_last());
        assert(m3u_references(a + b, dir) =~= m3u_references(a, dir) + m3u_references(b, dir));
    }
}

proof fn cue_references_append(a: Seq<Seq<char>>, b: Seq<Seq<char>>, dir: Seq<char>)
    ensures
        cue_references(a + b, dir) == cue_references(a, dir) + cue_references(b, dir),
    decreases b.len(),
{
    if b.len() == 0 {
        assert(a + b =~= a);
        assert(cue_references(a, dir) + cue_references(b, dir) =~= cue_references(a, dir));
    } else {
        cue_references_append(a, b.drop_last(), dir);
        assert((a + b).drop_last() =~= a + b.drop_last());
        assert(cue_references(a + b, dir) =~= cue_references(a, dir) + cue_references(b, dir));
    }
}

/// The references of a listing are those of the lines before a line break,
/// followed by those of the lines behind it.
pub proof fn listings_are_read_line_by_line(path: Seq<char>, head: Seq<char>, rest: Seq<char>)
    requires
        is_readable(head + seq!['\n'] + rest),
    ensures
        m3u_listing(path, head + seq!['\n'] + rest) == m3u_listing(path, head) + m3u_listing(
            path,
            rest,
        ),
        cue_listing(path, head + seq!['\n'] + rest) == cue_listing(path, head) + cue_listing(
            path,
            rest,
        ),
{
    readable_parts(head, rest);
    pieces_split_at_separators(head, '\n', rest, is_char('\n'));
    let a = split_text(head, '\n');
    let b = split_text(rest, '\n');
    m3u_references_append(a, b, directory_of(path));
    cue_references_append(a, b, directory_of(path));
}

proof fn one_line(path: Seq<char>, line: Seq<char>)
    requires
        is_readable(line),
        !line.contains('\n'),
    ensures
        m3u_listing(path, line) == (if is_m3u_reference(line) {
            seq![reference_of(trimmed(line), directory_of(path))]
        } else {
            seq![]
        }),
        cue_listing(path, line) == match cue_name(line) {
            Some(name) => seq![reference_of(name, directory_of(path))],
            None => seq![],
        },
{
    text_without_separator_is_one_piece(line, '\n');
    let lines = seq![line];
    let dir = directory_of(path);
    assert(lines.drop_last() =~= seq![]);
    assert(m3u_references(seq![], dir) =~= seq![]);
    assert(cue_references(seq![], dir) =~= seq![]);
    assert(m3u_references(lines, dir) =~= (if is_m3u_reference(line) {
        seq![reference_of(trimmed(line), dir)]
    } else {
        seq![]
    }));
    assert(cue_references(lines, dir) =~= match cue_name(line) {
        Some(name) => seq![reference_of(name, dir)],
        None => seq![],
    });
}

/// `reference` is what `name` refers to next to the listing at `path`. An
/// absolute path, and one that climbs by `..`, is rejected; any other is resolved
/// to the segments of the name below the listing's directory.
pub open spec fn refers_to(reference: ReferenceModel, name: Seq<char>, path: Seq<char>) -> bool {
    &&& reference.raw == name
    &&& reference.rejection == if name.len() == 0 {
        Some(ReferenceRejection::Empty)
    } else if name[0] == '/' {
        Some(ReferenceRejection::AbsolutePath)
    } else if components(name).contains(seq!['.', '.']) {
        Some(ReferenceRejection::ParentTraversal)
    } else {
        None
    }
    &&& reference.resolved is Some <==> reference.rejection is None
    &&& reference.resolved matches Some(file) ==> if components(path).len() >= 2 {
        components(file) == components(path).drop_last() + names(name, 0)
    } else {
        file == name
    }
}

proof fn references_resolve_next_to_the_listing(name: Seq<char>, path: Seq<char>)
    requires
        is_tight(name),
    ensures
        refers_to(reference_of(name, directory_of(path)), name, path),
{
    let dir = directory_of(path);
    trimming_cuts_outer_white_space(seq![], name, seq![]);
    assert(Seq::<char>::empty() + name + Seq::<char>::empty() =~= name);
    parents_drop_the_last_component(path);
    let reference = reference_of(name, dir);
    if reference.resolved is Some {
        if components(path).len() >= 2 {
            assert(components(path).len() != seq![seq!['/']].len());
            assert(parent(path) is Some);
            if dir.len() == 0 {
                assert(components(dir) =~= seq![]);
            }
            join_appends(dir, name);
        } else {
            if parent(path) is Some {
                assert(components(dir).len() == 0);
                if dir.len() > 0 {
                    short_paths_have_components(dir);
                }
            }
            assert(crate::path::join(dir, name) =~= name);
        }
    }
}

/// Only the empty text names no component.
proof fn short_paths_have_components(dir: Seq<char>)
    requires
        dir.len() > 0,
        exists|path: Seq<char>| #[trigger] parent(path) == Some(dir),
    ensures
        components(dir).len() > 0,
{
    let path = choose|path: Seq<char>| #[trigger] parent(path) == Some(dir);
    crate::path::parents_that_are_not_empty(path);
}

/// A line of a playlist that names a file is one reference, to the text between
/// the white space around it.
pub proof fn a_file_line_is_one_reference(
    path: Seq<char>,
    lead: Seq<char>,
    name: Seq<char>,
    tail: Seq<char>,
)
    requires
        all_white(lead),
        all_white(tail),
        is_tight(name),
        name.len() > 0,
        name[0] != '#',
        !(lead + name + tail).contains('\n'),
        is_readable(lead + name + tail),
    ensures
        m3u_listing(path, lead + name + tail).len() == 1,
        refers_to(m3u_listing(path, lead + name + tail)[0], name, path),
{
    one_line(path, lead + name + tail);
    trimming_cuts_outer_white_space(lead, name, tail);
    references_resolve_next_to_the_listing(name, path);
}

/// A blank line of a playlist, and one that begins with `#` behind white space,
/// is no reference.
pub proof fn blank_and_comment_lines_are_no_references(
    path: Seq<char>,
    lead: Seq<char>,
    rest: Seq<char>,
)
    requires
        all_white(lead),
        rest.len() == 0 || rest[0] == '#',
        !(lead + rest).contains('\n'),
        is_readable(lead + rest),
    ensures
        m3u_listing(path, lead + rest).len() == 0,
{
    let line = lead + rest;
    one_line(path, line);
    let (a, core, b) = every_text_can_be_trimmed(line);
    if core.len() > 0 {
        let k = a.len() as int;
        assert(line[k] == core[0]);
        if k < lead.len() {
            assert(line[k] == lead[k]);
        } else if k > lead.len() {
            assert(line[lead.len() as int] == a[lead.len() as int]);
            assert(rest[0] == line[lead.len() as int]);
            assert(!is_white_space('#'));
        }
    }
}

/// A line break at the end of a listing changes nothing.
pub proof fn final_line_breaks_change_nothing(path: Seq<char>, text: Seq<char>)
    requires
        is_readable(text + seq!['\n']),
    ensures
        m3u_listing(path, text + seq!['\n']) == m3u_listing(path, text),
        cue_listing(path, text + seq!['\n']) == cue_listing(path, text),
{
    let none = Seq::<char>::empty();
    assert(text + seq!['\n'] + none =~= text + seq!['\n']);
    listings_are_read_line_by_line(path, text, none);
    one_line(path, none);
    trimming_cuts_outer_white_space(none, none, none);
    assert(none + none + none =~= none);
    assert(cue_name(none) is None) by {
        reveal_strlit("FILE");
        reveal_strlit("file");
    }
    assert(m3u_listing(path, text) + Seq::<ReferenceModel>::empty() =~= m3u_listing(path, text));
    assert(cue_listing(path, text) + Seq::<ReferenceModel>::empty() =~= cue_listing(path, text));
}

/// How many of the lines name a file.
pub open spec fn files_named(lines: Seq<Seq<char>>) -> nat
    decreases lines.len(),
{
    if lines.len() == 0 {
        0
    } else if names_a_file(lines.last()) {
        files_named(lines.drop_last()) + 1
    } else {
        files_named(lines.drop_last())
    }
}

proof fn file_lines_count(line: Seq<char>)
    ensures
        is_m3u_reference(line) <==> names_a_file(line),
{
    let (lead, core, tail) = every_text_can_be_trimmed(line);
    if core.len() > 0 {
        let k = lead.len() as int;
        assert(line[k] == core[0]);
        assert(line.take(k) =~= lead);
    }
    if names_a_file(line) {
        let k = choose|k: int|
            0 <= k < line.len() && !is_white_space(#[trigger] line[k]) && line[k] != '#'
                && all_white(line.take(k));
        let n = lead.len() as int;
        if k < n {
            assert(line[k] == lead[k]);
        } else if core.len() == 0 {
            assert(line[k] == tail[k - n]);
        } else if n < k {
            assert(line[n] == line.take(k)[n]);
            assert(line[n] == core[0]);
        }
    }
}

/// A playlist has as many references as it has lines that name a file, whether
/// or not a line break follows the last one.
pub proof fn every_file_line_counts(path: Seq<char>, lines: Seq<Seq<char>>)
    requires
        lines.len() > 0,
        forall|i: int| 0 <= i < lines.len() ==> !(#[trigger] lines[i]).contains('\n'),
        is_readable(joined(lines, seq!['\n'])),
    ensures
        m3u_listing(path, joined(lines, seq!['\n'])).len() == files_named(lines),
        is_readable(joined(lines, seq!['\n']) + seq!['\n']) ==> m3u_listing(
            path,
            joined(lines, seq!['\n']) + seq!['\n'],
        ).len() == files_named(lines),
    decreases lines.len(),
{
    let nl = seq!['\n'];
    let last = lines.last();
    assert(last == lines[lines.len() - 1]);
    file_lines_count(last);
    if lines.len() == 1 {
        one_line(path, lines[0]);
        assert(lines.drop_last() =~= seq![]);
        assert(files_named(lines.drop_last()) == 0);
    } else {
        let rest = lines.drop_last();
        let head = joined(rest, nl);
        readable_parts(head, last);
        assert forall|i: int| 0 <= i < rest.len() implies !(#[trigger] rest[i]).contains('\n') by {
            assert(rest[i] == lines[i]);
        }
        every_file_line_counts(path, rest);
        listings_are_read_line_by_line(path, head, last);
        one_line(path, last);
    }
    if is_readable(joined(lines, nl) + nl) {
        final_line_breaks_change_nothing(path, joined(lines, nl));
    }
}

/// A listing that is too large is not read.
pub proof fn oversized_listings_are_not_read(path: Seq<char>, text: Seq<char>)
    requires
        !is_readable(text),
    ensures
        m3u_listing(path, text).len() == 0,
        cue_listing(path, text).len() == 0,
{
}

/// A `FILE "name" ..` line of a cue sheet is one reference, to the quoted name.
pub proof fn a_cue_file_line_is_one_reference(
    path: Seq<char>,
    lead: Seq<char>,
    keyword: Seq<char>,
    gap: Seq<char>,
    name: Seq<char>,
    rest: Seq<char>,
    tail: Seq<char>,
)
    requires
        all_white(lead),
        keyword == "FILE"@ || keyword == "file"@,
        all_white(gap),
        is_tight(name),
        !name.contains('"'),
        rest.len() > 0 ==> !is_white_space(rest[rest.len() - 1]),
        all_white(tail),
        !(lead + (keyword + gap + seq!['"'] + name + seq!['"'] + rest) + tail).contains('\n'),
        is_readable(lead + (keyword + gap + seq!['"'] + name + seq!['"'] + rest) + tail),
    ensures
        ({
            let line = lead + (keyword + gap + seq!['"'] + name + seq!['"'] + rest) + tail;
            &&& cue_listing(path, line).len() == 1
            &&& refers_to(cue_listing(path, line)[0], name, path)
        }),
{
    let core = keyword + gap + seq!['"'] + name + seq!['"'] + rest;
    let line = lead + core + tail;
    reveal_strlit("FILE");
    reveal_strlit("file");
    one_line(path, line);
    assert(core[0] == 'F' || core[0] == 'f');
    if rest.len() > 0 {
        assert(core[core.len() - 1] == rest[rest.len() - 1]);
    } else {
        assert(core[core.len() - 1] == '"');
    }
    trimming_cuts_outer_white_space(lead, core, tail);
    assert(core.subrange(0, 4) =~= keyword);
    assert(has_prefix(core, keyword));
    let quoted = name + seq!['"'] + rest;
    let behind = seq!['"'] + quoted;
    assert(core.skip(4) =~= gap + behind);
    let p = crate::text::white();
    assert forall|i: int| 0 <= i < gap.len() implies p(#[trigger] (gap + behind)[i]) by {
        assert((gap + behind)[i] == gap[i]);
    }
    assert((gap + behind)[gap.len() as int] == '"');
    crate::seqs::skip_front_run(gap + behind, p, gap.len() as int);
    assert((gap + behind).skip(gap.len() as int) =~= behind);
    assert(behind.skip(1) =~= quoted);
    let q = is_char('"');
    assert forall|i: int| 0 <= i < name.len() implies !q(#[trigger] quoted[i]) by {
        assert(name.contains(name[i]));
    }
    assert(q(quoted[name.len() as int]));
    first_index_unique(quoted, q, name.len() as int);
    assert(quoted.take(name.len() as int) =~= name);
    references_resolve_next_to_the_listing(name, path);
}

/// A line of a cue sheet that does not begin with `FILE` names nothing.
pub proof fn other_cue_lines_name_nothing(
    path: Seq<char>,
    lead: Seq<char>,
    rest: Seq<char>,
)
    requires
        all_white(lead),
        rest.len() > 0 ==> !is_white_space(rest[0]),
        rest.len() >= 4 ==> rest.take(4) != "FILE"@ && rest.take(4) != "file"@,
        !(lead + rest).contains('\n'),
        is_readable(lead + rest),
    ensures
        cue_listing(path, lead + rest).len() == 0,
{
    let line = lead + rest;
    one_line(path, line);
    reveal_strlit("FILE");
    reveal_strlit("file");
    let (a, core, b) = every_text_can_be_trimmed(line);
    if core.len() >= 4 {
        let k = a.len() as int;
        assert(line[k] == core[0]);
        if k < lead.len() {
            assert(line[k] == lead[k]);
        } else if k > lead.len() {
            assert(line[lead.len() as int] == a[lead.len() as int]);
            assert(rest[0] == line[lead.len() as int]);
        }
        assert(rest.take(4) =~= core.subrange(0, 4)) by {
            assert(rest =~= line.skip(k));
            assert(line.skip(k) =~= core + b);
        }
    }
}

/// A `FILE` line whose name does not stand between two quotes names nothing.
pub proof fn cue_names_need_both_quotes(
    path: Seq<char>,
    lead: Seq<char>,
    keyword: Seq<char>,
    gap: Seq<char>,
    rest: Seq<char>,
    tail: Seq<char>,
)
    requires
        all_white(lead),
        keyword == "FILE"@ || keyword == "file"@,
        all_white(gap),
        is_tight(rest),
        rest.len() > 0 ==> rest[0] != '"' || !rest.skip(1).contains('"'),
        rest.len() == 0 ==> gap.len() == 0,
        all_white(tail),
        !(lead + (keyword + gap + rest) + tail).contains('\n'),
        is_readable(lead + (keyword + gap + rest) + tail),
    ensures
        cue_listing(path, lead + (keyword + gap + rest) + tail).len() == 0,
{
    let core = keyword + gap + rest;
    let line = lead + core + tail;
    reveal_strlit("FILE");
    reveal_strlit("file");
    one_line(path, line);
    assert(core[0] == 'F' || core[0] == 'f');
    if rest.len() > 0 {
        assert(core[core.len() - 1] == rest[rest.len() - 1]);
    } else {
        assert(core[core.len() - 1] == 'E' || core[core.len() - 1] == 'e');
    }
    trimming_cuts_outer_white_space(lead, core, tail);
    assert(core.skip(4) =~= gap + rest);
    let p = crate::text::white();
    assert forall|i: int| 0 <= i < gap.len() implies p(#[trigger] (gap + rest)[i]) by {
        assert((gap + rest)[i] == gap[i]);
    }
    if rest.len() > 0 {
        assert((gap + rest)[gap.len() as int] == rest[0]);
    }
    crate::seqs::skip_front_run(gap + rest, p, gap.len() as int);
    assert((gap + rest).skip(gap.len() as int) =~= rest);
    if rest.len() > 0 && rest[0] == '"' {
        let quoted = rest.skip(1);
        let q = is_char('"');
        assert forall|i: int| 0 <= i < quoted.len() implies !q(#[trigger] quoted[i]) by {
            assert(quoted.contains(quoted[i]));
        }
        first_index_unique(quoted, q, quoted.len() as int);
    }
}

} // verus!
