//! Slash-separated paths as text.
//!
//! A path is read as its components: a leading `/`, a leading `.`, and the
//! segments between separators, where empty segments and later `.` segments
//! do not count. Two paths are the same when their components are.
use vstd::prelude::*;
use vstd::string::*;
use crate::order::{is_preorder, stable_sort, stable_sorted};
use crate::seqs::{first_index, first_index_props, first_index_unique, pieces_step};
use crate::text::{
    chars_of, is_char, same_text, split_text, text_at_most, text_le, text_le_antisymmetric,
    text_le_total, text_le_transitive, text_of,
};

verus! {

/// A path that starts at the root.
pub open spec fn is_absolute(s: Seq<char>) -> bool {
    s.len() > 0 && s[0] == '/'
}

/// A relative path whose first segment is `.`.
pub open spec fn starts_at_dot(s: Seq<char>) -> bool {
    s.len() > 0 && s[0] == '.' && (s.len() == 1 || s[1] == '/')
}

/// Where the segments begin: behind a leading `/` or `.`.
pub open spec fn body_start(s: Seq<char>) -> int {
    if is_absolute(s) || starts_at_dot(s) {
        1
    } else {
        0
    }
}

/// A segment that does not count: empty or `.`.
pub open spec fn is_skipped(segment: Seq<char>) -> bool {
    segment == Seq::<char>::empty() || segment == seq!['.']
}

/// The bounds in `s` of the segments that count, from index `i` on.
pub open spec fn spans(s: Seq<char>, i: int) -> Seq<(int, int)>
    decreases s.len() - i,
{
    if 0 <= i < s.len() {
        let k = first_index(s.skip(i), is_char('/'));
        let tail = if 0 <= k < s.len() - i {
            spans(s, i + k + 1)
        } else {
            seq![]
        };
        if is_skipped(s.subrange(i, i + k)) {
            tail
        } else {
            seq![(i, i + k)] + tail
        }
    } else {
        seq![]
    }
}

/// The bounds in `s` of all segments that count.
pub open spec fn body_spans(s: Seq<char>) -> Seq<(int, int)> {
    spans(s, body_start(s))
}

/// The text between the bounds `b`.
pub open spec fn span_text(s: Seq<char>, b: (int, int)) -> Seq<char> {
    s.subrange(b.0, b.1)
}

/// The components of a path, in order; the root is the component `/`.
pub open spec fn components(s: Seq<char>) -> Seq<Seq<char>> {
    let body = body_spans(s).map_values(|b: (int, int)| span_text(s, b));
    if is_absolute(s) {
        seq![seq!['/']] + body
    } else if starts_at_dot(s) {
        seq![seq!['.']] + body
    } else {
        body
    }
}

/// The final component, unless it is `/`, `.` or `..`.
pub open spec fn file_name(s: Seq<char>) -> Option<Seq<char>> {
    let b = body_spans(s);
    if b.len() > 0 && span_text(s, b.last()) != seq!['.', '.'] {
        Some(span_text(s, b.last()))
    } else {
        None
    }
}

/// The path without its final component; `None` for the root and for the
/// empty path.
pub open spec fn parent(s: Seq<char>) -> Option<Seq<char>> {
    let b = body_spans(s);
    if b.len() > 1 {
        Some(s.take(b[b.len() - 2].1))
    } else if b.len() == 1 {
        Some(s.take(body_start(s)))
    } else if starts_at_dot(s) {
        Some(seq![])
    } else {
        None
    }
}

/// The number of characters of `name` in front of its last `.`; 0 if there is
/// none.
pub open spec fn last_dot(name: Seq<char>) -> int
    decreases name.len(),
{
    if name.len() == 0 {
        0
    } else if name.last() == '.' {
        name.len() - 1
    } else {
        last_dot(name.drop_last())
    }
}

/// The file name without its extension; a name that only starts with a dot has
/// none.
pub open spec fn file_stem(s: Seq<char>) -> Option<Seq<char>> {
    match file_name(s) {
        Some(name) => Some(
            if last_dot(name) > 0 {
                name.take(last_dot(name))
            } else {
                name
            },
        ),
        None => None,
    }
}

/// What follows the last dot of the file name, unless that dot is its first
/// character.
pub open spec fn extension(s: Seq<char>) -> Option<Seq<char>> {
    match file_name(s) {
        Some(name) => if last_dot(name) > 0 {
            Some(name.skip(last_dot(name) + 1))
        } else {
            None
        },
        None => None,
    }
}

/// `path` below `base`; an absolute `path` stands for itself.
pub open spec fn join(base: Seq<char>, path: Seq<char>) -> Seq<char> {
    if is_absolute(path) {
        path
    } else if base.len() > 0 && base.last() != '/' {
        base + seq!['/'] + path
    } else {
        base + path
    }
}

/// The components of `base` are the first components of `s`.
pub open spec fn is_under(s: Seq<char>, base: Seq<char>) -> bool {
    crate::seqs::has_prefix(components(s), components(base))
}

/// Components sort as root, `.`, `..`, then names.
pub open spec fn component_rank(c: Seq<char>) -> int {
    if c == seq!['/'] {
        0
    } else if c == seq!['.'] {
        1
    } else if c == seq!['.', '.'] {
        2
    } else {
        3
    }
}

/// The order of components: by rank, names among themselves by code point.
pub open spec fn component_le(a: Seq<char>, b: Seq<char>) -> bool {
    component_rank(a) < component_rank(b) || (component_rank(a) == component_rank(b) && text_le(
        a,
        b,
    ))
}

/// Lexicographic order of component sequences.
pub open spec fn components_le(a: Seq<Seq<char>>, b: Seq<Seq<char>>) -> bool
    decreases a.len(),
{
    if a.len() == 0 {
        true
    } else if b.len() == 0 {
        false
    } else if a[0] == b[0] {
        components_le(a.drop_first(), b.drop_first())
    } else {
        component_le(a[0], b[0])
    }
}

/// The order of paths: component by component.
pub open spec fn path_le(a: Seq<char>, b: Seq<char>) -> bool {
    components_le(components(a), components(b))
}

/// [`path_le`] as an order of strings.
pub open spec fn path_order() -> spec_fn(String, String) -> bool {
    |a: String, b: String| path_le(a@, b@)
}

proof fn component_le_laws(a: Seq<char>, b: Seq<char>, c: Seq<char>)
    ensures
        component_le(a, b) || component_le(b, a),
        component_le(a, b) && component_le(b, a) ==> a == b,
        component_le(a, b) && component_le(b, c) ==> component_le(a, c),
{
    text_le_total(a, b);
    if text_le(a, b) && text_le(b, a) {
        text_le_antisymmetric(a, b);
    }
    if text_le(a, b) && text_le(b, c) {
        text_le_transitive(a, b, c);
    }
}

pub proof fn components_le_total(a: Seq<Seq<char>>, b: Seq<Seq<char>>)
    ensures
        components_le(a, b) || components_le(b, a),
    decreases a.len(),
{
    if a.len() > 0 && b.len() > 0 {
        component_le_laws(a[0], b[0], a[0]);
        if a[0] == b[0] {
            components_le_total(a.drop_first(), b.drop_first());
        }
    }
}

pub proof fn components_le_antisymmetric(a: Seq<Seq<char>>, b: Seq<Seq<char>>)
    requires
        components_le(a, b),
        components_le(b, a),
    ensures
        a == b,
    decreases a.len(),
{
    if a.len() > 0 && b.len() > 0 {
        component_le_laws(a[0], b[0], a[0]);
        if a[0] == b[0] {
            components_le_antisymmetric(a.drop_first(), b.drop_first());
            assert(a =~= seq![a[0]] + a.drop_first());
            assert(b =~= seq![b[0]] + b.drop_first());
        }
    } else {
        assert(a =~= b);
    }
}

pub proof fn components_le_transitive(a: Seq<Seq<char>>, b: Seq<Seq<char>>, c: Seq<Seq<char>>)
    requires
        components_le(a, b),
        components_le(b, c),
    ensures
        components_le(a, c),
    decreases a.len(),
{
    if a.len() > 0 && b.len() > 0 && c.len() > 0 {
        component_le_laws(a[0], b[0], c[0]);
        component_le_laws(b[0], c[0], a[0]);
        component_le_laws(c[0], a[0], b[0]);
        if a[0] == b[0] && b[0] == c[0] {
            components_le_transitive(a.drop_first(), b.drop_first(), c.drop_first());
        }
    }
}

/// The order of paths is a total preorder.
pub proof fn path_order_is_preorder()
    ensures
        is_preorder(path_order()),
{
    let le = path_order();
    assert forall|a: String, b: String| #[trigger] le(a, b) || #[trigger] le(b, a) by {
        components_le_total(components(a@), components(b@));
    }
    assert forall|a: String, b: String, c: String| #[trigger] le(a, b) && #[trigger] le(
        b,
        c,
    ) implies le(a, c) by {
        components_le_transitive(components(a@), components(b@), components(c@));
    }
}

/// Bounds as integers.
pub open spec fn as_ints(v: Seq<(usize, usize)>) -> Seq<(int, int)> {
    v.map_values(|b: (usize, usize)| (b.0 as int, b.1 as int))
}

proof fn spans_in_range(s: Seq<char>, i: int)
    requires
        0 <= i,
    ensures
        forall|k: int|
            0 <= k < spans(s, i).len() ==> i <= (#[trigger] spans(s, i)[k]).0 < spans(s, i)[k].1
                <= s.len(),
    decreases s.len() - i,
{
    if 0 <= i < s.len() {
        let k = first_index(s.skip(i), is_char('/'));
        first_index_props(s.skip(i), is_char('/'));
        if k < s.len() - i {
            spans_in_range(s, i + k + 1);
        }
        if !is_skipped(s.subrange(i, i + k)) {
            assert(k > 0) by {
                if k == 0 {
                    assert(s.subrange(i, i) =~= Seq::<char>::empty());
                }
            }
        }
        let tail = if k < s.len() - i {
            spans(s, i + k + 1)
        } else {
            seq![]
        };
        assert forall|n: int| 0 <= n < spans(s, i).len() implies i <= (#[trigger] spans(s, i)[n]).0
            < spans(s, i)[n].1 <= s.len() by {
            if is_skipped(s.subrange(i, i + k)) {
                assert(spans(s, i)[n] == tail[n]);
            } else if n > 0 {
                assert(spans(s, i)[n] == tail[n - 1]);
            }
        }
    }
}

proof fn spans_ascend(s: Seq<char>, i: int)
    requires
        0 <= i,
    ensures
        forall|a: int, b: int|
            0 <= a < b < spans(s, i).len() ==> (#[trigger] spans(s, i)[a]).1 < (
            #[trigger] spans(s, i)[b]).0,
    decreases s.len() - i,
{
    if 0 <= i < s.len() {
        let k = first_index(s.skip(i), is_char('/'));
        first_index_props(s.skip(i), is_char('/'));
        if k < s.len() - i {
            spans_ascend(s, i + k + 1);
            spans_in_range(s, i + k + 1);
        }
        let tail = if k < s.len() - i {
            spans(s, i + k + 1)
        } else {
            seq![]
        };
        assert forall|a: int, b: int| 0 <= a < b < spans(s, i).len() implies (
        #[trigger] spans(s, i)[a]).1 < (#[trigger] spans(s, i)[b]).0 by {
            if is_skipped(s.subrange(i, i + k)) {
                assert(spans(s, i)[a] == tail[a] && spans(s, i)[b] == tail[b]);
            } else {
                assert(spans(s, i)[b] == tail[b - 1]);
                if a > 0 {
                    assert(spans(s, i)[a] == tail[a - 1]);
                }
            }
        }
    }
}

/// A parent's text is shorter than its child's.
pub proof fn parent_is_shorter(s: Seq<char>)
    ensures
        match parent(s) {
            Some(p) => p.len() < s.len(),
            None => true,
        },
{
    let b = body_spans(s);
    spans_in_range(s, body_start(s));
    spans_ascend(s, body_start(s));
    if b.len() > 1 {
        assert(b[b.len() - 2].1 < b[b.len() - 1].0);
    } else if b.len() == 1 {
        assert(body_start(s) <= b[0].0 < b[0].1 <= s.len());
    }
}

fn body_start_of(chars: &Vec<char>) -> (r: usize)
    ensures
        r == body_start(chars@),
        r <= chars@.len(),
{
    if chars.len() > 0 && chars[0] == '/' {
        1
    } else if chars.len() > 0 && chars[0] == '.' && (chars.len() == 1 || chars[1] == '/') {
        1
    } else {
        0
    }
}

fn body_spans_of(chars: &Vec<char>) -> (r: Vec<(usize, usize)>)
    ensures
        as_ints(r@) == body_spans(chars@),
        forall|k: int|
            0 <= k < r@.len() ==> body_start(chars@) <= (#[trigger] r@[k]).0 < r@[k].1
                <= chars@.len(),
{
    let start: usize = body_start_of(chars);
    let mut out: Vec<(usize, usize)> = Vec::new();
    let mut i: usize = start;
    assert(as_ints(out@) + spans(chars@, start as int) =~= spans(chars@, start as int));
    while i < chars.len()
        invariant
            start <= i,
            i <= chars.len() + 1,
            as_ints(out@) + spans(chars@, i as int) == spans(chars@, start as int),
        decreases chars.len() + 1 - i,
    {
        let mut j: usize = i;
        while j < chars.len() && chars[j] != '/'
            invariant
                i <= j <= chars@.len(),
                forall|k: int| i <= k < j ==> !is_char('/')(#[trigger] chars@[k]),
            decreases chars.len() - j,
        {
            j = j + 1;
        }
        proof {
            let rest = chars@.skip(i as int);
            assert forall|k: int| 0 <= k < j - i implies !is_char('/')(#[trigger] rest[k]) by {
                assert(rest[k] == chars@[i + k]);
            }
            first_index_unique(rest, is_char('/'), j - i);
        }
        let skipped = i == j || (j - i == 1 && chars[i] == '.');
        proof {
            let segment = chars@.subrange(i as int, j as int);
            if i == j {
                assert(segment =~= Seq::<char>::empty());
            } else if j - i == 1 {
                assert(segment[0] == chars@[i as int]);
                if chars@[i as int] == '.' {
                    assert(segment =~= seq!['.']);
                }
            }
            assert(segment.len() == j - i);
            assert(seq!['.'][0] == '.');
            assert(skipped == is_skipped(segment));
            let tail = if j < chars@.len() {
                spans(chars@, j + 1)
            } else {
                seq![]
            };
            assert(as_ints(out@.push((i, j))) =~= as_ints(out@).push((i as int, j as int)));
            assert(as_ints(out@) + (seq![(i as int, j as int)] + tail) =~= as_ints(
                out@.push((i, j)),
            ) + tail);
        }
        if !skipped {
            out.push((i, j));
        }
        if j == chars.len() {
            i = j;
            assert(spans(chars@, i as int) =~= Seq::empty());
        } else {
            i = j + 1;
        }
    }
    proof {
        assert(spans(chars@, i as int) =~= Seq::empty());
        assert(as_ints(out@) =~= body_spans(chars@));
        spans_in_range(chars@, start as int);
        assert forall|k: int| 0 <= k < out@.len() implies start <= (#[trigger] out@[k]).0
            < out@[k].1 <= chars@.len() by {
            assert(as_ints(out@)[k] == (out@[k].0 as int, out@[k].1 as int));
        }
    }
    out
}

/// The components of a path, as strings.
pub fn components_of(path: &str) -> (r: Vec<String>)
    ensures
        crate::text::views(r@) == components(path@),
{
    let chars = chars_of(path);
    let bounds = body_spans_of(&chars);
    let mut out: Vec<String> = Vec::new();
    let ghost mut head = Seq::<Seq<char>>::empty();
    if chars.len() > 0 && chars[0] == '/' {
        let root = text_of(&chars, 0, 1);
        out.push(root);
        proof {
            assert(root@ =~= seq!['/']);
            head = seq![seq!['/']];
        }
    } else if body_start_of(&chars) == 1 {
        let dot = text_of(&chars, 0, 1);
        out.push(dot);
        proof {
            assert(dot@ =~= seq!['.']);
            head = seq![seq!['.']];
        }
    }
    let ghost body = body_spans(path@).map_values(|b: (int, int)| span_text(path@, b));
    let mut i: usize = 0;
    assert(crate::text::views(out@) =~= head + body.take(0));
    while i < bounds.len()
        invariant
            i <= bounds@.len(),
            chars@ == path@,
            as_ints(bounds@) == body_spans(path@),
            body == body_spans(path@).map_values(|b: (int, int)| span_text(path@, b)),
            forall|k: int| 0 <= k < bounds@.len() ==> (#[trigger] bounds@[k]).0 < bounds@[k].1 <= chars@.len(),
            crate::text::views(out@) == head + body.take(i as int),
        decreases bounds.len() - i,
    {
        let (from, to) = bounds[i];
        let piece = text_of(&chars, from, to);
        proof {
            assert(as_ints(bounds@)[i as int] == (from as int, to as int));
            assert(body[i as int] == piece@);
            assert(crate::text::views(out@.push(piece)) =~= crate::text::views(out@).push(piece@));
            assert(head + body.take(i + 1) =~= (head + body.take(i as int)).push(piece@));
        }
        out.push(piece);
        i = i + 1;
    }
    assert(as_ints(bounds@).len() == bounds@.len());
    assert(body.take(i as int) =~= body);
    assert(head + body =~= components(path@));
    out
}

/// Whether a path starts at the root.
pub fn path_is_absolute(path: &str) -> (r: bool)
    ensures
        r == is_absolute(path@),
{
    let chars = chars_of(path);
    chars.len() > 0 && chars[0] == '/'
}

/// Whether two paths have the same components.
pub fn same_path(a: &str, b: &str) -> (r: bool)
    ensures
        r == (components(a@) == components(b@)),
{
    let x = components_of(a);
    let y = components_of(b);
    if x.len() != y.len() {
        assert(crate::text::views(x@).len() != crate::text::views(y@).len());
        return false;
    }
    let mut i: usize = 0;
    while i < x.len()
        invariant
            i <= x@.len(),
            x@.len() == y@.len(),
            forall|j: int| 0 <= j < i ==> x@[j]@ == y@[j]@,
            crate::text::views(x@) == components(a@),
            crate::text::views(y@) == components(b@),
        decreases x.len() - i,
    {
        if !same_text(x[i].as_str(), y[i].as_str()) {
            assert(crate::text::views(x@)[i as int] != crate::text::views(y@)[i as int]);
            return false;
        }
        i = i + 1;
    }
    assert(crate::text::views(x@) =~= crate::text::views(y@));
    true
}

fn rank_of(c: &str) -> (r: u8)
    ensures
        r == component_rank(c@),
{
    let chars = chars_of(c);
    if chars.len() == 1 && chars[0] == '/' {
        assert(c@ =~= seq!['/']);
        0
    } else if chars.len() == 1 && chars[0] == '.' {
        assert(c@ =~= seq!['.']);
        1
    } else if chars.len() == 2 && chars[0] == '.' && chars[1] == '.' {
        assert(c@ =~= seq!['.', '.']);
        2
    } else {
        proof {
            if c@ == seq!['/'] {
                assert(c@[0] == '/');
            }
            if c@ == seq!['.'] {
                assert(c@[0] == '.');
            }
            if c@ == seq!['.', '.'] {
                assert(c@[0] == '.' && c@[1] == '.');
            }
        }
        3
    }
}

/// Whether `a` comes no later than `b` in the order of paths.
pub fn path_at_most(a: &str, b: &str) -> (r: bool)
    ensures
        r == path_le(a@, b@),
{
    let x = components_of(a);
    let y = components_of(b);
    let ghost xs = components(a@);
    let ghost ys = components(b@);
    let mut i: usize = 0;
    assert(xs.skip(0) =~= xs);
    assert(ys.skip(0) =~= ys);
    while i < x.len()
        invariant
            i <= x@.len(),
            i <= y@.len(),
            crate::text::views(x@) == xs,
            crate::text::views(y@) == ys,
            xs == components(a@),
            ys == components(b@),
            components_le(xs, ys) == components_le(xs.skip(i as int), ys.skip(i as int)),
        decreases x.len() - i,
    {
        assert(xs.len() == x@.len());
        assert(ys.len() == y@.len());
        if i == y.len() {
            return false;
        }
        assert(xs.skip(i as int).drop_first() =~= xs.skip(i + 1));
        assert(ys.skip(i as int).drop_first() =~= ys.skip(i + 1));
        assert(xs[i as int] == x@[i as int]@);
        assert(ys[i as int] == y@[i as int]@);
        if !same_text(x[i].as_str(), y[i].as_str()) {
            let p: u8 = rank_of(x[i].as_str());
            let q: u8 = rank_of(y[i].as_str());
            return p < q || (p == q && text_at_most(x[i].as_str(), y[i].as_str()));
        }
        i = i + 1;
    }
    assert(xs.len() == x@.len());
    true
}

/// The paths in ascending order.
pub fn sort_paths(paths: Vec<String>) -> (r: Vec<String>)
    ensures
        r@ == stable_sorted(paths@, path_order()),
{
    stable_sort(paths, path_string_at_most, Ghost(path_order()))
}

fn path_string_at_most(a: &String, b: &String) -> (r: bool)
    ensures
        r == path_le(a@, b@),
{
    path_at_most(a.as_str(), b.as_str())
}

/// The final component, unless it is `/`, `.` or `..`.
pub fn file_name_of(path: &str) -> (r: Option<String>)
    ensures
        crate::text::opt_view(r) == file_name(path@),
{
    let chars = chars_of(path);
    let bounds = body_spans_of(&chars);
    assert(as_ints(bounds@).len() == bounds@.len());
    if bounds.len() == 0 {
        return None;
    }
    let (from, to) = bounds[bounds.len() - 1];
    assert(as_ints(bounds@).last() == (from as int, to as int));
    let name = text_of(&chars, from, to);
    let ghost dots = seq!['.', '.'];
    if to - from == 2 && chars[from] == '.' && chars[from + 1] == '.' {
        assert(name@ =~= dots);
        return None;
    }
    proof {
        assert(name@ == span_text(path@, body_spans(path@).last()));
        if name@ == dots {
            assert(name@.len() == 2 && name@[0] == '.' && name@[1] == '.');
            assert(chars@[from as int] == name@[0] && chars@[from + 1] == name@[1]);
        }
        assert(name@ != seq!['.', '.']);
    }
    Some(name)
}

/// The path without its final component.
pub fn parent_of(path: &str) -> (r: Option<String>)
    ensures
        crate::text::opt_view(r) == parent(path@),
{
    let chars = chars_of(path);
    let bounds = body_spans_of(&chars);
    assert(as_ints(bounds@).len() == bounds@.len());
    if bounds.len() > 1 {
        let to: usize = bounds[bounds.len() - 2].1;
        assert(as_ints(bounds@)[bounds@.len() - 2].1 == to as int);
        assert(chars@.subrange(0, to as int) =~= chars@.take(to as int));
        Some(text_of(&chars, 0, to))
    } else if bounds.len() == 1 {
        let to: usize = body_start_of(&chars);
        assert(chars@.subrange(0, to as int) =~= chars@.take(to as int));
        Some(text_of(&chars, 0, to))
    } else if body_start_of(&chars) == 1 && chars[0] != '/' {
        let empty = String::new();
        assert(empty@ =~= seq![]);
        Some(empty)
    } else {
        None
    }
}

fn last_dot_of(name: &Vec<char>) -> (r: usize)
    ensures
        r == last_dot(name@),
        r < name.len() || r == 0,
{
    let mut n: usize = name.len();
    assert(name@.take(n as int) =~= name@);
    while n > 0
        invariant
            n <= name@.len(),
            last_dot(name@) == last_dot(name@.take(n as int)),
        decreases n,
    {
        assert(name@.take(n as int).last() == name@[n - 1]);
        assert(name@.take(n as int).drop_last() =~= name@.take(n - 1));
        if name[n - 1] == '.' {
            return n - 1;
        }
        n = n - 1;
    }
    0
}

/// The file name without its extension.
pub fn file_stem_of(path: &str) -> (r: Option<String>)
    ensures
        crate::text::opt_view(r) == file_stem(path@),
{
    match file_name_of(path) {
        Some(name) => {
            let chars = chars_of(name.as_str());
            let dot: usize = last_dot_of(&chars);
            if dot > 0 {
                assert(chars@.subrange(0, dot as int) =~= chars@.take(dot as int));
                Some(text_of(&chars, 0, dot))
            } else {
                Some(name)
            }
        },
        None => None,
    }
}

/// What follows the last dot of the file name, unless that dot is its first
/// character.
pub fn extension_of(path: &str) -> (r: Option<String>)
    ensures
        crate::text::opt_view(r) == extension(path@),
{
    match file_name_of(path) {
        Some(name) => {
            let chars = chars_of(name.as_str());
            let dot: usize = last_dot_of(&chars);
            if dot > 0 {
                assert(chars@.subrange(dot + 1, chars@.len() as int) =~= chars@.skip(dot + 1));
                Some(text_of(&chars, dot + 1, chars.len()))
            } else {
                None
            }
        },
        None => None,
    }
}

/// `path` below `base`; an absolute `path` stands for itself.
pub fn join_path(base: &str, path: &str) -> (r: String)
    ensures
        r@ == join(base@, path@),
{
    if path_is_absolute(path) {
        return path.to_owned();
    }
    let chars = chars_of(base);
    let mut out = base.to_owned();
    if chars.len() > 0 && chars[chars.len() - 1] != '/' {
        out.push('/');
        assert(out@ =~= base@ + seq!['/']);
    }
    out.append(path);
    out
}

/// Whether the components of `base` are the first components of `path`.
pub fn path_is_under(path: &str, base: &str) -> (r: bool)
    ensures
        r == is_under(path@, base@),
{
    let x = components_of(path);
    let y = components_of(base);
    let ghost xs = components(path@);
    let ghost ys = components(base@);
    assert(xs.len() == x@.len());
    assert(ys.len() == y@.len());
    if y.len() > x.len() {
        return false;
    }
    let mut i: usize = 0;
    while i < y.len()
        invariant
            i <= y@.len() <= x@.len(),
            crate::text::views(x@) == xs,
            crate::text::views(y@) == ys,
            xs == components(path@),
            ys == components(base@),
            xs.len() == x@.len(),
            ys.len() == y@.len(),
            forall|j: int| 0 <= j < i ==> xs[j] == ys[j],
        decreases y.len() - i,
    {
        assert(xs[i as int] == x@[i as int]@);
        assert(ys[i as int] == y@[i as int]@);
        if !same_text(x[i].as_str(), y[i].as_str()) {
            assert(xs.subrange(0, ys.len() as int)[i as int] != ys[i as int]);
            return false;
        }
        i = i + 1;
    }
    assert(xs.subrange(0, ys.len() as int) =~= ys);
    true
}

/// The texts of the segments that count, from index `i` on.
pub open spec fn names(s: Seq<char>, i: int) -> Seq<Seq<char>> {
    spans(s, i).map_values(|b: (int, int)| span_text(s, b))
}

proof fn names_step(s: Seq<char>, i: int)
    requires
        0 <= i < s.len(),
    ensures
        ({
            let k = first_index(s.skip(i), is_char('/'));
            let tail = if k < s.len() - i {
                names(s, i + k + 1)
            } else {
                seq![]
            };
            &&& 0 <= k <= s.len() - i
            &&& names(s, i) == if is_skipped(s.subrange(i, i + k)) {
                tail
            } else {
                seq![s.subrange(i, i + k)] + tail
            }
        }),
{
    let k = first_index(s.skip(i), is_char('/'));
    first_index_props(s.skip(i), is_char('/'));
    let text = |b: (int, int)| span_text(s, b);
    let tail = if k < s.len() - i {
        spans(s, i + k + 1)
    } else {
        seq![]
    };
    if is_skipped(s.subrange(i, i + k)) {
        assert(names(s, i) =~= tail.map_values(text));
    } else {
        assert((seq![(i, i + k)] + tail).map_values(text) =~= seq![s.subrange(i, i + k)]
            + tail.map_values(text));
    }
    if k >= s.len() - i {
        assert(tail.map_values(text) =~= seq![]);
    }
}

proof fn names_shift(x: Seq<char>, p: Seq<char>, j: int)
    requires
        0 <= j <= p.len(),
    ensures
        names(x + p, x.len() + j) == names(p, j),
    decreases p.len() - j,
{
    let s = x + p;
    let i = x.len() + j;
    if j < p.len() {
        names_step(s, i);
        names_step(p, j);
        assert(s.skip(i) =~= p.skip(j));
        let k = first_index(p.skip(j), is_char('/'));
        assert(s.subrange(i, i + k) =~= p.subrange(j, j + k));
        if k < p.len() - j {
            names_shift(x, p, j + k + 1);
        }
    } else {
        assert(names(s, i) =~= names(p, j));
    }
}

proof fn names_of_joined(b: Seq<char>, p: Seq<char>, i: int)
    requires
        0 <= i <= b.len(),
    ensures
        names(b + seq!['/'] + p, i) == names(b, i) + names(p, 0),
    decreases b.len() - i,
{
    let s = b + seq!['/'] + p;
    let n = b.len() as int;
    let slash = is_char('/');
    names_step(s, i);
    names_shift(b + seq!['/'], p, 0);
    assert(s[n] == '/');
    if i == n {
        assert(slash(s.skip(i)[0]));
        first_index_unique(s.skip(i), slash, 0);
        assert(s.subrange(i, i) =~= Seq::<char>::empty());
        assert(names(b, i) =~= seq![]);
        assert(names(b, i) + names(p, 0) =~= names(p, 0));
    } else {
        names_step(b, i);
        let k = first_index(b.skip(i), slash);
        first_index_props(b.skip(i), slash);
        assert forall|j: int| 0 <= j < k implies !slash(#[trigger] s.skip(i)[j]) by {
            assert(s.skip(i)[j] == b.skip(i)[j]);
        }
        if k < n - i {
            assert(slash(b.skip(i)[k]));
            assert(s.skip(i)[k] == b.skip(i)[k]);
        } else {
            assert(s.skip(i)[k] == s[n]);
        }
        first_index_unique(s.skip(i), slash, k);
        assert(s.subrange(i, i + k) =~= b.subrange(i, i + k));
        let own = if is_skipped(b.subrange(i, i + k)) {
            seq![]
        } else {
            seq![b.subrange(i, i + k)]
        };
        if k < n - i {
            names_of_joined(b, p, i + k + 1);
            assert(own + (names(b, i + k + 1) + names(p, 0)) =~= (own + names(b, i + k + 1))
                + names(p, 0));
            assert(own + names(b, i + k + 1) =~= names(b, i));
            assert(names(s, i) =~= own + names(s, i + k + 1));
        } else {
            assert(names(b, i) =~= own);
            assert(names(s, i) =~= own + names(p, 0));
        }
    }
}

/// Joining a relative path to a path that is not empty appends the relative
/// path's segments.
pub proof fn join_appends(base: Seq<char>, path: Seq<char>)
    requires
        base.len() > 0,
        !is_absolute(path),
    ensures
        components(join(base, path)) == components(base) + names(path, 0),
{
    let s = join(base, path);
    let n = base.len();
    let start = body_start(base);
    assert(is_absolute(s) == is_absolute(base));
    if base.last() != '/' {
        assert(s =~= base + seq!['/'] + path);
        assert(starts_at_dot(s) == starts_at_dot(base));
        names_of_joined(base, path, start);
    } else if n == 1 {
        assert(s =~= base + path);
        assert(names(base, start) =~= seq![]);
        names_shift(base, path, 0);
        assert(names(base, start) + names(path, 0) =~= names(path, 0));
    } else {
        let head = base.drop_last();
        assert(base =~= head + seq!['/'] + Seq::<char>::empty());
        assert(s =~= head + seq!['/'] + path);
        assert(starts_at_dot(s) == starts_at_dot(base));
        names_of_joined(head, path, start);
        names_of_joined(head, Seq::<char>::empty(), start);
        assert(names(Seq::<char>::empty(), 0) =~= seq![]);
        assert(names(head, start) + Seq::<Seq<char>>::empty() =~= names(head, start));
    }
    assert(names(s, start) == names(base, start) + names(path, 0));
    let mark = if is_absolute(base) {
        seq![seq!['/']]
    } else if starts_at_dot(base) {
        seq![seq!['.']]
    } else {
        seq![]
    };
    assert(components(s) =~= mark + names(s, start));
    assert(components(base) =~= mark + names(base, start));
    assert(mark + (names(base, start) + names(path, 0)) =~= (mark + names(base, start)) + names(
        path,
        0,
    ));
}

/// Every segment of a relative path is one of its components.
pub proof fn segments_are_components(path: Seq<char>)
    requires
        !is_absolute(path),
    ensures
        forall|c: Seq<char>| names(path, 0).contains(c) ==> components(path).contains(c),
{
    if starts_at_dot(path) {
        let slash = is_char('/');
        let mark = seq![seq!['.']];
        names_step(path, 0);
        assert(path.skip(0) =~= path);
        if path.len() == 1 {
            assert(!slash(path[0]));
            first_index_unique(path, slash, 1);
            assert(path.subrange(0, 1) =~= seq!['.']);
            assert(names(path, 0) =~= seq![]);
        } else {
            assert(!slash(path[0]) && slash(path[1]));
            first_index_unique(path, slash, 1);
            assert(path.subrange(0, 1) =~= seq!['.']);
            names_step(path, 1);
            assert(slash(path.skip(1)[0]));
            first_index_unique(path.skip(1), slash, 0);
            assert(path.subrange(1, 1) =~= Seq::<char>::empty());
            assert(names(path, 0) == names(path, 1));
        }
        assert(components(path) =~= mark + names(path, 1));
        assert forall|c: Seq<char>| names(path, 0).contains(c) implies components(path).contains(
            c,
        ) by {
            let i = choose|i: int| 0 <= i < names(path, 0).len() && names(path, 0)[i] == c;
            assert(components(path)[i + 1] == c);
        }
    } else {
        assert(components(path) =~= names(path, 0));
    }
}

proof fn names_have_no_separator(s: Seq<char>, i: int)
    requires
        0 <= i,
    ensures
        forall|n: int|
            0 <= n < names(s, i).len() ==> !(#[trigger] names(s, i)[n]).contains('/'),
    decreases s.len() - i,
{
    if i < s.len() {
        let slash = is_char('/');
        names_step(s, i);
        let k = first_index(s.skip(i), slash);
        first_index_props(s.skip(i), slash);
        let own = s.subrange(i, i + k);
        assert(!own.contains('/')) by {
            if own.contains('/') {
                let j = choose|j: int| 0 <= j < own.len() && own[j] == '/';
                assert(!slash(s.skip(i)[j]));
                assert(own[j] == s.skip(i)[j]);
            }
        }
        if k < s.len() - i {
            names_have_no_separator(s, i + k + 1);
        }
        let tail = if k < s.len() - i {
            names(s, i + k + 1)
        } else {
            seq![]
        };
        assert forall|n: int| 0 <= n < names(s, i).len() implies !(
        #[trigger] names(s, i)[n]).contains('/') by {
            if is_skipped(own) {
                assert(names(s, i)[n] == tail[n]);
            } else if n > 0 {
                assert(names(s, i)[n] == tail[n - 1]);
            }
        }
    }
}

/// A file name is never absolute.
pub proof fn file_names_are_relative(s: Seq<char>)
    ensures
        match file_name(s) {
            Some(name) => !is_absolute(name),
            None => true,
        },
{
    if file_name(s) is Some {
        let all = names(s, body_start(s));
        names_have_no_separator(s, body_start(s));
        let name = all[all.len() - 1];
        assert(file_name(s) == Some(name));
        if is_absolute(name) {
            assert(name.contains(name[0]));
        }
    }
}

/// A relative path joined to a base stays under the base's components.
pub proof fn join_stays_under(base: Seq<char>, path: Seq<char>)
    requires
        !is_absolute(path),
    ensures
        is_under(join(base, path), base),
{
    let all = components(join(base, path));
    if base.len() == 0 {
        assert(components(base) =~= seq![]);
        assert(all.subrange(0, 0) =~= components(base));
    } else {
        join_appends(base, path);
        assert(all.subrange(0, components(base).len() as int) =~= components(base));
    }
}

proof fn names_count(s: Seq<char>, i: int)
    requires
        0 <= i,
    ensures
        forall|n: int| 0 <= n < names(s, i).len() ==> !is_skipped(#[trigger] names(s, i)[n]),
    decreases s.len() - i,
{
    if i < s.len() {
        names_step(s, i);
        let k = first_index(s.skip(i), is_char('/'));
        let own = s.subrange(i, i + k);
        if k < s.len() - i {
            names_count(s, i + k + 1);
        }
        let tail = if k < s.len() - i {
            names(s, i + k + 1)
        } else {
            seq![]
        };
        assert forall|n: int| 0 <= n < names(s, i).len() implies !is_skipped(
            #[trigger] names(s, i)[n],
        ) by {
            if is_skipped(own) {
                assert(names(s, i)[n] == tail[n]);
            } else if n > 0 {
                assert(names(s, i)[n] == tail[n - 1]);
            }
        }
    }
}

/// A name that can stand as one segment: not empty, not `.`, without `/`.
pub open spec fn is_plain(name: Seq<char>) -> bool {
    name.len() > 0 && name != seq!['.'] && !name.contains('/')
}

/// A plain name has itself as its only component.
pub proof fn plain_names_are_components(name: Seq<char>)
    requires
        is_plain(name),
    ensures
        names(name, 0) == seq![name],
        components(name) == seq![name],
        !is_absolute(name),
{
    let slash = is_char('/');
    names_step(name, 0);
    assert(name.skip(0) =~= name);
    assert forall|i: int| 0 <= i < name.len() implies !slash(#[trigger] name[i]) by {
        assert(name.contains(name[i]));
    }
    first_index_unique(name, slash, name.len() as int);
    assert(name.subrange(0, name.len() as int) =~= name);
    assert(names(name, 0) =~= seq![name]);
    if is_absolute(name) {
        assert(name.contains(name[0]));
    }
    if starts_at_dot(name) {
        if name.len() == 1 {
            assert(name =~= seq!['.']);
        } else {
            assert(name.contains(name[1]));
        }
    }
    assert(components(name) =~= names(name, 0));
}

/// Joining a plain name to a path adds one component, the name.
pub proof fn join_adds_a_name(base: Seq<char>, name: Seq<char>)
    requires
        is_plain(name),
    ensures
        components(join(base, name)) == components(base).push(name),
{
    plain_names_are_components(name);
    if base.len() == 0 {
        assert(join(base, name) =~= name);
        assert(components(base) =~= seq![]);
        assert(seq![name] =~= components(base).push(name));
    } else {
        join_appends(base, name);
        assert(components(base) + seq![name] =~= components(base).push(name));
    }
}

proof fn components_are_marked_names(s: Seq<char>)
    ensures
        components(s) == (if is_absolute(s) {
            seq![seq!['/']]
        } else if starts_at_dot(s) {
            seq![seq!['.']]
        } else {
            seq![]
        }) + names(s, body_start(s)),
{
    assert(components(s) =~= (if is_absolute(s) {
        seq![seq!['/']]
    } else if starts_at_dot(s) {
        seq![seq!['.']]
    } else {
        seq![]
    }) + names(s, body_start(s)));
}

/// The file name of a path is its last component, unless that is the root, `.`
/// or `..`; and a file name is plain.
pub proof fn file_names_are_last_components(s: Seq<char>)
    ensures
        ({
            let c = components(s);
            &&& file_name(s) is Some <==> c.len() > 0 && c.last() != seq!['/'] && c.last()
                != seq!['.'] && c.last() != seq!['.', '.']
            &&& file_name(s) matches Some(name) ==> name == c.last() && is_plain(name)
        }),
{
    let all = names(s, body_start(s));
    let c = components(s);
    components_are_marked_names(s);
    names_count(s, body_start(s));
    names_have_no_separator(s, body_start(s));
    if all.len() > 0 {
        let name = all[all.len() - 1];
        assert(c.last() == name);
        assert(!is_skipped(name));
        assert(!name.contains('/'));
        if name == seq!['/'] {
            assert(name[0] == '/');
            assert(name.contains(name[0]));
        }
        if name.len() == 0 {
            assert(name =~= Seq::<char>::empty());
        }
        assert(span_text(s, body_spans(s).last()) == name);
    } else if c.len() > 0 {
        assert(c.last() == seq!['/'] || c.last() == seq!['.']);
    }
}

proof fn names_of_prefix(s: Seq<char>, i: int, n: int)
    requires
        0 <= i,
        0 <= n < spans(s, i).len(),
    ensures
        names(s.take(spans(s, i)[n].1), i) == names(s, i).take(n + 1),
    decreases s.len() - i,
{
    let slash = is_char('/');
    spans_in_range(s, i);
    let e = spans(s, i)[n].1;
    let t = s.take(e);
    let k = first_index(s.skip(i), slash);
    first_index_props(s.skip(i), slash);
    names_step(s, i);
    let tail = if k < s.len() - i {
        spans(s, i + k + 1)
    } else {
        seq![]
    };
    let own = s.subrange(i, i + k);
    let rest = if k < s.len() - i {
        names(s, i + k + 1)
    } else {
        seq![]
    };
    if k < s.len() - i {
        spans_in_range(s, i + k + 1);
    }
    let first = !is_skipped(own) && n == 0;
    let m = if is_skipped(own) {
        n
    } else {
        n - 1
    };
    if first {
        assert(e == i + k);
        assert(t.skip(i) =~= own);
        assert forall|j: int| 0 <= j < k implies !slash(#[trigger] t.skip(i)[j]) by {
            assert(t.skip(i)[j] == s.skip(i)[j]);
        }
        assert(k > 0) by {
            if k == 0 {
                assert(own =~= Seq::<char>::empty());
            }
        }
        names_step(t, i);
        first_index_unique(t.skip(i), slash, k);
        assert(t.subrange(i, i + k) =~= own);
        assert(names(t, i) =~= seq![own]);
        assert(names(s, i).take(1) =~= seq![own]);
    } else {
        assert(0 <= m < tail.len());
        assert(spans(s, i)[n] == tail[m]);
        assert(i + k + 1 <= tail[m].0);
        names_of_prefix(s, i + k + 1, m);
        names_step(t, i);
        assert forall|j: int| 0 <= j < k implies !slash(#[trigger] t.skip(i)[j]) by {
            assert(t.skip(i)[j] == s.skip(i)[j]);
        }
        assert(t.skip(i)[k] == s.skip(i)[k]);
        first_index_unique(t.skip(i), slash, k);
        assert(t.subrange(i, i + k) =~= own);
        assert(names(t, i + k + 1) == rest.take(m + 1));
        if is_skipped(own) {
            assert(names(s, i).take(n + 1) =~= rest.take(m + 1));
        } else {
            assert(names(s, i).take(n + 1) =~= seq![own] + rest.take(m + 1));
        }
    }
}

/// The parent of a path has its components but the last; the empty path and the
/// root have none.
pub proof fn parents_drop_the_last_component(s: Seq<char>)
    ensures
        parent(s) is None <==> components(s).len() == 0 || components(s) == seq![seq!['/']],
        parent(s) matches Some(p) ==> components(p) == components(s).drop_last(),
{
    let b = body_spans(s);
    let start = body_start(s);
    let all = names(s, start);
    components_are_marked_names(s);
    spans_in_range(s, start);
    spans_ascend(s, start);
    names_count(s, start);
    names_have_no_separator(s, start);
    assert(all.len() == b.len());
    if b.len() > 1 {
        let n = b.len() - 2;
        let p = s.take(b[n].1);
        names_of_prefix(s, start, n);
        assert(start <= b[n].0 < b[n].1 <= s.len());
        assert(is_absolute(p) == is_absolute(s));
        if starts_at_dot(s) {
            assert(p[0] == '.');
            if b[n].1 < 2 {
                assert(false);
            }
            if s.len() > 1 {
                assert(p[1] == '/');
            }
        } else if starts_at_dot(p) {
            if p.len() > 1 {
                assert(s[1] == '/');
            } else {
                assert(!is_absolute(s));
                assert(start == 0);
                assert(b[n] == (0int, 1int));
                assert(all[n] == span_text(s, b[n]));
                assert(all[n] =~= seq!['.']);
                assert(!is_skipped(all[n]));
            }
        }
        assert(body_start(p) == start);
        components_are_marked_names(p);
        assert(all.take(n + 1) =~= all.drop_last());
        assert(components(p) =~= components(s).drop_last());
        assert(components(s).len() >= 2);
    } else if b.len() == 1 {
        let p = s.take(start);
        components_are_marked_names(p);
        assert(start <= b[0].0 < b[0].1 <= s.len());
        if start == 1 {
            assert(p[0] == s[0]);
            assert(names(p, 1) =~= seq![]);
        } else {
            assert(names(p, 0) =~= seq![]);
        }
        assert(components(p) =~= components(s).drop_last());
        if components(s) == seq![seq!['/']] {
            assert(components(s).len() == 1);
            assert(components(s)[0] == all[0]);
            assert(all[0].contains(all[0][0]));
        }
    } else {
        assert(all =~= seq![]);
        if is_absolute(s) {
            assert(components(s) =~= seq![seq!['/']]);
        } else if starts_at_dot(s) {
            assert(components(s) =~= seq![seq!['.']]);
            assert(seq!['.'][0] == '.');
            assert(seq!['/'][0] == '/');
            assert(components(s)[0] != seq!['/']);
            let p = Seq::<char>::empty();
            assert(components(p) =~= seq![]);
            assert(components(s).drop_last() =~= seq![]);
        } else {
            assert(components(s) =~= seq![]);
        }
    }
}

/// A parent whose text is not empty has a component.
pub proof fn parents_that_are_not_empty(s: Seq<char>)
    ensures
        parent(s) matches Some(p) ==> p.len() > 0 ==> components(p).len() > 0,
{
    let b = body_spans(s);
    let start = body_start(s);
    parents_drop_the_last_component(s);
    components_are_marked_names(s);
    assert(names(s, start).len() == b.len());
    if b.len() == 1 && parent(s)->0.len() > 0 {
        assert(start == 1);
    }
}

proof fn last_dot_props(name: Seq<char>, k: int)
    requires
        0 <= k < name.len(),
        name[k] == '.',
        forall|i: int| k < i < name.len() ==> name[i] != '.',
    ensures
        last_dot(name) == k,
    decreases name.len(),
{
    if k < name.len() - 1 {
        assert(name.last() == name[name.len() - 1]);
        last_dot_props(name.drop_last(), k);
    }
}

proof fn no_dot_props(name: Seq<char>)
    requires
        !name.contains('.'),
    ensures
        last_dot(name) == 0,
    decreases name.len(),
{
    if name.len() > 0 {
        assert(name.contains(name[name.len() - 1]));
        assert(!name.drop_last().contains('.')) by {
            if name.drop_last().contains('.') {
                let i = choose|i: int|
                    0 <= i < name.drop_last().len() && name.drop_last()[i] == '.';
                assert(name.contains(name[i]));
            }
        }
        no_dot_props(name.drop_last());
    }
}

/// A file name is cut at its last dot into stem and extension, unless nothing
/// stands before the dot; without a dot it is all stem.
pub proof fn stems_and_extensions_cut_at_the_last_dot(
    s: Seq<char>,
    stem: Seq<char>,
    suffix: Seq<char>,
)
    ensures
        stem.len() > 0 && !suffix.contains('.') && file_name(s) == Some(stem + seq!['.'] + suffix)
            ==> file_stem(s) == Some(stem) && extension(s) == Some(suffix),
        file_name(s) == Some(stem) && !stem.contains('.') ==> file_stem(s) == Some(stem)
            && extension(s) is None,
        file_name(s) == Some(seq!['.'] + suffix) && !suffix.contains('.') ==> file_stem(s)
            == file_name(s) && extension(s) is None,
        file_name(s) is None ==> file_stem(s) is None && extension(s) is None,
{
    if stem.len() > 0 && !suffix.contains('.') && file_name(s) == Some(
        stem + seq!['.'] + suffix,
    ) {
        let name = stem + seq!['.'] + suffix;
        let k = stem.len() as int;
        assert forall|i: int| k < i < name.len() implies name[i] != '.' by {
            assert(suffix.contains(suffix[i - k - 1]));
        }
        last_dot_props(name, k);
        assert(name.take(k) =~= stem);
        assert(name.skip(k + 1) =~= suffix);
    }
    if file_name(s) == Some(stem) && !stem.contains('.') {
        no_dot_props(stem);
    }
    if file_name(s) == Some(seq!['.'] + suffix) && !suffix.contains('.') {
        let name = seq!['.'] + suffix;
        assert forall|i: int| 0 < i < name.len() implies name[i] != '.' by {
            assert(suffix.contains(suffix[i - 1]));
        }
        last_dot_props(name, 0);
    }
}

/// Paths are ordered by the first component in which they differ: the root before
/// `.`, that before `..`, that before names, and names by their text. A path
/// comes before all that lies below it.
pub proof fn paths_are_ordered_by_their_first_difference(
    a: Seq<char>,
    b: Seq<char>,
    common: Seq<Seq<char>>,
    x: Seq<char>,
    y: Seq<char>,
    s: Seq<Seq<char>>,
    t: Seq<Seq<char>>,
)
    requires
        x != y,
        components(a) == common + seq![x] + s,
        components(b) == common + seq![y] + t,
    ensures
        path_le(a, b) <==> if is_mark(x) || is_mark(y) {
            x == seq!['/'] || (x == seq!['.'] && y != seq!['/']) || (x == seq!['.', '.']
                && !is_mark(y))
        } else {
            text_le(x, y)
        },
{
    components_differ_at(common, x, y, s, t);
    assert(seq!['/'][0] == '/' && seq!['.'][0] == '.');
    assert(seq!['.'].len() == 1 && seq!['.', '.'].len() == 2);
    if is_mark(x) && is_mark(y) {
        assert(component_rank(x) != component_rank(y));
    }
}

/// The root, `.` or `..`.
pub open spec fn is_mark(c: Seq<char>) -> bool {
    c == seq!['/'] || c == seq!['.'] || c == seq!['.', '.']
}

proof fn components_differ_at(
    common: Seq<Seq<char>>,
    x: Seq<char>,
    y: Seq<char>,
    s: Seq<Seq<char>>,
    t: Seq<Seq<char>>,
)
    requires
        x != y,
    ensures
        components_le(common + seq![x] + s, common + seq![y] + t) == component_le(x, y),
    decreases common.len(),
{
    let a = common + seq![x] + s;
    let b = common + seq![y] + t;
    if common.len() == 0 {
        assert(a[0] == x && b[0] == y);
    } else {
        let rest = common.drop_first();
        assert(a.drop_first() =~= rest + seq![x] + s);
        assert(b.drop_first() =~= rest + seq![y] + t);
        assert(a[0] == common[0] && b[0] == common[0]);
        components_differ_at(rest, x, y, s, t);
    }
}

/// A path comes before every path below it, and never after one.
pub proof fn paths_come_before_what_lies_below(a: Seq<char>, b: Seq<char>)
    requires
        is_under(b, a),
    ensures
        path_le(a, b),
        path_le(b, a) ==> components(a) == components(b),
{
    let x = components(a);
    let y = components(b);
    assert(y.subrange(0, x.len() as int) == x);
    assert(y =~= x + y.skip(x.len() as int));
    prefixes_come_first(x, y.skip(x.len() as int));
    if path_le(b, a) {
        components_le_antisymmetric(x, y);
    }
}

proof fn prefixes_come_first(a: Seq<Seq<char>>, b: Seq<Seq<char>>)
    ensures
        components_le(a, a + b),
    decreases a.len(),
{
    if a.len() > 0 {
        assert((a + b).drop_first() =~= a.drop_first() + b);
        prefixes_come_first(a.drop_first(), b);
    }
}

/// A segment that is a component wherever it stands: neither empty nor `.`.
pub open spec fn counts(segment: Seq<char>) -> bool {
    segment.len() > 0 && segment != seq!['.']
}

/// The segments of a text between its slashes that are components.
pub open spec fn counting_segments(s: Seq<char>) -> Seq<Seq<char>> {
    split_text(s, '/').filter(|segment: Seq<char>| counts(segment))
}

proof fn one_segment(segment: Seq<char>, keep: spec_fn(Seq<char>) -> bool)
    ensures
        seq![segment].filter(keep) == if keep(segment) {
            seq![segment]
        } else {
            Seq::empty()
        },
{
    reveal(Seq::filter);
    let one = seq![segment];
    let none = Seq::<Seq<char>>::empty();
    assert(one.drop_last() =~= none);
    assert(none.filter(keep) =~= none);
    assert(one.last() == segment);
    assert(none.push(segment) =~= one);
}

proof fn names_are_segments(s: Seq<char>, i: int)
    requires
        0 <= i <= s.len(),
    ensures
        names(s, i) == counting_segments(s.skip(i)),
    decreases s.len() - i,
{
    let keep = |segment: Seq<char>| counts(segment);
    let slash = is_char('/');
    let t = s.skip(i);
    first_index_props(t, slash);
    let k = first_index(t, slash);
    pieces_step(t, slash, k);
    if i < s.len() {
        names_step(s, i);
        let own = s.subrange(i, i + k);
        assert(own =~= t.take(k));
        assert(is_skipped(own) <==> !counts(own)) by {
            if own.len() == 0 {
                assert(own =~= Seq::<char>::empty());
            }
        }
        one_segment(own, keep);
        if k < t.len() {
            let rest = split_text(t.skip(k + 1), '/');
            names_are_segments(s, i + k + 1);
            assert(s.skip(i + k + 1) =~= t.skip(k + 1));
            Seq::filter_distributes_over_add(seq![own], rest, keep);
            assert(names(s, i) =~= seq![own].filter(keep) + rest.filter(keep));
        } else {
            assert(t.take(k) =~= t);
            assert(names(s, i) =~= seq![own].filter(keep));
        }
    } else {
        assert(t =~= seq![]);
        assert(split_text(t, '/') =~= seq![t]);
        one_segment(t, keep);
        assert(names(s, i) =~= seq![]);
    }
}

/// The components of a path are the segments between its slashes that are neither
/// empty nor `.`; in front of them stands the root for a path that begins with a
/// slash, and `.` for one whose first segment is that.
pub proof fn paths_are_cut_at_slashes(s: Seq<char>)
    ensures
        components(s) == (if s.len() > 0 && s[0] == '/' {
            seq![seq!['/']]
        } else if split_text(s, '/')[0] == seq!['.'] {
            seq![seq!['.']]
        } else {
            seq![]
        }) + counting_segments(s),
        is_absolute(s) <==> s.len() > 0 && s[0] == '/',
{
    let slash = is_char('/');
    let start = body_start(s);
    components_are_marked_names(s);
    names_are_segments(s, start);
    first_index_props(s, slash);
    let k = first_index(s, slash);
    pieces_step(s, slash, k);
    assert(s.take(s.len() as int) =~= s);
    if is_absolute(s) {
        assert(slash(s[0]));
        first_index_unique(s, slash, 0);
        skipped_heads_do_not_count(s, 0);
    } else if starts_at_dot(s) {
        assert(!slash(s[0]));
        if s.len() > 1 {
            assert(slash(s[1]));
        }
        first_index_unique(s, slash, 1);
        assert(s.take(1) =~= seq!['.']);
        skipped_heads_do_not_count(s, 1);
        let t = s.skip(1);
        if s.len() > 1 {
            assert(slash(t[0]));
            first_index_unique(t, slash, 0);
            skipped_heads_do_not_count(t, 0);
            assert(t.skip(1) =~= s.skip(2));
        } else {
            assert(t =~= seq![]);
            names_are_segments(s, 1);
            assert(names(s, 1) =~= seq![]);
        }
    } else {
        assert(s.skip(0) =~= s);
        let head = split_text(s, '/')[0];
        if head == seq!['.'] {
            assert(s.take(k) == seq!['.']);
            assert(s.take(k)[0] == s[0] && s.take(k).len() == 1);
            if s.len() > 1 {
                assert(slash(s[1]));
            }
        }
        assert(seq![] + names(s, 0) =~= names(s, 0));
    }
}

proof fn skipped_heads_do_not_count(s: Seq<char>, k: int)
    requires
        0 <= k <= s.len(),
        first_index(s, is_char('/')) == k,
        !counts(s.take(k)),
    ensures
        k < s.len() ==> counting_segments(s) == counting_segments(s.skip(k + 1)),
        k == s.len() ==> counting_segments(s) == Seq::<Seq<char>>::empty(),
{
    let keep = |segment: Seq<char>| counts(segment);
    let slash = is_char('/');
    first_index_props(s, slash);
    pieces_step(s, slash, k);
    let own = s.take(k);
    one_segment(own, keep);
    if k < s.len() {
        let rest = split_text(s.skip(k + 1), '/');
        Seq::filter_distributes_over_add(seq![own], rest, keep);
        assert(counting_segments(s) =~= rest.filter(keep));
    } else {
        assert(own =~= s);
    }
}

} // verus!
