//! What trimming, splitting and number texts are for.
use vstd::prelude::*;
use vstd::string::*;
use vstd::utf8::encode_utf8;
use crate::dat::classification::{
    digits_value, final_words, is_digit_char, last_open, multidisc_parts, not_open, word_number,
};
use crate::seqs::{
    contains_run, first_index, first_index_props, occurs_at, pieces, pieces_step, skip_back,
    skip_back_run, skip_front_run,
};
use crate::text::{
    decimal, digit_char, hex_char, hex_text, hex_text_len, is_char, is_white_space, joined,
    split_text, text_le, trimmed, trimmed_start, white,
};

verus! {

/// Every character is white space.
pub open spec fn all_white(s: Seq<char>) -> bool {
    forall|i: int| 0 <= i < s.len() ==> is_white_space(#[trigger] s[i])
}

/// Neither the first nor the last character is white space.
pub open spec fn is_tight(s: Seq<char>) -> bool {
    s.len() > 0 ==> !is_white_space(s[0]) && !is_white_space(s[s.len() - 1])
}

/// Space, tab and line breaks are white space; no other printable or control
/// character of ASCII is.
pub proof fn ascii_white_space(c: char)
    requires
        (c as u32) < 0x80,
    ensures
        is_white_space(c) <==> c == ' ' || c == '\t' || c == '\n' || c == '\r' || c as u32 == 0x0b
            || c as u32 == 0x0c,
{
}

/// White space is what Unicode calls so: the five control characters from tab to
/// carriage return, the next-line control, the spaces of any width, and the two
/// separators of lines and paragraphs.
pub proof fn white_space_is_what_unicode_calls_so(c: char)
    ensures
        is_white_space(c) <==> c as u32 == 9 || c as u32 == 10 || c as u32 == 11 || c as u32 == 12
            || c as u32 == 13 || c as u32 == 32 || c as u32 == 0x85 || c as u32 == 0xa0 || c as u32
            == 0x1680 || 0x2000 <= c as u32 <= 0x200a || c as u32 == 0x2028 || c as u32
            == 0x2029 || c as u32 == 0x202f || c as u32 == 0x205f || c as u32 == 0x3000,
{
}

/// Trimming cuts all white space around a text that neither begins nor ends
/// with white space, and nothing else.
pub proof fn trimming_cuts_outer_white_space(lead: Seq<char>, core: Seq<char>, tail: Seq<char>)
    requires
        all_white(lead),
        all_white(tail),
        is_tight(core),
    ensures
        trimmed(lead + core + tail) == core,
        core.len() > 0 ==> trimmed_start(lead + core + tail) == core + tail,
{
    let s = lead + core + tail;
    let p = white();
    if core.len() > 0 {
        let k = lead.len() as int;
        assert forall|i: int| 0 <= i < k implies p(#[trigger] s[i]) by {
            assert(s[i] == lead[i]);
        }
        assert(s[k] == core[0]);
        skip_front_run(s, p, k);
        assert(s.skip(k) =~= core + tail);
        let n = core.len() as int;
        assert forall|i: int| n <= i < (core + tail).len() implies p(
            #[trigger] (core + tail)[i],
        ) by {
            assert((core + tail)[i] == tail[i - n]);
        }
        assert((core + tail)[n - 1] == core[n - 1]);
        skip_back_run(core + tail, p, n);
        assert((core + tail).take(n) =~= core);
    } else {
        assert forall|i: int| 0 <= i < s.len() implies p(#[trigger] s[i]) by {
            if i < lead.len() {
                assert(s[i] == lead[i]);
            } else {
                assert(s[i] == tail[i - lead.len()]);
            }
        }
        skip_front_run(s, p, s.len() as int);
        assert(s.skip(s.len() as int) =~= core);
    }
}

/// Every text is white space, a tight text and white space again; the middle is
/// what trimming leaves.
pub proof fn every_text_can_be_trimmed(s: Seq<char>) -> (r: (Seq<char>, Seq<char>, Seq<char>))
    ensures
        s == r.0 + r.1 + r.2,
        all_white(r.0),
        all_white(r.2),
        is_tight(r.1),
        trimmed(s) == r.1,
{
    let p = white();
    let non = |c: char| !is_white_space(c);
    let k = first_index(s, non);
    first_index_props(s, non);
    let lead = s.take(k);
    assert forall|i: int| 0 <= i < lead.len() implies is_white_space(#[trigger] lead[i]) by {
        assert(!non(s[i]));
    }
    let rest = s.skip(k);
    let n = last_non_white(rest);
    let core = rest.take(n);
    let tail = rest.skip(n);
    assert forall|i: int| 0 <= i < tail.len() implies is_white_space(#[trigger] tail[i]) by {
        assert(tail[i] == rest[n + i]);
    }
    if core.len() > 0 {
        assert(core[0] == rest[0]);
        assert(rest[0] == s[k]);
        assert(non(s[k]));
        assert(core[core.len() - 1] == rest[n - 1]);
    }
    assert(s =~= lead + core + tail);
    trimming_cuts_outer_white_space(lead, core, tail);
    (lead, core, tail)
}

proof fn last_non_white(s: Seq<char>) -> (n: int)
    ensures
        0 <= n <= s.len(),
        n > 0 ==> !is_white_space(s[n - 1]),
        forall|i: int| n <= i < s.len() ==> is_white_space(#[trigger] s[i]),
    decreases s.len(),
{
    if s.len() == 0 {
        0
    } else if is_white_space(s[s.len() - 1]) {
        let n = last_non_white(s.drop_last());
        assert forall|i: int| n <= i < s.len() implies is_white_space(#[trigger] s[i]) by {
            if i < s.len() - 1 {
                assert(s[i] == s.drop_last()[i]);
            }
        }
        n
    } else {
        s.len() as int
    }
}

/// Cutting at a separator splits the pieces between what stands before it and
/// what stands behind it.
pub proof fn pieces_split_at_separators<A>(
    a: Seq<A>,
    x: A,
    b: Seq<A>,
    sep: spec_fn(A) -> bool,
)
    requires
        sep(x),
    ensures
        pieces(a + seq![x] + b, sep) == pieces(a, sep) + pieces(b, sep),
    decreases a.len(),
{
    let s = a + seq![x] + b;
    let k = first_index(a, sep);
    first_index_props(a, sep);
    assert forall|i: int| 0 <= i < k implies !sep(#[trigger] s[i]) by {
        assert(s[i] == a[i]);
    }
    if k < a.len() {
        assert(s[k] == a[k]);
        pieces_step(s, sep, k);
        pieces_step(a, sep, k);
        assert(s.take(k) =~= a.take(k));
        assert(s.skip(k + 1) =~= a.skip(k + 1) + seq![x] + b);
        pieces_split_at_separators(a.skip(k + 1), x, b, sep);
        assert(seq![a.take(k)] + (pieces(a.skip(k + 1), sep) + pieces(b, sep)) =~= (seq![a.take(k)]
            + pieces(a.skip(k + 1), sep)) + pieces(b, sep));
    } else {
        assert(s[k] == x);
        pieces_step(s, sep, k);
        pieces_step(a, sep, k);
        assert(s.take(k) =~= a);
        assert(s.skip(k + 1) =~= b);
    }
}

/// A text without the separator is one piece.
pub proof fn text_without_separator_is_one_piece(s: Seq<char>, sep: char)
    requires
        !s.contains(sep),
    ensures
        split_text(s, sep) == seq![s],
{
    assert forall|i: int| 0 <= i < s.len() implies !is_char(sep)(#[trigger] s[i]) by {
        assert(s.contains(s[i]));
    }
    pieces_step(s, is_char(sep), s.len() as int);
}

/// Splitting a text and joining the pieces gives the text back, and no piece
/// has the separator.
pub proof fn splitting_loses_nothing(s: Seq<char>, sep: char)
    ensures
        joined(split_text(s, sep), seq![sep]) == s,
        split_text(s, sep).len() > 0,
        forall|i: int|
            0 <= i < split_text(s, sep).len() ==> !(#[trigger] split_text(s, sep)[i]).contains(
                sep,
            ),
    decreases s.len(),
{
    let p = is_char(sep);
    let k = first_index(s, p);
    first_index_props(s, p);
    let head = s.take(k);
    assert(!head.contains(sep)) by {
        if head.contains(sep) {
            let i = choose|i: int| 0 <= i < head.len() && head[i] == sep;
            assert(!p(s[i]));
        }
    }
    pieces_step(s, p, k);
    if k < s.len() {
        let rest = split_text(s.skip(k + 1), sep);
        splitting_loses_nothing(s.skip(k + 1), sep);
        joined_cons(head, rest, seq![sep]);
        assert(s =~= head + seq![sep] + s.skip(k + 1));
        assert forall|i: int| 0 <= i < split_text(s, sep).len() implies !(
        #[trigger] split_text(s, sep)[i]).contains(sep) by {
            if i > 0 {
                assert(split_text(s, sep)[i] == rest[i - 1]);
            }
        }
    } else {
        assert(head =~= s);
    }
}

proof fn joined_cons(first: Seq<char>, rest: Seq<Seq<char>>, sep: Seq<char>)
    requires
        rest.len() > 0,
    ensures
        joined(seq![first] + rest, sep) == first + sep + joined(rest, sep),
    decreases rest.len(),
{
    let all = seq![first] + rest;
    if rest.len() == 1 {
        reveal_with_fuel(joined, 2);
        assert(all.drop_last() =~= seq![first]);
        assert(joined(all, sep) =~= first + sep + rest[0]);
    } else {
        assert(all.drop_last() =~= seq![first] + rest.drop_last());
        joined_cons(first, rest.drop_last(), sep);
        assert(joined(all, sep) =~= first + sep + joined(rest, sep));
    }
}

/// The decimal form of a number is made of digits, begins with 0 only for 0,
/// and reads as the number.
pub proof fn decimals_are_read_back(n: nat)
    ensures
        decimal(n).len() > 0,
        forall|i: int| 0 <= i < decimal(n).len() ==> '0' <= #[trigger] decimal(n)[i] <= '9',
        decimal(n)[0] == '0' ==> n == 0,
        digits_value(decimal(n)) == n,
    decreases n,
{
    let s = decimal(n);
    reveal_with_fuel(digits_value, 2);
    assert(digit_char(n % 10) as nat == '0' as nat + n % 10);
    if n < 10 {
        assert(s.drop_last() =~= seq![]);
    } else {
        let before = decimal(n / 10);
        decimals_are_read_back(n / 10);
        assert(s.drop_last() =~= before);
        assert(s[0] == before[0]);
    }
}

proof fn decimals_are_words(n: nat)
    requires
        n <= 0xffff,
    ensures
        word_number(decimal(n)) == Some(n),
        !decimal(n).contains(' '),
        !decimal(n).contains('('),
{
    let s = decimal(n);
    decimals_are_read_back(n);
    assert forall|i: int| 0 <= i < s.len() implies is_digit_char(#[trigger] s[i]) by {}
    if s.contains(' ') {
        let i = choose|i: int| 0 <= i < s.len() && s[i] == ' ';
        assert('0' <= s[i]);
    }
    if s.contains('(') {
        let i = choose|i: int| 0 <= i < s.len() && s[i] == '(';
        assert('0' <= s[i]);
    }
}

proof fn four_words(a: Seq<char>, b: Seq<char>, c: Seq<char>, d: Seq<char>)
    requires
        !a.contains(' '),
        !b.contains(' '),
        !c.contains(' '),
        !d.contains(' '),
    ensures
        split_text(a + seq![' '] + b + seq![' '] + c + seq![' '] + d, ' ') == seq![a, b, c, d],
{
    let p = is_char(' ');
    let ab = a + seq![' '] + b;
    let abc = ab + seq![' '] + c;
    pieces_split_at_separators(abc, ' ', d, p);
    pieces_split_at_separators(ab, ' ', c, p);
    pieces_split_at_separators(a, ' ', b, p);
    text_without_separator_is_one_piece(a, ' ');
    text_without_separator_is_one_piece(b, ' ');
    text_without_separator_is_one_piece(c, ' ');
    text_without_separator_is_one_piece(d, ' ');
    assert(seq![a] + seq![b] + seq![c] + seq![d] =~= seq![a, b, c, d]);
}

proof fn last_open_is_found(base: Seq<char>, inner: Seq<char>)
    requires
        !inner.contains('('),
    ensures
        last_open(base + seq!['('] + inner) == base.len() + 1,
{
    let s = base + seq!['('] + inner;
    let n = base.len() + 1;
    assert forall|i: int| n <= i < s.len() implies not_open()(#[trigger] s[i]) by {
        assert(inner.contains(inner[i - n]));
    }
    assert(s[n - 1] == '(');
    skip_back_run(s, not_open(), n as int);
    assert(s.take(n as int).len() == n);
}

/// A name that ends in `(Disc N of M)` is disc N of the M discs of what stands
/// before.
pub proof fn disc_titles_state_part_and_total(base: Seq<char>, part: nat, total: nat)
    requires
        part <= 65535,
        total <= 65535,
    ensures
        multidisc_parts(
            base + "(Disc "@ + decimal(part) + " of "@ + decimal(total) + ")"@,
        ) == Some((trimmed(base), part, total)),
{
    let n = decimal(part);
    let m = decimal(total);
    let name = base + "(Disc "@ + n + " of "@ + m + ")"@;
    reveal_strlit("(Disc ");
    reveal_strlit(" of ");
    reveal_strlit(")");
    reveal_strlit("Disc");
    reveal_strlit("of");
    decimals_are_words(part);
    decimals_are_words(total);
    let inner = "Disc"@ + seq![' '] + n + seq![' '] + "of"@ + seq![' '] + m;
    assert(name.drop_last() =~= base + seq!['('] + inner);
    assert(name.last() == ')');
    assert(!inner.contains('(')) by {
        if inner.contains('(') {
            let i = choose|i: int| 0 <= i < inner.len() && inner[i] == '(';
            if 5 <= i < 5 + n.len() {
                assert(n.contains(n[i - 5]));
            } else if i >= 9 + n.len() {
                assert(inner[i] == m[i - 9 - n.len()]);
                assert(m.contains(m[i - 9 - n.len()]));
            }
        }
    }
    last_open_is_found(base, inner);
    let at = base.len() + 1;
    assert((base + seq!['('] + inner).skip(at as int) =~= inner);
    assert(!"Disc"@.contains(' ') && !"of"@.contains(' '));
    four_words("Disc"@, n, "of"@, m);
    assert(final_words(name) == seq!["Disc"@, n, "of"@, m]);
    assert(name.take(base.len() as int) =~= base);
}

/// Only such names are discs: what is read as disc N of M ends in these words,
/// with N and M in digits.
pub proof fn only_disc_titles_are_discs(name: Seq<char>) -> (r: (Seq<char>, Seq<char>, Seq<char>))
    requires
        multidisc_parts(name) is Some,
    ensures
        ({
            let (base, part, total) = multidisc_parts(name)->0;
            &&& name == r.0 + "(Disc "@ + r.1 + " of "@ + r.2 + ")"@
            &&& base == trimmed(r.0)
            &&& r.1.len() > 0 && r.2.len() > 0
            &&& forall|i: int| 0 <= i < r.1.len() ==> '0' <= #[trigger] r.1[i] <= '9'
            &&& forall|i: int| 0 <= i < r.2.len() ==> '0' <= #[trigger] r.2[i] <= '9'
            &&& digits_value(r.1) == part <= 65535
            &&& digits_value(r.2) == total <= 65535
        }),
{
    let body = name.drop_last();
    let at = last_open(body);
    let words = final_words(name);
    let inner = body.skip(at);
    let kept = skip_back(body, not_open());
    skip_back_ends(body);
    reveal_strlit("(Disc ");
    reveal_strlit(" of ");
    reveal_strlit(")");
    reveal_strlit("Disc");
    reveal_strlit("of");
    splitting_loses_nothing(inner, ' ');
    reveal_with_fuel(joined, 5);
    let sp = seq![' '];
    assert(words.drop_last().drop_last().drop_last() =~= seq![words[0]]);
    assert(inner =~= words[0] + sp + words[1] + sp + words[2] + sp + words[3]);
    let head = name.take(at - 1);
    assert(body =~= head + seq!['('] + inner);
    assert(name =~= body + seq![')']);
    assert(name =~= head + "(Disc "@ + words[1] + " of "@ + words[3] + ")"@);
    assert forall|i: int| 0 <= i < words[1].len() implies '0' <= #[trigger] words[1][i] <= '9' by {
        assert(is_digit_char(words[1][i]));
    }
    assert forall|i: int| 0 <= i < words[3].len() implies '0' <= #[trigger] words[3][i] <= '9' by {
        assert(is_digit_char(words[3][i]));
    }
    (head, words[1], words[3])
}

proof fn skip_back_ends(s: Seq<char>)
    ensures
        last_open(s) <= s.len(),
        last_open(s) > 0 ==> s[last_open(s) - 1] == '(',
    decreases s.len(),
{
    if s.len() > 0 && not_open()(s.last()) {
        skip_back_ends(s.drop_last());
        let k = last_open(s.drop_last());
        if k > 0 {
            assert(s[k - 1] == s.drop_last()[k - 1]);
        }
    }
}

/// The bytes of a text are those of its parts.
pub proof fn encoding_is_piecewise(a: Seq<char>, b: Seq<char>)
    ensures
        encode_utf8(a + b) == encode_utf8(a) + encode_utf8(b),
    decreases a.len(),
{
    if a.len() == 0 {
        assert(a + b =~= b);
        assert(encode_utf8(a) + encode_utf8(b) =~= encode_utf8(b));
    } else {
        encoding_is_piecewise(a.drop_first(), b);
        assert((a + b).drop_first() =~= a.drop_first() + b);
        assert(encode_utf8(a + b) =~= encode_utf8(a) + encode_utf8(b));
    }
}

/// `part` with a text before it and one after it.
pub open spec fn amid(before: Seq<char>, part: Seq<char>, after: Seq<char>) -> Seq<char> {
    before + part + after
}

/// `part` stands somewhere in `whole`.
pub open spec fn stands_in(part: Seq<char>, whole: Seq<char>) -> bool {
    exists|before: Seq<char>, after: Seq<char>| whole == #[trigger] amid(before, part, after)
}

/// What stands in a text stands in any text around it.
pub proof fn stands_in_parts(part: Seq<char>, whole: Seq<char>, before: Seq<char>, after: Seq<char>)
    requires
        stands_in(part, whole),
    ensures
        stands_in(part, before + whole + after),
{
    let (a, b) = choose|a: Seq<char>, b: Seq<char>| whole == #[trigger] amid(a, part, b);
    assert(before + whole + after =~= amid(before + a, part, b + after));
}

/// Every part stands in what they are joined to.
pub proof fn parts_stand_in_what_they_make(parts: Seq<Seq<char>>, sep: Seq<char>, i: int)
    requires
        0 <= i < parts.len(),
    ensures
        stands_in(parts[i], joined(parts, sep)),
    decreases parts.len(),
{
    let empty = Seq::<char>::empty();
    if parts.len() == 1 {
        assert(parts[i] =~= amid(empty, parts[i], empty));
    } else if i < parts.len() - 1 {
        let rest = parts.drop_last();
        parts_stand_in_what_they_make(rest, sep, i);
        stands_in_parts(parts[i], joined(rest, sep), empty, sep + parts.last());
        assert(joined(parts, sep) =~= empty + joined(rest, sep) + (sep + parts.last()));
    } else {
        assert(joined(parts, sep) =~= amid(joined(parts.drop_last(), sep) + sep, parts[i], empty));
    }
}

/// A run is contained in a text exactly when it stands somewhere in it.
pub proof fn contained_runs_stand_in_their_text(s: Seq<char>, run: Seq<char>)
    ensures
        contains_run(s, run) <==> stands_in(run, s),
{
    if contains_run(s, run) {
        let i = choose|i: int| occurs_at(s, run, i);
        assert(s =~= amid(s.take(i), run, s.skip(i + run.len())));
    }
    if stands_in(run, s) {
        let (a, b) = choose|a: Seq<char>, b: Seq<char>| s == #[trigger] amid(a, run, b);
        assert(s.subrange(a.len() as int, (a.len() + run.len()) as int) =~= run);
        assert(occurs_at(s, run, a.len() as int));
    }
}

/// Two texts are ordered by the first character in which they differ, and a text
/// comes before every longer one that begins with it.
pub proof fn texts_are_ordered_by_their_first_difference(
    common: Seq<char>,
    x: char,
    a: Seq<char>,
    y: char,
    b: Seq<char>,
)
    requires
        x != y,
    ensures
        text_le(common + seq![x] + a, common + seq![y] + b) <==> x < y,
        text_le(common, common + a),
        a.len() > 0 ==> !text_le(common + a, common),
    decreases common.len(),
{
    let s = common + seq![x] + a;
    let t = common + seq![y] + b;
    if common.len() == 0 {
        assert(s[0] == x && t[0] == y);
    } else {
        let rest = common.drop_first();
        assert(s.drop_first() =~= rest + seq![x] + a);
        assert(t.drop_first() =~= rest + seq![y] + b);
        assert((common + a).drop_first() =~= rest + a);
        assert(s[0] == common[0] && t[0] == common[0] && (common + a)[0] == common[0]);
        texts_are_ordered_by_their_first_difference(rest, x, a, y, b);
    }
}

/// What a hexadecimal digit stands for; -1 for any other character.
pub open spec fn hex_value(c: char) -> int {
    if '0' <= c <= '9' {
        c as int - '0' as int
    } else if 'a' <= c <= 'f' {
        c as int - 'a' as int + 10
    } else {
        -1
    }
}

/// The hexadecimal form of bytes has two lower-case digits for each byte, which
/// read as the byte.
pub proof fn hexadecimals_are_read_back(bytes: Seq<u8>, i: int)
    requires
        0 <= i < bytes.len(),
    ensures
        hex_text(bytes).len() == 2 * bytes.len(),
        0 <= hex_value(hex_text(bytes)[2 * i]) < 16,
        0 <= hex_value(hex_text(bytes)[2 * i + 1]) < 16,
        hex_value(hex_text(bytes)[2 * i]) * 16 + hex_value(hex_text(bytes)[2 * i + 1])
            == bytes[i] as int,
    decreases bytes.len(),
{
    hex_text_len(bytes);
    let rest = bytes.drop_last();
    hex_text_len(rest);
    if i < rest.len() {
        hexadecimals_are_read_back(rest, i);
    } else {
        let b = bytes.last() as nat;
        assert(hex_char(b / 16) as int == if b / 16 < 10 {
            0x30 + b / 16
        } else {
            0x57 + b / 16
        });
        assert(hex_char(b % 16) as int == if b % 16 < 10 {
            0x30 + b % 16
        } else {
            0x57 + b % 16
        });
        assert(b == (b / 16) * 16 + b % 16);
    }
}

} // verus!
