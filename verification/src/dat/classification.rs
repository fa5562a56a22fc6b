//! Multi-disc titles: a DAT release name that ends in `(Disc N of M)`.
use vstd::prelude::*;
use vstd::string::*;
use crate::seqs::{skip_back, skip_back_run};
use crate::text::{
    chars_of, same_text, split_char, split_text, text_of, trim, trimmed, views,
};

verus! {

/// The parts of a multi-disc title.
#[derive(Debug, Clone, PartialEq, Eq)]
pub struct MultidiscToken {
    pub base_title: String,
    pub part: u16,
    pub total: u16,
}

/// An ASCII digit.
pub open spec fn is_digit_char(c: char) -> bool {
    '0' <= c && c <= '9'
}

/// The value of a run of decimal digits.
pub open spec fn digits_value(s: Seq<char>) -> nat
    decreases s.len(),
{
    if s.len() == 0 {
        0
    } else {
        digits_value(s.drop_last()) * 10 + (s.last() as nat - '0' as nat) as nat
    }
}

/// The number a word stands for: one or more digits, at most 65535.
pub open spec fn word_number(s: Seq<char>) -> Option<nat> {
    if s.len() > 0 && (forall|i: int| 0 <= i < s.len() ==> is_digit_char(#[trigger] s[i]))
        && digits_value(s) <= 0xffff {
        Some(digits_value(s))
    } else {
        None
    }
}

/// The test for every character but `(`.
pub open spec fn not_open() -> spec_fn(char) -> bool {
    |c: char| c != '('
}

/// The number of characters up to and with the last `(`; 0 if there is none.
pub open spec fn last_open(s: Seq<char>) -> int {
    skip_back(s, not_open()).len() as int
}

/// The words inside the final pair of brackets of a name that ends in one.
pub open spec fn final_words(name: Seq<char>) -> Seq<Seq<char>> {
    let body = name.drop_last();
    split_text(body.skip(last_open(body)), ' ')
}

/// The base title, part and total of a name that ends in `(Disc N of M)`.
pub open spec fn multidisc_parts(name: Seq<char>) -> Option<(Seq<char>, nat, nat)> {
    if name.len() == 0 || name.last() != ')' || last_open(name.drop_last()) == 0 {
        None
    } else {
        let words = final_words(name);
        if words.len() == 4 && words[0] == "Disc"@ && words[2] == "of"@ && word_number(
            words[1],
        ) is Some && word_number(words[3]) is Some {
            Some(
                (
                    trimmed(name.take(last_open(name.drop_last()) - 1)),
                    word_number(words[1])->0,
                    word_number(words[3])->0,
                ),
            )
        } else {
            None
        }
    }
}

/// A token as its parts.
pub open spec fn token_parts(t: Option<MultidiscToken>) -> Option<(Seq<char>, nat, nat)> {
    match t {
        Some(t) => Some((t.base_title@, t.part as nat, t.total as nat)),
        None => None,
    }
}

proof fn digits_value_grows(s: Seq<char>, n: int)
    requires
        0 <= n <= s.len(),
    ensures
        digits_value(s.take(n)) <= digits_value(s),
    decreases s.len() - n,
{
    if n < s.len() {
        digits_value_grows(s, n + 1);
        assert(s.take(n + 1).drop_last() =~= s.take(n));
    } else {
        assert(s.take(n) =~= s);
    }
}

fn number_of(word: &str) -> (r: Option<u16>)
    ensures
        match r {
            Some(n) => word_number(word@) == Some(n as nat),
            None => word_number(word@) is None,
        },
{
    let chars = chars_of(word);
    if chars.len() == 0 {
        return None;
    }
    let mut value: u32 = 0;
    let mut i: usize = 0;
    assert(word@.take(0) =~= seq![]);
    while i < chars.len()
        invariant
            i <= chars@.len(),
            chars@ == word@,
            value == digits_value(word@.take(i as int)),
            value <= 0xffff,
            forall|j: int| 0 <= j < i ==> is_digit_char(#[trigger] word@[j]),
        decreases chars.len() - i,
    {
        let c: char = chars[i];
        if !('0' <= c && c <= '9') {
            assert(!is_digit_char(word@[i as int]));
            return None;
        }
        assert(word@.take(i + 1).drop_last() =~= word@.take(i as int));
        value = value * 10 + (c as u32 - '0' as u32);
        if value > 0xffff {
            proof {
                digits_value_grows(word@, i + 1);
            }
            return None;
        }
        i = i + 1;
    }
    assert(word@.take(i as int) =~= word@);
    Some(value as u16)
}

/// Reads a release name as a multi-disc title.
pub fn multidisc_group_key(name: &str) -> (r: Option<MultidiscToken>)
    ensures
        token_parts(r) == multidisc_parts(name@),
{
    let chars = chars_of(name);
    if chars.len() == 0 || chars[chars.len() - 1] != ')' {
        return None;
    }
    let end: usize = chars.len() - 1;
    let mut at: usize = end;
    let ghost body = name@.drop_last();
    while at > 0 && chars[at - 1] != '('
        invariant
            at <= end,
            end == chars@.len() - 1,
            chars@ == name@,
            body == name@.drop_last(),
            forall|i: int| at <= i < body.len() ==> not_open()(#[trigger] body[i]),
        decreases at,
    {
        at = at - 1;
        assert(body[at as int] == chars@[at as int]);
    }
    proof {
        if at > 0 {
            assert(body[at - 1] == chars@[at - 1]);
        }
        skip_back_run(body, not_open(), at as int);
    }
    if at == 0 {
        return None;
    }
    let inner = text_of(&chars, at, end);
    assert(body.skip(at as int) =~= inner@);
    let words = split_char(inner.as_str(), ' ');
    proof {
        assert(views(words@).len() == words@.len());
    }
    if words.len() != 4 {
        return None;
    }
    proof {
        assert(views(words@)[0] == words@[0]@ && views(words@)[1] == words@[1]@);
        assert(views(words@)[2] == words@[2]@ && views(words@)[3] == words@[3]@);
    }
    if !same_text(words[0].as_str(), "Disc") || !same_text(words[2].as_str(), "of") {
        return None;
    }
    match (number_of(words[1].as_str()), number_of(words[3].as_str())) {
        (Some(part), Some(total)) => {
            let head = text_of(&chars, 0, at - 1);
            assert(head@ =~= name@.take(at - 1));
            Some(MultidiscToken { base_title: trim(head.as_str()), part, total })
        },
        _ => None,
    }
}

} // verus!
