//! Serials read out of boot-executable names.
use vstd::prelude::*;
use crate::seqs::{skip_back_run, skip_back};

verus! {

/// The largest `SYSTEM.CNF` that is read at all: 64 KiB.
pub const MAX_SYSTEM_CNF_BYTES: u64 = 65536;

/// An ASCII letter.
pub open spec fn is_letter(b: u8) -> bool {
    0x41 <= b <= 0x5a || 0x61 <= b <= 0x7a
}

/// An ASCII digit.
pub open spec fn is_digit(b: u8) -> bool {
    0x30 <= b <= 0x39
}

/// `b` with an ASCII small letter replaced by its capital letter.
pub open spec fn upper_byte(b: u8) -> u8 {
    if 0x61 <= b <= 0x7a {
        (b - 0x20) as u8
    } else {
        b
    }
}

/// The test for every byte but the two path separators `/` and `\`.
pub open spec fn not_separator() -> spec_fn(u8) -> bool {
    |b: u8| b != 0x2f && b != 0x5c
}

/// What follows the last path separator.
pub open spec fn file_part(path: Seq<u8>) -> Seq<u8> {
    path.skip(skip_back(path, not_separator()).len() as int)
}

/// A name shaped `XXXX_NNN.NN`.
pub open spec fn is_serial_name(n: Seq<u8>) -> bool {
    &&& n.len() == 11
    &&& is_letter(n[0]) && is_letter(n[1]) && is_letter(n[2]) && is_letter(n[3])
    &&& n[4] == 0x5f
    &&& is_digit(n[5]) && is_digit(n[6]) && is_digit(n[7])
    &&& n[8] == 0x2e
    &&& is_digit(n[9]) && is_digit(n[10])
}

/// The serial a boot-executable path names: `XXXX_NNN.NN` read as
/// `XXXX-NNNNN`, in capitals.
pub open spec fn serial_of(path: Seq<u8>) -> Option<Seq<char>> {
    let n = file_part(path);
    if is_serial_name(n) {
        Some(
            seq![
                upper_byte(n[0]) as char,
                upper_byte(n[1]) as char,
                upper_byte(n[2]) as char,
                upper_byte(n[3]) as char,
                '-',
                n[5] as char,
                n[6] as char,
                n[7] as char,
                n[9] as char,
                n[10] as char,
            ],
        )
    } else {
        None
    }
}

fn letter(b: u8) -> (r: bool)
    ensures
        r == is_letter(b),
{
    (0x41 <= b && b <= 0x5a) || (0x61 <= b && b <= 0x7a)
}

fn digit(b: u8) -> (r: bool)
    ensures
        r == is_digit(b),
{
    0x30 <= b && b <= 0x39
}

fn to_upper_byte(b: u8) -> (r: u8)
    ensures
        r == upper_byte(b),
{
    if 0x61 <= b && b <= 0x7a {
        b - 0x20
    } else {
        b
    }
}

/// The serial candidate in a boot-executable path, if its file name has the
/// serial shape.
pub fn serial_from_boot_path(path: &[u8]) -> (r: Option<String>)
    ensures
        crate::text::opt_view(r) == serial_of(path@),
{
    let mut at: usize = path.len();
    while at > 0 && path[at - 1] != 0x2f && path[at - 1] != 0x5c
        invariant
            at <= path@.len(),
            forall|i: int| at <= i < path@.len() ==> not_separator()(#[trigger] path@[i]),
        decreases at,
    {
        at = at - 1;
    }
    let n = &path[at..path.len()];
    proof {
        skip_back_run(path@, not_separator(), at as int);
        assert(path@.skip(at as int) =~= n@);
    }
    if n.len() != 11 {
        return None;
    }
    if !(letter(n[0]) && letter(n[1]) && letter(n[2]) && letter(n[3]) && n[4] == 0x5f && digit(n[5])
        && digit(n[6]) && digit(n[7]) && n[8] == 0x2e && digit(n[9]) && digit(n[10])) {
        return None;
    }
    let mut s = String::new();
    s.push(to_upper_byte(n[0]) as char);
    s.push(to_upper_byte(n[1]) as char);
    s.push(to_upper_byte(n[2]) as char);
    s.push(to_upper_byte(n[3]) as char);
    s.push('-');
    s.push(n[5] as char);
    s.push(n[6] as char);
    s.push(n[7] as char);
    s.push(n[9] as char);
    s.push(n[10] as char);
    assert(s@ =~= serial_of(path@)->0);
    Some(s)
}

} // verus!
