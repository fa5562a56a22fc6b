//! What boot files and disc layouts say about a disc.
use vstd::prelude::*;
use vstd::string::*;
use vstd::utf8::encode_utf8;
use crate::bytes::{
    ascii_space, is_ascii_space, is_byte, lossy_text, lower_byte, lower_bytes,
};
use crate::content_evidence::{ContentEvidenceConfidence, ContentEvidenceKind, Fact};
use crate::executable_signatures::{elf_magic, self_magic};
use crate::game_identity::{file_part, is_serial_name, not_separator, serial_of, upper_byte};
use crate::param_sfo::{text_entry, SfoEntry, SfoValue};
use crate::playstation_boot_evidence::{
    bare_path, boot_assignment, boot_key_of, boot_target, device_prefix_len, first_assignment,
    is_unsafe_component, psx_exe_magic, separator, states_assignment, system_cnf_assignment,
    system_cnf_facts, SystemCnfBootFact,
};
use crate::ps2_boot_evidence::{ps2_facts, Ps2BootObservation};
use crate::ps3_boot_evidence::{ps3_facts, sfo_text, Ps3LayoutObservation};
use crate::psp_boot_evidence::{psp_facts, PspLayoutObservation};
use crate::seqs::{
    first_index_unique, has_prefix, pieces, pieces_step, skip_back, skip_back_run, skip_front,
    skip_front_run, trim_where,
};
use crate::text_laws::pieces_split_at_separators;

verus! {

/// Every byte is ASCII white space.
pub open spec fn is_blank(s: Seq<u8>) -> bool {
    forall|i: int| 0 <= i < s.len() ==> is_ascii_space(#[trigger] s[i])
}

/// The bytes neither begin nor end with ASCII white space.
pub open spec fn is_unpadded(s: Seq<u8>) -> bool {
    s.len() > 0 ==> !is_ascii_space(s[0]) && !is_ascii_space(s.last())
}

/// The byte is the letter, small or capital.
pub open spec fn is_either(b: u8, small: u8, capital: u8) -> bool {
    b == small || b == capital
}

/// `boot` in any case.
pub open spec fn spells_boot(s: Seq<u8>) -> bool {
    &&& s.len() == 4
    &&& is_either(s[0], 0x62, 0x42)
    &&& is_either(s[1], 0x6f, 0x4f)
    &&& is_either(s[2], 0x6f, 0x4f)
    &&& is_either(s[3], 0x74, 0x54)
}

/// `boot2` in any case.
pub open spec fn spells_boot2(s: Seq<u8>) -> bool {
    s.len() == 5 && spells_boot(s.take(4)) && s[4] == 0x32
}

proof fn keys_are_spelled(key: Seq<u8>)
    ensures
        boot_key_of(key) == if spells_boot(key) {
            Some("BOOT"@)
        } else if spells_boot2(key) {
            Some("BOOT2"@)
        } else {
            None
        },
{
    let low = lower_bytes(key);
    let four = seq![0x62u8, 0x6fu8, 0x6fu8, 0x74u8];
    let five = seq![0x62u8, 0x6fu8, 0x6fu8, 0x74u8, 0x32u8];
    assert(low.len() == key.len());
    assert(four.len() == 4 && five.len() == 5);
    if key.len() == 4 {
        assert(low == four <==> low[0] == four[0] && low[1] == four[1] && low[2] == four[2]
            && low[3] == four[3]) by {
            if low[0] == four[0] && low[1] == four[1] && low[2] == four[2] && low[3] == four[3] {
                assert(low =~= four);
            }
        }
        assert(low[0] == lower_byte(key[0]) && low[1] == lower_byte(key[1]));
        assert(low[2] == lower_byte(key[2]) && low[3] == lower_byte(key[3]));
    }
    if key.len() == 5 {
        assert(low == five <==> low[0] == five[0] && low[1] == five[1] && low[2] == five[2]
            && low[3] == five[3] && low[4] == five[4]) by {
            if low[0] == five[0] && low[1] == five[1] && low[2] == five[2] && low[3] == five[3]
                && low[4] == five[4] {
                assert(low =~= five);
            }
        }
        assert(low[0] == lower_byte(key[0]) && low[1] == lower_byte(key[1]));
        assert(low[2] == lower_byte(key[2]) && low[3] == lower_byte(key[3]));
        assert(low[4] == lower_byte(key[4]));
    }
}

proof fn padding_is_cut(lead: Seq<u8>, core: Seq<u8>, tail: Seq<u8>)
    requires
        is_blank(lead),
        is_blank(tail),
        is_unpadded(core),
    ensures
        trim_where(lead + core + tail, ascii_space()) == core,
        skip_front(lead + core + tail, ascii_space()) == if core.len() > 0 {
            core + tail
        } else {
            Seq::empty()
        },
        skip_back(lead + core + tail, ascii_space()) == if core.len() > 0 {
            lead + core
        } else {
            Seq::empty()
        },
{
    let p = ascii_space();
    let s = lead + core + tail;
    let k: int = if core.len() > 0 {
        lead.len() as int
    } else {
        s.len() as int
    };
    assert forall|i: int| 0 <= i < k implies p(#[trigger] s[i]) by {
        if i < lead.len() {
            assert(s[i] == lead[i]);
        } else {
            assert(s[i] == tail[i - lead.len()]);
        }
    }
    if core.len() > 0 {
        assert(s[k] == core[0]);
    }
    skip_front_run(s, p, k);
    let front = s.skip(k);
    if core.len() > 0 {
        assert(front =~= core + tail);
    } else {
        assert(front =~= Seq::empty());
    }
    let n = core.len() as int;
    assert forall|i: int| n <= i < front.len() implies p(#[trigger] front[i]) by {
        assert(front[i] == tail[i - n]);
    }
    if n > 0 {
        assert(front[n - 1] == core.last());
    }
    skip_back_run(front, p, n);
    assert(front.take(n) =~= core);
    let m: int = if core.len() > 0 {
        (lead.len() + core.len()) as int
    } else {
        0
    };
    assert forall|i: int| m <= i < s.len() implies p(#[trigger] s[i]) by {
        if i < lead.len() {
            assert(s[i] == lead[i]);
        } else {
            assert(s[i] == tail[i - lead.len() - core.len()]);
        }
    }
    if m > 0 {
        assert(s[m - 1] == core.last());
    }
    skip_back_run(s, p, m);
    if core.len() > 0 {
        assert(s.take(m) =~= lead + core);
    } else {
        assert(s.take(m) =~= Seq::empty());
    }
}

/// A line assigns by its first equals sign. It is a boot line exactly when what
/// stands before the sign is `boot` or `boot2`, in any case and with any white
/// space around it; its value is what stands behind, without the white space
/// around.
pub proof fn boot_lines_assign_by_their_first_equals_sign(
    p0: Seq<u8>,
    key: Seq<u8>,
    p1: Seq<u8>,
    p2: Seq<u8>,
    value: Seq<u8>,
    p3: Seq<u8>,
)
    requires
        is_blank(p0),
        is_blank(p1),
        is_blank(p2),
        is_blank(p3),
        is_unpadded(key),
        is_unpadded(value),
        !key.contains(0x3d),
    ensures
        boot_assignment((p0 + key + p1) + seq![0x3du8] + (p2 + value + p3)) == if spells_boot(key) {
            Some(("BOOT"@, value))
        } else if spells_boot2(key) {
            Some(("BOOT2"@, value))
        } else {
            None
        },
{
    let p = ascii_space();
    let a = p0 + key + p1;
    let b = p2 + value + p3;
    let line = a + seq![0x3du8] + b;
    let u = if key.len() > 0 {
        key + p1
    } else {
        Seq::empty()
    };
    let v = if value.len() > 0 {
        p2 + value
    } else {
        Seq::empty()
    };
    let k: int = if key.len() > 0 {
        p0.len() as int
    } else {
        a.len() as int
    };
    assert forall|i: int| 0 <= i < k implies p(#[trigger] line[i]) by {
        if i < p0.len() {
            assert(line[i] == p0[i]);
        } else {
            assert(line[i] == p1[i - p0.len()]);
        }
    }
    if key.len() > 0 {
        assert(line[k] == key[0]);
    } else {
        assert(line[k] == 0x3d);
    }
    skip_front_run(line, p, k);
    let front = line.skip(k);
    assert(front =~= u + seq![0x3du8] + b);
    let n = u.len() + 1 + v.len();
    assert forall|i: int| n <= i < front.len() implies p(#[trigger] front[i]) by {
        let j = i - u.len() - 1;
        assert(front[i] == b[j]);
        if value.len() > 0 {
            assert(b[j] == p3[j - v.len()]);
        } else if j < p2.len() {
            assert(b[j] == p2[j]);
        } else {
            assert(b[j] == p3[j - p2.len()]);
        }
    }
    if value.len() > 0 {
        assert(front[n - 1] == value.last());
    } else {
        assert(front[n - 1] == 0x3d);
    }
    skip_back_run(front, p, n as int);
    let l = front.take(n as int);
    assert(l =~= u + seq![0x3du8] + v);
    assert forall|i: int| 0 <= i < u.len() implies !is_byte(0x3d)(#[trigger] l[i]) by {
        assert(l[i] == u[i]);
        if i < key.len() {
            assert(u[i] == key[i]);
            assert(key.contains(key[i]));
        } else {
            assert(u[i] == p1[i - key.len()]);
        }
    }
    assert(l[u.len() as int] == 0x3d);
    first_index_unique(l, is_byte(0x3d), u.len() as int);
    assert(l.take(u.len() as int) =~= u);
    assert(l.skip(u.len() as int + 1) =~= v);
    let none = Seq::<u8>::empty();
    if key.len() > 0 {
        padding_is_cut(none, key, p1);
        assert(none + key + p1 =~= u);
    } else {
        padding_is_cut(none, none, none);
        assert(none + none + none =~= u);
    }
    if value.len() > 0 {
        padding_is_cut(p2, value, none);
        assert(p2 + value + none =~= v);
    } else {
        padding_is_cut(none, none, none);
        assert(none + none + none =~= v);
    }
    assert(trim_where(u, p) =~= key);
    assert(trim_where(v, p) =~= value);
    keys_are_spelled(key);
}

/// A line without an equals sign is no boot line.
pub proof fn lines_without_equals_sign_assign_nothing(line: Seq<u8>)
    requires
        !line.contains(0x3d),
    ensures
        boot_assignment(line) is None,
{
    let l = trim_where(line, ascii_space());
    trimming_keeps_bytes(line);
    assert forall|i: int| 0 <= i < l.len() implies !is_byte(0x3d)(#[trigger] l[i]) by {
        assert(l.contains(l[i]));
    }
    first_index_unique(l, is_byte(0x3d), l.len() as int);
}

proof fn front_keeps_bytes(s: Seq<u8>)
    ensures
        forall|x: u8| #[trigger] skip_front(s, ascii_space()).contains(x) ==> s.contains(x),
    decreases s.len(),
{
    if s.len() > 0 && ascii_space()(s[0]) {
        let rest = s.drop_first();
        front_keeps_bytes(rest);
        assert(skip_front(s, ascii_space()) == skip_front(rest, ascii_space()));
        assert forall|x: u8| #[trigger] skip_front(s, ascii_space()).contains(x) implies s.contains(
            x,
        ) by {
            assert(skip_front(rest, ascii_space()).contains(x));
            assert(rest.contains(x));
            let i = choose|i: int| 0 <= i < rest.len() && rest[i] == x;
            assert(s[i + 1] == x);
        }
    }
}

proof fn back_keeps_bytes(s: Seq<u8>)
    ensures
        forall|x: u8| #[trigger] skip_back(s, ascii_space()).contains(x) ==> s.contains(x),
    decreases s.len(),
{
    if s.len() > 0 && ascii_space()(s.last()) {
        let rest = s.drop_last();
        back_keeps_bytes(rest);
        assert(skip_back(s, ascii_space()) == skip_back(rest, ascii_space()));
        assert forall|x: u8| #[trigger] skip_back(s, ascii_space()).contains(x) implies s.contains(
            x,
        ) by {
            assert(skip_back(rest, ascii_space()).contains(x));
            assert(rest.contains(x));
            let i = choose|i: int| 0 <= i < rest.len() && rest[i] == x;
            assert(s[i] == x);
        }
    }
}

proof fn trimming_keeps_bytes(s: Seq<u8>)
    ensures
        forall|x: u8| #[trigger] trim_where(s, ascii_space()).contains(x) ==> s.contains(x),
{
    front_keeps_bytes(s);
    back_keeps_bytes(skip_front(s, ascii_space()));
}

proof fn earlier_lines_come_first(a: Seq<Seq<u8>>, b: Seq<Seq<u8>>)
    ensures
        first_assignment(a + b) == if first_assignment(a) is Some {
            first_assignment(a)
        } else {
            first_assignment(b)
        },
    decreases a.len(),
{
    if a.len() == 0 {
        assert(a + b =~= b);
    } else {
        assert((a + b).drop_first() =~= a.drop_first() + b);
        earlier_lines_come_first(a.drop_first(), b);
    }
}

/// A boot file is read line by line, and its first boot line counts: what stands
/// before a line break decides if it has a boot line, and what stands behind it
/// decides otherwise. A file that is too large is not read.
pub proof fn the_first_boot_line_counts(a: Seq<u8>, b: Seq<u8>)
    ensures
        a.len() + 1 + b.len() <= 65536 ==> system_cnf_assignment(a + seq![0x0au8] + b)
            == if system_cnf_assignment(a) is Some {
            system_cnf_assignment(a)
        } else {
            system_cnf_assignment(b)
        },
        !a.contains(0x0a) && a.len() <= 65536 ==> system_cnf_assignment(a) == boot_assignment(a),
        a.len() > 65536 ==> system_cnf_assignment(a) is None,
{
    let p = is_byte(0x0a);
    pieces_split_at_separators(a, 0x0au8, b, p);
    earlier_lines_come_first(pieces(a, p), pieces(b, p));
    if !a.contains(0x0a) {
        assert forall|i: int| 0 <= i < a.len() implies !p(#[trigger] a[i]) by {
            assert(a.contains(a[i]));
        }
        pieces_step(a, p, a.len() as int);
        let lines = seq![a];
        assert(lines.drop_first() =~= seq![]);
        assert(first_assignment(lines.drop_first()) is None);
        assert(lines[0] == a);
    }
}

/// `cdrom:` or `cdrom0:`, in any case.
pub open spec fn is_device(s: Seq<u8>) -> bool {
    &&& s.len() == 6 || s.len() == 7
    &&& is_either(s[0], 0x63, 0x43)
    &&& is_either(s[1], 0x64, 0x44)
    &&& is_either(s[2], 0x72, 0x52)
    &&& is_either(s[3], 0x6f, 0x4f)
    &&& is_either(s[4], 0x6d, 0x4d)
    &&& s.len() == 7 ==> s[5] == 0x30
    &&& s.last() == 0x3a
}

proof fn long_prefix(value: Seq<u8>)
    ensures
        has_prefix(
            lower_bytes(value),
            lower_bytes(seq![0x63u8, 0x64u8, 0x72u8, 0x6fu8, 0x6du8, 0x30u8, 0x3au8]),
        ) <==> value.len() >= 7 && is_device(value.take(7)),
{
    let want = seq![0x63u8, 0x64u8, 0x72u8, 0x6fu8, 0x6du8, 0x30u8, 0x3au8];
    let low = lower_bytes(want);
    assert(want.len() == 7 && low.len() == 7);
    assert(low =~= want);
    if value.len() >= 7 {
        let head = lower_bytes(value).subrange(0, 7);
        assert(forall|i: int| 0 <= i < 7 ==> #[trigger] head[i] == lower_byte(value[i]));
        assert(head[0] == lower_byte(value[0]) && head[1] == lower_byte(value[1]));
        assert(head[2] == lower_byte(value[2]) && head[3] == lower_byte(value[3]));
        assert(head[4] == lower_byte(value[4]) && head[5] == lower_byte(value[5]));
        assert(head[6] == lower_byte(value[6]));
        let t = value.take(7);
        if is_device(t) {
            assert(head =~= want);
        }
        if head == want {
            assert(want[0] == 0x63 && want[1] == 0x64 && want[2] == 0x72 && want[3] == 0x6f);
            assert(want[4] == 0x6d && want[5] == 0x30 && want[6] == 0x3a);
            assert(is_device(t));
        }
    }
}

proof fn short_prefix(value: Seq<u8>)
    ensures
        has_prefix(
            lower_bytes(value),
            lower_bytes(seq![0x63u8, 0x64u8, 0x72u8, 0x6fu8, 0x6du8, 0x3au8]),
        ) <==> value.len() >= 6 && is_device(value.take(6)),
{
    let want = seq![0x63u8, 0x64u8, 0x72u8, 0x6fu8, 0x6du8, 0x3au8];
    let low = lower_bytes(want);
    assert(want.len() == 6 && low.len() == 6);
    assert(low =~= want);
    if value.len() >= 6 {
        let head = lower_bytes(value).subrange(0, 6);
        assert(forall|i: int| 0 <= i < 6 ==> #[trigger] head[i] == lower_byte(value[i]));
        assert(head[0] == lower_byte(value[0]) && head[1] == lower_byte(value[1]));
        assert(head[2] == lower_byte(value[2]) && head[3] == lower_byte(value[3]));
        assert(head[4] == lower_byte(value[4]) && head[5] == lower_byte(value[5]));
        let t = value.take(6);
        if is_device(t) {
            assert(head =~= want);
        }
        if head == want {
            assert(want[0] == 0x63 && want[1] == 0x64 && want[2] == 0x72 && want[3] == 0x6f);
            assert(want[4] == 0x6d && want[5] == 0x3a);
            assert(is_device(t));
        }
    }
}

/// A slash or a backslash.
pub open spec fn is_slash(b: u8) -> bool {
    b == 0x2f || b == 0x5c
}

/// The components of a path on the disc, between its slashes.
pub open spec fn components_on_disc(path: Seq<u8>) -> Seq<Seq<u8>> {
    pieces(path, |b: u8| is_slash(b))
}

/// A path that can be looked up on the disc: not empty, not over-long, and
/// without an empty, `.` or `..` component.
pub open spec fn can_be_looked_up(path: Seq<u8>) -> bool {
    &&& 0 < path.len() <= 512
    &&& forall|i: int|
        0 <= i < components_on_disc(path).len() ==> {
            let c = #[trigger] components_on_disc(path)[i];
            c.len() > 0 && c != seq![0x2eu8] && c != seq![0x2eu8, 0x2eu8]
        }
}

/// A boot value names the path between its device, with any slashes behind it,
/// and its version; the path is kept exactly when it can be looked up.
pub proof fn boot_values_name_a_path_on_the_disc(
    device: Seq<u8>,
    slashes: Seq<u8>,
    path: Seq<u8>,
    version: Seq<u8>,
)
    requires
        is_device(device),
        forall|i: int| 0 <= i < slashes.len() ==> is_slash(#[trigger] slashes[i]),
        path.len() > 0 ==> !is_slash(path[0]),
        !path.contains(0x3b),
        version.len() > 0 ==> version[0] == 0x3b,
    ensures
        boot_target(device + slashes + path + version) == if can_be_looked_up(path) {
            Some(path)
        } else {
            None
        },
{
    let value = device + slashes + path + version;
    let n = device.len() as int;
    long_prefix(value);
    short_prefix(value);
    assert(value.take(n) =~= device);
    if n == 6 && value.len() >= 7 {
        let t = value.take(7);
        assert(t[5] == device[5]);
        assert(device.last() == device[5]);
        assert(!is_device(t));
    }
    assert(device_prefix_len(value) == n);
    let rest = value.skip(n);
    assert(rest =~= slashes + path + version);
    let k = slashes.len() as int;
    assert forall|i: int| 0 <= i < k implies separator()(#[trigger] rest[i]) by {
        assert(rest[i] == slashes[i]);
    }
    if k < rest.len() {
        if path.len() > 0 {
            assert(rest[k] == path[0]);
        } else {
            assert(rest[k] == version[0]);
        }
    }
    skip_front_run(rest, separator(), k);
    let named = rest.skip(k);
    assert(named =~= path + version);
    let m = path.len() as int;
    assert forall|i: int| 0 <= i < m implies !is_byte(0x3b)(#[trigger] named[i]) by {
        assert(named[i] == path[i]);
        assert(path.contains(path[i]));
    }
    if m < named.len() {
        assert(named[m] == version[0]);
    }
    first_index_unique(named, is_byte(0x3b), m);
    assert(named.take(m) =~= path);
    assert(bare_path(value) == path);
    assert(separator() =~= |b: u8| is_slash(b));
    let all = components_on_disc(path);
    assert(all == pieces(path, separator()));
    assert forall|i: int| 0 <= i < all.len() implies (is_unsafe_component(#[trigger] all[i])
        <==> !(all[i].len() > 0 && all[i] != seq![0x2eu8] && all[i] != seq![0x2eu8, 0x2eu8])) by {
        if all[i].len() == 0 {
            assert(all[i] =~= Seq::<u8>::empty());
        }
    }
}

/// A boot value without a device names nothing.
pub proof fn boot_values_need_a_device(value: Seq<u8>)
    requires
        value.len() >= 6 ==> !is_device(value.take(6)),
        value.len() >= 7 ==> !is_device(value.take(7)),
    ensures
        boot_target(value) is None,
{
    long_prefix(value);
    short_prefix(value);
}

/// A boot executable's name of four letters, an underscore, three digits, a dot
/// and two digits gives a serial of the same letters, as capitals, a hyphen and
/// the five digits, in whatever directory it is; no other name gives one.
pub proof fn serials_are_read_from_names(dir: Seq<u8>, name: Seq<u8>)
    requires
        dir.len() > 0 ==> is_slash(dir.last()),
        forall|i: int| 0 <= i < name.len() ==> !is_slash(#[trigger] name[i]),
    ensures
        serial_of(dir + name) is Some <==> {
            &&& name.len() == 11
            &&& forall|i: int|
                0 <= i < 4 ==> 0x41 <= #[trigger] name[i] <= 0x5a || 0x61 <= name[i] <= 0x7a
            &&& name[4] == 0x5f && name[8] == 0x2e
            &&& 0x30 <= name[5] <= 0x39 && 0x30 <= name[6] <= 0x39 && 0x30 <= name[7] <= 0x39
            &&& 0x30 <= name[9] <= 0x39 && 0x30 <= name[10] <= 0x39
        },
        serial_of(dir + name) matches Some(serial) ==> {
            &&& serial.len() == 10
            &&& forall|i: int|
                0 <= i < 4 ==> 'A' <= #[trigger] serial[i] <= 'Z' && (serial[i] as int
                    == name[i] as int || serial[i] as int == name[i] as int - 0x20)
            &&& serial[4] == '-'
            &&& serial[5] == name[5] as char && serial[6] == name[6] as char && serial[7]
                == name[7] as char
            &&& serial[8] == name[9] as char && serial[9] == name[10] as char
        },
{
    let path = dir + name;
    let p = not_separator();
    let n = dir.len() as int;
    assert forall|i: int| n <= i < path.len() implies p(#[trigger] path[i]) by {
        assert(path[i] == name[i - n]);
    }
    if n > 0 {
        assert(path[n - 1] == dir.last());
    }
    skip_back_run(path, p, n);
    assert(path.take(n).len() == n);
    assert(file_part(path) =~= name);
    if is_serial_name(name) {
        assert(upper_byte(name[0]) as char as int == upper_byte(name[0]) as int);
    }
}

/// Some fact is of this kind, value and confidence.
pub open spec fn says(
    facts: Seq<Fact>,
    kind: ContentEvidenceKind,
    value: Seq<char>,
    confidence: ContentEvidenceConfidence,
) -> bool {
    exists|i: int|
        0 <= i < facts.len() && (#[trigger] facts[i]).kind == kind && facts[i].value == value
            && facts[i].confidence == confidence
}

/// A boot line says which key it has, and the serial if it names one; neither is
/// more than corroborated, and nothing else is said.
pub proof fn boot_lines_say_key_and_serial(fact: SystemCnfBootFact)
    ensures
        says(
            system_cnf_facts(fact),
            ContentEvidenceKind::BootStructure,
            fact.boot_key@,
            ContentEvidenceConfidence::Corroborated,
        ),
        fact.serial_candidate matches Some(serial) ==> says(
            system_cnf_facts(fact),
            ContentEvidenceKind::ProductCode,
            serial@,
            ContentEvidenceConfidence::Corroborated,
        ) && system_cnf_facts(fact).len() == 2,
        fact.serial_candidate is None ==> system_cnf_facts(fact).len() == 1,
{
    let all = system_cnf_facts(fact);
    assert(all[0].kind == ContentEvidenceKind::BootStructure);
    if fact.serial_candidate is Some {
        assert(all[1].kind == ContentEvidenceKind::ProductCode);
    }
}

/// Only a boot line whose executable is an ELF says more than the line itself:
/// that it is an ELF, weakly, and a `BOOT2` key strongly.
pub proof fn elf_executables_confirm_boot2(observation: Ps2BootObservation)
    ensures
        observation.elf_magic_present != Some(true) ==> ps2_facts(observation) == system_cnf_facts(
            observation.system_cnf,
        ),
        observation.elf_magic_present == Some(true) ==> {
            &&& ps2_facts(observation).len() == system_cnf_facts(observation.system_cnf).len() + 1
            &&& says(
                ps2_facts(observation),
                ContentEvidenceKind::ContentSignature,
                "ELF"@,
                ContentEvidenceConfidence::Weak,
            )
            &&& says(
                ps2_facts(observation),
                ContentEvidenceKind::BootStructure,
                observation.system_cnf.boot_key@,
                if observation.system_cnf.boot_key@ == "BOOT2"@ {
                    ContentEvidenceConfidence::Strong
                } else {
                    ContentEvidenceConfidence::Corroborated
                },
            )
            &&& observation.system_cnf.serial_candidate matches Some(serial) ==> says(
                ps2_facts(observation),
                ContentEvidenceKind::ProductCode,
                serial@,
                ContentEvidenceConfidence::Corroborated,
            )
        },
{
    let all = ps2_facts(observation);
    if observation.elf_magic_present == Some(true) {
        assert(all[all.len() - 1].value == "ELF"@);
        assert(all[0].kind == ContentEvidenceKind::BootStructure);
        if observation.system_cnf.serial_candidate is Some {
            assert(all[1].kind == ContentEvidenceKind::ProductCode);
        }
    }
}

/// One if it holds.
pub open spec fn one_if(b: bool) -> int {
    if b {
        1
    } else {
        0
    }
}

/// A PS3 layout says that there is a `PS3_GAME` directory, which title id the
/// `PARAM.SFO` has, and, strongly, that the executable is signed: each exactly
/// when it was seen.
pub proof fn ps3_layouts_say_what_was_seen(o: Ps3LayoutObservation)
    ensures
        o.ps3_game_dir_present <==> says(
            ps3_facts(o),
            ContentEvidenceKind::BootStructure,
            "PS3_GAME"@,
            ContentEvidenceConfidence::Corroborated,
        ),
        forall|t: Seq<char>|
            sfo_text(o.param_sfo, "TITLE_ID"@) == Some(t) <==> #[trigger] says(
                ps3_facts(o),
                ContentEvidenceKind::ProductCode,
                t,
                ContentEvidenceConfidence::Corroborated,
            ),
        o.eboot_self_magic_present == Some(true) <==> says(
            ps3_facts(o),
            ContentEvidenceKind::ContentSignature,
            "SELF"@,
            ContentEvidenceConfidence::Strong,
        ),
        ps3_facts(o).len() == one_if(o.ps3_game_dir_present) + one_if(
            sfo_text(o.param_sfo, "TITLE_ID"@) is Some,
        ) + one_if(o.eboot_self_magic_present == Some(true)),
{
    let all = ps3_facts(o);
    let a = one_if(o.ps3_game_dir_present);
    let b = one_if(sfo_text(o.param_sfo, "TITLE_ID"@) is Some);
    if o.ps3_game_dir_present {
        assert(all[0].value == "PS3_GAME"@);
    }
    if sfo_text(o.param_sfo, "TITLE_ID"@) is Some {
        assert(all[a].kind == ContentEvidenceKind::ProductCode);
    }
    if o.eboot_self_magic_present == Some(true) {
        assert(all[a + b].value == "SELF"@);
    }
}

/// A PSP layout says that there is a `PSP_GAME` directory, strongly that the
/// medium says it is a UMD, and which disc id the `PARAM.SFO` has: each exactly
/// when it was seen.
pub proof fn psp_layouts_say_what_was_seen(o: PspLayoutObservation)
    ensures
        o.psp_game_dir_present <==> says(
            psp_facts(o),
            ContentEvidenceKind::BootStructure,
            "PSP_GAME"@,
            ContentEvidenceConfidence::Corroborated,
        ),
        o.umd_data_bin_present <==> says(
            psp_facts(o),
            ContentEvidenceKind::BootStructure,
            "UMD_DATA.BIN"@,
            ContentEvidenceConfidence::Strong,
        ),
        forall|t: Seq<char>|
            sfo_text(o.param_sfo, "DISC_ID"@) == Some(t) <==> #[trigger] says(
                psp_facts(o),
                ContentEvidenceKind::ProductCode,
                t,
                ContentEvidenceConfidence::Corroborated,
            ),
        psp_facts(o).len() == one_if(o.psp_game_dir_present) + one_if(o.umd_data_bin_present)
            + one_if(sfo_text(o.param_sfo, "DISC_ID"@) is Some),
{
    let all = psp_facts(o);
    let a = one_if(o.psp_game_dir_present);
    let b = one_if(o.umd_data_bin_present);
    if o.psp_game_dir_present {
        assert(all[0].value == "PSP_GAME"@);
    }
    if o.umd_data_bin_present {
        assert(all[a].value == "UMD_DATA.BIN"@);
    }
    if sfo_text(o.param_sfo, "DISC_ID"@) is Some {
        assert(all[a + b].kind == ContentEvidenceKind::ProductCode);
    }
}

/// The first entry for a key decides, and gives its text only if it is text.
pub proof fn the_first_entry_for_a_key_counts(entries: Seq<SfoEntry>, key: Seq<char>, k: int)
    requires
        0 <= k < entries.len(),
        entries[k].key@ == key,
        forall|j: int| 0 <= j < k ==> (#[trigger] entries[j]).key@ != key,
    ensures
        text_entry(entries, key) == match entries[k].value {
            SfoValue::Text(text) => Some(text@),
            SfoValue::Integer(_) => None,
        },
    decreases entries.len(),
{
    if k > 0 {
        assert(entries[0].key@ != key);
        let rest = entries.drop_first();
        assert(rest[k - 1] == entries[k]);
        assert forall|j: int| 0 <= j < k - 1 implies (#[trigger] rest[j]).key@ != key by {
            assert(rest[j] == entries[j + 1]);
        }
        the_first_entry_for_a_key_counts(rest, key, k - 1);
    }
}

/// A key without an entry has no text.
pub proof fn absent_keys_have_no_text(entries: Seq<SfoEntry>, key: Seq<char>)
    requires
        forall|j: int| 0 <= j < entries.len() ==> (#[trigger] entries[j]).key@ != key,
    ensures
        text_entry(entries, key) is None,
    decreases entries.len(),
{
    if entries.len() > 0 {
        let rest = entries.drop_first();
        assert forall|j: int| 0 <= j < rest.len() implies (#[trigger] rest[j]).key@ != key by {
            assert(rest[j] == entries[j + 1]);
        }
        absent_keys_have_no_text(rest, key);
    }
}

/// An ELF begins with `0x7f` and `ELF`, a signed executable with `SCE` and a zero
/// byte, and a PS-X executable with `PS-X EXE`.
pub proof fn executables_begin_with_their_magic(h: Seq<u8>)
    ensures
        has_prefix(h, elf_magic()) <==> h.len() >= 4 && h[0] == 0x7f && h[1] as char == 'E'
            && h[2] as char == 'L' && h[3] as char == 'F',
        has_prefix(h, self_magic()) <==> h.len() >= 4 && h[0] as char == 'S' && h[1] as char == 'C'
            && h[2] as char == 'E' && h[3] == 0,
        has_prefix(h, psx_exe_magic()) <==> h.len() >= 8 && h[0] as char == 'P' && h[1] as char
            == 'S' && h[2] as char == '-' && h[3] as char == 'X' && h[4] as char == ' ' && h[5] as
            char == 'E' && h[6] as char == 'X' && h[7] as char == 'E',
{
    let e = elf_magic();
    let s = self_magic();
    let x = psx_exe_magic();
    if h.len() >= 4 {
        let t = h.subrange(0, 4);
        assert(t[0] == h[0] && t[1] == h[1] && t[2] == h[2] && t[3] == h[3]);
        assert(e[0] == 0x7f && e[1] == 0x45 && e[2] == 0x4c && e[3] == 0x46);
        assert(s[0] == 0x53 && s[1] == 0x43 && s[2] == 0x45 && s[3] == 0);
        if t[0] == e[0] && t[1] == e[1] && t[2] == e[2] && t[3] == e[3] {
            assert(t =~= e);
        }
        if t[0] == s[0] && t[1] == s[1] && t[2] == s[2] && t[3] == s[3] {
            assert(t =~= s);
        }
    }
    if h.len() >= 8 {
        let t = h.subrange(0, 8);
        assert(t[0] == h[0] && t[1] == h[1] && t[2] == h[2] && t[3] == h[3]);
        assert(t[4] == h[4] && t[5] == h[5] && t[6] == h[6] && t[7] == h[7]);
        assert(x[0] == 0x50 && x[1] == 0x53 && x[2] == 0x2d && x[3] == 0x58);
        assert(x[4] == 0x20 && x[5] == 0x45 && x[6] == 0x58 && x[7] == 0x45);
        if t[0] == x[0] && t[1] == x[1] && t[2] == x[2] && t[3] == x[3] && t[4] == x[4] && t[5]
            == x[5] && t[6] == x[6] && t[7] == x[7] {
            assert(t =~= x);
        }
    }
}

/// A boot fact gives the text of its value, the executable's path exactly when
/// the value names one on the disc, and the serial that the path gives.
pub proof fn boot_facts_state_their_line(fact: SystemCnfBootFact, key: Seq<char>, value: Seq<u8>)
    requires
        states_assignment(fact, key, value),
    ensures
        fact.boot_key@ == key,
        fact.raw_value@ == lossy_text(value),
        fact.executable_path is Some <==> boot_target(value) is Some,
        boot_target(value) matches Some(path) ==> (fact.executable_path matches Some(text) && text@
            == lossy_text(path)) && (match serial_of(encode_utf8(lossy_text(path))) {
            Some(serial) => fact.serial_candidate matches Some(text) && text@ == serial,
            None => fact.serial_candidate is None,
        }),
        boot_target(value) is None ==> fact.serial_candidate is None,
{
}

} // verus!
