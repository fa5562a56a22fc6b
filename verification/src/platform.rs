//! The platform registry: canonical ids, ids that name the same machine, and
//! the file extensions that mark primary content.
use vstd::prelude::*;
use vstd::string::*;
use crate::order::{inserted, above};
use crate::path::{extension, extension_of as path_extension_of};
use crate::seqs::first_index_unique;
use crate::text::{
    join_texts, joined, lower_text, opt_view, same_text, text_at_most, text_le, to_lower, views,
};

verus! {

/// A registered platform.
#[derive(Debug, Clone, Copy, PartialEq, Eq)]
pub struct Platform {
    pub id: &'static str,
}

/// The views of a sequence of string slices.
pub open spec fn strs(s: Seq<&'static str>) -> Seq<Seq<char>> {
    s.map_values(|t: &'static str| t@)
}

/// The view of an optional static string slice.
pub open spec fn opt_id(s: Option<&'static str>) -> Option<Seq<char>> {
    match s {
        Some(t) => Some(t@),
        None => None,
    }
}

/// The canonical platform ids.
pub open spec fn is_platform(id: Seq<char>) -> bool {
    ||| id == "3DO"@
    ||| id == "Atari 7800"@
    ||| id == "Dreamcast"@
    ||| id == "Game Boy"@
    ||| id == "Game Boy Advance"@
    ||| id == "GameCube"@
    ||| id == "GameGear"@
    ||| id == "Lynx"@
    ||| id == "MasterSystem"@
    ||| id == "MegaDrive"@
    ||| id == "N64"@
    ||| id == "NES"@
    ||| id == "PC Engine"@
    ||| id == "PS2"@
    ||| id == "PS3"@
    ||| id == "PSP"@
    ||| id == "PSX"@
    ||| id == "SNES"@
    ||| id == "Saturn"@
    ||| id == "Sega 32X"@
    ||| id == "SegaCD"@
    ||| id == "TurboGrafx-16"@
    ||| id == "Wii"@
    ||| id == "Xbox"@
    ||| id == "Xbox360"@
}

/// The canonical ids, for lookup.
fn platform_ids() -> (r: Vec<&'static str>)
    ensures
        forall|id: Seq<char>| is_platform(id) <==> #[trigger] strs(r@).contains(id),
{
    let r: Vec<&'static str> = vec![
        "3DO", "Atari 7800", "Dreamcast", "Game Boy", "Game Boy Advance", "GameCube", "GameGear",
        "Lynx", "MasterSystem", "MegaDrive", "N64", "NES", "PC Engine", "PS2", "PS3", "PSP", "PSX",
        "SNES", "Saturn", "Sega 32X", "SegaCD", "TurboGrafx-16", "Wii", "Xbox", "Xbox360",
    ];
    proof {
        let ids = strs(r@);
        assert(ids.len() == 25);
        assert(ids[0] == "3DO"@ && ids[1] == "Atari 7800"@ && ids[2] == "Dreamcast"@);
        assert(ids[3] == "Game Boy"@ && ids[4] == "Game Boy Advance"@ && ids[5] == "GameCube"@);
        assert(ids[6] == "GameGear"@ && ids[7] == "Lynx"@ && ids[8] == "MasterSystem"@);
        assert(ids[9] == "MegaDrive"@ && ids[10] == "N64"@ && ids[11] == "NES"@);
        assert(ids[12] == "PC Engine"@ && ids[13] == "PS2"@ && ids[14] == "PS3"@);
        assert(ids[15] == "PSP"@ && ids[16] == "PSX"@ && ids[17] == "SNES"@);
        assert(ids[18] == "Saturn"@ && ids[19] == "Sega 32X"@ && ids[20] == "SegaCD"@);
        assert(ids[21] == "TurboGrafx-16"@ && ids[22] == "Wii"@ && ids[23] == "Xbox"@);
        assert(ids[24] == "Xbox360"@);
    }
    r
}

/// The platform with exactly this canonical id.
pub fn platform_by_id(id: &str) -> (r: Option<Platform>)
    ensures
        r is Some <==> is_platform(id@),
        r matches Some(platform) ==> platform.id@ == id@,
{
    let ids = platform_ids();
    let mut i: usize = 0;
    while i < ids.len()
        invariant
            i <= ids@.len(),
            forall|j: int| 0 <= j < i ==> strs(ids@)[j] != id@,
            forall|x: Seq<char>| is_platform(x) <==> #[trigger] strs(ids@).contains(x),
        decreases ids.len() - i,
    {
        assert(strs(ids@)[i as int] == ids@[i as int]@);
        if same_text(ids[i], id) {
            assert(strs(ids@).contains(id@));
            return Some(Platform { id: ids[i] });
        }
        i = i + 1;
    }
    assert(!strs(ids@).contains(id@));
    None
}

/// A platform's class: ids of one machine under regional names share one.
pub open spec fn platform_class(id: Seq<char>) -> Seq<char> {
    if id == "TurboGrafx-16"@ {
        "PC Engine"@
    } else {
        id
    }
}

/// Two ids that name the same machine.
pub open spec fn equivalent(a: Seq<char>, b: Seq<char>) -> bool {
    platform_class(a) == platform_class(b)
}

/// Whether two ids name the same machine.
pub fn equivalent_platform_ids(a: &str, b: &str) -> (r: bool)
    ensures
        r == equivalent(a@, b@),
{
    let x: &str = if same_text(a, "TurboGrafx-16") {
        "PC Engine"
    } else {
        a
    };
    let y: &str = if same_text(b, "TurboGrafx-16") {
        "PC Engine"
    } else {
        b
    };
    same_text(x, y)
}

/// The order of ids by code point.
pub open spec fn id_order() -> spec_fn(Seq<char>, Seq<char>) -> bool {
    |a: Seq<char>, b: Seq<char>| text_le(a, b)
}

/// The distinct ids in ascending order.
pub open spec fn ascending(ids: Seq<Seq<char>>) -> Seq<Seq<char>>
    decreases ids.len(),
{
    if ids.len() == 0 {
        seq![]
    } else {
        let before = ascending(ids.drop_last());
        if before.contains(ids.last()) {
            before
        } else {
            inserted(before, ids.last(), id_order())
        }
    }
}

/// The distinct ids in ascending order.
pub fn ascending_ids(ids: &[&'static str]) -> (r: Vec<&'static str>)
    ensures
        strs(r@) == ascending(strs(ids@)),
{
    let mut out: Vec<&'static str> = Vec::new();
    let mut i: usize = 0;
    assert(strs(out@) =~= ascending(strs(ids@).take(0)));
    while i < ids.len()
        invariant
            i <= ids@.len(),
            strs(out@) == ascending(strs(ids@).take(i as int)),
        decreases ids.len() - i,
    {
        let id: &'static str = ids[i];
        proof {
            let next = strs(ids@).take(i + 1);
            assert(next.drop_last() =~= strs(ids@).take(i as int));
            assert(next.last() == id@);
        }
        if !contains_id(&out, id) {
            let mut k: usize = 0;
            while k < out.len() && text_at_most(out[k], id)
                invariant
                    k <= out@.len(),
                    forall|j: int|
                        0 <= j < k ==> !above(id_order(), id@)(#[trigger] strs(out@)[j]),
                ensures
                    k <= out@.len(),
                    forall|j: int|
                        0 <= j < k ==> !above(id_order(), id@)(#[trigger] strs(out@)[j]),
                    k < out@.len() ==> above(id_order(), id@)(strs(out@)[k as int]),
                decreases out.len() - k,
            {
                k = k + 1;
            }
            proof {
                first_index_unique(strs(out@), above(id_order(), id@), k as int);
                assert(strs(out@.insert(k as int, id)) =~= strs(out@).insert(k as int, id@));
            }
            out.insert(k, id);
        }
        i = i + 1;
    }
    assert(strs(ids@).take(i as int) =~= strs(ids@));
    out
}

/// Whether `ids` holds `id`.
pub fn contains_id(ids: &Vec<&'static str>, id: &str) -> (r: bool)
    ensures
        r == strs(ids@).contains(id@),
{
    let mut i: usize = 0;
    while i < ids.len()
        invariant
            i <= ids@.len(),
            forall|j: int| 0 <= j < i ==> strs(ids@)[j] != id@,
        decreases ids.len() - i,
    {
        assert(strs(ids@)[i as int] == ids@[i as int]@);
        if same_text(ids[i], id) {
            return true;
        }
        i = i + 1;
    }
    false
}

/// The ids in order, with `sep` between neighbours.
pub fn join_ids(ids: &Vec<&'static str>, sep: &str) -> (r: String)
    ensures
        r@ == joined(strs(ids@), sep@),
{
    let mut parts: Vec<String> = Vec::new();
    let mut i: usize = 0;
    while i < ids.len()
        invariant
            i <= ids@.len(),
            views(parts@) == strs(ids@).take(i as int),
        decreases ids.len() - i,
    {
        let part = ids[i].to_owned();
        proof {
            assert(views(parts@.push(part)) =~= views(parts@).push(part@));
            assert(strs(ids@).take(i + 1) =~= strs(ids@).take(i as int).push(part@));
        }
        parts.push(part);
        i = i + 1;
    }
    assert(strs(ids@).take(i as int) =~= strs(ids@));
    join_texts(&parts, sep)
}

/// Equal ids, in order.
pub fn copy_ids(ids: &Vec<&'static str>) -> (r: Vec<&'static str>)
    ensures
        r@ == ids@,
{
    let mut r: Vec<&'static str> = Vec::new();
    let mut i: usize = 0;
    while i < ids.len()
        invariant
            i <= ids@.len(),
            r@ == ids@.take(i as int),
        decreases ids.len() - i,
    {
        r.push(ids[i]);
        assert(ids@.take(i + 1) =~= ids@.take(i as int).push(ids@[i as int]));
        i = i + 1;
    }
    assert(ids@.take(i as int) =~= ids@);
    r
}

/// The lower-case extension of a path.
pub fn extension_of(path: &str) -> (r: Option<String>)
    ensures
        opt_view(r) == match extension(path@) {
            Some(e) => Some(lower_text(e)),
            None => None,
        },
{
    match path_extension_of(path) {
        Some(e) => Some(to_lower(e.as_str())),
        None => None,
    }
}

/// The extensions that some platform registers for its primary content.
pub open spec fn is_content_extension(ext: Seq<char>) -> bool {
    ||| ext == "32x"@
    ||| ext == "a78"@
    ||| ext == "cdi"@
    ||| ext == "chd"@
    ||| ext == "gb"@
    ||| ext == "gba"@
    ||| ext == "gbc"@
    ||| ext == "gcm"@
    ||| ext == "gdi"@
    ||| ext == "gen"@
    ||| ext == "gg"@
    ||| ext == "iso"@
    ||| ext == "lnx"@
    ||| ext == "md"@
    ||| ext == "n64"@
    ||| ext == "nes"@
    ||| ext == "pce"@
    ||| ext == "rvz"@
    ||| ext == "sfc"@
    ||| ext == "smc"@
    ||| ext == "sms"@
    ||| ext == "v64"@
    ||| ext == "wbfs"@
    ||| ext == "xiso"@
    ||| ext == "z64"@
}

/// Whether some platform registers `ext` for its primary content.
pub fn registers_extension(ext: &str) -> (r: bool)
    ensures
        r == is_content_extension(ext@),
{
    same_text(ext, "32x") || same_text(ext, "a78") || same_text(ext, "cdi") || same_text(ext, "chd")
        || same_text(ext, "gb") || same_text(ext, "gba") || same_text(ext, "gbc") || same_text(
        ext,
        "gcm",
    ) || same_text(ext, "gdi") || same_text(ext, "gen") || same_text(ext, "gg") || same_text(
        ext,
        "iso",
    ) || same_text(ext, "lnx") || same_text(ext, "md") || same_text(ext, "n64") || same_text(
        ext,
        "nes",
    ) || same_text(ext, "pce") || same_text(ext, "rvz") || same_text(ext, "sfc") || same_text(
        ext,
        "smc",
    ) || same_text(ext, "sms") || same_text(ext, "v64") || same_text(ext, "wbfs") || same_text(
        ext,
        "xiso",
    ) || same_text(ext, "z64")
}

} // verus!
