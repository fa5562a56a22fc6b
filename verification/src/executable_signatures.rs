//! Magic numbers at the start of executables.
use vstd::prelude::*;
use crate::bytes::starts_with_bytes;
use crate::seqs::has_prefix;

verus! {

/// `0x7f 'E' 'L' 'F'`.
pub open spec fn elf_magic() -> Seq<u8> {
    seq![0x7fu8, 0x45u8, 0x4cu8, 0x46u8]
}

/// `'S' 'C' 'E' 0x00`.
pub open spec fn self_magic() -> Seq<u8> {
    seq![0x53u8, 0x43u8, 0x45u8, 0x00u8]
}

/// Whether `header` begins with the ELF magic.
pub fn looks_like_elf(header: &[u8]) -> (r: bool)
    ensures
        r == has_prefix(header@, elf_magic()),
{
    let magic: Vec<u8> = vec![0x7f, 0x45, 0x4c, 0x46];
    assert(magic@ =~= elf_magic());
    starts_with_bytes(header, magic.as_slice())
}

/// Whether `header` begins with the magic of a signed executable container.
pub fn looks_like_self(header: &[u8]) -> (r: bool)
    ensures
        r == has_prefix(header@, self_magic()),
{
    let magic: Vec<u8> = vec![0x53, 0x43, 0x45, 0x00];
    assert(magic@ =~= self_magic());
    starts_with_bytes(header, magic.as_slice())
}

} // verus!
