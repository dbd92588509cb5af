//! The few rules of the firmware's tables that lead to the PCI configuration
//! window: which root table is used, how many entries a table of a given
//! length holds, and which table is the one that lists the windows.

use vstd::prelude::*;

verus! {

/// Bytes in the header that every system description table starts with.
pub const SDT_HEADER_BYTES: u32 = 36;

/// Bytes between the header and the first entry of the table of
/// configuration windows.
pub const MCFG_RESERVED_BYTES: u32 = 8;

/// Bytes in one pointer of the root table.
pub const XSDT_ENTRY_BYTES: u32 = 8;

/// Bytes in one entry of the table of configuration windows.
pub const MCFG_ENTRY_BYTES: u32 = 16;

/// First revision of the root pointer that carries the address of the
/// extended root table.
pub const EXTENDED_REVISION: u8 = 2;

/// Number of whole entries of `entry` bytes in a table of `length` bytes
/// whose entries start after `lead` bytes; none in a table shorter than that.
pub open spec fn entries(length: int, lead: int, entry: int) -> int {
    if length >= lead {
        (length - lead) / entry
    } else {
        0
    }
}

/// Whether a root pointer of this revision carries the address of the
/// extended root table.
pub fn has_xsdt(revision: u8) -> (r: bool)
    ensures
        r == (revision >= EXTENDED_REVISION),
{
    revision >= EXTENDED_REVISION
}

/// Number of table addresses in a root table of `length` bytes.
pub fn xsdt_entries(length: u32) -> (r: usize)
    ensures
        r == entries(length as int, 36, 8),
{
    if length >= SDT_HEADER_BYTES {
        ((length - SDT_HEADER_BYTES) / XSDT_ENTRY_BYTES) as usize
    } else {
        0
    }
}

/// Number of configuration windows in a table of `length` bytes.
pub fn mcfg_entries(length: u32) -> (r: usize)
    ensures
        r == entries(length as int, 44, 16),
{
    if length >= SDT_HEADER_BYTES + MCFG_RESERVED_BYTES {
        ((length - SDT_HEADER_BYTES - MCFG_RESERVED_BYTES) / MCFG_ENTRY_BYTES) as usize
    } else {
        0
    }
}

/// Whether `signature` names the table of configuration windows: the four
/// letters `MCFG`.
pub fn is_mcfg(signature: [u8; 4]) -> (r: bool)
    ensures
        r == (signature@ == seq![0x4du8, 0x43u8, 0x46u8, 0x47u8]),
{
    let r = signature[0] == 0x4d && signature[1] == 0x43 && signature[2] == 0x46 && signature[3]
        == 0x47;
    proof {
        if r {
            assert(signature@ =~= seq![0x4du8, 0x43u8, 0x46u8, 0x47u8]);
        }
    }
    r
}

} // verus!
