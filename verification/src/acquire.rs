//! The file-acquisition strategy: how many header bytes to make available
//! to the parser, and which read path to take for them.
//!
//! The structural header of the format is small and front-loaded, so a
//! parse never needs more than a capped prefix of the file.  Callers that
//! perform the actual I/O read exactly [`header_read_len`] bytes — by a
//! direct read for small files, through a memory mapping (released after
//! copying) when [`uses_memory_map`] says so — and hand them to the
//! parser; the cap, not the path, decides what the parser sees.

use vstd::prelude::*;

verus! {

/// Largest number of header bytes ever read from one file.
pub const HEADER_READ_CAP: usize = 65536;

/// File length above which the header bytes are taken through a memory
/// mapping instead of a direct read (1 MiB).
pub const MMAP_THRESHOLD: u64 = 1048576;

/// The number of header bytes made available to the parser for a file of
/// the given length: the whole file, capped at [`HEADER_READ_CAP`].
pub open spec fn spec_header_read_len(file_len: u64) -> int {
    if file_len < HEADER_READ_CAP as u64 {
        file_len as int
    } else {
        HEADER_READ_CAP as int
    }
}

/// How many bytes of a file of length `file_len` to read for parsing:
/// `min(file_len, 65536)`, whichever read path is taken.
pub fn header_read_len(file_len: u64) -> (r: usize)
    ensures
        r as int == spec_header_read_len(file_len),
        r as int == if file_len as int <= HEADER_READ_CAP as int {
            file_len as int
        } else {
            HEADER_READ_CAP as int
        },
        r <= HEADER_READ_CAP,
        r <= file_len,
{
    if file_len < 65536 {
        file_len as usize
    } else {
        65536
    }
}

/// Whether the header bytes of a file of length `file_len` are taken
/// through a memory mapping: only above the 1 MiB threshold.  The choice
/// affects performance alone, never what the parser sees.
pub fn uses_memory_map(file_len: u64) -> (r: bool)
    ensures
        r == (file_len > MMAP_THRESHOLD),
{
    file_len > 1048576
}

} // verus!
