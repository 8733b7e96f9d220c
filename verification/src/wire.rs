//! Mathematical model of the wire format's primitive encodings: little-endian
//! integers and NUL-terminated byte strings inside a byte buffer.

use vstd::prelude::*;

verus! {

/// The unsigned 32-bit value encoded little-endian at `pos`.
pub open spec fn le_u32(data: Seq<u8>, pos: int) -> u32
    recommends
        0 <= pos,
        pos + 4 <= data.len(),
{
    (data[pos] + data[pos + 1] * 0x100 + data[pos + 2] * 0x10000 + data[pos + 3]
        * 0x1000000) as u32
}

/// The signed 32-bit value encoded little-endian at `pos`: the unsigned
/// value reinterpreted in two's complement.
pub open spec fn le_i32(data: Seq<u8>, pos: int) -> i32
    recommends
        0 <= pos,
        pos + 4 <= data.len(),
{
    le_u32(data, pos) as i32
}

/// Index of the first NUL byte at or after `pos`, or `data.len()` if the
/// rest of the buffer holds none.
pub open spec fn nul_pos(data: Seq<u8>, pos: int) -> int
    decreases data.len() - pos when 0 <= pos <= data.len()
{
    if pos >= data.len() {
        data.len() as int
    } else if data[pos] == 0 {
        pos
    } else {
        nul_pos(data, pos + 1)
    }
}

/// The bytes of the NUL-terminated string starting at `pos`: everything up
/// to, and excluding, the terminator (or the buffer end if none is found).
pub open spec fn str_bytes(data: Seq<u8>, pos: int) -> Seq<u8>
    recommends
        0 <= pos <= data.len(),
{
    data.subrange(pos, nul_pos(data, pos))
}

/// The position just past the NUL-terminated string starting at `pos`:
/// past the terminator when one exists, the buffer end otherwise.
pub open spec fn after_str(data: Seq<u8>, pos: int) -> int
    recommends
        0 <= pos <= data.len(),
{
    if nul_pos(data, pos) < data.len() {
        nul_pos(data, pos) + 1
    } else {
        data.len() as int
    }
}

/// Basic facts about `nul_pos`: it stays within `[pos, data.len()]`, no
/// byte before it is NUL, and the byte at it (when in bounds) is NUL.
pub proof fn lemma_nul_pos(data: Seq<u8>, pos: int)
    requires
        0 <= pos <= data.len(),
    ensures
        pos <= nul_pos(data, pos) <= data.len(),
        forall|i: int| pos <= i < nul_pos(data, pos) ==> data[i] != 0,
        nul_pos(data, pos) < data.len() ==> data[nul_pos(data, pos)] == 0,
    decreases data.len() - pos,
{
    if pos < data.len() && data[pos] != 0 {
        lemma_nul_pos(data, pos + 1);
    }
}

/// A NUL search that starts one past a non-NUL byte finds the same
/// terminator as one that starts at the byte itself.
pub proof fn lemma_nul_pos_step(data: Seq<u8>, pos: int)
    requires
        0 <= pos < data.len(),
        data[pos] != 0,
    ensures
        nul_pos(data, pos) == nul_pos(data, pos + 1),
{
}

} // verus!
