//! Streaming extraction of structural metadata from the EXR image-container
//! format, together with a two-tier classifier that buckets channel names
//! into semantic groups.
//!
//! The parser walks only the front-loaded attribute header of a file and
//! never touches pixel data.  Every parsing and classification function is
//! specified against a mathematical model of the byte stream and verified.

pub mod acquire;
pub mod config;
pub mod errors;
pub mod fast_exr;
pub mod patterns;
pub mod text;
pub mod wire;

use vstd::prelude::*;

verus! {

/// The little-endian magic constant that opens every conformant file.
pub const EXR_MAGIC: u32 = 20000630;

} // verus!
