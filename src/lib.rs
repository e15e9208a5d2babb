//! Bookkeeping of borrowed shared-memory chunks: a table of one used/free flag
//! per chunk index, in three placements (owned by the process, bound once to a
//! region of a shared segment through a relative offset, or inline with a fixed
//! capacity), plus a small hex conversion for raw payload bytes.

pub mod hex_conversion;
pub mod laws;
pub mod occupancy;
pub mod relative_pointer;
pub mod segment;
pub mod used_chunk_list;

pub use hex_conversion::{bytes_to_hex_string, hex_string_to_bytes, HexToBytesConversionError};
pub use relative_pointer::RelativePointer;
pub use segment::SharedSegment;
pub use used_chunk_list::{FixedSizeUsedChunkList, RelocatableUsedChunkList, UsedChunkList};
