//! Level-geometry archive viewer core: a binary decoder for the archive's
//! little-endian records, a loader that parses the global header and lump
//! directory, the assembly pass that turns flat record arrays into a
//! cross-referenced level graph, a binary-space-partition point-location
//! query, and an angle-based visibility clipper.

pub mod codec;
pub mod level;
pub mod visibility;
pub mod wad;
