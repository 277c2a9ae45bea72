//! Archive loader: parses the global header and lump directory of a binary
//! level-geometry archive, locates the fixed per-map lump sequence behind
//! each map marker, and decodes every lump into flat arrays of raw records.
//!
//! All multi-byte fields are little-endian. Index-valued fields are decoded
//! as unsigned 16-bit values; turning them into checked cross-references is
//! the level assembly's job.

use crate::codec::{
    bbox_at, child_of_tag, fixed_name, i16_le, i32_le, read_angle, read_bbox, read_child_ref,
    read_fixed_name, read_i16, read_i32, read_u16, u16_le,
};
pub use crate::codec::{BBox, ChildIdx};
use vstd::prelude::*;
use vstd::arithmetic::div_mod::{lemma_fundamental_div_mod, lemma_mod_bound};
use vstd::string::StrSliceExecFns;
use vstd::string::StringExecFns;

verus! {

broadcast use vstd::slice::group_slice_axioms;

/// A fatal condition met while loading an archive or assembling a level.
#[derive(Clone, Copy, Debug, PartialEq, Eq, Structural)]
pub enum WadError {
    /// A computed byte offset or length exceeds the underlying buffer, or a
    /// size field is negative.
    Truncated,
    /// A per-map lump is missing or does not carry the expected name at its
    /// fixed position in the lump sequence.
    StructuralMismatch,
    /// An index stored in a record does not resolve within its target array,
    /// or the node records do not form a tree rooted in the last record.
    BadReference,
    /// A map holds no player-start entity.
    NoPlayerStart,
}

/// The fixed 12-byte global header: a 4-byte identifier, the lump count and
/// the byte offset of the lump directory.
#[derive(Clone, Debug)]
pub struct Header {
    pub id: String,
    pub num_lumps: usize,
    pub dir_offset: usize,
}

/// One 16-byte directory entry: where a named lump's payload lies.
#[derive(Clone, Debug)]
pub struct FileLump {
    pub file_pos: usize,
    pub size: usize,
    pub name: String,
}

/// A placed map entity. `angle_facing` keeps the 16-bit degree value exactly
/// as stored; scaling it to radians is a floating-point concern left to the
/// presentation layer.
#[derive(Clone, Copy, Debug, PartialEq, Eq, Structural)]
pub struct Thing {
    pub x: i16,
    pub y: i16,
    pub angle_facing: i16,
    pub thing_type: i16,
    pub flags: i16,
}

/// A raw wall/boundary edge record. The sidedef fields hold unsigned 16-bit
/// indices, with 65535 standing for "no sidedef".
#[derive(Clone, Copy, Debug, PartialEq, Eq, Structural)]
pub struct Linedef {
    pub start_vert: usize,
    pub end_vert: usize,
    pub flags: i16,
    pub special_type: i16,
    pub sector_tag: usize,
    pub right_sidedef: usize,
    pub left_sidedef: usize,
}

/// A raw per-face texture record with the index of its owning sector.
#[derive(Clone, Debug)]
pub struct Sidedef {
    pub x_off: i16,
    pub y_off: i16,
    pub upper_tex: String,
    pub lower_tex: String,
    pub middle_tex: String,
    pub sector: usize,
}

/// A 2D point with signed 16-bit coordinates.
#[derive(Clone, Copy, Debug, PartialEq, Eq, Structural)]
pub struct Vertex {
    pub x: i16,
    pub y: i16,
}

/// A raw directed sub-span of a linedef. `angle` keeps the packed 16-bit
/// binary angle exactly as stored: 65535 raw units per 360 degrees.
#[derive(Clone, Copy, Debug, PartialEq, Eq, Structural)]
pub struct Segment {
    pub start_vert: usize,
    pub end_vert: usize,
    pub angle: u16,
    pub linedef: usize,
    pub dir_like_linedef: bool,
    pub offset: i16,
}

/// A raw convex leaf region: a contiguous run of segments in the flat
/// segment array.
#[derive(Clone, Copy, Debug, PartialEq, Eq, Structural)]
pub struct SubSector {
    pub segment_count: usize,
    pub first_segment: usize,
}

/// A raw tree-node record: a partition line, the two children's bounding
/// boxes, two tagged child pointers, and the record's own index.
#[derive(Clone, Copy, Debug, PartialEq, Eq, Structural)]
pub struct MapNode {
    pub partition_x: i16,
    pub partition_y: i16,
    pub delta_x: i16,
    pub delta_y: i16,
    pub right_bbox: BBox,
    pub left_bbox: BBox,
    pub right_child: ChildIdx,
    pub left_child: ChildIdx,
    pub id: usize,
}

/// A raw floor/ceiling record with its texture names, light level, special
/// type and cross-referencing tag.
#[derive(Debug)]
pub struct Sector {
    pub floor_height: i16,
    pub ceiling_height: i16,
    pub floor_tex: String,
    pub ceiling_tex: String,
    pub light_level: i16,
    pub special_type: i16,
    pub tag: usize,
}

/// The thing record encoded at `offset` (10 bytes).
pub open spec fn thing_at(bytes: Seq<u8>, offset: int) -> Thing {
    Thing {
        x: i16_le(bytes[offset], bytes[offset + 1]) as i16,
        y: i16_le(bytes[offset + 2], bytes[offset + 3]) as i16,
        angle_facing: i16_le(bytes[offset + 4], bytes[offset + 5]) as i16,
        thing_type: i16_le(bytes[offset + 6], bytes[offset + 7]) as i16,
        flags: i16_le(bytes[offset + 8], bytes[offset + 9]) as i16,
    }
}

/// The linedef record encoded at `offset` (14 bytes).
pub open spec fn linedef_at(bytes: Seq<u8>, offset: int) -> Linedef {
    Linedef {
        start_vert: u16_le(bytes[offset], bytes[offset + 1]) as usize,
        end_vert: u16_le(bytes[offset + 2], bytes[offset + 3]) as usize,
        flags: i16_le(bytes[offset + 4], bytes[offset + 5]) as i16,
        special_type: i16_le(bytes[offset + 6], bytes[offset + 7]) as i16,
        sector_tag: u16_le(bytes[offset + 8], bytes[offset + 9]) as usize,
        right_sidedef: u16_le(bytes[offset + 10], bytes[offset + 11]) as usize,
        left_sidedef: u16_le(bytes[offset + 12], bytes[offset + 13]) as usize,
    }
}

/// Whether `s` is the sidedef record encoded at `offset` (30 bytes).
pub open spec fn sidedef_matches(s: Sidedef, bytes: Seq<u8>, offset: int) -> bool {
    &&& s.x_off == i16_le(bytes[offset], bytes[offset + 1])
    &&& s.y_off == i16_le(bytes[offset + 2], bytes[offset + 3])
    &&& s.upper_tex@ == fixed_name(bytes, offset + 4)
    &&& s.lower_tex@ == fixed_name(bytes, offset + 12)
    &&& s.middle_tex@ == fixed_name(bytes, offset + 20)
    &&& s.sector == u16_le(bytes[offset + 28], bytes[offset + 29])
}

/// The vertex record encoded at `offset` (4 bytes).
pub open spec fn vertex_at(bytes: Seq<u8>, offset: int) -> Vertex {
    Vertex {
        x: i16_le(bytes[offset], bytes[offset + 1]) as i16,
        y: i16_le(bytes[offset + 2], bytes[offset + 3]) as i16,
    }
}

/// The segment record encoded at `offset` (12 bytes).
pub open spec fn segment_at(bytes: Seq<u8>, offset: int) -> Segment {
    Segment {
        start_vert: u16_le(bytes[offset], bytes[offset + 1]) as usize,
        end_vert: u16_le(bytes[offset + 2], bytes[offset + 3]) as usize,
        angle: u16_le(bytes[offset + 4], bytes[offset + 5]) as u16,
        linedef: u16_le(bytes[offset + 6], bytes[offset + 7]) as usize,
        dir_like_linedef: i16_le(bytes[offset + 8], bytes[offset + 9]) != 0,
        offset: i16_le(bytes[offset + 10], bytes[offset + 11]) as i16,
    }
}

/// The subsector record encoded at `offset` (4 bytes).
pub open spec fn subsector_at(bytes: Seq<u8>, offset: int) -> SubSector {
    SubSector {
        segment_count: u16_le(bytes[offset], bytes[offset + 1]) as usize,
        first_segment: u16_le(bytes[offset + 2], bytes[offset + 3]) as usize,
    }
}

/// The node record encoded at `offset` (28 bytes), carrying its own index
/// `id`.
pub open spec fn map_node_at(bytes: Seq<u8>, offset: int, id: int) -> MapNode {
    MapNode {
        partition_x: i16_le(bytes[offset], bytes[offset + 1]) as i16,
        partition_y: i16_le(bytes[offset + 2], bytes[offset + 3]) as i16,
        delta_x: i16_le(bytes[offset + 4], bytes[offset + 5]) as i16,
        delta_y: i16_le(bytes[offset + 6], bytes[offset + 7]) as i16,
        right_bbox: bbox_at(bytes, offset + 8),
        left_bbox: bbox_at(bytes, offset + 16),
        right_child: child_of_tag(u16_le(bytes[offset + 24], bytes[offset + 25])),
        left_child: child_of_tag(u16_le(bytes[offset + 26], bytes[offset + 27])),
        id: id as usize,
    }
}

/// Whether `s` is the sector record encoded at `offset` (26 bytes).
pub open spec fn sector_matches(s: Sector, bytes: Seq<u8>, offset: int) -> bool {
    &&& s.floor_height == i16_le(bytes[offset], bytes[offset + 1])
    &&& s.ceiling_height == i16_le(bytes[offset + 2], bytes[offset + 3])
    &&& s.floor_tex@ == fixed_name(bytes, offset + 4)
    &&& s.ceiling_tex@ == fixed_name(bytes, offset + 12)
    &&& s.light_level == i16_le(bytes[offset + 20], bytes[offset + 21])
    &&& s.special_type == i16_le(bytes[offset + 22], bytes[offset + 23])
    &&& s.tag == u16_le(bytes[offset + 24], bytes[offset + 25])
}

/// Decodes one 10-byte thing record.
pub fn decode_thing(bytes: &[u8], offset: usize) -> (r: Thing)
    requires
        offset + 10 <= bytes.len(),
    ensures
        r == thing_at(bytes@, offset as int),
{
    Thing {
        x: read_i16(bytes, offset),
        y: read_i16(bytes, offset + 2),
        angle_facing: read_i16(bytes, offset + 4),
        thing_type: read_i16(bytes, offset + 6),
        flags: read_i16(bytes, offset + 8),
    }
}

/// Decodes one 14-byte linedef record.
pub fn decode_linedef(bytes: &[u8], offset: usize) -> (r: Linedef)
    requires
        offset + 14 <= bytes.len(),
    ensures
        r == linedef_at(bytes@, offset as int),
{
    Linedef {
        start_vert: read_u16(bytes, offset) as usize,
        end_vert: read_u16(bytes, offset + 2) as usize,
        flags: read_i16(bytes, offset + 4),
        special_type: read_i16(bytes, offset + 6),
        sector_tag: read_u16(bytes, offset + 8) as usize,
        right_sidedef: read_u16(bytes, offset + 10) as usize,
        left_sidedef: read_u16(bytes, offset + 12) as usize,
    }
}

/// Decodes one 30-byte sidedef record.
pub fn decode_sidedef(bytes: &[u8], offset: usize) -> (r: Sidedef)
    requires
        offset + 30 <= bytes.len(),
    ensures
        sidedef_matches(r, bytes@, offset as int),
{
    Sidedef {
        x_off: read_i16(bytes, offset),
        y_off: read_i16(bytes, offset + 2),
        upper_tex: read_fixed_name(bytes, offset + 4),
        lower_tex: read_fixed_name(bytes, offset + 12),
        middle_tex: read_fixed_name(bytes, offset + 20),
        sector: read_u16(bytes, offset + 28) as usize,
    }
}

/// Decodes one 4-byte vertex record.
pub fn decode_vertex(bytes: &[u8], offset: usize) -> (r: Vertex)
    requires
        offset + 4 <= bytes.len(),
    ensures
        r == vertex_at(bytes@, offset as int),
{
    Vertex { x: read_i16(bytes, offset), y: read_i16(bytes, offset + 2) }
}

/// Decodes one 12-byte segment record.
pub fn decode_segment(bytes: &[u8], offset: usize) -> (r: Segment)
    requires
        offset + 12 <= bytes.len(),
    ensures
        r == segment_at(bytes@, offset as int),
{
    Segment {
        start_vert: read_u16(bytes, offset) as usize,
        end_vert: read_u16(bytes, offset + 2) as usize,
        angle: read_angle(bytes, offset + 4),
        linedef: read_u16(bytes, offset + 6) as usize,
        dir_like_linedef: read_i16(bytes, offset + 8) != 0,
        offset: read_i16(bytes, offset + 10),
    }
}

/// Decodes one 4-byte subsector record.
pub fn decode_subsector(bytes: &[u8], offset: usize) -> (r: SubSector)
    requires
        offset + 4 <= bytes.len(),
    ensures
        r == subsector_at(bytes@, offset as int),
{
    SubSector {
        segment_count: read_u16(bytes, offset) as usize,
        first_segment: read_u16(bytes, offset + 2) as usize,
    }
}

/// Decodes one 28-byte node record, stamping it with its index `id`.
pub fn decode_map_node(bytes: &[u8], offset: usize, id: usize) -> (r: MapNode)
    requires
        offset + 28 <= bytes.len(),
    ensures
        r == map_node_at(bytes@, offset as int, id as int),
{
    MapNode {
        partition_x: read_i16(bytes, offset),
        partition_y: read_i16(bytes, offset + 2),
        delta_x: read_i16(bytes, offset + 4),
        delta_y: read_i16(bytes, offset + 6),
        right_bbox: read_bbox(bytes, offset + 8),
        left_bbox: read_bbox(bytes, offset + 16),
        right_child: read_child_ref(bytes, offset + 24),
        left_child: read_child_ref(bytes, offset + 26),
        id,
    }
}

/// Decodes one 26-byte sector record.
pub fn decode_sector(bytes: &[u8], offset: usize) -> (r: Sector)
    requires
        offset + 26 <= bytes.len(),
    ensures
        sector_matches(r, bytes@, offset as int),
{
    Sector {
        floor_height: read_i16(bytes, offset),
        ceiling_height: read_i16(bytes, offset + 2),
        floor_tex: read_fixed_name(bytes, offset + 4),
        ceiling_tex: read_fixed_name(bytes, offset + 12),
        light_level: read_i16(bytes, offset + 20),
        special_type: read_i16(bytes, offset + 22),
        tag: read_u16(bytes, offset + 24) as usize,
    }
}


/// The identifier text of the global header: the first four bytes read as
/// characters when all are ASCII, else a fixed fallback label.
pub open spec fn header_id(bytes: Seq<u8>) -> Seq<char> {
    if forall|j: int| 0 <= j < 4 ==> (#[trigger] bytes[j]) < 0x80 {
        Seq::new(4, |j: int| bytes[j] as char)
    } else {
        seq!['I', 'W', 'A', 'D']
    }
}

/// Whether the buffer begins with a readable global header: 12 bytes with
/// non-negative lump count and directory offset.
pub open spec fn header_ok(bytes: Seq<u8>) -> bool {
    &&& bytes.len() >= 12
    &&& i32_le(bytes[4], bytes[5], bytes[6], bytes[7]) >= 0
    &&& i32_le(bytes[8], bytes[9], bytes[10], bytes[11]) >= 0
}

/// Whether `h` is the global header encoded at the start of the buffer.
pub open spec fn header_matches(h: Header, bytes: Seq<u8>) -> bool {
    &&& h.id@ == header_id(bytes)
    &&& h.num_lumps == i32_le(bytes[4], bytes[5], bytes[6], bytes[7])
    &&& h.dir_offset == i32_le(bytes[8], bytes[9], bytes[10], bytes[11])
}

/// Parses the fixed 12-byte global header. An unreadable identifier is
/// tolerated with a fallback label; a missing header or a negative count or
/// offset aborts the load.
pub fn parse_header(bytes: &[u8]) -> (r: Result<Header, WadError>)
    ensures
        r is Ok <==> header_ok(bytes@),
        r is Ok ==> header_matches(r->Ok_0, bytes@),
        r is Err ==> r == Err::<Header, WadError>(WadError::Truncated),
{
    if bytes.len() < 12 {
        return Err(WadError::Truncated);
    }
    let num_lumps = read_i32(bytes, 4);
    let dir_offset = read_i32(bytes, 8);
    if num_lumps < 0 || dir_offset < 0 {
        return Err(WadError::Truncated);
    }
    let mut ascii = true;
    let mut j: usize = 0;
    while j < 4
        invariant
            bytes.len() >= 12,
            0 <= j <= 4,
            ascii == (forall|k: int| 0 <= k < j ==> (#[trigger] bytes@[k]) < 0x80),
        decreases 4 - j,
    {
        if bytes[j] >= 0x80 {
            ascii = false;
        }
        j += 1;
    }
    let id = if ascii {
        let mut s = String::new();
        let mut k: usize = 0;
        while k < 4
            invariant
                bytes.len() >= 12,
                0 <= k <= 4,
                forall|t: int| 0 <= t < 4 ==> (#[trigger] bytes@[t]) < 0x80,
                s@ =~= Seq::new(k as nat, |t: int| bytes@[t] as char),
            decreases 4 - k,
        {
            let c = bytes[k] as char;
            crate::codec::push_char(&mut s, c);
            k += 1;
        }
        proof {
            assert(s@ =~= header_id(bytes@));
        }
        s
    } else {
        proof {
            reveal_strlit("IWAD");
            assert("IWAD"@ =~= header_id(bytes@));
        }
        String::from_str("IWAD")
    };
    Ok(Header { id, num_lumps: num_lumps as usize, dir_offset: dir_offset as usize })
}

/// Whether the `i`th 16-byte directory entry is readable: non-negative
/// position and size, and a payload lying wholly inside the buffer.
pub open spec fn dir_entry_ok(bytes: Seq<u8>, dir_offset: int, i: int) -> bool {
    let entry = dir_offset + 16 * i;
    let file_pos = i32_le(bytes[entry], bytes[entry + 1], bytes[entry + 2], bytes[entry + 3]);
    let size = i32_le(bytes[entry + 4], bytes[entry + 5], bytes[entry + 6], bytes[entry + 7]);
    &&& file_pos >= 0
    &&& size >= 0
    &&& file_pos + size <= bytes.len()
}

/// Whether a directory of `num_lumps` 16-byte entries at `dir_offset` lies
/// inside the buffer with every entry readable.
pub open spec fn directory_ok(bytes: Seq<u8>, num_lumps: int, dir_offset: int) -> bool {
    &&& dir_offset + 16 * num_lumps <= bytes.len()
    &&& forall|i: int| 0 <= i < num_lumps ==> dir_entry_ok(bytes, dir_offset, i)
}

/// The payload position stored in the `i`th directory entry.
pub open spec fn spec_lump_pos(bytes: Seq<u8>, dir_offset: int, i: int) -> int {
    let entry = dir_offset + 16 * i;
    i32_le(bytes[entry], bytes[entry + 1], bytes[entry + 2], bytes[entry + 3])
}

/// The payload size stored in the `i`th directory entry.
pub open spec fn spec_lump_size(bytes: Seq<u8>, dir_offset: int, i: int) -> int {
    let entry = dir_offset + 16 * i;
    i32_le(bytes[entry + 4], bytes[entry + 5], bytes[entry + 6], bytes[entry + 7])
}

/// The name stored in the `i`th directory entry.
pub open spec fn spec_lump_name(bytes: Seq<u8>, dir_offset: int, i: int) -> Seq<char> {
    fixed_name(bytes, dir_offset + 16 * i + 8)
}

/// Whether `l` is the `i`th directory entry encoded in the buffer.
pub open spec fn lump_matches(l: FileLump, bytes: Seq<u8>, dir_offset: int, i: int) -> bool {
    &&& l.file_pos == spec_lump_pos(bytes, dir_offset, i)
    &&& l.size == spec_lump_size(bytes, dir_offset, i)
    &&& l.name@ == spec_lump_name(bytes, dir_offset, i)
}

/// Parses the lump directory: `num_lumps` fixed 16-byte entries starting at
/// `dir_offset`. Every decoded entry's payload is checked to lie inside the
/// buffer, so later per-lump decoding cannot run out of range.
pub fn parse_directory(bytes: &[u8], num_lumps: usize, dir_offset: usize) -> (r: Result<
    Vec<FileLump>,
    WadError,
>)
    requires
        num_lumps < 0x80000000,
        dir_offset < 0x80000000,
    ensures
        r is Ok <==> directory_ok(bytes@, num_lumps as int, dir_offset as int),
        r is Ok ==> {
            let d = r->Ok_0;
            &&& d@.len() == num_lumps
            &&& forall|i: int|
                0 <= i < num_lumps ==> lump_matches(#[trigger] d@[i], bytes@, dir_offset as int, i)
            &&& forall|i: int|
                0 <= i < num_lumps ==> (#[trigger] d@[i]).file_pos + d@[i].size <= bytes.len()
        },
        r is Err ==> r == Err::<Vec<FileLump>, WadError>(WadError::Truncated),
{
    if dir_offset as u64 + 16u64 * (num_lumps as u64) > bytes.len() as u64 {
        return Err(WadError::Truncated);
    }
    let mut dir: Vec<FileLump> = Vec::new();
    let mut i: usize = 0;
    let mut entry: usize = dir_offset;
    while i < num_lumps
        invariant
            num_lumps < 0x80000000,
            dir_offset + 16 * num_lumps <= bytes.len(),
            0 <= i <= num_lumps,
            entry == dir_offset + 16 * i,
            dir@.len() == i,
            forall|k: int|
                0 <= k < i ==> lump_matches(#[trigger] dir@[k], bytes@, dir_offset as int, k),
            forall|k: int|
                0 <= k < i ==> (#[trigger] dir@[k]).file_pos + dir@[k].size <= bytes.len(),
            forall|k: int| 0 <= k < i ==> dir_entry_ok(bytes@, dir_offset as int, k),
        decreases num_lumps - i,
    {
        let file_pos = read_i32(bytes, entry);
        let size = read_i32(bytes, entry + 4);
        if file_pos < 0 || size < 0 {
            proof {
                assert(!dir_entry_ok(bytes@, dir_offset as int, i as int));
            }
            return Err(WadError::Truncated);
        }
        if file_pos as u64 + size as u64 > bytes.len() as u64 {
            proof {
                assert(!dir_entry_ok(bytes@, dir_offset as int, i as int));
            }
            return Err(WadError::Truncated);
        }
        let name = read_fixed_name(bytes, entry + 8);
        dir.push(FileLump { file_pos: file_pos as usize, size: size as usize, name });
        i += 1;
        entry += 16;
    }
    Ok(dir)
}

/// Whether a lump name marks the start of a map's lump group: the letter E,
/// an episode digit 1 to 4, the letter M, and a mission digit.
pub open spec fn is_map_marker_name(s: Seq<char>) -> bool {
    &&& s.len() >= 4
    &&& s[0] == 'E'
    &&& '1' <= s[1] <= '4'
    &&& s[2] == 'M'
    &&& '0' <= s[3] <= '9'
}

/// Decides whether a lump name is a map marker.
pub fn is_map_marker(name: &str) -> (r: bool)
    ensures
        r == is_map_marker_name(name@),
{
    if name.unicode_len() < 4 {
        return false;
    }
    let c0 = name.get_char(0);
    let c1 = name.get_char(1);
    let c2 = name.get_char(2);
    let c3 = name.get_char(3);
    c0 == 'E' && '1' <= c1 && c1 <= '4' && c2 == 'M' && '0' <= c3 && c3 <= '9'
}


/// Decodes every 10-byte thing record in the lump.
pub fn decode_things(bytes: &[u8], lump: &FileLump) -> (r: Vec<Thing>)
    requires
        lump.file_pos + lump.size <= bytes.len(),
    ensures
        r@.len() == lump.size as int / 10,
        forall|i: int| 0 <= i < r@.len() ==> (#[trigger] r@[i]) == thing_at(bytes@, lump.file_pos + 10 * i),
{
    let count = lump.size / 10;
    proof {
        lemma_fundamental_div_mod(lump.size as int, 10);
        lemma_mod_bound(lump.size as int, 10);
    }
    let mut r: Vec<Thing> = Vec::new();
    let mut i: usize = 0;
    let mut off: usize = lump.file_pos;
    while i < count
        invariant
            lump.file_pos + lump.size <= bytes.len(),
            count == lump.size as int / 10,
            10 * count <= lump.size,
            0 <= i <= count,
            off == lump.file_pos + 10 * i,
            r@.len() == i,
            forall|k: int| 0 <= k < i ==> (#[trigger] r@[k]) == thing_at(bytes@, lump.file_pos + 10 * k),
        decreases count - i,
    {
        r.push(decode_thing(bytes, off));
        i += 1;
        off += 10;
    }
    r
}

/// Decodes every 14-byte linedef record in the lump.
pub fn decode_linedefs(bytes: &[u8], lump: &FileLump) -> (r: Vec<Linedef>)
    requires
        lump.file_pos + lump.size <= bytes.len(),
    ensures
        r@.len() == lump.size as int / 14,
        forall|i: int| 0 <= i < r@.len() ==> (#[trigger] r@[i]) == linedef_at(bytes@, lump.file_pos + 14 * i),
{
    let count = lump.size / 14;
    proof {
        lemma_fundamental_div_mod(lump.size as int, 14);
        lemma_mod_bound(lump.size as int, 14);
    }
    let mut r: Vec<Linedef> = Vec::new();
    let mut i: usize = 0;
    let mut off: usize = lump.file_pos;
    while i < count
        invariant
            lump.file_pos + lump.size <= bytes.len(),
            count == lump.size as int / 14,
            14 * count <= lump.size,
            0 <= i <= count,
            off == lump.file_pos + 14 * i,
            r@.len() == i,
            forall|k: int| 0 <= k < i ==> (#[trigger] r@[k]) == linedef_at(bytes@, lump.file_pos + 14 * k),
        decreases count - i,
    {
        r.push(decode_linedef(bytes, off));
        i += 1;
        off += 14;
    }
    r
}

/// Decodes every 30-byte sidedef record in the lump.
pub fn decode_sidedefs(bytes: &[u8], lump: &FileLump) -> (r: Vec<Sidedef>)
    requires
        lump.file_pos + lump.size <= bytes.len(),
    ensures
        r@.len() == lump.size as int / 30,
        forall|i: int| 0 <= i < r@.len() ==> sidedef_matches(#[trigger] r@[i], bytes@, lump.file_pos + 30 * i),
{
    let count = lump.size / 30;
    proof {
        lemma_fundamental_div_mod(lump.size as int, 30);
        lemma_mod_bound(lump.size as int, 30);
    }
    let mut r: Vec<Sidedef> = Vec::new();
    let mut i: usize = 0;
    let mut off: usize = lump.file_pos;
    while i < count
        invariant
            lump.file_pos + lump.size <= bytes.len(),
            count == lump.size as int / 30,
            30 * count <= lump.size,
            0 <= i <= count,
            off == lump.file_pos + 30 * i,
            r@.len() == i,
            forall|k: int| 0 <= k < i ==> sidedef_matches(#[trigger] r@[k], bytes@, lump.file_pos + 30 * k),
        decreases count - i,
    {
        r.push(decode_sidedef(bytes, off));
        i += 1;
        off += 30;
    }
    r
}

/// Decodes every 4-byte vertex record in the lump.
pub fn decode_vertexes(bytes: &[u8], lump: &FileLump) -> (r: Vec<Vertex>)
    requires
        lump.file_pos + lump.size <= bytes.len(),
    ensures
        r@.len() == lump.size as int / 4,
        forall|i: int| 0 <= i < r@.len() ==> (#[trigger] r@[i]) == vertex_at(bytes@, lump.file_pos + 4 * i),
{
    let count = lump.size / 4;
    proof {
        lemma_fundamental_div_mod(lump.size as int, 4);
        lemma_mod_bound(lump.size as int, 4);
    }
    let mut r: Vec<Vertex> = Vec::new();
    let mut i: usize = 0;
    let mut off: usize = lump.file_pos;
    while i < count
        invariant
            lump.file_pos + lump.size <= bytes.len(),
            count == lump.size as int / 4,
            4 * count <= lump.size,
            0 <= i <= count,
            off == lump.file_pos + 4 * i,
            r@.len() == i,
            forall|k: int| 0 <= k < i ==> (#[trigger] r@[k]) == vertex_at(bytes@, lump.file_pos + 4 * k),
        decreases count - i,
    {
        r.push(decode_vertex(bytes, off));
        i += 1;
        off += 4;
    }
    r
}

/// Decodes every 12-byte segment record in the lump.
pub fn decode_segs(bytes: &[u8], lump: &FileLump) -> (r: Vec<Segment>)
    requires
        lump.file_pos + lump.size <= bytes.len(),
    ensures
        r@.len() == lump.size as int / 12,
        forall|i: int| 0 <= i < r@.len() ==> (#[trigger] r@[i]) == segment_at(bytes@, lump.file_pos + 12 * i),
{
    let count = lump.size / 12;
    proof {
        lemma_fundamental_div_mod(lump.size as int, 12);
        lemma_mod_bound(lump.size as int, 12);
    }
    let mut r: Vec<Segment> = Vec::new();
    let mut i: usize = 0;
    let mut off: usize = lump.file_pos;
    while i < count
        invariant
            lump.file_pos + lump.size <= bytes.len(),
            count == lump.size as int / 12,
            12 * count <= lump.size,
            0 <= i <= count,
            off == lump.file_pos + 12 * i,
            r@.len() == i,
            forall|k: int| 0 <= k < i ==> (#[trigger] r@[k]) == segment_at(bytes@, lump.file_pos + 12 * k),
        decreases count - i,
    {
        r.push(decode_segment(bytes, off));
        i += 1;
        off += 12;
    }
    r
}

/// Decodes every 4-byte subsector record in the lump.
pub fn decode_subsectors(bytes: &[u8], lump: &FileLump) -> (r: Vec<SubSector>)
    requires
        lump.file_pos + lump.size <= bytes.len(),
    ensures
        r@.len() == lump.size as int / 4,
        forall|i: int| 0 <= i < r@.len() ==> (#[trigger] r@[i]) == subsector_at(bytes@, lump.file_pos + 4 * i),
{
    let count = lump.size / 4;
    proof {
        lemma_fundamental_div_mod(lump.size as int, 4);
        lemma_mod_bound(lump.size as int, 4);
    }
    let mut r: Vec<SubSector> = Vec::new();
    let mut i: usize = 0;
    let mut off: usize = lump.file_pos;
    while i < count
        invariant
            lump.file_pos + lump.size <= bytes.len(),
            count == lump.size as int / 4,
            4 * count <= lump.size,
            0 <= i <= count,
            off == lump.file_pos + 4 * i,
            r@.len() == i,
            forall|k: int| 0 <= k < i ==> (#[trigger] r@[k]) == subsector_at(bytes@, lump.file_pos + 4 * k),
        decreases count - i,
    {
        r.push(decode_subsector(bytes, off));
        i += 1;
        off += 4;
    }
    r
}

/// Decodes every 28-byte node record in the lump, in file order.
pub fn decode_map_nodes(bytes: &[u8], lump: &FileLump) -> (r: Vec<MapNode>)
    requires
        lump.file_pos + lump.size <= bytes.len(),
    ensures
        r@.len() == lump.size as int / 28,
        forall|i: int| 0 <= i < r@.len() ==> (#[trigger] r@[i]) == map_node_at(bytes@, lump.file_pos + 28 * i, i),
{
    let count = lump.size / 28;
    proof {
        lemma_fundamental_div_mod(lump.size as int, 28);
        lemma_mod_bound(lump.size as int, 28);
    }
    let mut r: Vec<MapNode> = Vec::new();
    let mut i: usize = 0;
    let mut off: usize = lump.file_pos;
    while i < count
        invariant
            lump.file_pos + lump.size <= bytes.len(),
            count == lump.size as int / 28,
            28 * count <= lump.size,
            0 <= i <= count,
            off == lump.file_pos + 28 * i,
            r@.len() == i,
            forall|k: int| 0 <= k < i ==> (#[trigger] r@[k]) == map_node_at(bytes@, lump.file_pos + 28 * k, k),
        decreases count - i,
    {
        r.push(decode_map_node(bytes, off, i));
        i += 1;
        off += 28;
    }
    r
}

/// Decodes every 26-byte sector record in the lump.
pub fn decode_sectors(bytes: &[u8], lump: &FileLump) -> (r: Vec<Sector>)
    requires
        lump.file_pos + lump.size <= bytes.len(),
    ensures
        r@.len() == lump.size as int / 26,
        forall|i: int| 0 <= i < r@.len() ==> sector_matches(#[trigger] r@[i], bytes@, lump.file_pos + 26 * i),
{
    let count = lump.size / 26;
    proof {
        lemma_fundamental_div_mod(lump.size as int, 26);
        lemma_mod_bound(lump.size as int, 26);
    }
    let mut r: Vec<Sector> = Vec::new();
    let mut i: usize = 0;
    let mut off: usize = lump.file_pos;
    while i < count
        invariant
            lump.file_pos + lump.size <= bytes.len(),
            count == lump.size as int / 26,
            26 * count <= lump.size,
            0 <= i <= count,
            off == lump.file_pos + 26 * i,
            r@.len() == i,
            forall|k: int| 0 <= k < i ==> sector_matches(#[trigger] r@[k], bytes@, lump.file_pos + 26 * k),
        decreases count - i,
    {
        r.push(decode_sector(bytes, off));
        i += 1;
        off += 26;
    }
    r
}


/// Whether a decoded child pointer of the node at position `id` resolves:
/// a node child must point at an earlier record (the records form a tree
/// rooted in the last one), a leaf child must point inside the subsector
/// array.
pub open spec fn node_child_ok(c: ChildIdx, id: int, num_subsectors: int) -> bool {
    match c {
        ChildIdx::Node(j) => 0 <= j < id,
        ChildIdx::Subsector(s) => 0 <= s < num_subsectors,
    }
}

/// Whether a node record array forms a tree: non-empty, and every child
/// pointer resolves as `node_child_ok` asks.
pub open spec fn nodes_wf(nodes: Seq<MapNode>, num_subsectors: int) -> bool {
    &&& nodes.len() > 0
    &&& forall|i: int|
        0 <= i < nodes.len() ==> node_child_ok(
            (#[trigger] nodes[i]).right_child,
            i,
            num_subsectors,
        )
    &&& forall|i: int|
        0 <= i < nodes.len() ==> node_child_ok((#[trigger] nodes[i]).left_child, i, num_subsectors)
}

/// Checks that the decoded node records form a tree over `num_subsectors`
/// leaves.
pub fn validate_nodes(nodes: &Vec<MapNode>, num_subsectors: usize) -> (r: bool)
    ensures
        r == nodes_wf(nodes@, num_subsectors as int),
{
    if nodes.len() == 0 {
        return false;
    }
    let mut i: usize = 0;
    while i < nodes.len()
        invariant
            0 <= i <= nodes@.len(),
            forall|k: int|
                0 <= k < i ==> node_child_ok(
                    (#[trigger] nodes@[k]).right_child,
                    k,
                    num_subsectors as int,
                ),
            forall|k: int|
                0 <= k < i ==> node_child_ok(
                    (#[trigger] nodes@[k]).left_child,
                    k,
                    num_subsectors as int,
                ),
        decreases nodes@.len() - i,
    {
        let n = &nodes[i];
        let right_ok = match n.right_child {
            ChildIdx::Node(j) => 0 <= j && (j as usize) < i,
            ChildIdx::Subsector(t) => 0 <= t && (t as usize) < num_subsectors,
        };
        let left_ok = match n.left_child {
            ChildIdx::Node(j) => 0 <= j && (j as usize) < i,
            ChildIdx::Subsector(t) => 0 <= t && (t as usize) < num_subsectors,
        };
        if !right_ok || !left_ok {
            return false;
        }
        i += 1;
    }
    true
}


/// Whether `s` is the thing array decoded from a lump at `pos` of `size` bytes.
pub open spec fn things_match(s: Seq<Thing>, bytes: Seq<u8>, pos: int, size: int) -> bool {
    &&& s.len() == size / 10
    &&& forall|i: int| 0 <= i < s.len() ==> (#[trigger] s[i]) == thing_at(bytes, pos + 10 * i)
}

/// Whether `s` is the linedef array decoded from a lump at `pos` of `size` bytes.
pub open spec fn linedefs_match(s: Seq<Linedef>, bytes: Seq<u8>, pos: int, size: int) -> bool {
    &&& s.len() == size / 14
    &&& forall|i: int| 0 <= i < s.len() ==> (#[trigger] s[i]) == linedef_at(bytes, pos + 14 * i)
}

/// Whether `s` is the sidedef array decoded from a lump at `pos` of `size` bytes.
pub open spec fn sidedefs_match(s: Seq<Sidedef>, bytes: Seq<u8>, pos: int, size: int) -> bool {
    &&& s.len() == size / 30
    &&& forall|i: int| 0 <= i < s.len() ==> sidedef_matches(#[trigger] s[i], bytes, pos + 30 * i)
}

/// Whether `s` is the vertex array decoded from a lump at `pos` of `size` bytes.
pub open spec fn vertexes_match(s: Seq<Vertex>, bytes: Seq<u8>, pos: int, size: int) -> bool {
    &&& s.len() == size / 4
    &&& forall|i: int| 0 <= i < s.len() ==> (#[trigger] s[i]) == vertex_at(bytes, pos + 4 * i)
}

/// Whether `s` is the segment array decoded from a lump at `pos` of `size` bytes.
pub open spec fn segs_match(s: Seq<Segment>, bytes: Seq<u8>, pos: int, size: int) -> bool {
    &&& s.len() == size / 12
    &&& forall|i: int| 0 <= i < s.len() ==> (#[trigger] s[i]) == segment_at(bytes, pos + 12 * i)
}

/// Whether `s` is the subsector array decoded from a lump at `pos` of `size` bytes.
pub open spec fn subsectors_match(s: Seq<SubSector>, bytes: Seq<u8>, pos: int, size: int) -> bool {
    &&& s.len() == size / 4
    &&& forall|i: int| 0 <= i < s.len() ==> (#[trigger] s[i]) == subsector_at(bytes, pos + 4 * i)
}

/// Whether `s` is the node array decoded from a lump at `pos` of `size` bytes.
pub open spec fn map_nodes_match(s: Seq<MapNode>, bytes: Seq<u8>, pos: int, size: int) -> bool {
    &&& s.len() == size / 28
    &&& forall|i: int| 0 <= i < s.len() ==> (#[trigger] s[i]) == map_node_at(bytes, pos + 28 * i, i)
}

/// Whether `s` is the sector array decoded from a lump at `pos` of `size` bytes.
pub open spec fn sectors_match(s: Seq<Sector>, bytes: Seq<u8>, pos: int, size: int) -> bool {
    &&& s.len() == size / 26
    &&& forall|i: int| 0 <= i < s.len() ==> sector_matches(#[trigger] s[i], bytes, pos + 26 * i)
}

/// The flat per-lump record arrays of one map, decoded but not yet
/// cross-referenced. The node records stand in file order, the tree's root
/// last.
pub struct LevelData {
    pub things: Vec<Thing>,
    pub linedefs: Vec<Linedef>,
    pub sidedefs: Vec<Sidedef>,
    pub vertexes: Vec<Vertex>,
    pub segs: Vec<Segment>,
    pub subsectors: Vec<SubSector>,
    pub nodes: Vec<MapNode>,
    pub sectors: Vec<Sector>,
}

/// The node array decoded from the `i`th lump.
pub open spec fn spec_nodes_of_lump(bytes: Seq<u8>, pos: int, size: int) -> Seq<MapNode> {
    Seq::new((size / 28) as nat, |i: int| map_node_at(bytes, pos + 28 * i, i))
}

/// Whether the ten lumps after the map marker at `m` carry the mandatory
/// names in their fixed order.
pub open spec fn level_lumps_ok_dir(dir: Seq<FileLump>, m: int) -> bool {
    &&& m + 11 <= dir.len()
    &&& dir[m + 1].name@ == "THINGS"@
    &&& dir[m + 2].name@ == "LINEDEFS"@
    &&& dir[m + 3].name@ == "SIDEDEFS"@
    &&& dir[m + 4].name@ == "VERTEXES"@
    &&& dir[m + 5].name@ == "SEGS"@
    &&& dir[m + 6].name@ == "SSECTORS"@
    &&& dir[m + 7].name@ == "NODES"@
    &&& dir[m + 8].name@ == "SECTORS"@
    &&& dir[m + 9].name@ == "REJECT"@
    &&& dir[m + 10].name@ == "BLOCKMAP"@
}

/// Whether the node records of the map at marker `m` form a tree over its
/// subsector array.
pub open spec fn level_nodes_ok_dir(bytes: Seq<u8>, dir: Seq<FileLump>, m: int) -> bool {
    nodes_wf(
        spec_nodes_of_lump(bytes, dir[m + 7].file_pos as int, dir[m + 7].size as int),
        dir[m + 6].size as int / 4,
    )
}

/// Whether the map at marker `m` decodes without a fatal error.
pub open spec fn level_ok_dir(bytes: Seq<u8>, dir: Seq<FileLump>, m: int) -> bool {
    &&& level_lumps_ok_dir(dir, m)
    &&& level_nodes_ok_dir(bytes, dir, m)
}

/// Whether `ld` holds exactly the record arrays of the map at marker `m`.
pub open spec fn level_data_matches_dir(
    ld: LevelData,
    bytes: Seq<u8>,
    dir: Seq<FileLump>,
    m: int,
) -> bool {
    &&& things_match(ld.things@, bytes, dir[m + 1].file_pos as int, dir[m + 1].size as int)
    &&& linedefs_match(ld.linedefs@, bytes, dir[m + 2].file_pos as int, dir[m + 2].size as int)
    &&& sidedefs_match(ld.sidedefs@, bytes, dir[m + 3].file_pos as int, dir[m + 3].size as int)
    &&& vertexes_match(ld.vertexes@, bytes, dir[m + 4].file_pos as int, dir[m + 4].size as int)
    &&& segs_match(ld.segs@, bytes, dir[m + 5].file_pos as int, dir[m + 5].size as int)
    &&& subsectors_match(ld.subsectors@, bytes, dir[m + 6].file_pos as int, dir[m + 6].size as int)
    &&& map_nodes_match(ld.nodes@, bytes, dir[m + 7].file_pos as int, dir[m + 7].size as int)
    &&& sectors_match(ld.sectors@, bytes, dir[m + 8].file_pos as int, dir[m + 8].size as int)
}

/// Compares a lump name against an expected one.
fn name_is(l: &FileLump, expected: &str) -> (r: bool)
    ensures
        r == (l.name@ == expected@),
{
    let e = String::from_str(expected);
    l.name == e
}

/// Parses the ten lumps of the map whose marker stands at `marker` in the
/// directory: checks their mandatory names, decodes every record array, and
/// checks that the node records form a tree. A misnamed or missing lump is a
/// structural mismatch; a child pointer that does not resolve is a broken
/// cross-reference.
pub fn parse_level(bytes: &[u8], directory: &Vec<FileLump>, marker: usize) -> (r: Result<
    LevelData,
    WadError,
>)
    requires
        marker < directory@.len(),
        forall|i: int|
            0 <= i < directory@.len() ==> (#[trigger] directory@[i]).file_pos
                + directory@[i].size <= bytes.len(),
    ensures
        r is Ok <==> level_ok_dir(bytes@, directory@, marker as int),
        r is Ok ==> level_data_matches_dir(r->Ok_0, bytes@, directory@, marker as int),
        !level_lumps_ok_dir(directory@, marker as int) ==> r == Err::<LevelData, WadError>(
            WadError::StructuralMismatch,
        ),
        level_lumps_ok_dir(directory@, marker as int) && !level_nodes_ok_dir(
            bytes@,
            directory@,
            marker as int,
        ) ==> r == Err::<LevelData, WadError>(WadError::BadReference),
{
    if directory.len() - marker < 11 {
        return Err(WadError::StructuralMismatch);
    }
    let named_ok = name_is(&directory[marker + 1], "THINGS") && name_is(
        &directory[marker + 2],
        "LINEDEFS",
    ) && name_is(&directory[marker + 3], "SIDEDEFS") && name_is(
        &directory[marker + 4],
        "VERTEXES",
    ) && name_is(&directory[marker + 5], "SEGS") && name_is(&directory[marker + 6], "SSECTORS")
        && name_is(&directory[marker + 7], "NODES") && name_is(&directory[marker + 8], "SECTORS")
        && name_is(&directory[marker + 9], "REJECT") && name_is(
        &directory[marker + 10],
        "BLOCKMAP",
    );
    if !named_ok {
        return Err(WadError::StructuralMismatch);
    }
    let things = decode_things(bytes, &directory[marker + 1]);
    let linedefs = decode_linedefs(bytes, &directory[marker + 2]);
    let sidedefs = decode_sidedefs(bytes, &directory[marker + 3]);
    let vertexes = decode_vertexes(bytes, &directory[marker + 4]);
    let segs = decode_segs(bytes, &directory[marker + 5]);
    let subsectors = decode_subsectors(bytes, &directory[marker + 6]);
    let nodes = decode_map_nodes(bytes, &directory[marker + 7]);
    let sectors = decode_sectors(bytes, &directory[marker + 8]);
    if !validate_nodes(&nodes, subsectors.len()) {
        proof {
            assert(nodes@ =~= spec_nodes_of_lump(
                bytes@,
                directory@[marker + 7].file_pos as int,
                directory@[marker + 7].size as int,
            ));
        }
        return Err(WadError::BadReference);
    }
    proof {
        assert(nodes@ =~= spec_nodes_of_lump(
            bytes@,
            directory@[marker + 7].file_pos as int,
            directory@[marker + 7].size as int,
        ));
    }
    Ok(LevelData { things, linedefs, sidedefs, vertexes, segs, subsectors, nodes, sectors })
}


/// The lump count stored in the global header.
pub open spec fn header_num_lumps(bytes: Seq<u8>) -> int {
    i32_le(bytes[4], bytes[5], bytes[6], bytes[7])
}

/// The directory offset stored in the global header.
pub open spec fn header_dir_offset(bytes: Seq<u8>) -> int {
    i32_le(bytes[8], bytes[9], bytes[10], bytes[11])
}

/// Whether the ten lumps after the map marker at `m` carry the mandatory
/// names in their fixed order, read directly from the buffer.
pub open spec fn level_lumps_ok(bytes: Seq<u8>, num_lumps: int, dir_offset: int, m: int) -> bool {
    &&& m + 11 <= num_lumps
    &&& spec_lump_name(bytes, dir_offset, m + 1) == "THINGS"@
    &&& spec_lump_name(bytes, dir_offset, m + 2) == "LINEDEFS"@
    &&& spec_lump_name(bytes, dir_offset, m + 3) == "SIDEDEFS"@
    &&& spec_lump_name(bytes, dir_offset, m + 4) == "VERTEXES"@
    &&& spec_lump_name(bytes, dir_offset, m + 5) == "SEGS"@
    &&& spec_lump_name(bytes, dir_offset, m + 6) == "SSECTORS"@
    &&& spec_lump_name(bytes, dir_offset, m + 7) == "NODES"@
    &&& spec_lump_name(bytes, dir_offset, m + 8) == "SECTORS"@
    &&& spec_lump_name(bytes, dir_offset, m + 9) == "REJECT"@
    &&& spec_lump_name(bytes, dir_offset, m + 10) == "BLOCKMAP"@
}

/// Whether the node records of the map at marker `m` form a tree over its
/// subsector array, read directly from the buffer.
pub open spec fn level_nodes_ok(bytes: Seq<u8>, dir_offset: int, m: int) -> bool {
    nodes_wf(
        spec_nodes_of_lump(
            bytes,
            spec_lump_pos(bytes, dir_offset, m + 7),
            spec_lump_size(bytes, dir_offset, m + 7),
        ),
        spec_lump_size(bytes, dir_offset, m + 6) / 4,
    )
}

/// Whether the map at marker `m` decodes without a fatal error, read
/// directly from the buffer.
pub open spec fn level_ok(bytes: Seq<u8>, num_lumps: int, dir_offset: int, m: int) -> bool {
    &&& level_lumps_ok(bytes, num_lumps, dir_offset, m)
    &&& level_nodes_ok(bytes, dir_offset, m)
}

/// Whether every map behind a marker lump decodes without a fatal error.
pub open spec fn levels_ok(bytes: Seq<u8>, num_lumps: int, dir_offset: int) -> bool {
    forall|m: int|
        0 <= m < num_lumps && is_map_marker_name(#[trigger] spec_lump_name(bytes, dir_offset, m))
            ==> level_ok(bytes, num_lumps, dir_offset, m)
}

/// Whether the whole archive loads without a fatal error: readable header,
/// readable in-bounds directory, and every map well-formed.
pub open spec fn wad_parses(bytes: Seq<u8>) -> bool {
    &&& header_ok(bytes)
    &&& directory_ok(bytes, header_num_lumps(bytes), header_dir_offset(bytes))
    &&& levels_ok(bytes, header_num_lumps(bytes), header_dir_offset(bytes))
}

/// The directory positions of the map markers among the first `upto` lumps,
/// in ascending order.
pub open spec fn marker_indices(bytes: Seq<u8>, dir_offset: int, upto: int) -> Seq<int>
    decreases upto,
{
    if upto <= 0 {
        Seq::empty()
    } else if is_map_marker_name(spec_lump_name(bytes, dir_offset, upto - 1)) {
        marker_indices(bytes, dir_offset, upto - 1).push(upto - 1)
    } else {
        marker_indices(bytes, dir_offset, upto - 1)
    }
}

/// Whether `ld` holds exactly the record arrays of the map at marker `m`,
/// read directly from the buffer.
pub open spec fn level_data_matches(
    ld: LevelData,
    bytes: Seq<u8>,
    dir_offset: int,
    m: int,
) -> bool {
    &&& things_match(
        ld.things@,
        bytes,
        spec_lump_pos(bytes, dir_offset, m + 1),
        spec_lump_size(bytes, dir_offset, m + 1),
    )
    &&& linedefs_match(
        ld.linedefs@,
        bytes,
        spec_lump_pos(bytes, dir_offset, m + 2),
        spec_lump_size(bytes, dir_offset, m + 2),
    )
    &&& sidedefs_match(
        ld.sidedefs@,
        bytes,
        spec_lump_pos(bytes, dir_offset, m + 3),
        spec_lump_size(bytes, dir_offset, m + 3),
    )
    &&& vertexes_match(
        ld.vertexes@,
        bytes,
        spec_lump_pos(bytes, dir_offset, m + 4),
        spec_lump_size(bytes, dir_offset, m + 4),
    )
    &&& segs_match(
        ld.segs@,
        bytes,
        spec_lump_pos(bytes, dir_offset, m + 5),
        spec_lump_size(bytes, dir_offset, m + 5),
    )
    &&& subsectors_match(
        ld.subsectors@,
        bytes,
        spec_lump_pos(bytes, dir_offset, m + 6),
        spec_lump_size(bytes, dir_offset, m + 6),
    )
    &&& map_nodes_match(
        ld.nodes@,
        bytes,
        spec_lump_pos(bytes, dir_offset, m + 7),
        spec_lump_size(bytes, dir_offset, m + 7),
    )
    &&& sectors_match(
        ld.sectors@,
        bytes,
        spec_lump_pos(bytes, dir_offset, m + 8),
        spec_lump_size(bytes, dir_offset, m + 8),
    )
}

/// A decoded directory says of a map exactly what the buffer says: the
/// directory-based and buffer-based readings of a map agree.
proof fn lemma_level_dir_bytes(bytes: Seq<u8>, dir: Seq<FileLump>, dir_offset: int, m: int)
    requires
        forall|i: int| 0 <= i < dir.len() ==> lump_matches(#[trigger] dir[i], bytes, dir_offset, i),
        0 <= m,
    ensures
        level_ok_dir(bytes, dir, m) <==> level_ok(bytes, dir.len() as int, dir_offset, m),
        m + 11 <= dir.len() ==> (forall|ld: LevelData|
            level_data_matches_dir(ld, bytes, dir, m) <==> #[trigger] level_data_matches(
                ld,
                bytes,
                dir_offset,
                m,
            )),
{
    if m + 11 <= dir.len() {
        assert forall|k: int| m + 1 <= k <= m + 10 implies lump_matches(
            dir[k],
            bytes,
            dir_offset,
            k,
        ) by {
            assert(0 <= k < dir.len());
        }
    }
}

/// A loaded archive: the raw bytes, the decoded header and directory, and
/// one decoded record-array group per map marker.
pub struct WadFile {
    pub bytes: Vec<u8>,
    pub header: Header,
    pub directory: Vec<FileLump>,
    pub levels: Vec<LevelData>,
}

/// Whether `w` is exactly the decoded form of the buffer: the header and
/// every directory entry match, every entry's payload lies inside the
/// buffer, and the levels are the decoded maps of the markers in directory
/// order.
pub open spec fn wad_file_matches(w: WadFile, bytes: Seq<u8>) -> bool {
    let num_lumps = header_num_lumps(bytes);
    let dir_offset = header_dir_offset(bytes);
    &&& w.bytes@ == bytes
    &&& header_matches(w.header, bytes)
    &&& w.directory@.len() == num_lumps
    &&& forall|i: int|
        0 <= i < num_lumps ==> lump_matches(#[trigger] w.directory@[i], bytes, dir_offset, i)
    &&& forall|i: int|
        0 <= i < num_lumps ==> (#[trigger] w.directory@[i]).file_pos + w.directory@[i].size
            <= bytes.len()
    &&& w.levels@.len() == marker_indices(bytes, dir_offset, num_lumps).len()
    &&& forall|k: int|
        0 <= k < w.levels@.len() ==> level_data_matches(
            #[trigger] w.levels@[k],
            bytes,
            dir_offset,
            marker_indices(bytes, dir_offset, num_lumps)[k],
        )
}

impl WadFile {
    /// Decodes a whole archive from its raw bytes: header, directory, and
    /// every map behind a marker lump, in directory order. Returns the first
    /// fatal condition instead of a partial result: `Truncated` exactly when
    /// the header or the directory cannot be read in-bounds, and a
    /// structural or cross-reference error only when some map is broken.
    pub fn parse(bytes: Vec<u8>) -> (r: Result<WadFile, WadError>)
        ensures
            r is Ok <==> wad_parses(bytes@),
            r is Ok ==> wad_file_matches(r->Ok_0, bytes@),
            r == Err::<WadFile, WadError>(WadError::Truncated) <==> !(header_ok(bytes@)
                && directory_ok(bytes@, header_num_lumps(bytes@), header_dir_offset(bytes@))),
            r is Err && header_ok(bytes@) && directory_ok(
                bytes@,
                header_num_lumps(bytes@),
                header_dir_offset(bytes@),
            ) ==> (r == Err::<WadFile, WadError>(WadError::StructuralMismatch) || r == Err::<
                WadFile,
                WadError,
            >(WadError::BadReference)) && exists|m: int|
                0 <= m < header_num_lumps(bytes@) && is_map_marker_name(
                    #[trigger] spec_lump_name(bytes@, header_dir_offset(bytes@), m),
                ) && !level_ok(bytes@, header_num_lumps(bytes@), header_dir_offset(bytes@), m),
    {
        let header = match parse_header(bytes.as_slice()) {
            Ok(h) => h,
            Err(e) => {
                return Err(e);
            },
        };
        let directory = match parse_directory(bytes.as_slice(), header.num_lumps,
            header.dir_offset) {
            Ok(d) => d,
            Err(e) => {
                return Err(e);
            },
        };
        let ghost num_lumps = header_num_lumps(bytes@);
        let ghost dir_offset = header_dir_offset(bytes@);
        let mut levels: Vec<LevelData> = Vec::new();
        let mut idx: usize = 0;
        while idx < directory.len()
            invariant
                header_ok(bytes@),
                num_lumps == header_num_lumps(bytes@),
                dir_offset == header_dir_offset(bytes@),
                directory_ok(bytes@, num_lumps, dir_offset),
                directory@.len() == num_lumps,
                forall|i: int|
                    0 <= i < num_lumps ==> lump_matches(
                        #[trigger] directory@[i],
                        bytes@,
                        dir_offset,
                        i,
                    ),
                forall|i: int|
                    0 <= i < num_lumps ==> (#[trigger] directory@[i]).file_pos
                        + directory@[i].size <= bytes@.len(),
                0 <= idx <= num_lumps,
                levels@.len() == marker_indices(bytes@, dir_offset, idx as int).len(),
                forall|k: int|
                    0 <= k < levels@.len() ==> level_data_matches(
                        #[trigger] levels@[k],
                        bytes@,
                        dir_offset,
                        marker_indices(bytes@, dir_offset, idx as int)[k],
                    ),
                forall|m: int|
                    0 <= m < idx && is_map_marker_name(
                        #[trigger] spec_lump_name(bytes@, dir_offset, m),
                    ) ==> level_ok(bytes@, num_lumps, dir_offset, m),
            decreases directory@.len() - idx,
        {
            proof {
                lemma_level_dir_bytes(bytes@, directory@, dir_offset, idx as int);
            }
            if is_map_marker(directory[idx].name.as_str()) {
                match parse_level(bytes.as_slice(), &directory, idx) {
                    Ok(ld) => {
                        proof {
                            assert(marker_indices(bytes@, dir_offset, idx + 1)
                                =~= marker_indices(bytes@, dir_offset, idx as int).push(idx as int));
                        }
                        levels.push(ld);
                    },
                    Err(e) => {
                        proof {
                            assert(!level_ok(bytes@, num_lumps, dir_offset, idx as int));
                            assert(is_map_marker_name(
                                spec_lump_name(bytes@, dir_offset, idx as int),
                            ));
                        }
                        return Err(e);
                    },
                }
            } else {
                proof {
                    assert(marker_indices(bytes@, dir_offset, idx + 1) =~= marker_indices(
                        bytes@,
                        dir_offset,
                        idx as int,
                    ));
                }
            }
            idx += 1;
        }
        Ok(WadFile { bytes, header, directory, levels })
    }
}


impl Clone for Sector {
    /// Clones the record field by field, preserving it exactly.
    fn clone(&self) -> (r: Self)
        ensures
            r == *self,
    {
        Sector {
            floor_height: self.floor_height,
            ceiling_height: self.ceiling_height,
            floor_tex: self.floor_tex.clone(),
            ceiling_tex: self.ceiling_tex.clone(),
            light_level: self.light_level,
            special_type: self.special_type,
            tag: self.tag,
        }
    }
}

} // verus!
