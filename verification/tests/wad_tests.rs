use rune::level::{Child, Level};
use rune::wad::{WadError, WadFile};

fn name8(name: &str) -> [u8; 8] {
    let mut out = [0u8; 8];
    for (i, b) in name.bytes().enumerate() {
        out[i] = b;
    }
    out
}

struct Builder {
    bytes: Vec<u8>,
    directory: Vec<(i32, i32, [u8; 8])>,
}

impl Builder {
    fn new(id: &[u8; 4]) -> Builder {
        let mut bytes = vec![0u8; 12];
        bytes[0..4].copy_from_slice(id);
        Builder {
            bytes,
            directory: Vec::new(),
        }
    }

    fn lump(&mut self, name: &str, payload: &[u8]) {
        let pos = self.bytes.len() as i32;
        self.bytes.extend_from_slice(payload);
        self.directory.push((pos, payload.len() as i32, name8(name)));
    }

    fn finish(mut self) -> Vec<u8> {
        let dir_offset = self.bytes.len() as i32;
        let num_lumps = self.directory.len() as i32;
        for (pos, size, name) in &self.directory {
            self.bytes.extend_from_slice(&pos.to_le_bytes());
            self.bytes.extend_from_slice(&size.to_le_bytes());
            self.bytes.extend_from_slice(name);
        }
        self.bytes[4..8].copy_from_slice(&num_lumps.to_le_bytes());
        self.bytes[8..12].copy_from_slice(&dir_offset.to_le_bytes());
        self.bytes
    }
}

fn thing(x: i16, y: i16, angle: i16, thing_type: i16, flags: i16) -> Vec<u8> {
    let mut b = Vec::new();
    for v in [x, y, angle, thing_type, flags] {
        b.extend_from_slice(&v.to_le_bytes());
    }
    b
}

fn linedef(start: u16, end: u16, flags: i16, special: i16, tag: u16, right: u16, left: u16) -> Vec<u8> {
    let mut b = Vec::new();
    b.extend_from_slice(&start.to_le_bytes());
    b.extend_from_slice(&end.to_le_bytes());
    b.extend_from_slice(&flags.to_le_bytes());
    b.extend_from_slice(&special.to_le_bytes());
    b.extend_from_slice(&tag.to_le_bytes());
    b.extend_from_slice(&right.to_le_bytes());
    b.extend_from_slice(&left.to_le_bytes());
    b
}

fn sidedef(x_off: i16, y_off: i16, upper: &str, lower: &str, middle: &str, sector: u16) -> Vec<u8> {
    let mut b = Vec::new();
    b.extend_from_slice(&x_off.to_le_bytes());
    b.extend_from_slice(&y_off.to_le_bytes());
    b.extend_from_slice(&name8(upper));
    b.extend_from_slice(&name8(lower));
    b.extend_from_slice(&name8(middle));
    b.extend_from_slice(&sector.to_le_bytes());
    b
}

fn vertex(x: i16, y: i16) -> Vec<u8> {
    let mut b = Vec::new();
    b.extend_from_slice(&x.to_le_bytes());
    b.extend_from_slice(&y.to_le_bytes());
    b
}

fn seg(start: u16, end: u16, angle: u16, linedef: u16, direction: i16, offset: i16) -> Vec<u8> {
    let mut b = Vec::new();
    b.extend_from_slice(&start.to_le_bytes());
    b.extend_from_slice(&end.to_le_bytes());
    b.extend_from_slice(&angle.to_le_bytes());
    b.extend_from_slice(&linedef.to_le_bytes());
    b.extend_from_slice(&direction.to_le_bytes());
    b.extend_from_slice(&offset.to_le_bytes());
    b
}

fn subsector(count: u16, first: u16) -> Vec<u8> {
    let mut b = Vec::new();
    b.extend_from_slice(&count.to_le_bytes());
    b.extend_from_slice(&first.to_le_bytes());
    b
}

fn node(px: i16, py: i16, dx: i16, dy: i16, right_child: u16, left_child: u16) -> Vec<u8> {
    let mut b = Vec::new();
    for v in [px, py, dx, dy] {
        b.extend_from_slice(&v.to_le_bytes());
    }
    // Two bounding boxes covering everything.
    for _ in 0..2 {
        for v in [i16::MAX, i16::MIN, i16::MIN, i16::MAX] {
            b.extend_from_slice(&v.to_le_bytes());
        }
    }
    b.extend_from_slice(&right_child.to_le_bytes());
    b.extend_from_slice(&left_child.to_le_bytes());
    b
}

fn sector(floor: i16, ceiling: i16, floor_tex: &str, ceiling_tex: &str, light: i16, special: i16, tag: u16) -> Vec<u8> {
    let mut b = Vec::new();
    b.extend_from_slice(&floor.to_le_bytes());
    b.extend_from_slice(&ceiling.to_le_bytes());
    b.extend_from_slice(&name8(floor_tex));
    b.extend_from_slice(&name8(ceiling_tex));
    b.extend_from_slice(&light.to_le_bytes());
    b.extend_from_slice(&special.to_le_bytes());
    b.extend_from_slice(&tag.to_le_bytes());
    b
}

/// A minimal synthetic archive: one map with 1 sector, 2 sidedefs,
/// 1 linedef, 4 vertexes, 2 segments, 1 subsector holding both segments, one
/// node whose partition is vertical at x = 50, and a player thing at
/// (10, 10).
fn minimal_archive() -> Vec<u8> {
    let mut w = Builder::new(b"IWAD");
    w.lump("E1M1", &[]);
    w.lump("THINGS", &thing(10, 10, 90, 1, 0));
    w.lump("LINEDEFS", &linedef(0, 1, 0, 0, 0, 0, 1));
    let mut sd = sidedef(0, 0, "UP", "LO", "MID", 0);
    sd.extend_from_slice(&sidedef(0, 0, "UP", "LO", "MID", 0));
    w.lump("SIDEDEFS", &sd);
    let mut vs = vertex(0, 0);
    vs.extend_from_slice(&vertex(100, 0));
    vs.extend_from_slice(&vertex(100, 100));
    vs.extend_from_slice(&vertex(0, 100));
    w.lump("VERTEXES", &vs);
    let mut sg = seg(0, 1, 0, 0, 1, 0);
    sg.extend_from_slice(&seg(1, 2, 16384, 0, 0, 0));
    w.lump("SEGS", &sg);
    w.lump("SSECTORS", &subsector(2, 0));
    // Both children are the single subsector leaf (tag bit 15 set).
    w.lump("NODES", &node(50, 0, 0, 1, 0x8000, 0x8000));
    w.lump("SECTORS", &sector(0, 128, "FLAT", "CEIL", 255, 0, 0));
    w.lump("REJECT", &[]);
    w.lump("BLOCKMAP", &[]);
    w.finish()
}

#[test]
fn directory_integrity() {
    let bytes = minimal_archive();
    let total = bytes.len();
    let w = WadFile::parse(bytes).unwrap();
    assert_eq!(w.header.num_lumps, 11);
    assert_eq!(w.directory.len(), 11);
    for lump in &w.directory {
        assert!(lump.file_pos + lump.size <= total);
    }
    assert_eq!(w.directory[0].name, "E1M1");
    assert_eq!(w.directory[1].name, "THINGS");
    assert_eq!(w.directory[10].name, "BLOCKMAP");
}

#[test]
fn end_to_end_minimal_archive() {
    let w = WadFile::parse(minimal_archive()).unwrap();
    assert_eq!(w.header.id, "IWAD");
    assert_eq!(w.levels.len(), 1);
    let data = &w.levels[0];
    assert_eq!(data.sectors.len(), 1);
    assert_eq!(data.sidedefs.len(), 2);
    assert_eq!(data.linedefs.len(), 1);
    assert_eq!(data.vertexes.len(), 4);
    assert_eq!(data.segs.len(), 2);
    assert_eq!(data.subsectors.len(), 1);
    assert_eq!(data.nodes.len(), 1);
    assert_eq!(data.things.len(), 1);
    assert_eq!(data.things[0].thing_type, 1);
    assert_eq!(data.things[0].x, 10);
    assert_eq!(data.things[0].y, 10);
    assert_eq!(data.subsectors[0].segment_count, 2);
    assert_eq!(data.subsectors[0].first_segment, 0);

    let level = Level::new(data).unwrap();
    assert_eq!(level.locate(10, 10), 0);
}

#[test]
fn bsp_coverage_on_segment_vertices() {
    // Locating any vertex used by the subsector's own segments lands on a
    // valid leaf.
    let w = WadFile::parse(minimal_archive()).unwrap();
    let level = Level::new(&w.levels[0]).unwrap();
    for ss in &level.subsectors {
        for k in 0..ss.segment_count {
            let s = &level.segments[ss.first_segment + k];
            for vi in [s.start_vert, s.end_vert] {
                let v = level.vertexes[vi];
                let leaf = level.locate(v.x, v.y);
                assert!(leaf < level.subsectors.len());
            }
        }
    }
}

#[test]
fn decoded_records_carry_exact_fields() {
    let w = WadFile::parse(minimal_archive()).unwrap();
    let data = &w.levels[0];
    assert_eq!(data.linedefs[0].start_vert, 0);
    assert_eq!(data.linedefs[0].end_vert, 1);
    assert_eq!(data.linedefs[0].right_sidedef, 0);
    assert_eq!(data.linedefs[0].left_sidedef, 1);
    assert_eq!(data.sidedefs[0].upper_tex, "UP");
    assert_eq!(data.sidedefs[0].lower_tex, "LO");
    assert_eq!(data.sidedefs[0].middle_tex, "MID");
    assert_eq!(data.sidedefs[0].sector, 0);
    assert_eq!(data.vertexes[2].x, 100);
    assert_eq!(data.vertexes[2].y, 100);
    assert_eq!(data.segs[1].angle, 16384);
    assert_eq!(data.segs[1].dir_like_linedef, false);
    assert_eq!(data.segs[0].dir_like_linedef, true);
    assert_eq!(data.nodes[0].partition_x, 50);
    assert_eq!(data.nodes[0].delta_y, 1);
    assert_eq!(data.sectors[0].ceiling_height, 128);
    assert_eq!(data.sectors[0].floor_tex, "FLAT");
    assert_eq!(data.sectors[0].light_level, 255);
    assert_eq!(data.things[0].angle_facing, 90);
}

#[test]
fn truncated_file_is_fatal() {
    assert!(matches!(WadFile::parse(vec![0u8; 5]), Err(WadError::Truncated)));
}

#[test]
fn directory_out_of_bounds_is_fatal() {
    let mut bytes = minimal_archive();
    // Point the directory past the end of the file.
    let huge = (bytes.len() as i32 + 1000).to_le_bytes();
    bytes[8..12].copy_from_slice(&huge);
    assert!(matches!(WadFile::parse(bytes), Err(WadError::Truncated)));
}

#[test]
fn lump_payload_out_of_bounds_is_fatal() {
    let bytes = minimal_archive();
    let dir_offset = u32::from_le_bytes([bytes[8], bytes[9], bytes[10], bytes[11]]) as usize;
    let mut bytes = bytes;
    // Stretch the first lump's size past the end of the file.
    let huge = (bytes.len() as i32).to_le_bytes();
    bytes[dir_offset + 4..dir_offset + 8].copy_from_slice(&huge);
    assert!(matches!(WadFile::parse(bytes), Err(WadError::Truncated)));
}

#[test]
fn misnamed_lump_is_structural_mismatch() {
    let mut w = Builder::new(b"IWAD");
    w.lump("E1M1", &[]);
    w.lump("WRONG", &[]);
    for name in ["LINEDEFS", "SIDEDEFS", "VERTEXES", "SEGS", "SSECTORS", "NODES", "SECTORS", "REJECT", "BLOCKMAP"] {
        w.lump(name, &[]);
    }
    assert!(matches!(WadFile::parse(w.finish()), Err(WadError::StructuralMismatch)));
}

#[test]
fn missing_lumps_after_marker_is_structural_mismatch() {
    let mut w = Builder::new(b"IWAD");
    w.lump("E1M1", &[]);
    w.lump("THINGS", &[]);
    assert!(matches!(WadFile::parse(w.finish()), Err(WadError::StructuralMismatch)));
}

#[test]
fn node_child_out_of_range_is_bad_reference() {
    let mut w = Builder::new(b"IWAD");
    w.lump("E1M1", &[]);
    w.lump("THINGS", &[]);
    w.lump("LINEDEFS", &[]);
    w.lump("SIDEDEFS", &[]);
    w.lump("VERTEXES", &[]);
    w.lump("SEGS", &[]);
    w.lump("SSECTORS", &subsector(0, 0));
    // The leaf child tag points at subsector 5, but only one exists.
    w.lump("NODES", &node(0, 0, 0, 1, 0x8005, 0x8000));
    w.lump("SECTORS", &[]);
    w.lump("REJECT", &[]);
    w.lump("BLOCKMAP", &[]);
    assert!(matches!(WadFile::parse(w.finish()), Err(WadError::BadReference)));
}

#[test]
fn unreadable_header_id_gets_fallback_label() {
    let mut bytes = minimal_archive();
    bytes[0] = 0xFF;
    let w = WadFile::parse(bytes).unwrap();
    assert_eq!(w.header.id, "IWAD");
}

#[test]
fn non_marker_lumps_are_skipped() {
    let mut w = Builder::new(b"PWAD");
    w.lump("CREDITS", b"hello");
    let bytes = w.finish();
    let parsed = WadFile::parse(bytes).unwrap();
    assert_eq!(parsed.header.id, "PWAD");
    assert_eq!(parsed.levels.len(), 0);
    assert_eq!(parsed.directory.len(), 1);
    assert_eq!(parsed.directory[0].name, "CREDITS");
}

#[test]
fn find_partial_zero_returns_root() {
    let w = WadFile::parse(minimal_archive()).unwrap();
    let level = Level::new(&w.levels[0]).unwrap();
    assert_eq!(level.find_partial(10, 10, 0), Child::NODE(level.root_node));
}

#[test]
fn find_partial_one_step() {
    let w = WadFile::parse(minimal_archive()).unwrap();
    let level = Level::new(&w.levels[0]).unwrap();
    assert_eq!(level.find_partial(10, 10, 1), Child::SUBSECTOR(0));
}

#[test]
fn negative_lump_count_is_fatal() {
    let mut bytes = minimal_archive();
    bytes[4..8].copy_from_slice(&(-1i32).to_le_bytes());
    assert!(matches!(WadFile::parse(bytes), Err(WadError::Truncated)));
}

#[test]
fn negative_lump_size_is_fatal() {
    let bytes = minimal_archive();
    let dir_offset = u32::from_le_bytes([bytes[8], bytes[9], bytes[10], bytes[11]]) as usize;
    let mut bytes = bytes;
    bytes[dir_offset + 4..dir_offset + 8].copy_from_slice(&(-1i32).to_le_bytes());
    assert!(matches!(WadFile::parse(bytes), Err(WadError::Truncated)));
}

#[test]
fn marker_pattern_is_exact() {
    // Episode digits run 1 to 4 only; other names are ordinary lumps.
    for name in ["E5M1", "E0M1", "M1E1", "E1X1", "THINGS", "E1M"] {
        let mut w = Builder::new(b"IWAD");
        w.lump(name, &[]);
        let parsed = WadFile::parse(w.finish()).unwrap();
        assert_eq!(parsed.levels.len(), 0, "{} must not start a map", name);
    }
    // A proper marker with too few following lumps is a structural error,
    // which shows the name was recognized.
    let mut w = Builder::new(b"IWAD");
    w.lump("E4M9", &[]);
    assert!(matches!(WadFile::parse(w.finish()), Err(WadError::StructuralMismatch)));
}

#[test]
fn two_maps_decode_in_directory_order() {
    let mut w = Builder::new(b"IWAD");
    for marker in ["E1M1", "E1M2"] {
        w.lump(marker, &[]);
        w.lump("THINGS", &thing(1, 2, 0, 1, 0));
        w.lump("LINEDEFS", &[]);
        w.lump("SIDEDEFS", &[]);
        w.lump("VERTEXES", &vertex(0, 0));
        w.lump("SEGS", &[]);
        w.lump("SSECTORS", &subsector(0, 0));
        w.lump("NODES", &node(0, 0, 0, 1, 0x8000, 0x8000));
        w.lump("SECTORS", &[]);
        w.lump("REJECT", &[]);
        w.lump("BLOCKMAP", &[]);
    }
    let parsed = WadFile::parse(w.finish()).unwrap();
    assert_eq!(parsed.levels.len(), 2);
    assert_eq!(parsed.directory.len(), 22);
    assert_eq!(parsed.levels[0].things[0].x, 1);
    assert_eq!(parsed.levels[1].things[0].y, 2);
}
