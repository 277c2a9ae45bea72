use rune::codec::{
    read_angle, read_bbox, read_child_ref, read_fixed_name, read_i16, read_i32, read_u16, BBox,
    ChildIdx,
};

#[test]
fn i16_round_trip() {
    for v in [0i16, 1, -1, 42, -42, 1000, -1000, i16::MAX, i16::MIN] {
        let b = v.to_le_bytes().to_vec();
        assert_eq!(read_i16(&b, 0), v);
    }
}

#[test]
fn i16_at_offset() {
    let b = vec![0xFF, 0xFF, 0x34, 0x12];
    assert_eq!(read_i16(&b, 2), 0x1234);
}

#[test]
fn u16_round_trip() {
    for v in [0u16, 1, 0x7FFF, 0x8000, 0xFFFF] {
        let b = v.to_le_bytes().to_vec();
        assert_eq!(read_u16(&b, 0), v);
    }
}

#[test]
fn i32_round_trip() {
    for v in [0i32, 1, -1, 123456789, -123456789, i32::MAX, i32::MIN] {
        let b = v.to_le_bytes().to_vec();
        assert_eq!(read_i32(&b, 0), v);
    }
}

#[test]
fn angle_round_trip() {
    // The raw binary angle carries 65535 units per 360 degrees; decoding
    // returns the stored units exactly.
    for v in [0u16, 1, 16384, 32768, 65535] {
        let b = v.to_le_bytes().to_vec();
        assert_eq!(read_angle(&b, 0), v);
    }
}

#[test]
fn child_tag_node() {
    let b = vec![0x05, 0x00];
    assert_eq!(read_child_ref(&b, 0), ChildIdx::Node(5));
}

#[test]
fn child_tag_subsector() {
    let b = vec![0x05, 0x80];
    assert_eq!(read_child_ref(&b, 0), ChildIdx::Subsector(5));
}

#[test]
fn child_tag_all_ones_is_leaf_zero() {
    let b = vec![0xFF, 0xFF];
    assert_eq!(read_child_ref(&b, 0), ChildIdx::Subsector(0));
}

#[test]
fn child_tag_largest_node() {
    let b = vec![0xFF, 0x7F];
    assert_eq!(read_child_ref(&b, 0), ChildIdx::Node(0x7FFF));
}

#[test]
fn bbox_fields_in_file_order() {
    // Stored order is top, bottom, left, right.
    let mut b = Vec::new();
    b.extend_from_slice(&100i16.to_le_bytes());
    b.extend_from_slice(&(-50i16).to_le_bytes());
    b.extend_from_slice(&(-20i16).to_le_bytes());
    b.extend_from_slice(&80i16.to_le_bytes());
    let bb = read_bbox(&b, 0);
    assert_eq!(
        bb,
        BBox {
            top: 100,
            left: -20,
            width: 100,
            height: 150,
        }
    );
}

#[test]
fn bbox_extents_can_exceed_sixteen_bits() {
    let mut b = Vec::new();
    b.extend_from_slice(&i16::MAX.to_le_bytes());
    b.extend_from_slice(&i16::MIN.to_le_bytes());
    b.extend_from_slice(&i16::MIN.to_le_bytes());
    b.extend_from_slice(&i16::MAX.to_le_bytes());
    let bb = read_bbox(&b, 0);
    assert_eq!(bb.width, 65535);
    assert_eq!(bb.height, 65535);
}

#[test]
fn fixed_name_stops_at_nul() {
    let b = b"THINGS\0\0".to_vec();
    assert_eq!(read_fixed_name(&b, 0), "THINGS");
}

#[test]
fn fixed_name_full_eight_bytes() {
    let b = b"BLOCKMAP".to_vec();
    assert_eq!(read_fixed_name(&b, 0), "BLOCKMAP");
}

#[test]
fn fixed_name_empty() {
    let b = vec![0u8; 8];
    assert_eq!(read_fixed_name(&b, 0), "");
}

#[test]
fn fixed_name_non_ascii_placeholder() {
    let b = vec![0xC3, 0x28, 0, 0, 0, 0, 0, 0];
    assert_eq!(read_fixed_name(&b, 0), "????");
}

#[test]
fn fixed_name_at_offset() {
    let mut b = vec![0xAA; 4];
    b.extend_from_slice(b"SEGS\0\0\0\0");
    assert_eq!(read_fixed_name(&b, 4), "SEGS");
}

#[test]
fn fixed_name_ignores_bytes_after_nul() {
    let b = b"AB\0\xFF\xFF\xFF\xFF\xFF".to_vec();
    assert_eq!(read_fixed_name(&b, 0), "AB");
}
