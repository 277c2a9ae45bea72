use rune::visibility::{is_seg_visible, EIGHTH_TURN, HALF_TURN, QUARTER_TURN, TURN};

#[test]
fn centered_segment_is_visible() {
    // A segment dead ahead, both bearings equal to the facing angle, is
    // always visible and comes back unclipped.
    for view in [0u32, 100, 8192, 16384, 32768, 65535] {
        assert_eq!(is_seg_visible(view, view, view), Some((view, view)));
    }
}

#[test]
fn segment_inside_cone_is_unclipped() {
    let view = 16384;
    // Both bearings within an eighth turn of the facing angle.
    assert_eq!(is_seg_visible(view, 20000, 12000), Some((20000, 12000)));
}

#[test]
fn bearings_out_of_order_are_rejected() {
    assert_eq!(is_seg_visible(16384, 12000, 20000), None);
}

#[test]
fn span_of_half_turn_or_more_is_rejected() {
    let view = 16384;
    assert_eq!(is_seg_visible(view, 40000, 40000 - HALF_TURN), None);
}

#[test]
fn segment_far_outside_cone_is_invisible() {
    // Both bearings differ from the facing angle by more than a quarter
    // turn: never visible, on either side.
    assert_eq!(is_seg_visible(0, 20000, 17000), None);
    assert_eq!(is_seg_visible(0, TURN - 17000, TURN - 20000), None);
    assert_eq!(is_seg_visible(30000, 50000, 47000), None);
}

#[test]
fn left_endpoint_clips_to_left_cone_edge() {
    let view = 16384;
    // First bearing beyond the left edge (view + eighth turn), second
    // inside: visible, first clipped to the edge.
    let left_edge = view + EIGHTH_TURN;
    assert_eq!(
        is_seg_visible(view, 30000, 20000),
        Some((left_edge, 20000))
    );
}

#[test]
fn right_endpoint_clips_to_right_cone_edge() {
    let view = 16384;
    // Second bearing beyond the right edge (view - eighth turn), first
    // inside: visible, second clipped to the edge.
    let right_edge = view - EIGHTH_TURN;
    assert_eq!(
        is_seg_visible(view, 20000, 5000),
        Some((20000, right_edge))
    );
}

#[test]
fn both_endpoints_clip_at_the_edges() {
    let view = 32768;
    let a1 = view + EIGHTH_TURN + 1000;
    let a2 = view - EIGHTH_TURN - 1000;
    assert_eq!(
        is_seg_visible(view, a1, a2),
        Some((view + EIGHTH_TURN, view - EIGHTH_TURN))
    );
}

#[test]
fn cone_edges_wrap_around_zero() {
    // A viewer facing just past zero: the right cone edge lies below zero
    // and wraps to the top of the circle.
    let view = 1000;
    let a1 = view + 100;
    let a2 = 100;
    let r = is_seg_visible(view, a1, a2);
    assert_eq!(r, Some((a1, a2)));
    // A segment reaching beyond the wrapped right edge clips to it.
    let far_right = TURN - 10000;
    assert_eq!(
        is_seg_visible(view, view, far_right),
        None,
        "a span of more than half a turn cannot face the viewer"
    );
}

#[test]
fn quarter_turn_units_are_consistent() {
    assert_eq!(QUARTER_TURN, 2 * EIGHTH_TURN);
    assert_eq!(HALF_TURN, 2 * QUARTER_TURN);
    assert_eq!(TURN, 2 * HALF_TURN);
}
