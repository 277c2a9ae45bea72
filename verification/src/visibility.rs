//! Visibility clipper: given a viewer's facing angle and the bearings of a
//! wall segment's two endpoints, decides whether any part of the segment's
//! angular span intersects the viewer's 90-degree field of view, and clips
//! an endpoint falling outside the cone to the corresponding cone edge.
//!
//! Angles are binary angle units: 65536 units stand for one full turn, so a
//! quarter turn (the field of view) is 16384 units and the cone edges lie an
//! eighth turn (8192 units) either side of the facing angle. Taking a
//! bearing with the arc tangent and scaling it into these units is a
//! floating-point concern left to the presentation layer.

use vstd::arithmetic::div_mod::{lemma_mod_multiples_vanish, lemma_small_mod};
use vstd::prelude::*;

verus! {

/// Binary angle units in one full turn.
pub const TURN: u32 = 65536;

/// Binary angle units in half a turn.
pub const HALF_TURN: u32 = 32768;

/// Binary angle units in a quarter turn: the whole field of view.
pub const QUARTER_TURN: u32 = 16384;

/// Binary angle units in an eighth of a turn: facing angle to cone edge.
pub const EIGHTH_TURN: u32 = 8192;

/// An angle folded into one turn.
pub open spec fn angle_norm(a: int) -> int {
    a % (TURN as int)
}

/// Whether the ordered endpoint bearings can belong to a wall facing the
/// viewer: the first does not precede the second, and the span stays under
/// half a turn.
pub open spec fn seg_facing(a1: int, a2: int) -> bool {
    &&& a2 <= a1
    &&& a1 - a2 < HALF_TURN
}

/// The first endpoint's bearing rotated into viewer space, measured from the
/// left cone edge: zero means exactly on the edge, values up to a quarter
/// turn are inside the cone.
pub open spec fn left_rotated(view: int, a1: int) -> int {
    angle_norm(a1 - view + EIGHTH_TURN)
}

/// The second endpoint's bearing measured from the left cone edge going
/// right: values up to a quarter turn are inside the cone.
pub open spec fn right_rotated(view: int, a2: int) -> int {
    angle_norm(EIGHTH_TURN - angle_norm(a2 - view))
}

/// Whether some part of the segment's angular span intersects the viewer's
/// field of view: the endpoints must face the viewer, and when the first
/// endpoint lies beyond the left cone edge, the span must reach back past
/// that edge.
pub open spec fn seg_visible(view: int, a1: int, a2: int) -> bool {
    &&& seg_facing(a1, a2)
    &&& !(left_rotated(view, a1) > QUARTER_TURN && left_rotated(view, a1) - QUARTER_TURN >= a1
        - a2)
}

/// The first endpoint's effective bearing: clipped to the left cone edge
/// when it falls outside the cone on that side.
pub open spec fn clipped_left(view: int, a1: int) -> int {
    if left_rotated(view, a1) > QUARTER_TURN {
        angle_norm(view + EIGHTH_TURN)
    } else {
        a1
    }
}

/// The second endpoint's effective bearing: clipped to the right cone edge
/// when it falls outside the cone on that side.
pub open spec fn clipped_right(view: int, a2: int) -> int {
    if right_rotated(view, a2) > QUARTER_TURN {
        angle_norm(view - EIGHTH_TURN)
    } else {
        a2
    }
}

/// Decides whether the wall segment whose endpoint bearings are `a1` and
/// `a2` (ordered, as seen from the viewer) intersects the field of view of a
/// viewer facing `view_angle`, and returns the endpoints' effective
/// bearings, each clipped to its cone edge when it lies outside the cone.
pub fn is_seg_visible(view_angle: u32, a1: u32, a2: u32) -> (r: Option<(u32, u32)>)
    requires
        view_angle < TURN,
        a1 < TURN,
        a2 < TURN,
    ensures
        r is Some <==> seg_visible(view_angle as int, a1 as int, a2 as int),
        r is Some ==> {
            let (c1, c2) = r->0;
            &&& c1 == clipped_left(view_angle as int, a1 as int)
            &&& c2 == clipped_right(view_angle as int, a2 as int)
            &&& c1 < TURN
            &&& c2 < TURN
        },
{
    if a2 > a1 {
        return None;
    }
    let diff = a1 - a2;
    if diff >= HALF_TURN {
        return None;
    }
    let rot1 = (a1 + EIGHTH_TURN + TURN - view_angle) % TURN;
    proof {
        lemma_mod_multiples_vanish(1, a1 as int - view_angle as int + EIGHTH_TURN as int,
            TURN as int);
        assert(rot1 == left_rotated(view_angle as int, a1 as int));
    }
    let clipped_a1: u32;
    if rot1 > QUARTER_TURN {
        if rot1 - QUARTER_TURN >= diff {
            return None;
        }
        clipped_a1 = (view_angle + EIGHTH_TURN) % TURN;
    } else {
        clipped_a1 = a1;
    }
    let toward = (a2 + TURN - view_angle) % TURN;
    proof {
        lemma_mod_multiples_vanish(1, a2 as int - view_angle as int, TURN as int);
        assert(toward == angle_norm(a2 as int - view_angle as int));
    }
    let rot2 = (EIGHTH_TURN + TURN - toward) % TURN;
    proof {
        lemma_mod_multiples_vanish(1, EIGHTH_TURN as int - toward as int, TURN as int);
        assert(rot2 == right_rotated(view_angle as int, a2 as int));
    }
    let clipped_a2: u32;
    if rot2 > QUARTER_TURN {
        clipped_a2 = (view_angle + TURN - EIGHTH_TURN) % TURN;
        proof {
            lemma_mod_multiples_vanish(1, view_angle as int - EIGHTH_TURN as int, TURN as int);
            assert(clipped_a2 == clipped_right(view_angle as int, a2 as int));
        }
    } else {
        clipped_a2 = a2;
    }
    Some((clipped_a1, clipped_a2))
}

/// Visibility symmetry, near side: a segment directly centered in front of
/// the viewer, both bearings equal to the facing angle, is always visible
/// and is returned unclipped.
pub proof fn lemma_centered_segment_visible(view: int)
    requires
        0 <= view < TURN,
    ensures
        seg_visible(view, view, view),
        clipped_left(view, view) == view,
        clipped_right(view, view) == view,
{
    lemma_small_mod(EIGHTH_TURN as nat, TURN as nat);
    lemma_small_mod(0nat, TURN as nat);
}

/// Visibility symmetry, far side: a segment both of whose endpoint bearings
/// differ from the viewer's facing angle by more than a quarter turn in
/// circular distance is never visible.
pub proof fn lemma_outside_fov_invisible(view: int, a1: int, a2: int)
    requires
        0 <= view < TURN,
        0 <= a1 < TURN,
        0 <= a2 < TURN,
        QUARTER_TURN < angle_norm(a1 - view) < TURN - QUARTER_TURN,
        QUARTER_TURN < angle_norm(a2 - view) < TURN - QUARTER_TURN,
    ensures
        !seg_visible(view, a1, a2),
{
    if seg_facing(a1, a2) {
        let d1 = angle_norm(a1 - view);
        let d2 = angle_norm(a2 - view);
        let diff = a1 - a2;
        assert(0 <= diff < HALF_TURN);
        if a1 - view >= 0 {
            lemma_small_mod((a1 - view) as nat, TURN as nat);
        } else {
            lemma_mod_multiples_vanish(1, a1 - view, TURN as int);
            lemma_small_mod((a1 - view + TURN) as nat, TURN as nat);
        }
        if a2 - view >= 0 {
            lemma_small_mod((a2 - view) as nat, TURN as nat);
        } else {
            lemma_mod_multiples_vanish(1, a2 - view, TURN as int);
            lemma_small_mod((a2 - view + TURN) as nat, TURN as nat);
        }
        // The rotated first endpoint sits past the left cone edge.
        assert(d1 + EIGHTH_TURN < TURN);
        if a1 - view + EIGHTH_TURN >= 0 {
            lemma_small_mod((a1 - view + EIGHTH_TURN) as nat, TURN as nat);
            if a1 - view < 0 {
                assert(a1 - view + EIGHTH_TURN < EIGHTH_TURN);
                assert(d1 == a1 - view + TURN);
                assert(d1 >= TURN - EIGHTH_TURN);
                assert(false);
            }
            assert(left_rotated(view, a1) == d1 + EIGHTH_TURN);
        } else {
            lemma_mod_multiples_vanish(1, a1 - view + EIGHTH_TURN, TURN as int);
            lemma_small_mod((a1 - view + EIGHTH_TURN + TURN) as nat, TURN as nat);
            assert(left_rotated(view, a1) == d1 + EIGHTH_TURN);
        }
        assert(left_rotated(view, a1) > QUARTER_TURN);
        // The span cannot reach back past the left edge: otherwise the
        // second endpoint would land within a quarter turn of the viewer.
        if left_rotated(view, a1) - QUARTER_TURN < diff {
            assert(d1 - EIGHTH_TURN < diff);
            if d1 - diff >= 0 {
                lemma_small_mod((a1 - view - diff + TURN) as nat, TURN as nat);
                lemma_mod_multiples_vanish(1, a2 - view, TURN as int);
                assert(d2 == d1 - diff);
                assert(d2 < EIGHTH_TURN);
                assert(false);
            } else {
                assert(d2 == d1 - diff + TURN);
                assert(d2 > TURN - HALF_TURN + QUARTER_TURN - EIGHTH_TURN);
                assert(d2 >= TURN - QUARTER_TURN);
                assert(false);
            }
        }
    }
}

} // verus!
