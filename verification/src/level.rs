//! Level assembly and the binary-space-partition query: turns the flat raw
//! record arrays of one map into a cross-referenced level, checking every
//! stored index against its target array, and answers "which convex region
//! contains this point" by descending the partition tree.
//!
//! Records share their targets (many sidedefs one sector, many segments one
//! linedef), so the assembled level keeps each record array once and stores
//! checked indices as the references.

use crate::wad;
use crate::wad::{BBox, ChildIdx, LevelData, MapNode, Sector, Thing, Vertex, WadError};
use vstd::prelude::*;

verus! {

/// An assembled per-face texture record: `sector` is a checked index into
/// the level's sector array.
#[derive(Clone, Debug)]
pub struct Sidedef {
    pub x_off: i16,
    pub y_off: i16,
    pub upper_tex: String,
    pub lower_tex: String,
    pub middle_tex: String,
    pub sector: usize,
}

impl Sidedef {
    pub fn new(
        x_off: i16,
        y_off: i16,
        upper_tex: String,
        lower_tex: String,
        middle_tex: String,
        sector: usize,
    ) -> (r: Self)
        ensures
            r.x_off == x_off,
            r.y_off == y_off,
            r.upper_tex == upper_tex,
            r.lower_tex == lower_tex,
            r.middle_tex == middle_tex,
            r.sector == sector,
    {
        Sidedef { x_off, y_off, upper_tex, lower_tex, middle_tex, sector }
    }
}

/// An assembled wall/boundary edge: vertex indices, and optional checked
/// sidedef indices (the on-disk sentinel 65535 becomes `None`).
#[derive(Clone, Copy, Debug, PartialEq, Eq, Structural)]
pub struct Linedef {
    pub start_vert: usize,
    pub end_vert: usize,
    pub flags: i16,
    pub special_type: i16,
    pub sector_tag: usize,
    pub right_sidedef: Option<usize>,
    pub left_sidedef: Option<usize>,
}

impl Linedef {
    pub fn new(
        start_vert: usize,
        end_vert: usize,
        flags: i16,
        special_type: i16,
        sector_tag: usize,
        right_sidedef: Option<usize>,
        left_sidedef: Option<usize>,
    ) -> (r: Self)
        ensures
            r == (Linedef {
                start_vert,
                end_vert,
                flags,
                special_type,
                sector_tag,
                right_sidedef,
                left_sidedef,
            }),
    {
        Linedef {
            start_vert,
            end_vert,
            flags,
            special_type,
            sector_tag,
            right_sidedef,
            left_sidedef,
        }
    }
}

/// An assembled directed sub-span of a linedef: vertex indices, a checked
/// linedef index, and the packed binary angle in its raw units.
#[derive(Clone, Copy, Debug, PartialEq, Eq, Structural)]
pub struct Segment {
    pub start_vert: usize,
    pub end_vert: usize,
    pub angle: u16,
    pub linedef: usize,
    pub dir_like_linedef: bool,
    pub offset: i16,
}

impl Segment {
    pub fn new(
        start_vert: usize,
        end_vert: usize,
        angle: u16,
        linedef: usize,
        dir_like_linedef: bool,
        offset: i16,
    ) -> (r: Self)
        ensures
            r == (Segment { start_vert, end_vert, angle, linedef, dir_like_linedef, offset }),
    {
        Segment { start_vert, end_vert, angle, linedef, dir_like_linedef, offset }
    }
}

/// An assembled convex leaf region: a checked contiguous run of segments in
/// the level's flat segment array.
#[derive(Clone, Copy, Debug, PartialEq, Eq, Structural)]
pub struct SubSector {
    pub segment_count: usize,
    pub first_segment: usize,
}

/// A checked child of a tree node: either an earlier node or a subsector
/// leaf, each named by its index into the corresponding level array.
#[allow(non_camel_case_types)]
#[derive(Clone, Copy, Debug, PartialEq, Eq, Structural)]
pub enum Child {
    NODE(usize),
    SUBSECTOR(usize),
}

/// An assembled tree node: a partition line given by an origin point and a
/// direction vector, the two children's bounding boxes, and two checked
/// children.
#[derive(Clone, Copy, Debug, PartialEq, Eq, Structural)]
pub struct Node {
    pub partition_x: i16,
    pub partition_y: i16,
    pub delta_x: i16,
    pub delta_y: i16,
    pub right_bbox: BBox,
    pub left_bbox: BBox,
    pub right_child: Child,
    pub left_child: Child,
}

/// The assembled level: every record array checked, the node array forming a
/// tree whose root is the last element.
pub struct Level {
    pub vertexes: Vec<Vertex>,
    pub things: Vec<Thing>,
    pub sectors: Vec<Sector>,
    pub sidedefs: Vec<Sidedef>,
    pub linedefs: Vec<Linedef>,
    pub segments: Vec<Segment>,
    pub subsectors: Vec<SubSector>,
    pub nodes: Vec<Node>,
    pub root_node: usize,
}

/// Whether an assembled child points at an earlier node or a subsector in
/// range.
pub open spec fn child_wf(c: Child, id: int, num_subsectors: int) -> bool {
    match c {
        Child::NODE(j) => j < id,
        Child::SUBSECTOR(s) => s < num_subsectors,
    }
}

impl Level {
    /// Every stored index resolves within its target array, and the node
    /// array forms a tree rooted in its last element.
    pub open spec fn wf(&self) -> bool {
        &&& forall|i: int|
            0 <= i < self.sidedefs@.len() ==> (#[trigger] self.sidedefs@[i]).sector
                < self.sectors@.len()
        &&& forall|i: int|
            0 <= i < self.linedefs@.len() ==> {
                let l = #[trigger] self.linedefs@[i];
                &&& l.start_vert < self.vertexes@.len()
                &&& l.end_vert < self.vertexes@.len()
                &&& (l.right_sidedef is Some ==> l.right_sidedef->0 < self.sidedefs@.len())
                &&& (l.left_sidedef is Some ==> l.left_sidedef->0 < self.sidedefs@.len())
            }
        &&& forall|i: int|
            0 <= i < self.segments@.len() ==> {
                let s = #[trigger] self.segments@[i];
                &&& s.start_vert < self.vertexes@.len()
                &&& s.end_vert < self.vertexes@.len()
                &&& s.linedef < self.linedefs@.len()
            }
        &&& forall|i: int|
            0 <= i < self.subsectors@.len() ==> (#[trigger] self.subsectors@[i]).first_segment
                + self.subsectors@[i].segment_count <= self.segments@.len()
        &&& self.nodes@.len() > 0
        &&& self.root_node == self.nodes@.len() - 1
        &&& forall|i: int|
            0 <= i < self.nodes@.len() ==> child_wf(
                (#[trigger] self.nodes@[i]).right_child,
                i,
                self.subsectors@.len() as int,
            )
        &&& forall|i: int|
            0 <= i < self.nodes@.len() ==> child_wf(
                (#[trigger] self.nodes@[i]).left_child,
                i,
                self.subsectors@.len() as int,
            )
    }
}

/// Whether the raw record arrays can be assembled: every stored index
/// resolves within its target array (a sidedef reference may also be the
/// "none" sentinel), and the node records form a tree.
pub open spec fn assemblable(data: LevelData) -> bool {
    &&& forall|i: int|
        0 <= i < data.sidedefs@.len() ==> (#[trigger] data.sidedefs@[i]).sector
            < data.sectors@.len()
    &&& forall|i: int|
        0 <= i < data.linedefs@.len() ==> {
            let l = #[trigger] data.linedefs@[i];
            &&& l.start_vert < data.vertexes@.len()
            &&& l.end_vert < data.vertexes@.len()
            &&& (l.right_sidedef < data.sidedefs@.len() || l.right_sidedef >= 65535)
            &&& (l.left_sidedef < data.sidedefs@.len() || l.left_sidedef >= 65535)
        }
    &&& forall|i: int|
        0 <= i < data.segs@.len() ==> {
            let s = #[trigger] data.segs@[i];
            &&& s.start_vert < data.vertexes@.len()
            &&& s.end_vert < data.vertexes@.len()
            &&& s.linedef < data.linedefs@.len()
        }
    &&& forall|i: int|
        0 <= i < data.subsectors@.len() ==> (#[trigger] data.subsectors@[i]).first_segment
            + data.subsectors@[i].segment_count <= data.segs@.len()
    &&& wad::nodes_wf(data.nodes@, data.subsectors@.len() as int)
}

/// Whether `s` is the assembled form of the raw sidedef `d`.
pub open spec fn sidedef_assembled(s: Sidedef, d: wad::Sidedef) -> bool {
    &&& s.x_off == d.x_off
    &&& s.y_off == d.y_off
    &&& s.upper_tex@ == d.upper_tex@
    &&& s.lower_tex@ == d.lower_tex@
    &&& s.middle_tex@ == d.middle_tex@
    &&& s.sector == d.sector
}

/// Whether `r` is the assembled form of a raw sidedef reference: the on-disk
/// sentinel 65535 (or beyond) stands for "no sidedef".
pub open spec fn sidedef_ref_assembled(r: Option<usize>, raw: int) -> bool {
    if raw >= 65535 {
        r is None
    } else {
        r == Some(raw as usize)
    }
}

/// Whether `l` is the assembled form of the raw linedef `d`.
pub open spec fn linedef_assembled(l: Linedef, d: wad::Linedef) -> bool {
    &&& l.start_vert == d.start_vert
    &&& l.end_vert == d.end_vert
    &&& l.flags == d.flags
    &&& l.special_type == d.special_type
    &&& l.sector_tag == d.sector_tag
    &&& sidedef_ref_assembled(l.right_sidedef, d.right_sidedef as int)
    &&& sidedef_ref_assembled(l.left_sidedef, d.left_sidedef as int)
}

/// Whether `s` is the assembled form of the raw segment `d`.
pub open spec fn segment_assembled(s: Segment, d: wad::Segment) -> bool {
    &&& s.start_vert == d.start_vert
    &&& s.end_vert == d.end_vert
    &&& s.angle == d.angle
    &&& s.linedef == d.linedef
    &&& s.dir_like_linedef == d.dir_like_linedef
    &&& s.offset == d.offset
}

/// Whether `s` is the assembled form of the raw subsector `d`.
pub open spec fn subsector_assembled(s: SubSector, d: wad::SubSector) -> bool {
    &&& s.segment_count == d.segment_count
    &&& s.first_segment == d.first_segment
}

/// Whether `c` is the assembled form of the raw child tag `d`.
pub open spec fn child_assembled(c: Child, d: ChildIdx) -> bool {
    match d {
        ChildIdx::Node(j) => c == Child::NODE(j as usize),
        ChildIdx::Subsector(s) => c == Child::SUBSECTOR(s as usize),
    }
}

/// Whether `n` is the assembled form of the raw node record `d`.
pub open spec fn node_assembled(n: Node, d: MapNode) -> bool {
    &&& n.partition_x == d.partition_x
    &&& n.partition_y == d.partition_y
    &&& n.delta_x == d.delta_x
    &&& n.delta_y == d.delta_y
    &&& n.right_bbox == d.right_bbox
    &&& n.left_bbox == d.left_bbox
    &&& child_assembled(n.right_child, d.right_child)
    &&& child_assembled(n.left_child, d.left_child)
}

/// Whether `l` is the assembled form of the raw record arrays `data`: same
/// vertexes, things and sectors, and every other record rewritten
/// reference-for-reference.
pub open spec fn level_assembled(l: Level, data: LevelData) -> bool {
    &&& l.vertexes@ == data.vertexes@
    &&& l.things@ == data.things@
    &&& l.sectors@ == data.sectors@
    &&& l.sidedefs@.len() == data.sidedefs@.len()
    &&& forall|i: int|
        0 <= i < data.sidedefs@.len() ==> sidedef_assembled(
            #[trigger] l.sidedefs@[i],
            data.sidedefs@[i],
        )
    &&& l.linedefs@.len() == data.linedefs@.len()
    &&& forall|i: int|
        0 <= i < data.linedefs@.len() ==> linedef_assembled(
            #[trigger] l.linedefs@[i],
            data.linedefs@[i],
        )
    &&& l.segments@.len() == data.segs@.len()
    &&& forall|i: int|
        0 <= i < data.segs@.len() ==> segment_assembled(#[trigger] l.segments@[i], data.segs@[i])
    &&& l.subsectors@.len() == data.subsectors@.len()
    &&& forall|i: int|
        0 <= i < data.subsectors@.len() ==> subsector_assembled(
            #[trigger] l.subsectors@[i],
            data.subsectors@[i],
        )
    &&& l.nodes@.len() == data.nodes@.len()
    &&& forall|i: int|
        0 <= i < data.nodes@.len() ==> node_assembled(#[trigger] l.nodes@[i], data.nodes@[i])
    &&& l.root_node == l.nodes@.len() - 1
}


impl Level {
    /// Assembles a level from one map's raw record arrays: copies sectors,
    /// vertexes and things, rewrites every stored index into a checked
    /// reference (the sidedef sentinel 65535 becomes "none"), and rebuilds
    /// the node tree over the checked arrays, preserving its shape. Fails
    /// with a cross-reference error exactly when some stored index does not
    /// resolve.
    pub fn new(data: &LevelData) -> (r: Result<Level, WadError>)
        ensures
            r is Ok <==> assemblable(*data),
            r is Ok ==> level_assembled(r->Ok_0, *data),
            r is Ok ==> r->Ok_0.wf(),
            r is Err ==> r == Err::<Level, WadError>(WadError::BadReference),
    {
        let mut sectors: Vec<Sector> = Vec::new();
        let mut i: usize = 0;
        while i < data.sectors.len()
            invariant
                0 <= i <= data.sectors@.len(),
                sectors@.len() == i,
                forall|k: int| 0 <= k < i ==> (#[trigger] sectors@[k]) == data.sectors@[k],
            decreases data.sectors@.len() - i,
        {
            sectors.push(data.sectors[i].clone());
            i += 1;
        }
        proof {
            assert(sectors@ =~= data.sectors@);
        }

        let mut vertexes: Vec<Vertex> = Vec::new();
        let mut i: usize = 0;
        while i < data.vertexes.len()
            invariant
                0 <= i <= data.vertexes@.len(),
                vertexes@.len() == i,
                forall|k: int| 0 <= k < i ==> (#[trigger] vertexes@[k]) == data.vertexes@[k],
            decreases data.vertexes@.len() - i,
        {
            vertexes.push(data.vertexes[i]);
            i += 1;
        }
        proof {
            assert(vertexes@ =~= data.vertexes@);
        }

        let mut things: Vec<Thing> = Vec::new();
        let mut i: usize = 0;
        while i < data.things.len()
            invariant
                0 <= i <= data.things@.len(),
                things@.len() == i,
                forall|k: int| 0 <= k < i ==> (#[trigger] things@[k]) == data.things@[k],
            decreases data.things@.len() - i,
        {
            things.push(data.things[i]);
            i += 1;
        }
        proof {
            assert(things@ =~= data.things@);
        }

        let mut sidedefs: Vec<Sidedef> = Vec::new();
        let mut i: usize = 0;
        while i < data.sidedefs.len()
            invariant
                0 <= i <= data.sidedefs@.len(),
                sidedefs@.len() == i,
                forall|k: int|
                    0 <= k < i ==> sidedef_assembled(#[trigger] sidedefs@[k], data.sidedefs@[k]),
                forall|k: int|
                    0 <= k < i ==> (#[trigger] data.sidedefs@[k]).sector < data.sectors@.len(),
            decreases data.sidedefs@.len() - i,
        {
            let d = &data.sidedefs[i];
            if d.sector >= data.sectors.len() {
                return Err(WadError::BadReference);
            }
            sidedefs.push(
                Sidedef::new(
                    d.x_off,
                    d.y_off,
                    d.upper_tex.clone(),
                    d.lower_tex.clone(),
                    d.middle_tex.clone(),
                    d.sector,
                ),
            );
            i += 1;
        }

        let mut linedefs: Vec<Linedef> = Vec::new();
        let mut i: usize = 0;
        while i < data.linedefs.len()
            invariant
                0 <= i <= data.linedefs@.len(),
                linedefs@.len() == i,
                sidedefs@.len() == data.sidedefs@.len(),
                vertexes@.len() == data.vertexes@.len(),
                forall|k: int|
                    0 <= k < i ==> linedef_assembled(#[trigger] linedefs@[k], data.linedefs@[k]),
                forall|k: int|
                    0 <= k < i ==> {
                        let l = #[trigger] data.linedefs@[k];
                        &&& l.start_vert < data.vertexes@.len()
                        &&& l.end_vert < data.vertexes@.len()
                        &&& (l.right_sidedef < data.sidedefs@.len() || l.right_sidedef >= 65535)
                        &&& (l.left_sidedef < data.sidedefs@.len() || l.left_sidedef >= 65535)
                    },
            decreases data.linedefs@.len() - i,
        {
            let d = &data.linedefs[i];
            if d.start_vert >= vertexes.len() || d.end_vert >= vertexes.len() {
                return Err(WadError::BadReference);
            }
            let right_sidedef = if d.right_sidedef >= 65535 {
                None
            } else if d.right_sidedef < sidedefs.len() {
                Some(d.right_sidedef)
            } else {
                return Err(WadError::BadReference);
            };
            let left_sidedef = if d.left_sidedef >= 65535 {
                None
            } else if d.left_sidedef < sidedefs.len() {
                Some(d.left_sidedef)
            } else {
                return Err(WadError::BadReference);
            };
            linedefs.push(
                Linedef::new(
                    d.start_vert,
                    d.end_vert,
                    d.flags,
                    d.special_type,
                    d.sector_tag,
                    right_sidedef,
                    left_sidedef,
                ),
            );
            i += 1;
        }

        let mut segments: Vec<Segment> = Vec::new();
        let mut i: usize = 0;
        while i < data.segs.len()
            invariant
                0 <= i <= data.segs@.len(),
                segments@.len() == i,
                linedefs@.len() == data.linedefs@.len(),
                vertexes@.len() == data.vertexes@.len(),
                forall|k: int|
                    0 <= k < i ==> segment_assembled(#[trigger] segments@[k], data.segs@[k]),
                forall|k: int|
                    0 <= k < i ==> {
                        let sg = #[trigger] data.segs@[k];
                        &&& sg.start_vert < data.vertexes@.len()
                        &&& sg.end_vert < data.vertexes@.len()
                        &&& sg.linedef < data.linedefs@.len()
                    },
            decreases data.segs@.len() - i,
        {
            let d = &data.segs[i];
            if d.start_vert >= vertexes.len() || d.end_vert >= vertexes.len() || d.linedef
                >= linedefs.len() {
                return Err(WadError::BadReference);
            }
            segments.push(
                Segment::new(
                    d.start_vert,
                    d.end_vert,
                    d.angle,
                    d.linedef,
                    d.dir_like_linedef,
                    d.offset,
                ),
            );
            i += 1;
        }

        let mut subsectors: Vec<SubSector> = Vec::new();
        let mut i: usize = 0;
        while i < data.subsectors.len()
            invariant
                0 <= i <= data.subsectors@.len(),
                subsectors@.len() == i,
                segments@.len() == data.segs@.len(),
                forall|k: int|
                    0 <= k < i ==> subsector_assembled(#[trigger] subsectors@[k], data.subsectors@[k]),
                forall|k: int|
                    0 <= k < i ==> (#[trigger] data.subsectors@[k]).first_segment
                        + data.subsectors@[k].segment_count <= data.segs@.len(),
            decreases data.subsectors@.len() - i,
        {
            let d = &data.subsectors[i];
            if d.segment_count > segments.len() || d.first_segment > segments.len()
                - d.segment_count {
                return Err(WadError::BadReference);
            }
            subsectors.push(SubSector { segment_count: d.segment_count, first_segment: d.first_segment });
            i += 1;
        }

        if data.nodes.len() == 0 {
            return Err(WadError::BadReference);
        }
        let mut nodes: Vec<Node> = Vec::new();
        let mut i: usize = 0;
        while i < data.nodes.len()
            invariant
                0 <= i <= data.nodes@.len(),
                nodes@.len() == i,
                subsectors@.len() == data.subsectors@.len(),
                forall|k: int| 0 <= k < i ==> node_assembled(#[trigger] nodes@[k], data.nodes@[k]),
                forall|k: int|
                    0 <= k < i ==> wad::node_child_ok(
                        (#[trigger] data.nodes@[k]).right_child,
                        k,
                        data.subsectors@.len() as int,
                    ),
                forall|k: int|
                    0 <= k < i ==> wad::node_child_ok(
                        (#[trigger] data.nodes@[k]).left_child,
                        k,
                        data.subsectors@.len() as int,
                    ),
            decreases data.nodes@.len() - i,
        {
            let d = &data.nodes[i];
            let right_child = match d.right_child {
                ChildIdx::Node(j) => {
                    if j < 0 || j as usize >= i {
                        return Err(WadError::BadReference);
                    }
                    Child::NODE(j as usize)
                },
                ChildIdx::Subsector(t) => {
                    if t < 0 || t as usize >= subsectors.len() {
                        return Err(WadError::BadReference);
                    }
                    Child::SUBSECTOR(t as usize)
                },
            };
            let left_child = match d.left_child {
                ChildIdx::Node(j) => {
                    if j < 0 || j as usize >= i {
                        return Err(WadError::BadReference);
                    }
                    Child::NODE(j as usize)
                },
                ChildIdx::Subsector(t) => {
                    if t < 0 || t as usize >= subsectors.len() {
                        return Err(WadError::BadReference);
                    }
                    Child::SUBSECTOR(t as usize)
                },
            };
            nodes.push(
                Node {
                    partition_x: d.partition_x,
                    partition_y: d.partition_y,
                    delta_x: d.delta_x,
                    delta_y: d.delta_y,
                    right_bbox: d.right_bbox,
                    left_bbox: d.left_bbox,
                    right_child,
                    left_child,
                },
            );
            i += 1;
        }
        let root_node = nodes.len() - 1;
        Ok(
            Level {
                vertexes,
                things,
                sectors,
                sidedefs,
                linedefs,
                segments,
                subsectors,
                nodes,
                root_node,
            },
        )
    }
}


/// Whether the point lies on the "behind" side of a node's partition line.
/// A vertical partition compares the x coordinate against the line (the
/// direction's sign picks the side); a horizontal one compares y; a general
/// partition uses the sign of the 2D cross product of the partition
/// direction with the vector from the partition origin to the point.
pub open spec fn point_behind(n: Node, x: int, y: int) -> bool {
    if n.delta_x == 0 {
        if x <= n.partition_x {
            n.delta_y > 0
        } else {
            n.delta_y < 0
        }
    } else if n.delta_y == 0 {
        if y <= n.partition_y {
            n.delta_x < 0
        } else {
            n.delta_x > 0
        }
    } else {
        n.delta_x * (y - n.partition_y) > n.delta_y * (x - n.partition_x)
    }
}

impl Node {
    /// Evaluates the side-of-line test. The cross product is taken in 64-bit
    /// arithmetic, wide enough that 16-bit coordinates can never overflow it.
    pub fn is_point_behind(&self, x: i16, y: i16) -> (r: bool)
        ensures
            r == point_behind(*self, x as int, y as int),
    {
        if self.delta_x == 0 {
            if x <= self.partition_x {
                return self.delta_y > 0;
            } else {
                return self.delta_y < 0;
            }
        }
        if self.delta_y == 0 {
            if y <= self.partition_y {
                return self.delta_x < 0;
            } else {
                return self.delta_x > 0;
            }
        }
        let lhs_a = self.delta_x as i64;
        let lhs_b = y as i64 - self.partition_y as i64;
        let rhs_a = self.delta_y as i64;
        let rhs_b = x as i64 - self.partition_x as i64;
        proof {
            assert(lhs_a * lhs_b <= 0x8000 * 0x10000 && lhs_a * lhs_b >= -0x8000 * 0x10000
                && rhs_a * rhs_b <= 0x8000 * 0x10000 && rhs_a * rhs_b >= -0x8000 * 0x10000)
                by (nonlinear_arith)
                requires
                    -0x8000 <= lhs_a <= 0x7fff,
                    -0x10000 <= lhs_b <= 0x10000,
                    -0x8000 <= rhs_a <= 0x7fff,
                    -0x10000 <= rhs_b <= 0x10000,
            ;
        }
        lhs_a * lhs_b > rhs_a * rhs_b
    }
}

/// The subsector reached by descending the tree from node `n`: at each node
/// the point's side of the partition picks the child (behind picks the left
/// one), until a leaf is reached.
pub open spec fn locate_from(l: Level, n: int, x: int, y: int) -> int
    decreases n,
{
    let node = l.nodes@[n];
    let c = if point_behind(node, x, y) {
        node.left_child
    } else {
        node.right_child
    };
    match c {
        Child::NODE(j) => {
            if 0 <= j < n {
                locate_from(l, j as int, x, y)
            } else {
                0
            }
        },
        Child::SUBSECTOR(s) => s as int,
    }
}

/// Point location terminates on every well-formed level and always lands on
/// a leaf inside the subsector array, for any integer coordinate pair.
pub proof fn lemma_locate_in_range(l: Level, n: int, x: int, y: int)
    requires
        l.wf(),
        0 <= n < l.nodes@.len(),
    ensures
        0 <= locate_from(l, n, x, y) < l.subsectors@.len(),
    decreases n,
{
    let node = l.nodes@[n];
    let c = if point_behind(node, x, y) {
        node.left_child
    } else {
        node.right_child
    };
    match c {
        Child::NODE(j) => {
            lemma_locate_in_range(l, j as int, x, y);
        },
        Child::SUBSECTOR(s) => {},
    }
}

impl Level {
    /// Finds the convex leaf region containing the point, descending from
    /// the root in time proportional to the tree depth.
    pub fn locate(&self, x: i16, y: i16) -> (r: usize)
        requires
            self.wf(),
        ensures
            r == locate_from(*self, self.root_node as int, x as int, y as int),
            r < self.subsectors@.len(),
    {
        let mut cur: usize = self.root_node;
        loop
            invariant
                self.wf(),
                cur < self.nodes@.len(),
                locate_from(*self, cur as int, x as int, y as int) == locate_from(
                    *self,
                    self.root_node as int,
                    x as int,
                    y as int,
                ),
            decreases cur,
        {
            let node = &self.nodes[cur];
            let behind = node.is_point_behind(x, y);
            let child = if behind {
                node.left_child
            } else {
                node.right_child
            };
            match child {
                Child::NODE(j) => {
                    cur = j;
                },
                Child::SUBSECTOR(s) => {
                    return s;
                },
            }
        }
    }
}

/// The node or leaf reached after at most `levels` descent steps from node
/// `n`: each step picks a child by the point's side of the partition, and
/// the walk stops early at a leaf.
pub open spec fn locate_partial_from(l: Level, n: int, x: int, y: int, levels: int) -> Child
    decreases levels,
{
    let node = l.nodes@[n];
    let c = if point_behind(node, x, y) {
        node.left_child
    } else {
        node.right_child
    };
    if levels <= 1 {
        c
    } else {
        match c {
            Child::NODE(j) => {
                if 0 <= j < n {
                    locate_partial_from(l, j as int, x, y, levels - 1)
                } else {
                    c
                }
            },
            Child::SUBSECTOR(s) => c,
        }
    }
}

impl Level {
    /// Descends the tree like `locate` but stops after `levels` steps,
    /// returning whichever node or leaf was reached, for visualizing the
    /// partition hierarchy. Zero levels returns the root itself without
    /// descending.
    pub fn find_partial(&self, x: i16, y: i16, levels: u32) -> (r: Child)
        requires
            self.wf(),
        ensures
            levels == 0 ==> r == Child::NODE(self.root_node),
            levels > 0 ==> r == locate_partial_from(
                *self,
                self.root_node as int,
                x as int,
                y as int,
                levels as int,
            ),
            match r {
                Child::NODE(j) => j < self.nodes@.len(),
                Child::SUBSECTOR(s) => s < self.subsectors@.len(),
            },
    {
        if levels == 0 {
            return Child::NODE(self.root_node);
        }
        let mut cur: usize = self.root_node;
        let mut remaining: u32 = levels;
        loop
            invariant
                self.wf(),
                levels > 0,
                cur < self.nodes@.len(),
                remaining >= 1,
                locate_partial_from(*self, cur as int, x as int, y as int, remaining as int)
                    == locate_partial_from(
                    *self,
                    self.root_node as int,
                    x as int,
                    y as int,
                    levels as int,
                ),
            decreases remaining,
        {
            let node = &self.nodes[cur];
            let behind = node.is_point_behind(x, y);
            let child = if behind {
                node.left_child
            } else {
                node.right_child
            };
            if remaining == 1 {
                return child;
            }
            match child {
                Child::NODE(j) => {
                    cur = j;
                    remaining = remaining - 1;
                },
                Child::SUBSECTOR(s) => {
                    return child;
                },
            }
        }
    }
}

/// Side-of-line consistency for vertical partitions: with no x direction and
/// an upward y direction, a point is behind the partition exactly when it
/// lies at or left of the partition line, whatever its y coordinate.
pub proof fn lemma_vertical_partition_side(n: Node, x: int, y: int)
    requires
        n.delta_x == 0,
        n.delta_y > 0,
    ensures
        point_behind(n, x, y) <==> x <= n.partition_x,
{
}


/// Assembly referential integrity: in a well-formed level every resolved
/// sidedef reference of a linedef lands in the sidedef array and that
/// sidedef's owning sector lands in the sector array, and every segment's
/// linedef reference lands in the linedef array.
pub proof fn lemma_assembly_referential_integrity(l: Level)
    requires
        l.wf(),
    ensures
        forall|i: int|
            0 <= i < l.linedefs@.len() && (#[trigger] l.linedefs@[i]).right_sidedef is Some
                ==> l.linedefs@[i].right_sidedef->0 < l.sidedefs@.len()
                && l.sidedefs@[l.linedefs@[i].right_sidedef->0 as int].sector
                < l.sectors@.len(),
        forall|i: int|
            0 <= i < l.linedefs@.len() && (#[trigger] l.linedefs@[i]).left_sidedef is Some
                ==> l.linedefs@[i].left_sidedef->0 < l.sidedefs@.len()
                && l.sidedefs@[l.linedefs@[i].left_sidedef->0 as int].sector < l.sectors@.len(),
        forall|i: int|
            0 <= i < l.segments@.len() ==> (#[trigger] l.segments@[i]).linedef
                < l.linedefs@.len(),
{
}

/// The least and greatest coordinates over a level's vertex array, as
/// (least x, least y, greatest x, greatest y). An empty array yields the
/// extreme starting values, greatest below least.
pub fn find_bounds(vertexes: &Vec<Vertex>) -> (r: (i16, i16, i16, i16))
    ensures
        forall|i: int|
            0 <= i < vertexes@.len() ==> r.0 <= (#[trigger] vertexes@[i]).x <= r.2 && r.1
                <= vertexes@[i].y <= r.3,
        vertexes@.len() > 0 ==> (exists|i: int|
            0 <= i < vertexes@.len() && (#[trigger] vertexes@[i]).x == r.0) && (exists|i: int|
            0 <= i < vertexes@.len() && (#[trigger] vertexes@[i]).y == r.1) && (exists|i: int|
            0 <= i < vertexes@.len() && (#[trigger] vertexes@[i]).x == r.2) && (exists|i: int|
            0 <= i < vertexes@.len() && (#[trigger] vertexes@[i]).y == r.3),
        vertexes@.len() == 0 ==> r == (i16::MAX, i16::MAX, i16::MIN, i16::MIN),
{
    let mut min_x = i16::MAX;
    let mut max_x = i16::MIN;
    let mut min_y = i16::MAX;
    let mut max_y = i16::MIN;
    let mut i: usize = 0;
    while i < vertexes.len()
        invariant
            0 <= i <= vertexes@.len(),
            forall|k: int|
                0 <= k < i ==> min_x <= (#[trigger] vertexes@[k]).x <= max_x && min_y
                    <= vertexes@[k].y <= max_y,
            i > 0 ==> (exists|k: int| 0 <= k < i && (#[trigger] vertexes@[k]).x == min_x) && (
            exists|k: int| 0 <= k < i && (#[trigger] vertexes@[k]).y == min_y) && (exists|k: int|
                0 <= k < i && (#[trigger] vertexes@[k]).x == max_x) && (exists|k: int|
                0 <= k < i && (#[trigger] vertexes@[k]).y == max_y),
            i == 0 ==> min_x == i16::MAX && min_y == i16::MAX && max_x == i16::MIN && max_y
                == i16::MIN,
        decreases vertexes@.len() - i,
    {
        let v = vertexes[i];
        if v.x < min_x {
            min_x = v.x;
        }
        if v.x > max_x {
            max_x = v.x;
        }
        if v.y < min_y {
            min_y = v.y;
        }
        if v.y > max_y {
            max_y = v.y;
        }
        i += 1;
    }
    (min_x, min_y, max_x, max_y)
}

/// Finds the first thing with the player-start type code. A map without one
/// cannot be viewed interactively, which is surfaced as its own error.
pub fn find_player_start(things: &Vec<Thing>) -> (r: Result<usize, WadError>)
    ensures
        r is Ok <==> exists|i: int|
            0 <= i < things@.len() && (#[trigger] things@[i]).thing_type == 1,
        r is Ok ==> {
            let i = r->Ok_0 as int;
            &&& 0 <= i < things@.len()
            &&& things@[i].thing_type == 1
            &&& forall|j: int| 0 <= j < i ==> (#[trigger] things@[j]).thing_type != 1
        },
        r is Err ==> r == Err::<usize, WadError>(WadError::NoPlayerStart),
{
    let mut i: usize = 0;
    while i < things.len()
        invariant
            0 <= i <= things@.len(),
            forall|j: int| 0 <= j < i ==> (#[trigger] things@[j]).thing_type != 1,
        decreases things@.len() - i,
    {
        if things[i].thing_type == 1 {
            return Ok(i);
        }
        i += 1;
    }
    Err(WadError::NoPlayerStart)
}

} // verus!
