use minecrust::geometry::aap::{signs_differ, Axis};
use minecrust::octree::{
    child_index, direction_mask, first_node, next_node, octant_index, partition_entities,
    uses_upper_half, NodeOctantIndex, Placement, TERMINAL_NODE_MAX_SIZE,
};
use minecrust::types::Sign;

// ---------------------------------------------------------------------------
// Floating-point scaffolding: the ray parameters of a box, as the traversal
// computes them, and unit cubes with their bounding boxes.
// ---------------------------------------------------------------------------

#[derive(Clone, Copy)]
struct V3 {
    x: f32,
    y: f32,
    z: f32,
}

fn v3(x: f32, y: f32, z: f32) -> V3 {
    V3 { x, y, z }
}

fn normalize(v: V3) -> V3 {
    let n = (v.x * v.x + v.y * v.y + v.z * v.z).sqrt();
    v3(v.x / n, v.y / n, v.z / n)
}

struct RayIntersectionParams {
    a: usize,
    tx0: f32,
    ty0: f32,
    tz0: f32,
    txm: f32,
    tym: f32,
    tzm: f32,
}

fn entry_param(min: f32, o: f32, d: f32) -> f32 {
    if d != 0.0 {
        (min - o) / d
    } else if min - o <= 0.0 {
        f32::NEG_INFINITY
    } else {
        f32::INFINITY
    }
}

fn exit_param(max: f32, o: f32, d: f32) -> f32 {
    if d != 0.0 {
        (max - o) / d
    } else if max - o < 0.0 {
        f32::NEG_INFINITY
    } else {
        f32::INFINITY
    }
}

fn mid_param(t0: f32, t1: f32, o: f32, min: f32, max: f32) -> f32 {
    let tm = 0.5 * (t0 + t1);
    if tm.is_nan() {
        if o < (min + max) / 2.0 {
            f32::INFINITY
        } else {
            f32::NEG_INFINITY
        }
    } else {
        tm
    }
}

/// The parameters of the ray `origin + t * dir` for the box `[min, max]`, on
/// the mirrored ray (the "centre" that mirrors the origin is taken as
/// `max - min`).
fn ray_intersection_params(origin: V3, dir: V3, min: V3, max: V3) -> RayIntersectionParams {
    let dir = normalize(dir);
    let (mut ox, mut oy, mut oz) = (origin.x, origin.y, origin.z);
    let (mut dx, mut dy, mut dz) = (dir.x, dir.y, dir.z);
    let center = v3(max.x - min.x, max.y - min.y, max.z - min.z);
    if dir.x < 0.0 {
        ox = center.x - origin.x;
        dx = -dir.x;
    }
    if dir.y < 0.0 {
        oy = center.y - origin.y;
        dy = -dir.y;
    }
    if dir.z < 0.0 {
        oz = center.z - origin.z;
        dz = -dir.z;
    }
    let a = direction_mask(dir.x < 0.0, dir.y < 0.0, dir.z < 0.0);
    let (tx0, ty0, tz0) = (entry_param(min.x, ox, dx), entry_param(min.y, oy, dy), entry_param(min.z, oz, dz));
    let (tx1, ty1, tz1) = (exit_param(max.x, ox, dx), exit_param(max.y, oy, dy), exit_param(max.z, oz, dz));
    RayIntersectionParams {
        a,
        tx0,
        ty0,
        tz0,
        txm: mid_param(tx0, tx1, origin.x, min.x, max.x),
        tym: mid_param(ty0, ty1, origin.y, min.y, max.y),
        tzm: mid_param(tz0, tz1, origin.z, min.z, max.z),
    }
}

/// Index of the largest value, the last one on ties.
fn max_index(fs: &[f32]) -> usize {
    fs.iter()
        .enumerate()
        .max_by(|(_, a), (_, b)| a.partial_cmp(b).unwrap())
        .unwrap()
        .0
}

/// The first child entered, from the entry and middle parameters.
fn first_node_of(p: &RayIntersectionParams) -> usize {
    let t0 = [p.tx0, p.ty0, p.tz0];
    let entry_idx = max_index(&t0);
    let entry = [Axis::X, Axis::Y, Axis::Z][entry_idx];
    let t_entry = t0[entry_idx];
    first_node(entry, p.txm < t_entry, p.tym < t_entry, p.tzm < t_entry)
}

fn unit_box() -> (V3, V3) {
    (v3(-1.0, -1.0, -1.0), v3(1.0, 1.0, 1.0))
}

fn check_first_node(origin: V3, dir: V3, expected: usize) {
    let (min, max) = unit_box();
    let params = ray_intersection_params(origin, dir, min, max);
    let node = first_node_of(&params);
    assert_eq!(node ^ params.a, expected);
}

#[test]
fn test_first_node_x() {
    // positive x
    check_first_node(v3(-10.0, -0.5, -0.5), v3(1.0, 0.0, 0.0), 0);
    check_first_node(v3(-10.0, -0.5, 0.5), v3(1.0, 0.0, 0.0), 1);
    check_first_node(v3(-10.0, 0.5, -0.5), v3(1.0, 0.0, 0.0), 2);
    check_first_node(v3(-10.0, 0.5, 0.5), v3(1.0, 0.0, 0.0), 3);
    // negative x
    check_first_node(v3(10.0, -0.5, -0.5), v3(-1.0, 0.0, 0.0), 4);
    check_first_node(v3(10.0, -0.5, 0.5), v3(-1.0, 0.0, 0.0), 5);
    check_first_node(v3(10.0, 0.5, -0.5), v3(-1.0, 0.0, 0.0), 6);
    check_first_node(v3(10.0, 0.5, 0.5), v3(-1.0, 0.0, 0.0), 7);
}

#[test]
fn test_first_node_y() {
    // positive y
    check_first_node(v3(-0.5, -10.0, -0.5), v3(0.0, 1.0, 0.0), 0);
    check_first_node(v3(-0.5, -10.0, 0.5), v3(0.0, 1.0, 0.0), 1);
    check_first_node(v3(0.5, -10.0, -0.5), v3(0.0, 1.0, 0.0), 4);
    check_first_node(v3(0.5, -10.0, 0.5), v3(0.0, 1.0, 0.0), 5);
    // negative y
    check_first_node(v3(-0.5, 10.0, -0.5), v3(0.0, -1.0, 0.0), 2);
    check_first_node(v3(-0.5, 10.0, 0.5), v3(0.0, -1.0, 0.0), 3);
    check_first_node(v3(0.5, 10.0, -0.5), v3(0.0, -1.0, 0.0), 6);
    check_first_node(v3(0.5, 10.0, 0.5), v3(0.0, -1.0, 0.0), 7);
}

#[test]
fn test_first_node_z() {
    // positive z
    check_first_node(v3(-0.5, -0.5, -10.0), v3(0.0, 0.0, 1.0), 0);
    check_first_node(v3(-0.5, 0.5, -10.0), v3(0.0, 0.0, 1.0), 2);
    check_first_node(v3(0.5, -0.5, -10.0), v3(0.0, 0.0, 1.0), 4);
    check_first_node(v3(0.5, 0.5, -10.0), v3(0.0, 0.0, 1.0), 6);
    // negative z
    check_first_node(v3(-0.5, -0.5, 10.0), v3(0.0, 0.0, -1.0), 1);
    check_first_node(v3(-0.5, 0.5, 10.0), v3(0.0, 0.0, -1.0), 3);
    check_first_node(v3(0.5, -0.5, 10.0), v3(0.0, 0.0, -1.0), 5);
    check_first_node(v3(0.5, 0.5, 10.0), v3(0.0, 0.0, -1.0), 7);
}

/// A unit cube: its position and its bounding box.
struct Cube {
    id: u32,
    pos: V3,
}

fn cube_min_max(c: &Cube) -> (V3, V3) {
    (
        v3(c.pos.x - 0.5, c.pos.y - 0.5, c.pos.z - 0.5),
        v3(c.pos.x + 0.5, c.pos.y + 0.5, c.pos.z + 0.5),
    )
}

/// The six corners the box uses for plane tests.
fn box_points(min: V3, max: V3) -> Vec<V3> {
    vec![
        min,
        v3(min.x, min.y, max.z),
        v3(min.x, max.y, min.z),
        v3(min.x, max.y, max.z),
        v3(max.x, min.y, min.z),
        max,
    ]
}

fn sign(f: f32) -> Sign {
    if f == 0.0 {
        Sign::Zero
    } else if f > 0.0 {
        Sign::Positive
    } else {
        Sign::Negative
    }
}

fn plane_cuts(points: &[V3], coord: fn(&V3) -> f32, intercept: f32) -> bool {
    let signs: Vec<Sign> = points.iter().map(|p| sign(coord(p) - intercept)).collect();
    signs_differ(&signs)
}

fn placement(c: &Cube, point: V3) -> Placement {
    let (min, max) = cube_min_max(c);
    let pts = box_points(min, max);
    if plane_cuts(&pts, |p| p.x, point.x)
        || plane_cuts(&pts, |p| p.y, point.y)
        || plane_cuts(&pts, |p| p.z, point.z)
    {
        Placement::Straddles
    } else {
        let (cx, cy, cz) = (c.pos.x - point.x, c.pos.y - point.y, c.pos.z - point.z);
        Placement::Octant(octant_index(cx >= 0.0, cy >= 0.0, cz >= 0.0))
    }
}

fn split(cubes: &[Cube], point: V3) -> (Vec<u32>, minecrust::types::Octants<Vec<u32>>) {
    let ids: Vec<u32> = cubes.iter().map(|c| c.id).collect();
    let placements: Vec<Placement> = cubes.iter().map(|c| placement(c, point)).collect();
    partition_entities(&ids, &placements)
}

fn pos_of(cubes: &[Cube], id: u32) -> V3 {
    cubes.iter().find(|c| c.id == id).unwrap().pos
}

fn almost_eq(a: V3, b: V3) -> bool {
    (a.x - b.x).abs() <= 1.0e-6 && (a.y - b.y).abs() <= 1.0e-6 && (a.z - b.z).abs() <= 1.0e-6
}

#[test]
fn test_partition_entities1() {
    let positions = [
        (1.0, 1.0, 1.0),
        (1.0, 1.0, -1.0),
        (1.0, -1.0, 1.0),
        (1.0, -1.0, -1.0),
        (-1.0, 1.0, 1.0),
        (-1.0, 1.0, -1.0),
        (-1.0, -1.0, 1.0),
        (-1.0, -1.0, -1.0),
    ];
    let cubes: Vec<Cube> = positions
        .iter()
        .enumerate()
        .map(|(i, &(x, y, z))| Cube { id: i as u32, pos: v3(x, y, z) })
        .collect();
    let (node_entities, partition) = split(&cubes, v3(0.0, 0.0, 0.0));
    assert!(almost_eq(pos_of(&cubes, partition.tfr[0]), v3(1.0, 1.0, 1.0)));
    assert!(almost_eq(pos_of(&cubes, partition.tfl[0]), v3(-1.0, 1.0, 1.0)));
    assert!(almost_eq(pos_of(&cubes, partition.tbr[0]), v3(1.0, 1.0, -1.0)));
    assert!(almost_eq(pos_of(&cubes, partition.tbl[0]), v3(-1.0, 1.0, -1.0)));
    assert!(almost_eq(pos_of(&cubes, partition.bfr[0]), v3(1.0, -1.0, 1.0)));
    assert!(almost_eq(pos_of(&cubes, partition.bfl[0]), v3(-1.0, -1.0, 1.0)));
    assert!(almost_eq(pos_of(&cubes, partition.bbr[0]), v3(1.0, -1.0, -1.0)));
    assert!(almost_eq(pos_of(&cubes, partition.bbl[0]), v3(-1.0, -1.0, -1.0)));
    assert!(node_entities.is_empty());
}

#[test]
fn test_partition_entities2() {
    let mut cubes = vec![];
    let mut id = 0;
    for x in -1..=1 {
        for y in -1..=1 {
            for z in -1..=1 {
                cubes.push(Cube { id, pos: v3(x as f32, y as f32, z as f32) });
                id += 1;
            }
        }
    }
    let (node_entities, partition) = split(&cubes, v3(0.0, 0.0, 0.0));
    for i in -1..=1 {
        let i = i as f32;
        assert!(node_entities.iter().any(|&e| almost_eq(pos_of(&cubes, e), v3(i, 0.0, 0.0))));
        assert!(node_entities.iter().any(|&e| almost_eq(pos_of(&cubes, e), v3(0.0, i, 0.0))));
        assert!(node_entities.iter().any(|&e| almost_eq(pos_of(&cubes, e), v3(0.0, 0.0, i))));
    }
    assert_eq!(node_entities.len(), 19);

    assert_eq!(partition.tfl.len(), 1);
    assert!(almost_eq(pos_of(&cubes, partition.tfl[0]), v3(-1.0, 1.0, 1.0)));
    assert_eq!(partition.tfr.len(), 1);
    assert!(almost_eq(pos_of(&cubes, partition.tfr[0]), v3(1.0, 1.0, 1.0)));
    assert_eq!(partition.tbl.len(), 1);
    assert!(almost_eq(pos_of(&cubes, partition.tbl[0]), v3(-1.0, 1.0, -1.0)));
    assert_eq!(partition.tbr.len(), 1);
    assert!(almost_eq(pos_of(&cubes, partition.tbr[0]), v3(1.0, 1.0, -1.0)));
    assert_eq!(partition.bfl.len(), 1);
    assert!(almost_eq(pos_of(&cubes, partition.bfl[0]), v3(-1.0, -1.0, 1.0)));
    assert_eq!(partition.bfr.len(), 1);
    assert!(almost_eq(pos_of(&cubes, partition.bfr[0]), v3(1.0, -1.0, 1.0)));
    assert_eq!(partition.bbl.len(), 1);
    assert!(almost_eq(pos_of(&cubes, partition.bbl[0]), v3(-1.0, -1.0, -1.0)));
    assert_eq!(partition.bbr.len(), 1);
    assert!(almost_eq(pos_of(&cubes, partition.bbr[0]), v3(1.0, -1.0, -1.0)));
}

// ---------------------------------------------------------------------------
// Further cases.
// ---------------------------------------------------------------------------

#[test]
fn octant_index_covers_all_children() {
    assert_eq!(octant_index(true, true, true), NodeOctantIndex::Tfr);
    assert_eq!(octant_index(true, true, false), NodeOctantIndex::Tbr);
    assert_eq!(octant_index(true, false, true), NodeOctantIndex::Bfr);
    assert_eq!(octant_index(true, false, false), NodeOctantIndex::Bbr);
    assert_eq!(octant_index(false, true, true), NodeOctantIndex::Tfl);
    assert_eq!(octant_index(false, true, false), NodeOctantIndex::Tbl);
    assert_eq!(octant_index(false, false, true), NodeOctantIndex::Bfl);
    assert_eq!(octant_index(false, false, false), NodeOctantIndex::Bbl);
    for (right, top, front) in [
        (false, false, false),
        (false, false, true),
        (false, true, false),
        (false, true, true),
        (true, false, false),
        (true, false, true),
        (true, true, false),
        (true, true, true),
    ] {
        let n = octant_index(right, top, front).to_usize();
        assert_eq!(n, 4 * right as usize + 2 * top as usize + front as usize);
    }
}

#[test]
fn partition_keeps_order_and_every_entity() {
    let ids = [10u32, 11, 12, 13, 14];
    let placements = [
        Placement::Octant(NodeOctantIndex::Bbl),
        Placement::Straddles,
        Placement::Octant(NodeOctantIndex::Tfr),
        Placement::Octant(NodeOctantIndex::Bbl),
        Placement::Straddles,
    ];
    let (node, octs) = partition_entities(&ids, &placements);
    assert_eq!(node, vec![11, 14]);
    assert_eq!(octs.bbl, vec![10, 13]);
    assert_eq!(octs.tfr, vec![12]);
    let mut total = node.len();
    for k in 0..8 {
        total += octs.index(k).len();
    }
    assert_eq!(total, ids.len());
    assert!(octs.tfl.is_empty() && octs.bfr.is_empty());
}

#[test]
fn partition_of_nothing_is_empty() {
    let (node, octs) = partition_entities::<u32>(&[], &[]);
    assert!(node.is_empty());
    for k in 0..8 {
        assert!(octs.index(k).is_empty());
    }
}

#[test]
fn next_node_follows_the_exit_plane() {
    // From child 0, leaving through x, y or z reaches 4, 2, 1.
    assert_eq!(next_node(0, Axis::X), 4);
    assert_eq!(next_node(0, Axis::Y), 2);
    assert_eq!(next_node(0, Axis::Z), 1);
    assert_eq!(next_node(1, Axis::X), 5);
    assert_eq!(next_node(1, Axis::Y), 3);
    assert_eq!(next_node(1, Axis::Z), 8);
    assert_eq!(next_node(2, Axis::X), 6);
    assert_eq!(next_node(2, Axis::Y), 8);
    assert_eq!(next_node(2, Axis::Z), 3);
    assert_eq!(next_node(3, Axis::X), 7);
    assert_eq!(next_node(3, Axis::Y), 8);
    assert_eq!(next_node(3, Axis::Z), 8);
    assert_eq!(next_node(4, Axis::X), 8);
    assert_eq!(next_node(4, Axis::Y), 6);
    assert_eq!(next_node(4, Axis::Z), 5);
    assert_eq!(next_node(5, Axis::Y), 7);
    assert_eq!(next_node(6, Axis::Z), 7);
    for axis in [Axis::X, Axis::Y, Axis::Z] {
        assert_eq!(next_node(7, axis), 8);
    }
}

#[test]
fn any_walk_leaves_after_four_children() {
    let axes = [Axis::X, Axis::Y, Axis::Z];
    for start in 0..8usize {
        for a in axes {
            for b in axes {
                for c in axes {
                    for d in axes {
                        let mut n = start;
                        for exit in [a, b, c, d] {
                            if n < 8 {
                                n = next_node(n, exit);
                            }
                        }
                        assert_eq!(n, 8);
                    }
                }
            }
        }
    }
}

#[test]
fn upper_half_follows_child_bits() {
    assert!(uses_upper_half(4, Axis::X));
    assert!(!uses_upper_half(4, Axis::Y));
    assert!(uses_upper_half(6, Axis::Y));
    assert!(uses_upper_half(1, Axis::Z));
    assert!(!uses_upper_half(6, Axis::Z));
}

#[test]
fn child_index_mirrors() {
    assert_eq!(child_index(0, 7), 7);
    assert_eq!(child_index(3, 5), 6);
    for n in 0..8 {
        for m in 0..8 {
            assert_eq!(child_index(child_index(n, m), m), n);
        }
    }
    assert_eq!(direction_mask(true, false, true), 5);
    assert_eq!(direction_mask(false, false, false), 0);
}

#[test]
fn first_node_ignores_the_entry_axis() {
    assert_eq!(first_node(Axis::X, true, true, true), 3);
    assert_eq!(first_node(Axis::Y, true, true, true), 5);
    assert_eq!(first_node(Axis::Z, true, true, true), 6);
    assert_eq!(first_node(Axis::Z, false, false, true), 0);
}

#[test]
fn terminal_node_size() {
    assert_eq!(TERMINAL_NODE_MAX_SIZE, 8);
}
