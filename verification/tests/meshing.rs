use mine64::algorithm::build_mesh;
use mine64::algorithm::BoundaryMask;
use mine64::algorithm::MeshData;
use mine64::algorithm::Neighborhood;
use mine64::block::Block;
use mine64::block::BlockKind;
use mine64::chunk::BlockGrid;

fn air_grid() -> BlockGrid {
    BlockGrid::filled(Block::air())
}

fn stone() -> Block {
    Block {
        kind: BlockKind::Stone,
    }
}

/// Counts emitted quads per face normal.
fn quads_by_normal(m: &MeshData) -> [usize; 6] {
    assert_eq!(m.vertices.len() % 4, 0);
    let mut counts = [0usize; 6];
    for q in m.vertices.chunks(4) {
        let n = &q[0].normal;
        for v in q {
            assert_eq!((v.normal.x, v.normal.y, v.normal.z), (n.x, n.y, n.z));
        }
        let slot = match (n.x, n.y, n.z) {
            (0, 0, 1) => 0,
            (0, 0, -1) => 1,
            (0, 1, 0) => 2,
            (0, -1, 0) => 3,
            (1, 0, 0) => 4,
            (-1, 0, 0) => 5,
            other => panic!("unexpected normal {:?}", other),
        };
        counts[slot] += 1;
    }
    counts
}

fn geometric_normals_point_outward(m: &MeshData) {
    for t in &m.triangles {
        let a = &m.vertices[t.a as usize];
        let b = &m.vertices[t.b as usize];
        let c = &m.vertices[t.c as usize];
        let e1 = (
            (b.position.x - a.position.x) as i64,
            (b.position.y - a.position.y) as i64,
            (b.position.z - a.position.z) as i64,
        );
        let e2 = (
            (c.position.x - a.position.x) as i64,
            (c.position.y - a.position.y) as i64,
            (c.position.z - a.position.z) as i64,
        );
        let n = (
            e1.1 * e2.2 - e1.2 * e2.1,
            e1.2 * e2.0 - e1.0 * e2.2,
            e1.0 * e2.1 - e1.1 * e2.0,
        );
        let dot = n.0 * a.normal.x as i64 + n.1 * a.normal.y as i64 + n.2 * a.normal.z as i64;
        assert!(dot > 0, "triangle wound against its face normal");
    }
}

#[test]
fn empty_chunk_yields_an_empty_surface() {
    let m = build_mesh(&air_grid(), &Neighborhood::absent());
    assert_eq!(m.vertex_count(), 0);
    assert_eq!(m.triangle_count(), 0);
}

#[test]
fn single_block_emits_exactly_six_quads() {
    let mut g = air_grid();
    g.set(8, 8, 8, stone());
    let m = build_mesh(&g, &Neighborhood::absent());
    assert_eq!(m.vertex_count(), 24);
    assert_eq!(m.triangle_count(), 12);
    assert_eq!(quads_by_normal(&m), [1, 1, 1, 1, 1, 1]);
    geometric_normals_point_outward(&m);
    // no duplicate faces: all 12 triangles reference distinct index triples
    let mut seen: Vec<(u32, u32, u32)> = Vec::new();
    for t in &m.triangles {
        let key = (t.a, t.b, t.c);
        assert!(!seen.contains(&key));
        seen.push(key);
    }
}

#[test]
fn stacked_blocks_suppress_exactly_the_shared_faces() {
    let mut g = air_grid();
    g.set(8, 8, 8, stone());
    g.set(8, 9, 8, stone());
    let m = build_mesh(&g, &Neighborhood::absent());
    // ten quads survive: the lower block's top and the upper block's bottom
    // are the interior pair and are culled
    assert_eq!(m.triangle_count(), 20);
    assert_eq!(quads_by_normal(&m), [2, 2, 1, 1, 2, 2]);
    geometric_normals_point_outward(&m);
}

#[test]
fn adjacent_blocks_share_no_face_in_either_orientation() {
    let mut g = air_grid();
    g.set(4, 8, 8, stone());
    g.set(5, 8, 8, stone());
    let m = build_mesh(&g, &Neighborhood::absent());
    assert_eq!(m.triangle_count(), 20);
    // the x-facing pair between the blocks is gone
    assert_eq!(quads_by_normal(&m), [2, 2, 2, 2, 1, 1]);
}

#[test]
fn absent_neighbor_is_treated_as_solid() {
    let mut g = air_grid();
    g.set(15, 8, 8, stone());
    // all six neighbor chunks unknown: the +x face at the boundary is culled
    let m = build_mesh(&g, &Neighborhood::absent());
    assert_eq!(quads_by_normal(&m), [1, 1, 1, 1, 0, 1]);
}

#[test]
fn known_empty_neighbor_exposes_the_boundary_face() {
    let mut g = air_grid();
    g.set(15, 8, 8, stone());
    let empty_plane = BoundaryMask {
        bits: vec![false; 256],
    };
    let nb = Neighborhood {
        front: None,
        back: None,
        top: None,
        bottom: None,
        right: Some(empty_plane),
        left: None,
    };
    let m = build_mesh(&g, &nb);
    assert_eq!(quads_by_normal(&m), [1, 1, 1, 1, 1, 1]);
}

#[test]
fn known_solid_neighbor_cell_culls_the_boundary_face() {
    let mut g = air_grid();
    g.set(15, 8, 8, stone());
    // the +x boundary plane is indexed by (y, z)
    let mut bits = vec![false; 256];
    bits[8 * 16 + 8] = true;
    let nb = Neighborhood {
        front: None,
        back: None,
        top: None,
        bottom: None,
        right: Some(BoundaryMask { bits }),
        left: None,
    };
    let m = build_mesh(&g, &nb);
    assert_eq!(quads_by_normal(&m), [1, 1, 1, 1, 0, 1]);
}

#[test]
fn meshing_twice_yields_identical_buffers() {
    let mut g = air_grid();
    g.set(3, 4, 5, stone());
    g.set(3, 5, 5, stone());
    g.set(12, 4, 5, stone());
    let m1 = build_mesh(&g, &Neighborhood::absent());
    let m2 = build_mesh(&g, &Neighborhood::absent());
    assert_eq!(m1.vertices, m2.vertices);
    assert_eq!(m1.triangles, m2.triangles);
}

#[test]
fn triangle_indices_stay_inside_the_vertex_buffer() {
    let mut g = air_grid();
    for x in 0..16 {
        for z in 0..16 {
            g.set(x, 0, z, stone());
        }
    }
    let m = build_mesh(&g, &Neighborhood::absent());
    for t in &m.triangles {
        assert!((t.a as usize) < m.vertices.len());
        assert!((t.b as usize) < m.vertices.len());
        assert!((t.c as usize) < m.vertices.len());
    }
    // a full floor with unknown neighbors shows only its top
    assert_eq!(quads_by_normal(&m), [0, 0, 256, 0, 0, 0]);
}
