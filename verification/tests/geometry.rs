use mine64::direction::Direction;
use mine64::direction::Triangle;
use mine64::direction::Vertex;

fn cross(u: (i64, i64, i64), v: (i64, i64, i64)) -> (i64, i64, i64) {
    (
        u.1 * v.2 - u.2 * v.1,
        u.2 * v.0 - u.0 * v.2,
        u.0 * v.1 - u.1 * v.0,
    )
}

fn quad_normal(vs: &[Vertex], t: &Triangle) -> (i64, i64, i64) {
    let a = &vs[t.a as usize].position;
    let b = &vs[t.b as usize].position;
    let c = &vs[t.c as usize].position;
    let e1 = (
        (b.x - a.x) as i64,
        (b.y - a.y) as i64,
        (b.z - a.z) as i64,
    );
    let e2 = (
        (c.x - a.x) as i64,
        (c.y - a.y) as i64,
        (c.z - a.z) as i64,
    );
    cross(e1, e2)
}

#[test]
fn vectors_are_the_six_axis_offsets() {
    assert_eq!(Direction::Front.vector(), (0, 0, 1));
    assert_eq!(Direction::Back.vector(), (0, 0, -1));
    assert_eq!(Direction::Top.vector(), (0, 1, 0));
    assert_eq!(Direction::Bottom.vector(), (0, -1, 0));
    assert_eq!(Direction::Right.vector(), (1, 0, 0));
    assert_eq!(Direction::Left.vector(), (-1, 0, 0));
}

#[test]
fn iterator_lists_all_directions_in_fixed_order() {
    let all = Direction::iterator();
    assert_eq!(
        all,
        vec![
            Direction::Front,
            Direction::Back,
            Direction::Top,
            Direction::Bottom,
            Direction::Right,
            Direction::Left,
        ]
    );
}

#[test]
fn winding_is_split_between_the_two_halves() {
    for d in [Direction::Front, Direction::Top, Direction::Left] {
        let t = d.triangles();
        assert_eq!((t[0].a, t[0].b, t[0].c), (2, 1, 0));
        assert_eq!((t[1].a, t[1].b, t[1].c), (3, 2, 0));
    }
    for d in [Direction::Back, Direction::Bottom, Direction::Right] {
        let t = d.triangles();
        assert_eq!((t[0].a, t[0].b, t[0].c), (0, 1, 2));
        assert_eq!((t[1].a, t[1].b, t[1].c), (0, 2, 3));
    }
}

#[test]
fn front_template_matches_the_unit_quad() {
    let vs = Direction::Front.verticles();
    assert_eq!(vs.len(), 4);
    let expect = [
        ((-1, -1, 1), (0, 0)),
        ((-1, 1, 1), (0, 1)),
        ((1, 1, 1), (1, 1)),
        ((1, -1, 1), (1, 0)),
    ];
    for (v, ((px, py, pz), (tu, tv))) in vs.iter().zip(expect) {
        assert_eq!((v.position.x, v.position.y, v.position.z), (px, py, pz));
        assert_eq!((v.normal.x, v.normal.y, v.normal.z), (0, 0, 1));
        assert_eq!((v.tex_u, v.tex_v), (tu, tv));
    }
}

#[test]
fn every_template_normal_points_along_the_offset_vector() {
    for d in Direction::iterator() {
        let vs = d.verticles();
        let (vx, vy, vz) = d.vector();
        assert_eq!(vs.len(), 4);
        for v in &vs {
            assert_eq!((v.normal.x, v.normal.y, v.normal.z), (vx, vy, vz));
        }
        for t in d.triangles() {
            let n = quad_normal(&vs, &t);
            // the geometric normal is exactly four times the offset vector
            assert_eq!(n, (4 * vx as i64, 4 * vy as i64, 4 * vz as i64));
            let dot = n.0 * vx as i64 + n.1 * vy as i64 + n.2 * vz as i64;
            assert!(dot > 0);
        }
    }
}

#[test]
fn opposites_negate_the_vector() {
    for d in Direction::iterator() {
        let (x, y, z) = d.vector();
        let (ox, oy, oz) = d.opposite().vector();
        assert_eq!((ox, oy, oz), (-x, -y, -z));
    }
}
