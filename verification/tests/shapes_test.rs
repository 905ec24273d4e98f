use hyperview::lattice::{AtomColor, LatticeAtom, LatticePoint};
use hyperview::shapes::{
    create_cube_4d, create_cube_4d_corners, create_cube_4d_edges, create_cube_4d_surface,
    create_cube_edges, create_cube_surface, create_cube_surface_colorful, create_square,
    create_square_surface, create_tripod_4d,
};

fn p(x: i32, y: i32, z: i32, w: i32) -> LatticePoint {
    LatticePoint { x, y, z, w }
}

fn rgb(r: u8, g: u8, b: u8) -> AtomColor {
    AtomColor::Rgba8 { r, g, b, a: 255 }
}

fn is_centered(atoms: &[LatticeAtom]) -> bool {
    atoms.iter().all(|a| {
        let q = p(-a.point.x, -a.point.y, -a.point.z, -a.point.w);
        atoms.iter().any(|b| b.point == q)
    })
}

fn is_within(atoms: &[LatticeAtom], r: i32) -> bool {
    atoms.iter().all(|a| {
        [a.point.x, a.point.y, a.point.z, a.point.w].iter().all(|c| -r <= *c && *c <= r)
    })
}

fn is_lexicographic(atoms: &[LatticeAtom]) -> bool {
    atoms.windows(2).all(|w| {
        let a = &w[0].point;
        let b = &w[1].point;
        (a.x, a.y, a.z, a.w) < (b.x, b.y, b.z, b.w)
    })
}

#[test]
fn cube_4d_smallest_is_full() {
    let atoms = create_cube_4d(2);
    assert_eq!(atoms.len(), 81);
    assert_eq!(atoms[0], LatticeAtom { point: p(-1, -1, -1, -1), color: AtomColor::Rgba8 { r: 0, g: 0, b: 0, a: 0 } });
    assert_eq!(atoms[80], LatticeAtom { point: p(1, 1, 1, 1), color: AtomColor::Rgba8 { r: 255, g: 255, b: 255, a: 255 } });
    assert_eq!(atoms[1].point, p(-1, -1, -1, 0));
    assert_eq!(atoms[1].color, AtomColor::Rgba8 { r: 0, g: 0, b: 0, a: 127 });
}

#[test]
fn cube_4d_is_hollow() {
    let atoms = create_cube_4d(8);
    assert_eq!(atoms.len(), 9 * 9 * 9 * 9 - 5 * 5 * 5 * 5);
    assert!(!atoms.iter().any(|a| a.point == p(0, 0, 0, 0)));
    assert!(!atoms.iter().any(|a| a.point == p(2, -2, 2, -2)));
    assert!(atoms.iter().any(|a| a.point == p(3, 0, 0, 0)));
    assert!(is_lexicographic(&atoms));
    assert!(is_centered(&atoms));
    assert!(is_within(&atoms, 4));
}

#[test]
fn cube_4d_single_side() {
    let atoms = create_cube_4d(1);
    assert_eq!(atoms, vec![LatticeAtom { point: p(0, 0, 0, 0), color: AtomColor::Rgba8 { r: 0, g: 0, b: 0, a: 0 } }]);
}

#[test]
fn cube_surface_colorful_ratios() {
    let atoms = create_cube_surface_colorful(8);
    assert_eq!(atoms.len(), 8 * 8 * 8 - 4 * 4 * 4);
    assert_eq!(atoms[0], LatticeAtom {
        point: p(-4, -4, -4, 0),
        color: AtomColor::RgbRatio { red: 0, green: 0, blue: 0, scale: 8 },
    });
    let last = atoms[atoms.len() - 1];
    assert_eq!(last, LatticeAtom {
        point: p(3, 3, 3, 0),
        color: AtomColor::RgbRatio { red: 7, green: 7, blue: 7, scale: 8 },
    });
    assert!(is_lexicographic(&atoms));
    assert!(is_within(&atoms, 4));
}

#[test]
fn cube_surface_colorful_edge_has_number_per_side_atoms() {
    for n in 0..12usize {
        let atoms = create_cube_surface_colorful(n);
        let first = -((n / 2) as i32);
        let edge: Vec<i32> = atoms
            .iter()
            .filter(|a| a.point.y == first && a.point.z == first)
            .map(|a| a.point.x)
            .collect();
        let expected: Vec<i32> = (0..n as i32).map(|k| first + k).collect();
        assert_eq!(edge, expected);
    }
}

#[test]
fn cube_surface_colorful_two_per_side() {
    let atoms = create_cube_surface_colorful(2);
    assert_eq!(atoms.len(), 8);
    assert!(atoms.iter().all(|a| (a.point.x == -1 || a.point.x == 0) && a.point.w == 0));
    assert_eq!(atoms[7].color, AtomColor::RgbRatio { red: 1, green: 1, blue: 1, scale: 2 });
}

#[test]
fn cube_surface_colorful_odd_is_centered() {
    let atoms = create_cube_surface_colorful(7);
    assert_eq!(atoms.len(), 7 * 7 * 7 - 3 * 3 * 3);
    assert!(is_centered(&atoms));
    assert!(is_within(&atoms, 3));
}

#[test]
fn cube_surface_colorful_empty_side() {
    let atoms = create_cube_surface_colorful(0);
    assert!(atoms.is_empty());
}

#[test]
fn cube_4d_surface_faces() {
    let atoms = create_cube_4d_surface(8);
    assert_eq!(atoms.len(), 7 * 7 * 7 * 8);
    let first: Vec<LatticeAtom> = atoms[0..8].to_vec();
    assert_eq!(first, vec![
        LatticeAtom { point: p(-3, -3, -3, -4), color: rgb(255, 0, 255) },
        LatticeAtom { point: p(-3, -3, -3, 4), color: rgb(0, 255, 255) },
        LatticeAtom { point: p(-3, -3, -4, -3), color: rgb(0, 255, 0) },
        LatticeAtom { point: p(-3, -3, 4, -3), color: rgb(0, 0, 255) },
        LatticeAtom { point: p(-3, -4, -3, -3), color: rgb(255, 255, 0) },
        LatticeAtom { point: p(-3, 4, -3, -3), color: rgb(255, 255, 255) },
        LatticeAtom { point: p(-4, -3, -3, -3), color: rgb(255, 0, 0) },
        LatticeAtom { point: p(4, -3, -3, -3), color: rgb(255, 140, 26) },
    ]);
    assert!(is_centered(&atoms));
    assert!(is_within(&atoms, 4));
}

#[test]
fn cube_4d_surface_too_small_is_empty() {
    assert!(create_cube_4d_surface(1).is_empty());
    assert_eq!(create_cube_4d_surface(2).len(), 8);
}

#[test]
fn cube_4d_corners_sixteen() {
    let atoms = create_cube_4d_corners(8);
    assert_eq!(atoms.len(), 16);
    assert_eq!(atoms[0], LatticeAtom { point: p(-4, -4, -4, -4), color: rgb(255, 0, 0) });
    assert_eq!(atoms[7], LatticeAtom { point: p(-4, 4, 4, 4), color: rgb(0, 0, 0) });
    assert_eq!(atoms[15], LatticeAtom { point: p(4, 4, 4, 4), color: rgb(0, 0, 0) });
    for i in 0..16 {
        for j in (i + 1)..16 {
            assert_ne!(atoms[i].point, atoms[j].point);
        }
    }
    assert!(is_centered(&atoms));
}

#[test]
fn cube_4d_edges_count() {
    let atoms = create_cube_4d_edges(8);
    // cells with exactly two of three coordinates on the rim {-3, 3}: 3 * 2 * 2 * 5
    assert_eq!(atoms.len(), 60 * 8);
    assert_eq!(atoms[0], LatticeAtom { point: p(-3, -3, -2, -4), color: rgb(255, 0, 255) });
    assert!(is_centered(&atoms));
    assert!(is_within(&atoms, 4));
    assert!(create_cube_4d_edges(2).is_empty());
}

#[test]
fn square_ramp() {
    let atoms = create_square(8);
    assert_eq!(atoms.len(), 81);
    assert_eq!(atoms[0], LatticeAtom { point: p(-4, 0, -4, 0), color: rgb(0, 0, 128) });
    assert_eq!(atoms[40], LatticeAtom { point: p(0, 0, 0, 0), color: rgb(127, 127, 128) });
    assert_eq!(atoms[80], LatticeAtom { point: p(4, 0, 4, 0), color: rgb(255, 255, 128) });
    assert!(is_centered(&atoms));
}

#[test]
fn cube_surface_faces() {
    let atoms = create_cube_surface(8);
    assert_eq!(atoms.len(), 7 * 7 * 6);
    assert_eq!(atoms[0], LatticeAtom { point: p(-3, -3, -4, 0), color: rgb(0, 255, 0) });
    assert_eq!(atoms[5], LatticeAtom { point: p(4, -3, -3, 0), color: rgb(255, 140, 26) });
    assert!(is_centered(&atoms));
    assert!(is_within(&atoms, 4));
}

#[test]
fn square_surface_sides() {
    let atoms = create_square_surface(8);
    assert_eq!(atoms.len(), 7 * 4);
    assert_eq!(atoms[0..4].to_vec(), vec![
        LatticeAtom { point: p(-4, 0, -3, 0), color: rgb(255, 0, 0) },
        LatticeAtom { point: p(4, 0, -3, 0), color: rgb(255, 140, 26) },
        LatticeAtom { point: p(-3, 0, -4, 0), color: rgb(0, 255, 0) },
        LatticeAtom { point: p(-3, 0, 4, 0), color: rgb(0, 0, 255) },
    ]);
    assert!(is_centered(&atoms));
}

#[test]
fn cube_edges_rim() {
    let atoms = create_cube_edges(8);
    assert_eq!(atoms.len(), (7 * 7 - 5 * 5) * 6);
    assert!(!atoms.iter().any(|a| a.point == p(0, 0, -4, 0)));
    assert!(atoms.iter().any(|a| a.point == p(-3, 0, -4, 0)));
    assert!(is_centered(&atoms));
    assert!(is_within(&atoms, 4));
}

#[test]
fn tripod_axes() {
    let atoms = create_tripod_4d(3);
    assert_eq!(atoms.len(), 13);
    assert_eq!(atoms[0], LatticeAtom { point: p(0, 0, 0, 0), color: rgb(255, 255, 255) });
    assert_eq!(atoms[1], LatticeAtom { point: p(1, 0, 0, 0), color: rgb(255, 0, 0) });
    assert_eq!(atoms[12], LatticeAtom { point: p(0, 0, 0, 3), color: rgb(255, 255, 0) });
    assert!(is_within(&atoms, 3));
    assert!(!is_centered(&atoms));
}
