use hyperview::scene::{DragPlan, Rotation4d, RotationPress, SceneCore, SceneType};

fn two_row() -> SceneCore {
    // heart, cube3d, cube4d, cube4d edges, circle, square, cube, cube edges
    SceneCore::new_flatland_spaceland(10, 20, 30, 40, 5, 6, 7, 8)
}

#[test]
fn two_row_layout() {
    let s = two_row();
    assert_eq!(s.atom_count(), 126);
    assert_eq!(s.object_count(), 8);
    assert_eq!(s.range(0), (0, 10));
    assert_eq!(s.range(3), (60, 100));
    assert_eq!(s.range(7), (118, 126));
    assert_eq!(s.objects_spaceland(), &vec![0, 1, 2, 3]);
    assert_eq!(s.objects_flatland(), &vec![4, 5, 6, 7]);
    assert_eq!(s.scene_type(), SceneType::FlatlandSpaceland);
    assert!(!s.is_synchronized_drag());
    assert!(!s.is_projection_view());
    assert!(!s.is_high_dimension_view());
    assert_eq!(s.rotation(), Rotation4d::Xz);
}

#[test]
fn atom_groups() {
    let s = two_row();
    assert!(!s.is_2d(99));
    assert!(s.is_2d(100));
    assert!(s.is_2d(125));
    assert!(!s.is_2d(126));
    assert!(s.is_planar(110));
    assert!(!s.is_planar(111));
    assert!(s.is_4d(30));
    assert!(s.is_4d(99));
    assert!(!s.is_4d(29));
    assert!(!s.is_4d(100));
}

#[test]
fn every_atom_in_exactly_one_object() {
    let s = two_row();
    for a in 0..s.atom_count() {
        let owner = s.object_of_atom(a).unwrap();
        let mut holders = 0;
        for i in 0..s.object_count() {
            let (lo, hi) = s.range(i);
            if lo <= a && a < hi {
                holders += 1;
                assert_eq!(i, owner);
            }
        }
        assert_eq!(holders, 1);
    }
    assert_eq!(s.object_of_atom(126), None);
}

#[test]
fn add_object_appends() {
    let mut s = SceneCore::empty(SceneType::Aquarium, false);
    assert_eq!(s.add_object(4), 0);
    assert_eq!(s.add_object(0), 1);
    assert_eq!(s.add_composed_object(&vec![2, 3, 5]), 2);
    assert_eq!(s.range(0), (0, 4));
    assert_eq!(s.range(1), (4, 4));
    assert_eq!(s.range(2), (4, 14));
    assert_eq!(s.atom_count(), 14);
    assert_eq!(s.object_of_atom(4), Some(2));
}

#[test]
fn aquarium_and_photon_layouts() {
    let s = SceneCore::new_aquarium(100, &vec![10, 20, 30], 40);
    assert_eq!(s.range(1), (100, 160));
    assert_eq!(s.range(2), (160, 200));
    assert_eq!(s.objects_spaceland(), &vec![0, 1, 2]);
    assert!(s.objects_flatland().is_empty());
    assert!(s.is_synchronized_drag());
    assert_eq!(s.scene_type(), SceneType::Aquarium);

    let mut p = SceneCore::new_photons(100, 40, 40, 16);
    assert_eq!(p.range(3), (180, 196));
    assert_eq!(p.objects_spaceland(), &vec![0, 1, 2, 3]);
    assert_eq!(p.scene_type(), SceneType::EntangledPhotons);
    p.set_photons(150, 120);
    assert_eq!((p.photon1(), p.photon2()), (150, 120));
}

#[test]
fn drag_plans() {
    let mut s = two_row();
    assert_eq!(s.drag_plan(15), DragPlan::Object(1));
    assert_eq!(s.drag_plan(500), DragPlan::Nothing);
    s.set_synchronized_drag(true);
    assert_eq!(s.drag_plan(15), DragPlan::AllFrom(1));
}

#[test]
fn view_switches() {
    let mut s = two_row();
    s.toggle_projection_view();
    assert!(s.is_projection_view());
    s.toggle_projection_view();
    assert!(!s.is_projection_view());
    assert!(s.toggle_high_dimension_view());
    assert!(!s.toggle_high_dimension_view());
    s.force_high_dimension_view();
    s.toggle_projection_view();
    s.set_synchronized_drag(true);
    s.reset_view();
    assert!(!s.is_projection_view());
    assert!(!s.is_high_dimension_view());
    assert!(!s.is_synchronized_drag());
    assert_eq!(s.atom_count(), 126);
}

#[test]
fn rotation_presses() {
    let mut s = two_row();
    assert_eq!(s.press_rotation(Rotation4d::Xz), RotationPress::Unchanged);
    assert!(!s.is_high_dimension_view());
    assert_eq!(s.press_rotation(Rotation4d::Yw), RotationPress::Switched);
    assert_eq!(s.rotation(), Rotation4d::Yw);
    assert!(s.is_high_dimension_view());
    assert_eq!(s.press_rotation(Rotation4d::Yw), RotationPress::Stopped);
    assert_eq!(s.rotation(), Rotation4d::Yw);
    assert!(!s.is_high_dimension_view());
}

#[test]
fn two_rows_split_atoms() {
    let s = two_row();
    let in_objects = |objects: &Vec<usize>, a: usize| {
        objects.iter().any(|&i| {
            let (lo, hi) = s.range(i);
            lo <= a && a < hi
        })
    };
    for a in 0..s.atom_count() {
        let space = in_objects(s.objects_spaceland(), a);
        let flat = in_objects(s.objects_flatland(), a);
        assert!(space != flat);
        assert_eq!(flat, s.is_2d(a));
    }
}

#[test]
fn plane_axes_of_each_rotation() {
    let all = [
        (Rotation4d::Xy, [true, true, false, false]),
        (Rotation4d::Xz, [true, false, true, false]),
        (Rotation4d::Xw, [true, false, false, true]),
        (Rotation4d::Yz, [false, true, true, false]),
        (Rotation4d::Yw, [false, true, false, true]),
        (Rotation4d::Zw, [false, false, true, true]),
    ];
    for (r, expected) in all {
        let a = r.axes();
        assert_eq!([a.x, a.y, a.z, a.w], expected);
        assert_eq!(expected.iter().filter(|b| **b).count(), 2);
    }
}

#[test]
fn atom_count_follows_the_last_object() {
    let mut s = SceneCore::empty(SceneType::Aquarium, false);
    assert_eq!(s.atom_count(), 0);
    s.add_object(5);
    s.add_object(0);
    assert_eq!(s.atom_count(), 5);
    s.add_composed_object(&vec![2, 3]);
    assert_eq!(s.atom_count(), 10);
    assert_eq!(s.range(2), (5, 10));
    assert_eq!(s.range(1), (5, 5));
    assert_eq!(s.object_of_atom(5), Some(2));
}
