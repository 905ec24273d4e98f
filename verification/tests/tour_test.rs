use hyperview::scene::SceneCore;
use hyperview::texts::{
    INSTRUCTIONS_FLATLAND_COMPLETE_GERMAN, INSTRUCTIONS_INITIAL, INSTRUCTIONS_SPACELAND_ONLY,
    LABEL_HIGHER_DIMENSION_OFFSET, LABEL_HYPER, LABEL_LANGUAGE, LABEL_VIEW_POINT,
};
use hyperview::tour::{Language, StateScene, Tour};

#[test]
fn tour_steps_forward_and_stops() {
    let mut t = Tour::new();
    assert_eq!(t.state, StateScene::Planar);
    assert_eq!(t.show_more(), StateScene::FlatlandComplete);
    assert_eq!(t.show_more(), StateScene::ThreeDimensional);
    assert_eq!(t.show_more(), StateScene::SpacelandComplete);
    assert_eq!(t.show_more(), StateScene::SpacelandOnly);
    assert_eq!(t.show_more(), StateScene::SpacelandOnly);
}

#[test]
fn show_more_returns_to_flatland_view() {
    let mut t = Tour::new();
    assert!(t.toggle_view_point());
    t.show_more();
    assert!(!t.viewpoint_is_spaceland);
}

#[test]
fn language_toggles_back() {
    let mut t = Tour::new();
    t.toggle_language();
    assert_eq!(t.language, Language::German);
    t.toggle_language();
    assert_eq!(t.language, Language::English);
    assert_eq!(Language::German.toggled().toggled(), Language::German);
}

#[test]
fn instructions_follow_state_and_language() {
    let mut t = Tour::new();
    assert_eq!(t.instructions_localized(), INSTRUCTIONS_INITIAL);
    assert!(t.instructions_localized().starts_with("What would our three-dimensional world"));
    t.show_more();
    t.toggle_language();
    assert_eq!(t.instructions_localized(), INSTRUCTIONS_FLATLAND_COMPLETE_GERMAN);
    t.toggle_language();
    for _ in 0..5 {
        t.show_more();
    }
    assert_eq!(t.instructions_localized(), INSTRUCTIONS_SPACELAND_ONLY);
}

#[test]
fn labels_localized() {
    let mut t = Tour::new();
    assert_eq!(t.label_localized(LABEL_VIEW_POINT), "Top View");
    assert_eq!(t.label_localized("anything"), "anything");
    t.toggle_language();
    assert_eq!(t.label_localized(LABEL_VIEW_POINT), "Draufsicht");
    assert_eq!(t.label_localized(LABEL_HYPER), "__Hyper");
    assert_eq!(t.label_localized(LABEL_HIGHER_DIMENSION_OFFSET), "Offset der höheren Dimension");
    assert_eq!(t.label_localized(LABEL_LANGUAGE), "English/Deutsch");
    assert_eq!(t.label_localized("Show more"), "Mehr anzeigen");
    assert_eq!(t.label_localized("Top view"), "german localisation missing");
}

#[test]
fn visibility_through_the_tour() {
    // heart, cube3d, cube4d, cube4d edges, circle, square, cube, cube edges
    let scene = SceneCore::new_flatland_spaceland(10, 20, 30, 40, 5, 6, 7, 8);
    let mut t = Tour::new();
    let mut visible: Vec<bool> = (0..scene.atom_count()).map(|a| t.initially_visible(&scene, a)).collect();
    let shown: Vec<usize> = (0..scene.atom_count()).filter(|a| visible[*a]).collect();
    assert_eq!(shown, (100..111).collect::<Vec<usize>>());

    t.show_more();
    for a in 0..scene.atom_count() {
        visible[a] = t.visible_now(&scene, a, visible[a]);
    }
    let shown: Vec<usize> = (0..scene.atom_count()).filter(|a| visible[*a]).collect();
    assert_eq!(shown, (100..126).collect::<Vec<usize>>());

    t.show_more();
    for a in 0..scene.atom_count() {
        visible[a] = t.visible_now(&scene, a, visible[a]);
    }
    let hidden: Vec<usize> = (0..scene.atom_count()).filter(|a| !visible[*a]).collect();
    assert_eq!(hidden, (30..100).collect::<Vec<usize>>());

    t.show_more();
    for a in 0..scene.atom_count() {
        visible[a] = t.visible_now(&scene, a, visible[a]);
    }
    assert!(visible.iter().all(|v| *v));

    t.show_more();
    assert!(t.initially_visible(&scene, 0));
}

#[test]
fn next_state_directly() {
    assert_eq!(StateScene::Planar.next(), StateScene::FlatlandComplete);
    assert_eq!(StateScene::SpacelandComplete.next(), StateScene::SpacelandOnly);
    assert_eq!(StateScene::SpacelandOnly.next(), StateScene::SpacelandOnly);
    assert_eq!(Language::English.toggled(), Language::German);
}
