//! The guided tour: content is revealed step by step, in English or German.
use vstd::prelude::*;
use crate::scene::{SceneCore, SceneView, group_holds, span_contains};
use crate::strings::same_text;
use crate::texts::{
    LABEL_VIEW_POINT, LABEL_VIEW_POINT_GERMAN, LABEL_HYPER, LABEL_HYPER_GERMAN, LABEL_PROJECTION, LABEL_PROJECTION_GERMAN, LABEL_SYNC_DRAG, LABEL_SYNC_DRAG_GERMAN, LABEL_CONTINUOUS_ROTATION, LABEL_CONTINUOUS_ROTATION_GERMAN, LABEL_HIGHER_DIMENSION_OFFSET, LABEL_HIGHER_DIMENSION_OFFSET_GERMAN, LABEL_FLATLAND, LABEL_FLATLAND_GERMAN, LABEL_SHOW_MORE, LABEL_SHOW_MORE_GERMAN, LABEL_LANGUAGE, LABEL_LANGUAGE_GERMAN, INSTRUCTIONS_INITIAL, INSTRUCTIONS_INITIAL_GERMAN, INSTRUCTIONS_FLATLAND_COMPLETE, INSTRUCTIONS_FLATLAND_COMPLETE_GERMAN, INSTRUCTIONS_THREE_DIMENSIONAL, INSTRUCTIONS_THREE_DIMENSIONAL_GERMAN, INSTRUCTIONS_SPACELAND_COMPLETE, INSTRUCTIONS_SPACELAND_COMPLETE_GERMAN, INSTRUCTIONS_SPACELAND_ONLY, INSTRUCTIONS_SPACELAND_ONLY_GERMAN, LABEL_MISSING_GERMAN,
};

verus! {

/// The steps of the tour, in the order they are shown.
#[derive(PartialEq, Eq, Structural, Clone, Copy, Debug)]
pub enum StateScene {
    Planar,
    FlatlandComplete,
    ThreeDimensional,
    SpacelandComplete,
    SpacelandOnly,
}

/// The language of the texts.
#[derive(PartialEq, Eq, Structural, Clone, Copy, Debug)]
pub enum Language {
    English,
    German,
}

impl StateScene {
    /// The position of the step in the tour, from 0.
    pub open spec fn rank(self) -> int {
        match self {
            StateScene::Planar => 0,
            StateScene::FlatlandComplete => 1,
            StateScene::ThreeDimensional => 2,
            StateScene::SpacelandComplete => 3,
            StateScene::SpacelandOnly => 4,
        }
    }

    pub open spec fn spec_next(self) -> StateScene {
        match self {
            StateScene::Planar => StateScene::FlatlandComplete,
            StateScene::FlatlandComplete => StateScene::ThreeDimensional,
            StateScene::ThreeDimensional => StateScene::SpacelandComplete,
            StateScene::SpacelandComplete => StateScene::SpacelandOnly,
            StateScene::SpacelandOnly => StateScene::SpacelandOnly,
        }
    }

    /// The step after this one; the last step stays.
    pub fn next(self) -> (n: StateScene)
        ensures
            n == self.spec_next(),
    {
        match self {
            StateScene::Planar => StateScene::FlatlandComplete,
            StateScene::FlatlandComplete => StateScene::ThreeDimensional,
            StateScene::ThreeDimensional => StateScene::SpacelandComplete,
            StateScene::SpacelandComplete => StateScene::SpacelandOnly,
            StateScene::SpacelandOnly => StateScene::SpacelandOnly,
        }
    }
}

impl Language {
    pub open spec fn spec_toggled(self) -> Language {
        match self {
            Language::English => Language::German,
            Language::German => Language::English,
        }
    }

    /// The other language.
    pub fn toggled(self) -> (l: Language)
        ensures
            l == self.spec_toggled(),
    {
        match self {
            Language::English => Language::German,
            Language::German => Language::English,
        }
    }
}

/// The instructions shown at step `state` in `language`.
pub open spec fn instructions_text(language: Language, state: StateScene) -> Seq<char> {
    match language {
        Language::English => match state {
            StateScene::Planar => INSTRUCTIONS_INITIAL@,
            StateScene::FlatlandComplete => INSTRUCTIONS_FLATLAND_COMPLETE@,
            StateScene::ThreeDimensional => INSTRUCTIONS_THREE_DIMENSIONAL@,
            StateScene::SpacelandComplete => INSTRUCTIONS_SPACELAND_COMPLETE@,
            StateScene::SpacelandOnly => INSTRUCTIONS_SPACELAND_ONLY@,
        },
        Language::German => match state {
            StateScene::Planar => INSTRUCTIONS_INITIAL_GERMAN@,
            StateScene::FlatlandComplete => INSTRUCTIONS_FLATLAND_COMPLETE_GERMAN@,
            StateScene::ThreeDimensional => INSTRUCTIONS_THREE_DIMENSIONAL_GERMAN@,
            StateScene::SpacelandComplete => INSTRUCTIONS_SPACELAND_COMPLETE_GERMAN@,
            StateScene::SpacelandOnly => INSTRUCTIONS_SPACELAND_ONLY_GERMAN@,
        },
    }
}

/// The German text of the English label `label`; labels without a translation
/// get a notice instead.
pub open spec fn german_label(label: Seq<char>) -> Seq<char> {
    if label == LABEL_VIEW_POINT@ {
        LABEL_VIEW_POINT_GERMAN@
    } else if label == LABEL_HYPER@ {
        LABEL_HYPER_GERMAN@
    } else if label == LABEL_PROJECTION@ {
        LABEL_PROJECTION_GERMAN@
    } else if label == LABEL_SYNC_DRAG@ {
        LABEL_SYNC_DRAG_GERMAN@
    } else if label == LABEL_CONTINUOUS_ROTATION@ {
        LABEL_CONTINUOUS_ROTATION_GERMAN@
    } else if label == LABEL_HIGHER_DIMENSION_OFFSET@ {
        LABEL_HIGHER_DIMENSION_OFFSET_GERMAN@
    } else if label == LABEL_SHOW_MORE@ {
        LABEL_SHOW_MORE_GERMAN@
    } else if label == LABEL_FLATLAND@ {
        LABEL_FLATLAND_GERMAN@
    } else if label == LABEL_LANGUAGE@ {
        LABEL_LANGUAGE_GERMAN@
    } else {
        LABEL_MISSING_GERMAN@
    }
}

/// The text of the label `label` in `language`.
pub open spec fn label_text(language: Language, label: Seq<char>) -> Seq<char> {
    match language {
        Language::English => label,
        Language::German => german_label(label),
    }
}

/// Whether an atom shows at step `state` right after its scene is built.
pub open spec fn initially_visible(state: StateScene, scene: SceneView, atom: int) -> bool {
    state == StateScene::SpacelandOnly || group_holds(scene.spans, scene.planar, atom)
}

/// Whether an atom that was `visible` shows once the tour reaches `state`.
pub open spec fn visible_at(state: StateScene, scene: SceneView, atom: int, visible: bool) -> bool {
    match state {
        StateScene::FlatlandComplete => visible || group_holds(scene.spans, scene.flatland, atom),
        StateScene::ThreeDimensional => visible || !group_holds(scene.spans, scene.hyper, atom),
        StateScene::SpacelandComplete => true,
        _ => visible,
    }
}

/// Where the tour stands: the step, the language and whether the camera looks from Spaceland.
#[derive(PartialEq, Eq, Structural, Clone, Copy, Debug)]
pub struct Tour {
    pub viewpoint_is_spaceland: bool,
    pub state: StateScene,
    pub language: Language,
}

impl Tour {
    /// The start of the tour: the first step, in English, seen from Flatland.
    pub fn new() -> (t: Tour)
        ensures
            t == (Tour {
                viewpoint_is_spaceland: false,
                state: StateScene::Planar,
                language: Language::English,
            }),
    {
        Tour { viewpoint_is_spaceland: false, state: StateScene::Planar, language: Language::English }
    }

    /// The instructions for the current step and language.
    pub fn instructions_localized(&self) -> (text: &'static str)
        ensures
            text@ == instructions_text(self.language, self.state),
    {
        match self.language {
            Language::English => match self.state {
                StateScene::Planar => INSTRUCTIONS_INITIAL,
                StateScene::FlatlandComplete => INSTRUCTIONS_FLATLAND_COMPLETE,
                StateScene::ThreeDimensional => INSTRUCTIONS_THREE_DIMENSIONAL,
                StateScene::SpacelandComplete => INSTRUCTIONS_SPACELAND_COMPLETE,
                StateScene::SpacelandOnly => INSTRUCTIONS_SPACELAND_ONLY,
            },
            Language::German => match self.state {
                StateScene::Planar => INSTRUCTIONS_INITIAL_GERMAN,
                StateScene::FlatlandComplete => INSTRUCTIONS_FLATLAND_COMPLETE_GERMAN,
                StateScene::ThreeDimensional => INSTRUCTIONS_THREE_DIMENSIONAL_GERMAN,
                StateScene::SpacelandComplete => INSTRUCTIONS_SPACELAND_COMPLETE_GERMAN,
                StateScene::SpacelandOnly => INSTRUCTIONS_SPACELAND_ONLY_GERMAN,
            },
        }
    }

    /// The text of the label named by its English text `label_name`, in the current language.
    pub fn label_localized<'a>(&self, label_name: &'a str) -> (text: &'a str)
        ensures
            text@ == label_text(self.language, label_name@),
    {
        match self.language {
            Language::English => label_name,
            Language::German => {
                if same_text(label_name, LABEL_VIEW_POINT) {
                    LABEL_VIEW_POINT_GERMAN
                } else if same_text(label_name, LABEL_HYPER) {
                    LABEL_HYPER_GERMAN
                } else if same_text(label_name, LABEL_PROJECTION) {
                    LABEL_PROJECTION_GERMAN
                } else if same_text(label_name, LABEL_SYNC_DRAG) {
                    LABEL_SYNC_DRAG_GERMAN
                } else if same_text(label_name, LABEL_CONTINUOUS_ROTATION) {
                    LABEL_CONTINUOUS_ROTATION_GERMAN
                } else if same_text(label_name, LABEL_HIGHER_DIMENSION_OFFSET) {
                    LABEL_HIGHER_DIMENSION_OFFSET_GERMAN
                } else if same_text(label_name, LABEL_SHOW_MORE) {
                    LABEL_SHOW_MORE_GERMAN
                } else if same_text(label_name, LABEL_FLATLAND) {
                    LABEL_FLATLAND_GERMAN
                } else if same_text(label_name, LABEL_LANGUAGE) {
                    LABEL_LANGUAGE_GERMAN
                } else {
                    LABEL_MISSING_GERMAN
                }
            },
        }
    }

    /// Switches between English and German.
    pub fn toggle_language(&mut self)
        ensures
            *final(self) == (Tour { language: old(self).language.spec_toggled(), ..*old(self) }),
    {
        self.language = self.language.toggled();
    }

    /// Switches the camera between the Flatland and the Spaceland viewpoint and
    /// returns whether it now looks from Spaceland.
    pub fn toggle_view_point(&mut self) -> (spaceland: bool)
        ensures
            *final(self) == (Tour { viewpoint_is_spaceland: !old(self).viewpoint_is_spaceland, ..*old(self) }),
            spaceland == final(self).viewpoint_is_spaceland,
    {
        self.viewpoint_is_spaceland = !self.viewpoint_is_spaceland;
        self.viewpoint_is_spaceland
    }

    /// Moves on to the next step; the camera returns to the Flatland viewpoint.
    pub fn show_more(&mut self) -> (state: StateScene)
        ensures
            *final(self) == (Tour {
                viewpoint_is_spaceland: false,
                state: old(self).state.spec_next(),
                language: old(self).language,
            }),
            state == final(self).state,
    {
        self.state = self.state.next();
        self.viewpoint_is_spaceland = false;
        self.state
    }

    /// Whether atom `atom_index` of `scene` shows when the scene is built at the current step:
    /// at the last step every atom, before it only the atoms of planar objects.
    pub fn initially_visible(&self, scene: &SceneCore, atom_index: usize) -> (b: bool)
        ensures
            b == initially_visible(self.state, scene@, atom_index as int),
    {
        self.state == StateScene::SpacelandOnly || scene.is_planar(atom_index)
    }

    /// Whether atom `atom_index` of `scene`, which was `visible`, shows at the current
    /// step: the Flatland atoms join at the second step, all but the four-dimensional
    /// ones at the third, and every atom at the fourth.
    pub fn visible_now(&self, scene: &SceneCore, atom_index: usize, visible: bool) -> (b: bool)
        ensures
            b == visible_at(self.state, scene@, atom_index as int, visible),
    {
        match self.state {
            StateScene::FlatlandComplete => visible || scene.is_2d(atom_index),
            StateScene::ThreeDimensional => visible || !scene.is_4d(atom_index),
            StateScene::SpacelandComplete => true,
            _ => visible,
        }
    }
}


/// The tour moves one step forward at each "show more" until its last step,
/// where it stays.
pub proof fn law_tour_advances(s: StateScene)
    ensures
        s.rank() < 4 ==> s.spec_next().rank() == s.rank() + 1,
        s.rank() == 4 ==> s.spec_next() == s,
        StateScene::Planar.spec_next().spec_next().spec_next().spec_next() == StateScene::SpacelandOnly,
{
}

/// Switching the language twice gives back the same language.
pub proof fn law_language_toggle_involution(l: Language)
    ensures
        l.spec_toggled().spec_toggled() == l,
        l.spec_toggled() != l,
{
}

/// Labels in English are shown as they are.
pub proof fn law_english_labels_unchanged(label: Seq<char>)
    ensures
        label_text(Language::English, label) == label,
{
}

/// Once shown, an atom stays shown as the tour advances, and at the fourth step
/// every atom is shown.
pub proof fn law_visibility_only_grows(state: StateScene, scene: SceneView, atom: int, visible: bool)
    ensures
        visible ==> visible_at(state, scene, atom, visible),
        visible_at(StateScene::SpacelandComplete, scene, atom, visible),
        initially_visible(StateScene::SpacelandOnly, scene, atom),
{
}

/// When every planar object also belongs to Flatland (as in the two-row scene),
/// the atoms shown after the first "show more" are exactly the Flatland atoms: at
/// the start only the planar objects show.
pub proof fn law_first_step_shows_flatland(scene: SceneView, atom: int)
    requires
        forall|k: int| 0 <= k < scene.planar.len() ==> scene.flatland.contains(#[trigger] scene.planar[k]),
    ensures
        visible_at(
            StateScene::FlatlandComplete,
            scene,
            atom,
            initially_visible(StateScene::Planar, scene, atom),
        ) == group_holds(scene.spans, scene.flatland, atom),
{
    if group_holds(scene.spans, scene.planar, atom) {
        let k = choose|k: int| 0 <= k < scene.planar.len()
            && span_contains(scene.spans[#[trigger] scene.planar[k] as int], atom);
        assert(scene.flatland.contains(scene.planar[k]));
        let j = choose|j: int| 0 <= j < scene.flatland.len() && scene.flatland[j] == scene.planar[k];
        assert(span_contains(scene.spans[scene.flatland[j] as int], atom));
    }
}

/// Whether `label` is one of the control labels that have a German text.
pub open spec fn translated_label(label: Seq<char>) -> bool {
    ||| label == LABEL_VIEW_POINT@
    ||| label == LABEL_HYPER@
    ||| label == LABEL_PROJECTION@
    ||| label == LABEL_SYNC_DRAG@
    ||| label == LABEL_CONTINUOUS_ROTATION@
    ||| label == LABEL_HIGHER_DIMENSION_OFFSET@
    ||| label == LABEL_SHOW_MORE@
    ||| label == LABEL_FLATLAND@
    ||| label == LABEL_LANGUAGE@
}

/// In German every control label shows its own translation, and any other label
/// shows the notice that the German text is missing.
pub proof fn law_german_labels(label: Seq<char>)
    ensures
        label_text(Language::German, LABEL_VIEW_POINT@) == LABEL_VIEW_POINT_GERMAN@,
        label_text(Language::German, LABEL_HYPER@) == LABEL_HYPER_GERMAN@,
        label_text(Language::German, LABEL_PROJECTION@) == LABEL_PROJECTION_GERMAN@,
        label_text(Language::German, LABEL_SYNC_DRAG@) == LABEL_SYNC_DRAG_GERMAN@,
        label_text(Language::German, LABEL_CONTINUOUS_ROTATION@) == LABEL_CONTINUOUS_ROTATION_GERMAN@,
        label_text(Language::German, LABEL_HIGHER_DIMENSION_OFFSET@) == LABEL_HIGHER_DIMENSION_OFFSET_GERMAN@,
        label_text(Language::German, LABEL_SHOW_MORE@) == LABEL_SHOW_MORE_GERMAN@,
        label_text(Language::German, LABEL_FLATLAND@) == LABEL_FLATLAND_GERMAN@,
        label_text(Language::German, LABEL_LANGUAGE@) == LABEL_LANGUAGE_GERMAN@,
        !translated_label(label) ==> label_text(Language::German, label) == LABEL_MISSING_GERMAN@,
{
    reveal_strlit("Top View");
    reveal_strlit("__Hyper");
    reveal_strlit("Projection");
    reveal_strlit("Synchronized Dragging");
    reveal_strlit("Continuous Rotation");
    reveal_strlit("Higher Dimension Offset");
    reveal_strlit("Flatland");
    reveal_strlit("Show more");
    reveal_strlit("Deutsch/English");
    // The labels differ in length, except the first and "Flatland", which differ
    // in their first letter.
    assert(LABEL_VIEW_POINT@ == "Top View"@ && LABEL_VIEW_POINT@.len() == 8);
    assert(LABEL_HYPER@ == "__Hyper"@ && LABEL_HYPER@.len() == 7);
    assert(LABEL_PROJECTION@ == "Projection"@ && LABEL_PROJECTION@.len() == 10);
    assert(LABEL_SYNC_DRAG@ == "Synchronized Dragging"@ && LABEL_SYNC_DRAG@.len() == 21);
    assert(LABEL_CONTINUOUS_ROTATION@ == "Continuous Rotation"@ && LABEL_CONTINUOUS_ROTATION@.len() == 19);
    assert(LABEL_HIGHER_DIMENSION_OFFSET@ == "Higher Dimension Offset"@
        && LABEL_HIGHER_DIMENSION_OFFSET@.len() == 23);
    assert(LABEL_SHOW_MORE@ == "Show more"@ && LABEL_SHOW_MORE@.len() == 9);
    assert(LABEL_FLATLAND@ == "Flatland"@ && LABEL_FLATLAND@.len() == 8);
    assert(LABEL_LANGUAGE@ == "Deutsch/English"@ && LABEL_LANGUAGE@.len() == 15);
    assert(LABEL_FLATLAND@[0] != LABEL_VIEW_POINT@[0]);
}

} // verus!
