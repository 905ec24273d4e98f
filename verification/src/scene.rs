//! The bookkeeping of a 4D scene: which atoms form which object, which objects
//! belong to Flatland, Spaceland, the planar and the four-dimensional groups,
//! and the switches of the view.
//!
//! The atoms themselves live with the caller, in one sequence; an object is a
//! run of consecutive atoms, and the objects tile the whole sequence in order.
use vstd::prelude::*;

verus! {

/// The plane of a 4D rotation; the rotation turns the two other coordinates.
#[derive(PartialEq, Eq, Structural, Clone, Copy, Debug)]
pub enum Rotation4d {
    Xy,
    Xz,
    Xw,
    Yz,
    Yw,
    Zw,
}

/// Which of the four axes a rotation plane spans.
#[derive(PartialEq, Eq, Structural, Clone, Copy, Debug)]
pub struct PlaneAxes {
    pub x: bool,
    pub y: bool,
    pub z: bool,
    pub w: bool,
}

/// The two axes of the plane `r`.
pub open spec fn plane_axes(r: Rotation4d) -> PlaneAxes {
    match r {
        Rotation4d::Xy => PlaneAxes { x: true, y: true, z: false, w: false },
        Rotation4d::Xz => PlaneAxes { x: true, y: false, z: true, w: false },
        Rotation4d::Xw => PlaneAxes { x: true, y: false, z: false, w: true },
        Rotation4d::Yz => PlaneAxes { x: false, y: true, z: true, w: false },
        Rotation4d::Yw => PlaneAxes { x: false, y: true, z: false, w: true },
        Rotation4d::Zw => PlaneAxes { x: false, y: false, z: true, w: true },
    }
}

impl Rotation4d {
    /// The axes this plane spans: the ones its control shows in color, the
    /// others in gray.
    pub fn axes(self) -> (a: PlaneAxes)
        ensures
            a == plane_axes(self),
    {
        match self {
            Rotation4d::Xy => PlaneAxes { x: true, y: true, z: false, w: false },
            Rotation4d::Xz => PlaneAxes { x: true, y: false, z: true, w: false },
            Rotation4d::Xw => PlaneAxes { x: true, y: false, z: false, w: true },
            Rotation4d::Yz => PlaneAxes { x: false, y: true, z: true, w: false },
            Rotation4d::Yw => PlaneAxes { x: false, y: true, z: false, w: true },
            Rotation4d::Zw => PlaneAxes { x: false, y: false, z: true, w: true },
        }
    }
}

/// The number of axes marked in `a`.
pub open spec fn axes_count(a: PlaneAxes) -> int {
    (if a.x { 1int } else { 0 }) + (if a.y { 1int } else { 0 }) + (if a.z { 1int } else { 0 })
        + (if a.w { 1int } else { 0 })
}

/// Every rotation plane spans exactly two axes, and different planes span
/// different pairs of axes.
pub proof fn law_plane_axes(r: Rotation4d, q: Rotation4d)
    ensures
        axes_count(plane_axes(r)) == 2,
        plane_axes(r) == plane_axes(q) ==> r == q,
{
}

/// The kind of scene.
#[derive(PartialEq, Eq, Structural, Clone, Copy, Debug)]
pub enum SceneType {
    FlatlandSpaceland,
    Aquarium,
    EntangledPhotons,
}

/// An object of the scene: `number_of_atoms` atoms from `start_index` on.
#[derive(PartialEq, Eq, Structural, Clone, Copy, Debug)]
pub struct ObjectSpan {
    pub start_index: usize,
    pub number_of_atoms: usize,
}

/// Whether the object `s` holds the atom with index `a`.
pub open spec fn span_contains(s: ObjectSpan, a: int) -> bool {
    s.start_index <= a < s.start_index + s.number_of_atoms
}

/// Whether the spans lie one after the other from atom 0 and end at `total`.
pub open spec fn tiles(spans: Seq<ObjectSpan>, total: int) -> bool {
    &&& spans.len() == 0 ==> total == 0
    &&& spans.len() > 0 ==> spans[0].start_index == 0
        && spans.last().start_index + spans.last().number_of_atoms == total
    &&& forall|i: int| 0 <= i < spans.len() - 1
        ==> #[trigger] spans[i + 1].start_index == spans[i].start_index + spans[i].number_of_atoms
}

/// Whether every entry of `group` names one of `n` objects.
pub open spec fn group_valid(group: Seq<usize>, n: int) -> bool {
    forall|k: int| 0 <= k < group.len() ==> #[trigger] group[k] < n
}

/// Whether some object of `group` holds the atom `a`.
pub open spec fn group_holds(spans: Seq<ObjectSpan>, group: Seq<usize>, a: int) -> bool {
    exists|k: int| 0 <= k < group.len() && span_contains(spans[#[trigger] group[k] as int], a)
}

pub open spec fn sum_of(counts: Seq<usize>) -> int
    decreases counts.len(),
{
    if counts.len() == 0 {
        0
    } else {
        sum_of(counts.drop_last()) + counts.last()
    }
}

/// What dragging an atom moves.
#[derive(PartialEq, Eq, Structural, Clone, Copy, Debug)]
pub enum DragPlan {
    /// The atom belongs to no object.
    Nothing,
    /// Only the object with this index turns.
    Object(usize),
    /// Every object takes the drag of the object with this index, plus the new drag.
    AllFrom(usize),
}

/// What pressing the control of a rotation plane does.
#[derive(PartialEq, Eq, Structural, Clone, Copy, Debug)]
pub enum RotationPress {
    /// A new plane was chosen and the higher-dimension view starts.
    Switched,
    /// The plane was already chosen; the higher-dimension view stops.
    Stopped,
    /// The plane was already chosen and the view was not on; nothing changes.
    Unchanged,
}

/// The abstract state of a scene: the objects as spans over the atoms, the four
/// groups of object indices, and the switches of the view.
pub struct SceneView {
    pub total_atoms: int,
    pub spans: Seq<ObjectSpan>,
    pub spaceland: Seq<usize>,
    pub flatland: Seq<usize>,
    pub planar: Seq<usize>,
    pub hyper: Seq<usize>,
    pub scene_type: SceneType,
    pub is_projection_view: bool,
    pub is_high_dimension_view: bool,
    pub is_synchronized_drag: bool,
    pub rotation: Rotation4d,
    pub photon1: usize,
    pub photon2: usize,
}

impl SceneView {
    /// The objects tile the atoms, and every group names existing objects.
    pub open spec fn wf(self) -> bool {
        &&& tiles(self.spans, self.total_atoms)
        &&& group_valid(self.spaceland, self.spans.len() as int)
        &&& group_valid(self.flatland, self.spans.len() as int)
        &&& group_valid(self.planar, self.spans.len() as int)
        &&& group_valid(self.hyper, self.spans.len() as int)
    }

    /// A scene with no objects, all views off and rotation plane `Xz`.
    pub open spec fn blank(scene_type: SceneType, is_synchronized_drag: bool) -> SceneView {
        SceneView {
            total_atoms: 0,
            spans: Seq::empty(),
            spaceland: Seq::empty(),
            flatland: Seq::empty(),
            planar: Seq::empty(),
            hyper: Seq::empty(),
            scene_type,
            is_projection_view: false,
            is_high_dimension_view: false,
            is_synchronized_drag,
            rotation: Rotation4d::Xz,
            photon1: 0,
            photon2: 0,
        }
    }

    /// The same scene with the four groups replaced.
    pub open spec fn with_groups(
        self,
        spaceland: Seq<usize>,
        flatland: Seq<usize>,
        planar: Seq<usize>,
        hyper: Seq<usize>,
    ) -> SceneView {
        SceneView { spaceland, flatland, planar, hyper, ..self }
    }

    /// The same scene with one more object of `n` atoms after all others.
    pub open spec fn with_object(self, n: int) -> SceneView {
        SceneView {
            total_atoms: self.total_atoms + n,
            spans: self.spans.push(
                ObjectSpan { start_index: self.total_atoms as usize, number_of_atoms: n as usize },
            ),
            ..self
        }
    }

    /// The same scene with the projection view switched.
    pub open spec fn with_projection_toggled(self) -> SceneView {
        SceneView { is_projection_view: !self.is_projection_view, ..self }
    }

    /// The same scene with the higher-dimension view switched.
    pub open spec fn with_high_dimension_toggled(self) -> SceneView {
        SceneView { is_high_dimension_view: !self.is_high_dimension_view, ..self }
    }

    /// The same scene with all view switches off.
    pub open spec fn with_view_reset(self) -> SceneView {
        SceneView {
            is_projection_view: false,
            is_high_dimension_view: false,
            is_synchronized_drag: false,
            ..self
        }
    }

    /// The same scene after pressing the control of rotation plane `r`.
    pub open spec fn with_rotation_pressed(self, r: Rotation4d) -> SceneView {
        if self.rotation != r {
            SceneView { rotation: r, is_high_dimension_view: true, ..self }
        } else {
            SceneView { is_high_dimension_view: false, ..self }
        }
    }

    /// What pressing the control of rotation plane `r` does.
    pub open spec fn rotation_press(self, r: Rotation4d) -> RotationPress {
        if self.rotation != r {
            RotationPress::Switched
        } else if self.is_high_dimension_view {
            RotationPress::Stopped
        } else {
            RotationPress::Unchanged
        }
    }
}

/// The total of the atoms laid out by the spans: where the last one ends.
pub open spec fn spans_end(spans: Seq<ObjectSpan>) -> int {
    if spans.len() == 0 {
        0
    } else {
        spans.last().start_index + spans.last().number_of_atoms
    }
}

/// The objects, groups and view switches of a 4D scene. The atom total is where
/// the last object ends.
pub struct SceneCore {
    objects: Vec<ObjectSpan>,
    objects_spaceland: Vec<usize>,
    objects_flatland: Vec<usize>,
    objects_planar: Vec<usize>,
    objects_4d: Vec<usize>,
    scene_type: SceneType,
    is_projection_view: bool,
    is_high_dimension_view: bool,
    is_synchronized_drag: bool,
    rotation: Rotation4d,
    photon1: usize,
    photon2: usize,
}

impl View for SceneCore {
    type V = SceneView;

    closed spec fn view(&self) -> SceneView {
        SceneView {
            total_atoms: spans_end(self.objects@),
            spans: self.objects@,
            spaceland: self.objects_spaceland@,
            flatland: self.objects_flatland@,
            planar: self.objects_planar@,
            hyper: self.objects_4d@,
            scene_type: self.scene_type,
            is_projection_view: self.is_projection_view,
            is_high_dimension_view: self.is_high_dimension_view,
            is_synchronized_drag: self.is_synchronized_drag,
            rotation: self.rotation,
            photon1: self.photon1,
            photon2: self.photon2,
        }
    }
}

impl SceneCore {
    /// Every scene is well formed and its atoms can be counted in a `usize`.
    #[verifier::type_invariant]
    spec fn well_formed(self) -> bool {
        &&& self@.wf()
        &&& self@.total_atoms <= usize::MAX
    }

    /// An empty scene of the given type; the views are off and the rotation plane is `Xz`.
    pub fn empty(scene_type: SceneType, is_synchronized_drag: bool) -> (s: Self)
        ensures
            s@ == SceneView::blank(scene_type, is_synchronized_drag),
            s@.wf(),
    {
        SceneCore {
            objects: Vec::new(),
            objects_spaceland: Vec::new(),
            objects_flatland: Vec::new(),
            objects_planar: Vec::new(),
            objects_4d: Vec::new(),
            scene_type,
            is_projection_view: false,
            is_high_dimension_view: false,
            is_synchronized_drag,
            rotation: Rotation4d::Xz,
            photon1: 0,
            photon2: 0,
        }
    }

    pub fn scene_type(&self) -> (t: SceneType)
        ensures
            t == self@.scene_type,
    {
        self.scene_type
    }

    pub fn is_projection_view(&self) -> (b: bool)
        ensures
            b == self@.is_projection_view,
    {
        self.is_projection_view
    }

    pub fn is_high_dimension_view(&self) -> (b: bool)
        ensures
            b == self@.is_high_dimension_view,
    {
        self.is_high_dimension_view
    }

    pub fn is_synchronized_drag(&self) -> (b: bool)
        ensures
            b == self@.is_synchronized_drag,
    {
        self.is_synchronized_drag
    }

    pub fn rotation(&self) -> (r: Rotation4d)
        ensures
            r == self@.rotation,
    {
        self.rotation
    }

    pub fn photon1(&self) -> (i: usize)
        ensures
            i == self@.photon1,
    {
        self.photon1
    }

    pub fn photon2(&self) -> (i: usize)
        ensures
            i == self@.photon2,
    {
        self.photon2
    }

    pub fn set_synchronized_drag(&mut self, on: bool)
        ensures
            final(self)@ == (SceneView { is_synchronized_drag: on, ..old(self)@ }),
    {
        proof {
            use_type_invariant(&*self);
        }
        self.is_synchronized_drag = on;
    }

    /// Marks the atoms `photon1` and `photon2` as the two entangled photons.
    pub fn set_photons(&mut self, photon1: usize, photon2: usize)
        ensures
            final(self)@ == (SceneView { photon1, photon2, ..old(self)@ }),
    {
        proof {
            use_type_invariant(&*self);
        }
        self.photon1 = photon1;
        self.photon2 = photon2;
    }

    /// Switches the projection view.
    pub fn toggle_projection_view(&mut self)
        ensures
            final(self)@ == old(self)@.with_projection_toggled(),
    {
        proof {
            use_type_invariant(&*self);
        }
        self.is_projection_view = !self.is_projection_view;
    }

    /// Switches the higher-dimension view and returns whether it is now on.
    pub fn toggle_high_dimension_view(&mut self) -> (on: bool)
        ensures
            final(self)@ == old(self)@.with_high_dimension_toggled(),
            on == final(self)@.is_high_dimension_view,
    {
        proof {
            use_type_invariant(&*self);
        }
        self.is_high_dimension_view = !self.is_high_dimension_view;
        self.is_high_dimension_view
    }

    /// Turns the higher-dimension view on.
    pub fn force_high_dimension_view(&mut self)
        ensures
            final(self)@ == (SceneView { is_high_dimension_view: true, ..old(self)@ }),
    {
        proof {
            use_type_invariant(&*self);
        }
        self.is_high_dimension_view = true;
    }

    /// Turns all view switches off.
    pub fn reset_view(&mut self)
        ensures
            final(self)@ == old(self)@.with_view_reset(),
    {
        proof {
            use_type_invariant(&*self);
        }
        self.is_projection_view = false;
        self.is_high_dimension_view = false;
        self.is_synchronized_drag = false;
    }

    /// Presses the control of rotation plane `r`: a new plane is chosen and the
    /// higher-dimension view starts; pressing the chosen plane stops the view.
    pub fn press_rotation(&mut self, r: Rotation4d) -> (p: RotationPress)
        ensures
            p == old(self)@.rotation_press(r),
            final(self)@ == old(self)@.with_rotation_pressed(r),
    {
        proof {
            use_type_invariant(&*self);
        }
        if self.rotation != r {
            self.rotation = r;
            self.force_high_dimension_view();
            RotationPress::Switched
        } else if self.is_high_dimension_view {
            self.toggle_high_dimension_view();
            RotationPress::Stopped
        } else {
            RotationPress::Unchanged
        }
    }

    fn set_groups(
        &mut self,
        spaceland: Vec<usize>,
        flatland: Vec<usize>,
        planar: Vec<usize>,
        hyper: Vec<usize>,
    )
        requires
            group_valid(spaceland@, old(self)@.spans.len() as int),
            group_valid(flatland@, old(self)@.spans.len() as int),
            group_valid(planar@, old(self)@.spans.len() as int),
            group_valid(hyper@, old(self)@.spans.len() as int),
        ensures
            final(self)@ == old(self)@.with_groups(spaceland@, flatland@, planar@, hyper@),
            final(self)@.wf(),
    {
        proof {
            use_type_invariant(&*self);
        }
        self.objects_spaceland = spaceland;
        self.objects_flatland = flatland;
        self.objects_planar = planar;
        self.objects_4d = hyper;
    }

    /// The two-row scene: Spaceland shows a heart, a cube, a hypercube surface and
    /// hypercube edges (objects 0 to 3); Flatland a circle, a square outline, a cube
    /// surface and cube edges (objects 4 to 7). The circle and the square are the
    /// planar objects, the two hypercube shapes the four-dimensional ones. Each
    /// argument is the number of atoms of that object.
    pub fn new_flatland_spaceland(
        heart: usize,
        cube3d: usize,
        cube4d: usize,
        cube4d_edges: usize,
        circle: usize,
        square: usize,
        cube: usize,
        cube_edges: usize,
    ) -> (s: Self)
        requires
            heart + cube3d + cube4d + cube4d_edges + circle + square + cube + cube_edges <= usize::MAX,
        ensures
            s@ == SceneView::blank(SceneType::FlatlandSpaceland, false)
                .with_object(heart as int).with_object(cube3d as int)
                .with_object(cube4d as int).with_object(cube4d_edges as int)
                .with_object(circle as int).with_object(square as int)
                .with_object(cube as int).with_object(cube_edges as int)
                .with_groups(seq![0, 1, 2, 3], seq![4, 5, 6, 7], seq![4, 5], seq![2, 3]),
            s@.wf(),
    {
        let mut s = SceneCore::empty(SceneType::FlatlandSpaceland, false);
        let heart_index = s.add_object(heart);
        let cube3d_index = s.add_object(cube3d);
        let cube4d_index = s.add_object(cube4d);
        let cube4d_edges_index = s.add_object(cube4d_edges);
        let circle_index = s.add_object(circle);
        let square_index = s.add_object(square);
        let cube_index = s.add_object(cube);
        let cube_edges_index = s.add_object(cube_edges);
        s.set_groups(
            vec![heart_index, cube3d_index, cube4d_index, cube4d_edges_index],
            vec![circle_index, square_index, cube_index, cube_edges_index],
            vec![circle_index, square_index],
            vec![cube4d_index, cube4d_edges_index],
        );
        s
    }

    /// The aquarium scene: an aquarium (object 0), a hypercube holding hidden shapes
    /// composed of the parts `hidden_parts` (object 1) and a fish (object 2), all in
    /// Spaceland; dragging is synchronized.
    pub fn new_aquarium(aquarium: usize, hidden_parts: &Vec<usize>, fish: usize) -> (s: Self)
        requires
            aquarium + sum_of(hidden_parts@) + fish <= usize::MAX,
        ensures
            s@ == SceneView::blank(SceneType::Aquarium, true)
                .with_object(aquarium as int).with_object(sum_of(hidden_parts@))
                .with_object(fish as int)
                .with_groups(seq![0, 1, 2], Seq::empty(), Seq::empty(), Seq::empty()),
            s@.wf(),
    {
        let mut s = SceneCore::empty(SceneType::Aquarium, true);
        let index_aquarium = s.add_object(aquarium);
        let index_cube_4d = s.add_composed_object(hidden_parts);
        let index_fish = s.add_object(fish);
        s.set_groups(vec![index_aquarium, index_cube_4d, index_fish], Vec::new(), Vec::new(), Vec::new());
        s
    }

    /// The scene of the entangled photons: an aquarium (object 0), a blue fish
    /// (object 1), an orange fish (object 2) and a wormhole (object 3), all in
    /// Spaceland; dragging is synchronized.
    pub fn new_photons(aquarium: usize, fish_blue: usize, fish_orange: usize, wormhole: usize) -> (s: Self)
        requires
            aquarium + fish_blue + fish_orange + wormhole <= usize::MAX,
        ensures
            s@ == SceneView::blank(SceneType::EntangledPhotons, true)
                .with_object(aquarium as int).with_object(fish_blue as int)
                .with_object(fish_orange as int).with_object(wormhole as int)
                .with_groups(seq![0, 1, 2, 3], Seq::empty(), Seq::empty(), Seq::empty()),
            s@.wf(),
    {
        let mut s = SceneCore::empty(SceneType::EntangledPhotons, true);
        let index_aquarium = s.add_object(aquarium);
        let index_fish_blue = s.add_object(fish_blue);
        let index_fish_orange = s.add_object(fish_orange);
        let index_wormhole = s.add_object(wormhole);
        s.set_groups(
            vec![index_aquarium, index_fish_blue, index_fish_orange, index_wormhole],
            Vec::new(),
            Vec::new(),
            Vec::new(),
        );
        s
    }

    /// The number of atoms of the scene.
    pub fn atom_count(&self) -> (n: usize)
        ensures
            n == self@.total_atoms,
    {
        proof {
            use_type_invariant(self);
        }
        let k = self.objects.len();
        if k == 0 {
            0
        } else {
            let last = self.objects[k - 1];
            last.start_index + last.number_of_atoms
        }
    }

    /// The number of objects of the scene.
    pub fn object_count(&self) -> (n: usize)
        ensures
            n == self@.spans.len(),
    {
        self.objects.len()
    }

    /// The atoms of object `index`, as the range `start..end`.
    pub fn range(&self, index: usize) -> (r: (usize, usize))
        requires
            index < self@.spans.len(),
        ensures
            r.0 == self@.spans[index as int].start_index,
            r.1 == self@.spans[index as int].start_index + self@.spans[index as int].number_of_atoms,
            r.1 <= self@.total_atoms,
    {
        proof {
            use_type_invariant(self);
            lemma_span_below_total(self@.spans, self@.total_atoms, index as int);
        }
        let s = self.objects[index];
        (s.start_index, s.start_index + s.number_of_atoms)
    }

    /// The Spaceland objects, in placement order.
    pub fn objects_spaceland(&self) -> (g: &Vec<usize>)
        ensures
            g@ == self@.spaceland,
    {
        &self.objects_spaceland
    }

    /// The Flatland objects, in placement order.
    pub fn objects_flatland(&self) -> (g: &Vec<usize>)
        ensures
            g@ == self@.flatland,
    {
        &self.objects_flatland
    }

    /// Appends an object of `number_of_atoms` atoms after all present atoms and
    /// returns its index.
    pub fn add_object(&mut self, number_of_atoms: usize) -> (index: usize)
        requires
            old(self)@.total_atoms + number_of_atoms <= usize::MAX,
        ensures
            final(self)@ == old(self)@.with_object(number_of_atoms as int),
            final(self)@.wf(),
            index == old(self)@.spans.len(),
    {
        proof {
            use_type_invariant(&*self);
            law_added_object_holds_new_atoms(self@, number_of_atoms as int, 0);
        }
        let index = self.objects.len();
        let start_index = self.atom_count();
        let mut objects = self.objects.clone();
        assert(objects@ == self.objects@);
        objects.push(ObjectSpan { start_index, number_of_atoms });
        self.objects = objects;
        proof {
            use_type_invariant(&*self);
        }
        index
    }

    /// Appends one object made of several parts of `parts[k]` atoms each, laid out in
    /// order, and returns its index.
    pub fn add_composed_object(&mut self, parts: &Vec<usize>) -> (index: usize)
        requires
            old(self)@.total_atoms + sum_of(parts@) <= usize::MAX,
        ensures
            final(self)@ == old(self)@.with_object(sum_of(parts@)),
            final(self)@.wf(),
            index == old(self)@.spans.len(),
    {
        let mut number_of_atoms: usize = 0;
        let mut k: usize = 0;
        assert(parts@.take(0) =~= Seq::<usize>::empty());
        while k < parts.len()
            invariant
                0 <= k <= parts.len(),
                number_of_atoms == sum_of(parts@.take(k as int)),
                self@.total_atoms + sum_of(parts@) <= usize::MAX,
            decreases parts.len() - k,
        {
            assert(parts@.take(k + 1).drop_last() =~= parts@.take(k as int));
            proof {
                lemma_sum_prefix(parts@, k + 1);
            }
            number_of_atoms = number_of_atoms + parts[k];
            k = k + 1;
        }
        assert(parts@.take(parts.len() as int) =~= parts@);
        self.add_object(number_of_atoms)
    }

    /// The index of the object that holds atom `atom_index`, if any.
    pub fn object_of_atom(&self, atom_index: usize) -> (r: Option<usize>)
        ensures
            match r {
                Some(i) => {
                    &&& i < self@.spans.len()
                    &&& span_contains(self@.spans[i as int], atom_index as int)
                    &&& forall|j: int| 0 <= j < i ==> !span_contains(#[trigger] self@.spans[j], atom_index as int)
                },
                None => forall|i: int| 0 <= i < self@.spans.len()
                    ==> !span_contains(#[trigger] self@.spans[i], atom_index as int),
            },
    {
        proof {
            use_type_invariant(self);
        }
        let mut i: usize = 0;
        while i < self.objects.len()
            invariant
                self@.wf(),
                self@.total_atoms <= usize::MAX,
                0 <= i <= self@.spans.len(),
                forall|j: int| 0 <= j < i ==> !span_contains(#[trigger] self@.spans[j], atom_index as int),
            decreases self@.spans.len() - i,
        {
            proof {
                lemma_span_below_total(self@.spans, self@.total_atoms, i as int);
            }
            let s = self.objects[i];
            if s.start_index <= atom_index && atom_index < s.start_index + s.number_of_atoms {
                return Some(i);
            }
            i = i + 1;
        }
        None
    }

    /// What a drag on atom `atom_index` turns: nothing when no object holds the atom,
    /// every object when dragging is synchronized, else the object that holds it.
    pub fn drag_plan(&self, atom_index: usize) -> (p: DragPlan)
        ensures
            match p {
                DragPlan::Nothing => forall|i: int| 0 <= i < self@.spans.len()
                    ==> !span_contains(#[trigger] self@.spans[i], atom_index as int),
                DragPlan::Object(i) => !self@.is_synchronized_drag && i < self@.spans.len()
                    && span_contains(self@.spans[i as int], atom_index as int)
                    && forall|j: int| 0 <= j < i ==> !span_contains(#[trigger] self@.spans[j], atom_index as int),
                DragPlan::AllFrom(i) => self@.is_synchronized_drag && i < self@.spans.len()
                    && span_contains(self@.spans[i as int], atom_index as int)
                    && forall|j: int| 0 <= j < i ==> !span_contains(#[trigger] self@.spans[j], atom_index as int),
            },
    {
        match self.object_of_atom(atom_index) {
            None => DragPlan::Nothing,
            Some(i) => if self.is_synchronized_drag {
                DragPlan::AllFrom(i)
            } else {
                DragPlan::Object(i)
            },
        }
    }

    fn group_has_atom(&self, group: &Vec<usize>, atom_index: usize) -> (b: bool)
        requires
            group_valid(group@, self@.spans.len() as int),
        ensures
            b == group_holds(self@.spans, group@, atom_index as int),
    {
        proof {
            use_type_invariant(self);
        }
        let mut k: usize = 0;
        while k < group.len()
            invariant
                self@.wf(),
                self@.total_atoms <= usize::MAX,
                group_valid(group@, self@.spans.len() as int),
                0 <= k <= group.len(),
                forall|j: int| 0 <= j < k
                    ==> !span_contains(self@.spans[#[trigger] group@[j] as int], atom_index as int),
            decreases group.len() - k,
        {
            let index = group[k];
            proof {
                lemma_span_below_total(self@.spans, self@.total_atoms, index as int);
            }
            let s = self.objects[index];
            if s.start_index <= atom_index && atom_index < s.start_index + s.number_of_atoms {
                return true;
            }
            k = k + 1;
        }
        false
    }

    /// Whether atom `atom_index` belongs to a Flatland object.
    pub fn is_2d(&self, atom_index: usize) -> (b: bool)
        ensures
            b == group_holds(self@.spans, self@.flatland, atom_index as int),
    {
        proof {
            use_type_invariant(self);
        }
        self.group_has_atom(&self.objects_flatland, atom_index)
    }

    /// Whether atom `atom_index` belongs to a planar object.
    pub fn is_planar(&self, atom_index: usize) -> (b: bool)
        ensures
            b == group_holds(self@.spans, self@.planar, atom_index as int),
    {
        proof {
            use_type_invariant(self);
        }
        self.group_has_atom(&self.objects_planar, atom_index)
    }

    /// Whether atom `atom_index` belongs to a four-dimensional object.
    pub fn is_4d(&self, atom_index: usize) -> (b: bool)
        ensures
            b == group_holds(self@.spans, self@.hyper, atom_index as int),
    {
        proof {
            use_type_invariant(self);
        }
        self.group_has_atom(&self.objects_4d, atom_index)
    }
}

pub proof fn lemma_sum_prefix(counts: Seq<usize>, k: int)
    requires
        0 <= k <= counts.len(),
    ensures
        0 <= sum_of(counts.take(k)) <= sum_of(counts),
    decreases counts.len() - k,
{
    if k < counts.len() {
        lemma_sum_prefix(counts, k + 1);
        assert(counts.take(k + 1).drop_last() =~= counts.take(k));
        lemma_sum_nonneg(counts.take(k));
    } else {
        assert(counts.take(k) =~= counts);
        lemma_sum_nonneg(counts);
    }
}

proof fn lemma_sum_nonneg(counts: Seq<usize>)
    ensures
        sum_of(counts) >= 0,
    decreases counts.len(),
{
    if counts.len() > 0 {
        lemma_sum_nonneg(counts.drop_last());
    }
}

/// In a tiling, object `i` ends no later than object `j` starts when `i < j`,
/// and every object ends within the total.
pub proof fn lemma_span_order(spans: Seq<ObjectSpan>, total: int, i: int, j: int)
    requires
        tiles(spans, total),
        0 <= i < j < spans.len(),
    ensures
        spans[i].start_index + spans[i].number_of_atoms <= spans[j].start_index,
    decreases j - i,
{
    assert(spans[(j - 1) + 1].start_index == spans[j - 1].start_index + spans[j - 1].number_of_atoms);
    if i < j - 1 {
        lemma_span_order(spans, total, i, j - 1);
    }
}

pub proof fn lemma_span_below_total(spans: Seq<ObjectSpan>, total: int, i: int)
    requires
        tiles(spans, total),
        0 <= i < spans.len(),
    ensures
        spans[i].start_index + spans[i].number_of_atoms <= total,
{
    if i < spans.len() - 1 {
        lemma_span_order(spans, total, i, spans.len() - 1);
    }
}


/// The objects of a well-formed scene partition its atoms: every atom index below
/// the total lies in exactly one object, and no object holds any other index.
pub proof fn law_objects_partition_atoms(v: SceneView, a: int)
    requires
        v.wf(),
    ensures
        0 <= a < v.total_atoms ==> exists|i: int| 0 <= i < v.spans.len() && span_contains(#[trigger] v.spans[i], a),
        forall|i: int, j: int| 0 <= i < v.spans.len() && 0 <= j < v.spans.len()
            && span_contains(#[trigger] v.spans[i], a) && span_contains(#[trigger] v.spans[j], a) ==> i == j,
        !(0 <= a < v.total_atoms) ==> forall|i: int| 0 <= i < v.spans.len()
            ==> !span_contains(#[trigger] v.spans[i], a),
{
    assert forall|i: int, j: int| 0 <= i < v.spans.len() && 0 <= j < v.spans.len()
        && span_contains(#[trigger] v.spans[i], a) && span_contains(#[trigger] v.spans[j], a) implies i == j by {
        if i < j {
            lemma_span_order(v.spans, v.total_atoms, i, j);
        } else if j < i {
            lemma_span_order(v.spans, v.total_atoms, j, i);
        }
    }
    assert forall|i: int| 0 <= i < v.spans.len() && !(0 <= a < v.total_atoms)
        implies !span_contains(#[trigger] v.spans[i], a) by {
        lemma_span_below_total(v.spans, v.total_atoms, i);
    }
    if 0 <= a < v.total_atoms {
        lemma_some_span_holds(v.spans, v.total_atoms, a);
    }
}

proof fn lemma_some_span_holds(spans: Seq<ObjectSpan>, total: int, a: int)
    requires
        tiles(spans, total),
        0 <= a < total,
    ensures
        exists|i: int| 0 <= i < spans.len() && span_contains(#[trigger] spans[i], a),
    decreases spans.len(),
{
    let n = spans.len() as int;
    if span_contains(spans[n - 1], a) {
        assert(span_contains(spans[n - 1], a));
    } else {
        let rest = spans.drop_last();
        let rest_total = spans[n - 1].start_index as int;
        assert(tiles(rest, rest_total)) by {
            if rest.len() > 0 {
                assert(spans[(n - 2) + 1].start_index
                    == spans[n - 2].start_index + spans[n - 2].number_of_atoms);
            }
            assert forall|i: int| 0 <= i < rest.len() - 1 implies
                #[trigger] rest[i + 1].start_index == rest[i].start_index + rest[i].number_of_atoms by {
                assert(spans[i + 1].start_index == spans[i].start_index + spans[i].number_of_atoms);
            }
        }
        lemma_some_span_holds(rest, rest_total, a);
        let i = choose|i: int| 0 <= i < rest.len() && span_contains(#[trigger] rest[i], a);
        assert(span_contains(spans[i], a));
    }
}

/// Switching the projection view twice gives back the same scene.
pub proof fn law_projection_toggle_involution(v: SceneView)
    ensures
        v.with_projection_toggled().with_projection_toggled() == v,
{
}

/// Switching the higher-dimension view twice gives back the same scene.
pub proof fn law_high_dimension_toggle_involution(v: SceneView)
    ensures
        v.with_high_dimension_toggled().with_high_dimension_toggled() == v,
{
}

/// Resetting the view turns every switch off, keeps the objects, and a second
/// reset changes nothing.
pub proof fn law_view_reset(v: SceneView)
    ensures
        !v.with_view_reset().is_projection_view,
        !v.with_view_reset().is_high_dimension_view,
        !v.with_view_reset().is_synchronized_drag,
        v.with_view_reset().spans == v.spans,
        v.with_view_reset().total_atoms == v.total_atoms,
        v.with_view_reset().with_view_reset() == v.with_view_reset(),
{
}

/// Pressing the control of a new rotation plane starts the higher-dimension view
/// in that plane; pressing it again stops the view and keeps the plane.
pub proof fn law_rotation_press_twice(v: SceneView, r: Rotation4d)
    requires
        v.rotation != r,
    ensures
        v.rotation_press(r) == RotationPress::Switched,
        v.with_rotation_pressed(r).rotation == r,
        v.with_rotation_pressed(r).is_high_dimension_view,
        v.with_rotation_pressed(r).rotation_press(r) == RotationPress::Stopped,
        v.with_rotation_pressed(r).with_rotation_pressed(r)
            == (SceneView { rotation: r, is_high_dimension_view: false, ..v }),
{
}

/// Adding an object keeps the scene well formed; the new object holds exactly the
/// atoms from the old total up to the new total.
pub proof fn law_added_object_holds_new_atoms(v: SceneView, n: int, a: int)
    requires
        v.wf(),
        0 <= n,
        v.total_atoms + n <= usize::MAX,
    ensures
        v.with_object(n).wf(),
        span_contains(v.with_object(n).spans.last(), a) <==> v.total_atoms <= a < v.total_atoms + n,
        forall|i: int| 0 <= i < v.spans.len() ==> v.with_object(n).spans[i] == v.spans[i],
{
    let w = v.with_object(n);
    assert forall|i: int| 0 <= i < w.spans.len() - 1 implies
        #[trigger] w.spans[i + 1].start_index == w.spans[i].start_index + w.spans[i].number_of_atoms by {
        if i < w.spans.len() - 2 {
            assert(w.spans[i + 1] == v.spans[i + 1]);
        }
    }
}


/// In a two-row layout, where objects 0 to 3 form Spaceland and objects 4 to 7
/// Flatland, every atom belongs to exactly one of the two rows.
pub proof fn law_two_rows_split_atoms(v: SceneView, a: int)
    requires
        v.wf(),
        v.spans.len() == 8,
        v.spaceland == seq![0usize, 1, 2, 3],
        v.flatland == seq![4usize, 5, 6, 7],
        0 <= a < v.total_atoms,
    ensures
        group_holds(v.spans, v.spaceland, a) != group_holds(v.spans, v.flatland, a),
{
    law_objects_partition_atoms(v, a);
    let i = choose|i: int| 0 <= i < v.spans.len() && span_contains(#[trigger] v.spans[i], a);
    if i < 4 {
        assert(v.spaceland[i] == i);
        assert(group_holds(v.spans, v.spaceland, a));
        if group_holds(v.spans, v.flatland, a) {
            let k = choose|k: int| 0 <= k < v.flatland.len()
                && span_contains(v.spans[#[trigger] v.flatland[k] as int], a);
            assert(v.flatland[k] as int >= 4);
        }
    } else {
        assert(v.flatland[i - 4] == i);
        assert(group_holds(v.spans, v.flatland, a));
        if group_holds(v.spans, v.spaceland, a) {
            let k = choose|k: int| 0 <= k < v.spaceland.len()
                && span_contains(v.spans[#[trigger] v.spaceland[k] as int], a);
            assert(v.spaceland[k] as int <= 3);
        }
    }
}

} // verus!
