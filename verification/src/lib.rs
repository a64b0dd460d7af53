//! Data model of Blockbench `.bbmodel` files and the verified logic that
//! works on it: element look-ups, triangulation plans, texture planning and
//! grouping of triangles into render sections.
//!
//! Floating-point components are carried by their IEEE-754 bit patterns
//! (`u32`), so that values pass through the library unchanged; arithmetic on
//! them happens in the application around the library.

use vstd::prelude::*;

use animation::{AnimationController, Animation, Interpolation, LoopMode};
use collections::{Collection, Group, OutlinerNode};
use element::{Cube, Element, Mesh, TriPlan, F32_ONE};
use metadata::{Metadata, Resolution};
use keyed::KeyedList;
use texture::Texture;

pub mod animation;
pub mod collections;
pub mod element;
pub mod keyed;
pub mod metadata;
pub mod prelude;
pub mod render;
pub mod texture;



verus! {

/// A point or vector in 3D space, `[x, y, z]`, each component the bit
/// pattern of an `f32`.
pub type Vec3 = [u32; 3];

/// A 2D coordinate, `[u, v]`, each component the bit pattern of an `f32`.
pub type Vec2 = [u32; 2];

/// A UV rectangle, `[u_min, v_min, u_max, v_max]`, each component the bit
/// pattern of an `f32`.
pub type UvRect = [u32; 4];

/// A 128-bit UUID, held by its integer value.
#[derive(Clone, Copy, Debug, PartialEq, Eq, Structural)]
pub struct Uuid(pub u128);

/// A single render-ready triangle: per-vertex positions, UV coordinates and
/// normals, and an optional index into the model's textures.
#[derive(Clone, Debug)]
pub struct Tri {
    pub positions: [Vec3; 3],
    pub uvs: [Vec2; 3],
    pub normals: [Vec3; 3],
    pub texture: Option<u32>,
}


// ---------------------------------------------------------------------------
// Defaults used for absent fields
// ---------------------------------------------------------------------------

/// The value an absent flag defaults to where it is on by default.
pub fn default_true() -> (r: bool)
    ensures
        r,
{
    true
}

/// The loop mode of an animation that names none: looping.
pub fn default_loop_mode() -> (r: LoopMode)
    ensures
        r is Loop,
{
    LoopMode::Loop
}

/// The length of an animation that names none: `1.0` (as `f32` bits).
pub fn default_one() -> (r: u32)
    ensures
        r == F32_ONE,
{
    F32_ONE
}

/// The interpolation of a keyframe that names none: linear.
pub fn default_interpolation() -> (r: Interpolation)
    ensures
        r is Linear,
{
    Interpolation::Linear
}

// ---------------------------------------------------------------------------
// Display settings
// ---------------------------------------------------------------------------

/// A per-slot display transform (rotation, translation, scale).
#[derive(Clone, Copy, Debug)]
pub struct DisplaySlot {
    pub rotation: Vec3,
    pub translation: Vec3,
    pub scale: Vec3,
}

impl Default for DisplaySlot {
    /// All components `0.0`.
    fn default() -> (r: Self)
        ensures
            r.rotation == [0u32, 0u32, 0u32] && r.translation == [0u32, 0u32, 0u32] && r.scale == [
                0u32,
                0u32,
                0u32,
            ],
    {
        DisplaySlot { rotation: [0, 0, 0], translation: [0, 0, 0], scale: [0, 0, 0] }
    }
}

/// Item-display transformations keyed by slot name (such as
/// `thirdperson_righthand`, `gui`, `ground`, `head`).
#[derive(Clone, Debug)]
pub struct Display(pub KeyedList<DisplaySlot>);

// ---------------------------------------------------------------------------
// Root document
// ---------------------------------------------------------------------------

/// A `.bbmodel` document (format version 5.0).
#[derive(Debug)]
pub struct BBModel {
    pub meta: Metadata,
    pub name: Option<String>,
    pub resolution: Option<Resolution>,
    pub elements: Vec<Element>,
    pub groups: Vec<Group>,
    pub outliner: Vec<OutlinerNode>,
    pub textures: Vec<Texture>,
    pub animations: Vec<Animation>,
    pub animation_controllers: Vec<AnimationController>,
    pub display: Option<Display>,
    pub collections: Vec<Collection>,
}

/// An empty document: default metadata, no name, resolution or display
/// settings, and every list empty.
pub open spec fn is_empty_model(m: BBModel) -> bool {
    &&& metadata::is_default_metadata(m.meta)
    &&& m.name is None
    &&& m.resolution is None
    &&& m.elements@.len() == 0
    &&& m.groups@.len() == 0
    &&& m.outliner@.len() == 0
    &&& m.textures@.len() == 0
    &&& m.animations@.len() == 0
    &&& m.animation_controllers@.len() == 0
    &&& m.display is None
    &&& m.collections@.len() == 0
}

impl Default for BBModel {
    /// An empty document.
    fn default() -> (r: Self)
        ensures
            is_empty_model(r),
    {
        BBModel {
            meta: Metadata::default(),
            name: None,
            resolution: None,
            elements: Vec::new(),
            groups: Vec::new(),
            outliner: Vec::new(),
            textures: Vec::new(),
            animations: Vec::new(),
            animation_controllers: Vec::new(),
            display: None,
            collections: Vec::new(),
        }
    }
}


/// The cubes among `s`, in order.
pub open spec fn cubes_of(s: Seq<Element>) -> Seq<Cube>
    decreases s.len(),
{
    if s.len() == 0 {
        Seq::empty()
    } else {
        let rest = cubes_of(s.drop_last());
        match s.last() {
            Element::Cube(c) => rest.push(c),
            Element::Mesh(_) => rest,
        }
    }
}

/// The meshes among `s`, in order.
pub open spec fn meshes_of(s: Seq<Element>) -> Seq<Mesh>
    decreases s.len(),
{
    if s.len() == 0 {
        Seq::empty()
    } else {
        let rest = meshes_of(s.drop_last());
        match s.last() {
            Element::Mesh(m) => rest.push(m),
            Element::Cube(_) => rest,
        }
    }
}

/// The element is both exported and visible.
pub open spec fn is_visible(e: Element) -> bool {
    match e {
        Element::Cube(c) => c.export && c.visibility,
        Element::Mesh(m) => m.export && m.visibility,
    }
}

/// The visible elements among `s`, in order.
pub open spec fn visible_of(s: Seq<Element>) -> Seq<Element>
    decreases s.len(),
{
    if s.len() == 0 {
        Seq::empty()
    } else {
        let rest = visible_of(s.drop_last());
        if is_visible(s.last()) {
            rest.push(s.last())
        } else {
            rest
        }
    }
}

/// The triangles of the elements of `s`, element after element.
pub open spec fn model_tris(s: Seq<Element>) -> Seq<TriPlan>
    decreases s.len(),
{
    if s.len() == 0 {
        Seq::empty()
    } else {
        model_tris(s.drop_last()) + element::element_tris(s.last())
    }
}

/// `i` is the first position of `s` whose element has UUID `u`.
pub open spec fn is_first_element(s: Seq<Element>, u: Uuid, i: int) -> bool {
    &&& 0 <= i < s.len()
    &&& element::spec_element_uuid(s[i]) == u
    &&& forall|j: int| 0 <= j < i ==> element::spec_element_uuid(s[j]) != u
}

/// `i` is the first position of `s` whose group has UUID `u`.
pub open spec fn is_first_group(s: Seq<Group>, u: Uuid, i: int) -> bool {
    &&& 0 <= i < s.len()
    &&& s[i].uuid == u
    &&& forall|j: int| 0 <= j < i ==> s[j].uuid != u
}

/// `i` is the first position of `s` whose texture has UUID `u`.
pub open spec fn is_first_texture(s: Seq<Texture>, u: Uuid, i: int) -> bool {
    &&& 0 <= i < s.len()
    &&& s[i].uuid == Some(u)
    &&& forall|j: int| 0 <= j < i ==> s[j].uuid != Some(u)
}

/// `i` is the first position of `s` whose collection has UUID `u`.
pub open spec fn is_first_collection(s: Seq<Collection>, u: Uuid, i: int) -> bool {
    &&& 0 <= i < s.len()
    &&& s[i].uuid == u
    &&& forall|j: int| 0 <= j < i ==> s[j].uuid != u
}

/// Every element is a cube or a mesh: the cubes and the meshes together
/// number the elements.
pub proof fn lemma_cubes_meshes_partition(s: Seq<Element>)
    ensures
        cubes_of(s).len() + meshes_of(s).len() == s.len(),
    decreases s.len(),
{
    if s.len() > 0 {
        lemma_cubes_meshes_partition(s.drop_last());
    }
}

/// The cubes are the elements that are cubes and the meshes those that are
/// meshes, nothing dropped and nothing added.
pub proof fn lemma_cubes_meshes_members(s: Seq<Element>)
    ensures
        forall|j: int|
            0 <= j < s.len() ==> match #[trigger] s[j] {
                Element::Cube(c) => cubes_of(s).contains(c),
                Element::Mesh(m) => meshes_of(s).contains(m),
            },
        forall|i: int| 0 <= i < cubes_of(s).len() ==> s.contains(Element::Cube(#[trigger] cubes_of(s)[i])),
        forall|i: int| 0 <= i < meshes_of(s).len() ==> s.contains(Element::Mesh(#[trigger] meshes_of(s)[i])),
    decreases s.len(),
{
    if s.len() > 0 {
        let init = s.drop_last();
        lemma_cubes_meshes_members(init);
        let ci = cubes_of(init);
        let mi = meshes_of(init);
        match s.last() {
            Element::Cube(d) => {
                assert(cubes_of(s) == ci.push(d));
                assert(meshes_of(s) == mi);
            },
            Element::Mesh(d) => {
                assert(cubes_of(s) == ci);
                assert(meshes_of(s) == mi.push(d));
            },
        }
        assert forall|j: int| 0 <= j < s.len() implies match #[trigger] s[j] {
            Element::Cube(c) => cubes_of(s).contains(c),
            Element::Mesh(m) => meshes_of(s).contains(m),
        } by {
            if j < init.len() {
                assert(init[j] == s[j]);
                match s[j] {
                    Element::Cube(c) => {
                        let i = choose|i: int| 0 <= i < ci.len() && ci[i] == c;
                        assert(cubes_of(s)[i] == c);
                    },
                    Element::Mesh(m) => {
                        let i = choose|i: int| 0 <= i < mi.len() && mi[i] == m;
                        assert(meshes_of(s)[i] == m);
                    },
                }
            } else {
                match s[j] {
                    Element::Cube(c) => assert(cubes_of(s)[ci.len() as int] == c),
                    Element::Mesh(m) => assert(meshes_of(s)[mi.len() as int] == m),
                }
            }
        }
        assert forall|i: int| 0 <= i < cubes_of(s).len() implies s.contains(Element::Cube(#[trigger] cubes_of(s)[i])) by {
            if i < ci.len() {
                let j = choose|j: int| 0 <= j < init.len() && init[j] == Element::Cube(ci[i]);
                assert(s[j] == init[j]);
            } else {
                assert(s[s.len() - 1] == s.last());
            }
        }
        assert forall|i: int| 0 <= i < meshes_of(s).len() implies s.contains(Element::Mesh(#[trigger] meshes_of(s)[i])) by {
            if i < mi.len() {
                let j = choose|j: int| 0 <= j < init.len() && init[j] == Element::Mesh(mi[i]);
                assert(s[j] == init[j]);
            } else {
                assert(s[s.len() - 1] == s.last());
            }
        }
    }
}

/// Every visible element is exported and visible, and there are no more
/// of them than elements.
pub proof fn lemma_visible_elements(s: Seq<Element>)
    ensures
        visible_of(s).len() <= s.len(),
        forall|i: int| 0 <= i < visible_of(s).len() ==> is_visible(#[trigger] visible_of(s)[i]),
    decreases s.len(),
{
    if s.len() > 0 {
        lemma_visible_elements(s.drop_last());
    }
}

/// The visible elements are exactly the elements whose export flag and
/// visibility flag are both on, kept in their order: a cube or mesh that is
/// hidden, or not exported, is left out, and every one with both flags on
/// is there.
pub proof fn lemma_visible_elements_flags(s: Seq<Element>)
    ensures
        visible_of(s) == s.filter(
            |e: Element|
                match e {
                    Element::Cube(c) => c.export && c.visibility,
                    Element::Mesh(m) => m.export && m.visibility,
                },
        ),
        forall|i: int|
            0 <= i < visible_of(s).len() ==> match #[trigger] visible_of(s)[i] {
                Element::Cube(c) => c.export && c.visibility,
                Element::Mesh(m) => m.export && m.visibility,
            },
        forall|j: int|
            0 <= j < s.len() && match #[trigger] s[j] {
                Element::Cube(c) => c.export && c.visibility,
                Element::Mesh(m) => m.export && m.visibility,
            } ==> visible_of(s).contains(s[j]),
    decreases s.len(),
{
    let pred = |e: Element|
        match e {
            Element::Cube(c) => c.export && c.visibility,
            Element::Mesh(m) => m.export && m.visibility,
        };
    reveal_with_fuel(Seq::filter, 1);
    if s.len() > 0 {
        lemma_visible_elements_flags(s.drop_last());
        assert(visible_of(s.drop_last()) == s.drop_last().filter(pred));
    }
    assert(visible_of(s) == s.filter(pred));
    assert forall|i: int| 0 <= i < visible_of(s).len() implies pred(#[trigger] visible_of(s)[i]) by {
        s.lemma_filter_pred(pred, i);
    }
    assert forall|j: int| 0 <= j < s.len() && pred(#[trigger] s[j]) implies visible_of(s).contains(
        s[j],
    ) by {
        s.lemma_filter_contains(pred, j);
    }
}

/// Adding a mesh appends exactly that mesh's triangles to the model's
/// triangles.
pub proof fn lemma_add_mesh_triangles(s: Seq<Element>, m: Mesh)
    ensures
        model_tris(s.push(Element::Mesh(m))) == model_tris(s) + element::element_tris(
            Element::Mesh(m),
        ),
{
    assert(s.push(Element::Mesh(m)).drop_last() =~= s);
}

impl BBModel {
    /// An empty document.
    pub fn new() -> (r: Self)
        ensures
            is_empty_model(r),
    {
        BBModel::default()
    }

    /// Appends a mesh element and hands the document back for chaining.
    pub fn add_mesh(&mut self, mesh: Mesh) -> (r: &mut Self)
        ensures
            r.elements@ == old(self).elements@.push(Element::Mesh(mesh)),
            r.meta == old(self).meta,
            r.name == old(self).name,
            r.resolution == old(self).resolution,
            r.groups == old(self).groups,
            r.outliner == old(self).outliner,
            r.textures == old(self).textures,
            r.animations == old(self).animations,
            r.animation_controllers == old(self).animation_controllers,
            r.display == old(self).display,
            r.collections == old(self).collections,
            *final(self) == *final(r),
    {
        self.elements.push(Element::Mesh(mesh));
        self
    }

    /// All render-ready triangle plans of every element, element after
    /// element.
    pub fn triangles(&self) -> (r: Vec<TriPlan>)
        ensures
            r@ == model_tris(self.elements@),
    {
        let mut out: Vec<TriPlan> = Vec::new();
        let n = self.elements.len();
        for i in 0..n
            invariant
                n == self.elements@.len(),
                out@ == model_tris(self.elements@.take(i as int)),
        {
            let mut it = self.elements[i].triangulate();
            let ghost base = out@;
            loop
                invariant
                    i < n,
                    n == self.elements@.len(),
                    base == model_tris(self.elements@.take(i as int)),
                    out@ + it.remaining() == base + element::element_tris(self.elements@[i as int]),
                ensures
                    out@ == base + element::element_tris(self.elements@[i as int]),
                decreases it.remaining().len(),
            {
                let ghost before = it.remaining();
                match it.next() {
                    Some(t) => {
                        out.push(t);
                        assert(out@ + it.remaining() =~= base + element::element_tris(
                            self.elements@[i as int],
                        )) by {
                            assert(before =~= seq![t] + before.drop_first());
                        }
                    },
                    None => {
                        assert(out@ =~= base + element::element_tris(self.elements@[i as int]));
                        break ;
                    },
                }
            }
            assert(self.elements@.take(i + 1).drop_last() =~= self.elements@.take(i as int));
            assert(self.elements@.take(i + 1).last() == self.elements@[i as int]);
        }
        assert(self.elements@.take(n as int) =~= self.elements@);
        out
    }

    /// The cube elements, in order.
    pub fn cubes(&self) -> (r: Vec<&Cube>)
        ensures
            r@.map_values(|c: &Cube| *c) == cubes_of(self.elements@),
    {
        let mut out: Vec<&Cube> = Vec::new();
        let n = self.elements.len();
        for i in 0..n
            invariant
                n == self.elements@.len(),
                out@.map_values(|c: &Cube| *c) == cubes_of(self.elements@.take(i as int)),
        {
            assert(self.elements@.take(i + 1).drop_last() =~= self.elements@.take(i as int));
            match &self.elements[i] {
                Element::Cube(c) => {
                    let ghost prev = out@;
                    out.push(c);
                    assert(out@.map_values(|c: &Cube| *c) =~= prev.map_values(|c: &Cube| *c).push(
                        *c,
                    ));
                },
                Element::Mesh(_) => {},
            }
        }
        assert(self.elements@.take(n as int) =~= self.elements@);
        out
    }

    /// The mesh elements, in order.
    pub fn meshes(&self) -> (r: Vec<&Mesh>)
        ensures
            r@.map_values(|m: &Mesh| *m) == meshes_of(self.elements@),
    {
        let mut out: Vec<&Mesh> = Vec::new();
        let n = self.elements.len();
        for i in 0..n
            invariant
                n == self.elements@.len(),
                out@.map_values(|m: &Mesh| *m) == meshes_of(self.elements@.take(i as int)),
        {
            assert(self.elements@.take(i + 1).drop_last() =~= self.elements@.take(i as int));
            match &self.elements[i] {
                Element::Mesh(m) => {
                    let ghost prev = out@;
                    out.push(m);
                    assert(out@.map_values(|m: &Mesh| *m) =~= prev.map_values(|m: &Mesh| *m).push(
                        *m,
                    ));
                },
                Element::Cube(_) => {},
            }
        }
        assert(self.elements@.take(n as int) =~= self.elements@);
        out
    }

    /// The elements that are both exported and visible, in order.
    pub fn visible_elements(&self) -> (r: Vec<&Element>)
        ensures
            r@.map_values(|e: &Element| *e) == visible_of(self.elements@),
    {
        let mut out: Vec<&Element> = Vec::new();
        let n = self.elements.len();
        for i in 0..n
            invariant
                n == self.elements@.len(),
                out@.map_values(|e: &Element| *e) == visible_of(self.elements@.take(i as int)),
        {
            assert(self.elements@.take(i + 1).drop_last() =~= self.elements@.take(i as int));
            let el = &self.elements[i];
            let visible = match el {
                Element::Cube(c) => c.export && c.visibility,
                Element::Mesh(m) => m.export && m.visibility,
            };
            if visible {
                let ghost prev = out@;
                out.push(el);
                assert(out@.map_values(|e: &Element| *e) =~= prev.map_values(|e: &Element| *e).push(
                    *el,
                ));
            }
        }
        assert(self.elements@.take(n as int) =~= self.elements@);
        out
    }

    /// The first element with the given UUID.
    pub fn find_element(&self, uuid: &Uuid) -> (r: Option<&Element>)
        ensures
            match r {
                Some(e) => exists|i: int|
                    is_first_element(self.elements@, *uuid, i) && *e == self.elements@[i],
                None => forall|i: int|
                    0 <= i < self.elements@.len() ==> element::spec_element_uuid(self.elements@[i])
                        != *uuid,
            },
    {
        let n = self.elements.len();
        for i in 0..n
            invariant
                n == self.elements@.len(),
                forall|j: int| 0 <= j < i ==> element::spec_element_uuid(self.elements@[j]) != *uuid,
        {
            if self.elements[i].uuid() == uuid {
                assert(is_first_element(self.elements@, *uuid, i as int));
                return Some(&self.elements[i]);
            }
        }
        None
    }

    /// The first group with the given UUID.
    pub fn find_group(&self, uuid: &Uuid) -> (r: Option<&Group>)
        ensures
            match r {
                Some(g) => exists|i: int| is_first_group(self.groups@, *uuid, i) && *g == self.groups@[i],
                None => forall|i: int| 0 <= i < self.groups@.len() ==> self.groups@[i].uuid != *uuid,
            },
    {
        let n = self.groups.len();
        for i in 0..n
            invariant
                n == self.groups@.len(),
                forall|j: int| 0 <= j < i ==> self.groups@[j].uuid != *uuid,
        {
            if self.groups[i].uuid == *uuid {
                assert(is_first_group(self.groups@, *uuid, i as int));
                return Some(&self.groups[i]);
            }
        }
        None
    }

    /// The first texture with the given UUID.
    pub fn find_texture(&self, uuid: &Uuid) -> (r: Option<&Texture>)
        ensures
            match r {
                Some(t) => exists|i: int|
                    is_first_texture(self.textures@, *uuid, i) && *t == self.textures@[i],
                None => forall|i: int|
                    0 <= i < self.textures@.len() ==> self.textures@[i].uuid != Some(*uuid),
            },
    {
        let n = self.textures.len();
        for i in 0..n
            invariant
                n == self.textures@.len(),
                forall|j: int| 0 <= j < i ==> self.textures@[j].uuid != Some(*uuid),
        {
            let found = match &self.textures[i].uuid {
                Some(u) => *u == *uuid,
                None => false,
            };
            if found {
                assert(is_first_texture(self.textures@, *uuid, i as int));
                return Some(&self.textures[i]);
            }
        }
        None
    }

    /// The first collection with the given UUID.
    pub fn find_collection(&self, uuid: &Uuid) -> (r: Option<&Collection>)
        ensures
            match r {
                Some(c) => exists|i: int|
                    is_first_collection(self.collections@, *uuid, i) && *c == self.collections@[i],
                None => forall|i: int|
                    0 <= i < self.collections@.len() ==> self.collections@[i].uuid != *uuid,
            },
    {
        let n = self.collections.len();
        for i in 0..n
            invariant
                n == self.collections@.len(),
                forall|j: int| 0 <= j < i ==> self.collections@[j].uuid != *uuid,
        {
            if self.collections[i].uuid == *uuid {
                assert(is_first_collection(self.collections@, *uuid, i as int));
                return Some(&self.collections[i]);
            }
        }
        None
    }
}

} // verus!
