//! The library's types and operations in one place.

pub use crate::animation::{
    Animation, AnimationController, Animator, AnimatorType, Interpolation, Keyframe,
    KeyframeChannel, LoopMode,
};
pub use crate::collections::{Collection, Group, OutlinerGroup, OutlinerNode};
pub use crate::element::{
    cube_corner, lookup_entry, Cube, CubeFace, CubeFaces, CubeTri, CubeTriIter, Element, Mesh,
    MeshFace, MeshTri, MeshTriIter, TriIter, TriPlan, F32_NEG_ONE, F32_ONE,
};
pub use crate::keyed::KeyedList;
pub use crate::metadata::{Metadata, ModelFormat, Resolution};
pub use crate::render::{
    all_textures_loaded, build_section, build_sections, contains_subslice, decode_data_uri, default_resolution,
    plan_texture_load, resolution_table, section_resolution, texture_index, texture_keys_of,
    texture_resolution, Section, TextureLoad,
};
pub use crate::texture::{RenderMode, RenderSides, Texture};
pub use crate::{
    default_interpolation, default_loop_mode, default_one, default_true, BBModel, Display,
    DisplaySlot, Tri, Uuid, UvRect, Vec2, Vec3,
};
