//! Groups, the outliner hierarchy and collections.

use vstd::prelude::*;

use crate::{Uuid, Vec3};

verus! {

/// A transform group of the `groups` array; its children are the outliner
/// entries that reference its UUID.
#[derive(Clone, Debug)]
pub struct Group {
    pub name: Option<String>,
    pub uuid: Uuid,
    pub origin: Vec3,
    pub rotation: Vec3,
    pub color: u32,
    pub export: bool,
    pub mirror_uv: bool,
    pub is_open: bool,
    pub locked: bool,
    pub visibility: bool,
    pub autouv: u32,
    /// Arbitrary NBT data (JSON-encoded text).
    pub nbt: Option<String>,
}

/// A node of the outliner tree: a leaf element referenced by its UUID, or a
/// group with children.
#[derive(Debug)]
pub enum OutlinerNode {
    Element(Uuid),
    Group(OutlinerGroup),
}

/// A group wrapper inside the outliner tree, carrying hierarchy only.
#[derive(Debug)]
pub struct OutlinerGroup {
    pub uuid: Uuid,
    pub name: Option<String>,
    pub origin: Option<Vec3>,
    pub rotation: Option<Vec3>,
    pub is_open: bool,
    pub children: Vec<OutlinerNode>,
}

/// A named collection of element UUIDs.
#[derive(Clone, Debug)]
pub struct Collection {
    pub uuid: Uuid,
    pub name: Option<String>,
    pub children: Vec<Uuid>,
    pub export_path: Option<String>,
}

} // verus!
