//! Texture definitions.

use vstd::prelude::*;

use crate::Uuid;

verus! {

/// Render mode for a texture.
#[derive(Clone, Copy, Debug)]
pub enum RenderMode {
    Default,
    Normal,
    Emissive,
    Layered,
}

/// Which sides a texture is rendered on.
#[derive(Clone, Copy, Debug)]
pub enum RenderSides {
    Auto,
    Front,
    Double,
}

/// A texture definition.
#[derive(Clone, Debug)]
pub struct Texture {
    /// Unique identifier for this texture.
    pub uuid: Option<Uuid>,
    /// Optional human-readable name.
    pub name: Option<String>,
    /// Texture index as text (e.g. `"0"`, `"1"`).
    pub id: Option<String>,
    /// Absolute filesystem path (may be stale).
    pub path: Option<String>,
    /// Path relative to the directory containing the model file.
    pub relative_path: Option<String>,
    /// Image pixel width.
    pub width: Option<u32>,
    /// Image pixel height.
    pub height: Option<u32>,
    /// UV coordinate space width.
    pub uv_width: Option<u32>,
    /// UV coordinate space height.
    pub uv_height: Option<u32>,
    /// Whether the texture is a particle texture.
    pub particle: bool,
    pub render_mode: Option<RenderMode>,
    pub render_sides: Option<RenderSides>,
    /// Whether the texture data is embedded in the file.
    pub internal: bool,
    /// Embedded image data as a data URI (`data:image/png;base64,...`).
    pub source: Option<String>,
    pub mode: Option<String>,
    pub saved: bool,
    pub visible: bool,
    pub folder: Option<String>,
    pub namespace: Option<String>,
}

/// A texture with every optional field absent and every flag off.
pub open spec fn is_empty_texture(t: Texture) -> bool {
    &&& t.uuid is None && t.name is None && t.id is None
    &&& t.path is None && t.relative_path is None
    &&& t.width is None && t.height is None && t.uv_width is None && t.uv_height is None
    &&& !t.particle && t.render_mode is None && t.render_sides is None
    &&& !t.internal && t.source is None && t.mode is None && !t.saved && !t.visible
    &&& t.folder is None && t.namespace is None
}

impl Default for Texture {
    /// Every optional field absent and every flag off.
    fn default() -> (r: Self)
        ensures
            is_empty_texture(r),
    {
        Texture {
            uuid: None,
            name: None,
            id: None,
            path: None,
            relative_path: None,
            width: None,
            height: None,
            uv_width: None,
            uv_height: None,
            particle: false,
            render_mode: None,
            render_sides: None,
            internal: false,
            source: None,
            mode: None,
            saved: false,
            visible: false,
            folder: None,
            namespace: None,
        }
    }
}

} // verus!
