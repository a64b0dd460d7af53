//! File-level metadata and texture resolution.

use vstd::prelude::*;

verus! {

/// The `model_format` variants understood by Blockbench.
#[derive(Clone, Debug)]
pub enum ModelFormat {
    Free,
    JavaBlock,
    Bedrock,
    BedrockOld,
    Other(String),
}

impl Default for ModelFormat {
    /// The free-form model format.
    fn default() -> (r: Self)
        ensures
            r is Free,
    {
        ModelFormat::Free
    }
}

/// File-level metadata: format version, model flavour and UV mode.
#[derive(Clone, Debug)]
pub struct Metadata {
    pub format_version: String,
    pub model_format: ModelFormat,
    pub box_uv: bool,
    pub backup: Option<bool>,
}

/// The metadata of a new model: format version `"5.0"`, free-form format,
/// per-face UVs, no backup flag.
pub open spec fn is_default_metadata(m: Metadata) -> bool {
    &&& m.format_version@ == seq!['5', '.', '0']
    &&& m.model_format is Free
    &&& !m.box_uv
    &&& m.backup is None
}

impl Default for Metadata {
    /// Format version `"5.0"`, free-form format, per-face UVs, no backup flag.
    fn default() -> (r: Self)
        ensures
            is_default_metadata(r),
    {
        let version = "5.0";
        proof {
            reveal_strlit("5.0");
            assert(version@ =~= seq!['5', '.', '0']);
        }
        Metadata {
            format_version: version.to_owned(),
            model_format: ModelFormat::Free,
            box_uv: false,
            backup: None,
        }
    }
}

/// Default texture dimensions for UV mapping.
#[derive(Clone, Copy, Debug)]
pub struct Resolution {
    pub width: u32,
    pub height: u32,
}

} // verus!
