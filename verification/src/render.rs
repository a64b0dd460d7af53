//! The decisions behind turning a model into render-ready data: reading
//! embedded textures, choosing texture indices, sources and UV resolutions,
//! and grouping triangles into one section per texture.

use vstd::prelude::*;

use base64::Engine;

use crate::texture::Texture;
use crate::metadata::Resolution;
use crate::{BBModel, Tri, Vec2, Vec3};

verus! {

// ---------------------------------------------------------------------------
// Base64 and data URIs
// ---------------------------------------------------------------------------

/// What the `base64` crate's standard engine (RFC 4648 alphabet, canonical
/// padding required) decodes `input` to, or `None` when it rejects it.
pub uninterp spec fn standard_base64_decode(input: Seq<u8>) -> Option<Seq<u8>>;

/// The bytes held by an optional byte vector.
pub open spec fn bytes_view(r: Option<Vec<u8>>) -> Option<Seq<u8>> {
    match r {
        Some(v) => Some(v@),
        None => None,
    }
}

/// Decodes `input` with `base64::engine::general_purpose::STANDARD`.
/// The contract claims only that the result is the engine's answer for
/// `input`, named [`standard_base64_decode`]; what that answer is, is left
/// to the `base64` crate.
#[verifier::external_body]
fn decode_base64_standard(input: &[u8]) -> (r: Option<Vec<u8>>)
    ensures
        bytes_view(r) == standard_base64_decode(input@),
{
    base64::engine::general_purpose::STANDARD.decode(input).ok()
}

/// `i` is the first position of a comma (`b','`) in `bytes`.
pub open spec fn is_first_comma(bytes: Seq<u8>, i: int) -> bool {
    &&& 0 <= i < bytes.len()
    &&& bytes[i] == 44u8
    &&& forall|j: int| 0 <= j < i ==> bytes[j] != 44u8
}

/// `needle` occurs in `hay` at position `i`.
pub open spec fn occurs_at(hay: Seq<u8>, needle: Seq<u8>, i: int) -> bool {
    &&& 0 <= i
    &&& i + needle.len() <= hay.len()
    &&& forall|m: int| 0 <= m < needle.len() ==> hay[i + m] == needle[m]
}

/// `needle` occurs somewhere in `hay`.
pub open spec fn contains_bytes(hay: Seq<u8>, needle: Seq<u8>) -> bool {
    exists|i: int| occurs_at(hay, needle, i)
}

/// The ASCII bytes of the word `base64`.
pub open spec fn base64_tag() -> Seq<u8> {
    seq![98u8, 97u8, 115u8, 101u8, 54u8, 52u8]
}

/// What a data URI (`data:<meta>,<payload>`) holds: when the text before
/// its first comma mentions `base64`, the standard base64 decoding of the
/// text after that comma; otherwise nothing.
pub open spec fn spec_decode_data_uri(bytes: Seq<u8>) -> Option<Seq<u8>> {
    if exists|c: int| is_first_comma(bytes, c) {
        let c = choose|c: int| is_first_comma(bytes, c);
        if contains_bytes(bytes.take(c), base64_tag()) {
            standard_base64_decode(bytes.skip(c + 1))
        } else {
            None
        }
    } else {
        None
    }
}

/// Whether `needle` occurs in `hay`.
pub fn contains_subslice(hay: &[u8], needle: &[u8]) -> (r: bool)
    ensures
        r == contains_bytes(hay@, needle@),
{
    if needle.len() == 0 {
        assert(occurs_at(hay@, needle@, 0));
        return true;
    }
    let hl = hay.len();
    let mut i: usize = 0;
    while i < hay.len()
        invariant
            hl == hay@.len(),
            i <= hay@.len(),
            needle@.len() > 0,
            forall|k: int| 0 <= k < i ==> !occurs_at(hay@, needle@, k),
        decreases hay@.len() - i,
    {
        if hay.len() - i < needle.len() {
            assert forall|k: int| !occurs_at(hay@, needle@, k) by {
                if k >= i {
                    assert(k + needle@.len() > hay@.len());
                }
            }
            return false;
        }
        let mut j: usize = 0;
        let mut same = true;
        while j < needle.len() && same
            invariant
                hl == hay@.len(),
                i < hay@.len(),
                needle@.len() <= hay@.len() - i,
                j <= needle@.len(),
                same == forall|m: int| 0 <= m < j ==> hay@[i + m] == needle@[m],
            decreases needle@.len() - j,
        {
            if hay[i + j] != needle[j] {
                same = false;
            }
            j += 1;
        }
        if same {
            assert(occurs_at(hay@, needle@, i as int));
            return true;
        }
        assert(!occurs_at(hay@, needle@, i as int)) by {
            let m = choose|m: int| 0 <= m < j && hay@[i + m] != needle@[m];
        }
        i += 1;
    }
    assert forall|k: int| !occurs_at(hay@, needle@, k) by {
        if k >= i {
            assert(k + needle@.len() > hay@.len());
        }
    }
    false
}

/// Decodes a `data:image/...;base64,<payload>` URI into raw bytes. The
/// text before the first comma must mention `base64`; the payload is
/// decoded with the standard base64 alphabet and padding.
pub fn decode_data_uri(source: &str) -> (r: Option<Vec<u8>>)
    ensures
        bytes_view(r) == spec_decode_data_uri(vstd::utf8::encode_utf8(source@)),
{
    let bytes = source.as_bytes();
    let mut c: usize = 0;
    while c < bytes.len() && bytes[c] != 44u8
        invariant
            c <= bytes@.len(),
            forall|j: int| 0 <= j < c ==> bytes@[j] != 44u8,
        decreases bytes@.len() - c,
    {
        c += 1;
    }
    if c >= bytes.len() {
        assert forall|k: int| !is_first_comma(bytes@, k) by {
            if 0 <= k < bytes@.len() {
                assert(bytes@[k] != 44u8);
            }
        }
        return None;
    }
    proof {
        assert(is_first_comma(bytes@, c as int));
        let k = choose|k: int| is_first_comma(bytes@, k);
        assert(k == c as int) by {
            if k < c {
                assert(bytes@[k] != 44u8);
            } else if k > c {
                assert(bytes@[c as int] != 44u8);
            }
        }
    }
    let (meta, rest) = bytes.split_at(c);
    let tag: Vec<u8> = vec![98u8, 97u8, 115u8, 101u8, 54u8, 52u8];
    proof {
        assert(tag@ =~= base64_tag());
    }
    if !contains_subslice(meta, tag.as_slice()) {
        return None;
    }
    let (_, payload) = rest.split_at(1);
    proof {
        assert(payload@ =~= bytes@.skip(c + 1));
    }
    decode_base64_standard(payload)
}


// ---------------------------------------------------------------------------
// Texture indices and sources
// ---------------------------------------------------------------------------

/// `c` is an ASCII decimal digit.
pub open spec fn is_ascii_digit(c: char) -> bool {
    48 <= (c as int) <= 57
}

/// The value of a run of decimal digits.
pub open spec fn decimal_value(ds: Seq<char>) -> int
    decreases ds.len(),
{
    if ds.len() == 0 {
        0
    } else {
        decimal_value(ds.drop_last()) * 10 + ((ds.last() as int) - 48)
    }
}

/// What `u32::from_str` accepts: an optional `+` followed by one or more
/// ASCII digits whose value fits in a `u32`.
pub open spec fn spec_parse_u32(s: Seq<char>) -> Option<u32> {
    let ds = if s.len() > 0 && s[0] == '+' {
        s.skip(1)
    } else {
        s
    };
    if ds.len() > 0 && (forall|i: int| 0 <= i < ds.len() ==> is_ascii_digit(#[trigger] ds[i]))
        && decimal_value(ds) <= u32::MAX {
        Some(decimal_value(ds) as u32)
    } else {
        None
    }
}

/// Parses decimal text with the standard library's `str::parse::<u32>`.
/// Its documentation states what is claimed: an optional `+` sign followed
/// by only ASCII digits, with a value that fits in a `u32`; anything else
/// (empty text, other signs, whitespace, underscores, overflow) is
/// rejected.
#[verifier::external_body]
fn parse_u32(s: &str) -> (r: Option<u32>)
    ensures
        r == spec_parse_u32(s@),
{
    s.parse::<u32>().ok()
}

/// The index a texture is known by: its `id` read as a decimal number, or
/// else its position in the model's texture list (truncated to 32 bits).
pub open spec fn spec_texture_index(tex: Texture, position: usize) -> u32 {
    match tex.id {
        Some(id) => match spec_parse_u32(id@) {
            Some(v) => v,
            None => position as u32,
        },
        None => position as u32,
    }
}

/// The index a texture is known by: its `id` read as a decimal number, or
/// else its position in the model's texture list.
pub fn texture_index(tex: &Texture, position: usize) -> (r: u32)
    ensures
        r == spec_texture_index(*tex, position),
{
    match &tex.id {
        Some(id) => match parse_u32(id.as_str()) {
            Some(v) => v,
            None => position as u32,
        },
        None => position as u32,
    }
}

/// How to obtain the image of one texture: first the embedded image, when
/// the texture carries a well-formed data URI; failing that, the file at
/// `file`, when the texture names one.
#[derive(Clone, Debug)]
pub struct TextureLoad {
    /// The index the texture is known by.
    pub index: u32,
    /// The decoded bytes of the embedded image, if any.
    pub embedded: Option<Vec<u8>>,
    /// The path of the image file (relative path preferred), if any.
    pub file: Option<String>,
}

/// The embedded bytes a texture carries.
pub open spec fn spec_embedded(tex: Texture) -> Option<Seq<u8>> {
    match tex.source {
        Some(s) => spec_decode_data_uri(vstd::utf8::encode_utf8(s@)),
        None => None,
    }
}

/// The image file a texture names: its relative path, else its path.
pub open spec fn spec_texture_file(tex: Texture) -> Option<String> {
    match tex.relative_path {
        Some(p) => Some(p),
        None => tex.path,
    }
}

/// Decides how the image of the texture at `position` is obtained.
pub fn plan_texture_load(tex: &Texture, position: usize) -> (r: TextureLoad)
    ensures
        r.index == spec_texture_index(*tex, position),
        bytes_view(r.embedded) == spec_embedded(*tex),
        r.file == spec_texture_file(*tex),
{
    let index = texture_index(tex, position);
    let embedded = match &tex.source {
        Some(s) => decode_data_uri(s.as_str()),
        None => None,
    };
    let file = match &tex.relative_path {
        Some(p) => Some(p.clone()),
        None => match &tex.path {
            Some(p) => Some(p.clone()),
            None => None,
        },
    };
    TextureLoad { index, embedded, file }
}

/// A model is ready to be built once every texture image it asked for has
/// loaded: `loaded[i]` tells whether the `i`-th requested image has.
pub fn all_textures_loaded(loaded: &Vec<bool>) -> (r: bool)
    ensures
        r == forall|i: int| 0 <= i < loaded@.len() ==> loaded@[i],
{
    for i in 0..loaded.len()
        invariant
            forall|k: int| 0 <= k < i ==> loaded@[k],
    {
        if !loaded[i] {
            return false;
        }
    }
    true
}

// ---------------------------------------------------------------------------
// UV resolutions
// ---------------------------------------------------------------------------

/// The fallback UV resolution of a model: its `resolution`, else 16 x 16.
pub open spec fn spec_default_resolution(res: Option<Resolution>) -> (u32, u32) {
    match res {
        Some(r) => (r.width, r.height),
        None => (16u32, 16u32),
    }
}

/// The fallback UV resolution of a model: its `resolution`, else 16 x 16.
pub fn default_resolution(model: &BBModel) -> (r: (u32, u32))
    ensures
        r == spec_default_resolution(model.resolution),
{
    match &model.resolution {
        Some(res) => (res.width, res.height),
        None => (16, 16),
    }
}

/// The UV resolution of a texture: the size of its loaded image, else its
/// UV space size, else its pixel size (each only when both dimensions are
/// given), else `default`.
pub open spec fn spec_texture_resolution(
    tex: Texture,
    loaded: Option<(u32, u32)>,
    default: (u32, u32),
) -> (u32, u32) {
    match loaded {
        Some(size) => size,
        None => if tex.uv_width is Some && tex.uv_height is Some {
            (tex.uv_width.unwrap(), tex.uv_height.unwrap())
        } else if tex.width is Some && tex.height is Some {
            (tex.width.unwrap(), tex.height.unwrap())
        } else {
            default
        },
    }
}

/// The UV resolution of a texture: the size of its loaded image, else its
/// UV space size, else its pixel size, else `default`.
pub fn texture_resolution(tex: &Texture, loaded: Option<(u32, u32)>, default: (u32, u32)) -> (r: (
    u32,
    u32,
))
    ensures
        r == spec_texture_resolution(*tex, loaded, default),
{
    match loaded {
        Some(size) => size,
        None => match (tex.uv_width, tex.uv_height) {
            (Some(w), Some(h)) => (w, h),
            _ => match (tex.width, tex.height) {
                (Some(w), Some(h)) => (w, h),
                _ => default,
            },
        },
    }
}

/// A texture's resolution is width first, height second, taken whole from
/// the first source that gives both: a loaded image's size as it was
/// loaded, else the UV space size, else the pixel size, else `default`.
pub proof fn lemma_texture_resolution_sources(
    tex: Texture,
    loaded: Option<(u32, u32)>,
    default: (u32, u32),
)
    ensures
        forall|w: u32, h: u32|
            loaded == Some((w, h)) ==> spec_texture_resolution(tex, loaded, default).0 == w
                && spec_texture_resolution(tex, loaded, default).1 == h,
        forall|w: u32, h: u32|
            loaded is None && tex.uv_width == Some(w) && tex.uv_height == Some(h)
                ==> spec_texture_resolution(tex, loaded, default).0 == w
                && spec_texture_resolution(tex, loaded, default).1 == h,
        forall|w: u32, h: u32|
            loaded is None && !(tex.uv_width is Some && tex.uv_height is Some) && tex.width == Some(w)
                && tex.height == Some(h) ==> spec_texture_resolution(tex, loaded, default).0 == w
                && spec_texture_resolution(tex, loaded, default).1 == h,
        loaded is None && !(tex.uv_width is Some && tex.uv_height is Some) && !(tex.width is Some
            && tex.height is Some) ==> spec_texture_resolution(tex, loaded, default) == default,
{
}

/// The loaded image size given for position `i`, if any.
pub open spec fn loaded_at(loaded: Seq<Option<(u32, u32)>>, i: int) -> Option<(u32, u32)> {
    if 0 <= i < loaded.len() {
        loaded[i]
    } else {
        None
    }
}

/// For each texture, in order, its index and UV resolution; `loaded[i]` is
/// the size of the image loaded for the texture at position `i`, if any.
pub fn resolution_table(
    textures: &Vec<Texture>,
    loaded: &Vec<Option<(u32, u32)>>,
    default: (u32, u32),
) -> (r: Vec<(u32, (u32, u32))>)
    ensures
        r@.len() == textures@.len(),
        forall|i: int|
            0 <= i < r@.len() ==> #[trigger] r@[i] == (
                spec_texture_index(textures@[i], i as usize),
                spec_texture_resolution(textures@[i], loaded_at(loaded@, i), default),
            ),
{
    let mut out: Vec<(u32, (u32, u32))> = Vec::new();
    let n = textures.len();
    for i in 0..n
        invariant
            n == textures@.len(),
            out@.len() == i,
            forall|k: int|
                0 <= k < i ==> #[trigger] out@[k] == (
                    spec_texture_index(textures@[k], k as usize),
                    spec_texture_resolution(textures@[k], loaded_at(loaded@, k), default),
                ),
    {
        let size = if i < loaded.len() {
            loaded[i]
        } else {
            None
        };
        let index = texture_index(&textures[i], i);
        let res = texture_resolution(&textures[i], size, default);
        out.push((index, res));
    }
    out
}

/// The resolution of the last table entry for texture index `idx`.
pub open spec fn last_resolution(table: Seq<(u32, (u32, u32))>, idx: u32) -> Option<(u32, u32)>
    decreases table.len(),
{
    if table.len() == 0 {
        None
    } else if table.last().0 == idx {
        Some(table.last().1)
    } else {
        last_resolution(table.drop_last(), idx)
    }
}

/// The UV resolution used for triangles with the given texture: the last
/// table entry for it, else `default`, with a zero dimension replaced by
/// the default's.
pub open spec fn spec_section_resolution(
    texture: Option<u32>,
    table: Seq<(u32, (u32, u32))>,
    default: (u32, u32),
) -> (u32, u32) {
    let wh = match texture {
        Some(i) => match last_resolution(table, i) {
            Some(r) => r,
            None => default,
        },
        None => default,
    };
    (
        if wh.0 > 0 {
            wh.0
        } else {
            default.0
        },
        if wh.1 > 0 {
            wh.1
        } else {
            default.1
        },
    )
}

proof fn lemma_last_resolution_at(table: Seq<(u32, (u32, u32))>, idx: u32)
    ensures
        forall|k: int|
            0 <= k < table.len() && #[trigger] table[k].0 == idx && (forall|l: int|
                k < l < table.len() ==> table[l].0 != idx) ==> last_resolution(table, idx) == Some(
                table[k].1,
            ),
        (forall|k: int| 0 <= k < table.len() ==> #[trigger] table[k].0 != idx) ==> last_resolution(
            table,
            idx,
        ) is None,
    decreases table.len(),
{
    if table.len() > 0 {
        let init = table.drop_last();
        lemma_last_resolution_at(init, idx);
        assert forall|k: int|
            0 <= k < table.len() && #[trigger] table[k].0 == idx && (forall|l: int|
                k < l < table.len() ==> table[l].0 != idx) implies last_resolution(table, idx) == Some(
            table[k].1,
        ) by {
            if k < table.len() - 1 {
                assert(table[table.len() - 1].0 != idx);
                assert(init[k] == table[k]);
                assert forall|l: int| k < l < init.len() implies init[l].0 != idx by {
                    assert(init[l] == table[l]);
                }
            }
        }
        if forall|k: int| 0 <= k < table.len() ==> #[trigger] table[k].0 != idx {
            assert(table[table.len() - 1].0 != idx);
            assert forall|k: int| 0 <= k < init.len() implies #[trigger] init[k].0 != idx by {
                assert(init[k] == table[k]);
            }
        }
    }
}

/// A section's resolution comes from the last table entry for its texture
/// index, width first and height second, a zero dimension taking the
/// default's; with no entry for it, or no texture, it is the default.
pub proof fn lemma_section_resolution_lookup(
    texture: Option<u32>,
    table: Seq<(u32, (u32, u32))>,
    default: (u32, u32),
)
    ensures
        forall|k: int|
            0 <= k < table.len() && texture == Some(#[trigger] table[k].0) && (forall|l: int|
                k < l < table.len() ==> table[l].0 != table[k].0) ==> {
                let r = spec_section_resolution(texture, table, default);
                &&& r.0 == if table[k].1.0 > 0 {
                    table[k].1.0
                } else {
                    default.0
                }
                &&& r.1 == if table[k].1.1 > 0 {
                    table[k].1.1
                } else {
                    default.1
                }
            },
        (texture is None || forall|k: int| 0 <= k < table.len() ==> Some(#[trigger] table[k].0) != texture)
            ==> spec_section_resolution(texture, table, default) == default,
{
    if let Some(idx) = texture {
        lemma_last_resolution_at(table, idx);
        if forall|k: int| 0 <= k < table.len() ==> Some(#[trigger] table[k].0) != texture {
            assert forall|k: int| 0 <= k < table.len() implies #[trigger] table[k].0 != idx by {
                assert(Some(table[k].0) != texture);
            }
        }
    }
}

/// The UV resolution used for triangles with the given texture.
pub fn section_resolution(
    texture: Option<u32>,
    table: &Vec<(u32, (u32, u32))>,
    default: (u32, u32),
) -> (r: (u32, u32))
    ensures
        r == spec_section_resolution(texture, table@, default),
{
    let mut wh = default;
    if let Some(idx) = texture {
        let mut i = table.len();
        assert(table@.take(i as int) =~= table@);
        while i > 0 && table[i - 1].0 != idx
            invariant
                i <= table@.len(),
                last_resolution(table@, idx) == last_resolution(table@.take(i as int), idx),
            decreases i,
        {
            assert(table@.take(i as int).drop_last() =~= table@.take(i - 1));
            i -= 1;
        }
        if i > 0 {
            wh = table[i - 1].1;
        } else {
            assert(table@.take(0) =~= Seq::<(u32, (u32, u32))>::empty());
        }
    }
    let w = if wh.0 > 0 {
        wh.0
    } else {
        default.0
    };
    let h = if wh.1 > 0 {
        wh.1
    } else {
        default.1
    };
    (w, h)
}


// ---------------------------------------------------------------------------
// Sections: triangles grouped by texture
// ---------------------------------------------------------------------------

/// The triangles of a model that share one texture index, ready to become
/// one mesh of their own: three vertices per triangle, and indices that
/// number the section's own vertices `0, 1, 2, ...` in order, so that the
/// `j`-th triangle of the section is `3j, 3j + 1, 3j + 2`.
#[derive(Debug)]
pub struct Section {
    /// The texture index shared by the section's triangles.
    pub texture: Option<u32>,
    pub positions: Vec<Vec3>,
    /// UVs in texture pixel space, as the model holds them.
    pub uvs: Vec<Vec2>,
    pub normals: Vec<Vec3>,
    pub indices: Vec<u32>,
    /// The size that UVs are divided by to normalise them.
    pub resolution: (u32, u32),
}

/// The distinct texture indices of `tris`, in order of first appearance.
pub open spec fn texture_keys(tris: Seq<Tri>) -> Seq<Option<u32>>
    decreases tris.len(),
{
    if tris.len() == 0 {
        Seq::empty()
    } else {
        let keys = texture_keys(tris.drop_last());
        if keys.contains(tris.last().texture) {
            keys
        } else {
            keys.push(tris.last().texture)
        }
    }
}

/// The three entries of a per-vertex triple.
pub open spec fn triple<T>(a: [T; 3]) -> Seq<T> {
    seq![a[0], a[1], a[2]]
}

/// The vertex positions of the triangles of `tris` with texture `key`.
pub open spec fn section_positions(tris: Seq<Tri>, key: Option<u32>) -> Seq<Vec3>
    decreases tris.len(),
{
    if tris.len() == 0 {
        Seq::empty()
    } else if tris.last().texture == key {
        section_positions(tris.drop_last(), key) + triple(tris.last().positions)
    } else {
        section_positions(tris.drop_last(), key)
    }
}

/// The vertex UVs of the triangles of `tris` with texture `key`.
pub open spec fn section_uvs(tris: Seq<Tri>, key: Option<u32>) -> Seq<Vec2>
    decreases tris.len(),
{
    if tris.len() == 0 {
        Seq::empty()
    } else if tris.last().texture == key {
        section_uvs(tris.drop_last(), key) + triple(tris.last().uvs)
    } else {
        section_uvs(tris.drop_last(), key)
    }
}

/// The vertex normals of the triangles of `tris` with texture `key`.
pub open spec fn section_normals(tris: Seq<Tri>, key: Option<u32>) -> Seq<Vec3>
    decreases tris.len(),
{
    if tris.len() == 0 {
        Seq::empty()
    } else if tris.last().texture == key {
        section_normals(tris.drop_last(), key) + triple(tris.last().normals)
    } else {
        section_normals(tris.drop_last(), key)
    }
}

/// The indices `0, 1, ..., n - 1` of a mesh with `n` vertices.
pub open spec fn local_indices(n: nat) -> Seq<u32> {
    Seq::new(n, |i: int| i as u32)
}

/// The vertices of a prefix of `tris` are a prefix of those of `tris`.
pub proof fn lemma_section_prefix(tris: Seq<Tri>, key: Option<u32>, j: int)
    requires
        0 <= j <= tris.len(),
    ensures
        section_positions(tris.take(j), key).len() <= section_positions(tris, key).len(),
    decreases tris.len(),
{
    if j < tris.len() {
        let init = tris.drop_last();
        assert(init.take(j) =~= tris.take(j));
        lemma_section_prefix(init, key, j);
    } else {
        assert(tris.take(j) =~= tris);
    }
}

/// `s` is the section of `tris` for texture `key`.
pub open spec fn is_section_for(
    s: Section,
    tris: Seq<Tri>,
    key: Option<u32>,
    table: Seq<(u32, (u32, u32))>,
    default: (u32, u32),
) -> bool {
    &&& s.texture == key
    &&& s.positions@ == section_positions(tris, key)
    &&& s.uvs@ == section_uvs(tris, key)
    &&& s.normals@ == section_normals(tris, key)
    &&& s.indices@ == local_indices(section_positions(tris, key).len())
    &&& s.resolution == spec_section_resolution(key, table, default)
}

fn same_texture(a: Option<u32>, b: Option<u32>) -> (r: bool)
    ensures
        r == (a == b),
{
    match (a, b) {
        (Some(x), Some(y)) => x == y,
        (None, None) => true,
        _ => false,
    }
}

/// The distinct texture indices of `tris`, in order of first appearance.
pub fn texture_keys_of(tris: &Vec<Tri>) -> (r: Vec<Option<u32>>)
    ensures
        r@ == texture_keys(tris@),
{
    let mut keys: Vec<Option<u32>> = Vec::new();
    let n = tris.len();
    for i in 0..n
        invariant
            n == tris@.len(),
            keys@ == texture_keys(tris@.take(i as int)),
    {
        let t = tris[i].texture;
        let mut found = false;
        let mut j: usize = 0;
        while j < keys.len()
            invariant
                j <= keys@.len(),
                found == exists|m: int| 0 <= m < j && keys@[m] == t,
            decreases keys@.len() - j,
        {
            if same_texture(keys[j], t) {
                found = true;
            }
            j += 1;
        }
        assert(tris@.take(i + 1).drop_last() =~= tris@.take(i as int));
        assert(tris@.take(i + 1).last() == tris@[i as int]);
        if !found {
            assert(!keys@.contains(t));
            keys.push(t);
        } else {
            proof {
                let m = choose|m: int| 0 <= m < j && keys@[m] == t;
                assert(keys@[m] == t);
            }
        }
    }
    assert(tris@.take(n as int) =~= tris@);
    keys
}

/// Every triangle has a section: its texture index is among the keys.
pub proof fn lemma_every_triangle_has_section(tris: Seq<Tri>, k: int)
    requires
        0 <= k < tris.len(),
    ensures
        texture_keys(tris).contains(tris[k].texture),
    decreases tris.len(),
{
    let init = tris.drop_last();
    if k < tris.len() - 1 {
        lemma_every_triangle_has_section(init, k);
        assert(init[k] == tris[k]);
        let keys = texture_keys(init);
        if !keys.contains(tris.last().texture) {
            let m = choose|m: int| 0 <= m < keys.len() && keys[m] == tris[k].texture;
            assert(keys.push(tris.last().texture)[m] == tris[k].texture);
        }
    } else {
        let keys = texture_keys(init);
        if !keys.contains(tris.last().texture) {
            assert(keys.push(tris.last().texture)[keys.len() as int] == tris.last().texture);
        }
    }
}

/// No two sections share a texture index.
pub proof fn lemma_section_keys_distinct(tris: Seq<Tri>)
    ensures
        forall|i: int, j: int|
            0 <= i < j < texture_keys(tris).len() ==> texture_keys(tris)[i] != texture_keys(tris)[j],
    decreases tris.len(),
{
    if tris.len() > 0 {
        let init = tris.drop_last();
        lemma_section_keys_distinct(init);
        let keys = texture_keys(init);
        let t = tris.last().texture;
        if !keys.contains(t) {
            let all = keys.push(t);
            assert forall|i: int, j: int| 0 <= i < j < all.len() implies all[i] != all[j] by {
                if j == keys.len() {
                    if keys[i] == t {
                        assert(keys.contains(t));
                    }
                }
            }
        }
    }
}

/// The per-vertex lists of a section are equally long, three entries per
/// triangle, and a section of a texture index that occurs is not empty.
pub proof fn lemma_section_shape(tris: Seq<Tri>, key: Option<u32>)
    ensures
        section_uvs(tris, key).len() == section_positions(tris, key).len(),
        section_normals(tris, key).len() == section_positions(tris, key).len(),
        section_positions(tris, key).len() % 3 == 0,
        texture_keys(tris).contains(key) ==> section_positions(tris, key).len() > 0,
    decreases tris.len(),
{
    if tris.len() > 0 {
        lemma_section_shape(tris.drop_last(), key);
    }
}

/// The triangles of `tris` with texture `key`, in the order they come.
pub open spec fn section_tris(tris: Seq<Tri>, key: Option<u32>) -> Seq<Tri> {
    tris.filter(|t: Tri| t.texture == key)
}

/// A section's per-vertex lists stay aligned with its triangles: the `j`-th
/// triangle of `tris` with texture `key` gives entries `3 * j`, `3 * j + 1`
/// and `3 * j + 2` of the positions, UVs and normals, each from its own
/// vertex `0`, `1`, `2` in order, so the `k`-th UV and normal belong to the
/// `k`-th position.
pub proof fn lemma_section_alignment(tris: Seq<Tri>, key: Option<u32>)
    ensures
        section_positions(tris, key).len() == 3 * section_tris(tris, key).len(),
        section_uvs(tris, key).len() == 3 * section_tris(tris, key).len(),
        section_normals(tris, key).len() == 3 * section_tris(tris, key).len(),
        forall|j: int|
            #![trigger section_tris(tris, key)[j]]
            0 <= j < section_tris(tris, key).len() ==> {
                let t = section_tris(tris, key)[j];
                &&& t.texture == key
                &&& section_positions(tris, key)[3 * j] == t.positions[0]
                &&& section_positions(tris, key)[3 * j + 1] == t.positions[1]
                &&& section_positions(tris, key)[3 * j + 2] == t.positions[2]
                &&& section_uvs(tris, key)[3 * j] == t.uvs[0]
                &&& section_uvs(tris, key)[3 * j + 1] == t.uvs[1]
                &&& section_uvs(tris, key)[3 * j + 2] == t.uvs[2]
                &&& section_normals(tris, key)[3 * j] == t.normals[0]
                &&& section_normals(tris, key)[3 * j + 1] == t.normals[1]
                &&& section_normals(tris, key)[3 * j + 2] == t.normals[2]
            },
    decreases tris.len(),
{
    reveal_with_fuel(Seq::filter, 1);
    if tris.len() > 0 {
        let init = tris.drop_last();
        lemma_section_alignment(init, key);
        let pred = |t: Tri| t.texture == key;
        assert(section_tris(init, key) == init.filter(pred));
        assert(section_tris(tris, key) == tris.filter(pred));
        let sub = init.filter(pred);
        if tris.last().texture == key {
            assert(tris.filter(pred) == sub.push(tris.last()));
        } else {
            assert(tris.filter(pred) == sub);
        }
    }
}

/// The section of `tris` for texture `key`.
pub fn build_section(
    tris: &Vec<Tri>,
    key: Option<u32>,
    table: &Vec<(u32, (u32, u32))>,
    default: (u32, u32),
) -> (r: Section)
    requires
        section_positions(tris@, key).len() <= u32::MAX,
    ensures
        is_section_for(r, tris@, key, table@, default),
{
    let mut positions: Vec<Vec3> = Vec::new();
    let mut uvs: Vec<Vec2> = Vec::new();
    let mut normals: Vec<Vec3> = Vec::new();
    let mut indices: Vec<u32> = Vec::new();
    let n = tris.len();
    for i in 0..n
        invariant
            n == tris@.len(),
            section_positions(tris@, key).len() <= u32::MAX,
            positions@ == section_positions(tris@.take(i as int), key),
            uvs@ == section_uvs(tris@.take(i as int), key),
            normals@ == section_normals(tris@.take(i as int), key),
            indices@ == local_indices(positions@.len()),
    {
        let ghost prefix = tris@.take(i + 1);
        assert(prefix.drop_last() =~= tris@.take(i as int));
        assert(prefix.last() == tris@[i as int]);
        let tri = &tris[i];
        if same_texture(tri.texture, key) {
            proof {
                lemma_section_prefix(tris@, key, i + 1);
            }
            let next_index = positions.len() as u32;
            positions.push(tri.positions[0]);
            positions.push(tri.positions[1]);
            positions.push(tri.positions[2]);
            uvs.push(tri.uvs[0]);
            uvs.push(tri.uvs[1]);
            uvs.push(tri.uvs[2]);
            normals.push(tri.normals[0]);
            normals.push(tri.normals[1]);
            normals.push(tri.normals[2]);
            indices.push(next_index);
            indices.push(next_index + 1);
            indices.push(next_index + 2);
            assert(positions@ =~= section_positions(prefix, key));
            assert(uvs@ =~= section_uvs(prefix, key));
            assert(normals@ =~= section_normals(prefix, key));
            assert(indices@ =~= local_indices(positions@.len()));
        }
    }
    assert(tris@.take(n as int) =~= tris@);
    let resolution = section_resolution(key, table, default);
    Section { texture: key, positions, uvs, normals, indices, resolution }
}

/// Groups triangles into one section per texture index, sections in order
/// of each index's first appearance; each section numbers its own
/// vertices.
pub fn build_sections(tris: &Vec<Tri>, table: &Vec<(u32, (u32, u32))>, default: (u32, u32)) -> (r:
    Vec<Section>)
    requires
        forall|k: Option<u32>| #[trigger] section_positions(tris@, k).len() <= u32::MAX,
    ensures
        r@.len() == texture_keys(tris@).len(),
        forall|j: int|
            0 <= j < r@.len() ==> is_section_for(
                #[trigger] r@[j],
                tris@,
                texture_keys(tris@)[j],
                table@,
                default,
            ),
{
    let keys = texture_keys_of(tris);
    let mut out: Vec<Section> = Vec::new();
    for j in 0..keys.len()
        invariant
            keys@ == texture_keys(tris@),
            forall|k: Option<u32>| #[trigger] section_positions(tris@, k).len() <= u32::MAX,
            out@.len() == j,
            forall|m: int|
                0 <= m < j ==> is_section_for(#[trigger] out@[m], tris@, keys@[m], table@, default),
    {
        out.push(build_section(tris, keys[j], table, default));
    }
    out
}

} // verus!
