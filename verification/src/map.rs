use vstd::prelude::*;

use crate::codec::{spec_parse_doc, spec_ser_doc, write_json_doc};
use crate::digits::{push_decimal, spec_decimal};
use crate::error::MapError;
use crate::model::{tiles_view, MapData, MapDataView, MapMetaData, Tile};

use graphics::Context;
use opengl_graphics::{GlGraphics, Texture};

verus! {

// ---------------------------------------------------------------------------
// The graphics backend, declared for the verifier. A texture is a
// GPU-resident resource handle; the context carries the current draw
// transform; the sink consumes draw submissions. All three are opaque
// here: the library owns and passes them, and everything it decides about
// them — which file to decode, which sampling mode, what to draw — is
// stated on its own types.
// ---------------------------------------------------------------------------
/// Relies on opengl_graphics::Texture being an exclusively owned handle to
/// one GPU texture, released when the value is dropped.
#[verifier::external_type_specification]
#[verifier::external_body]
pub struct ExTexture(Texture);

/// Relies on opengl_graphics::GlGraphics being the backend that consumes
/// draw submissions.
#[verifier::external_type_specification]
#[verifier::external_body]
pub struct ExGlGraphics(GlGraphics);

/// Relies on graphics::Context carrying the caller's current 2D transform.
#[verifier::external_type_specification]
#[verifier::external_body]
pub struct ExContext(Context);

/// Relies on opengl_graphics::Texture::get_id: the raw OpenGL name of the
/// texture object. The driver assigns it, so nothing is promised of its
/// value beyond being readable.
#[verifier::external_body]
fn texture_id(t: &Texture) -> u32 {
    t.get_id()
}

/// The sampling modes a texture can be created with.
#[derive(Debug, Clone, Copy, PartialEq, Eq, Structural)]
pub enum Sampling {
    Nearest,
    Linear,
}

/// The fixed sampling policy for map atlases: nearest-neighbour, never
/// interpolated, so that adjacent tiles of the atlas cannot bleed into one
/// another. Whoever creates the texture must apply exactly this mode,
/// whatever the source image looks like.
pub fn atlas_sampling() -> (s: Sampling)
    ensures
        s == Sampling::Nearest,
{
    Sampling::Nearest
}

/// Interprets the outcome of reading the metadata file: an absent file is
/// `AssetNotFound` before any parsing — and before any texture work — and
/// a present one must parse as a map document.
pub fn metadata_from_file(contents: Option<&str>) -> (r: Result<MapData, MapError>)
    ensures
        match r {
            Ok(d) => contents matches Some(s) && spec_parse_doc(s@) == Some(d@)
                && d@.wf(),
            Err(e) => match contents {
                None => e == MapError::AssetNotFound,
                Some(s) => spec_parse_doc(s@) is None && e == MapError::MalformedAsset,
            },
        },
{
    match contents {
        None => Err(MapError::AssetNotFound),
        Some(s) => MapData::from_json(s),
    }
}

/// A loaded map: grid metadata, the ordered tile list, and the exclusively
/// owned GPU texture of its atlas. Either all three exist or no `TileMap`
/// does; the texture is released when the `Map` is dropped. Read-only
/// after construction.
pub struct TileMap {
    pub meta_data: MapMetaData,
    pub tiles: Vec<Tile>,
    pub map_tex: Texture,
}

impl View for TileMap {
    type V = MapDataView;

    open spec fn view(&self) -> MapDataView {
        MapDataView { meta: self.meta_data@, tiles: tiles_view(self.tiles@) }
    }
}

/// The diagnostic dump of a map: its full data in canonical document form
/// and the stable identifier of its texture — never the pixel contents.
pub open spec fn spec_describe(d: MapDataView, id: nat) -> Seq<char> {
    "Map { data: "@ + spec_ser_doc(d) + ", textureId: "@ + spec_decimal(id) + " }"@
}

impl TileMap {
    /// Combines parsed map data with its decoded atlas texture. This step
    /// is infallible: any failure of the two loading steps aborts before a
    /// `Map` comes into being, so no partially initialized map exists.
    pub fn new(data: MapData, map_tex: Texture) -> (m: TileMap)
        ensures
            m.meta_data == data.meta,
            m.tiles == data.tiles,
            m.map_tex == map_tex,
            m@ == data@,
    {
        TileMap { meta_data: data.meta, tiles: data.tiles, map_tex }
    }

    /// Draws the map's whole atlas texture under the given transform into
    /// the graphics sink: one draw submission, nothing else. Must not
    /// fail, block or allocate — it sits on the per-frame hot path.
    ///
    /// Relies on graphics::image, which submits one textured quad covering
    /// the full texture extent under `c.transform`.
    #[verifier::external_body]
    pub fn render(&self, c: Context, gl: &mut GlGraphics) {
        graphics::image(&self.map_tex, c.transform, gl);
    }

    /// The diagnostic dump, given the texture identifier to print.
    pub fn describe_with_id(&self, id: u32) -> (r: String)
        ensures
            r@ == spec_describe(self@, id as nat),
    {
        let mut out = "Map { data: ".to_owned();
        write_json_doc(&self.meta_data, &self.tiles, &mut out);
        out.append(", textureId: ");
        push_decimal(&mut out, id);
        out.append(" }");
        proof {
            assert(out@ =~= spec_describe(self@, id as nat));
        }
        out
    }

    /// The diagnostic dump of this map, using its own texture's
    /// identifier.
    pub fn describe(&self) -> (r: String)
        ensures
            exists|id: nat| r@ == spec_describe(self@, id),
    {
        let id = texture_id(&self.map_tex);
        let r = self.describe_with_id(id);
        proof {
            assert(r@ == spec_describe(self@, id as nat));
        }
        r
    }
}

} // verus!
