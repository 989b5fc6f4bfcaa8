use vstd::prelude::*;

use crate::num::{is_json_number, Num};

verus! {

/// Mathematical shape of a tile: the four number tokens of its rectangle.
pub struct TileView {
    pub x: Seq<char>,
    pub y: Seq<char>,
    pub w: Seq<char>,
    pub h: Seq<char>,
}

/// Mathematical shape of the grid metadata.
pub struct MapMetaDataView {
    pub tile_width: Seq<char>,
    pub tile_height: Seq<char>,
}

/// Mathematical shape of a whole map document.
pub struct MapDataView {
    pub meta: MapMetaDataView,
    pub tiles: Seq<TileView>,
}

impl TileView {
    /// All four tokens satisfy the number grammar.
    pub open spec fn wf(self) -> bool {
        is_json_number(self.x) && is_json_number(self.y) && is_json_number(self.w)
            && is_json_number(self.h)
    }
}

impl MapMetaDataView {
    pub open spec fn wf(self) -> bool {
        is_json_number(self.tile_width) && is_json_number(self.tile_height)
    }
}

impl MapDataView {
    pub open spec fn wf(self) -> bool {
        self.meta.wf() && forall|k: int| 0 <= k < self.tiles.len() ==> (#[trigger] self.tiles[k]).wf()
    }
}

/// The nominal size of one grid cell, in the unit convention the caller
/// shares with the asset (world or pixel units). Immutable once loaded.
#[derive(Debug)]
pub struct MapMetaData {
    pub tile_width: Num,
    pub tile_height: Num,
}

/// One rectangle of the texture atlas, in image pixel space. A tile's
/// position in the tile sequence is its identity.
#[derive(Debug)]
pub struct Tile {
    pub x: Num,
    pub y: Num,
    pub w: Num,
    pub h: Num,
}

/// The wire shape of a map document: grid metadata plus the ordered tile
/// list. This is exactly what the metadata file serializes to and from.
#[derive(Debug)]
pub struct MapData {
    pub meta: MapMetaData,
    pub tiles: Vec<Tile>,
}

impl View for Tile {
    type V = TileView;

    open spec fn view(&self) -> TileView {
        TileView { x: self.x@, y: self.y@, w: self.w@, h: self.h@ }
    }
}

impl View for MapMetaData {
    type V = MapMetaDataView;

    open spec fn view(&self) -> MapMetaDataView {
        MapMetaDataView { tile_width: self.tile_width@, tile_height: self.tile_height@ }
    }
}

/// The views of a sequence of tiles, in order.
pub open spec fn tiles_view(ts: Seq<Tile>) -> Seq<TileView> {
    Seq::new(ts.len(), |i: int| ts[i]@)
}

impl View for MapData {
    type V = MapDataView;

    open spec fn view(&self) -> MapDataView {
        MapDataView { meta: self.meta@, tiles: tiles_view(self.tiles@) }
    }
}

impl PartialEq for MapMetaData {
    fn eq(&self, other: &Self) -> (r: bool) {
        self.tile_width == other.tile_width && self.tile_height == other.tile_height
    }
}

impl vstd::std_specs::cmp::PartialEqSpecImpl for MapMetaData {
    open spec fn obeys_eq_spec() -> bool {
        true
    }

    open spec fn eq_spec(&self, other: &Self) -> bool {
        self@ == other@
    }
}

impl PartialEq for Tile {
    fn eq(&self, other: &Self) -> (r: bool) {
        self.x == other.x && self.y == other.y && self.w == other.w && self.h == other.h
    }
}

impl vstd::std_specs::cmp::PartialEqSpecImpl for Tile {
    open spec fn obeys_eq_spec() -> bool {
        true
    }

    open spec fn eq_spec(&self, other: &Self) -> bool {
        self@ == other@
    }
}

impl PartialEq for MapData {
    fn eq(&self, other: &Self) -> (r: bool) {
        if !(self.meta == other.meta) {
            return false;
        }
        if self.tiles.len() != other.tiles.len() {
            proof {
                assert(self@.tiles.len() == self.tiles@.len());
                assert(other@.tiles.len() == other.tiles@.len());
            }
            return false;
        }
        let n = self.tiles.len();
        let mut k: usize = 0;
        while k < n
            invariant
                n == self.tiles.len() == other.tiles.len(),
                k <= n,
                forall|j: int| 0 <= j < k ==> self.tiles@[j]@ == other.tiles@[j]@,
            decreases n - k,
        {
            if !(self.tiles[k] == other.tiles[k]) {
                proof {
                    assert(self@.tiles[k as int] == self.tiles@[k as int]@);
                    assert(other@.tiles[k as int] == other.tiles@[k as int]@);
                }
                return false;
            }
            k += 1;
        }
        assert(self@.tiles =~= other@.tiles);
        true
    }
}

impl vstd::std_specs::cmp::PartialEqSpecImpl for MapData {
    open spec fn obeys_eq_spec() -> bool {
        true
    }

    open spec fn eq_spec(&self, other: &Self) -> bool {
        self@ == other@
    }
}

} // verus!
