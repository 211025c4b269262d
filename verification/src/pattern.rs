//! The pattern itself: 256 tiles in 16 rows of 16, row by row.

use crate::tile::{Prefab, Tile, TileView};
use vstd::prelude::*;

verus! {

/// A place on the pattern: the column, then the row.
pub type Point = (usize, usize);

/// Where the tile of column `x` and row `y` stands among the 256.
pub open spec fn offset_of(x: int, y: int) -> int {
    y * 16 + x
}

/// What a new pattern holds: 256 tiles of height zero with no prefab.
pub open spec fn blank_view() -> Seq<TileView> {
    Seq::new(256, |i: int| TileView { height: 0, prefab: Prefab::Empty })
}

/// What a pattern made from `values` holds: the first 256 of them in their
/// order, and tiles of height zero with no prefab where they run out.
pub open spec fn flat_view(values: Seq<Tile>) -> Seq<TileView> {
    Seq::new(
        256,
        |i: int|
            if i < values.len() {
                values[i]@
            } else {
                TileView { height: 0, prefab: Prefab::Empty }
            },
    )
}

/// Whether `tiles` is what a pattern can hold: 256 tiles, the height of
/// each between -50 and 50.
pub open spec fn is_pattern(tiles: Seq<TileView>) -> bool {
    &&& tiles.len() == 256
    &&& forall|i: int| 0 <= i < 256 ==> (#[trigger] tiles[i]).in_range()
}

/// What the tiles in `tiles` hold.
pub open spec fn views_of(tiles: Seq<Tile>) -> Seq<TileView> {
    Seq::new(tiles.len(), |i: int| tiles[i]@)
}

/// An interface for building cybergrind patterns.
///
/// A Cybergrind pattern is a 16x16 array of tiles. Each tile has a height
/// and optional prefab. Its view is the sequence of what its 256 tiles
/// hold, row by row.
pub struct CyberGrindPattern {
    tiles: [Tile; 256],
}

impl View for CyberGrindPattern {
    type V = Seq<TileView>;

    closed spec fn view(&self) -> Seq<TileView> {
        Seq::new(256, |i: int| self.tiles[i]@)
    }
}

impl Clone for CyberGrindPattern {
    fn clone(&self) -> (copy: CyberGrindPattern)
        ensures
            copy == *self,
    {
        CyberGrindPattern { tiles: self.tiles }
    }
}

impl Default for CyberGrindPattern {
    fn default() -> (pattern: CyberGrindPattern)
        ensures
            pattern@ == blank_view(),
    {
        CyberGrindPattern::new()
    }
}

impl CyberGrindPattern {
    /// The pattern that holds `view`, meaningful where `view` has 256
    /// entries, each in range.
    pub closed spec fn spec_from_view(view: Seq<TileView>) -> CyberGrindPattern {
        choose|pattern: CyberGrindPattern| pattern@ == view
    }

    /// The pattern made of these tiles.
    pub closed spec fn spec_from_tiles(tiles: [Tile; 256]) -> CyberGrindPattern {
        CyberGrindPattern { tiles }
    }

    /// A pattern holds 256 tiles.
    pub broadcast proof fn lemma_view_len(self)
        ensures
            #[trigger] self@.len() == 256,
    {
    }

    /// A pattern is determined by what it holds.
    pub proof fn lemma_view_determines_pattern(a: CyberGrindPattern, b: CyberGrindPattern)
        ensures
            a@ == b@ <==> a == b,
    {
        if a@ == b@ {
            assert forall|i: int| 0 <= i < 256 implies a.tiles[i] == b.tiles[i] by {
                assert(a@[i] == b@[i]);
                Tile::lemma_view_determines_tile(a.tiles[i], b.tiles[i]);
            }
            assert(a.tiles =~= b.tiles);
        }
    }

    /// Creates a new Cybergrind pattern with all tiles initialized to have
    /// a height of zero and no prefab.
    /// Same as `CyberGrindPattern::default()`.
    pub fn new() -> (pattern: CyberGrindPattern)
        ensures
            pattern@ == blank_view(),
    {
        let tile = Tile::default();
        let tiles: [Tile; 256] = [tile;256];
        assert(tiles == vstd::array::spec_array_fill_for_copy_type::<Tile, 256>(tile));
        assert forall|i: int| 0 <= i < 256 implies tiles[i] == tile by {
            assert(tiles@[i] == tile);
        }
        CyberGrindPattern { tiles }
    }

    /// Creates a pattern from tiles given row by row. Where there are fewer
    /// than 256, the rest have a height of zero and no prefab; where there
    /// are more, those after the first 256 are left out.
    pub fn from_flat(values: &[Tile]) -> (pattern: CyberGrindPattern)
        ensures
            pattern@ == flat_view(values@),
    {
        let mut pattern = CyberGrindPattern::new();
        let mut i: usize = 0;
        while i < values.len() && i < 256
            invariant
                i <= values.len(),
                i <= 256,
                forall|j: int| 0 <= j < i ==> pattern.tiles[j] == values@[j],
                forall|j: int| i <= j < 256 ==> pattern.tiles[j]@ == blank_view()[j],
            decreases 256 - i,
        {
            pattern.tiles[i] = values[i];
            i += 1;
        }
        assert forall|j: int| 0 <= j < 256 implies pattern@[j] == flat_view(values@)[j] by {
            if j < i {
                assert(pattern.tiles[j] == values@[j]);
            } else {
                assert(pattern.tiles[j]@ == blank_view()[j]);
            }
        }
        pattern
    }

    /// The tiles of the pattern, row by row.
    pub fn as_slice(&self) -> (tiles: &[Tile])
        ensures
            tiles@.len() == 256,
            views_of(tiles@) == self@,
    {
        let tiles = self.tiles.as_slice();
        assert(views_of(tiles@) =~= self@);
        tiles
    }

    /// The tile at `index`, counted row by row.
    pub fn get(&self, index: usize) -> (tile: Tile)
        requires
            index < 256,
        ensures
            tile@ == self@[index as int],
            self@[index as int].in_range(),
    {
        let tile = self.tiles[index];
        proof {
            use_type_invariant(&tile);
        }
        tile
    }

    /// The tile at `index`, counted row by row, to be changed in place.
    pub fn get_mut(&mut self, index: usize) -> (tile: &mut Tile)
        requires
            index < 256,
        ensures
            tile@ == old(self)@[index as int],
            final(self)@ == old(self)@.update(index as int, final(tile)@),
    {
        &mut self.tiles[index]
    }

    /// Puts `tile` at `index`, counted row by row.
    pub fn set(&mut self, index: usize, tile: Tile)
        requires
            index < 256,
        ensures
            final(self)@ == old(self)@.update(index as int, tile@),
    {
        self.tiles[index] = tile;
    }

    /// The tile in column `x` of row `y`.
    pub fn get_at(&self, x: usize, y: usize) -> (tile: Tile)
        requires
            x < 16,
            y < 16,
        ensures
            tile@ == self@[offset_of(x as int, y as int)],
            self@[offset_of(x as int, y as int)].in_range(),
    {
        let tile = self.tiles[y * 16 + x];
        proof {
            use_type_invariant(&tile);
        }
        tile
    }

    /// The tile in column `x` of row `y`, to be changed in place.
    pub fn get_mut_at(&mut self, x: usize, y: usize) -> (tile: &mut Tile)
        requires
            x < 16,
            y < 16,
        ensures
            tile@ == old(self)@[offset_of(x as int, y as int)],
            final(self)@ == old(self)@.update(offset_of(x as int, y as int), final(tile)@),
    {
        &mut self.tiles[y * 16 + x]
    }

    /// Puts `tile` in column `x` of row `y`.
    pub fn set_at(&mut self, x: usize, y: usize, tile: Tile)
        requires
            x < 16,
            y < 16,
        ensures
            final(self)@ == old(self)@.update(offset_of(x as int, y as int), tile@),
    {
        self.tiles[y * 16 + x] = tile;
    }

    /// Copies the data from tile `tile` to row number `row`: its 16 tiles
    /// become `tile`, and no other tile changes.
    pub fn copy_tile_to_row(&mut self, tile: Tile, row: usize)
        requires
            row < 16,
        ensures
            final(self)@.len() == 256,
            forall|i: int|
                0 <= i < 256 ==> #[trigger] final(self)@[i] == if i / 16 == row {
                    tile@
                } else {
                    old(self)@[i]
                },
    {
        let mut i: usize = 0;
        while i < 16
            invariant
                i <= 16,
                row < 16,
                forall|j: int|
                    0 <= j < 256 ==> #[trigger] self.tiles[j] == if j / 16 == row && j % 16 < i {
                        tile
                    } else {
                        old(self).tiles[j]
                    },
            decreases 16 - i,
        {
            self.tiles[i + row * 16] = tile;
            i += 1;
        }
    }

    /// Copies the data from tile `tile` to column number `column`: its 16
    /// tiles become `tile`, and no other tile changes.
    pub fn copy_tile_to_column(&mut self, tile: Tile, column: usize)
        requires
            column < 16,
        ensures
            final(self)@.len() == 256,
            forall|i: int|
                0 <= i < 256 ==> #[trigger] final(self)@[i] == if i % 16 == column {
                    tile@
                } else {
                    old(self)@[i]
                },
    {
        let mut i: usize = 0;
        while i < 16
            invariant
                i <= 16,
                column < 16,
                forall|j: int|
                    0 <= j < 256 ==> #[trigger] self.tiles[j] == if j % 16 == column && j / 16 < i {
                        tile
                    } else {
                        old(self).tiles[j]
                    },
            decreases 16 - i,
        {
            self.tiles[i * 16 + column] = tile;
            i += 1;
        }
    }
}

impl vstd::std_specs::convert::FromSpecImpl<Vec<Tile>> for CyberGrindPattern {
    open spec fn obeys_from_spec() -> bool {
        true
    }

    open spec fn from_spec(values: Vec<Tile>) -> CyberGrindPattern {
        CyberGrindPattern::spec_from_view(flat_view(values@))
    }
}

impl From<Vec<Tile>> for CyberGrindPattern {
    /// As `from_flat`: tiles after the first 256 are left out.
    fn from(values: Vec<Tile>) -> (pattern: CyberGrindPattern)
        ensures
            pattern@ == flat_view(values@),
    {
        let pattern = CyberGrindPattern::from_flat(values.as_slice());
        proof {
            let chosen = CyberGrindPattern::spec_from_view(flat_view(values@));
            assert(chosen@ == pattern@);
            CyberGrindPattern::lemma_view_determines_pattern(chosen, pattern);
        }
        pattern
    }
}

impl vstd::std_specs::convert::FromSpecImpl<[Tile; 256]> for CyberGrindPattern {
    open spec fn obeys_from_spec() -> bool {
        true
    }

    open spec fn from_spec(tiles: [Tile; 256]) -> CyberGrindPattern {
        CyberGrindPattern::spec_from_tiles(tiles)
    }
}

impl From<[Tile; 256]> for CyberGrindPattern {
    fn from(tiles: [Tile; 256]) -> (pattern: CyberGrindPattern)
        ensures
            pattern@ == flat_view(tiles@),
    {
        CyberGrindPattern { tiles }
    }
}

} // verus!
