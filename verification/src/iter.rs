//! Going through a pattern row by row, and through a row tile by tile.
//!
//! What reads borrows the pattern. What writes keeps no hold on it: it
//! knows the place it has come to, and the pattern is handed to each
//! operation that reads or changes a tile.

use crate::pattern::{offset_of, views_of, CyberGrindPattern};
use crate::tile::{Tile, TileView};
use vstd::prelude::*;

verus! {

/// The rows of a pattern, from the first to the last.
pub struct Iter<'a> {
    pat: &'a CyberGrindPattern,
    idx: usize,
}

/// One row of a pattern, to be read. Its view is what its 16 tiles hold.
#[derive(Clone, Copy, Debug)]
pub struct Row<'a> {
    tiles: &'a [Tile],
}

/// The tiles of a row, from the first to the last.
pub struct RowIter<'a> {
    tiles: &'a [Tile],
    idx: usize,
}

impl CyberGrindPattern {
    /// The row number `y` of the pattern, to be read.
    pub fn row(&self, y: usize) -> (row: Row<'_>)
        requires
            y < 16,
        ensures
            row@ == self@.subrange(16 * y, 16 * y + 16),
    {
        let all = self.as_slice();
        let tiles = vstd::slice::slice_subrange(all, 16 * y, 16 * y + 16);
        let row = Row { tiles };
        assert(row@ =~= self@.subrange(16 * y, 16 * y + 16)) by {
            assert forall|i: int| 0 <= i < 16 implies row@[i] == self@[16 * y + i] by {
                assert(views_of(all@)[16 * y + i] == self@[16 * y + i]);
            }
        }
        row
    }

    /// Goes through the rows of the pattern, to read them.
    pub fn iter(&self) -> (rows: Iter<'_>)
        ensures
            rows.pattern() == self@,
            rows.position() == 0,
    {
        Iter { pat: self, idx: 0 }
    }

    /// Goes through the rows of the pattern, to change them.
    pub fn iter_mut(&mut self) -> (rows: IterMut)
        ensures
            rows.position() == 0,
            final(self)@ == old(self)@,
    {
        IterMut { idx: 0 }
    }
}

impl<'a> Iter<'a> {
    #[verifier::type_invariant]
    spec fn well_formed(self) -> bool {
        self.idx <= 16
    }

    /// What the pattern holds whose rows these are.
    pub closed spec fn pattern(&self) -> Seq<TileView> {
        self.pat@
    }

    /// How many rows have been handed out.
    pub closed spec fn position(&self) -> int {
        self.idx as int
    }

    /// The next row, and `None` after the last.
    pub fn next(&mut self) -> (next: Option<Row<'a>>)
        ensures
            final(self).pattern() == old(self).pattern(),
            old(self).position() >= 16 ==> next is None && final(self).position() == old(
                self,
            ).position(),
            old(self).position() < 16 ==> next is Some && final(self).position() == old(
                self,
            ).position() + 1 && next->Some_0@ == old(self).pattern().subrange(
                16 * old(self).position(),
                16 * old(self).position() + 16,
            ),
    {
        proof {
            use_type_invariant(&*self);
        }
        if self.idx >= 16 {
            return None;
        }
        let index = self.idx;
        self.idx += 1;
        Some(self.pat.row(index))
    }
}

impl<'a> View for Row<'a> {
    type V = Seq<TileView>;

    closed spec fn view(&self) -> Seq<TileView> {
        views_of(self.tiles@)
    }
}

impl<'a> Row<'a> {
    #[verifier::type_invariant]
    spec fn well_formed(self) -> bool {
        self.tiles@.len() == 16
    }

    /// The tile in column `x` of the row.
    pub fn get(&self, x: usize) -> (tile: Tile)
        requires
            x < 16,
        ensures
            self@.len() == 16,
            tile@ == self@[x as int],
    {
        proof {
            use_type_invariant(self);
        }
        self.tiles[x]
    }

    /// Goes through the tiles of the row.
    pub fn iter(self) -> (tiles: RowIter<'a>)
        ensures
            tiles.row() == self@,
            tiles.position() == 0,
    {
        proof {
            use_type_invariant(self);
        }
        RowIter { tiles: self.tiles, idx: 0 }
    }
}

impl<'a> core::ops::Deref for Row<'a> {
    type Target = [Tile];

    fn deref(&self) -> (tiles: &[Tile])
        ensures
            tiles@.len() == 16,
            views_of(tiles@) == self@,
    {
        proof {
            use_type_invariant(self);
        }
        self.tiles
    }
}

impl<'a> RowIter<'a> {
    #[verifier::type_invariant]
    spec fn well_formed(self) -> bool {
        self.tiles@.len() == 16 && self.idx <= 16
    }

    /// What the row holds whose tiles these are.
    pub closed spec fn row(&self) -> Seq<TileView> {
        views_of(self.tiles@)
    }

    /// How many tiles have been handed out.
    pub closed spec fn position(&self) -> int {
        self.idx as int
    }

    /// The next tile of the row, and `None` after the last.
    pub fn next(&mut self) -> (next: Option<Tile>)
        ensures
            final(self).row() == old(self).row(),
            old(self).position() >= 16 ==> next is None && final(self).position() == old(
                self,
            ).position(),
            old(self).position() < 16 ==> next is Some && final(self).position() == old(
                self,
            ).position() + 1 && next->Some_0@ == old(self).row()[old(self).position()],
    {
        proof {
            use_type_invariant(&*self);
        }
        if self.idx >= 16 {
            return None;
        }
        let index = self.idx;
        self.idx += 1;

        Some(self.tiles[index])
    }
}

/// The rows of a pattern, from the first to the last, to be changed.
pub struct IterMut {
    idx: usize,
}

/// One row of a pattern, to be changed.
#[derive(Clone, Copy, Debug)]
pub struct RowMut {
    row: usize,
}

/// The tiles of a row, from the first to the last, to be changed.
pub struct RowIterMut {
    row: usize,
    idx: usize,
}

impl IterMut {
    #[verifier::type_invariant]
    spec fn well_formed(self) -> bool {
        self.idx <= 16
    }

    /// How many rows have been handed out.
    pub closed spec fn position(&self) -> int {
        self.idx as int
    }

    /// The next row, and `None` after the last.
    pub fn next(&mut self) -> (next: Option<RowMut>)
        ensures
            old(self).position() >= 16 ==> next is None && final(self).position() == old(
                self,
            ).position(),
            old(self).position() < 16 ==> next is Some && final(self).position() == old(
                self,
            ).position() + 1 && next->Some_0.number() == old(self).position(),
    {
        proof {
            use_type_invariant(&*self);
        }
        if self.idx >= 16 {
            return None;
        }
        let index = self.idx;
        self.idx += 1;

        Some(RowMut { row: index })
    }
}

impl RowMut {
    #[verifier::type_invariant]
    spec fn well_formed(self) -> bool {
        self.row < 16
    }

    /// Which row of the pattern this is, counted from 0.
    pub closed spec fn number(&self) -> int {
        self.row as int
    }

    /// Which row of the pattern this is, counted from 0.
    pub fn index(&self) -> (index: usize)
        ensures
            index == self.number(),
            index < 16,
    {
        proof {
            use_type_invariant(self);
        }
        self.row
    }

    /// The tile in column `x` of the row.
    pub fn get(&self, pattern: &CyberGrindPattern, x: usize) -> (tile: Tile)
        requires
            x < 16,
        ensures
            tile@ == pattern@[offset_of(x as int, self.number())],
    {
        proof {
            use_type_invariant(self);
        }
        pattern.get_at(x, self.row)
    }

    /// The tile in column `x` of the row, to be changed in place.
    pub fn get_mut<'a>(&self, pattern: &'a mut CyberGrindPattern, x: usize) -> (tile: &'a mut Tile)
        requires
            x < 16,
        ensures
            tile@ == old(pattern)@[offset_of(x as int, self.number())],
            final(pattern)@ == old(pattern)@.update(
                offset_of(x as int, self.number()),
                final(tile)@,
            ),
    {
        proof {
            use_type_invariant(self);
        }
        pattern.get_mut_at(x, self.row)
    }

    /// Puts `tile` in column `x` of the row.
    pub fn set(&self, pattern: &mut CyberGrindPattern, x: usize, tile: Tile)
        requires
            x < 16,
        ensures
            final(pattern)@ == old(pattern)@.update(offset_of(x as int, self.number()), tile@),
    {
        proof {
            use_type_invariant(self);
        }
        pattern.set_at(x, self.row, tile);
    }

    /// Goes through the tiles of the row.
    pub fn iter(self) -> (tiles: RowIterMut)
        ensures
            tiles.number() == self.number(),
            tiles.position() == 0,
    {
        proof {
            use_type_invariant(self);
        }
        RowIterMut { row: self.row, idx: 0 }
    }
}

impl RowIterMut {
    #[verifier::type_invariant]
    spec fn well_formed(self) -> bool {
        self.row < 16 && self.idx <= 16
    }

    /// Which row of the pattern this is, counted from 0.
    pub closed spec fn number(&self) -> int {
        self.row as int
    }

    /// How many tiles have been handed out.
    pub closed spec fn position(&self) -> int {
        self.idx as int
    }

    /// The next tile of the row, to be changed in place, and `None` after the
    /// last.
    pub fn next<'a>(&mut self, pattern: &'a mut CyberGrindPattern) -> (next: Option<&'a mut Tile>)
        ensures
            final(self).number() == old(self).number(),
            old(self).position() >= 16 ==> next is None && final(self).position() == old(
                self,
            ).position() && final(pattern)@ == old(pattern)@,
            old(self).position() < 16 ==> next is Some && final(self).position() == old(
                self,
            ).position() + 1 && next->Some_0@ == old(pattern)@[offset_of(
                old(self).position(),
                old(self).number(),
            )] && final(pattern)@ == old(pattern)@.update(
                offset_of(old(self).position(), old(self).number()),
                final(next->Some_0)@,
            ),
    {
        proof {
            use_type_invariant(&*self);
        }
        if self.idx >= 16 {
            return None;
        }
        let index = self.idx;
        self.idx += 1;

        Some(pattern.get_mut_at(index, self.row))
    }
}

} // verus!
