//! Reading gives back what was written.

use crate::error::{ParseError, ParseErrorType};
use crate::grammar::{
    byte_at, height_section, height_text, parse_text, pattern_text, prefab_place, prefab_section,
    row_end, scan_group, scan_height, scan_heights, scan_prefabs, tiles_of, CLOSE, MAX_FILE_SIZE,
    MINUS, NEWLINE, OPEN, ZERO,
};
use crate::pattern::is_pattern;
use crate::text::decimal;
use crate::tile::{height_in_range, Prefab, TileView};
use vstd::prelude::*;

verus! {

/// Whether the bytes of `part` stand in `text` from `at` on.
pub open spec fn holds_at(text: Seq<u8>, at: int, part: Seq<u8>) -> bool {
    &&& 0 <= at
    &&& at + part.len() <= text.len()
    &&& forall|i: int| 0 <= i < part.len() ==> text[at + i] == #[trigger] part[i]
}

/// The heights of the first `n` tiles.
pub open spec fn heights_of(tiles: Seq<TileView>, n: nat) -> Seq<int> {
    Seq::new(n, |i: int| tiles[i].height)
}

/// The prefabs of the first `n` tiles.
pub open spec fn prefabs_of(tiles: Seq<TileView>, n: nat) -> Seq<Prefab> {
    Seq::new(n, |i: int| tiles[i].prefab)
}

/// The text of a height takes from one to five bytes.
pub proof fn lemma_height_text_len(height: int)
    requires
        height_in_range(height),
    ensures
        1 <= height_text(height).len() <= 5,
{
    reveal_with_fuel(decimal, 2);
}

/// Where the text of a height stands, that height is read, and the reading
/// ends where the text does.
pub proof fn lemma_scan_height_of_text(text: Seq<u8>, at: int, height: int)
    requires
        height_in_range(height),
        holds_at(text, at, height_text(height)),
    ensures
        scan_height(text, at) == Ok::<(int, int), (ParseErrorType, int)>(
            (height, at + height_text(height).len()),
        ),
{
    reveal_with_fuel(decimal, 2);
    reveal_with_fuel(scan_group, 5);
    let cell = height_text(height);
    assert(text[at + 0] == cell[0]);
    if 0 <= height <= 9 {
    } else if height < 0 {
        let magnitude = (-height) as nat;
        assert(text[at + 1] == cell[1]);
        assert(text[at + 2] == cell[2]);
        assert(text[at + 3] == cell[3]);
        if magnitude >= 10 {
            assert(text[at + 4] == cell[4]);
            assert(cell =~= seq![
                OPEN,
                MINUS,
                (ZERO + magnitude / 10) as u8,
                (ZERO + magnitude % 10) as u8,
                CLOSE,
            ]);
        } else {
            assert(cell =~= seq![OPEN, MINUS, (ZERO + magnitude) as u8, CLOSE]);
        }
    } else {
        let magnitude = height as nat;
        assert(text[at + 1] == cell[1]);
        assert(text[at + 2] == cell[2]);
        assert(text[at + 3] == cell[3]);
        assert(cell =~= seq![
            OPEN,
            (ZERO + magnitude / 10) as u8,
            (ZERO + magnitude % 10) as u8,
            CLOSE,
        ]);
    }
}

/// The height section of the first `n` tiles begins that of the first `m`,
/// where `m` is not less than `n`.
pub proof fn lemma_height_section_grows(tiles: Seq<TileView>, n: nat, m: nat)
    requires
        n <= m,
    ensures
        holds_at(height_section(tiles, m), 0, height_section(tiles, n)),
    decreases m,
{
    if n < m {
        lemma_height_section_grows(tiles, n, (m - 1) as nat);
        let shorter = height_section(tiles, (m - 1) as nat);
        let part = height_section(tiles, n);
        assert forall|i: int| 0 <= i < part.len() implies height_section(tiles, m)[0 + i]
            == #[trigger] part[i] by {
            assert(shorter[0 + i] == part[i]);
        }
    }
}

/// The prefab section of the first `n` tiles begins that of the first `m`,
/// where `m` is not less than `n`.
pub proof fn lemma_prefab_section_grows(tiles: Seq<TileView>, n: nat, m: nat)
    requires
        n <= m,
    ensures
        holds_at(prefab_section(tiles, m), 0, prefab_section(tiles, n)),
    decreases m,
{
    if n < m {
        lemma_prefab_section_grows(tiles, n, (m - 1) as nat);
        let shorter = prefab_section(tiles, (m - 1) as nat);
        let part = prefab_section(tiles, n);
        assert forall|i: int| 0 <= i < part.len() implies prefab_section(tiles, m)[0 + i]
            == #[trigger] part[i] by {
            assert(shorter[0 + i] == part[i]);
        }
    }
}

/// The height section of `n` tiles takes at most five bytes for each and
/// one for each full row.
pub proof fn lemma_height_section_len(tiles: Seq<TileView>, n: nat)
    requires
        is_pattern(tiles),
        n <= 256,
    ensures
        height_section(tiles, n).len() <= 5 * n + n / 16,
    decreases n,
{
    if n > 0 {
        lemma_height_section_len(tiles, (n - 1) as nat);
        assert(tiles[n - 1].in_range());
        lemma_height_text_len(tiles[n - 1].height);
    }
}

/// The prefab section of `n` tiles takes one byte for each and one for each
/// full row.
pub proof fn lemma_prefab_section_len(tiles: Seq<TileView>, n: nat)
    ensures
        prefab_section(tiles, n).len() == n + n / 16,
    decreases n,
{
    if n > 0 {
        lemma_prefab_section_len(tiles, (n - 1) as nat);
    }
}

/// The text of a pattern takes at most 1569 bytes.
pub proof fn lemma_pattern_text_len(tiles: Seq<TileView>)
    requires
        is_pattern(tiles),
    ensures
        pattern_text(tiles).len() <= MAX_FILE_SIZE,
{
    lemma_height_section_len(tiles, 256);
    lemma_prefab_section_len(tiles, 256);
}

/// In a text that begins with the height section of a pattern, the first
/// `n` heights are read as they were written.
pub proof fn lemma_scan_heights_of_text(text: Seq<u8>, tiles: Seq<TileView>, n: nat)
    requires
        is_pattern(tiles),
        n <= 256,
        holds_at(text, 0, height_section(tiles, 256)),
    ensures
        scan_heights(text, n) is Ok,
        scan_heights(text, n)->Ok_0.values == heights_of(tiles, n),
        scan_heights(text, n)->Ok_0.at == height_section(tiles, n).len(),
    decreases n,
{
    if n > 0 {
        let index = n - 1;
        lemma_scan_heights_of_text(text, tiles, index as nat);
        lemma_height_section_grows(tiles, n, 256);
        let read = scan_heights(text, index as nat)->Ok_0;
        let whole = height_section(tiles, 256);
        let part = height_section(tiles, n);
        let height = tiles[index].height;
        let cell = height_text(height);
        assert(tiles[index].in_range());
        lemma_height_text_len(height);
        assert(part == height_section(tiles, index as nat) + cell + row_end(index));
        assert forall|i: int| 0 <= i < cell.len() implies text[read.at + i] == #[trigger] cell[i] by {
            assert(text[0 + (read.at + i)] == whole[read.at + i]);
            assert(whole[0 + (read.at + i)] == part[read.at + i]);
        }
        lemma_scan_height_of_text(text, read.at, height);
        if index % 16 == 15 {
            let end = read.at + cell.len();
            assert(text[0 + end] == whole[end]);
            assert(whole[0 + end] == part[end]);
            assert(byte_at(text, end) == NEWLINE);
        }
        assert(scan_heights(text, n)->Ok_0.values =~= heights_of(tiles, n));
    } else {
        assert(scan_heights(text, n)->Ok_0.values =~= heights_of(tiles, n));
    }
}

/// In a text that holds the prefab section of a pattern at `start`, the
/// first `n` prefabs are read as they were written.
pub proof fn lemma_scan_prefabs_of_text(text: Seq<u8>, start: int, tiles: Seq<TileView>, n: nat)
    requires
        tiles.len() == 256,
        n <= 256,
        holds_at(text, start, prefab_section(tiles, 256)),
    ensures
        scan_prefabs(text, start, n) == Ok::<Seq<Prefab>, ParseError>(prefabs_of(tiles, n)),
    decreases n,
{
    if n > 0 {
        let index = n - 1;
        lemma_scan_prefabs_of_text(text, start, tiles, index as nat);
        lemma_prefab_section_grows(tiles, n, 256);
        lemma_prefab_section_len(tiles, index as nat);
        lemma_prefab_section_len(tiles, n);
        let whole = prefab_section(tiles, 256);
        let part = prefab_section(tiles, n);
        let prefab = tiles[index].prefab;
        let place = index + index / 16;
        assert(prefab_place(start, index) == start + place);
        assert(part == prefab_section(tiles, index as nat).push(prefab.spec_symbol()) + row_end(
            index,
        ));
        assert(text[start + place] == whole[place]);
        assert(whole[0 + place] == part[place]);
        assert(byte_at(text, start + place) == prefab.spec_symbol());
        Prefab::lemma_symbol_round_trip(prefab, 0);
        if index % 16 == 15 {
            assert(text[start + (place + 1)] == whole[place + 1]);
            assert(whole[0 + (place + 1)] == part[place + 1]);
            assert(byte_at(text, start + place + 1) == NEWLINE);
        }
        assert(prefabs_of(tiles, index as nat).push(prefab) =~= prefabs_of(tiles, n));
    } else {
        assert(prefabs_of(tiles, n) =~= Seq::<Prefab>::empty());
    }
}

/// Reading the text of a pattern gives the pattern back, whatever follows
/// the text.
pub proof fn lemma_round_trip(tiles: Seq<TileView>, rest: Seq<u8>)
    requires
        is_pattern(tiles),
    ensures
        parse_text(pattern_text(tiles) + rest) == Ok::<Seq<TileView>, ParseError>(tiles),
{
    let heights = height_section(tiles, 256);
    let prefabs = prefab_section(tiles, 256);
    let text = pattern_text(tiles) + rest;
    let start: int = heights.len() as int + 1;
    assert forall|i: int| 0 <= i < heights.len() implies text[0 + i] == #[trigger] heights[i] by {}
    assert forall|i: int| 0 <= i < prefabs.len() implies text[start + i] == #[trigger] prefabs[i] by {}
    assert(text[heights.len() as int] == NEWLINE);
    lemma_scan_heights_of_text(text, tiles, 256);
    lemma_scan_prefabs_of_text(text, start, tiles, 256);
    assert(tiles_of(heights_of(tiles, 256), prefabs_of(tiles, 256)) =~= tiles);
}

} // verus!
