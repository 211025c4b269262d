//! The text of a pattern file, as a mathematical statement.
//!
//! A pattern file has two sections with an empty line between them. The
//! first gives the heights: 16 lines of 16 cells, a cell being one digit
//! for a height from 0 to 9 and a decimal number in parentheses otherwise.
//! The second gives the prefabs: 16 lines of 16 bytes. Every line ends in
//! a newline.
//!
//! Reading is stated over a text that goes on with zero bytes after its
//! end, so a text that stops early is at fault where it stops, with the
//! byte 0.

use crate::error::{ParseError, ParseErrorType};
use crate::text::{decimal, signed_decimal};
use crate::tile::{Prefab, TileView};
use vstd::prelude::*;

verus! {

/// The byte that ends a line.
pub const NEWLINE: u8 = 10;

/// The byte that opens a height in parentheses.
pub const OPEN: u8 = 40;

/// The byte that closes a height in parentheses.
pub const CLOSE: u8 = 41;

/// The sign of a negative height.
pub const MINUS: u8 = 45;

/// The digit zero; the other digits follow it.
pub const ZERO: u8 = 48;

/// The digit nine.
pub const NINE: u8 = 57;

/// The greatest number of bytes that the text of a pattern takes.
pub const MAX_FILE_SIZE: usize = 1569;

/// The first line of the prefab section: 16 lines of heights and an empty
/// line come before it.
pub const FIRST_PREFAB_LINE: u32 = 18;

/// The byte at `at`, and 0 outside the text.
pub open spec fn byte_at(text: Seq<u8>, at: int) -> u8 {
    if 0 <= at < text.len() {
        text[at]
    } else {
        0
    }
}

/// Whether `byte` is one of the digits `0` to `9`.
pub open spec fn is_digit(byte: u8) -> bool {
    ZERO <= byte <= NINE
}

/// The text of one height: a digit from 0 to 9, else the number in
/// parentheses.
pub open spec fn height_text(height: int) -> Seq<u8> {
    if 0 <= height <= 9 {
        decimal(height as nat)
    } else {
        seq![OPEN] + signed_decimal(height) + seq![CLOSE]
    }
}

/// What follows the cell `index` on its line: a newline after the last cell
/// of a row, nothing after the others.
pub open spec fn row_end(index: int) -> Seq<u8> {
    if index % 16 == 15 {
        seq![NEWLINE]
    } else {
        Seq::empty()
    }
}

/// The height section as far as the first `n` tiles.
pub open spec fn height_section(tiles: Seq<TileView>, n: nat) -> Seq<u8>
    decreases n,
{
    if n == 0 {
        Seq::empty()
    } else {
        height_section(tiles, (n - 1) as nat) + height_text(tiles[n - 1].height) + row_end(n - 1)
    }
}

/// The prefab section as far as the first `n` tiles.
pub open spec fn prefab_section(tiles: Seq<TileView>, n: nat) -> Seq<u8>
    decreases n,
{
    if n == 0 {
        Seq::empty()
    } else {
        prefab_section(tiles, (n - 1) as nat).push(tiles[n - 1].prefab.spec_symbol()) + row_end(
            n - 1,
        )
    }
}

/// The text of a pattern: its heights, an empty line, its prefabs.
pub open spec fn pattern_text(tiles: Seq<TileView>) -> Seq<u8> {
    height_section(tiles, 256) + seq![NEWLINE] + prefab_section(tiles, 256)
}

/// The column that lies `steps` bytes after `column`, and the greatest
/// `u32` where that column is too great for a `u32`.
pub open spec fn column_after(column: u32, steps: int) -> u32 {
    if column + steps > u32::MAX {
        u32::MAX
    } else {
        (column + steps) as u32
    }
}

/// The fault of kind `kind` at the byte `at` of the line `line`, which
/// begins at `line_start`. The first byte of a line is in column 1.
pub open spec fn fault(
    text: Seq<u8>,
    line: int,
    line_start: int,
    kind: ParseErrorType,
    at: int,
) -> ParseError {
    ParseError {
        line: line as u32,
        column: column_after(1, at - line_start),
        kind,
        char: byte_at(text, at),
    }
}

/// Reads what stands in parentheses from `at` on, up to the closing one.
/// `negative` says whether a sign was read already, `magnitude` is the
/// number that the digits read so far make up. The result is the height and
/// the place after the closing parenthesis, or the kind of fault and the
/// place of the byte at fault:
/// a second sign; a byte that is no sign, digit or closing parenthesis;
/// a zero with no digit but zeros before it; and, at the closing
/// parenthesis, a number greater than 50.
pub open spec fn scan_group(text: Seq<u8>, at: int, negative: bool, magnitude: nat) -> Result<
    (int, int),
    (ParseErrorType, int),
>
    decreases text.len() - at,
{
    let byte = byte_at(text, at);
    if at < 0 || at >= text.len() {
        Err((ParseErrorType::InvalidHeightChar, at))
    } else if byte == CLOSE {
        if magnitude > 50 {
            Err((ParseErrorType::InvalidHeightValue, at))
        } else if negative {
            Ok((-magnitude, at + 1))
        } else {
            Ok((magnitude as int, at + 1))
        }
    } else if byte == MINUS {
        if negative {
            Err((ParseErrorType::DuplicateNegative, at))
        } else {
            scan_group(text, at + 1, true, magnitude)
        }
    } else if !is_digit(byte) {
        Err((ParseErrorType::InvalidHeightChar, at))
    } else if byte == ZERO && magnitude == 0 {
        Err((ParseErrorType::LeadingZero, at))
    } else {
        scan_group(text, at + 1, negative, magnitude * 10 + (byte - ZERO) as nat)
    }
}

/// Reads the height cell at `at`: a single digit, or a number in
/// parentheses. The result is as for `scan_group`.
pub open spec fn scan_height(text: Seq<u8>, at: int) -> Result<(int, int), (ParseErrorType, int)> {
    let byte = byte_at(text, at);
    if byte == OPEN {
        scan_group(text, at + 1, false, 0)
    } else if is_digit(byte) {
        Ok((byte - ZERO, at + 1))
    } else {
        Err((ParseErrorType::InvalidHeightChar, at))
    }
}

/// How far the height section has been read: the heights so far, the place
/// of the next byte and the place where the line of that byte begins.
pub struct Heights {
    pub values: Seq<int>,
    pub at: int,
    pub line_start: int,
}

/// Reads the first `n` cells of the height section, which begins the text,
/// with the newline after each row of 16. The result is the first fault,
/// if there is one.
pub open spec fn scan_heights(text: Seq<u8>, n: nat) -> Result<Heights, ParseError>
    decreases n,
{
    if n == 0 {
        Ok(Heights { values: Seq::empty(), at: 0, line_start: 0 })
    } else {
        let index = n - 1;
        let line = index / 16 + 1;
        match scan_heights(text, index as nat) {
            Err(error) => Err(error),
            Ok(read) => match scan_height(text, read.at) {
                Err((kind, at)) => Err(fault(text, line, read.line_start, kind, at)),
                Ok((height, next)) => if index % 16 != 15 {
                    Ok(Heights { values: read.values.push(height), at: next, line_start: read.line_start })
                } else if byte_at(text, next) == NEWLINE {
                    Ok(Heights { values: read.values.push(height), at: next + 1, line_start: next + 1 })
                } else {
                    Err(fault(text, line, read.line_start, ParseErrorType::ExpectedNewline, next))
                },
            },
        }
    }
}

/// Where the prefab of the tile `index` stands in a prefab section that
/// begins at `start`: each line takes 17 bytes.
pub open spec fn prefab_place(start: int, index: int) -> int {
    start + 17 * (index / 16) + index % 16
}

/// Reads the first `n` cells of the prefab section that begins at `start`,
/// with the newline after each row of 16. The result is the first fault,
/// if there is one.
pub open spec fn scan_prefabs(text: Seq<u8>, start: int, n: nat) -> Result<Seq<Prefab>, ParseError>
    decreases n,
{
    if n == 0 {
        Ok(Seq::empty())
    } else {
        let index = n - 1;
        let line = FIRST_PREFAB_LINE + index / 16;
        let line_start = start + 17 * (index / 16);
        let at = prefab_place(start, index);
        match scan_prefabs(text, start, index as nat) {
            Err(error) => Err(error),
            Ok(prefabs) => match Prefab::spec_from_symbol(byte_at(text, at)) {
                None => Err(fault(text, line, line_start, ParseErrorType::InvalidPrefab, at)),
                Some(prefab) => if index % 16 == 15 && byte_at(text, at + 1) != NEWLINE {
                    Err(fault(text, line, line_start, ParseErrorType::ExpectedNewline, at + 1))
                } else {
                    Ok(prefabs.push(prefab))
                },
            },
        }
    }
}

/// The tiles that have these heights and these prefabs.
pub open spec fn tiles_of(heights: Seq<int>, prefabs: Seq<Prefab>) -> Seq<TileView> {
    Seq::new(256, |i: int| TileView { height: heights[i], prefab: prefabs[i] })
}

/// What reading a text as a pattern gives: the 256 tiles, or the first
/// fault. What follows the prefab section is not read.
pub open spec fn parse_text(text: Seq<u8>) -> Result<Seq<TileView>, ParseError> {
    match scan_heights(text, 256) {
        Err(error) => Err(error),
        Ok(read) => if byte_at(text, read.at) != NEWLINE {
            Err(fault(text, 17, read.at, ParseErrorType::ExpectedNewline, read.at))
        } else {
            match scan_prefabs(text, read.at + 1, 256) {
                Err(error) => Err(error),
                Ok(prefabs) => Ok(tiles_of(read.values, prefabs)),
            }
        },
    }
}

} // verus!
