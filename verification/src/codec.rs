//! Reading a pattern from the bytes of a pattern file, and writing it.

use crate::error::{ParseError, ParseErrorType};
use crate::grammar::{
    byte_at, column_after, height_section, height_text, is_digit, parse_text, pattern_text,
    prefab_place, prefab_section, row_end, scan_group, scan_heights, scan_prefabs, tiles_of,
    Heights, CLOSE, FIRST_PREFAB_LINE, MAX_FILE_SIZE, MINUS, NEWLINE, NINE, OPEN, ZERO,
};
use crate::pattern::{is_pattern, CyberGrindPattern};
use crate::round_trip::lemma_round_trip;
use crate::text::decimal;
use crate::tile::{height_in_range, Prefab, TileView};
use vstd::prelude::*;
use vstd::string::StringSliceAdditionalSpecFns;

verus! {

/// What `parse_parentheses` gives for the parentheses that open at
/// `open_at`, in column `column` of line `line`: the height, the column and
/// the place of the closing parenthesis, or the fault.
pub open spec fn parentheses_result(text: Seq<u8>, open_at: int, line: u32, column: u32) -> Result<
    (i8, u32, usize),
    ParseError,
> {
    match scan_group(text, open_at + 1, false, 0) {
        Ok((height, next)) => Ok(
            (height as i8, column_after(column, next - 1 - open_at), (next - 1) as usize),
        ),
        Err((kind, at)) => Err(
            ParseError {
                line,
                column: column_after(column, at - open_at),
                kind,
                char: byte_at(text, at),
            },
        ),
    }
}

/// A height that was read from parentheses is between -50 and 50, and the
/// closing parenthesis stands in the text, after the place where the
/// reading began.
pub proof fn lemma_scan_group_bounds(text: Seq<u8>, at: int, negative: bool, magnitude: nat)
    requires
        0 <= at <= text.len(),
    ensures
        scan_group(text, at, negative, magnitude) matches Ok((height, next)) ==> height_in_range(
            height,
        ) && at < next <= text.len() && text[next - 1] == CLOSE,
        scan_group(text, at, negative, magnitude) matches Err((_, place)) ==> at <= place
            <= text.len(),
    decreases text.len() - at,
{
    let byte = byte_at(text, at);
    if at >= text.len() {
    } else if byte == CLOSE {
    } else if byte == MINUS {
        if !negative {
            lemma_scan_group_bounds(text, at + 1, true, magnitude);
        }
    } else if !is_digit(byte) {
    } else if byte == ZERO && magnitude == 0 {
    } else {
        lemma_scan_group_bounds(text, at + 1, negative, magnitude * 10 + (byte - ZERO) as nat);
    }
}

/// The heights that are read are between -50 and 50, as many as the cells
/// that were read, and the reading does not go past the end of the text.
pub proof fn lemma_scan_heights_bounds(text: Seq<u8>, n: nat)
    ensures
        scan_heights(text, n) matches Ok(read) ==> {
            &&& read.values.len() == n
            &&& 0 <= read.line_start <= read.at <= text.len()
            &&& forall|i: int| 0 <= i < n ==> height_in_range(#[trigger] read.values[i])
        },
    decreases n,
{
    if n > 0 {
        lemma_scan_heights_bounds(text, (n - 1) as nat);
        if scan_heights(text, (n - 1) as nat) is Ok {
            let read = scan_heights(text, (n - 1) as nat)->Ok_0;
            if byte_at(text, read.at) == OPEN {
                lemma_scan_group_bounds(text, read.at + 1, false, 0);
            }
        }
    }
}

/// The prefabs that are read are as many as the cells that were read.
pub proof fn lemma_scan_prefabs_len(text: Seq<u8>, start: int, n: nat)
    ensures
        scan_prefabs(text, start, n) matches Ok(prefabs) ==> prefabs.len() == n,
    decreases n,
{
    if n > 0 {
        lemma_scan_prefabs_len(text, start, (n - 1) as nat);
    }
}

/// What is read from a text is what a pattern can hold: 256 tiles, the
/// height of each between -50 and 50.
pub proof fn lemma_parse_text_gives_pattern(text: Seq<u8>)
    ensures
        parse_text(text) matches Ok(tiles) ==> is_pattern(tiles),
{
    lemma_scan_heights_bounds(text, 256);
    if scan_heights(text, 256) is Ok {
        lemma_scan_prefabs_len(text, scan_heights(text, 256)->Ok_0.at + 1, 256);
    }
}

/// Once the height section is at fault, it stays so however far it is read.
pub proof fn lemma_scan_heights_stays_failed(text: Seq<u8>, n: nat, m: nat)
    requires
        n <= m,
        scan_heights(text, n) is Err,
    ensures
        scan_heights(text, m) == scan_heights(text, n),
    decreases m,
{
    if n < m {
        lemma_scan_heights_stays_failed(text, n, (m - 1) as nat);
    }
}

/// Once the prefab section is at fault, it stays so however far it is read.
pub proof fn lemma_scan_prefabs_stays_failed(text: Seq<u8>, start: int, n: nat, m: nat)
    requires
        n <= m,
        scan_prefabs(text, start, n) is Err,
    ensures
        scan_prefabs(text, start, m) == scan_prefabs(text, start, n),
    decreases m,
{
    if n < m {
        lemma_scan_prefabs_stays_failed(text, start, n, (m - 1) as nat);
    }
}

/// The byte at `at`, and 0 where the bytes have ended.
fn read_byte(bytes: &[u8], at: usize) -> (byte: u8)
    ensures
        byte == byte_at(bytes@, at as int),
{
    if at < bytes.len() {
        bytes[at]
    } else {
        0
    }
}

/// Appends the text of one height to `sink`.
fn write_height(sink: &mut Vec<u8>, height: i8)
    requires
        height_in_range(height as int),
    ensures
        final(sink)@ == old(sink)@ + height_text(height as int),
        height_text(height as int).len() <= 5,
{
    if 0 <= height && height <= 9 {
        sink.push(ZERO + height as u8);
        assert(sink@ =~= old(sink)@ + height_text(height as int));
    } else {
        sink.push(OPEN);
        let magnitude: u8 = if height < 0 {
            sink.push(MINUS);
            (-height) as u8
        } else {
            height as u8
        };
        if magnitude >= 10 {
            sink.push(ZERO + magnitude / 10);
        }
        sink.push(ZERO + magnitude % 10);
        sink.push(CLOSE);
        proof {
            reveal_with_fuel(decimal, 2);
            if magnitude >= 10 {
                assert(decimal(magnitude as nat) =~= seq![
                    (ZERO + magnitude / 10) as u8,
                    (ZERO + magnitude % 10) as u8,
                ]);
            } else {
                assert(decimal(magnitude as nat) =~= seq![(ZERO + magnitude) as u8]);
            }
            assert(sink@ =~= old(sink)@ + height_text(height as int));
        }
    }
}

impl CyberGrindPattern {
    /// Appends the text of this pattern to `sink`: the heights, an empty
    /// line, the prefabs. It takes at most 1569 bytes, and reading it gives
    /// this pattern back.
    pub fn write(&self, sink: &mut Vec<u8>)
        ensures
            final(sink)@ == old(sink)@ + pattern_text(self@),
            pattern_text(self@).len() <= MAX_FILE_SIZE,
            parse_text(pattern_text(self@)) == Ok::<Seq<TileView>, ParseError>(self@),
    {
        broadcast use CyberGrindPattern::lemma_view_len;

        let mut tile_idx: usize = 0;
        while tile_idx < 256
            invariant
                tile_idx <= 256,
                self@.len() == 256,
                sink@ == old(sink)@ + height_section(self@, tile_idx as nat),
                height_section(self@, tile_idx as nat).len() <= 5 * tile_idx + tile_idx / 16,
                forall|j: int| 0 <= j < tile_idx ==> (#[trigger] self@[j]).in_range(),
            decreases 256 - tile_idx,
        {
            let ghost before = sink@;
            let tile = self.get(tile_idx);
            write_height(sink, tile.height());
            if tile_idx % 16 == 15 {
                sink.push(NEWLINE);
            }
            assert(sink@ =~= before + height_text(self@[tile_idx as int].height) + row_end(
                tile_idx as int,
            ));
            assert(sink@ =~= old(sink)@ + height_section(self@, (tile_idx + 1) as nat));
            tile_idx += 1;
        }

        sink.push(NEWLINE);

        let ghost heights = old(sink)@ + height_section(self@, 256) + seq![NEWLINE];
        tile_idx = 0;
        while tile_idx < 256
            invariant
                tile_idx <= 256,
                self@.len() == 256,
                sink@ == heights + prefab_section(self@, tile_idx as nat),
                prefab_section(self@, tile_idx as nat).len() == tile_idx + tile_idx / 16,
            decreases 256 - tile_idx,
        {
            let ghost before = sink@;
            let tile = self.get(tile_idx);
            sink.push(tile.prefab().symbol());
            if tile_idx % 16 == 15 {
                sink.push(NEWLINE);
            }
            assert(sink@ =~= before.push(self@[tile_idx as int].prefab.spec_symbol()) + row_end(
                tile_idx as int,
            ));
            assert(sink@ =~= heights + prefab_section(self@, (tile_idx + 1) as nat));
            tile_idx += 1;
        }
        proof {
            assert(sink@ =~= old(sink)@ + pattern_text(self@));
            lemma_round_trip(self@, Seq::empty());
            assert(pattern_text(self@) + Seq::<u8>::empty() =~= pattern_text(self@));
        }
    }

    /// Tells whether `byte`, found in column `column` of line `line`, is the
    /// newline that has to stand there.
    pub fn check_for_newline(line: u32, column: u32, byte: u8) -> (result: Result<(), ParseError>)
        ensures
            result == if byte == NEWLINE {
                Ok::<(), ParseError>(())
            } else {
                Err::<(), ParseError>(
                    ParseError { line, column, kind: ParseErrorType::ExpectedNewline, char: byte },
                )
            },
    {
        if byte != NEWLINE {
            Err(ParseError { line, column, char: byte, kind: ParseErrorType::ExpectedNewline })
        } else {
            Ok(())
        }
    }

    /// Reads the height in the parentheses that open at `buf_idx`, in column
    /// `column` of line `line`. Returns the height, and the column and the
    /// place of the closing parenthesis.
    pub fn parse_parentheses(bytes: &[u8], buf_idx: usize, line: u32, column: u32) -> (result:
        Result<(i8, u32, usize), ParseError>)
        requires
            buf_idx < bytes.len(),
        ensures
            result == parentheses_result(bytes@, buf_idx as int, line, column),
            result matches Ok((height, _, close)) ==> height_in_range(height as int) && buf_idx
                < close < bytes.len(),
    {
        let mut is_negative = false;
        // The number read so far, and 51 for every number above 50.
        let mut height: u8 = 0;
        let ghost mut magnitude: nat = 0;

        let mut at_column = column.saturating_add(1);
        let mut at = buf_idx + 1;
        let mut char = read_byte(bytes, at);

        while char != CLOSE
            invariant
                buf_idx < at <= bytes.len(),
                char == byte_at(bytes@, at as int),
                at_column == column_after(column, at - buf_idx),
                height == if magnitude > 50 {
                    51
                } else {
                    magnitude
                },
                scan_group(bytes@, buf_idx + 1, false, 0) == scan_group(
                    bytes@,
                    at as int,
                    is_negative,
                    magnitude,
                ),
            decreases bytes.len() - at,
        {
            if char == MINUS {
                if is_negative {
                    return Err(
                        ParseError {
                            line,
                            column: at_column,
                            char,
                            kind: ParseErrorType::DuplicateNegative,
                        },
                    );
                } else {
                    is_negative = true;
                }
            } else {
                if !(ZERO <= char && char <= NINE) {
                    return Err(
                        ParseError {
                            line,
                            column: at_column,
                            char,
                            kind: ParseErrorType::InvalidHeightChar,
                        },
                    );
                }
                if char == ZERO && height == 0 {
                    return Err(
                        ParseError {
                            line,
                            column: at_column,
                            char,
                            kind: ParseErrorType::LeadingZero,
                        },
                    );
                }
                let digit = char - ZERO;
                height = if height > 5 {
                    51
                } else if height * 10 + digit > 50 {
                    51
                } else {
                    height * 10 + digit
                };
                proof {
                    magnitude = magnitude * 10 + digit as nat;
                }
            }

            at_column = at_column.saturating_add(1);
            at += 1;
            char = read_byte(bytes, at);
        }

        if height > 50 {
            return Err(
                ParseError {
                    line,
                    column: at_column,
                    char,
                    kind: ParseErrorType::InvalidHeightValue,
                },
            );
        }
        let height: i8 = if is_negative {
            -(height as i8)
        } else {
            height as i8
        };

        Ok((height, at_column, at))
    }

    /// Takes in a series of bytes and tries to turn them into a Cybergrind
    /// Pattern. Where the bytes end before the pattern does, the fault is
    /// the one that a zero byte would be at that place. A column too great
    /// for a `u32` is given as the greatest `u32`.
    pub fn parse(bytes: &[u8]) -> (result: Result<CyberGrindPattern, ParseError>)
        ensures
            match result {
                Ok(pattern) => parse_text(bytes@) == Ok::<Seq<TileView>, ParseError>(pattern@),
                Err(error) => parse_text(bytes@) == Err::<Seq<TileView>, ParseError>(error),
            },
            result matches Ok(pattern) ==> is_pattern(pattern@),
    {
        broadcast use CyberGrindPattern::lemma_view_len;

        proof {
            lemma_parse_text_gives_pattern(bytes@);
        }

        let mut pattern = CyberGrindPattern::new();

        let mut pat_idx: usize = 0;
        let mut buf_idx: usize = 0;
        let mut line: u32 = 1;
        let mut column: u32 = 1;

        while pat_idx < 256
            invariant
                pat_idx <= 256,
                buf_idx <= bytes.len(),
                line == pat_idx / 16 + 1,
                scan_heights(bytes@, pat_idx as nat) is Ok,
                scan_heights(bytes@, pat_idx as nat)->Ok_0.at == buf_idx,
                scan_heights(bytes@, pat_idx as nat)->Ok_0.line_start <= buf_idx,
                column == column_after(
                    1,
                    buf_idx - scan_heights(bytes@, pat_idx as nat)->Ok_0.line_start,
                ),
                pat_idx % 16 == 0 ==> column == 1,
                pattern@.len() == 256,
                scan_heights(bytes@, pat_idx as nat)->Ok_0.values.len() == pat_idx,
                forall|j: int|
                    0 <= j < pat_idx ==> pattern@[j] == (TileView {
                        height: scan_heights(bytes@, pat_idx as nat)->Ok_0.values[j],
                        prefab: Prefab::Empty,
                    }),
                forall|j: int|
                    pat_idx <= j < 256 ==> pattern@[j] == (TileView {
                        height: 0,
                        prefab: Prefab::Empty,
                    }),
            decreases 256 - pat_idx,
        {
            let ghost read = scan_heights(bytes@, pat_idx as nat)->Ok_0;
            let ghost done = pattern@;
            let char = read_byte(bytes, buf_idx);
            let height: i8;
            if char == OPEN {
                proof {
                    lemma_scan_group_bounds(bytes@, buf_idx + 1, false, 0);
                }
                match Self::parse_parentheses(bytes, buf_idx, line, column) {
                    Ok((read_height, close_column, close)) => {
                        height = read_height;
                        column = close_column;
                        buf_idx = close;
                    },
                    Err(error) => {
                        proof {
                            assert(scan_heights(bytes@, (pat_idx + 1) as nat) == Err::<
                                Heights,
                                ParseError,
                            >(error));
                            lemma_scan_heights_stays_failed(bytes@, (pat_idx + 1) as nat, 256);
                        }
                        return Err(error);
                    },
                }
            } else {
                if !(ZERO <= char && char <= NINE) {
                    let error = ParseError {
                        line,
                        column,
                        char,
                        kind: ParseErrorType::InvalidHeightChar,
                    };
                    proof {
                        assert(scan_heights(bytes@, (pat_idx + 1) as nat) == Err::<
                            Heights,
                            ParseError,
                        >(error));
                        lemma_scan_heights_stays_failed(bytes@, (pat_idx + 1) as nat, 256);
                    }
                    return Err(error);
                }
                height = (char - ZERO) as i8;
            }
            pattern.get_mut(pat_idx).set_height(height);

            column = column.saturating_add(1);
            buf_idx += 1;

            if pat_idx % 16 == 15 {
                match Self::check_for_newline(line, column, read_byte(bytes, buf_idx)) {
                    Ok(()) => {},
                    Err(error) => {
                        proof {
                            assert(scan_heights(bytes@, (pat_idx + 1) as nat) == Err::<
                                Heights,
                                ParseError,
                            >(error));
                            lemma_scan_heights_stays_failed(bytes@, (pat_idx + 1) as nat, 256);
                        }
                        return Err(error);
                    },
                }
                buf_idx += 1;
                line += 1;
                column = 1;
            }
            proof {
                let next = scan_heights(bytes@, (pat_idx + 1) as nat);
                assert(next is Ok);
                assert(next->Ok_0.values == read.values.push(height as int));
                assert(pattern@ == done.update(
                    pat_idx as int,
                    TileView { height: height as int, prefab: Prefab::Empty },
                ));
            }
            pat_idx += 1;
        }

        let ghost heights = scan_heights(bytes@, 256)->Ok_0;
        match Self::check_for_newline(line, 1, read_byte(bytes, buf_idx)) {
            Ok(()) => {},
            Err(error) => {
                return Err(error);
            },
        }

        buf_idx += 1;
        line += 1;

        let ghost start = buf_idx as int;
        pat_idx = 0;

        while pat_idx < 256
            invariant
                pat_idx <= 256,
                buf_idx <= bytes.len(),
                buf_idx == prefab_place(start, pat_idx as int),
                line == FIRST_PREFAB_LINE + pat_idx / 16,
                scan_heights(bytes@, 256) == Ok::<Heights, ParseError>(heights),
                heights.at + 1 == start,
                byte_at(bytes@, heights.at) == NEWLINE,
                heights.values.len() == 256,
                pattern@.len() == 256,
                scan_prefabs(bytes@, start, pat_idx as nat) is Ok,
                scan_prefabs(bytes@, start, pat_idx as nat)->Ok_0.len() == pat_idx,
                forall|j: int|
                    0 <= j < pat_idx ==> pattern@[j] == (TileView {
                        height: heights.values[j],
                        prefab: scan_prefabs(bytes@, start, pat_idx as nat)->Ok_0[j],
                    }),
                forall|j: int|
                    pat_idx <= j < 256 ==> pattern@[j] == (TileView {
                        height: heights.values[j],
                        prefab: Prefab::Empty,
                    }),
            decreases 256 - pat_idx,
        {
            let ghost read = scan_prefabs(bytes@, start, pat_idx as nat)->Ok_0;
            let ghost done = pattern@;
            let column: u32 = (pat_idx % 16) as u32 + 1;
            let char = read_byte(bytes, buf_idx);

            let prefab = match Prefab::try_from(char) {
                Ok(prefab) => prefab,
                Err(kind) => {
                    let error = ParseError { line, column, char, kind };
                    proof {
                        assert(scan_prefabs(bytes@, start, (pat_idx + 1) as nat) == Err::<
                            Seq<Prefab>,
                            ParseError,
                        >(error));
                        lemma_scan_prefabs_stays_failed(bytes@, start, (pat_idx + 1) as nat, 256);
                    }
                    return Err(error);
                },
            };

            pattern.get_mut(pat_idx).set_prefab(prefab);
            buf_idx += 1;

            if pat_idx % 16 == 15 {
                match Self::check_for_newline(line, 17, read_byte(bytes, buf_idx)) {
                    Ok(()) => {},
                    Err(error) => {
                        proof {
                            assert(scan_prefabs(bytes@, start, (pat_idx + 1) as nat) == Err::<
                                Seq<Prefab>,
                                ParseError,
                            >(error));
                            lemma_scan_prefabs_stays_failed(
                                bytes@,
                                start,
                                (pat_idx + 1) as nat,
                                256,
                            );
                        }
                        return Err(error);
                    },
                }
                buf_idx += 1;
                line += 1;
            }
            proof {
                let next = scan_prefabs(bytes@, start, (pat_idx + 1) as nat);
                assert(next is Ok);
                assert(next->Ok_0 == read.push(prefab));
                assert(pattern@ == done.update(
                    pat_idx as int,
                    TileView { height: heights.values[pat_idx as int], prefab },
                ));
            }
            pat_idx += 1;
        }

        assert(pattern@ =~= tiles_of(heights.values, scan_prefabs(bytes@, start, 256)->Ok_0));
        Ok(pattern)
    }

    /// Takes in a string and tries to turn it into a Cybergrind pattern.
    pub fn parse_str(string: &str) -> (result: Result<CyberGrindPattern, ParseError>)
        ensures
            match result {
                Ok(pattern) => parse_text(string.spec_bytes()) == Ok::<Seq<TileView>, ParseError>(
                    pattern@,
                ),
                Err(error) => parse_text(string.spec_bytes()) == Err::<Seq<TileView>, ParseError>(
                    error,
                ),
            },
            result matches Ok(pattern) ==> is_pattern(pattern@),
    {
        Self::parse(string.as_bytes())
    }
}

} // verus!
