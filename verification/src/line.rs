//! Lines on the pattern: the tiles that lie, evenly spaced, on the straight
//! way from one tile to another.

use crate::pattern::{offset_of, CyberGrindPattern, Point};
use crate::tile::Tile;
use core::ops::Range;
use vstd::arithmetic::div_mod::{
    lemma_fundamental_div_mod, lemma_mod_is_zero, lemma_mod_multiples_basic,
};
use vstd::arithmetic::mul::lemma_mul_inequality;
use vstd::prelude::*;

verus! {

/// The greatest common divisor of `a` and `b`, and 0 where both are 0.
pub open spec fn gcd(a: nat, b: nat) -> nat
    decreases b,
{
    if b == 0 {
        a
    } else {
        gcd(b, a % b)
    }
}

/// Whether `d` divides `n`.
pub open spec fn divides(d: nat, n: nat) -> bool {
    d > 0 && n % d == 0
}

/// What divides `x` and `y` divides `x * q + y`.
proof fn lemma_divides_combination(d: int, x: int, q: int, y: int)
    requires
        d > 0,
        x % d == 0,
        y % d == 0,
    ensures
        (x * q + y) % d == 0,
{
    lemma_fundamental_div_mod(x, d);
    lemma_fundamental_div_mod(y, d);
    let k = (x / d) * q + y / d;
    assert(x * q + y == k * d) by (nonlinear_arith)
        requires
            x == d * (x / d),
            y == d * (y / d),
            k == (x / d) * q + y / d,
    ;
    lemma_mod_multiples_basic(k, d);
}

/// The greatest common divisor of two numbers, not both 0, divides both.
pub proof fn lemma_gcd_divides(a: nat, b: nat)
    requires
        a > 0 || b > 0,
    ensures
        divides(gcd(a, b), a),
        divides(gcd(a, b), b),
    decreases b,
{
    if b == 0 {
        assert(a % a == 0) by (nonlinear_arith)
            requires
                a > 0,
        ;
        assert(0nat % a == 0) by (nonlinear_arith)
            requires
                a > 0,
        ;
    } else {
        let g = gcd(b, a % b);
        lemma_gcd_divides(b, a % b);
        lemma_fundamental_div_mod(a as int, b as int);
        lemma_divides_combination(g as int, b as int, a as int / b as int, (a % b) as int);
    }
}

/// What divides two numbers divides their greatest common divisor.
pub proof fn lemma_gcd_is_greatest(a: nat, b: nat, d: nat)
    requires
        divides(d, a),
        divides(d, b),
    ensures
        gcd(a, b) % d == 0,
        a > 0 || b > 0 ==> d <= gcd(a, b),
    decreases b,
{
    if b != 0 {
        lemma_fundamental_div_mod(a as int, b as int);
        lemma_divides_combination(d as int, b as int, -(a as int / b as int), a as int);
        assert(b as int * (-(a as int / b as int)) + a as int == (a % b) as int)
            by (nonlinear_arith)
            requires
                a as int == b as int * (a as int / b as int) + (a % b) as int,
        ;
        lemma_gcd_is_greatest(b, a % b, d);
    }
    if a > 0 || b > 0 {
        lemma_gcd_divides(a, b);
        lemma_mod_is_zero(gcd(a, b), d);
    }
}

/// The greatest common divisor of two numbers, by Euclid's algorithm: it
/// divides both, and nothing greater does. Where both are 0 it is 0.
pub fn greatest_common_divisor(a: usize, b: usize) -> (divisor: usize)
    ensures
        divisor == gcd(a as nat, b as nat),
        a == 0 && b == 0 ==> divisor == 0,
        a > 0 || b > 0 ==> divides(divisor as nat, a as nat) && divides(divisor as nat, b as nat),
        forall|d: nat|
            (a > 0 || b > 0) && #[trigger] divides(d, a as nat) && divides(d, b as nat) ==> d
                <= divisor,
{
    proof {
        if a > 0 || b > 0 {
            lemma_gcd_divides(a as nat, b as nat);
        }
        assert forall|d: nat|
            (a > 0 || b > 0) && #[trigger] divides(d, a as nat) && divides(
                d,
                b as nat,
            ) implies d <= gcd(a as nat, b as nat) by {
            lemma_gcd_is_greatest(a as nat, b as nat, d);
        }
    }
    let mut x = a;
    let mut y = b;
    let mut rest;

    while y != 0
        invariant
            gcd(x as nat, y as nat) == gcd(a as nat, b as nat),
        decreases y,
    {
        rest = x % y;
        x = y;
        y = rest;
    }

    x
}

/// How far a line moves in one direction from one of its tiles to the
/// next, where it covers `delta` in that direction in `steps` steps.
pub open spec fn line_step(delta: int, steps: nat) -> int {
    if steps == 0 {
        0
    } else {
        delta / (steps as int)
    }
}

/// The number of steps from the first tile of a line to its last: the
/// greatest common divisor of what it covers in each direction.
pub open spec fn line_steps(point_a: Point, point_b: Point) -> nat {
    gcd((point_b.0 - point_a.0) as nat, (point_b.1 - point_a.1) as nat)
}

/// The line from `point_a` to `point_b`, both among its tiles, as places
/// counted row by row. From each tile to the next it moves by the same
/// whole number of columns and of rows, in the smallest such steps.
pub open spec fn line_offsets(point_a: Point, point_b: Point) -> Seq<int> {
    let steps = line_steps(point_a, point_b);
    Seq::new(
        steps + 1,
        |i: int|
            offset_of(
                point_a.0 + i * line_step(point_b.0 - point_a.0, steps),
                point_a.1 + i * line_step(point_b.1 - point_a.1, steps),
            ),
    )
}

/// Whether a line can be drawn from `point_a` to `point_b`: both are on
/// the pattern, and `point_b` is neither left of `point_a` nor above it.
pub open spec fn line_is_drawable(point_a: Point, point_b: Point) -> bool {
    &&& point_a.0 <= point_b.0 < 16
    &&& point_a.1 <= point_b.1 < 16
}

/// A line has at most 16 tiles, and its steps add up to what it covers.
pub proof fn lemma_line_steps(point_a: Point, point_b: Point)
    requires
        line_is_drawable(point_a, point_b),
    ensures
        line_steps(point_a, point_b) <= 15,
        line_steps(point_a, point_b) * line_step(
            point_b.0 - point_a.0,
            line_steps(point_a, point_b),
        ) == point_b.0 - point_a.0,
        line_steps(point_a, point_b) * line_step(
            point_b.1 - point_a.1,
            line_steps(point_a, point_b),
        ) == point_b.1 - point_a.1,
        0 <= line_step(point_b.0 - point_a.0, line_steps(point_a, point_b)),
        0 <= line_step(point_b.1 - point_a.1, line_steps(point_a, point_b)),
{
    let dx = (point_b.0 - point_a.0) as nat;
    let dy = (point_b.1 - point_a.1) as nat;
    let steps = gcd(dx, dy);
    if dx > 0 || dy > 0 {
        lemma_gcd_divides(dx, dy);
        if dx > 0 {
            lemma_mod_is_zero(dx, steps);
        } else {
            lemma_mod_is_zero(dy, steps);
        }
        lemma_fundamental_div_mod(dx as int, steps as int);
        lemma_fundamental_div_mod(dy as int, steps as int);
        assert(0 <= dx as int / steps as int) by (nonlinear_arith)
            requires
                0 <= dx,
                0 < steps,
        ;
        assert(0 <= dy as int / steps as int) by (nonlinear_arith)
            requires
                0 <= dy,
                0 < steps,
        ;
    } else {
        assert(steps == 0);
    }
}

/// Each tile of a line is on the pattern, between the two ends.
pub proof fn lemma_line_point(point_a: Point, point_b: Point, i: int)
    requires
        line_is_drawable(point_a, point_b),
        0 <= i <= line_steps(point_a, point_b),
    ensures
        point_a.0 <= point_a.0 + i * line_step(
            point_b.0 - point_a.0,
            line_steps(point_a, point_b),
        ) <= point_b.0,
        point_a.1 <= point_a.1 + i * line_step(
            point_b.1 - point_a.1,
            line_steps(point_a, point_b),
        ) <= point_b.1,
        0 <= line_offsets(point_a, point_b)[i] < 256,
{
    let steps = line_steps(point_a, point_b) as int;
    let step_x = line_step(point_b.0 - point_a.0, steps as nat);
    let step_y = line_step(point_b.1 - point_a.1, steps as nat);
    lemma_line_steps(point_a, point_b);
    lemma_mul_inequality(i, steps, step_x);
    lemma_mul_inequality(i, steps, step_y);
    assert(0 <= i * step_x) by (nonlinear_arith)
        requires
            0 <= i,
            0 <= step_x,
    ;
    assert(0 <= i * step_y) by (nonlinear_arith)
        requires
            0 <= i,
            0 <= step_y,
    ;
}

/// A line begins at its first end and stops at its second.
pub proof fn lemma_line_ends(point_a: Point, point_b: Point)
    requires
        line_is_drawable(point_a, point_b),
    ensures
        line_offsets(point_a, point_b).first() == offset_of(point_a.0 as int, point_a.1 as int),
        line_offsets(point_a, point_b).last() == offset_of(point_b.0 as int, point_b.1 as int),
{
    lemma_line_steps(point_a, point_b);
    let steps = line_steps(point_a, point_b) as int;
    let step_x = line_step(point_b.0 - point_a.0, steps as nat);
    let step_y = line_step(point_b.1 - point_a.1, steps as nat);
    assert(0 * step_x == 0 && 0 * step_y == 0) by (nonlinear_arith);
}

/// From each tile of a line to the next, the place counted row by row
/// grows: no tile is on a line twice.
pub proof fn lemma_line_offsets_grow(point_a: Point, point_b: Point, i: int, j: int)
    requires
        line_is_drawable(point_a, point_b),
        0 <= i < j <= line_steps(point_a, point_b),
    ensures
        line_offsets(point_a, point_b)[i] < line_offsets(point_a, point_b)[j],
{
    lemma_line_steps(point_a, point_b);
    let steps = line_steps(point_a, point_b) as int;
    let step_x = line_step(point_b.0 - point_a.0, steps as nat);
    let step_y = line_step(point_b.1 - point_a.1, steps as nat);
    assert(step_x > 0 || step_y > 0) by (nonlinear_arith)
        requires
            steps > 0,
            steps * step_x == point_b.0 - point_a.0,
            steps * step_y == point_b.1 - point_a.1,
            0 <= step_x,
            0 <= step_y,
            point_b.0 - point_a.0 > 0 || point_b.1 - point_a.1 > 0,
    ;
    assert(i * step_x <= j * step_x && i * step_y <= j * step_y && (step_x > 0 ==> i * step_x < j
        * step_x) && (step_y > 0 ==> i * step_y < j * step_y)) by (nonlinear_arith)
        requires
            0 <= i < j,
            0 <= step_x,
            0 <= step_y,
    ;
}

/// Writes the line from `point_a` to `point_b` to the front of `buf`, as
/// places counted row by row, and returns how many they are.
pub fn draw_line(point_a: Point, point_b: Point, buf: &mut [u8; 16]) -> (len: usize)
    requires
        line_is_drawable(point_a, point_b),
    ensures
        len == line_offsets(point_a, point_b).len(),
        1 <= len <= 16,
        forall|i: int| 0 <= i < len ==> final(buf)[i] == line_offsets(point_a, point_b)[i],
        forall|i: int| len <= i < 16 ==> final(buf)[i] == old(buf)[i],
{
    let dx = point_b.0 - point_a.0;
    let dy = point_b.1 - point_a.1;

    let gcd = greatest_common_divisor(dx, dy);
    proof {
        lemma_line_steps(point_a, point_b);
    }

    // Where both ends are one tile there is nothing to divide by.
    let step_x = if gcd == 0 {
        0
    } else {
        dx / gcd
    };
    let step_y = if gcd == 0 {
        0
    } else {
        dy / gcd
    };

    let mut i: usize = 0;
    while i <= gcd
        invariant
            line_is_drawable(point_a, point_b),
            gcd == line_steps(point_a, point_b),
            gcd <= 15,
            i <= gcd + 1,
            step_x == line_step(point_b.0 - point_a.0, gcd as nat),
            step_y == line_step(point_b.1 - point_a.1, gcd as nat),
            forall|j: int| 0 <= j < i ==> buf[j] == line_offsets(point_a, point_b)[j],
            forall|j: int| i <= j < 16 ==> buf[j] == old(buf)[j],
        decreases gcd + 1 - i,
    {
        proof {
            lemma_line_point(point_a, point_b, i as int);
        }
        let x_pos = point_a.0 + i * step_x;
        let y_pos = point_a.1 + i * step_y;

        let idx = x_pos + y_pos * 16;
        buf[i] = idx as u8;
        i += 1;
    }

    gcd + 1
}

/// The tiles of a pattern that lie on a line, in their order from its
/// first end to its last. Its view is the places of these tiles, counted
/// row by row. A line keeps no hold on the pattern: the pattern is handed
/// to each operation that reads or changes tiles.
pub struct Line {
    // In order to keep things compact, the buf stores an array of
    // indexes, rather than direct pointers to the tiles.
    buf: [u8; 16],
    len: u8,
    // How many tiles `next` has handed out.
    idx: u8,
}

impl View for Line {
    type V = Seq<int>;

    closed spec fn view(&self) -> Seq<int> {
        Seq::new(self.len as nat, |i: int| self.buf[i] as int)
    }
}

impl CyberGrindPattern {
    /// Draws a line between two points and gets all points on that line:
    /// from `index.start` to `index.end`, both among them.
    pub fn line(&self, index: Range<Point>) -> (line: Line)
        requires
            line_is_drawable(index.start, index.end),
        ensures
            line@ == line_offsets(index.start, index.end),
            line.position() == 0,
    {
        let mut buf: [u8; 16] = [0;16];
        let len = draw_line(index.start, index.end, &mut buf);
        let line = Line { buf, len: len as u8, idx: 0 };
        assert(line@ =~= line_offsets(index.start, index.end));
        line
    }
}

impl Line {
    #[verifier::type_invariant]
    spec fn well_formed(self) -> bool {
        1 <= self.len <= 16 && self.idx <= self.len
    }

    /// How many tiles of the line `next` has handed out.
    pub closed spec fn position(&self) -> int {
        self.idx as int
    }

    /// Whether the tile at `offset`, counted row by row, is on the line.
    pub open spec fn covers(&self, offset: int) -> bool {
        self@.contains(offset)
    }

    /// Sets every tile of the line to one tile, and leaves the others as
    /// they are.
    pub fn set(&self, pattern: &mut CyberGrindPattern, tile: Tile)
        ensures
            final(pattern)@.len() == 256,
            forall|offset: int|
                0 <= offset < 256 ==> #[trigger] final(pattern)@[offset] == if self.covers(offset) {
                    tile@
                } else {
                    old(pattern)@[offset]
                },
    {
        broadcast use CyberGrindPattern::lemma_view_len;

        proof {
            use_type_invariant(self);
        }
        let mut i: usize = 0;
        while i < self.len as usize
            invariant
                i <= self.len <= 16,
                pattern@.len() == 256,
                forall|offset: int|
                    0 <= offset < 256 ==> #[trigger] pattern@[offset] == if self@.subrange(
                        0,
                        i as int,
                    ).contains(offset) {
                        tile@
                    } else {
                        old(pattern)@[offset]
                    },
            decreases self.len - i,
        {
            let ghost before = self@.subrange(0, i as int);
            pattern.set(self.buf[i] as usize, tile);
            i += 1;
            proof {
                let after = self@.subrange(0, i as int);
                assert(after =~= before.push(self@[i - 1]));
                assert forall|offset: int| 0 <= offset < 256 implies (after.contains(offset)
                    <==> before.contains(offset) || offset == self@[i - 1]) by {
                    if before.contains(offset) {
                        let at = choose|at: int| 0 <= at < before.len() && before[at] == offset;
                        assert(after[at] == offset);
                    }
                    if offset == self@[i - 1] {
                        assert(after[i - 1] == offset);
                    }
                }
            }
        }
        assert(self@.subrange(0, self.len as int) =~= self@);
    }

    /// Returns the length of the line.
    pub fn len(&self) -> (len: usize)
        ensures
            len == self@.len(),
            1 <= len <= 16,
    {
        proof {
            use_type_invariant(self);
        }
        self.len as usize
    }

    /// The place, counted row by row, of the tile that is number `index` on
    /// the line.
    pub fn offset(&self, index: usize) -> (offset: usize)
        requires
            index < self@.len(),
        ensures
            offset == self@[index as int],
            offset < 256,
    {
        proof {
            use_type_invariant(self);
        }
        self.buf[index] as usize
    }

    /// The tile that is number `index` on the line.
    pub fn get(&self, pattern: &CyberGrindPattern, index: usize) -> (tile: Tile)
        requires
            index < self@.len(),
        ensures
            tile@ == pattern@[self@[index as int]],
    {
        pattern.get(self.offset(index))
    }

    /// The tile that is number `index` on the line, to be changed in place.
    pub fn get_mut<'a>(&self, pattern: &'a mut CyberGrindPattern, index: usize) -> (tile:
        &'a mut Tile)
        requires
            index < self@.len(),
        ensures
            tile@ == old(pattern)@[self@[index as int]],
            final(pattern)@ == old(pattern)@.update(self@[index as int], final(tile)@),
    {
        pattern.get_mut(self.offset(index))
    }

    /// Hands out the tiles of the line one after another, each to be
    /// changed in place, and `None` when all have been handed out.
    pub fn next<'a>(&mut self, pattern: &'a mut CyberGrindPattern) -> (next: Option<&'a mut Tile>)
        ensures
            final(self)@ == old(self)@,
            old(self).position() >= old(self)@.len() ==> next is None && final(self).position()
                == old(self).position() && final(pattern)@ == old(pattern)@,
            old(self).position() < old(self)@.len() ==> next is Some && final(self).position()
                == old(self).position() + 1 && next->Some_0@ == old(pattern)@[old(
                self,
            )@[old(self).position()]] && final(pattern)@ == old(pattern)@.update(
                old(self)@[old(self).position()],
                final(next->Some_0)@,
            ),
    {
        proof {
            use_type_invariant(&*self);
        }
        if self.idx >= self.len {
            return None;
        }
        let idx = self.buf[self.idx as usize] as usize;
        self.idx += 1;
        assert(self@ =~= old(self)@);
        Some(pattern.get_mut(idx))
    }
}

} // verus!
