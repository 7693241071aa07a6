use vstd::prelude::*;

use crate::scale::ScaledPoint;

verus! {

// A braille character encodes a 2-wide, 4-tall block of dots in one byte;
// adding the byte to 0x2800 gives the character's code point.  The dots of
// the block are numbered
//
//     1 4
//     2 5
//     3 6
//     7 8
//
// and dot `n` is bit `n - 1` of the byte.

/// The bit mask of the dot at `(x, y)` of one braille cell, with `x` to the
/// right and `y` up from the bottom-left dot.
pub open spec fn dot_mask(x: int, y: int) -> u8 {
    if x == 0 && y == 0 {
        0x40
    } else if x == 1 && y == 0 {
        0x80
    } else if x == 0 && y == 1 {
        0x04
    } else if x == 1 && y == 1 {
        0x20
    } else if x == 0 && y == 2 {
        0x02
    } else if x == 1 && y == 2 {
        0x10
    } else if x == 0 && y == 3 {
        0x01
    } else {
        0x08
    }
}

/// One braille cell: a 2-by-4 block of dots packed into a byte.
#[derive(Debug, Clone, Copy, PartialEq, Eq, Hash, Structural)]
pub struct BraillePoint {
    pub value: u8,
}

impl Default for BraillePoint {
    /// The blank cell: no dot raised.
    fn default() -> (r: BraillePoint)
        ensures
            r.value == 0,
    {
        BraillePoint { value: 0 }
    }
}

impl BraillePoint {
    /// The packed byte.
    pub fn value(&self) -> (r: u8)
        ensures
            r == self.value,
    {
        self.value
    }

    /// Raises the dot at `(x, y)`, zero-indexed from the bottom-left of the
    /// cell; all other dots keep their state.
    pub fn set(&mut self, x: usize, y: usize)
        requires
            x < 2,
            y < 4,
        ensures
            final(self).value == old(self).value | dot_mask(x as int, y as int),
    {
        let mask: u8 = if x == 0 && y == 0 {
            0x40
        } else if x == 1 && y == 0 {
            0x80
        } else if x == 0 && y == 1 {
            0x04
        } else if x == 1 && y == 1 {
            0x20
        } else if x == 0 && y == 2 {
            0x02
        } else if x == 1 && y == 2 {
            0x10
        } else if x == 0 && y == 3 {
            0x01
        } else {
            0x08
        };
        self.value = self.value | mask;
    }

    /// The character that shows exactly this cell's dots.
    pub fn to_char(&self) -> (r: char)
        ensures
            r as u32 == 0x2800 + self.value,
    {
        let code: u32 = 0x2800 + self.value as u32;
        braille_char(code)
    }
}

impl From<u8> for BraillePoint {
    fn from(value: u8) -> (r: BraillePoint) {
        BraillePoint { value }
    }
}

impl vstd::std_specs::convert::FromSpecImpl<u8> for BraillePoint {
    open spec fn obeys_from_spec() -> bool {
        true
    }

    open spec fn from_spec(value: u8) -> BraillePoint {
        BraillePoint { value }
    }
}

/// Relies on char::from_u32: every code point of the braille block,
/// 0x2800 through 0x28ff, is a valid character, so the call returns
/// exactly it.
#[verifier::external_body]
fn braille_char(code: u32) -> (r: char)
    requires
        0x2800 <= code <= 0x28ff,
    ensures
        r as u32 == code,
{
    char::from_u32(code).unwrap()
}

/// A grid of braille cells, `height` rows of `width` characters, row zero
/// at the top.  Its dot grid is twice as wide and four times as tall as the
/// character grid.
#[derive(Debug)]
pub struct BrailleGrid {
    pub width: usize,
    pub height: usize,
    pub cells: Vec<Vec<BraillePoint>>,
}

impl BrailleGrid {
    /// The grid is rectangular.
    pub open spec fn wf(&self) -> bool {
        self.cells@.len() == self.height && forall|r: int|
            0 <= r < self.height ==> (#[trigger] self.cells@[r])@.len() == self.width
    }

    /// The cell in character column `col` and character row `row`.
    pub open spec fn cell(&self, col: int, row: int) -> BraillePoint {
        self.cells@[row]@[col]
    }

    /// A blank grid of `width` by `height` characters.
    pub fn new(width: usize, height: usize) -> (r: BrailleGrid)
        ensures
            r.wf(),
            r.width == width,
            r.height == height,
            forall|c: int, rw: int|
                0 <= c < width && 0 <= rw < height ==> (#[trigger] r.cell(c, rw)).value == 0,
    {
        let mut cells: Vec<Vec<BraillePoint>> = Vec::new();
        let mut rw: usize = 0;
        while rw < height
            invariant
                rw <= height,
                cells@.len() == rw,
                forall|r2: int|
                    0 <= r2 < rw ==> (#[trigger] cells@[r2])@.len() == width && forall|c: int|
                        0 <= c < width ==> (#[trigger] cells@[r2]@[c]).value == 0,
            decreases height - rw,
        {
            let mut row: Vec<BraillePoint> = Vec::new();
            let mut c: usize = 0;
            while c < width
                invariant
                    c <= width,
                    row@.len() == c,
                    forall|cc: int| 0 <= cc < c ==> (#[trigger] row@[cc]).value == 0,
                decreases width - c,
            {
                row.push(BraillePoint { value: 0 });
                c += 1;
            }
            cells.push(row);
            rw += 1;
        }
        BrailleGrid { width, height, cells }
    }

    /// The character of the cell in character column `col`, row `row`.
    pub fn char_at(&self, col: usize, row: usize) -> (r: char)
        requires
            self.wf(),
            col < self.width,
            row < self.height,
        ensures
            r as u32 == 0x2800 + self.cell(col as int, row as int).value,
    {
        self.cells[row][col].to_char()
    }

    /// Raises one dot of the grid's dot grid: `dx` counts dot columns from
    /// the left, `dy` dot rows up from the bottom of the whole grid.  Only
    /// the braille cell the dot falls in changes, and only by that dot.
    pub fn set_dot(&mut self, dx: usize, dy: usize)
        requires
            old(self).wf(),
            dx < 2 * old(self).width,
            dy < 4 * old(self).height,
        ensures
            final(self).wf(),
            final(self).width == old(self).width,
            final(self).height == old(self).height,
            final(self).cell(dx as int / 2, old(self).height - 1 - (dy as int / 4)).value == old(
                self,
            ).cell(dx as int / 2, old(self).height - 1 - (dy as int / 4)).value | dot_mask(
                dx as int % 2,
                dy as int % 4,
            ),
            forall|c: int, rw: int|
                0 <= c < old(self).width && 0 <= rw < old(self).height && !(c == dx as int / 2 && rw
                    == old(self).height - 1 - (dy as int / 4)) ==> #[trigger] final(self).cell(
                    c,
                    rw,
                ) == old(self).cell(c, rw),
    {
        let col = dx / 2;
        let row = self.height - 1 - dy / 4;
        let x = dx % 2;
        let y = dy % 4;
        let ghost pre = *self;
        let cell_ref = &mut self.cells[row];
        let mut cell = cell_ref[col];
        cell.set(x, y);
        cell_ref.set(col, cell);
        proof {
            assert forall|c: int, rw: int|
                0 <= c < self.width && 0 <= rw < self.height && !(c == dx as int / 2 && rw
                    == pre.height - 1 - (dy as int / 4)) implies #[trigger] self.cell(c, rw)
                == pre.cell(c, rw) by {
                if rw != row {
                    assert(self.cells@[rw] == pre.cells@[rw]);
                } else {
                    assert(self.cell(c, rw) == pre.cell(c, rw));
                }
            }
        }
    }
}


/// The dots of `dots` that fall in braille cell `(c, r)`, merged into one
/// mask.  A dot is given in the grid's dot coordinates, column from the
/// left and row from the top, as the coordinate scaler produces them.
pub open spec fn dots_mask(dots: Seq<Option<ScaledPoint>>, c: int, r: int) -> u8
    decreases dots.len(),
{
    if dots.len() == 0 {
        0
    } else {
        let rest = dots_mask(dots.drop_last(), c, r);
        match dots.last() {
            Option::Some(sp) => {
                if sp.0 as int / 2 == c && sp.1 as int / 4 == r {
                    rest | dot_mask(sp.0 as int % 2, 3 - sp.1 as int % 4)
                } else {
                    rest
                }
            },
            Option::None => rest,
        }
    }
}

impl BrailleGrid {
    /// Raises the dot of every present sample: a sample's cell receives
    /// the dot at the sample's position within it, dots of colliding
    /// samples merge, and missing samples leave the grid alone.  Dot
    /// coordinates count columns from the left and rows from the top, as
    /// the coordinate scaler produces them.
    pub fn plot_dots(&mut self, dots: &Vec<Option<ScaledPoint>>)
        requires
            old(self).wf(),
            old(self).width <= 0x3fff_ffff,
            old(self).height <= 0x1fff_ffff,
            forall|j: int|
                0 <= j < dots@.len() ==> ((#[trigger] dots@[j]) matches Some(sp) ==> 0 <= sp.0 < 2
                    * old(self).width && 0 <= sp.1 < 4 * old(self).height),
        ensures
            final(self).wf(),
            final(self).width == old(self).width,
            final(self).height == old(self).height,
            forall|c: int, r: int|
                0 <= c < old(self).width && 0 <= r < old(self).height ==> (#[trigger] final(self).cell(c, r)).value == old(self).cell(c, r).value | dots_mask(dots@, c, r),
    {
        let ghost orig = *self;
        let mut j: usize = 0;
        proof {
            assert forall|c: int, r: int|
                0 <= c < self.width && 0 <= r < self.height implies (#[trigger] self.cell(
                c,
                r,
            )).value == orig.cell(c, r).value | dots_mask(dots@.take(0), c, r) by {
                let v = orig.cell(c, r).value;
                assert(dots_mask(dots@.take(0), c, r) == 0);
                assert(v | 0 == v) by (bit_vector);
            }
        }
        while j < dots.len()
            invariant
                self.wf(),
                self.width == orig.width,
                self.height == orig.height,
                self.width <= 0x3fff_ffff,
                self.height <= 0x1fff_ffff,
                j <= dots@.len(),
                forall|jj: int|
                    0 <= jj < dots@.len() ==> ((#[trigger] dots@[jj]) matches Some(sp) ==> 0 <= sp.0
                        < 2 * self.width && 0 <= sp.1 < 4 * self.height),
                forall|c: int, r: int|
                    0 <= c < self.width && 0 <= r < self.height ==> (#[trigger] self.cell(
                        c,
                        r,
                    )).value == orig.cell(c, r).value | dots_mask(dots@.take(j as int), c, r),
            decreases dots@.len() - j,
        {
            proof {
                assert(dots@.take(j + 1).drop_last() =~= dots@.take(j as int));
                assert(dots@.take(j + 1).last() == dots@[j as int]);
            }
            match dots[j] {
                Some(sp) => {
                    let dx = sp.x() as usize;
                    let dy = 4 * self.height - 1 - sp.y() as usize;
                    let ghost pre = *self;
                    let ghost tc = sp.0 as int / 2;
                    let ghost tr = sp.1 as int / 4;
                    let ghost b = sp.1 as int % 4;
                    proof {
                        vstd::arithmetic::div_mod::lemma_fundamental_div_mod(sp.1 as int, 4);
                        vstd::arithmetic::div_mod::lemma_fundamental_div_mod_converse(
                            4 * self.height - 1 - sp.1 as int,
                            4,
                            self.height - 1 - tr,
                            3 - b,
                        );
                        assert(dy as int / 4 == self.height - 1 - tr);
                        assert(dy as int % 4 == 3 - b);
                    }
                    self.set_dot(dx, dy);
                    proof {
                        assert forall|c: int, r: int|
                            0 <= c < self.width && 0 <= r < self.height implies (
                        #[trigger] self.cell(c, r)).value == orig.cell(c, r).value | dots_mask(
                            dots@.take(j + 1),
                            c,
                            r,
                        ) by {
                            if c == tc && r == self.height - 1 - (dy as int / 4) {
                                let a = orig.cell(c, r).value;
                                let m = dots_mask(dots@.take(j as int), c, r);
                                let d = dot_mask(sp.0 as int % 2, 3 - b);
                                assert(dy as int % 4 == 3 - b);
                                assert(self.cell(c, r).value == (a | m) | dot_mask(
                                    dx as int % 2,
                                    dy as int % 4,
                                ));
                                assert(dx as int % 2 == sp.0 as int % 2);
                                assert(((a | m) | d) == (a | (m | d))) by (bit_vector);
                            } else {
                                assert(self.cell(c, r) == pre.cell(c, r));
                                assert(dots_mask(dots@.take(j + 1), c, r) == dots_mask(
                                    dots@.take(j as int),
                                    c,
                                    r,
                                ));
                            }
                        }
                    }
                },
                None => {
                },
            }
            j += 1;
        }
        proof {
            assert(dots@.take(dots@.len() as int) =~= dots@);
        }
    }
}

} // verus!
