use vstd::prelude::*;

use crate::config::Config;
use crate::fbits::{is_nan_bits, canon_bits};

verus! {

/// One sample: the x and y coordinates, each held as the IEEE-754 bit
/// pattern of the value.  A coordinate whose pattern encodes "not a number"
/// marks a missing sample.
#[derive(Debug, Clone, Copy)]
pub struct Point(pub u64, pub u64);

/// The sentinel stored in every cell that holds no sample: the canonical
/// quiet "not a number" pattern.
pub const EMPTY_VALUE: u64 = 0x7ff8_0000_0000_0000;

/// Equality on samples: both coordinates encode equal values, or the two
/// x coordinates are both missing, or the two y coordinates are both missing.
/// The wildcard arms let the missing-sample sentinel match any point that is
/// missing on the same axis.
pub open spec fn point_eq(a: Point, b: Point) -> bool {
    (coord_eq(a.0, b.0) && coord_eq(a.1, b.1)) || (is_nan_bits(a.0) && is_nan_bits(b.0)) || (
    is_nan_bits(a.1) && is_nan_bits(b.1))
}

/// The two patterns encode equal numbers ("not a number" is equal to
/// nothing, and the two zeros are equal to each other).
pub open spec fn coord_eq(a: u64, b: u64) -> bool {
    !is_nan_bits(a) && !is_nan_bits(b) && canon_bits(a) == canon_bits(b)
}

impl PartialEq for Point {
    fn eq(&self, other: &Point) -> (r: bool) {
        let x_eq = !crate::fbits::bits_is_nan(self.0) && !crate::fbits::bits_is_nan(other.0)
            && crate::fbits::bits_key(self.0) == crate::fbits::bits_key(other.0);
        let y_eq = !crate::fbits::bits_is_nan(self.1) && !crate::fbits::bits_is_nan(other.1)
            && crate::fbits::bits_key(self.1) == crate::fbits::bits_key(other.1);
        proof {
            crate::fbits::lemma_float_key_injective(self.0, other.0);
            crate::fbits::lemma_float_key_injective(self.1, other.1);
        }
        x_eq && y_eq || crate::fbits::bits_is_nan(self.0) && crate::fbits::bits_is_nan(other.0)
            || crate::fbits::bits_is_nan(self.1) && crate::fbits::bits_is_nan(other.1)
    }
}

impl vstd::std_specs::cmp::PartialEqSpecImpl for Point {
    open spec fn obeys_eq_spec() -> bool {
        true
    }

    open spec fn eq_spec(&self, other: &Point) -> bool {
        point_eq(*self, *other)
    }
}

impl Point {
    /// The x coordinate's bit pattern.
    pub fn x(&self) -> (r: u64)
        ensures
            r == self.0,
    {
        self.0
    }

    /// The y coordinate's bit pattern.
    pub fn y(&self) -> (r: u64)
        ensures
            r == self.1,
    {
        self.1
    }

    /// The sample is missing on at least one axis.
    pub fn is_empty(&self) -> (r: bool)
        ensures
            r == (is_nan_bits(self.0) || is_nan_bits(self.1)),
    {
        crate::fbits::bits_is_nan(self.0) || crate::fbits::bits_is_nan(self.1)
    }
}

/// A sample that is missing on both axes.
pub open spec fn empty_point() -> Point {
    Point(EMPTY_VALUE, EMPTY_VALUE)
}

/// What a pair looks like once stored: the coordinates are swapped when the
/// configuration asks for flipped axes.
pub open spec fn stored_pair(flip_xy: bool, p: Point) -> Point {
    if flip_xy {
        Point(p.1, p.0)
    } else {
        p
    }
}

/// A rectangular table of samples, addressed `[column][row]`.  Each column
/// is one series.  Both dimensions only grow; cells that were never written
/// hold the missing-sample sentinel.
#[derive(Debug)]
pub struct DataSet {
    pub columns: usize,
    pub rows: usize,
    pub points: Vec<Vec<Point>>,
}

impl DataSet {
    /// The table is rectangular: one inner vector per column, each holding
    /// one sample per row.
    pub open spec fn wf(&self) -> bool {
        self.points@.len() == self.columns && forall|c: int|
            0 <= c < self.columns ==> (#[trigger] self.points@[c])@.len() == self.rows
    }

    /// The sample stored at `[col][row]`.
    pub open spec fn cell(&self, col: int, row: int) -> Point {
        self.points@[col]@[row]
    }

    /// Grows the table so that `[col][row]` exists, padding every newly
    /// created cell with the missing-sample sentinel, then stores the pair
    /// there (swapped when the configuration flips the axes).
    pub fn add_pair(&mut self, config: &Config, row: usize, col: usize, point: Point)
        requires
            old(self).wf(),
            col < usize::MAX,
            row < usize::MAX,
        ensures
            final(self).wf(),
            final(self).columns == if col + 1 > old(self).columns {
                col + 1
            } else {
                old(self).columns as int
            },
            final(self).rows == if row + 1 > old(self).rows {
                row + 1
            } else {
                old(self).rows as int
            },
            forall|c: int, r: int|
                0 <= c < final(self).columns && 0 <= r < final(self).rows && !(c == col && r
                    == row) ==> #[trigger] final(self).cell(c, r) == (if c < old(self).columns && r
                    < old(self).rows {
                    old(self).cell(c, r)
                } else {
                    empty_point()
                }),
            final(self).cell(col as int, row as int) == stored_pair(config.flip_xy, point),
    {
        while col >= self.columns
            invariant
                self.wf(),
                col < usize::MAX,
                old(self).columns <= self.columns,
                self.columns <= col + 1 || self.columns == old(self).columns,
                self.rows == old(self).rows,
                forall|c: int, r: int|
                    0 <= c < self.columns && 0 <= r < self.rows ==> #[trigger] self.cell(c, r) == (
                    if c < old(self).columns {
                        old(self).cell(c, r)
                    } else {
                        empty_point()
                    }),
            decreases col + 1 - self.columns,
        {
            let ghost pre = *self;
            let mut v: Vec<Point> = Vec::new();
            let mut i: usize = 0;
            while i < self.rows
                invariant
                    v@.len() == i,
                    i <= self.rows,
                    forall|r: int| 0 <= r < i ==> v@[r] == empty_point(),
                decreases self.rows - i,
            {
                v.push(Point(EMPTY_VALUE, EMPTY_VALUE));
                i += 1;
            }
            self.points.push(v);
            self.columns += 1;
            proof {
                assert forall|c: int, r: int| 0 <= c < self.columns && 0 <= r < self.rows implies #[trigger] self.cell(
                    c,
                    r,
                ) == (if c < pre.columns {
                    pre.cell(c, r)
                } else {
                    empty_point()
                }) by {
                    if c < pre.columns {
                        assert(self.points@[c] == pre.points@[c]);
                    }
                }
            }
        }

        while row >= self.rows
            invariant
                self.wf(),
                row < usize::MAX,
                col < self.columns,
                self.columns == if col + 1 > old(self).columns {
                    col + 1
                } else {
                    old(self).columns as int
                },
                old(self).rows <= self.rows,
                self.rows <= row + 1 || self.rows == old(self).rows,
                forall|c: int, r: int|
                    0 <= c < self.columns && 0 <= r < self.rows ==> #[trigger] self.cell(c, r) == (
                    if c < old(self).columns && r < old(self).rows {
                        old(self).cell(c, r)
                    } else {
                        empty_point()
                    }),
            decreases row + 1 - self.rows,
        {
            let ghost pre = *self;
            let mut c: usize = 0;
            while c < self.columns
                invariant
                    self.columns == pre.columns,
                    self.rows == pre.rows,
                    pre.wf(),
                    self.points@.len() == self.columns,
                    c <= self.columns,
                    forall|ci: int|
                        0 <= ci < c ==> (#[trigger] self.points@[ci])@ == pre.points@[ci]@.push(
                            empty_point(),
                        ),
                    forall|ci: int|
                        c <= ci < self.columns ==> (#[trigger] self.points@[ci])@
                            == pre.points@[ci]@,
                decreases self.columns - c,
            {
                self.points[c].push(Point(EMPTY_VALUE, EMPTY_VALUE));
                c += 1;
            }
            self.rows += 1;
            proof {
                assert forall|ci: int| 0 <= ci < self.columns implies (
                #[trigger] self.points@[ci])@.len() == self.rows by {
                    assert(self.points@[ci]@ == pre.points@[ci]@.push(empty_point()));
                }
                assert forall|c2: int, r: int| 0 <= c2 < self.columns && 0 <= r < self.rows implies #[trigger] self.cell(
                    c2,
                    r,
                ) == (if c2 < old(self).columns && r < old(self).rows {
                    old(self).cell(c2, r)
                } else {
                    empty_point()
                }) by {
                    assert(self.points@[c2]@ == pre.points@[c2]@.push(empty_point()));
                    if r < pre.rows {
                        assert(self.cell(c2, r) == pre.cell(c2, r));
                    } else {
                        assert(self.cell(c2, r) == empty_point());
                    }
                }
            }
        }

        let ghost grown = *self;
        if config.flip_xy {
            self.points[col].set(row, Point(point.1, point.0));
        } else {
            self.points[col].set(row, point);
        }
        proof {
            assert forall|c: int, r: int|
                0 <= c < self.columns && 0 <= r < self.rows && !(c == col && r
                    == row) implies #[trigger] self.cell(c, r) == grown.cell(c, r) by {
                if c != col {
                    assert(self.points@[c] == grown.points@[c]);
                }
            }
        }
    }
}

impl Default for DataSet {
    /// The empty table.
    fn default() -> (r: DataSet)
        ensures
            r.wf(),
            r.columns == 0,
            r.rows == 0,
    {
        DataSet { columns: 0, rows: 0, points: Vec::new() }
    }
}

} // verus!
