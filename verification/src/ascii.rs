use vstd::prelude::*;

use crate::config::PlotType;
use crate::counter::{count_of, Counters};
use crate::scale::ScaledPoint;

verus! {

/// Who put a glyph in a grid cell, so the printing shell can colour it: the
/// background, the axis overlay, or one of the data series.
#[derive(Debug, Clone, Copy, PartialEq, Eq, Structural)]
pub enum CellInk {
    Blank,
    Axis,
    Series(usize),
}

/// The mark of series `col` in the 33-glyph alphabet; series beyond the
/// alphabet share the asterisk.
pub open spec fn col_mark_spec(col: int) -> char {
    if col == 0 {
        '#'
    } else if col == 1 {
        '@'
    } else if col == 2 {
        '*'
    } else if col == 3 {
        '^'
    } else if col == 4 {
        '!'
    } else if col == 5 {
        '~'
    } else if col == 6 {
        '%'
    } else if col < 33 {
        ((65 + col - 7) as u8) as char
    } else {
        '*'
    }
}

/// The mark of series `col`: one of `#@*^!~%`, then the upper-case
/// alphabet, then an asterisk for every further series.
pub fn col_mark(col: usize) -> (r: char)
    ensures
        r == col_mark_spec(col as int),
{
    if col == 0 {
        '#'
    } else if col == 1 {
        '@'
    } else if col == 2 {
        '*'
    } else if col == 3 {
        '^'
    } else if col == 4 {
        '!'
    } else if col == 5 {
        '~'
    } else if col == 6 {
        '%'
    } else if col < 33 {
        ((58 + col) as u8) as char
    } else {
        '*'
    }
}

/// The glyph that encodes a cell's density in count mode: the digit itself
/// below ten, the letters `a` through `z` for counts ten through
/// thirty-five, and a hash once the count leaves the letter range.
pub open spec fn count_mark_spec(count: int) -> char {
    if count < 10 {
        ((48 + count) as u8) as char
    } else if count < 36 {
        ((87 + count) as u8) as char
    } else {
        '#'
    }
}

/// See `count_mark_spec`.
pub fn count_mark(count: usize) -> (r: char)
    ensures
        r == count_mark_spec(count as int),
{
    if count < 10 {
        ((48 + count) as u8) as char
    } else if count < 36 {
        ((87 + count) as u8) as char
    } else {
        '#'
    }
}

/// The glyph on the vertical axis column at row `i`: a solid axis line
/// with a tick every fifth row, or a dotted phantom line when the axis
/// itself is off the data.
pub open spec fn vertical_axis_char(draw_y: bool, i: int) -> char {
    if draw_y {
        if i % 5 == 0 {
            '+'
        } else {
            '|'
        }
    } else if i % 5 == 0 {
        '.'
    } else {
        ' '
    }
}

/// The glyph on the horizontal axis row at column `i`, as
/// `vertical_axis_char`.
pub open spec fn horizontal_axis_char(draw_x: bool, i: int) -> char {
    if draw_x {
        if i % 5 == 0 {
            '+'
        } else {
            '─'
        }
    } else if i % 5 == 0 {
        '.'
    } else {
        ' '
    }
}

/// Some sample of the series landed in cell `sp`.
pub open spec fn hits(cells: Seq<Option<ScaledPoint>>, sp: ScaledPoint) -> bool {
    exists|j: int| 0 <= j < cells.len() && cells[j] == Some(sp)
}

/// The cell `(x, y)` of the grid, as a `ScaledPoint`.
pub open spec fn sp_at(x: int, y: int) -> ScaledPoint {
    ScaledPoint(x as i32, y as i32)
}

/// The glyph a series paints into a cell: its series mark, except in count
/// mode, where a cell the counter knows shows its bucketed density.
pub open spec fn mark_spec(
    mode: PlotType,
    counter: Seq<(ScaledPoint, usize)>,
    series: int,
    sp: ScaledPoint,
) -> char {
    if mode == PlotType::Count && count_of(counter, sp) >= 1 {
        count_mark_spec(count_of(counter, sp))
    } else {
        col_mark_spec(series)
    }
}

/// The counter of series `series`, or nothing where none was handed in.
pub open spec fn series_counter(counters: Option<&Counters>, series: int) -> Seq<
    (ScaledPoint, usize),
> {
    match counters {
        Some(k) => {
            if 0 <= series < k.counters@.len() {
                k.counters@[series]@
            } else {
                Seq::empty()
            }
        },
        None => Seq::empty(),
    }
}

/// A character grid: one single-width glyph per cell, with a record of who
/// painted it.  Rows are counted from the top of the chart.
#[derive(Debug)]
pub struct AsciiPlot {
    pub width: usize,
    pub height: usize,
    pub rows: Vec<Vec<(char, CellInk)>>,
}

impl AsciiPlot {
    /// The grid is rectangular: `height` rows of `width` cells.
    pub open spec fn wf(&self) -> bool {
        self.rows@.len() == self.height && forall|y: int|
            0 <= y < self.height ==> (#[trigger] self.rows@[y])@.len() == self.width
    }

    /// The glyph and ink at column `x`, row `y`.
    pub open spec fn cell(&self, x: int, y: int) -> (char, CellInk) {
        self.rows@[y]@[x]
    }

    /// A blank grid of the given size.
    pub fn new(width: usize, height: usize) -> (r: AsciiPlot)
        ensures
            r.wf(),
            r.width == width,
            r.height == height,
            forall|x: int, y: int|
                0 <= x < width && 0 <= y < height ==> #[trigger] r.cell(x, y) == (
                ' ',
                CellInk::Blank,
            ),
    {
        let mut rows: Vec<Vec<(char, CellInk)>> = Vec::new();
        let mut y: usize = 0;
        while y < height
            invariant
                y <= height,
                rows@.len() == y,
                forall|yy: int|
                    0 <= yy < y ==> (#[trigger] rows@[yy])@.len() == width && forall|x: int|
                        0 <= x < width ==> (#[trigger] rows@[yy]@[x]) == (' ', CellInk::Blank),
            decreases height - y,
        {
            let mut row: Vec<(char, CellInk)> = Vec::new();
            let mut x: usize = 0;
            while x < width
                invariant
                    x <= width,
                    row@.len() == x,
                    forall|xx: int| 0 <= xx < x ==> (#[trigger] row@[xx]) == (' ', CellInk::Blank),
                decreases width - x,
            {
                row.push((' ', CellInk::Blank));
                x += 1;
            }
            rows.push(row);
            y += 1;
        }
        AsciiPlot { width, height, rows }
    }

    /// The glyph and ink at column `x`, row `y`.
    pub fn cell_at(&self, x: usize, y: usize) -> (r: (char, CellInk))
        requires
            self.wf(),
            x < self.width,
            y < self.height,
        ensures
            r == self.cell(x as int, y as int),
    {
        self.rows[y][x]
    }

    /// Overlays the axis lines: the vertical axis glyphs down column
    /// `x_axis`, the horizontal ones along row `y_axis`, a plus at the
    /// crossing, every glyph in axis ink.  All other cells keep what they
    /// held.
    pub fn draw_axes(&mut self, x_axis: usize, y_axis: usize, draw_x: bool, draw_y: bool)
        requires
            old(self).wf(),
            x_axis < old(self).width,
            y_axis < old(self).height,
        ensures
            final(self).wf(),
            final(self).width == old(self).width,
            final(self).height == old(self).height,
            forall|x: int, y: int|
                0 <= x < old(self).width && 0 <= y < old(self).height ==> #[trigger] final(self).cell(x, y) == (if x == x_axis && y == y_axis {
                    ('+', CellInk::Axis)
                } else if x == x_axis {
                    (vertical_axis_char(draw_y, y), CellInk::Axis)
                } else if y == y_axis {
                    (horizontal_axis_char(draw_x, x), CellInk::Axis)
                } else {
                    old(self).cell(x, y)
                }),
    {
        let ghost orig = *self;
        let mut y: usize = 0;
        while y < self.height
            invariant
                self.wf(),
                self.width == orig.width,
                self.height == orig.height,
                x_axis < self.width,
                y <= self.height,
                forall|xx: int, yy: int|
                    0 <= xx < self.width && 0 <= yy < self.height ==> #[trigger] self.cell(xx, yy)
                        == (if xx == x_axis && yy < y {
                        (vertical_axis_char(draw_y, yy), CellInk::Axis)
                    } else {
                        orig.cell(xx, yy)
                    }),
            decreases self.height - y,
        {
            let c = if draw_y {
                if y % 5 == 0 {
                    '+'
                } else {
                    '|'
                }
            } else if y % 5 == 0 {
                '.'
            } else {
                ' '
            };
            let ghost pre = *self;
            self.rows[y].set(x_axis, (c, CellInk::Axis));
            proof {
                assert forall|xx: int, yy: int|
                    0 <= xx < self.width && 0 <= yy < self.height implies #[trigger] self.cell(
                    xx,
                    yy,
                ) == (if xx == x_axis && yy <= y {
                    (vertical_axis_char(draw_y, yy), CellInk::Axis)
                } else {
                    orig.cell(xx, yy)
                }) by {
                    if yy == y {
                        if xx == x_axis {
                            assert(self.cell(xx, yy) == (c, CellInk::Axis));
                            assert(c == vertical_axis_char(draw_y, yy));
                        } else {
                            assert(self.cell(xx, yy) == pre.cell(xx, yy));
                        }
                    } else {
                        assert(self.rows@[yy] == pre.rows@[yy]);
                        assert(self.cell(xx, yy) == pre.cell(xx, yy));
                    }
                }
            }
            y += 1;
        }

        let ghost after_v = *self;
        let mut x: usize = 0;
        while x < self.width
            invariant
                self.wf(),
                self.width == orig.width,
                self.height == orig.height,
                x_axis < self.width,
                y_axis < self.height,
                x <= self.width,
                forall|xx: int, yy: int|
                    0 <= xx < self.width && 0 <= yy < self.height ==> #[trigger] self.cell(xx, yy)
                        == (if yy == y_axis && xx < x {
                        (horizontal_axis_char(draw_x, xx), CellInk::Axis)
                    } else {
                        after_v.cell(xx, yy)
                    }),
                forall|xx: int, yy: int|
                    0 <= xx < self.width && 0 <= yy < self.height ==> after_v.cell(xx, yy) == (if xx
                        == x_axis {
                        (vertical_axis_char(draw_y, yy), CellInk::Axis)
                    } else {
                        orig.cell(xx, yy)
                    }),
            decreases self.width - x,
        {
            let c = if draw_x {
                if x % 5 == 0 {
                    '+'
                } else {
                    '─'
                }
            } else if x % 5 == 0 {
                '.'
            } else {
                ' '
            };
            let ghost pre = *self;
            self.rows[y_axis].set(x, (c, CellInk::Axis));
            proof {
                assert forall|xx: int, yy: int|
                    0 <= xx < self.width && 0 <= yy < self.height implies #[trigger] self.cell(
                    xx,
                    yy,
                ) == (if yy == y_axis && xx <= x {
                    (horizontal_axis_char(draw_x, xx), CellInk::Axis)
                } else {
                    after_v.cell(xx, yy)
                }) by {
                    if yy == y_axis {
                        if xx == x {
                            assert(self.cell(xx, yy) == (c, CellInk::Axis));
                            assert(c == horizontal_axis_char(draw_x, xx));
                        } else {
                            assert(self.cell(xx, yy) == pre.cell(xx, yy));
                        }
                    } else {
                        assert(self.rows@[yy] == pre.rows@[yy]);
                        assert(self.cell(xx, yy) == pre.cell(xx, yy));
                    }
                }
            }
            x += 1;
        }

        let ghost pre = *self;
        self.rows[y_axis].set(x_axis, ('+', CellInk::Axis));
        proof {
            assert forall|xx: int, yy: int|
                0 <= xx < self.width && 0 <= yy < self.height && !(xx == x_axis && yy
                    == y_axis) implies #[trigger] self.cell(xx, yy) == pre.cell(xx, yy) by {
                if yy != y_axis {
                    assert(self.rows@[yy] == pre.rows@[yy]);
                }
            }
        }
    }

    /// Paints one series' samples: every cell some sample of the series
    /// landed in receives the series' glyph in the series' ink (in count
    /// mode, the bucketed density glyph); every other cell is untouched.
    fn plot_series(
        &mut self,
        cells: &Vec<Option<ScaledPoint>>,
        series: usize,
        mode: PlotType,
        counters: Option<&Counters>,
    )
        requires
            old(self).wf(),
            old(self).width <= 0x7fff_ffff,
            old(self).height <= 0x7fff_ffff,
            match counters {
                Some(k) => k.wf(),
                None => mode != PlotType::Count,
            },
            forall|j: int|
                0 <= j < cells@.len() ==> ((#[trigger] cells@[j]) matches Some(sp) ==> 0 <= sp.0
                    < old(self).width && 0 <= sp.1 < old(self).height),
        ensures
            final(self).wf(),
            final(self).width == old(self).width,
            final(self).height == old(self).height,
            forall|x: int, y: int|
                0 <= x < old(self).width && 0 <= y < old(self).height ==> #[trigger] final(self).cell(x, y) == (if hits(cells@, sp_at(x, y)) {
                    (
                        mark_spec(mode, series_counter(counters, series as int), series as int, sp_at(x, y)),
                        CellInk::Series(series as usize),
                    )
                } else {
                    old(self).cell(x, y)
                }),
    {
        let ghost orig = *self;
        let mut j: usize = 0;
        while j < cells.len()
            invariant
                self.wf(),
                self.width == orig.width,
                self.height == orig.height,
                j <= cells@.len(),
                self.width <= 0x7fff_ffff,
                self.height <= 0x7fff_ffff,
                match counters {
                    Some(k) => k.wf(),
                    None => mode != PlotType::Count,
                },
                forall|jj: int|
                    0 <= jj < cells@.len() ==> ((#[trigger] cells@[jj]) matches Some(sp) ==> 0
                        <= sp.0 < self.width && 0 <= sp.1 < self.height),
                forall|x: int, y: int|
                    0 <= x < self.width && 0 <= y < self.height ==> #[trigger] self.cell(x, y) == (
                    if hits(cells@.take(j as int), sp_at(x, y)) {
                        (
                            mark_spec(
                                mode,
                                series_counter(counters, series as int),
                                series as int,
                                sp_at(x, y),
                            ),
                            CellInk::Series(series as usize),
                        )
                    } else {
                        orig.cell(x, y)
                    }),
            decreases cells@.len() - j,
        {
            proof {
                assert(cells@.take(j + 1).drop_last() =~= cells@.take(j as int));
                assert(cells@.take(j + 1).last() == cells@[j as int]);
            }
            match cells[j] {
                Some(sp) => {
                    let mut mark = col_mark(series);
                    if mode == PlotType::Count {
                        match counters {
                            Some(k) => {
                                if series < k.len() {
                                    match k.count(series, sp) {
                                        Some(n) => {
                                            mark = count_mark(n);
                                        },
                                        None => {
                                        },
                                    }
                                }
                            },
                            None => {
                            },
                        }
                    }
                    proof {
                        assert(mark == mark_spec(
                            mode,
                            series_counter(counters, series as int),
                            series as int,
                            sp,
                        ));
                    }
                    let x = sp.x();
                    let y = sp.y();
                    let ghost pre = *self;
                    self.rows[y as usize].set(x as usize, (mark, CellInk::Series(series)));
                    proof {
                        assert(sp_at(sp.0 as int, sp.1 as int) == sp);
                        assert forall|xx: int, yy: int|
                            0 <= xx < self.width && 0 <= yy < self.height implies #[trigger] self.cell(
                            xx,
                            yy,
                        ) == (if hits(cells@.take(j + 1), sp_at(xx, yy)) {
                            (
                                mark_spec(
                                    mode,
                                    series_counter(counters, series as int),
                                    series as int,
                                    sp_at(xx, yy),
                                ),
                                CellInk::Series(series as usize),
                            )
                        } else {
                            orig.cell(xx, yy)
                        }) by {
                            if yy != sp.1 as int {
                                assert(self.rows@[yy] == pre.rows@[yy]);
                                assert(self.cell(xx, yy) == pre.cell(xx, yy));
                            } else if xx != sp.0 as int {
                                assert(self.cell(xx, yy) == pre.cell(xx, yy));
                            }
                            if xx == sp.0 as int && yy == sp.1 as int {
                                assert(sp_at(xx, yy) == sp);
                                assert(cells@.take(j + 1)[j as int] == Some(sp));
                                assert(hits(cells@.take(j + 1), sp));
                            } else {
                                assert(sp_at(xx, yy) != sp);
                                assert(hits(cells@.take(j + 1), sp_at(xx, yy)) == hits(
                                    cells@.take(j as int),
                                    sp_at(xx, yy),
                                )) by {
                                    if hits(cells@.take(j as int), sp_at(xx, yy)) {
                                        let jj = choose|jj: int|
                                            0 <= jj < cells@.take(j as int).len() && #[trigger] cells@.take(
                                                j as int,
                                            )[jj] == Some(sp_at(xx, yy));
                                        assert(cells@.take(j + 1)[jj] == Some(sp_at(xx, yy)));
                                    }
                                    if hits(cells@.take(j + 1), sp_at(xx, yy)) {
                                        let jj = choose|jj: int|
                                            0 <= jj < cells@.take(j + 1).len() && #[trigger] cells@.take(
                                                j + 1,
                                            )[jj] == Some(sp_at(xx, yy));
                                        assert(jj != j);
                                        assert(cells@.take(j as int)[jj] == Some(sp_at(xx, yy)));
                                    }
                                }
                            }
                        }
                    }
                },
                None => {
                    proof {
                        assert forall|xx: int, yy: int|
                            0 <= xx < self.width && 0 <= yy < self.height implies hits(
                            cells@.take(j + 1),
                            sp_at(xx, yy),
                        ) == hits(cells@.take(j as int), sp_at(xx, yy)) by {
                            if hits(cells@.take(j + 1), sp_at(xx, yy)) {
                                let jj = choose|jj: int|
                                    0 <= jj < cells@.take(j + 1).len() && #[trigger] cells@.take(
                                        j + 1,
                                    )[jj] == Some(sp_at(xx, yy));
                                assert(jj != j);
                                assert(cells@.take(j as int)[jj] == Some(sp_at(xx, yy)));
                            }
                            if hits(cells@.take(j as int), sp_at(xx, yy)) {
                                let jj = choose|jj: int|
                                    0 <= jj < cells@.take(j as int).len() && #[trigger] cells@.take(
                                        j as int,
                                    )[jj] == Some(sp_at(xx, yy));
                                assert(cells@.take(j + 1)[jj] == Some(sp_at(xx, yy)));
                            }
                        }
                    }
                },
            }
            j += 1;
        }
        proof {
            assert(cells@.take(cells@.len() as int) =~= cells@);
        }
    }

    /// Paints every series in order, so that where series collide in one
    /// cell the highest-numbered series' glyph stands.  Cells no sample
    /// landed in are untouched.
    pub fn plot_cells(
        &mut self,
        series_cells: &Vec<Vec<Option<ScaledPoint>>>,
        mode: PlotType,
        counters: Option<&Counters>,
    )
        requires
            old(self).wf(),
            old(self).width <= 0x7fff_ffff,
            old(self).height <= 0x7fff_ffff,
            match counters {
                Some(k) => k.wf(),
                None => mode != PlotType::Count,
            },
            forall|s: int, j: int|
                0 <= s < series_cells@.len() && 0 <= j < series_cells@[s]@.len() ==> ((
                #[trigger] series_cells@[s]@[j]) matches Some(sp) ==> 0 <= sp.0 < old(self).width
                    && 0 <= sp.1 < old(self).height),
        ensures
            final(self).wf(),
            final(self).width == old(self).width,
            final(self).height == old(self).height,
            forall|x: int, y: int|
                0 <= x < old(self).width && 0 <= y < old(self).height && (forall|s: int|
                    0 <= s < series_cells@.len() ==> !hits(
                        (#[trigger] series_cells@[s])@,
                        sp_at(x, y),
                    )) ==> #[trigger] final(self).cell(x, y) == old(self).cell(x, y),
            forall|x: int, y: int, w: int|
                0 <= x < old(self).width && 0 <= y < old(self).height && 0 <= w
                    < series_cells@.len() && hits((#[trigger] series_cells@[w])@, sp_at(x, y)) && (
                forall|s: int|
                    w < s < series_cells@.len() ==> !hits(
                        (#[trigger] series_cells@[s])@,
                        sp_at(x, y),
                    )) ==> #[trigger] final(self).cell(x, y) == (
                    mark_spec(mode, series_counter(counters, w), w, sp_at(x, y)),
                    CellInk::Series(w as usize),
                ),
    {
        let ghost orig = *self;
        let mut s: usize = 0;
        while s < series_cells.len()
            invariant
                self.wf(),
                self.width == orig.width,
                self.height == orig.height,
                s <= series_cells@.len(),
                self.width <= 0x7fff_ffff,
                self.height <= 0x7fff_ffff,
                match counters {
                    Some(k) => k.wf(),
                    None => mode != PlotType::Count,
                },
                forall|ss: int, j: int|
                    0 <= ss < series_cells@.len() && 0 <= j < series_cells@[ss]@.len() ==> ((
                    #[trigger] series_cells@[ss]@[j]) matches Some(sp) ==> 0 <= sp.0 < self.width
                        && 0 <= sp.1 < self.height),
                forall|x: int, y: int|
                    0 <= x < self.width && 0 <= y < self.height && (forall|t: int|
                        0 <= t < s ==> !hits((#[trigger] series_cells@[t])@, sp_at(x, y)))
                        ==> #[trigger] self.cell(x, y) == orig.cell(x, y),
                forall|x: int, y: int, w: int|
                    0 <= x < self.width && 0 <= y < self.height && 0 <= w < s && hits(
                        (#[trigger] series_cells@[w])@,
                        sp_at(x, y),
                    ) && (forall|t: int|
                        w < t < s ==> !hits((#[trigger] series_cells@[t])@, sp_at(x, y)))
                        ==> #[trigger] self.cell(x, y) == (
                        mark_spec(mode, series_counter(counters, w), w, sp_at(x, y)),
                        CellInk::Series(w as usize),
                    ),
            decreases series_cells@.len() - s,
        {
            let cells = &series_cells[s];
            self.plot_series(cells, s, mode, counters);
            s += 1;
        }
    }
}

} // verus!
