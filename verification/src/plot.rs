use vstd::prelude::*;

use crate::config::Config;
use crate::fbits::{
    is_nan_bits, is_nonpositive_bits, float_eq, float_le, float_lt, bits_is_nan, bits_lt, bits_le,
    bits_is_nonpositive, ZERO_BITS,
};
use crate::types::{DataSet, Point};

verus! {

/// Why a frame cannot be drawn.
#[derive(Debug, Clone, Copy, PartialEq, Eq, Structural)]
pub enum PlotError {
    /// A log scale was requested and an x value at or below zero was seen.
    DomainErrorX,
    /// A log scale was requested and a y value at or below zero was seen.
    DomainErrorY,
    /// The dataset holds no sample at all.
    EmptyDataset,
    /// An axis range collapsed to nothing, so no scale exists.
    DegenerateRange,
}

impl PlotError {
    /// The failure aborts the run: a log-scale domain error is fatal for
    /// the frame and propagates to the caller, while an empty dataset or a
    /// degenerate range only skips the frame silently.
    pub fn is_fatal(&self) -> (r: bool)
        ensures
            r == (*self == PlotError::DomainErrorX || *self == PlotError::DomainErrorY),
    {
        match self {
            PlotError::DomainErrorX => true,
            PlotError::DomainErrorY => true,
            PlotError::EmptyDataset => false,
            PlotError::DegenerateRange => false,
        }
    }

    /// The user-visible description of the failure.
    pub fn message(&self) -> (r: &'static str)
        ensures
            *self == PlotError::DomainErrorX ==> r@ == "Log scale requires positive X values"@,
            *self == PlotError::DomainErrorY ==> r@ == "Log scale requires positive Y values"@,
            *self == PlotError::EmptyDataset ==> r@ == "No data to plot"@,
            *self == PlotError::DegenerateRange ==> r@ == "Insufficient range of data"@,
    {
        match self {
            PlotError::DomainErrorX => "Log scale requires positive X values",
            PlotError::DomainErrorY => "Log scale requires positive Y values",
            PlotError::EmptyDataset => "No data to plot",
            PlotError::DegenerateRange => "Insufficient range of data",
        }
    }
}

/// The untransformed extrema of a dataset: the smallest and largest x and y
/// coordinates over the non-missing samples, as bit patterns.
#[derive(Debug, Clone, Copy, PartialEq, Eq, Structural)]
pub struct RawBounds {
    pub x_min: u64,
    pub x_max: u64,
    pub y_min: u64,
    pub y_max: u64,
}

/// The cell at `[c][r]` holds a sample that is present on both axes.
pub open spec fn cell_nonempty(d: &DataSet, c: int, r: int) -> bool {
    !is_nan_bits(d.cell(c, r).0) && !is_nan_bits(d.cell(c, r).1)
}

/// Some cell of the table holds a sample.
pub open spec fn has_sample(d: &DataSet) -> bool {
    exists|c: int, r: int|
        0 <= c < d.columns && 0 <= r < d.rows && #[trigger] cell_nonempty(d, c, r)
}

/// `(c1, r1)` is visited before `(c2, r2)` in the column-major scan.
pub open spec fn scan_before(c1: int, r1: int, c2: int, r2: int) -> bool {
    c1 < c2 || (c1 == c2 && r1 < r2)
}

/// The sample at `[c][r]` is present but its x coordinate is at or below
/// zero while an x log scale is requested.
pub open spec fn x_violation(d: &DataSet, log_x: bool, c: int, r: int) -> bool {
    log_x && cell_nonempty(d, c, r) && is_nonpositive_bits(d.cell(c, r).0)
}

/// As `x_violation`, for the y axis.
pub open spec fn y_violation(d: &DataSet, log_y: bool, c: int, r: int) -> bool {
    log_y && cell_nonempty(d, c, r) && is_nonpositive_bits(d.cell(c, r).1)
}

/// The sample at `[c][r]` rules out the requested log scales.
pub open spec fn violation(d: &DataSet, log_x: bool, log_y: bool, c: int, r: int) -> bool {
    x_violation(d, log_x, c, r) || y_violation(d, log_y, c, r)
}

/// No cell visited before `(c, r)` holds a violation.
pub open spec fn clean_before(d: &DataSet, log_x: bool, log_y: bool, c: int, r: int) -> bool {
    forall|c2: int, r2: int|
        0 <= c2 < d.columns && 0 <= r2 < d.rows && scan_before(c2, r2, c, r) ==> !#[trigger] violation(
            d,
            log_x,
            log_y,
            c2,
            r2,
        )
}

/// `b` holds exactly the per-axis extrema of the samples of `d`: each bound
/// is a coordinate of some sample, and no sample lies beyond it.  When both
/// zeros occur, either may be kept as the bound; they encode the same value.
pub open spec fn exact_bounds(d: &DataSet, b: RawBounds) -> bool {
    &&& exists|c: int, r: int|
        0 <= c < d.columns && 0 <= r < d.rows && #[trigger] cell_nonempty(d, c, r) && d.cell(c, r).0
            == b.x_min
    &&& exists|c: int, r: int|
        0 <= c < d.columns && 0 <= r < d.rows && #[trigger] cell_nonempty(d, c, r) && d.cell(c, r).0
            == b.x_max
    &&& exists|c: int, r: int|
        0 <= c < d.columns && 0 <= r < d.rows && #[trigger] cell_nonempty(d, c, r) && d.cell(c, r).1
            == b.y_min
    &&& exists|c: int, r: int|
        0 <= c < d.columns && 0 <= r < d.rows && #[trigger] cell_nonempty(d, c, r) && d.cell(c, r).1
            == b.y_max
    &&& forall|c: int, r: int|
        0 <= c < d.columns && 0 <= r < d.rows && #[trigger] cell_nonempty(d, c, r) ==> float_le(
            b.x_min,
            d.cell(c, r).0,
        ) && float_le(d.cell(c, r).0, b.x_max) && float_le(b.y_min, d.cell(c, r).1) && float_le(
            d.cell(c, r).1,
            b.y_max,
        )
}

/// Scans every sample of the dataset once, in column-major order, and
/// returns the per-axis extrema.  Fails with a domain error as soon as a
/// sample rules out a requested log scale, and with `EmptyDataset` when the
/// table holds no sample at all.
pub fn scan_dataset(dataset: &DataSet, config: &Config) -> (res: Result<RawBounds, PlotError>)
    requires
        dataset.wf(),
    ensures
        match res {
            Ok(b) => {
                &&& has_sample(dataset)
                &&& forall|c: int, r: int|
                    0 <= c < dataset.columns && 0 <= r < dataset.rows ==> !#[trigger] violation(
                        dataset,
                        config.log_x,
                        config.log_y,
                        c,
                        r,
                    )
                &&& exact_bounds(dataset, b)
            },
            Err(e) => {
                &&& e != PlotError::DegenerateRange
                &&& e == PlotError::EmptyDataset ==> !has_sample(dataset)
                &&& e == PlotError::DomainErrorX ==> exists|c: int, r: int|
                    0 <= c < dataset.columns && 0 <= r < dataset.rows && #[trigger] x_violation(
                        dataset,
                        config.log_x,
                        c,
                        r,
                    ) && clean_before(dataset, config.log_x, config.log_y, c, r)
                &&& e == PlotError::DomainErrorY ==> exists|c: int, r: int|
                    0 <= c < dataset.columns && 0 <= r < dataset.rows && #[trigger] y_violation(
                        dataset,
                        config.log_y,
                        c,
                        r,
                    ) && !x_violation(dataset, config.log_x, c, r) && clean_before(
                        dataset,
                        config.log_x,
                        config.log_y,
                        c,
                        r,
                    )
            },
        },
        res.is_err() <==> (!has_sample(dataset) || exists|c: int, r: int|
            0 <= c < dataset.columns && 0 <= r < dataset.rows && #[trigger] violation(
                dataset,
                config.log_x,
                config.log_y,
                c,
                r,
            )),
{
    let mut found = false;
    let mut x_min: u64 = 0;
    let mut x_max: u64 = 0;
    let mut y_min: u64 = 0;
    let mut y_max: u64 = 0;

    let mut col: usize = 0;
    while col < dataset.columns
        invariant
            dataset.wf(),
            col <= dataset.columns,
            forall|c2: int, r2: int|
                0 <= c2 < col && 0 <= r2 < dataset.rows ==> !#[trigger] violation(
                    dataset,
                    config.log_x,
                    config.log_y,
                    c2,
                    r2,
                ),
            found <==> exists|c2: int, r2: int|
                0 <= c2 < col && 0 <= r2 < dataset.rows && #[trigger] cell_nonempty(
                    dataset,
                    c2,
                    r2,
                ),
            found ==> exists|c2: int, r2: int|
                0 <= c2 < col && 0 <= r2 < dataset.rows && #[trigger] cell_nonempty(dataset, c2, r2)
                    && dataset.cell(c2, r2).0 == x_min,
            found ==> exists|c2: int, r2: int|
                0 <= c2 < col && 0 <= r2 < dataset.rows && #[trigger] cell_nonempty(dataset, c2, r2)
                    && dataset.cell(c2, r2).0 == x_max,
            found ==> exists|c2: int, r2: int|
                0 <= c2 < col && 0 <= r2 < dataset.rows && #[trigger] cell_nonempty(dataset, c2, r2)
                    && dataset.cell(c2, r2).1 == y_min,
            found ==> exists|c2: int, r2: int|
                0 <= c2 < col && 0 <= r2 < dataset.rows && #[trigger] cell_nonempty(dataset, c2, r2)
                    && dataset.cell(c2, r2).1 == y_max,
            forall|c2: int, r2: int|
                0 <= c2 < col && 0 <= r2 < dataset.rows && #[trigger] cell_nonempty(
                    dataset,
                    c2,
                    r2,
                ) ==> float_le(x_min, dataset.cell(c2, r2).0) && float_le(
                    dataset.cell(c2, r2).0,
                    x_max,
                ) && float_le(y_min, dataset.cell(c2, r2).1) && float_le(
                    dataset.cell(c2, r2).1,
                    y_max,
                ),
        decreases dataset.columns - col,
    {
        let mut row: usize = 0;
        while row < dataset.rows
            invariant
                dataset.wf(),
                col < dataset.columns,
                row <= dataset.rows,
                forall|c2: int, r2: int|
                    0 <= c2 < dataset.columns && 0 <= r2 < dataset.rows && scan_before(
                        c2,
                        r2,
                        col as int,
                        row as int,
                    ) ==> !#[trigger] violation(dataset, config.log_x, config.log_y, c2, r2),
                found <==> exists|c2: int, r2: int|
                    0 <= c2 < dataset.columns && 0 <= r2 < dataset.rows && scan_before(
                        c2,
                        r2,
                        col as int,
                        row as int,
                    ) && #[trigger] cell_nonempty(dataset, c2, r2),
                found ==> exists|c2: int, r2: int|
                    0 <= c2 < dataset.columns && 0 <= r2 < dataset.rows && #[trigger] cell_nonempty(
                        dataset,
                        c2,
                        r2,
                    ) && scan_before(c2, r2, col as int, row as int) && dataset.cell(c2, r2).0
                        == x_min,
                found ==> exists|c2: int, r2: int|
                    0 <= c2 < dataset.columns && 0 <= r2 < dataset.rows && #[trigger] cell_nonempty(
                        dataset,
                        c2,
                        r2,
                    ) && scan_before(c2, r2, col as int, row as int) && dataset.cell(c2, r2).0
                        == x_max,
                found ==> exists|c2: int, r2: int|
                    0 <= c2 < dataset.columns && 0 <= r2 < dataset.rows && #[trigger] cell_nonempty(
                        dataset,
                        c2,
                        r2,
                    ) && scan_before(c2, r2, col as int, row as int) && dataset.cell(c2, r2).1
                        == y_min,
                found ==> exists|c2: int, r2: int|
                    0 <= c2 < dataset.columns && 0 <= r2 < dataset.rows && #[trigger] cell_nonempty(
                        dataset,
                        c2,
                        r2,
                    ) && scan_before(c2, r2, col as int, row as int) && dataset.cell(c2, r2).1
                        == y_max,
                forall|c2: int, r2: int|
                    0 <= c2 < dataset.columns && 0 <= r2 < dataset.rows && scan_before(
                        c2,
                        r2,
                        col as int,
                        row as int,
                    ) && #[trigger] cell_nonempty(dataset, c2, r2) ==> float_le(
                        x_min,
                        dataset.cell(c2, r2).0,
                    ) && float_le(dataset.cell(c2, r2).0, x_max) && float_le(
                        y_min,
                        dataset.cell(c2, r2).1,
                    ) && float_le(dataset.cell(c2, r2).1, y_max),
            decreases dataset.rows - row,
        {
            let point = dataset.points[col][row];
            proof {
                assert(point == dataset.cell(col as int, row as int));
            }
            let empty = bits_is_nan(point.0) || bits_is_nan(point.1);
            if !empty {
                proof {
                    assert(cell_nonempty(dataset, col as int, row as int));
                }
                if config.log_x && bits_is_nonpositive(point.0) {
                    proof {
                        assert(x_violation(dataset, config.log_x, col as int, row as int));
                        assert(clean_before(
                            dataset,
                            config.log_x,
                            config.log_y,
                            col as int,
                            row as int,
                        ));
                    }
                    proof {
                        assert(violation(
                            dataset,
                            config.log_x,
                            config.log_y,
                            col as int,
                            row as int,
                        ));
                    }
                    return Err(PlotError::DomainErrorX);
                }
                if config.log_y && bits_is_nonpositive(point.1) {
                    proof {
                        assert(y_violation(dataset, config.log_y, col as int, row as int));
                        assert(!x_violation(dataset, config.log_x, col as int, row as int));
                        assert(clean_before(
                            dataset,
                            config.log_x,
                            config.log_y,
                            col as int,
                            row as int,
                        ));
                    }
                    proof {
                        assert(violation(
                            dataset,
                            config.log_x,
                            config.log_y,
                            col as int,
                            row as int,
                        ));
                    }
                    return Err(PlotError::DomainErrorY);
                }
                proof {
                    assert(!violation(dataset, config.log_x, config.log_y, col as int, row as int));
                }
                if !found {
                    found = true;
                    x_min = point.0;
                    x_max = point.0;
                    y_min = point.1;
                    y_max = point.1;
                } else {
                    if bits_lt(point.0, x_min) {
                        x_min = point.0;
                    }
                    if bits_lt(x_max, point.0) {
                        x_max = point.0;
                    }
                    if bits_lt(point.1, y_min) {
                        y_min = point.1;
                    }
                    if bits_lt(y_max, point.1) {
                        y_max = point.1;
                    }
                }
                proof {
                    assert(dataset.cell(col as int, row as int).0 == point.0);
                    assert(scan_before(col as int, row as int, col as int, row + 1));
                }
            } else {
                proof {
                    assert(!cell_nonempty(dataset, col as int, row as int));
                    assert(!violation(dataset, config.log_x, config.log_y, col as int, row as int));
                }
            }
            row += 1;
        }
        col += 1;
    }

    if !found {
        return Err(PlotError::EmptyDataset);
    }
    Ok(RawBounds { x_min, x_max, y_min, y_max })
}

/// How the axis-clamping heuristic treats one axis.
#[derive(Debug, Clone, Copy, PartialEq, Eq, Structural)]
pub enum ClampChoice {
    /// The bounds stay as they are.
    Keep,
    /// The lower bound snaps to zero.
    SnapMin,
    /// The upper bound snaps to zero.
    SnapMax,
}

/// The axis interval `[min, max]` contains zero.
pub open spec fn crosses_zero_spec(min: u64, max: u64) -> bool {
    float_le(min, ZERO_BITS) && float_le(ZERO_BITS, max)
}

/// What the clamping heuristic decides for one axis.  `near_lo` and
/// `near_hi` are the outcomes of the two proximity tests `0 > min - range *
/// CROSS_PAD` and `0 < max + range * CROSS_PAD`, which are carried out in
/// the arithmetic shell and handed in; the decision structure itself is
/// fixed here: an axis that already contains zero is never clamped, an
/// all-positive axis snaps its lower bound to zero when zero is near, an
/// all-negative axis snaps its upper bound to zero when zero is near.
pub open spec fn clamp_choice_spec(min: u64, max: u64, near_lo: bool, near_hi: bool) -> ClampChoice {
    if crosses_zero_spec(min, max) {
        ClampChoice::Keep
    } else if float_lt(ZERO_BITS, min) && near_lo {
        ClampChoice::SnapMin
    } else if float_lt(max, ZERO_BITS) && near_hi {
        ClampChoice::SnapMax
    } else {
        ClampChoice::Keep
    }
}

/// Decides whether an axis gets widened: its two bounds encode one value,
/// so one unit must be added to the upper bound before a scale exists.
pub fn needs_widening(min: u64, max: u64) -> (r: bool)
    requires
        !is_nan_bits(min),
        !is_nan_bits(max),
    ensures
        r == float_eq(min, max),
{
    crate::fbits::bits_eq(min, max)
}

/// Decides whether the axis interval `[min, max]` contains zero.
pub fn crosses_zero(min: u64, max: u64) -> (r: bool)
    requires
        !is_nan_bits(min),
        !is_nan_bits(max),
    ensures
        r == crosses_zero_spec(min, max),
{
    proof {
        crate::fbits::lemma_zero_not_nan();
    }
    bits_le(min, ZERO_BITS) && bits_le(ZERO_BITS, max)
}

/// Decides the clamping of one axis; see `clamp_choice_spec`.
pub fn clamp_choice(min: u64, max: u64, near_lo: bool, near_hi: bool) -> (r: ClampChoice)
    requires
        !is_nan_bits(min),
        !is_nan_bits(max),
    ensures
        r == clamp_choice_spec(min, max, near_lo, near_hi),
{
    proof {
        crate::fbits::lemma_zero_not_nan();
    }
    if crosses_zero(min, max) {
        ClampChoice::Keep
    } else if bits_lt(ZERO_BITS, min) && near_lo {
        ClampChoice::SnapMin
    } else if bits_lt(max, ZERO_BITS) && near_hi {
        ClampChoice::SnapMax
    } else {
        ClampChoice::Keep
    }
}

/// The validated description of one frame: the transformed-space bounds the
/// data occupies, the per-axis ranges, and the configuration the frame is
/// drawn under.  Built once per frame by `Plot::new` and read-only
/// afterwards.
#[derive(Debug, Clone, Copy)]
pub struct Plot {
    pub config: Config,
    pub x_min: u64,
    pub x_max: u64,
    pub y_min: u64,
    pub y_max: u64,
    pub x_range: u64,
    pub y_range: u64,
}

impl Plot {
    /// Validated bounds: both bounds of each axis encode numbers and each
    /// lower bound lies strictly below its upper bound, so both ranges are
    /// positive.
    pub open spec fn wf(&self) -> bool {
        &&& !is_nan_bits(self.x_min)
        &&& !is_nan_bits(self.x_max)
        &&& !is_nan_bits(self.y_min)
        &&& !is_nan_bits(self.y_max)
        &&& float_lt(self.x_min, self.x_max)
        &&& float_lt(self.y_min, self.y_max)
    }

    /// Validates the transformed, widened and clamped bounds of a frame and
    /// packs them with the configuration.  Succeeds exactly when each axis
    /// has a positive range; a collapsed or unordered axis is rejected as
    /// `DegenerateRange`.
    pub fn new(config: &Config, bounds: RawBounds, x_range: u64, y_range: u64) -> (res: Result<
        Plot,
        PlotError,
    >)
        ensures
            match res {
                Ok(p) => {
                    &&& p.wf()
                    &&& p.x_min == bounds.x_min
                    &&& p.x_max == bounds.x_max
                    &&& p.y_min == bounds.y_min
                    &&& p.y_max == bounds.y_max
                    &&& p.x_range == x_range
                    &&& p.y_range == y_range
                    &&& p.config == *config
                },
                Err(e) => e == PlotError::DegenerateRange,
            },
            res.is_ok() <==> (!is_nan_bits(bounds.x_min) && !is_nan_bits(bounds.x_max)
                && !is_nan_bits(bounds.y_min) && !is_nan_bits(bounds.y_max) && float_lt(
                bounds.x_min,
                bounds.x_max,
            ) && float_lt(bounds.y_min, bounds.y_max)),
    {
        if bits_is_nan(bounds.x_min) || bits_is_nan(bounds.x_max) || bits_is_nan(bounds.y_min)
            || bits_is_nan(bounds.y_max) {
            return Err(PlotError::DegenerateRange);
        }
        if !bits_lt(bounds.x_min, bounds.x_max) || !bits_lt(bounds.y_min, bounds.y_max) {
            return Err(PlotError::DegenerateRange);
        }
        Ok(
            Plot {
                config: *config,
                x_min: bounds.x_min,
                x_max: bounds.x_max,
                y_min: bounds.y_min,
                y_max: bounds.y_max,
                x_range,
                y_range,
            },
        )
    }

    /// The lower x bound, as a bit pattern.
    pub fn x_min(&self) -> (r: u64)
        ensures
            r == self.x_min,
    {
        self.x_min
    }

    /// The upper x bound, as a bit pattern.
    pub fn x_max(&self) -> (r: u64)
        ensures
            r == self.x_max,
    {
        self.x_max
    }

    /// The lower y bound, as a bit pattern.
    pub fn y_min(&self) -> (r: u64)
        ensures
            r == self.y_min,
    {
        self.y_min
    }

    /// The upper y bound, as a bit pattern.
    pub fn y_max(&self) -> (r: u64)
        ensures
            r == self.y_max,
    {
        self.y_max
    }

    /// The grid height in cells.
    pub fn height(&self) -> (r: usize)
        ensures
            r == self.config.dimensions.height,
    {
        self.config.dimensions.height
    }

    /// The grid width in cells.
    pub fn width(&self) -> (r: usize)
        ensures
            r == self.config.dimensions.width,
    {
        self.config.dimensions.width
    }

    /// The x axis is log-scaled.
    pub fn log_x(&self) -> (r: bool)
        ensures
            r == self.config.log_x,
    {
        self.config.log_x
    }

    /// The y axis is log-scaled.
    pub fn log_y(&self) -> (r: bool)
        ensures
            r == self.config.log_y,
    {
        self.config.log_y
    }

    /// The configuration the frame is drawn under.
    pub fn config(&self) -> (r: &Config)
        ensures
            *r == self.config,
    {
        &self.config
    }

    /// The difference of the x bounds, as handed in at construction.
    pub fn x_range(&self) -> (r: u64)
        ensures
            r == self.x_range,
    {
        self.x_range
    }

    /// The difference of the y bounds, as handed in at construction.
    pub fn y_range(&self) -> (r: u64)
        ensures
            r == self.y_range,
    {
        self.y_range
    }

    /// The horizontal line y = 0 falls inside the bounds, so a solid x axis
    /// is drawn.
    pub fn draw_x_axis(&self) -> (r: bool)
        requires
            self.wf(),
        ensures
            r == (float_le(self.y_min, ZERO_BITS) && float_le(ZERO_BITS, self.y_max)),
    {
        proof {
            crate::fbits::lemma_zero_not_nan();
        }
        bits_le(self.y_min, ZERO_BITS) && bits_le(ZERO_BITS, self.y_max)
    }

    /// The vertical line x = 0 falls inside the bounds, so a solid y axis
    /// is drawn.
    pub fn draw_y_axis(&self) -> (r: bool)
        requires
            self.wf(),
        ensures
            r == (float_le(self.x_min, ZERO_BITS) && float_le(ZERO_BITS, self.x_max)),
    {
        proof {
            crate::fbits::lemma_zero_not_nan();
        }
        bits_le(self.x_min, ZERO_BITS) && bits_le(ZERO_BITS, self.x_max)
    }

    /// Where the axis lines anchor, in data space.  Each coordinate is zero
    /// when that axis line is visible; otherwise it is pinned to the bound
    /// nearer to zero: the lower bound of an all-positive axis, the upper
    /// bound of an all-negative one.  The arithmetic shell scales this
    /// point to obtain the grid row and column the axis lines occupy.
    pub fn axis_origin(&self) -> (r: Point)
        requires
            self.wf(),
        ensures
            r == axis_origin_spec(self),
    {
        proof {
            crate::fbits::lemma_zero_not_nan();
        }
        let x = if self.draw_y_axis() {
            ZERO_BITS
        } else if bits_lt(ZERO_BITS, self.x_min) {
            self.x_min
        } else {
            self.x_max
        };
        let y = if self.draw_x_axis() {
            ZERO_BITS
        } else if bits_lt(ZERO_BITS, self.y_min) {
            self.y_min
        } else {
            self.y_max
        };
        Point(x, y)
    }
}

/// See `Plot::axis_origin`.
pub open spec fn axis_origin_spec(p: &Plot) -> Point {
    let x = if crosses_zero_spec(p.x_min, p.x_max) {
        ZERO_BITS
    } else if float_lt(ZERO_BITS, p.x_min) {
        p.x_min
    } else {
        p.x_max
    };
    let y = if crosses_zero_spec(p.y_min, p.y_max) {
        ZERO_BITS
    } else if float_lt(ZERO_BITS, p.y_min) {
        p.y_min
    } else {
        p.y_max
    };
    Point(x, y)
}



/// Two scans of one dataset agree on every bound: the extrema are unique
/// up to the sign of zero.
pub proof fn lemma_exact_bounds_unique(d: &DataSet, b1: RawBounds, b2: RawBounds)
    requires
        exact_bounds(d, b1),
        exact_bounds(d, b2),
    ensures
        float_eq(b1.x_min, b2.x_min),
        float_eq(b1.x_max, b2.x_max),
        float_eq(b1.y_min, b2.y_min),
        float_eq(b1.y_max, b2.y_max),
{
    let (c1, r1) = choose|c: int, r: int|
        0 <= c < d.columns && 0 <= r < d.rows && #[trigger] cell_nonempty(d, c, r) && d.cell(c, r).0
            == b2.x_min;
    let (c2, r2) = choose|c: int, r: int|
        0 <= c < d.columns && 0 <= r < d.rows && #[trigger] cell_nonempty(d, c, r) && d.cell(c, r).0
            == b1.x_min;
    assert(float_le(b1.x_min, d.cell(c1, r1).0));
    assert(float_le(b2.x_min, d.cell(c2, r2).0));
    crate::fbits::lemma_float_key_injective(b1.x_min, b2.x_min);

    let (c3, r3) = choose|c: int, r: int|
        0 <= c < d.columns && 0 <= r < d.rows && #[trigger] cell_nonempty(d, c, r) && d.cell(c, r).0
            == b2.x_max;
    let (c4, r4) = choose|c: int, r: int|
        0 <= c < d.columns && 0 <= r < d.rows && #[trigger] cell_nonempty(d, c, r) && d.cell(c, r).0
            == b1.x_max;
    assert(float_le(d.cell(c3, r3).0, b1.x_max));
    assert(float_le(d.cell(c4, r4).0, b2.x_max));
    crate::fbits::lemma_float_key_injective(b1.x_max, b2.x_max);

    let (c5, r5) = choose|c: int, r: int|
        0 <= c < d.columns && 0 <= r < d.rows && #[trigger] cell_nonempty(d, c, r) && d.cell(c, r).1
            == b2.y_min;
    let (c6, r6) = choose|c: int, r: int|
        0 <= c < d.columns && 0 <= r < d.rows && #[trigger] cell_nonempty(d, c, r) && d.cell(c, r).1
            == b1.y_min;
    assert(float_le(b1.y_min, d.cell(c5, r5).1));
    assert(float_le(b2.y_min, d.cell(c6, r6).1));
    crate::fbits::lemma_float_key_injective(b1.y_min, b2.y_min);

    let (c7, r7) = choose|c: int, r: int|
        0 <= c < d.columns && 0 <= r < d.rows && #[trigger] cell_nonempty(d, c, r) && d.cell(c, r).1
            == b2.y_max;
    let (c8, r8) = choose|c: int, r: int|
        0 <= c < d.columns && 0 <= r < d.rows && #[trigger] cell_nonempty(d, c, r) && d.cell(c, r).1
            == b1.y_max;
    assert(float_le(d.cell(c7, r7).1, b1.y_max));
    assert(float_le(d.cell(c8, r8).1, b2.y_max));
    crate::fbits::lemma_float_key_injective(b1.y_max, b2.y_max);
}

/// Running the bounds engine again over a dataset that already realises
/// validated, zero-touching, linear-scale bounds reproduces those bounds
/// unchanged: the rescan returns the same extrema (up to the sign of
/// zero), no transform is applied because neither axis is log-scaled, the
/// widening step does not fire because neither axis is degenerate, and the
/// clamping heuristic keeps both axes because each already contains zero,
/// whatever its proximity tests would say.
pub proof fn lemma_bounds_idempotent(
    d: &DataSet,
    b1: RawBounds,
    b2: RawBounds,
    near_lo_x: bool,
    near_hi_x: bool,
    near_lo_y: bool,
    near_hi_y: bool,
)
    requires
        exact_bounds(d, b1),
        exact_bounds(d, b2),
        crosses_zero_spec(b1.x_min, b1.x_max),
        crosses_zero_spec(b1.y_min, b1.y_max),
        !float_eq(b1.x_min, b1.x_max),
        !float_eq(b1.y_min, b1.y_max),
    ensures
        float_eq(b2.x_min, b1.x_min),
        float_eq(b2.x_max, b1.x_max),
        float_eq(b2.y_min, b1.y_min),
        float_eq(b2.y_max, b1.y_max),
        !float_eq(b2.x_min, b2.x_max),
        !float_eq(b2.y_min, b2.y_max),
        clamp_choice_spec(b2.x_min, b2.x_max, near_lo_x, near_hi_x) == ClampChoice::Keep,
        clamp_choice_spec(b2.y_min, b2.y_max, near_lo_y, near_hi_y) == ClampChoice::Keep,
{
    lemma_exact_bounds_unique(d, b1, b2);
}

} // verus!
