use vstd::prelude::*;

verus! {

/// The discrete drawing cell a data point maps to: column and row in the
/// output grid.  Many data points may collide into one cell.
#[derive(Debug, Clone, Copy, PartialEq, Eq, Structural)]
pub struct ScaledPoint(pub i32, pub i32);

/// Which axes are mapped through the natural logarithm before scaling.
#[derive(Debug, Clone, Copy, PartialEq, Eq, Structural)]
pub enum TransformType {
    Linear,
    LogX,
    LogY,
    LogXY,
}

/// The transform selected by a pair of per-axis flags.
pub open spec fn transform_of(log_x: bool, log_y: bool) -> TransformType {
    if log_x && log_y {
        TransformType::LogXY
    } else if log_x {
        TransformType::LogX
    } else if log_y {
        TransformType::LogY
    } else {
        TransformType::Linear
    }
}

impl TransformType {
    /// Selects the transform for the given per-axis flags.
    pub fn new(log_x: bool, log_y: bool) -> (r: TransformType)
        ensures
            r == transform_of(log_x, log_y),
    {
        match (log_x, log_y) {
            (true, true) => TransformType::LogXY,
            (true, false) => TransformType::LogX,
            (false, true) => TransformType::LogY,
            (false, false) => TransformType::Linear,
        }
    }

    /// The per-axis flags of the transform, inverse of `new`.
    pub fn flags(&self) -> (r: (bool, bool))
        ensures
            *self == transform_of(r.0, r.1),
    {
        match self {
            TransformType::Linear => (false, false),
            TransformType::LogX => (true, false),
            TransformType::LogY => (false, true),
            TransformType::LogXY => (true, true),
        }
    }
}

impl ScaledPoint {
    /// The grid column.
    pub fn x(&self) -> (r: i32)
        ensures
            r == self.0,
    {
        self.0
    }

    /// The grid row, counted from the top of the grid.
    pub fn y(&self) -> (r: i32)
        ensures
            r == self.1,
    {
        self.1
    }
}

} // verus!
