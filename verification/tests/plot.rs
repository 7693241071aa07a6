use xyplot::config::Config;
use xyplot::plot::{scan_dataset, Plot, PlotError, RawBounds};
use xyplot::types::{DataSet, Point, EMPTY_VALUE};

fn pt(x: f64, y: f64) -> Point {
    Point(x.to_bits(), y.to_bits())
}

fn dataset_of(points: &[(f64, f64)]) -> DataSet {
    let cfg = Config::default();
    let mut ds = DataSet::default();
    for (row, &(x, y)) in points.iter().enumerate() {
        ds.add_pair(&cfg, row, 0, pt(x, y));
    }
    ds
}

#[test]
fn scan_finds_extrema() {
    let ds = dataset_of(&[(1.0, 5.0), (-2.0, 7.0), (0.5, -3.0)]);
    let cfg = Config::default();
    let raw = scan_dataset(&ds, &cfg).unwrap();
    assert_eq!(f64::from_bits(raw.x_min), -2.0);
    assert_eq!(f64::from_bits(raw.x_max), 1.0);
    assert_eq!(f64::from_bits(raw.y_min), -3.0);
    assert_eq!(f64::from_bits(raw.y_max), 7.0);
}

#[test]
fn scan_skips_missing_samples() {
    let cfg = Config::default();
    let mut ds = dataset_of(&[(1.0, 5.0)]);
    ds.add_pair(&cfg, 1, 0, Point(EMPTY_VALUE, EMPTY_VALUE));
    ds.add_pair(&cfg, 2, 0, pt(3.0, 9.0));
    let raw = scan_dataset(&ds, &cfg).unwrap();
    assert_eq!(f64::from_bits(raw.x_min), 1.0);
    assert_eq!(f64::from_bits(raw.x_max), 3.0);
    assert_eq!(f64::from_bits(raw.y_min), 5.0);
    assert_eq!(f64::from_bits(raw.y_max), 9.0);
}

#[test]
fn empty_dataset_is_rejected() {
    let ds = DataSet::default();
    let cfg = Config::default();
    assert_eq!(scan_dataset(&ds, &cfg), Err(PlotError::EmptyDataset));

    let cfg2 = Config::default();
    let mut all_missing = DataSet::default();
    all_missing.add_pair(&cfg2, 0, 0, Point(EMPTY_VALUE, EMPTY_VALUE));
    assert_eq!(
        scan_dataset(&all_missing, &cfg2),
        Err(PlotError::EmptyDataset)
    );
}

#[test]
fn log_domain_errors() {
    let mut cfg = Config::default();
    cfg.log_x = true;
    let ds = dataset_of(&[(1.0, 5.0), (-2.0, 7.0)]);
    assert_eq!(scan_dataset(&ds, &cfg), Err(PlotError::DomainErrorX));
    assert_eq!(
        PlotError::DomainErrorX.message(),
        "Log scale requires positive X values"
    );

    let mut cfg = Config::default();
    cfg.log_y = true;
    let ds = dataset_of(&[(1.0, 5.0), (2.0, 0.0)]);
    assert_eq!(scan_dataset(&ds, &cfg), Err(PlotError::DomainErrorY));
    assert_eq!(
        PlotError::DomainErrorY.message(),
        "Log scale requires positive Y values"
    );
}

#[test]
fn degenerate_bounds_are_rejected() {
    let cfg = Config::default();
    let bounds = RawBounds {
        x_min: 1.0f64.to_bits(),
        x_max: 1.0f64.to_bits(),
        y_min: 0.0f64.to_bits(),
        y_max: 5.0f64.to_bits(),
    };
    let r = Plot::new(&cfg, bounds, 0.0f64.to_bits(), 5.0f64.to_bits());
    assert_eq!(r.err(), Some(PlotError::DegenerateRange));
    assert_eq!(
        PlotError::DegenerateRange.message(),
        "Insufficient range of data"
    );
    assert_eq!(PlotError::EmptyDataset.message(), "No data to plot");

    assert!(PlotError::DomainErrorX.is_fatal());
    assert!(PlotError::DomainErrorY.is_fatal());
    assert!(!PlotError::EmptyDataset.is_fatal());
    assert!(!PlotError::DegenerateRange.is_fatal());
}

fn plot_of(x_min: f64, x_max: f64, y_min: f64, y_max: f64) -> Plot {
    let cfg = Config::default();
    let bounds = RawBounds {
        x_min: x_min.to_bits(),
        x_max: x_max.to_bits(),
        y_min: y_min.to_bits(),
        y_max: y_max.to_bits(),
    };
    Plot::new(
        &cfg,
        bounds,
        (x_max - x_min).to_bits(),
        (y_max - y_min).to_bits(),
    )
    .unwrap()
}

#[test]
fn plot_accessors() {
    let plot = plot_of(-1.0, 4.0, 2.0, 8.0);
    assert_eq!(f64::from_bits(plot.x_min()), -1.0);
    assert_eq!(f64::from_bits(plot.x_max()), 4.0);
    assert_eq!(f64::from_bits(plot.y_min()), 2.0);
    assert_eq!(f64::from_bits(plot.y_max()), 8.0);
    assert_eq!(f64::from_bits(plot.x_range()), 5.0);
    assert_eq!(f64::from_bits(plot.y_range()), 6.0);
    assert_eq!(plot.width(), 72);
    assert_eq!(plot.height(), 40);
    assert!(!plot.log_x());
    assert!(!plot.log_y());
}

#[test]
fn axis_visibility_and_origin() {
    // Zero inside both axes: both lines visible, origin at zero.
    let plot = plot_of(-1.0, 4.0, -2.0, 8.0);
    assert!(plot.draw_x_axis());
    assert!(plot.draw_y_axis());
    let origin = plot.axis_origin();
    assert_eq!(f64::from_bits(origin.x()), 0.0);
    assert_eq!(f64::from_bits(origin.y()), 0.0);

    // All-positive x: the phantom y axis pins to the lower x bound.
    let plot = plot_of(3.0, 9.0, -2.0, 8.0);
    assert!(!plot.draw_y_axis());
    let origin = plot.axis_origin();
    assert_eq!(f64::from_bits(origin.x()), 3.0);
    assert_eq!(f64::from_bits(origin.y()), 0.0);

    // All-negative y: the phantom x axis pins to the upper y bound.
    let plot = plot_of(-1.0, 4.0, -9.0, -2.0);
    assert!(!plot.draw_x_axis());
    let origin = plot.axis_origin();
    assert_eq!(f64::from_bits(origin.x()), 0.0);
    assert_eq!(f64::from_bits(origin.y()), -2.0);
}
