use xyplot::config::Config;
use xyplot::input::{split_line, store_row, LineContent};
use xyplot::plot::{clamp_choice, needs_widening, scan_dataset, ClampChoice, Plot, RawBounds};
use xyplot::types::DataSet;

const CROSS_PAD: f64 = 2.0;

fn feed(config: &Config, dataset: &mut DataSet, line: &str, row_count: usize) {
    match split_line(line) {
        LineContent::Empty | LineContent::Comment => panic!("expected a data line"),
        LineContent::Tokens(tokens) => {
            let values: Vec<u64> = tokens
                .iter()
                .map(|t| t.parse::<f64>().unwrap_or(f64::NAN).to_bits())
                .collect();
            let row_x = (row_count as f64).to_bits();
            store_row(config, dataset, row_count, row_x, &tokens, &values);
        }
    }
}

/// The arithmetic half of the bounds engine: the natural-log transform of
/// the extrema, the widening of a collapsed axis, and the proximity tests
/// of the clamping heuristic.  The decisions themselves (`needs_widening`,
/// `clamp_choice`, the validation in `Plot::new`) are the library's.
fn finish(cfg: &Config, raw: RawBounds) -> (RawBounds, u64, u64) {
    let mut x_min = f64::from_bits(raw.x_min);
    let mut x_max = f64::from_bits(raw.x_max);
    let mut y_min = f64::from_bits(raw.y_min);
    let mut y_max = f64::from_bits(raw.y_max);

    if cfg.log_x {
        if x_min != 0.0 {
            x_min = x_min.ln();
        }
        if x_max != 0.0 {
            x_max = x_max.ln();
        }
    }
    if cfg.log_y {
        if y_min != 0.0 {
            y_min = y_min.ln();
        }
        if y_max != 0.0 {
            y_max = y_max.ln();
        }
    }

    if needs_widening(x_min.to_bits(), x_max.to_bits()) {
        x_max += 1.0;
    }
    if needs_widening(y_min.to_bits(), y_max.to_bits()) {
        y_max += 1.0;
    }

    let x_range = x_max - x_min;
    let y_range = y_max - y_min;

    let nlx = 0.0 > x_min - x_range * CROSS_PAD;
    let nhx = 0.0 < x_max + x_range * CROSS_PAD;
    match clamp_choice(x_min.to_bits(), x_max.to_bits(), nlx, nhx) {
        ClampChoice::SnapMin => x_min = 0.0,
        ClampChoice::SnapMax => x_max = 0.0,
        ClampChoice::Keep => {}
    }

    let nly = 0.0 > y_min - y_range * CROSS_PAD;
    let nhy = 0.0 < y_max + y_range * CROSS_PAD;
    match clamp_choice(y_min.to_bits(), y_max.to_bits(), nly, nhy) {
        ClampChoice::SnapMin => y_min = 0.0,
        ClampChoice::SnapMax => y_max = 0.0,
        ClampChoice::Keep => {}
    }

    let bounds = RawBounds {
        x_min: x_min.to_bits(),
        x_max: x_max.to_bits(),
        y_min: y_min.to_bits(),
        y_max: y_max.to_bits(),
    };
    (bounds, (x_max - x_min).to_bits(), (y_max - y_min).to_bits())
}

fn read_lines(cfg: &Config, dataset: &mut DataSet, lines: &[&str]) -> Plot {
    for (i, line) in lines.iter().enumerate() {
        feed(cfg, dataset, line, i);
    }
    let raw = scan_dataset(dataset, cfg).unwrap();
    let (bounds, x_range, y_range) = finish(cfg, raw);
    Plot::new(cfg, bounds, x_range, y_range).unwrap()
}

#[test]
fn bounds_basic() {
    let cfg = Config::default();
    let mut dataset = DataSet::default();
    let lines = ["1 2 3", "4 5 6", "7 8 9"];

    let plot = read_lines(&cfg, &mut dataset, &lines);

    assert_eq!(f64::from_bits(plot.x_min()), 0.0);
    assert_eq!(f64::from_bits(plot.x_max()), 2.0);
    assert_eq!(f64::from_bits(plot.y_min()), 0.0);
    assert_eq!(f64::from_bits(plot.y_max()), 9.0);
}

#[test]
fn bounds_empty_cells() {
    let cfg = Config::default();
    let mut dataset = DataSet::default();
    let lines = ["  2 3", "4   6", "7 8  "];

    let plot = read_lines(&cfg, &mut dataset, &lines);

    assert_eq!(f64::from_bits(plot.x_min()), 0.0);
    assert_eq!(f64::from_bits(plot.x_max()), 2.0);
    assert_eq!(f64::from_bits(plot.y_min()), 0.0);
    assert_eq!(f64::from_bits(plot.y_max()), 8.0);
}

#[test]
fn bounds_negative_quadrant() {
    let mut cfg = Config::default();
    cfg.x_column = true;
    let mut dataset = DataSet::default();
    let lines = ["-5 -50", "-3 -30", "-1 -10"];

    let plot = read_lines(&cfg, &mut dataset, &lines);

    assert_eq!(f64::from_bits(plot.x_min()), -5.0);
    assert_eq!(f64::from_bits(plot.x_max()), 0.0);
    assert_eq!(f64::from_bits(plot.y_min()), -50.0);
    assert_eq!(f64::from_bits(plot.y_max()), 0.0);
}

#[test]
fn bounds_4q() {
    let mut cfg = Config::default();
    cfg.x_column = true;
    let mut dataset = DataSet::default();
    let lines = ["-5 -50", "-49 49", "0 0", "10 10"];

    let plot = read_lines(&cfg, &mut dataset, &lines);

    assert_eq!(f64::from_bits(plot.x_min()), -49.0);
    assert_eq!(f64::from_bits(plot.x_max()), 10.0);
    assert_eq!(f64::from_bits(plot.y_min()), -50.0);
    assert_eq!(f64::from_bits(plot.y_max()), 49.0);
}

#[test]
fn bounds_diff_quadrants_for_columns() {
    let mut cfg = Config::default();
    cfg.x_column = true;
    let mut dataset = DataSet::default();
    let lines = ["-50 -50 50", "-49 -49 49", "-48 -48 48", "-47 -47 47"];

    let plot = read_lines(&cfg, &mut dataset, &lines);

    assert_eq!(f64::from_bits(plot.x_min()), -50.0);
    assert_eq!(f64::from_bits(plot.x_max()), -47.0);
    assert_eq!(f64::from_bits(plot.y_min()), -50.0);
    assert_eq!(f64::from_bits(plot.y_max()), 50.0);
}

#[test]
fn bounds_too_distant_to_touch_axis() {
    let mut cfg = Config::default();
    cfg.x_column = true;
    let mut dataset = DataSet::default();
    let lines = ["-5000 -5000", "-4900 -4900", "-4800 -4800"];

    let plot = read_lines(&cfg, &mut dataset, &lines);

    assert_eq!(f64::from_bits(plot.x_min()), -5000.0);
    assert_eq!(f64::from_bits(plot.x_max()), -4800.0);
    assert_eq!(f64::from_bits(plot.y_min()), -5000.0);
    assert_eq!(f64::from_bits(plot.y_max()), -4800.0);
}

#[test]
fn bounds_log_basic() {
    let mut cfg = Config::default();
    cfg.log_y = true;

    let lines = ["1214", "358", "316", "187", "186", "93", "63", "11"];

    let mut dataset = DataSet::default();

    let plot_info = read_lines(&cfg, &mut dataset, &lines);

    assert_eq!(f64::from_bits(plot_info.x_min()), 0.0);
    assert_eq!(f64::from_bits(plot_info.x_max()), 7.0);

    assert_eq!(f64::from_bits(plot_info.y_min()), 0.0);
    assert!((f64::from_bits(plot_info.y_max()) - 7.101).abs() < 0.001);
}

#[test]
fn bounds_log_distant() {
    let mut cfg = Config::default();
    cfg.log_y = true;

    let lines = ["1214", "358", "316", "187", "186"];

    let mut dataset = DataSet::default();

    let plot_info = read_lines(&cfg, &mut dataset, &lines);

    assert_eq!(f64::from_bits(plot_info.x_min()), 0.0);
    assert_eq!(f64::from_bits(plot_info.x_max()), 4.0);

    assert!((f64::from_bits(plot_info.y_min()) - 5.2257).abs() < 0.001);
    assert!((f64::from_bits(plot_info.y_max()) - 7.101).abs() < 0.001);
}

#[test]
fn reject_x_range_of_zero() {
    let cfg = Config::default();

    let lines = ["-3 -2"];

    let mut dataset = DataSet::default();

    let plot_info = read_lines(&cfg, &mut dataset, &lines);

    assert_ne!(f64::from_bits(plot_info.y_range()), 0.0);
}

#[test]
fn reject_y_range_of_zero() {
    let cfg = Config::default();

    let lines = ["0 0", "0 0"];

    let mut dataset = DataSet::default();

    let plot_info = read_lines(&cfg, &mut dataset, &lines);

    assert_ne!(f64::from_bits(plot_info.y_range()), 0.0);
}

#[test]
fn bounds_clamping_idempotent() {
    // A dataset that already realises zero-touching bounds: re-running the
    // whole engine on it reproduces the same bounds.
    let mut cfg = Config::default();
    cfg.x_column = true;
    let lines = ["0 0", "2 9"];

    let mut first = DataSet::default();
    let plot = read_lines(&cfg, &mut first, &lines);
    assert_eq!(f64::from_bits(plot.x_min()), 0.0);
    assert_eq!(f64::from_bits(plot.x_max()), 2.0);
    assert_eq!(f64::from_bits(plot.y_min()), 0.0);
    assert_eq!(f64::from_bits(plot.y_max()), 9.0);

    let corners = [
        format!(
            "{} {}",
            f64::from_bits(plot.x_min()),
            f64::from_bits(plot.y_min())
        ),
        format!(
            "{} {}",
            f64::from_bits(plot.x_max()),
            f64::from_bits(plot.y_max())
        ),
    ];
    let corner_lines: Vec<&str> = corners.iter().map(|s| s.as_str()).collect();
    let mut second = DataSet::default();
    let again = read_lines(&cfg, &mut second, &corner_lines);

    assert_eq!(again.x_min(), plot.x_min());
    assert_eq!(again.x_max(), plot.x_max());
    assert_eq!(again.y_min(), plot.y_min());
    assert_eq!(again.y_max(), plot.y_max());
}
