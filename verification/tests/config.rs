use xyplot::config::{ColorScheme, Config, Dimensions, OutputType, PlotType};

#[test]
fn config_defaults() {
    let cfg = Config::default();
    assert!(!cfg.flip_xy);
    assert!(!cfg.stream_mode);
    assert!(!cfg.x_column);
    assert!(!cfg.log_x);
    assert!(!cfg.log_y);
    assert_eq!(cfg.dimensions, Dimensions::default());
    assert_eq!(cfg.dimensions.width, 72);
    assert_eq!(cfg.dimensions.height, 40);
    assert_eq!(cfg.mode, PlotType::Dot);
    assert_eq!(cfg.output_type, OutputType::Ascii);
    assert!(!cfg.axis);
    assert_eq!(cfg.color_scheme, ColorScheme::BankWong);
    assert!(!cfg.regression);
    assert!(!cfg.log_count);
}

#[test]
fn dimensions_from_str() {
    assert_eq!(
        Dimensions::from_str("80x40"),
        Some(Dimensions {
            width: 80,
            height: 40
        })
    );
    assert_eq!(
        Dimensions::from_str("+7x+9"),
        Some(Dimensions {
            width: 7,
            height: 9
        })
    );
    assert_eq!(Dimensions::from_str("80"), None);
    assert_eq!(Dimensions::from_str("x40"), None);
    assert_eq!(Dimensions::from_str("80x"), None);
    assert_eq!(Dimensions::from_str("80x40x7"), None);
    assert_eq!(Dimensions::from_str("eightyx40"), None);
    assert_eq!(Dimensions::from_str("80x-40"), None);
    assert_eq!(Dimensions::from_str(""), None);
}

#[test]
fn plot_type_from_str() {
    assert_eq!(PlotType::from_str("dot"), Some(PlotType::Dot));
    assert_eq!(PlotType::from_str("line"), Some(PlotType::Line));
    assert_eq!(PlotType::from_str("count"), Some(PlotType::Count));
    assert_eq!(PlotType::from_str("scatter"), None);
    assert_eq!(PlotType::from_str(""), None);
}

#[test]
fn output_type_from_str() {
    assert_eq!(OutputType::from_str("ascii"), Some(OutputType::Ascii));
    assert_eq!(OutputType::from_str("braille"), Some(OutputType::Braille));
    assert_eq!(OutputType::from_str("svg"), Some(OutputType::Svg));
    assert_eq!(OutputType::from_str("png"), None);
}

#[test]
fn color_scheme_from_str() {
    assert_eq!(
        ColorScheme::from_str("bank-wong"),
        Some(ColorScheme::BankWong)
    );
    assert_eq!(
        ColorScheme::from_str("mono-light"),
        Some(ColorScheme::MonoLight)
    );
    assert_eq!(
        ColorScheme::from_str("mono-dark"),
        Some(ColorScheme::MonoDark)
    );
    assert_eq!(ColorScheme::from_str("neon"), None);
    assert_eq!(ColorScheme::default(), ColorScheme::BankWong);
}

#[test]
fn series_colors_cycle() {
    let scheme = ColorScheme::BankWong;
    assert_eq!(scheme.series_color(0), (0, 114, 178));
    assert_eq!(scheme.series_color(1), (230, 159, 0));
    assert_eq!(scheme.series_color(2), (86, 180, 233));
    assert_eq!(scheme.series_color(3), (0, 158, 115));
    assert_eq!(scheme.series_color(4), (240, 228, 66));
    assert_eq!(scheme.series_color(5), (0, 0, 0));
    assert_eq!(scheme.series_color(6), (213, 94, 0));
    assert_eq!(scheme.series_color(7), (204, 121, 167));
    assert_eq!(scheme.series_color(8), scheme.series_color(0));
    assert_eq!(scheme.series_color(17), scheme.series_color(1));
    assert_eq!(scheme.axis_color(), (123, 123, 125));

    assert_eq!(ColorScheme::MonoLight.series_color(5), (255, 255, 255));
    assert_eq!(ColorScheme::MonoLight.axis_color(), (255, 255, 255));
    assert_eq!(ColorScheme::MonoDark.series_color(2), (0, 0, 0));
    assert_eq!(ColorScheme::MonoDark.axis_color(), (0, 0, 0));
}
