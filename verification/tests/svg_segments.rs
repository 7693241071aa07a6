use xyplot::scale::ScaledPoint;
use xyplot::svg::polyline_segments;

#[test]
fn segments_break_at_missing_samples() {
    let cells = vec![
        Some(ScaledPoint(0, 0)),
        Some(ScaledPoint(1, 1)),
        None,
        Some(ScaledPoint(2, 2)),
        None,
        None,
        Some(ScaledPoint(3, 3)),
        Some(ScaledPoint(4, 4)),
    ];
    let segments = polyline_segments(&cells);
    assert_eq!(
        segments,
        vec![
            vec![ScaledPoint(0, 0), ScaledPoint(1, 1)],
            vec![ScaledPoint(2, 2)],
            vec![ScaledPoint(3, 3), ScaledPoint(4, 4)],
        ]
    );
}

#[test]
fn segments_of_unbroken_series() {
    let cells = vec![Some(ScaledPoint(1, 2)), Some(ScaledPoint(3, 4))];
    assert_eq!(
        polyline_segments(&cells),
        vec![vec![ScaledPoint(1, 2), ScaledPoint(3, 4)]]
    );
}

#[test]
fn segments_of_gaps_only() {
    let cells = vec![None, None, None];
    assert_eq!(polyline_segments(&cells), Vec::<Vec<ScaledPoint>>::new());
    assert_eq!(
        polyline_segments(&Vec::new()),
        Vec::<Vec<ScaledPoint>>::new()
    );
}
