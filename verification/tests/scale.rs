use xyplot::scale::{ScaledPoint, TransformType};

#[test]
fn get_transform() {
    let transform = TransformType::new(true, true);
    assert_eq!(transform, TransformType::LogXY);
    let transform = TransformType::new(true, false);
    assert_eq!(transform, TransformType::LogX);
    let transform = TransformType::new(false, true);
    assert_eq!(transform, TransformType::LogY);
    let transform = TransformType::new(false, false);
    assert_eq!(transform, TransformType::Linear);
}

#[test]
fn transform_flags_roundtrip() {
    for &(log_x, log_y) in &[(false, false), (true, false), (false, true), (true, true)] {
        let t = TransformType::new(log_x, log_y);
        assert_eq!(t.flags(), (log_x, log_y));
    }
}

#[test]
fn scaled_point_accessors() {
    let sp = ScaledPoint(3, -7);
    assert_eq!(sp.x(), 3);
    assert_eq!(sp.y(), -7);
    assert_eq!(sp, ScaledPoint(3, -7));
}
