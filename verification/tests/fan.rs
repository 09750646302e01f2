use powercurve::curve::{duty_from_curve, FanCurve, FanPoint, TempSource};
use powercurve::fan::{build_curve, min_duty_byte, parse_temp_source, STALL_FALLBACK_DUTY};
use powercurve::fan_config::CurvePoint;

#[test]
fn duty_interpolation() {
    let fan_point = FanPoint::new(20_00, 30_00);
    let next_point = FanPoint::new(30_00, 35_00);

    assert_eq!(fan_point.get_duty_between_points(next_point, 1500), None);
    assert_eq!(fan_point.get_duty_between_points(next_point, 2000), Some(3000));
    assert_eq!(fan_point.get_duty_between_points(next_point, 3000), Some(3500));
    assert_eq!(fan_point.get_duty_between_points(next_point, 3250), None);
    assert_eq!(fan_point.get_duty_between_points(next_point, 3500), None);
}

#[test]
fn standard_points() {
    let standard = FanCurve::standard();

    assert_eq!(standard.get_duty(0), Some(0));
    assert_eq!(standard.get_duty(3999), Some(0));
    assert_eq!(standard.get_duty(4000), Some(1500));
    assert_eq!(standard.get_duty(4500), Some(3000));
    assert_eq!(standard.get_duty(5000), Some(4000));
    assert_eq!(standard.get_duty(5500), Some(5500));
    assert_eq!(standard.get_duty(6000), Some(7000));
    assert_eq!(standard.get_duty(6500), Some(8500));
    assert_eq!(standard.get_duty(7000), Some(10000));
    assert_eq!(standard.get_duty(10000), Some(10000));
}

/// Verify that rising temps update duty immediately and falling
/// temps within the hysteresis band hold the previous duty.
#[test]
fn hysteresis_holds_duty_on_small_drop() {
    let curve = FanCurve::standard();
    let hysteresis: u32 = 3000;

    let temp_50c = 50_000u32;
    let duty_at_50 = duty_from_curve(&curve, temp_50c).unwrap();

    let temp_49c = 49_000u32;
    let duty_at_49 = duty_from_curve(&curve, temp_49c).unwrap();

    assert!(duty_at_49 < duty_at_50);

    let drop = temp_50c.saturating_sub(temp_49c);
    assert!(drop < hysteresis, "1C drop should be within 3C hysteresis band");

    let temp_46c = 46_000u32;
    let drop = temp_50c.saturating_sub(temp_46c);
    assert!(drop >= hysteresis, "4C drop should exceed 3C hysteresis band");
}

#[test]
fn min_duty_byte_conversion() {
    // 15% of 255 = 38.25, rounds to 38
    assert_eq!(min_duty_byte(15_000), 38);
    // 100% = 255
    assert_eq!(min_duty_byte(100_000), 255);
    // 0% = 0
    assert_eq!(min_duty_byte(0), 0);
}

#[test]
fn stall_fallback_duty() {
    // Verify the fallback constant is ~15%
    let pct = (STALL_FALLBACK_DUTY as f32 / 255.0) * 100.0;
    assert!(pct > 14.0 && pct < 16.0);
}

#[test]
fn temp_source_parsing() {
    assert_eq!(parse_temp_source("cpu"), TempSource::Cpu);
    assert_eq!(parse_temp_source("gpu"), TempSource::Gpu);
    assert_eq!(parse_temp_source("all"), TempSource::All);
    assert_eq!(parse_temp_source("bogus"), TempSource::All);
}

#[test]
fn built_curve_unit_conversion() {
    let curve = build_curve(&vec![
        CurvePoint { temp: 40_000, duty: 15_000 },
        CurvePoint { temp: 70_000, duty: 100_000 },
    ]);
    assert_eq!(curve.get_duty(40_00), Some(15_00));
    assert_eq!(curve.get_duty(70_00), Some(100_00));
    assert_eq!(curve.get_duty(55_00), Some(57_50));
}

#[test]
fn curve_edges() {
    let curve = FanCurve::empty();
    assert_eq!(curve.get_duty(5000), None);
    let curve = FanCurve::empty().append(40_00, 20_00).append(60_00, 80_00);
    // Below the curve means fans off.
    assert_eq!(curve.get_duty(30_00), Some(0));
    assert_eq!(curve.get_duty(90_00), Some(80_00));
    assert_eq!(curve.get_duty(50_00), Some(50_00));
    assert_eq!(duty_from_curve(&curve, 90_000), Some(204));
    assert_eq!(duty_from_curve(&curve, 0), Some(0));
    assert_eq!(duty_from_curve(&curve, 40_000), Some(51));
}

#[test]
fn one_point_curve_gives_its_duty() {
    let curve = FanCurve::empty().append(50_00, 40_00);
    assert_eq!(curve.get_duty(40_00), Some(0));
    assert_eq!(curve.get_duty(50_00), Some(40_00));
    assert_eq!(curve.get_duty(60_00), Some(40_00));
}

#[test]
fn very_hot_reading_keeps_last_duty() {
    let curve = FanCurve::standard();
    assert_eq!(duty_from_curve(&curve, 327_670), Some(255));
    assert_eq!(duty_from_curve(&curve, 327_680), Some(255));
    assert_eq!(duty_from_curve(&curve, 400_000), Some(255));
    assert_eq!(duty_from_curve(&curve, u32::MAX), Some(255));
    let curve = FanCurve::empty().append(40_00, 20_00).append(60_00, 80_00);
    assert_eq!(duty_from_curve(&curve, 400_000), Some(204));
}
