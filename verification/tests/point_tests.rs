use svg2pdc::error::Svg2PdcError;
use svg2pdc::fixed::{Fixed, EPSILON, HALF, ONE};
use svg2pdc::point::{Conversion, FPoint, PebblePoint, Precision};

fn fixed(value: f32) -> Fixed {
    Fixed {
        raw: (f64::from(value) * 4_294_967_296.0).round() as i64,
    }
}

fn point(x: f32, y: f32) -> FPoint {
    FPoint::new(fixed(x), fixed(y))
}

const POLICIES: [Conversion; 3] = [
    Conversion::ConvertNoWarn,
    Conversion::ConvertWarn,
    Conversion::RequireExact,
];

#[test]
fn constants_are_what_they_are_called() {
    assert_eq!(ONE, 1 << 32);
    assert_eq!(HALF, 1 << 31);
    assert_eq!(EPSILON, 1 << 9);
    assert_eq!(fixed(f32::EPSILON).raw, EPSILON);
    assert_eq!(Fixed::from_int(-3).raw, -3 * ONE);
    assert_eq!(Fixed::from_int(i32::MAX).raw, i64::from(i32::MAX) * ONE);
    assert_eq!(Fixed::zero().raw, 0);
    assert_eq!(Precision::default(), Precision::Normal);
    assert_eq!(Conversion::default(), Conversion::RequireExact);
}

#[test]
fn sums_saturate() {
    let big = Fixed { raw: i64::MAX - 1 };
    assert_eq!(big.add(Fixed { raw: 5 }).raw, i64::MAX);
    assert_eq!(big.neg().sub(Fixed { raw: 5 }).raw, i64::MIN);
    assert_eq!(Fixed { raw: i64::MIN }.neg().raw, i64::MAX);
    assert_eq!(fixed(1.5).add(fixed(2.25)), fixed(3.75));
    assert_eq!(fixed(1.5).sub(fixed(2.25)), fixed(-0.75));
    assert_eq!(point(1.0, 2.0).add(point(0.5, -4.0)), point(1.5, -2.0));
    assert_eq!(point(1.0, 2.0).sub(point(0.5, -4.0)), point(0.5, 6.0));
}

#[test]
fn floor_goes_down_for_both_signs() {
    assert_eq!(fixed(2.75).floor(), fixed(2.0));
    assert_eq!(fixed(2.0).floor(), fixed(2.0));
    assert_eq!(fixed(-2.0).floor(), fixed(-2.0));
    assert_eq!(fixed(-2.25).floor(), fixed(-3.0));
    assert_eq!(Fixed { raw: -1 }.floor(), fixed(-1.0));
    assert_eq!(Fixed { raw: i64::MIN }.floor().raw, i64::MIN);
    assert_eq!(Fixed { raw: i64::MAX }.floor().raw, i64::MAX - (ONE - 1));
    assert_eq!(point(10.7, -0.5).floor(), point(10.0, -1.0));
}

#[test]
fn rounding_sends_halves_away_from_zero_after_the_bias() {
    assert_eq!(fixed(0.5).round(), fixed(1.0));
    assert_eq!(fixed(0.49).round(), fixed(0.0));
    assert_eq!(fixed(1.5).round(), fixed(2.0));
    assert_eq!(fixed(14.5).round(), fixed(15.0));
    assert_eq!(fixed(-0.5).round(), fixed(0.0));
    assert_eq!(fixed(-0.75).round(), fixed(-1.0));
    assert_eq!(fixed(-1.0).round(), fixed(-1.0));
    assert_eq!(Fixed { raw: HALF - EPSILON }.round(), fixed(1.0));
    assert_eq!(Fixed { raw: HALF - EPSILON - 1 }.round(), fixed(0.0));
    assert_eq!(Fixed { raw: -HALF - EPSILON }.round(), fixed(-1.0));
    assert_eq!(Fixed { raw: -HALF - EPSILON + 1 }.round(), fixed(0.0));
    assert_eq!(Fixed { raw: i64::MAX }.round().raw, i64::MAX);
    assert_eq!(point(0.5, 2.4).round(), point(1.0, 2.0));
}

#[test]
fn whole_parts_are_cut_to_their_range() {
    assert_eq!(fixed(0.99).to_u16(), 0);
    assert_eq!(fixed(25.9).to_u16(), 25);
    assert_eq!(fixed(-3.0).to_u16(), 0);
    assert_eq!(fixed(65535.5).to_u16(), 65535);
    assert_eq!(fixed(65536.0).to_u16(), 65535);
    assert_eq!(fixed(2.5).to_u8(), 2);
    assert_eq!(fixed(255.9).to_u8(), 255);
    assert_eq!(fixed(256.0).to_u8(), 255);
    assert_eq!(fixed(-0.1).to_u8(), 0);
}

#[test]
fn nearest_valid_snaps_to_the_grid() {
    assert_eq!(point(10.0, 10.5).find_nearest_valid(&Precision::Normal), point(10.0, 10.5));
    assert_eq!(point(10.3, 10.2).find_nearest_valid(&Precision::Normal), point(10.5, 10.0));
    assert_eq!(point(10.25, 10.75).find_nearest_valid(&Precision::Normal), point(10.5, 11.0));
    assert_eq!(
        point(10.3, 10.125).find_nearest_valid(&Precision::Precise),
        point(10.25, 10.125)
    );
    assert_eq!(
        point(0.0625, 0.06).find_nearest_valid(&Precision::Precise),
        point(0.125, 0.0)
    );
}

#[test]
fn points_on_the_grid_are_never_rejected() {
    for policy in POLICIES {
        for halves in 0..400 {
            let value = halves as f32 / 2.0;
            let p = point(value, 200.0 - value);
            assert_eq!(p.find_nearest_valid(&Precision::Normal), p);
            let expected = PebblePoint {
                x: (halves / 2) as u16,
                y: (200 - (halves + 1) / 2) as u16,
            };
            assert_eq!(p.pebble_coordinates(&Precision::Normal, &policy).unwrap(), expected);
        }
        for eighths in 0..400 {
            let value = eighths as f32 / 8.0;
            let p = point(value, value);
            assert_eq!(p.find_nearest_valid(&Precision::Precise), p);
            assert!(p.pebble_coordinates(&Precision::Precise, &policy).is_ok());
        }
    }
}

#[test]
fn points_off_the_grid_follow_the_policy() {
    let p = point(10.3, 20.0);
    let nearest = point(10.5, 20.0);
    for policy in [Conversion::ConvertNoWarn, Conversion::ConvertWarn] {
        assert_eq!(
            p.pebble_coordinates(&Precision::Normal, &policy).unwrap(),
            PebblePoint { x: 10, y: 20 }
        );
    }
    match p.pebble_coordinates(&Precision::Normal, &Conversion::RequireExact) {
        Err(Svg2PdcError::InvalidPoint {
            point,
            nearest_valid,
        }) => {
            assert_eq!(point, p);
            assert_eq!(nearest_valid, nearest);
        }
        other => panic!("unexpected result {:?}", other),
    }
    let eighth = point(10.125, 20.0);
    assert!(eighth
        .pebble_coordinates(&Precision::Normal, &Conversion::RequireExact)
        .is_err());
    assert!(eighth
        .pebble_coordinates(&Precision::Precise, &Conversion::RequireExact)
        .is_ok());
}

#[test]
fn device_coordinates_on_both_grids() {
    let strict = Conversion::RequireExact;
    let normal = |x: f32, y: f32| point(x, y).pebble_coordinates(&Precision::Normal, &strict).unwrap();
    let precise = |x: f32, y: f32| point(x, y).pebble_coordinates(&Precision::Precise, &strict).unwrap();
    assert_eq!(normal(0.0, 0.5), PebblePoint { x: 0, y: 0 });
    assert_eq!(normal(1.0, 1.5), PebblePoint { x: 1, y: 1 });
    assert_eq!(normal(50.0, 50.0), PebblePoint { x: 50, y: 50 });
    assert_eq!(normal(15.0, 26.0), PebblePoint { x: 15, y: 26 });
    assert_eq!(normal(65535.0, 65535.5), PebblePoint { x: 65535, y: 65535 });
    assert_eq!(normal(70000.0, -3.0), PebblePoint { x: 65535, y: 0 });
    assert_eq!(precise(0.0, 0.125), PebblePoint { x: 0, y: 0 });
    assert_eq!(precise(1.0, 1.375), PebblePoint { x: 8, y: 8 });
    assert_eq!(precise(1.5, 1.625), PebblePoint { x: 8, y: 8 });
    assert_eq!(precise(50.0, 8191.0), PebblePoint { x: 400, y: 65528 });
    assert_eq!(precise(8192.0, 9000.0), PebblePoint { x: 65535, y: 65535 });
}

fn float_round(x: f32) -> f32 {
    (x + f32::EPSILON).round()
}

fn float_coordinate(value: f32, precise: bool, strict: bool) -> Option<u16> {
    let steps = if precise { 8.0 } else { 2.0 };
    let nearest = float_round(value * steps) / steps;
    if value != nearest && strict {
        return None;
    }
    let rounded = float_round(nearest + -0.5);
    let scaled = if precise { rounded * 8.0 } else { rounded };
    Some(scaled as u16)
}

#[test]
fn agrees_with_floating_point_on_sixteenths() {
    for sixteenths in 0..(16 * 700) {
        let value = sixteenths as f32 / 16.0;
        for precise in [false, true] {
            let precision = if precise { Precision::Precise } else { Precision::Normal };
            for strict in [false, true] {
                let policy = if strict { Conversion::RequireExact } else { Conversion::ConvertNoWarn };
                let ours = point(value, value)
                    .pebble_coordinates(&precision, &policy)
                    .ok()
                    .map(|p| p.x);
                assert_eq!(
                    ours,
                    float_coordinate(value, precise, strict),
                    "value {} precise {} strict {}",
                    value,
                    precise,
                    strict
                );
            }
        }
    }
}

#[test]
fn agrees_with_floating_point_on_decimals() {
    for hundredths in 50..30000 {
        let value = hundredths as f32 / 100.0;
        for precise in [false, true] {
            let precision = if precise { Precision::Precise } else { Precision::Normal };
            let ours = point(value, value)
                .pebble_coordinates(&precision, &Conversion::ConvertNoWarn)
                .unwrap()
                .x;
            assert_eq!(Some(ours), float_coordinate(value, precise, false), "value {}", value);
        }
    }
}

#[test]
fn display_points_become_whole_document_points() {
    let p = PebblePoint { x: 10, y: 65535 };
    assert_eq!(p.to_fpoint(), point(10.0, 65535.0));
    assert_eq!(p.translated(point(5.5, -1.0)), point(15.5, 65534.0));
    assert_eq!(FPoint::origin(), point(0.0, 0.0));
}

#[test]
fn scaling_by_whole_numbers() {
    assert_eq!(fixed(1.25).mul(8), fixed(10.0));
    assert_eq!(fixed(-1.25).mul(2), fixed(-2.5));
    assert_eq!(fixed(1.25).mul(-2), fixed(-2.5));
    assert_eq!(fixed(3.0).mul(0), fixed(0.0));
    assert_eq!(Fixed { raw: i64::MAX / 2 + 1 }.mul(2).raw, i64::MAX);
    assert_eq!(Fixed { raw: i64::MIN }.mul(-1).raw, i64::MAX);
    assert_eq!(fixed(10.0).div(8), fixed(1.25));
    assert_eq!(fixed(10.0).div(-8), fixed(-1.25));
    assert_eq!(Fixed { raw: 7 }.div(2).raw, 3);
    assert_eq!(Fixed { raw: -7 }.div(2).raw, -4);
    assert_eq!(Fixed { raw: 7 }.div(-2).raw, -4);
    assert_eq!(Fixed { raw: -7 }.div(-2).raw, 3);
    assert_eq!(Fixed { raw: i64::MIN }.div(-1).raw, i64::MAX);
    assert_eq!(point(10.5, -3.0).mul(2), point(21.0, -6.0));
    assert_eq!(point(21.0, -6.0).div(2), point(10.5, -3.0));
    assert_eq!(
        (PebblePoint { x: 1, y: 2 }).add(PebblePoint { x: 65534, y: 3 }),
        PebblePoint { x: 65535, y: 5 }
    );
    assert_eq!(FPoint::from(PebblePoint { x: 7, y: 9 }), point(7.0, 9.0));
}
