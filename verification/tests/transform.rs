use e57_to_las::clamp;
use e57_to_las::point::convert_point;
use e57_to_las::point::get_intensity;
use e57_to_las::point::to_u16;
use e57_to_las::point::ExtendedPoint;
use e57_to_las::point::SourceColor;
use e57_to_las::point::SourcePoint;

fn reference_channel(v: f32) -> u16 {
    let c = if v < 0.0 {
        0.0
    } else if v > 1.0 {
        1.0
    } else {
        v
    };
    (c * 255.0) as u16
}

fn reference_intensity(v: f32) -> u16 {
    (v * 65535.0) as u16
}

fn valid_point() -> SourcePoint {
    SourcePoint {
        x: 1.5f64.to_bits(),
        y: (-2.25f64).to_bits(),
        z: 0.0f64.to_bits(),
        cartesian_valid: true,
        intensity: Some(0.5f32.to_bits()),
        intensity_invalid: false,
        color: Some(SourceColor {
            red: 0.5f32.to_bits(),
            green: 1.0f32.to_bits(),
            blue: 0.0f32.to_bits(),
        }),
        color_invalid: false,
    }
}

#[test]
fn clamp_below_zero_gives_zero() {
    assert_eq!(clamp((-0.5f32).to_bits()), 0.0f32.to_bits());
    assert_eq!(clamp(f32::NEG_INFINITY.to_bits()), 0.0f32.to_bits());
}

#[test]
fn clamp_above_one_gives_one() {
    assert_eq!(clamp(1.5f32.to_bits()), 1.0f32.to_bits());
    assert_eq!(clamp(f32::INFINITY.to_bits()), 1.0f32.to_bits());
}

#[test]
fn clamp_inside_passes_through() {
    assert_eq!(clamp(0.0f32.to_bits()), 0.0f32.to_bits());
    assert_eq!(clamp(0.25f32.to_bits()), 0.25f32.to_bits());
    assert_eq!(clamp(1.0f32.to_bits()), 1.0f32.to_bits());
}

#[test]
fn clamp_keeps_nan() {
    assert!(f32::from_bits(clamp(f32::NAN.to_bits())).is_nan());
}

#[test]
fn channel_clamp_values() {
    assert_eq!(to_u16((-0.5f32).to_bits()), 0);
    assert_eq!(to_u16(0.0f32.to_bits()), 0);
    assert_eq!(to_u16(0.5f32.to_bits()), 127);
    assert_eq!(to_u16(1.0f32.to_bits()), 255);
    assert_eq!(to_u16(1.5f32.to_bits()), 255);
}

#[test]
fn channel_matches_float_reference_on_ladder() {
    let mut i: i32 = -2100;
    while i <= 2100 {
        let v = i as f32 / 1000.0;
        assert_eq!(to_u16(v.to_bits()), reference_channel(v), "channel at {}", v);
        i += 1;
    }
}

#[test]
fn channel_matches_float_reference_on_awkward_values() {
    let awkward = [
        f32::from_bits(1),
        f32::MIN_POSITIVE,
        127.0f32 / 255.0,
        0.499_999_97f32,
        0.498_039_22f32,
        f32::from_bits(0x3f7f_ffff),
        -0.0f32,
        f32::NAN,
    ];
    for v in awkward {
        assert_eq!(to_u16(v.to_bits()), reference_channel(v), "channel at {:?}", v);
    }
}

#[test]
fn intensity_invalid_or_absent_is_zero() {
    assert_eq!(get_intensity(None, false), 0);
    assert_eq!(get_intensity(None, true), 0);
    assert_eq!(get_intensity(Some(0.75f32.to_bits()), true), 0);
}

#[test]
fn intensity_valid_values() {
    assert_eq!(get_intensity(Some(0.0f32.to_bits()), false), 0);
    assert_eq!(get_intensity(Some(0.5f32.to_bits()), false), 32767);
    assert_eq!(get_intensity(Some(1.0f32.to_bits()), false), 65535);
    assert_eq!(get_intensity(Some(2.0f32.to_bits()), false), 65535);
}

#[test]
fn intensity_extreme_values_match_float_reference() {
    let extreme = [
        1.0e30f32,
        f32::MAX,
        f32::INFINITY,
        1.0e-40f32,
        f32::MIN_POSITIVE,
        f32::NAN,
        -1.0f32,
        65535.5f32 / 65535.0,
    ];
    for v in extreme {
        assert_eq!(
            get_intensity(Some(v.to_bits()), false),
            reference_intensity(v),
            "intensity at {:?}",
            v
        );
    }
}

#[test]
fn intensity_matches_float_reference_and_is_monotone() {
    let mut previous: u16 = 0;
    let mut i: i32 = 0;
    while i <= 1500 {
        let v = i as f32 / 1000.0;
        let got = get_intensity(Some(v.to_bits()), false);
        assert_eq!(got, reference_intensity(v), "intensity at {}", v);
        assert!(got >= previous, "intensity not monotone at {}", v);
        previous = got;
        i += 1;
    }
}

#[test]
fn convert_point_passes_geometry_through() {
    let p = valid_point();
    let t = convert_point(&p);
    assert_eq!(f64::from_bits(t.x), 1.5);
    assert_eq!(f64::from_bits(t.y), -2.25);
    assert_eq!(f64::from_bits(t.z), 0.0);
    assert_eq!(t.intensity, 32767);
    assert_eq!(t.color.red, 127);
    assert_eq!(t.color.green, 255);
    assert_eq!(t.color.blue, 0);
}

#[test]
fn convert_point_absent_color_is_zero_triple() {
    let mut p = valid_point();
    p.color = None;
    let t = convert_point(&p);
    assert_eq!((t.color.red, t.color.green, t.color.blue), (0, 0, 0));
}

#[test]
fn convert_point_invalid_color_is_zero_triple() {
    let mut p = valid_point();
    p.color_invalid = true;
    let t = convert_point(&p);
    assert_eq!((t.color.red, t.color.green, t.color.blue), (0, 0, 0));
}

#[test]
fn extended_point_keeps_source_and_computes_color() {
    let p = valid_point();
    let e = ExtendedPoint::from(p);
    assert_eq!(e.original_point.x, p.x);
    assert_eq!(e.rgb_color.red, 127);
    assert_eq!(e.rgb_color.green, 255);
    assert_eq!(e.rgb_color.blue, 0);
    let mut q = valid_point();
    q.color_invalid = true;
    let e2 = ExtendedPoint::from(q);
    assert_eq!((e2.rgb_color.red, e2.rgb_color.green, e2.rgb_color.blue), (0, 0, 0));
}
