use e57_to_las::guid::scan_header;
use e57_to_las::point::SourcePoint;
use e57_to_las::scan::ScanConverter;
use e57_to_las::summary::stations_json;
use e57_to_las::summary::StationText;

fn point_at(x: f64, y: f64, z: f64, valid: bool) -> SourcePoint {
    SourcePoint {
        x: x.to_bits(),
        y: y.to_bits(),
        z: z.to_bits(),
        cartesian_valid: valid,
        intensity: None,
        intensity_invalid: false,
        color: None,
        color_invalid: false,
    }
}

/// Drive one scan through the converter as the caller would, summing the
/// coordinates of the points that were written; `write_ok` decides each
/// write's outcome.
fn run_scan(points: &[SourcePoint], write_ok: &mut dyn FnMut(usize) -> bool) -> (ScanConverter, Option<(f64, f64, f64)>) {
    let mut conv = ScanConverter::new();
    let mut sum = (0.0f64, 0.0f64, 0.0f64);
    for (i, p) in points.iter().enumerate() {
        match conv.offer(p) {
            Some(t) => {
                let ok = write_ok(i);
                conv.resolve(ok);
                if ok {
                    sum.0 += f64::from_bits(t.x);
                    sum.1 += f64::from_bits(t.y);
                    sum.2 += f64::from_bits(t.z);
                }
            }
            None => {}
        }
    }
    if conv.emits_station() {
        let n = conv.written as f64;
        let station = (sum.0 / n, sum.1 / n, sum.2 / n);
        (conv, Some(station))
    } else {
        (conv, None)
    }
}

fn station_text(s: (f64, f64, f64)) -> StationText {
    StationText {
        x: serde_json::to_string(&s.0).unwrap().into_bytes(),
        y: serde_json::to_string(&s.1).unwrap().into_bytes(),
        z: serde_json::to_string(&s.2).unwrap().into_bytes(),
    }
}

#[test]
fn counts_account_for_every_offered_point() {
    let points = vec![
        point_at(1.0, 0.0, 0.0, true),
        point_at(2.0, 0.0, 0.0, false),
        point_at(3.0, 0.0, 0.0, true),
        point_at(4.0, 0.0, 0.0, false),
        point_at(5.0, 0.0, 0.0, true),
    ];
    // the second valid point fails to write
    let mut failures = 0usize;
    let (conv, _) = run_scan(&points, &mut |i| {
        if i == 2 {
            failures += 1;
            false
        } else {
            true
        }
    });
    assert_eq!(conv.seen, 5);
    assert_eq!(conv.skipped, 2);
    assert_eq!(conv.failed, 1);
    assert_eq!(conv.written, 2);
    assert_eq!(conv.written, conv.seen - conv.skipped - conv.failed);
    assert_eq!(failures, 1);
}

#[test]
fn zero_valid_points_emit_no_station() {
    let points = vec![
        point_at(1.0, 1.0, 1.0, false),
        point_at(2.0, 2.0, 2.0, false),
    ];
    let (conv, station) = run_scan(&points, &mut |_| true);
    assert!(!conv.emits_station());
    assert!(station.is_none());
}

#[test]
fn empty_scan_emits_no_station() {
    let (conv, station) = run_scan(&[], &mut |_| true);
    assert!(!conv.emits_station());
    assert!(station.is_none());
}

#[test]
fn centroid_is_mean_of_written_points() {
    let points = vec![
        point_at(0.0, 0.0, 0.0, true),
        point_at(2.0, 0.0, 0.0, true),
        point_at(4.0, 0.0, 0.0, true),
    ];
    let (conv, station) = run_scan(&points, &mut |_| true);
    assert_eq!(conv.written, 3);
    assert_eq!(station, Some((2.0, 0.0, 0.0)));
}

#[test]
fn write_failures_do_not_enter_the_centroid() {
    let points = vec![
        point_at(0.0, 0.0, 0.0, true),
        point_at(100.0, 100.0, 100.0, true),
        point_at(4.0, 0.0, 0.0, true),
    ];
    let (conv, station) = run_scan(&points, &mut |i| i != 1);
    assert_eq!(conv.written, 2);
    assert_eq!(conv.failed, 1);
    assert_eq!(station, Some((2.0, 0.0, 0.0)));
}

#[test]
fn unparsable_identifier_abandons_only_that_scan() {
    // sibling scans of one run: one bad identifier, one good
    let bad = scan_header(&b"###not-a-uuid###".to_vec());
    assert!(bad.is_none());

    let good = scan_header(&b"6ba7b810_9dad_11d1_80b4_00c04fd430c8".to_vec());
    assert!(good.is_some());
    let points = vec![point_at(1.0, 2.0, 3.0, true)];
    let (_, station) = run_scan(&points, &mut |_| true);
    assert_eq!(station, Some((1.0, 2.0, 3.0)));
}

#[test]
fn two_scans_end_to_end() {
    // scan A: three valid points on the x axis
    let scan_a = vec![
        point_at(0.0, 0.0, 0.0, true),
        point_at(2.0, 0.0, 0.0, true),
        point_at(4.0, 0.0, 0.0, true),
    ];
    // scan B: every point flagged invalid
    let scan_b = vec![
        point_at(9.0, 9.0, 9.0, false),
        point_at(8.0, 8.0, 8.0, false),
    ];
    let mut stations: Vec<StationText> = Vec::new();
    for scan in [&scan_a, &scan_b] {
        let (_, station) = run_scan(scan, &mut |_| true);
        if let Some(s) = station {
            stations.push(station_text(s));
        }
    }
    assert_eq!(stations.len(), 1);

    let doc = stations_json(&stations);
    let text = String::from_utf8(doc).unwrap();
    assert_eq!(text, "[{\"x\":2.0,\"y\":0.0,\"z\":0.0}]");

    let parsed: serde_json::Value = serde_json::from_str(&text).unwrap();
    let array = parsed.as_array().expect("an array");
    assert_eq!(array.len(), 1);
    assert_eq!(array[0]["x"].as_f64(), Some(2.0));
    assert_eq!(array[0]["y"].as_f64(), Some(0.0));
    assert_eq!(array[0]["z"].as_f64(), Some(0.0));
}
