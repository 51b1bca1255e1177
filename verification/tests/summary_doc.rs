use e57_to_las::summary::check_number_token;
use e57_to_las::summary::check_token;
use e57_to_las::summary::checked_stations_json;
use e57_to_las::summary::stations_json;
use e57_to_las::summary::StationText;

fn station(x: f64, y: f64, z: f64) -> StationText {
    StationText {
        x: serde_json::to_string(&x).unwrap().into_bytes(),
        y: serde_json::to_string(&y).unwrap().into_bytes(),
        z: serde_json::to_string(&z).unwrap().into_bytes(),
    }
}

#[test]
fn empty_summary_is_an_empty_array() {
    let doc = stations_json(&Vec::new());
    assert_eq!(doc, b"[]".to_vec());
}

#[test]
fn summary_layout_is_exact() {
    let stations = vec![station(1.5, -2.0, 0.25), station(0.0, 3.0, -0.5)];
    let doc = String::from_utf8(stations_json(&stations)).unwrap();
    assert_eq!(
        doc,
        "[{\"x\":1.5,\"y\":-2.0,\"z\":0.25},{\"x\":0.0,\"y\":3.0,\"z\":-0.5}]"
    );
}

#[test]
fn summary_is_valid_json_with_exactly_three_keys() {
    let stations = vec![station(1.0, 2.0, 3.0), station(-4.0, 5.5, 6.25), station(0.0, 0.0, 0.0)];
    let doc = stations_json(&stations);
    let parsed: serde_json::Value = serde_json::from_slice(&doc).unwrap();
    let array = parsed.as_array().expect("an array");
    assert_eq!(array.len(), 3);
    for element in array {
        let object = element.as_object().expect("an object");
        assert_eq!(object.len(), 3);
        assert!(object.contains_key("x"));
        assert!(object.contains_key("y"));
        assert!(object.contains_key("z"));
    }
    assert_eq!(array[1]["x"].as_f64(), Some(-4.0));
}

#[test]
fn number_tokens_accepted() {
    for good in ["0", "2.0", "-1.25", "10", "-0.0", "1e3", "2.5E-7", "123.456e+2"] {
        assert!(check_number_token(&good.as_bytes().to_vec()), "{}", good);
    }
    for v in [0.0f64, -12.75, 1.0e300, 3.3e-160, f64::MAX, f64::MIN_POSITIVE] {
        let token = serde_json::to_string(&v).unwrap().into_bytes();
        assert!(check_number_token(&token), "{:?}", v);
    }
}

#[test]
fn number_tokens_rejected() {
    for bad in ["", "-", "01", "1.", ".5", "1e", "1e+", "+1", "nan", "1.2.3", "2,0", "null"] {
        assert!(!check_number_token(&bad.as_bytes().to_vec()), "{}", bad);
    }
    assert!(check_token(&b"null".to_vec()));
    assert!(!check_token(&b"nul".to_vec()));
    let token = serde_json::to_string(&f64::NAN).unwrap().into_bytes();
    assert!(check_token(&token));
}

#[test]
fn checked_summary_accepts_good_tokens_and_refuses_bad_ones() {
    let good = vec![station(1.0, 2.0, 3.0)];
    assert_eq!(
        checked_stations_json(&good).as_deref(),
        Some(b"[{\"x\":1.0,\"y\":2.0,\"z\":3.0}]".as_slice())
    );
    let bad = vec![StationText {
        x: b"1.0".to_vec(),
        y: b"oops".to_vec(),
        z: b"3.0".to_vec(),
    }];
    assert!(checked_stations_json(&bad).is_none());
}

fn reference_object(x: f64, y: f64, z: f64) -> serde_json::Value {
    let mut object = serde_json::Map::new();
    object.insert(String::from("x"), serde_json::Value::from(x));
    object.insert(String::from("y"), serde_json::Value::from(y));
    object.insert(String::from("z"), serde_json::Value::from(z));
    serde_json::Value::Object(object)
}

#[test]
fn summary_matches_reference_serializer() {
    // the document equals what the reference serializer emits for the
    // same array of three-key objects
    let reference = serde_json::to_string(&serde_json::Value::Array(vec![
        reference_object(2.0, 0.0, 0.0),
        reference_object(-1.25, 7.0, 3.5),
    ]))
    .unwrap();
    let stations = vec![station(2.0, 0.0, 0.0), station(-1.25, 7.0, 3.5)];
    let doc = String::from_utf8(stations_json(&stations)).unwrap();
    assert_eq!(doc, reference);
}
