use traffic_replay::capture::CaptureFile;
use traffic_replay::combine::{combine_captures, to_feature, to_features, EventCapture};
use traffic_replay::event::EventConfig;
use traffic_replay::pilot::PilotData;
use traffic_replay::position::{Degrees, Position};
use traffic_replay::time::Instant;

fn degrees(value: f64) -> Degrees {
    Degrees::from_bits(value.to_bits())
}

fn pilot(cid: u64, longitude: f64, latitude: f64) -> PilotData {
    PilotData {
        cid,
        name: format!("Pilot {cid}"),
        callsign: format!("TST{cid}"),
        latitude: degrees(latitude),
        longitude: degrees(longitude),
        altitude: 35_000,
        groundspeed: 450,
        transponder: "2000".to_owned(),
        heading: 270,
        flight_plan: None,
        logon_time: "2024-05-04T17:00:00Z".to_owned(),
        last_updated: "2024-05-04T18:00:00Z".to_owned(),
    }
}

fn file(file_name: &str, pilots: Vec<PilotData>) -> CaptureFile {
    CaptureFile { file_name: file_name.to_owned(), pilots }
}

#[test]
fn feature_lies_exactly_where_the_pilot_is() {
    let p = pilot(1_234_567, -122.374_999_999_999_99, 37.618_999_999_999_996);
    let feature = to_feature(p.clone());
    assert_eq!(feature.id, 1_234_567);
    assert_eq!(f64::from_bits(feature.geometry.longitude.bits), -122.374_999_999_999_99);
    assert_eq!(f64::from_bits(feature.geometry.latitude.bits), 37.618_999_999_999_996);
    assert_eq!(feature.geometry, Position { longitude: p.longitude, latitude: p.latitude });
    assert_eq!(feature.data, p);
}

#[test]
fn features_follow_the_order_of_the_pilots() {
    let pilots = vec![pilot(3, 1.0, 2.0), pilot(1, 3.0, 4.0), pilot(2, 5.0, 6.0)];
    let collection = to_features(pilots.clone());
    assert_eq!(collection.features.len(), 3);
    for (feature, p) in collection.features.iter().zip(pilots.iter()) {
        assert_eq!(feature.id, p.cid);
        assert_eq!(feature.geometry.longitude, p.longitude);
        assert_eq!(feature.geometry.latitude, p.latitude);
        assert_eq!(&feature.data, p);
    }
}

#[test]
fn captures_are_merged_by_version_key() {
    let merged = combine_captures(vec![
        file("2.json", vec![pilot(1, 1.0, 1.0)]),
        file("10.json", vec![pilot(2, 2.0, 2.0), pilot(3, 3.0, 3.0)]),
    ]);
    assert_eq!(merged.first_timestamp_key, Some("10".to_owned()));
    assert_eq!(merged.last_timestamp_key, Some("2".to_owned()));
    assert_eq!(merged.captures.len(), 2);
    let two = merged.captures.get("2").expect("the snapshot 2 was captured");
    assert_eq!(two.features.len(), 1);
    assert_eq!(two.features[0].id, 1);
    let ten = merged.captures.get("10").expect("the snapshot 10 was captured");
    assert_eq!(ten.features.len(), 2);
    assert_eq!(ten.features[0].id, 2);
    assert_eq!(ten.features[1].id, 3);
    assert!(merged.captures.get("2.json").is_none());
}

#[test]
fn no_captures_merge_to_nothing() {
    let merged = combine_captures(vec![]);
    assert_eq!(merged.first_timestamp_key, None);
    assert_eq!(merged.last_timestamp_key, None);
    assert_eq!(merged.captures.len(), 0);
}

#[test]
fn empty_snapshot_is_captured_as_empty_collection() {
    let merged = combine_captures(vec![file("k.json", vec![])]);
    assert_eq!(merged.first_timestamp_key, Some("k".to_owned()));
    assert_eq!(merged.last_timestamp_key, Some("k".to_owned()));
    assert!(merged.captures.get("k").expect("the snapshot was captured").features.is_empty());
}

#[test]
fn later_file_with_the_same_key_counts() {
    let merged = combine_captures(vec![
        file("k.json", vec![pilot(1, 1.0, 1.0)]),
        file("j.json", vec![pilot(5, 5.0, 5.0)]),
        file("k.txt", vec![pilot(2, 2.0, 2.0), pilot(3, 3.0, 3.0)]),
    ]);
    assert_eq!(merged.captures.len(), 2);
    let k = merged.captures.get("k").expect("the snapshot was captured");
    assert_eq!(k.features.iter().map(|f| f.id).collect::<Vec<u64>>(), vec![2, 3]);
    assert_eq!(merged.first_timestamp_key, Some("j".to_owned()));
    assert_eq!(merged.last_timestamp_key, Some("k".to_owned()));
}

#[test]
fn aggregate_is_assembled_from_its_parts() {
    let config = EventConfig {
        name: "Test".to_owned(),
        artccs: vec!["ZOA".to_owned()],
        airports: vec!["KSFO".to_owned()],
        advertised_start_time: Instant { secs: 1_714_845_600, nanos: 0 },
        advertised_end_time: Instant { secs: 1_714_860_000, nanos: 0 },
    };
    let merged = combine_captures(vec![
        file("b.json", vec![pilot(1, 1.0, 1.0)]),
        file("a.json", vec![]),
    ]);
    let center = Position::new(degrees(-122.375), degrees(37.619));
    let capture = EventCapture::assemble(config.clone(), merged, 4711, center);
    assert_eq!(capture.config, config);
    assert_eq!(capture.first_timestamp_key, Some("a".to_owned()));
    assert_eq!(capture.last_timestamp_key, Some("b".to_owned()));
    assert_eq!(capture.captures_length_bytes, 4711);
    assert_eq!(capture.viewport_center, center);
    assert_eq!(capture.captures.len(), 2);
    assert_eq!(capture.captures.get("b").expect("captured").features[0].id, 1);
}

#[test]
fn coordinates_survive_being_written_as_json() {
    let values = [-122.375, 37.619, 0.0, -0.0, 1e-7, 179.999_999_999_999_97, -89.123_456_789_012_34,
        0.1 + 0.2, f64::MIN_POSITIVE, 33.942_501_068_115_234];
    for value in values {
        let p = pilot(1, value, -value);
        let feature = to_feature(p);
        let longitude = f64::from_bits(feature.geometry.longitude.bits);
        let latitude = f64::from_bits(feature.geometry.latitude.bits);
        let text = serde_json::to_string(&vec![longitude, latitude]).expect("numbers serialise");
        let read: Vec<f64> = serde_json::from_str(&text).expect("numbers parse");
        assert_eq!(read[0].to_bits(), value.to_bits(), "{text}");
        assert_eq!(read[1].to_bits(), (-value).to_bits(), "{text}");
    }
}
