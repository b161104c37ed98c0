use traffic_replay::airport::Airport;
use traffic_replay::consumer::process_datafeed;
use traffic_replay::filter::{
    filter_pilots_by_distance_and_field, in_range, is_relevant, names_airport, CAPTURE_RANGE_NM,
    NM_TO_METERS,
};
use traffic_replay::pilot::{FlightPlan, PilotData, Snapshot};
use traffic_replay::position::{Degrees, Position};

fn degrees(value: f64) -> Degrees {
    Degrees::from_bits(value.to_bits())
}

fn pilot(cid: u64, longitude: f64, latitude: f64, flight_plan: Option<FlightPlan>) -> PilotData {
    PilotData {
        cid,
        name: format!("Pilot {cid}"),
        callsign: format!("TST{cid}"),
        latitude: degrees(latitude),
        longitude: degrees(longitude),
        altitude: 0,
        groundspeed: 0,
        transponder: "2000".to_owned(),
        heading: 0,
        flight_plan,
        logon_time: "2024-05-04T17:00:00Z".to_owned(),
        last_updated: "2024-05-04T18:00:00Z".to_owned(),
    }
}

fn plan(departure: &str, arrival: &str) -> FlightPlan {
    FlightPlan {
        flight_rules: "I".to_owned(),
        aircraft: "B738/M".to_owned(),
        aircraft_faa: "B738/L".to_owned(),
        aircraft_short: "B738".to_owned(),
        departure: departure.to_owned(),
        arrival: arrival.to_owned(),
        alternate: String::new(),
        altitude: "35000".to_owned(),
        route: "DCT".to_owned(),
        revision_id: 1,
    }
}

fn airport(faa_id: &str, icao_id: &str, longitude: f64, latitude: f64) -> Airport {
    Airport {
        faa_id: faa_id.to_owned(),
        icao_id: icao_id.to_owned(),
        point: Position::new(degrees(longitude), degrees(latitude)),
    }
}

#[test]
fn filter_keeps_near_and_planned_pilots() {
    let ksfo = airport("SFO", "KSFO", -122.375, 37.619);
    let a = pilot(1, -122.375, 37.619, None);
    let b = pilot(2, 0.0, 0.0, None);
    let c = pilot(3, 10.0, 10.0, Some(plan("KSFO", "KLAX")));
    // Whole metres from each pilot to KSFO.
    let distances = vec![vec![0u64], vec![12_700_000u64], vec![11_600_000u64]];
    let kept = filter_pilots_by_distance_and_field(
        vec![a.clone(), b, c.clone()],
        &[&ksfo],
        &distances,
        5,
    );
    assert_eq!(kept, vec![a, c]);
}

#[test]
fn filter_keeps_the_order_of_the_pilots() {
    let ksfo = airport("SFO", "KSFO", -122.375, 37.619);
    let pilots: Vec<PilotData> = (0..6).map(|cid| pilot(cid, 0.0, 0.0, None)).collect();
    let far = 99_999_999u64;
    let distances = vec![vec![10u64], vec![far], vec![20], vec![far], vec![30], vec![5]];
    let kept = filter_pilots_by_distance_and_field(pilots, &[&ksfo], &distances, 5);
    let cids: Vec<u64> = kept.iter().map(|p| p.cid).collect();
    assert_eq!(cids, vec![0, 2, 4, 5]);
}

#[test]
fn filter_of_nothing_is_nothing() {
    let ksfo = airport("SFO", "KSFO", -122.375, 37.619);
    let kept = filter_pilots_by_distance_and_field(vec![], &[&ksfo], &[], 600);
    assert!(kept.is_empty());
}

#[test]
fn filter_without_airports_drops_everyone() {
    let a = pilot(1, 0.0, 0.0, Some(plan("KSFO", "KLAX")));
    let b = pilot(2, 0.0, 0.0, None);
    let kept = filter_pilots_by_distance_and_field(vec![a, b], &[], &[vec![], vec![]], 600);
    assert!(kept.is_empty());
}

#[test]
fn planned_pilot_is_kept_at_any_distance() {
    let ksfo = airport("SFO", "KSFO", -122.375, 37.619);
    let klax = airport("LAX", "KLAX", -118.408, 33.942);
    let departing = pilot(1, 100.0, -40.0, Some(plan("KLAX", "EGLL")));
    let arriving = pilot(2, 100.0, -40.0, Some(plan("EGLL", "KSFO")));
    let elsewhere = pilot(3, 100.0, -40.0, Some(plan("EGLL", "EDDF")));
    let far = vec![u64::MAX, u64::MAX];
    assert!(is_relevant(&departing, &[&ksfo, &klax], &far, 600));
    assert!(is_relevant(&arriving, &[&ksfo, &klax], &far, 600));
    assert!(!is_relevant(&elsewhere, &[&ksfo, &klax], &far, 600));
    assert!(names_airport(&plan("KLAX", "EGLL"), &[&ksfo, &klax]));
    assert!(!names_airport(&plan("klax", "EGLL"), &[&ksfo, &klax]));
}

#[test]
fn pilot_without_plan_is_kept_only_under_the_range() {
    let ksfo = airport("SFO", "KSFO", -122.375, 37.619);
    let klax = airport("LAX", "KLAX", -118.408, 33.942);
    let nobody = pilot(1, 0.0, 0.0, None);
    // Five nautical miles are 9260 metres.
    assert!(is_relevant(&nobody, &[&ksfo, &klax], &[9_259, 500_000], 5));
    assert!(is_relevant(&nobody, &[&ksfo, &klax], &[500_000, 9_259], 5));
    assert!(!is_relevant(&nobody, &[&ksfo, &klax], &[9_260, 500_000], 5));
    assert!(!is_relevant(&nobody, &[&ksfo, &klax], &[9_261, 9_260], 5));
    assert!(!is_relevant(&nobody, &[&ksfo, &klax], &[], 5));
}

#[test]
fn range_is_in_nautical_miles_of_1852_metres() {
    assert_eq!(NM_TO_METERS, 1852);
    assert_eq!(CAPTURE_RANGE_NM, 600);
    assert!(in_range(&[1_111_199], 600));
    assert!(!in_range(&[1_111_200], 600));
    assert!(!in_range(&[0], 0));
    assert!(in_range(&[121_370_819], u16::MAX));
    assert!(!in_range(&[121_370_820], u16::MAX));
}

#[test]
fn pilot_without_a_row_of_distances_is_judged_by_the_plan() {
    let ksfo = airport("SFO", "KSFO", -122.375, 37.619);
    let planned = pilot(1, 0.0, 0.0, Some(plan("KSFO", "KLAX")));
    let unplanned = pilot(2, 0.0, 0.0, None);
    let near = pilot(3, 0.0, 0.0, None);
    let kept = filter_pilots_by_distance_and_field(
        vec![near.clone(), planned.clone(), unplanned],
        &[&ksfo],
        &[vec![1]],
        5,
    );
    assert_eq!(kept, vec![near, planned]);
}

#[test]
fn process_datafeed_names_the_file_and_filters_at_600_miles() {
    let ksfo = airport("SFO", "KSFO", -122.375, 37.619);
    let inside = pilot(1, -120.0, 37.0, None);
    let outside = pilot(2, 0.0, 0.0, None);
    let bound = pilot(3, 0.0, 0.0, Some(plan("EGLL", "KSFO")));
    let snapshot = Snapshot {
        update: "20240504190000".to_owned(),
        update_timestamp: "2024-05-04T19:00:00.1234567Z".to_owned(),
        pilots: vec![inside.clone(), outside, bound.clone()],
    };
    let distances = vec![vec![1_111_199u64], vec![1_111_200], vec![8_000_000]];
    let write = process_datafeed(snapshot, &[&ksfo], &distances, "./2024-05-04-fno/captures");
    assert_eq!(write.path, "./2024-05-04-fno/captures/20240504190000.json");
    assert_eq!(write.pilots, vec![inside, bound]);
}
