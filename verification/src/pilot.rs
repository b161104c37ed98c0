//! The pilots that a feed snapshot reports.

use crate::position::Degrees;
use vstd::prelude::*;

verus! {

/// One connected pilot as a snapshot reports it.
#[derive(Clone, Debug, PartialEq, Eq)]
pub struct PilotData {
    pub cid: u64,
    pub name: String,
    pub callsign: String,
    pub latitude: Degrees,
    pub longitude: Degrees,
    pub altitude: i64,
    pub groundspeed: i64,
    pub transponder: String,
    pub heading: i64,
    pub flight_plan: Option<FlightPlan>,
    pub logon_time: String,
    pub last_updated: String,
}

/// The flight plan that a pilot has filed.
#[derive(Clone, Debug, PartialEq, Eq)]
pub struct FlightPlan {
    pub flight_rules: String,
    pub aircraft: String,
    pub aircraft_faa: String,
    pub aircraft_short: String,
    pub departure: String,
    pub arrival: String,
    pub alternate: String,
    pub altitude: String,
    pub route: String,
    pub revision_id: i64,
}

/// One response of the feed: its version key, the time it was generated as
/// the feed writes it, and the pilots connected at that time.
#[derive(Clone, Debug, PartialEq, Eq)]
pub struct Snapshot {
    pub update: String,
    pub update_timestamp: String,
    pub pilots: Vec<PilotData>,
}

} // verus!
