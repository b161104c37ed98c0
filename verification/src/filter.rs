//! The relevance filter: which pilots of a snapshot belong to an event.
//!
//! A pilot belongs to the event if the flight plan names one of the event's
//! airports as departure or arrival, or if the pilot is within range of one of
//! them. The great-circle distances are measured by the caller, who hands in
//! for each pilot one row of distances, one to each airport, in whole metres
//! rounded down. The range is a whole number of metres, so a distance is
//! under the range exactly when its whole metres are: rounding down loses
//! nothing (`lemma_whole_metres_decide`).

use crate::airport::Airport;
use crate::pilot::{FlightPlan, PilotData};
use vstd::prelude::*;

verus! {

/// Metres in one nautical mile.
pub const NM_TO_METERS: u64 = 1852;

/// The range within which pilots are captured, in nautical miles.
pub const CAPTURE_RANGE_NM: u16 = 600;

/// The flight plan names one of the airports as departure or arrival.
pub open spec fn plan_names(plan: FlightPlan, airports: Seq<&Airport>) -> bool {
    exists|j: int|
        0 <= j < airports.len() && ((#[trigger] airports[j]).icao_id@ == plan.departure@
            || airports[j].icao_id@ == plan.arrival@)
}

/// One of the distances, in metres, is under `distance_nm` nautical miles.
pub open spec fn within_range(distances: Seq<u64>, distance_nm: u16) -> bool {
    exists|j: int| 0 <= j < distances.len() && #[trigger] distances[j] < distance_nm * NM_TO_METERS
}

/// A pilot with these distances to the airports belongs to the event.
pub open spec fn relevant(
    pilot: PilotData,
    airports: Seq<&Airport>,
    distances: Seq<u64>,
    distance_nm: u16,
) -> bool {
    (pilot.flight_plan is Some && plan_names(pilot.flight_plan.unwrap(), airports))
        || within_range(distances, distance_nm)
}

/// The row of distances of pilot `i`. A pilot without a row has no distance
/// measured, and is judged by the flight plan alone.
pub open spec fn row(distances: Seq<Vec<u64>>, i: int) -> Seq<u64> {
    if 0 <= i < distances.len() {
        distances[i]@
    } else {
        Seq::empty()
    }
}

/// The indices of the pilots among the first `n` that belong to the event, in
/// rising order.
pub open spec fn relevant_indices(
    pilots: Seq<PilotData>,
    airports: Seq<&Airport>,
    distances: Seq<Vec<u64>>,
    distance_nm: u16,
    n: int,
) -> Seq<int>
    decreases n,
{
    if n <= 0 {
        Seq::empty()
    } else {
        let before = relevant_indices(pilots, airports, distances, distance_nm, n - 1);
        if relevant(pilots[n - 1], airports, row(distances, n - 1), distance_nm) {
            before.push(n - 1)
        } else {
            before
        }
    }
}

/// The pilots among the first `n` that belong to the event, in their order.
pub open spec fn relevant_pilots(
    pilots: Seq<PilotData>,
    airports: Seq<&Airport>,
    distances: Seq<Vec<u64>>,
    distance_nm: u16,
    n: int,
) -> Seq<PilotData>
    decreases n,
{
    if n <= 0 {
        Seq::empty()
    } else {
        let before = relevant_pilots(pilots, airports, distances, distance_nm, n - 1);
        if relevant(pilots[n - 1], airports, row(distances, n - 1), distance_nm) {
            before.push(pilots[n - 1])
        } else {
            before
        }
    }
}

/// The filter keeps the pilots in their order and keeps exactly those that
/// belong to the event: the kept pilots are the pilots at `relevant_indices`,
/// these indices rise, and an index is among them if and only if its pilot
/// belongs to the event.
pub proof fn lemma_filter_keeps_order(
    pilots: Seq<PilotData>,
    airports: Seq<&Airport>,
    distances: Seq<Vec<u64>>,
    distance_nm: u16,
    n: int,
)
    requires
        0 <= n <= pilots.len(),
    ensures
        ({
            let kept = relevant_pilots(pilots, airports, distances, distance_nm, n);
            let indices = relevant_indices(pilots, airports, distances, distance_nm, n);
            &&& kept.len() == indices.len()
            &&& forall|k: int|
                0 <= k < indices.len() ==> 0 <= #[trigger] indices[k] < n && kept[k]
                    == pilots[indices[k]]
            &&& forall|k: int, l: int|
                0 <= k < l < indices.len() ==> #[trigger] indices[k] < #[trigger] indices[l]
            &&& forall|i: int|
                0 <= i < n ==> (indices.contains(i) <==> #[trigger] relevant(
                    pilots[i],
                    airports,
                    row(distances, i),
                    distance_nm,
                ))
        }),
    decreases n,
{
    if n > 0 {
        lemma_filter_keeps_order(pilots, airports, distances, distance_nm, n - 1);
        let before = relevant_indices(pilots, airports, distances, distance_nm, n - 1);
        let indices = relevant_indices(pilots, airports, distances, distance_nm, n);
        assert forall|i: int| 0 <= i < n implies (indices.contains(i) <==> #[trigger] relevant(
            pilots[i],
            airports,
            row(distances, i),
            distance_nm,
        )) by {
            if i < n - 1 {
                if before.contains(i) {
                    let k = choose|k: int| 0 <= k < before.len() && before[k] == i;
                    assert(indices[k] == i);
                }
                if indices.contains(i) {
                    let k = choose|k: int| 0 <= k < indices.len() && indices[k] == i;
                    assert(before[k] == i);
                }
            } else if relevant(pilots[i], airports, row(distances, i), distance_nm) {
                assert(indices[before.len() as int] == i);
            } else {
                if indices.contains(i) {
                    let k = choose|k: int| 0 <= k < indices.len() && indices[k] == i;
                    assert(before[k] < n - 1);
                }
            }
        }
    }
}

/// A pilot whose flight plan names one of the airports is kept, whatever the
/// distances are.
pub proof fn lemma_named_in_plan_is_kept(
    pilots: Seq<PilotData>,
    airports: Seq<&Airport>,
    distances: Seq<Vec<u64>>,
    distance_nm: u16,
    i: int,
)
    requires
        0 <= i < pilots.len(),
        pilots[i].flight_plan is Some,
        plan_names(pilots[i].flight_plan.unwrap(), airports),
    ensures
        relevant_indices(pilots, airports, distances, distance_nm, pilots.len() as int).contains(
            i,
        ),
        relevant_pilots(pilots, airports, distances, distance_nm, pilots.len() as int).contains(
            pilots[i],
        ),
{
    let n = pilots.len() as int;
    lemma_filter_keeps_order(pilots, airports, distances, distance_nm, n);
    assert(relevant(pilots[i], airports, row(distances, i), distance_nm));
    let indices = relevant_indices(pilots, airports, distances, distance_nm, n);
    let k = choose|k: int| 0 <= k < indices.len() && indices[k] == i;
    assert(relevant_pilots(pilots, airports, distances, distance_nm, n)[k] == pilots[i]);
}

/// A pilot without a flight plan is kept if and only if one of the airports
/// is nearer than the range: that is, if the nearest is.
pub proof fn lemma_without_plan_kept_iff_near(
    pilots: Seq<PilotData>,
    airports: Seq<&Airport>,
    distances: Seq<Vec<u64>>,
    distance_nm: u16,
    i: int,
)
    requires
        0 <= i < pilots.len(),
        pilots[i].flight_plan is None,
    ensures
        relevant_indices(pilots, airports, distances, distance_nm, pilots.len() as int).contains(
            i,
        ) <==> exists|j: int|
            0 <= j < row(distances, i).len() && #[trigger] row(distances, i)[j] < distance_nm
                * 1852,
{
    lemma_filter_keeps_order(pilots, airports, distances, distance_nm, pilots.len() as int);
    assert(relevant(pilots[i], airports, row(distances, i), distance_nm) <==> within_range(
        row(distances, i),
        distance_nm,
    ));
}

/// Rounding a distance down to whole metres does not change on which side of
/// a range it lies: a distance of `p / q` metres is under `limit` metres
/// exactly when its whole metres are.
pub proof fn lemma_whole_metres_decide(p: nat, q: nat, limit: nat)
    requires
        q > 0,
    ensures
        p < limit * q <==> p / q < limit,
{
    vstd::arithmetic::div_mod::lemma_fundamental_div_mod(p as int, q as int);
    vstd::arithmetic::div_mod::lemma_mod_bound(p as int, q as int);
    let whole = (p / q) as int;
    assert(p == q * whole + p % q);
    if whole < limit {
        assert(q * whole + q <= q * limit) by (nonlinear_arith)
            requires
                whole + 1 <= limit,
                q > 0,
        ;
        assert(q * limit == limit * q) by (nonlinear_arith);
    } else {
        assert(q * whole >= q * limit) by (nonlinear_arith)
            requires
                whole >= limit,
                q > 0,
        ;
        assert(q * limit == limit * q) by (nonlinear_arith);
    }
}

/// Whether the flight plan names one of the airports as departure or arrival.
pub fn names_airport(plan: &FlightPlan, airports: &[&Airport]) -> (named: bool)
    ensures
        named == plan_names(*plan, airports@),
{
    let mut j: usize = 0;
    while j < airports.len()
        invariant
            j <= airports@.len(),
            forall|k: int|
                0 <= k < j ==> (#[trigger] airports@[k]).icao_id@ != plan.departure@
                    && airports@[k].icao_id@ != plan.arrival@,
        decreases airports@.len() - j,
    {
        if airports[j].icao_id == plan.departure || airports[j].icao_id == plan.arrival {
            return true;
        }
        j += 1;
    }
    false
}

/// Whether one of the distances, in metres, is under `distance_nm` nautical
/// miles.
pub fn in_range(distances: &[u64], distance_nm: u16) -> (near: bool)
    ensures
        near == within_range(distances@, distance_nm),
{
    let limit: u64 = distance_nm as u64 * NM_TO_METERS;
    let mut j: usize = 0;
    while j < distances.len()
        invariant
            j <= distances@.len(),
            limit == distance_nm * NM_TO_METERS,
            forall|k: int| 0 <= k < j ==> #[trigger] distances@[k] >= limit,
        decreases distances@.len() - j,
    {
        if distances[j] < limit {
            return true;
        }
        j += 1;
    }
    false
}

/// Whether a pilot with these distances to the airports belongs to the event.
pub fn is_relevant(
    pilot: &PilotData,
    airports: &[&Airport],
    distances: &[u64],
    distance_nm: u16,
) -> (keep: bool)
    ensures
        keep == relevant(*pilot, airports@, distances@, distance_nm),
{
    let named = match &pilot.flight_plan {
        Some(plan) => names_airport(plan, airports),
        None => false,
    };
    named || in_range(distances, distance_nm)
}

/// Keeps the pilots that belong to the event, in their order.
///
/// `distances[i]` holds the distances in whole metres from pilot `i` to the
/// airports.
pub fn filter_pilots_by_distance_and_field(
    pilots: Vec<PilotData>,
    icao_airports: &[&Airport],
    distances: &[Vec<u64>],
    distance_nm: u16,
) -> (kept: Vec<PilotData>)
    ensures
        kept@ == relevant_pilots(
            pilots@,
            icao_airports@,
            distances@,
            distance_nm,
            pilots@.len() as int,
        ),
{
    let mut kept: Vec<PilotData> = Vec::new();
    let total = pilots.len();
    let mut i: usize = 0;
    for pilot in it: pilots
        invariant
            it.seq() == pilots@,
            total == pilots@.len(),
            i == it.index(),
            kept@ == relevant_pilots(pilots@, icao_airports@, distances@, distance_nm, i as int),
    {
        let keep = if i < distances.len() {
            is_relevant(&pilot, icao_airports, distances[i].as_slice(), distance_nm)
        } else {
            let none: Vec<u64> = Vec::new();
            is_relevant(&pilot, icao_airports, none.as_slice(), distance_nm)
        };
        if keep {
            kept.push(pilot);
        }
        i += 1;
    }
    kept
}

} // verus!
