//! Airports: the reference locations that define an event's scope.

use crate::keyed::TextMap;
use crate::position::{Degrees, Position};
use vstd::prelude::*;

verus! {

/// One row of the airport table.
#[derive(Clone, Debug, PartialEq, Eq)]
pub struct AirportRecord {
    pub faa_id: String,
    pub icao_id: String,
    pub latitude: Degrees,
    pub longitude: Degrees,
}

/// An airport with its position.
#[derive(Clone, Debug, PartialEq, Eq)]
pub struct Airport {
    pub faa_id: String,
    pub icao_id: String,
    pub point: Position,
}

/// The airport that a row of the table describes.
pub open spec fn airport_of(record: AirportRecord) -> Airport {
    Airport {
        faa_id: record.faa_id,
        icao_id: record.icao_id,
        point: Position { longitude: record.longitude, latitude: record.latitude },
    }
}

impl From<AirportRecord> for Airport {
    fn from(record: AirportRecord) -> (airport: Airport) {
        Airport {
            faa_id: record.faa_id,
            icao_id: record.icao_id,
            point: Position::new(record.longitude, record.latitude),
        }
    }
}

impl vstd::std_specs::convert::FromSpecImpl<AirportRecord> for Airport {
    open spec fn obeys_from_spec() -> bool {
        true
    }

    open spec fn from_spec(record: AirportRecord) -> Airport {
        airport_of(record)
    }
}

/// The airports of a table by ICAO identifier. Rows without an ICAO
/// identifier are left out; of two rows with the same identifier the later
/// one counts.
pub open spec fn airports_by_icao(records: Seq<AirportRecord>) -> Map<Seq<char>, Airport>
    decreases records.len(),
{
    if records.len() == 0 {
        Map::empty()
    } else {
        let before = airports_by_icao(records.drop_last());
        let record = records.last();
        if record.icao_id@.len() == 0 {
            before
        } else {
            before.insert(record.icao_id@, airport_of(record))
        }
    }
}

/// Indexes the rows of the airport table by ICAO identifier.
pub fn index_airports(records: Vec<AirportRecord>) -> (airports: TextMap<Airport>)
    ensures
        airports@ == airports_by_icao(records@),
{
    let mut airports: TextMap<Airport> = TextMap::new();
    proof {
        assert(records@.take(0) =~= Seq::empty());
    }
    for record in it: records
        invariant
            it.seq() == records@,
            airports@ == airports_by_icao(records@.take(it.index())),
    {
        proof {
            let next = records@.take(it.index() + 1);
            assert(next.drop_last() =~= records@.take(it.index()));
            assert(next.last() == record);
        }
        if !record.icao_id.as_str().is_empty() {
            let icao_id = record.icao_id.clone();
            airports.insert(icao_id, Airport::from(record));
        }
    }
    proof {
        assert(records@.take(records@.len() as int) =~= records@);
    }
    airports
}

/// Why an event cannot be captured as configured.
#[derive(Clone, Debug, PartialEq, Eq)]
pub enum ConfigError {
    /// The event names an airport that the airport table does not hold.
    UnknownAirport { icao_id: String },
}

impl ConfigError {
    /// The error in words.
    pub fn message(&self) -> (text: String)
        ensures
            match *self {
                ConfigError::UnknownAirport { icao_id } => text@ == "invalid airport ICAO id "@
                    + icao_id@ + ", not found in FAA data"@,
            },
    {
        match self {
            ConfigError::UnknownAirport { icao_id } => {
                let mut text = "invalid airport ICAO id ".to_owned();
                text.append(icao_id.as_str());
                text.append(", not found in FAA data");
                text
            },
        }
    }
}

/// The airports that an event names, in the order in which it names them.
///
/// Fails on the first identifier that `all` does not hold: an event is only
/// captured when every airport of its scope is known.
pub fn resolve_airports<'a>(all: &'a TextMap<Airport>, icao_ids: &[String]) -> (resolved: Result<
    Vec<&'a Airport>,
    ConfigError,
>)
    ensures
        match resolved {
            Ok(airports) => {
                &&& airports@.len() == icao_ids@.len()
                &&& forall|i: int|
                    0 <= i < icao_ids@.len() ==> all@.contains_key(#[trigger] icao_ids@[i]@)
                        && *airports@[i] == all@[icao_ids@[i]@]
            },
            Err(ConfigError::UnknownAirport { icao_id }) => exists|missing: int|
                {
                    &&& 0 <= missing < icao_ids@.len()
                    &&& icao_id@ == icao_ids@[missing]@
                    &&& !all@.contains_key(#[trigger] icao_ids@[missing]@)
                    &&& forall|i: int|
                        0 <= i < missing ==> all@.contains_key(#[trigger] icao_ids@[i]@)
                },
        },
{
    match all.lookup_all(icao_ids) {
        Ok(airports) => Ok(airports),
        Err(missing) => Err(ConfigError::UnknownAirport { icao_id: icao_ids[missing].clone() }),
    }
}

} // verus!
