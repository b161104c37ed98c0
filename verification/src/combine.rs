//! Consolidation: all capture files of an event merged into one aggregate.

use crate::capture::{
    capture_name, file_stem, lemma_stem_of_capture_name, version_key, CaptureFile, KeyRange,
};
use crate::event::EventConfig;
use crate::keyed::TextMap;
use crate::pilot::PilotData;
use crate::position::Position;
use vstd::prelude::*;

verus! {

/// A pilot as a geographic feature: a point geometry at the pilot's position,
/// identified by the pilot's number, with the whole pilot record as its data.
#[derive(Clone, Debug, PartialEq, Eq)]
pub struct Feature {
    pub id: u64,
    pub geometry: Position,
    pub data: PilotData,
}

/// The features of one snapshot, in the order of its pilots.
#[derive(Clone, Debug, PartialEq, Eq)]
pub struct FeatureCollection {
    pub features: Vec<Feature>,
}

/// What the capture files of an event hold together: the least and the
/// greatest version key among the files, and the features of each snapshot
/// under its version key.
#[derive(Debug)]
pub struct Consolidation {
    pub first_timestamp_key: Option<String>,
    pub last_timestamp_key: Option<String>,
    pub captures: TextMap<FeatureCollection>,
}

/// The aggregate of an event.
#[derive(Debug)]
pub struct EventCapture {
    pub config: EventConfig,
    pub first_timestamp_key: Option<String>,
    pub last_timestamp_key: Option<String>,
    pub captures: TextMap<FeatureCollection>,
    pub captures_length_bytes: usize,
    pub viewport_center: Position,
}

/// The feature that stands for a pilot.
pub open spec fn feature_of(pilot: PilotData) -> Feature {
    Feature {
        id: pilot.cid,
        geometry: Position { longitude: pilot.longitude, latitude: pilot.latitude },
        data: pilot,
    }
}

/// The features that stand for a list of pilots.
pub open spec fn features_of(pilots: Seq<PilotData>) -> Seq<Feature> {
    Seq::new(pilots.len(), |i: int| feature_of(pilots[i]))
}

/// The version keys of a list of files, in the order of the files.
pub open spec fn keys_of(files: Seq<CaptureFile>) -> Seq<Seq<char>> {
    Seq::new(files.len(), |i: int| file_stem(files[i].file_name@))
}

/// The features of each snapshot under its version key. Where two files have
/// the same version key, the later file counts.
pub open spec fn captures_of(files: Seq<CaptureFile>) -> Map<Seq<char>, Seq<Feature>>
    decreases files.len(),
{
    if files.len() == 0 {
        Map::empty()
    } else {
        captures_of(files.drop_last()).insert(
            file_stem(files.last().file_name@),
            features_of(files.last().pilots@),
        )
    }
}

/// The features that a map of collections holds under each key.
pub open spec fn features_by_key(captures: Map<Seq<char>, FeatureCollection>) -> Map<
    Seq<char>,
    Seq<Feature>,
> {
    captures.map_values(|collection: FeatureCollection| collection.features@)
}

/// `captures_of` has exactly the version keys of the files as its keys, and
/// under each key the features of the last file with that key.
pub proof fn lemma_captures_of(files: Seq<CaptureFile>)
    ensures
        forall|key: Seq<char>| #[trigger]
            captures_of(files).contains_key(key) <==> keys_of(files).contains(key),
        forall|i: int|
            0 <= i < files.len() && (forall|j: int|
                i < j < files.len() ==> keys_of(files)[j] != keys_of(files)[i])
                ==> captures_of(files)[#[trigger] keys_of(files)[i]] == features_of(
                files[i].pilots@,
            ),
    decreases files.len(),
{
    if files.len() > 0 {
        let front = files.drop_last();
        let n = front.len() as int;
        lemma_captures_of(front);
        assert forall|key: Seq<char>| #[trigger]
            captures_of(files).contains_key(key) <==> keys_of(files).contains(key) by {
            let last_key = file_stem(files.last().file_name@);
            assert(keys_of(files)[n] == last_key);
            assert(captures_of(files).contains_key(key) <==> key == last_key || captures_of(
                front,
            ).contains_key(key));
            if keys_of(files).contains(key) {
                let i = choose|i: int| 0 <= i < files.len() && keys_of(files)[i] == key;
                if i < n {
                    assert(keys_of(front)[i] == key);
                    assert(keys_of(front).contains(key));
                }
            }
            if keys_of(front).contains(key) {
                let i = choose|i: int| 0 <= i < front.len() && keys_of(front)[i] == key;
                assert(keys_of(files)[i] == key);
            }
        }
        assert forall|i: int|
            0 <= i < files.len() && (forall|j: int|
                i < j < files.len() ==> keys_of(files)[j] != keys_of(files)[i])
                implies captures_of(files)[#[trigger] keys_of(files)[i]] == features_of(
            files[i].pilots@,
        ) by {
            if i < n {
                assert(keys_of(files)[n] != keys_of(files)[i]);
                assert(keys_of(front)[i] == keys_of(files)[i]);
                assert forall|j: int| i < j < front.len() implies keys_of(front)[j] != keys_of(
                    front,
                )[i] by {
                    assert(keys_of(front)[j] == keys_of(files)[j]);
                }
            }
        }
    }
}

/// Every feature lies exactly where its pilot is, carries the pilot's number
/// as its identifier and the pilot's record as its data.
pub proof fn lemma_features_keep_positions(pilots: Seq<PilotData>)
    ensures
        features_of(pilots).len() == pilots.len(),
        forall|i: int|
            0 <= i < pilots.len() ==> {
                let feature = #[trigger] features_of(pilots)[i];
                &&& feature.geometry.longitude == pilots[i].longitude
                &&& feature.geometry.latitude == pilots[i].latitude
                &&& feature.id == pilots[i].cid
                &&& feature.data == pilots[i]
            },
{
}

/// A snapshot that was captured under its version key is found again under
/// that key when its file is merged, feature by feature where its pilots
/// were, provided the key is not empty.
pub proof fn lemma_captured_snapshot_is_found_again(
    files: Seq<CaptureFile>,
    i: int,
    key: Seq<char>,
)
    requires
        0 <= i < files.len(),
        key.len() > 0,
        files[i].file_name@ == capture_name(key),
        forall|j: int| i < j < files.len() ==> file_stem(files[j].file_name@) != key,
    ensures
        captures_of(files).contains_key(key),
        captures_of(files)[key] == features_of(files[i].pilots@),
        captures_of(files)[key].len() == files[i].pilots@.len(),
        forall|n: int|
            0 <= n < files[i].pilots@.len() ==> {
                let feature = #[trigger] captures_of(files)[key][n];
                &&& feature.geometry.longitude == files[i].pilots@[n].longitude
                &&& feature.geometry.latitude == files[i].pilots@[n].latitude
                &&& feature.id == files[i].pilots@[n].cid
                &&& feature.data == files[i].pilots@[n]
            },
{
    lemma_stem_of_capture_name(key);
    lemma_captures_of(files);
    assert(keys_of(files)[i] == key);
    assert forall|j: int| i < j < files.len() implies keys_of(files)[j] != keys_of(files)[i] by {
        assert(keys_of(files)[j] == file_stem(files[j].file_name@));
    }
    lemma_features_keep_positions(files[i].pilots@);
}

/// Turns a pilot into the feature that stands for it.
pub fn to_feature(pilot: PilotData) -> (feature: Feature)
    ensures
        feature == feature_of(pilot),
        feature.geometry.longitude == pilot.longitude,
        feature.geometry.latitude == pilot.latitude,
        feature.id == pilot.cid,
{
    Feature {
        id: pilot.cid,
        geometry: Position::new(pilot.longitude, pilot.latitude),
        data: pilot,
    }
}

/// Turns the pilots of a snapshot into a feature collection.
pub fn to_features(pilots: Vec<PilotData>) -> (collection: FeatureCollection)
    ensures
        collection.features@ == features_of(pilots@),
{
    let mut features: Vec<Feature> = Vec::new();
    for pilot in it: pilots
        invariant
            it.seq() == pilots@,
            features@ == features_of(pilots@.take(it.index())),
    {
        features.push(to_feature(pilot));
        proof {
            assert(features@ =~= features_of(pilots@.take(it.index() + 1)));
        }
    }
    proof {
        assert(pilots@.take(pilots@.len() as int) =~= pilots@);
    }
    FeatureCollection { features }
}

/// Merges the capture files of an event.
///
/// The result holds the features of every snapshot under the version key of
/// its file, and the least and the greatest version key in dictionary order.
/// Dictionary order is the order of time only where the feed writes its keys
/// at a fixed width.
pub fn combine_captures(files: Vec<CaptureFile>) -> (merged: Consolidation)
    ensures
        features_by_key(merged.captures@) == captures_of(files@),
        (KeyRange { first: merged.first_timestamp_key, last: merged.last_timestamp_key }).spans(
            keys_of(files@),
        ),
{
    let mut range = KeyRange::empty();
    let mut captures: TextMap<FeatureCollection> = TextMap::new();
    proof {
        assert(features_by_key(captures@) =~= captures_of(files@.take(0)));
        assert(keys_of(files@.take(0)) =~= Seq::empty());
    }
    for file in it: files
        invariant
            it.seq() == files@,
            features_by_key(captures@) == captures_of(files@.take(it.index())),
            range.spans(keys_of(files@.take(it.index()))),
    {
        let ghost done = files@.take(it.index());
        let ghost next = files@.take(it.index() + 1);
        let key = version_key(file.file_name.as_str());
        range.widen(key.as_str());
        let collection = to_features(file.pilots);
        let ghost before = captures@;
        captures.insert(key, collection);
        proof {
            assert(next.drop_last() =~= done);
            assert(next.last() == file);
            assert(keys_of(done).push(key@) =~= keys_of(next));
            assert(features_by_key(captures@) =~= features_by_key(before).insert(
                key@,
                collection.features@,
            ));
        }
    }
    proof {
        assert(files@.take(files@.len() as int) =~= files@);
    }
    Consolidation {
        first_timestamp_key: range.first,
        last_timestamp_key: range.last,
        captures,
    }
}

impl EventCapture {
    /// Puts the aggregate together from the event, the merged captures, the
    /// length in bytes of the captures when serialised, and the centre of the
    /// viewport.
    pub fn assemble(
        config: EventConfig,
        merged: Consolidation,
        captures_length_bytes: usize,
        viewport_center: Position,
    ) -> (capture: EventCapture)
        ensures
            capture.config == config,
            capture.first_timestamp_key == merged.first_timestamp_key,
            capture.last_timestamp_key == merged.last_timestamp_key,
            capture.captures == merged.captures,
            capture.captures_length_bytes == captures_length_bytes,
            capture.viewport_center == viewport_center,
    {
        EventCapture {
            config,
            first_timestamp_key: merged.first_timestamp_key,
            last_timestamp_key: merged.last_timestamp_key,
            captures: merged.captures,
            captures_length_bytes,
            viewport_center,
        }
    }
}

} // verus!
