//! From a status snapshot to the measurements of one collection cycle.

use crate::list_mounts::{total_listeners, Icestats, SourceView};
use crate::measurement::{
    add_integer_field, add_tag, batch_view, measurement_view, new_measurement, set_timestamp,
    FieldView, PointView,
};
use influent::measurement::Measurement;
use vstd::prelude::*;

verus! {

/// Why a snapshot could not be mapped.
#[derive(Debug, Clone, Copy, PartialEq, Eq)]
pub enum MapError {
    /// The record at this index has no mount identifier.
    MissingMount(usize),
    /// The sum of the listener counts is not an `i64`.
    TotalOutOfRange,
}

/// The `listeners` point of one mount.
pub open spec fn listeners_point(
    host: Seq<char>,
    mount: Seq<char>,
    listeners: int,
    timestamp: int,
) -> PointView {
    PointView {
        key: "listeners"@,
        timestamp: Some(timestamp),
        fields: Map::empty().insert("value"@, FieldView::Integer(listeners)),
        tags: Map::empty().insert("host"@, host).insert("mount"@, mount),
    }
}

/// The `listenerstotal` point of a whole snapshot.
pub open spec fn total_point(host: Seq<char>, total: int, timestamp: int) -> PointView {
    PointView {
        key: "listenerstotal"@,
        timestamp: Some(timestamp),
        fields: Map::empty().insert("value"@, FieldView::Integer(total)),
        tags: Map::empty().insert("host"@, host),
    }
}

/// Every record of the snapshot has a mount identifier.
pub open spec fn all_named(sources: Seq<SourceView>) -> bool {
    forall|i: int| 0 <= i < sources.len() ==> (#[trigger] sources[i]).mount is Some
}

/// The record at `index` is the first one without a mount identifier.
pub open spec fn first_unnamed(sources: Seq<SourceView>, index: int) -> bool {
    &&& 0 <= index < sources.len()
    &&& sources[index].mount is None
    &&& forall|j: int| 0 <= j < index ==> (#[trigger] sources[j]).mount is Some
}

/// The value fits the integer field of a measurement.
pub open spec fn fits_i64(value: int) -> bool {
    i64::MIN <= value <= i64::MAX
}

/// The points of a snapshot whose records are all named: one `listeners`
/// point per record, in the order of the records, then the `listenerstotal`
/// point.
pub open spec fn mapped_points(sources: Seq<SourceView>, host: Seq<char>, timestamp: int) -> Seq<
    PointView,
> {
    Seq::new(
        sources.len() + 1,
        |i: int|
            if i < sources.len() {
                listeners_point(host, sources[i].mount->0, sources[i].listeners, timestamp)
            } else {
                total_point(host, total_listeners(sources), timestamp)
            },
    )
}

/// What mapping a snapshot gives: the points, or why there are none. A record
/// without a mount identifier is found first, and the first such record is
/// the one that is named; then the total is judged.
pub open spec fn map_outcome(sources: Seq<SourceView>, host: Seq<char>, timestamp: int) -> Result<
    Seq<PointView>,
    MapError,
> {
    if exists|i: int| first_unnamed(sources, i) {
        Err(MapError::MissingMount((choose|i: int| first_unnamed(sources, i)) as usize))
    } else if !fits_i64(total_listeners(sources)) {
        Err(MapError::TotalOutOfRange)
    } else {
        Ok(mapped_points(sources, host, timestamp))
    }
}

/// The result of a mapping as a mathematical value.
pub open spec fn result_view(result: Result<Vec<Measurement>, MapError>) -> Result<
    Seq<PointView>,
    MapError,
> {
    match result {
        Ok(batch) => Ok(batch_view(batch@)),
        Err(error) => Err(error),
    }
}

/// A snapshot has at most one first record without a mount identifier.
pub proof fn lemma_first_unnamed_unique(sources: Seq<SourceView>, i: int, j: int)
    requires
        first_unnamed(sources, i),
        first_unnamed(sources, j),
    ensures
        i == j,
{
    if i < j {
        assert(sources[i].mount is Some);
    } else if j < i {
        assert(sources[j].mount is Some);
    }
}

/// A snapshot has a first record without a mount identifier as soon as it
/// has any such record.
pub proof fn lemma_first_unnamed_exists(sources: Seq<SourceView>)
    requires
        !all_named(sources),
    ensures
        exists|i: int| first_unnamed(sources, i),
    decreases sources.len(),
{
    let front = sources.drop_last();
    if all_named(front) {
        let last = sources.len() - 1;
        assert forall|j: int| 0 <= j < last implies (#[trigger] sources[j]).mount is Some by {
            assert(front[j] == sources[j]);
        }
        assert(first_unnamed(sources, last));
    } else {
        lemma_first_unnamed_exists(front);
        let index = choose|i: int| first_unnamed(front, i);
        assert(sources[index] == front[index]);
        assert forall|j: int| 0 <= j < index implies (#[trigger] sources[j]).mount is Some by {
            assert(front[j] == sources[j]);
        }
        assert(first_unnamed(sources, index));
    }
}

/// When a snapshot is mapped and when it is not: it is mapped exactly when
/// every record is named and the total fits; a record without a mount
/// identifier is the error whenever there is one, and the error names the
/// first; the total is the error only where every record is named.
pub proof fn lemma_map_outcome_cases(sources: Seq<SourceView>, host: Seq<char>, timestamp: int)
    requires
        sources.len() <= usize::MAX,
    ensures
        map_outcome(sources, host, timestamp) is Ok <==> all_named(sources) && fits_i64(
            total_listeners(sources),
        ),
        map_outcome(sources, host, timestamp) is Ok ==> map_outcome(sources, host, timestamp)
            == Ok::<Seq<PointView>, MapError>(mapped_points(sources, host, timestamp)),
        !all_named(sources) <==> (map_outcome(sources, host, timestamp) matches Err(
            MapError::MissingMount(index),
        ) && first_unnamed(sources, index as int)),
        all_named(sources) && !fits_i64(total_listeners(sources)) <==> map_outcome(
            sources,
            host,
            timestamp,
        ) == Err::<Seq<PointView>, MapError>(MapError::TotalOutOfRange),
{
    if !all_named(sources) {
        lemma_first_unnamed_exists(sources);
    }
    if exists|i: int| first_unnamed(sources, i) {
        let index = choose|i: int| first_unnamed(sources, i);
        assert(sources[index].mount is None);
    }
}

/// Mapping correctness: a snapshot of N named records whose total fits gives
/// N + 1 points. The first N are `listeners` points, the i-th tagged with the
/// host and with the mount of the i-th record and nothing else, and holding
/// that record's listener count as its only field. The last is the one
/// `listenerstotal` point, tagged with the host alone and holding the sum of
/// all counts. Every point carries the same timestamp.
pub proof fn lemma_mapping_correct(sources: Seq<SourceView>, host: Seq<char>, timestamp: int)
    requires
        sources.len() <= usize::MAX,
        all_named(sources),
        fits_i64(total_listeners(sources)),
    ensures
        map_outcome(sources, host, timestamp) is Ok,
        map_outcome(sources, host, timestamp)->Ok_0.len() == sources.len() + 1,
        forall|i: int|
            0 <= i < sources.len() ==> {
                let point = #[trigger] map_outcome(sources, host, timestamp)->Ok_0[i];
                &&& point.key == "listeners"@
                &&& point.tags.dom() == set!["host"@, "mount"@]
                &&& point.tags["host"@] == host
                &&& point.tags["mount"@] == sources[i].mount->0
                &&& point.fields.dom() == set!["value"@]
                &&& point.fields["value"@] == FieldView::Integer(sources[i].listeners)
                &&& point.timestamp == Some(timestamp)
            },
        ({
            let point = map_outcome(sources, host, timestamp)->Ok_0[sources.len() as int];
            &&& point.key == "listenerstotal"@
            &&& point.tags.dom() == set!["host"@]
            &&& point.tags["host"@] == host
            &&& point.fields.dom() == set!["value"@]
            &&& point.fields["value"@] == FieldView::Integer(total_listeners(sources))
            &&& point.timestamp == Some(timestamp)
        }),
        "listeners"@ != "listenerstotal"@,
{
    lemma_map_outcome_cases(sources, host, timestamp);
    reveal_strlit("host");
    reveal_strlit("mount");
    reveal_strlit("listeners");
    reveal_strlit("listenerstotal");
    assert("host"@ != "mount"@) by {
        assert("host"@.len() != "mount"@.len());
    }
    assert("listeners"@ != "listenerstotal"@) by {
        assert("listeners"@.len() != "listenerstotal"@.len());
    }
    let points = mapped_points(sources, host, timestamp);
    assert forall|i: int| 0 <= i < sources.len() implies {
        let point = #[trigger] points[i];
        &&& point.tags.dom() == set!["host"@, "mount"@]
        &&& point.fields.dom() == set!["value"@]
    } by {
        assert(points[i].tags.dom() =~= set!["host"@, "mount"@]);
        assert(points[i].fields.dom() =~= set!["value"@]);
    }
    let last = points[sources.len() as int];
    assert(last.tags.dom() =~= set!["host"@]);
    assert(last.fields.dom() =~= set!["value"@]);
}

/// The empty snapshot is always mapped, and to exactly one point:
/// `listenerstotal` with the value 0.
pub proof fn lemma_empty_snapshot(host: Seq<char>, timestamp: int)
    ensures
        map_outcome(Seq::<SourceView>::empty(), host, timestamp) == Ok::<
            Seq<PointView>,
            MapError,
        >(seq![total_point(host, 0, timestamp)]),
{
    let empty = Seq::<SourceView>::empty();
    lemma_map_outcome_cases(empty, host, timestamp);
    assert(mapped_points(empty, host, timestamp) =~= seq![total_point(host, 0, timestamp)]);
}

/// Timestamp threading: every point that a mapping gives carries the
/// timestamp that was handed in, whatever the snapshot holds.
pub proof fn lemma_timestamp_threaded(sources: Seq<SourceView>, host: Seq<char>, timestamp: int)
    ensures
        map_outcome(sources, host, timestamp) matches Ok(points) ==> forall|i: int|
            0 <= i < points.len() ==> (#[trigger] points[i]).timestamp == Some(timestamp),
{
}

/// Order preservation: the point at index i comes from the record at index
/// i, so the points of the mounts stand in the order of their records, and
/// the `listenerstotal` point comes last, after all of them.
pub proof fn lemma_order_preserved(sources: Seq<SourceView>, host: Seq<char>, timestamp: int)
    ensures
        map_outcome(sources, host, timestamp) matches Ok(points) ==> {
            &&& forall|i: int|
                0 <= i < sources.len() ==> #[trigger] points[i] == listeners_point(
                    host,
                    sources[i].mount->0,
                    sources[i].listeners,
                    timestamp,
                )
            &&& points.last() == total_point(host, total_listeners(sources), timestamp)
        },
{
}

/// A record without a mount identifier is never mapped: the whole snapshot
/// is refused, with the first such record named. So no point is ever tagged
/// with a mount that its record did not give.
pub proof fn lemma_unnamed_record_refused(
    sources: Seq<SourceView>,
    host: Seq<char>,
    timestamp: int,
    index: int,
)
    requires
        sources.len() <= usize::MAX,
        0 <= index < sources.len(),
        sources[index].mount is None,
    ensures
        map_outcome(sources, host, timestamp) matches Err(MapError::MissingMount(first))
            && first <= index && first_unnamed(sources, first as int),
{
    lemma_map_outcome_cases(sources, host, timestamp);
    let first = map_outcome(sources, host, timestamp)->Err_0->MissingMount_0;
    if index < first {
        assert(sources[index].mount is Some);
    }
}

/// Maps a snapshot to the measurements of one cycle: a `listeners`
/// measurement for every mount, tagged with the host and the mount, and after
/// them one `listenerstotal` measurement with the sum of all listener counts,
/// tagged with the host. All of them carry the given timestamp.
///
/// A record without a mount identifier is an error for the whole snapshot:
/// no measurement is produced, and the error names the first such record.
pub fn icecast_stats_to_measurements<'a>(
    stats: &'a Icestats,
    host: &'a str,
    timestamp: i64,
) -> (result: Result<Vec<Measurement<'a>>, MapError>)
    ensures
        match result {
            Ok(batch) => {
                &&& all_named(stats@)
                &&& fits_i64(total_listeners(stats@))
                &&& batch_view(batch@) == mapped_points(stats@, host@, timestamp as int)
            },
            Err(MapError::MissingMount(index)) => first_unnamed(stats@, index as int),
            Err(MapError::TotalOutOfRange) => {
                &&& all_named(stats@)
                &&& !fits_i64(total_listeners(stats@))
            },
        },
        result_view(result) == map_outcome(stats@, host@, timestamp as int),
{
    let mut measurements: Vec<Measurement<'a>> = Vec::new();
    let mut total: i128 = 0;
    let mut i: usize = 0;
    while i < stats.sources.len()
        invariant
            0 <= i <= stats.sources.len(),
            measurements@.len() == i,
            all_named(stats@.take(i as int)),
            total == total_listeners(stats@.take(i as int)),
            i * (i64::MIN as int) <= total <= i * (i64::MAX as int),
            forall|j: int|
                0 <= j < i ==> measurement_view(#[trigger] measurements@[j]) == listeners_point(
                    host@,
                    stats@[j].mount->0,
                    stats@[j].listeners,
                    timestamp as int,
                ),
        decreases stats.sources.len() - i,
    {
        let source = &stats.sources[i];
        match &source.mount {
            None => {
                proof {
                    assert(stats@[i as int] == source@);
                    assert forall|j: int| 0 <= j < i implies (#[trigger] stats@[j]).mount
                        is Some by {
                        assert(stats@.take(i as int)[j] == stats@[j]);
                    }
                    assert(first_unnamed(stats@, i as int));
                    lemma_first_unnamed_unique(
                        stats@,
                        i as int,
                        choose|k: int| first_unnamed(stats@, k),
                    );
                }
                return Err(MapError::MissingMount(i));
            },
            Some(mount) => {
                let mut measurement = new_measurement("listeners");
                add_tag(&mut measurement, "host", host);
                add_tag(&mut measurement, "mount", mount.as_str());
                add_integer_field(&mut measurement, "value", source.listeners);
                set_timestamp(&mut measurement, timestamp);
                measurements.push(measurement);
                proof {
                    assert(stats@.take(i + 1).drop_last() == stats@.take(i as int));
                }
                total = total + source.listeners as i128;
            },
        }
        i += 1;
    }
    proof {
        assert(stats@.take(i as int) == stats@);
    }
    if total < i64::MIN as i128 || total > i64::MAX as i128 {
        return Err(MapError::TotalOutOfRange);
    }
    let mut total_measurement = new_measurement("listenerstotal");
    add_tag(&mut total_measurement, "host", host);
    add_integer_field(&mut total_measurement, "value", total as i64);
    set_timestamp(&mut total_measurement, timestamp);
    measurements.push(total_measurement);
    Ok(measurements)
}

} // verus!
