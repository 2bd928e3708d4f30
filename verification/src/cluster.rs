//! What a run makes of a cluster that does as it is asked.
use crate::error::{Error, Result};
use crate::history::{
    dests_of, doomed_of, ends_with, goes_on, is_history, law_course, lemma_phase, lemma_skip_one,
    listing_of, places_of, stale_of, targets_of, History,
};
use crate::laws::{
    law_copy_holds_the_data, law_copy_is_no_source, law_copy_names_its_origin, law_destinations,
    lists_key,
};
use crate::manager::{
    is_copy_elsewhere, is_copy_of, is_source, is_stale, location_of, synced, synced_annotations,
    synced_labels, synced_meta, LocationView, KUSTD_ORIGIN_NAME, KUSTD_ORIGIN_NAMESPACE,
    KUSTD_REMOVE_ANN_ANN,
};
use crate::objects::{ObjectMetaView, Resource};
use crate::run::{
    clear, copy_locations, proceed, request_of, step, with_version, Goal, PhaseView, ReplyView,
    RequestView, RunView, StepView, WriteView,
};
use crate::syncable::Syncable;
use vstd::prelude::*;

verus! {

/// Whether every object of a cluster lies where its metadata says.
pub open spec fn well_placed<T: Resource>(cluster: Map<LocationView, T::V>) -> bool {
    forall|location: LocationView| #[trigger]
        cluster.contains_key(location) ==> {
            &&& T::meta_view(cluster[location]).namespace == Some(location.namespace)
            &&& T::meta_view(cluster[location]).name == Some(location.name)
        }
}

/// Whether `objects` are the objects of a cluster, in some order.
pub open spec fn lists_all<T: Resource>(
    cluster: Map<LocationView, T::V>,
    objects: Seq<T::V>,
) -> bool {
    &&& forall|i: int|
        0 <= i < objects.len() ==> {
            let location = location_of(T::meta_view(#[trigger] objects[i]));
            cluster.contains_key(location) && cluster[location] == objects[i]
        }
    &&& forall|location: LocationView| #[trigger]
        cluster.contains_key(location) ==> objects.contains(cluster[location])
}

/// The metadata `meta`, but for what is the cluster's to give, which is that of `given`: the
/// resource version, the identity, the generation, the times of creation and deletion, and who
/// manages which fields.
pub open spec fn as_given(meta: ObjectMetaView, given: ObjectMetaView) -> ObjectMetaView {
    ObjectMetaView {
        resource_version: given.resource_version,
        uid: given.uid,
        generation: given.generation,
        creation_timestamp: given.creation_timestamp,
        deletion_timestamp: given.deletion_timestamp,
        deletion_grace_period_seconds: given.deletion_grace_period_seconds,
        managed_fields: given.managed_fields,
        self_link: given.self_link,
        ..meta
    }
}

/// Whether `kept` is what a cluster keeps of `sent` in `namespace`: all of it, but for what is the
/// cluster's to give.
pub open spec fn kept_as<T: Resource>(kept: T::V, sent: T::V, namespace: Seq<char>) -> bool {
    kept == T::with_meta_view(
        sent,
        as_given(
            ObjectMetaView { namespace: Some(namespace), ..T::meta_view(sent) },
            T::meta_view(kept),
        ),
    )
}

/// Whether `after` is `before` with `sent` written to `location`.
pub open spec fn written<T: Resource>(
    before: Map<LocationView, T::V>,
    location: LocationView,
    sent: T::V,
    after: Map<LocationView, T::V>,
) -> bool {
    &&& after.contains_key(location)
    &&& after == before.insert(location, after[location])
    &&& kept_as::<T>(after[location], sent, location.namespace)
}

/// Whether a cluster that holds `before` does as `request` asks: it answers `reply` and holds
/// `after` from then on.
pub open spec fn serves<T: Resource>(
    before: Map<LocationView, T::V>,
    request: RequestView<T::V>,
    reply: ReplyView<T::V>,
    after: Map<LocationView, T::V>,
) -> bool {
    match (request, reply) {
        (RequestView::ListNamespaces { .. }, ReplyView::Namespaces(Ok(_))) => after == before,
        (RequestView::ListResources, ReplyView::Resources(Ok(objects))) => after == before
            && lists_all::<T>(before, objects),
        (RequestView::Delete { location }, ReplyView::Deleted(_)) => after == before.remove(
            location,
        ),
        (RequestView::Get { location }, ReplyView::Found(Ok(object))) => after == before
            && before.contains_key(location) && before[location] == object,
        (RequestView::Get { location }, ReplyView::Found(Err(failure))) => after == before
            && !before.contains_key(location) && failure.is_not_found(),
        (RequestView::Create { namespace, resource }, ReplyView::Written(Ok(_))) => {
            let location = LocationView { namespace, name: T::meta_view(resource).name_any() };
            !before.contains_key(location) && written::<T>(before, location, resource, after)
        },
        (RequestView::Replace { location, resource }, ReplyView::Written(Ok(_))) =>
            before.contains_key(location) && written::<T>(before, location, resource, after),
        _ => false,
    }
}

/// Whether the cluster, which holds `clusters[i]` before the answer `i` in `history`, does as it is
/// asked there.
pub open spec fn serves_at<T: Syncable>(
    history: History<T::V>,
    clusters: Seq<Map<LocationView, T::V>>,
    i: int,
) -> bool {
    serves::<T>(
        clusters[i],
        request_of::<T>(history.runs[i]),
        history.replies[i],
        clusters[i + 1],
    )
}

/// Whether the run in `history` goes to its end, and the cluster, which holds `clusters[i]` before
/// its answer `i`, does as it is asked all along.
pub open spec fn is_served<T: Syncable>(
    history: History<T::V>,
    clusters: Seq<Map<LocationView, T::V>>,
    goal: Goal,
    source: T::V,
    outcome: Result<()>,
) -> bool {
    &&& is_history::<T>(history, goal, source)
    &&& ends_with::<T>(history, outcome)
    &&& clusters.len() == history.runs.len() + 1
    &&& well_placed::<T>(clusters[0])
    &&& forall|i: int|
        0 <= i < history.runs.len() ==> #[trigger] serves_at::<T>(history, clusters, i)
}

/// Whether `after` is `before` without what lay at `gone`, and with copies of what `source` stands
/// for at `places`.
pub open spec fn differs_by<T: Syncable>(
    before: Map<LocationView, T::V>,
    after: Map<LocationView, T::V>,
    source: T::V,
    gone: spec_fn(LocationView) -> bool,
    places: Seq<LocationView>,
) -> bool {
    &&& forall|place: LocationView| #[trigger]
        places.contains(place) ==> after.contains_key(place) && kept_as::<T>(
            after[place],
            synced::<T>(source),
            place.namespace,
        )
    &&& forall|location: LocationView|
        !places.contains(location) ==> {
            &&& #[trigger] after.contains_key(location) <==> before.contains_key(location) && !gone(
                location,
            )
            &&& after.contains_key(location) ==> after[location] == before[location]
        }
}

/// Whether `now` is `before` without what lay at `gone`, but for the part of it at `left`.
spec fn deleted_but<V>(
    before: Map<LocationView, V>,
    now: Map<LocationView, V>,
    gone: spec_fn(LocationView) -> bool,
    left: spec_fn(LocationView) -> bool,
) -> bool {
    &&& forall|location: LocationView| #[trigger]
        now.contains_key(location) ==> {
            &&& before.contains_key(location)
            &&& now[location] == before[location]
            &&& gone(location) ==> left(location)
        }
    &&& forall|location: LocationView| #[trigger]
        before.contains_key(location) && !gone(location) ==> now.contains_key(location)
}

/// Whether `now` is `before` without what lay at `gone` and with copies of what `source` stands for
/// at `places`, but for those in the namespaces `left`.
spec fn written_but<T: Syncable>(
    before: Map<LocationView, T::V>,
    now: Map<LocationView, T::V>,
    source: T::V,
    gone: spec_fn(LocationView) -> bool,
    places: Seq<LocationView>,
    left: spec_fn(Seq<char>) -> bool,
) -> bool {
    &&& forall|place: LocationView| #[trigger]
        places.contains(place) && !left(place.namespace) ==> now.contains_key(place)
            && kept_as::<T>(now[place], synced::<T>(source), place.namespace)
    &&& forall|location: LocationView|
        !places.contains(location) ==> {
            &&& #[trigger] now.contains_key(location) <==> before.contains_key(location) && !gone(
                location,
            )
            &&& now.contains_key(location) ==> now[location] == before[location]
        }
}

/// What a cluster that held `before` holds when a run has come as far as `phase`. Before it lists
/// the resources, it deletes what lies at `cleared`.
spec fn so_far<T: Syncable>(
    before: Map<LocationView, T::V>,
    now: Map<LocationView, T::V>,
    source: T::V,
    cleared: Seq<LocationView>,
    gone: spec_fn(LocationView) -> bool,
    places: Seq<LocationView>,
    phase: PhaseView,
) -> bool {
    match phase {
        PhaseView::Namespaces => now == before,
        PhaseView::Clearing { location, pending, .. } => deleted_but(
            before,
            now,
            |other: LocationView| cleared.contains(other),
            |other: LocationView| other == location || pending.contains(other),
        ),
        PhaseView::Resources { .. } => deleted_but(
            before,
            now,
            |other: LocationView| cleared.contains(other),
            |other: LocationView| false,
        ),
        PhaseView::Deleting { location, pending, .. } => deleted_but(
            before,
            now,
            gone,
            |other: LocationView| other == location || pending.contains(other),
        ),
        PhaseView::Finding { dest, rest } => written_but::<T>(
            before,
            now,
            source,
            gone,
            places,
            |other: Seq<char>| other == dest || rest.contains(other),
        ),
        PhaseView::Writing { dest, rest, .. } => written_but::<T>(
            before,
            now,
            source,
            gone,
            places,
            |other: Seq<char>| other == dest || rest.contains(other),
        ),
    }
}

/// What a cluster holds after a step of a run, be it the last.
spec fn so_far_after<T: Syncable>(
    before: Map<LocationView, T::V>,
    now: Map<LocationView, T::V>,
    source: T::V,
    cleared: Seq<LocationView>,
    gone: spec_fn(LocationView) -> bool,
    places: Seq<LocationView>,
    next: StepView<T::V>,
) -> bool {
    match next {
        StepView::Ask { run, .. } => so_far::<T>(
            before,
            now,
            source,
            cleared,
            gone,
            places,
            run.phase,
        ),
        StepView::Done(outcome) => outcome == Ok::<(), Error>(()) && differs_by::<T>(
            before,
            now,
            source,
            gone,
            places,
        ),
    }
}

/// The places of copies are those in the destinations under the name of the source.
proof fn lemma_places(origin: LocationView, dests: Seq<Seq<char>>)
    ensures
        forall|place: LocationView| #[trigger]
            copy_locations(origin, dests).contains(place) <==> dests.contains(place.namespace)
                && place.name == origin.name,
{
    let places = copy_locations(origin, dests);
    assert forall|place: LocationView| #[trigger] places.contains(place) <==> dests.contains(
        place.namespace,
    ) && place.name == origin.name by {
        if places.contains(place) {
            let i = places.index_of(place);
            assert(dests[i] == place.namespace);
        }
        if dests.contains(place.namespace) && place.name == origin.name {
            let i = dests.index_of(place.namespace);
            assert(places[i] == place);
        }
    }
}

/// Going on to write once everything is deleted.
proof fn lemma_on_to_writes<T: Syncable>(
    before: Map<LocationView, T::V>,
    now: Map<LocationView, T::V>,
    source: T::V,
    cleared: Seq<LocationView>,
    gone: spec_fn(LocationView) -> bool,
    run: RunView<T::V>,
    places: Seq<LocationView>,
    rest: Seq<Seq<char>>,
)
    requires
        written_but::<T>(
            before,
            now,
            source,
            gone,
            places,
            |other: Seq<char>| rest.contains(other),
        ),
    ensures
        so_far_after::<T>(
            before,
            now,
            source,
            cleared,
            gone,
            places,
            proceed::<T>(run, Seq::empty(), rest),
        ),
{
    if rest.len() > 0 {
        lemma_skip_one(rest);
    } else {
        assert(forall|other: Seq<char>| !rest.contains(other));
    }
}

/// Going on with what is left to clear.
proof fn lemma_on_to_clear<T: Syncable>(
    before: Map<LocationView, T::V>,
    now: Map<LocationView, T::V>,
    source: T::V,
    cleared: Seq<LocationView>,
    gone: spec_fn(LocationView) -> bool,
    places: Seq<LocationView>,
    run: RunView<T::V>,
    pending: Seq<LocationView>,
    dests: Seq<Seq<char>>,
)
    requires
        deleted_but(
            before,
            now,
            |other: LocationView| cleared.contains(other),
            |other: LocationView| pending.contains(other),
        ),
    ensures
        so_far_after::<T>(
            before,
            now,
            source,
            cleared,
            gone,
            places,
            clear::<T>(run, pending, dests),
        ),
{
    if pending.len() > 0 {
        lemma_skip_one(pending);
    } else {
        assert(forall|other: LocationView| !pending.contains(other));
    }
}

/// Going on with what is left to delete.
proof fn lemma_on_to_deletes<T: Syncable>(
    before: Map<LocationView, T::V>,
    now: Map<LocationView, T::V>,
    source: T::V,
    cleared: Seq<LocationView>,
    gone: spec_fn(LocationView) -> bool,
    run: RunView<T::V>,
    pending: Seq<LocationView>,
    dests: Seq<Seq<char>>,
)
    requires
        deleted_but(before, now, gone, |other: LocationView| pending.contains(other)),
    ensures
        so_far_after::<T>(
            before,
            now,
            source,
            cleared,
            gone,
            copy_locations(run.origin, dests),
            proceed::<T>(run, pending, dests),
        ),
{
    let places = copy_locations(run.origin, dests);
    if pending.len() > 0 {
        lemma_skip_one(pending);
    } else {
        assert(pending =~= Seq::empty());
        lemma_places(run.origin, dests);
        lemma_on_to_writes::<T>(before, now, source, cleared, gone, run, places, dests);
    }
}

/// The objects of a cluster that are picked lie where the list of its objects has them `shown`.
proof fn lemma_shown<T: Resource>(
    cluster: Map<LocationView, T::V>,
    objects: Seq<T::V>,
    picked: spec_fn(T::V) -> bool,
    shown: Seq<LocationView>,
)
    requires
        well_placed::<T>(cluster),
        lists_all::<T>(cluster, objects),
        shown == objects.filter(picked).map_values(
            |object: T::V| location_of(T::meta_view(object)),
        ),
    ensures
        forall|location: LocationView| #[trigger]
            shown.contains(location) <==> cluster.contains_key(location) && picked(
                cluster[location],
            ),
{
    let kept = objects.filter(picked);
    assert forall|location: LocationView| #[trigger] shown.contains(location)
        <==> cluster.contains_key(location) && picked(cluster[location]) by {
        if shown.contains(location) {
            let i = shown.index_of(location);
            assert(kept.contains(kept[i]));
            objects.lemma_filter_pred(picked, i);
            objects.lemma_filter_contains_rev(picked, kept[i]);
            let j = objects.index_of(kept[i]);
            assert(location_of(T::meta_view(objects[j])) == location);
        }
        if cluster.contains_key(location) && picked(cluster[location]) {
            let j = objects.index_of(cluster[location]);
            objects.lemma_filter_contains(picked, j);
            let i = kept.index_of(cluster[location]);
            assert(shown[i] == location);
        }
    }
}

/// What a cluster keeps of a copy does not depend on the resource version it was sent with.
proof fn lemma_kept_with_version<T: Resource>(
    kept: T::V,
    copy: T::V,
    version: Option<Seq<char>>,
    namespace: Seq<char>,
)
    requires
        kept_as::<T>(kept, with_version::<T>(copy, version), namespace),
    ensures
        kept_as::<T>(kept, copy, namespace),
{
    if version is Some {
        let sent = ObjectMetaView { resource_version: version, ..T::meta_view(copy) };
        let meta = as_given(
            ObjectMetaView { namespace: Some(namespace), ..T::meta_view(copy) },
            T::meta_view(kept),
        );
        T::meta_view_laws(copy, sent, meta);
    }
}

/// A write to a destination leaves one destination less.
proof fn lemma_written<T: Syncable>(
    before: Map<LocationView, T::V>,
    now: Map<LocationView, T::V>,
    after: Map<LocationView, T::V>,
    source: T::V,
    gone: spec_fn(LocationView) -> bool,
    origin: LocationView,
    dests: Seq<Seq<char>>,
    dest: Seq<char>,
    rest: Seq<Seq<char>>,
    version: Option<Seq<char>>,
)
    requires
        dests.contains(dest),
        written_but::<T>(
            before,
            now,
            source,
            gone,
            copy_locations(origin, dests),
            |other: Seq<char>| other == dest || rest.contains(other),
        ),
        written::<T>(
            now,
            LocationView { namespace: dest, name: origin.name },
            with_version::<T>(synced::<T>(source), version),
            after,
        ),
    ensures
        written_but::<T>(
            before,
            after,
            source,
            gone,
            copy_locations(origin, dests),
            |other: Seq<char>| rest.contains(other),
        ),
{
    let location = LocationView { namespace: dest, name: origin.name };
    lemma_places(origin, dests);
    lemma_kept_with_version::<T>(after[location], synced::<T>(source), version, dest);
    let places = copy_locations(origin, dests);
    assert(places.contains(location));
    assert forall|place: LocationView| #[trigger]
        places.contains(place) && !rest.contains(place.namespace) implies after.contains_key(place)
        && kept_as::<T>(after[place], synced::<T>(source), place.namespace) by {
        if place.namespace == dest {
            assert(place == location);
        } else {
            assert(now.contains_key(place));
        }
    }
    assert forall|other: LocationView| !places.contains(other) implies {
        &&& #[trigger] after.contains_key(other) <==> before.contains_key(other) && !gone(other)
        &&& after.contains_key(other) ==> after[other] == before[other]
    } by {
        assert(other != location);
        assert(after.contains_key(other) == now.contains_key(other));
    }
}

/// What lies in `cluster` where a run for `goal`, with the destinations that `history` shows,
/// leaves nothing: to apply, stale copies; to clean up, copies anywhere and what lies in their
/// places in the destinations, but not the source.
pub open spec fn goes<T: Syncable>(
    cluster: Map<LocationView, T::V>,
    history: History<T::V>,
    goal: Goal,
    source: T::V,
) -> spec_fn(LocationView) -> bool {
    match goal {
        Goal::Apply => |location: LocationView|
            cluster.contains_key(location) && is_stale(
                T::meta_view(cluster[location]),
                location_of(T::meta_view(source)),
                dests_of::<T>(history, source),
            ),
        Goal::Cleanup => |location: LocationView|
            {
                ||| places_of::<T>(history, source).contains(location)
                ||| cluster.contains_key(location) && is_copy_of(
                    T::meta_view(cluster[location]),
                    location_of(T::meta_view(source)),
                ) && location != location_of(T::meta_view(source))
            },
    }
}

/// What a run for `goal` deletes before it lists the resources, with the destinations that
/// `history` shows.
spec fn cleared_of<T: Syncable>(
    history: History<T::V>,
    goal: Goal,
    source: T::V,
) -> Seq<LocationView> {
    match goal {
        Goal::Apply => Seq::empty(),
        Goal::Cleanup => places_of::<T>(history, source),
    }
}

/// Where a run for `goal` leaves copies, with the destinations that `history` shows.
pub open spec fn copies_at<T: Syncable>(
    history: History<T::V>,
    goal: Goal,
    source: T::V,
) -> Seq<LocationView> {
    match goal {
        Goal::Apply => places_of::<T>(history, source),
        Goal::Cleanup => Seq::empty(),
    }
}

/// What the cluster holds after each answer.
proof fn lemma_so_far<T: Syncable>(
    history: History<T::V>,
    clusters: Seq<Map<LocationView, T::V>>,
    goal: Goal,
    source: T::V,
    outcome: Result<()>,
    i: int,
)
    requires
        is_served::<T>(history, clusters, goal, source, outcome),
        0 <= i < history.runs.len(),
    ensures
        so_far_after::<T>(
            clusters[0],
            clusters[i + 1],
            source,
            cleared_of::<T>(history, goal, source),
            goes::<T>(clusters[0], history, goal, source),
            copies_at::<T>(history, goal, source),
            step::<T>(history.runs[i], history.replies[i]),
        ),
    decreases i,
{
    let before = clusters[0];
    let now = clusters[i];
    let after = clusters[i + 1];
    let run = history.runs[i];
    let origin = location_of(T::meta_view(source));
    let cleared = cleared_of::<T>(history, goal, source);
    let gone = goes::<T>(before, history, goal, source);
    let dests = dests_of::<T>(history, source);
    let places = copies_at::<T>(history, goal, source);
    let targets = targets_of::<T>(history, goal, source);
    let doomed = doomed_of::<T>(history, goal, source);
    let listing = listing_of::<T>(history, goal, source);
    law_course::<T>(history, goal, source, i);
    lemma_phase::<T>(history, goal, source, i);
    assert(serves_at::<T>(history, clusters, i));
    if i > 0 {
        lemma_so_far::<T>(history, clusters, goal, source, outcome, i - 1);
        assert(goes_on::<T>(history, i - 1));
    }
    if i >= listing {
        lemma_so_far::<T>(history, clusters, goal, source, outcome, listing - 1);
        assert(goes_on::<T>(history, listing - 1));
        law_course::<T>(history, goal, source, listing);
        lemma_doomed_is_gone::<T>(history, clusters, goal, source, outcome);
    }
    assert(so_far::<T>(before, now, source, cleared, gone, places, run.phase));
    assert(copy_locations(origin, targets) =~= places);
    match run.phase {
        PhaseView::Namespaces => {
            if goal == Goal::Cleanup {
                lemma_on_to_clear::<T>(
                    before,
                    after,
                    source,
                    cleared,
                    gone,
                    places,
                    run,
                    cleared,
                    dests,
                );
            }
        },
        PhaseView::Clearing { location, pending, .. } => {
            lemma_on_to_clear::<T>(
                before,
                after,
                source,
                cleared,
                gone,
                places,
                run,
                pending,
                dests,
            );
        },
        PhaseView::Resources { .. } => {
            lemma_on_to_deletes::<T>(before, after, source, cleared, gone, run, doomed, targets);
        },
        PhaseView::Deleting { location, pending, .. } => {
            lemma_on_to_deletes::<T>(before, after, source, cleared, gone, run, pending, targets);
        },
        PhaseView::Finding { .. } => {},
        PhaseView::Writing { dest, rest, write } => {
            let version = match write {
                WriteView::Create => None,
                WriteView::Replace(version) => version,
            };
            T::meta_view_laws(
                T::critical_data(source),
                synced_meta(T::meta_view(source)),
                synced_meta(T::meta_view(source)),
            );
            lemma_written::<T>(
                before,
                now,
                after,
                source,
                gone,
                origin,
                dests,
                dest,
                rest,
                version,
            );
            lemma_on_to_writes::<T>(before, after, source, cleared, gone, run, places, rest);
        },
    }
}

/// What a run deletes, before it lists the resources and after, is what it leaves nothing of.
proof fn lemma_doomed_is_gone<T: Syncable>(
    history: History<T::V>,
    clusters: Seq<Map<LocationView, T::V>>,
    goal: Goal,
    source: T::V,
    outcome: Result<()>,
)
    requires
        is_served::<T>(history, clusters, goal, source, outcome),
        listing_of::<T>(history, goal, source) < history.runs.len(),
        deleted_but(
            clusters[0],
            clusters[listing_of::<T>(history, goal, source)],
            |other: LocationView| cleared_of::<T>(history, goal, source).contains(other),
            |other: LocationView| false,
        ),
    ensures
        forall|location: LocationView| #[trigger]
            doomed_of::<T>(history, goal, source).contains(location) ==> goes::<T>(
                clusters[0],
                history,
                goal,
                source,
            )(location),
        forall|location: LocationView| #[trigger]
            clusters[listing_of::<T>(history, goal, source)].contains_key(location) && goes::<T>(
                clusters[0],
                history,
                goal,
                source,
            )(location) ==> doomed_of::<T>(history, goal, source).contains(location),
        forall|location: LocationView| #[trigger]
            cleared_of::<T>(history, goal, source).contains(location) ==> goes::<T>(
                clusters[0],
                history,
                goal,
                source,
            )(location),
{
    let origin = location_of(T::meta_view(source));
    let dests = dests_of::<T>(history, source);
    let listing = listing_of::<T>(history, goal, source);
    let now = clusters[listing];
    law_course::<T>(history, goal, source, listing);
    assert(serves_at::<T>(history, clusters, listing));
    let objects = history.replies[listing]->Resources_0->Ok_0;
    assert(well_placed::<T>(now));
    match goal {
        Goal::Apply => {
            let picked = |object: T::V| is_stale(T::meta_view(object), origin, dests);
            lemma_shown::<T>(now, objects, picked, doomed_of::<T>(history, goal, source));
        },
        Goal::Cleanup => {
            let places = places_of::<T>(history, source);
            let picked = |object: T::V| is_copy_elsewhere(T::meta_view(object), origin, places);
            lemma_shown::<T>(now, objects, picked, doomed_of::<T>(history, goal, source));
        },
    }
}

/// A cluster that does as it is asked lets every run succeed, and holds after it what it held
/// before, but for what the run is for: after a run to apply, a copy of the source lies in each
/// destination and stale copies are gone; after a run to clean up, all copies are gone, and so is
/// what lay in their places in the destinations, but the source is still there.
pub proof fn law_run_does_its_work<T: Syncable>(
    history: History<T::V>,
    clusters: Seq<Map<LocationView, T::V>>,
    goal: Goal,
    source: T::V,
    outcome: Result<()>,
)
    requires
        is_served::<T>(history, clusters, goal, source, outcome),
    ensures
        outcome == Ok::<(), Error>(()),
        differs_by::<T>(
            clusters[0],
            clusters.last(),
            source,
            goes::<T>(clusters[0], history, goal, source),
            copies_at::<T>(history, goal, source),
        ),
{
    let last = history.runs.len() - 1;
    lemma_so_far::<T>(history, clusters, goal, source, outcome, last);
    lemma_at_the_end::<T>(
        clusters[0],
        clusters.last(),
        source,
        cleared_of::<T>(history, goal, source),
        goes::<T>(clusters[0], history, goal, source),
        copies_at::<T>(history, goal, source),
        step::<T>(history.runs[last], history.replies[last]),
        outcome,
    );
}

/// What a cluster holds after the last step of a run.
proof fn lemma_at_the_end<T: Syncable>(
    before: Map<LocationView, T::V>,
    now: Map<LocationView, T::V>,
    source: T::V,
    cleared: Seq<LocationView>,
    gone: spec_fn(LocationView) -> bool,
    places: Seq<LocationView>,
    next: StepView<T::V>,
    outcome: Result<()>,
)
    requires
        so_far_after::<T>(before, now, source, cleared, gone, places, next),
        next == StepView::<T::V>::Done(outcome),
    ensures
        outcome == Ok::<(), Error>(()),
        differs_by::<T>(before, now, source, gone, places),
{
}

/// After a run to apply, each destination holds a copy of the source: under its name, with its
/// critical data, with the annotations and labels of a copy, and itself no source.
pub proof fn law_destinations_hold_copies<T: Syncable>(
    history: History<T::V>,
    clusters: Seq<Map<LocationView, T::V>>,
    source: T::V,
    outcome: Result<()>,
    dest: Seq<char>,
)
    requires
        is_served::<T>(history, clusters, Goal::Apply, source, outcome),
        dests_of::<T>(history, source).contains(dest),
    ensures
        ({
            let place = LocationView {
                namespace: dest,
                name: T::meta_view(source).name_any(),
            };
            let copy = clusters.last()[place];
            &&& clusters.last().contains_key(place)
            &&& T::critical_data(copy) == T::critical_data(source)
            &&& T::meta_view(copy).name == Some(place.name)
            &&& T::meta_view(copy).namespace == Some(dest)
            &&& T::meta_view(copy).annotations == Some(synced_annotations(T::meta_view(source)))
            &&& T::meta_view(copy).labels == Some(synced_labels(T::meta_view(source)))
            &&& T::meta_view(copy).owner_references is None
            &&& T::meta_view(copy).finalizers is None
            &&& !is_source(T::meta_view(copy))
        }),
{
    let origin = location_of(T::meta_view(source));
    let place = LocationView { namespace: dest, name: origin.name };
    law_run_does_its_work::<T>(history, clusters, Goal::Apply, source, outcome);
    lemma_places(origin, dests_of::<T>(history, source));
    assert(places_of::<T>(history, source).contains(place));
    lemma_kept_copy::<T>(clusters.last()[place], source, dest);
    law_copy_is_no_source::<T>(source);
    T::meta_view_laws(
        T::critical_data(source),
        synced_meta(T::meta_view(source)),
        synced_meta(T::meta_view(source)),
    );
}

/// What a cluster keeps of a copy.
proof fn lemma_kept_copy<T: Syncable>(kept: T::V, source: T::V, dest: Seq<char>)
    requires
        kept_as::<T>(kept, synced::<T>(source), dest),
    ensures
        T::critical_data(kept) == T::critical_data(source),
        T::meta_view(kept) == as_given(
            (ObjectMetaView { namespace: Some(dest), ..synced_meta(T::meta_view(source)) }),
            T::meta_view(kept),
        ),
{
    let sent = synced_meta(T::meta_view(source));
    let meta = as_given(
        ObjectMetaView { namespace: Some(dest), ..sent },
        T::meta_view(kept),
    );
    T::meta_view_laws(T::critical_data(source), sent, meta);
    T::meta_view_laws(T::critical_data(source), meta, meta);
    T::critical_data_laws(source, meta);
    T::critical_data_laws(T::critical_data(source), meta);
}

/// After a run to apply, no copy of the source lies anywhere but in a destination.
pub proof fn law_no_stale_copies<T: Syncable>(
    history: History<T::V>,
    clusters: Seq<Map<LocationView, T::V>>,
    source: T::V,
    outcome: Result<()>,
    location: LocationView,
)
    requires
        is_served::<T>(history, clusters, Goal::Apply, source, outcome),
        clusters.last().contains_key(location),
        is_copy_of(T::meta_view(clusters.last()[location]), location_of(T::meta_view(source))),
    ensures
        dests_of::<T>(history, source).contains(location.namespace),
{
    let origin = location_of(T::meta_view(source));
    law_run_does_its_work::<T>(history, clusters, Goal::Apply, source, outcome);
    lemma_places(origin, dests_of::<T>(history, source));
    if !places_of::<T>(history, source).contains(location) {
        assert(!goes::<T>(clusters[0], history, Goal::Apply, source)(location));
        assert(clusters[0].contains_key(location));
    }
}

/// After a run to clean up, nothing names the source as its origin, wherever it lies and whatever
/// the destinations were when it was made, unless it is the source; and no destination holds
/// anything in the place of a copy.
pub proof fn law_no_copies_after_cleanup<T: Syncable>(
    history: History<T::V>,
    clusters: Seq<Map<LocationView, T::V>>,
    source: T::V,
    outcome: Result<()>,
    location: LocationView,
)
    requires
        is_served::<T>(history, clusters, Goal::Cleanup, source, outcome),
        clusters.last().contains_key(location),
    ensures
        location != location_of(T::meta_view(source)) ==> !is_copy_of(
            T::meta_view(clusters.last()[location]),
            location_of(T::meta_view(source)),
        ),
        !(dests_of::<T>(history, source).contains(location.namespace) && location.name
            == T::meta_view(source).name_any()),
{
    let origin = location_of(T::meta_view(source));
    law_run_does_its_work::<T>(history, clusters, Goal::Cleanup, source, outcome);
    lemma_places(origin, dests_of::<T>(history, source));
    assert(!copies_at::<T>(history, Goal::Cleanup, source).contains(location));
    assert(!goes::<T>(clusters[0], history, Goal::Cleanup, source)(location));
}

/// A run leaves its source as it is, unless, to apply, the source names itself as its origin.
pub proof fn law_source_is_spared<T: Syncable>(
    history: History<T::V>,
    clusters: Seq<Map<LocationView, T::V>>,
    goal: Goal,
    source: T::V,
    outcome: Result<()>,
)
    requires
        is_served::<T>(history, clusters, goal, source, outcome),
        clusters[0].contains_key(location_of(T::meta_view(source))),
        goal == Goal::Apply ==> !is_copy_of(
            T::meta_view(clusters[0][location_of(T::meta_view(source))]),
            location_of(T::meta_view(source)),
        ),
    ensures
        clusters.last().contains_key(location_of(T::meta_view(source))),
        clusters.last()[location_of(T::meta_view(source))] == clusters[0][location_of(
            T::meta_view(source),
        )],
{
    let origin = location_of(T::meta_view(source));
    law_run_does_its_work::<T>(history, clusters, goal, source, outcome);
    lemma_places(origin, dests_of::<T>(history, source));
    lemma_first_answer::<T>(history, clusters, goal, source, outcome);
    law_destinations(
        history.replies[0]->Namespaces_0->Ok_0,
        origin.namespace,
        origin.namespace,
    );
    assert(!places_of::<T>(history, source).contains(origin));
    assert(!goes::<T>(clusters[0], history, goal, source)(origin));
    assert(!copies_at::<T>(history, goal, source).contains(origin));
}

/// The first answer of a cluster that does as it is asked lists namespaces.
proof fn lemma_first_answer<T: Syncable>(
    history: History<T::V>,
    clusters: Seq<Map<LocationView, T::V>>,
    goal: Goal,
    source: T::V,
    outcome: Result<()>,
)
    requires
        is_served::<T>(history, clusters, goal, source, outcome),
    ensures
        history.replies[0] is Namespaces,
        history.replies[0]->Namespaces_0 is Ok,
{
    assert(serves_at::<T>(history, clusters, 0));
}

/// After a run every object lies where its metadata says, as before.
pub proof fn law_objects_stay_well_placed<T: Syncable>(
    history: History<T::V>,
    clusters: Seq<Map<LocationView, T::V>>,
    goal: Goal,
    source: T::V,
    outcome: Result<()>,
)
    requires
        is_served::<T>(history, clusters, goal, source, outcome),
    ensures
        well_placed::<T>(clusters.last()),
{
    let origin = location_of(T::meta_view(source));
    let last = clusters.last();
    law_run_does_its_work::<T>(history, clusters, goal, source, outcome);
    lemma_places(origin, dests_of::<T>(history, source));
    let places = copies_at::<T>(history, goal, source);
    assert forall|location: LocationView| #[trigger] last.contains_key(location) implies {
        &&& T::meta_view(last[location]).namespace == Some(location.namespace)
        &&& T::meta_view(last[location]).name == Some(location.name)
    } by {
        if places.contains(location) {
            lemma_kept_copy::<T>(last[location], source, location.namespace);
        } else {
            assert(clusters[0].contains_key(location));
        }
    }
}

/// Whether two objects differ in nothing but what is the cluster's to give.
pub open spec fn same_content<T: Resource>(a: T::V, b: T::V) -> bool {
    a == T::with_meta_view(b, as_given(T::meta_view(b), T::meta_view(a)))
}

/// To apply again, with the same destinations, changes nothing: the same objects lie in the same
/// places, and differ in nothing but what is the cluster's to give.
pub proof fn law_apply_is_idempotent<T: Syncable>(
    first: History<T::V>,
    first_clusters: Seq<Map<LocationView, T::V>>,
    second: History<T::V>,
    second_clusters: Seq<Map<LocationView, T::V>>,
    source: T::V,
    outcome: Result<()>,
    location: LocationView,
)
    requires
        is_served::<T>(first, first_clusters, Goal::Apply, source, outcome),
        is_served::<T>(second, second_clusters, Goal::Apply, source, outcome),
        second_clusters[0] == first_clusters.last(),
        forall|dest: Seq<char>| #[trigger]
            dests_of::<T>(first, source).contains(dest) <==> dests_of::<T>(
                second,
                source,
            ).contains(dest),
    ensures
        second_clusters.last().contains_key(location) <==> first_clusters.last().contains_key(
            location,
        ),
        second_clusters.last().contains_key(location) ==> same_content::<T>(
            second_clusters.last()[location],
            first_clusters.last()[location],
        ),
{
    let origin = location_of(T::meta_view(source));
    let mid = first_clusters.last();
    let last = second_clusters.last();
    let dests = dests_of::<T>(first, source);
    let again = dests_of::<T>(second, source);
    law_run_does_its_work::<T>(first, first_clusters, Goal::Apply, source, outcome);
    law_run_does_its_work::<T>(second, second_clusters, Goal::Apply, source, outcome);
    lemma_places(origin, dests);
    lemma_places(origin, again);
    assert(dests.contains(location.namespace) == again.contains(location.namespace));
    assert(places_of::<T>(first, source).contains(location) == places_of::<T>(
        second,
        source,
    ).contains(location));
    if places_of::<T>(first, source).contains(location) {
        lemma_kept_twice::<T>(last[location], mid[location], source, location.namespace);
    } else {
        if mid.contains_key(location) && goes::<T>(mid, second, Goal::Apply, source)(location) {
            law_no_stale_copies::<T>(first, first_clusters, source, outcome, location);
            assert(again.contains(location.namespace));
        }
        if last.contains_key(location) {
            T::meta_view_laws(
                mid[location],
                T::meta_view(mid[location]),
                T::meta_view(mid[location]),
            );
        }
    }
}

/// A run to apply that is shown no stale copies takes nothing away.
proof fn lemma_nothing_is_taken_away<T: Syncable>(
    history: History<T::V>,
    clusters: Seq<Map<LocationView, T::V>>,
    source: T::V,
    outcome: Result<()>,
    location: LocationView,
    i: int,
)
    requires
        is_served::<T>(history, clusters, Goal::Apply, source, outcome),
        stale_of::<T>(history, source).len() == 0,
        clusters[0].contains_key(location),
        0 <= i < history.runs.len(),
    ensures
        clusters[i].contains_key(location),
    decreases i,
{
    if i > 0 {
        lemma_nothing_is_taken_away::<T>(history, clusters, source, outcome, location, i - 1);
        lemma_phase::<T>(history, Goal::Apply, source, i - 1);
        assert(serves_at::<T>(history, clusters, i - 1));
    }
}

/// Whether a run to apply, with no deletions, looks up and replaces the copy in its destination
/// `k`.
pub open spec fn replaces<T: Syncable>(history: History<T::V>, source: T::V, k: int) -> bool {
    let place = places_of::<T>(history, source)[k];
    &&& request_of::<T>(history.runs[2 + 2 * k]) == (RequestView::<T::V>::Get { location: place })
    &&& request_of::<T>(history.runs[3 + 2 * k]) is Replace
    &&& request_of::<T>(history.runs[3 + 2 * k])->Replace_location == place
}

/// To apply again, with the same destinations, makes no deletion and creates nothing: the run
/// lists, and then looks up and replaces the copy in each destination, once.
pub proof fn law_applying_again_replaces<T: Syncable>(
    first: History<T::V>,
    first_clusters: Seq<Map<LocationView, T::V>>,
    second: History<T::V>,
    second_clusters: Seq<Map<LocationView, T::V>>,
    source: T::V,
    outcome: Result<()>,
)
    requires
        is_served::<T>(first, first_clusters, Goal::Apply, source, outcome),
        is_served::<T>(second, second_clusters, Goal::Apply, source, outcome),
        second_clusters[0] == first_clusters.last(),
        forall|dest: Seq<char>| #[trigger]
            dests_of::<T>(first, source).contains(dest) <==> dests_of::<T>(
                second,
                source,
            ).contains(dest),
    ensures
        second.runs.len() == 2 + 2 * dests_of::<T>(second, source).len(),
        request_of::<T>(second.runs[0]) is ListNamespaces,
        request_of::<T>(second.runs[1]) is ListResources,
        forall|k: int|
            0 <= k < dests_of::<T>(second, source).len() ==> #[trigger] replaces::<T>(
                second,
                source,
                k,
            ),
{
    let origin = location_of(T::meta_view(source));
    let mid = first_clusters.last();
    let dests = dests_of::<T>(second, source);
    let places = places_of::<T>(second, source);
    let stale = stale_of::<T>(second, source);
    let last = second.runs.len() - 1;
    lemma_places(origin, dests_of::<T>(first, source));
    lemma_places(origin, dests);
    law_run_does_its_work::<T>(first, first_clusters, Goal::Apply, source, outcome);
    law_run_does_its_work::<T>(second, second_clusters, Goal::Apply, source, outcome);
    law_course::<T>(second, Goal::Apply, source, last);
    assert(serves_at::<T>(second, second_clusters, 0));
    assert(serves_at::<T>(second, second_clusters, last));
    law_course::<T>(second, Goal::Apply, source, 1);
    if stale.len() > 0 {
        let location = stale[0];
        assert(stale.contains(location));
        lemma_stale_is_there::<T>(second, second_clusters, source, outcome, location);
        law_no_stale_copies::<T>(first, first_clusters, source, outcome, location);
        assert(dests.contains(location.namespace));
    }
    assert forall|k: int| 0 <= k < dests.len() implies #[trigger] replaces::<T>(
        second,
        source,
        k,
    ) by {
        let place = places[k];
        assert(places.contains(place));
        assert(places_of::<T>(first, source).contains(place)) by {
            assert(dests_of::<T>(first, source).contains(place.namespace));
        }
        law_course::<T>(second, Goal::Apply, source, 2 + 2 * k);
        law_course::<T>(second, Goal::Apply, source, 3 + 2 * k);
        lemma_nothing_is_taken_away::<T>(
            second,
            second_clusters,
            source,
            outcome,
            place,
            2 + 2 * k,
        );
        assert(serves_at::<T>(second, second_clusters, 2 + 2 * k));
    }
}

/// The stale copies that a run to apply is shown lie in the cluster that it starts with.
proof fn lemma_stale_is_there<T: Syncable>(
    history: History<T::V>,
    clusters: Seq<Map<LocationView, T::V>>,
    source: T::V,
    outcome: Result<()>,
    location: LocationView,
)
    requires
        is_served::<T>(history, clusters, Goal::Apply, source, outcome),
        1 < history.runs.len(),
        stale_of::<T>(history, source).contains(location),
    ensures
        clusters[0].contains_key(location),
        is_stale(
            T::meta_view(clusters[0][location]),
            location_of(T::meta_view(source)),
            dests_of::<T>(history, source),
        ),
{
    law_course::<T>(history, Goal::Apply, source, 1);
    assert(serves_at::<T>(history, clusters, 0));
    lemma_doomed_is_gone::<T>(history, clusters, Goal::Apply, source, outcome);
    assert(goes::<T>(clusters[0], history, Goal::Apply, source)(location));
}

/// Two objects that a cluster keeps of the same copy have the same content.
proof fn lemma_kept_twice<T: Syncable>(a: T::V, b: T::V, source: T::V, dest: Seq<char>)
    requires
        kept_as::<T>(a, synced::<T>(source), dest),
        kept_as::<T>(b, synced::<T>(source), dest),
    ensures
        same_content::<T>(a, b),
{
    lemma_kept_copy::<T>(a, source, dest);
    lemma_kept_copy::<T>(b, source, dest);
    let copy = synced::<T>(source);
    let sent = synced_meta(T::meta_view(source));
    T::meta_view_laws(T::critical_data(source), sent, sent);
    T::meta_view_laws(copy, T::meta_view(b), T::meta_view(a));
}

/// To clean up takes away every copy that was made, whatever became of the destinations since, as
/// long as the copies name their origin.
pub proof fn law_cleanup_finds_every_copy<T: Syncable>(
    applied: History<T::V>,
    applied_clusters: Seq<Map<LocationView, T::V>>,
    source: T::V,
    cleaned: History<T::V>,
    cleaned_clusters: Seq<Map<LocationView, T::V>>,
    changed: T::V,
    outcome: Result<()>,
    dest: Seq<char>,
)
    requires
        is_served::<T>(applied, applied_clusters, Goal::Apply, source, outcome),
        is_served::<T>(cleaned, cleaned_clusters, Goal::Cleanup, changed, outcome),
        cleaned_clusters[0] == applied_clusters.last(),
        location_of(T::meta_view(changed)) == location_of(T::meta_view(source)),
        !lists_key(T::meta_view(source), KUSTD_REMOVE_ANN_ANN@, KUSTD_ORIGIN_NAME@),
        !lists_key(T::meta_view(source), KUSTD_REMOVE_ANN_ANN@, KUSTD_ORIGIN_NAMESPACE@),
        dests_of::<T>(applied, source).contains(dest),
    ensures
        !cleaned_clusters.last().contains_key(
            LocationView { namespace: dest, name: T::meta_view(source).name_any() },
        ),
{
    let origin = location_of(T::meta_view(source));
    let place = LocationView { namespace: dest, name: origin.name };
    law_run_does_its_work::<T>(applied, applied_clusters, Goal::Apply, source, outcome);
    law_run_does_its_work::<T>(cleaned, cleaned_clusters, Goal::Cleanup, changed, outcome);
    lemma_places(origin, dests_of::<T>(applied, source));
    assert(places_of::<T>(applied, source).contains(place));
    let copy = applied_clusters.last()[place];
    lemma_kept_copy::<T>(copy, source, dest);
    law_copy_names_its_origin::<T>(source);
    law_copy_holds_the_data::<T>(source);
    assert(is_copy_of(T::meta_view(copy), origin));
    lemma_first_answer::<T>(applied, applied_clusters, Goal::Apply, source, outcome);
    law_destinations(applied.replies[0]->Namespaces_0->Ok_0, origin.namespace, dest);
    assert(!copies_at::<T>(cleaned, Goal::Cleanup, changed).contains(place));
    assert(goes::<T>(cleaned_clusters[0], cleaned, Goal::Cleanup, changed)(place));
}

/// To clean up after having applied, with the same destinations, restores a cluster that held
/// neither copies nor anything in their places.
pub proof fn law_cleanup_undoes_apply<T: Syncable>(
    applied: History<T::V>,
    applied_clusters: Seq<Map<LocationView, T::V>>,
    cleaned: History<T::V>,
    cleaned_clusters: Seq<Map<LocationView, T::V>>,
    source: T::V,
    outcome: Result<()>,
)
    requires
        is_served::<T>(applied, applied_clusters, Goal::Apply, source, outcome),
        is_served::<T>(cleaned, cleaned_clusters, Goal::Cleanup, source, outcome),
        cleaned_clusters[0] == applied_clusters.last(),
        forall|dest: Seq<char>| #[trigger]
            dests_of::<T>(applied, source).contains(dest) <==> dests_of::<T>(
                cleaned,
                source,
            ).contains(dest),
        forall|location: LocationView| #[trigger]
            applied_clusters[0].contains_key(location) ==> {
                &&& !(dests_of::<T>(applied, source).contains(location.namespace) && location.name
                    == T::meta_view(source).name_any())
                &&& !is_copy_of(
                    T::meta_view(applied_clusters[0][location]),
                    location_of(T::meta_view(source)),
                )
            },
    ensures
        cleaned_clusters.last() == applied_clusters[0],
{
    let origin = location_of(T::meta_view(source));
    let before = applied_clusters[0];
    let mid = applied_clusters.last();
    let last = cleaned_clusters.last();
    law_run_does_its_work::<T>(applied, applied_clusters, Goal::Apply, source, outcome);
    law_run_does_its_work::<T>(cleaned, cleaned_clusters, Goal::Cleanup, source, outcome);
    lemma_places(origin, dests_of::<T>(applied, source));
    lemma_places(origin, dests_of::<T>(cleaned, source));
    assert forall|location: LocationView|
        {
            &&& #[trigger] last.contains_key(location) <==> before.contains_key(location)
            &&& last.contains_key(location) ==> last[location] == before[location]
        } by {
        assert(dests_of::<T>(applied, source).contains(location.namespace) == dests_of::<T>(
            cleaned,
            source,
        ).contains(location.namespace));
        assert(!copies_at::<T>(cleaned, Goal::Cleanup, source).contains(location));
        assert(places_of::<T>(cleaned, source).contains(location) == places_of::<T>(
            applied,
            source,
        ).contains(location));
        if !places_of::<T>(applied, source).contains(location) {
            assert(mid.contains_key(location) == before.contains_key(location));
            assert(last.contains_key(location) == mid.contains_key(location));
        }
    }
    assert(last =~= before);
}

} // verus!
