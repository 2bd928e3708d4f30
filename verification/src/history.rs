//! What holds of every run, whatever the Kubernetes API answers.
use crate::error::{ApiFailure, Error, Result};
use crate::laws::{
    law_copies_elsewhere, law_destinations, law_destinations_in_order,
    law_listed_namespaces_are_destinations, law_stale_copies, lies_at, tells_origin,
};
use crate::manager::{
    destinations, is_copy_elsewhere, location_of, locations_elsewhere, namespace_names, selector_of,
    stale_locations, synced, synced_meta, LocationView, KUSTD_SYNC_ANN,
};
use crate::objects::{NamespaceView, ObjectMetaView};
use crate::run::{
    answers, copy_locations, request_of, started, step, with_version, Goal, PhaseView, ReplyView,
    RequestView, RunView, StepView, WriteView,
};
use crate::syncable::Syncable;
use vstd::prelude::*;

verus! {

/// The course that a run took: how far it had come before each answer, and the answers.
pub struct History<V> {
    pub runs: Seq<RunView<V>>,
    pub replies: Seq<ReplyView<V>>,
}

/// Whether the answer `i` in `history` is to the request that was made, and takes the run as far as
/// it had come before the next answer.
pub open spec fn goes_on<T: Syncable>(history: History<T::V>, i: int) -> bool {
    &&& answers(request_of::<T>(history.runs[i]), history.replies[i])
    &&& step::<T>(history.runs[i], history.replies[i]) == (StepView::Ask {
        request: request_of::<T>(history.runs[i + 1]),
        run: history.runs[i + 1],
    })
}

/// Whether `history` is the course, or the beginning of the course, of the run for `goal` of the
/// resource that `source` stands for.
pub open spec fn is_history<T: Syncable>(
    history: History<T::V>,
    goal: Goal,
    source: T::V,
) -> bool {
    &&& history.runs.len() > 0
    &&& history.runs[0] == started::<T>(goal, source)
    &&& history.replies.len() >= history.runs.len() - 1
    &&& forall|i: int| 0 <= i < history.runs.len() - 1 ==> #[trigger] goes_on::<T>(history, i)
}

/// Whether `history` goes on to the end of its run, which has the outcome `outcome`.
pub open spec fn ends_with<T: Syncable>(
    history: History<T::V>,
    outcome: Result<()>,
) -> bool {
    &&& history.replies.len() == history.runs.len()
    &&& answers(request_of::<T>(history.runs.last()), history.replies.last())
    &&& step::<T>(history.runs.last(), history.replies.last()) == StepView::<T::V>::Done(outcome)
}

/// The names of the destinations that the first answer in `history` led to.
pub open spec fn dests_of<T: Syncable>(history: History<T::V>, source: T::V) -> Seq<Seq<char>> {
    namespace_names(
        destinations(history.replies[0]->Namespaces_0->Ok_0, T::meta_view(source).namespace->0),
    )
}

/// The places of the copies in the destinations that the first answer in `history` led to.
pub open spec fn places_of<T: Syncable>(history: History<T::V>, source: T::V) -> Seq<LocationView> {
    copy_locations(location_of(T::meta_view(source)), dests_of::<T>(history, source))
}

/// Which answer in `history` is to the list of resources: to apply, the one after the namespaces;
/// to clean up, the one after the deletions in the destinations.
pub open spec fn listing_of<T: Syncable>(history: History<T::V>, goal: Goal, source: T::V) -> int {
    match goal {
        Goal::Apply => 1,
        Goal::Cleanup => 1 + dests_of::<T>(history, source).len() as int,
    }
}

/// Where the stale copies lie that the list of resources in `history` showed, to apply.
pub open spec fn stale_of<T: Syncable>(history: History<T::V>, source: T::V) -> Seq<LocationView> {
    stale_locations::<T>(
        history.replies[listing_of::<T>(history, Goal::Apply, source)]->Resources_0->Ok_0,
        location_of(T::meta_view(source)),
        dests_of::<T>(history, source),
    )
}

/// Where the copies lie that the list of resources in `history` showed, to clean up, anywhere but
/// in their places in the destinations.
pub open spec fn elsewhere_of<T: Syncable>(
    history: History<T::V>,
    source: T::V,
) -> Seq<LocationView> {
    locations_elsewhere::<T>(
        history.replies[listing_of::<T>(history, Goal::Cleanup, source)]->Resources_0->Ok_0,
        location_of(T::meta_view(source)),
        places_of::<T>(history, source),
    )
}

/// Where the resources lie that the run in `history` is to delete for what the list of resources
/// showed.
pub open spec fn doomed_of<T: Syncable>(
    history: History<T::V>,
    goal: Goal,
    source: T::V,
) -> Seq<LocationView> {
    match goal {
        Goal::Apply => stale_of::<T>(history, source),
        Goal::Cleanup => elsewhere_of::<T>(history, source),
    }
}

/// The namespaces that the run in `history` is to write to.
pub open spec fn targets_of<T: Syncable>(
    history: History<T::V>,
    goal: Goal,
    source: T::V,
) -> Seq<Seq<char>> {
    match goal {
        Goal::Apply => dests_of::<T>(history, source),
        Goal::Cleanup => Seq::empty(),
    }
}

/// How the copy is written to a place after the answer `found` to what lies there.
pub open spec fn write_after<T: Syncable>(found: ReplyView<T::V>) -> WriteView {
    match found {
        ReplyView::Found(Ok(existing)) => WriteView::Replace(
            T::meta_view(existing).resource_version,
        ),
        _ => WriteView::Create,
    }
}

/// How far the run in `history` has come before its answer `i`. It lists the namespaces; to clean
/// up, it deletes what lies in its places in the destinations, one after another; it lists the
/// resources; it deletes what that list dooms, one after another; to apply, it looks up and then
/// writes each destination's copy, one after another.
pub open spec fn phase_at<T: Syncable>(
    history: History<T::V>,
    goal: Goal,
    source: T::V,
    i: int,
) -> PhaseView {
    let dests = dests_of::<T>(history, source);
    let places = places_of::<T>(history, source);
    let listing = listing_of::<T>(history, goal, source);
    let doomed = doomed_of::<T>(history, goal, source);
    let targets = targets_of::<T>(history, goal, source);
    let deleted = i - listing - 1;
    let written = (deleted - doomed.len()) / 2;
    if i == 0 {
        PhaseView::Namespaces
    } else if i < listing {
        PhaseView::Clearing { location: places[i - 1], pending: places.skip(i), dests }
    } else if i == listing {
        PhaseView::Resources { dests }
    } else if deleted < doomed.len() {
        PhaseView::Deleting {
            location: doomed[deleted],
            pending: doomed.skip(deleted + 1),
            dests: targets,
        }
    } else if (deleted - doomed.len()) % 2 == 0 {
        PhaseView::Finding { dest: targets[written], rest: targets.skip(written + 1) }
    } else {
        PhaseView::Writing {
            dest: targets[written],
            rest: targets.skip(written + 1),
            write: write_after::<T>(history.replies[i - 1]),
        }
    }
}

/// What holds of a run in `history` before its answer `i`: it has come as far as its course has it,
/// the lists that it has behind it succeeded, and it has not come to the end of its course.
pub open spec fn follows_course<T: Syncable>(
    history: History<T::V>,
    goal: Goal,
    source: T::V,
    i: int,
) -> bool {
    let listing = listing_of::<T>(history, goal, source);
    &&& history.runs[i] == RunView {
        phase: phase_at::<T>(history, goal, source, i),
        ..started::<T>(goal, source)
    }
    &&& i > 0 ==> history.replies[0] is Namespaces && history.replies[0]->Namespaces_0 is Ok
    &&& i > listing ==> {
        &&& history.replies[listing] is Resources
        &&& history.replies[listing]->Resources_0 is Ok
        &&& i <= listing + doomed_of::<T>(history, goal, source).len() + 2 * targets_of::<T>(
            history,
            goal,
            source,
        ).len()
    }
}

/// What is left of a sequence after one more element.
proof fn lemma_skip_more<A>(s: Seq<A>, n: int)
    requires
        0 <= n < s.len(),
    ensures
        s.skip(n).len() > 0,
        s.skip(n)[0] == s[n],
        s.skip(n).skip(1) == s.skip(n + 1),
{
    assert(s.skip(n).skip(1) =~= s.skip(n + 1));
}

/// Every run follows its course, whatever the API answers: which request it makes, and in which
/// order, is settled by the lists and by what lies in the places of the copies.
pub proof fn law_course<T: Syncable>(history: History<T::V>, goal: Goal, source: T::V, i: int)
    requires
        is_history::<T>(history, goal, source),
        0 <= i < history.runs.len(),
    ensures
        follows_course::<T>(history, goal, source, i),
    decreases i,
{
    if i > 0 {
        let n = i - 1;
        law_course::<T>(history, goal, source, n);
        assert(goes_on::<T>(history, n));
        let places = places_of::<T>(history, source);
        let doomed = doomed_of::<T>(history, goal, source);
        let targets = targets_of::<T>(history, goal, source);
        let deleted = n - listing_of::<T>(history, goal, source) - 1;
        let written = (deleted - doomed.len()) / 2;
        match history.runs[n].phase {
            PhaseView::Namespaces => {},
            PhaseView::Clearing { .. } => {
                if n < places.len() {
                    lemma_skip_more(places, n);
                }
            },
            PhaseView::Resources { .. } => {},
            PhaseView::Deleting { .. } => {
                if deleted + 1 < doomed.len() {
                    lemma_skip_more(doomed, deleted + 1);
                }
            },
            PhaseView::Finding { .. } => {},
            PhaseView::Writing { .. } => {
                if written + 1 < targets.len() {
                    lemma_skip_more(targets, written + 1);
                }
            },
        }
    }
}

/// What a run deletes and writes in each phase is among what it is to delete and to write.
pub proof fn lemma_phase<T: Syncable>(history: History<T::V>, goal: Goal, source: T::V, i: int)
    requires
        is_history::<T>(history, goal, source),
        0 <= i < history.runs.len(),
    ensures
        match history.runs[i].phase {
            PhaseView::Namespaces => true,
            PhaseView::Clearing { location, pending, dests } => {
                &&& goal == Goal::Cleanup
                &&& places_of::<T>(history, source).contains(location)
                &&& dests == dests_of::<T>(history, source)
            },
            PhaseView::Resources { dests } => dests == dests_of::<T>(history, source),
            PhaseView::Deleting { location, pending, dests } => {
                &&& doomed_of::<T>(history, goal, source).contains(location)
                &&& dests == targets_of::<T>(history, goal, source)
            },
            PhaseView::Finding { dest, rest } => goal == Goal::Apply && dests_of::<T>(
                history,
                source,
            ).contains(dest),
            PhaseView::Writing { dest, rest, write } => goal == Goal::Apply && dests_of::<T>(
                history,
                source,
            ).contains(dest),
        },
{
    law_course::<T>(history, goal, source, i);
}

/// What a sequence holds besides its first element.
pub proof fn lemma_skip_one<A>(s: Seq<A>)
    requires
        s.len() > 0,
    ensures
        s.contains(s[0]),
        forall|a: A| #[trigger] s.contains(a) ==> a == s[0] || s.skip(1).contains(a),
        forall|a: A| #[trigger] s.skip(1).contains(a) ==> s.contains(a),
{
    assert forall|a: A| #[trigger] s.contains(a) implies a == s[0] || s.skip(1).contains(a) by {
        let i = s.index_of(a);
        if i > 0 {
            assert(s.skip(1)[i - 1] == a);
        }
    }
    assert forall|a: A| #[trigger] s.skip(1).contains(a) implies s.contains(a) by {
        let i = s.skip(1).index_of(a);
        assert(s[i + 1] == a);
    }
}

/// No location of a copy elsewhere is the source's own.
proof fn lemma_elsewhere_is_not_the_source<T: Syncable>(
    objects: Seq<T::V>,
    origin: LocationView,
    places: Seq<LocationView>,
    location: LocationView,
)
    requires
        locations_elsewhere::<T>(objects, origin, places).contains(location),
    ensures
        location != origin,
{
    let elsewhere = |object: T::V| is_copy_elsewhere(T::meta_view(object), origin, places);
    let j = locations_elsewhere::<T>(objects, origin, places).index_of(location);
    objects.lemma_filter_pred(elsewhere, j);
}

/// Whatever the API answers, a run writes nothing but the copy of its source, to nothing but its
/// destinations, under the name of its source; it deletes nothing but the stale copies that it was
/// shown or, to clean up, what lies in the copies' places in its destinations and the copies that
/// it was shown elsewhere, and never the source. No destination is the namespace of the source.
pub proof fn law_requests<T: Syncable>(
    history: History<T::V>,
    goal: Goal,
    source: T::V,
    i: int,
)
    requires
        is_history::<T>(history, goal, source),
        0 <= i < history.runs.len(),
    ensures
        ({
            let origin = location_of(T::meta_view(source));
            let dests = dests_of::<T>(history, source);
            match request_of::<T>(history.runs[i]) {
                RequestView::ListNamespaces { selector } => selector
                    == selector_of(T::meta_view(source)),
                RequestView::ListResources => true,
                RequestView::Delete { location } => match goal {
                    Goal::Apply => stale_of::<T>(history, source).contains(location),
                    Goal::Cleanup => location != origin && {
                        ||| dests.contains(location.namespace) && location.namespace
                            != origin.namespace && location.name == origin.name
                        ||| elsewhere_of::<T>(history, source).contains(location)
                    },
                },
                RequestView::Get { location } => goal == Goal::Apply && dests.contains(
                    location.namespace,
                ) && location.name == origin.name,
                RequestView::Create { namespace, resource } => goal == Goal::Apply
                    && dests.contains(namespace) && namespace != origin.namespace && resource
                    == synced::<T>(source),
                RequestView::Replace { location, resource } => goal == Goal::Apply
                    && dests.contains(location.namespace) && location.namespace
                    != origin.namespace && location.name == origin.name && exists|
                    version: Option<Seq<char>>,
                | resource == #[trigger] with_version::<T>(synced::<T>(source), version),
            }
        }),
{
    law_course::<T>(history, goal, source, i);
    lemma_phase::<T>(history, goal, source, i);
    let origin = location_of(T::meta_view(source));
    let dests = dests_of::<T>(history, source);
    let run = history.runs[i];
    if i > 0 {
        let selected = history.replies[0]->Namespaces_0->Ok_0;
        assert forall|dest: Seq<char>| dests.contains(dest) implies dest != origin.namespace by {
            law_destinations(selected, origin.namespace, dest);
        }
    }
    match run.phase {
        PhaseView::Clearing { location, .. } => {
            let places = places_of::<T>(history, source);
            let j = places.index_of(location);
            assert(dests[j] == location.namespace);
            assert(dests.contains(location.namespace));
        },
        PhaseView::Deleting { location, .. } => {
            if goal == Goal::Cleanup {
                lemma_elsewhere_is_not_the_source::<T>(
                    history.replies[listing_of::<T>(history, goal, source)]->Resources_0->Ok_0,
                    origin,
                    places_of::<T>(history, source),
                    location,
                );
            }
        },
        PhaseView::Writing { dest, write: WriteView::Replace(version), .. } => {
            assert(dests.contains(dest));
            assert(request_of::<T>(run)->Replace_resource == with_version::<T>(
                synced::<T>(source),
                version,
            ));
        },
        _ => {},
    }
}

/// The failure in an answer that a run cannot go on after: any but a failed deletion, or that a
/// copy's place was looked up and is free.
pub open spec fn fatal_failure<V>(reply: ReplyView<V>) -> Option<ApiFailure> {
    match reply {
        ReplyView::Namespaces(Err(failure)) => Some(failure),
        ReplyView::Resources(Err(failure)) => Some(failure),
        ReplyView::Found(Err(failure)) => if failure.code == Some(404u16) {
            None
        } else {
            Some(failure)
        },
        ReplyView::Written(Err(failure)) => Some(failure),
        _ => None,
    }
}

/// The first failure that a run cannot go on after ends it, and is its outcome; a run without
/// such a failure succeeds.
pub proof fn law_outcome<T: Syncable>(
    history: History<T::V>,
    goal: Goal,
    source: T::V,
    outcome: Result<()>,
)
    requires
        is_history::<T>(history, goal, source),
        ends_with::<T>(history, outcome),
    ensures
        forall|i: int|
            0 <= i < history.runs.len() - 1 ==> fatal_failure(#[trigger] history.replies[i]) is None,
        outcome == match fatal_failure(history.replies.last()) {
            Some(failure) => Err::<(), Error>(Error::KubeError(failure.error)),
            None => Ok(()),
        },
{
    assert forall|i: int| 0 <= i < history.runs.len() - 1 implies fatal_failure(
        #[trigger] history.replies[i],
    ) is None by {
        assert(goes_on::<T>(history, i));
    }
}

/// Every run ends: to apply, after its two lists, one request for each stale copy that it was shown
/// and two for each destination; to clean up, after its two lists, one request for each destination
/// and one for each copy that it was shown elsewhere.
pub proof fn law_run_ends<T: Syncable>(history: History<T::V>, goal: Goal, source: T::V)
    requires
        is_history::<T>(history, goal, source),
    ensures
        history.runs.len() <= 1 || history.runs.len() <= match goal {
            Goal::Apply => 2 + if history.runs.len() > 2 {
                stale_of::<T>(history, source).len() + 2 * dests_of::<T>(history, source).len()
            } else {
                0
            },
            Goal::Cleanup => 2 + dests_of::<T>(history, source).len() + if history.runs.len() > 2
                + dests_of::<T>(history, source).len() {
                elsewhere_of::<T>(history, source).len()
            } else {
                0
            },
        },
{
    law_course::<T>(history, goal, source, history.runs.len() - 1);
}

/// Whatever the list of resources answers, and whatever becomes of the deletions, a cleanup whose
/// namespaces were listed asks to delete what lies in its place in every destination, one after
/// another, before it lists the resources.
pub proof fn law_cleanup_clears_destinations<T: Syncable>(
    history: History<T::V>,
    source: T::V,
    outcome: Result<()>,
    j: int,
)
    requires
        is_history::<T>(history, Goal::Cleanup, source),
        ends_with::<T>(history, outcome),
        history.replies[0]->Namespaces_0 is Ok,
        0 <= j < dests_of::<T>(history, source).len(),
    ensures
        ({
            let dests = dests_of::<T>(history, source);
            &&& dests.len() + 1 < history.runs.len()
            &&& request_of::<T>(history.runs[j + 1]) == (RequestView::<T::V>::Delete {
                location: LocationView {
                    namespace: dests[j],
                    name: T::meta_view(source).name_any(),
                },
            })
            &&& request_of::<T>(history.runs[dests.len() as int + 1])
                == RequestView::<T::V>::ListResources
        }),
{
    let dests = dests_of::<T>(history, source);
    law_course::<T>(history, Goal::Cleanup, source, history.runs.len() - 1);
    assert(dests.len() + 1 < history.runs.len());
    law_course::<T>(history, Goal::Cleanup, source, j + 1);
    law_course::<T>(history, Goal::Cleanup, source, dests.len() as int + 1);
}

/// Whether two answers are the same, or both are to deletions.
pub open spec fn alike_but_for_deletions<V>(a: ReplyView<V>, b: ReplyView<V>) -> bool {
    a == b || a is Deleted && b is Deleted
}

/// As long as the answers are alike, two runs come equally far.
proof fn lemma_come_equally_far<T: Syncable>(
    first: History<T::V>,
    second: History<T::V>,
    goal: Goal,
    source: T::V,
    i: int,
)
    requires
        is_history::<T>(first, goal, source),
        is_history::<T>(second, goal, source),
        0 <= i < first.runs.len(),
        i < second.runs.len(),
        forall|j: int|
            0 <= j < i ==> alike_but_for_deletions(#[trigger] first.replies[j], second.replies[j]),
    ensures
        first.runs[i] == second.runs[i],
    decreases i,
{
    if i > 0 {
        lemma_come_equally_far::<T>(first, second, goal, source, i - 1);
        assert(goes_on::<T>(first, i - 1));
        assert(goes_on::<T>(second, i - 1));
        assert(alike_but_for_deletions(first.replies[i - 1], second.replies[i - 1]));
    }
}

/// What becomes of deletions does not matter to a run: two runs of the same source whose answers
/// differ in those to deletions alone make the same requests and have the same outcome.
pub proof fn law_deletions_do_not_matter<T: Syncable>(
    first: History<T::V>,
    first_outcome: Result<()>,
    second: History<T::V>,
    second_outcome: Result<()>,
    goal: Goal,
    source: T::V,
)
    requires
        is_history::<T>(first, goal, source),
        ends_with::<T>(first, first_outcome),
        is_history::<T>(second, goal, source),
        ends_with::<T>(second, second_outcome),
        forall|i: int|
            0 <= i < first.replies.len() && i < second.replies.len() ==> alike_but_for_deletions(
                #[trigger] first.replies[i],
                second.replies[i],
            ),
    ensures
        first.runs.len() == second.runs.len(),
        forall|i: int|
            0 <= i < first.runs.len() ==> request_of::<T>(#[trigger] first.runs[i])
                == request_of::<T>(second.runs[i]),
        first_outcome == second_outcome,
{
    let last = if first.runs.len() <= second.runs.len() {
        first.runs.len() - 1
    } else {
        second.runs.len() - 1
    };
    lemma_come_equally_far::<T>(first, second, goal, source, last);
    assert(alike_but_for_deletions(first.replies[last], second.replies[last]));
    if last < first.runs.len() - 1 {
        assert(goes_on::<T>(first, last));
    }
    if last < second.runs.len() - 1 {
        assert(goes_on::<T>(second, last));
    }
    assert forall|i: int| 0 <= i < first.runs.len() implies request_of::<T>(
        #[trigger] first.runs[i],
    ) == request_of::<T>(second.runs[i]) by {
        lemma_come_equally_far::<T>(first, second, goal, source, i);
    }
}

/// The first request of a run is for the namespaces that the text of the source's sync annotation
/// selects; for all of them where that text is empty.
pub proof fn law_first_request<T: Syncable>(goal: Goal, source: T::V)
    requires
        T::meta_view(source).annotations is Some,
        T::meta_view(source).annotations->0.contains_key(KUSTD_SYNC_ANN@),
    ensures
        ({
            let text = T::meta_view(source).annotations->0[KUSTD_SYNC_ANN@];
            request_of::<T>(started::<T>(goal, source)) == (RequestView::<T::V>::ListNamespaces {
                selector: if text.len() == 0 {
                    None
                } else {
                    Some(text)
                },
            })
        }),
{
}

/// Whether the API listed a namespace of the name `name` in the first answer in `history`.
pub open spec fn lists_namespace<V>(history: History<V>, name: Seq<char>) -> bool {
    &&& history.replies[0] is Namespaces
    &&& history.replies[0]->Namespaces_0 is Ok
    &&& exists|j: int|
        {
            &&& 0 <= j < history.replies[0]->Namespaces_0->Ok_0.len()
            &&& (#[trigger] history.replies[0]->Namespaces_0->Ok_0[j]).metadata.name_any() == name
        }
}

/// Whether the answer `at` in `history` lists a resource at `location` whose annotations hold the
/// name and the namespace of `origin`.
pub open spec fn lists_copy<T: Syncable>(
    history: History<T::V>,
    at: int,
    origin: LocationView,
    location: LocationView,
) -> bool {
    &&& history.replies[at] is Resources
    &&& history.replies[at]->Resources_0 is Ok
    &&& exists|j: int|
        {
            &&& 0 <= j < history.replies[at]->Resources_0->Ok_0.len()
            &&& tells_origin(
                T::meta_view(#[trigger] history.replies[at]->Resources_0->Ok_0[j]),
                origin,
            )
            &&& lies_at(T::meta_view(history.replies[at]->Resources_0->Ok_0[j]), location)
        }
}

/// The destinations of a run are the namespaces that the API listed but the source's own.
proof fn lemma_dests<T: Syncable>(history: History<T::V>, source: T::V, dest: Seq<char>)
    requires
        history.replies[0] is Namespaces,
        history.replies[0]->Namespaces_0 is Ok,
    ensures
        dests_of::<T>(history, source).contains(dest) <==> lists_namespace(history, dest) && dest
            != T::meta_view(source).namespace->0,
{
    law_listed_namespaces_are_destinations(
        history.replies[0]->Namespaces_0->Ok_0,
        T::meta_view(source).namespace->0,
        dest,
    );
}

/// The places of a run are those under the source's name in the namespaces that the API listed but
/// the source's own.
proof fn lemma_places_of<T: Syncable>(
    history: History<T::V>,
    source: T::V,
    location: LocationView,
)
    requires
        history.replies[0] is Namespaces,
        history.replies[0]->Namespaces_0 is Ok,
    ensures
        places_of::<T>(history, source).contains(location) <==> {
            &&& lists_namespace(history, location.namespace)
            &&& location.namespace != T::meta_view(source).namespace->0
            &&& location.name == T::meta_view(source).name_any()
        },
{
    lemma_dests::<T>(history, source, location.namespace);
    let dests = dests_of::<T>(history, source);
    let places = places_of::<T>(history, source);
    if places.contains(location) {
        let j = places.index_of(location);
        assert(dests[j] == location.namespace);
    }
    if dests.contains(location.namespace) && location.name == T::meta_view(source).name_any() {
        let j = dests.index_of(location.namespace);
        assert(places[j] == location);
    }
}

/// A run to apply deletes nothing but what it was shown with annotations that hold the source's
/// name and the source's namespace, both of them, in a namespace that the API did not list or that
/// is the source's own.
pub proof fn law_apply_deletes_stale_copies_only<T: Syncable>(
    history: History<T::V>,
    source: T::V,
    i: int,
)
    requires
        is_history::<T>(history, Goal::Apply, source),
        T::meta_view(source).namespace is Some,
        0 <= i < history.runs.len(),
        request_of::<T>(history.runs[i]) is Delete,
    ensures
        ({
            let location = request_of::<T>(history.runs[i])->Delete_location;
            let origin = LocationView {
                namespace: T::meta_view(source).namespace->0,
                name: T::meta_view(source).name_any(),
            };
            &&& lists_copy::<T>(history, 1, origin, location)
            &&& !lists_namespace(history, location.namespace) || location.namespace
                == origin.namespace
        }),
{
    law_course::<T>(history, Goal::Apply, source, i);
    lemma_phase::<T>(history, Goal::Apply, source, i);
    let origin = location_of(T::meta_view(source));
    let location = request_of::<T>(history.runs[i])->Delete_location;
    let objects = history.replies[1]->Resources_0->Ok_0;
    let dests = dests_of::<T>(history, source);
    law_stale_copies::<T>(objects, origin, dests, location);
    lemma_dests::<T>(history, source, location.namespace);
}

/// A run to clean up deletes nothing but what lies under the source's name in a namespace that the
/// API listed, not the source's own, and what it was shown with annotations that hold the source's
/// name and the source's namespace, both of them. It does not delete the source.
pub proof fn law_cleanup_deletes_copies_only<T: Syncable>(
    history: History<T::V>,
    source: T::V,
    i: int,
)
    requires
        is_history::<T>(history, Goal::Cleanup, source),
        T::meta_view(source).namespace is Some,
        0 <= i < history.runs.len(),
        request_of::<T>(history.runs[i]) is Delete,
    ensures
        ({
            let location = request_of::<T>(history.runs[i])->Delete_location;
            let origin = LocationView {
                namespace: T::meta_view(source).namespace->0,
                name: T::meta_view(source).name_any(),
            };
            &&& location != origin
            &&& {
                ||| lists_namespace(history, location.namespace) && location.namespace
                    != origin.namespace && location.name == origin.name
                ||| exists|at: int|
                    0 <= at < i && #[trigger] lists_copy::<T>(history, at, origin, location)
            }
        }),
{
    law_course::<T>(history, Goal::Cleanup, source, i);
    lemma_phase::<T>(history, Goal::Cleanup, source, i);
    let origin = location_of(T::meta_view(source));
    let location = request_of::<T>(history.runs[i])->Delete_location;
    let at = listing_of::<T>(history, Goal::Cleanup, source);
    lemma_places_of::<T>(history, source, location);
    if history.runs[i].phase is Deleting {
        let objects = history.replies[at]->Resources_0->Ok_0;
        let places = places_of::<T>(history, source);
        law_copies_elsewhere::<T>(objects, origin, places, location);
        assert(lists_copy::<T>(history, at, origin, location));
    }
}

/// A run that succeeds comes to the end of its course.
proof fn lemma_whole_course<T: Syncable>(history: History<T::V>, goal: Goal, source: T::V)
    requires
        is_history::<T>(history, goal, source),
        ends_with::<T>(history, Ok(())),
    ensures
        history.replies[0] is Namespaces,
        history.replies[0]->Namespaces_0 is Ok,
        history.replies[listing_of::<T>(history, goal, source)] is Resources,
        history.replies[listing_of::<T>(history, goal, source)]->Resources_0 is Ok,
        history.runs.len() == listing_of::<T>(history, goal, source) + 1 + doomed_of::<T>(
            history,
            goal,
            source,
        ).len() + 2 * targets_of::<T>(history, goal, source).len(),
{
    law_course::<T>(history, goal, source, history.runs.len() - 1);
}

/// A run to apply that succeeds asks to delete every copy that it was shown, told by both of its
/// annotations, in a namespace that the API did not list or that is the source's own.
pub proof fn law_apply_deletes_every_stale_copy<T: Syncable>(
    history: History<T::V>,
    source: T::V,
    location: LocationView,
)
    requires
        is_history::<T>(history, Goal::Apply, source),
        ends_with::<T>(history, Ok(())),
        T::meta_view(source).namespace is Some,
        lists_copy::<T>(
            history,
            1,
            LocationView {
                namespace: T::meta_view(source).namespace->0,
                name: T::meta_view(source).name_any(),
            },
            location,
        ),
        !lists_namespace(history, location.namespace) || location.namespace == T::meta_view(
            source,
        ).namespace->0,
    ensures
        exists|i: int|
            0 <= i < history.runs.len() && request_of::<T>(#[trigger] history.runs[i])
                == (RequestView::<T::V>::Delete { location }),
{
    lemma_whole_course::<T>(history, Goal::Apply, source);
    let origin = location_of(T::meta_view(source));
    let objects = history.replies[1]->Resources_0->Ok_0;
    law_stale_copies::<T>(objects, origin, dests_of::<T>(history, source), location);
    lemma_dests::<T>(history, source, location.namespace);
    let k = stale_of::<T>(history, source).index_of(location);
    law_course::<T>(history, Goal::Apply, source, 2 + k);
    assert(request_of::<T>(history.runs[2 + k]) == (RequestView::<T::V>::Delete { location }));
}

/// A run to clean up that succeeds asks to delete every copy that it was shown, told by both of its
/// annotations, wherever it lies, but the source.
pub proof fn law_cleanup_deletes_every_copy<T: Syncable>(
    history: History<T::V>,
    source: T::V,
    at: int,
    location: LocationView,
)
    requires
        is_history::<T>(history, Goal::Cleanup, source),
        ends_with::<T>(history, Ok(())),
        T::meta_view(source).namespace is Some,
        0 <= at < history.runs.len(),
        lists_copy::<T>(
            history,
            at,
            LocationView {
                namespace: T::meta_view(source).namespace->0,
                name: T::meta_view(source).name_any(),
            },
            location,
        ),
        location.namespace != T::meta_view(source).namespace->0 || location.name != T::meta_view(
            source,
        ).name_any(),
    ensures
        exists|i: int|
            0 <= i < history.runs.len() && request_of::<T>(#[trigger] history.runs[i])
                == (RequestView::<T::V>::Delete { location }),
{
    lemma_whole_course::<T>(history, Goal::Cleanup, source);
    let origin = location_of(T::meta_view(source));
    let listing = listing_of::<T>(history, Goal::Cleanup, source);
    law_course::<T>(history, Goal::Cleanup, source, at);
    if at < history.runs.len() - 1 {
        assert(goes_on::<T>(history, at));
    }
    assert(at == listing);
    let places = places_of::<T>(history, source);
    if places.contains(location) {
        let k = places.index_of(location);
        law_course::<T>(history, Goal::Cleanup, source, 1 + k);
        assert(request_of::<T>(history.runs[1 + k]) == (RequestView::<T::V>::Delete { location }));
    } else {
        let objects = history.replies[at]->Resources_0->Ok_0;
        law_copies_elsewhere::<T>(objects, origin, places, location);
        let k = elsewhere_of::<T>(history, source).index_of(location);
        let i = listing + 1 + k;
        law_course::<T>(history, Goal::Cleanup, source, i);
        assert(request_of::<T>(history.runs[i]) == (RequestView::<T::V>::Delete { location }));
    }
}

/// Once the namespaces are listed, a run to clean up that ends, however it ends, has asked to
/// delete what lies under the source's name in every namespace that the API listed, but the
/// source's own.
pub proof fn law_cleanup_reaches_every_namespace<T: Syncable>(
    history: History<T::V>,
    source: T::V,
    outcome: Result<()>,
    dest: Seq<char>,
)
    requires
        is_history::<T>(history, Goal::Cleanup, source),
        ends_with::<T>(history, outcome),
        T::meta_view(source).namespace is Some,
        lists_namespace(history, dest),
        dest != T::meta_view(source).namespace->0,
    ensures
        exists|i: int|
            0 <= i < history.runs.len() && request_of::<T>(#[trigger] history.runs[i])
                == (RequestView::<T::V>::Delete {
                location: LocationView { namespace: dest, name: T::meta_view(source).name_any() },
            }),
{
    lemma_dests::<T>(history, source, dest);
    let j = dests_of::<T>(history, source).index_of(dest);
    law_cleanup_clears_destinations::<T>(history, source, outcome, j);
    assert(request_of::<T>(history.runs[j + 1]) is Delete);
}

/// A run to apply that succeeds writes to every namespace that the API listed, but the source's
/// own: it looks up what lies there under the source's name, and then creates or replaces it.
pub proof fn law_apply_reaches_every_namespace<T: Syncable>(
    history: History<T::V>,
    source: T::V,
    dest: Seq<char>,
) -> (i: int)
    requires
        is_history::<T>(history, Goal::Apply, source),
        ends_with::<T>(history, Ok(())),
        T::meta_view(source).namespace is Some,
        lists_namespace(history, dest),
        dest != T::meta_view(source).namespace->0,
    ensures
        0 <= i < history.runs.len() - 1,
        request_of::<T>(history.runs[i]) == (RequestView::<T::V>::Get {
            location: LocationView { namespace: dest, name: T::meta_view(source).name_any() },
        }),
        request_of::<T>(history.runs[i + 1]) is Create || request_of::<T>(
            history.runs[i + 1],
        ) is Replace,
{
    lemma_whole_course::<T>(history, Goal::Apply, source);
    lemma_dests::<T>(history, source, dest);
    let k = dests_of::<T>(history, source).index_of(dest);
    let i = 2 + stale_of::<T>(history, source).len() + 2 * k;
    law_course::<T>(history, Goal::Apply, source, i);
    law_course::<T>(history, Goal::Apply, source, i + 1);
    i
}

/// What a look at a place leads to. Where something was found, the copy of the source is put in its
/// place, with the resource version that was found, if any. Where the API answered that nothing is
/// there, with the code 404, the copy is created in that namespace. No other answer leads to a
/// request.
pub proof fn law_look_up_leads_to_write<T: Syncable>(
    history: History<T::V>,
    goal: Goal,
    source: T::V,
    i: int,
)
    requires
        is_history::<T>(history, goal, source),
        0 <= i < history.runs.len() - 1,
        request_of::<T>(history.runs[i]) is Get,
    ensures
        ({
            let location = request_of::<T>(history.runs[i])->Get_location;
            let next = request_of::<T>(history.runs[i + 1]);
            &&& history.replies[i] is Found
            &&& match history.replies[i]->Found_0 {
                Ok(found) => {
                    &&& next is Replace
                    &&& next->Replace_location == location
                    &&& next->Replace_resource == T::with_meta_view(
                        synced::<T>(source),
                        (ObjectMetaView {
                            resource_version: T::meta_view(found).resource_version,
                            ..T::meta_view(synced::<T>(source))
                        }),
                    )
                },
                Err(failure) => {
                    &&& failure.code == Some(404u16)
                    &&& next is Create
                    &&& next->namespace == location.namespace
                    &&& next->Create_resource == synced::<T>(source)
                },
            }
        }),
{
    law_course::<T>(history, goal, source, i);
    lemma_phase::<T>(history, goal, source, i);
    law_course::<T>(history, goal, source, i + 1);
    assert(goes_on::<T>(history, i));
    let copy = synced::<T>(source);
    let meta = synced_meta(T::meta_view(source));
    T::meta_view_laws(T::critical_data(source), meta, meta);
    T::meta_view_laws(copy, meta, meta);
}

/// A run writes nothing without having looked: before every write it has looked up that very place.
pub proof fn law_write_follows_look_up<T: Syncable>(
    history: History<T::V>,
    goal: Goal,
    source: T::V,
    i: int,
)
    requires
        is_history::<T>(history, goal, source),
        0 <= i < history.runs.len(),
        request_of::<T>(history.runs[i]) is Create || request_of::<T>(history.runs[i]) is Replace,
    ensures
        goal == Goal::Apply,
        i > 0,
        request_of::<T>(history.runs[i - 1]) is Get,
        lists_namespace(
            history,
            request_of::<T>(history.runs[i - 1])->Get_location.namespace,
        ),
        request_of::<T>(history.runs[i - 1])->Get_location.namespace != T::meta_view(
            source,
        ).namespace->0,
        request_of::<T>(history.runs[i - 1])->Get_location.name == T::meta_view(
            source,
        ).name_any(),
{
    law_course::<T>(history, goal, source, i);
    lemma_phase::<T>(history, goal, source, i);
    law_course::<T>(history, goal, source, i - 1);
    lemma_phase::<T>(history, goal, source, i - 1);
    let location = request_of::<T>(history.runs[i - 1])->Get_location;
    lemma_dests::<T>(history, source, location.namespace);
}

/// A run to apply deletes before it looks up or writes anything.
pub proof fn law_deletions_come_first<T: Syncable>(
    history: History<T::V>,
    source: T::V,
    i: int,
    j: int,
)
    requires
        is_history::<T>(history, Goal::Apply, source),
        0 <= i < history.runs.len(),
        0 <= j < history.runs.len(),
        request_of::<T>(history.runs[i]) is Delete,
        request_of::<T>(history.runs[j]) is Get || request_of::<T>(history.runs[j]) is Create
            || request_of::<T>(history.runs[j]) is Replace,
    ensures
        i < j,
{
    law_course::<T>(history, Goal::Apply, source, i);
    law_course::<T>(history, Goal::Apply, source, j);
}

/// A run takes the namespaces that the API listed, but the source's own, in the order in which they
/// were listed, each once. To clean up, the request after the list and one deletion for each that
/// was listed before is to delete what lies there under the source's name; to apply, the look and
/// the write there come after those for each that was listed before.
pub proof fn law_namespaces_in_order<T: Syncable>(
    history: History<T::V>,
    goal: Goal,
    source: T::V,
    j: int,
)
    requires
        is_history::<T>(history, goal, source),
        ends_with::<T>(history, Ok(())),
        T::meta_view(source).namespace is Some,
        0 <= j < history.replies[0]->Namespaces_0->Ok_0.len(),
        history.replies[0]->Namespaces_0->Ok_0[j].metadata.name_any() != T::meta_view(
            source,
        ).namespace->0,
    ensures
        ({
            let selected = history.replies[0]->Namespaces_0->Ok_0;
            let own = T::meta_view(source).namespace->0;
            let others = |candidate: NamespaceView| candidate.metadata.name_any() != own;
            let before = selected.take(j).filter(others).len() as int;
            let after = selected.filter(others).len() - before;
            let place = LocationView {
                namespace: selected[j].metadata.name_any(),
                name: T::meta_view(source).name_any(),
            };
            let i = match goal {
                Goal::Apply => history.runs.len() - 2 * after,
                Goal::Cleanup => 1 + before,
            };
            &&& 0 < i < history.runs.len()
            &&& request_of::<T>(history.runs[i]) == match goal {
                Goal::Apply => RequestView::<T::V>::Get { location: place },
                Goal::Cleanup => RequestView::<T::V>::Delete { location: place },
            }
        }),
{
    let selected = history.replies[0]->Namespaces_0->Ok_0;
    let own = T::meta_view(source).namespace->0;
    let others = |candidate: NamespaceView| candidate.metadata.name_any() != own;
    let before = selected.take(j).filter(others).len() as int;
    let after = selected.filter(others).len() - before;
    lemma_whole_course::<T>(history, goal, source);
    law_destinations_in_order(selected, own, j);
    let i = match goal {
        Goal::Apply => history.runs.len() - 2 * after,
        Goal::Cleanup => 1 + before,
    };
    law_course::<T>(history, goal, source, i);
}

} // verus!
