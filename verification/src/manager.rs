//! What the controller decides about one resource.
use crate::error::{Error, Result};
use crate::objects::{
    copy_option, option_view, views, Namespace, NamespaceView, ObjectMetaView, Resource, Timestamp,
};
use crate::outside;
use crate::string_map::Value;
use crate::syncable::{duplicated_meta, Syncable};
use crate::text::{list_entries, split_list};
use vstd::prelude::*;

verus! {

/// On a copy: the name of the resource that it is a copy of.
pub const KUSTD_ORIGIN_NAME: &'static str = "kustd.zdatainc.com/origin.name";

/// On a copy: the namespace of the resource that it is a copy of.
pub const KUSTD_ORIGIN_NAMESPACE: &'static str = "kustd.zdatainc.com/origin.namespace";

/// On a source: the label selector of the namespaces to sync to.
pub const KUSTD_SYNC_ANN: &'static str = "kustd.zdatainc.com/sync";

/// On a source: a comma separated list of the annotations that copies go without.
pub const KUSTD_REMOVE_ANN_ANN: &'static str = "kustd.zdatainc.com/remove-annotations";

/// On a source: a comma separated list of the labels that copies go without.
pub const KUSTD_REMOVE_LABELS_ANN: &'static str = "kustd.zdatainc.com/remove-labels";

/// The finalizer that keeps a source until its copies are gone.
pub const KUSTD_FINALIZER: &'static str = "kustd.zdatainc.com/cleanup";

/// What `map` holds for `key`, if anything.
pub open spec fn lookup(map: Map<Seq<char>, Seq<char>>, key: Seq<char>) -> Option<Seq<char>> {
    if map.contains_key(key) {
        Some(map[key])
    } else {
        None
    }
}

/// `map` without the keys that the comma separated list `list` names; all of it without a list.
pub open spec fn without_listed(
    map: Map<Seq<char>, Seq<char>>,
    list: Option<Seq<char>>,
) -> Map<Seq<char>, Seq<char>> {
    match list {
        Some(keys) => map.remove_keys(list_entries(keys).to_set()),
        None => map,
    }
}

/// The annotations of a resource with the metadata `meta`, with the sync annotation replaced by
/// the annotations that name the resource as the origin.
pub open spec fn origin_annotations(meta: ObjectMetaView) -> Map<Seq<char>, Seq<char>> {
    meta.annotations_or_empty().remove(KUSTD_SYNC_ANN@).insert(
        KUSTD_ORIGIN_NAME@,
        meta.name_any(),
    ).insert(KUSTD_ORIGIN_NAMESPACE@, meta.namespace->0)
}

/// The annotations of the copies of a resource with the metadata `meta`.
pub open spec fn synced_annotations(meta: ObjectMetaView) -> Map<Seq<char>, Seq<char>> {
    let annotations = origin_annotations(meta);
    without_listed(annotations, lookup(annotations, KUSTD_REMOVE_ANN_ANN@))
}

/// The labels of the copies of a resource with the metadata `meta`. The list of the labels to
/// remove counts even where the copies go without it.
pub open spec fn synced_labels(meta: ObjectMetaView) -> Map<Seq<char>, Seq<char>> {
    without_listed(
        meta.labels_or_empty(),
        lookup(origin_annotations(meta), KUSTD_REMOVE_LABELS_ANN@),
    )
}

/// The metadata of the copies of a resource with the metadata `meta`, in no namespace yet.
pub open spec fn synced_meta(meta: ObjectMetaView) -> ObjectMetaView {
    ObjectMetaView {
        name: Some(meta.name_any()),
        annotations: Some(synced_annotations(meta)),
        labels: Some(synced_labels(meta)),
        ..ObjectMetaView::empty()
    }
}

/// The copies of the resource that `source` stands for, in no namespace yet.
pub open spec fn synced<T: Syncable>(source: T::V) -> T::V {
    T::with_meta_view(T::critical_data(source), synced_meta(T::meta_view(source)))
}

/// Converts a managed resource into a syncable resource.
pub fn managed_to_synced_resource<T: Syncable>(source_resource: &T) -> (result: Result<T>)
    requires
        T::meta_view(source_resource@).namespace is Some,
    ensures
        result is Ok,
        result->Ok_0@ == synced::<T>(source_resource@),
{
    let name = source_resource.meta().name_any();
    let namespace = copy_option(&source_resource.meta().namespace).unwrap();
    let mut new_resource = source_resource.duplicate();
    let ghost source_meta = T::meta_view(source_resource@);
    let ghost duplicate = new_resource@;
    proof {
        T::meta_view_laws(
            T::critical_data(source_resource@),
            duplicated_meta(source_meta),
            synced_meta(source_meta),
        );
    }
    let mut annotations = new_resource.meta().annotations();
    annotations.remove(KUSTD_SYNC_ANN);
    annotations.insert(KUSTD_ORIGIN_NAME.to_owned(), name);
    annotations.insert(KUSTD_ORIGIN_NAMESPACE.to_owned(), namespace);
    let removed_annotations = match annotations.get(KUSTD_REMOVE_ANN_ANN) {
        Some(keys) => Some(split_list(keys.as_str())),
        None => None,
    };
    let mut labels = new_resource.meta().labels();
    if let Some(keys) = annotations.get(KUSTD_REMOVE_LABELS_ANN) {
        labels.remove_all(&split_list(keys.as_str()));
    }
    if let Some(keys) = removed_annotations {
        annotations.remove_all(&keys);
    }
    let meta = new_resource.meta_mut();
    meta.namespace = None;
    meta.annotations = Some(annotations);
    meta.labels = Some(labels);
    Ok(new_resource)
}

/// Whether a resource with the metadata `meta` asks to be synced.
pub open spec fn is_source(meta: ObjectMetaView) -> bool {
    meta.annotations_or_empty().contains_key(KUSTD_SYNC_ANN@)
}

/// A resource that can be synced: it lies in a namespace and asks to be synced.
pub open spec fn is_managed(meta: ObjectMetaView) -> bool {
    meta.namespace is Some && is_source(meta)
}

/// The label selector of the namespaces that a source with the metadata `meta` is synced to; none
/// where it is synced to all of them.
pub open spec fn selector_of(meta: ObjectMetaView) -> Option<Seq<char>> {
    let selector = meta.annotations_or_empty()[KUSTD_SYNC_ANN@];
    if selector.len() == 0 {
        None
    } else {
        Some(selector)
    }
}

/// Given a resource, return the label selector of the namespaces it should be synchronized into.
pub fn destination_selector<T: Resource>(resource: &T) -> (result: Option<String>)
    requires
        is_source(T::meta_view(resource@)),
    ensures
        option_view(result) == selector_of(T::meta_view(resource@)),
{
    let selector = resource.meta().annotation(KUSTD_SYNC_ANN).unwrap();
    if selector.as_str().is_empty() {
        None
    } else {
        outside::list_params_labels(selector.as_str())
    }
}

/// The namespaces in `selected` that go by another name than `namespace`.
pub open spec fn destinations(
    selected: Seq<NamespaceView>,
    namespace: Seq<char>,
) -> Seq<NamespaceView> {
    selected.filter(|candidate: NamespaceView| candidate.metadata.name_any() != namespace)
}

/// Given the namespace that a resource is in, and the namespaces that its label selector matched,
/// return the namespaces it should be synchronized into.
pub fn destination_namespaces(
    namespace: &String,
    selected: Vec<Namespace>,
) -> (result: Vec<Namespace>)
    ensures
        views(result@) == destinations(views(selected@), namespace@),
{
    let ghost all = views(selected@);
    let ghost elsewhere = |candidate: NamespaceView| candidate.metadata.name_any() != namespace@;
    let mut result: Vec<Namespace> = Vec::new();
    let mut i: usize = 0;
    proof {
        reveal(Seq::filter);
    }
    assert(views(result@) =~= all.take(0).filter(elsewhere));
    while i < selected.len()
        invariant
            i <= selected@.len(),
            all == views(selected@),
            elsewhere == (|candidate: NamespaceView|
                candidate.metadata.name_any() != namespace@),
            views(result@) == all.take(i as int).filter(elsewhere),
        decreases selected@.len() - i,
    {
        let ghost before = views(result@);
        let candidate = selected[i].copied();
        if candidate.metadata.name_any() != *namespace {
            result.push(candidate);
            assert(views(result@) =~= before.push(all[i as int]));
        }
        proof {
            lemma_filter_next(all, elsewhere, i as int);
        }
        i = i + 1;
    }
    assert(all.take(all.len() as int) =~= all);
    result
}

/// What filtering one element more of `s` adds.
proof fn lemma_filter_next<A>(s: Seq<A>, keep: spec_fn(A) -> bool, i: int)
    requires
        0 <= i < s.len(),
    ensures
        s.take(i + 1).filter(keep) == if keep(s[i]) {
            s.take(i).filter(keep).push(s[i])
        } else {
            s.take(i).filter(keep)
        },
{
    reveal(Seq::filter);
    assert(s.take(i + 1).drop_last() =~= s.take(i));
}

/// The names of namespaces.
pub open spec fn namespace_names(namespaces: Seq<NamespaceView>) -> Seq<Seq<char>> {
    namespaces.map_values(|namespace: NamespaceView| namespace.metadata.name_any())
}

/// The names of namespaces.
pub fn names_of(namespaces: &Vec<Namespace>) -> (result: Vec<String>)
    ensures
        result.deep_view() == namespace_names(views(namespaces@)),
{
    let mut result: Vec<String> = Vec::new();
    let mut i: usize = 0;
    while i < namespaces.len()
        invariant
            i <= namespaces@.len(),
            result@.len() == i,
            forall|j: int|
                0 <= j < i ==> (#[trigger] result@[j])@ == namespaces@[j]@.metadata.name_any(),
        decreases namespaces@.len() - i,
    {
        result.push(namespaces[i].metadata.name_any());
        i = i + 1;
    }
    assert(result.deep_view() =~= namespace_names(views(namespaces@)));
    result
}

/// Where an object lies.
#[derive(Debug)]
pub struct Location {
    pub namespace: String,
    pub name: String,
}

/// Where an object lies, as a mathematical value.
#[verifier::ext_equal]
pub struct LocationView {
    pub namespace: Seq<char>,
    pub name: Seq<char>,
}

impl View for Location {
    type V = LocationView;

    open spec fn view(&self) -> LocationView {
        LocationView { namespace: self.namespace@, name: self.name@ }
    }
}

impl Value for Location {
    fn copied(&self) -> (result: Self) {
        Location { namespace: self.namespace.clone(), name: self.name.clone() }
    }
}

/// Where an object with the metadata `meta` lies.
pub open spec fn location_of(meta: ObjectMetaView) -> LocationView {
    LocationView { namespace: meta.namespace->0, name: meta.name_any() }
}

/// Whether an object with the metadata `meta` names the resource at `origin` as its origin.
pub open spec fn is_copy_of(meta: ObjectMetaView, origin: LocationView) -> bool {
    &&& meta.annotated(KUSTD_ORIGIN_NAME@, origin.name)
    &&& meta.annotated(KUSTD_ORIGIN_NAMESPACE@, origin.namespace)
}

/// Whether an object with the metadata `meta` is a copy of the resource at `origin` in a namespace
/// that is not among `dests`.
pub open spec fn is_stale(
    meta: ObjectMetaView,
    origin: LocationView,
    dests: Seq<Seq<char>>,
) -> bool {
    &&& is_copy_of(meta, origin)
    &&& meta.namespace is Some
    &&& !dests.contains(meta.namespace->0)
}

/// Where those of `objects` lie that are copies of the resource at `origin` in a namespace that is
/// not among `dests`.
pub open spec fn stale_locations<T: Resource>(
    objects: Seq<T::V>,
    origin: LocationView,
    dests: Seq<Seq<char>>,
) -> Seq<LocationView> {
    objects.filter(|object: T::V| is_stale(T::meta_view(object), origin, dests)).map_values(
        |object: T::V| location_of(T::meta_view(object)),
    )
}

/// Whether one of `texts` is `text`.
fn contains_text(texts: &Vec<String>, text: &String) -> (result: bool)
    ensures
        result == texts.deep_view().contains(text@),
{
    let mut i: usize = 0;
    while i < texts.len()
        invariant
            i <= texts@.len(),
            forall|j: int| 0 <= j < i ==> (#[trigger] texts@[j])@ != text@,
        decreases texts@.len() - i,
    {
        if texts[i] == *text {
            assert(texts.deep_view()[i as int] == text@);
            return true;
        }
        i = i + 1;
    }
    assert forall|j: int| 0 <= j < texts.deep_view().len() implies texts.deep_view()[j] != text@ by {
        assert(texts@[j]@ != text@);
    }
    false
}

/// Whether `object` has the annotation `key` with the value `value`.
fn has_annotation<T: Resource>(object: &T, key: &str, value: &String) -> (result: bool)
    ensures
        result == T::meta_view(object@).annotated(key@, value@),
{
    match object.meta().annotation(key) {
        Some(found) => *found == *value,
        None => false,
    }
}

/// Where those of `objects` lie that are copies of the resource at `origin` in a namespace that is
/// not among `dests`.
pub fn stale_copies<T: Resource>(
    objects: &Vec<T>,
    origin: &Location,
    dests: &Vec<String>,
) -> (result: Vec<Location>)
    ensures
        views(result@) == stale_locations::<T>(views(objects@), origin@, dests.deep_view()),
{
    let ghost all = views(objects@);
    let ghost stale = |object: T::V|
        is_stale(T::meta_view(object), origin@, dests.deep_view());
    let ghost locate = |object: T::V| location_of(T::meta_view(object));
    let mut result: Vec<Location> = Vec::new();
    let mut i: usize = 0;
    proof {
        reveal(Seq::filter);
    }
    assert(views(result@) =~= all.take(0).filter(stale).map_values(locate));
    while i < objects.len()
        invariant
            i <= objects@.len(),
            all == views(objects@),
            stale == (|object: T::V|
                is_stale(T::meta_view(object), origin@, dests.deep_view())),
            locate == (|object: T::V| location_of(T::meta_view(object))),
            views(result@) == all.take(i as int).filter(stale).map_values(locate),
        decreases objects@.len() - i,
    {
        let ghost before = views(result@);
        let ghost kept = all.take(i as int).filter(stale);
        let object = &objects[i];
        assert(all[i as int] == object@);
        if has_annotation(object, KUSTD_ORIGIN_NAME, &origin.name) && has_annotation(
            object,
            KUSTD_ORIGIN_NAMESPACE,
            &origin.namespace,
        ) {
            if let Some(namespace) = &object.meta().namespace {
                if !contains_text(dests, namespace) {
                    let location = Location {
                        namespace: namespace.clone(),
                        name: object.meta().name_any(),
                    };
                    result.push(location);
                    assert(views(result@) =~= before.push(locate(object@)));
                    assert(kept.push(object@).map_values(locate) =~= kept.map_values(locate).push(
                        locate(object@),
                    ));
                }
            }
        }
        proof {
            lemma_filter_next(all, stale, i as int);
        }
        i = i + 1;
    }
    assert(all.take(all.len() as int) =~= all);
    result
}

/// Whether an object with the metadata `meta` is a copy of the resource at `origin`, not that
/// resource itself, and lies at none of `places`.
pub open spec fn is_copy_elsewhere(
    meta: ObjectMetaView,
    origin: LocationView,
    places: Seq<LocationView>,
) -> bool {
    &&& is_copy_of(meta, origin)
    &&& meta.namespace is Some
    &&& location_of(meta) != origin
    &&& !places.contains(location_of(meta))
}

/// Where those of `objects` lie that are copies of the resource at `origin`, not that resource
/// itself, and lie at none of `places`.
pub open spec fn locations_elsewhere<T: Resource>(
    objects: Seq<T::V>,
    origin: LocationView,
    places: Seq<LocationView>,
) -> Seq<LocationView> {
    objects.filter(
        |object: T::V| is_copy_elsewhere(T::meta_view(object), origin, places),
    ).map_values(|object: T::V| location_of(T::meta_view(object)))
}

/// Whether `a` is the location `b`.
fn same_location(a: &Location, b: &Location) -> (result: bool)
    ensures
        result == (a@ == b@),
{
    a.namespace == b.namespace && a.name == b.name
}

/// Whether one of `locations` is `location`.
fn contains_location(locations: &Vec<Location>, location: &Location) -> (result: bool)
    ensures
        result == views(locations@).contains(location@),
{
    let mut i: usize = 0;
    while i < locations.len()
        invariant
            i <= locations@.len(),
            forall|j: int| 0 <= j < i ==> (#[trigger] locations@[j])@ != location@,
        decreases locations@.len() - i,
    {
        if same_location(&locations[i], location) {
            assert(views(locations@)[i as int] == location@);
            return true;
        }
        i = i + 1;
    }
    assert forall|j: int| 0 <= j < views(locations@).len() implies views(locations@)[j]
        != location@ by {
        assert(locations@[j]@ != location@);
    }
    false
}

/// Where those of `objects` lie that are copies of the resource at `origin`, not that resource
/// itself, and lie at none of `places`.
pub fn copies_elsewhere<T: Resource>(
    objects: &Vec<T>,
    origin: &Location,
    places: &Vec<Location>,
) -> (result: Vec<Location>)
    ensures
        views(result@) == locations_elsewhere::<T>(views(objects@), origin@, views(places@)),
{
    let ghost all = views(objects@);
    let ghost elsewhere = |object: T::V|
        is_copy_elsewhere(T::meta_view(object), origin@, views(places@));
    let ghost locate = |object: T::V| location_of(T::meta_view(object));
    let mut result: Vec<Location> = Vec::new();
    let mut i: usize = 0;
    proof {
        reveal(Seq::filter);
    }
    assert(views(result@) =~= all.take(0).filter(elsewhere).map_values(locate));
    while i < objects.len()
        invariant
            i <= objects@.len(),
            all == views(objects@),
            elsewhere == (|object: T::V|
                is_copy_elsewhere(T::meta_view(object), origin@, views(places@))),
            locate == (|object: T::V| location_of(T::meta_view(object))),
            views(result@) == all.take(i as int).filter(elsewhere).map_values(locate),
        decreases objects@.len() - i,
    {
        let ghost before = views(result@);
        let ghost kept = all.take(i as int).filter(elsewhere);
        let object = &objects[i];
        assert(all[i as int] == object@);
        if has_annotation(object, KUSTD_ORIGIN_NAME, &origin.name) && has_annotation(
            object,
            KUSTD_ORIGIN_NAMESPACE,
            &origin.namespace,
        ) {
            if let Some(namespace) = &object.meta().namespace {
                let location = Location {
                    namespace: namespace.clone(),
                    name: object.meta().name_any(),
                };
                assert(location@ == locate(object@));
                if !same_location(&location, origin) && !contains_location(places, &location) {
                    result.push(location);
                    assert(views(result@) =~= before.push(locate(object@)));
                    assert(kept.push(object@).map_values(locate) =~= kept.map_values(locate).push(
                        locate(object@),
                    ));
                }
            }
        }
        proof {
            lemma_filter_next(all, elsewhere, i as int);
        }
        i = i + 1;
    }
    assert(all.take(all.len() as int) =~= all);
    result
}

/// What becomes of a resource after it was looked at.
#[derive(Clone, Copy, Debug, PartialEq, Eq, Structural)]
pub struct Action {
    /// The seconds after which the resource is looked at again, even if it does not change.
    pub requeue_after: Option<u64>,
}

impl Action {
    /// To look at the resource again after `seconds`.
    pub fn requeue(seconds: u64) -> (result: Action)
        ensures
            result == (Action { requeue_after: Some(seconds) }),
    {
        Action { requeue_after: Some(seconds) }
    }
}

/// What to do about a resource.
#[derive(Debug)]
pub enum Decision {
    /// Leave it, and look at it again as the action says.
    Skip(Action),
    /// Let the finalizer of that name, in that namespace, say whether to apply or to clean up.
    Finalize { namespace: String, finalizer: String },
}

/// Whether `decision` is the one about a resource with the metadata `meta`: a source is handed to
/// its finalizer, any other resource is looked at again after two seconds.
pub open spec fn is_decision(decision: Decision, meta: ObjectMetaView) -> bool {
    match decision {
        Decision::Skip(action) => !is_source(meta) && action == (Action {
            requeue_after: Some(2),
        }),
        Decision::Finalize { namespace, finalizer } => is_source(meta) && namespace@
            == meta.namespace->0 && finalizer@ == KUSTD_FINALIZER@,
    }
}

/// Looks at a resource now: takes note of the time and decides whether the resource is to be
/// synced. Which time it is remains unsaid.
pub fn reconcile<T: Resource>(resource: &T, state: &mut State) -> (result: Decision)
    requires
        T::meta_view(resource@).namespace is Some,
    ensures
        is_decision(result, T::meta_view(resource@)),
        result is Finalize <==> T::meta_view(resource@).annotations is Some && T::meta_view(
            resource@,
        ).annotations->0.contains_key(KUSTD_SYNC_ANN@),
        final(state).last_event.nanoseconds < 1_000_000_000,
        final(state).reporter == old(state).reporter,
{
    reconcile_at(resource, state, now())
}

/// Looks at a resource at the time `at`: takes note of the time and decides whether the resource
/// is to be synced.
pub fn reconcile_at<T: Resource>(resource: &T, state: &mut State, at: Timestamp) -> (result:
    Decision)
    requires
        T::meta_view(resource@).namespace is Some,
    ensures
        is_decision(result, T::meta_view(resource@)),
        result is Finalize <==> T::meta_view(resource@).annotations is Some && T::meta_view(
            resource@,
        ).annotations->0.contains_key(KUSTD_SYNC_ANN@),
        final(state).last_event == at,
        final(state).reporter == old(state).reporter,
{
    state.record_event(at);
    match resource.meta().annotation(KUSTD_SYNC_ANN) {
        None => Decision::Skip(Action::requeue(2)),
        Some(selector) => Decision::Finalize {
            namespace: copy_option(&resource.meta().namespace).unwrap(),
            finalizer: KUSTD_FINALIZER.to_owned(),
        },
    }
}

/// What becomes of a resource after it was synced, or its copies were removed, with the outcome
/// `outcome`: it is looked at again after five minutes, unless that failed.
pub fn settle(outcome: Result<()>) -> (result: Result<Action>)
    ensures
        result == match outcome {
            Ok(_) => Ok::<Action, Error>(Action { requeue_after: Some(300) }),
            Err(error) => Err(error),
        },
{
    match outcome {
        Ok(_) => Ok(Action::requeue(60 * 5)),
        Err(error) => Err(error),
    }
}

/// What becomes of a resource whose reconciliation failed, whatever the reason.
pub fn error_policy() -> (result: Action)
    ensures
        result == (Action { requeue_after: Some(20) }),
{
    Action::requeue(20)
}

/// Who reports events.
#[derive(Debug)]
pub struct Reporter {
    pub controller: String,
    pub instance: Option<String>,
}

impl Clone for Reporter {
    fn clone(&self) -> (result: Self)
        ensures
            result.controller@ == self.controller@,
            option_view(result.instance) == option_view(self.instance),
    {
        Reporter { controller: self.controller.clone(), instance: copy_option(&self.instance) }
    }
}

/// What the controller tells about itself.
#[derive(Debug)]
pub struct State {
    /// When a resource was looked at last.
    pub last_event: Timestamp,
    /// Who reports the controller's events.
    pub reporter: Reporter,
}

impl Clone for State {
    fn clone(&self) -> (result: Self)
        ensures
            result.last_event == self.last_event,
            result.reporter.controller@ == self.reporter.controller@,
            option_view(result.reporter.instance) == option_view(self.reporter.instance),
    {
        State { last_event: self.last_event, reporter: self.reporter.clone() }
    }
}

/// The time now.
fn now() -> (result: Timestamp)
    ensures
        result.nanoseconds < 1_000_000_000,
{
    let (seconds, nanoseconds) = outside::utc_now();
    Timestamp { seconds, nanoseconds }
}

impl State {
    /// The state of a controller that starts now.
    pub fn new() -> (result: State)
        ensures
            result.last_event.nanoseconds < 1_000_000_000,
            result.reporter.controller@ == "kustd-controller"@,
    {
        let (controller, instance) = outside::reporter("kustd-controller");
        State::started(now(), Reporter { controller, instance })
    }

    /// The state of a controller that started at the time `at` and whose events `reporter`
    /// reports.
    pub fn started(at: Timestamp, reporter: Reporter) -> (result: State)
        ensures
            result == (State { last_event: at, reporter }),
    {
        State { last_event: at, reporter }
    }

    /// Takes note that a resource was looked at, at the time `at`.
    pub fn record_event(&mut self, at: Timestamp)
        ensures
            final(self).last_event == at,
            final(self).reporter == old(self).reporter,
    {
        self.last_event = at;
    }
}

} // verus!
