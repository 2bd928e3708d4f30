//! What holds of copies and destinations, whatever the source.
use crate::manager::{
    destinations, is_copy_elsewhere, is_copy_of, is_decision, is_managed, is_source, is_stale,
    location_of, locations_elsewhere, lookup, namespace_names, origin_annotations, selector_of,
    stale_locations, synced, synced_annotations, synced_labels, synced_meta, Decision,
    Location, LocationView, KUSTD_FINALIZER, KUSTD_ORIGIN_NAME, KUSTD_ORIGIN_NAMESPACE,
    KUSTD_REMOVE_ANN_ANN, KUSTD_REMOVE_LABELS_ANN, KUSTD_SYNC_ANN,
};
use crate::objects::{NamespaceView, ObjectMetaView, Resource};
use crate::syncable::{ConfigMap, ConfigMapView, Secret, SecretView, Syncable};
use crate::text::list_entries;
use vstd::prelude::*;

verus! {

/// No two of the annotations with a meaning of their own have the same key.
proof fn lemma_annotation_keys_differ()
    ensures
        KUSTD_SYNC_ANN@ != KUSTD_ORIGIN_NAME@,
        KUSTD_SYNC_ANN@ != KUSTD_ORIGIN_NAMESPACE@,
        KUSTD_SYNC_ANN@ != KUSTD_REMOVE_ANN_ANN@,
        KUSTD_SYNC_ANN@ != KUSTD_REMOVE_LABELS_ANN@,
        KUSTD_ORIGIN_NAME@ != KUSTD_ORIGIN_NAMESPACE@,
        KUSTD_ORIGIN_NAME@ != KUSTD_REMOVE_ANN_ANN@,
        KUSTD_ORIGIN_NAME@ != KUSTD_REMOVE_LABELS_ANN@,
        KUSTD_ORIGIN_NAMESPACE@ != KUSTD_REMOVE_ANN_ANN@,
        KUSTD_ORIGIN_NAMESPACE@ != KUSTD_REMOVE_LABELS_ANN@,
        KUSTD_REMOVE_ANN_ANN@ != KUSTD_REMOVE_LABELS_ANN@,
{
    reveal_strlit("kustd.zdatainc.com/origin.name");
    reveal_strlit("kustd.zdatainc.com/origin.namespace");
    reveal_strlit("kustd.zdatainc.com/sync");
    reveal_strlit("kustd.zdatainc.com/remove-annotations");
    reveal_strlit("kustd.zdatainc.com/remove-labels");
    assert(KUSTD_ORIGIN_NAME@.len() == 30);
    assert(KUSTD_ORIGIN_NAMESPACE@.len() == 35);
    assert(KUSTD_SYNC_ANN@.len() == 23);
    assert(KUSTD_REMOVE_ANN_ANN@.len() == 37);
    assert(KUSTD_REMOVE_LABELS_ANN@.len() == 32);
}

/// Whether the annotation `list` of a source with the metadata `meta` is a comma separated list
/// that names `key`.
pub open spec fn lists_key(meta: ObjectMetaView, list: Seq<char>, key: Seq<char>) -> bool {
    let annotations = meta.annotations_or_empty();
    annotations.contains_key(list) && list_entries(annotations[list]).contains(key)
}

/// The list of annotations to remove is the source's own.
proof fn lemma_removed_annotations(meta: ObjectMetaView, key: Seq<char>)
    ensures
        synced_annotations(meta).contains_key(key) <==> (origin_annotations(meta).contains_key(key)
            && !lists_key(meta, KUSTD_REMOVE_ANN_ANN@, key)),
        synced_annotations(meta).contains_key(key) ==> synced_annotations(meta)[key]
            == origin_annotations(meta)[key],
{
    lemma_annotation_keys_differ();
    let list = lookup(origin_annotations(meta), KUSTD_REMOVE_ANN_ANN@);
    assert(list == lookup(meta.annotations_or_empty(), KUSTD_REMOVE_ANN_ANN@));
    if list is Some {
        assert(list_entries(list->0).to_set().contains(key) == list_entries(list->0).contains(key));
    }
}

/// A copy is no source: it is never synced any further.
pub proof fn law_copy_is_no_source<T: Syncable>(source: T::V)
    ensures
        !is_source(T::meta_view(synced::<T>(source))),
{
    let meta = T::meta_view(source);
    T::meta_view_laws(T::critical_data(source), synced_meta(meta), synced_meta(meta));
    lemma_annotation_keys_differ();
    lemma_removed_annotations(meta, KUSTD_SYNC_ANN@);
}

/// A copy goes by the name of its source and names its source as its origin, unless the source
/// lists an origin annotation among those to remove.
pub proof fn law_copy_names_its_origin<T: Syncable>(source: T::V)
    requires
        !lists_key(T::meta_view(source), KUSTD_REMOVE_ANN_ANN@, KUSTD_ORIGIN_NAME@),
        !lists_key(T::meta_view(source), KUSTD_REMOVE_ANN_ANN@, KUSTD_ORIGIN_NAMESPACE@),
    ensures
        T::meta_view(synced::<T>(source)).name == Some(T::meta_view(source).name_any()),
        is_copy_of(T::meta_view(synced::<T>(source)), location_of(T::meta_view(source))),
{
    let meta = T::meta_view(source);
    T::meta_view_laws(T::critical_data(source), synced_meta(meta), synced_meta(meta));
    lemma_annotation_keys_differ();
    lemma_removed_annotations(meta, KUSTD_ORIGIN_NAME@);
    lemma_removed_annotations(meta, KUSTD_ORIGIN_NAMESPACE@);
}

/// A copy has none of the annotations that its source lists as those to remove, and keeps every
/// other annotation of its source but the sync annotation and those that name an origin.
pub proof fn law_annotations_of_copy<T: Syncable>(source: T::V, key: Seq<char>)
    ensures
        ({
            let meta = T::meta_view(source);
            let kept = T::meta_view(synced::<T>(source)).annotations_or_empty();
            &&& lists_key(meta, KUSTD_REMOVE_ANN_ANN@, key) ==> !kept.contains_key(key)
            &&& !lists_key(meta, KUSTD_REMOVE_ANN_ANN@, key) && key != KUSTD_SYNC_ANN@ && key
                != KUSTD_ORIGIN_NAME@ && key != KUSTD_ORIGIN_NAMESPACE@ ==> lookup(kept, key)
                == lookup(meta.annotations_or_empty(), key)
        }),
{
    let meta = T::meta_view(source);
    T::meta_view_laws(T::critical_data(source), synced_meta(meta), synced_meta(meta));
    lemma_removed_annotations(meta, key);
}

/// A copy has none of the labels that its source lists as those to remove, and keeps every other
/// label of its source.
pub proof fn law_labels_of_copy<T: Syncable>(source: T::V, key: Seq<char>)
    ensures
        ({
            let meta = T::meta_view(source);
            let kept = T::meta_view(synced::<T>(source)).labels_or_empty();
            &&& lists_key(meta, KUSTD_REMOVE_LABELS_ANN@, key) ==> !kept.contains_key(key)
            &&& !lists_key(meta, KUSTD_REMOVE_LABELS_ANN@, key) ==> lookup(kept, key) == lookup(
                meta.labels_or_empty(),
                key,
            )
        }),
{
    let meta = T::meta_view(source);
    T::meta_view_laws(T::critical_data(source), synced_meta(meta), synced_meta(meta));
    lemma_annotation_keys_differ();
    let list = lookup(origin_annotations(meta), KUSTD_REMOVE_LABELS_ANN@);
    assert(list == lookup(meta.annotations_or_empty(), KUSTD_REMOVE_LABELS_ANN@));
    if list is Some {
        assert(list_entries(list->0).to_set().contains(key) == list_entries(list->0).contains(key));
    }
}

/// A copy holds the critical data of its source, and of its metadata nothing but the name,
/// annotations and labels: nothing that ties it to the source's place in the cluster, such as its
/// namespace, identity, owners or finalizers.
pub proof fn law_copy_holds_the_data<T: Syncable>(source: T::V)
    ensures
        T::critical_data(synced::<T>(source)) == T::critical_data(source),
        T::meta_view(synced::<T>(source)) == (ObjectMetaView {
            name: Some(T::meta_view(source).name_any()),
            annotations: Some(synced_annotations(T::meta_view(source))),
            labels: Some(synced_labels(T::meta_view(source))),
            ..ObjectMetaView::empty()
        }),
{
    let meta = synced_meta(T::meta_view(source));
    T::meta_view_laws(T::critical_data(source), meta, meta);
    T::critical_data_laws(source, meta);
    T::critical_data_laws(T::critical_data(source), meta);
}

/// The destinations of a resource in `namespace` are exactly the selected namespaces but its own.
pub proof fn law_destinations(
    selected: Seq<NamespaceView>,
    namespace: Seq<char>,
    dest: Seq<char>,
)
    ensures
        namespace_names(destinations(selected, namespace)).contains(dest) <==> dest != namespace
            && namespace_names(selected).contains(dest),
    decreases selected.len(),
{
    reveal(Seq::filter);
    let keep = |candidate: NamespaceView| candidate.metadata.name_any() != namespace;
    let names = namespace_names(selected);
    let kept = namespace_names(destinations(selected, namespace));
    if selected.len() > 0 {
        let rest = selected.drop_last();
        law_destinations(rest, namespace, dest);
        let last = selected.last().metadata.name_any();
        lemma_contains_pushed(namespace_names(rest), last, dest);
        assert(names =~= namespace_names(rest).push(last));
        let kept_rest = namespace_names(destinations(rest, namespace));
        lemma_contains_pushed(kept_rest, last, dest);
        if keep(selected.last()) {
            assert(kept =~= kept_rest.push(last));
        } else {
            assert(kept =~= kept_rest);
        }
    }
}

/// What a sequence with one element more contains.
proof fn lemma_contains_pushed<A>(s: Seq<A>, last: A, a: A)
    ensures
        s.push(last).contains(a) <==> s.contains(a) || a == last,
{
    assert(s.push(last)[s.len() as int] == last);
    if s.contains(a) {
        let i = s.index_of(a);
        assert(s.push(last)[i] == a);
    }
    if s.push(last).contains(a) && a != last {
        let i = s.push(last).index_of(a);
        assert(s[i] == a);
    }
}

/// A resource can be synced if and only if it lies in a namespace and its annotations hold the sync
/// annotation, whatever else its metadata says.
pub proof fn law_sources(meta: ObjectMetaView)
    ensures
        is_source(meta) <==> meta.annotations is Some && meta.annotations->0.contains_key(
            KUSTD_SYNC_ANN@,
        ),
        is_managed(meta) <==> meta.namespace is Some && meta.annotations is Some
            && meta.annotations->0.contains_key(KUSTD_SYNC_ANN@),
{
}

/// The decision about a resource is to hand it to its finalizer if and only if its annotations hold
/// the sync annotation, whatever else its metadata says, a time of deletion included. The finalizer
/// is the one that cleans up, in the namespace of the resource. Any other resource is looked at
/// again after two seconds.
pub proof fn law_decision(decision: Decision, meta: ObjectMetaView)
    requires
        is_decision(decision, meta),
        meta.namespace is Some,
    ensures
        decision is Finalize <==> meta.annotations is Some && meta.annotations->0.contains_key(
            KUSTD_SYNC_ANN@,
        ),
        match decision {
            Decision::Finalize { namespace, finalizer } => meta.namespace == Some(namespace@)
                && finalizer@ == KUSTD_FINALIZER@,
            Decision::Skip(action) => action.requeue_after == Some(2u64),
        },
{
}

/// The selector of a source is the text of its sync annotation, unchanged; an empty text selects
/// every namespace.
pub proof fn law_selector(meta: ObjectMetaView)
    requires
        meta.annotations is Some,
        meta.annotations->0.contains_key(KUSTD_SYNC_ANN@),
    ensures
        selector_of(meta) is None <==> meta.annotations->0[KUSTD_SYNC_ANN@].len() == 0,
        selector_of(meta) is Some ==> selector_of(meta)->0 == meta.annotations->0[KUSTD_SYNC_ANN@],
{
}

/// An object lies in its namespace, under the name that it goes by.
pub proof fn law_location(meta: ObjectMetaView, location: Location)
    requires
        meta.namespace is Some,
    ensures
        location_of(meta).namespace == meta.namespace->0,
        location_of(meta).name == meta.name_any(),
        location@.namespace == location.namespace@,
        location@.name == location.name@,
{
}

/// Whether the annotation `list` of an object with the metadata `meta` holds a comma separated list
/// with the entry `key`.
pub open spec fn has_listed(meta: ObjectMetaView, list: Seq<char>, key: Seq<char>) -> bool {
    &&& meta.annotations is Some
    &&& meta.annotations->0.contains_key(list)
    &&& list_entries(meta.annotations->0[list]).contains(key)
}

/// Which annotations a copy has: one that the source lists as to be removed it has not; of the
/// others it has those that name the source's name and namespace as its origin, not the sync
/// annotation, and the rest as the source has them.
pub proof fn law_annotation_of_copy<T: Syncable>(source: T::V, key: Seq<char>)
    requires
        T::meta_view(source).namespace is Some,
    ensures
        ({
            let meta = T::meta_view(source);
            let copy = T::meta_view(synced::<T>(source));
            let removed = has_listed(meta, KUSTD_REMOVE_ANN_ANN@, key);
            &&& copy.annotations is Some
            &&& removed ==> !copy.annotations->0.contains_key(key)
            &&& key == KUSTD_SYNC_ANN@ ==> !copy.annotations->0.contains_key(key)
            &&& !removed && key == KUSTD_ORIGIN_NAME@ ==> copy.annotations->0.contains_key(key)
                && copy.annotations->0[key] == meta.name_any()
            &&& !removed && key == KUSTD_ORIGIN_NAMESPACE@ ==> copy.annotations->0.contains_key(
                key,
            ) && copy.annotations->0[key] == meta.namespace->0
            &&& !removed && key != KUSTD_SYNC_ANN@ && key != KUSTD_ORIGIN_NAME@ && key
                != KUSTD_ORIGIN_NAMESPACE@ ==> {
                &&& copy.annotations->0.contains_key(key) <==> meta.annotations is Some
                    && meta.annotations->0.contains_key(key)
                &&& copy.annotations->0.contains_key(key) ==> copy.annotations->0[key]
                    == meta.annotations->0[key]
            }
        }),
{
    let meta = T::meta_view(source);
    T::meta_view_laws(T::critical_data(source), synced_meta(meta), synced_meta(meta));
    lemma_annotation_keys_differ();
    lemma_removed_annotations(meta, key);
}

/// Which labels a copy has: those of its source, as the source has them, but for those that the
/// source lists as to be removed.
pub proof fn law_label_of_copy<T: Syncable>(source: T::V, key: Seq<char>)
    ensures
        ({
            let meta = T::meta_view(source);
            let copy = T::meta_view(synced::<T>(source));
            &&& copy.labels is Some
            &&& copy.labels->0.contains_key(key) <==> meta.labels is Some
                && meta.labels->0.contains_key(key) && !has_listed(
                meta,
                KUSTD_REMOVE_LABELS_ANN@,
                key,
            )
            &&& copy.labels->0.contains_key(key) ==> copy.labels->0[key] == meta.labels->0[key]
        }),
{
    let meta = T::meta_view(source);
    T::meta_view_laws(T::critical_data(source), synced_meta(meta), synced_meta(meta));
    law_labels_of_copy::<T>(source, key);
}

/// Whether metadata `copy` is tied to no place in a cluster: it has a name, annotations and labels,
/// and nothing else.
pub open spec fn is_untied(copy: ObjectMetaView) -> bool {
    &&& copy.name is Some && copy.annotations is Some && copy.labels is Some
    &&& copy.generate_name is None && copy.namespace is None
    &&& copy.owner_references is None && copy.finalizers is None
    &&& copy.resource_version is None && copy.uid is None && copy.generation is None
    &&& copy.creation_timestamp is None && copy.deletion_timestamp is None
    &&& copy.deletion_grace_period_seconds is None
    &&& copy.managed_fields is None && copy.self_link is None
}

/// A copy of a secret has the type and all of the data of the secret, goes by its name, and is
/// tied to no place in the cluster.
pub proof fn law_copy_of_secret(source: SecretView)
    ensures
        ({
            let copy = synced::<Secret>(source);
            &&& copy.type_ == source.type_
            &&& copy.data == source.data
            &&& copy.string_data is None
            &&& copy.immutable is None
            &&& copy.metadata.name == Some(source.metadata.name_any())
            &&& is_untied(copy.metadata)
        }),
{
}

/// A copy of a config map has all of the data of the config map, goes by its name, and is tied to
/// no place in the cluster.
pub proof fn law_copy_of_config_map(source: ConfigMapView)
    ensures
        ({
            let copy = synced::<ConfigMap>(source);
            &&& copy.data == source.data
            &&& copy.binary_data is None
            &&& copy.immutable is None
            &&& copy.metadata.name == Some(source.metadata.name_any())
            &&& is_untied(copy.metadata)
        }),
{
}

/// What a filter keeps stands after as much as it kept before.
proof fn lemma_filter_at<A>(s: Seq<A>, keep: spec_fn(A) -> bool, i: int)
    requires
        0 <= i < s.len(),
        keep(s[i]),
    ensures
        s.take(i).filter(keep).len() < s.filter(keep).len(),
        s.filter(keep)[s.take(i).filter(keep).len() as int] == s[i],
    decreases s.len(),
{
    reveal(Seq::filter);
    let rest = s.drop_last();
    if i == s.len() - 1 {
        assert(s.take(i) =~= rest);
    } else {
        assert(rest.take(i) =~= s.take(i));
        lemma_filter_at(rest, keep, i);
    }
}

/// A namespace that the API listed is a destination if and only if it is not the source's own;
/// there are no other destinations.
pub proof fn law_listed_namespaces_are_destinations(
    selected: Seq<NamespaceView>,
    namespace: Seq<char>,
    dest: Seq<char>,
)
    ensures
        namespace_names(destinations(selected, namespace)).contains(dest) <==> dest != namespace
            && exists|i: int|
            0 <= i < selected.len() && (#[trigger] selected[i]).metadata.name_any() == dest,
{
    law_destinations(selected, namespace, dest);
    let names = namespace_names(selected);
    if names.contains(dest) {
        let i = names.index_of(dest);
        assert(selected[i].metadata.name_any() == dest);
    }
    if exists|i: int|
        0 <= i < selected.len() && (#[trigger] selected[i]).metadata.name_any() == dest {
        let i = choose|i: int|
            0 <= i < selected.len() && (#[trigger] selected[i]).metadata.name_any() == dest;
        assert(names[i] == dest);
    }
}

/// The destinations keep the order in which the API listed them: each stands after as many as were
/// listed before it and are not the source's own namespace, and keeps its name.
pub proof fn law_destinations_in_order(
    selected: Seq<NamespaceView>,
    namespace: Seq<char>,
    i: int,
)
    requires
        0 <= i < selected.len(),
        selected[i].metadata.name_any() != namespace,
    ensures
        ({
            let others = |candidate: NamespaceView| candidate.metadata.name_any() != namespace;
            let before = selected.take(i).filter(others).len();
            let dests = destinations(selected, namespace);
            &&& dests.len() == selected.filter(others).len()
            &&& before < dests.len()
            &&& dests[before as int] == selected[i]
            &&& namespace_names(dests).len() == dests.len()
            &&& namespace_names(dests)[before as int] == selected[i].metadata.name_any()
        }),
{
    let others = |candidate: NamespaceView| candidate.metadata.name_any() != namespace;
    lemma_filter_at(selected, others, i);
}

/// The name of a namespace stands in the list of names where the namespace stands.
pub proof fn law_namespace_names(namespaces: Seq<NamespaceView>, i: int)
    ensures
        namespace_names(namespaces).len() == namespaces.len(),
        0 <= i < namespaces.len() ==> namespace_names(namespaces)[i]
            == namespaces[i].metadata.name_any(),
{
}

/// Whether the annotations of an object with the metadata `meta` hold that its origin has the name
/// and namespace of `origin`.
pub open spec fn tells_origin(meta: ObjectMetaView, origin: LocationView) -> bool {
    &&& meta.annotations is Some
    &&& meta.annotations->0.contains_key(KUSTD_ORIGIN_NAME@)
    &&& meta.annotations->0[KUSTD_ORIGIN_NAME@] == origin.name
    &&& meta.annotations->0.contains_key(KUSTD_ORIGIN_NAMESPACE@)
    &&& meta.annotations->0[KUSTD_ORIGIN_NAMESPACE@] == origin.namespace
}

/// Whether an object with the metadata `meta` lies at `location`.
pub open spec fn lies_at(meta: ObjectMetaView, location: LocationView) -> bool {
    meta.namespace == Some(location.namespace) && meta.name_any() == location.name
}

/// Copies are told by their annotations, both of them.
pub proof fn law_copies_tell_their_origin(meta: ObjectMetaView, origin: LocationView)
    ensures
        is_copy_of(meta, origin) <==> tells_origin(meta, origin),
{
}

/// A location is stale if and only if an object lies there whose annotations hold the name and the
/// namespace of the origin, in a namespace that is not among `dests`.
pub proof fn law_stale_copies<T: Resource>(
    objects: Seq<T::V>,
    origin: LocationView,
    dests: Seq<Seq<char>>,
    location: LocationView,
)
    ensures
        stale_locations::<T>(objects, origin, dests).contains(location) <==> exists|i: int|
            {
                &&& 0 <= i < objects.len()
                &&& tells_origin(T::meta_view(#[trigger] objects[i]), origin)
                &&& lies_at(T::meta_view(objects[i]), location)
                &&& !dests.contains(location.namespace)
            },
{
    let stale = |object: T::V| is_stale(T::meta_view(object), origin, dests);
    let locate = |object: T::V| location_of(T::meta_view(object));
    lemma_located::<T>(objects, stale, location);
    if exists|i: int|
        0 <= i < objects.len() && stale(#[trigger] objects[i]) && locate(objects[i]) == location {
        let i = choose|i: int|
            0 <= i < objects.len() && stale(#[trigger] objects[i]) && locate(objects[i])
                == location;
        assert(tells_origin(T::meta_view(objects[i]), origin));
    }
    if exists|i: int|
        {
            &&& 0 <= i < objects.len()
            &&& tells_origin(T::meta_view(#[trigger] objects[i]), origin)
            &&& lies_at(T::meta_view(objects[i]), location)
            &&& !dests.contains(location.namespace)
        } {
        let i = choose|i: int|
            {
                &&& 0 <= i < objects.len()
                &&& tells_origin(T::meta_view(#[trigger] objects[i]), origin)
                &&& lies_at(T::meta_view(objects[i]), location)
                &&& !dests.contains(location.namespace)
            };
        assert(stale(objects[i]));
    }
}

/// Stale copies are found in the order in which they were listed, each once: a stale copy stands
/// after as many as there are stale copies before it.
pub proof fn law_stale_copies_in_order<T: Resource>(
    objects: Seq<T::V>,
    origin: LocationView,
    dests: Seq<Seq<char>>,
    i: int,
)
    requires
        0 <= i < objects.len(),
        tells_origin(T::meta_view(objects[i]), origin),
        T::meta_view(objects[i]).namespace is Some,
        !dests.contains(T::meta_view(objects[i]).namespace->0),
    ensures
        ({
            let stale = |object: T::V|
                {
                    &&& tells_origin(T::meta_view(object), origin)
                    &&& T::meta_view(object).namespace is Some
                    &&& !dests.contains(T::meta_view(object).namespace->0)
                };
            let before = objects.take(i).filter(stale).len();
            let found = stale_locations::<T>(objects, origin, dests);
            &&& found.len() == objects.filter(stale).len()
            &&& before < found.len()
            &&& lies_at(T::meta_view(objects[i]), found[before as int])
        }),
{
    let stale = |object: T::V|
        {
            &&& tells_origin(T::meta_view(object), origin)
            &&& T::meta_view(object).namespace is Some
            &&& !dests.contains(T::meta_view(object).namespace->0)
        };
    assert(stale =~= |object: T::V| is_stale(T::meta_view(object), origin, dests));
    lemma_filter_at(objects, stale, i);
}

/// A location holds a copy elsewhere if and only if an object lies there whose annotations hold the
/// name and the namespace of the origin, and it is neither the origin nor one of `places`.
pub proof fn law_copies_elsewhere<T: Resource>(
    objects: Seq<T::V>,
    origin: LocationView,
    places: Seq<LocationView>,
    location: LocationView,
)
    ensures
        locations_elsewhere::<T>(objects, origin, places).contains(location) <==> location
            != origin && !places.contains(location) && exists|i: int|
            {
                &&& 0 <= i < objects.len()
                &&& tells_origin(T::meta_view(#[trigger] objects[i]), origin)
                &&& lies_at(T::meta_view(objects[i]), location)
            },
{
    let elsewhere = |object: T::V| is_copy_elsewhere(T::meta_view(object), origin, places);
    let locate = |object: T::V| location_of(T::meta_view(object));
    lemma_located::<T>(objects, elsewhere, location);
    if exists|i: int|
        0 <= i < objects.len() && elsewhere(#[trigger] objects[i]) && locate(objects[i])
            == location {
        let i = choose|i: int|
            0 <= i < objects.len() && elsewhere(#[trigger] objects[i]) && locate(objects[i])
                == location;
        assert(tells_origin(T::meta_view(objects[i]), origin));
    }
    if location != origin && !places.contains(location) && exists|i: int|
        {
            &&& 0 <= i < objects.len()
            &&& tells_origin(T::meta_view(#[trigger] objects[i]), origin)
            &&& lies_at(T::meta_view(objects[i]), location)
        } {
        let i = choose|i: int|
            {
                &&& 0 <= i < objects.len()
                &&& tells_origin(T::meta_view(#[trigger] objects[i]), origin)
                &&& lies_at(T::meta_view(objects[i]), location)
            };
        assert(locate(objects[i]) == location);
        assert(elsewhere(objects[i]));
    }
}

/// Copies elsewhere are found in the order in which they were listed, each once.
pub proof fn law_copies_elsewhere_in_order<T: Resource>(
    objects: Seq<T::V>,
    origin: LocationView,
    places: Seq<LocationView>,
    i: int,
)
    requires
        0 <= i < objects.len(),
        tells_origin(T::meta_view(objects[i]), origin),
        T::meta_view(objects[i]).namespace is Some,
        location_of(T::meta_view(objects[i])) != origin,
        !places.contains(location_of(T::meta_view(objects[i]))),
    ensures
        ({
            let elsewhere = |object: T::V|
                {
                    &&& tells_origin(T::meta_view(object), origin)
                    &&& T::meta_view(object).namespace is Some
                    &&& location_of(T::meta_view(object)) != origin
                    &&& !places.contains(location_of(T::meta_view(object)))
                };
            let before = objects.take(i).filter(elsewhere).len();
            let found = locations_elsewhere::<T>(objects, origin, places);
            &&& found.len() == objects.filter(elsewhere).len()
            &&& before < found.len()
            &&& lies_at(T::meta_view(objects[i]), found[before as int])
        }),
{
    let elsewhere = |object: T::V|
        {
            &&& tells_origin(T::meta_view(object), origin)
            &&& T::meta_view(object).namespace is Some
            &&& location_of(T::meta_view(object)) != origin
            &&& !places.contains(location_of(T::meta_view(object)))
        };
    assert(elsewhere =~= |object: T::V| is_copy_elsewhere(T::meta_view(object), origin, places));
    lemma_filter_at(objects, elsewhere, i);
}

/// Where the objects lie that are picked.
proof fn lemma_located<T: Resource>(
    objects: Seq<T::V>,
    picked: spec_fn(T::V) -> bool,
    location: LocationView,
)
    ensures
        objects.filter(picked).map_values(
            |object: T::V| location_of(T::meta_view(object)),
        ).contains(location) <==> exists|i: int|
            0 <= i < objects.len() && picked(#[trigger] objects[i]) && location_of(
                T::meta_view(objects[i]),
            ) == location,
{
    let kept = objects.filter(picked);
    let found = kept.map_values(|object: T::V| location_of(T::meta_view(object)));
    if found.contains(location) {
        let k = found.index_of(location);
        assert(kept.contains(kept[k]));
        objects.lemma_filter_pred(picked, k);
        objects.lemma_filter_contains_rev(picked, kept[k]);
        let i = objects.index_of(kept[k]);
        assert(picked(objects[i]));
    }
    if exists|i: int|
        0 <= i < objects.len() && picked(#[trigger] objects[i]) && location_of(
            T::meta_view(objects[i]),
        ) == location {
        let i = choose|i: int|
            0 <= i < objects.len() && picked(#[trigger] objects[i]) && location_of(
                T::meta_view(objects[i]),
            ) == location;
        objects.lemma_filter_contains(picked, i);
        let k = kept.index_of(objects[i]);
        assert(found[k] == location);
    }
}

} // verus!
