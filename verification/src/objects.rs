//! Kubernetes objects: metadata and namespaces.
use crate::outside;
use crate::string_map::{StringMap, Value};
use vstd::prelude::*;

verus! {

/// What an optional value stands for.
pub open spec fn option_view<T: View>(value: Option<T>) -> Option<T::V> {
    match value {
        Some(inner) => Some(inner@),
        None => None,
    }
}

/// What each element of a sequence stands for.
pub open spec fn views<T: View>(elements: Seq<T>) -> Seq<T::V> {
    elements.map_values(|element: T| element@)
}

/// What each element of an optional list stands for.
pub open spec fn list_view<T: View>(list: Option<Vec<T>>) -> Option<Seq<T::V>> {
    match list {
        Some(elements) => Some(views(elements@)),
        None => None,
    }
}

/// A point in time: the time since the epoch.
#[derive(Clone, Copy, Debug, PartialEq, Eq, Structural)]
pub struct Timestamp {
    pub seconds: i64,
    pub nanoseconds: u32,
}

/// A reference to an object that owns another.
#[derive(Debug)]
pub struct OwnerReference {
    pub api_version: String,
    pub kind: String,
    pub name: String,
    pub uid: String,
    pub controller: Option<bool>,
    pub block_owner_deletion: Option<bool>,
}

/// A reference to an object that owns another, as a mathematical value.
#[verifier::ext_equal]
pub struct OwnerReferenceView {
    pub api_version: Seq<char>,
    pub kind: Seq<char>,
    pub name: Seq<char>,
    pub uid: Seq<char>,
    pub controller: Option<bool>,
    pub block_owner_deletion: Option<bool>,
}

impl View for OwnerReference {
    type V = OwnerReferenceView;

    open spec fn view(&self) -> OwnerReferenceView {
        OwnerReferenceView {
            api_version: self.api_version@,
            kind: self.kind@,
            name: self.name@,
            uid: self.uid@,
            controller: self.controller,
            block_owner_deletion: self.block_owner_deletion,
        }
    }
}

impl Value for OwnerReference {
    fn copied(&self) -> (result: Self) {
        OwnerReference {
            api_version: self.api_version.clone(),
            kind: self.kind.clone(),
            name: self.name.clone(),
            uid: self.uid.clone(),
            controller: self.controller,
            block_owner_deletion: self.block_owner_deletion,
        }
    }
}

/// Who manages which fields of an object. The fields are kept as the JSON text that lists them.
#[derive(Debug)]
pub struct ManagedFieldsEntry {
    pub manager: Option<String>,
    pub operation: Option<String>,
    pub api_version: Option<String>,
    pub subresource: Option<String>,
    pub time: Option<Timestamp>,
    pub fields_type: Option<String>,
    pub fields: Option<String>,
}

/// Who manages which fields of an object, as a mathematical value.
#[verifier::ext_equal]
pub struct ManagedFieldsEntryView {
    pub manager: Option<Seq<char>>,
    pub operation: Option<Seq<char>>,
    pub api_version: Option<Seq<char>>,
    pub subresource: Option<Seq<char>>,
    pub time: Option<Timestamp>,
    pub fields_type: Option<Seq<char>>,
    pub fields: Option<Seq<char>>,
}

impl View for ManagedFieldsEntry {
    type V = ManagedFieldsEntryView;

    open spec fn view(&self) -> ManagedFieldsEntryView {
        ManagedFieldsEntryView {
            manager: option_view(self.manager),
            operation: option_view(self.operation),
            api_version: option_view(self.api_version),
            subresource: option_view(self.subresource),
            time: self.time,
            fields_type: option_view(self.fields_type),
            fields: option_view(self.fields),
        }
    }
}

impl Value for ManagedFieldsEntry {
    fn copied(&self) -> (result: Self) {
        ManagedFieldsEntry {
            manager: copy_option(&self.manager),
            operation: copy_option(&self.operation),
            api_version: copy_option(&self.api_version),
            subresource: copy_option(&self.subresource),
            time: self.time,
            fields_type: copy_option(&self.fields_type),
            fields: copy_option(&self.fields),
        }
    }
}

/// The metadata of an object.
#[derive(Debug)]
pub struct ObjectMeta {
    pub name: Option<String>,
    pub generate_name: Option<String>,
    pub namespace: Option<String>,
    pub annotations: Option<StringMap<String>>,
    pub labels: Option<StringMap<String>>,
    pub owner_references: Option<Vec<OwnerReference>>,
    pub finalizers: Option<Vec<String>>,
    pub resource_version: Option<String>,
    pub uid: Option<String>,
    pub generation: Option<i64>,
    pub creation_timestamp: Option<Timestamp>,
    pub deletion_timestamp: Option<Timestamp>,
    pub deletion_grace_period_seconds: Option<i64>,
    pub managed_fields: Option<Vec<ManagedFieldsEntry>>,
    pub self_link: Option<String>,
}

/// The metadata of an object, as a mathematical value.
#[verifier::ext_equal]
pub struct ObjectMetaView {
    pub name: Option<Seq<char>>,
    pub generate_name: Option<Seq<char>>,
    pub namespace: Option<Seq<char>>,
    pub annotations: Option<Map<Seq<char>, Seq<char>>>,
    pub labels: Option<Map<Seq<char>, Seq<char>>>,
    pub owner_references: Option<Seq<OwnerReferenceView>>,
    pub finalizers: Option<Seq<Seq<char>>>,
    pub resource_version: Option<Seq<char>>,
    pub uid: Option<Seq<char>>,
    pub generation: Option<i64>,
    pub creation_timestamp: Option<Timestamp>,
    pub deletion_timestamp: Option<Timestamp>,
    pub deletion_grace_period_seconds: Option<i64>,
    pub managed_fields: Option<Seq<ManagedFieldsEntryView>>,
    pub self_link: Option<Seq<char>>,
}

impl View for ObjectMeta {
    type V = ObjectMetaView;

    open spec fn view(&self) -> ObjectMetaView {
        ObjectMetaView {
            name: option_view(self.name),
            generate_name: option_view(self.generate_name),
            namespace: option_view(self.namespace),
            annotations: option_view(self.annotations),
            labels: option_view(self.labels),
            owner_references: list_view(self.owner_references),
            finalizers: list_view(self.finalizers),
            resource_version: option_view(self.resource_version),
            uid: option_view(self.uid),
            generation: self.generation,
            creation_timestamp: self.creation_timestamp,
            deletion_timestamp: self.deletion_timestamp,
            deletion_grace_period_seconds: self.deletion_grace_period_seconds,
            managed_fields: list_view(self.managed_fields),
            self_link: option_view(self.self_link),
        }
    }
}

impl ObjectMetaView {
    /// Metadata that says nothing.
    pub open spec fn empty() -> ObjectMetaView {
        ObjectMetaView {
            name: None,
            generate_name: None,
            namespace: None,
            annotations: None,
            labels: None,
            owner_references: None,
            finalizers: None,
            resource_version: None,
            uid: None,
            generation: None,
            creation_timestamp: None,
            deletion_timestamp: None,
            deletion_grace_period_seconds: None,
            managed_fields: None,
            self_link: None,
        }
    }

    /// The name; without one, the prefix of the generated name; with neither, nothing.
    pub open spec fn name_any(self) -> Seq<char> {
        match (self.name, self.generate_name) {
            (Some(name), _) => name,
            (None, Some(prefix)) => prefix,
            (None, None) => Seq::empty(),
        }
    }

    /// The annotations, none where the object has no annotation map.
    pub open spec fn annotations_or_empty(self) -> Map<Seq<char>, Seq<char>> {
        match self.annotations {
            Some(annotations) => annotations,
            None => Map::empty(),
        }
    }

    /// The labels, none where the object has no label map.
    pub open spec fn labels_or_empty(self) -> Map<Seq<char>, Seq<char>> {
        match self.labels {
            Some(labels) => labels,
            None => Map::empty(),
        }
    }

    /// Whether the object has the annotation `key` with the value `value`.
    pub open spec fn annotated(self, key: Seq<char>, value: Seq<char>) -> bool {
        let annotations = self.annotations_or_empty();
        annotations.contains_key(key) && annotations[key] == value
    }
}

/// A copy of an optional value.
pub fn copy_option<T: Value>(value: &Option<T>) -> (result: Option<T>)
    ensures
        option_view(result) == option_view(*value),
{
    match value {
        Some(inner) => Some(inner.copied()),
        None => None,
    }
}

/// A copy of an optional list.
fn copy_list<T: Value>(list: &Option<Vec<T>>) -> (result: Option<Vec<T>>)
    ensures
        list_view(result) == list_view(*list),
{
    match list {
        Some(elements) => {
            let mut result: Vec<T> = Vec::new();
            let mut i: usize = 0;
            while i < elements.len()
                invariant
                    i <= elements@.len(),
                    views(result@) == views(elements@).take(i as int),
                decreases elements@.len() - i,
            {
                let ghost before = views(result@);
                result.push(elements[i].copied());
                assert(views(result@) =~= before.push(elements@[i as int]@));
                assert(views(elements@).take(i as int + 1) =~= before.push(
                    elements@[i as int]@,
                ));
                i = i + 1;
            }
            assert(views(elements@).take(i as int) =~= views(elements@));
            Some(result)
        },
        None => None,
    }
}

impl<V: Value> Value for StringMap<V> {
    fn copied(&self) -> (result: Self) {
        self.clone()
    }
}

impl ObjectMeta {
    /// Metadata that says nothing.
    pub fn new() -> (result: ObjectMeta)
        ensures
            result@ == ObjectMetaView::empty(),
    {
        ObjectMeta {
            name: None,
            generate_name: None,
            namespace: None,
            annotations: None,
            labels: None,
            owner_references: None,
            finalizers: None,
            resource_version: None,
            uid: None,
            generation: None,
            creation_timestamp: None,
            deletion_timestamp: None,
            deletion_grace_period_seconds: None,
            managed_fields: None,
            self_link: None,
        }
    }

    /// The name; without one, the prefix of the generated name; with neither, nothing.
    pub fn name_any(&self) -> (result: String)
        ensures
            result@ == self@.name_any(),
    {
        outside::name_any(copy_option(&self.name), copy_option(&self.generate_name))
    }

    /// The value of the annotation `key`.
    pub fn annotation(&self, key: &str) -> (result: Option<&String>)
        ensures
            match result {
                Some(value) => self@.annotated(key@, value@),
                None => !self@.annotations_or_empty().contains_key(key@),
            },
    {
        match &self.annotations {
            Some(annotations) => annotations.get(key),
            None => None,
        }
    }

    /// A copy of the annotations.
    pub fn annotations(&self) -> (result: StringMap<String>)
        ensures
            result@ == self@.annotations_or_empty(),
    {
        match &self.annotations {
            Some(annotations) => annotations.clone(),
            None => StringMap::new(),
        }
    }

    /// A copy of the labels.
    pub fn labels(&self) -> (result: StringMap<String>)
        ensures
            result@ == self@.labels_or_empty(),
    {
        match &self.labels {
            Some(labels) => labels.clone(),
            None => StringMap::new(),
        }
    }
}

impl Value for ObjectMeta {
    fn copied(&self) -> (result: Self) {
        ObjectMeta {
            name: copy_option(&self.name),
            generate_name: copy_option(&self.generate_name),
            namespace: copy_option(&self.namespace),
            annotations: copy_option(&self.annotations),
            labels: copy_option(&self.labels),
            owner_references: copy_list(&self.owner_references),
            finalizers: copy_list(&self.finalizers),
            resource_version: copy_option(&self.resource_version),
            uid: copy_option(&self.uid),
            generation: self.generation,
            creation_timestamp: self.creation_timestamp,
            deletion_timestamp: self.deletion_timestamp,
            deletion_grace_period_seconds: self.deletion_grace_period_seconds,
            managed_fields: copy_list(&self.managed_fields),
            self_link: copy_option(&self.self_link),
        }
    }
}

/// An object with metadata.
pub trait Resource: Value {
    /// The metadata of the object that `view` stands for.
    spec fn meta_view(view: Self::V) -> ObjectMetaView;

    /// The object that `view` stands for, with the metadata `meta` in place of its own.
    spec fn with_meta_view(view: Self::V, meta: ObjectMetaView) -> Self::V;

    /// Metadata that was put in place is what is found, whatever was there before; putting
    /// back what was found changes nothing.
    proof fn meta_view_laws(view: Self::V, first: ObjectMetaView, second: ObjectMetaView)
        ensures
            Self::meta_view(Self::with_meta_view(view, first)) == first,
            Self::with_meta_view(Self::with_meta_view(view, first), second)
                == Self::with_meta_view(view, second),
            Self::with_meta_view(view, Self::meta_view(view)) == view,
    ;

    /// The metadata.
    fn meta(&self) -> (result: &ObjectMeta)
        ensures
            result@ == Self::meta_view(self@),
    ;

    /// The metadata, to be changed.
    fn meta_mut(&mut self) -> (result: &mut ObjectMeta)
        ensures
            result@ == Self::meta_view(old(self)@),
            final(self)@ == Self::with_meta_view(old(self)@, final(result)@),
    ;
}

/// A namespace.
#[derive(Debug)]
pub struct Namespace {
    pub metadata: ObjectMeta,
}

/// A namespace, as a mathematical value.
#[verifier::ext_equal]
pub struct NamespaceView {
    pub metadata: ObjectMetaView,
}

impl View for Namespace {
    type V = NamespaceView;

    open spec fn view(&self) -> NamespaceView {
        NamespaceView { metadata: self.metadata@ }
    }
}

impl Value for Namespace {
    fn copied(&self) -> (result: Self) {
        Namespace { metadata: self.metadata.copied() }
    }
}

impl Resource for Namespace {
    open spec fn meta_view(view: NamespaceView) -> ObjectMetaView {
        view.metadata
    }

    open spec fn with_meta_view(view: NamespaceView, meta: ObjectMetaView) -> NamespaceView {
        NamespaceView { metadata: meta }
    }

    proof fn meta_view_laws(view: NamespaceView, first: ObjectMetaView, second: ObjectMetaView) {
    }

    fn meta(&self) -> (result: &ObjectMeta) {
        &self.metadata
    }

    fn meta_mut(&mut self) -> (result: &mut ObjectMeta) {
        &mut self.metadata
    }
}

/// An optional value stands for what it holds, and is missing from its view only if it is missing.
pub proof fn law_option_view<T: View>(value: Option<T>)
    ensures
        value is Some <==> option_view(value) is Some,
        value is Some ==> option_view(value)->0 == value->0@,
{
}

/// The elements of a list stand for themselves, one by one.
pub proof fn law_views<T: View>(elements: Seq<T>, i: int)
    ensures
        views(elements).len() == elements.len(),
        0 <= i < elements.len() ==> views(elements)[i] == elements[i]@,
{
}

/// An optional list stands for its elements, one by one.
pub proof fn law_list_view<T: View>(list: Option<Vec<T>>, i: int)
    ensures
        list is Some <==> list_view(list) is Some,
        list is Some ==> list_view(list)->0.len() == list->0@.len(),
        list is Some && 0 <= i < list->0@.len() ==> list_view(list)->0[i] == list->0@[i]@,
{
}

/// The view of metadata leaves nothing out.
pub proof fn law_metadata_view(meta: ObjectMeta)
    ensures
        meta@.name == match meta.name {
            Some(name) => Some(name@),
            None => None,
        },
        meta@.generate_name == match meta.generate_name {
            Some(prefix) => Some(prefix@),
            None => None,
        },
        meta@.namespace == match meta.namespace {
            Some(namespace) => Some(namespace@),
            None => None,
        },
        meta@.annotations == match meta.annotations {
            Some(annotations) => Some(annotations@),
            None => None,
        },
        meta@.labels == match meta.labels {
            Some(labels) => Some(labels@),
            None => None,
        },
        meta@.resource_version == match meta.resource_version {
            Some(version) => Some(version@),
            None => None,
        },
        meta@.uid == match meta.uid {
            Some(uid) => Some(uid@),
            None => None,
        },
        meta@.self_link == match meta.self_link {
            Some(link) => Some(link@),
            None => None,
        },
        meta@.generation == meta.generation,
        meta@.creation_timestamp == meta.creation_timestamp,
        meta@.deletion_timestamp == meta.deletion_timestamp,
        meta@.deletion_grace_period_seconds == meta.deletion_grace_period_seconds,
        meta@.finalizers == list_view(meta.finalizers),
        meta@.owner_references == list_view(meta.owner_references),
        meta@.managed_fields == list_view(meta.managed_fields),
{
}

/// An object with a name goes by it; one without goes by the prefix of its generated name; one with
/// neither goes by the empty name.
pub proof fn law_names(meta: ObjectMetaView)
    ensures
        meta.name is Some ==> meta.name_any() == meta.name->0,
        meta.name is None && meta.generate_name is Some ==> meta.name_any()
            == meta.generate_name->0,
        meta.name is None && meta.generate_name is None ==> meta.name_any().len() == 0,
{
}

/// The annotations and labels of an object are those that its maps hold; without a map it has none.
pub proof fn law_entries(meta: ObjectMetaView, key: Seq<char>, value: Seq<char>)
    ensures
        meta.annotations_or_empty().contains_key(key) <==> meta.annotations is Some
            && meta.annotations->0.contains_key(key),
        meta.annotations is Some && meta.annotations->0.contains_key(key)
            ==> meta.annotations_or_empty()[key] == meta.annotations->0[key],
        meta.labels_or_empty().contains_key(key) <==> meta.labels is Some
            && meta.labels->0.contains_key(key),
        meta.labels is Some && meta.labels->0.contains_key(key) ==> meta.labels_or_empty()[key]
            == meta.labels->0[key],
        meta.annotated(key, value) <==> meta.annotations is Some
            && meta.annotations->0.contains_key(key) && meta.annotations->0[key] == value,
{
}

/// Metadata that says nothing has no field.
pub proof fn law_empty_metadata()
    ensures
        ({
            let meta = ObjectMetaView::empty();
            &&& meta.name is None && meta.generate_name is None && meta.namespace is None
            &&& meta.annotations is None && meta.labels is None
            &&& meta.owner_references is None && meta.finalizers is None
            &&& meta.resource_version is None && meta.uid is None && meta.generation is None
            &&& meta.creation_timestamp is None && meta.deletion_timestamp is None
            &&& meta.deletion_grace_period_seconds is None
            &&& meta.managed_fields is None && meta.self_link is None
        }),
{
}

/// The metadata of a namespace is its metadata.
pub proof fn law_namespace(namespace: Namespace, view: NamespaceView, meta: ObjectMetaView)
    ensures
        namespace@.metadata == namespace.metadata@,
        Namespace::meta_view(view) == view.metadata,
        Namespace::with_meta_view(view, meta).metadata == meta,
{
}

/// The view of a reference to an owner leaves nothing out.
pub proof fn law_owner_reference_view(owner: OwnerReference)
    ensures
        owner@.api_version == owner.api_version@,
        owner@.kind == owner.kind@,
        owner@.name == owner.name@,
        owner@.uid == owner.uid@,
        owner@.controller == owner.controller,
        owner@.block_owner_deletion == owner.block_owner_deletion,
{
}

/// The view of who manages which fields leaves nothing out.
pub proof fn law_managed_fields_view(entry: ManagedFieldsEntry)
    ensures
        entry.manager is Some <==> entry@.manager is Some,
        entry.manager is Some ==> entry@.manager->0 == entry.manager->0@,
        entry.operation is Some <==> entry@.operation is Some,
        entry.operation is Some ==> entry@.operation->0 == entry.operation->0@,
        entry.api_version is Some <==> entry@.api_version is Some,
        entry.api_version is Some ==> entry@.api_version->0 == entry.api_version->0@,
        entry.subresource is Some <==> entry@.subresource is Some,
        entry.subresource is Some ==> entry@.subresource->0 == entry.subresource->0@,
        entry@.time == entry.time,
        entry.fields_type is Some <==> entry@.fields_type is Some,
        entry.fields_type is Some ==> entry@.fields_type->0 == entry.fields_type->0@,
        entry.fields is Some <==> entry@.fields is Some,
        entry.fields is Some ==> entry@.fields->0 == entry.fields->0@,
{
}

} // verus!
