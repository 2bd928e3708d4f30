//! The kinds of objects that can be synced between namespaces.
use crate::objects::{copy_option, option_view, ObjectMeta, ObjectMetaView, Resource};
use crate::string_map::{StringMap, Value};
use vstd::prelude::*;

verus! {

/// What a duplicate's metadata keeps of `meta`: the name under which the object goes, the
/// namespace, the annotations and the labels.
pub open spec fn duplicated_meta(meta: ObjectMetaView) -> ObjectMetaView {
    ObjectMetaView {
        name: Some(meta.name_any()),
        namespace: meta.namespace,
        annotations: Some(meta.annotations_or_empty()),
        labels: Some(meta.labels_or_empty()),
        ..ObjectMetaView::empty()
    }
}

/// The metadata of a duplicate of an object with the metadata `meta`.
fn duplicate_meta(meta: &ObjectMeta) -> (result: ObjectMeta)
    ensures
        result@ == duplicated_meta(meta@),
{
    let mut result = ObjectMeta::new();
    result.name = Some(meta.name_any());
    result.namespace = copy_option(&meta.namespace);
    result.annotations = Some(meta.annotations());
    result.labels = Some(meta.labels());
    result
}

/// Implemented for resources which can be synced between namespaces.
pub trait Syncable: Resource {
    /// The critical data of the resource that `view` stands for: the resource with that data
    /// alone and without metadata.
    spec fn critical_data(view: Self::V) -> Self::V;

    /// Critical data is no matter of metadata and holds none, and all of it is critical.
    proof fn critical_data_laws(view: Self::V, meta: ObjectMetaView)
        ensures
            Self::critical_data(Self::with_meta_view(view, meta)) == Self::critical_data(view),
            Self::critical_data(Self::critical_data(view)) == Self::critical_data(view),
            Self::meta_view(Self::critical_data(view)) == ObjectMetaView::empty(),
    ;

    /// Creates a new resource, only cloning critical data from the original.
    fn duplicate(&self) -> (result: Self)
        ensures
            result@ == Self::with_meta_view(
                Self::critical_data(self@),
                duplicated_meta(Self::meta_view(self@)),
            ),
    ;
}

/// A secret.
#[derive(Debug)]
pub struct Secret {
    pub metadata: ObjectMeta,
    pub type_: Option<String>,
    pub data: Option<StringMap<Vec<u8>>>,
    pub string_data: Option<StringMap<String>>,
    pub immutable: Option<bool>,
}

/// A secret, as a mathematical value.
#[verifier::ext_equal]
pub struct SecretView {
    pub metadata: ObjectMetaView,
    pub type_: Option<Seq<char>>,
    pub data: Option<Map<Seq<char>, Seq<u8>>>,
    pub string_data: Option<Map<Seq<char>, Seq<char>>>,
    pub immutable: Option<bool>,
}

impl View for Secret {
    type V = SecretView;

    open spec fn view(&self) -> SecretView {
        SecretView {
            metadata: self.metadata@,
            type_: option_view(self.type_),
            data: option_view(self.data),
            string_data: option_view(self.string_data),
            immutable: self.immutable,
        }
    }
}

impl Value for Secret {
    fn copied(&self) -> (result: Self) {
        Secret {
            metadata: self.metadata.copied(),
            type_: copy_option(&self.type_),
            data: copy_option(&self.data),
            string_data: copy_option(&self.string_data),
            immutable: self.immutable,
        }
    }
}

impl Resource for Secret {
    open spec fn meta_view(view: SecretView) -> ObjectMetaView {
        view.metadata
    }

    open spec fn with_meta_view(view: SecretView, meta: ObjectMetaView) -> SecretView {
        SecretView { metadata: meta, ..view }
    }

    proof fn meta_view_laws(view: SecretView, first: ObjectMetaView, second: ObjectMetaView) {
    }

    fn meta(&self) -> (result: &ObjectMeta) {
        &self.metadata
    }

    fn meta_mut(&mut self) -> (result: &mut ObjectMeta) {
        &mut self.metadata
    }
}

impl Syncable for Secret {
    /// The type and the data of a secret.
    open spec fn critical_data(view: SecretView) -> SecretView {
        SecretView {
            metadata: ObjectMetaView::empty(),
            type_: view.type_,
            data: view.data,
            string_data: None,
            immutable: None,
        }
    }

    proof fn critical_data_laws(view: SecretView, meta: ObjectMetaView) {
    }

    fn duplicate(&self) -> (result: Self)
        ensures
            result@.type_ == self@.type_,
            result@.data == self@.data,
            result@.string_data is None,
            result@.immutable is None,
    {
        Secret {
            metadata: duplicate_meta(&self.metadata),
            type_: copy_option(&self.type_),
            data: copy_option(&self.data),
            string_data: None,
            immutable: None,
        }
    }
}

/// A config map.
#[derive(Debug)]
pub struct ConfigMap {
    pub metadata: ObjectMeta,
    pub data: Option<StringMap<String>>,
    pub binary_data: Option<StringMap<Vec<u8>>>,
    pub immutable: Option<bool>,
}

/// A config map, as a mathematical value.
#[verifier::ext_equal]
pub struct ConfigMapView {
    pub metadata: ObjectMetaView,
    pub data: Option<Map<Seq<char>, Seq<char>>>,
    pub binary_data: Option<Map<Seq<char>, Seq<u8>>>,
    pub immutable: Option<bool>,
}

impl View for ConfigMap {
    type V = ConfigMapView;

    open spec fn view(&self) -> ConfigMapView {
        ConfigMapView {
            metadata: self.metadata@,
            data: option_view(self.data),
            binary_data: option_view(self.binary_data),
            immutable: self.immutable,
        }
    }
}

impl Value for ConfigMap {
    fn copied(&self) -> (result: Self) {
        ConfigMap {
            metadata: self.metadata.copied(),
            data: copy_option(&self.data),
            binary_data: copy_option(&self.binary_data),
            immutable: self.immutable,
        }
    }
}

impl Resource for ConfigMap {
    open spec fn meta_view(view: ConfigMapView) -> ObjectMetaView {
        view.metadata
    }

    open spec fn with_meta_view(view: ConfigMapView, meta: ObjectMetaView) -> ConfigMapView {
        ConfigMapView { metadata: meta, ..view }
    }

    proof fn meta_view_laws(view: ConfigMapView, first: ObjectMetaView, second: ObjectMetaView) {
    }

    fn meta(&self) -> (result: &ObjectMeta) {
        &self.metadata
    }

    fn meta_mut(&mut self) -> (result: &mut ObjectMeta) {
        &mut self.metadata
    }
}

impl Syncable for ConfigMap {
    /// The data of a config map.
    open spec fn critical_data(view: ConfigMapView) -> ConfigMapView {
        ConfigMapView {
            metadata: ObjectMetaView::empty(),
            data: view.data,
            binary_data: None,
            immutable: None,
        }
    }

    proof fn critical_data_laws(view: ConfigMapView, meta: ObjectMetaView) {
    }

    fn duplicate(&self) -> (result: Self)
        ensures
            result@.data == self@.data,
            result@.binary_data is None,
            result@.immutable is None,
    {
        ConfigMap {
            metadata: duplicate_meta(&self.metadata),
            data: copy_option(&self.data),
            binary_data: None,
            immutable: None,
        }
    }
}

/// The view of a secret leaves nothing out, and its metadata is its metadata.
pub proof fn law_secret(secret: Secret, view: SecretView, meta: ObjectMetaView)
    ensures
        secret@.metadata == secret.metadata@,
        secret@.type_ == match secret.type_ {
            Some(type_) => Some(type_@),
            None => None,
        },
        secret@.data == match secret.data {
            Some(data) => Some(data@),
            None => None,
        },
        secret@.string_data == match secret.string_data {
            Some(data) => Some(data@),
            None => None,
        },
        secret@.immutable == secret.immutable,
        Secret::meta_view(view) == view.metadata,
        Secret::with_meta_view(view, meta) == (SecretView { metadata: meta, ..view }),
{
}

/// The view of a config map leaves nothing out, and its metadata is its metadata.
pub proof fn law_config_map(map: ConfigMap, view: ConfigMapView, meta: ObjectMetaView)
    ensures
        map@.metadata == map.metadata@,
        map@.data == match map.data {
            Some(data) => Some(data@),
            None => None,
        },
        map@.binary_data == match map.binary_data {
            Some(data) => Some(data@),
            None => None,
        },
        map@.immutable == map.immutable,
        ConfigMap::meta_view(view) == view.metadata,
        ConfigMap::with_meta_view(view, meta) == (ConfigMapView { metadata: meta, ..view }),
{
}

/// A duplicate of a secret has its type and all of its data, and nothing else besides its name,
/// namespace, annotations and labels.
pub proof fn law_duplicate_of_secret(secret: SecretView)
    ensures
        ({
            let duplicate = Secret::with_meta_view(
                Secret::critical_data(secret),
                duplicated_meta(Secret::meta_view(secret)),
            );
            &&& duplicate.type_ == secret.type_
            &&& duplicate.data == secret.data
            &&& duplicate.string_data is None
            &&& duplicate.immutable is None
            &&& is_duplicated(duplicate.metadata, secret.metadata)
        }),
{
    law_duplicated_metadata(secret.metadata);
}

/// A duplicate of a config map has all of its data, and nothing else besides its name, namespace,
/// annotations and labels.
pub proof fn law_duplicate_of_config_map(map: ConfigMapView)
    ensures
        ({
            let duplicate = ConfigMap::with_meta_view(
                ConfigMap::critical_data(map),
                duplicated_meta(ConfigMap::meta_view(map)),
            );
            &&& duplicate.data == map.data
            &&& duplicate.binary_data is None
            &&& duplicate.immutable is None
            &&& is_duplicated(duplicate.metadata, map.metadata)
        }),
{
    law_duplicated_metadata(map.metadata);
}

/// Whether `copy` has the name, the namespace and every annotation and label of `meta`, and no
/// field more.
pub open spec fn is_duplicated(copy: ObjectMetaView, meta: ObjectMetaView) -> bool {
    &&& copy.name is Some
    &&& meta.name is Some ==> copy.name == meta.name
    &&& meta.name is None && meta.generate_name is Some ==> copy.name == meta.generate_name
    &&& meta.name is None && meta.generate_name is None ==> copy.name->0.len() == 0
    &&& copy.namespace == meta.namespace
    &&& copy.annotations is Some
    &&& meta.annotations is Some ==> copy.annotations == meta.annotations
    &&& meta.annotations is None ==> copy.annotations->0 =~= Map::empty()
    &&& copy.labels is Some
    &&& meta.labels is Some ==> copy.labels == meta.labels
    &&& meta.labels is None ==> copy.labels->0 =~= Map::empty()
    &&& copy.generate_name is None && copy.owner_references is None && copy.finalizers is None
    &&& copy.resource_version is None && copy.uid is None && copy.generation is None
    &&& copy.creation_timestamp is None && copy.deletion_timestamp is None
    &&& copy.deletion_grace_period_seconds is None
    &&& copy.managed_fields is None && copy.self_link is None
}

/// A duplicate keeps the name, the namespace, the annotations and the labels, and no other
/// metadata.
pub proof fn law_duplicated_metadata(meta: ObjectMetaView)
    ensures
        is_duplicated(duplicated_meta(meta), meta),
{
}

} // verus!
