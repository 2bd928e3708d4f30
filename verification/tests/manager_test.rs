//! Runs of the controller against a cluster that is held in memory.
//!
//! | On Event                | Synced Resource Action |
//! | ----------------------- | ---------------------- |
//! | NS created              | Created                |
//! | NS updated              | Created/Deleted        |
//! | NS deleted              | No action              |
//! | Source resource created | Created                |
//! | Source resource updated | Created/Deleted        |
//! | Source resource deleted | Deleted                |

use kustd::error::ApiFailure;
use kustd::manager::{reconcile, settle, Action, Decision, Location, State, KUSTD_FINALIZER};
use kustd::objects::{Namespace, ObjectMeta, Resource};
use kustd::run::{reconcile_resource, Goal, Reply, Request, Run, Step};
use kustd::string_map::{StringMap, Value};
use kustd::syncable::{ConfigMap, Secret, Syncable};
use std::collections::BTreeMap;

const SYNC: &str = "kustd.zdatainc.com/sync";

fn string_map(entries: &[(&str, &str)]) -> StringMap<String> {
    let mut map = StringMap::new();
    for (key, value) in entries {
        map.insert(key.to_string(), value.to_string());
    }
    map
}

fn bytes_map(entries: &[(&str, &[u8])]) -> StringMap<Vec<u8>> {
    let mut map = StringMap::new();
    for (key, value) in entries {
        map.insert(key.to_string(), value.to_vec());
    }
    map
}

fn meta(name: &str, namespace: &str, annotations: &[(&str, &str)]) -> ObjectMeta {
    let mut meta = ObjectMeta::new();
    meta.name = Some(name.to_string());
    meta.namespace = Some(namespace.to_string());
    meta.annotations = Some(string_map(annotations));
    meta
}

fn secret(name: &str, namespace: &str, selector: &str) -> Secret {
    Secret {
        metadata: meta(name, namespace, &[(SYNC, selector)]),
        type_: None,
        data: Some(bytes_map(&[("data", "data".as_bytes())])),
        string_data: None,
        immutable: None,
    }
}

fn not_found() -> ApiFailure {
    let response = kube::core::ErrorResponse {
        status: "Failure".to_string(),
        message: "not found".to_string(),
        reason: "NotFound".to_string(),
        code: 404,
    };
    ApiFailure { code: Some(404), error: kube::Error::Api(response) }
}

/// Namespaces with one label each, and the objects of one kind.
struct Cluster<T> {
    namespaces: BTreeMap<String, String>,
    objects: BTreeMap<(String, String), T>,
    version: u32,
    requests: Vec<String>,
}

impl<T: Syncable> Cluster<T> {
    fn new() -> Self {
        Cluster {
            namespaces: BTreeMap::new(),
            objects: BTreeMap::new(),
            version: 0,
            requests: Vec::new(),
        }
    }

    fn create_namespace(&mut self, name: &str, label: &str) {
        self.namespaces.insert(name.to_string(), label.to_string());
    }

    fn get(&self, namespace: &str, name: &str) -> Option<&T> {
        self.objects.get(&(namespace.to_string(), name.to_string()))
    }

    fn put(&mut self, namespace: &str, name: &str, mut object: T) {
        self.version += 1;
        let meta = object.meta_mut();
        meta.namespace = Some(namespace.to_string());
        meta.resource_version = Some(self.version.to_string());
        self.objects.insert((namespace.to_string(), name.to_string()), object);
    }

    fn create(&mut self, object: T) {
        let namespace = object.meta().namespace.clone().unwrap();
        let name = object.meta().name_any();
        self.put(&namespace, &name, object);
    }

    fn annotate(&mut self, namespace: &str, name: &str, key: &str, value: &str) {
        let object = self.objects.get_mut(&(namespace.to_string(), name.to_string())).unwrap();
        let mut annotations = object.meta().annotations();
        annotations.insert(key.to_string(), value.to_string());
        object.meta_mut().annotations = Some(annotations);
    }

    fn key(location: &Location) -> (String, String) {
        (location.namespace.clone(), location.name.clone())
    }

    fn perform(&mut self, request: Request<T>) -> Reply<T> {
        match request {
            Request::ListNamespaces { selector } => {
                self.requests.push(format!("list namespaces {:?}", selector));
                let mut listed = Vec::new();
                for (name, label) in &self.namespaces {
                    if selector.is_none() || selector.as_ref() == Some(label) {
                        let mut metadata = ObjectMeta::new();
                        metadata.name = Some(name.clone());
                        listed.push(Namespace { metadata });
                    }
                }
                Reply::Namespaces(Ok(listed))
            }
            Request::ListResources => {
                self.requests.push("list resources".to_string());
                Reply::Resources(Ok(self.objects.values().map(|object| object.copied()).collect()))
            }
            Request::Delete { location } => {
                self.requests.push(format!("delete {}/{}", location.namespace, location.name));
                match self.objects.remove(&Self::key(&location)) {
                    Some(_) => Reply::Deleted(Ok(())),
                    None => Reply::Deleted(Err(not_found())),
                }
            }
            Request::Get { location } => {
                self.requests.push(format!("get {}/{}", location.namespace, location.name));
                match self.objects.get(&Self::key(&location)) {
                    Some(object) => Reply::Found(Ok(object.copied())),
                    None => Reply::Found(Err(not_found())),
                }
            }
            Request::Create { namespace, resource } => {
                let name = resource.meta().name_any();
                self.requests.push(format!("create {}/{}", namespace, name));
                assert!(resource.meta().resource_version.is_none());
                assert!(resource.meta().namespace.is_none());
                assert!(self.get(&namespace, &name).is_none());
                self.put(&namespace, &name, resource);
                Reply::Written(Ok(()))
            }
            Request::Replace { location, resource } => {
                self.requests.push(format!("replace {}/{}", location.namespace, location.name));
                let existing = self.objects.get(&Self::key(&location)).unwrap();
                assert_eq!(existing.meta().resource_version, resource.meta().resource_version);
                self.put(&location.namespace, &location.name, resource);
                Reply::Written(Ok(()))
            }
        }
    }

    fn drive(&mut self, run: Run<T>) -> kustd::Result<()> {
        let mut request = run.request();
        let mut run = run;
        loop {
            let reply = self.perform(request);
            assert!(run.accepts(&reply));
            match run.resume(reply) {
                Step::Ask { request: next_request, run: next_run } => {
                    request = next_request;
                    run = next_run;
                }
                Step::Done(outcome) => return outcome,
            }
        }
    }

    /// Looks at every object once, as the controller does on every change.
    fn reconcile_all(&mut self) {
        let mut state = State::new();
        let objects: Vec<T> = self.objects.values().map(|object| object.copied()).collect();
        for object in objects {
            match reconcile(&object, &mut state) {
                Decision::Skip(action) => assert_eq!(action, Action::requeue(2)),
                Decision::Finalize { namespace, finalizer } => {
                    assert_eq!(Some(namespace), object.meta().namespace);
                    assert_eq!(finalizer, KUSTD_FINALIZER);
                    let outcome = self.drive(reconcile_resource(Goal::Apply, &object));
                    assert_eq!(settle(outcome).unwrap(), Action::requeue(300));
                }
            }
        }
    }

    /// Deletes a source: its finalizer runs first.
    fn delete_source(&mut self, namespace: &str, name: &str) {
        let source = self.get(namespace, name).unwrap().copied();
        let outcome = self.drive(reconcile_resource(Goal::Cleanup, &source));
        assert_eq!(settle(outcome).unwrap(), Action::requeue(300));
        self.objects.remove(&(namespace.to_string(), name.to_string()));
    }

    fn snapshot(&self) -> Vec<String> {
        self.objects
            .iter()
            .map(|(key, object)| {
                let mut annotations = object.meta().annotations().into_entries();
                annotations.sort();
                format!("{:?} {:?}", key, annotations)
            })
            .collect()
    }
}

#[test]
fn test_sync_secret() {
    let mut cluster: Cluster<Secret> = Cluster::new();
    cluster.create_namespace("test1", "loc=a");
    cluster.create_namespace("test2", "loc=b");

    // Test creating secret
    cluster.create(secret("test", "test1", "loc=b"));
    cluster.reconcile_all();
    let synced_secret = cluster.get("test2", "test").unwrap();
    assert_eq!(
        synced_secret.data.as_ref().and_then(|x| x.get("data").cloned()),
        Some("data".as_bytes().to_vec())
    );

    // Test updating secret to delete from NS
    cluster.annotate("test1", "test", SYNC, "loc=c");
    cluster.reconcile_all();
    assert!(cluster.get("test2", "test").is_none());

    // Test updating secret to create in NS
    cluster.annotate("test1", "test", SYNC, "loc=b");
    cluster.reconcile_all();
    assert!(cluster.get("test2", "test").is_some());

    // Test deleting secret
    cluster.delete_source("test1", "test");
    assert!(cluster.get("test2", "test").is_none());
}

#[test]
fn test_sync_dockerconfig_secret() {
    let mut cluster: Cluster<Secret> = Cluster::new();
    cluster.create_namespace("test1", "loc=a");
    cluster.create_namespace("test2", "loc=b");

    let dockerconfigjson =
        r#"{"auths":{"test":{"username":"test","password":"test","auth":"dGVzdDp0ZXN0"}}}"#;

    // Test creating secret
    let mut source = secret("test", "test1", "loc=b");
    source.type_ = Some("kubernetes.io/dockerconfigjson".to_string());
    source.data = Some(bytes_map(&[(".dockerconfigjson", dockerconfigjson.as_bytes())]));
    cluster.create(source);
    cluster.reconcile_all();
    let synced_secret = cluster.get("test2", "test").unwrap();
    assert_eq!(
        synced_secret.data.as_ref().and_then(|x| x.get(".dockerconfigjson").cloned()),
        Some(dockerconfigjson.as_bytes().to_vec())
    );
    assert_eq!(synced_secret.type_, Some("kubernetes.io/dockerconfigjson".to_string()));

    // Test updating secret to delete from NS
    cluster.annotate("test1", "test", "kustd.zdatainc.com/sync", "loc=c");
    cluster.reconcile_all();
    assert!(cluster.get("test2", "test").is_none());

    // Test updating secret to create in NS
    cluster.annotate("test1", "test", "kustd.zdatainc.com/sync", "loc=b");
    cluster.reconcile_all();
    assert!(cluster.get("test2", "test").is_some());

    // Test deleting secret
    cluster.delete_source("test1", "test");
    assert!(cluster.get("test2", "test").is_none());
}

#[test]
fn test_sync_configmap() {
    let mut cluster: Cluster<ConfigMap> = Cluster::new();
    cluster.create_namespace("test1", "loc=a");
    cluster.create_namespace("test2", "loc=b");

    // Test creating config map
    cluster.create(ConfigMap {
        metadata: meta("test", "test1", &[("kustd.zdatainc.com/sync", "loc=b")]),
        data: Some(string_map(&[("data", "data")])),
        binary_data: Some(bytes_map(&[("raw", &[1, 2, 3])])),
        immutable: Some(true),
    });
    cluster.reconcile_all();
    let synced = cluster.get("test2", "test").unwrap();
    assert_eq!(
        synced.data.as_ref().and_then(|x| x.get("data").cloned()),
        Some("data".to_owned())
    );
    assert!(synced.binary_data.is_none());
    assert!(synced.immutable.is_none());

    // Test updating config map to delete from NS
    cluster.annotate("test1", "test", "kustd.zdatainc.com/sync", "loc=c");
    cluster.reconcile_all();
    assert!(cluster.get("test2", "test").is_none());

    // Test updating config map to create in NS
    cluster.annotate("test1", "test", "kustd.zdatainc.com/sync", "loc=b");
    cluster.reconcile_all();
    assert!(cluster.get("test2", "test").is_some());

    // Test deleting config map
    cluster.delete_source("test1", "test");
    assert!(cluster.get("test2", "test").is_none());
}

#[test]
fn test_sync_ns() {
    let mut cluster: Cluster<Secret> = Cluster::new();
    cluster.create_namespace("test1", "loc=a");
    cluster.create_namespace("test2", "loc=b");

    cluster.create(secret("test", "test1", "loc=b"));
    cluster.reconcile_all();
    let synced_secret = cluster.get("test2", "test").unwrap();
    assert_eq!(
        synced_secret.data.as_ref().and_then(|x| x.get("data").cloned()),
        Some("data".as_bytes().to_vec())
    );

    // Test creating NS
    cluster.create_namespace("test3", "loc=b");
    cluster.reconcile_all();
    assert!(cluster.get("test3", "test").is_some());

    // Test updating NS to delete secret
    cluster.create_namespace("test3", "loc=c");
    cluster.reconcile_all();
    assert!(cluster.get("test3", "test").is_none());

    // Test updating NS to create secret
    cluster.create_namespace("test3", "loc=b");
    cluster.reconcile_all();
    assert!(cluster.get("test3", "test").is_some());
}

#[test]
fn test_sync_remove_ann_labels() {
    let mut cluster: Cluster<Secret> = Cluster::new();
    cluster.create_namespace("test1", "loc=a");
    cluster.create_namespace("test2", "loc=b");

    let mut source = secret("test", "test1", "loc=b");
    source.metadata.annotations = Some(string_map(&[
        (SYNC, "loc=b"),
        ("kustd.zdatainc.com/remove-annotations", "test1,test2"),
        ("kustd.zdatainc.com/remove-labels", "test1,test2"),
        ("test1", "test1"),
        ("test2", "test2"),
        ("test3", "test3"),
    ]));
    source.metadata.labels =
        Some(string_map(&[("test1", "test1"), ("test2", "test2"), ("test3", "test3")]));
    cluster.create(source);
    cluster.reconcile_all();

    let synced_secret = cluster.get("test2", "test").unwrap();
    let annotations = synced_secret.metadata.annotations();
    assert_eq!(annotations.get("test1"), None);
    assert_eq!(annotations.get("test2"), None);
    assert_eq!(annotations.get("test3"), Some(&"test3".to_owned()));

    let labels = synced_secret.metadata.labels();
    assert_eq!(labels.get("test1"), None);
    assert_eq!(labels.get("test2"), None);
    assert_eq!(labels.get("test3"), Some(&"test3".to_owned()));

    assert_eq!(
        synced_secret.data.as_ref().and_then(|x| x.get("data").cloned()),
        Some("data".as_bytes().to_vec())
    );
}

#[test]
fn copies_carry_their_origin() {
    let mut cluster: Cluster<Secret> = Cluster::new();
    cluster.create_namespace("default", "env=dev");
    cluster.create_namespace("prod-frontend", "env=prod");
    cluster.create_namespace("prod-backend", "env=prod");
    cluster.create(secret("test", "default", "env=prod"));
    cluster.reconcile_all();
    for namespace in ["prod-frontend", "prod-backend"] {
        let annotations = cluster.get(namespace, "test").unwrap().metadata.annotations();
        assert_eq!(
            annotations.get("kustd.zdatainc.com/origin.name"),
            Some(&"test".to_string())
        );
        assert_eq!(
            annotations.get("kustd.zdatainc.com/origin.namespace"),
            Some(&"default".to_string())
        );
        assert!(!annotations.contains_key(SYNC));
    }
}

#[test]
fn an_empty_selector_syncs_everywhere_but_home() {
    let mut cluster: Cluster<Secret> = Cluster::new();
    cluster.create_namespace("home", "loc=a");
    cluster.create_namespace("x", "loc=b");
    cluster.create_namespace("y", "loc=c");
    cluster.create(secret("test", "home", ""));
    cluster.reconcile_all();
    assert!(cluster.get("x", "test").is_some());
    assert!(cluster.get("y", "test").is_some());
    assert_eq!(cluster.objects.len(), 3);
    let requests = [
        "list namespaces None",
        "list resources",
        "get x/test",
        "create x/test",
        "get y/test",
        "create y/test",
    ];
    assert_eq!(cluster.requests, requests);
    // The source itself was not written to.
    assert_eq!(cluster.get("home", "test").unwrap().metadata.resource_version, Some("1".into()));
}

#[test]
fn applying_again_replaces_copies_with_the_same() {
    let mut cluster: Cluster<Secret> = Cluster::new();
    cluster.create_namespace("home", "loc=a");
    cluster.create_namespace("x", "loc=b");
    cluster.create(secret("test", "home", "loc=b"));
    cluster.reconcile_all();
    let before = cluster.snapshot();
    cluster.requests.clear();
    cluster.reconcile_all();
    assert_eq!(cluster.snapshot(), before);
    let requests = [
        "list namespaces Some(\"loc=b\")",
        "list resources",
        "get x/test",
        "replace x/test",
    ];
    assert_eq!(cluster.requests, requests);
}

#[test]
fn cleaning_up_restores_the_cluster() {
    let mut cluster: Cluster<Secret> = Cluster::new();
    cluster.create_namespace("home", "loc=a");
    cluster.create_namespace("x", "loc=b");
    cluster.create_namespace("y", "loc=b");
    cluster.create(secret("test", "home", "loc=b"));
    let mut unrelated = secret("unrelated", "x", "");
    unrelated.metadata.annotations = None;
    cluster.create(unrelated);
    let before = cluster.snapshot();
    let source = cluster.get("home", "test").unwrap().copied();
    cluster.drive(reconcile_resource(Goal::Apply, &source)).unwrap();
    assert_eq!(cluster.objects.len(), 4);
    cluster.requests.clear();
    cluster.drive(reconcile_resource(Goal::Cleanup, &source)).unwrap();
    assert_eq!(cluster.snapshot(), before);
    let requests = [
        "list namespaces Some(\"loc=b\")",
        "delete x/test",
        "delete y/test",
        "list resources",
    ];
    assert_eq!(cluster.requests, requests);
    // Cleaning up once more finds nothing to delete, and succeeds all the same.
    cluster.drive(reconcile_resource(Goal::Cleanup, &source)).unwrap();
    assert_eq!(cluster.snapshot(), before);
}

#[test]
fn cleaning_up_finds_copies_outside_the_destinations() {
    let mut cluster: Cluster<Secret> = Cluster::new();
    cluster.create_namespace("test1", "loc=a");
    cluster.create_namespace("test2", "loc=b");
    cluster.create_namespace("test3", "loc=c");
    cluster.create(secret("test", "test1", "loc=b"));
    cluster.reconcile_all();
    assert!(cluster.get("test2", "test").is_some());
    // The selector changes and the source is deleted before it is looked at again.
    cluster.annotate("test1", "test", SYNC, "loc=c");
    cluster.requests.clear();
    cluster.delete_source("test1", "test");
    assert!(cluster.objects.is_empty());
    let requests = [
        "list namespaces Some(\"loc=c\")",
        "delete test3/test",
        "list resources",
        "delete test2/test",
    ];
    assert_eq!(cluster.requests, requests);
}

#[test]
fn cleaning_up_finds_copies_under_other_names_and_spares_strangers() {
    let mut cluster: Cluster<Secret> = Cluster::new();
    cluster.create_namespace("home", "loc=a");
    cluster.create_namespace("x", "loc=b");
    cluster.create(secret("test", "home", "loc=b"));
    cluster.reconcile_all();
    let mut renamed = cluster.get("x", "test").unwrap().copied();
    renamed.metadata.name = Some("renamed".to_string());
    cluster.create(renamed);
    let mut stranger = secret("stranger", "x", "");
    stranger.metadata.annotations = Some(string_map(&[
        ("kustd.zdatainc.com/origin.name", "test"),
        ("kustd.zdatainc.com/origin.namespace", "elsewhere"),
    ]));
    cluster.create(stranger);
    cluster.delete_source("home", "test");
    assert!(cluster.get("x", "test").is_none());
    assert!(cluster.get("x", "renamed").is_none());
    assert!(cluster.get("x", "stranger").is_some());
    assert_eq!(cluster.objects.len(), 1);
}

#[test]
fn only_stale_copies_of_the_same_source_are_deleted() {
    let mut cluster: Cluster<Secret> = Cluster::new();
    cluster.create_namespace("home", "loc=a");
    cluster.create_namespace("other", "loc=a");
    cluster.create_namespace("x", "loc=b");
    cluster.create(secret("test", "home", "loc=b"));
    cluster.create(secret("test", "other", "loc=c"));
    cluster.reconcile_all();
    let mut stranger = secret("stranger", "x", "");
    stranger.metadata.annotations = Some(string_map(&[
        ("kustd.zdatainc.com/origin.name", "test"),
        ("kustd.zdatainc.com/origin.namespace", "other"),
    ]));
    cluster.create(stranger);
    let mut half = secret("half", "x", "");
    half.metadata.annotations = Some(string_map(&[("kustd.zdatainc.com/origin.name", "test")]));
    cluster.create(half);
    cluster.annotate("home", "test", SYNC, "loc=nowhere");
    let source = cluster.get("home", "test").unwrap().copied();
    cluster.drive(reconcile_resource(Goal::Apply, &source)).unwrap();
    assert!(cluster.get("x", "test").is_none());
    assert!(cluster.get("x", "stranger").is_some());
    assert!(cluster.get("x", "half").is_some());
}

#[test]
fn a_source_that_names_itself_as_its_origin_is_stale_to_its_own_sync() {
    let mut cluster: Cluster<Secret> = Cluster::new();
    cluster.create_namespace("home", "loc=a");
    let mut source = secret("test", "home", "loc=b");
    source.metadata.annotations = Some(string_map(&[
        (SYNC, "loc=b"),
        ("kustd.zdatainc.com/origin.name", "test"),
        ("kustd.zdatainc.com/origin.namespace", "home"),
    ]));
    cluster.create(source.copied());
    // To clean up, it is left to whoever deletes it.
    cluster.drive(reconcile_resource(Goal::Cleanup, &source)).unwrap();
    assert!(cluster.get("home", "test").is_some());
    cluster.drive(reconcile_resource(Goal::Apply, &source)).unwrap();
    assert!(cluster.get("home", "test").is_none());
}
