//! Single decisions: texts, maps, copies, and the answers that end a run.

use kustd::error::{ApiFailure, Error};
use kustd::manager::{
    copies_elsewhere, destination_namespaces, destination_selector, error_policy,
    managed_to_synced_resource, names_of, reconcile, reconcile_at, settle, stale_copies, Action,
    Decision, Location, Reporter, State,
};
use kustd::objects::{
    ManagedFieldsEntry, Namespace, ObjectMeta, OwnerReference, Resource, Timestamp,
};
use kustd::run::{sync_deleted_resource, sync_resource, Reply, Request, Run, Step};
use kustd::string_map::{StringMap, Value};
use kustd::syncable::{ConfigMap, Secret, Syncable};
use kustd::text::{is_white_space, split_list, trim};

const SYNC: &str = "kustd.zdatainc.com/sync";
const ORIGIN_NAME: &str = "kustd.zdatainc.com/origin.name";
const ORIGIN_NAMESPACE: &str = "kustd.zdatainc.com/origin.namespace";
const REMOVE_ANNOTATIONS: &str = "kustd.zdatainc.com/remove-annotations";
const REMOVE_LABELS: &str = "kustd.zdatainc.com/remove-labels";

fn string_map(entries: &[(&str, &str)]) -> StringMap<String> {
    let mut map = StringMap::new();
    for (key, value) in entries {
        map.insert(key.to_string(), value.to_string());
    }
    map
}

fn sorted(map: StringMap<String>) -> Vec<(String, String)> {
    let mut entries = map.into_entries();
    entries.sort();
    entries
}

fn entries(expected: &[(&str, &str)]) -> Vec<(String, String)> {
    let mut entries: Vec<(String, String)> =
        expected.iter().map(|(key, value)| (key.to_string(), value.to_string())).collect();
    entries.sort();
    entries
}

fn secret(annotations: &[(&str, &str)], labels: &[(&str, &str)]) -> Secret {
    let mut metadata = ObjectMeta::new();
    metadata.name = Some("test".to_string());
    metadata.namespace = Some("home".to_string());
    metadata.annotations = Some(string_map(annotations));
    metadata.labels = Some(string_map(labels));
    metadata.resource_version = Some("7".to_string());
    metadata.uid = Some("u".to_string());
    metadata.finalizers = Some(vec!["kustd.zdatainc.com/cleanup".to_string()]);
    let mut data = StringMap::new();
    data.insert("key".to_string(), vec![1, 2, 3]);
    Secret {
        metadata,
        type_: Some("Opaque".to_string()),
        data: Some(data),
        string_data: Some(string_map(&[("plain", "text")])),
        immutable: Some(true),
    }
}

fn namespace(name: &str) -> Namespace {
    let mut metadata = ObjectMeta::new();
    metadata.name = Some(name.to_string());
    Namespace { metadata }
}

fn failure(code: u16) -> ApiFailure {
    let response = kube::core::ErrorResponse {
        status: "Failure".to_string(),
        message: format!("message {}", code),
        reason: String::new(),
        code,
    };
    ApiFailure { code: Some(code), error: kube::Error::Api(response) }
}

fn lost() -> ApiFailure {
    ApiFailure { code: None, error: kube::Error::LinesCodecMaxLineLengthExceeded }
}

fn code_of(outcome: kustd::Result<()>) -> u16 {
    match outcome {
        Err(Error::KubeError(kube::Error::Api(response))) => response.code,
        other => panic!("unexpected outcome {:?}", other),
    }
}

fn ask<T: Syncable + std::fmt::Debug>(step: Step<T>) -> (Request<T>, Run<T>) {
    match step {
        Step::Ask { request, run } => (request, run),
        Step::Done(outcome) => panic!("the run ended with {:?}", outcome),
    }
}

fn done<T: Syncable + std::fmt::Debug>(step: Step<T>) -> kustd::Result<()> {
    match step {
        Step::Ask { request, .. } => panic!("the run went on with {:?}", request),
        Step::Done(outcome) => outcome,
    }
}

#[test]
fn white_space_is_unicode_white_space() {
    for c in '\0'..=char::MAX {
        assert_eq!(is_white_space(c), c.is_whitespace(), "{:?}", c);
    }
}

#[test]
fn trimming() {
    for text in ["", " ", "a", " a", "a ", "\t a b \n", "\u{3000}\u{e9}\u{a0}", " , "] {
        assert_eq!(trim(text), text.trim());
    }
}

#[test]
fn splitting_lists() {
    for text in ["", ",", "a", "a,b", " a , b ", "a,,b,", "\u{e9}, \u{6f22}\u{5b57} ,x y"] {
        let expected: Vec<&str> = text.split(",").map(|part| part.trim()).collect();
        assert_eq!(split_list(text), expected);
    }
    assert_eq!(split_list(" a , b "), ["a", "b"]);
}

#[test]
fn maps_hold_what_was_inserted_last() {
    let mut map = string_map(&[("a", "1"), ("b", "2"), ("c", "3")]);
    map.insert("b".to_string(), "4".to_string());
    assert_eq!(map.get("b"), Some(&"4".to_string()));
    assert_eq!(map.get("d"), None);
    let copy = map.clone();
    map.remove("a");
    map.remove("d");
    assert!(!map.contains_key("a"));
    assert!(copy.contains_key("a"));
    assert_eq!(sorted(copy), entries(&[("a", "1"), ("b", "4"), ("c", "3")]));
    map.remove_all(&vec!["c".to_string(), "x".to_string(), "c".to_string()]);
    assert_eq!(sorted(map), entries(&[("b", "4")]));
}

#[test]
fn names_fall_back_to_the_generated_prefix() {
    let mut meta = ObjectMeta::new();
    assert_eq!(meta.name_any(), "");
    meta.generate_name = Some("prefix-".to_string());
    assert_eq!(meta.name_any(), "prefix-");
    meta.name = Some("name".to_string());
    assert_eq!(meta.name_any(), "name");
}

#[test]
fn metadata_without_maps_has_no_entries() {
    let meta = ObjectMeta::new();
    assert_eq!(meta.annotation(SYNC), None);
    assert_eq!(sorted(meta.annotations()), entries(&[]));
    assert_eq!(sorted(meta.labels()), entries(&[]));
}

#[test]
fn a_duplicate_of_a_secret_keeps_critical_data() {
    let duplicate = secret(&[("a", "1")], &[("l", "2")]).duplicate();
    assert_eq!(duplicate.metadata.name, Some("test".to_string()));
    assert_eq!(duplicate.metadata.namespace, Some("home".to_string()));
    assert_eq!(sorted(duplicate.metadata.annotations()), entries(&[("a", "1")]));
    assert_eq!(sorted(duplicate.metadata.labels()), entries(&[("l", "2")]));
    assert_eq!(duplicate.metadata.resource_version, None);
    assert_eq!(duplicate.metadata.uid, None);
    assert_eq!(duplicate.metadata.finalizers, None);
    assert_eq!(duplicate.type_, Some("Opaque".to_string()));
    assert_eq!(duplicate.data.unwrap().get("key"), Some(&vec![1, 2, 3]));
    assert!(duplicate.string_data.is_none());
    assert_eq!(duplicate.immutable, None);
}

#[test]
fn a_duplicate_of_a_config_map_keeps_critical_data() {
    let mut metadata = ObjectMeta::new();
    metadata.generate_name = Some("cm-".to_string());
    let mut binary_data = StringMap::new();
    binary_data.insert("raw".to_string(), vec![0u8]);
    let original = ConfigMap {
        metadata,
        data: Some(string_map(&[("k", "v")])),
        binary_data: Some(binary_data),
        immutable: Some(false),
    };
    let duplicate = original.duplicate();
    assert_eq!(duplicate.meta().name, Some("cm-".to_string()));
    assert_eq!(duplicate.meta().generate_name, None);
    assert_eq!(duplicate.meta().namespace, None);
    assert!(duplicate.meta().annotations.is_some());
    assert!(duplicate.meta().labels.is_some());
    assert_eq!(duplicate.data.unwrap().get("k"), Some(&"v".to_string()));
    assert!(duplicate.binary_data.is_none());
    assert_eq!(duplicate.immutable, None);
}

#[test]
fn a_copy_names_its_origin_and_is_no_source() {
    let source = secret(&[(SYNC, "loc=b"), ("kept", "x")], &[("l", "2")]);
    let copy = managed_to_synced_resource(&source).unwrap();
    assert_eq!(copy.metadata.name, Some("test".to_string()));
    assert_eq!(copy.metadata.namespace, None);
    assert_eq!(
        sorted(copy.metadata.annotations()),
        entries(&[("kept", "x"), (ORIGIN_NAME, "test"), (ORIGIN_NAMESPACE, "home")])
    );
    assert_eq!(sorted(copy.metadata.labels()), entries(&[("l", "2")]));
    assert_eq!(copy.type_, source.type_);
    let mut placed = copy.copied();
    placed.metadata.namespace = Some("x".to_string());
    let decision = reconcile(&placed, &mut State::new());
    assert!(matches!(decision, Decision::Skip(action) if action == Action::requeue(2)));
}

#[test]
fn a_copy_overwrites_the_origin_of_its_source() {
    let source = secret(&[(SYNC, ""), (ORIGIN_NAME, "old"), (ORIGIN_NAMESPACE, "old")], &[]);
    let copy = managed_to_synced_resource(&source).unwrap();
    assert_eq!(
        sorted(copy.metadata.annotations()),
        entries(&[(ORIGIN_NAME, "test"), (ORIGIN_NAMESPACE, "home")])
    );
}

#[test]
fn listed_annotations_and_labels_are_removed() {
    let source = secret(
        &[
            (SYNC, "loc=b"),
            (REMOVE_ANNOTATIONS, " a , kustd.zdatainc.com/remove-annotations,missing"),
            (REMOVE_LABELS, "x, y "),
            ("a", "1"),
            ("b", "2"),
        ],
        &[("x", "1"), ("y", "2"), ("z", "3")],
    );
    let copy = managed_to_synced_resource(&source).unwrap();
    assert_eq!(
        sorted(copy.metadata.annotations()),
        entries(&[
            (REMOVE_LABELS, "x, y "),
            ("b", "2"),
            (ORIGIN_NAME, "test"),
            (ORIGIN_NAMESPACE, "home"),
        ])
    );
    assert_eq!(sorted(copy.metadata.labels()), entries(&[("z", "3")]));
}

#[test]
fn a_removed_list_of_labels_still_counts() {
    let source = secret(
        &[(REMOVE_ANNOTATIONS, REMOVE_LABELS), (REMOVE_LABELS, "x")],
        &[("x", "1"), ("y", "2")],
    );
    let copy = managed_to_synced_resource(&source).unwrap();
    assert_eq!(copy.metadata.annotation(REMOVE_LABELS), None);
    assert_eq!(sorted(copy.metadata.labels()), entries(&[("y", "2")]));
}

#[test]
fn origin_annotations_can_be_removed() {
    let source = secret(&[(SYNC, ""), (REMOVE_ANNOTATIONS, ORIGIN_NAME)], &[]);
    let copy = managed_to_synced_resource(&source).unwrap();
    assert_eq!(copy.metadata.annotation(ORIGIN_NAME), None);
    assert_eq!(copy.metadata.annotation(ORIGIN_NAMESPACE), Some(&"home".to_string()));
}

#[test]
fn selectors_are_handed_on() {
    let selector = "env in (prod), tier notin (frontend)";
    assert_eq!(destination_selector(&secret(&[(SYNC, selector)], &[])), Some(selector.to_string()));
    assert_eq!(destination_selector(&secret(&[(SYNC, "")], &[])), None);
}

#[test]
fn the_own_namespace_is_no_destination() {
    let selected = vec![namespace("b"), namespace("home"), namespace("a"), namespace("home")];
    let dests = destination_namespaces(&"home".to_string(), selected);
    assert_eq!(names_of(&dests), ["b", "a"]);
}

#[test]
fn stale_copies_lie_outside_the_destinations() {
    let origin = Location { namespace: "home".to_string(), name: "test".to_string() };
    let copy_in = |place: Option<&str>, name: &str| {
        let mut copy = secret(&[(ORIGIN_NAME, "test"), (ORIGIN_NAMESPACE, "home")], &[]);
        copy.metadata.namespace = place.map(|place| place.to_string());
        copy.metadata.name = Some(name.to_string());
        copy
    };
    let objects = vec![
        copy_in(Some("x"), "one"),
        copy_in(Some("kept"), "two"),
        copy_in(None, "three"),
        secret(&[(ORIGIN_NAME, "test")], &[]),
        copy_in(Some("y"), "four"),
    ];
    let stale = stale_copies(&objects, &origin, &vec!["kept".to_string()]);
    let found: Vec<(String, String)> =
        stale.into_iter().map(|place| (place.namespace, place.name)).collect();
    assert_eq!(found, entries(&[("x", "one"), ("y", "four")]));
}

#[test]
fn copies_elsewhere_lie_at_none_of_the_places() {
    let at = |namespace: &str, name: &str| Location {
        namespace: namespace.to_string(),
        name: name.to_string(),
    };
    let copy_in = |place: Option<&str>, name: &str| {
        let mut copy = secret(&[(ORIGIN_NAME, "test"), (ORIGIN_NAMESPACE, "home")], &[]);
        copy.metadata.namespace = place.map(|place| place.to_string());
        copy.metadata.name = Some(name.to_string());
        copy
    };
    let objects = vec![
        copy_in(Some("x"), "test"),
        copy_in(Some("x"), "other"),
        copy_in(Some("home"), "test"),
        copy_in(Some("home"), "second"),
        copy_in(None, "test"),
        secret(&[(ORIGIN_NAME, "test")], &[]),
        copy_in(Some("y"), "test"),
    ];
    let places = vec![at("x", "test"), at("z", "test")];
    let found: Vec<(String, String)> = copies_elsewhere(&objects, &at("home", "test"), &places)
        .into_iter()
        .map(|place| (place.namespace, place.name))
        .collect();
    let expected = [("x", "other"), ("home", "second"), ("y", "test")];
    assert_eq!(found, expected.map(|(namespace, name)| (namespace.into(), name.into())));
}

#[test]
fn copies_are_tied_to_nothing() {
    let at = Timestamp { seconds: 1, nanoseconds: 2 };
    let mut source = secret(&[(SYNC, "")], &[("x", "1")]);
    source.metadata.owner_references = Some(vec![OwnerReference {
        api_version: "v1".to_string(),
        kind: "Pod".to_string(),
        name: "owner".to_string(),
        uid: "o".to_string(),
        controller: Some(true),
        block_owner_deletion: None,
    }]);
    source.metadata.managed_fields = Some(vec![ManagedFieldsEntry {
        manager: Some("kubectl".to_string()),
        operation: Some("Update".to_string()),
        api_version: Some("v1".to_string()),
        subresource: None,
        time: Some(at),
        fields_type: Some("FieldsV1".to_string()),
        fields: Some("{}".to_string()),
    }]);
    source.metadata.generation = Some(3);
    source.metadata.creation_timestamp = Some(at);
    source.metadata.deletion_timestamp = Some(at);
    source.metadata.deletion_grace_period_seconds = Some(30);
    source.metadata.self_link = Some("link".to_string());
    source.metadata.generate_name = Some("te".to_string());

    let same = source.copied();
    assert_eq!(same.metadata.owner_references.unwrap()[0].name, "owner");
    assert_eq!(same.metadata.managed_fields.unwrap()[0].fields, Some("{}".to_string()));
    assert_eq!(same.metadata.finalizers, source.metadata.finalizers);
    assert_eq!(same.metadata.creation_timestamp, Some(at));

    let copy = managed_to_synced_resource(&source).unwrap().metadata;
    assert_eq!(copy.name, Some("test".to_string()));
    assert_eq!(copy.generate_name, None);
    assert_eq!(copy.namespace, None);
    assert!(copy.owner_references.is_none());
    assert_eq!(copy.finalizers, None);
    assert_eq!(copy.resource_version, None);
    assert_eq!(copy.uid, None);
    assert_eq!(copy.generation, None);
    assert_eq!(copy.creation_timestamp, None);
    assert_eq!(copy.deletion_timestamp, None);
    assert_eq!(copy.deletion_grace_period_seconds, None);
    assert!(copy.managed_fields.is_none());
    assert_eq!(copy.self_link, None);
}

#[test]
fn sources_are_handed_to_their_finalizer() {
    let mut state = State::new();
    match reconcile(&secret(&[(SYNC, "")], &[]), &mut state) {
        Decision::Finalize { namespace, finalizer } => {
            assert_eq!(namespace, "home");
            assert_eq!(finalizer, "kustd.zdatainc.com/cleanup");
        }
        other => panic!("unexpected decision {:?}", other),
    }
    assert!(matches!(
        reconcile(&secret(&[], &[]), &mut state),
        Decision::Skip(Action { requeue_after: Some(2) })
    ));
}

#[test]
fn every_look_at_a_resource_is_noted() {
    let mut state = State::new();
    let instance = state.reporter.instance.clone();
    for (seconds, annotations) in [(1, vec![(SYNC, "")]), (2, vec![])] {
        let at = Timestamp { seconds, nanoseconds: 3 };
        let decision = reconcile_at(&secret(&annotations, &[]), &mut state, at);
        assert_eq!(matches!(decision, Decision::Skip(_)), annotations.is_empty());
        assert_eq!(state.last_event, at);
        assert_eq!(state.reporter.controller, "kustd-controller");
        assert_eq!(state.reporter.instance, instance);
    }
}

#[test]
fn delays() {
    assert_eq!(settle(Ok(())).unwrap(), Action { requeue_after: Some(300) });
    assert_eq!(code_of(settle(Err(Error::from(failure(500).error))).map(|_| ())), 500);
    assert_eq!(error_policy(), Action { requeue_after: Some(20) });
}

#[test]
fn not_found_is_told_by_its_code() {
    assert!(failure(404).not_found());
    assert!(!failure(410).not_found());
    assert!(!lost().not_found());
}

#[test]
fn the_state_tells_the_last_event() {
    let earliest = std::time::SystemTime::now()
        .duration_since(std::time::UNIX_EPOCH)
        .unwrap()
        .as_secs() as i64;
    let mut state = State::new();
    assert_eq!(state.reporter.controller, "kustd-controller");
    assert!(state.last_event.seconds >= earliest);
    assert!(state.last_event.seconds <= earliest + 20);
    assert!(state.last_event.nanoseconds < 1_000_000_000);
    let at = Timestamp { seconds: 5, nanoseconds: 6 };
    state.record_event(at);
    assert_eq!(state.clone().last_event, at);
    reconcile(&secret(&[], &[]), &mut state);
    assert!(state.last_event.seconds >= earliest);
    assert!(state.last_event.seconds <= earliest + 20);
    assert_eq!(state.reporter.controller, "kustd-controller");
    let reporter = Reporter { controller: "c".to_string(), instance: None };
    assert_eq!(State::started(at, reporter).last_event, at);
}

#[test]
fn the_reporter_is_the_client_library_s() {
    let expected = kube::runtime::events::Reporter::from("kustd-controller");
    assert_eq!(State::new().reporter.instance, expected.instance);
}

#[test]
fn a_failed_list_of_namespaces_ends_the_run() {
    let source = secret(&[(SYNC, "loc=b")], &[]);
    let run = sync_resource(&source);
    assert!(!run.accepts(&Reply::Resources(Ok(Vec::new()))));
    assert_eq!(code_of(done(run.resume(Reply::Namespaces(Err(failure(500)))))), 500);
    let run = sync_deleted_resource(&source);
    assert_eq!(code_of(done(run.resume(Reply::Namespaces(Err(failure(404)))))), 404);
}

#[test]
fn a_failed_list_of_resources_ends_the_run() {
    let source = secret(&[(SYNC, "loc=b")], &[]);
    let (request, run) = ask(sync_resource(&source).resume(Reply::Namespaces(Ok(Vec::new()))));
    assert!(matches!(request, Request::ListResources));
    assert_eq!(code_of(done(run.resume(Reply::Resources(Err(failure(403)))))), 403);
    let selected = vec![namespace("x")];
    let (request, run) =
        ask(sync_deleted_resource(&source).resume(Reply::Namespaces(Ok(selected))));
    // The copies in the destinations are gone by then.
    assert!(matches!(request, Request::Delete { location } if location.namespace == "x"));
    let (request, run) = ask(run.resume(Reply::Deleted(Ok(()))));
    assert!(matches!(request, Request::ListResources));
    assert_eq!(code_of(done(run.resume(Reply::Resources(Err(failure(503)))))), 503);
}

#[test]
fn failed_deletions_do_not_end_a_cleanup() {
    let source = secret(&[(SYNC, "loc=b")], &[]);
    let mut stray = managed_to_synced_resource(&source).unwrap();
    stray.metadata.namespace = Some("old".to_string());
    let selected = vec![namespace("x")];
    let (request, run) =
        ask(sync_deleted_resource(&source).resume(Reply::Namespaces(Ok(selected))));
    assert!(matches!(request, Request::Delete { location } if location.namespace == "x"));
    let (request, run) = ask(run.resume(Reply::Deleted(Err(failure(500)))));
    assert!(matches!(request, Request::ListResources));
    let (request, run) = ask(run.resume(Reply::Resources(Ok(vec![stray]))));
    assert!(matches!(request, Request::Delete { location } if location.namespace == "old"));
    assert!(done(run.resume(Reply::Deleted(Err(failure(404))))).is_ok());
}

#[test]
fn failed_deletions_do_not_end_the_run() {
    let source = secret(&[(SYNC, "loc=b")], &[]);
    let mut stale = managed_to_synced_resource(&source).unwrap();
    stale.metadata.namespace = Some("old".to_string());
    let mut older = stale.copied();
    older.metadata.namespace = Some("older".to_string());
    let (_, run) = ask(sync_resource(&source).resume(Reply::Namespaces(Ok(vec![namespace("x")]))));
    let (request, run) = ask(run.resume(Reply::Resources(Ok(vec![stale, older]))));
    assert!(matches!(request, Request::Delete { location } if location.namespace == "old"));
    let (request, run) = ask(run.resume(Reply::Deleted(Err(failure(404)))));
    assert!(matches!(request, Request::Delete { location } if location.namespace == "older"));
    let (request, run) = ask(run.resume(Reply::Deleted(Err(failure(500)))));
    assert!(matches!(request, Request::Get { location } if location.namespace == "x"));
    let (request, run) = ask(run.resume(Reply::Found(Err(failure(404)))));
    assert!(matches!(request, Request::Create { namespace, .. } if namespace == "x"));
    assert!(done(run.resume(Reply::Written(Ok(())))).is_ok());
}

#[test]
fn what_becomes_of_deletions_does_not_matter() {
    let source = secret(&[(SYNC, "loc=b")], &[]);
    let mut courses = Vec::new();
    for deleted in [Ok(()), Err(failure(404)), Err(failure(500)), Err(lost())] {
        let mut stray = managed_to_synced_resource(&source).unwrap();
        stray.metadata.namespace = Some("old".to_string());
        let selected = vec![namespace("x")];
        let mut course = Vec::new();
        let (request, run) =
            ask(sync_deleted_resource(&source).resume(Reply::Namespaces(Ok(selected))));
        course.push(format!("{:?}", request));
        let (request, run) = ask(run.resume(Reply::Deleted(deleted)));
        course.push(format!("{:?}", request));
        let (request, run) = ask(run.resume(Reply::Resources(Ok(vec![stray]))));
        course.push(format!("{:?}", request));
        assert!(done(run.resume(Reply::Deleted(Ok(())))).is_ok());
        courses.push(course);
    }
    for course in &courses {
        assert_eq!(course, &courses[0]);
    }
}

#[test]
fn a_failed_look_up_ends_the_run() {
    let source = secret(&[(SYNC, "loc=b")], &[]);
    for reply in [failure(500), lost()] {
        let selected = vec![namespace("x"), namespace("y")];
        let (_, run) = ask(sync_resource(&source).resume(Reply::Namespaces(Ok(selected))));
        let (_, run) = ask(run.resume(Reply::Resources(Ok(Vec::new()))));
        assert!(matches!(
            done(run.resume(Reply::Found(Err(reply)))),
            Err(Error::KubeError(_))
        ));
    }
}

#[test]
fn a_failed_write_ends_the_run() {
    let source = secret(&[(SYNC, "loc=b")], &[]);
    let selected = vec![namespace("x"), namespace("y")];
    let (_, run) = ask(sync_resource(&source).resume(Reply::Namespaces(Ok(selected))));
    let (_, run) = ask(run.resume(Reply::Resources(Ok(Vec::new()))));
    let (_, run) = ask(run.resume(Reply::Found(Err(failure(404)))));
    assert_eq!(code_of(done(run.resume(Reply::Written(Err(failure(409)))))), 409);
}

#[test]
fn a_replacement_carries_the_version_that_was_found() {
    let source = secret(&[(SYNC, "loc=b")], &[]);
    let versions = [Some("42".to_string()), None];
    for version in versions {
        let (_, run) =
            ask(sync_resource(&source).resume(Reply::Namespaces(Ok(vec![namespace("x")]))));
        let (_, run) = ask(run.resume(Reply::Resources(Ok(Vec::new()))));
        let mut existing = secret(&[], &[]);
        existing.metadata.resource_version = version.clone();
        let (request, run) = ask(run.resume(Reply::Found(Ok(existing))));
        match request {
            Request::Replace { location, resource } => {
                assert_eq!((location.namespace.as_str(), location.name.as_str()), ("x", "test"));
                assert_eq!(resource.metadata.resource_version, version);
                assert_eq!(resource.metadata.uid, None);
                assert_eq!(resource.metadata.annotation(ORIGIN_NAME), Some(&"test".to_string()));
            }
            other => panic!("unexpected request {:?}", other),
        }
        assert!(done(run.resume(Reply::Written(Ok(())))).is_ok());
    }
}
