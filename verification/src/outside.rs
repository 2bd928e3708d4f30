//! The calls into `kube` and `chrono` that the library relies on without proof.
use vstd::prelude::*;

verus! {

/// Calls `kube::ResourceExt::name_any` on an object with the given `name` and `generate_name`.
///
/// Claimed of it: it gives the object's name; for an object without a name, its generated
/// name's prefix; for an object with neither, the empty string.
#[verifier::external_body]
pub(crate) fn name_any(name: Option<String>, generate_name: Option<String>) -> (result: String)
    ensures
        result@ == match (name, generate_name) {
            (Some(given), _) => given@,
            (None, Some(prefix)) => prefix@,
            (None, None) => Seq::empty(),
        },
{
    let metadata = kube::core::ObjectMeta { name, generate_name, ..Default::default() };
    let object = k8s_openapi::api::core::v1::Namespace { metadata, ..Default::default() };
    kube::ResourceExt::name_any(&object)
}

/// Calls `kube::api::ListParams::labels` on default parameters and takes the label selector
/// that the parameters then hold.
///
/// Claimed of it: the parameters hold the selector that was given, unchanged.
#[verifier::external_body]
pub(crate) fn list_params_labels(selector: &str) -> (result: Option<String>)
    ensures
        result is Some,
        result->0@ == selector@,
{
    kube::api::ListParams::default().labels(selector).label_selector
}

/// Calls `kube::runtime::events::Reporter::from` on the name of a controller and takes the
/// reporter's controller and instance.
///
/// Claimed of it: the reporter's controller is the one that was named. Nothing is claimed of the
/// instance, which is the name of the host where it can be had.
#[verifier::external_body]
pub(crate) fn reporter(controller: &str) -> (result: (String, Option<String>))
    ensures
        result.0@ == controller@,
{
    let reporter = kube::runtime::events::Reporter::from(controller);
    (reporter.controller, reporter.instance)
}

/// Calls `chrono::Utc::now` and takes the seconds since the epoch and the nanoseconds since the
/// last whole second.
///
/// Claimed of it: the nanoseconds are less than a second. The call panics on a machine whose
/// clock stands before the epoch.
#[verifier::external_body]
pub(crate) fn utc_now() -> (result: (i64, u32))
    ensures
        result.1 < 1_000_000_000,
{
    let now = chrono::Utc::now();
    (now.timestamp(), now.timestamp_subsec_nanos())
}

} // verus!
