//! The course of a synchronization: which requests go to the Kubernetes API, one after another,
//! and what each answer leads to.
use crate::error::{ApiFailure, Error, Result};
use crate::manager::{
    copies_elsewhere, destination_namespaces, destination_selector, destinations, is_managed,
    location_of, locations_elsewhere, managed_to_synced_resource, names_of, namespace_names,
    selector_of, stale_copies, stale_locations, synced, Location, LocationView,
};
use crate::objects::{
    copy_option, option_view, views, Namespace, NamespaceView, ObjectMetaView, Resource,
};
use crate::string_map::Value;
use crate::syncable::Syncable;
use vstd::prelude::*;

verus! {

/// A request to the Kubernetes API.
#[derive(Debug)]
pub enum Request<T: Resource> {
    /// List the namespaces that the label selector matches, or all of them.
    ListNamespaces { selector: Option<String> },
    /// List the resources of the kind that is synced, in all namespaces.
    ListResources,
    /// Delete the resource at that location.
    Delete { location: Location },
    /// Get the resource at that location.
    Get { location: Location },
    /// Create a resource in a namespace.
    Create { namespace: String, resource: T },
    /// Put a resource in the place of the one at that location.
    Replace { location: Location, resource: T },
}

/// A request to the Kubernetes API, as a mathematical value.
pub enum RequestView<V> {
    ListNamespaces { selector: Option<Seq<char>> },
    ListResources,
    Delete { location: LocationView },
    Get { location: LocationView },
    Create { namespace: Seq<char>, resource: V },
    Replace { location: LocationView, resource: V },
}

impl<T: Resource> View for Request<T> {
    type V = RequestView<T::V>;

    open spec fn view(&self) -> RequestView<T::V> {
        match self {
            Request::ListNamespaces { selector } => RequestView::ListNamespaces {
                selector: option_view(*selector),
            },
            Request::ListResources => RequestView::ListResources,
            Request::Delete { location } => RequestView::Delete { location: location@ },
            Request::Get { location } => RequestView::Get { location: location@ },
            Request::Create { namespace, resource } => RequestView::Create {
                namespace: namespace@,
                resource: resource@,
            },
            Request::Replace { location, resource } => RequestView::Replace {
                location: location@,
                resource: resource@,
            },
        }
    }
}

/// The answer to a request.
#[derive(Debug)]
pub enum Reply<T: Resource> {
    /// The namespaces that were listed.
    Namespaces(Result<Vec<Namespace>, ApiFailure>),
    /// The resources that were listed.
    Resources(Result<Vec<T>, ApiFailure>),
    /// Whether the deletion was accepted.
    Deleted(Result<(), ApiFailure>),
    /// The resource that was found.
    Found(Result<T, ApiFailure>),
    /// Whether the resource was created or replaced.
    Written(Result<(), ApiFailure>),
}

/// The answer to a request, as a mathematical value.
pub enum ReplyView<V> {
    Namespaces(Result<Seq<NamespaceView>, ApiFailure>),
    Resources(Result<Seq<V>, ApiFailure>),
    Deleted(Result<(), ApiFailure>),
    Found(Result<V, ApiFailure>),
    Written(Result<(), ApiFailure>),
}

impl<T: Resource> View for Reply<T> {
    type V = ReplyView<T::V>;

    open spec fn view(&self) -> ReplyView<T::V> {
        match self {
            Reply::Namespaces(Ok(namespaces)) => ReplyView::Namespaces(Ok(views(namespaces@))),
            Reply::Namespaces(Err(failure)) => ReplyView::Namespaces(Err(*failure)),
            Reply::Resources(Ok(resources)) => ReplyView::Resources(Ok(views(resources@))),
            Reply::Resources(Err(failure)) => ReplyView::Resources(Err(*failure)),
            Reply::Deleted(answer) => ReplyView::Deleted(*answer),
            Reply::Found(Ok(resource)) => ReplyView::Found(Ok(resource@)),
            Reply::Found(Err(failure)) => ReplyView::Found(Err(*failure)),
            Reply::Written(answer) => ReplyView::Written(*answer),
        }
    }
}

/// How the copy is written to a namespace.
#[derive(Debug)]
enum Write {
    /// As a new resource.
    Create,
    /// In the place of a resource with that resource version, where it has one.
    Replace(Option<String>),
}

/// How far a run has come.
#[derive(Debug)]
enum Phase {
    /// The selected namespaces are being listed.
    Namespaces,
    /// What lies in the copy's place at `location` is being deleted, the places at `pending` come
    /// next; all of them are in the namespaces `dests`.
    Clearing { location: Location, pending: Vec<Location>, dests: Vec<String> },
    /// The resources are being listed, to find copies outside `dests`.
    Resources { dests: Vec<String> },
    /// The resource at `location` is being deleted, those at `pending` come next.
    Deleting { location: Location, pending: Vec<Location>, dests: Vec<String> },
    /// What lies in the copy's place in the namespace `dest` is being looked up.
    Finding { dest: String, rest: Vec<String> },
    /// The copy is being written to the namespace `dest`.
    Writing { dest: String, rest: Vec<String>, write: Write },
}

/// What a run is for.
#[derive(Clone, Copy, Debug, PartialEq, Eq, Structural)]
pub enum Goal {
    /// To bring the copies in line with their source.
    Apply,
    /// To remove the copies of a source that goes away.
    Cleanup,
}

/// How the copy is written to a namespace, as a mathematical value.
pub enum WriteView {
    Create,
    Replace(Option<Seq<char>>),
}

/// How far a run has come, as a mathematical value.
pub enum PhaseView {
    Namespaces,
    Clearing { location: LocationView, pending: Seq<LocationView>, dests: Seq<Seq<char>> },
    Resources { dests: Seq<Seq<char>> },
    Deleting { location: LocationView, pending: Seq<LocationView>, dests: Seq<Seq<char>> },
    Finding { dest: Seq<char>, rest: Seq<Seq<char>> },
    Writing { dest: Seq<char>, rest: Seq<Seq<char>>, write: WriteView },
}

impl View for Write {
    type V = WriteView;

    closed spec fn view(&self) -> WriteView {
        match self {
            Write::Create => WriteView::Create,
            Write::Replace(version) => WriteView::Replace(option_view(*version)),
        }
    }
}

impl View for Phase {
    type V = PhaseView;

    closed spec fn view(&self) -> PhaseView {
        match self {
            Phase::Namespaces => PhaseView::Namespaces,
            Phase::Clearing { location, pending, dests } => PhaseView::Clearing {
                location: location@,
                pending: views(pending@),
                dests: dests.deep_view(),
            },
            Phase::Resources { dests } => PhaseView::Resources { dests: dests.deep_view() },
            Phase::Deleting { location, pending, dests } => PhaseView::Deleting {
                location: location@,
                pending: views(pending@),
                dests: dests.deep_view(),
            },
            Phase::Finding { dest, rest } => PhaseView::Finding {
                dest: dest@,
                rest: rest.deep_view(),
            },
            Phase::Writing { dest, rest, write } => PhaseView::Writing {
                dest: dest@,
                rest: rest.deep_view(),
                write: write@,
            },
        }
    }
}

/// A run that waits for the answer to a request.
#[derive(Debug)]
pub struct Run<T: Syncable> {
    goal: Goal,
    origin: Location,
    copy: T,
    selector: Option<String>,
    phase: Phase,
}

/// A run that waits for the answer to a request, as a mathematical value.
pub struct RunView<V> {
    /// What the run is for.
    pub goal: Goal,
    /// Where the source lies.
    pub origin: LocationView,
    /// The copy that destinations get, in no namespace yet.
    pub copy: V,
    /// The label selector of the namespaces that are destinations.
    pub selector: Option<Seq<char>>,
    /// How far the run has come.
    pub phase: PhaseView,
}

impl<T: Syncable> View for Run<T> {
    type V = RunView<T::V>;

    closed spec fn view(&self) -> RunView<T::V> {
        RunView {
            goal: self.goal,
            origin: self.origin@,
            copy: self.copy@,
            selector: option_view(self.selector),
            phase: self.phase@,
        }
    }
}

/// What a run does after an answer.
#[derive(Debug)]
pub enum Step<T: Syncable> {
    /// It makes one more request and waits for the answer to it.
    Ask { request: Request<T>, run: Run<T> },
    /// It ends.
    Done(Result<()>),
}

/// What a run does after an answer, as a mathematical value.
pub enum StepView<V> {
    Ask { request: RequestView<V>, run: RunView<V> },
    Done(Result<()>),
}

impl<T: Syncable> View for Step<T> {
    type V = StepView<T::V>;

    open spec fn view(&self) -> StepView<T::V> {
        match self {
            Step::Ask { request, run } => StepView::Ask { request: request@, run: run@ },
            Step::Done(outcome) => StepView::Done(*outcome),
        }
    }
}

/// The copy `copy`, to be put in the place of a resource with the resource version `version`.
pub open spec fn with_version<T: Resource>(copy: T::V, version: Option<Seq<char>>) -> T::V {
    match version {
        Some(version) => T::with_meta_view(
            copy,
            ObjectMetaView { resource_version: Some(version), ..T::meta_view(copy) },
        ),
        None => copy,
    }
}

/// The request that a run waits for the answer to.
pub open spec fn request_of<T: Syncable>(run: RunView<T::V>) -> RequestView<T::V> {
    match run.phase {
        PhaseView::Namespaces => RequestView::ListNamespaces { selector: run.selector },
        PhaseView::Clearing { location, pending, dests } => RequestView::Delete { location },
        PhaseView::Resources { dests } => RequestView::ListResources,
        PhaseView::Deleting { location, pending, dests } => RequestView::Delete { location },
        PhaseView::Finding { dest, rest } => RequestView::Get {
            location: LocationView { namespace: dest, name: run.origin.name },
        },
        PhaseView::Writing { dest, rest, write: WriteView::Create } => RequestView::Create {
            namespace: dest,
            resource: run.copy,
        },
        PhaseView::Writing { dest, rest, write: WriteView::Replace(version) } =>
            RequestView::Replace {
            location: LocationView { namespace: dest, name: run.origin.name },
            resource: with_version::<T>(run.copy, version),
        },
    }
}

/// Whether `reply` answers a request like `request`.
pub open spec fn answers<V>(request: RequestView<V>, reply: ReplyView<V>) -> bool {
    match request {
        RequestView::ListNamespaces { .. } => reply is Namespaces,
        RequestView::ListResources => reply is Resources,
        RequestView::Delete { .. } => reply is Deleted,
        RequestView::Get { .. } => reply is Found,
        RequestView::Create { .. } => reply is Written,
        RequestView::Replace { .. } => reply is Written,
    }
}

/// What `run` does in the phase `phase`.
pub open spec fn enter<T: Syncable>(run: RunView<T::V>, phase: PhaseView) -> StepView<T::V> {
    let next = RunView { phase, ..run };
    StepView::Ask { request: request_of::<T>(next), run: next }
}

/// What `run` does with the resources at `pending` still to be deleted and the namespaces `dests`
/// still to be written to: first the one, then the other.
pub open spec fn proceed<T: Syncable>(
    run: RunView<T::V>,
    pending: Seq<LocationView>,
    dests: Seq<Seq<char>>,
) -> StepView<T::V> {
    if pending.len() > 0 {
        enter::<T>(
            run,
            PhaseView::Deleting { location: pending[0], pending: pending.skip(1), dests },
        )
    } else if dests.len() > 0 {
        enter::<T>(run, PhaseView::Finding { dest: dests[0], rest: dests.skip(1) })
    } else {
        StepView::Done(Ok(()))
    }
}

/// What `run` does with the places at `pending` still to be cleared in the namespaces `dests`: when
/// none is left, it lists the resources.
pub open spec fn clear<T: Syncable>(
    run: RunView<T::V>,
    pending: Seq<LocationView>,
    dests: Seq<Seq<char>>,
) -> StepView<T::V> {
    if pending.len() > 0 {
        enter::<T>(
            run,
            PhaseView::Clearing { location: pending[0], pending: pending.skip(1), dests },
        )
    } else {
        enter::<T>(run, PhaseView::Resources { dests })
    }
}

/// The places of the copies of the resource at `origin` in the namespaces `dests`.
pub open spec fn copy_locations(
    origin: LocationView,
    dests: Seq<Seq<char>>,
) -> Seq<LocationView> {
    dests.map_values(|dest: Seq<char>| LocationView { namespace: dest, name: origin.name })
}

/// The end of a run that cannot go on after `failure`.
pub open spec fn failed<V>(failure: ApiFailure) -> StepView<V> {
    StepView::Done(Err(Error::KubeError(failure.error)))
}

/// What a run does after the answer `reply`.
pub open spec fn step<T: Syncable>(run: RunView<T::V>, reply: ReplyView<T::V>) -> StepView<T::V> {
    match (run.phase, reply) {
        (PhaseView::Namespaces, ReplyView::Namespaces(Ok(selected))) => {
            let dests = namespace_names(destinations(selected, run.origin.namespace));
            match run.goal {
                Goal::Apply => enter::<T>(run, PhaseView::Resources { dests }),
                Goal::Cleanup => clear::<T>(run, copy_locations(run.origin, dests), dests),
            }
        },
        (PhaseView::Clearing { location, pending, dests }, ReplyView::Deleted(_)) => clear::<T>(
            run,
            pending,
            dests,
        ),
        (PhaseView::Resources { dests }, ReplyView::Resources(Ok(resources))) => match run.goal {
            Goal::Apply => proceed::<T>(
                run,
                stale_locations::<T>(resources, run.origin, dests),
                dests,
            ),
            Goal::Cleanup => proceed::<T>(
                run,
                locations_elsewhere::<T>(
                    resources,
                    run.origin,
                    copy_locations(run.origin, dests),
                ),
                Seq::empty(),
            ),
        },
        (PhaseView::Deleting { location, pending, dests }, ReplyView::Deleted(_)) => proceed::<T>(
            run,
            pending,
            dests,
        ),
        (PhaseView::Finding { dest, rest }, ReplyView::Found(Ok(existing))) => enter::<T>(
            run,
            PhaseView::Writing {
                dest,
                rest,
                write: WriteView::Replace(T::meta_view(existing).resource_version),
            },
        ),
        (PhaseView::Finding { dest, rest }, ReplyView::Found(Err(failure))) => {
            if failure.is_not_found() {
                enter::<T>(run, PhaseView::Writing { dest, rest, write: WriteView::Create })
            } else {
                failed(failure)
            }
        },
        (PhaseView::Writing { dest, rest, write }, ReplyView::Written(Ok(_))) => proceed::<T>(
            run,
            Seq::empty(),
            rest,
        ),
        (PhaseView::Namespaces, ReplyView::Namespaces(Err(failure))) => failed(failure),
        (PhaseView::Resources { .. }, ReplyView::Resources(Err(failure))) => failed(failure),
        (PhaseView::Writing { .. }, ReplyView::Written(Err(failure))) => failed(failure),
        // No answer to the request that the run has made.
        _ => enter::<T>(run, run.phase),
    }
}

/// The run for `goal` of the resource that `source` stands for, before the first answer.
pub open spec fn started<T: Syncable>(goal: Goal, source: T::V) -> RunView<T::V> {
    let meta = T::meta_view(source);
    RunView {
        goal,
        origin: location_of(meta),
        copy: synced::<T>(source),
        selector: selector_of(meta),
        phase: PhaseView::Namespaces,
    }
}

impl<T: Syncable> Run<T> {
    /// The run for `goal` of `source`, before its first request.
    fn start(goal: Goal, source: &T) -> (result: Run<T>)
        requires
            is_managed(T::meta_view(source@)),
        ensures
            result@ == started::<T>(goal, source@),
    {
        let origin = Location {
            namespace: copy_option(&source.meta().namespace).unwrap(),
            name: source.meta().name_any(),
        };
        let copy = managed_to_synced_resource(source).unwrap();
        let selector = destination_selector(source);
        Run { goal, origin, copy, selector, phase: Phase::Namespaces }
    }

    /// The place of the copy in the namespace `dest`.
    fn place_in(&self, dest: &String) -> (result: Location)
        ensures
            result@ == (LocationView { namespace: dest@, name: self@.origin.name }),
    {
        Location { namespace: dest.clone(), name: self.origin.name.clone() }
    }

    /// The request that the run waits for the answer to.
    pub fn request(&self) -> (result: Request<T>)
        ensures
            result@ == request_of::<T>(self@),
    {
        match &self.phase {
            Phase::Namespaces => Request::ListNamespaces { selector: copy_option(&self.selector) },
            Phase::Clearing { location, .. } => Request::Delete { location: location.copied() },
            Phase::Resources { .. } => Request::ListResources,
            Phase::Deleting { location, .. } => Request::Delete { location: location.copied() },
            Phase::Finding { dest, .. } => Request::Get { location: self.place_in(dest) },
            Phase::Writing { dest, write, .. } => {
                let mut resource = self.copy.copied();
                match write {
                    Write::Create => Request::Create { namespace: dest.clone(), resource },
                    Write::Replace(version) => {
                        // Ensure no writes happen between fetch and replacement
                        if let Some(version) = version {
                            let meta = resource.meta_mut();
                            meta.resource_version = Some(version.clone());
                        }
                        Request::Replace { location: self.place_in(dest), resource }
                    },
                }
            },
        }
    }

    /// Whether `reply` answers a request like the one that the run has made.
    pub fn accepts(&self, reply: &Reply<T>) -> (result: bool)
        ensures
            result == answers(request_of::<T>(self@), reply@),
    {
        match (&self.phase, reply) {
            (Phase::Namespaces, Reply::Namespaces(_)) => true,
            (Phase::Clearing { .. }, Reply::Deleted(_)) => true,
            (Phase::Resources { .. }, Reply::Resources(_)) => true,
            (Phase::Deleting { .. }, Reply::Deleted(_)) => true,
            (Phase::Finding { .. }, Reply::Found(_)) => true,
            (Phase::Writing { .. }, Reply::Written(_)) => true,
            _ => false,
        }
    }

    /// Goes on in the phase `phase`.
    fn enter(self, phase: Phase) -> (result: Step<T>)
        ensures
            result@ == enter::<T>(self@, phase@),
    {
        let run = Run { phase, ..self };
        Step::Ask { request: run.request(), run }
    }

    /// Goes on with the resources at `pending` still to be deleted and the namespaces `dests`
    /// still to be written to.
    fn proceed(self, pending: Vec<Location>, dests: Vec<String>) -> (result: Step<T>)
        ensures
            result@ == proceed::<T>(self@, views(pending@), dests.deep_view()),
    {
        let mut pending = pending;
        let mut dests = dests;
        if pending.len() > 0 {
            let ghost all = views(pending@);
            let location = pending.remove(0);
            assert(views(pending@) =~= all.skip(1));
            self.enter(Phase::Deleting { location, pending, dests })
        } else if dests.len() > 0 {
            let ghost all = dests.deep_view();
            let dest = dests.remove(0);
            assert(dests.deep_view() =~= all.skip(1));
            self.enter(Phase::Finding { dest, rest: dests })
        } else {
            Step::Done(Ok(()))
        }
    }

    /// Goes on with the places at `pending` still to be cleared in the namespaces `dests`.
    fn clear(self, pending: Vec<Location>, dests: Vec<String>) -> (result: Step<T>)
        ensures
            result@ == clear::<T>(self@, views(pending@), dests.deep_view()),
    {
        let mut pending = pending;
        if pending.len() > 0 {
            let ghost all = views(pending@);
            let location = pending.remove(0);
            assert(views(pending@) =~= all.skip(1));
            self.enter(Phase::Clearing { location, pending, dests })
        } else {
            self.enter(Phase::Resources { dests })
        }
    }

    /// The places of the copies in the namespaces `dests`.
    fn places_in(&self, dests: &Vec<String>) -> (result: Vec<Location>)
        ensures
            views(result@) == copy_locations(self@.origin, dests.deep_view()),
    {
        let mut result: Vec<Location> = Vec::new();
        let mut i: usize = 0;
        while i < dests.len()
            invariant
                i <= dests@.len(),
                result@.len() == i,
                forall|j: int|
                    0 <= j < i ==> (#[trigger] result@[j])@ == (LocationView {
                        namespace: dests@[j]@,
                        name: self@.origin.name,
                    }),
            decreases dests@.len() - i,
        {
            result.push(self.place_in(&dests[i]));
            i = i + 1;
        }
        assert(views(result@) =~= copy_locations(self@.origin, dests.deep_view()));
        result
    }

    /// Goes on after the answer `reply`.
    pub fn resume(self, reply: Reply<T>) -> (result: Step<T>)
        requires
            answers(request_of::<T>(self@), reply@),
        ensures
            result@ == step::<T>(self@, reply@),
    {
        let Run { goal, origin, copy, selector, phase } = self;
        let run = Run { goal, origin, copy, selector, phase: Phase::Namespaces };
        match (phase, reply) {
            (Phase::Namespaces, Reply::Namespaces(Ok(selected))) => {
                let dests = names_of(&destination_namespaces(&run.origin.namespace, selected));
                match goal {
                    Goal::Apply => run.enter(Phase::Resources { dests }),
                    Goal::Cleanup => {
                        let places = run.places_in(&dests);
                        run.clear(places, dests)
                    },
                }
            },
            (Phase::Clearing { pending, dests, .. }, _) => run.clear(pending, dests),
            (Phase::Resources { dests }, Reply::Resources(Ok(resources))) => {
                match goal {
                    Goal::Apply => {
                        let stale = stale_copies(&resources, &run.origin, &dests);
                        run.proceed(stale, dests)
                    },
                    Goal::Cleanup => {
                        let places = run.places_in(&dests);
                        let elsewhere = copies_elsewhere(&resources, &run.origin, &places);
                        let none: Vec<String> = Vec::new();
                        assert(none.deep_view() =~= Seq::<Seq<char>>::empty());
                        run.proceed(elsewhere, none)
                    },
                }
            },
            (Phase::Deleting { pending, dests, .. }, _) => run.proceed(pending, dests),
            (Phase::Finding { dest, rest }, Reply::Found(Ok(existing))) => {
                let version = copy_option(&existing.meta().resource_version);
                run.enter(Phase::Writing { dest, rest, write: Write::Replace(version) })
            },
            (Phase::Finding { dest, rest }, Reply::Found(Err(failure))) => {
                if failure.not_found() {
                    run.enter(Phase::Writing { dest, rest, write: Write::Create })
                } else {
                    Step::Done(Err(Error::from(failure.error)))
                }
            },
            (Phase::Writing { rest, .. }, Reply::Written(Ok(_))) => {
                let none: Vec<Location> = Vec::new();
                assert(views(none@) =~= Seq::<LocationView>::empty());
                run.proceed(none, rest)
            },
            (_, Reply::Namespaces(Err(failure))) => Step::Done(Err(Error::from(failure.error))),
            (_, Reply::Resources(Err(failure))) => Step::Done(Err(Error::from(failure.error))),
            (_, Reply::Written(Err(failure))) => Step::Done(Err(Error::from(failure.error))),
            (phase, _) => run.enter(phase),
        }
    }
}

/// Brings the copies of `source_resource` in line with it: stale copies are deleted, then each
/// destination's copy is created or replaced.
pub fn sync_resource<T: Syncable>(source_resource: &T) -> (result: Run<T>)
    requires
        is_managed(T::meta_view(source_resource@)),
    ensures
        result@ == started::<T>(Goal::Apply, source_resource@),
{
    Run::start(Goal::Apply, source_resource)
}

/// Removes the copies of `source_resource`: first from its destinations, then from wherever else
/// they lie.
pub fn sync_deleted_resource<T: Syncable>(source_resource: &T) -> (result: Run<T>)
    requires
        is_managed(T::meta_view(source_resource@)),
    ensures
        result@ == started::<T>(Goal::Cleanup, source_resource@),
{
    Run::start(Goal::Cleanup, source_resource)
}

/// What the finalizer of a resource asks for.
pub fn reconcile_resource<T: Syncable>(goal: Goal, resource: &T) -> (result: Run<T>)
    requires
        is_managed(T::meta_view(resource@)),
    ensures
        result@ == started::<T>(goal, resource@),
{
    match goal {
        Goal::Apply => sync_resource(resource),
        Goal::Cleanup => sync_deleted_resource(resource),
    }
}

/// A request is answered by what was asked for, whether that succeeded or failed, and by nothing
/// else.
pub proof fn law_answers<V>(request: RequestView<V>, reply: ReplyView<V>)
    ensures
        request is ListNamespaces ==> (answers(request, reply) <==> reply is Namespaces),
        request is ListResources ==> (answers(request, reply) <==> reply is Resources),
        request is Delete ==> (answers(request, reply) <==> reply is Deleted),
        request is Get ==> (answers(request, reply) <==> reply is Found),
        request is Create || request is Replace ==> (answers(request, reply) <==> reply
            is Written),
{
}

/// The view of a request leaves nothing out.
pub proof fn law_request_view<T: Resource>(request: Request<T>)
    ensures
        match request {
            Request::ListNamespaces { selector: Some(selector) } => request@
                == (RequestView::<T::V>::ListNamespaces { selector: Some(selector@) }),
            Request::ListNamespaces { selector: None } => request@
                == (RequestView::<T::V>::ListNamespaces { selector: None }),
            Request::ListResources => request@ is ListResources,
            Request::Delete { location } => request@ is Delete && request@->Delete_location
                == location@,
            Request::Get { location } => request@ is Get && request@->Get_location == location@,
            Request::Create { namespace, resource } => request@ is Create && request@->namespace
                == namespace@ && request@->Create_resource == resource@,
            Request::Replace { location, resource } => request@ is Replace
                && request@->Replace_location == location@ && request@->Replace_resource
                == resource@,
        },
{
}

/// The view of an answer leaves nothing out: what was listed or found, one by one, and every
/// failure as it is.
pub proof fn law_reply_view<T: Resource>(reply: Reply<T>, i: int)
    ensures
        match reply {
            Reply::Namespaces(Ok(listed)) => {
                &&& reply@ is Namespaces && reply@->Namespaces_0 is Ok
                &&& reply@->Namespaces_0->Ok_0.len() == listed@.len()
                &&& 0 <= i < listed@.len() ==> reply@->Namespaces_0->Ok_0[i] == listed@[i]@
            },
            Reply::Resources(Ok(listed)) => {
                &&& reply@ is Resources && reply@->Resources_0 is Ok
                &&& reply@->Resources_0->Ok_0.len() == listed@.len()
                &&& 0 <= i < listed@.len() ==> reply@->Resources_0->Ok_0[i] == listed@[i]@
            },
            Reply::Found(Ok(found)) => reply@ == ReplyView::<T::V>::Found(Ok(found@)),
            Reply::Namespaces(Err(failure)) => reply@ == ReplyView::<T::V>::Namespaces(
                Err(failure),
            ),
            Reply::Resources(Err(failure)) => reply@ == ReplyView::<T::V>::Resources(
                Err(failure),
            ),
            Reply::Found(Err(failure)) => reply@ == ReplyView::<T::V>::Found(Err(failure)),
            Reply::Deleted(answer) => reply@ == ReplyView::<T::V>::Deleted(answer),
            Reply::Written(answer) => reply@ == ReplyView::<T::V>::Written(answer),
        },
{
}

/// The view of a step leaves nothing out.
pub proof fn law_step_view<T: Syncable>(step: Step<T>)
    ensures
        match step {
            Step::Ask { request, run } => step@ is Ask && step@->request == request@ && step@->run
                == run@,
            Step::Done(outcome) => step@ == StepView::<T::V>::Done(outcome),
        },
{
}

} // verus!
