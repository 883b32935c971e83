//! Finds the images that a resource is about, and has one Job created for each of them.
use crate::crds::namespace_scan::{NamespaceScanSpec, Target};
use crate::k8s::{
    Container, ContainerView, EphemeralContainer, EphemeralContainerView, Job, JobView,
    ObjectMetaView, OwnerReference, OwnerReferenceView, Pod, PodView,
};
use crate::kube::KubeError;
use crate::reconcile::scheduler;
use crate::scan_job::{self, build_scan_job};
use crate::text::{self, text_eq};
use crate::text_map::{self, TextSet};
use vstd::prelude::*;
use vstd::string::StringExecFns;

verus! {

/// What came of an orchestration.
#[derive(Debug, Clone, PartialEq, Eq)]
pub enum OrchestrationResult {
    /// There is a Job for each distinct image, created now or before.
    Spawned { distinct_images: usize },
    /// The target has no image in scope.
    NoImagesInScope,
    /// No Job can be built for this image.
    BuildFailed { image_ref: String, error: String },
    /// The operator was not allowed to list pods or to create a Job. No Job of this orchestration is
    /// left, unless the operator was not allowed to delete it either.
    RbacInsufficient { verb_resource: String, namespace: Option<String>, message: String },
}

/// The view of an [`OrchestrationResult`].
#[verifier::ext_equal]
pub ghost enum OrchestrationResultView {
    Spawned { distinct_images: nat },
    NoImagesInScope,
    BuildFailed { image_ref: Seq<char>, error: Seq<char> },
    RbacInsufficient {
        verb_resource: Seq<char>,
        namespace: Option<Seq<char>>,
        message: Seq<char>,
    },
}

impl DeepView for OrchestrationResult {
    type V = OrchestrationResultView;

    open spec fn deep_view(&self) -> OrchestrationResultView {
        match self {
            OrchestrationResult::Spawned { distinct_images } => OrchestrationResultView::Spawned {
                distinct_images: *distinct_images as nat,
            },
            OrchestrationResult::NoImagesInScope => OrchestrationResultView::NoImagesInScope,
            OrchestrationResult::BuildFailed { image_ref, error } =>
                OrchestrationResultView::BuildFailed { image_ref: image_ref@, error: error@ },
            OrchestrationResult::RbacInsufficient { verb_resource, namespace, message } =>
                OrchestrationResultView::RbacInsufficient {
                    verb_resource: verb_resource@,
                    namespace: namespace.deep_view(),
                    message: message@,
                },
        }
    }
}

/// An unexpected failure, one that does not become an [`OrchestrationResult`].
#[derive(Debug)]
pub enum OrchestrationError {
    Kube(KubeError),
}

impl OrchestrationError {
    /// What the error says.
    pub fn message(&self) -> (r: String)
        ensures
            r@ == "kube API error: "@ + self->Kube_0.text@,
    {
        match self {
            OrchestrationError::Kube(e) => {
                let mut text = "kube API error: ".to_owned();
                text.append(e.text.as_str());
                text
            },
        }
    }
}

/// What the orchestration needs to know about the resource.
#[derive(Debug, Clone)]
pub struct CrMetaSnapshot {
    pub name: String,
    pub uid: String,
    pub namespace: String,
}

// ---------------------------------------------------------------------------------------------
// Images.
// ---------------------------------------------------------------------------------------------

/// A pod is in scope if it is running or pending, or has not reported a phase yet.
pub open spec fn in_scope(pod: PodView) -> bool {
    match pod.status {
        Some(status) => match status.phase {
            Some(phase) => phase == "Running"@ || phase == "Pending"@,
            None => true,
        },
        None => true,
    }
}

/// Whether a pod is in scope.
pub fn is_pod_in_scope(pod: &Pod) -> (r: bool)
    ensures
        r == in_scope(pod.deep_view()),
{
    match &pod.status {
        Some(status) => match &status.phase {
            Some(phase) => text_eq(phase.as_str(), "Running") || text_eq(phase.as_str(), "Pending"),
            None => true,
        },
        None => true,
    }
}

/// The image that a container names, as it is written; none, if it is blank.
pub open spec fn named_image(image: Option<Seq<char>>) -> Option<Seq<char>> {
    match image {
        Some(image) => if scan_job::blank(image) {
            None
        } else {
            Some(image)
        },
        None => None,
    }
}

/// `images` with the image that a container names.
pub open spec fn with_image(images: Set<Seq<char>>, image: Option<Seq<char>>) -> Set<Seq<char>> {
    match named_image(image) {
        Some(image) => images.insert(image),
        None => images,
    }
}

/// The images that some containers name.
pub open spec fn container_images(containers: Seq<ContainerView>) -> Set<Seq<char>>
    decreases containers.len(),
{
    if containers.len() == 0 {
        Set::empty()
    } else {
        with_image(container_images(containers.drop_last()), containers.last().image)
    }
}

/// The images that some ephemeral containers name.
pub open spec fn ephemeral_images(containers: Seq<EphemeralContainerView>) -> Set<Seq<char>>
    decreases containers.len(),
{
    if containers.len() == 0 {
        Set::empty()
    } else {
        with_image(ephemeral_images(containers.drop_last()), containers.last().image)
    }
}

/// The images of a pod that is in scope: those of its init containers, its containers and its
/// ephemeral containers.
pub open spec fn pod_images(pod: PodView) -> Set<Seq<char>> {
    if in_scope(pod) && pod.spec is Some {
        let spec = pod.spec->0;
        let init = match spec.init_containers {
            Some(containers) => container_images(containers),
            None => Set::empty(),
        };
        let ephemeral = match spec.ephemeral_containers {
            Some(containers) => ephemeral_images(containers),
            None => Set::empty(),
        };
        init + container_images(spec.containers) + ephemeral
    } else {
        Set::empty()
    }
}

/// The images of some pods.
pub open spec fn collected_images(pods: Seq<PodView>) -> Set<Seq<char>>
    decreases pods.len(),
{
    if pods.len() == 0 {
        Set::empty()
    } else {
        collected_images(pods.drop_last()) + pod_images(pods.last())
    }
}

/// Adds the image that a container names.
pub fn push_image(images: &mut TextSet, image: Option<&str>)
    ensures
        final(images)@ == with_image(old(images)@, image.deep_view()),
{
    if let Some(text) = image {
        if !text.trim().is_empty() {
            images.insert(text.to_owned());
        }
    }
}

fn push_container_images(images: &mut TextSet, containers: &Vec<Container>)
    ensures
        final(images)@ == old(images)@ + container_images(containers.deep_view()),
{
    let ghost views = containers.deep_view();
    let mut i: usize = 0;
    assert(views.take(0).len() == 0);
    assert(images@ =~= old(images)@ + container_images(views.take(0)));
    while i < containers.len()
        invariant
            i <= containers.len(),
            views == containers.deep_view(),
            images@ == old(images)@ + container_images(views.take(i as int)),
        decreases containers.len() - i,
    {
        proof {
            assert(views.take(i + 1).drop_last() =~= views.take(i as int));
            assert(views.take(i + 1).last() == containers@[i as int].deep_view());
        }
        push_image(
            images,
            match &containers[i].image {
                Some(image) => Some(image.as_str()),
                None => None,
            },
        );
        assert(images@ =~= old(images)@ + container_images(views.take(i + 1)));
        i += 1;
    }
    assert(views.take(i as int) =~= views);
}

fn push_ephemeral_images(images: &mut TextSet, containers: &Vec<EphemeralContainer>)
    ensures
        final(images)@ == old(images)@ + ephemeral_images(containers.deep_view()),
{
    let ghost views = containers.deep_view();
    let mut i: usize = 0;
    assert(views.take(0).len() == 0);
    assert(images@ =~= old(images)@ + ephemeral_images(views.take(0)));
    while i < containers.len()
        invariant
            i <= containers.len(),
            views == containers.deep_view(),
            images@ == old(images)@ + ephemeral_images(views.take(i as int)),
        decreases containers.len() - i,
    {
        proof {
            assert(views.take(i + 1).drop_last() =~= views.take(i as int));
            assert(views.take(i + 1).last() == containers@[i as int].deep_view());
        }
        push_image(
            images,
            match &containers[i].image {
                Some(image) => Some(image.as_str()),
                None => None,
            },
        );
        assert(images@ =~= old(images)@ + ephemeral_images(views.take(i + 1)));
        i += 1;
    }
    assert(views.take(i as int) =~= views);
}

/// Collects the distinct images of the pods that are in scope.
pub fn collect_images_from_pods(pods: &[Pod]) -> (r: TextSet)
    ensures
        r@ == collected_images(pods.deep_view()),
{
    let ghost views = pods.deep_view();
    let mut images = TextSet::new();
    let mut i: usize = 0;
    assert(views.take(0).len() == 0);
    while i < pods.len()
        invariant
            i <= pods.len(),
            views == pods.deep_view(),
            images@ == collected_images(views.take(i as int)),
        decreases pods.len() - i,
    {
        let ghost before = images@;
        proof {
            assert(views.take(i + 1).drop_last() =~= views.take(i as int));
            assert(views.take(i + 1).last() == pods@[i as int].deep_view());
        }
        let pod = &pods[i];
        if is_pod_in_scope(pod) {
            if let Some(spec) = &pod.spec {
                if let Some(containers) = &spec.init_containers {
                    push_container_images(&mut images, containers);
                }
                push_container_images(&mut images, &spec.containers);
                if let Some(containers) = &spec.ephemeral_containers {
                    push_ephemeral_images(&mut images, containers);
                }
            }
        }
        assert(images@ =~= before + pod_images(pod.deep_view()));
        i += 1;
    }
    assert(views.take(i as int) =~= views);
    images
}

/// The namespaces whose pods are looked at. A label selector does not add any.
pub fn resolve_target_namespaces(target: &Target) -> (r: Vec<String>)
    ensures
        r.deep_view() == target.namespaces.deep_view(),
{
    let r = target.namespaces.clone();
    assert(r.deep_view() =~= target.namespaces.deep_view());
    r
}

// ---------------------------------------------------------------------------------------------
// Answers of the API server.
// ---------------------------------------------------------------------------------------------

/// What came of listing the pods of a namespace.
#[derive(Debug)]
pub enum PodListOutcome {
    Pods(Vec<Pod>),
    /// The namespace does not exist; it counts as empty.
    NamespaceMissing,
    /// Nothing is done for any namespace.
    RbacDenied { verb_resource: String, namespace: String, message: String },
    /// An unexpected failure.
    Failed(KubeError),
}

/// The view of a [`PodListOutcome`].
#[verifier::ext_equal]
pub ghost enum PodListOutcomeView {
    Pods(Seq<PodView>),
    NamespaceMissing,
    RbacDenied { verb_resource: Seq<char>, namespace: Seq<char>, message: Seq<char> },
    Failed(KubeError),
}

impl DeepView for PodListOutcome {
    type V = PodListOutcomeView;

    open spec fn deep_view(&self) -> PodListOutcomeView {
        match self {
            PodListOutcome::Pods(pods) => PodListOutcomeView::Pods(pods.deep_view()),
            PodListOutcome::NamespaceMissing => PodListOutcomeView::NamespaceMissing,
            PodListOutcome::RbacDenied { verb_resource, namespace, message } =>
                PodListOutcomeView::RbacDenied {
                    verb_resource: verb_resource@,
                    namespace: namespace@,
                    message: message@,
                },
            PodListOutcome::Failed(e) => PodListOutcomeView::Failed(*e),
        }
    }
}

/// What came of creating a Job.
#[derive(Debug)]
pub enum JobCreateOutcome {
    Created,
    /// A Job of that name is there already.
    Preexisting,
    /// No further Job is created.
    RbacDenied { verb_resource: String, namespace: String, message: String },
    /// An unexpected failure.
    Failed(KubeError),
}

/// The view of a [`JobCreateOutcome`].
#[verifier::ext_equal]
pub ghost enum JobCreateOutcomeView {
    Created,
    Preexisting,
    RbacDenied { verb_resource: Seq<char>, namespace: Seq<char>, message: Seq<char> },
    Failed(KubeError),
}

impl DeepView for JobCreateOutcome {
    type V = JobCreateOutcomeView;

    open spec fn deep_view(&self) -> JobCreateOutcomeView {
        match self {
            JobCreateOutcome::Created => JobCreateOutcomeView::Created,
            JobCreateOutcome::Preexisting => JobCreateOutcomeView::Preexisting,
            JobCreateOutcome::RbacDenied { verb_resource, namespace, message } =>
                JobCreateOutcomeView::RbacDenied {
                    verb_resource: verb_resource@,
                    namespace: namespace@,
                    message: message@,
                },
            JobCreateOutcome::Failed(e) => JobCreateOutcomeView::Failed(*e),
        }
    }
}

/// What came of listing pods, by the answer of the API server.
pub open spec fn pod_list_outcome(
    result: Result<Vec<Pod>, KubeError>,
    namespace: Seq<char>,
) -> PodListOutcomeView {
    match result {
        Ok(pods) => PodListOutcomeView::Pods(pods.deep_view()),
        Err(e) => if e.answered(404) {
            PodListOutcomeView::NamespaceMissing
        } else if e.answered(403) {
            PodListOutcomeView::RbacDenied {
                verb_resource: "list pods"@,
                namespace,
                message: e.response->0.message@,
            }
        } else {
            PodListOutcomeView::Failed(e)
        },
    }
}

/// What came of creating a Job, by the answer of the API server.
pub open spec fn job_create_outcome(
    result: Result<Job, KubeError>,
    namespace: Seq<char>,
) -> JobCreateOutcomeView {
    match result {
        Ok(_) => JobCreateOutcomeView::Created,
        Err(e) => if e.answered(409) {
            JobCreateOutcomeView::Preexisting
        } else if e.answered(403) {
            JobCreateOutcomeView::RbacDenied {
                verb_resource: "create batch/v1.jobs"@,
                namespace,
                message: e.response->0.message@,
            }
        } else {
            JobCreateOutcomeView::Failed(e)
        },
    }
}

/// The message of the answer that forbids a call, or the error itself if there is no such answer.
fn denial_message(e: KubeError) -> (r: Result<String, KubeError>)
    ensures
        match r {
            Ok(message) => e.answered(403) && message@ == e.response->0.message@,
            Err(error) => !e.answered(403) && error == e,
        },
{
    if !e.has_code(403) {
        return Err(e);
    }
    match e.response {
        Some(response) => Ok(response.message),
        None => Err(e),
    }
}

/// Tells what came of listing the pods of a namespace. A missing namespace and a denial are
/// expected; any other failure is not.
pub fn classify_pod_list_result(result: Result<Vec<Pod>, KubeError>, namespace: &str) -> (r:
    PodListOutcome)
    ensures
        r.deep_view() == pod_list_outcome(result, namespace@),
{
    match result {
        Ok(pods) => PodListOutcome::Pods(pods),
        Err(e) => if e.has_code(404) {
            PodListOutcome::NamespaceMissing
        } else {
            match denial_message(e) {
                Ok(message) => PodListOutcome::RbacDenied {
                    verb_resource: "list pods".to_owned(),
                    namespace: namespace.to_owned(),
                    message,
                },
                Err(e) => PodListOutcome::Failed(e),
            }
        },
    }
}

/// Tells what came of creating a Job. A name that is taken and a denial are expected; any other
/// failure is not.
pub fn classify_job_create_result(result: Result<Job, KubeError>, namespace: &str) -> (r:
    JobCreateOutcome)
    ensures
        r.deep_view() == job_create_outcome(result, namespace@),
{
    match result {
        Ok(_) => JobCreateOutcome::Created,
        Err(e) => if e.has_code(409) {
            JobCreateOutcome::Preexisting
        } else {
            match denial_message(e) {
                Ok(message) => JobCreateOutcome::RbacDenied {
                    verb_resource: "create batch/v1.jobs".to_owned(),
                    namespace: namespace.to_owned(),
                    message,
                },
                Err(e) => JobCreateOutcome::Failed(e),
            }
        },
    }
}

/// The owner of the Jobs of a resource.
pub open spec fn owner_of(name: Seq<char>, uid: Seq<char>) -> OwnerReferenceView {
    OwnerReferenceView {
        api_version: "kusari.dev/v1alpha1"@,
        kind: "NamespaceScan"@,
        name,
        uid,
        controller: Some(true),
        block_owner_deletion: Some(true),
    }
}

/// Builds the one owner reference that every Job carries.
pub fn make_owner_reference(cr_meta: &CrMetaSnapshot) -> (r: OwnerReference)
    ensures
        r.deep_view() == owner_of(cr_meta.name@, cr_meta.uid@),
{
    OwnerReference {
        api_version: "kusari.dev/v1alpha1".to_owned(),
        kind: "NamespaceScan".to_owned(),
        name: cr_meta.name.clone(),
        uid: cr_meta.uid.clone(),
        controller: Some(true),
        block_owner_deletion: Some(true),
    }
}

// ---------------------------------------------------------------------------------------------
// The orchestration, step by step.
// ---------------------------------------------------------------------------------------------

/// What the orchestration is about: the specification and the metadata of the resource, and the
/// namespace in which Jobs are created.
#[verifier::ext_equal]
pub ghost struct Inputs {
    pub spec: NamespaceScanSpec,
    pub name: Seq<char>,
    pub uid: Seq<char>,
    pub operator_namespace: Seq<char>,
}

/// Where an orchestration stands.
#[verifier::ext_equal]
pub ghost enum Phase {
    /// The pods of the first of these namespaces are to be listed; those of earlier ones are known.
    Listing { namespaces: Seq<Seq<char>>, pods: Seq<PodView> },
    /// The Job for the first of these images is to be created. Those of the given names were
    /// created before.
    Creating {
        images: Seq<Seq<char>>,
        job: JobView,
        distinct_images: nat,
        created: Seq<Seq<char>>,
    },
    /// A Job was denied: the first of those that were created is to be deleted. Others could not be,
    /// since that was denied too.
    Undoing { created: Seq<Seq<char>>, kept: Seq<Seq<char>>, result: OrchestrationResultView },
    /// There is nothing left to do. The Jobs of the given names were created.
    Done { result: OrchestrationResultView, created: Seq<Seq<char>> },
    /// A call has failed unexpectedly. The Jobs of the given names were created.
    Failed { error: KubeError, created: Seq<Seq<char>> },
}

/// The names of the Jobs that an orchestration has created and not deleted.
pub open spec fn jobs_left(phase: Phase) -> Seq<Seq<char>> {
    match phase {
        Phase::Listing { .. } => Seq::empty(),
        Phase::Creating { created, .. } => created,
        Phase::Undoing { created, kept, .. } => kept + created,
        Phase::Done { created, .. } => created,
        Phase::Failed { created, .. } => created,
    }
}

/// A Job with the resource as its only owner.
pub open spec fn owned_job(job: JobView, inputs: Inputs) -> JobView {
    JobView {
        metadata: ObjectMetaView {
            owner_references: Some(seq![owner_of(inputs.name, inputs.uid)]),
            ..job.metadata
        },
        ..job
    }
}

/// Goes on with the Job for the first of the images, or ends.
pub open spec fn create_next(
    inputs: Inputs,
    images: Seq<Seq<char>>,
    distinct_images: nat,
    created: Seq<Seq<char>>,
) -> Phase {
    if images.len() == 0 {
        Phase::Done { result: OrchestrationResultView::Spawned { distinct_images }, created }
    } else {
        match scan_job::scan_job(inputs.spec, inputs.name, images.first()) {
            Ok(job) => Phase::Creating {
                images,
                job: owned_job(job, inputs),
                distinct_images,
                created,
            },
            Err(e) => Phase::Done {
                result: OrchestrationResultView::BuildFailed {
                    image_ref: images.first(),
                    error: e.text(),
                },
                created,
            },
        }
    }
}

/// Goes on with the pods of the first of the namespaces, or with the images of all pods if there
/// is no namespace left.
pub open spec fn list_next(
    inputs: Inputs,
    namespaces: Seq<Seq<char>>,
    pods: Seq<PodView>,
) -> Phase {
    if namespaces.len() > 0 {
        Phase::Listing { namespaces, pods }
    } else {
        let images = text_map::sorted(collected_images(pods));
        if images.len() == 0 {
            Phase::Done { result: OrchestrationResultView::NoImagesInScope, created: Seq::empty() }
        } else {
            create_next(inputs, images, images.len(), Seq::empty())
        }
    }
}

/// Goes on with deleting the first of the Jobs that were created, or ends if there is no other than
/// those that are kept.
pub open spec fn undo(
    created: Seq<Seq<char>>,
    kept: Seq<Seq<char>>,
    result: OrchestrationResultView,
) -> Phase {
    if created.len() > 0 {
        Phase::Undoing { created, kept, result }
    } else {
        Phase::Done { result, created: kept }
    }
}

/// How an orchestration starts.
pub open spec fn first_phase(inputs: Inputs) -> Phase {
    list_next(inputs, inputs.spec.target.namespaces.deep_view(), Seq::empty())
}

/// How an orchestration goes on after pods were listed. A denial or an unexpected failure ends it.
pub open spec fn after_listing(inputs: Inputs, phase: Phase, outcome: PodListOutcomeView) -> Phase
    recommends
        phase is Listing,
{
    let namespaces = phase->Listing_namespaces;
    let pods = phase->Listing_pods;
    match outcome {
        PodListOutcomeView::Pods(more) => list_next(inputs, namespaces.drop_first(), pods + more),
        PodListOutcomeView::NamespaceMissing => list_next(inputs, namespaces.drop_first(), pods),
        PodListOutcomeView::RbacDenied { verb_resource, namespace, message } => Phase::Done {
            result: OrchestrationResultView::RbacInsufficient {
                verb_resource,
                namespace: Some(namespace),
                message,
            },
            created: Seq::empty(),
        },
        PodListOutcomeView::Failed(error) => Phase::Failed { error, created: Seq::empty() },
    }
}

/// How an orchestration goes on after a Job was created. After a denial the Jobs that were created
/// before are deleted; an unexpected failure ends it.
pub open spec fn after_creation(
    inputs: Inputs,
    phase: Phase,
    outcome: JobCreateOutcomeView,
) -> Phase
    recommends
        phase is Creating,
{
    let rest = phase->images.drop_first();
    let created = phase->Creating_created;
    match outcome {
        JobCreateOutcomeView::Created => create_next(
            inputs,
            rest,
            phase->distinct_images,
            created.push(phase->job.metadata.name->0),
        ),
        JobCreateOutcomeView::Preexisting => create_next(
            inputs,
            rest,
            phase->distinct_images,
            created,
        ),
        JobCreateOutcomeView::RbacDenied { verb_resource, namespace, message } => undo(
            created,
            Seq::empty(),
            OrchestrationResultView::RbacInsufficient {
                verb_resource,
                namespace: Some(namespace),
                message,
            },
        ),
        JobCreateOutcomeView::Failed(error) => Phase::Failed { error, created },
    }
}

/// A deletion that is denied.
pub open spec fn deletion_denied(result: Result<(), KubeError>) -> bool {
    result matches Err(e) && e.answered(403)
}

/// How an orchestration goes on after a Job was deleted again. If that was denied, the Job is kept;
/// an unexpected failure ends the orchestration.
pub open spec fn after_undoing(phase: Phase, result: Result<(), KubeError>) -> Phase
    recommends
        phase is Undoing,
{
    let created = phase->Undoing_created;
    if scheduler::leaves_job_gone(result) {
        undo(created.drop_first(), phase->kept, phase->Undoing_result)
    } else if deletion_denied(result) {
        undo(created.drop_first(), phase->kept.push(created.first()), phase->Undoing_result)
    } else {
        Phase::Failed { error: result->Err_0, created: jobs_left(phase) }
    }
}

/// What is to be done next.
#[derive(Debug)]
pub enum OrchestrationAction<'a> {
    /// List the pods of this namespace.
    ListPods(&'a str),
    /// Create this Job in the operator's namespace.
    CreateJob(&'a Job),
    /// Delete this Job, and its pods, from the operator's namespace.
    DeleteJob(&'a str),
    /// Nothing: this is what came of the orchestration.
    Finish(&'a OrchestrationResult),
    /// Nothing: a call has failed unexpectedly.
    Fail,
}

#[derive(Debug)]
enum Step {
    Listing { namespaces: Vec<String>, position: usize, pods: Vec<Pod> },
    Creating { images: Vec<String>, position: usize, job: Job, created: Vec<String> },
    Undoing {
        created: Vec<String>,
        position: usize,
        kept: Vec<String>,
        result: OrchestrationResult,
    },
    Done { result: OrchestrationResult, created: Vec<String> },
    Failed { error: KubeError, created: Vec<String> },
}

/// An orchestration under way. It says what to do next and is told what came of it.
#[derive(Debug)]
pub struct Orchestration<'a> {
    spec: &'a NamespaceScanSpec,
    cr_meta: &'a CrMetaSnapshot,
    operator_namespace: &'a str,
    step: Step,
    preexisting: usize,
}

impl Step {
    spec fn phase(self) -> Phase {
        match self {
            Step::Listing { namespaces, position, pods } => Phase::Listing {
                namespaces: namespaces.deep_view().skip(position as int),
                pods: pods.deep_view(),
            },
            Step::Creating { images, position, job, created } => Phase::Creating {
                images: images.deep_view().skip(position as int),
                job: job.deep_view(),
                distinct_images: images@.len(),
                created: created.deep_view(),
            },
            Step::Undoing { created, position, kept, result } => Phase::Undoing {
                created: created.deep_view().skip(position as int),
                kept: kept.deep_view(),
                result: result.deep_view(),
            },
            Step::Done { result, created } => Phase::Done {
                result: result.deep_view(),
                created: created.deep_view(),
            },
            Step::Failed { error, created } => Phase::Failed {
                error,
                created: created.deep_view(),
            },
        }
    }

    fn undo(
        created: Vec<String>,
        position: usize,
        kept: Vec<String>,
        result: OrchestrationResult,
    ) -> (r: Step)
        requires
            position <= created@.len(),
            kept@.len() <= position,
        ensures
            r.phase() == undo(
                created.deep_view().skip(position as int),
                kept.deep_view(),
                result.deep_view(),
            ),
            r matches Step::Undoing { created, position, kept, .. } ==> kept@.len() <= position
                < created@.len(),
            r is Undoing || r is Done,
    {
        if position < created.len() {
            Step::Undoing { created, position, kept, result }
        } else {
            Step::Done { result, created: kept }
        }
    }
}

/// Some names, and others from a position on.
fn names_from(names: Vec<String>, others: &Vec<String>, position: usize) -> (r: Vec<String>)
    requires
        position <= others@.len(),
    ensures
        r.deep_view() == names.deep_view() + others.deep_view().skip(position as int),
{
    let ghost before = names.deep_view();
    let ghost rest = others.deep_view().skip(position as int);
    let mut r = names;
    let mut i: usize = position;
    assert(r.deep_view() =~= before + rest.take(0));
    while i < others.len()
        invariant
            position <= i <= others@.len(),
            rest == others.deep_view().skip(position as int),
            r.deep_view() == before + rest.take(i - position),
        decreases others@.len() - i,
    {
        let ghost known = r.deep_view();
        r.push(others[i].clone());
        assert(r.deep_view() =~= known.push(others@[i as int]@));
        assert(r.deep_view() =~= before + rest.take(i + 1 - position));
        i += 1;
    }
    assert(rest.take(i - position) =~= rest);
    r
}

impl<'a> Orchestration<'a> {
    #[verifier::type_invariant]
    spec fn inv(self) -> bool {
        match self.step {
            Step::Listing { namespaces, position, .. } => {
                &&& position < namespaces@.len()
                &&& self.preexisting == 0
            },
            Step::Creating { images, position, job, created } => {
                &&& position < images@.len()
                &&& job.metadata.name is Some
                &&& created@.len() + self.preexisting == position
            },
            Step::Undoing { created, position, kept, .. } => kept@.len() <= position
                < created@.len(),
            Step::Done { .. } => true,
            Step::Failed { .. } => true,
        }
    }

    /// What the orchestration is about.
    pub closed spec fn inputs(self) -> Inputs {
        Inputs {
            spec: *self.spec,
            name: self.cr_meta.name@,
            uid: self.cr_meta.uid@,
            operator_namespace: self.operator_namespace@,
        }
    }

    /// Where the orchestration stands.
    pub closed spec fn phase(self) -> Phase {
        self.step.phase()
    }

    /// The number of Jobs that were there already.
    pub closed spec fn preexisting(self) -> nat {
        self.preexisting as nat
    }

    fn creating(
        spec: &'a NamespaceScanSpec,
        cr_meta: &'a CrMetaSnapshot,
        operator_namespace: &'a str,
        images: Vec<String>,
        position: usize,
        created: Vec<String>,
        preexisting: usize,
    ) -> (r: Orchestration<'a>)
        requires
            position <= images@.len(),
            created@.len() + preexisting == position,
        ensures
            r.inputs() == (Inputs {
                spec: *spec,
                name: cr_meta.name@,
                uid: cr_meta.uid@,
                operator_namespace: operator_namespace@,
            }),
            r.phase() == create_next(
                r.inputs(),
                images.deep_view().skip(position as int),
                images@.len(),
                created.deep_view(),
            ),
            r.preexisting() == preexisting,
    {
        let ghost left = images.deep_view().skip(position as int);
        let step = if position == images.len() {
            Step::Done {
                result: OrchestrationResult::Spawned { distinct_images: images.len() },
                created,
            }
        } else {
            assert(left.first() == images@[position as int]@);
            match build_scan_job(spec, cr_meta.name.as_str(), images[position].as_str()) {
                Ok(built) => {
                    let mut job = built;
                    assert(job.deep_view().metadata.name is Some);
                    let owners = vec![make_owner_reference(cr_meta)];
                    assert(owners.deep_view() =~= seq![owner_of(cr_meta.name@, cr_meta.uid@)]);
                    job.metadata.owner_references = Some(owners);
                    Step::Creating { images, position, job, created }
                },
                Err(e) => Step::Done {
                    result: OrchestrationResult::BuildFailed {
                        image_ref: images[position].clone(),
                        error: e.message(),
                    },
                    created,
                },
            }
        };
        Orchestration { spec, cr_meta, operator_namespace, step, preexisting }
    }

    fn listing(
        spec: &'a NamespaceScanSpec,
        cr_meta: &'a CrMetaSnapshot,
        operator_namespace: &'a str,
        namespaces: Vec<String>,
        position: usize,
        pods: Vec<Pod>,
    ) -> (r: Orchestration<'a>)
        requires
            position <= namespaces@.len(),
        ensures
            r.inputs() == (Inputs {
                spec: *spec,
                name: cr_meta.name@,
                uid: cr_meta.uid@,
                operator_namespace: operator_namespace@,
            }),
            r.phase() == list_next(
                r.inputs(),
                namespaces.deep_view().skip(position as int),
                pods.deep_view(),
            ),
            r.preexisting() == 0,
    {
        if position < namespaces.len() {
            return Orchestration {
                spec,
                cr_meta,
                operator_namespace,
                step: Step::Listing { namespaces, position, pods },
                preexisting: 0,
            };
        }
        let created: Vec<String> = Vec::new();
        assert(created.deep_view() =~= Seq::empty());
        let images = collect_images_from_pods(pods.as_slice()).into_vec();
        if images.len() == 0 {
            return Orchestration {
                spec,
                cr_meta,
                operator_namespace,
                step: Step::Done { result: OrchestrationResult::NoImagesInScope, created },
                preexisting: 0,
            };
        }
        assert(images.deep_view().skip(0) =~= images.deep_view());
        Orchestration::creating(spec, cr_meta, operator_namespace, images, 0, created, 0)
    }

    /// Starts an orchestration.
    pub fn new(
        spec: &'a NamespaceScanSpec,
        cr_meta: &'a CrMetaSnapshot,
        operator_namespace: &'a str,
    ) -> (r: Orchestration<'a>)
        ensures
            r.inputs() == (Inputs {
                spec: *spec,
                name: cr_meta.name@,
                uid: cr_meta.uid@,
                operator_namespace: operator_namespace@,
            }),
            r.phase() == first_phase(r.inputs()),
            r.preexisting() == 0,
    {
        let namespaces = resolve_target_namespaces(&spec.target);
        assert(namespaces.deep_view().skip(0) =~= namespaces.deep_view());
        let pods: Vec<Pod> = Vec::new();
        assert(pods.deep_view() =~= Seq::empty());
        Orchestration::listing(spec, cr_meta, operator_namespace, namespaces, 0, pods)
    }

    /// How many Jobs were created and not deleted, and how many were there already.
    pub fn counts(&self) -> (r: (usize, usize))
        ensures
            r.0 == jobs_left(self.phase()).len(),
            r.1 == self.preexisting(),
    {
        proof {
            use_type_invariant(self);
        }
        let left: usize = match &self.step {
            Step::Listing { .. } => 0,
            Step::Creating { created, .. } => created.len(),
            Step::Undoing { created, position, kept, .. } => kept.len() + (created.len()
                - *position),
            Step::Done { created, .. } => created.len(),
            Step::Failed { created, .. } => created.len(),
        };
        (left, self.preexisting)
    }

    /// What is to be done next.
    pub fn action(&self) -> (r: OrchestrationAction<'_>)
        ensures
            match r {
                OrchestrationAction::ListPods(namespace) => self.phase() is Listing && namespace@
                    == self.phase()->namespaces.first(),
                OrchestrationAction::CreateJob(job) => self.phase() is Creating && job.deep_view()
                    == self.phase()->job,
                OrchestrationAction::DeleteJob(name) => self.phase() is Undoing && name@
                    == self.phase()->Undoing_created.first(),
                OrchestrationAction::Finish(result) => self.phase() is Done && result.deep_view()
                    == self.phase()->Done_result,
                OrchestrationAction::Fail => self.phase() is Failed,
            },
    {
        proof {
            use_type_invariant(self);
        }
        match &self.step {
            Step::Listing { namespaces, position, .. } => OrchestrationAction::ListPods(
                namespaces[*position].as_str(),
            ),
            Step::Creating { job, .. } => OrchestrationAction::CreateJob(job),
            Step::Undoing { created, position, .. } => OrchestrationAction::DeleteJob(
                created[*position].as_str(),
            ),
            Step::Done { result, .. } => OrchestrationAction::Finish(result),
            Step::Failed { .. } => OrchestrationAction::Fail,
        }
    }

    /// Goes on after the pods of the namespace were listed.
    pub fn pods_listed(self, result: Result<Vec<Pod>, KubeError>) -> (r: Orchestration<'a>)
        requires
            self.phase() is Listing,
        ensures
            r.inputs() == self.inputs(),
            r.phase() == after_listing(
                self.inputs(),
                self.phase(),
                pod_list_outcome(result, self.phase()->namespaces.first()),
            ),
            r.preexisting() == 0,
    {
        proof {
            use_type_invariant(&self);
        }
        let (namespaces, position, pods) = match self.step {
            Step::Listing { namespaces, position, pods } => (namespaces, position, pods),
            _ => {
                return self;
            },
        };
        let ghost all = namespaces.deep_view();
        let ghost known = pods.deep_view();
        let nothing: Vec<String> = Vec::new();
        assert(nothing.deep_view() =~= Seq::empty());
        assert(position < namespaces.len());
        assert(all.skip(position as int).first() == namespaces@[position as int]@);
        assert(all.skip(position as int).drop_first() =~= all.skip(position + 1));
        match classify_pod_list_result(result, namespaces[position].as_str()) {
            PodListOutcome::Pods(more) => {
                let ghost new = more.deep_view();
                let mut pods = pods;
                let mut more = more;
                pods.append(&mut more);
                assert(pods.deep_view() =~= known + new);
                Orchestration::listing(
                    self.spec,
                    self.cr_meta,
                    self.operator_namespace,
                    namespaces,
                    position + 1,
                    pods,
                )
            },
            PodListOutcome::NamespaceMissing => Orchestration::listing(
                self.spec,
                self.cr_meta,
                self.operator_namespace,
                namespaces,
                position + 1,
                pods,
            ),
            PodListOutcome::RbacDenied { verb_resource, namespace, message } => {
                let result = OrchestrationResult::RbacInsufficient {
                    verb_resource,
                    namespace: Some(namespace),
                    message,
                };
                Orchestration {
                    spec: self.spec,
                    cr_meta: self.cr_meta,
                    operator_namespace: self.operator_namespace,
                    step: Step::Done { result, created: nothing },
                    preexisting: 0,
                }
            },
            PodListOutcome::Failed(error) => Orchestration {
                spec: self.spec,
                cr_meta: self.cr_meta,
                operator_namespace: self.operator_namespace,
                step: Step::Failed { error, created: nothing },
                preexisting: 0,
            },
        }
    }

    /// Goes on after the Job was created.
    pub fn job_created(self, result: Result<Job, KubeError>) -> (r: Orchestration<'a>)
        requires
            self.phase() is Creating,
        ensures
            r.inputs() == self.inputs(),
            r.phase() == after_creation(
                self.inputs(),
                self.phase(),
                job_create_outcome(result, self.inputs().operator_namespace),
            ),
            r.preexisting() == self.preexisting() + if result matches Err(e) && e.answered(409) {
                1int
            } else {
                0int
            },
    {
        proof {
            use_type_invariant(&self);
        }
        let (images, position, job, created) = match self.step {
            Step::Creating { images, position, job, created } => (images, position, job, created),
            _ => {
                return self;
            },
        };
        let ghost all = images.deep_view();
        let ghost before = created.deep_view();
        assert(all.skip(position as int).drop_first() =~= all.skip(position + 1));
        assert(position < images.len());
        assert(before.skip(0) =~= before);
        let nothing: Vec<String> = Vec::new();
        assert(nothing.deep_view() =~= Seq::empty());
        let step = match classify_job_create_result(result, self.operator_namespace) {
            JobCreateOutcome::Created => {
                let mut created = created;
                if let Some(name) = job.metadata.name {
                    created.push(name);
                    assert(created.deep_view() =~= before.push(name@));
                }
                return Orchestration::creating(
                    self.spec,
                    self.cr_meta,
                    self.operator_namespace,
                    images,
                    position + 1,
                    created,
                    self.preexisting,
                );
            },
            JobCreateOutcome::Preexisting => {
                return Orchestration::creating(
                    self.spec,
                    self.cr_meta,
                    self.operator_namespace,
                    images,
                    position + 1,
                    created,
                    self.preexisting + 1,
                );
            },
            JobCreateOutcome::RbacDenied { verb_resource, namespace, message } => Step::undo(
                created,
                0,
                nothing,
                OrchestrationResult::RbacInsufficient {
                    verb_resource,
                    namespace: Some(namespace),
                    message,
                },
            ),
            JobCreateOutcome::Failed(error) => Step::Failed { error, created },
        };
        Orchestration {
            spec: self.spec,
            cr_meta: self.cr_meta,
            operator_namespace: self.operator_namespace,
            step,
            preexisting: self.preexisting,
        }
    }

    /// Goes on after the Job was deleted again.
    pub fn job_deleted(self, result: Result<(), KubeError>) -> (r: Orchestration<'a>)
        requires
            self.phase() is Undoing,
        ensures
            r.inputs() == self.inputs(),
            r.phase() == after_undoing(self.phase(), result),
            r.preexisting() == self.preexisting(),
    {
        proof {
            use_type_invariant(&self);
        }
        let (created, position, kept, denied) = match self.step {
            Step::Undoing { created, position, kept, result } => (created, position, kept, result),
            _ => {
                return self;
            },
        };
        let ghost all = created.deep_view();
        let ghost before = kept.deep_view();
        assert(all.skip(position as int).drop_first() =~= all.skip(position + 1));
        assert(all.skip(position as int).first() == created@[position as int]@);
        assert(position < created.len());
        let step = match result {
            Ok(()) => Step::undo(created, position + 1, kept, denied),
            Err(error) => if error.has_code(404) {
                Step::undo(created, position + 1, kept, denied)
            } else if error.has_code(403) {
                let mut kept = kept;
                kept.push(created[position].clone());
                assert(kept.deep_view() =~= before.push(created@[position as int]@));
                Step::undo(created, position + 1, kept, denied)
            } else {
                let left = names_from(kept, &created, position);
                Step::Failed { error, created: left }
            },
        };
        Orchestration {
            spec: self.spec,
            cr_meta: self.cr_meta,
            operator_namespace: self.operator_namespace,
            step,
            preexisting: self.preexisting,
        }
    }

    /// The failure that ended the orchestration.
    pub fn into_error(self) -> (r: OrchestrationError)
        requires
            self.phase() is Failed,
        ensures
            r == OrchestrationError::Kube(self.phase()->error),
    {
        match self.step {
            Step::Failed { error, .. } => OrchestrationError::Kube(error),
            _ => OrchestrationError::Kube(KubeError { response: None, text: String::new() }),
        }
    }
}

// ---------------------------------------------------------------------------------------------
// Laws.
// ---------------------------------------------------------------------------------------------

/// A container that names an image.
pub open spec fn names_image(image: Option<Seq<char>>, named: Seq<char>) -> bool {
    named_image(image) == Some(named)
}

/// A pod in scope with a container, of whatever kind, that names an image.
pub open spec fn pod_names_image(pod: PodView, named: Seq<char>) -> bool {
    &&& in_scope(pod)
    &&& pod.spec is Some
    &&& {
        let spec = pod.spec->0;
        ||| spec.init_containers is Some && exists|i: int|
            0 <= i < spec.init_containers->0.len() && names_image(
                #[trigger] spec.init_containers->0[i].image,
                named,
            )
        ||| exists|i: int|
            0 <= i < spec.containers.len() && names_image(
                #[trigger] spec.containers[i].image,
                named,
            )
        ||| spec.ephemeral_containers is Some && exists|i: int|
            0 <= i < spec.ephemeral_containers->0.len() && names_image(
                #[trigger] spec.ephemeral_containers->0[i].image,
                named,
            )
    }
}

proof fn lemma_container_images(containers: Seq<ContainerView>, named: Seq<char>)
    ensures
        container_images(containers).contains(named) <==> exists|i: int|
            0 <= i < containers.len() && names_image(#[trigger] containers[i].image, named),
    decreases containers.len(),
{
    if containers.len() > 0 {
        let front = containers.drop_last();
        lemma_container_images(front, named);
        if container_images(front).contains(named) {
            let i = choose|i: int|
                0 <= i < front.len() && names_image(#[trigger] front[i].image, named);
            assert(names_image(containers[i].image, named));
        }
        if names_image(containers.last().image, named) {
            assert(names_image(containers[containers.len() - 1].image, named));
        }
        if exists|i: int|
            0 <= i < containers.len() && names_image(#[trigger] containers[i].image, named) {
            let i = choose|i: int|
                0 <= i < containers.len() && names_image(#[trigger] containers[i].image, named);
            if i < front.len() {
                assert(names_image(front[i].image, named));
            }
        }
    }
}

proof fn lemma_ephemeral_images(containers: Seq<EphemeralContainerView>, named: Seq<char>)
    ensures
        ephemeral_images(containers).contains(named) <==> exists|i: int|
            0 <= i < containers.len() && names_image(#[trigger] containers[i].image, named),
    decreases containers.len(),
{
    if containers.len() > 0 {
        let front = containers.drop_last();
        lemma_ephemeral_images(front, named);
        if ephemeral_images(front).contains(named) {
            let i = choose|i: int|
                0 <= i < front.len() && names_image(#[trigger] front[i].image, named);
            assert(names_image(containers[i].image, named));
        }
        if names_image(containers.last().image, named) {
            assert(names_image(containers[containers.len() - 1].image, named));
        }
        if exists|i: int|
            0 <= i < containers.len() && names_image(#[trigger] containers[i].image, named) {
            let i = choose|i: int|
                0 <= i < containers.len() && names_image(#[trigger] containers[i].image, named);
            if i < front.len() {
                assert(names_image(front[i].image, named));
            }
        }
    }
}

/// The images that are collected are those that a container of a pod in scope names, and no
/// others.
pub proof fn collected_images_are_named(pods: Seq<PodView>, named: Seq<char>)
    ensures
        collected_images(pods).contains(named) <==> exists|i: int|
            0 <= i < pods.len() && pod_names_image(#[trigger] pods[i], named),
    decreases pods.len(),
{
    if pods.len() > 0 {
        let front = pods.drop_last();
        let pod = pods.last();
        collected_images_are_named(front, named);
        if pod.spec is Some {
            let spec = pod.spec->0;
            if spec.init_containers is Some {
                lemma_container_images(spec.init_containers->0, named);
            }
            lemma_container_images(spec.containers, named);
            if spec.ephemeral_containers is Some {
                lemma_ephemeral_images(spec.ephemeral_containers->0, named);
            }
        }
        assert(pod_images(pod).contains(named) <==> pod_names_image(pod, named));
        if collected_images(front).contains(named) {
            let i = choose|i: int| 0 <= i < front.len() && pod_names_image(#[trigger] front[i], named);
            assert(pod_names_image(pods[i], named));
        }
        if pod_names_image(pod, named) {
            assert(pod_names_image(pods[pods.len() - 1], named));
        }
        if exists|i: int| 0 <= i < pods.len() && pod_names_image(#[trigger] pods[i], named) {
            let i = choose|i: int| 0 <= i < pods.len() && pod_names_image(#[trigger] pods[i], named);
            if i < front.len() {
                assert(pod_names_image(front[i], named));
            }
        }
    }
}

/// A collected image is not blank.
pub proof fn collected_images_are_not_blank(pods: Seq<PodView>, named: Seq<char>)
    requires
        collected_images(pods).contains(named),
    ensures
        !scan_job::blank(named),
{
    collected_images_are_named(pods, named);
}

/// The order in which pods are listed makes no difference to the images.
pub proof fn pod_order_does_not_matter(pods: Seq<PodView>, others: Seq<PodView>)
    requires
        pods.to_set() == others.to_set(),
    ensures
        collected_images(pods) == collected_images(others),
{
    assert forall|named: Seq<char>| #[trigger]
        collected_images(pods).contains(named) <==> collected_images(others).contains(named) by {
        collected_images_are_named(pods, named);
        collected_images_are_named(others, named);
        if collected_images(pods).contains(named) {
            let i = choose|i: int| 0 <= i < pods.len() && pod_names_image(#[trigger] pods[i], named);
            assert(pods.to_set().contains(pods[i]));
            assert(others.contains(pods[i]));
            let j = others.index_of(pods[i]);
            assert(pod_names_image(others[j], named));
        }
        if collected_images(others).contains(named) {
            let i = choose|i: int|
                0 <= i < others.len() && pod_names_image(#[trigger] others[i], named);
            assert(others.to_set().contains(others[i]));
            assert(pods.contains(others[i]));
            let j = pods.index_of(others[i]);
            assert(pod_names_image(pods[j], named));
        }
    }
    assert(collected_images(pods) =~= collected_images(others));
}

/// No Job is created before the pods of every namespace have been listed.
pub proof fn no_job_before_every_listing(
    inputs: Inputs,
    namespaces: Seq<Seq<char>>,
    pods: Seq<PodView>,
    outcome: PodListOutcomeView,
)
    requires
        namespaces.len() > 1,
    ensures
        after_listing(inputs, Phase::Listing { namespaces, pods }, outcome) !is Creating,
{
}

/// A denial ends the orchestration: nothing more is listed or created. What is left to do is to
/// delete the Jobs that were created before.
pub proof fn denial_ends_the_orchestration(
    inputs: Inputs,
    phase: Phase,
    verb_resource: Seq<char>,
    namespace: Seq<char>,
    message: Seq<char>,
)
    ensures
        ({
            let result = OrchestrationResultView::RbacInsufficient {
                verb_resource,
                namespace: Some(namespace),
                message,
            };
            &&& phase is Listing ==> after_listing(
                inputs,
                phase,
                PodListOutcomeView::RbacDenied { verb_resource, namespace, message },
            ) == (Phase::Done { result, created: Seq::empty() })
            &&& phase is Creating ==> after_creation(
                inputs,
                phase,
                JobCreateOutcomeView::RbacDenied { verb_resource, namespace, message },
            ) == undo(jobs_left(phase), Seq::empty(), result)
        }),
{
}

/// How an orchestration goes on after several Jobs were deleted again.
pub open spec fn after_undoings(phase: Phase, results: Seq<Result<(), KubeError>>) -> Phase
    decreases results.len(),
{
    if results.len() == 0 {
        phase
    } else {
        after_undoings(after_undoing(phase, results.first()), results.drop_first())
    }
}

/// The Jobs whose deletion is denied.
pub open spec fn kept_jobs(
    created: Seq<Seq<char>>,
    deletions: Seq<Result<(), KubeError>>,
) -> Seq<Seq<char>>
    decreases created.len(),
{
    if created.len() == 0 || deletions.len() == 0 {
        Seq::empty()
    } else {
        let rest = kept_jobs(created.drop_first(), deletions.drop_first());
        if deletion_denied(deletions.first()) {
            seq![created.first()] + rest
        } else {
            rest
        }
    }
}

/// After a denial each Job that was created is deleted, unless that is denied too, and then the first
/// denial is reported.
pub proof fn denial_is_reported_after_undoing(
    created: Seq<Seq<char>>,
    kept: Seq<Seq<char>>,
    result: OrchestrationResultView,
    deletions: Seq<Result<(), KubeError>>,
)
    requires
        deletions.len() == created.len(),
        forall|i: int|
            0 <= i < deletions.len() ==> scheduler::leaves_job_gone(#[trigger] deletions[i])
                || deletion_denied(deletions[i]),
    ensures
        after_undoings(undo(created, kept, result), deletions) == (Phase::Done {
            result,
            created: kept + kept_jobs(created, deletions),
        }),
    decreases created.len(),
{
    if created.len() == 0 {
        assert(kept + kept_jobs(created, deletions) =~= kept);
    } else {
        let rest = deletions.drop_first();
        let left = created.drop_first();
        assert(scheduler::leaves_job_gone(deletions[0]) || deletion_denied(deletions[0]));
        assert forall|i: int| 0 <= i < rest.len() implies scheduler::leaves_job_gone(
            #[trigger] rest[i],
        ) || deletion_denied(rest[i]) by {
            assert(deletions[i + 1] == rest[i]);
        }
        let more = if deletion_denied(deletions.first()) {
            kept.push(created.first())
        } else {
            kept
        };
        denial_is_reported_after_undoing(left, more, result, rest);
        assert(more + kept_jobs(left, rest) =~= kept + kept_jobs(created, deletions));
    }
}

/// What an orchestration is told.
#[verifier::ext_equal]
pub ghost enum Event {
    PodsListed(PodListOutcomeView),
    JobCreated(JobCreateOutcomeView),
    JobDeleted(Result<(), KubeError>),
}

/// How an orchestration goes on after an event. One that it does not wait for makes no difference.
pub open spec fn after_event(inputs: Inputs, phase: Phase, event: Event) -> Phase {
    match (phase, event) {
        (Phase::Listing { .. }, Event::PodsListed(outcome)) => after_listing(
            inputs,
            phase,
            outcome,
        ),
        (Phase::Creating { .. }, Event::JobCreated(outcome)) => after_creation(
            inputs,
            phase,
            outcome,
        ),
        (Phase::Undoing { .. }, Event::JobDeleted(result)) => after_undoing(phase, result),
        _ => phase,
    }
}

/// Where an orchestration stands after some events.
pub open spec fn after_events(inputs: Inputs, events: Seq<Event>) -> Phase
    decreases events.len(),
{
    if events.len() == 0 {
        first_phase(inputs)
    } else {
        after_event(inputs, after_events(inputs, events.drop_last()), events.last())
    }
}

/// Among some events is a deletion that is denied.
pub open spec fn some_deletion_denied(events: Seq<Event>) -> bool {
    exists|i: int|
        0 <= i < events.len() && ((#[trigger] events[i]) matches Event::JobDeleted(result)
            && deletion_denied(result))
}

/// No partial spawn: whatever happens, when an orchestration reports that it lacks a permission, no
/// Job that it has created is left, unless it lacks the permission to delete Jobs too.
pub proof fn denial_leaves_no_job(inputs: Inputs, events: Seq<Event>)
    requires
        !some_deletion_denied(events),
    ensures
        after_events(inputs, events) matches Phase::Undoing { kept, .. } ==> kept.len() == 0,
        after_events(inputs, events) matches Phase::Done { result, .. } ==> (
        result is RbacInsufficient ==> jobs_left(after_events(inputs, events)).len() == 0),
    decreases events.len(),
{
    if events.len() > 0 {
        let front = events.drop_last();
        if some_deletion_denied(front) {
            let i = choose|i: int|
                0 <= i < front.len() && ((#[trigger] front[i]) matches Event::JobDeleted(result)
                    && deletion_denied(result));
            assert(events[i] == front[i]);
        }
        denial_leaves_no_job(inputs, front);
        assert(events[events.len() - 1] == events.last());
    }
}

/// A denied deletion does not hide the denial that led to it: the orchestration goes on to report
/// that one, and keeps account of the Job that is left.
pub proof fn denied_deletion_keeps_the_result(
    created: Seq<Seq<char>>,
    kept: Seq<Seq<char>>,
    result: OrchestrationResultView,
    deletion: Result<(), KubeError>,
)
    requires
        created.len() > 0,
        deletion_denied(deletion),
    ensures
        after_undoing(Phase::Undoing { created, kept, result }, deletion) == undo(
            created.drop_first(),
            kept.push(created.first()),
            result,
        ),
        jobs_left(undo(created.drop_first(), kept.push(created.first()), result)) == kept + created,
{
    assert(kept.push(created.first()) + created.drop_first() =~= kept + created);
    if created.len() == 1 {
        assert(kept.push(created.first()) =~= kept + created);
    }
}

/// An unexpected failure ends the orchestration with the error itself, and nothing is reported as a
/// lack of permission.
pub proof fn unexpected_failure_is_handed_back(
    inputs: Inputs,
    phase: Phase,
    error: KubeError,
    namespace: Seq<char>,
)
    requires
        !error.answered(403),
    ensures
        phase is Listing && !error.answered(404) ==> after_listing(
            inputs,
            phase,
            pod_list_outcome(Err(error), namespace),
        ) == (Phase::Failed { error, created: Seq::empty() }),
        phase is Creating && !error.answered(409) ==> after_creation(
            inputs,
            phase,
            job_create_outcome(Err(error), namespace),
        ) == (Phase::Failed { error, created: jobs_left(phase) }),
{
}

/// It makes no difference to how an orchestration goes on whether a Job is created now or was there
/// before, so that an orchestration can be repeated.
pub proof fn creating_is_idempotent(inputs: Inputs, phase: Phase)
    requires
        phase is Creating,
    ensures
        ({
            let now = after_creation(inputs, phase, JobCreateOutcomeView::Created);
            let before = after_creation(inputs, phase, JobCreateOutcomeView::Preexisting);
            match now {
                Phase::Creating { images, job, distinct_images, .. } => before
                    == (Phase::Creating {
                    images,
                    job,
                    distinct_images,
                    created: jobs_left(phase),
                }),
                Phase::Done { result, .. } => before == (Phase::Done {
                    result,
                    created: jobs_left(phase),
                }),
                _ => false,
            }
        }),
{
}

/// Every Job that is to be created was built for the first of the images that are left, and the
/// resource is its only owner.
pub proof fn jobs_belong_to_the_resource(
    inputs: Inputs,
    images: Seq<Seq<char>>,
    distinct_images: nat,
    created: Seq<Seq<char>>,
)
    requires
        create_next(inputs, images, distinct_images, created) is Creating,
    ensures
        ({
            let job = create_next(inputs, images, distinct_images, created)->job;
            let built = scan_job::scan_job(inputs.spec, inputs.name, images.first());
            &&& built is Ok
            &&& job.metadata.owner_references == Some(seq![owner_of(inputs.name, inputs.uid)])
            &&& job.metadata.name == built->Ok_0.metadata.name
            &&& job.metadata.labels == built->Ok_0.metadata.labels
            &&& job.spec == built->Ok_0.spec
        }),
{
}

/// How an orchestration goes on after pods were listed several times.
pub open spec fn after_listings(
    inputs: Inputs,
    phase: Phase,
    outcomes: Seq<PodListOutcomeView>,
) -> Phase
    decreases outcomes.len(),
{
    if outcomes.len() == 0 {
        phase
    } else {
        after_listings(
            inputs,
            after_listing(inputs, phase, outcomes.first()),
            outcomes.drop_first(),
        )
    }
}

/// The pods that were listed.
pub open spec fn listed_pods(outcomes: Seq<PodListOutcomeView>) -> Seq<PodView>
    decreases outcomes.len(),
{
    if outcomes.len() == 0 {
        Seq::empty()
    } else {
        let more = match outcomes.first() {
            PodListOutcomeView::Pods(pods) => pods,
            _ => Seq::empty(),
        };
        more + listed_pods(outcomes.drop_first())
    }
}

/// A listing that neither is denied nor fails.
pub open spec fn expected_listing(outcome: PodListOutcomeView) -> bool {
    outcome is Pods || outcome is NamespaceMissing
}

/// A creation that neither is denied nor fails.
pub open spec fn expected_creation(outcome: JobCreateOutcomeView) -> bool {
    outcome is Created || outcome is Preexisting
}

/// If no listing is denied or fails, the orchestration goes on with the images of all pods that were
/// listed; a namespace that does not exist counts as empty.
pub proof fn all_namespaces_count(
    inputs: Inputs,
    namespaces: Seq<Seq<char>>,
    pods: Seq<PodView>,
    outcomes: Seq<PodListOutcomeView>,
)
    requires
        outcomes.len() == namespaces.len(),
        forall|i: int| 0 <= i < outcomes.len() ==> expected_listing(#[trigger] outcomes[i]),
    ensures
        after_listings(inputs, list_next(inputs, namespaces, pods), outcomes) == list_next(
            inputs,
            Seq::empty(),
            pods + listed_pods(outcomes),
        ),
    decreases outcomes.len(),
{
    if outcomes.len() == 0 {
        assert(pods + listed_pods(outcomes) =~= pods);
        assert(namespaces =~= Seq::<Seq<char>>::empty());
    } else {
        assert(expected_listing(outcomes[0]));
        let more = match outcomes.first() {
            PodListOutcomeView::Pods(pods) => pods,
            _ => Seq::empty(),
        };
        assert forall|i: int| 0 <= i < outcomes.drop_first().len() implies expected_listing(
            #[trigger] outcomes.drop_first()[i],
        ) by {
            assert(expected_listing(outcomes[i + 1]));
        }
        all_namespaces_count(inputs, namespaces.drop_first(), pods + more, outcomes.drop_first());
        assert(pods + more + listed_pods(outcomes.drop_first()) =~= pods + listed_pods(outcomes));
        assert(pods + Seq::<PodView>::empty() =~= pods);
        assert(list_next(inputs, namespaces, pods) == (Phase::Listing { namespaces, pods }));
        assert(after_listing(inputs, list_next(inputs, namespaces, pods), outcomes.first())
            == list_next(inputs, namespaces.drop_first(), pods + more));
    }
}

/// How an orchestration goes on after several Jobs were created.
pub open spec fn after_creations(
    inputs: Inputs,
    phase: Phase,
    outcomes: Seq<JobCreateOutcomeView>,
) -> Phase
    decreases outcomes.len(),
{
    if outcomes.len() == 0 {
        phase
    } else {
        after_creations(
            inputs,
            after_creation(inputs, phase, outcomes.first()),
            outcomes.drop_first(),
        )
    }
}

/// If a Job can be built for one image, one is built for every image: an orchestration that has
/// begun to create Jobs does not fail to build one. And if no creation is denied or fails, it ends
/// after one Job for each of the images, and reports the number of distinct images.
pub proof fn every_image_gets_a_job(
    inputs: Inputs,
    images: Seq<Seq<char>>,
    distinct_images: nat,
    created: Seq<Seq<char>>,
    outcomes: Seq<JobCreateOutcomeView>,
)
    requires
        forall|i: int| 0 <= i < images.len() ==> !scan_job::blank(#[trigger] images[i]),
        images.len() > 0 ==> scan_job::scan_job(inputs.spec, inputs.name, images.first()) is Ok,
        outcomes.len() <= images.len(),
        forall|i: int| 0 <= i < outcomes.len() ==> expected_creation(#[trigger] outcomes[i]),
    ensures
        ({
            let end = after_creations(
                inputs,
                create_next(inputs, images, distinct_images, created),
                outcomes,
            );
            &&& outcomes.len() < images.len() ==> end is Creating && end->images == images.skip(
                outcomes.len() as int,
            )
            &&& outcomes.len() == images.len() ==> end is Done && end->Done_result
                == (OrchestrationResultView::Spawned { distinct_images })
        }),
    decreases outcomes.len(),
{
    if outcomes.len() == 0 {
        assert(images.skip(0) =~= images);
    } else {
        let rest = images.drop_first();
        assert(expected_creation(outcomes[0]));
        assert forall|i: int| 0 <= i < rest.len() implies !scan_job::blank(#[trigger] rest[i]) by {
            assert(rest[i] == images[i + 1]);
        }
        assert forall|i: int| 0 <= i < outcomes.drop_first().len() implies expected_creation(
            #[trigger] outcomes.drop_first()[i],
        ) by {
            assert(expected_creation(outcomes[i + 1]));
        }
        if rest.len() > 0 {
            assert(!scan_job::blank(images[0]));
            assert(!scan_job::blank(rest[0]));
            scan_job::laws::outcome_depends_on_the_spec_alone(
                inputs.spec,
                inputs.name,
                images.first(),
                inputs.name,
                rest.first(),
            );
        }
        let phase = create_next(inputs, images, distinct_images, created);
        let more = jobs_left(after_creation(inputs, phase, outcomes.first()));
        assert(after_creation(inputs, phase, outcomes.first()) == create_next(
            inputs,
            rest,
            distinct_images,
            more,
        ));
        every_image_gets_a_job(inputs, rest, distinct_images, more, outcomes.drop_first());
        assert(rest.skip(outcomes.drop_first().len() as int) =~= images.skip(
            outcomes.len() as int,
        ));
    }
}

/// An orchestration that reports Jobs reports at least one.
pub proof fn spawned_is_never_empty(inputs: Inputs, events: Seq<Event>)
    ensures
        ({
            let end = after_events(inputs, events);
            &&& end is Creating ==> end->distinct_images > 0
            &&& end matches Phase::Done { result, .. } ==> result
                != (OrchestrationResultView::Spawned { distinct_images: 0 })
        }),
    decreases events.len(),
{
    if events.len() > 0 {
        spawned_is_never_empty(inputs, events.drop_last());
        undoing_follows_a_denial(inputs, events.drop_last());
    }
}

/// Jobs are deleted again only after a denial.
pub proof fn undoing_follows_a_denial(inputs: Inputs, events: Seq<Event>)
    ensures
        after_events(inputs, events) matches Phase::Undoing { result, .. } ==> result
            is RbacInsufficient,
    decreases events.len(),
{
    if events.len() > 0 {
        undoing_follows_a_denial(inputs, events.drop_last());
    }
}

proof fn lemma_container_images_finite(containers: Seq<ContainerView>)
    ensures
        container_images(containers).finite(),
    decreases containers.len(),
{
    if containers.len() > 0 {
        lemma_container_images_finite(containers.drop_last());
    }
}

proof fn lemma_ephemeral_images_finite(containers: Seq<EphemeralContainerView>)
    ensures
        ephemeral_images(containers).finite(),
    decreases containers.len(),
{
    if containers.len() > 0 {
        lemma_ephemeral_images_finite(containers.drop_last());
    }
}

proof fn lemma_collected_images_finite(pods: Seq<PodView>)
    ensures
        collected_images(pods).finite(),
    decreases pods.len(),
{
    if pods.len() > 0 {
        lemma_collected_images_finite(pods.drop_last());
        let pod = pods.last();
        if in_scope(pod) && pod.spec is Some {
            let spec = pod.spec->0;
            if spec.init_containers is Some {
                lemma_container_images_finite(spec.init_containers->0);
            }
            lemma_container_images_finite(spec.containers);
            if spec.ephemeral_containers is Some {
                lemma_ephemeral_images_finite(spec.ephemeral_containers->0);
            }
        }
    }
}

/// The images for which Jobs are created are the distinct images of the pods, each of them once and
/// in ascending order.
pub proof fn images_are_distinct_and_sorted(pods: Seq<PodView>)
    ensures
        ({
            let images = text_map::sorted(collected_images(pods));
            &&& text_map::ascending(images)
            &&& images.no_duplicates()
            &&& images.to_set() == collected_images(pods)
        }),
{
    lemma_collected_images_finite(pods);
    text_map::sorted_is_ascending(collected_images(pods));
    let images = text_map::sorted(collected_images(pods));
    assert forall|i: int, j: int| 0 <= i < j < images.len() implies images[i] != images[j] by {
        assert(text::text_lt(images[i], images[j]));
        text::text_lt_irreflexive(images[i]);
    }
}

/// An orchestration without denials and failures, for a specification from which Jobs can be built,
/// ends after one Job for each distinct image of the pods in scope, and reports how many there are;
/// without any image it creates nothing and reports that.
pub proof fn undisturbed_orchestration_spawns_all_jobs(
    inputs: Inputs,
    listings: Seq<PodListOutcomeView>,
    creations: Seq<JobCreateOutcomeView>,
)
    requires
        listings.len() == inputs.spec.target.namespaces@.len(),
        forall|i: int| 0 <= i < listings.len() ==> expected_listing(#[trigger] listings[i]),
        creations.len() == text_map::sorted(collected_images(listed_pods(listings))).len(),
        forall|i: int| 0 <= i < creations.len() ==> expected_creation(#[trigger] creations[i]),
        forall|image: Seq<char>|
            !scan_job::blank(image) ==> #[trigger] scan_job::scan_job(
                inputs.spec,
                inputs.name,
                image,
            ) is Ok,
    ensures
        ({
            let end = after_creations(
                inputs,
                after_listings(inputs, first_phase(inputs), listings),
                creations,
            );
            &&& end is Done
            &&& end->Done_result == if creations.len() == 0 {
                OrchestrationResultView::NoImagesInScope
            } else {
                OrchestrationResultView::Spawned { distinct_images: creations.len() }
            }
        }),
{
    let namespaces = inputs.spec.target.namespaces.deep_view();
    let pods = listed_pods(listings);
    let images = text_map::sorted(collected_images(pods));
    all_namespaces_count(inputs, namespaces, Seq::empty(), listings);
    assert(Seq::<PodView>::empty() + pods =~= pods);
    images_are_distinct_and_sorted(pods);
    assert forall|i: int| 0 <= i < images.len() implies !scan_job::blank(#[trigger] images[i]) by {
        assert(images.to_set().contains(images[i]));
        collected_images_are_not_blank(pods, images[i]);
    }
    if images.len() > 0 {
        assert(!scan_job::blank(images[0]));
        assert(scan_job::scan_job(inputs.spec, inputs.name, images.first()) is Ok);
        every_image_gets_a_job(inputs, images, images.len(), Seq::empty(), creations);
    }
}

} // verus!
