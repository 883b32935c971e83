//! Laws of finding images and of creating Jobs for them.
use crate::k8s::{
    ContainerView, EphemeralContainerView, Job, JobView, OwnerReferenceView, Pod, PodView,
};
use crate::kube::KubeError;
use crate::laws::text as text_laws;
use crate::reconcile::scan_orchestrator::{
    self, Inputs, JobCreateOutcomeView, OrchestrationResultView, Phase, PodListOutcomeView,
};
use crate::reconcile::status_aggregator;
use crate::scan_job;
use crate::text;
use crate::text_map;
use vstd::prelude::*;

verus! {

/// A pod is in scope exactly if it reports no phase, or `Running`, or `Pending`.
pub proof fn scope_goes_by_the_phase(pod: PodView, phase: Seq<char>)
    ensures
        pod.status is None ==> scan_orchestrator::in_scope(pod),
        (pod.status matches Some(status) && status.phase is None) ==> scan_orchestrator::in_scope(pod),
        (pod.status matches Some(status) && status.phase == Some(phase)) ==> (
        scan_orchestrator::in_scope(pod) <==> phase == "Running"@ || phase == "Pending"@),
{
}

/// A pod without a phase, or running, or pending, has a container of any of the three kinds with
/// this very image.
pub open spec fn uses_image(pod: PodView, image: Seq<char>) -> bool {
    &&& pod.status matches Some(status) ==> (status.phase matches Some(phase) ==> phase
        == "Running"@ || phase == "Pending"@)
    &&& pod.spec matches Some(spec) && {
        ||| spec.init_containers matches Some(containers) && exists|i: int|
            0 <= i < containers.len() && (#[trigger] containers[i]).image == Some(image)
        ||| exists|i: int|
            0 <= i < spec.containers.len() && (#[trigger] spec.containers[i]).image == Some(image)
        ||| spec.ephemeral_containers matches Some(containers) && exists|i: int|
            0 <= i < containers.len() && (#[trigger] containers[i]).image == Some(image)
    }
}

/// A text is collected exactly if it has a character that is not white space and a pod in scope has
/// a container, of whatever kind, with that very text as its image.
pub proof fn every_image_in_use_is_collected(pods: Seq<PodView>, image: Seq<char>)
    ensures
        scan_orchestrator::collected_images(pods).contains(image) <==> text_laws::has_ink(image)
            && exists|i: int| 0 <= i < pods.len() && uses_image(#[trigger] pods[i], image),
    decreases pods.len(),
{
    text_laws::blank_texts_are_white_space(image);
    if pods.len() > 0 {
        let front = pods.drop_last();
        let pod = pods.last();
        every_image_in_use_is_collected(front, image);
        lemma_pod_images(pod, image);
        if scan_orchestrator::collected_images(front).contains(image) {
            let i = choose|i: int| 0 <= i < front.len() && uses_image(#[trigger] front[i], image);
            assert(uses_image(pods[i], image));
        }
        assert(pods[pods.len() - 1] == pod);
        if exists|i: int| 0 <= i < pods.len() && uses_image(#[trigger] pods[i], image) {
            let i = choose|i: int| 0 <= i < pods.len() && uses_image(#[trigger] pods[i], image);
            if i < front.len() {
                assert(uses_image(front[i], image));
            }
        }
    }
}

proof fn lemma_pod_images(pod: PodView, image: Seq<char>)
    ensures
        scan_orchestrator::pod_images(pod).contains(image) <==> text_laws::has_ink(image)
            && uses_image(pod, image),
{
    text_laws::blank_texts_are_white_space(image);
    if let Some(spec) = pod.spec {
        if let Some(containers) = spec.init_containers {
            lemma_container_images(containers, image);
        }
        lemma_container_images(spec.containers, image);
        if let Some(containers) = spec.ephemeral_containers {
            lemma_ephemeral_images(containers, image);
        }
    }
}

proof fn lemma_container_images(containers: Seq<ContainerView>, image: Seq<char>)
    ensures
        scan_orchestrator::container_images(containers).contains(image) <==> text_laws::has_ink(
            image,
        ) && exists|i: int|
            0 <= i < containers.len() && (#[trigger] containers[i]).image == Some(image),
    decreases containers.len(),
{
    text_laws::blank_texts_are_white_space(image);
    if containers.len() > 0 {
        let front = containers.drop_last();
        lemma_container_images(front, image);
        if let Some(last) = containers.last().image {
            text_laws::blank_texts_are_white_space(last);
        }
        assert(containers[containers.len() - 1] == containers.last());
        if exists|i: int| 0 <= i < front.len() && (#[trigger] front[i]).image == Some(image) {
            let i = choose|i: int| 0 <= i < front.len() && (#[trigger] front[i]).image == Some(image);
            assert(containers[i].image == Some(image));
        }
        if exists|i: int|
            0 <= i < containers.len() && (#[trigger] containers[i]).image == Some(image) {
            let i = choose|i: int|
                0 <= i < containers.len() && (#[trigger] containers[i]).image == Some(image);
            if i < front.len() {
                assert(front[i].image == Some(image));
            }
        }
    }
}

proof fn lemma_ephemeral_images(containers: Seq<EphemeralContainerView>, image: Seq<char>)
    ensures
        scan_orchestrator::ephemeral_images(containers).contains(image) <==> text_laws::has_ink(
            image,
        ) && exists|i: int|
            0 <= i < containers.len() && (#[trigger] containers[i]).image == Some(image),
    decreases containers.len(),
{
    text_laws::blank_texts_are_white_space(image);
    if containers.len() > 0 {
        let front = containers.drop_last();
        lemma_ephemeral_images(front, image);
        if let Some(last) = containers.last().image {
            text_laws::blank_texts_are_white_space(last);
        }
        assert(containers[containers.len() - 1] == containers.last());
        if exists|i: int| 0 <= i < front.len() && (#[trigger] front[i]).image == Some(image) {
            let i = choose|i: int| 0 <= i < front.len() && (#[trigger] front[i]).image == Some(image);
            assert(containers[i].image == Some(image));
        }
        if exists|i: int|
            0 <= i < containers.len() && (#[trigger] containers[i]).image == Some(image) {
            let i = choose|i: int|
                0 <= i < containers.len() && (#[trigger] containers[i]).image == Some(image);
            if i < front.len() {
                assert(front[i].image == Some(image));
            }
        }
    }
}

/// Adding the image that a container names adds that very text, if it has a character that is not
/// white space, and nothing else.
pub proof fn images_are_added_as_they_are(images: Set<Seq<char>>, image: Seq<char>)
    ensures
        scan_orchestrator::with_image(images, None) == images,
        text_laws::has_ink(image) ==> scan_orchestrator::with_image(images, Some(image))
            == images.insert(image),
        !text_laws::has_ink(image) ==> scan_orchestrator::with_image(images, Some(image)) == images,
{
    text_laws::blank_texts_are_white_space(image);
}

/// What an answer to listing pods means: 404 is a missing namespace, 403 a denial with the message of
/// the server, and any other failure is handed back.
pub proof fn answers_to_listing(pods: Vec<Pod>, e: KubeError, namespace: Seq<char>)
    ensures
        scan_orchestrator::pod_list_outcome(Ok(pods), namespace) == PodListOutcomeView::Pods(
            pods.deep_view(),
        ),
        scan_orchestrator::pod_list_outcome(Err(e), namespace) == match e.response {
            Some(response) => if response.code == 404 {
                PodListOutcomeView::NamespaceMissing
            } else if response.code == 403 {
                PodListOutcomeView::RbacDenied {
                    verb_resource: "list pods"@,
                    namespace,
                    message: response.message@,
                }
            } else {
                PodListOutcomeView::Failed(e)
            },
            None => PodListOutcomeView::Failed(e),
        },
{
}

/// What an answer to creating a Job means: 409 is a Job that is there already, 403 a denial with the
/// message of the server, and any other failure is handed back.
pub proof fn answers_to_creating(job: Job, e: KubeError, namespace: Seq<char>)
    ensures
        scan_orchestrator::job_create_outcome(Ok(job), namespace) is Created,
        scan_orchestrator::job_create_outcome(Err(e), namespace) == match e.response {
            Some(response) => if response.code == 409 {
                JobCreateOutcomeView::Preexisting
            } else if response.code == 403 {
                JobCreateOutcomeView::RbacDenied {
                    verb_resource: "create batch/v1.jobs"@,
                    namespace,
                    message: response.message@,
                }
            } else {
                JobCreateOutcomeView::Failed(e)
            },
            None => JobCreateOutcomeView::Failed(e),
        },
{
}

/// The resource is the one owner of a Job, as its controller, and blocks until the Job is deleted. The
/// Job is otherwise as it was built.
pub proof fn jobs_have_one_owner(job: JobView, inputs: Inputs)
    ensures
        ({
            let owned = scan_orchestrator::owned_job(job, inputs);
            &&& owned.metadata.owner_references matches Some(owners) && owners == seq![
                OwnerReferenceView {
                    api_version: "kusari.dev/v1alpha1"@,
                    kind: "NamespaceScan"@,
                    name: inputs.name,
                    uid: inputs.uid,
                    controller: Some(true),
                    block_owner_deletion: Some(true),
                },
            ]
            &&& owned.metadata.name == job.metadata.name
            &&& owned.metadata.namespace == job.metadata.namespace
            &&& owned.metadata.labels == job.metadata.labels
            &&& owned.spec == job.spec
            &&& owned.status == job.status
        }),
{
}

/// A listing that went through, or found no such namespace.
pub open spec fn went_through(outcome: PodListOutcomeView) -> bool {
    outcome is Pods || outcome is NamespaceMissing
}

/// The namespaces of the target are listed one after the other, in their order, before anything is
/// created.
pub proof fn namespaces_are_listed_in_order(inputs: Inputs, outcomes: Seq<PodListOutcomeView>)
    requires
        outcomes.len() < inputs.spec.target.namespaces@.len(),
        forall|i: int| 0 <= i < outcomes.len() ==> went_through(#[trigger] outcomes[i]),
    ensures
        ({
            let phase = scan_orchestrator::after_listings(
                inputs,
                scan_orchestrator::first_phase(inputs),
                outcomes,
            );
            &&& phase is Listing
            &&& phase->namespaces.first()
                == inputs.spec.target.namespaces@[outcomes.len() as int]@
            &&& phase->Listing_pods == scan_orchestrator::listed_pods(outcomes)
        }),
{
    let namespaces = inputs.spec.target.namespaces.deep_view();
    lemma_listings(inputs, namespaces, Seq::empty(), outcomes);
    assert(Seq::<PodView>::empty() + scan_orchestrator::listed_pods(outcomes)
        =~= scan_orchestrator::listed_pods(outcomes));
}

proof fn lemma_listings(
    inputs: Inputs,
    namespaces: Seq<Seq<char>>,
    pods: Seq<PodView>,
    outcomes: Seq<PodListOutcomeView>,
)
    requires
        outcomes.len() < namespaces.len(),
        forall|i: int| 0 <= i < outcomes.len() ==> went_through(#[trigger] outcomes[i]),
    ensures
        scan_orchestrator::after_listings(
            inputs,
            scan_orchestrator::list_next(inputs, namespaces, pods),
            outcomes,
        ) == (Phase::Listing {
            namespaces: namespaces.skip(outcomes.len() as int),
            pods: pods + scan_orchestrator::listed_pods(outcomes),
        }),
    decreases outcomes.len(),
{
    if outcomes.len() == 0 {
        assert(namespaces.skip(0) =~= namespaces);
        assert(pods + scan_orchestrator::listed_pods(outcomes) =~= pods);
    } else {
        assert(went_through(outcomes[0]));
        let rest = outcomes.drop_first();
        let more = match outcomes.first() {
            PodListOutcomeView::Pods(pods) => pods,
            _ => Seq::empty(),
        };
        assert forall|i: int| 0 <= i < rest.len() implies went_through(#[trigger] rest[i]) by {
            assert(went_through(outcomes[i + 1]));
        }
        lemma_listings(inputs, namespaces.drop_first(), pods + more, rest);
        assert(pods + Seq::<PodView>::empty() =~= pods);
        assert(pods + more + scan_orchestrator::listed_pods(rest) =~= pods
            + scan_orchestrator::listed_pods(outcomes));
        assert(namespaces.drop_first().skip(rest.len() as int) =~= namespaces.skip(
            outcomes.len() as int,
        ));
    }
}

/// The pods of several listings are those of each, in their order; a missing namespace has none.
pub proof fn listed_pods_are_those_of_each_listing(
    pods: Seq<PodView>,
    a: Seq<PodListOutcomeView>,
    b: Seq<PodListOutcomeView>,
)
    ensures
        scan_orchestrator::listed_pods(seq![PodListOutcomeView::Pods(pods)]) == pods,
        scan_orchestrator::listed_pods(seq![PodListOutcomeView::NamespaceMissing]).len() == 0,
        scan_orchestrator::listed_pods(a + b) == scan_orchestrator::listed_pods(a)
            + scan_orchestrator::listed_pods(b),
    decreases a.len(),
{
    reveal_with_fuel(scan_orchestrator::listed_pods, 2);
    let one = seq![PodListOutcomeView::Pods(pods)];
    assert(one.drop_first() =~= Seq::empty());
    assert(scan_orchestrator::listed_pods(one) =~= pods);
    let missing = seq![PodListOutcomeView::NamespaceMissing];
    assert(missing.drop_first() =~= Seq::empty());
    assert(scan_orchestrator::listed_pods(missing) =~= Seq::empty());
    if a.len() == 0 {
        assert(a + b =~= b);
        assert(scan_orchestrator::listed_pods(a) + scan_orchestrator::listed_pods(b)
            =~= scan_orchestrator::listed_pods(b));
    } else {
        listed_pods_are_those_of_each_listing(pods, a.drop_first(), b);
        assert((a + b).first() == a.first());
        assert((a + b).drop_first() =~= a.drop_first() + b);
        assert(scan_orchestrator::listed_pods(a + b) =~= scan_orchestrator::listed_pods(a)
            + scan_orchestrator::listed_pods(b));
    }
}

/// When the last namespace is listed, there is a Job to create for the first image in use, in
/// ascending order; with no image in use the orchestration reports that. If no Job can be built, it
/// reports the image and why.
pub proof fn listing_ends_with_the_first_image(inputs: Inputs, pods: Seq<PodView>)
    ensures
        ({
            let images = text_map::sorted(scan_orchestrator::collected_images(pods));
            let phase = scan_orchestrator::list_next(inputs, Seq::empty(), pods);
            let built = scan_job::scan_job(inputs.spec, inputs.name, images.first());
            &&& images.len() == 0 ==> phase == (Phase::Done {
                result: OrchestrationResultView::NoImagesInScope,
                created: Seq::empty(),
            })
            &&& images.len() > 0 && built is Err ==> phase == (Phase::Done {
                result: OrchestrationResultView::BuildFailed {
                    image_ref: images.first(),
                    error: built->Err_0.text(),
                },
                created: Seq::empty(),
            })
            &&& images.len() > 0 && built is Ok ==> phase is Creating && phase->images == images
                && phase->distinct_images == images.len() && jobs_for(phase->job, images.first())
                && phase->job == scan_orchestrator::owned_job(built->Ok_0, inputs)
                && scan_orchestrator::jobs_left(phase).len() == 0
        }),
{
    let images = text_map::sorted(scan_orchestrator::collected_images(pods));
    if images.len() > 0 && scan_job::scan_job(inputs.spec, inputs.name, images.first()) is Ok {
        status_aggregator::built_job_tells_its_image(inputs.spec, inputs.name, images.first());
    }
}

/// A Job that scans an image.
pub open spec fn jobs_for(job: JobView, image: Seq<char>) -> bool {
    status_aggregator::job_image(job) == Some(text::trimmed(image))
}

/// After a Job was created, or was there already, it is the turn of the next image; after the last
/// one the orchestration reports how many images there are, and it ends with an image for which no Job
/// can be built. Only a Job that was created counts as one of this run.
pub proof fn each_creation_leads_to_the_next_image(
    inputs: Inputs,
    images: Seq<Seq<char>>,
    job: JobView,
    distinct_images: nat,
    created: Seq<Seq<char>>,
    outcome: JobCreateOutcomeView,
)
    requires
        images.len() > 0,
        outcome is Created || outcome is Preexisting,
    ensures
        ({
            let built = scan_job::scan_job(inputs.spec, inputs.name, images[1]);
            let next = scan_orchestrator::after_creation(
                inputs,
                Phase::Creating { images, job, distinct_images, created },
                outcome,
            );
            &&& images.len() == 1 ==> next is Done && next->Done_result
                == (OrchestrationResultView::Spawned { distinct_images })
            &&& images.len() > 1 && built is Ok ==> next is Creating && next->images
                == images.drop_first() && next->distinct_images == distinct_images && jobs_for(
                next->job,
                images[1],
            ) && next->job == scan_orchestrator::owned_job(built->Ok_0, inputs)
            &&& images.len() > 1 && built is Err ==> next is Done && next->Done_result == (
            OrchestrationResultView::BuildFailed {
                image_ref: images[1],
                error: built->Err_0.text(),
            })
            &&& outcome is Created ==> scan_orchestrator::jobs_left(next) == created.push(
                job.metadata.name->0,
            )
            &&& outcome is Preexisting ==> scan_orchestrator::jobs_left(next) == created
        }),
{
    if images.len() > 1 {
        assert(images.drop_first().first() == images[1]);
        if scan_job::scan_job(inputs.spec, inputs.name, images[1]) is Ok {
            status_aggregator::built_job_tells_its_image(inputs.spec, inputs.name, images[1]);
        }
    }
}

/// A denied listing ends the orchestration before any Job is created, and is reported as it was
/// answered.
pub proof fn denied_listings_end_the_orchestration(
    inputs: Inputs,
    namespaces: Seq<Seq<char>>,
    pods: Seq<PodView>,
    verb_resource: Seq<char>,
    namespace: Seq<char>,
    message: Seq<char>,
)
    ensures
        ({
            let next = scan_orchestrator::after_listing(
                inputs,
                Phase::Listing { namespaces, pods },
                PodListOutcomeView::RbacDenied { verb_resource, namespace, message },
            );
            &&& next is Done
            &&& next->Done_result == (OrchestrationResultView::RbacInsufficient {
                verb_resource,
                namespace: Some(namespace),
                message,
            })
            &&& scan_orchestrator::jobs_left(next).len() == 0
        }),
{
}

/// An unexpected failure ends the orchestration at once: it is handed back, and the Jobs of this run
/// stay.
pub proof fn unexpected_failures_are_handed_back(
    inputs: Inputs,
    namespaces: Seq<Seq<char>>,
    pods: Seq<PodView>,
    images: Seq<Seq<char>>,
    job: JobView,
    distinct_images: nat,
    created: Seq<Seq<char>>,
    error: KubeError,
)
    ensures
        scan_orchestrator::after_listing(
            inputs,
            Phase::Listing { namespaces, pods },
            PodListOutcomeView::Failed(error),
        ) == (Phase::Failed { error, created: Seq::empty() }),
        scan_orchestrator::after_creation(
            inputs,
            Phase::Creating { images, job, distinct_images, created },
            JobCreateOutcomeView::Failed(error),
        ) == (Phase::Failed { error, created }),
{
}

/// A denied creation is followed by deleting the Jobs of this run, one after the other in the order in
/// which they were created. A Job that is gone, by the deletion or before it, is not left; one whose
/// deletion is denied is; any other failure is handed back. At the end the denial is reported.
pub proof fn denied_creations_are_undone(
    inputs: Inputs,
    images: Seq<Seq<char>>,
    job: JobView,
    distinct_images: nat,
    created: Seq<Seq<char>>,
    verb_resource: Seq<char>,
    namespace: Seq<char>,
    message: Seq<char>,
    kept: Seq<Seq<char>>,
    result: OrchestrationResultView,
    e: KubeError,
)
    ensures
        ({
            let denied = OrchestrationResultView::RbacInsufficient {
                verb_resource,
                namespace: Some(namespace),
                message,
            };
            let next = scan_orchestrator::after_creation(
                inputs,
                Phase::Creating { images, job, distinct_images, created },
                JobCreateOutcomeView::RbacDenied { verb_resource, namespace, message },
            );
            &&& created.len() == 0 ==> next == (Phase::Done { result: denied, created })
            &&& created.len() > 0 ==> next == (Phase::Undoing {
                created,
                kept: Seq::empty(),
                result: denied,
            })
        }),
        created.len() > 0 ==> {
            let phase = Phase::Undoing { created, kept, result };
            let code = match e.response {
                Some(response) => response.code as int,
                None => -1,
            };
            let gone = scan_orchestrator::after_undoing(phase, Ok(()));
            let after = scan_orchestrator::after_undoing(phase, Err(e));
            &&& created.len() == 1 ==> gone == (Phase::Done { result, created: kept })
            &&& created.len() > 1 ==> gone == (Phase::Undoing {
                created: created.drop_first(),
                kept,
                result,
            })
            &&& code == 404 ==> after == gone
            &&& code == 403 && created.len() == 1 ==> after == (Phase::Done {
                result,
                created: kept.push(created[0]),
            })
            &&& code == 403 && created.len() > 1 ==> after == (Phase::Undoing {
                created: created.drop_first(),
                kept: kept.push(created[0]),
                result,
            })
            &&& code != 403 && code != 404 ==> after == (Phase::Failed {
                error: e,
                created: kept + created,
            })
        },
{
}

} // verus!
