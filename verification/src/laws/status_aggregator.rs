//! Laws of what the Jobs of a resource have come to.
use crate::crds::namespace_scan::{NamespaceScanSpec, OutputType, ScannedImageView};
use crate::k8s::{ContainerView, EnvVarView, JobSpecView, JobStatusView, JobView, PodSpecView};
use crate::laws::text as text_laws;
use crate::reconcile::status_aggregator::{self, AggregatedOutcomeView};
use crate::text;
use crate::time::{self, Timestamp};
use vstd::prelude::*;

verus! {

/// A Job has succeeded exactly if it reports at least one pod that has.
pub proof fn success_takes_one_pod(job: JobView, status: JobStatusView, n: i32)
    ensures
        job.status is None ==> !status_aggregator::job_succeeded(job),
        job.status == Some(status) && status.succeeded is None ==> !status_aggregator::job_succeeded(
            job,
        ),
        job.status == Some(status) && status.succeeded == Some(n) ==> (
        status_aggregator::job_succeeded(job) <==> n >= 1),
{
}

/// A Job has failed for good exactly if more of its pods have failed than its backoff limit says,
/// which is six if it says nothing.
pub proof fn failure_takes_more_pods_than_the_limit(job: JobView, failed: int, limit: int)
    requires
        match job.status {
            Some(status) => match status.failed {
                Some(n) => failed == n,
                None => failed == 0,
            },
            None => failed == 0,
        },
        match job.spec {
            Some(spec) => match spec.backoff_limit {
                Some(n) => limit == n,
                None => limit == 6,
            },
            None => limit == 6,
        },
    ensures
        status_aggregator::job_finally_failed(job) <==> failed > limit,
{
}

/// The image that a Job tells is the value of the first `IMAGE_REF` of its first `init-pull`
/// container.
pub proof fn image_is_that_of_the_first_init_pull(
    job: JobView,
    spec: JobSpecView,
    pod: PodSpecView,
    others: Seq<ContainerView>,
    container: ContainerView,
    more: Seq<ContainerView>,
    vars: Seq<EnvVarView>,
    var: EnvVarView,
    rest: Seq<EnvVarView>,
)
    requires
        job.spec == Some(spec),
        spec.template.spec == Some(pod),
        pod.init_containers == Some(others + seq![container] + more),
        forall|i: int| 0 <= i < others.len() ==> (#[trigger] others[i]).name != "init-pull"@,
        container.name == "init-pull"@,
        container.env == Some(vars + seq![var] + rest),
        forall|i: int| 0 <= i < vars.len() ==> (#[trigger] vars[i]).name != "IMAGE_REF"@,
        var.name == "IMAGE_REF"@,
    ensures
        status_aggregator::job_image(job) == var.value,
{
    lemma_first_container(others, container, more);
    lemma_first_env(vars, var, rest);
}

/// A Job without a specification, a pod or a container `init-pull` tells no image.
pub proof fn image_takes_an_init_pull(job: JobView)
    requires
        job.spec matches Some(spec) ==> (spec.template.spec matches Some(pod) ==> (
        pod.init_containers matches Some(containers) ==> forall|i: int|
            0 <= i < containers.len() ==> (#[trigger] containers[i]).name != "init-pull"@)),
    ensures
        status_aggregator::job_image(job) is None,
{
    if let Some(spec) = job.spec {
        if let Some(pod) = spec.template.spec {
            if let Some(containers) = pod.init_containers {
                lemma_no_container(containers);
            }
        }
    }
}

proof fn lemma_no_container(containers: Seq<ContainerView>)
    requires
        forall|i: int| 0 <= i < containers.len() ==> (#[trigger] containers[i]).name != "init-pull"@,
    ensures
        status_aggregator::first_container(containers, "init-pull"@) is None,
    decreases containers.len(),
{
    if containers.len() > 0 {
        assert(containers[0].name != "init-pull"@);
        assert forall|i: int| 0 <= i < containers.drop_first().len() implies (
        #[trigger] containers.drop_first()[i]).name != "init-pull"@ by {
            assert(containers[i + 1].name != "init-pull"@);
        }
        lemma_no_container(containers.drop_first());
    }
}

proof fn lemma_first_container(
    others: Seq<ContainerView>,
    container: ContainerView,
    more: Seq<ContainerView>,
)
    requires
        forall|i: int| 0 <= i < others.len() ==> (#[trigger] others[i]).name != "init-pull"@,
        container.name == "init-pull"@,
    ensures
        status_aggregator::first_container(others + seq![container] + more, "init-pull"@) == Some(
            container,
        ),
    decreases others.len(),
{
    let all = others + seq![container] + more;
    if others.len() > 0 {
        assert(all.first() == others[0]);
        assert forall|i: int| 0 <= i < others.drop_first().len() implies (
        #[trigger] others.drop_first()[i]).name != "init-pull"@ by {
            assert(others[i + 1].name != "init-pull"@);
        }
        lemma_first_container(others.drop_first(), container, more);
        assert(all.drop_first() =~= others.drop_first() + seq![container] + more);
    } else {
        assert(all.first() == container);
    }
}

proof fn lemma_first_env(vars: Seq<EnvVarView>, var: EnvVarView, rest: Seq<EnvVarView>)
    requires
        forall|i: int| 0 <= i < vars.len() ==> (#[trigger] vars[i]).name != "IMAGE_REF"@,
        var.name == "IMAGE_REF"@,
    ensures
        status_aggregator::first_env(vars + seq![var] + rest, "IMAGE_REF"@) == Some(var),
    decreases vars.len(),
{
    let all = vars + seq![var] + rest;
    if vars.len() > 0 {
        assert(all.first() == vars[0]);
        assert forall|i: int| 0 <= i < vars.drop_first().len() implies (
        #[trigger] vars.drop_first()[i]).name != "IMAGE_REF"@ by {
            assert(vars[i + 1].name != "IMAGE_REF"@);
        }
        lemma_first_env(vars.drop_first(), var, rest);
        assert(all.drop_first() =~= vars.drop_first() + seq![var] + rest);
    } else {
        assert(all.first() == var);
    }
}

/// Where an SBOM is: below the claim or the bucket, under the prefix if that has a character that is
/// not white space, in a file named by the hash; or in the repository of the registry, tagged with
/// the hash. White space around the names does not count.
pub proof fn locations_go_by_the_output(spec: NamespaceScanSpec, hash: Seq<char>)
    ensures
        ({
            let location = status_aggregator::sbom_location(spec, hash);
            match spec.output.backend_type {
                OutputType::Pvc => match spec.output.pvc {
                    None => location == "pvc://unknown"@,
                    Some(pvc) => match pvc.path_prefix {
                        Some(prefix) if text_laws::has_ink(prefix@) => location == "pvc://"@
                            + text::trimmed(pvc.claim_name@) + "/"@ + text::trimmed(prefix@) + "/"@
                            + hash + ".json"@,
                        _ => location == "pvc://"@ + text::trimmed(pvc.claim_name@) + "/"@ + hash
                            + ".json"@,
                    },
                },
                OutputType::S3 => match spec.output.s3 {
                    None => location == "s3://unknown"@,
                    Some(s3) => match s3.path_prefix {
                        Some(prefix) if text_laws::has_ink(prefix@) => location == "s3://"@
                            + text::trimmed(s3.bucket@) + "/"@ + text::trimmed(prefix@) + "/"@
                            + hash + ".json"@,
                        _ => location == "s3://"@ + text::trimmed(s3.bucket@) + "/"@ + hash
                            + ".json"@,
                    },
                },
                OutputType::Oci => match spec.output.oci {
                    None => location == "oci://unknown"@,
                    Some(oci) => location == "oci://"@ + text::trimmed(oci.registry@) + "/"@
                        + text::trimmed(oci.repository@) + ":"@ + hash,
                },
            }
        }),
{
    if let Some(pvc) = spec.output.pvc {
        if let Some(prefix) = pvc.path_prefix {
            text_laws::blank_texts_are_white_space(prefix@);
        }
    }
    if let Some(s3) = spec.output.s3 {
        if let Some(prefix) = s3.path_prefix {
            text_laws::blank_texts_are_white_space(prefix@);
        }
    }
}

/// Two images of one resource with different hashes have different locations.
pub proof fn locations_differ_by_hash(spec: NamespaceScanSpec, a: Seq<char>, b: Seq<char>)
    requires
        spec.output.backend_type is Pvc ==> spec.output.pvc is Some,
        spec.output.backend_type is S3 ==> spec.output.s3 is Some,
        spec.output.backend_type is Oci ==> spec.output.oci is Some,
        a.len() == b.len(),
        status_aggregator::sbom_location(spec, a) == status_aggregator::sbom_location(spec, b),
    ensures
        a == b,
{
    let x = status_aggregator::sbom_location(spec, a);
    let y = status_aggregator::sbom_location(spec, b);
    reveal_strlit(".json");
    let tail: int = if spec.output.backend_type is Oci {
        0
    } else {
        5
    };
    let start = x.len() - tail - a.len();
    assert(a =~= x.subrange(start, start + a.len()));
    assert(b =~= y.subrange(start, start + b.len()));
}

/// The last entry for an image: an entry for it with no other behind it.
pub open spec fn is_last_for(entries: Seq<ScannedImageView>, image: Seq<char>, i: int) -> bool {
    &&& 0 <= i < entries.len()
    &&& entries[i].image_ref == image
    &&& forall|j: int| i < j < entries.len() ==> (#[trigger] entries[j]).image_ref != image
}

/// Merging keeps, for each image, the last of its entries, the existing ones before the newly
/// completed; each image is there once.
pub proof fn merging_keeps_the_last_entries(
    existing: Seq<ScannedImageView>,
    newly_completed: Seq<ScannedImageView>,
    merged: Seq<ScannedImageView>,
    i: int,
)
    requires
        status_aggregator::is_merge(existing + newly_completed, merged),
    ensures
        forall|k: int|
            0 <= k < merged.len() ==> exists|j: int|
                #[trigger] is_last_for(
                    existing + newly_completed,
                    (#[trigger] merged[k]).image_ref,
                    j,
                ) && (existing + newly_completed)[j] == merged[k],
        0 <= i < existing.len() + newly_completed.len() ==> exists|k: int|
            0 <= k < merged.len() && (#[trigger] merged[k]).image_ref == (existing
                + newly_completed)[i].image_ref,
        forall|k: int, l: int|
            0 <= k < l < merged.len() ==> text::text_lt(
                (#[trigger] merged[k]).image_ref,
                (#[trigger] merged[l]).image_ref,
            ),
{
    let all = existing + newly_completed;
    let images = status_aggregator::entry_images(merged);
    assert forall|k: int| 0 <= k < merged.len() implies exists|j: int|
        #[trigger] is_last_for(all, (#[trigger] merged[k]).image_ref, j) && all[j] == merged[k] by {
        lemma_last(all, merged[k].image_ref);
    }
    if 0 <= i < all.len() {
        let image = all[i].image_ref;
        assert(status_aggregator::entry_images(all)[i] == image);
        status_aggregator::latest_entry_is_found(all, image);
        assert(images.contains(image));
        let k = images.index_of(image);
        assert(merged[k].image_ref == image);
    }
    assert forall|k: int, l: int| 0 <= k < l < merged.len() implies text::text_lt(
        (#[trigger] merged[k]).image_ref,
        (#[trigger] merged[l]).image_ref,
    ) by {
        assert(text::text_lt(images[k], images[l]));
    }
}

proof fn lemma_last(entries: Seq<ScannedImageView>, image: Seq<char>)
    ensures
        status_aggregator::latest_entry(entries, image) matches Some(entry) ==> exists|j: int|
            #[trigger] is_last_for(entries, image, j) && entries[j] == entry,
    decreases entries.len(),
{
    if entries.len() > 0 {
        let front = entries.drop_last();
        if entries.last().image_ref == image {
            assert(is_last_for(entries, image, entries.len() - 1));
        } else {
            lemma_last(front, image);
            if let Some(entry) = status_aggregator::latest_entry(front, image) {
                let j = choose|j: int|
                    #[trigger] is_last_for(front, image, j) && front[j] == entry;
                assert forall|k: int| j < k < entries.len() implies (
                #[trigger] entries[k]).image_ref != image by {
                    if k < front.len() {
                        assert(front[k].image_ref != image);
                    }
                }
                assert(is_last_for(entries, image, j));
            }
        }
    }
}

/// What a Job says about its image: the image, the location by the label with the hash, and when it
/// was completed, or `now` if it does not say. A Job without an image, a label or a status says
/// nothing.
pub proof fn jobs_tell_their_images(
    job: JobView,
    spec: NamespaceScanSpec,
    now: Timestamp,
    image: Seq<char>,
    labels: Map<Seq<char>, Seq<char>>,
    status: JobStatusView,
)
    ensures
        status_aggregator::job_image(job) is None || job.metadata.labels is None || job.status is None
            ==> status_aggregator::scanned_image(job, spec, now) is None,
        job.metadata.labels == Some(labels) && !labels.contains_key("kusari.dev/image-ref-hash"@)
            ==> status_aggregator::scanned_image(job, spec, now) is None,
        status_aggregator::job_image(job) == Some(image) && job.metadata.labels == Some(labels)
            && job.status == Some(status) && labels.contains_key("kusari.dev/image-ref-hash"@)
            ==> status_aggregator::scanned_image(job, spec, now) == Some(
            ScannedImageView {
                image_ref: image,
                resolved_sha: None,
                sbom_location: status_aggregator::sbom_location(
                    spec,
                    labels["kusari.dev/image-ref-hash"@],
                ),
                completed_at: match status.completion_time {
                    Some(t) => time::rfc3339_text(t.seconds(), t.nanos()),
                    None => time::rfc3339_text(now.seconds(), now.nanos()),
                },
            },
        ),
{
}

/// What several Jobs say is what each of them says, in their order.
pub proof fn jobs_are_listed_one_by_one(
    a: Seq<JobView>,
    job: JobView,
    b: Seq<JobView>,
    spec: NamespaceScanSpec,
    now: Timestamp,
)
    ensures
        status_aggregator::scanned_images(seq![job], spec, now)
            == match status_aggregator::scanned_image(job, spec, now) {
            Some(image) => seq![image],
            None => Seq::empty(),
        },
        status_aggregator::scanned_images(a + b, spec, now) == status_aggregator::scanned_images(
            a,
            spec,
            now,
        ) + status_aggregator::scanned_images(b, spec, now),
{
    reveal_with_fuel(status_aggregator::scanned_images, 2);
    let one = seq![job];
    assert(one.drop_last() =~= Seq::empty());
    assert(status_aggregator::scanned_images(one, spec, now)
        =~= match status_aggregator::scanned_image(job, spec, now) {
        Some(image) => seq![image],
        None => Seq::empty(),
    });
    lemma_scanned_of_sum(a, b, spec, now);
}

proof fn lemma_scanned_of_sum(
    a: Seq<JobView>,
    b: Seq<JobView>,
    spec: NamespaceScanSpec,
    now: Timestamp,
)
    ensures
        status_aggregator::scanned_images(a + b, spec, now) == status_aggregator::scanned_images(
            a,
            spec,
            now,
        ) + status_aggregator::scanned_images(b, spec, now),
    decreases b.len(),
{
    let left = status_aggregator::scanned_images(a, spec, now);
    if b.len() == 0 {
        assert(a + b =~= a);
        assert(left + status_aggregator::scanned_images(b, spec, now) =~= left);
    } else {
        lemma_scanned_of_sum(a, b.drop_last(), spec, now);
        assert((a + b).drop_last() =~= a + b.drop_last());
        assert((a + b).last() == b.last());
        assert(status_aggregator::scanned_images(a + b, spec, now) =~= left
            + status_aggregator::scanned_images(b, spec, now));
    }
}

/// More pods of this Job have failed than its backoff limit says.
pub open spec fn exhausted(job: JobView) -> bool {
    let failed: int = match job.status {
        Some(status) => match status.failed {
            Some(n) => n as int,
            None => 0,
        },
        None => 0,
    };
    let limit: int = match job.spec {
        Some(spec) => match spec.backoff_limit {
            Some(n) => n as int,
            None => 6,
        },
        None => 6,
    };
    failed > limit
}

/// A pod of this Job has succeeded.
pub open spec fn has_success(job: JobView) -> bool {
    job.status matches Some(status) && (status.succeeded matches Some(n) && n >= 1)
}

/// One Job that has failed for good makes a failure of the whole, whatever the others have come to;
/// the first such Job gives the image. Else, if there are Jobs and each has succeeded, the whole has,
/// with what each says about its image. Else it is still running.
pub proof fn outcome_goes_by_the_pods(
    jobs: Seq<JobView>,
    spec: NamespaceScanSpec,
    now: Timestamp,
    first: int,
)
    ensures
        0 <= first < jobs.len() && exhausted(jobs[first]) && (forall|i: int|
            0 <= i < first ==> !exhausted(#[trigger] jobs[i])) ==> status_aggregator::outcome_of(
            jobs,
            spec,
            now,
        ) == (AggregatedOutcomeView::AnyFailed {
            image_ref: match status_aggregator::job_image(jobs[first]) {
                Some(image) => image,
                None => "<unknown>"@,
            },
        }),
        jobs.len() > 0 && (forall|i: int|
            0 <= i < jobs.len() ==> !exhausted(#[trigger] jobs[i]) && has_success(jobs[i]))
            ==> status_aggregator::outcome_of(jobs, spec, now)
            == (AggregatedOutcomeView::AllSucceeded {
            scanned: status_aggregator::scanned_images(jobs, spec, now),
        }),
        jobs.len() == 0 ==> status_aggregator::outcome_of(jobs, spec, now) is StillRunning,
        (forall|i: int| 0 <= i < jobs.len() ==> !exhausted(#[trigger] jobs[i])) && (exists|i: int|
            0 <= i < jobs.len() && !has_success(#[trigger] jobs[i]))
            ==> status_aggregator::outcome_of(jobs, spec, now) is StillRunning,
{
    if 0 <= first < jobs.len() && exhausted(jobs[first]) && (forall|i: int|
        0 <= i < first ==> !exhausted(#[trigger] jobs[i])) {
        lemma_first_exhausted(jobs, first);
    }
    if forall|i: int| 0 <= i < jobs.len() ==> !exhausted(#[trigger] jobs[i]) {
        lemma_none_exhausted(jobs);
        if exists|i: int| 0 <= i < jobs.len() && !has_success(#[trigger] jobs[i]) {
            let i = choose|i: int| 0 <= i < jobs.len() && !has_success(#[trigger] jobs[i]);
            assert(!status_aggregator::job_succeeded(jobs[i]));
        }
    }
    if jobs.len() > 0 && (forall|i: int|
        0 <= i < jobs.len() ==> !exhausted(#[trigger] jobs[i]) && has_success(jobs[i])) {
        assert forall|i: int| 0 <= i < jobs.len() implies status_aggregator::job_succeeded(
            #[trigger] jobs[i],
        ) by {
            assert(has_success(jobs[i]));
        }
        lemma_none_exhausted(jobs);
    }
}

proof fn lemma_first_exhausted(jobs: Seq<JobView>, first: int)
    requires
        0 <= first < jobs.len(),
        exhausted(jobs[first]),
        forall|i: int| 0 <= i < first ==> !exhausted(#[trigger] jobs[i]),
    ensures
        status_aggregator::first_failed(jobs) == Some(jobs[first]),
    decreases first,
{
    assert(exhausted(jobs[0]) <==> status_aggregator::job_finally_failed(jobs.first()));
    if first > 0 {
        assert(!exhausted(jobs[0]));
        let rest = jobs.drop_first();
        assert forall|i: int| 0 <= i < first - 1 implies !exhausted(#[trigger] rest[i]) by {
            assert(!exhausted(jobs[i + 1]));
        }
        lemma_first_exhausted(rest, first - 1);
    }
}

proof fn lemma_none_exhausted(jobs: Seq<JobView>)
    requires
        forall|i: int| 0 <= i < jobs.len() ==> !exhausted(#[trigger] jobs[i]),
    ensures
        status_aggregator::first_failed(jobs) is None,
    decreases jobs.len(),
{
    if jobs.len() > 0 {
        assert(!exhausted(jobs[0]));
        assert(!status_aggregator::job_finally_failed(jobs.first()));
        let rest = jobs.drop_first();
        assert forall|i: int| 0 <= i < rest.len() implies !exhausted(#[trigger] rest[i]) by {
            assert(!exhausted(jobs[i + 1]));
        }
        lemma_none_exhausted(rest);
    }
}

/// Jobs are picked by the label with the name of the resource.
pub proof fn jobs_are_picked_by_the_name_of_the_resource(cr_name: Seq<char>)
    ensures
        status_aggregator::owned_jobs_selector_text(cr_name) == "kusari.dev/namespace-scan="@
            + cr_name,
{
}

} // verus!
