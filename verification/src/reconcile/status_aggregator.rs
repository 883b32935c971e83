//! Reads the states of the Jobs that belong to a resource and makes one outcome of them.
use crate::crds::namespace_scan::{NamespaceScanSpec, OutputType, ScannedImage, ScannedImageView};
use crate::k8s::{Container, ContainerView, EnvVar, EnvVarView, Job, JobStatusView, JobView};
use crate::scan_job;
use crate::text::{self, text_eq};
use crate::text_map::{self, TextMap};
use crate::time::{self, current_time, to_rfc3339, Timestamp};
use vstd::prelude::*;
use vstd::string::StringExecFns;

verus! {

/// What the Jobs of a resource have come to.
#[derive(Debug, Clone, PartialEq, Eq)]
pub enum AggregatedOutcome {
    /// Every Job has succeeded: one image for each Job that tells its image and hash.
    AllSucceeded { scanned: Vec<ScannedImage> },
    /// At least one Job has failed for good: the image of the first of them.
    AnyFailed { image_ref: String },
    /// There is no Job, or some Job has neither succeeded nor failed for good.
    StillRunning,
}

/// The view of an [`AggregatedOutcome`].
#[verifier::ext_equal]
pub ghost enum AggregatedOutcomeView {
    AllSucceeded { scanned: Seq<ScannedImageView> },
    AnyFailed { image_ref: Seq<char> },
    StillRunning,
}

impl DeepView for AggregatedOutcome {
    type V = AggregatedOutcomeView;

    open spec fn deep_view(&self) -> AggregatedOutcomeView {
        match self {
            AggregatedOutcome::AllSucceeded { scanned } => AggregatedOutcomeView::AllSucceeded {
                scanned: scanned.deep_view(),
            },
            AggregatedOutcome::AnyFailed { image_ref } => AggregatedOutcomeView::AnyFailed {
                image_ref: image_ref@,
            },
            AggregatedOutcome::StillRunning => AggregatedOutcomeView::StillRunning,
        }
    }
}

/// The number of succeeded pods that a Job reports, zero if it reports none.
pub open spec fn succeeded_pods(job: JobView) -> int {
    match job.status {
        Some(status) => match status.succeeded {
            Some(n) => n as int,
            None => 0,
        },
        None => 0,
    }
}

/// The number of failed pods that a Job reports, zero if it reports none.
pub open spec fn failed_pods(job: JobView) -> int {
    match job.status {
        Some(status) => match status.failed {
            Some(n) => n as int,
            None => 0,
        },
        None => 0,
    }
}

/// The number of failed pods that a Job tolerates: six if it does not say.
pub open spec fn tolerated_failures(job: JobView) -> int {
    match job.spec {
        Some(spec) => match spec.backoff_limit {
            Some(n) => n as int,
            None => 6,
        },
        None => 6,
    }
}

/// A Job has succeeded if one of its pods has.
pub open spec fn job_succeeded(job: JobView) -> bool {
    succeeded_pods(job) >= 1
}

/// A Job has failed for good if one pod more has failed than it tolerates.
pub open spec fn job_finally_failed(job: JobView) -> bool {
    failed_pods(job) >= tolerated_failures(job) + 1
}

/// Whether a Job has succeeded.
pub fn is_job_succeeded(job: &Job) -> (r: bool)
    ensures
        r == job_succeeded(job.deep_view()),
{
    match &job.status {
        Some(status) => match status.succeeded {
            Some(n) => n >= 1,
            None => false,
        },
        None => false,
    }
}

/// Whether a Job has failed for good.
pub fn is_job_finally_failed(job: &Job) -> (r: bool)
    ensures
        r == job_finally_failed(job.deep_view()),
{
    let failed: i32 = match &job.status {
        Some(status) => match status.failed {
            Some(n) => n,
            None => 0,
        },
        None => 0,
    };
    let backoff_limit: i32 = match &job.spec {
        Some(spec) => match spec.backoff_limit {
            Some(n) => n,
            None => 6,
        },
        None => 6,
    };
    failed > backoff_limit
}

/// The first container of that name.
pub open spec fn first_container(
    containers: Seq<ContainerView>,
    name: Seq<char>,
) -> Option<ContainerView>
    decreases containers.len(),
{
    if containers.len() == 0 {
        None
    } else if containers.first().name == name {
        Some(containers.first())
    } else {
        first_container(containers.drop_first(), name)
    }
}

/// The first environment variable of that name.
pub open spec fn first_env(env: Seq<EnvVarView>, name: Seq<char>) -> Option<EnvVarView>
    decreases env.len(),
{
    if env.len() == 0 {
        None
    } else if env.first().name == name {
        Some(env.first())
    } else {
        first_env(env.drop_first(), name)
    }
}

/// The image that a Job scans: the value of `IMAGE_REF` in the environment of its first
/// `init-pull` container.
pub open spec fn job_image(job: JobView) -> Option<Seq<char>> {
    match job.spec {
        None => None,
        Some(spec) => match spec.template.spec {
            None => None,
            Some(pod) => match pod.init_containers {
                None => None,
                Some(containers) => match first_container(containers, "init-pull"@) {
                    None => None,
                    Some(container) => match container.env {
                        None => None,
                        Some(env) => match first_env(env, "IMAGE_REF"@) {
                            None => None,
                            Some(entry) => entry.value,
                        },
                    },
                },
            },
        },
    }
}

fn find_container<'a>(containers: &'a Vec<Container>, name: &str) -> (r: Option<&'a Container>)
    ensures
        r.deep_view() == first_container(containers.deep_view(), name@),
{
    let ghost views = containers.deep_view();
    let mut i: usize = 0;
    assert(views.skip(0) =~= views);
    while i < containers.len()
        invariant
            i <= containers.len(),
            views == containers.deep_view(),
            first_container(views, name@) == first_container(views.skip(i as int), name@),
        decreases containers.len() - i,
    {
        assert(views.skip(i as int).first() == containers@[i as int].deep_view());
        assert(views.skip(i as int).drop_first() =~= views.skip(i + 1));
        if text_eq(containers[i].name.as_str(), name) {
            return Some(&containers[i]);
        }
        i += 1;
    }
    None
}

fn find_env<'a>(env: &'a Vec<EnvVar>, name: &str) -> (r: Option<&'a EnvVar>)
    ensures
        r.deep_view() == first_env(env.deep_view(), name@),
{
    let ghost views = env.deep_view();
    let mut i: usize = 0;
    assert(views.skip(0) =~= views);
    while i < env.len()
        invariant
            i <= env.len(),
            views == env.deep_view(),
            first_env(views, name@) == first_env(views.skip(i as int), name@),
        decreases env.len() - i,
    {
        assert(views.skip(i as int).first() == env@[i as int].deep_view());
        assert(views.skip(i as int).drop_first() =~= views.skip(i + 1));
        if text_eq(env[i].name.as_str(), name) {
            return Some(&env[i]);
        }
        i += 1;
    }
    None
}

/// Reads the image that a Job scans.
pub fn extract_image_ref_from_job(job: &Job) -> (r: Option<String>)
    ensures
        r.deep_view() == job_image(job.deep_view()),
{
    match &job.spec {
        None => None,
        Some(spec) => match &spec.template.spec {
            None => None,
            Some(pod) => match &pod.init_containers {
                None => None,
                Some(containers) => match find_container(containers, "init-pull") {
                    None => None,
                    Some(container) => match &container.env {
                        None => None,
                        Some(env) => match find_env(env, "IMAGE_REF") {
                            None => None,
                            Some(entry) => entry.value.clone(),
                        },
                    },
                },
            },
        },
    }
}

/// The path of an SBOM file below a root, with a prefix if that is not blank.
pub open spec fn file_location(
    scheme: Seq<char>,
    root: Seq<char>,
    path_prefix: Option<String>,
    short_hash: Seq<char>,
) -> Seq<char> {
    let prefix = match path_prefix {
        Some(prefix) => text::trimmed(prefix@),
        None => Seq::empty(),
    };
    if prefix.len() == 0 {
        scheme + text::trimmed(root) + "/"@ + short_hash + ".json"@
    } else {
        scheme + text::trimmed(root) + "/"@ + prefix + "/"@ + short_hash + ".json"@
    }
}

/// Where the SBOM of the image with a short hash is.
pub open spec fn sbom_location(spec: NamespaceScanSpec, short_hash: Seq<char>) -> Seq<char> {
    match spec.output.backend_type {
        OutputType::Pvc => match spec.output.pvc {
            Some(pvc) => file_location("pvc://"@, pvc.claim_name@, pvc.path_prefix, short_hash),
            None => "pvc://unknown"@,
        },
        OutputType::S3 => match spec.output.s3 {
            Some(s3) => file_location("s3://"@, s3.bucket@, s3.path_prefix, short_hash),
            None => "s3://unknown"@,
        },
        OutputType::Oci => match spec.output.oci {
            Some(oci) => "oci://"@ + text::trimmed(oci.registry@) + "/"@
                + text::trimmed(oci.repository@) + ":"@ + short_hash,
            None => "oci://unknown"@,
        },
    }
}

fn build_file_location(
    scheme: &str,
    root: &str,
    path_prefix: &Option<String>,
    short_hash: &str,
) -> (r: String)
    ensures
        r@ == file_location(scheme@, root@, *path_prefix, short_hash@),
{
    let mut url = scheme.to_owned();
    url.append(root.trim());
    url.append("/");
    if let Some(text) = path_prefix {
        let prefix = text.as_str().trim();
        if !prefix.is_empty() {
            url.append(prefix);
            url.append("/");
        }
    }
    url.append(short_hash);
    url.append(".json");
    url
}

/// Derives the URL of an SBOM from the output of the resource and the short hash of the image. If
/// the block for the kind of output is absent, it is `<kind>://unknown`.
pub fn derive_sbom_location(spec: &NamespaceScanSpec, short_hash: &str) -> (r: String)
    ensures
        r@ == sbom_location(*spec, short_hash@),
{
    match spec.output.backend_type {
        OutputType::Pvc => match &spec.output.pvc {
            Some(pvc) => build_file_location(
                "pvc://",
                pvc.claim_name.as_str(),
                &pvc.path_prefix,
                short_hash,
            ),
            None => "pvc://unknown".to_owned(),
        },
        OutputType::S3 => match &spec.output.s3 {
            Some(s3) => build_file_location(
                "s3://",
                s3.bucket.as_str(),
                &s3.path_prefix,
                short_hash,
            ),
            None => "s3://unknown".to_owned(),
        },
        OutputType::Oci => match &spec.output.oci {
            Some(oci) => {
                let mut url = "oci://".to_owned();
                url.append(oci.registry.as_str().trim());
                url.append("/");
                url.append(oci.repository.as_str().trim());
                url.append(":");
                url.append(short_hash);
                url
            },
            None => "oci://unknown".to_owned(),
        },
    }
}

// ---------------------------------------------------------------------------------------------
// Merging.
// ---------------------------------------------------------------------------------------------

/// The last entry for an image.
pub open spec fn latest_entry(
    entries: Seq<ScannedImageView>,
    image_ref: Seq<char>,
) -> Option<ScannedImageView>
    decreases entries.len(),
{
    if entries.len() == 0 {
        None
    } else if entries.last().image_ref == image_ref {
        Some(entries.last())
    } else {
        latest_entry(entries.drop_last(), image_ref)
    }
}

/// The images of some entries, in their order.
pub open spec fn entry_images(entries: Seq<ScannedImageView>) -> Seq<Seq<char>> {
    Seq::new(entries.len(), |i: int| entries[i].image_ref)
}

/// `merged` holds the last entry for each image of `entries`, sorted by image.
pub open spec fn is_merge(entries: Seq<ScannedImageView>, merged: Seq<ScannedImageView>) -> bool {
    &&& text_map::ascending(entry_images(merged))
    &&& forall|image: Seq<char>| #[trigger]
        entry_images(merged).contains(image) <==> latest_entry(entries, image) is Some
    &&& forall|i: int|
        0 <= i < merged.len() ==> Some(#[trigger] merged[i]) == latest_entry(
            entries,
            merged[i].image_ref,
        )
}

/// The map holds the last entry for each image.
spec fn indexes(map: Map<Seq<char>, ScannedImage>, entries: Seq<ScannedImageView>) -> bool {
    forall|image: Seq<char>|
        match #[trigger] latest_entry(entries, image) {
            Some(entry) => map.contains_key(image) && map[image].deep_view() == entry,
            None => !map.contains_key(image),
        }
}

fn index_entry(
    by_ref: &mut TextMap<ScannedImage>,
    entry: ScannedImage,
    Ghost(entries): Ghost<Seq<ScannedImageView>>,
)
    requires
        indexes(old(by_ref)@, entries),
    ensures
        indexes(final(by_ref)@, entries.push(entry.deep_view())),
{
    by_ref.insert(entry.image_ref.clone(), entry);
    proof {
        let next = entries.push(entry.deep_view());
        assert forall|image: Seq<char>|
            match #[trigger] latest_entry(next, image) {
                Some(found) => by_ref@.contains_key(image) && by_ref@[image].deep_view() == found,
                None => !by_ref@.contains_key(image),
            } by {
            assert(next.drop_last() =~= entries);
            assert(match latest_entry(entries, image) {
                Some(found) => old(by_ref)@.contains_key(image) && old(by_ref)@[image].deep_view()
                    == found,
                None => !old(by_ref)@.contains_key(image),
            });
        }
    }
}

/// Merges `newly_completed` into `existing`: no image is dropped, the newest entry for an image
/// wins, and the result is sorted by image.
pub fn merge_scanned_images_append_only(
    existing: &[ScannedImage],
    newly_completed: Vec<ScannedImage>,
) -> (r: Vec<ScannedImage>)
    ensures
        is_merge(existing.deep_view() + newly_completed.deep_view(), r.deep_view()),
{
    let ghost old_views = existing.deep_view();
    let ghost new_views = newly_completed.deep_view();
    let ghost all = old_views + new_views;
    let mut by_ref: TextMap<ScannedImage> = TextMap::new();
    let mut i: usize = 0;
    while i < existing.len()
        invariant
            i <= existing.len(),
            old_views == existing.deep_view(),
            indexes(by_ref@, old_views.take(i as int)),
        decreases existing.len() - i,
    {
        index_entry(&mut by_ref, existing[i].clone(), Ghost(old_views.take(i as int)));
        assert(old_views.take(i as int).push(existing@[i as int].deep_view()) =~= old_views.take(
            i + 1,
        ));
        i += 1;
    }
    assert(old_views.take(i as int) =~= all.take(old_views.len() as int));
    let mut rest = newly_completed;
    let ghost done: int = 0;
    while rest.len() > 0
        invariant
            0 <= done <= new_views.len(),
            rest.deep_view() == new_views.skip(done),
            all == old_views + new_views,
            indexes(by_ref@, all.take(old_views.len() + done)),
        decreases rest.len(),
    {
        let ghost left = rest@;
        assert(new_views.skip(done).len() == left.len());
        assert(new_views.skip(done)[0] == left[0].deep_view());
        let entry = rest.remove(0);
        index_entry(&mut by_ref, entry, Ghost(all.take(old_views.len() + done)));
        proof {
            assert(all.take(old_views.len() + done).push(entry.deep_view()) =~= all.take(
                old_views.len() + done + 1,
            ));
            assert forall|j: int| 0 <= j < rest@.len() implies rest@[j].deep_view()
                == new_views.skip(done + 1)[j] by {
                assert(new_views.skip(done)[j + 1] == left[j + 1].deep_view());
            }
            done = done + 1;
            assert(rest.deep_view() =~= new_views.skip(done));
        }
    }
    assert(all.take(old_views.len() + done) =~= all);
    let ghost map = by_ref;
    let merged = by_ref.into_values();
    proof {
        let keys = map.keys();
        let views = merged.deep_view();
        assert forall|j: int| 0 <= j < merged@.len() implies Some(#[trigger] views[j])
            == latest_entry(all, views[j].image_ref) && views[j].image_ref == keys[j] by {
            assert(keys.to_set().contains(keys[j]));
            assert(map@.contains_key(keys[j]));
            lemma_latest_entry(all, keys[j]);
        }
        assert(entry_images(views) =~= keys);
        assert forall|image: Seq<char>| #[trigger]
            entry_images(views).contains(image) <==> latest_entry(all, image) is Some by {
            assert(keys.to_set().contains(image) == map@.contains_key(image));
        }
    }
    merged
}

/// The last entry for an image is an entry for that image.
proof fn lemma_latest_entry(entries: Seq<ScannedImageView>, image: Seq<char>)
    ensures
        latest_entry(entries, image) matches Some(entry) ==> entry.image_ref == image
            && entries.contains(entry),
    decreases entries.len(),
{
    if entries.len() > 0 {
        if entries.last().image_ref == image {
            assert(entries[entries.len() - 1] == entries.last());
        } else {
            lemma_latest_entry(entries.drop_last(), image);
            if let Some(entry) = latest_entry(entries.drop_last(), image) {
                let i = entries.drop_last().index_of(entry);
                assert(entries[i] == entry);
            }
        }
    }
}

// ---------------------------------------------------------------------------------------------
// Aggregating.
// ---------------------------------------------------------------------------------------------

/// The time at which a Job was completed, or `now` if it does not say.
pub open spec fn completion_text(completion_time: Option<Timestamp>, now: Timestamp) -> Seq<char> {
    match completion_time {
        Some(t) => time::rfc3339_text(t.seconds(), t.nanos()),
        None => time::rfc3339_text(now.seconds(), now.nanos()),
    }
}

/// What a Job says about the image that it has scanned. Nothing, if the Job does not tell its
/// image, has no label with the short hash of the image, or has no status.
pub open spec fn scanned_image(
    job: JobView,
    spec: NamespaceScanSpec,
    now: Timestamp,
) -> Option<ScannedImageView> {
    match (job_image(job), job.metadata.labels, job.status) {
        (Some(image_ref), Some(labels), Some(status)) => if labels.contains_key(
            "kusari.dev/image-ref-hash"@,
        ) {
            Some(
                ScannedImageView {
                    image_ref,
                    resolved_sha: None,
                    sbom_location: sbom_location(spec, labels["kusari.dev/image-ref-hash"@]),
                    completed_at: completion_text(status.completion_time, now),
                },
            )
        } else {
            None
        },
        _ => None,
    }
}

/// What some Jobs say about the images that they have scanned, in the order of the Jobs.
pub open spec fn scanned_images(
    jobs: Seq<JobView>,
    spec: NamespaceScanSpec,
    now: Timestamp,
) -> Seq<ScannedImageView>
    decreases jobs.len(),
{
    if jobs.len() == 0 {
        Seq::empty()
    } else {
        let front = scanned_images(jobs.drop_last(), spec, now);
        match scanned_image(jobs.last(), spec, now) {
            Some(image) => front.push(image),
            None => front,
        }
    }
}

/// The first Job that has failed for good.
pub open spec fn first_failed(jobs: Seq<JobView>) -> Option<JobView>
    decreases jobs.len(),
{
    if jobs.len() == 0 {
        None
    } else if job_finally_failed(jobs.first()) {
        Some(jobs.first())
    } else {
        first_failed(jobs.drop_first())
    }
}

/// What the Jobs of a resource have come to. Failure comes first; a resource without Jobs is
/// still running.
pub open spec fn outcome_of(
    jobs: Seq<JobView>,
    spec: NamespaceScanSpec,
    now: Timestamp,
) -> AggregatedOutcomeView {
    if first_failed(jobs) is Some {
        AggregatedOutcomeView::AnyFailed {
            image_ref: match job_image(first_failed(jobs)->0) {
                Some(image_ref) => image_ref,
                None => "<unknown>"@,
            },
        }
    } else if jobs.len() > 0 && forall|i: int|
        0 <= i < jobs.len() ==> job_succeeded(#[trigger] jobs[i]) {
        AggregatedOutcomeView::AllSucceeded { scanned: scanned_images(jobs, spec, now) }
    } else {
        AggregatedOutcomeView::StillRunning
    }
}

/// Reads what a Job says about the image that it has scanned.
fn scanned_image_from_job(job: &Job, spec: &NamespaceScanSpec, now: &Timestamp) -> (r: Option<
    ScannedImage,
>)
    ensures
        r.deep_view() == scanned_image(job.deep_view(), *spec, *now),
{
    let image_ref = match extract_image_ref_from_job(job) {
        Some(image_ref) => image_ref,
        None => {
            return None;
        },
    };
    let short_hash = match &job.metadata.labels {
        Some(labels) => match labels.get("kusari.dev/image-ref-hash") {
            Some(hash) => hash,
            None => {
                return None;
            },
        },
        None => {
            return None;
        },
    };
    let completed_at = match &job.status {
        Some(status) => match &status.completion_time {
            Some(t) => to_rfc3339(t),
            None => to_rfc3339(now),
        },
        None => {
            return None;
        },
    };
    let sbom_location = derive_sbom_location(spec, short_hash.as_str());
    Some(ScannedImage { image_ref, resolved_sha: None, sbom_location, completed_at })
}

fn find_failed(jobs: &[Job]) -> (r: Option<&Job>)
    ensures
        r.deep_view() == first_failed(jobs.deep_view()),
{
    let ghost views = jobs.deep_view();
    let mut i: usize = 0;
    assert(views.skip(0) =~= views);
    while i < jobs.len()
        invariant
            i <= jobs.len(),
            views == jobs.deep_view(),
            first_failed(views) == first_failed(views.skip(i as int)),
        decreases jobs.len() - i,
    {
        assert(views.skip(i as int).first() == jobs@[i as int].deep_view());
        assert(views.skip(i as int).drop_first() =~= views.skip(i + 1));
        if is_job_finally_failed(&jobs[i]) {
            return Some(&jobs[i]);
        }
        i += 1;
    }
    None
}

fn all_succeeded(jobs: &[Job]) -> (r: bool)
    ensures
        r == forall|i: int|
            0 <= i < jobs.deep_view().len() ==> job_succeeded(#[trigger] jobs.deep_view()[i]),
{
    let mut i: usize = 0;
    while i < jobs.len()
        invariant
            i <= jobs.len(),
            forall|j: int| 0 <= j < i ==> job_succeeded(#[trigger] jobs.deep_view()[j]),
        decreases jobs.len() - i,
    {
        if !is_job_succeeded(&jobs[i]) {
            assert(!job_succeeded(jobs.deep_view()[i as int]));
            return false;
        }
        i += 1;
    }
    true
}

/// Makes one outcome of the Jobs of a resource, as seen at `now`.
pub fn aggregate_job_outcomes_at(
    jobs: &[Job],
    spec: &NamespaceScanSpec,
    now: &Timestamp,
) -> (r: AggregatedOutcome)
    ensures
        r.deep_view() == outcome_of(jobs.deep_view(), *spec, *now),
{
    if jobs.len() == 0 {
        return AggregatedOutcome::StillRunning;
    }
    if let Some(failed) = find_failed(jobs) {
        let image_ref = match extract_image_ref_from_job(failed) {
            Some(image_ref) => image_ref,
            None => "<unknown>".to_owned(),
        };
        return AggregatedOutcome::AnyFailed { image_ref };
    }
    if all_succeeded(jobs) {
        let ghost views = jobs.deep_view();
        let mut scanned: Vec<ScannedImage> = Vec::new();
        let mut i: usize = 0;
        assert(scanned.deep_view() =~= scanned_images(views.take(0), *spec, *now));
        while i < jobs.len()
            invariant
                i <= jobs.len(),
                views == jobs.deep_view(),
                scanned.deep_view() == scanned_images(views.take(i as int), *spec, *now),
            decreases jobs.len() - i,
        {
            let ghost before = scanned.deep_view();
            proof {
                assert(views.take(i + 1).drop_last() =~= views.take(i as int));
                assert(views.take(i + 1).last() == jobs@[i as int].deep_view());
            }
            if let Some(image) = scanned_image_from_job(&jobs[i], spec, now) {
                scanned.push(image);
                assert(scanned.deep_view() =~= before.push(image.deep_view()));
            }
            i += 1;
        }
        assert(views.take(i as int) =~= views);
        return AggregatedOutcome::AllSucceeded { scanned };
    }
    AggregatedOutcome::StillRunning
}

/// Makes one outcome of the Jobs of a resource. A Job that does not tell when it was completed is
/// taken to be completed now.
pub fn aggregate_job_outcomes(jobs: &[Job], spec: &NamespaceScanSpec) -> (r: AggregatedOutcome)
    ensures
        exists|now: Timestamp| r.deep_view() == #[trigger] outcome_of(jobs.deep_view(), *spec, now),
{
    let now = current_time();
    aggregate_job_outcomes_at(jobs, spec, &now)
}

/// The label selector that picks the Jobs of a resource.
pub open spec fn owned_jobs_selector_text(cr_name: Seq<char>) -> Seq<char> {
    "kusari.dev/namespace-scan="@ + cr_name
}

/// The label selector that picks the Jobs of a resource.
pub fn owned_jobs_selector(cr_name: &str) -> (r: String)
    ensures
        r@ == owned_jobs_selector_text(cr_name@),
{
    let mut selector = "kusari.dev/namespace-scan=".to_owned();
    selector.append(cr_name);
    selector
}

// ---------------------------------------------------------------------------------------------
// Laws.
// ---------------------------------------------------------------------------------------------

/// A merge is determined by the entries that are merged.
pub proof fn merge_is_unique(
    entries: Seq<ScannedImageView>,
    a: Seq<ScannedImageView>,
    b: Seq<ScannedImageView>,
)
    requires
        is_merge(entries, a),
        is_merge(entries, b),
    ensures
        a == b,
{
    assert(entry_images(a).to_set() =~= entry_images(b).to_set()) by {
        assert forall|image: Seq<char>| #[trigger]
            entry_images(a).contains(image) == entry_images(b).contains(image) by {}
    }
    text_map::ascending_is_unique(entry_images(a), entry_images(b));
    assert forall|i: int| 0 <= i < a.len() implies a[i] == b[i] by {
        assert(entry_images(a)[i] == entry_images(b)[i]);
    }
    assert(a =~= b);
}

/// Merging never drops an image: each image of either list is in the merge, and no other is.
pub proof fn merge_is_append_only(
    existing: Seq<ScannedImageView>,
    newly_completed: Seq<ScannedImageView>,
    merged: Seq<ScannedImageView>,
    image: Seq<char>,
)
    requires
        is_merge(existing + newly_completed, merged),
    ensures
        entry_images(merged).contains(image) <==> entry_images(existing).contains(image)
            || entry_images(newly_completed).contains(image),
{
    let all = existing + newly_completed;
    latest_entry_is_found(all, image);
    if entry_images(existing).contains(image) {
        let i = entry_images(existing).index_of(image);
        assert(entry_images(all)[i] == image);
    }
    if entry_images(newly_completed).contains(image) {
        let i = entry_images(newly_completed).index_of(image);
        assert(entry_images(all)[i + existing.len()] == image);
    }
    if entry_images(all).contains(image) {
        let i = entry_images(all).index_of(image);
        if i < existing.len() {
            assert(entry_images(existing)[i] == image);
        } else {
            assert(entry_images(newly_completed)[i - existing.len()] == image);
        }
    }
}

/// There is a last entry for an image exactly if there is any.
pub proof fn latest_entry_is_found(entries: Seq<ScannedImageView>, image: Seq<char>)
    ensures
        latest_entry(entries, image) is Some <==> entry_images(entries).contains(image),
    decreases entries.len(),
{
    if entries.len() > 0 {
        latest_entry_is_found(entries.drop_last(), image);
        assert(entry_images(entries).drop_last() =~= entry_images(entries.drop_last()));
        assert(entry_images(entries).last() == entries.last().image_ref);
        if entry_images(entries.drop_last()).contains(image) {
            let i = entry_images(entries.drop_last()).index_of(image);
            assert(entry_images(entries)[i] == image);
        }
        if entry_images(entries).contains(image) && entries.last().image_ref != image {
            let i = entry_images(entries).index_of(image);
            assert(entry_images(entries.drop_last())[i] == image);
        }
    }
}

/// The newest entry wins: the entry of the merge for an image is the last one among the newly
/// completed, and the last one among the existing only if there is none of those.
pub proof fn newest_entry_wins(
    existing: Seq<ScannedImageView>,
    newly_completed: Seq<ScannedImageView>,
    merged: Seq<ScannedImageView>,
    i: int,
)
    requires
        is_merge(existing + newly_completed, merged),
        0 <= i < merged.len(),
    ensures
        Some(merged[i]) == match latest_entry(newly_completed, merged[i].image_ref) {
            Some(entry) => Some(entry),
            None => latest_entry(existing, merged[i].image_ref),
        },
{
    lemma_latest_of_sum(existing, newly_completed, merged[i].image_ref);
}

proof fn lemma_latest_of_sum(a: Seq<ScannedImageView>, b: Seq<ScannedImageView>, image: Seq<char>)
    ensures
        latest_entry(a + b, image) == match latest_entry(b, image) {
            Some(entry) => Some(entry),
            None => latest_entry(a, image),
        },
    decreases b.len(),
{
    if b.len() == 0 {
        assert(a + b =~= a);
    } else {
        assert((a + b).drop_last() =~= a + b.drop_last());
        lemma_latest_of_sum(a, b.drop_last(), image);
    }
}

/// Merging the same entries once more changes nothing.
pub proof fn merge_is_idempotent(
    existing: Seq<ScannedImageView>,
    newly_completed: Seq<ScannedImageView>,
    once: Seq<ScannedImageView>,
    twice: Seq<ScannedImageView>,
)
    requires
        is_merge(existing + newly_completed, once),
        is_merge(once + newly_completed, twice),
    ensures
        twice == once,
{
    let all = existing + newly_completed;
    let again = once + newly_completed;
    assert forall|image: Seq<char>| latest_entry(again, image) == #[trigger] latest_entry(
        all,
        image,
    ) by {
        lemma_latest_of_sum(existing, newly_completed, image);
        lemma_latest_of_sum(once, newly_completed, image);
        lemma_latest_of_merge(all, once, image);
    }
    assert(is_merge(all, twice)) by {
        assert forall|image: Seq<char>| #[trigger]
            entry_images(twice).contains(image) <==> latest_entry(all, image) is Some by {
            assert(latest_entry(again, image) == latest_entry(all, image));
        }
        assert forall|i: int| 0 <= i < twice.len() implies Some(#[trigger] twice[i])
            == latest_entry(all, twice[i].image_ref) by {
            assert(latest_entry(again, twice[i].image_ref) == latest_entry(
                all,
                twice[i].image_ref,
            ));
        }
    }
    merge_is_unique(all, once, twice);
}

proof fn lemma_latest_of_merge(
    entries: Seq<ScannedImageView>,
    merged: Seq<ScannedImageView>,
    image: Seq<char>,
)
    requires
        is_merge(entries, merged),
    ensures
        latest_entry(merged, image) == latest_entry(entries, image),
{
    lemma_latest_entry(merged, image);
    latest_entry_is_found(merged, image);
    assert(entry_images(merged).contains(image) <==> latest_entry(entries, image) is Some);
    if let Some(entry) = latest_entry(merged, image) {
        let i = merged.index_of(entry);
        assert(Some(merged[i]) == latest_entry(entries, merged[i].image_ref));
    }
}

proof fn lemma_first_failed(jobs: Seq<JobView>)
    ensures
        first_failed(jobs) is Some <==> exists|i: int|
            0 <= i < jobs.len() && job_finally_failed(#[trigger] jobs[i]),
        first_failed(jobs) matches Some(job) ==> job_finally_failed(job) && jobs.contains(job),
    decreases jobs.len(),
{
    if jobs.len() > 0 {
        lemma_first_failed(jobs.drop_first());
        if job_finally_failed(jobs.first()) {
            assert(jobs[0] == jobs.first());
        } else {
            if let Some(job) = first_failed(jobs.drop_first()) {
                let i = jobs.drop_first().index_of(job);
                assert(jobs[i + 1] == job);
            }
            if exists|i: int| 0 <= i < jobs.len() && job_finally_failed(#[trigger] jobs[i]) {
                let i = choose|i: int| 0 <= i < jobs.len() && job_finally_failed(#[trigger] jobs[i]);
                assert(jobs.drop_first()[i - 1] == jobs[i]);
            }
        }
    }
}

/// Failure dominates: the outcome is a failure exactly if some Job has failed for good, whatever
/// the others have come to.
pub proof fn failure_dominates(jobs: Seq<JobView>, spec: NamespaceScanSpec, now: Timestamp)
    ensures
        outcome_of(jobs, spec, now) is AnyFailed <==> exists|i: int|
            0 <= i < jobs.len() && job_finally_failed(#[trigger] jobs[i]),
{
    lemma_first_failed(jobs);
}

/// A resource without Jobs is still running.
pub proof fn no_jobs_are_still_running(spec: NamespaceScanSpec, now: Timestamp)
    ensures
        outcome_of(Seq::empty(), spec, now) is StillRunning,
{
}

/// The outcome is a success exactly if there is a Job, every Job has succeeded, and none has
/// failed for good.
pub proof fn success_takes_every_job(jobs: Seq<JobView>, spec: NamespaceScanSpec, now: Timestamp)
    ensures
        outcome_of(jobs, spec, now) is AllSucceeded <==> jobs.len() > 0 && forall|i: int|
            0 <= i < jobs.len() ==> job_succeeded(#[trigger] jobs[i]) && !job_finally_failed(
                jobs[i],
            ),
{
    lemma_first_failed(jobs);
}

/// The Job that was built for an image tells that image, without the white space around it, and
/// its short hash.
pub proof fn built_job_tells_its_image(
    spec: NamespaceScanSpec,
    cr_name: Seq<char>,
    image_ref: Seq<char>,
)
    requires
        scan_job::scan_job(spec, cr_name, image_ref) is Ok,
    ensures
        ({
            let job = scan_job::scan_job(spec, cr_name, image_ref)->Ok_0;
            let image = text::trimmed(image_ref);
            &&& job_image(job) == Some(image)
            &&& job.metadata.labels->0.contains_key("kusari.dev/image-ref-hash"@)
            &&& job.metadata.labels->0["kusari.dev/image-ref-hash"@]
                == scan_job::image_hash(image)
        }),
{
    let job = scan_job::scan_job(spec, cr_name, image_ref)->Ok_0;
    let containers = job.spec->0.template.spec->0.init_containers->0;
    assert(containers.first().name == "init-pull"@);
    assert(containers.first().env->0.first().name == "IMAGE_REF"@);
}

/// The Job that was built for a resource has the label that the selector for the Jobs of that
/// resource asks for.
pub proof fn selector_picks_built_jobs(
    spec: NamespaceScanSpec,
    cr_name: Seq<char>,
    image_ref: Seq<char>,
)
    requires
        scan_job::scan_job(spec, cr_name, image_ref) is Ok,
    ensures
        ({
            let labels = scan_job::scan_job(spec, cr_name, image_ref)->Ok_0.metadata.labels;
            &&& labels->0.contains_key("kusari.dev/namespace-scan"@)
            &&& owned_jobs_selector_text(cr_name) == "kusari.dev/namespace-scan"@ + "="@
                + labels->0["kusari.dev/namespace-scan"@]
        }),
{
    reveal_strlit("kusari.dev/namespace-scan=");
    reveal_strlit("kusari.dev/namespace-scan");
    reveal_strlit("kusari.dev/image-ref-hash");
    reveal_strlit("=");
    assert("kusari.dev/namespace-scan="@ =~= "kusari.dev/namespace-scan"@ + "="@);
    assert("kusari.dev/namespace-scan"@[11] != "kusari.dev/image-ref-hash"@[11]);
}

/// When a Job that was built for an image has succeeded, the outcome lists that image, with the
/// location of the SBOM that the output of the resource and the hash of the image give.
pub proof fn success_lists_the_image_of_a_built_job(
    spec: NamespaceScanSpec,
    cr_name: Seq<char>,
    image_ref: Seq<char>,
    status: JobStatusView,
    now: Timestamp,
)
    requires
        scan_job::scan_job(spec, cr_name, image_ref) is Ok,
    ensures
        ({
            let built = scan_job::scan_job(spec, cr_name, image_ref)->Ok_0;
            let job = JobView { status: Some(status), ..built };
            let image = text::trimmed(image_ref);
            scanned_image(job, spec, now) == Some(
                ScannedImageView {
                    image_ref: image,
                    resolved_sha: None,
                    sbom_location: sbom_location(spec, scan_job::image_hash(image)),
                    completed_at: completion_text(status.completion_time, now),
                },
            )
        }),
{
    built_job_tells_its_image(spec, cr_name, image_ref);
}

} // verus!
