//! What holds of every scan Job.
use crate::crds::namespace_scan::{NamespaceScanSpec, OciOutput, ScanFormat};
use crate::digest;
use crate::k8s::{ContainerView, EnvVarView, JobView, PodSpecView};
use crate::text;
use vstd::prelude::*;

verus! {

/// A character of a DNS-1123 label.
pub open spec fn dns1123_char(c: char) -> bool {
    'a' <= c <= 'z' || '0' <= c <= '9' || c == '-'
}

/// A DNS-1123 label: at most 63 of the characters `[a-z0-9-]`, with no hyphen at either end.
pub open spec fn dns1123_label(s: Seq<char>) -> bool {
    &&& 0 < s.len() <= 63
    &&& s.first() != '-'
    &&& s.last() != '-'
    &&& forall|i: int| 0 <= i < s.len() ==> dns1123_char(#[trigger] s[i])
}

/// A text that needs no sanitizing: characters `[a-z0-9-]`, with no hyphen at either end and no
/// two in a row.
pub open spec fn clean(s: Seq<char>) -> bool {
    &&& s.len() > 0 ==> s.first() != '-' && s.last() != '-'
    &&& forall|i: int| 0 <= i < s.len() ==> dns1123_char(#[trigger] s[i])
    &&& forall|i: int| 0 <= i < s.len() - 1 && #[trigger] s[i] == '-' ==> s[i + 1] != '-'
}

proof fn lemma_collapsed_chars(s: Seq<char>)
    ensures
        forall|i: int|
            0 <= i < super::collapsed(s).len() ==> dns1123_char(#[trigger] super::collapsed(s)[i]),
{
    super::lemma_collapsed(s);
    assert forall|i: int| 0 <= i < super::collapsed(s).len() implies dns1123_char(
        #[trigger] super::collapsed(s)[i],
    ) by {
        let c = super::collapsed(s)[i];
        if 'A' <= c <= 'Z' {
            assert((c as int + 32) as char as int == c as int + 32);
        }
        assert(c == super::dns_char(c));
    }
}

proof fn lemma_without_trailing_hyphens(s: Seq<char>)
    ensures
        ({
            let t = super::without_trailing_hyphens(s);
            &&& t.len() <= s.len()
            &&& t == s.take(t.len() as int)
            &&& t.len() > 0 ==> t.last() != '-'
        }),
    decreases s.len(),
{
    if s.len() > 0 && s.last() == '-' {
        lemma_without_trailing_hyphens(s.drop_last());
        let t = super::without_trailing_hyphens(s);
        assert(s.drop_last().take(t.len() as int) =~= s.take(t.len() as int));
    } else {
        assert(s.take(s.len() as int) =~= s);
    }
}

/// Sanitizing gives a text that needs no sanitizing.
pub proof fn sanitized_is_clean(s: Seq<char>)
    ensures
        clean(super::sanitized(s)),
{
    super::lemma_collapsed(s);
    lemma_collapsed_chars(s);
    lemma_without_trailing_hyphens(super::collapsed(s));
    let t = super::sanitized(s);
    let full = super::collapsed(s);
    assert forall|i: int| 0 <= i < t.len() implies dns1123_char(#[trigger] t[i]) by {
        assert(t[i] == full[i]);
    }
    assert forall|i: int| 0 <= i < t.len() - 1 && #[trigger] t[i] == '-' implies t[i + 1] != '-' by {
        assert(full[i] == '-');
        assert(full[i + 1] == t[i + 1]);
    }
}

/// A text that needs no sanitizing is left as it is.
pub proof fn clean_is_kept(s: Seq<char>)
    requires
        clean(s),
    ensures
        super::sanitized(s) == s,
{
    lemma_collapsed_of_prefix(s, s.len() as int);
    assert(s.take(s.len() as int) =~= s);
}

proof fn lemma_collapsed_of_prefix(s: Seq<char>, n: int)
    requires
        clean(s),
        0 <= n <= s.len(),
    ensures
        super::collapsed(s.take(n)) == s.take(n),
    decreases n,
{
    if n > 0 {
        lemma_collapsed_of_prefix(s, n - 1);
        assert(s.take(n).drop_last() =~= s.take(n - 1));
        assert(s.take(n).last() == s[n - 1]);
        assert(dns1123_char(s[n - 1]));
        if n > 1 {
            assert(s.take(n - 1).last() == s[n - 2]);
            assert(s[n - 2] == '-' ==> s[(n - 2) + 1] != '-');
        }
        assert(s.take(n) =~= s.take(n - 1).push(s[n - 1]));
    } else {
        assert(s.take(0) =~= Seq::<char>::empty());
    }
}

/// Sanitizing twice is the same as sanitizing once.
pub proof fn sanitizing_is_idempotent(s: Seq<char>)
    ensures
        super::sanitized(super::sanitized(s)) == super::sanitized(s),
{
    sanitized_is_clean(s);
    clean_is_kept(super::sanitized(s));
}

/// A letter or a digit of ASCII.
pub open spec fn alphanumeric(c: char) -> bool {
    'A' <= c <= 'Z' || 'a' <= c <= 'z' || '0' <= c <= '9'
}

/// Every character is a letter or a digit.
pub open spec fn is_word(s: Seq<char>) -> bool {
    forall|i: int| 0 <= i < s.len() ==> alphanumeric(#[trigger] s[i])
}

/// No character is a letter or a digit.
pub open spec fn is_gap(s: Seq<char>) -> bool {
    forall|i: int| 0 <= i < s.len() ==> !alphanumeric(#[trigger] s[i])
}

proof fn lemma_dns_char(c: char)
    ensures
        super::dns_char(c) == '-' <==> !alphanumeric(c),
        'A' <= c <= 'Z' ==> super::dns_char(c) as int == c as int + 32,
        alphanumeric(c) && !('A' <= c <= 'Z') ==> super::dns_char(c) == c,
{
    if 'A' <= c <= 'Z' {
        assert((c as int + 32) as char as int == c as int + 32);
    }
}

/// A word stays, in lower case.
pub proof fn words_are_lowered(s: Seq<char>)
    requires
        is_word(s),
    ensures
        super::sanitized(s).len() == s.len(),
        forall|i: int|
            0 <= i < s.len() ==> (#[trigger] super::sanitized(s)[i]) as int == (if 'A' <= s[i]
                <= 'Z' {
                s[i] as int + 32
            } else {
                s[i] as int
            }),
{
    lemma_collapsed_word(s);
    if s.len() > 0 {
        lemma_dns_char(s.last());
        assert(super::collapsed(s).last() == super::dns_char(s.last()));
    }
    assert forall|i: int| 0 <= i < s.len() implies (#[trigger] super::sanitized(s)[i]) as int == (
    if 'A' <= s[i] <= 'Z' {
        s[i] as int + 32
    } else {
        s[i] as int
    }) by {
        lemma_dns_char(s[i]);
    }
}

proof fn lemma_collapsed_word(s: Seq<char>)
    requires
        is_word(s),
    ensures
        super::collapsed(s).len() == s.len(),
        forall|i: int|
            0 <= i < s.len() ==> #[trigger] super::collapsed(s)[i] == super::dns_char(s[i]),
    decreases s.len(),
{
    if s.len() > 0 {
        lemma_collapsed_word(s.drop_last());
        lemma_dns_char(s.last());
    }
}

/// What comes before the first word and behind the last one goes.
pub proof fn outer_gaps_go(before: Seq<char>, s: Seq<char>, behind: Seq<char>)
    requires
        is_gap(before),
        is_gap(behind),
    ensures
        super::sanitized(before + s + behind) == super::sanitized(s),
{
    lemma_leading_gap(before, s);
    lemma_gap(before + s, behind);
    let front = super::collapsed(s);
    if behind.len() > 0 && front.len() > 0 && front.last() != '-' {
        assert(front.push('-').drop_last() =~= front);
    }
}

proof fn lemma_leading_gap(before: Seq<char>, s: Seq<char>)
    requires
        is_gap(before),
    ensures
        super::collapsed(before + s) == super::collapsed(s),
    decreases s.len(),
{
    if s.len() == 0 {
        lemma_gap(Seq::empty(), before);
        assert(before + s =~= Seq::<char>::empty() + before);
    } else {
        assert((before + s).drop_last() =~= before + s.drop_last());
        lemma_leading_gap(before, s.drop_last());
    }
}

proof fn lemma_gap(s: Seq<char>, behind: Seq<char>)
    requires
        is_gap(behind),
    ensures
        ({
            let front = super::collapsed(s);
            super::collapsed(s + behind) == (if behind.len() == 0 || front.len() == 0
                || front.last() == '-' {
                front
            } else {
                front.push('-')
            })
        }),
    decreases behind.len(),
{
    if behind.len() == 0 {
        assert(s + behind =~= s);
    } else {
        assert((s + behind).drop_last() =~= s + behind.drop_last());
        lemma_gap(s, behind.drop_last());
        lemma_dns_char(behind.last());
    }
}

/// What stands between two texts of which the second starts with a word becomes one hyphen.
pub proof fn inner_gaps_become_hyphens(s: Seq<char>, gap: Seq<char>, t: Seq<char>)
    requires
        is_gap(gap),
        gap.len() > 0,
        t.len() > 0,
        alphanumeric(t[0]),
        super::sanitized(s).len() > 0,
    ensures
        super::sanitized(s + gap + t) == super::sanitized(s) + seq!['-'] + super::sanitized(t),
{
    let front = super::collapsed(s);
    let kept = super::sanitized(s);
    lemma_gap(s, gap);
    lemma_from_word(s + gap, t);
    super::lemma_collapsed(s);
    lemma_without_trailing_hyphens(front);
    if front.last() == '-' {
        let shorter = front.drop_last();
        assert(shorter.len() > 0 ==> shorter.last() == front[front.len() - 2]);
        assert(shorter.len() > 0 ==> shorter.last() != '-');
        assert(kept == super::without_trailing_hyphens(shorter));
        assert(front =~= kept + seq!['-']);
    } else {
        assert(front.push('-') =~= kept + seq!['-']);
    }
    assert(super::collapsed(s + gap) =~= kept + seq!['-']);
    lemma_dns_char(t[0]);
    lemma_starts_with_word(t);
    lemma_trailing_of_sum(kept + seq!['-'], super::collapsed(t));
}

proof fn lemma_starts_with_word(t: Seq<char>)
    requires
        t.len() > 0,
        alphanumeric(t[0]),
    ensures
        super::collapsed(t).len() > 0,
        super::collapsed(t)[0] == super::dns_char(t[0]),
    decreases t.len(),
{
    lemma_dns_char(t[0]);
    if t.len() > 1 {
        lemma_starts_with_word(t.drop_last());
    } else {
        assert(t.drop_last() =~= Seq::empty());
        assert(super::collapsed(t.drop_last()).len() == 0);
        assert(super::collapsed(t) == super::collapsed(t.drop_last()).push(super::dns_char(t[0])));
    }
}

proof fn lemma_from_word(s: Seq<char>, t: Seq<char>)
    requires
        t.len() > 0,
        alphanumeric(t[0]),
    ensures
        super::collapsed(s + t) == super::collapsed(s) + super::collapsed(t),
    decreases t.len(),
{
    lemma_dns_char(t[0]);
    assert((s + t).drop_last() =~= s + t.drop_last());
    if t.len() > 1 {
        lemma_from_word(s, t.drop_last());
        lemma_starts_with_word(t.drop_last());
        assert(super::collapsed(s + t) =~= super::collapsed(s) + super::collapsed(t));
    } else {
        assert(t.drop_last() =~= Seq::empty());
        assert(s + t.drop_last() =~= s);
        assert(super::collapsed(s + t) =~= super::collapsed(s) + super::collapsed(t));
    }
}

proof fn lemma_trailing_of_sum(s: Seq<char>, t: Seq<char>)
    requires
        t.len() > 0,
        t[0] != '-',
    ensures
        super::without_trailing_hyphens(s + t) == s + super::without_trailing_hyphens(t),
    decreases t.len(),
{
    if t.last() == '-' {
        assert((s + t).drop_last() =~= s + t.drop_last());
        lemma_trailing_of_sum(s, t.drop_last());
    }
}

/// A Job name holds the sanitized name of the resource between `nsscan-` and the hash: all of it if
/// it has at most 48 characters, and otherwise the first 48, or the first 47 if the last of those
/// would be a hyphen.
pub proof fn job_names_hold_the_name_of_the_resource(cr_name: Seq<char>, short_hash: Seq<char>)
    ensures
        ({
            let part = super::sanitized(cr_name);
            let kept = if part.len() <= 48 {
                part
            } else if part[47] != '-' {
                part.take(48)
            } else {
                part.take(47)
            };
            super::scan_job_name(cr_name, short_hash) == "nsscan-"@ + kept + "-"@ + short_hash
        }),
{
    let part = super::sanitized(cr_name);
    sanitized_is_clean(cr_name);
    if part.len() > 48 {
        assert(part.take(48).last() == part[47]);
        assert(part[46] == '-' ==> part[46int + 1] != '-');
        assert(part.take(48).drop_last() =~= part.take(47));
        assert(part.take(47).last() == part[46]);
        assert(part[46] != '-' ==> super::without_trailing_hyphens(part.take(47)) == part.take(47));
    }
}

/// The number that a hexadecimal digit stands for.
pub open spec fn digit_value(c: char) -> int {
    if '0' <= c <= '9' {
        c as int - '0' as int
    } else {
        c as int - 'a' as int + 10
    }
}

/// The digits of a digest are its first bytes, the upper half of each before the lower one.
pub proof fn hexadecimal_digits_make_the_bytes(bytes: Seq<u8>)
    requires
        bytes.len() >= 4,
    ensures
        ({
            let s = super::hex7(bytes);
            &&& s.len() == 7
            &&& 16 * digit_value(s[0]) + digit_value(s[1]) == bytes[0]
            &&& 16 * digit_value(s[2]) + digit_value(s[3]) == bytes[1]
            &&& 16 * digit_value(s[4]) + digit_value(s[5]) == bytes[2]
            &&& 16 * digit_value(s[6]) <= bytes[3] < 16 * digit_value(s[6]) + 16
            &&& forall|i: int|
                0 <= i < 7 ==> ('0' <= #[trigger] s[i] <= '9' || 'a' <= s[i] <= 'f')
        }),
{
    let s = super::hex7(bytes);
    assert forall|i: int| 0 <= i < 7 implies ({
        let n = if i % 2 == 0 {
            bytes[i / 2] as int / 16
        } else {
            bytes[i / 2] as int % 16
        };
        &&& digit_value(#[trigger] s[i]) == n
        &&& '0' <= s[i] <= '9' || 'a' <= s[i] <= 'f'
    }) by {
        let n = if i % 2 == 0 {
            bytes[i / 2] as int / 16
        } else {
            bytes[i / 2] as int % 16
        };
        assert(0 <= n < 16);
        assert(s[i] == super::hex_char(n));
        if n < 10 {
            assert((48 + n) as char as int == 48 + n);
        } else {
            assert((87 + n) as char as int == 87 + n);
        }
    }
}

/// The short hash of an image is that of the SHA-256 of its text in UTF-8.
pub proof fn image_hashes_are_digests(image_ref: Seq<char>)
    ensures
        super::image_hash(image_ref) == super::hex7(
            digest::sha256(vstd::utf8::encode_utf8(image_ref)),
        ),
{
}

/// The short hash of an image has seven characters, each of them `[0-9a-f]`.
pub proof fn image_hash_is_hexadecimal(image_ref: Seq<char>)
    ensures
        super::image_hash(image_ref).len() == 7,
        forall|i: int|
            0 <= i < 7 ==> ({
                let c = #[trigger] super::image_hash(image_ref)[i];
                '0' <= c <= '9' || 'a' <= c <= 'f'
            }),
{
    let digest = digest::text_sha256(image_ref);
    assert forall|i: int| 0 <= i < 7 implies ({
        let c = #[trigger] super::image_hash(image_ref)[i];
        '0' <= c <= '9' || 'a' <= c <= 'f'
    }) by {
        let n = if i % 2 == 0 {
            digest[i / 2] as int / 16
        } else {
            digest[i / 2] as int % 16
        };
        assert(0 <= n < 16);
        assert(super::image_hash(image_ref)[i] == super::hex_char(n));
        if n < 10 {
            assert((48 + n) as char as int == 48 + n);
        } else {
            assert((87 + n) as char as int == 87 + n);
        }
    }
}

/// Every Job name is a DNS-1123 label that starts with `nsscan-`, whatever the names of the
/// resource and of the image are.
pub proof fn job_name_is_dns1123(cr_name: Seq<char>, image_ref: Seq<char>)
    ensures
        dns1123_label(super::scan_job_name(cr_name, super::image_hash(image_ref))),
        "nsscan-"@.is_prefix_of(super::scan_job_name(cr_name, super::image_hash(image_ref))),
{
    let hash = super::image_hash(image_ref);
    let name = super::scan_job_name(cr_name, hash);
    let part = super::sanitized(cr_name);
    let kept = if part.len() > super::MAX_SANITIZED_LEN {
        part.take(super::MAX_SANITIZED_LEN as int)
    } else {
        part
    };
    let middle = super::without_trailing_hyphens(kept);
    sanitized_is_clean(cr_name);
    lemma_without_trailing_hyphens(kept);
    image_hash_is_hexadecimal(image_ref);
    reveal_strlit("nsscan-");
    reveal_strlit("-");
    assert(name.len() == 7 + middle.len() + 1 + 7);
    assert forall|i: int| 0 <= i < name.len() implies dns1123_char(#[trigger] name[i]) by {
        if i < 7 {
            assert(name[i] == "nsscan-"@[i]);
        } else if i < 7 + middle.len() {
            assert(name[i] == middle[i - 7]);
            assert(middle[i - 7] == part[i - 7]);
        } else if i == 7 + middle.len() {
            assert(name[i] == '-');
        } else {
            assert(name[i] == hash[i - 8 - middle.len()]);
        }
    }
    assert(name.first() == 'n');
    assert(name.last() == hash[6]);
    assert("nsscan-"@ =~= name.subrange(0, 7));
}

/// For one resource, two Jobs have the same name exactly if their images have the same short hash.
pub proof fn job_names_differ_by_hash(cr_name: Seq<char>, hash1: Seq<char>, hash2: Seq<char>)
    ensures
        super::scan_job_name(cr_name, hash1) == super::scan_job_name(cr_name, hash2) <==> hash1
            == hash2,
{
    let a = super::scan_job_name(cr_name, hash1);
    let b = super::scan_job_name(cr_name, hash2);
    let n = a.len() - hash1.len();
    assert(n == b.len() - hash2.len());
    if a == b {
        assert(hash1 =~= a.subrange(n, a.len() as int));
        assert(hash2 =~= b.subrange(n, b.len() as int));
    }
}

/// A built Job is named by `scan_job_name`, after the resource and the trimmed image.
pub proof fn built_job_has_the_job_name(
    spec: NamespaceScanSpec,
    cr_name: Seq<char>,
    image_ref: Seq<char>,
)
    requires
        super::scan_job(spec, cr_name, image_ref) is Ok,
    ensures
        super::scan_job(spec, cr_name, image_ref)->Ok_0.metadata.name == Some(
            super::scan_job_name(cr_name, super::image_hash(text::trimmed(image_ref))),
        ),
{
}

/// The pod of a built Job.
pub open spec fn pod_of(job: JobView) -> PodSpecView {
    job.spec->0.template.spec->0
}

/// A container that mounts the scratch volume at `/workdir`.
pub open spec fn mounts_workdir(c: ContainerView) -> bool {
    c.volume_mounts matches Some(mounts) && mounts.contains(
        super::plain_mount("workdir"@, "/workdir"@),
    )
}

/// A built Job runs `init-pull`, then `mikebom-scan`, then `output-upload`, and all of them share
/// the scratch volume.
pub proof fn three_containers_share_workdir(
    spec: NamespaceScanSpec,
    cr_name: Seq<char>,
    image_ref: Seq<char>,
)
    requires
        super::scan_job(spec, cr_name, image_ref) is Ok,
    ensures
        ({
            let pod = pod_of(super::scan_job(spec, cr_name, image_ref)->Ok_0);
            &&& pod.init_containers->0.len() == 2
            &&& pod.init_containers->0[0].name == "init-pull"@
            &&& pod.init_containers->0[1].name == "mikebom-scan"@
            &&& pod.containers.len() == 1
            &&& pod.containers[0].name == "output-upload"@
            &&& pod.volumes->0.contains(super::workdir_volume_view())
            &&& mounts_workdir(pod.init_containers->0[0])
            &&& mounts_workdir(pod.init_containers->0[1])
            &&& mounts_workdir(pod.containers[0])
        }),
{
    let pod = pod_of(super::scan_job(spec, cr_name, image_ref)->Ok_0);
    assert(pod.volumes->0[0] == super::workdir_volume_view());
    let mount = super::plain_mount("workdir"@, "/workdir"@);
    assert(pod.init_containers->0[0].volume_mounts->0[0] == mount);
    assert(pod.init_containers->0[1].volume_mounts->0[0] == mount);
    assert(pod.containers[0].volume_mounts->0[0] == mount);
}

/// The containers that handle the image see neither the output volume nor any credentials: the
/// scratch volume is all that they mount, and no Secret becomes part of their environment.
pub proof fn only_the_upload_sees_the_output(
    spec: NamespaceScanSpec,
    cr_name: Seq<char>,
    image_ref: Seq<char>,
    i: int,
    j: int,
)
    requires
        super::scan_job(spec, cr_name, image_ref) is Ok,
        0 <= i < 2,
    ensures
        ({
            let c = pod_of(super::scan_job(spec, cr_name, image_ref)->Ok_0).init_containers->0[i];
            &&& c.env_from is None
            &&& 0 <= j < c.volume_mounts->0.len() ==> {
                &&& c.volume_mounts->0[j].name == "workdir"@
                &&& c.volume_mounts->0[j].name != super::defaults::PVC_VOLUME_NAME@
                &&& c.volume_mounts->0[j].name != super::defaults::DOCKER_CONFIG_VOLUME_NAME@
            }
        }),
{
    reveal_strlit("workdir");
    reveal_strlit("pvc-output");
    reveal_strlit("oci-credentials");
    assert(super::defaults::PVC_VOLUME_NAME@.len() == 10);
    assert(super::defaults::DOCKER_CONFIG_VOLUME_NAME@.len() == 15);
}

/// A built Job runs one pod once, never restarts a container, tolerates at most three failures and
/// is removed within an hour after it has finished.
pub proof fn lifecycle_is_one_shot(
    spec: NamespaceScanSpec,
    cr_name: Seq<char>,
    image_ref: Seq<char>,
)
    requires
        super::scan_job(spec, cr_name, image_ref) is Ok,
    ensures
        ({
            let job = super::scan_job(spec, cr_name, image_ref)->Ok_0;
            &&& job.spec->0.completions == Some(1i32)
            &&& job.spec->0.parallelism == Some(1i32)
            &&& 0 <= job.spec->0.backoff_limit->0 <= 3
            &&& 0 < job.spec->0.ttl_seconds_after_finished->0 <= 3600
            &&& pod_of(job).restart_policy == Some("Never"@)
        }),
{
}

/// White space around an image reference makes no difference to the Job.
pub proof fn image_ref_is_trimmed(spec: NamespaceScanSpec, cr_name: Seq<char>, image_ref: Seq<char>)
    ensures
        super::scan_job(spec, cr_name, text::trimmed(image_ref)) == super::scan_job(
            spec,
            cr_name,
            image_ref,
        ),
{
    text::trimmed_is_trimmed(image_ref);
}

/// Whether a Job can be built, and why not, depends on the specification alone, as long as there
/// is an image.
pub proof fn outcome_depends_on_the_spec_alone(
    spec: NamespaceScanSpec,
    cr_name1: Seq<char>,
    image_ref1: Seq<char>,
    cr_name2: Seq<char>,
    image_ref2: Seq<char>,
)
    requires
        !super::blank(image_ref1),
        !super::blank(image_ref2),
    ensures
        super::scan_job(spec, cr_name1, image_ref1) is Ok <==> super::scan_job(
            spec,
            cr_name2,
            image_ref2,
        ) is Ok,
        super::scan_job(spec, cr_name1, image_ref1) is Err ==> super::scan_job(
            spec,
            cr_name1,
            image_ref1,
        )->Err_0 == super::scan_job(spec, cr_name2, image_ref2)->Err_0,
{
}

/// A path prefix loses at most its first character, and only if that is a slash.
pub proof fn at_most_one_slash_is_stripped(s: Seq<char>)
    ensures
        super::without_leading_slash(seq!['/'] + s) == s,
        s.len() > 0 && s.first() != '/' ==> super::without_leading_slash(s) == s,
{
    assert((seq!['/'] + s).drop_first() =~= s);
}

/// The value of the first environment variable of that name.
pub open spec fn env_value(env: Seq<EnvVarView>, name: Seq<char>) -> Option<Seq<char>>
    decreases env.len(),
{
    if env.len() == 0 {
        None
    } else if env.first().name == name {
        env.first().value
    } else {
        env_value(env.drop_first(), name)
    }
}

/// The text before the first closing parenthesis.
pub open spec fn before_parenthesis(s: Seq<char>) -> Seq<char>
    decreases s.len(),
{
    if s.len() == 0 || s.first() == ')' {
        Seq::empty()
    } else {
        seq![s.first()] + before_parenthesis(s.drop_first())
    }
}

/// An argument of a container with each `$(NAME)` replaced by the value of that environment
/// variable. One that is not set is left as it is.
pub open spec fn expanded(s: Seq<char>, env: Seq<EnvVarView>) -> Seq<char>
    decreases s.len(),
{
    if s.len() == 0 {
        s
    } else {
        let name = before_parenthesis(s.skip(2));
        if s.len() > name.len() + 2 && s[0] == '$' && s[1] == '(' && env_value(env, name) is Some {
            env_value(env, name)->0 + expanded(s.skip(name.len() as int + 3), env)
        } else {
            seq![s.first()] + expanded(s.drop_first(), env)
        }
    }
}

/// The text behind the first equals sign.
pub open spec fn after_equals(s: Seq<char>) -> Seq<char>
    decreases s.len(),
{
    if s.len() == 0 {
        s
    } else if s.first() == '=' {
        s.drop_first()
    } else {
        after_equals(s.drop_first())
    }
}

proof fn lemma_before_parenthesis(name: Seq<char>, rest: Seq<char>)
    requires
        forall|i: int| 0 <= i < name.len() ==> #[trigger] name[i] != ')',
    ensures
        before_parenthesis(name + seq![')'] + rest) == name,
    decreases name.len(),
{
    let s = name + seq![')'] + rest;
    if name.len() == 0 {
        assert(s.first() == ')');
        assert(name =~= Seq::empty());
    } else {
        assert(s.first() == name[0]);
        assert forall|i: int| 0 <= i < name.drop_first().len() implies #[trigger]
            name.drop_first()[i] != ')' by {
            assert(name[i + 1] != ')');
        }
        lemma_before_parenthesis(name.drop_first(), rest);
        assert(s.drop_first() =~= name.drop_first() + seq![')'] + rest);
        assert(name =~= seq![name[0]] + name.drop_first());
    }
}

proof fn lemma_variable_is_expanded(name: Seq<char>, rest: Seq<char>, env: Seq<EnvVarView>)
    requires
        forall|i: int| 0 <= i < name.len() ==> #[trigger] name[i] != ')',
        env_value(env, name) is Some,
    ensures
        expanded("$("@ + name + ")"@ + rest, env) == env_value(env, name)->0 + expanded(rest, env),
{
    reveal_strlit("$(");
    reveal_strlit(")");
    let s = "$("@ + name + ")"@ + rest;
    assert(s.skip(2) =~= name + seq![')'] + rest);
    lemma_before_parenthesis(name, rest);
    assert(s.skip(name.len() as int + 3) =~= rest);
}

proof fn lemma_plain_is_kept(plain: Seq<char>, rest: Seq<char>, env: Seq<EnvVarView>)
    requires
        forall|i: int| 0 <= i < plain.len() ==> #[trigger] plain[i] != '$',
    ensures
        expanded(plain + rest, env) == plain + expanded(rest, env),
    decreases plain.len(),
{
    if plain.len() == 0 {
        assert(plain + rest =~= rest);
        assert(plain + expanded(rest, env) =~= expanded(rest, env));
    } else {
        assert forall|i: int| 0 <= i < plain.drop_first().len() implies #[trigger]
            plain.drop_first()[i] != '$' by {
            assert(plain[i + 1] != '$');
        }
        lemma_plain_is_kept(plain.drop_first(), rest, env);
        assert((plain + rest)[0] == plain[0]);
        assert((plain + rest).drop_first() =~= plain.drop_first() + rest);
        assert(plain + expanded(rest, env) =~= seq![plain[0]] + (plain.drop_first() + expanded(
            rest,
            env,
        )));
    }
}

proof fn lemma_after_equals(before: Seq<char>, rest: Seq<char>)
    requires
        forall|i: int| 0 <= i < before.len() ==> #[trigger] before[i] != '=',
    ensures
        after_equals(before + "="@ + rest) == rest,
    decreases before.len(),
{
    reveal_strlit("=");
    let s = before + "="@ + rest;
    if before.len() == 0 {
        assert(s.drop_first() =~= rest);
    } else {
        assert(s.first() == before[0]);
        assert forall|i: int| 0 <= i < before.drop_first().len() implies #[trigger]
            before.drop_first()[i] != '=' by {
            assert(before[i + 1] != '=');
        }
        lemma_after_equals(before.drop_first(), rest);
        assert(s.drop_first() =~= before.drop_first() + "="@ + rest);
    }
}

/// The environment of the upload to an OCI registry has each of its variables once.
proof fn lemma_oci_environment(oci: OciOutput, short_hash: Seq<char>, format: ScanFormat)
    ensures
        ({
            let env = super::oci_upload_container(oci, short_hash, format).env->0;
            &&& env_value(env, "OCI_REGISTRY"@) == Some(oci.registry@)
            &&& env_value(env, "OCI_REPOSITORY"@) == Some(oci.repository@)
            &&& env_value(env, "IMAGE_HASH"@) == Some(short_hash)
            &&& env_value(env, "SBOM_EXT"@) == Some(super::format_args_of(format).1)
            &&& env_value(env, "DOCKER_CONFIG"@) == Some(super::defaults::DOCKER_CONFIG_MOUNT_PATH@)
        }),
{
    reveal_strlit("OCI_REGISTRY");
    reveal_strlit("OCI_REPOSITORY");
    reveal_strlit("IMAGE_HASH");
    reveal_strlit("SBOM_EXT");
    reveal_strlit("DOCKER_CONFIG");
    assert("OCI_REGISTRY"@.len() == 12);
    assert("OCI_REPOSITORY"@.len() == 14);
    assert("IMAGE_HASH"@.len() == 10);
    assert("SBOM_EXT"@.len() == 8);
    assert("DOCKER_CONFIG"@.len() == 13);
    let env = super::oci_upload_container(oci, short_hash, format).env->0;
    reveal_with_fuel(env_value, 5);
    assert(env.drop_first()[0] == env[1]);
    assert(env.drop_first().drop_first()[0] == env[2]);
    assert(env.drop_first().drop_first().drop_first()[0] == env[3]);
    assert(env.drop_first().drop_first().drop_first().drop_first()[0] == env[4]);
}

/// The upload to an OCI registry needs no shell, and pushes the very file that the scan writes: with
/// the variables replaced by their values, its arguments are `push`, the repository tagged with the
/// hash of the image, and the file that the scan names behind `--output`. It finds its credentials
/// where they are mounted, read-only.
pub proof fn oci_upload_pushes_the_scanned_file(
    oci: OciOutput,
    short_hash: Seq<char>,
    format: ScanFormat,
    mikebom_image: Seq<char>,
)
    ensures
        ({
            let upload = super::oci_upload_container(oci, short_hash, format);
            let scan = super::mikebom_scan_container(format, short_hash, mikebom_image);
            let env = upload.env->0;
            &&& upload.command is None
            &&& upload.args->0.len() == 3
            &&& expanded(upload.args->0[0], env) == "push"@
            &&& expanded(upload.args->0[1], env) == oci.registry@ + "/"@ + oci.repository@ + ":"@
                + short_hash
            &&& scan.args->0.len() == 8
            &&& scan.args->0[6] == "--output"@
            &&& expanded(upload.args->0[2], env) == after_equals(scan.args->0[7])
                + ":application/json"@
            &&& after_equals(scan.args->0[7]) == "/workdir/out/"@ + short_hash + "."@
                + super::format_args_of(format).1
            &&& env_value(env, "DOCKER_CONFIG"@) == Some(super::defaults::DOCKER_CONFIG_MOUNT_PATH@)
            &&& upload.volume_mounts->0.contains(super::oci_credentials_mount_view())
            &&& super::oci_credentials_mount_view().mount_path
                == super::defaults::DOCKER_CONFIG_MOUNT_PATH@
            &&& super::oci_credentials_mount_view().read_only == Some(true)
        }),
{
    let upload = super::oci_upload_container(oci, short_hash, format);
    let scan = super::mikebom_scan_container(format, short_hash, mikebom_image);
    let env = upload.env->0;
    let (format_arg, extension) = super::format_args_of(format);
    let none = Seq::<char>::empty();
    lemma_oci_environment(oci, short_hash, format);
    assert(upload.volume_mounts->0[1] == super::oci_credentials_mount_view());
    lemma_literals();

    assert("push"@ + none =~= "push"@);
    lemma_plain_is_kept("push"@, none, env);

    let tag = "$("@ + "IMAGE_HASH"@ + ")"@ + none;
    let repository = "$("@ + "OCI_REPOSITORY"@ + ")"@ + (":"@ + tag);
    assert(upload.args->0[1] =~= "$("@ + "OCI_REGISTRY"@ + ")"@ + ("/"@ + repository));
    lemma_variable_is_expanded("IMAGE_HASH"@, none, env);
    lemma_plain_is_kept(":"@, tag, env);
    lemma_variable_is_expanded("OCI_REPOSITORY"@, ":"@ + tag, env);
    lemma_plain_is_kept("/"@, repository, env);
    lemma_variable_is_expanded("OCI_REGISTRY"@, "/"@ + repository, env);
    assert(expanded(upload.args->0[1], env) =~= oci.registry@ + "/"@ + oci.repository@ + ":"@
        + short_hash);

    let media_type = ":application/json"@ + none;
    let ending = "$("@ + "SBOM_EXT"@ + ")"@ + media_type;
    let hash = "$("@ + "IMAGE_HASH"@ + ")"@ + ("."@ + ending);
    assert(upload.args->0[2] =~= "/workdir/out/"@ + hash);
    lemma_plain_is_kept(":application/json"@, none, env);
    lemma_variable_is_expanded("SBOM_EXT"@, media_type, env);
    lemma_plain_is_kept("."@, ending, env);
    lemma_variable_is_expanded("IMAGE_HASH"@, "."@ + ending, env);
    lemma_plain_is_kept("/workdir/out/"@, hash, env);
    let file = "/workdir/out/"@ + short_hash + "."@ + extension;
    assert(expanded(upload.args->0[2], env) =~= file + ":application/json"@);

    assert(scan.args->0[7] =~= format_arg + "="@ + file);
    lemma_after_equals(format_arg, file);
}

/// The characters of the literals in the arguments.
proof fn lemma_literals()
    ensures
        "$(OCI_REGISTRY)/$(OCI_REPOSITORY):$(IMAGE_HASH)"@ == "$("@ + "OCI_REGISTRY"@ + ")"@ + (
        "/"@ + ("$("@ + "OCI_REPOSITORY"@ + ")"@ + (":"@ + ("$("@ + "IMAGE_HASH"@ + ")"@
            + Seq::<char>::empty())))),
        "/workdir/out/$(IMAGE_HASH).$(SBOM_EXT):application/json"@ == "/workdir/out/"@ + ("$("@
            + "IMAGE_HASH"@ + ")"@ + ("."@ + ("$("@ + "SBOM_EXT"@ + ")"@ + (":application/json"@
            + Seq::<char>::empty())))),
        "=/workdir/out/"@ == "="@ + "/workdir/out/"@,
        plain("push"@),
        plain("/"@),
        plain(":"@),
        plain("."@),
        plain("/workdir/out/"@),
        plain(":application/json"@),
        plain("OCI_REGISTRY"@),
        plain("OCI_REPOSITORY"@),
        plain("IMAGE_HASH"@),
        plain("SBOM_EXT"@),
        plain("cyclonedx-json"@),
        plain("spdx-2.3-json"@),
        plain("spdx-3-json"@),
{
    reveal_strlit("$(OCI_REGISTRY)/$(OCI_REPOSITORY):$(IMAGE_HASH)");
    reveal_strlit("/workdir/out/$(IMAGE_HASH).$(SBOM_EXT):application/json");
    reveal_strlit("=/workdir/out/");
    reveal_strlit("=");
    reveal_strlit("$(");
    reveal_strlit(")");
    reveal_strlit("push");
    reveal_strlit("/");
    reveal_strlit(":");
    reveal_strlit(".");
    reveal_strlit("/workdir/out/");
    reveal_strlit(":application/json");
    reveal_strlit("OCI_REGISTRY");
    reveal_strlit("OCI_REPOSITORY");
    reveal_strlit("IMAGE_HASH");
    reveal_strlit("SBOM_EXT");
    reveal_strlit("cyclonedx-json");
    reveal_strlit("spdx-2.3-json");
    reveal_strlit("spdx-3-json");
}

/// A text without dollar signs, closing parentheses and equals signs.
spec fn plain(s: Seq<char>) -> bool {
    forall|i: int| 0 <= i < s.len() ==> (#[trigger] s[i]) != '$' && s[i] != ')' && s[i] != '='
}

} // verus!
