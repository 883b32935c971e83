//! Laws of leader election.
use crate::k8s::{LeaseSpecView, LeaseView};
use crate::laws::text as text_laws;
use crate::leader::{self, AcquireDecisionView};
use crate::text;
use crate::time::{self, Timestamp};
use vstd::prelude::*;

verus! {

/// A specification that makes `identity` the holder from `stamp` on, for fifteen seconds.
pub open spec fn holds_from(spec: LeaseSpecView, identity: Seq<char>, stamp: Timestamp) -> bool {
    &&& spec.holder_identity == Some(identity)
    &&& spec.lease_duration_seconds == Some(15i32)
    &&& spec.acquire_time == Some(stamp)
    &&& spec.renew_time == Some(stamp)
}

/// Where there is no lease, the replica creates the one of its configuration and holds it.
pub proof fn missing_leases_are_created(
    namespace: Seq<char>,
    lease_name: Seq<char>,
    identity: Seq<char>,
    stamp: Timestamp,
    clock: Timestamp,
)
    ensures
        leader::acquisition(None, namespace, lease_name, identity, stamp, clock) matches
            AcquireDecisionView::Create(lease) && {
            &&& lease.metadata.name == Some(lease_name)
            &&& lease.metadata.namespace == Some(namespace)
            &&& lease.spec matches Some(spec) && holds_from(spec, identity, stamp)
        },
{
}

/// A lease that is there is taken, or waited for. It is waited for exactly if this replica is not its
/// holder, it was renewed at some time, and since then no whole second has passed beyond its
/// duration, which is fifteen seconds if it says nothing. Whoever takes it holds it from then on.
pub proof fn leases_are_taken_or_waited_for(
    lease: LeaseView,
    namespace: Seq<char>,
    lease_name: Seq<char>,
    identity: Seq<char>,
    stamp: Timestamp,
    clock: Timestamp,
)
    ensures
        ({
            let decision = leader::acquisition(
                Some(lease),
                namespace,
                lease_name,
                identity,
                stamp,
                clock,
            );
            let own = lease.spec matches Some(spec) && spec.holder_identity == Some(identity);
            let duration = if lease.spec matches Some(spec) && spec.lease_duration_seconds is Some {
                lease.spec->0.lease_duration_seconds->0 as int
            } else {
                15
            };
            let fresh = lease.spec matches Some(spec) && spec.renew_time is Some
                && time::nanos_between(
                (clock.seconds(), clock.nanos()),
                (lease.spec->0.renew_time->0.seconds(), lease.spec->0.renew_time->0.nanos()),
            ) < bound_of(duration);
            &&& decision is Wait <==> !own && fresh
            &&& decision is Patch <==> own || !fresh
            &&& decision matches AcquireDecisionView::Patch(spec) ==> holds_from(
                spec,
                identity,
                stamp,
            )
        }),
{
    if lease.spec is Some && lease.spec->0.renew_time is Some {
        let renewed = lease.spec->0.renew_time->0;
        let duration = if lease.spec->0.lease_duration_seconds is Some {
            lease.spec->0.lease_duration_seconds->0 as int
        } else {
            15
        };
        lemma_bound(clock, renewed, duration);
    }
}

/// The time in nanoseconds before which no whole second has passed beyond a duration in seconds:
/// where the duration is negative, a time before the instant counts in full.
pub open spec fn bound_of(duration: int) -> int {
    if duration >= 0 {
        (duration + 1) * 1_000_000_000
    } else {
        duration * 1_000_000_000 + 1
    }
}

proof fn lemma_bound(clock: Timestamp, renewed: Timestamp, duration: int)
    ensures
        leader::seconds_between(clock, renewed) <= duration <==> time::nanos_between(
            clock.parts(),
            renewed.parts(),
        ) < bound_of(duration),
{
}

/// What a replica says when it waits: who holds the lease, and how long it lasts.
pub proof fn waiting_says_who_holds_the_lease(
    lease: LeaseView,
    namespace: Seq<char>,
    lease_name: Seq<char>,
    identity: Seq<char>,
    stamp: Timestamp,
    clock: Timestamp,
)
    ensures
        leader::acquisition(Some(lease), namespace, lease_name, identity, stamp, clock) matches
            AcquireDecisionView::Wait(said) ==> {
            let seconds = leader::signed_decimal(
                if lease.spec->0.lease_duration_seconds is Some {
                    lease.spec->0.lease_duration_seconds->0 as int
                } else {
                    15
                },
            );
            said == (match lease.spec->0.holder_identity {
                Some(holder) => "lease held by Some("@ + text::quoted(holder) + ")"@,
                None => "lease held by None"@,
            }) + "; not yet expired (duration="@ + seconds + "s)"@
        },
{
    reveal_strlit("lease held by Some(");
    reveal_strlit("lease held by None");
    reveal_strlit("lease held by ");
    reveal_strlit("Some(");
    reveal_strlit("None");
    assert("lease held by Some("@ =~= "lease held by "@ + "Some("@);
    assert("lease held by None"@ =~= "lease held by "@ + "None"@);
    if lease.spec is Some {
        if let Some(holder) = lease.spec->0.holder_identity {
            assert("lease held by "@ + ("Some("@ + text::quoted(holder) + ")"@)
                =~= "lease held by Some("@ + text::quoted(holder) + ")"@);
        }
    }
}

/// A number in decimal notation stands for that number: behind a minus sign if it is negative, for
/// its magnitude.
pub proof fn signed_notation_makes_the_number(n: int)
    ensures
        ({
            let s = leader::signed_decimal(n);
            &&& n >= 0 ==> text_laws::number_of(s) == n && s[0] != '-'
            &&& n < 0 ==> s[0] == '-' && text_laws::number_of(s.skip(1)) == -n
        }),
{
    reveal_strlit("-");
    if n < 0 {
        text_laws::decimal_notation_makes_the_number((-n) as nat);
        assert(leader::signed_decimal(n).skip(1) =~= text::decimal((-n) as nat));
    } else {
        text_laws::decimal_notation_makes_the_number(n as nat);
    }
}

/// Renewing says who renews and when, and nothing else: what the lease says of its duration and of
/// when it was acquired stays.
pub proof fn renewal_leaves_the_rest(spec: LeaseSpecView, identity: Seq<char>, now: Timestamp)
    ensures
        ({
            let patch = leader::renewal(identity, now);
            let after = leader::patched(spec, patch);
            &&& patch.holder_identity == Some(identity)
            &&& patch.renew_time == Some(now)
            &&& patch.lease_duration_seconds is None
            &&& patch.acquire_time is None
            &&& after.holder_identity == Some(identity)
            &&& after.renew_time == Some(now)
            &&& after.lease_duration_seconds == spec.lease_duration_seconds
            &&& after.acquire_time == spec.acquire_time
        }),
{
}

/// A lease lasts three times as long as its holder waits before renewing it, and whoever waits for it
/// asks more often than it is renewed.
pub proof fn leases_are_renewed_in_time()
    ensures
        leader::LEASE_DURATION_SECONDS == 15,
        leader::RENEW_INTERVAL_SECONDS == 5,
        leader::ACQUIRE_RETRY_INTERVAL_SECONDS == 3,
{
}

} // verus!
