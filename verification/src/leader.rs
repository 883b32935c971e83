//! Leader election by a Lease: which replica of the operator is at work.
//!
//! One replica holds the lease at a time. The holder renews it three times as often as it would
//! need to; when it stops, the lease expires, and another replica takes it over.
use crate::k8s::{Lease, LeaseSpec, LeaseSpecView, LeaseView, ObjectMeta, ObjectMetaView};
use crate::text::{self, option_text_eq, push_decimal, quote};
use crate::time::{self, signed_duration_since, Timestamp};
use vstd::prelude::*;
use vstd::string::StringExecFns;

verus! {

/// How long a lease is held without being renewed.
pub const LEASE_DURATION_SECONDS: i32 = 15;

/// How often the holder renews the lease.
pub const RENEW_INTERVAL_SECONDS: u64 = 5;

/// How long a replica waits before it tries to acquire the lease again.
pub const ACQUIRE_RETRY_INTERVAL_SECONDS: u64 = 3;

/// The name under which the operator changes the lease.
pub const FIELD_MANAGER: &'static str = "mikebom-operator";

/// The lease of the operator, and who this replica is.
#[derive(Debug, Clone)]
pub struct LeaderConfig {
    /// The namespace of the lease, normally that of the operator.
    pub namespace: String,
    /// The name of the lease.
    pub lease_name: String,
    /// What this replica calls itself, different from what every other one does.
    pub identity: String,
}

/// What a replica does about the lease.
#[derive(Debug)]
pub enum AcquireDecision {
    /// There is no lease: create this one.
    Create(Lease),
    /// The lease is this replica's, or nobody's any more: merge this into its specification.
    Patch(LeaseSpec),
    /// Another replica holds the lease: wait. The text says so.
    Wait(String),
}

/// The view of an [`AcquireDecision`].
#[verifier::ext_equal]
pub ghost enum AcquireDecisionView {
    Create(LeaseView),
    Patch(LeaseSpecView),
    Wait(Seq<char>),
}

impl DeepView for AcquireDecision {
    type V = AcquireDecisionView;

    open spec fn deep_view(&self) -> AcquireDecisionView {
        match self {
            AcquireDecision::Create(lease) => AcquireDecisionView::Create(lease.deep_view()),
            AcquireDecision::Patch(spec) => AcquireDecisionView::Patch(spec.deep_view()),
            AcquireDecision::Wait(text) => AcquireDecisionView::Wait(text@),
        }
    }
}

/// A lease that `identity` has acquired at `stamp`.
pub open spec fn held_by(identity: Seq<char>, stamp: Timestamp) -> LeaseSpecView {
    LeaseSpecView {
        holder_identity: Some(identity),
        lease_duration_seconds: Some(LEASE_DURATION_SECONDS),
        acquire_time: Some(stamp),
        renew_time: Some(stamp),
    }
}

/// Whole seconds from one instant to another, rounded toward zero.
pub open spec fn seconds_between(to: Timestamp, from: Timestamp) -> int {
    time::toward_zero(time::nanos_between(to.parts(), from.parts()), time::NANOS_PER_SECOND as int)
}

/// A lease that has not been renewed for longer than it lasts, or never.
pub open spec fn expired(renew_time: Option<Timestamp>, duration: int, clock: Timestamp) -> bool {
    match renew_time {
        Some(t) => seconds_between(clock, t) > duration,
        None => true,
    }
}

/// An integer in decimal notation.
pub open spec fn signed_decimal(n: int) -> Seq<char> {
    if n < 0 {
        "-"@ + text::decimal((-n) as nat)
    } else {
        text::decimal(n as nat)
    }
}

/// What a replica says when it waits for the lease of a holder that is shown in this way.
pub open spec fn waiting_text(shown_holder: Option<Seq<char>>, duration: int) -> Seq<char> {
    let shown = match shown_holder {
        Some(holder) => "Some("@ + holder + ")"@,
        None => "None"@,
    };
    "lease held by "@ + shown + "; not yet expired (duration="@ + signed_decimal(duration) + "s)"@
}

/// What the replica `identity` does about the lease that it finds, if `stamp` is the time that it
/// writes and `clock` the time by which it judges whether the lease has expired.
pub open spec fn acquisition(
    existing: Option<LeaseView>,
    namespace: Seq<char>,
    lease_name: Seq<char>,
    identity: Seq<char>,
    stamp: Timestamp,
    clock: Timestamp,
) -> AcquireDecisionView {
    match existing {
        None => AcquireDecisionView::Create(
            LeaseView {
                metadata: ObjectMetaView {
                    name: Some(lease_name),
                    namespace: Some(namespace),
                    uid: None,
                    creation_timestamp: None,
                    labels: None,
                    owner_references: None,
                },
                spec: Some(held_by(identity, stamp)),
            },
        ),
        Some(lease) => {
            let holder = match lease.spec {
                Some(spec) => spec.holder_identity,
                None => None,
            };
            let renew_time = match lease.spec {
                Some(spec) => spec.renew_time,
                None => None,
            };
            let duration = match lease.spec {
                Some(spec) => match spec.lease_duration_seconds {
                    Some(seconds) => seconds,
                    None => LEASE_DURATION_SECONDS,
                },
                None => LEASE_DURATION_SECONDS,
            };
            if holder == Some(identity) || expired(renew_time, duration as int, clock) {
                AcquireDecisionView::Patch(held_by(identity, stamp))
            } else {
                let shown_holder = match holder {
                    Some(holder) => Some(text::quoted(holder)),
                    None => None,
                };
                AcquireDecisionView::Wait(waiting_text(shown_holder, duration as int))
            }
        },
    }
}

fn make_held_spec(identity: &str, stamp: Timestamp) -> (r: LeaseSpec)
    ensures
        r.deep_view() == held_by(identity@, stamp),
{
    LeaseSpec {
        holder_identity: Some(identity.to_owned()),
        lease_duration_seconds: Some(LEASE_DURATION_SECONDS),
        acquire_time: Some(stamp),
        renew_time: Some(stamp),
    }
}

fn is_expired(renew_time: &Option<Timestamp>, duration: i32, clock: &Timestamp) -> (r: bool)
    ensures
        r == expired(*renew_time, duration as int, *clock),
{
    match renew_time {
        Some(t) => signed_duration_since(clock, t).0 > duration as i64,
        None => true,
    }
}

fn push_signed_decimal(out: &mut String, n: i32)
    ensures
        final(out)@ == old(out)@ + signed_decimal(n as int),
{
    if n < 0 {
        out.append("-");
        let magnitude: i64 = -(n as i64);
        push_decimal(out, magnitude as usize);
        assert(out@ =~= old(out)@ + signed_decimal(n as int));
    } else {
        push_decimal(out, n as usize);
    }
}

/// Says that a replica waits for the lease of a holder that is shown in this way.
pub fn waiting_message(shown_holder: &Option<String>, duration: i32) -> (r: String)
    ensures
        r@ == waiting_text(shown_holder.deep_view(), duration as int),
{
    let mut text = "lease held by ".to_owned();
    match shown_holder {
        Some(holder) => {
            let mut shown = "Some(".to_owned();
            shown.append(holder.as_str());
            shown.append(")");
            text.append(shown.as_str());
        },
        None => {
            text.append("None");
        },
    }
    text.append("; not yet expired (duration=");
    push_signed_decimal(&mut text, duration);
    text.append("s)");
    text
}

/// Decides what to do about the lease that was found. `stamp` is the time that is written, and
/// `clock` the time by which the lease is judged.
pub fn decide_acquisition(
    existing: &Option<Lease>,
    config: &LeaderConfig,
    stamp: Timestamp,
    clock: Timestamp,
) -> (r: AcquireDecision)
    ensures
        r.deep_view() == acquisition(
            existing.deep_view(),
            config.namespace@,
            config.lease_name@,
            config.identity@,
            stamp,
            clock,
        ),
{
    let lease = match existing {
        None => {
            return AcquireDecision::Create(
                Lease {
                    metadata: ObjectMeta {
                        name: Some(config.lease_name.clone()),
                        namespace: Some(config.namespace.clone()),
                        uid: None,
                        creation_timestamp: None,
                        labels: None,
                        owner_references: None,
                    },
                    spec: Some(make_held_spec(config.identity.as_str(), stamp)),
                },
            );
        },
        Some(lease) => lease,
    };
    let nobody: Option<String> = None;
    let never: Option<Timestamp> = None;
    let (holder, renew_time, duration) = match &lease.spec {
        Some(spec) => (
            &spec.holder_identity,
            &spec.renew_time,
            match spec.lease_duration_seconds {
                Some(seconds) => seconds,
                None => LEASE_DURATION_SECONDS,
            },
        ),
        None => (&nobody, &never, LEASE_DURATION_SECONDS),
    };
    if option_text_eq(holder, config.identity.as_str()) || is_expired(
        renew_time,
        duration,
        &clock,
    ) {
        return AcquireDecision::Patch(make_held_spec(config.identity.as_str(), stamp));
    }
    let shown_holder = match holder {
        Some(name) => Some(quote(name.as_str())),
        None => None,
    };
    AcquireDecision::Wait(waiting_message(&shown_holder, duration))
}

/// What the holder merges into the specification of the lease to renew it.
pub open spec fn renewal(identity: Seq<char>, now: Timestamp) -> LeaseSpecView {
    LeaseSpecView {
        holder_identity: Some(identity),
        lease_duration_seconds: None,
        acquire_time: None,
        renew_time: Some(now),
    }
}

/// Makes what the holder merges into the specification of the lease to renew it.
pub fn renewal_patch(config: &LeaderConfig, now: Timestamp) -> (r: LeaseSpec)
    ensures
        r.deep_view() == renewal(config.identity@, now),
{
    LeaseSpec {
        holder_identity: Some(config.identity.clone()),
        lease_duration_seconds: None,
        acquire_time: None,
        renew_time: Some(now),
    }
}

// ---------------------------------------------------------------------------------------------
// Laws.
// ---------------------------------------------------------------------------------------------

/// `a`, or `b` if that is absent.
pub open spec fn first_of<T>(a: Option<T>, b: Option<T>) -> Option<T> {
    match a {
        Some(_) => a,
        None => b,
    }
}

/// The specification of a lease after something was merged into it: what is absent from the patch
/// stays as it was.
pub open spec fn patched(spec: LeaseSpecView, patch: LeaseSpecView) -> LeaseSpecView {
    LeaseSpecView {
        holder_identity: first_of(patch.holder_identity, spec.holder_identity),
        lease_duration_seconds: first_of(patch.lease_duration_seconds, spec.lease_duration_seconds),
        acquire_time: first_of(patch.acquire_time, spec.acquire_time),
        renew_time: first_of(patch.renew_time, spec.renew_time),
    }
}

/// A fresh lease is not taken from its holder: whoever else looks at it before it has expired
/// waits.
pub proof fn fresh_lease_is_not_taken(
    lease: LeaseView,
    holder: Seq<char>,
    renewed: Timestamp,
    duration: i32,
    namespace: Seq<char>,
    lease_name: Seq<char>,
    identity: Seq<char>,
    stamp: Timestamp,
    clock: Timestamp,
)
    requires
        lease.spec matches Some(spec) && spec.holder_identity == Some(holder) && spec.renew_time
            == Some(renewed) && spec.lease_duration_seconds == Some(duration),
        holder != identity,
        seconds_between(clock, renewed) <= duration,
    ensures
        acquisition(Some(lease), namespace, lease_name, identity, stamp, clock) is Wait,
{
}

/// After one replica has acquired a lease, whatever was there before, no other acquires it until it
/// has expired.
pub proof fn acquired_lease_excludes_others(
    existing: Option<LeaseView>,
    namespace: Seq<char>,
    lease_name: Seq<char>,
    holder: Seq<char>,
    stamp: Timestamp,
    clock: Timestamp,
    other: Seq<char>,
    other_stamp: Timestamp,
    other_clock: Timestamp,
)
    requires
        other != holder,
        seconds_between(other_clock, stamp) <= LEASE_DURATION_SECONDS,
    ensures
        match acquisition(existing, namespace, lease_name, holder, stamp, clock) {
            AcquireDecisionView::Create(lease) => acquisition(
                Some(lease),
                namespace,
                lease_name,
                other,
                other_stamp,
                other_clock,
            ) is Wait,
            AcquireDecisionView::Patch(patch) => {
                let before = existing->0;
                let lease = LeaseView {
                    spec: Some(
                        match before.spec {
                            Some(spec) => patched(spec, patch),
                            None => patch,
                        },
                    ),
                    ..before
                };
                acquisition(
                    Some(lease),
                    namespace,
                    lease_name,
                    other,
                    other_stamp,
                    other_clock,
                ) is Wait
            },
            AcquireDecisionView::Wait(_) => true,
        },
{
}

/// Renewing moves the time from which the lease lasts and leaves its holder and its duration: the
/// others go on waiting.
pub proof fn renewal_extends_the_lease(
    lease: LeaseView,
    holder: Seq<char>,
    stamp: Timestamp,
    renewed: Timestamp,
    namespace: Seq<char>,
    lease_name: Seq<char>,
    other: Seq<char>,
    other_stamp: Timestamp,
    other_clock: Timestamp,
)
    requires
        lease.spec == Some(held_by(holder, stamp)),
        other != holder,
        seconds_between(other_clock, renewed) <= LEASE_DURATION_SECONDS,
    ensures
        ({
            let after = patched(lease.spec->0, renewal(holder, renewed));
            &&& after == (LeaseSpecView {
                renew_time: Some(renewed),
                ..held_by(holder, stamp)
            })
            &&& acquisition(
                Some(LeaseView { spec: Some(after), ..lease }),
                namespace,
                lease_name,
                other,
                other_stamp,
                other_clock,
            ) is Wait
        }),
{
}

/// A replica always gets back the lease that it holds itself.
pub proof fn own_lease_is_acquired_again(
    lease: LeaseView,
    namespace: Seq<char>,
    lease_name: Seq<char>,
    identity: Seq<char>,
    stamp: Timestamp,
    clock: Timestamp,
)
    requires
        lease.spec matches Some(spec) && spec.holder_identity == Some(identity),
    ensures
        acquisition(Some(lease), namespace, lease_name, identity, stamp, clock)
            == AcquireDecisionView::Patch(held_by(identity, stamp)),
{
}

/// A lease that was not renewed for longer than it lasts is taken over by whoever looks at it.
pub proof fn expired_lease_is_taken_over(
    lease: LeaseView,
    renewed: Timestamp,
    duration: i32,
    namespace: Seq<char>,
    lease_name: Seq<char>,
    identity: Seq<char>,
    stamp: Timestamp,
    clock: Timestamp,
)
    requires
        lease.spec matches Some(spec) && spec.renew_time == Some(renewed)
            && spec.lease_duration_seconds == Some(duration),
        seconds_between(clock, renewed) > duration,
    ensures
        acquisition(Some(lease), namespace, lease_name, identity, stamp, clock)
            == AcquireDecisionView::Patch(held_by(identity, stamp)),
{
}

/// The holder renews the lease three times while it lasts.
pub proof fn renewal_is_three_times_as_often()
    ensures
        3 * RENEW_INTERVAL_SECONDS == LEASE_DURATION_SECONDS,
{
}

} // verus!
