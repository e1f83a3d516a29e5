//! What starting and renewing are for, stated on what a replica holds before and after a step.
use crate::cluster::law_missing_is_told;
use crate::renewal::{handles_at, renewal_wait, Handled, Manager, Phase, RenewalEvent};
use crate::startup::{initialized_at, Startup, StartupEvent};
use crate::string_map::StringMap;
use crate::tls::{cert_expiry, issued_at, issued_pair, Tls};
use vstd::prelude::*;

verus! {

/// Whether a secret holds a certificate and a private key.
pub open spec fn holds_pair(data: Option<StringMap<Vec<u8>>>, cert: Seq<u8>, key: Seq<u8>) -> bool {
    &&& data is Some
    &&& data->0@.contains_key("tls.crt"@)
    &&& data->0@.contains_key("tls.key"@)
    &&& data->0@["tls.crt"@]@ == cert
    &&& data->0@["tls.key"@]@ == key
}

/// Whether a secret lacks the certificate or the private key.
pub open spec fn holds_no_pair(data: Option<StringMap<Vec<u8>>>) -> bool {
    data matches Some(map) ==> !map@.contains_key("tls.crt"@) || !map@.contains_key("tls.key"@)
}

/// Whether two replicas serve the same pair and take it to expire at the same time.
pub open spec fn same_tls(first: Tls, second: Tls) -> bool {
    &&& first.cert@ == second.cert@
    &&& first.key@ == second.key@
    &&& first.expiry == second.expiry
}

/// Whether two phases ask for the same.
pub open spec fn same_phase(first: Phase, second: Phase) -> bool {
    match (first, second) {
        (Phase::Watch, Phase::Watch) => true,
        (Phase::Reload, Phase::Reload) => true,
        (Phase::Delay { seconds: a }, Phase::Delay { seconds: b }) => a == b,
        (Phase::Recheck, Phase::Recheck) => true,
        (Phase::Generate, Phase::Generate) => true,
        (Phase::Store { cert: a, key: k }, Phase::Store { cert: b, key: l }) => a@ == b@ && k@ == l@,
        (Phase::Recreate { cert: a, key: k }, Phase::Recreate { cert: b, key: l }) => a@ == b@ && k@ == l@,
        (Phase::Publish { cert: a }, Phase::Publish { cert: b }) => a@ == b@,
        _ => false,
    }
}

/// A certificate is renewed three hours before it expires: the wait and these three hours
/// are what is left of it, and there is no wait where less is left.
pub proof fn law_wait_and_three_hours(expiry: u64, now: u64)
    ensures
        expiry > now + 3 * 3_600 ==> now + renewal_wait(expiry, now) + 3 * 3_600 == expiry,
        expiry <= now + 3 * 3_600 ==> renewal_wait(expiry, now) == 0,
{
}

/// A watching replica takes over the certificate of a changed secret with the key that
/// stands beside it, creates a secret that is gone with the pair that it serves, waits as
/// long as it is told before a renewal, and does nothing else.
pub proof fn law_watching(manager: Manager, event: RenewalEvent, next: Manager, cert: Seq<u8>, key: Seq<u8>)
    requires
        manager.phase is Watch,
        next@ == manager@.after(event@),
    ensures
        match event {
            RenewalEvent::Applied(data) => {
                &&& holds_pair(data, cert, key) && cert != manager.current.cert@ ==> next.phase is Reload
                    && next.current.cert@ == cert && next.current.key@ == key && next.current.expiry == cert_expiry(cert)
                &&& holds_pair(data, cert, key) && cert == manager.current.cert@ ==> next.phase is Watch && same_tls(
                    next.current,
                    manager.current,
                )
                &&& holds_no_pair(data) ==> next.phase is Watch && same_tls(next.current, manager.current)
            },
            RenewalEvent::Deleted => {
                &&& next.phase matches Phase::Recreate { cert: again, key: its_key } && again@ == manager.current.cert@
                    && its_key@ == manager.current.key@
                &&& next.current.cert@ == manager.current.cert@
                &&& next.current.key@ == manager.current.key@
                &&& next.current.expiry == cert_expiry(manager.current.cert@)
            },
            RenewalEvent::Due { jitter } => next.phase == (Phase::Delay { seconds: jitter }) && same_tls(
                next.current,
                manager.current,
            ),
            _ => next.phase is Watch && same_tls(next.current, manager.current),
        },
{
}

/// Before a renewal a replica waits and then looks at the secret: a certificate there with
/// more than three hours left is waited for, and in every other case a certificate is issued.
/// What the replica serves stays.
pub proof fn law_before_renewal(manager: Manager, event: RenewalEvent, next: Manager, cert: Seq<u8>, key: Seq<u8>)
    requires
        manager.phase is Delay || manager.phase is Recheck || manager.phase is Reload,
        next@ == manager@.after(event@),
    ensures
        next.current.cert@ == manager.current.cert@,
        next.current.key@ == manager.current.key@,
        manager.phase is Reload ==> same_tls(next.current, manager.current) && if event is Reloaded {
            next.phase is Watch
        } else {
            next.phase is Reload
        },
        manager.phase is Delay ==> same_tls(next.current, manager.current) && if event is DelayOver {
            next.phase is Recheck
        } else {
            next.phase == manager.phase
        },
        manager.phase is Recheck ==> match event {
            RenewalEvent::SecretRead { data, now } => {
                &&& holds_pair(data, cert, key) && cert_expiry(cert) > now + 3 * 3_600 ==> next.phase is Watch
                    && next.current.expiry == cert_expiry(cert)
                &&& holds_pair(data, cert, key) && cert_expiry(cert) <= now + 3 * 3_600 ==> next.phase is Generate
                    && next.current.expiry == manager.current.expiry
                &&& holds_no_pair(data) ==> next.phase is Generate && next.current.expiry == manager.current.expiry
            },
            RenewalEvent::SecretUnavailable => next.phase is Generate && next.current.expiry == manager.current.expiry,
            _ => next.phase is Recheck && next.current.expiry == manager.current.expiry,
        },
{
}

/// What a renewal stores is the pair that was issued: the certificate with its own key. Where
/// none was issued, the replica watches on.
pub proof fn law_issued_pair_stored(manager: Manager, event: RenewalEvent, next: Manager)
    requires
        manager.phase is Generate,
        next@ == manager@.after(event@),
    ensures
        same_tls(next.current, manager.current),
        match event {
            RenewalEvent::Generated(Ok(pair)) => next.phase matches Phase::Store { cert, key } && cert@ == pair.0@
                && key@ == pair.1@,
            RenewalEvent::Generated(Err(_)) => next.phase is Watch,
            _ => next.phase is Generate,
        },
{
}

/// A pair that could not be stored because the message holds `NotFound` or `404`, whatever
/// else it holds, is what the secret is created with; any other refusal ends the renewal. A
/// pair that was stored has its certificate published.
pub proof fn law_storing(
    manager: Manager,
    event: RenewalEvent,
    next: Manager,
    before: Seq<char>,
    behind: Seq<char>,
)
    requires
        manager.phase is Store,
        next@ == manager@.after(event@),
    ensures
        same_tls(next.current, manager.current),
        manager.phase matches Phase::Store { cert, key } ==> match event {
            RenewalEvent::Stored => next.phase matches Phase::Publish { cert: published } && published@ == cert@,
            RenewalEvent::StoreRefused(message) => {
                &&& message@ == before + "NotFound"@ + behind || message@ == before + "404"@ + behind ==> (
                next.phase matches Phase::Recreate { cert: again, key: its_key } && again@ == cert@ && its_key@ == key@)
                &&& (forall|front: Seq<char>, back: Seq<char>|
                    message@ != #[trigger] (front + "NotFound"@ + back) && message@ != front + "404"@ + back)
                    ==> next.phase is Watch
            },
            _ => same_phase(next.phase, manager.phase),
        },
{
    if let RenewalEvent::StoreRefused(message) = event {
        law_missing_is_told(before, behind, message@);
    }
}

/// A secret that was created has its certificate published; where it was not, and once the
/// certificate is published, the replica watches on.
pub proof fn law_recreating(manager: Manager, event: RenewalEvent, next: Manager)
    requires
        manager.phase is Recreate || manager.phase is Publish,
        next@ == manager@.after(event@),
    ensures
        same_tls(next.current, manager.current),
        manager.phase matches Phase::Recreate { cert, key } ==> match event {
            RenewalEvent::Created => next.phase matches Phase::Publish { cert: published } && published@ == cert@,
            RenewalEvent::CreateRefused => next.phase is Watch,
            _ => same_phase(next.phase, manager.phase),
        },
        manager.phase is Publish ==> if event is Published {
            next.phase is Watch
        } else {
            same_phase(next.phase, manager.phase)
        },
{
}

/// Where a replica has to issue a certificate, it comes out of the event with a pair to store
/// that was issued as one, for the service and at the given second, or watching, with the
/// message of the failure. It serves what it served.
pub proof fn law_handled_pair_issued(
    manager: Manager,
    event: RenewalEvent,
    svc_name: Seq<char>,
    namespace: Seq<char>,
    now: i64,
    handled: Handled,
    decided: Manager,
)
    requires
        handles_at(manager@, event@, svc_name, namespace, now, handled),
        decided@ == manager@.after(event@),
    ensures
        decided.phase is Generate ==> {
            &&& same_tls(handled.manager.current, decided.current)
            &&& match handled.manager.phase {
                Phase::Store { cert, key } => issued_pair(svc_name, namespace, now, cert@, key@)
                    && handled.failure is None,
                Phase::Watch => handled.failure matches Some(message) && issued_at(
                    svc_name,
                    namespace,
                    now,
                    Err(message),
                ),
                _ => false,
            }
        },
        decided.phase !is Generate ==> {
            &&& same_tls(handled.manager.current, decided.current)
            &&& same_phase(handled.manager.phase, decided.phase)
            &&& handled.failure is None
        },
{
    if decided.phase is Generate {
        let issued = choose|issued: Result<(Vec<u8>, Vec<u8>), String>|
            {
                &&& #[trigger] issued_at(svc_name, namespace, now, issued)
                &&& handled.manager@ == decided@.after(RenewalEvent::Generated(issued)@)
                &&& match issued {
                    Ok(_) => handled.failure is None,
                    Err(message) => handled.failure matches Some(failure) && failure@ == message@,
                }
            };
        if let Err(message) = issued {
            let failure = handled.failure->0;
            assert(issued_at(svc_name, namespace, now, Err::<(Vec<u8>, Vec<u8>), String>(failure)));
        }
    }
}

/// A replica that reads the secret serves and publishes the pair that stands there, and else
/// issues one. One that comes too late serves the pair that stands there by now, and else its
/// own, and publishes neither.
pub proof fn law_secret_read_at_startup(
    state: Startup,
    event: StartupEvent,
    next: Startup,
    cert: Seq<u8>,
    key: Seq<u8>,
)
    requires
        state is ReadSecret || state is ReadWinner,
        next@ == state@.after(event@),
    ensures
        match event {
            StartupEvent::SecretRead(data) => {
                &&& holds_pair(data, cert, key) ==> (next matches Startup::Ready { tls, publish } && tls.cert@ == cert
                    && tls.key@ == key && tls.expiry == cert_expiry(cert) && publish == (state is ReadSecret))
                &&& holds_no_pair(data) && state is ReadSecret ==> next is Generate
                &&& holds_no_pair(data) && state is ReadWinner ==> serves_own(state, next)
            },
            StartupEvent::SecretUnavailable => {
                &&& state is ReadSecret ==> next is Generate
                &&& state is ReadWinner ==> serves_own(state, next)
            },
            _ => same_startup(next, state),
        },
{
}

/// Whether a replica that came too late serves the pair that it issued itself, and does not
/// publish it.
pub open spec fn serves_own(state: Startup, next: Startup) -> bool {
    match (state, next) {
        (Startup::ReadWinner { cert, key }, Startup::Ready { tls, publish }) => {
            &&& tls.cert@ == cert@
            &&& tls.key@ == key@
            &&& tls.expiry == cert_expiry(cert@)
            &&& !publish
        },
        _ => false,
    }
}

/// Whether two states ask for the same.
pub open spec fn same_startup(first: Startup, second: Startup) -> bool {
    match (first, second) {
        (Startup::ReadSecret, Startup::ReadSecret) => true,
        (Startup::Generate, Startup::Generate) => true,
        (Startup::Create { cert: a, key: k }, Startup::Create { cert: b, key: l }) => a@ == b@ && k@ == l@,
        (Startup::ReadWinner { cert: a, key: k }, Startup::ReadWinner { cert: b, key: l }) => a@ == b@ && k@ == l@,
        (Startup::Ready { tls: a, publish: p }, Startup::Ready { tls: b, publish: q }) => same_tls(a, b) && p == q,
        (Startup::Failed { reason: a }, Startup::Failed { reason: b }) => a@ == b@,
        _ => false,
    }
}

/// The pair that was issued is what the secret is created with. A replica that created the
/// secret serves that pair and publishes it; one that could not keeps the pair and reads the
/// secret. Without a pair it gives up, and says why. A replica that is done stays as it is.
pub proof fn law_secret_created_at_startup(state: Startup, event: StartupEvent, next: Startup)
    requires
        state !is ReadSecret,
        state !is ReadWinner,
        next@ == state@.after(event@),
    ensures
        state is Generate ==> match event {
            StartupEvent::Generated(Ok(pair)) => next matches Startup::Create { cert, key } && cert@ == pair.0@ && key@
                == pair.1@,
            StartupEvent::Generated(Err(message)) => next matches Startup::Failed { reason } && reason@
                == "Cannot start without valid TLS certificates: "@ + message@,
            _ => next is Generate,
        },
        state matches Startup::Create { cert, key } ==> match event {
            StartupEvent::Created => next matches Startup::Ready { tls, publish: true } && tls.cert@ == cert@ && tls.key@
                == key@ && tls.expiry == cert_expiry(cert@),
            StartupEvent::CreateRefused => next matches Startup::ReadWinner { cert: own, key: its_key } && own@ == cert@
                && its_key@ == key@,
            _ => same_startup(next, state),
        },
        state is Ready || state is Failed ==> same_startup(next, state),
{
}

/// Where a starting replica has to issue a certificate, it goes on to create the secret with a
/// pair that was issued as one, for the service and at the given second, or gives up.
pub proof fn law_initialized_pair_issued(
    state: Startup,
    event: StartupEvent,
    svc_name: Seq<char>,
    namespace: Seq<char>,
    now: i64,
    next: Startup,
    decided: Startup,
)
    requires
        initialized_at(state@, event@, svc_name, namespace, now, next@),
        decided@ == state@.after(event@),
    ensures
        decided is Generate ==> match next {
            Startup::Create { cert, key } => issued_pair(svc_name, namespace, now, cert@, key@),
            Startup::Failed { reason } => exists|message: String| #[trigger]
                issued_at(svc_name, namespace, now, Err(message)) && reason@
                    == "Cannot start without valid TLS certificates: "@ + message@,
            _ => false,
        },
        decided !is Generate ==> same_startup(next, decided),
{
    if decided is Generate {
        let issued = choose|issued: Result<(Vec<u8>, Vec<u8>), String>|
            {
                &&& #[trigger] issued_at(svc_name, namespace, now, issued)
                &&& next@ == decided@.after(StartupEvent::Generated(issued)@)
            };
        if let Err(message) = issued {
            assert(issued_at(svc_name, namespace, now, Err::<(Vec<u8>, Vec<u8>), String>(message)));
        }
    }
}

} // verus!
