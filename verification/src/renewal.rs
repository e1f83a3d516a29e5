//! How a running replica keeps its certificate fresh: it follows the secret, and renews the
//! certificate there when the time comes and no other replica has done so.
//!
//! The phase says what to do next, and the event is what came of it.
use crate::cluster::{copy_bytes, data_view, secret_is_missing, stored_pair, stored_tls, tells_missing};
use crate::string_map::StringMap;
use crate::tls::{
    cert_expiry, current_second, generate_certs_at, get_cert_expiry, issued_at, issued_pair, load_tls, loaded, pem_not_after, Tls, TlsView,
};
use vstd::prelude::*;

verus! {

/// How long before its expiry a certificate is renewed: three hours, so at the nine-hour
/// mark.
pub const RENEW_BEFORE_SECS: u64 = 10_800;

/// The longest random wait before a renewal.
pub const MAX_JITTER_SECS: u64 = 60;

/// Whether a certificate does not need to be renewed yet.
pub open spec fn fresh(expiry: u64, now: u64) -> bool {
    expiry > now + RENEW_BEFORE_SECS
}

/// How many seconds are left until a certificate has to be renewed.
pub open spec fn renewal_wait(expiry: u64, now: u64) -> u64 {
    if fresh(expiry, now) {
        (expiry - now - RENEW_BEFORE_SECS) as u64
    } else {
        0
    }
}

/// How many seconds are left until a certificate has to be renewed.
pub fn seconds_until_renewal(expiry: u64, now: u64) -> (seconds: u64)
    ensures
        seconds == renewal_wait(expiry, now),
{
    if expiry > RENEW_BEFORE_SECS && expiry - RENEW_BEFORE_SECS > now {
        expiry - RENEW_BEFORE_SECS - now
    } else {
        0
    }
}

/// Calls `gen_range` of the `rand` crate on the generator of the thread, with the range from
/// zero to a number, both included. Nothing else is said of the result, which is random.
#[verifier::external_body]
fn random_up_to(max: u64) -> (number: u64)
    ensures
        number <= max,
{
    rand::Rng::gen_range(&mut rand::thread_rng(), 0..=max)
}

/// How long to wait before a renewal, so that the replicas do not all renew at once.
pub fn renewal_jitter() -> (seconds: u64)
    ensures
        seconds <= MAX_JITTER_SECS,
        seconds <= 60,
{
    random_up_to(MAX_JITTER_SECS)
}

/// What a running replica has to do next.
#[derive(Debug)]
pub enum Phase {
    /// Follow the secret until the certificate has to be renewed.
    Watch,
    /// Serve the certificate that is now the current one.
    Reload,
    /// Wait, and give other replicas time to renew.
    Delay { seconds: u64 },
    /// Read the secret, which another replica may have renewed.
    Recheck,
    /// Issue a certificate.
    Generate,
    /// Put this certificate into the secret.
    Store { cert: Vec<u8>, key: Vec<u8> },
    /// Create the missing secret with this certificate.
    Recreate { cert: Vec<u8>, key: Vec<u8> },
    /// Publish this certificate.
    Publish { cert: Vec<u8> },
}

pub enum PhaseView {
    Watch,
    Reload,
    Delay { seconds: u64 },
    Recheck,
    Generate,
    Store { cert: Seq<u8>, key: Seq<u8> },
    Recreate { cert: Seq<u8>, key: Seq<u8> },
    Publish { cert: Seq<u8> },
}

impl View for Phase {
    type V = PhaseView;

    open spec fn view(&self) -> PhaseView {
        match *self {
            Phase::Watch => PhaseView::Watch,
            Phase::Reload => PhaseView::Reload,
            Phase::Delay { seconds } => PhaseView::Delay { seconds },
            Phase::Recheck => PhaseView::Recheck,
            Phase::Generate => PhaseView::Generate,
            Phase::Store { cert, key } => PhaseView::Store { cert: cert@, key: key@ },
            Phase::Recreate { cert, key } => PhaseView::Recreate { cert: cert@, key: key@ },
            Phase::Publish { cert } => PhaseView::Publish { cert: cert@ },
        }
    }
}

/// What happened, or came of what the replica did.
#[derive(Debug)]
pub enum RenewalEvent {
    /// The secret was added or changed; with its data.
    Applied(Option<StringMap<Vec<u8>>>),
    /// The secret is gone.
    Deleted,
    /// Anything else that following the secret brings: errors.
    OtherNews,
    /// The certificate has to be renewed; with the time to wait before that.
    Due { jitter: u64 },
    /// That time is over.
    DelayOver,
    /// The secret was read at some time; with its data.
    SecretRead { data: Option<StringMap<Vec<u8>>>, now: u64 },
    /// The secret could not be read.
    SecretUnavailable,
    /// A certificate was issued, or not.
    Generated(Result<(Vec<u8>, Vec<u8>), String>),
    /// The certificate was put into the secret.
    Stored,
    /// The certificate was not put into the secret; with the message of the refusal.
    StoreRefused(String),
    /// The secret was created.
    Created,
    /// The secret was not created.
    CreateRefused,
    /// The server was told of the certificate, whether it took it or not.
    Reloaded,
    /// The API server was told of the certificate, whether it took it or not.
    Published,
}

/// What happened. Of a secret only the certificate and the private key count.
pub enum RenewalEventView {
    Applied(Option<(Seq<u8>, Seq<u8>)>),
    Deleted,
    OtherNews,
    Due { jitter: u64 },
    DelayOver,
    SecretRead { pair: Option<(Seq<u8>, Seq<u8>)>, now: u64 },
    SecretUnavailable,
    Generated(Seq<u8>, Seq<u8>),
    GenerationFailed,
    Stored,
    StoreRefused(Seq<char>),
    Created,
    CreateRefused,
    Reloaded,
    Published,
}

impl View for RenewalEvent {
    type V = RenewalEventView;

    open spec fn view(&self) -> RenewalEventView {
        match *self {
            RenewalEvent::Applied(data) => RenewalEventView::Applied(stored_pair(data_view(data))),
            RenewalEvent::Deleted => RenewalEventView::Deleted,
            RenewalEvent::OtherNews => RenewalEventView::OtherNews,
            RenewalEvent::Due { jitter } => RenewalEventView::Due { jitter },
            RenewalEvent::DelayOver => RenewalEventView::DelayOver,
            RenewalEvent::SecretRead { data, now } => RenewalEventView::SecretRead {
                pair: stored_pair(data_view(data)),
                now,
            },
            RenewalEvent::SecretUnavailable => RenewalEventView::SecretUnavailable,
            RenewalEvent::Generated(Ok(pair)) => RenewalEventView::Generated(pair.0@, pair.1@),
            RenewalEvent::Generated(Err(_)) => RenewalEventView::GenerationFailed,
            RenewalEvent::Stored => RenewalEventView::Stored,
            RenewalEvent::StoreRefused(message) => RenewalEventView::StoreRefused(message@),
            RenewalEvent::Created => RenewalEventView::Created,
            RenewalEvent::CreateRefused => RenewalEventView::CreateRefused,
            RenewalEvent::Reloaded => RenewalEventView::Reloaded,
            RenewalEvent::Published => RenewalEventView::Published,
        }
    }
}

/// A running replica: the certificate that it serves, and what it has to do next.
#[derive(Debug)]
pub struct Manager {
    pub current: Tls,
    pub phase: Phase,
}

pub struct ManagerView {
    pub current: TlsView,
    pub phase: PhaseView,
}

impl View for Manager {
    type V = ManagerView;

    open spec fn view(&self) -> ManagerView {
        ManagerView { current: self.current@, phase: self.phase@ }
    }
}

impl ManagerView {
    /// The same replica with something else to do.
    pub open spec fn with_phase(self, phase: PhaseView) -> ManagerView {
        ManagerView { current: self.current, phase }
    }

    /// What to do after an event. An event that does not belong to the phase changes nothing.
    ///
    /// A changed secret with another certificate makes that one the current one. A secret
    /// that is gone is created again at once with the current certificate, which from then
    /// on tells its own expiry, whatever another replica had stored. When the
    /// certificate is due and the secret still holds none that is fresh, one is issued and
    /// put into the secret, which is created if it is missing, and is published. The current
    /// certificate is left to the news of the changed secret. Whatever fails leaves the
    /// replica as it was, to try again.
    pub open spec fn after(self, event: RenewalEventView) -> ManagerView {
        match (self.phase, event) {
            (PhaseView::Watch, RenewalEventView::Applied(Some((cert, key)))) => if cert != self.current.cert {
                ManagerView { current: loaded(cert, key), phase: PhaseView::Reload }
            } else {
                self
            },
            (PhaseView::Watch, RenewalEventView::Deleted) => ManagerView {
                current: loaded(self.current.cert, self.current.key),
                phase: PhaseView::Recreate { cert: self.current.cert, key: self.current.key },
            },
            (PhaseView::Watch, RenewalEventView::Due { jitter }) => self.with_phase(
                PhaseView::Delay { seconds: jitter },
            ),
            (PhaseView::Reload, RenewalEventView::Reloaded) => self.with_phase(PhaseView::Watch),
            (PhaseView::Delay { .. }, RenewalEventView::DelayOver) => self.with_phase(PhaseView::Recheck),
            (PhaseView::Recheck, RenewalEventView::SecretRead { pair: Some((cert, _)), now }) => if fresh(
                cert_expiry(cert),
                now,
            ) {
                ManagerView {
                    current: TlsView { expiry: cert_expiry(cert), ..self.current },
                    phase: PhaseView::Watch,
                }
            } else {
                self.with_phase(PhaseView::Generate)
            },
            (PhaseView::Recheck, RenewalEventView::SecretRead { pair: None, .. }) => self.with_phase(
                PhaseView::Generate,
            ),
            (PhaseView::Recheck, RenewalEventView::SecretUnavailable) => self.with_phase(PhaseView::Generate),
            (PhaseView::Generate, RenewalEventView::Generated(cert, key)) => self.with_phase(
                PhaseView::Store { cert, key },
            ),
            (PhaseView::Generate, RenewalEventView::GenerationFailed) => self.with_phase(PhaseView::Watch),
            (PhaseView::Store { cert, .. }, RenewalEventView::Stored) => self.with_phase(PhaseView::Publish { cert }),
            (PhaseView::Store { cert, key }, RenewalEventView::StoreRefused(message)) => if tells_missing(message) {
                self.with_phase(PhaseView::Recreate { cert, key })
            } else {
                self.with_phase(PhaseView::Watch)
            },
            (PhaseView::Recreate { cert, .. }, RenewalEventView::Created) => self.with_phase(
                PhaseView::Publish { cert },
            ),
            (PhaseView::Recreate { .. }, RenewalEventView::CreateRefused) => self.with_phase(PhaseView::Watch),
            (PhaseView::Publish { .. }, RenewalEventView::Published) => self.with_phase(PhaseView::Watch),
            _ => self,
        }
    }

    /// Whether an event is what a replica waits for that does not watch.
    pub open spec fn awaits(self, event: RenewalEventView) -> bool {
        match self.phase {
            PhaseView::Watch => false,
            PhaseView::Reload => event is Reloaded,
            PhaseView::Delay { .. } => event is DelayOver,
            PhaseView::Recheck => event is SecretRead || event is SecretUnavailable,
            PhaseView::Generate => event is Generated || event is GenerationFailed,
            PhaseView::Store { .. } => event is Stored || event is StoreRefused,
            PhaseView::Recreate { .. } => event is Created || event is CreateRefused,
            PhaseView::Publish { .. } => event is Published,
        }
    }

    /// Whether every one of a number of events is what the replica waits for.
    pub open spec fn awaits_all(self, events: Seq<RenewalEventView>) -> bool
        decreases events.len(),
    {
        events.len() == 0 || self.awaits(events[0]) && self.after(events[0]).awaits_all(events.drop_first())
    }

    /// How many steps may be left until the replica watches again.
    pub open spec fn steps_left(self) -> nat {
        match self.phase {
            PhaseView::Watch => 0,
            PhaseView::Reload => 1,
            PhaseView::Delay { .. } => 6,
            PhaseView::Recheck => 5,
            PhaseView::Generate => 4,
            PhaseView::Store { .. } => 3,
            PhaseView::Recreate { .. } => 2,
            PhaseView::Publish { .. } => 1,
        }
    }

    /// What to do after a number of events.
    pub open spec fn after_all(self, events: Seq<RenewalEventView>) -> ManagerView
        decreases events.len(),
    {
        if events.len() == 0 {
            self
        } else {
            self.after(events[0]).after_all(events.drop_first())
        }
    }
}

/// Whether two byte vectors hold the same bytes.
fn same_bytes(left: &Vec<u8>, right: &Vec<u8>) -> (same: bool)
    ensures
        same == (left@ == right@),
{
    if left.len() != right.len() {
        return false;
    }
    for i in 0..left.len()
        invariant
            left.len() == right.len(),
            forall|j: int| 0 <= j < i ==> left[j] == right[j],
    {
        if left[i] != right[i] {
            return false;
        }
    }
    assert(left@ == right@);
    true
}

impl Manager {
    /// Goes on after an event.
    pub fn step(self, event: RenewalEvent) -> (next: Manager)
        ensures
            next@ == self@.after(event@),
    {
        let Manager { current, phase } = self;
        match (phase, event) {
            (Phase::Watch, RenewalEvent::Applied(data)) => match stored_tls(&data) {
                Some((cert, key)) => if same_bytes(&cert, &current.cert) {
                    Manager { current, phase: Phase::Watch }
                } else {
                    Manager { current: load_tls(cert, key), phase: Phase::Reload }
                },
                None => Manager { current, phase: Phase::Watch },
            },
            (Phase::Watch, RenewalEvent::Deleted) => {
                let phase = Phase::Recreate { cert: copy_bytes(&current.cert), key: copy_bytes(&current.key) };
                Manager { current: load_tls(current.cert, current.key), phase }
            },
            (Phase::Watch, RenewalEvent::Due { jitter }) => {
                Manager { current, phase: Phase::Delay { seconds: jitter } }
            },
            (Phase::Reload, RenewalEvent::Reloaded) => Manager { current, phase: Phase::Watch },
            (Phase::Delay { .. }, RenewalEvent::DelayOver) => Manager { current, phase: Phase::Recheck },
            (Phase::Recheck, RenewalEvent::SecretRead { data, now }) => {
                if let Some((cert, _)) = stored_tls(&data) {
                    let expiry = get_cert_expiry(cert.as_slice());
                    if seconds_until_renewal(expiry, now) > 0 {
                        let current = Tls { cert: current.cert, key: current.key, expiry };
                        return Manager { current, phase: Phase::Watch };
                    }
                }
                Manager { current, phase: Phase::Generate }
            },
            (Phase::Recheck, RenewalEvent::SecretUnavailable) => Manager { current, phase: Phase::Generate },
            (Phase::Generate, RenewalEvent::Generated(Ok((cert, key)))) => {
                Manager { current, phase: Phase::Store { cert, key } }
            },
            (Phase::Generate, RenewalEvent::Generated(Err(_))) => Manager { current, phase: Phase::Watch },
            (Phase::Store { cert, .. }, RenewalEvent::Stored) => Manager { current, phase: Phase::Publish { cert } },
            (Phase::Store { cert, key }, RenewalEvent::StoreRefused(message)) => {
                if secret_is_missing(message.as_str()) {
                    Manager { current, phase: Phase::Recreate { cert, key } }
                } else {
                    Manager { current, phase: Phase::Watch }
                }
            },
            (Phase::Recreate { cert, .. }, RenewalEvent::Created) => {
                Manager { current, phase: Phase::Publish { cert } }
            },
            (Phase::Recreate { .. }, RenewalEvent::CreateRefused) => Manager { current, phase: Phase::Watch },
            (Phase::Publish { .. }, RenewalEvent::Published) => Manager { current, phase: Phase::Watch },
            (phase, _) => Manager { current, phase },
        }
    }

    /// Whether a certificate has to be issued after an event.
    pub fn must_issue(&self, event: &RenewalEvent) -> (must: bool)
        ensures
            must == (self@.after(event@).phase is Generate),
    {
        match (&self.phase, event) {
            (Phase::Recheck, RenewalEvent::SecretRead { data, now }) => match stored_tls(data) {
                Some((cert, _)) => seconds_until_renewal(get_cert_expiry(cert.as_slice()), *now) == 0,
                None => true,
            },
            (Phase::Recheck, RenewalEvent::SecretUnavailable) => true,
            (Phase::Generate, RenewalEvent::Generated(_)) => false,
            (Phase::Generate, _) => true,
            _ => false,
        }
    }

    /// How many seconds a watching replica waits before the renewal.
    pub fn seconds_to_wait(&self, now: u64) -> (seconds: u64)
        ensures
            seconds == renewal_wait(self@.current.expiry, now),
    {
        seconds_until_renewal(self.current.expiry, now)
    }
}

/// A replica that starts to follow the secret.
pub fn start_ha_tls_manager(initial_tls: Tls) -> (manager: Manager)
    ensures
        manager@ == (ManagerView { current: initial_tls@, phase: PhaseView::Watch }),
        manager.current == initial_tls,
        manager.phase is Watch,
{
    Manager { current: initial_tls, phase: Phase::Watch }
}

/// What came of an event: the replica after it, and the message with which issuing a
/// certificate has failed.
#[derive(Debug)]
pub struct Handled {
    pub manager: Manager,
    pub failure: Option<String>,
}

/// Whether something can come of an event at some time, where a certificate is issued as
/// soon as one is needed.
pub open spec fn handles_at(
    manager: ManagerView,
    event: RenewalEventView,
    svc_name: Seq<char>,
    namespace: Seq<char>,
    now: i64,
    handled: Handled,
) -> bool {
    let decided = manager.after(event);
    if decided.phase is Generate {
        exists|issued: Result<(Vec<u8>, Vec<u8>), String>|
            {
                &&& #[trigger] issued_at(svc_name, namespace, now, issued)
                &&& handled.manager@ == decided.after(RenewalEvent::Generated(issued)@)
                &&& match issued {
                    Ok(_) => handled.failure is None,
                    Err(message) => handled.failure matches Some(failure) && failure@ == message@,
                }
            }
    } else {
        handled.manager@ == decided && handled.failure is None
    }
}

/// Goes on after an event at a given second, and issues a certificate as soon as one is
/// needed.
pub fn handle_renewal_event_at(
    manager: Manager,
    event: RenewalEvent,
    svc_name: &str,
    namespace: &str,
    now: i64,
) -> (handled: Handled)
    requires
        manager@.after(event@).phase is Generate ==> svc_name.is_ascii() && namespace.is_ascii(),
    ensures
        handles_at(manager@, event@, svc_name@, namespace@, now, handled),
        handled.manager@.phase !is Generate,
{
    let Manager { current, phase } = manager.step(event);
    match phase {
        Phase::Generate => {
            let issued = generate_certs_at(svc_name, namespace, now);
            let failure = match &issued {
                Ok(_) => None,
                Err(message) => Some(message.clone()),
            };
            let manager = Manager { current, phase: Phase::Generate };
            Handled { manager: manager.step(RenewalEvent::Generated(issued)), failure }
        },
        phase => Handled { manager: Manager { current, phase }, failure: None },
    }
}

/// Goes on after an event, and issues a certificate as soon as one is needed.
pub fn handle_renewal_event(manager: Manager, event: RenewalEvent, svc_name: &str, namespace: &str) -> (handled:
    Handled)
    requires
        manager@.after(event@).phase is Generate ==> svc_name.is_ascii() && namespace.is_ascii(),
    ensures
        exists|now: i64| #[trigger] handles_at(manager@, event@, svc_name@, namespace@, now, handled),
        handled.manager@.phase !is Generate,
{
    handle_renewal_event_at(manager, event, svc_name, namespace, current_second())
}

/// The news in a list of the secrets that are there under the name of the secret, which is
/// one at most: that it is gone, or what it holds.
pub fn listed_news(secrets: Vec<Option<StringMap<Vec<u8>>>>) -> (news: RenewalEvent)
    ensures
        news@ == if secrets@.len() == 0 {
            RenewalEventView::Deleted
        } else {
            RenewalEventView::Applied(stored_pair(data_view(secrets@.last())))
        },
        secrets@.len() == 0 ==> news is Deleted,
        secrets@.len() > 0 ==> news == RenewalEvent::Applied(secrets@.last()),
{
    let mut secrets = secrets;
    match secrets.pop() {
        Some(data) => RenewalEvent::Applied(data),
        None => RenewalEvent::Deleted,
    }
}

/// A certificate is renewed at the nine-hour mark: a replica that issues one and loads it
/// waits for nine hours, and one that has waited as long as it should waits no more.
pub proof fn law_renewed_at_nine_hours(
    svc_name: Seq<char>,
    namespace: Seq<char>,
    now: i64,
    cert: Seq<u8>,
    key: Seq<u8>,
)
    requires
        now >= 0,
        issued_pair(svc_name, namespace, now, cert, key),
    ensures
        loaded(cert, key).expiry == now + 43_200,
        renewal_wait(loaded(cert, key).expiry, now as u64) == 9 * 3_600,
        renewal_wait(loaded(cert, key).expiry, (now + 9 * 3_600) as u64) == 0,
{
}

/// Waiting gets a replica to the renewal, and not past it: the rest of the wait shrinks by
/// the time that has gone by.
pub proof fn law_wait_counts_down(expiry: u64, now: u64, gone: u64)
    requires
        now + gone <= u64::MAX,
    ensures
        gone <= renewal_wait(expiry, now) ==> renewal_wait(expiry, (now + gone) as u64) == renewal_wait(expiry, now)
            - gone,
        gone >= renewal_wait(expiry, now) ==> renewal_wait(expiry, (now + gone) as u64) == 0,
{
}

/// A certificate that cannot be read is renewed at once.
pub proof fn law_unreadable_renewed_at_once(cert: Seq<u8>, key: Seq<u8>, now: u64)
    requires
        pem_not_after(cert) is None,
    ensures
        renewal_wait(loaded(cert, key).expiry, now) == 0,
{
}

/// No split brain: after the news of a secret every watching replica serves the certificate
/// that the secret holds, whatever it has served before.
pub proof fn law_replicas_agree(
    first: ManagerView,
    second: ManagerView,
    pair: (Seq<u8>, Seq<u8>),
)
    requires
        first.phase is Watch,
        second.phase is Watch,
    ensures
        first.after(RenewalEventView::Applied(Some(pair))).current.cert == pair.0,
        second.after(RenewalEventView::Applied(Some(pair))).current.cert == first.after(
            RenewalEventView::Applied(Some(pair)),
        ).current.cert,
        first.current.cert != pair.0 && second.current.cert != pair.0 ==> second.after(
            RenewalEventView::Applied(Some(pair)),
        ) == first.after(RenewalEventView::Applied(Some(pair))),
{
}

/// News that repeats itself changes nothing the second time.
pub proof fn law_repeated_news_ignored(manager: ManagerView, news: RenewalEventView)
    requires
        manager.phase is Watch,
        news is Applied,
    ensures
        ({
            let served = manager.after(news).after(RenewalEventView::Reloaded);
            served.phase is Watch && served.after(news) == served
        }),
{
}

/// The current certificate and its private key change only on the news of a secret that
/// holds another certificate, and then the certificate tells its expiry.
pub proof fn law_only_news_changes_certificate(manager: ManagerView, event: RenewalEventView)
    ensures
        ({
            let next = manager.after(event);
            (next.current.cert != manager.current.cert || next.current.key != manager.current.key) ==> {
                &&& manager.phase is Watch
                &&& event == RenewalEventView::Applied(Some((next.current.cert, next.current.key)))
                &&& next == (ManagerView {
                    current: loaded(next.current.cert, next.current.key),
                    phase: PhaseView::Reload,
                })
            }
        }),
{
}

/// A replica that finds the secret renewed by another one issues nothing, and waits until
/// that certificate has to be renewed.
pub proof fn law_renewed_elsewhere(manager: ManagerView, pair: (Seq<u8>, Seq<u8>), now: u64)
    requires
        manager.phase is Recheck,
        fresh(cert_expiry(pair.0), now),
    ensures
        ({
            let next = manager.after(RenewalEventView::SecretRead { pair: Some(pair), now });
            &&& next.phase is Watch
            &&& next.current.cert == manager.current.cert
            &&& next.current.key == manager.current.key
            &&& renewal_wait(next.current.expiry, now) == cert_expiry(pair.0) - RENEW_BEFORE_SECS - now
            &&& renewal_wait(next.current.expiry, now) > 0
        }),
{
}

/// A replica issues a certificate only after it was due, and after the secret held none that
/// was fresh or could not be read.
pub proof fn law_issued_only_when_due(manager: ManagerView, event: RenewalEventView)
    requires
        manager.phase !is Generate,
    ensures
        manager.after(event).phase is Generate <==> manager.phase is Recheck && match event {
            RenewalEventView::SecretRead { pair: Some(pair), now } => !fresh(cert_expiry(pair.0), now),
            RenewalEventView::SecretRead { pair: None, .. } => true,
            RenewalEventView::SecretUnavailable => true,
            _ => false,
        },
{
}

/// A renewal that fails, because no certificate was issued, the secret was not changed or
/// another replica created it, leaves the replica watching with what it had.
pub proof fn law_failure_changes_nothing(manager: ManagerView, event: RenewalEventView)
    requires
        match event {
            RenewalEventView::GenerationFailed => manager.phase is Generate,
            RenewalEventView::StoreRefused(message) => manager.phase is Store && !tells_missing(message),
            RenewalEventView::CreateRefused => manager.phase is Recreate,
            _ => false,
        },
    ensures
        manager.after(event) == manager.with_phase(PhaseView::Watch),
{
}

/// A missing secret is created again with the new certificate, which is published.
pub proof fn law_missing_secret_recreated(
    manager: ManagerView,
    cert: Seq<u8>,
    key: Seq<u8>,
    message: Seq<char>,
)
    requires
        manager.phase == (PhaseView::Store { cert, key }),
        tells_missing(message),
    ensures
        ({
            let missing = manager.after(RenewalEventView::StoreRefused(message));
            &&& missing == manager.with_phase(PhaseView::Recreate { cert, key })
            &&& missing.after(RenewalEventView::Created) == manager.with_phase(PhaseView::Publish { cert })
        }),
{
}

/// A secret that is gone is created again at once, with the pair that the watching replica
/// serves, and published once it is there. Where another replica was faster, the replica goes
/// on watching, as it was if the certificate told its expiry before.
pub proof fn law_deleted_secret_recreated(manager: ManagerView)
    requires
        manager.phase is Watch,
    ensures
        ({
            let cert = manager.current.cert;
            let key = manager.current.key;
            let deleted = manager.after(RenewalEventView::Deleted);
            let created = deleted.after(RenewalEventView::Created);
            &&& deleted == (ManagerView { current: loaded(cert, key), phase: PhaseView::Recreate { cert, key } })
            &&& created == deleted.with_phase(PhaseView::Publish { cert })
            &&& created.after(RenewalEventView::Published) == deleted.with_phase(PhaseView::Watch)
            &&& deleted.after(RenewalEventView::CreateRefused) == deleted.with_phase(PhaseView::Watch)
            &&& manager.current.expiry == cert_expiry(cert) ==> deleted.after(RenewalEventView::CreateRefused)
                == manager
        }),
{
}

/// A certificate is published only once the secret holds it.
pub proof fn law_only_stored_published(manager: ManagerView, event: RenewalEventView)
    requires
        manager.phase !is Publish,
    ensures
        manager.after(event).phase matches PhaseView::Publish { cert } ==> {
            ||| event is Stored && (manager.phase matches PhaseView::Store { cert: stored, .. } && stored == cert)
            ||| event is Created && (manager.phase matches PhaseView::Recreate { cert: stored, .. } && stored == cert)
        },
{
}

proof fn lemma_steps_bounded(manager: ManagerView, events: Seq<RenewalEventView>)
    requires
        manager.awaits_all(events),
    ensures
        events.len() <= manager.steps_left(),
        events.len() == manager.steps_left() ==> manager.after_all(events).phase is Watch,
    decreases events.len(),
{
    if events.len() > 0 {
        assert(manager.after(events[0]).steps_left() < manager.steps_left());
        lemma_steps_bounded(manager.after(events[0]), events.drop_first());
    }
}

/// Whatever comes of it, a replica that has turned from watching to a renewal or to another
/// certificate watches again after six more events at the latest; and where nothing it waits
/// for happens, nothing changes.
pub proof fn law_watches_again(manager: ManagerView, events: Seq<RenewalEventView>)
    requires
        manager.awaits_all(events),
    ensures
        events.len() <= 6,
        events.len() == 6 ==> manager.after_all(events).phase is Watch,
        forall|event: RenewalEventView|
            manager.phase !is Watch && !(#[trigger] manager.awaits(event)) ==> manager.after(event) == manager,
{
    lemma_steps_bounded(manager, events);
}

/// A renewal that goes through: the replica waits, finds no fresh certificate, issues one,
/// stores and publishes it, and takes it over with the news of the changed secret.
pub proof fn law_renewal_goes_through(
    manager: ManagerView,
    jitter: u64,
    found: Option<(Seq<u8>, Seq<u8>)>,
    now: u64,
    issued: (Seq<u8>, Seq<u8>),
)
    requires
        manager.phase is Watch,
        found matches Some(pair) ==> !fresh(cert_expiry(pair.0), now),
        issued.0 != manager.current.cert,
    ensures
        manager.after_all(
            seq![
                RenewalEventView::Due { jitter },
                RenewalEventView::DelayOver,
                RenewalEventView::SecretRead { pair: found, now },
                RenewalEventView::Generated(issued.0, issued.1),
                RenewalEventView::Stored,
                RenewalEventView::Published,
                RenewalEventView::Applied(Some(issued)),
                RenewalEventView::Reloaded,
            ],
        ) == (ManagerView { current: loaded(issued.0, issued.1), phase: PhaseView::Watch }),
{
    let events = seq![
        RenewalEventView::Due { jitter },
        RenewalEventView::DelayOver,
        RenewalEventView::SecretRead { pair: found, now },
        RenewalEventView::Generated(issued.0, issued.1),
        RenewalEventView::Stored,
        RenewalEventView::Published,
        RenewalEventView::Applied(Some(issued)),
        RenewalEventView::Reloaded,
    ];
    reveal_with_fuel(ManagerView::after_all, 9);
    let rest = events.drop_first();
    assert(rest[0] == RenewalEventView::DelayOver);
    let rest = rest.drop_first();
    assert(rest[0] == (RenewalEventView::SecretRead { pair: found, now }));
    let rest = rest.drop_first();
    assert(rest[0] == RenewalEventView::Generated(issued.0, issued.1));
    let rest = rest.drop_first();
    assert(rest[0] is Stored);
    let rest = rest.drop_first();
    assert(rest[0] is Published);
    let rest = rest.drop_first();
    assert(rest[0] == RenewalEventView::Applied(Some(issued)));
    let rest = rest.drop_first();
    assert(rest[0] is Reloaded);
}

} // verus!
