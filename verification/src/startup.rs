//! How a replica comes by its first certificate: from the secret, or by issuing one and
//! storing it before the other replicas do.
//!
//! The state says what to do next, and the event is what came of it. Each state that is not
//! final waits for the answer to one request to the cluster.
use crate::cluster::{data_view, stored_pair, stored_tls};
use crate::string_map::StringMap;
use crate::tls::{cert_expiry, current_second, generate_certs_at, issued_at, load_tls, loaded, Tls, TlsView};
use vstd::prelude::*;

verus! {

/// What a starting replica has to do next.
#[derive(Debug)]
pub enum Startup {
    /// Read the secret.
    ReadSecret,
    /// Issue a certificate.
    Generate,
    /// Create the secret with this certificate.
    Create { cert: Vec<u8>, key: Vec<u8> },
    /// Read the secret that another replica has created first.
    ReadWinner { cert: Vec<u8>, key: Vec<u8> },
    /// Serve this certificate, and first publish it if `publish` is set.
    Ready { tls: Tls, publish: bool },
    /// Give up.
    Failed { reason: String },
}

pub enum StartupView {
    ReadSecret,
    Generate,
    Create { cert: Seq<u8>, key: Seq<u8> },
    ReadWinner { cert: Seq<u8>, key: Seq<u8> },
    Ready { tls: TlsView, publish: bool },
    Failed { reason: Seq<char> },
}

impl View for Startup {
    type V = StartupView;

    open spec fn view(&self) -> StartupView {
        match *self {
            Startup::ReadSecret => StartupView::ReadSecret,
            Startup::Generate => StartupView::Generate,
            Startup::Create { cert, key } => StartupView::Create { cert: cert@, key: key@ },
            Startup::ReadWinner { cert, key } => StartupView::ReadWinner { cert: cert@, key: key@ },
            Startup::Ready { tls, publish } => StartupView::Ready { tls: tls@, publish },
            Startup::Failed { reason } => StartupView::Failed { reason: reason@ },
        }
    }
}

/// What came of a request.
#[derive(Debug)]
pub enum StartupEvent {
    /// The secret was read; with its data.
    SecretRead(Option<StringMap<Vec<u8>>>),
    /// The secret could not be read.
    SecretUnavailable,
    /// A certificate was issued, or not.
    Generated(Result<(Vec<u8>, Vec<u8>), String>),
    /// The secret was created.
    Created,
    /// The secret was not created.
    CreateRefused,
}

/// What came of a request. Of a secret only the certificate and the private key count.
pub enum StartupEventView {
    SecretRead(Option<(Seq<u8>, Seq<u8>)>),
    SecretUnavailable,
    Generated(Seq<u8>, Seq<u8>),
    GenerationFailed(Seq<char>),
    Created,
    CreateRefused,
}

impl View for StartupEvent {
    type V = StartupEventView;

    open spec fn view(&self) -> StartupEventView {
        match *self {
            StartupEvent::SecretRead(data) => StartupEventView::SecretRead(stored_pair(data_view(data))),
            StartupEvent::SecretUnavailable => StartupEventView::SecretUnavailable,
            StartupEvent::Generated(Ok(pair)) => StartupEventView::Generated(pair.0@, pair.1@),
            StartupEvent::Generated(Err(message)) => StartupEventView::GenerationFailed(message@),
            StartupEvent::Created => StartupEventView::Created,
            StartupEvent::CreateRefused => StartupEventView::CreateRefused,
        }
    }
}

impl StartupView {
    /// Whether the replica has nothing more to do.
    pub open spec fn finished(self) -> bool {
        self is Ready || self is Failed
    }

    /// Whether an event is an answer to what the replica does.
    pub open spec fn awaits(self, event: StartupEventView) -> bool {
        match self {
            StartupView::ReadSecret => event is SecretRead || event is SecretUnavailable,
            StartupView::Generate => event is Generated || event is GenerationFailed,
            StartupView::Create { .. } => event is Created || event is CreateRefused,
            StartupView::ReadWinner { .. } => event is SecretRead || event is SecretUnavailable,
            StartupView::Ready { .. } => false,
            StartupView::Failed { .. } => false,
        }
    }

    /// What to do after an event. Only an answer changes anything.
    ///
    /// A certificate that the secret holds is served and published. Otherwise one is issued,
    /// and served and published if the secret can be created with it. A replica that comes
    /// too late serves what the secret holds by now, or else its own certificate, and
    /// publishes neither.
    pub open spec fn after(self, event: StartupEventView) -> StartupView {
        match (self, event) {
            (StartupView::ReadSecret, StartupEventView::SecretRead(Some((cert, key)))) => StartupView::Ready {
                tls: loaded(cert, key),
                publish: true,
            },
            (StartupView::ReadSecret, StartupEventView::SecretRead(None)) => StartupView::Generate,
            (StartupView::ReadSecret, StartupEventView::SecretUnavailable) => StartupView::Generate,
            (StartupView::Generate, StartupEventView::Generated(cert, key)) => StartupView::Create { cert, key },
            (StartupView::Generate, StartupEventView::GenerationFailed(message)) => StartupView::Failed {
                reason: "Cannot start without valid TLS certificates: "@ + message,
            },
            (StartupView::Create { cert, key }, StartupEventView::Created) => StartupView::Ready {
                tls: loaded(cert, key),
                publish: true,
            },
            (StartupView::Create { cert, key }, StartupEventView::CreateRefused) => StartupView::ReadWinner {
                cert,
                key,
            },
            (StartupView::ReadWinner { .. }, StartupEventView::SecretRead(Some((cert, key)))) => StartupView::Ready {
                tls: loaded(cert, key),
                publish: false,
            },
            (StartupView::ReadWinner { cert, key }, StartupEventView::SecretRead(None)) => StartupView::Ready {
                tls: loaded(cert, key),
                publish: false,
            },
            (StartupView::ReadWinner { cert, key }, StartupEventView::SecretUnavailable) => StartupView::Ready {
                tls: loaded(cert, key),
                publish: false,
            },
            (state, _) => state,
        }
    }

    /// What to do after a number of events.
    pub open spec fn after_all(self, events: Seq<StartupEventView>) -> StartupView
        decreases events.len(),
    {
        if events.len() == 0 {
            self
        } else {
            self.after(events[0]).after_all(events.drop_first())
        }
    }

    /// Whether every one of a number of events is an answer.
    pub open spec fn awaits_all(self, events: Seq<StartupEventView>) -> bool
        decreases events.len(),
    {
        events.len() == 0 || self.awaits(events[0]) && self.after(events[0]).awaits_all(events.drop_first())
    }

    /// How many requests may still follow.
    pub open spec fn requests_left(self) -> nat {
        match self {
            StartupView::ReadSecret => 4,
            StartupView::Generate => 3,
            StartupView::Create { .. } => 2,
            StartupView::ReadWinner { .. } => 1,
            _ => 0,
        }
    }
}

impl Startup {
    /// Goes on after an event.
    pub fn step(self, event: StartupEvent) -> (next: Startup)
        ensures
            next@ == self@.after(event@),
    {
        match (self, event) {
            (Startup::ReadSecret, StartupEvent::SecretRead(data)) => match stored_tls(&data) {
                Some((cert, key)) => Startup::Ready { tls: load_tls(cert, key), publish: true },
                None => Startup::Generate,
            },
            (Startup::ReadSecret, StartupEvent::SecretUnavailable) => Startup::Generate,
            (Startup::Generate, StartupEvent::Generated(Ok((cert, key)))) => Startup::Create { cert, key },
            (Startup::Generate, StartupEvent::Generated(Err(message))) => {
                let reason = "Cannot start without valid TLS certificates: ".to_owned().concat(message.as_str());
                Startup::Failed { reason }
            },
            (Startup::Create { cert, key }, StartupEvent::Created) => {
                Startup::Ready { tls: load_tls(cert, key), publish: true }
            },
            (Startup::Create { cert, key }, StartupEvent::CreateRefused) => Startup::ReadWinner { cert, key },
            (Startup::ReadWinner { cert, key }, StartupEvent::SecretRead(data)) => match stored_tls(&data) {
                Some((cert, key)) => Startup::Ready { tls: load_tls(cert, key), publish: false },
                None => Startup::Ready { tls: load_tls(cert, key), publish: false },
            },
            (Startup::ReadWinner { cert, key }, StartupEvent::SecretUnavailable) => {
                Startup::Ready { tls: load_tls(cert, key), publish: false }
            },
            (state, _) => state,
        }
    }

    /// Whether a certificate has to be issued after an event.
    pub fn must_issue(&self, event: &StartupEvent) -> (must: bool)
        ensures
            must == (self@.after(event@) is Generate),
    {
        match (self, event) {
            (Startup::ReadSecret, StartupEvent::SecretRead(data)) => stored_tls(data).is_none(),
            (Startup::ReadSecret, StartupEvent::SecretUnavailable) => true,
            (Startup::Generate, StartupEvent::Generated(_)) => false,
            (Startup::Generate, _) => true,
            _ => false,
        }
    }
}


/// Whether a state can come after an event at some time, where a certificate is issued as
/// soon as one is needed.
pub open spec fn initialized_at(
    state: StartupView,
    event: StartupEventView,
    svc_name: Seq<char>,
    namespace: Seq<char>,
    now: i64,
    next: StartupView,
) -> bool {
    if state.after(event) is Generate {
        exists|issued: Result<(Vec<u8>, Vec<u8>), String>|
            {
                &&& #[trigger] issued_at(svc_name, namespace, now, issued)
                &&& next == StartupView::Generate.after(StartupEvent::Generated(issued)@)
            }
    } else {
        next == state.after(event)
    }
}

/// Goes on after an event at a given second, and issues a certificate as soon as one is
/// needed.
pub fn initialize_tls_at(
    state: Startup,
    event: StartupEvent,
    svc_name: &str,
    namespace: &str,
    now: i64,
) -> (next: Startup)
    requires
        state@.after(event@) is Generate ==> svc_name.is_ascii() && namespace.is_ascii(),
    ensures
        initialized_at(state@, event@, svc_name@, namespace@, now, next@),
        next@ !is Generate,
{
    let next = state.step(event);
    match next {
        Startup::Generate => next.step(StartupEvent::Generated(generate_certs_at(svc_name, namespace, now))),
        _ => next,
    }
}

/// Goes on after an event, and issues a certificate as soon as one is needed.
pub fn initialize_tls(state: Startup, event: StartupEvent, svc_name: &str, namespace: &str) -> (next: Startup)
    requires
        state@.after(event@) is Generate ==> svc_name.is_ascii() && namespace.is_ascii(),
    ensures
        exists|now: i64| #[trigger] initialized_at(state@, event@, svc_name@, namespace@, now, next@),
        next@ !is Generate,
{
    initialize_tls_at(state, event, svc_name, namespace, current_second())
}

/// A replica that has more to do gets on with every answer.
proof fn lemma_answer_brings_on(state: StartupView, event: StartupEventView)
    requires
        state.awaits(event),
    ensures
        state.after(event).requests_left() < state.requests_left(),
{
}

proof fn lemma_answers_bounded(state: StartupView, events: Seq<StartupEventView>)
    requires
        state.awaits_all(events),
    ensures
        events.len() <= state.requests_left(),
        events.len() == state.requests_left() ==> state.after_all(events).finished(),
    decreases events.len(),
{
    if events.len() > 0 {
        lemma_answer_brings_on(state, events[0]);
        lemma_answers_bounded(state.after(events[0]), events.drop_first());
    }
}

/// A replica starts or gives up after four answers at the latest, and until that it waits for
/// an answer.
pub proof fn law_startup_ends(events: Seq<StartupEventView>)
    requires
        StartupView::ReadSecret.awaits_all(events),
    ensures
        events.len() <= 4,
        events.len() == 4 ==> StartupView::ReadSecret.after_all(events).finished(),
        StartupView::ReadSecret.after_all(events).finished() <==> forall|event: StartupEventView|
            !(#[trigger] StartupView::ReadSecret.after_all(events).awaits(event)),
{
    lemma_answers_bounded(StartupView::ReadSecret, events);
    let state = StartupView::ReadSecret.after_all(events);
    if !state.finished() {
        assert(state is Create ==> state.awaits(StartupEventView::Created));
        assert(state is Generate ==> state.awaits(StartupEventView::GenerationFailed(Seq::empty())));
        assert(state is ReadSecret || state is ReadWinner ==> state.awaits(StartupEventView::SecretUnavailable));
    }
}

proof fn lemma_expiry_known(state: StartupView, events: Seq<StartupEventView>)
    requires
        state matches StartupView::Ready { tls, .. } ==> tls == loaded(tls.cert, tls.key),
    ensures
        state.after_all(events) matches StartupView::Ready { tls, .. } ==> tls == loaded(tls.cert, tls.key),
    decreases events.len(),
{
    if events.len() > 0 {
        lemma_expiry_known(state.after(events[0]), events.drop_first());
    }
}

/// A replica that starts knows when the certificate that it serves expires.
pub proof fn law_expiry_known(events: Seq<StartupEventView>)
    ensures
        StartupView::ReadSecret.after_all(events) matches StartupView::Ready { tls, .. } ==> tls.expiry == cert_expiry(
            tls.cert,
        ),
{
    lemma_expiry_known(StartupView::ReadSecret, events);
}

/// Whether the certificate that a state holds came with its private key from one of some
/// events: it was issued, or was read from the secret and is served.
spec fn of_one_source(state: StartupView, events: Seq<StartupEventView>) -> bool {
    match state {
        StartupView::Create { cert, key } => events.contains(StartupEventView::Generated(cert, key)),
        StartupView::ReadWinner { cert, key } => events.contains(StartupEventView::Generated(cert, key)),
        StartupView::Ready { tls, .. } => {
            ||| events.contains(StartupEventView::SecretRead(Some((tls.cert, tls.key))))
            ||| events.contains(StartupEventView::Generated(tls.cert, tls.key))
        },
        _ => true,
    }
}

proof fn lemma_of_one_source(state: StartupView, past: Seq<StartupEventView>, events: Seq<StartupEventView>)
    requires
        of_one_source(state, past),
    ensures
        of_one_source(state.after_all(events), past + events),
    decreases events.len(),
{
    if events.len() == 0 {
        assert(past + events == past);
    } else {
        let now = past.push(events[0]);
        assert(forall|event: StartupEventView| past.contains(event) ==> now.contains(event)) by {
            assert(forall|i: int| 0 <= i < past.len() ==> now[i] == past[i]);
        }
        assert(now[past.len() as int] == events[0]);
        assert(of_one_source(state.after(events[0]), now));
        lemma_of_one_source(state.after(events[0]), now, events.drop_first());
        assert(now + events.drop_first() == past + events);
    }
}

/// The certificate and the private key that a replica starts with belong together: they were
/// read from one secret, or issued as one pair.
pub proof fn law_served_pair_of_one_source(events: Seq<StartupEventView>)
    ensures
        StartupView::ReadSecret.after_all(events) matches StartupView::Ready { tls, .. } ==> {
            ||| events.contains(StartupEventView::SecretRead(Some((tls.cert, tls.key))))
            ||| events.contains(StartupEventView::Generated(tls.cert, tls.key))
        },
{
    lemma_of_one_source(StartupView::ReadSecret, Seq::empty(), events);
    assert(Seq::<StartupEventView>::empty() + events == events);
}

/// A certificate that the secret holds is served and published, and none is issued.
pub proof fn law_existing_certificate_kept(cert: Seq<u8>, key: Seq<u8>)
    ensures
        StartupView::ReadSecret.after(StartupEventView::SecretRead(Some((cert, key)))) == (StartupView::Ready {
            tls: loaded(cert, key),
            publish: true,
        }),
{
}

/// Where the secret cannot be read or holds no certificate, whatever the reason, a replica
/// does from then on what one does that issues and stores a certificate, and nothing more.
pub proof fn law_absent_certificate_issued(
    answer: StartupEventView,
    events: Seq<StartupEventView>,
)
    requires
        answer == StartupEventView::SecretRead(None) || answer is SecretUnavailable,
    ensures
        StartupView::ReadSecret.after(answer) is Generate,
        StartupView::ReadSecret.after_all(seq![answer] + events) == StartupView::Generate.after_all(events),
{
    assert((seq![answer] + events).drop_first() == events);
}

/// A replica that finds the secret created by another one serves the certificate of that
/// secret and not its own, as the other replica does, and leaves publishing to it.
pub proof fn law_winner_followed(own: (Seq<u8>, Seq<u8>), winner: (Seq<u8>, Seq<u8>))
    ensures
        ({
            let created = StartupView::Create { cert: winner.0, key: winner.1 }.after(StartupEventView::Created);
            let late = StartupView::Create { cert: own.0, key: own.1 }.after(StartupEventView::CreateRefused).after(
                StartupEventView::SecretRead(Some(winner)),
            );
            &&& created matches StartupView::Ready { tls: served, publish: true } && served == loaded(winner.0, winner.1)
            &&& late matches StartupView::Ready { tls: served, publish: false } && served == loaded(winner.0, winner.1)
        }),
{
}

/// A certificate is published only if the secret holds it: it was read from there, or the
/// secret was created with it.
pub proof fn law_only_stored_published(state: StartupView, event: StartupEventView)
    requires
        !state.finished(),
    ensures
        state.after(event) matches StartupView::Ready { tls, publish: true } ==> {
            ||| event == StartupEventView::SecretRead(Some((tls.cert, tls.key)))
            ||| event is Created && state == (StartupView::Create { cert: tls.cert, key: tls.key })
        },
{
}

/// A replica gives up only because no certificate was issued.
pub proof fn law_only_issuing_fails(state: StartupView, event: StartupEventView)
    requires
        !state.finished(),
        state.after(event) is Failed,
    ensures
        state is Generate,
        event is GenerationFailed,
{
}

} // verus!
