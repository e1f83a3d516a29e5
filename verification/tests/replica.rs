use rustjack::cluster::tls_secret_data;
use rustjack::renewal::{
    handle_renewal_event, handle_renewal_event_at, listed_news, renewal_jitter, seconds_until_renewal,
    start_ha_tls_manager, Manager, Phase, RenewalEvent,
};
use rustjack::startup::{initialize_tls, initialize_tls_at, Startup, StartupEvent};
use rustjack::string_map::StringMap;
use rustjack::tls::{generate_certs_at, get_cert_expiry, load_tls, Tls};

fn secret(cert: &[u8], key: &[u8]) -> Option<StringMap<Vec<u8>>> {
    Some(tls_secret_data(&cert.to_vec(), &key.to_vec()))
}

fn old_tls() -> Tls {
    Tls { cert: b"old".to_vec(), key: b"old key".to_vec(), expiry: 20_000 }
}

fn in_phase(phase: Phase) -> Manager {
    Manager { current: old_tls(), phase }
}

fn assert_old(manager: &Manager) {
    assert_eq!(manager.current.cert, b"old");
    assert_eq!(manager.current.key, b"old key");
}

#[test]
fn existing_secret_is_served_and_published() {
    let (cert, key) = generate_certs_at("svc", "ns", 5).unwrap();
    match Startup::ReadSecret.step(StartupEvent::SecretRead(secret(&cert, &key))) {
        Startup::Ready { tls, publish } => {
            assert!(publish);
            assert_eq!(tls.cert, cert);
            assert_eq!(tls.key, key);
            assert_eq!(tls.expiry, 43_205);
        }
        other => panic!("{other:?}"),
    }
}

#[test]
fn certificate_is_issued_where_none_is_stored() {
    for event in [
        StartupEvent::SecretUnavailable,
        StartupEvent::SecretRead(None),
        StartupEvent::SecretRead(Some(StringMap::new())),
    ] {
        match initialize_tls(Startup::ReadSecret, event, "svc", "ns") {
            Startup::Create { cert, key } => {
                assert!(get_cert_expiry(&cert) > 43_200);
                assert!(!key.is_empty());
            }
            other => panic!("{other:?}"),
        }
    }
    assert!(matches!(Startup::ReadSecret.step(StartupEvent::SecretUnavailable), Startup::Generate));
}

#[test]
fn created_secret_is_served_and_published() {
    let (cert, key) = generate_certs_at("svc", "ns", 5).unwrap();
    let state = Startup::Generate.step(StartupEvent::Generated(Ok((cert.clone(), key.clone()))));
    match initialize_tls(state, StartupEvent::Created, "svc", "ns") {
        Startup::Ready { tls, publish } => {
            assert!(publish);
            assert_eq!(tls.cert, cert);
            assert_eq!(tls.key, key);
            assert_eq!(tls.expiry, 43_205);
        }
        other => panic!("{other:?}"),
    }
}

#[test]
fn winner_is_followed() {
    let own = Startup::Create { cert: b"own".to_vec(), key: b"own key".to_vec() };
    let late = own.step(StartupEvent::CreateRefused);
    match late.step(StartupEvent::SecretRead(secret(b"winner", b"winner key"))) {
        Startup::Ready { tls, publish } => {
            assert!(!publish);
            assert_eq!(tls.cert, b"winner");
            assert_eq!(tls.key, b"winner key");
            assert_eq!(tls.expiry, 0);
        }
        other => panic!("{other:?}"),
    }
}

#[test]
fn own_certificate_is_the_last_resort() {
    for event in [StartupEvent::SecretUnavailable, StartupEvent::SecretRead(None)] {
        let late = Startup::ReadWinner { cert: b"own".to_vec(), key: b"own key".to_vec() };
        match late.step(event) {
            Startup::Ready { tls, publish } => {
                assert!(!publish);
                assert_eq!(tls.cert, b"own");
                assert_eq!(tls.key, b"own key");
            }
            other => panic!("{other:?}"),
        }
    }
}

#[test]
fn failed_issue_ends_the_start() {
    match Startup::Generate.step(StartupEvent::Generated(Err("no entropy".to_string()))) {
        Startup::Failed { reason } => {
            assert_eq!(reason, "Cannot start without valid TLS certificates: no entropy");
        }
        other => panic!("{other:?}"),
    }
}

#[test]
fn events_out_of_turn_change_nothing_at_startup() {
    assert!(matches!(Startup::ReadSecret.step(StartupEvent::Created), Startup::ReadSecret));
    assert!(matches!(Startup::Generate.step(StartupEvent::SecretUnavailable), Startup::Generate));
    let ready = Startup::Ready { tls: old_tls(), publish: true };
    assert!(matches!(ready.step(StartupEvent::CreateRefused), Startup::Ready { publish: true, .. }));
}

#[test]
fn wait_until_renewal() {
    assert_eq!(seconds_until_renewal(43_200, 0), 9 * 3_600);
    assert_eq!(seconds_until_renewal(43_200, 32_399), 1);
    assert_eq!(seconds_until_renewal(43_200, 32_400), 0);
    assert_eq!(seconds_until_renewal(43_200, 50_000), 0);
    assert_eq!(seconds_until_renewal(0, 0), 0);
    assert_eq!(seconds_until_renewal(10_800, 0), 0);
    assert_eq!(seconds_until_renewal(10_801, 0), 1);
    assert_eq!(seconds_until_renewal(u64::MAX, u64::MAX), 0);
    assert_eq!(seconds_until_renewal(u64::MAX, 0), u64::MAX - 10_800);
}

#[test]
fn issued_certificate_waits_nine_hours() {
    let (cert, key) = generate_certs_at("svc", "ns", 1_700_000_000).unwrap();
    let manager = start_ha_tls_manager(load_tls(cert, key));
    assert!(matches!(manager.phase, Phase::Watch));
    assert_eq!(manager.seconds_to_wait(1_700_000_000), 32_400);
    assert_eq!(manager.seconds_to_wait(1_700_032_400), 0);
}

#[test]
fn jitter_is_short_and_varies() {
    let mut seen: Vec<u64> = Vec::new();
    for _ in 0..500 {
        let jitter = renewal_jitter();
        assert!(jitter <= 60);
        if !seen.contains(&jitter) {
            seen.push(jitter);
        }
    }
    assert!(seen.len() > 1);
}

#[test]
fn news_changes_the_certificate() {
    let (cert, key) = generate_certs_at("svc", "ns", 7).unwrap();
    let manager = in_phase(Phase::Watch).step(RenewalEvent::Applied(secret(&cert, &key)));
    assert!(matches!(manager.phase, Phase::Reload));
    assert_eq!(manager.current.cert, cert);
    assert_eq!(manager.current.key, key);
    assert_eq!(manager.current.expiry, 43_207);
    let manager = manager.step(RenewalEvent::Reloaded);
    assert!(matches!(manager.phase, Phase::Watch));
    let manager = manager.step(RenewalEvent::Applied(secret(&cert, b"other key")));
    assert!(matches!(manager.phase, Phase::Watch));
    assert_eq!(manager.current.key, key);
}

#[test]
fn empty_news_is_ignored() {
    for event in [
        RenewalEvent::Applied(None),
        RenewalEvent::Applied(Some(StringMap::new())),
        RenewalEvent::OtherNews,
        RenewalEvent::Applied(secret(b"old", b"new key")),
    ] {
        let manager = in_phase(Phase::Watch).step(event);
        assert!(matches!(manager.phase, Phase::Watch));
        assert_old(&manager);
        assert_eq!(manager.current.expiry, 20_000);
    }
}

#[test]
fn replicas_agree_after_news() {
    let first = in_phase(Phase::Watch).step(RenewalEvent::Applied(secret(b"new", b"new key")));
    let second = start_ha_tls_manager(Tls { cert: b"x".to_vec(), key: Vec::new(), expiry: 1 });
    let second = second.step(RenewalEvent::Applied(secret(b"new", b"new key")));
    assert_eq!(first.current.cert, second.current.cert);
    assert_eq!(first.current.key, second.current.key);
    assert_eq!(first.current.expiry, second.current.expiry);
}

#[test]
fn due_certificate_waits_and_rechecks() {
    let manager = in_phase(Phase::Watch).step(RenewalEvent::Due { jitter: 17 });
    assert!(matches!(manager.phase, Phase::Delay { seconds: 17 }));
    let manager = manager.step(RenewalEvent::DelayOver);
    assert!(matches!(manager.phase, Phase::Recheck));
    assert_old(&manager);
}

#[test]
fn renewed_elsewhere_is_not_renewed_again() {
    let (cert, key) = generate_certs_at("svc", "ns", 20_000).unwrap();
    let event = RenewalEvent::SecretRead { data: secret(&cert, &key), now: 20_030 };
    let handled = handle_renewal_event(in_phase(Phase::Recheck), event, "svc", "ns");
    assert!(handled.failure.is_none());
    assert!(matches!(handled.manager.phase, Phase::Watch));
    assert_old(&handled.manager);
    assert_eq!(handled.manager.current.expiry, 63_200);
    assert_eq!(handled.manager.seconds_to_wait(20_030), 32_370);
}

#[test]
fn stale_secret_is_renewed() {
    let (cert, key) = generate_certs_at("svc", "ns", 0).unwrap();
    for event in [
        RenewalEvent::SecretRead { data: secret(&cert, &key), now: 32_400 },
        RenewalEvent::SecretRead { data: None, now: 0 },
        RenewalEvent::SecretRead { data: Some(StringMap::new()), now: 0 },
        RenewalEvent::SecretUnavailable,
    ] {
        let handled = handle_renewal_event(in_phase(Phase::Recheck), event, "svc", "ns");
        assert!(handled.failure.is_none());
        assert_old(&handled.manager);
        match handled.manager.phase {
            Phase::Store { cert: issued, .. } => assert!(get_cert_expiry(&issued) > 43_200),
            other => panic!("{other:?}"),
        }
    }
    let event = RenewalEvent::SecretRead { data: secret(&cert, &key), now: 32_399 };
    assert!(matches!(in_phase(Phase::Recheck).step(event).phase, Phase::Watch));
}

#[test]
fn failed_issue_is_tried_again() {
    let manager = in_phase(Phase::Generate).step(RenewalEvent::Generated(Err("no entropy".to_string())));
    assert!(matches!(manager.phase, Phase::Watch));
    assert_old(&manager);
    assert_eq!(manager.seconds_to_wait(20_000), 0);
}

#[test]
fn renewal_goes_through() {
    let pair = (b"new".to_vec(), b"new key".to_vec());
    let manager = in_phase(Phase::Generate).step(RenewalEvent::Generated(Ok(pair)));
    let manager = manager.step(RenewalEvent::Stored);
    match &manager.phase {
        Phase::Publish { cert } => assert_eq!(cert, b"new"),
        other => panic!("{other:?}"),
    }
    assert_old(&manager);
    let manager = manager.step(RenewalEvent::Published);
    assert!(matches!(manager.phase, Phase::Watch));
    let manager = manager.step(RenewalEvent::Applied(secret(b"new", b"new key")));
    assert_eq!(manager.current.cert, b"new");
    assert!(matches!(manager.step(RenewalEvent::Reloaded).phase, Phase::Watch));
}

#[test]
fn missing_secret_is_recreated() {
    let store = || in_phase(Phase::Store { cert: b"new".to_vec(), key: b"new key".to_vec() });
    let manager = store().step(RenewalEvent::StoreRefused("secrets not found: NotFound".to_string()));
    match &manager.phase {
        Phase::Recreate { cert, key } => {
            assert_eq!(cert, b"new");
            assert_eq!(key, b"new key");
        }
        other => panic!("{other:?}"),
    }
    match manager.step(RenewalEvent::Created).phase {
        Phase::Publish { cert } => assert_eq!(cert, b"new"),
        other => panic!("{other:?}"),
    }
    let manager = store().step(RenewalEvent::StoreRefused("code 404".to_string()));
    let manager = manager.step(RenewalEvent::CreateRefused);
    assert!(matches!(manager.phase, Phase::Watch));
    assert_old(&manager);
}

#[test]
fn refused_patch_is_given_up() {
    let store = in_phase(Phase::Store { cert: b"new".to_vec(), key: b"new key".to_vec() });
    let manager = store.step(RenewalEvent::StoreRefused("Conflict".to_string()));
    assert!(matches!(manager.phase, Phase::Watch));
    assert_old(&manager);
}

#[test]
fn events_out_of_turn_change_nothing_when_running() {
    assert!(matches!(in_phase(Phase::Watch).step(RenewalEvent::Stored).phase, Phase::Watch));
    let manager = in_phase(Phase::Recheck).step(RenewalEvent::Applied(secret(b"new", b"new key")));
    assert!(matches!(manager.phase, Phase::Recheck));
    assert_old(&manager);
}

#[test]
fn unreadable_certificate_is_renewed_at_once() {
    let manager = start_ha_tls_manager(load_tls(b"junk".to_vec(), b"junk".to_vec()));
    assert_eq!(manager.seconds_to_wait(0), 0);
    assert_eq!(manager.seconds_to_wait(1_700_000_000), 0);
}

fn assert_recreates_old(manager: &Manager) {
    match &manager.phase {
        Phase::Recreate { cert, key } => {
            assert_eq!(cert, b"old");
            assert_eq!(key, b"old key");
        }
        other => panic!("{other:?}"),
    }
    assert_old(manager);
}

#[test]
fn deleted_secret_is_recreated_at_once() {
    let manager = in_phase(Phase::Watch).step(RenewalEvent::Deleted);
    assert_recreates_old(&manager);
    let manager = manager.step(RenewalEvent::Created);
    match &manager.phase {
        Phase::Publish { cert } => assert_eq!(cert, b"old"),
        other => panic!("{other:?}"),
    }
    let manager = manager.step(RenewalEvent::Published);
    assert!(matches!(manager.phase, Phase::Watch));
    assert_old(&manager);
}

#[test]
fn deleted_secret_recreated_elsewhere() {
    let (cert, key) = generate_certs_at("svc", "ns", 1_000).unwrap();
    let manager = start_ha_tls_manager(load_tls(cert.clone(), key.clone()));
    let manager = manager.step(RenewalEvent::Deleted).step(RenewalEvent::CreateRefused);
    assert!(matches!(manager.phase, Phase::Watch));
    assert_eq!(manager.current.cert, cert);
    assert_eq!(manager.current.key, key);
    assert_eq!(manager.current.expiry, 44_200);
}

#[test]
fn recreated_certificate_tells_its_own_expiry() {
    let (cert, key) = generate_certs_at("svc", "ns", 1_000).unwrap();
    let tls = Tls { cert, key, expiry: 90_000 };
    let manager = start_ha_tls_manager(tls).step(RenewalEvent::Deleted);
    assert_eq!(manager.current.expiry, 44_200);
}

#[test]
fn deletion_counts_only_while_watching() {
    let manager = in_phase(Phase::Recheck).step(RenewalEvent::Deleted);
    assert!(matches!(manager.phase, Phase::Recheck));
    assert_eq!(manager.current.expiry, 20_000);
}

#[test]
fn lists_are_news() {
    assert_recreates_old(&in_phase(Phase::Watch).step(listed_news(Vec::new())));
    let manager = in_phase(Phase::Watch).step(listed_news(vec![secret(b"new", b"new key")]));
    assert!(matches!(manager.phase, Phase::Reload));
    assert_eq!(manager.current.cert, b"new");
    assert_eq!(manager.current.key, b"new key");
    let manager = in_phase(Phase::Watch).step(listed_news(vec![None]));
    assert!(matches!(manager.phase, Phase::Watch));
    assert_old(&manager);
}

#[test]
fn stored_pair_is_served_under_any_name() {
    let event = StartupEvent::SecretRead(secret(b"c", b"k"));
    assert!(!Startup::ReadSecret.must_issue(&event));
    match initialize_tls(Startup::ReadSecret, event, "d\u{e9}p\u{f4}t", "\u{fc}ber") {
        Startup::Ready { tls, publish } => {
            assert!(publish);
            assert_eq!(tls.cert, b"c");
            assert_eq!(tls.key, b"k");
            assert_eq!(tls.expiry, 0);
        }
        other => panic!("{other:?}"),
    }
}

#[test]
fn news_counts_under_any_name() {
    let event = RenewalEvent::Applied(secret(b"new", b"new key"));
    let handled = handle_renewal_event(in_phase(Phase::Watch), event, "\u{e9}", "\u{e9}");
    assert_eq!(handled.manager.current.cert, b"new");
    assert!(handled.failure.is_none());
}

#[test]
fn certificate_is_issued_at_the_given_second() {
    match initialize_tls_at(Startup::ReadSecret, StartupEvent::SecretUnavailable, "svc", "ns", 100) {
        Startup::Create { cert, .. } => assert_eq!(get_cert_expiry(&cert), 43_300),
        other => panic!("{other:?}"),
    }
    let event = RenewalEvent::SecretUnavailable;
    let handled = handle_renewal_event_at(in_phase(Phase::Recheck), event, "svc", "ns", 100);
    match handled.manager.phase {
        Phase::Store { cert, .. } => assert_eq!(get_cert_expiry(&cert), 43_300),
        other => panic!("{other:?}"),
    }
}

#[test]
fn failed_issue_is_reported() {
    let message = "Failed to create certificate params: the validity is out of range";
    let event = RenewalEvent::SecretUnavailable;
    let handled = handle_renewal_event_at(in_phase(Phase::Recheck), event, "svc", "ns", i64::MAX);
    assert_eq!(handled.failure.unwrap(), message);
    assert!(matches!(handled.manager.phase, Phase::Watch));
    match initialize_tls_at(Startup::ReadSecret, StartupEvent::SecretUnavailable, "svc", "ns", i64::MAX) {
        Startup::Failed { reason } => {
            assert_eq!(reason, format!("Cannot start without valid TLS certificates: {message}"));
        }
        other => panic!("{other:?}"),
    }
}

#[test]
fn issuing_is_announced() {
    assert!(Startup::ReadSecret.must_issue(&StartupEvent::SecretUnavailable));
    assert!(Startup::ReadSecret.must_issue(&StartupEvent::SecretRead(None)));
    assert!(!Startup::ReadSecret.must_issue(&StartupEvent::Created));
    assert!(Startup::Generate.must_issue(&StartupEvent::Created));
    assert!(!Startup::Generate.must_issue(&StartupEvent::Generated(Err(String::new()))));
    let (cert, key) = generate_certs_at("svc", "ns", 0).unwrap();
    let read = |now: u64| RenewalEvent::SecretRead { data: secret(&cert, &key), now };
    assert!(in_phase(Phase::Recheck).must_issue(&read(32_400)));
    assert!(!in_phase(Phase::Recheck).must_issue(&read(32_399)));
    assert!(in_phase(Phase::Recheck).must_issue(&RenewalEvent::SecretUnavailable));
    assert!(!in_phase(Phase::Watch).must_issue(&RenewalEvent::Deleted));
}
