use validator::database::{Server, ServerStatus};
use validator::engine::{Action, EngineError, Event, Outcome, ServerRun, Settings};
use validator::pass::{processing_order, Pass, PassError};
use validator::geoip::GeoLookup;
use validator::smp::ProbeError;

fn server(uuid: &str, protocol: i64, identity: &str, host: &str) -> Server {
    Server {
        uuid: uuid.to_string(),
        protocol,
        identity: identity.to_string(),
        host: host.to_string(),
    }
}

fn settings(retry_count: u32, dry: bool) -> Settings {
    Settings {
        retry_count,
        dry,
        tor_socks5_proxy: "socks5h://localhost:9050".to_string(),
        delete_official: true,
    }
}

fn expect_probe(run: &ServerRun, expected_uri: &str, expected_attempt: u32) {
    match run.pending() {
        Action::Probe { uri, attempt } => {
            assert_eq!(uri, expected_uri);
            assert_eq!(attempt, expected_attempt);
        }
        other => panic!("expected a probe, got {:?}", other),
    }
}

fn expect_locate(run: &ServerRun, expected: &str) {
    match run.pending() {
        Action::Locate { domain } => assert_eq!(domain, expected),
        other => panic!("expected a lookup, got {:?}", other),
    }
}

fn expect_fetch(run: &ServerRun, expected_url: &str, expected_proxy: Option<&str>) {
    match run.pending() {
        Action::Fetch { url, proxy, timeout_secs } => {
            assert_eq!(url, expected_url);
            assert_eq!(proxy, expected_proxy);
            assert_eq!(timeout_secs, 5);
        }
        other => panic!("expected a fetch, got {:?}", other),
    }
}

fn expect_store(run: &ServerRun, uuid: &str, status: bool, country: Option<&str>, page: bool) {
    match run.pending() {
        Action::Store(ServerStatus { server_uuid, status: s, country: c, info_page_available }) => {
            assert_eq!(server_uuid, uuid);
            assert_eq!(s, status);
            assert_eq!(c, country);
            assert_eq!(info_page_available, page);
        }
        other => panic!("expected a write, got {:?}", other),
    }
}

fn expect_finish(run: &ServerRun, expected: Outcome) {
    match run.pending() {
        Action::Finish(outcome) => assert_eq!(outcome, expected),
        other => panic!("expected the end, got {:?}", other),
    }
    assert!(run.is_done());
}

#[test]
fn live_server_is_recorded() {
    let s = server("a1", 1, "k1", "example.com:5223");
    let mut run = ServerRun::begin(&s, &settings(3, false));
    assert!(!run.is_done());
    expect_probe(&run, "smp://k1@example.com:5223", 1);
    run.advance(Event::Probed(Ok(true)));
    expect_locate(&run, "example.com");
    run.advance(Event::Located(GeoLookup::Country("US".to_string())));
    expect_fetch(&run, "https://example.com", None);
    run.advance(Event::Fetched(Some("<title>SimpleX server</title>".to_string())));
    expect_store(&run, "a1", true, Some("US"), true);
    let record = run.status_record();
    assert_eq!(record.server_uuid, "a1");
    assert!(record.status);
    assert_eq!(record.country, Some("US"));
    assert!(record.info_page_available);
    run.advance(Event::Stored(true));
    expect_finish(&run, Outcome::Recorded);
}

#[test]
fn silent_server_is_recorded_as_down() {
    let s = server("a1", 1, "k1", "example.com:5223");
    let mut run = ServerRun::begin(&s, &settings(3, false));
    expect_probe(&run, "smp://k1@example.com:5223", 1);
    run.advance(Event::Probed(Ok(false)));
    expect_probe(&run, "smp://k1@example.com:5223", 2);
    run.advance(Event::Probed(Ok(false)));
    expect_probe(&run, "smp://k1@example.com:5223", 3);
    run.advance(Event::Probed(Ok(false)));
    expect_locate(&run, "example.com");
    run.advance(Event::Located(GeoLookup::NoEntry));
    expect_fetch(&run, "https://example.com", None);
    run.advance(Event::Fetched(None));
    expect_store(&run, "a1", false, None, false);
    run.advance(Event::Stored(true));
    expect_finish(&run, Outcome::Recorded);
}

#[test]
fn onion_server_goes_through_the_proxy() {
    let s = server("o1", 1, "k1", "xyzxyzxyz.onion");
    let mut run = ServerRun::begin(&s, &settings(1, false));
    expect_probe(&run, "smp://k1@xyzxyzxyz.onion", 1);
    run.advance(Event::Probed(Ok(true)));
    expect_fetch(&run, "http://xyzxyzxyz.onion", Some("socks5h://localhost:9050"));
    run.advance(Event::Fetched(Some("simplex".to_string())));
    expect_store(&run, "o1", true, Some("TOR"), true);
    run.advance(Event::Stored(true));
    expect_finish(&run, Outcome::Recorded);
}

#[test]
fn first_host_decides_the_country() {
    let s = server("o2", 2, "k1", "example.com:443,abc.onion");
    let mut run = ServerRun::begin(&s, &settings(1, false));
    expect_probe(&run, "xftp://k1@example.com:443,abc.onion", 1);
    run.advance(Event::Probed(Ok(false)));
    expect_locate(&run, "example.com");
    run.advance(Event::Located(GeoLookup::Country("US".to_string())));
    expect_fetch(&run, "https://example.com", None);
    run.advance(Event::Fetched(None));
    expect_store(&run, "o2", false, Some("US"), false);

    let s = server("o3", 1, "k1", "abc.onion:443,example.com");
    let mut run = ServerRun::begin(&s, &settings(1, false));
    run.advance(Event::Probed(Ok(true)));
    expect_fetch(&run, "http://abc.onion", Some("socks5h://localhost:9050"));
    run.advance(Event::Located(GeoLookup::Country("US".to_string())));
    expect_fetch(&run, "http://abc.onion", Some("socks5h://localhost:9050"));
    run.advance(Event::Fetched(None));
    expect_store(&run, "o3", true, Some("TOR"), false);
}

#[test]
fn malformed_uri_is_skipped_and_the_next_server_is_handled() {
    let servers = vec![
        server("bad", 7, "k", "bad"),
        server("a1", 1, "k1", "example.com:5223"),
    ];
    let cfg = settings(1, false);
    let mut outcomes = Vec::new();
    for s in &servers {
        let mut run = ServerRun::begin(s, &cfg);
        loop {
            let event = match run.pending() {
                Action::Probe { .. } => Event::Probed(Ok(true)),
                Action::Locate { .. } => Event::Located(GeoLookup::Country("US".to_string())),
                Action::Fetch { .. } => Event::Fetched(Some("SimpleX".to_string())),
                Action::Store(_) => Event::Stored(true),
                Action::Delete { .. } => Event::Deleted(true),
                Action::Finish(outcome) => {
                    outcomes.push(outcome);
                    break;
                }
            };
            run.advance(event);
        }
    }
    assert_eq!(outcomes, vec![Outcome::Failed(EngineError::InvalidUri), Outcome::Recorded]);
}

#[test]
fn unknown_protocol_is_an_invalid_uri() {
    let s = server("u", 0, "k", "example.com");
    let mut run = ServerRun::begin(&s, &settings(3, false));
    expect_finish(&run, Outcome::Failed(EngineError::InvalidUri));
    run.advance(Event::Probed(Ok(true)));
    run.advance(Event::Stored(true));
    expect_finish(&run, Outcome::Failed(EngineError::InvalidUri));
}

#[test]
fn official_server_is_deleted_and_not_examined() {
    let s = server("off", 1, "k", "smp8.simplex.im:5223");
    let mut run = ServerRun::begin(&s, &settings(3, false));
    match run.pending() {
        Action::Delete { uuid } => assert_eq!(uuid, "off"),
        other => panic!("expected a deletion, got {:?}", other),
    }
    run.advance(Event::Probed(Ok(true)));
    run.advance(Event::Located(GeoLookup::Country("US".to_string())));
    run.advance(Event::Fetched(Some("simplex".to_string())));
    run.advance(Event::Stored(true));
    match run.pending() {
        Action::Delete { uuid } => assert_eq!(uuid, "off"),
        other => panic!("expected a deletion, got {:?}", other),
    }
    run.advance(Event::Deleted(true));
    expect_finish(&run, Outcome::Deleted);
}

#[test]
fn official_server_deletion_can_fail() {
    let s = server("off", 1, "k", "smp8.simplex.im:5223");
    let mut run = ServerRun::begin(&s, &settings(3, false));
    run.advance(Event::Deleted(false));
    expect_finish(&run, Outcome::Failed(EngineError::DeletionFailed));
}

#[test]
fn official_server_is_left_alone_without_deletion() {
    let s = server("off", 7, "k", "a.com,smp8.simplex.im");
    let cfg = Settings {
        retry_count: 3,
        dry: false,
        tor_socks5_proxy: String::new(),
        delete_official: false,
    };
    let run = ServerRun::begin(&s, &cfg);
    expect_finish(&run, Outcome::Excluded);
}

#[test]
fn dry_run_computes_and_does_not_write() {
    let s = server("a1", 1, "k1", "example.com:5223");
    let mut run = ServerRun::begin(&s, &settings(2, true));
    run.advance(Event::Probed(Ok(false)));
    run.advance(Event::Probed(Ok(true)));
    expect_locate(&run, "example.com");
    run.advance(Event::Located(GeoLookup::Country("FR".to_string())));
    run.advance(Event::Fetched(Some("SIMPLEX".to_string())));
    expect_finish(&run, Outcome::Suppressed);
    let record = run.status_record();
    assert_eq!(record.server_uuid, "a1");
    assert!(record.status);
    assert_eq!(record.country, Some("FR"));
    assert!(record.info_page_available);
    run.advance(Event::Stored(true));
    expect_finish(&run, Outcome::Suppressed);
}

#[test]
fn failed_write_is_reported() {
    let s = server("a1", 1, "k1", "example.com");
    let mut run = ServerRun::begin(&s, &settings(1, false));
    run.advance(Event::Probed(Ok(true)));
    run.advance(Event::Located(GeoLookup::NoCountry));
    run.advance(Event::Fetched(Some("nothing here".to_string())));
    expect_store(&run, "a1", true, None, false);
    run.advance(Event::Stored(false));
    expect_finish(&run, Outcome::Failed(EngineError::PersistenceFailed));
}

#[test]
fn probes_stop_at_the_first_success() {
    let s = server("a1", 1, "k1", "example.com");
    let mut run = ServerRun::begin(&s, &settings(5, false));
    expect_probe(&run, "smp://k1@example.com", 1);
    run.advance(Event::Probed(Err(ProbeError::ConnectionFailed)));
    expect_probe(&run, "smp://k1@example.com", 2);
    run.advance(Event::Probed(Ok(true)));
    expect_locate(&run, "example.com");
    run.advance(Event::Probed(Ok(false)));
    expect_locate(&run, "example.com");
    assert!(run.status_record().status);
}

#[test]
fn broken_connections_use_up_the_attempts() {
    let s = server("a1", 1, "k1", "example.com");
    let mut run = ServerRun::begin(&s, &settings(2, false));
    run.advance(Event::Probed(Err(ProbeError::ConnectionFailed)));
    expect_probe(&run, "smp://k1@example.com", 2);
    run.advance(Event::Probed(Err(ProbeError::ConnectionFailed)));
    expect_finish(&run, Outcome::Failed(EngineError::ConnectionFailed));
    run.advance(Event::Stored(true));
    expect_finish(&run, Outcome::Failed(EngineError::ConnectionFailed));
}

#[test]
fn broken_connection_before_the_last_probe_is_retried() {
    let s = server("a1", 1, "k1", "example.com");
    let mut run = ServerRun::begin(&s, &settings(2, false));
    run.advance(Event::Probed(Err(ProbeError::ConnectionFailed)));
    expect_probe(&run, "smp://k1@example.com", 2);
    run.advance(Event::Probed(Ok(false)));
    expect_locate(&run, "example.com");
    assert!(!run.status_record().status);

    let mut run = ServerRun::begin(&s, &settings(1, true));
    run.advance(Event::Probed(Err(ProbeError::ConnectionFailed)));
    expect_finish(&run, Outcome::Failed(EngineError::ConnectionFailed));
}

#[test]
fn no_probe_without_attempts() {
    let s = server("a1", 1, "k1", "example.com");
    let run = ServerRun::begin(&s, &settings(0, false));
    expect_locate(&run, "example.com");
    assert!(!run.status_record().status);
    let o = server("o1", 1, "k1", "abc.onion");
    let run = ServerRun::begin(&o, &settings(0, false));
    expect_fetch(&run, "http://abc.onion", Some("socks5h://localhost:9050"));
}

#[test]
fn country_named_like_the_sentinel_routes_through_the_proxy() {
    let s = server("a1", 1, "k1", "example.com");
    let mut run = ServerRun::begin(&s, &settings(1, false));
    run.advance(Event::Probed(Ok(true)));
    run.advance(Event::Located(GeoLookup::Country("TOR".to_string())));
    expect_fetch(&run, "http://example.com", Some("socks5h://localhost:9050"));
}

#[test]
fn events_out_of_turn_change_nothing() {
    let s = server("a1", 1, "k1", "example.com");
    let mut run = ServerRun::begin(&s, &settings(2, false));
    run.advance(Event::Located(GeoLookup::Country("US".to_string())));
    run.advance(Event::Fetched(Some("simplex".to_string())));
    run.advance(Event::Stored(true));
    run.advance(Event::Deleted(true));
    expect_probe(&run, "smp://k1@example.com", 1);
    let record = run.status_record();
    assert!(!record.status);
    assert_eq!(record.country, None);
    assert!(!record.info_page_available);
}

#[test]
fn rerun_gives_the_same_status() {
    let s = server("a1", 1, "k1", "example.com:5223");
    let cfg = settings(3, true);
    let mut seen = Vec::new();
    for _ in 0..2 {
        let mut run = ServerRun::begin(&s, &cfg);
        while !run.is_done() {
            let event = match run.pending() {
                Action::Probe { attempt, .. } => Event::Probed(Ok(attempt == 2)),
                Action::Locate { .. } => Event::Located(GeoLookup::Country("US".to_string())),
                Action::Fetch { .. } => Event::Fetched(Some("SimpleX".to_string())),
                Action::Store(_) => Event::Stored(true),
                Action::Delete { .. } => Event::Deleted(true),
                Action::Finish(_) => unreachable!(),
            };
            run.advance(event);
        }
        let record = run.status_record();
        seen.push((
            record.status,
            record.country.map(str::to_string),
            record.info_page_available,
        ));
    }
    assert_eq!(seen[0], (true, Some("US".to_string()), true));
    assert_eq!(seen[0], seen[1]);
}

#[test]
fn processing_order_keeps_every_server() {
    let servers: Vec<Server> =
        (0..50).map(|i| server(&format!("s{}", i), 1, "k", "example.com")).collect();
    let mut shuffled_once = false;
    for _ in 0..4 {
        let input: Vec<Server> =
            (0..50).map(|i| server(&format!("s{}", i), 1, "k", "example.com")).collect();
        let order = processing_order(input);
        assert_eq!(order.len(), 50);
        let mut uuids: Vec<String> = order.iter().map(|s| s.uuid.clone()).collect();
        if uuids.iter().zip(servers.iter()).any(|(u, s)| *u != s.uuid) {
            shuffled_once = true;
        }
        uuids.sort();
        let mut expected: Vec<String> = servers.iter().map(|s| s.uuid.clone()).collect();
        expected.sort();
        assert_eq!(uuids, expected);
    }
    assert!(shuffled_once);
    assert!(processing_order(Vec::new()).is_empty());
}

#[test]
fn pass_fails_without_servers_to_read() {
    assert_eq!(Pass::begin(None, settings(1, false)).err(), Some(PassError::FetchFailed));
}

#[test]
fn pass_hands_out_every_server_once() {
    let servers: Vec<Server> =
        (0..20).map(|i| server(&format!("s{}", i), 1, "k", "example.com")).collect();
    let mut pass = Pass::begin(Some(servers), settings(2, true)).unwrap();
    assert_eq!(pass.remaining(), 20);
    let mut seen = Vec::new();
    let mut left = 20;
    while let Some(run) = pass.next_run() {
        left -= 1;
        assert_eq!(pass.remaining(), left);
        assert_eq!(run.uri(), "smp://k@example.com");
        expect_probe(&run, "smp://k@example.com", 1);
        seen.push(run.uuid().to_string());
    }
    assert_eq!(pass.remaining(), 0);
    assert!(pass.next_run().is_none());
    seen.sort();
    let mut expected: Vec<String> = (0..20).map(|i| format!("s{}", i)).collect();
    expected.sort();
    assert_eq!(seen, expected);
}

#[test]
fn empty_pass_ends_at_once() {
    let mut pass = Pass::begin(Some(Vec::new()), settings(2, true)).unwrap();
    assert_eq!(pass.remaining(), 0);
    assert!(pass.next_run().is_none());
}

#[test]
fn one_failure_does_not_reach_the_next_server() {
    let servers = vec![
        server("bad", 9, "k", "bad.example"),
        server("off", 1, "k", "smp1.simplex.im"),
        server("ok", 1, "k", "example.com"),
    ];
    let mut pass = Pass::begin(Some(servers), settings(1, false)).unwrap();
    let mut outcomes = Vec::new();
    while let Some(mut run) = pass.next_run() {
        loop {
            let event = match run.pending() {
                Action::Probe { .. } => Event::Probed(Ok(true)),
                Action::Locate { .. } => Event::Located(GeoLookup::NoEntry),
                Action::Fetch { .. } => Event::Fetched(None),
                Action::Store(_) => Event::Stored(false),
                Action::Delete { .. } => Event::Deleted(false),
                Action::Finish(outcome) => {
                    outcomes.push((run.uuid().to_string(), outcome));
                    break;
                }
            };
            run.advance(event);
        }
    }
    outcomes.sort_by(|a, b| a.0.cmp(&b.0));
    assert_eq!(
        outcomes,
        vec![
            ("bad".to_string(), Outcome::Failed(EngineError::InvalidUri)),
            ("off".to_string(), Outcome::Failed(EngineError::DeletionFailed)),
            ("ok".to_string(), Outcome::Failed(EngineError::PersistenceFailed)),
        ]
    );
}
