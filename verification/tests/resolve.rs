use protonvpn::catalog::{
    conclude_fetch, get_servers, next_action, stale, CacheState, CatalogAction, CatalogError,
    FetchOutcome, ServerCatalogSnapshot,
};
use protonvpn::cli::{connect, main, CliOptions, Connect, MainAction};
use protonvpn::ip::Ipv4Addr;
use protonvpn::protocol::ConnectionProtocol;
use protonvpn::resolve::{
    collect_candidates, is_wanted, resolve, ConnectOptions, ResolveError,
};
use protonvpn::servers::{visible_servers, LogicalServer, Server, ServersResponse};
use protonvpn::tier::PlanTier;
use protonvpn::user::{Config, UserConfig};

fn server(name: &str, tier: u8, status: i8, score: u64) -> LogicalServer {
    LogicalServer {
        name: name.into(),
        entry_country: name[0..2].into(),
        exit_country: name[0..2].into(),
        domain: "x.example".into(),
        tier,
        id: name.into(),
        status,
        servers: vec![Server {
            entry_ip: Ipv4Addr::new(10, 0, 0, 1),
            exit_ip: Ipv4Addr::new(10, 0, 0, 2),
            domain: "n.example".into(),
            id: "n".into(),
            status: 1,
        }],
        load: 0,
        score,
    }
}

fn hop(name: &str, entry: &str, exit: &str, tier: u8, score: u64) -> LogicalServer {
    LogicalServer { entry_country: entry.into(), exit_country: exit.into(), ..server(name, tier, 1, score) }
}

fn catalog() -> Vec<LogicalServer> {
    vec![
        server("US-FREE#1", 0, 1, 5),
        server("NL-FREE#1", 0, 1, 9),
        server("JP-FREE#1", 0, 0, 99),
        server("US#7", 1, 1, 20),
        hop("IS-DE-01", "IS", "DE", 2, 30),
        server("CH#5-TOR", 2, 1, 3),
        server("NL#7-P2P", 1, 1, 9),
        hop("CH-US#2", "CH", "US", 2, 31),
        server("SE#1", 3, 1, 50),
        server("XX#1", 4, 1, 100),
    ]
}

fn names(all: &[LogicalServer], visible: Vec<&LogicalServer>) -> Vec<String> {
    assert!(visible.iter().all(|v| all.iter().any(|s| std::ptr::eq(s, *v))));
    visible.iter().map(|s| s.name.clone()).collect()
}

#[test]
fn tiers_are_ordered() {
    assert!(PlanTier::Free < PlanTier::Basic);
    assert!(PlanTier::Basic < PlanTier::Plus);
    assert!(PlanTier::Plus < PlanTier::Visionary);
    assert_eq!(PlanTier::variants(), vec![PlanTier::Free, PlanTier::Basic, PlanTier::Plus, PlanTier::Visionary]);
    for (i, t) in PlanTier::variants().into_iter().enumerate() {
        assert_eq!(t.rank() as usize, i);
        assert_eq!(PlanTier::from(i as u8), t);
        assert_eq!(PlanTier::from_level(i as u8), Some(t));
    }
    assert_eq!(PlanTier::from_level(4), None);
    assert_eq!(PlanTier::from_level(255), None);
    assert!(PlanTier::Basic.within(PlanTier::Basic));
    assert!(PlanTier::Basic.within(PlanTier::Visionary));
    assert!(!PlanTier::Plus.within(PlanTier::Basic));
    assert_eq!(PlanTier::Visionary.name(), "Visionary");
}

#[test]
fn higher_tier_is_never_visible() {
    let all = catalog();
    for tier in PlanTier::variants() {
        let visible = visible_servers(&all, tier);
        assert!(visible.iter().all(|s| s.tier <= tier.rank() && s.status == 1));
        let expected: Vec<&LogicalServer> =
            all.iter().filter(|s| s.status == 1 && s.tier <= tier.rank()).collect();
        assert_eq!(visible, expected);
    }
    assert_eq!(
        names(&all, visible_servers(&all, PlanTier::Free)),
        vec!["US-FREE#1", "NL-FREE#1"]
    );
    assert_eq!(visible_servers(&all, PlanTier::Visionary).len(), 8);
}

#[test]
fn down_server_is_never_eligible() {
    for status in [0i8, 2, -1, 127, -128] {
        for tier in PlanTier::variants() {
            assert!(!server("US#1", 0, status, 1).is_eligible(tier));
            for opt in [ConnectOptions::Fastest, ConnectOptions::Random, ConnectOptions::Server { server: "US#1".into() }] {
                assert!(!is_wanted(&opt, &server("US#1", 0, status, 1), tier));
            }
        }
    }
    assert!(server("US#1", 0, 1, 1).is_eligible(PlanTier::Free));
}

#[test]
fn no_strategy_picks_above_the_tier() {
    let all = catalog();
    let options = [
        ConnectOptions::Fastest,
        ConnectOptions::Random,
        ConnectOptions::SecureCore,
        ConnectOptions::P2P,
        ConnectOptions::Tor,
        ConnectOptions::CountryCode { cc: "us".into() },
        ConnectOptions::Server { server: "SE#1".into() },
    ];
    for tier in PlanTier::variants() {
        for opt in &options {
            for ticket in 0..12u64 {
                if let Ok(i) = resolve(opt, &all, tier, ticket) {
                    assert!(all[i].tier <= tier.rank());
                    assert_eq!(all[i].status, 1);
                }
            }
        }
    }
}

#[test]
fn fastest_takes_the_best_score_and_the_first_of_equals() {
    let all = catalog();
    assert_eq!(resolve(&ConnectOptions::Fastest, &all, PlanTier::Free, 0), Ok(1));
    assert_eq!(resolve(&ConnectOptions::Fastest, &all, PlanTier::Basic, 0), Ok(3));
    assert_eq!(resolve(&ConnectOptions::Fastest, &all, PlanTier::Plus, 0), Ok(7));
    assert_eq!(resolve(&ConnectOptions::Fastest, &all, PlanTier::Visionary, 0), Ok(8));
    let ties = vec![server("A#1", 0, 1, 7), server("B#1", 0, 1, 9), server("C#1", 0, 1, 9)];
    assert_eq!(resolve(&ConnectOptions::Fastest, &ties, PlanTier::Free, 0), Ok(1));
}

#[test]
fn free_account_gets_the_free_server_whatever_the_scores() {
    let all = vec![server("CH#1", 2, 1, 1000), server("US-FREE#1", 0, 1, 1)];
    assert_eq!(resolve(&ConnectOptions::Fastest, &all, PlanTier::Free, 0), Ok(1));
    assert_eq!(all[1].name, "US-FREE#1");
    assert_eq!(resolve(&ConnectOptions::Fastest, &all, PlanTier::Plus, 0), Ok(0));
}

#[test]
fn named_server_is_found_by_its_exact_name() {
    let all = catalog();
    let named = |n: &str| ConnectOptions::Server { server: n.into() };
    assert_eq!(resolve(&named("US-FREE#1"), &all, PlanTier::Free, 0), Ok(0));
    assert_eq!(all[0].name, "US-FREE#1");
    assert_eq!(
        resolve(&named("us-free#1"), &all, PlanTier::Free, 0),
        Err(ResolveError::NamedServerNotFound)
    );
    assert_eq!(
        resolve(&named("DE#1"), &all, PlanTier::Visionary, 0),
        Err(ResolveError::NamedServerNotFound)
    );
    assert_eq!(
        resolve(&named("SE#1"), &all, PlanTier::Plus, 0),
        Err(ResolveError::NamedServerNotFound)
    );
    assert_eq!(
        resolve(&named("JP-FREE#1"), &all, PlanTier::Visionary, 0),
        Err(ResolveError::NamedServerNotFound)
    );
    assert_eq!(resolve(&named("x"), &vec![], PlanTier::Free, 0), Err(ResolveError::NamedServerNotFound));
}

#[test]
fn absent_name_plans_no_connection() {
    let all = catalog();
    let flags = Connect {
        connection_option: ConnectOptions::Server { server: "ZZ#404".into() },
        protocol: None,
    };
    let config = Config::default();
    assert_eq!(connect(&flags, &config, &all, 0), Err(ResolveError::NamedServerNotFound));
    let flags = Connect {
        connection_option: ConnectOptions::Server { server: "US-FREE#1".into() },
        protocol: Some(ConnectionProtocol::TCP),
    };
    assert_eq!(connect(&flags, &config, &all, 0), Ok((0, ConnectionProtocol::TCP)));
    let flags = Connect { protocol: None, ..flags };
    assert_eq!(connect(&flags, &config, &all, 0), Ok((0, ConnectionProtocol::UDP)));
}

#[test]
fn country_code_matches_entry_or_exit_in_any_case() {
    let all = catalog();
    let cc = |c: &str| ConnectOptions::CountryCode { cc: c.into() };
    assert_eq!(resolve(&cc("us"), &all, PlanTier::Free, 0), Ok(0));
    assert_eq!(resolve(&cc("US"), &all, PlanTier::Basic, 0), Ok(3));
    assert_eq!(resolve(&cc("Us"), &all, PlanTier::Plus, 0), Ok(7));
    assert_eq!(resolve(&cc("is"), &all, PlanTier::Plus, 0), Ok(4));
    assert_eq!(resolve(&cc("de"), &all, PlanTier::Plus, 0), Ok(4));
    assert_eq!(resolve(&cc("de"), &all, PlanTier::Basic, 0), Err(ResolveError::NoMatchingServer));
    assert_eq!(resolve(&cc("jp"), &all, PlanTier::Visionary, 0), Err(ResolveError::NoMatchingServer));
    assert_eq!(resolve(&cc(""), &all, PlanTier::Visionary, 0), Err(ResolveError::NoMatchingServer));
}

#[test]
fn features_are_read_from_the_name() {
    let all = catalog();
    assert_eq!(resolve(&ConnectOptions::SecureCore, &all, PlanTier::Plus, 0), Ok(7));
    assert_eq!(resolve(&ConnectOptions::Tor, &all, PlanTier::Plus, 0), Ok(5));
    assert_eq!(resolve(&ConnectOptions::P2P, &all, PlanTier::Basic, 0), Ok(6));
    for opt in [ConnectOptions::SecureCore, ConnectOptions::Tor, ConnectOptions::P2P] {
        assert_eq!(resolve(&opt, &all, PlanTier::Free, 0), Err(ResolveError::NoMatchingServer));
    }
    let tier = PlanTier::Visionary;
    assert!(is_wanted(&ConnectOptions::SecureCore, &server("IS-DE-01", 0, 1, 0), tier));
    assert!(is_wanted(&ConnectOptions::SecureCore, &server("CH-US#2", 0, 1, 0), tier));
    assert!(!is_wanted(&ConnectOptions::SecureCore, &server("US-FREE#1", 0, 1, 0), tier));
    assert!(!is_wanted(&ConnectOptions::SecureCore, &server("CH#5-TOR", 0, 1, 0), tier));
    assert!(!is_wanted(&ConnectOptions::SecureCore, &server("IS-DE", 0, 1, 0), tier));
    assert!(is_wanted(&ConnectOptions::Tor, &server("CH#5-TOR", 0, 1, 0), tier));
    assert!(!is_wanted(&ConnectOptions::Tor, &server("CH#5-Tor", 0, 1, 0), tier));
    assert!(!is_wanted(&ConnectOptions::Tor, &server("TO", 0, 1, 0), tier));
    assert!(is_wanted(&ConnectOptions::P2P, &server("NL#7-P2P", 0, 1, 0), tier));
    assert!(!is_wanted(&ConnectOptions::P2P, &server("NL#7", 0, 1, 0), tier));
}

#[test]
fn random_counts_off_the_eligible_servers() {
    let all = catalog();
    let eligible = collect_candidates(&ConnectOptions::Random, &all, PlanTier::Basic);
    assert_eq!(eligible, vec![0, 1, 3, 6]);
    for ticket in 0..20u64 {
        assert_eq!(
            resolve(&ConnectOptions::Random, &all, PlanTier::Basic, ticket),
            Ok(eligible[(ticket % 4) as usize])
        );
    }
    assert_eq!(resolve(&ConnectOptions::Random, &all, PlanTier::Basic, u64::MAX), Ok(6));
}

#[test]
fn every_strategy_rejects_an_empty_eligible_set() {
    let none: Vec<LogicalServer> = vec![];
    let down = vec![server("US#1", 0, 0, 1), server("IS-DE-01", 3, 1, 1)];
    for all in [&none, &down] {
        for opt in [
            ConnectOptions::Fastest,
            ConnectOptions::Random,
            ConnectOptions::SecureCore,
            ConnectOptions::P2P,
            ConnectOptions::Tor,
            ConnectOptions::CountryCode { cc: "US".into() },
        ] {
            assert_eq!(resolve(&opt, all, PlanTier::Plus, 3), Err(ResolveError::NoMatchingServer));
        }
        assert_eq!(
            resolve(&ConnectOptions::Server { server: "US#1".into() }, all, PlanTier::Plus, 3),
            Err(ResolveError::NamedServerNotFound)
        );
    }
}

#[test]
fn cache_is_fresh_for_fifteen_minutes() {
    let t0: i64 = 1_600_000_000_000;
    let mut cache = CacheState::Absent;
    assert_eq!(next_action(&cache, t0), CatalogAction::Fetch);
    let response = ServersResponse { code: 1000, logical_servers: catalog() };
    assert_eq!(conclude_fetch(&mut cache, FetchOutcome::Fetched(response.clone()), t0), Ok(()));
    assert_eq!(
        cache,
        CacheState::Present(ServerCatalogSnapshot { response, last_pull: t0 })
    );
    assert_eq!(next_action(&cache, t0), CatalogAction::Serve);
    assert_eq!(next_action(&cache, t0 + 14 * 60_000 + 59_000), CatalogAction::Serve);
    assert_eq!(next_action(&cache, t0 + 15 * 60_000), CatalogAction::Serve);
    assert_eq!(next_action(&cache, t0 + 15 * 60_000 + 1), CatalogAction::Fetch);
    assert_eq!(next_action(&cache, t0 + 15 * 60_000 + 1_000), CatalogAction::Fetch);
    assert_eq!(next_action(&cache, t0 - 1), CatalogAction::Serve);
    assert!(get_servers(&cache, PlanTier::Free, t0 + 899_000).is_some());
    assert!(get_servers(&cache, PlanTier::Free, t0 + 901_000).is_none());
}

#[test]
fn staleness_at_the_ends_of_time() {
    assert!(!stale(i64::MAX, i64::MAX));
    assert!(!stale(i64::MIN, i64::MAX));
    assert!(stale(i64::MAX, i64::MIN));
    assert!(stale(900_001, 0));
    assert!(!stale(900_000, 0));
    assert!(!stale(i64::MAX, i64::MAX - 900_000));
    assert!(stale(i64::MAX, i64::MAX - 900_001));
}

#[test]
fn failed_fetch_leaves_the_cache_untouched() {
    let t0: i64 = 50;
    let snapshot = ServerCatalogSnapshot {
        response: ServersResponse { code: 1000, logical_servers: catalog() },
        last_pull: t0,
    };
    let mut cache = CacheState::Present(snapshot.clone());
    assert_eq!(
        conclude_fetch(&mut cache, FetchOutcome::Unreachable, t0 + 1_000_000),
        Err(CatalogError::RemoteUnavailable)
    );
    assert_eq!(cache, CacheState::Present(snapshot.clone()));
    assert_eq!(
        conclude_fetch(&mut cache, FetchOutcome::Malformed, t0 + 1_000_000),
        Err(CatalogError::MalformedResponse)
    );
    assert_eq!(cache, CacheState::Present(snapshot));
    let mut cache = CacheState::Unreadable;
    assert_eq!(next_action(&cache, 0), CatalogAction::Fetch);
    assert_eq!(conclude_fetch(&mut cache, FetchOutcome::Unreachable, 0), Err(CatalogError::CacheIoError));
    assert_eq!(conclude_fetch(&mut cache, FetchOutcome::Malformed, 0), Err(CatalogError::CacheIoError));
    assert_eq!(cache, CacheState::Unreadable);
    let mut cache = CacheState::Absent;
    assert_eq!(conclude_fetch(&mut cache, FetchOutcome::Malformed, 0), Err(CatalogError::MalformedResponse));
    assert_eq!(cache, CacheState::Absent);
}

#[test]
fn tier_change_takes_effect_without_a_fetch() {
    let mut cache = CacheState::Absent;
    let response = ServersResponse { code: 1000, logical_servers: catalog() };
    conclude_fetch(&mut cache, FetchOutcome::Fetched(response), 0).unwrap();
    assert_eq!(get_servers(&cache, PlanTier::Free, 10).unwrap().len(), 2);
    assert_eq!(get_servers(&cache, PlanTier::Plus, 20).unwrap().len(), 7);
    assert_eq!(get_servers(&cache, PlanTier::Free, 30).unwrap().len(), 2);
    assert_eq!(get_servers(&CacheState::Absent, PlanTier::Free, 30), None);
    assert_eq!(get_servers(&CacheState::Unreadable, PlanTier::Free, 30), None);
}

#[test]
fn commands_and_what_they_start() {
    let flags = Connect { connection_option: ConnectOptions::Fastest, protocol: None };
    assert_eq!(main(&CliOptions::Init, true), MainAction::Initialize { store: true });
    assert_eq!(main(&CliOptions::Init, false), MainAction::Initialize { store: false });
    assert_eq!(main(&CliOptions::Connect(flags.clone()), true), MainAction::Connect);
    assert_eq!(main(&CliOptions::Configure, true), MainAction::Configure);
    for opt in [CliOptions::Reconnect, CliOptions::Disconnect, CliOptions::Status, CliOptions::Refresh, CliOptions::Examples] {
        assert_eq!(main(&opt, true), MainAction::Nothing);
        assert_eq!(main(&opt, false), MainAction::ReportMissingProfile);
    }
    assert_eq!(main(&CliOptions::Connect(flags), false), MainAction::ReportMissingProfile);
    assert_eq!(main(&CliOptions::Configure, false), MainAction::ReportMissingProfile);
    let _ = UserConfig::default();
}
