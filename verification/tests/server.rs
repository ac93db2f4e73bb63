use koan::graphql::browser::{
    browser_guard, graphql_playground, host_guard, is_graphql_content_type, request_host,
    strip_port, BrowserPolicy,
};
use koan::graphql::feeds::{analyser_rate, NowPlayingFeed, QueueFeed};
use koan::graphql::pool::{Acquire, DbPool};
use koan::graphql::server::{
    daemon_args, run_api_blocking, subsonic_router, ApiServerOpts, Keypair, ServerConfig,
    SubsonicMount,
};
use koan::player::{PlaybackState, QueueItemId};

fn policy() -> BrowserPolicy {
    BrowserPolicy {
        origins: vec!["https://music.example.com".into()],
        hosts: vec!["koan.local".into()],
    }
}

/// Whether a host is, without its port, an address.
fn literal(host: &str) -> bool {
    matches!(
        strip_port(host).as_str(),
        "127.0.0.1" | "192.168.1.20" | "::1"
    )
}

#[test]
fn host_policy_accepts_loopback_literals_and_configured_names() {
    let p = policy();
    for host in [
        "localhost:4000",
        "127.0.0.1:4000",
        "192.168.1.20:4000",
        "[::1]:4000",
        "koan.local",
        "koan.local:4000",
    ] {
        assert!(p.host_allowed(host, literal(host)), "{host}");
    }
}

#[test]
fn host_policy_rejects_attacker_controlled_names() {
    let p = policy();
    for host in ["evil.com", "rebind.evil.com:4000", "koan.local.evil.com"] {
        assert!(!p.host_allowed(host, literal(host)), "{host}");
    }
}

#[test]
fn ports_and_brackets_are_stripped() {
    assert_eq!(strip_port("example.com:4000"), "example.com");
    assert_eq!(strip_port("[::1]:4000"), "::1");
    assert_eq!(strip_port("[::1"), "::1");
    assert_eq!(strip_port("example.com"), "example.com");
    assert_eq!(strip_port("example.com:"), "example.com:");
    assert_eq!(strip_port("example.com:http"), "example.com:http");
    assert_eq!(strip_port("KOAN.local:1"), "KOAN.local");
}

#[test]
fn hosts_are_guarded() {
    assert!(host_guard(&policy(), None).is_none());
    assert!(host_guard(&policy(), Some(("KOAN.LOCAL:80", false))).is_none());
    let refusal = host_guard(&policy(), Some(("rebind.evil.com", false))).unwrap();
    assert_eq!((refusal.status, refusal.text), (403, "host not allowed"));
    assert_eq!(request_host(Some("a"), Some("b")).as_deref(), Some("a"));
    assert_eq!(request_host(None, Some("b")).as_deref(), Some("b"));
    assert_eq!(request_host(None, None), None);
}

#[test]
fn origins_are_guarded() {
    let host = Some("127.0.0.1:4000");
    let json = Some("application/json");
    let guard = |origin, post, ct| browser_guard(&policy(), origin, host, post, ct);
    assert!(guard(None, false, None).is_none());
    assert!(guard(Some("https://music.example.com"), false, None).is_none());
    assert!(guard(Some("http://127.0.0.1:4000"), true, json).is_none());
    let foreign = guard(Some("https://evil.com"), false, None).unwrap();
    assert_eq!((foreign.status, foreign.text), (403, "origin not allowed"));
    let plain = guard(None, true, Some("text/plain")).unwrap();
    assert_eq!(plain.status, 415);
    assert_eq!(
        plain.text,
        "content type must be application/json or application/graphql"
    );
    assert!(guard(None, true, None).is_some());
    // Without a host nothing can be the same origin.
    assert!(browser_guard(&policy(), Some("http://a"), None, false, None).is_some());
    assert!(browser_guard(&policy(), Some("null"), host, false, None).is_some());
}

#[test]
fn content_types_are_recognised() {
    assert!(is_graphql_content_type(Some("application/json; charset=utf-8")));
    assert!(is_graphql_content_type(Some("  Application/GraphQL ")));
    assert!(!is_graphql_content_type(Some("text/plain")));
    assert!(!is_graphql_content_type(None));
}

#[test]
fn the_playground_wants_its_key() {
    assert!(graphql_playground(None, None).is_none());
    assert!(graphql_playground(Some("k"), Some("k")).is_none());
    let refusal = graphql_playground(Some("k"), Some("j")).unwrap();
    assert_eq!(
        (refusal.status, refusal.text),
        (403, "invalid or missing introspection-key")
    );
    assert!(graphql_playground(Some("k"), None).is_some());
}

fn opts() -> ApiServerOpts {
    ApiServerOpts {
        port: None,
        bind: None,
        subsonic_port: None,
        playground: false,
    }
}

fn cfg(auth_enabled: bool) -> ServerConfig {
    ServerConfig {
        port: 4000,
        bind: "127.0.0.1".into(),
        playground: false,
        auth_enabled,
        access_token_ttl: None,
        refresh_token_ttl: Some(5),
        cookie_secure: true,
    }
}

fn keys() -> Keypair {
    Keypair {
        private_pem: vec![1],
        public_pem: vec![2],
    }
}

#[test]
fn the_server_is_set_up_as_configured() {
    let plan = run_api_blocking(&opts(), &cfg(true), Ok(keys()), Err("unused".into())).unwrap();
    assert_eq!(plan.port, 4000);
    assert_eq!(plan.bind, "127.0.0.1");
    assert!(!plan.playground);
    assert_eq!(plan.private_pem, vec![1]);
    assert_eq!(plan.auth.public_pem, vec![2]);
    assert!(plan.auth.auth_enabled);
    assert_eq!(plan.auth.introspection_key, None);
    assert_eq!(plan.routes.access_ttl_secs, 900);
    assert_eq!(plan.routes.refresh_ttl_secs, 5);
    assert!(plan.routes.cookie_secure);
    assert_eq!(plan.url, "http://127.0.0.1:4000/graphql");
    assert_eq!(plan.subsonic_port, None);
}

#[test]
fn the_command_line_comes_first() {
    let asked = ApiServerOpts {
        port: Some(80),
        bind: Some("::1".into()),
        subsonic_port: Some(4040),
        playground: true,
    };
    let plan = run_api_blocking(&asked, &cfg(true), Ok(keys()), Ok("key".into())).unwrap();
    assert_eq!(plan.port, 80);
    assert_eq!(plan.url, "http://::1:80/graphql?introspection-key=key");
    assert_eq!(plan.subsonic_port, Some(4040));
    assert_eq!(plan.auth.introspection_key.as_deref(), Some("key"));

    let same_port = ApiServerOpts {
        subsonic_port: Some(4000),
        ..opts()
    };
    let plan = run_api_blocking(&same_port, &cfg(false), Ok(keys()), Ok("key".into())).unwrap();
    assert_eq!(plan.subsonic_port, None);
    assert_eq!(plan.auth.introspection_key, None);
}

#[test]
fn a_misconfigured_server_does_not_start() {
    let playground = ApiServerOpts {
        playground: true,
        ..opts()
    };
    assert_eq!(
        run_api_blocking(&opts(), &cfg(true), Err("no file".into()), Ok("k".into())).unwrap_err(),
        "auth_enabled = true but the keypair could not be loaded: no file. Run `koan auth setup`."
    );
    let empty = Keypair {
        private_pem: vec![1],
        public_pem: Vec::new(),
    };
    assert_eq!(
        run_api_blocking(&opts(), &cfg(true), Ok(empty), Ok("k".into())).unwrap_err(),
        "auth_enabled = true but the keypair files are empty. Run `koan auth regenerate-keys`."
    );
    assert_eq!(
        run_api_blocking(&playground, &cfg(true), Ok(keys()), Err("no luck".into())).unwrap_err(),
        "failed to generate introspection key: no luck"
    );
    // Without authentication there need be no keys.
    let plan =
        run_api_blocking(&playground, &cfg(false), Err("no file".into()), Err("x".into())).unwrap();
    assert!(plan.private_pem.is_empty());
    assert!(!plan.auth.auth_enabled);
}

#[test]
fn the_daemon_gets_its_arguments() {
    assert_eq!(
        daemon_args(&opts(), &cfg(false)),
        vec!["--headless", "--port", "4000", "--bind", "127.0.0.1"]
    );
    let asked = ApiServerOpts {
        port: Some(1),
        bind: Some("0.0.0.0".into()),
        subsonic_port: Some(2),
        playground: true,
    };
    assert_eq!(
        daemon_args(&asked, &cfg(false)),
        vec![
            "--headless",
            "--port",
            "1",
            "--bind",
            "0.0.0.0",
            "--subsonic",
            "2",
            "--playground"
        ]
    );
}

#[test]
fn subsonic_needs_credentials() {
    assert_eq!(subsonic_router(false, "u", true), SubsonicMount::Off);
    assert_eq!(subsonic_router(true, "", true), SubsonicMount::NoUser);
    assert_eq!(subsonic_router(true, "u", false), SubsonicMount::NoSecret);
    assert_eq!(subsonic_router(true, "u", true), SubsonicMount::On);
}

#[test]
fn the_pool_opens_no_more_than_it_may() {
    let mut pool = DbPool::new(Some(1));
    for n in 0..4 {
        assert_eq!(
            pool.acquire(),
            Acquire::Open {
                apply_schema: n == 0
            }
        );
        pool.opened(true);
    }
    assert_eq!(pool.acquire(), Acquire::Wait);
    pool.returned();
    assert_eq!(pool.acquire(), Acquire::Take);
    pool.dropped();
    assert_eq!(
        pool.acquire(),
        Acquire::Open {
            apply_schema: false
        }
    );
    pool.opened(false);
    assert_eq!(pool.open_count(), 5);
    assert_eq!(
        pool.open_detached(),
        Acquire::Open {
            apply_schema: false
        }
    );
    assert_eq!(pool.open_count(), 6);
    pool.note_batch();
    assert_eq!(pool.batch_count(), 1);
}

#[test]
fn a_failed_first_opening_leaves_the_schema_to_the_next() {
    let mut pool = DbPool::new(None);
    assert_eq!(pool.acquire(), Acquire::Open { apply_schema: true });
    pool.opened(false);
    assert_eq!(pool.acquire(), Acquire::Open { apply_schema: true });
}

#[test]
fn listeners_are_told_of_changes_only() {
    let mut feed = NowPlayingFeed::new();
    let one = Some(QueueItemId(1));
    assert!(feed.changed(PlaybackState::Stopped, 0, None));
    assert!(!feed.changed(PlaybackState::Stopped, 0, None));
    assert!(feed.changed(PlaybackState::Playing, 0, one));
    assert!(feed.changed(PlaybackState::Playing, 5, one));
    assert!(!feed.changed(PlaybackState::Playing, 5, one));
    assert!(feed.changed(PlaybackState::Playing, 5, Some(QueueItemId(2))));

    let mut queue = QueueFeed::new();
    assert!(queue.changed(0, false));
    assert!(!queue.changed(0, false));
    assert!(queue.changed(0, true));
    assert!(queue.changed(1, false));
}

#[test]
fn the_analyser_keeps_within_bounds() {
    assert_eq!(analyser_rate(0), 1);
    assert_eq!(analyser_rate(30), 30);
    assert_eq!(analyser_rate(1000), 240);
}
