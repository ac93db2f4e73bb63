use koan::auth::middleware::{
    auth_middleware, extract_token, token_verified, AccessClaims, Admission, AuthState,
    RequestHead,
};
use koan::auth::routes::{
    login, login_rate_limit, logout, refresh, refresh_token_from, sign_in_step, AuthReply,
    AuthRouteState, IpAddress, LoginRateLimiter, LoginRequest, Lookup, SignIn, SignInAction,
    SignInEvent, UserRow, Way, LOGIN_MAX_PER_WINDOW, LOGIN_TRACKED_IPS_MAX, LOGIN_WINDOW_SECS,
    REFRESH_COOKIE,
};
use koan::auth::{require_role, role_or_readonly, AuthUser, Role};

fn ip(a: u8, b: u8, c: u8, d: u8) -> IpAddress {
    IpAddress::V4(u32::from_be_bytes([a, b, c, d]))
}

#[test]
fn login_limiter_caps_a_single_ip() {
    let mut limiter = LoginRateLimiter::new();
    let first = ip(10, 0, 0, 5);
    for _ in 0..LOGIN_MAX_PER_WINDOW {
        assert!(limiter.allow(1_700_000_000, first));
    }
    assert!(!limiter.allow(1_700_000_000, first));

    // Other callers are unaffected.
    assert!(limiter.allow(1_700_000_000, ip(10, 0, 0, 6)));
}

#[test]
fn login_windows_end() {
    let mut limiter = LoginRateLimiter::new();
    let first = IpAddress::V6(1);
    for _ in 0..11 {
        limiter.allow(1000, first);
    }
    assert!(!limiter.allow(1000 + LOGIN_WINDOW_SECS - 1, first));
    assert!(limiter.allow(1000 + LOGIN_WINDOW_SECS, first));
    // A clock that goes back does not end a window.
    for _ in 0..9 {
        assert!(limiter.allow(900, first));
    }
    assert!(!limiter.allow(900, first));
}

#[test]
fn stale_windows_are_dropped_when_there_are_many() {
    let mut limiter = LoginRateLimiter::new();
    let last = LOGIN_TRACKED_IPS_MAX as u32;
    for n in 0..=last {
        assert!(limiter.allow(0, IpAddress::V4(n)));
    }
    // All are over by now, and are dropped before this one is added.
    assert!(limiter.allow(100, IpAddress::V4(0)));
    for _ in 0..9 {
        assert!(limiter.allow(100, IpAddress::V4(0)));
    }
    assert!(!limiter.allow(100, IpAddress::V4(0)));
}

#[test]
fn the_refused_are_told_so() {
    assert!(login_rate_limit(true).is_none());
    match login_rate_limit(false) {
        Some(AuthReply::Message { status, body }) => {
            assert_eq!(status, 429);
            assert_eq!(body.message, "too many login attempts");
        }
        other => panic!("{:?}", other),
    }
}

#[test]
fn refresh_token_falls_back_to_the_cookie() {
    let header = format!("a=1; {REFRESH_COOKIE}=from-cookie; b=2");
    let cookies = Some(header.as_str());

    assert_eq!(
        refresh_token_from(None, cookies).as_deref(),
        Some("from-cookie")
    );
    assert_eq!(
        refresh_token_from(Some("from-body"), cookies).as_deref(),
        Some("from-body")
    );
    assert_eq!(refresh_token_from(None, None), None);
    // An empty one in the body counts for none.
    assert_eq!(
        refresh_token_from(Some(""), cookies).as_deref(),
        Some("from-cookie")
    );
}

fn routes(cookie_secure: bool) -> AuthRouteState {
    AuthRouteState {
        access_ttl_secs: 900,
        refresh_ttl_secs: 60,
        cookie_secure,
    }
}

#[test]
fn cookies_are_lax_and_only_secure_when_tls_is_in_play() {
    let plain = routes(false).access_cookie("tok");
    assert!(plain.contains("SameSite=Lax"));
    assert!(plain.contains("HttpOnly"));
    assert!(!plain.contains("Secure"));

    assert!(routes(true).access_cookie("tok").contains("; Secure"));

    // The refresh cookie never rides along on an API call.
    let refresh = routes(false).refresh_cookie("tok");
    assert!(refresh.contains("Path=/auth/refresh"));
    assert!(refresh.contains("HttpOnly"));
}

#[test]
fn cookies_are_spelled_exactly() {
    assert_eq!(
        routes(true).access_cookie("abc"),
        "koan_access=abc; HttpOnly; SameSite=Lax; Path=/; Max-Age=900; Secure"
    );
    assert_eq!(
        routes(false).refresh_cookie("xyz"),
        "koan_refresh=xyz; HttpOnly; SameSite=Lax; Path=/auth/refresh; Max-Age=60"
    );
}

fn head<'a>(path: &'a str) -> RequestHead<'a> {
    RequestHead {
        introspection_key: None,
        cookies: None,
        authorization: None,
        path,
        query: None,
    }
}

fn enforcing(key: Option<&str>) -> AuthState {
    AuthState {
        public_pem: vec![1],
        auth_enabled: true,
        introspection_key: key.map(str::to_owned),
    }
}

fn passes_as(admission: Admission, name: &str, role: Role) {
    match admission {
        Admission::Pass(user) => {
            assert_eq!(user.username, name);
            assert_eq!(user.role, role);
        }
        other => panic!("{:?}", other),
    }
}

#[test]
fn without_authentication_everyone_is_admin() {
    let state = AuthState {
        public_pem: Vec::new(),
        auth_enabled: false,
        introspection_key: None,
    };
    passes_as(
        auth_middleware(&state, &head("/graphql")),
        "anonymous",
        Role::Admin,
    );
}

#[test]
fn a_missing_token_is_refused() {
    match auth_middleware(&enforcing(None), &head("/graphql")) {
        Admission::Refuse(text) => assert_eq!(text, "missing or invalid Authorization header"),
        other => panic!("{:?}", other),
    }
}

#[test]
fn tokens_come_from_cookie_header_and_websocket_query() {
    let both = RequestHead {
        cookies: Some("other=1; koan_access=from-cookie"),
        authorization: Some("Bearer from-header"),
        query: Some("x=1&token=from-query"),
        ..head("/graphql/ws")
    };
    assert_eq!(extract_token(&both).as_deref(), Some("from-cookie"));

    let header = RequestHead {
        cookies: Some("other=1"),
        ..both
    };
    assert_eq!(extract_token(&header).as_deref(), Some("from-header"));

    let query = RequestHead {
        authorization: Some("Basic abc"),
        ..header
    };
    assert_eq!(extract_token(&query).as_deref(), Some("from-query"));

    let elsewhere = RequestHead {
        path: "/graphql",
        ..query
    };
    assert_eq!(extract_token(&elsewhere), None);
}

#[test]
fn a_token_has_to_be_verified() {
    let asked = RequestHead {
        authorization: Some("Bearer abc"),
        ..head("/graphql")
    };
    match auth_middleware(&enforcing(None), &asked) {
        Admission::Verify(token) => assert_eq!(token, "abc"),
        other => panic!("{:?}", other),
    }
    match token_verified(None) {
        Admission::Refuse(text) => assert_eq!(text, "invalid or expired token"),
        other => panic!("{:?}", other),
    }
    passes_as(
        token_verified(Some(AccessClaims {
            sub: 7,
            username: "alice".into(),
            role: "user".into(),
        })),
        "alice",
        Role::User,
    );
    // A role that nobody knows is the least.
    passes_as(
        token_verified(Some(AccessClaims {
            sub: 7,
            username: "alice".into(),
            role: "wizard".into(),
        })),
        "alice",
        Role::Readonly,
    );
}

#[test]
fn the_introspection_key_has_to_match() {
    let shown = RequestHead {
        introspection_key: Some("sekrit"),
        ..head("/graphql")
    };
    passes_as(
        auth_middleware(&enforcing(Some("sekrit")), &shown),
        "anonymous",
        Role::Admin,
    );
    let wrong = RequestHead {
        introspection_key: Some("sekrjt"),
        ..head("/graphql")
    };
    assert!(matches!(
        auth_middleware(&enforcing(Some("sekrit")), &wrong),
        Admission::Refuse(_)
    ));
    assert!(matches!(
        auth_middleware(&enforcing(None), &shown),
        Admission::Refuse(_)
    ));
}

#[test]
fn roles_are_ordered() {
    let user = AuthUser::anonymous(Role::User);
    assert!(require_role(Some(&user), Role::Readonly).is_ok());
    assert!(require_role(Some(&user), Role::User).is_ok());
    assert_eq!(
        require_role(Some(&user), Role::Admin).unwrap_err(),
        "forbidden: requires admin role, you have user"
    );
    assert!(require_role(None, Role::Admin).is_ok());
    assert_eq!(AuthUser::anonymous_admin().username, "anonymous");
    for role in [Role::Admin, Role::User, Role::Readonly] {
        assert_eq!(role_or_readonly(role.as_str()), role);
    }
}

fn alice() -> UserRow {
    UserRow {
        id: 7,
        username: "alice".into(),
        password_hash: "hash".into(),
        role: Role::User,
    }
}

#[test]
fn a_login_step_by_step() {
    let state = routes(false);
    let (s, a) = login(LoginRequest {
        username: "alice".into(),
        password: "pw".into(),
    });
    assert!(matches!(a, SignInAction::Open));
    let (s, a) = sign_in_step(&state, s, SignInEvent::Opened(true));
    match a {
        SignInAction::FindByName(name) => assert_eq!(name, "alice"),
        other => panic!("{:?}", other),
    }
    let (s, a) = sign_in_step(&state, s, SignInEvent::User(Lookup::Found(alice())));
    match a {
        SignInAction::Verify { password, hash } => {
            assert_eq!((password.as_str(), hash.as_str()), ("pw", "hash"))
        }
        other => panic!("{:?}", other),
    }
    let (s, a) = sign_in_step(&state, s, SignInEvent::Verified(true));
    match a {
        SignInAction::Mint {
            user_id,
            username,
            role,
            ttl_secs,
        } => assert_eq!(
            (user_id, username.as_str(), role, ttl_secs),
            (7, "alice", Role::User, 900)
        ),
        other => panic!("{:?}", other),
    }
    let (s, a) = sign_in_step(&state, s, SignInEvent::Minted(Some("acc".into())));
    assert!(matches!(a, SignInAction::Draw));
    let (s, a) = sign_in_step(&state, s, SignInEvent::Drawn(Some("ref".into()), 1000));
    match a {
        SignInAction::Store {
            token,
            user_id,
            expires,
        } => assert_eq!((token.as_str(), user_id, expires), ("ref", 7, 1060)),
        other => panic!("{:?}", other),
    }
    let (s, a) = sign_in_step(&state, s, SignInEvent::Stored(true));
    assert!(matches!(s, SignIn::Done));
    match a {
        SignInAction::CleanAndReply(AuthReply::LoggedIn {
            access_cookie,
            refresh_cookie,
            login,
        }) => {
            assert_eq!(access_cookie, state.access_cookie("acc"));
            assert_eq!(refresh_cookie, state.refresh_cookie("ref"));
            assert_eq!(login.access_token, "acc");
            assert_eq!(login.refresh_token, "ref");
            assert_eq!(login.token_type, "Bearer");
            assert_eq!(login.expires_in, 900);
            assert_eq!(login.user.id, 7);
            assert_eq!(login.user.username, "alice");
            assert_eq!(login.user.role, "user");
        }
        other => panic!("{:?}", other),
    }
}

fn told(action: SignInAction) -> (u16, String) {
    match action {
        SignInAction::Reply(AuthReply::Message { status, body }) => (status, body.message),
        SignInAction::Reply(AuthReply::Text { status, text }) => (status, text.to_owned()),
        other => panic!("{:?}", other),
    }
}

#[test]
fn a_login_may_fail_at_every_step() {
    let state = routes(false);
    let step = |s, e| told(sign_in_step(&state, s, e).1);
    let req = || LoginRequest {
        username: "alice".into(),
        password: "pw".into(),
    };
    let internal = (500, "internal error".to_owned());
    let token = (500, "token error".to_owned());
    let wrong = (401, "invalid username or password".to_owned());
    assert_eq!(step(SignIn::Opening(req()), SignInEvent::Opened(false)), internal);
    assert_eq!(
        step(SignIn::Finding("pw".into()), SignInEvent::User(Lookup::Missing)),
        wrong
    );
    assert_eq!(
        step(SignIn::Finding("pw".into()), SignInEvent::User(Lookup::Failed)),
        internal
    );
    assert_eq!(
        step(SignIn::Verifying(alice()), SignInEvent::Verified(false)),
        wrong
    );
    assert_eq!(
        step(SignIn::Minting(Way::Login, alice()), SignInEvent::Minted(None)),
        token
    );
    assert_eq!(
        step(
            SignIn::Drawing(Way::Login, alice(), "acc".into()),
            SignInEvent::Drawn(None, 0)
        ),
        token
    );
    assert_eq!(
        step(
            SignIn::Storing(Way::Login, alice(), "acc".into(), "ref".into()),
            SignInEvent::Stored(false)
        ),
        token
    );
}

#[test]
fn a_refresh_consumes_the_old_token() {
    let state = routes(false);
    let (s, a) = refresh(Some("old"), None);
    assert!(matches!(a, SignInAction::Open));
    let (s, a) = sign_in_step(&state, s, SignInEvent::Opened(true));
    match a {
        SignInAction::Consume(token) => assert_eq!(token, "old"),
        other => panic!("{:?}", other),
    }
    let (s, a) = sign_in_step(&state, s, SignInEvent::Consumed(Lookup::Found(7)));
    assert!(matches!(a, SignInAction::FindById(7)));
    let (s, _) = sign_in_step(&state, s, SignInEvent::User(Lookup::Found(alice())));
    let (s, _) = sign_in_step(&state, s, SignInEvent::Minted(Some("acc".into())));
    let (s, _) = sign_in_step(&state, s, SignInEvent::Drawn(Some("new".into()), 5));
    let (_, a) = sign_in_step(&state, s, SignInEvent::Stored(true));
    match a {
        SignInAction::Reply(AuthReply::Refreshed { tokens, .. }) => {
            assert_eq!(tokens.access_token, "acc");
            assert_eq!(tokens.refresh_token, "new");
            assert_eq!(tokens.token_type, "Bearer");
            assert_eq!(tokens.expires_in, 900);
        }
        other => panic!("{:?}", other),
    }
}

#[test]
fn a_refresh_may_fail() {
    let state = routes(false);
    let step = |s, e| told(sign_in_step(&state, s, e).1);
    assert_eq!(
        told(refresh(None, Some("a=1")).1),
        (401, "missing refresh token".to_owned())
    );
    assert_eq!(
        step(SignIn::Reopening("t".into()), SignInEvent::Opened(false)),
        (500, "internal error".to_owned())
    );
    assert_eq!(
        step(SignIn::Consuming, SignInEvent::Consumed(Lookup::Missing)),
        (401, "invalid or expired refresh token".to_owned())
    );
    assert_eq!(
        step(SignIn::Consuming, SignInEvent::Consumed(Lookup::Failed)),
        (500, "internal error".to_owned())
    );
    assert_eq!(
        step(SignIn::Reloading, SignInEvent::User(Lookup::Missing)),
        (401, "user not found".to_owned())
    );
    assert_eq!(
        step(SignIn::Reloading, SignInEvent::User(Lookup::Failed)),
        (500, "internal error".to_owned())
    );
}

#[test]
fn a_logout_clears_both_cookies() {
    let (token, reply) = logout(&routes(false), None, Some("koan_refresh=r1"));
    assert_eq!(token.as_deref(), Some("r1"));
    match reply {
        AuthReply::LoggedOut {
            access_cookie,
            refresh_cookie,
            body,
        } => {
            assert_eq!(
                access_cookie,
                "koan_access=; HttpOnly; SameSite=Lax; Path=/; Max-Age=0"
            );
            assert_eq!(
                refresh_cookie,
                "koan_refresh=; HttpOnly; SameSite=Lax; Path=/auth/refresh; Max-Age=0"
            );
            assert_eq!(body.message, "logged out");
        }
        other => panic!("{:?}", other),
    }
}
