//! How the server is set up.

use vstd::prelude::*;

use crate::auth::middleware::AuthState;
use crate::auth::routes::AuthRouteState;
use crate::text::{
    begins_with, concat, concat3, decimal, decimal_of, ends_with, opt_text, push_decimal, texts,
};

verus! {

/// What the command line asks for.
#[derive(Debug)]
pub struct ApiServerOpts {
    pub port: Option<u16>,
    /// The address to listen on, as text.
    pub bind: Option<String>,
    pub subsonic_port: Option<u16>,
    pub playground: bool,
}

/// What the configuration says.
#[derive(Debug)]
pub struct ServerConfig {
    pub port: u16,
    /// The address to listen on, as text.
    pub bind: String,
    pub playground: bool,
    pub auth_enabled: bool,
    /// How long access tokens live, if that could be read.
    pub access_token_ttl: Option<u64>,
    /// How long refresh tokens live, if that could be read.
    pub refresh_token_ttl: Option<u64>,
    pub cookie_secure: bool,
}

/// A private and a public key.
#[derive(Debug)]
pub struct Keypair {
    pub private_pem: Vec<u8>,
    pub public_pem: Vec<u8>,
}

/// How long access tokens live where nothing is configured.
pub const DEFAULT_ACCESS_TTL: u64 = 900;

/// How long refresh tokens live where nothing is configured.
pub const DEFAULT_REFRESH_TTL: u64 = 2_592_000;

/// How the server is set up.
#[derive(Debug)]
pub struct ServerPlan {
    pub port: u16,
    pub bind: String,
    pub playground: bool,
    pub private_pem: Vec<u8>,
    pub auth: AuthState,
    pub routes: AuthRouteState,
    /// Where the API, or the playground, is to be found.
    pub url: String,
    /// A second port for the Subsonic routes alone.
    pub subsonic_port: Option<u16>,
}

/// The complaint about keys that cannot be loaded.
pub open spec fn unloadable_text(why: Seq<char>) -> Seq<char> {
    "auth_enabled = true but the keypair could not be loaded: "@ + why
        + ". Run `koan auth setup`."@
}

/// The keys to sign with. Where tokens are required, there have to be keys, and they may
/// not be empty; else any will do, or none.
pub fn signing_keys(auth_enabled: bool, loaded: Result<Keypair, String>) -> (r: Result<
    Keypair,
    String,
>)
    ensures
        match (loaded, r) {
            (Ok(keys), Ok(k)) => k == keys && (auth_enabled ==> keys.private_pem@.len() > 0
                && keys.public_pem@.len() > 0),
            (Ok(keys), Err(m)) => auth_enabled && (keys.private_pem@.len() == 0
                || keys.public_pem@.len() == 0) && m@
                == "auth_enabled = true but the keypair files are empty. Run `koan auth regenerate-keys`."@,
            (Err(e), Err(m)) => auth_enabled && m@ == unloadable_text(e@),
            (Err(e), Ok(k)) => !auth_enabled && k.private_pem@.len() == 0 && k.public_pem@.len()
                == 0,
        },
{
    match loaded {
        Ok(keys) => if auth_enabled && (keys.private_pem.len() == 0 || keys.public_pem.len() == 0) {
            Err(
                "auth_enabled = true but the keypair files are empty. Run `koan auth regenerate-keys`.".to_owned(),
            )
        } else {
            Ok(keys)
        },
        Err(e) => if auth_enabled {
            Err(
                concat3(
                    "auth_enabled = true but the keypair could not be loaded: ",
                    e.as_str(),
                    ". Run `koan auth setup`.",
                ),
            )
        } else {
            Ok(Keypair { private_pem: Vec::new(), public_pem: Vec::new() })
        },
    }
}

/// Whether the playground needs a key to get past authentication.
pub open spec fn needs_key(opts: ApiServerOpts, cfg: ServerConfig) -> bool {
    (opts.playground || cfg.playground) && cfg.auth_enabled
}

/// Where the API is to be found, with the key in the address where there is one.
pub open spec fn url_text(bind: Seq<char>, port: u16, key: Option<Seq<char>>) -> Seq<char> {
    let base = "http://"@ + bind + ":"@ + decimal(port as nat) + "/graphql"@;
    match key {
        Some(k) => base + "?introspection-key="@ + k,
        None => base,
    }
}

/// Whether a plan is what the command line and the configuration ask for.
pub open spec fn follows(
    plan: ServerPlan,
    opts: ApiServerOpts,
    cfg: ServerConfig,
    keys: (Seq<u8>, Seq<u8>),
    key: Option<Seq<char>>,
) -> bool {
    &&& plan.port == match opts.port {
        Some(p) => p,
        None => cfg.port,
    }
    &&& plan.bind@ == match opts.bind {
        Some(b) => b@,
        None => cfg.bind@,
    }
    &&& plan.playground == (opts.playground || cfg.playground)
    &&& plan.private_pem@ == keys.0
    &&& plan.auth.public_pem@ == keys.1
    &&& plan.auth.auth_enabled == cfg.auth_enabled
    &&& opt_text(plan.auth.introspection_key) == key
    &&& plan.routes.access_ttl_secs == match cfg.access_token_ttl {
        Some(t) => t,
        None => DEFAULT_ACCESS_TTL,
    }
    &&& plan.routes.refresh_ttl_secs == match cfg.refresh_token_ttl {
        Some(t) => t,
        None => DEFAULT_REFRESH_TTL,
    }
    &&& plan.routes.cookie_secure == cfg.cookie_secure
    &&& plan.url@ == url_text(plan.bind@, plan.port, key)
    &&& plan.subsonic_port == match opts.subsonic_port {
        Some(p) => if p != plan.port {
            Some(p)
        } else {
            None
        },
        None => None,
    }
}

/// The private and the public key that were loaded, empty where none were.
pub open spec fn loaded_keys(loaded: Result<Keypair, String>) -> (Seq<u8>, Seq<u8>) {
    match loaded {
        Ok(k) => (k.private_pem@, k.public_pem@),
        Err(_) => (Seq::empty(), Seq::empty()),
    }
}

/// The key that was drawn, where one is needed.
pub open spec fn playground_key(
    opts: ApiServerOpts,
    cfg: ServerConfig,
    drawn: Result<String, String>,
) -> Option<Seq<char>> {
    if needs_key(opts, cfg) {
        Some(drawn->Ok_0@)
    } else {
        None
    }
}

/// Sets the server up, given the keys that were loaded and the key that was drawn for
/// the playground, which counts only where one is needed. A misconfiguration is a
/// failure, never a server without authentication.
pub fn run_api_blocking(
    opts: &ApiServerOpts,
    cfg: &ServerConfig,
    loaded: Result<Keypair, String>,
    drawn: Result<String, String>,
) -> (r: Result<ServerPlan, String>)
    ensures
        ({
            let usable = match loaded {
                Ok(k) => cfg.auth_enabled ==> k.private_pem@.len() > 0 && k.public_pem@.len() > 0,
                Err(_) => !cfg.auth_enabled,
            };
            match r {
                Ok(plan) => {
                    &&& usable
                    &&& needs_key(*opts, *cfg) ==> drawn is Ok
                    &&& follows(
                        plan,
                        *opts,
                        *cfg,
                        loaded_keys(loaded),
                        playground_key(*opts, *cfg, drawn),
                    )
                },
                Err(m) => if usable {
                    needs_key(*opts, *cfg) && drawn is Err && m@
                        == "failed to generate introspection key: "@ + drawn->Err_0@
                } else {
                    m@ == match loaded {
                        Ok(_) =>
                            "auth_enabled = true but the keypair files are empty. Run `koan auth regenerate-keys`."@,
                        Err(e) => unloadable_text(e@),
                    }
                },
            }
        }),
        cfg.auth_enabled && r is Ok ==> r->Ok_0.auth.auth_enabled && r->Ok_0.auth.public_pem@.len()
            > 0 && r->Ok_0.private_pem@.len() > 0,
{
    let keys = match signing_keys(cfg.auth_enabled, loaded) {
        Ok(k) => k,
        Err(m) => return Err(m),
    };
    let playground = opts.playground || cfg.playground;
    let key = if playground && cfg.auth_enabled {
        match drawn {
            Ok(k) => Some(k),
            Err(e) => return Err(concat("failed to generate introspection key: ", e.as_str())),
        }
    } else {
        None
    };
    let port: u16 = match opts.port {
        Some(p) => p,
        None => cfg.port,
    };
    let bind = match &opts.bind {
        Some(b) => b.clone(),
        None => cfg.bind.clone(),
    };
    let mut url = concat3("http://", bind.as_str(), ":");
    push_decimal(&mut url, port as u64);
    url.push_str("/graphql");
    if let Some(k) = &key {
        url.push_str("?introspection-key=");
        url.push_str(k.as_str());
    }
    let access_ttl_secs: u64 = match cfg.access_token_ttl {
        Some(t) => t,
        None => DEFAULT_ACCESS_TTL,
    };
    let refresh_ttl_secs: u64 = match cfg.refresh_token_ttl {
        Some(t) => t,
        None => DEFAULT_REFRESH_TTL,
    };
    let subsonic_port = match opts.subsonic_port {
        Some(p) => if p != port {
            Some(p)
        } else {
            None
        },
        None => None,
    };
    let plan = ServerPlan {
        port,
        bind,
        playground,
        private_pem: keys.private_pem,
        auth: AuthState {
            public_pem: keys.public_pem,
            auth_enabled: cfg.auth_enabled,
            introspection_key: key,
        },
        routes: AuthRouteState {
            access_ttl_secs,
            refresh_ttl_secs,
            cookie_secure: cfg.cookie_secure,
        },
        url,
        subsonic_port,
    };
    assert(plan.private_pem@ =~= loaded_keys(loaded).0);
    assert(plan.auth.public_pem@ =~= loaded_keys(loaded).1);
    Ok(plan)
}

/// The arguments of a server that runs in the background.
pub open spec fn daemon_words(
    port: u16,
    bind: Seq<char>,
    subsonic_port: Option<u16>,
    playground: bool,
) -> Seq<Seq<char>> {
    let base = seq!["--headless"@, "--port"@, decimal(port as nat), "--bind"@, bind];
    let with_subsonic = match subsonic_port {
        Some(p) => base + seq!["--subsonic"@, decimal(p as nat)],
        None => base,
    };
    if playground {
        with_subsonic.push("--playground"@)
    } else {
        with_subsonic
    }
}

/// The arguments of a server that runs in the background.
pub fn daemon_args(opts: &ApiServerOpts, cfg: &ServerConfig) -> (r: Vec<String>)
    ensures
        texts(r@) == daemon_words(
            match opts.port {
                Some(p) => p,
                None => cfg.port,
            },
            match opts.bind {
                Some(b) => b@,
                None => cfg.bind@,
            },
            opts.subsonic_port,
            opts.playground || cfg.playground,
        ),
{
    broadcast use crate::lists::group_lists;

    let port: u16 = match opts.port {
        Some(p) => p,
        None => cfg.port,
    };
    let bind = match &opts.bind {
        Some(b) => b.clone(),
        None => cfg.bind.clone(),
    };
    let mut args: Vec<String> = Vec::new();
    args.push("--headless".to_owned());
    args.push("--port".to_owned());
    args.push(decimal_of(port as u64));
    args.push("--bind".to_owned());
    args.push(bind);
    assert(texts(args@) =~= seq![
        "--headless"@,
        "--port"@,
        decimal(port as nat),
        "--bind"@,
        match opts.bind {
            Some(b) => b@,
            None => cfg.bind@,
        },
    ]);
    let ghost base = texts(args@);
    if let Some(p) = opts.subsonic_port {
        args.push("--subsonic".to_owned());
        args.push(decimal_of(p as u64));
        assert(texts(args@) =~= base + seq!["--subsonic"@, decimal(p as nat)]);
    }
    if opts.playground || cfg.playground {
        args.push("--playground".to_owned());
    }
    args
}

/// Whether the Subsonic routes are served.
#[derive(Clone, Copy, Debug, PartialEq, Eq, Structural)]
pub enum SubsonicMount {
    /// They are not asked for.
    Off,
    /// There is no user.
    NoUser,
    /// There is no secret.
    NoSecret,
    On,
}

/// Whether the Subsonic routes are served: only if they are asked for and have
/// credentials of their own.
pub fn subsonic_router(enabled: bool, username: &str, has_secret: bool) -> (r: SubsonicMount)
    ensures
        r == if !enabled {
            SubsonicMount::Off
        } else if username@.len() == 0 {
            SubsonicMount::NoUser
        } else if !has_secret {
            SubsonicMount::NoSecret
        } else {
            SubsonicMount::On
        },
{
    if !enabled {
        SubsonicMount::Off
    } else if username.unicode_len() == 0 {
        SubsonicMount::NoUser
    } else if !has_secret {
        SubsonicMount::NoSecret
    } else {
        SubsonicMount::On
    }
}

/// What is given on the command line counts before the configuration; every setting goes where
/// it belongs, and tokens live a quarter of an hour and thirty days where nothing else is said.
pub proof fn plans_follow_what_is_given(
    plan: ServerPlan,
    opts: ApiServerOpts,
    cfg: ServerConfig,
    keys: (Seq<u8>, Seq<u8>),
    key: Option<Seq<char>>,
)
    requires
        follows(plan, opts, cfg, keys, key),
    ensures
        opts.port is Some ==> plan.port == opts.port->0,
        opts.port is None ==> plan.port == cfg.port,
        opts.bind is Some ==> plan.bind@ == opts.bind->0@,
        opts.bind is None ==> plan.bind@ == cfg.bind@,
        plan.playground <==> opts.playground || cfg.playground,
        plan.private_pem@ == keys.0,
        plan.auth.public_pem@ == keys.1,
        plan.auth.auth_enabled == cfg.auth_enabled,
        key is None <==> plan.auth.introspection_key is None,
        key is Some ==> plan.auth.introspection_key->0@ == key->0,
        cfg.access_token_ttl is Some ==> plan.routes.access_ttl_secs == cfg.access_token_ttl->0,
        cfg.access_token_ttl is None ==> plan.routes.access_ttl_secs == 15 * 60,
        cfg.refresh_token_ttl is Some ==> plan.routes.refresh_ttl_secs
            == cfg.refresh_token_ttl->0,
        cfg.refresh_token_ttl is None ==> plan.routes.refresh_ttl_secs == 30 * 24 * 60 * 60,
        plan.routes.cookie_secure == cfg.cookie_secure,
        plan.subsonic_port is Some <==> opts.subsonic_port is Some && opts.subsonic_port->0
            != plan.port,
        plan.subsonic_port is Some ==> plan.subsonic_port == opts.subsonic_port,
        begins_with(
            plan.url@,
            "http://"@ + plan.bind@ + ":"@ + decimal(plan.port as nat) + "/graphql"@,
        ),
        key is Some ==> ends_with(plan.url@, "?introspection-key="@ + key->0),
        key is None ==> plan.url@ == "http://"@ + plan.bind@ + ":"@ + decimal(plan.port as nat)
            + "/graphql"@,
{
    let base = "http://"@ + plan.bind@ + ":"@ + decimal(plan.port as nat) + "/graphql"@;
    assert(plan.url@.take(base.len() as int) =~= base);
    if let Some(k) = key {
        let tail = "?introspection-key="@ + k;
        assert(plan.url@ =~= base + tail);
        assert(plan.url@.skip(plan.url@.len() - tail.len()) =~= tail);
    }
}

/// The playground has a key of its own exactly where it is on and tokens are asked for.
pub proof fn playgrounds_need_keys_where_tokens_are_asked_for(
    opts: ApiServerOpts,
    cfg: ServerConfig,
    drawn: Result<String, String>,
)
    requires
        drawn is Ok,
    ensures
        playground_key(opts, cfg, drawn) is Some <==> cfg.auth_enabled && (opts.playground
            || cfg.playground),
        playground_key(opts, cfg, drawn) is Some ==> playground_key(opts, cfg, drawn)->0
            == drawn->Ok_0@,
{
}

/// The words that start a server in the background name its port, its address and the port
/// for Subsonic, each behind its own flag, and the playground where it is on.
pub proof fn background_servers_are_told_all(
    port: u16,
    bind: Seq<char>,
    subsonic_port: Option<u16>,
    playground: bool,
)
    ensures
        ({
            let words = daemon_words(port, bind, subsonic_port, playground);
            &&& words[0] == "--headless"@
            &&& words[1] == "--port"@
            &&& words[2] == decimal(port as nat)
            &&& words[3] == "--bind"@
            &&& words[4] == bind
            &&& subsonic_port is Some ==> words[5] == "--subsonic"@ && words[6] == decimal(
                subsonic_port->0 as nat,
            )
            &&& playground ==> words.last() == "--playground"@
            &&& words.len() == 5 + (if subsonic_port is Some {
                2int
            } else {
                0
            }) + (if playground {
                1int
            } else {
                0
            })
        }),
{
}

} // verus!
