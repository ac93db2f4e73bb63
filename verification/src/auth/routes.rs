//! The routes that give tokens out: login, refresh and logout.

use vstd::prelude::*;

use crate::auth::middleware::{cookie_value, read_cookie};
use crate::auth::Role;
use crate::lists::{filter_contains, filter_none, filter_step};
use crate::text::{
    begins_with, concat3, contains_text, decimal, ends_with, opt_str, opt_text, push_decimal,
};

verus! {

// ---------------------------------------------------------------------------
// Limiting logins
// ---------------------------------------------------------------------------

/// How long a window of login attempts lasts.
pub const LOGIN_WINDOW_SECS: u64 = 60;

/// How many attempts an address has in a window.
pub const LOGIN_MAX_PER_WINDOW: u32 = 10;

/// Above this many tracked addresses, windows that are over are dropped before another
/// is added.
pub const LOGIN_TRACKED_IPS_MAX: usize = 4096;

/// The address of a client.
#[derive(Clone, Copy, Debug, PartialEq, Eq, Structural)]
pub enum IpAddress {
    V4(u32),
    V6(u128),
}

/// An address with the start of its window and the attempts in it.
pub type LoginWindow = (IpAddress, (u64, u32));

/// Whether a window has not ended.
pub open spec fn is_live(w: LoginWindow, now: u64) -> bool {
    now < w.1.0 || now - w.1.0 < LOGIN_WINDOW_SECS
}

/// The windows that are kept when another attempt comes.
pub open spec fn swept(ws: Seq<LoginWindow>, now: u64) -> Seq<LoginWindow> {
    if ws.len() > LOGIN_TRACKED_IPS_MAX {
        ws.filter(|w: LoginWindow| is_live(w, now))
    } else {
        ws
    }
}

/// The place of an address among the windows.
pub open spec fn place_of(ws: Seq<LoginWindow>, ip: IpAddress) -> Option<int>
    decreases ws.len(),
{
    if ws.len() == 0 {
        None
    } else if ws.last().0 == ip {
        Some(ws.len() - 1)
    } else {
        place_of(ws.drop_last(), ip)
    }
}

/// How many attempts of an address count.
pub open spec fn spent(ws: Seq<LoginWindow>, ip: IpAddress, now: u64) -> int {
    match place_of(ws, ip) {
        Some(i) => if is_live(ws[i], now) {
            ws[i].1.1 as int
        } else {
            0
        },
        None => 0,
    }
}

/// One attempt more, as far as numbers go.
pub open spec fn one_more(n: int) -> u32 {
    if n < u32::MAX {
        (n + 1) as u32
    } else {
        u32::MAX
    }
}

/// The window of an address after one more attempt: the same, or a new one.
pub open spec fn next_window(ws: Seq<LoginWindow>, ip: IpAddress, now: u64) -> LoginWindow {
    match place_of(ws, ip) {
        Some(i) => if is_live(ws[i], now) {
            (ip, (ws[i].1.0, one_more(ws[i].1.1 as int)))
        } else {
            (ip, (now, 1u32))
        },
        None => (ip, (now, 1u32)),
    }
}

/// The windows after one more attempt.
pub open spec fn counted(ws: Seq<LoginWindow>, ip: IpAddress, now: u64) -> Seq<LoginWindow> {
    let kept = swept(ws, now);
    match place_of(kept, ip) {
        Some(i) => kept.update(i, next_window(kept, ip, now)),
        None => kept.push(next_window(kept, ip, now)),
    }
}

/// Whether no address is tracked twice.
pub open spec fn each_once(ws: Seq<LoginWindow>) -> bool {
    forall|i: int, j: int| 0 <= i < j < ws.len() ==> (#[trigger] ws[i]).0 != (#[trigger] ws[j]).0
}

/// Counts the login attempts of each address, because verifying a password costs much
/// memory and time.
#[derive(Debug)]
pub struct LoginRateLimiter {
    windows: Vec<LoginWindow>,
}

proof fn place_of_is(ws: Seq<LoginWindow>, ip: IpAddress)
    ensures
        match place_of(ws, ip) {
            Some(i) => 0 <= i < ws.len() && ws[i].0 == ip,
            None => forall|k: int| 0 <= k < ws.len() ==> (#[trigger] ws[k]).0 != ip,
        },
    decreases ws.len(),
{
    if ws.len() > 0 && ws.last().0 != ip {
        let rest = ws.drop_last();
        place_of_is(rest, ip);
        assert forall|k: int| 0 <= k < rest.len() implies rest[k] == #[trigger] ws[k] by {}
    }
}

impl LoginRateLimiter {
    /// The windows that are tracked.
    pub closed spec fn windows(&self) -> Seq<LoginWindow> {
        self.windows@
    }

    /// A limiter that tracks nobody.
    pub fn new() -> (r: Self)
        ensures
            r.windows() == Seq::<LoginWindow>::empty(),
    {
        LoginRateLimiter { windows: Vec::new() }
    }

    fn sweep(&mut self, now: u64)
        ensures
            final(self).windows() == swept(old(self).windows(), now),
    {
        if self.windows.len() > LOGIN_TRACKED_IPS_MAX {
            let ghost all = self.windows@;
            let ghost keep = |w: LoginWindow| is_live(w, now);
            let mut out: Vec<LoginWindow> = Vec::new();
            let mut i: usize = 0;
            proof {
                filter_none(all, keep);
            }
            while i < self.windows.len()
                invariant
                    i <= self.windows@.len(),
                    all == self.windows@,
                    keep == (|w: LoginWindow| is_live(w, now)),
                    out@ == all.take(i as int).filter(keep),
                decreases self.windows@.len() - i,
            {
                let w = self.windows[i];
                proof {
                    filter_step(all, i as int, keep);
                }
                if now < w.1.0 || now - w.1.0 < LOGIN_WINDOW_SECS {
                    out.push(w);
                }
                i = i + 1;
            }
            assert(all.take(i as int) =~= all);
            self.windows = out;
        }
    }

    /// Counts an attempt at some time, and says whether the address has any left.
    pub fn allow(&mut self, now: u64, ip: IpAddress) -> (r: bool)
        ensures
            final(self).windows() == counted(old(self).windows(), ip, now),
            r == (next_window(swept(old(self).windows(), now), ip, now).1.1
                <= LOGIN_MAX_PER_WINDOW),
    {
        self.sweep(now);
        let ghost kept = self.windows@;
        let mut i: usize = self.windows.len();
        assert(kept.take(i as int) =~= kept);
        while i > 0
            invariant
                i <= self.windows@.len(),
                self.windows@ == kept,
                place_of(kept, ip) == place_of(kept.take(i as int), ip),
                kept == swept(old(self).windows(), now),
            decreases i,
        {
            assert(kept.take(i as int).drop_last() =~= kept.take(i - 1));
            i = i - 1;
            let w = self.windows[i];
            if w.0 == ip {
                let next: (u64, u32) = if now < w.1.0 || now - w.1.0 < LOGIN_WINDOW_SECS {
                    (w.1.0, if w.1.1 < u32::MAX {
                        w.1.1 + 1
                    } else {
                        u32::MAX
                    })
                } else {
                    (now, 1)
                };
                self.windows.set(i, (ip, next));
                return next.1 <= LOGIN_MAX_PER_WINDOW;
            }
        }
        self.windows.push((ip, (now, 1)));
        true
    }
}

proof fn filtered_places(ws: Seq<LoginWindow>, now: u64, ip: IpAddress)
    requires
        each_once(ws),
    ensures
        ({
            let kept = ws.filter(|w: LoginWindow| is_live(w, now));
            &&& each_once(kept)
            &&& match place_of(ws, ip) {
                Some(i) => if is_live(ws[i], now) {
                    place_of(kept, ip) is Some && kept[place_of(kept, ip)->0] == ws[i]
                } else {
                    place_of(kept, ip) is None
                },
                None => place_of(kept, ip) is None,
            }
        }),
    decreases ws.len(),
{
    reveal(Seq::filter);
    let keep = |w: LoginWindow| is_live(w, now);
    let kept = ws.filter(keep);
    if ws.len() > 0 {
        let rest = ws.drop_last();
        filtered_places(rest, now, ip);
        let before = rest.filter(keep);
        place_of_is(rest, ip);
        place_of_is(before, ip);
        assert forall|i: int, j: int| 0 <= i < j < kept.len() implies (#[trigger] kept[i]).0 != (
        #[trigger] kept[j]).0 by {
            if j < before.len() {
                assert(before[i] == kept[i] && before[j] == kept[j]);
            } else {
                filter_contains(rest, keep, before[i]);
                assert(before.contains(before[i]));
                let k = choose|k: int| 0 <= k < rest.len() && rest[k] == before[i];
                assert(ws[k].0 != ws[ws.len() - 1].0);
            }
        }
        if keep(ws.last()) {
            assert(kept.drop_last() =~= before);
            assert(kept.last() == ws.last());
        } else {
            assert(kept =~= before);
            if ws.last().0 == ip {
                assert(place_of(rest, ip) is None) by {
                    if place_of(rest, ip) is Some {
                        let k = place_of(rest, ip)->0;
                        assert(ws[k].0 != ws[ws.len() - 1].0);
                    }
                }
            }
        }
    }
}

/// An attempt counts for the address that made it: it has a window left exactly if
/// fewer than the cap were spent, and one more is spent.
pub proof fn attempts_are_counted(ws: Seq<LoginWindow>, ip: IpAddress, now: u64)
    requires
        each_once(ws),
    ensures
        next_window(swept(ws, now), ip, now).1.1 == one_more(spent(ws, ip, now)),
        spent(counted(ws, ip, now), ip, now) == one_more(spent(ws, ip, now)),
        (next_window(swept(ws, now), ip, now).1.1 <= LOGIN_MAX_PER_WINDOW) == (spent(ws, ip, now)
            < LOGIN_MAX_PER_WINDOW),
{
    filtered_places(ws, now, ip);
    place_of_is(ws, ip);
    let kept = swept(ws, now);
    place_of_is(kept, ip);
    let after = counted(ws, ip, now);
    place_of_is(after, ip);
    match place_of(kept, ip) {
        Some(i) => {
            assert(after[i].0 == ip);
            let k = place_of(after, ip)->0;
            assert(k == i) by {
                if k != i {
                    assert(after[k] == kept[k]);
                    if k < i {
                        assert(kept[k].0 != kept[i].0);
                    } else {
                        assert(kept[i].0 != kept[k].0);
                    }
                }
            }
        },
        None => {
            assert(after.last().0 == ip);
        },
    }
}

/// An attempt does not count for anyone else, now or later.
pub proof fn others_are_unaffected(
    ws: Seq<LoginWindow>,
    ip: IpAddress,
    now: u64,
    other: IpAddress,
    later: u64,
)
    requires
        each_once(ws),
        other != ip,
        now <= later,
    ensures
        spent(counted(ws, ip, now), other, later) == spent(ws, other, later),
{
    filtered_places(ws, now, other);
    filtered_places(ws, now, ip);
    let kept = swept(ws, now);
    let after = counted(ws, ip, now);
    place_of_is(ws, other);
    place_of_is(kept, other);
    place_of_is(kept, ip);
    place_of_is(after, other);
    match place_of(kept, other) {
        Some(i) => {
            assert(after[i] == kept[i]);
            let k = place_of(after, other)->0;
            assert(k == i) by {
                if k != i {
                    assert(after[k] == kept[k]);
                    if k < i {
                        assert(kept[k].0 != kept[i].0);
                    } else {
                        assert(kept[i].0 != kept[k].0);
                    }
                }
            }
        },
        None => {
            if place_of(after, other) is Some {
                let k = place_of(after, other)->0;
                assert(k < kept.len() ==> after[k] == kept[k] || after[k].0 == ip);
            }
        },
    }
}

/// No address is ever tracked twice.
pub proof fn addresses_stay_single(ws: Seq<LoginWindow>, ip: IpAddress, now: u64)
    requires
        each_once(ws),
    ensures
        each_once(counted(ws, ip, now)),
{
    filtered_places(ws, now, ip);
    let kept = swept(ws, now);
    place_of_is(kept, ip);
    let after = counted(ws, ip, now);
    assert forall|i: int, j: int| 0 <= i < j < after.len() implies (#[trigger] after[i]).0 != (
    #[trigger] after[j]).0 by {
        if j < kept.len() {
            assert(after[i].0 == kept[i].0 && after[j].0 == kept[j].0);
        } else {
            assert(after[i] == kept[i]);
        }
    }
}

/// What is said to an address without attempts left.
pub fn login_rate_limit(allowed: bool) -> (r: Option<AuthReply>)
    ensures
        match r {
            None => allowed,
            Some(reply) => !allowed && says(reply, 429, "too many login attempts"@),
        },
{
    if allowed {
        None
    } else {
        Some(message(429, "too many login attempts"))
    }
}

// ---------------------------------------------------------------------------
// Cookies
// ---------------------------------------------------------------------------

/// The cookie that holds the refresh token.
pub const REFRESH_COOKIE: &'static str = "koan_refresh";

/// Where the refresh cookie is sent: nowhere else, so that no call of the API carries it.
pub const REFRESH_COOKIE_PATH: &'static str = "/auth/refresh";

/// How long tokens live, and whether cookies are for HTTPS only.
#[derive(Debug)]
pub struct AuthRouteState {
    pub access_ttl_secs: u64,
    pub refresh_ttl_secs: u64,
    /// Only where clients reach the server over HTTPS: a browser drops a secure cookie
    /// that comes over plain HTTP.
    pub cookie_secure: bool,
}

/// A cookie, kept from scripts and from requests of other sites.
pub open spec fn cookie_text(
    name: Seq<char>,
    value: Seq<char>,
    path: Seq<char>,
    max_age: nat,
    secure: bool,
) -> Seq<char> {
    let all = name + "="@ + value + "; HttpOnly; SameSite=Lax; Path="@ + path + "; Max-Age="@
        + decimal(max_age);
    if secure {
        all + "; Secure"@
    } else {
        all
    }
}

/// Every cookie is kept from scripts and from requests of other sites, and goes over
/// HTTPS alone where that is asked.
pub proof fn cookies_are_kept_close(
    name: Seq<char>,
    value: Seq<char>,
    path: Seq<char>,
    max_age: nat,
    secure: bool,
)
    ensures
        contains_text(
            cookie_text(name, value, path, max_age, secure),
            "; HttpOnly; SameSite=Lax; Path="@ + path,
        ),
        secure ==> ends_with(cookie_text(name, value, path, max_age, secure), "; Secure"@),
{
    let text = cookie_text(name, value, path, max_age, secure);
    let part = "; HttpOnly; SameSite=Lax; Path="@ + path;
    let i = (name + "="@ + value).len() as int;
    assert(text.subrange(i, i + part.len()) =~= part);
    if secure {
        assert(text.skip(text.len() - "; Secure"@.len()) =~= "; Secure"@);
    }
}

impl AuthRouteState {
    /// A cookie, kept from scripts and from requests of other sites.
    pub fn cookie(&self, name: &str, value: &str, path: &str, max_age: u64) -> (r: String)
        ensures
            r@ == cookie_text(name@, value@, path@, max_age as nat, self.cookie_secure),
    {
        let mut s = concat3(name, "=", value);
        s.push_str("; HttpOnly; SameSite=Lax; Path=");
        s.push_str(path);
        s.push_str("; Max-Age=");
        push_decimal(&mut s, max_age);
        if self.cookie_secure {
            s.push_str("; Secure");
        }
        s
    }

    /// The text of the access cookie.
    pub open spec fn access_text(self, token: Seq<char>) -> Seq<char> {
        cookie_text(
            "koan_access"@,
            token,
            "/"@,
            self.access_ttl_secs as nat,
            self.cookie_secure,
        )
    }

    /// The text of the refresh cookie.
    pub open spec fn refresh_text(self, token: Seq<char>) -> Seq<char> {
        cookie_text(
            "koan_refresh"@,
            token,
            "/auth/refresh"@,
            self.refresh_ttl_secs as nat,
            self.cookie_secure,
        )
    }

    /// The cookie that holds the access token.
    pub fn access_cookie(&self, token: &str) -> (r: String)
        ensures
            r@ == self.access_text(token@),
    {
        self.cookie("koan_access", token, "/", self.access_ttl_secs)
    }

    /// The cookie that holds the refresh token.
    pub fn refresh_cookie(&self, token: &str) -> (r: String)
        ensures
            r@ == self.refresh_text(token@),
    {
        self.cookie(REFRESH_COOKIE, token, REFRESH_COOKIE_PATH, self.refresh_ttl_secs)
    }
}

/// The refresh token of a request: from its body, unless that is empty, else from the
/// cookie.
pub open spec fn refresh_token_in(
    body: Option<Seq<char>>,
    cookies: Option<Seq<char>>,
) -> Option<Seq<char>> {
    if body is Some && body->0.len() > 0 {
        body
    } else {
        cookie_value(cookies, "koan_refresh="@)
    }
}

/// The refresh token of a request. A browser keeps it in the cookie, out of reach of
/// scripts.
pub fn refresh_token_from(body: Option<&str>, cookies: Option<&str>) -> (r: Option<String>)
    ensures
        opt_text(r) == refresh_token_in(opt_str(body), opt_str(cookies)),
{
    if let Some(t) = body {
        if t.unicode_len() > 0 {
            return Some(t.to_owned());
        }
    }
    read_cookie(cookies, "koan_refresh=")
}

// ---------------------------------------------------------------------------
// Requests and responses
// ---------------------------------------------------------------------------

/// A login.
#[derive(Debug)]
pub struct LoginRequest {
    pub username: String,
    pub password: String,
}

/// What a login gives.
#[derive(Debug)]
pub struct LoginResponse {
    pub access_token: String,
    pub refresh_token: String,
    pub token_type: String,
    pub expires_in: u64,
    pub user: UserInfo,
}

/// What a user is told of the account.
#[derive(Debug)]
pub struct UserInfo {
    pub id: i64,
    pub username: String,
    pub role: String,
}

/// A request for new tokens.
#[derive(Debug)]
pub struct RefreshRequest {
    pub refresh_token: Option<String>,
}

/// New tokens.
#[derive(Debug)]
pub struct RefreshResponse {
    pub access_token: String,
    pub refresh_token: String,
    pub token_type: String,
    pub expires_in: u64,
}

/// A logout.
#[derive(Debug)]
pub struct LogoutRequest {
    pub refresh_token: Option<String>,
}

/// A message.
#[derive(Debug)]
pub struct MessageResponse {
    pub message: String,
}

/// What a route answers.
#[derive(Debug)]
pub enum AuthReply {
    /// Plain text.
    Text { status: u16, text: &'static str },
    /// A message.
    Message { status: u16, body: MessageResponse },
    /// Success, with the access cookie and the refresh cookie.
    LoggedIn { access_cookie: String, refresh_cookie: String, login: LoginResponse },
    /// Success, with the access cookie and the refresh cookie.
    Refreshed { access_cookie: String, refresh_cookie: String, tokens: RefreshResponse },
    /// Success, with cookies that clear the two others.
    LoggedOut { access_cookie: String, refresh_cookie: String, body: MessageResponse },
}

/// Whether a reply is a message.
pub open spec fn says(reply: AuthReply, code: u16, text: Seq<char>) -> bool {
    match reply {
        AuthReply::Message { status, body } => status == code && body.message@ == text,
        _ => false,
    }
}

/// Whether a reply is a failure of the server, as plain text.
pub open spec fn fails(reply: AuthReply, what: Seq<char>) -> bool {
    match reply {
        AuthReply::Text { status, text } => status == 500 && text@ == what,
        _ => false,
    }
}

fn message(status: u16, text: &str) -> (r: AuthReply)
    ensures
        says(r, status, text@),
{
    AuthReply::Message { status, body: MessageResponse { message: text.to_owned() } }
}

fn failure(text: &'static str) -> (r: AuthReply)
    ensures
        fails(r, text@),
{
    AuthReply::Text { status: 500, text }
}

/// Whether a reply hands tokens out.
pub open spec fn grants(reply: AuthReply) -> bool {
    reply is LoggedIn || reply is Refreshed
}

// ---------------------------------------------------------------------------
// Login and refresh, step by step
// ---------------------------------------------------------------------------

/// A user, as the library keeps it.
#[derive(Debug)]
pub struct UserRow {
    pub id: i64,
    pub username: String,
    pub password_hash: String,
    pub role: Role,
}

/// What a look into the database finds.
#[derive(Debug)]
pub enum Lookup<T> {
    Found(T),
    Missing,
    Failed,
}

/// How a user came to new tokens.
#[derive(Clone, Copy, Debug, PartialEq, Eq, Structural)]
pub enum Way {
    Login,
    Refresh,
}

/// Where a login or a refresh stands: what it waits for.
#[derive(Debug)]
pub enum SignIn {
    /// For the database, to log in.
    Opening(LoginRequest),
    /// For the database, to refresh.
    Reopening(String),
    /// For the user that logs in with a password.
    Finding(String),
    /// For the password to be verified.
    Verifying(UserRow),
    /// For the refresh token to be consumed.
    Consuming,
    /// For the user whose refresh token was consumed.
    Reloading,
    /// For an access token.
    Minting(Way, UserRow),
    /// For a refresh token to be drawn.
    Drawing(Way, UserRow, String),
    /// For the refresh token to be stored.
    Storing(Way, UserRow, String, String),
    /// For nothing: it is over.
    Done,
}

/// What has happened.
#[derive(Debug)]
pub enum SignInEvent {
    /// The database was opened, or not.
    Opened(bool),
    /// The user was looked up.
    User(Lookup<UserRow>),
    /// The password was verified: whether it is right.
    Verified(bool),
    /// The refresh token was validated and revoked at once: whose it was.
    Consumed(Lookup<i64>),
    /// An access token was made, or not.
    Minted(Option<String>),
    /// A refresh token was drawn, or not, at some time.
    Drawn(Option<String>, u64),
    /// The refresh token was stored, or not.
    Stored(bool),
}

/// What to do next.
#[derive(Debug)]
pub enum SignInAction {
    Open,
    FindByName(String),
    Verify { password: String, hash: String },
    Consume(String),
    FindById(i64),
    Mint { user_id: i64, username: String, role: Role, ttl_secs: u64 },
    Draw,
    Store { token: String, user_id: i64, expires: i64 },
    /// Forget expired tokens, then answer.
    CleanAndReply(AuthReply),
    Reply(AuthReply),
}

/// A signed number with the bits of an unsigned one.
pub open spec fn as_signed(n: u64) -> int {
    if n <= i64::MAX {
        n as int
    } else {
        n - 0x1_0000_0000_0000_0000
    }
}

fn signed_of(n: u64) -> (r: i64)
    ensures
        r == as_signed(n),
{
    if n <= i64::MAX as u64 {
        n as i64
    } else {
        (n as i128 - 0x1_0000_0000_0000_0000) as i64
    }
}

/// Whether what has happened is what was waited for.
pub open spec fn expects(s: SignIn, e: SignInEvent) -> bool {
    match s {
        SignIn::Opening(_) => e is Opened,
        SignIn::Reopening(_) => e is Opened,
        SignIn::Finding(_) => e is User,
        SignIn::Verifying(_) => e is Verified,
        SignIn::Consuming => e is Consumed,
        SignIn::Reloading => e is User,
        SignIn::Minting(_, _) => e is Minted,
        SignIn::Drawing(_, _, _) => e is Drawn,
        SignIn::Storing(_, _, _, _) => e is Stored,
        SignIn::Done => false,
    }
}

/// Whether the end of a refresh token's life can be told, where one was drawn.
pub open spec fn expiry_fits(state: AuthRouteState, e: SignInEvent) -> bool {
    match e {
        SignInEvent::Drawn(_, now) => i64::MIN <= as_signed(now) + as_signed(
            state.refresh_ttl_secs,
        ) <= i64::MAX,
        _ => true,
    }
}

/// Where a login or a refresh stands after something has happened.
pub open spec fn next_state(s: SignIn, e: SignInEvent) -> SignIn {
    match (s, e) {
        (SignIn::Opening(req), SignInEvent::Opened(true)) => SignIn::Finding(req.password),
        (SignIn::Reopening(_), SignInEvent::Opened(true)) => SignIn::Consuming,
        (SignIn::Finding(_), SignInEvent::User(Lookup::Found(user))) => SignIn::Verifying(user),
        (SignIn::Verifying(user), SignInEvent::Verified(true)) => SignIn::Minting(
            Way::Login,
            user,
        ),
        (SignIn::Consuming, SignInEvent::Consumed(Lookup::Found(_))) => SignIn::Reloading,
        (SignIn::Reloading, SignInEvent::User(Lookup::Found(user))) => SignIn::Minting(
            Way::Refresh,
            user,
        ),
        (SignIn::Minting(way, user), SignInEvent::Minted(Some(access))) => SignIn::Drawing(
            way,
            user,
            access,
        ),
        (SignIn::Drawing(way, user, access), SignInEvent::Drawn(Some(token), _)) =>
            SignIn::Storing(way, user, access, token),
        _ => SignIn::Done,
    }
}

/// Whether an action asks for an access token for a user.
pub open spec fn mints_for(action: SignInAction, user: UserRow, ttl: u64) -> bool {
    match action {
        SignInAction::Mint { user_id, username, role, ttl_secs } => user_id == user.id
            && username@ == user.username@ && role == user.role && ttl_secs == ttl,
        _ => false,
    }
}

/// Whether a reply hands the tokens of a user out.
pub open spec fn hands_out(
    reply: AuthReply,
    state: AuthRouteState,
    way: Way,
    user: UserRow,
    access: Seq<char>,
    token: Seq<char>,
) -> bool {
    match (way, reply) {
        (Way::Login, AuthReply::LoggedIn { access_cookie, refresh_cookie, login }) => {
            &&& access_cookie@ == state.access_text(access)
            &&& refresh_cookie@ == state.refresh_text(token)
            &&& login.access_token@ == access
            &&& login.refresh_token@ == token
            &&& login.token_type@ == "Bearer"@
            &&& login.expires_in == state.access_ttl_secs
            &&& login.user.id == user.id
            &&& login.user.username@ == user.username@
            &&& login.user.role@ == user.role.word()
        },
        (Way::Refresh, AuthReply::Refreshed { access_cookie, refresh_cookie, tokens }) => {
            &&& access_cookie@ == state.access_text(access)
            &&& refresh_cookie@ == state.refresh_text(token)
            &&& tokens.access_token@ == access
            &&& tokens.refresh_token@ == token
            &&& tokens.token_type@ == "Bearer"@
            &&& tokens.expires_in == state.access_ttl_secs
        },
        _ => false,
    }
}

/// Whether an action is a reply with a message.
pub open spec fn replies_message(action: SignInAction, status: u16, text: Seq<char>) -> bool {
    match action {
        SignInAction::Reply(reply) => says(reply, status, text),
        _ => false,
    }
}

/// Whether an action is a reply that the server failed.
pub open spec fn replies_failure(action: SignInAction, text: Seq<char>) -> bool {
    match action {
        SignInAction::Reply(reply) => fails(reply, text),
        _ => false,
    }
}

/// Whether an action is what has to be done after something has happened.
pub open spec fn acts(
    state: AuthRouteState,
    s: SignIn,
    e: SignInEvent,
    action: SignInAction,
) -> bool {
    match (s, e) {
        (SignIn::Opening(req), SignInEvent::Opened(ok)) => if ok {
            action == SignInAction::FindByName(req.username)
        } else {
            replies_failure(action, "internal error"@)
        },
        (SignIn::Reopening(token), SignInEvent::Opened(ok)) => if ok {
            action == SignInAction::Consume(token)
        } else {
            replies_failure(action, "internal error"@)
        },
        (SignIn::Finding(password), SignInEvent::User(found)) => match found {
            Lookup::Found(user) => match action {
                SignInAction::Verify { password: p, hash } => p == password && hash@
                    == user.password_hash@,
                _ => false,
            },
            Lookup::Missing => replies_message(action, 401, "invalid username or password"@),
            Lookup::Failed => replies_failure(action, "internal error"@),
        },
        (SignIn::Verifying(user), SignInEvent::Verified(ok)) => if ok {
            mints_for(action, user, state.access_ttl_secs)
        } else {
            replies_message(action, 401, "invalid username or password"@)
        },
        (SignIn::Consuming, SignInEvent::Consumed(found)) => match found {
            Lookup::Found(id) => action == SignInAction::FindById(id),
            Lookup::Missing => replies_message(action, 401, "invalid or expired refresh token"@),
            Lookup::Failed => replies_failure(action, "internal error"@),
        },
        (SignIn::Reloading, SignInEvent::User(found)) => match found {
            Lookup::Found(user) => mints_for(action, user, state.access_ttl_secs),
            Lookup::Missing => replies_message(action, 401, "user not found"@),
            Lookup::Failed => replies_failure(action, "internal error"@),
        },
        (SignIn::Minting(_, _), SignInEvent::Minted(token)) => match token {
            Some(_) => action == SignInAction::Draw,
            None => replies_failure(action, "token error"@),
        },
        (SignIn::Drawing(_, user, _), SignInEvent::Drawn(token, now)) => match token {
            Some(t) => match action {
                SignInAction::Store { token: stored, user_id, expires } => stored@ == t@ && user_id
                    == user.id && expires == as_signed(now) + as_signed(state.refresh_ttl_secs),
                _ => false,
            },
            None => replies_failure(action, "token error"@),
        },
        (SignIn::Storing(way, user, access, token), SignInEvent::Stored(ok)) => if !ok {
            replies_failure(action, "token error"@)
        } else {
            match (way, action) {
                (Way::Login, SignInAction::CleanAndReply(reply)) => hands_out(
                    reply,
                    state,
                    way,
                    user,
                    access@,
                    token@,
                ),
                (Way::Refresh, SignInAction::Reply(reply)) => hands_out(
                    reply,
                    state,
                    way,
                    user,
                    access@,
                    token@,
                ),
                _ => false,
            }
        },
        _ => true,
    }
}

/// Begins a login.
pub fn login(req: LoginRequest) -> (r: (SignIn, SignInAction))
    ensures
        r.0 == SignIn::Opening(req),
        r.1 == SignInAction::Open,
{
    (SignIn::Opening(req), SignInAction::Open)
}

/// Begins a refresh with the token in the body or in the cookie.
pub fn refresh(body: Option<&str>, cookies: Option<&str>) -> (r: (SignIn, SignInAction))
    ensures
        match refresh_token_in(opt_str(body), opt_str(cookies)) {
            Some(token) => {
                &&& r.0 is Reopening
                &&& r.0->Reopening_0@ == token
                &&& r.1 == SignInAction::Open
            },
            None => r.0 == SignIn::Done && replies_message(r.1, 401, "missing refresh token"@),
        },
{
    match refresh_token_from(body, cookies) {
        Some(token) => (SignIn::Reopening(token), SignInAction::Open),
        None => (SignIn::Done, SignInAction::Reply(message(401, "missing refresh token"))),
    }
}

fn give_up(reply: AuthReply) -> (r: (SignIn, SignInAction))
    ensures
        r.0 == SignIn::Done,
        r.1 == SignInAction::Reply(reply),
{
    (SignIn::Done, SignInAction::Reply(reply))
}

fn mint_for(way: Way, user: UserRow, ttl_secs: u64) -> (r: (SignIn, SignInAction))
    ensures
        r.0 == SignIn::Minting(way, user),
        mints_for(r.1, user, ttl_secs),
{
    let action = SignInAction::Mint {
        user_id: user.id,
        username: user.username.clone(),
        role: user.role,
        ttl_secs,
    };
    (SignIn::Minting(way, user), action)
}

fn hand_out(state: &AuthRouteState, way: Way, user: UserRow, access: String, token: String) -> (r:
    (SignIn, SignInAction))
    ensures
        r.0 == SignIn::Done,
        acts(*state, SignIn::Storing(way, user, access, token), SignInEvent::Stored(true), r.1),
{
    let access_cookie = state.access_cookie(access.as_str());
    let refresh_cookie = state.refresh_cookie(token.as_str());
    let action = match way {
        Way::Login => SignInAction::CleanAndReply(
            AuthReply::LoggedIn {
                access_cookie,
                refresh_cookie,
                login: LoginResponse {
                    access_token: access,
                    refresh_token: token,
                    token_type: "Bearer".to_owned(),
                    expires_in: state.access_ttl_secs,
                    user: UserInfo {
                        id: user.id,
                        username: user.username,
                        role: user.role.as_str().to_owned(),
                    },
                },
            },
        ),
        Way::Refresh => SignInAction::Reply(
            AuthReply::Refreshed {
                access_cookie,
                refresh_cookie,
                tokens: RefreshResponse {
                    access_token: access,
                    refresh_token: token,
                    token_type: "Bearer".to_owned(),
                    expires_in: state.access_ttl_secs,
                },
            },
        ),
    };
    (SignIn::Done, action)
}

/// Takes a login or a refresh one step further.
pub fn sign_in_step(state: &AuthRouteState, s: SignIn, e: SignInEvent) -> (r: (
    SignIn,
    SignInAction,
))
    requires
        expects(s, e),
        expiry_fits(*state, e),
    ensures
        r.0 == next_state(s, e),
        acts(*state, s, e, r.1),
{
    match (s, e) {
        (SignIn::Opening(req), SignInEvent::Opened(ok)) => if ok {
            (SignIn::Finding(req.password), SignInAction::FindByName(req.username))
        } else {
            give_up(failure("internal error"))
        },
        (SignIn::Reopening(token), SignInEvent::Opened(ok)) => if ok {
            (SignIn::Consuming, SignInAction::Consume(token))
        } else {
            give_up(failure("internal error"))
        },
        (SignIn::Finding(password), SignInEvent::User(found)) => match found {
            Lookup::Found(user) => {
                let hash = user.password_hash.clone();
                (SignIn::Verifying(user), SignInAction::Verify { password, hash })
            },
            Lookup::Missing => give_up(message(401, "invalid username or password")),
            Lookup::Failed => give_up(failure("internal error")),
        },
        (SignIn::Verifying(user), SignInEvent::Verified(ok)) => if ok {
            mint_for(Way::Login, user, state.access_ttl_secs)
        } else {
            give_up(message(401, "invalid username or password"))
        },
        (SignIn::Consuming, SignInEvent::Consumed(found)) => match found {
            Lookup::Found(id) => (SignIn::Reloading, SignInAction::FindById(id)),
            Lookup::Missing => give_up(message(401, "invalid or expired refresh token")),
            Lookup::Failed => give_up(failure("internal error")),
        },
        (SignIn::Reloading, SignInEvent::User(found)) => match found {
            Lookup::Found(user) => mint_for(Way::Refresh, user, state.access_ttl_secs),
            Lookup::Missing => give_up(message(401, "user not found")),
            Lookup::Failed => give_up(failure("internal error")),
        },
        (SignIn::Minting(way, user), SignInEvent::Minted(token)) => match token {
            Some(access) => (SignIn::Drawing(way, user, access), SignInAction::Draw),
            None => give_up(failure("token error")),
        },
        (SignIn::Drawing(way, user, access), SignInEvent::Drawn(drawn, now)) => match drawn {
            Some(token) => {
                let action = SignInAction::Store {
                    token: token.clone(),
                    user_id: user.id,
                    expires: signed_of(now) + signed_of(state.refresh_ttl_secs),
                };
                (SignIn::Storing(way, user, access, token), action)
            },
            None => give_up(failure("token error")),
        },
        (SignIn::Storing(way, user, access, token), SignInEvent::Stored(ok)) => if ok {
            hand_out(state, way, user, access, token)
        } else {
            give_up(failure("token error"))
        },
        _ => give_up(failure("internal error")),
    }
}

/// Ends a session: which refresh token to revoke, and the answer.
pub fn logout(state: &AuthRouteState, body: Option<&str>, cookies: Option<&str>) -> (r: (
    Option<String>,
    AuthReply,
))
    ensures
        opt_text(r.0) == refresh_token_in(opt_str(body), opt_str(cookies)),
        match r.1 {
            AuthReply::LoggedOut { access_cookie, refresh_cookie, body: answer } => {
                &&& access_cookie@ == cookie_text(
                    "koan_access"@,
                    ""@,
                    "/"@,
                    0,
                    state.cookie_secure,
                )
                &&& refresh_cookie@ == cookie_text(
                    "koan_refresh"@,
                    ""@,
                    "/auth/refresh"@,
                    0,
                    state.cookie_secure,
                )
                &&& answer.message@ == "logged out"@
            },
            _ => false,
        },
{
    let token = refresh_token_from(body, cookies);
    let access_cookie = state.cookie("koan_access", "", "/", 0);
    let refresh_cookie = state.cookie(REFRESH_COOKIE, "", REFRESH_COOKIE_PATH, 0);
    let answer = AuthReply::LoggedOut {
        access_cookie,
        refresh_cookie,
        body: MessageResponse { message: "logged out".to_owned() },
    };
    (token, answer)
}

/// Tokens are made only for a user whose password was found right or whose refresh token
/// was consumed, and handed out only once the new refresh token is stored.
pub proof fn tokens_need_proof(
    state: AuthRouteState,
    s: SignIn,
    e: SignInEvent,
    action: SignInAction,
)
    requires
        expects(s, e),
        acts(state, s, e, action),
    ensures
        next_state(s, e) is Minting ==> match next_state(s, e)->Minting_0 {
            Way::Login => s == SignIn::Verifying(next_state(s, e)->Minting_1) && e
                == SignInEvent::Verified(true),
            Way::Refresh => s == SignIn::Reloading,
        },
        next_state(s, e) == SignIn::Reloading ==> s == SignIn::Consuming && e is Consumed
            && e->Consumed_0 is Found,
        (action is Reply && grants(action->Reply_0)) || (action is CleanAndReply && grants(
            action->CleanAndReply_0,
        )) ==> s is Storing && e == SignInEvent::Stored(true),
{
}

/// Where nothing more is waited for, an answer was given; and every answer ends it.
pub proof fn every_request_is_answered(
    state: AuthRouteState,
    s: SignIn,
    e: SignInEvent,
    action: SignInAction,
)
    requires
        expects(s, e),
        acts(state, s, e, action),
    ensures
        next_state(s, e) == SignIn::Done <==> action is Reply || action is CleanAndReply,
{
}

/// What is not known of a wrong name is not told: a wrong name and a wrong password are
/// answered alike.
pub proof fn wrong_names_and_passwords_look_alike(
    state: AuthRouteState,
    password: String,
    user: UserRow,
    unknown: SignInAction,
    wrong: SignInAction,
)
    requires
        acts(
            state,
            SignIn::Finding(password),
            SignInEvent::User(Lookup::Missing),
            unknown,
        ),
        acts(state, SignIn::Verifying(user), SignInEvent::Verified(false), wrong),
    ensures
        replies_message(unknown, 401, "invalid username or password"@),
        replies_message(wrong, 401, "invalid username or password"@),
{
}

/// Ten attempts are allowed within a minute of the first, and the eleventh is not; a minute
/// later the count starts again.
pub proof fn ten_attempts_a_minute_are_allowed(ws: Seq<LoginWindow>, ip: IpAddress, now: u64)
    requires
        each_once(ws),
    ensures
        (next_window(swept(ws, now), ip, now).1.1 <= LOGIN_MAX_PER_WINDOW) <==> spent(ws, ip, now)
            < 10,
        forall|i: int|
            0 <= i < ws.len() && (#[trigger] ws[i]).0 == ip && ws[i].1.0 <= now && now - ws[i].1.0
                >= 60 ==> spent(ws, ip, now) == 0,
        forall|i: int|
            0 <= i < ws.len() && (#[trigger] ws[i]).0 == ip && ws[i].1.0 <= now && now - ws[i].1.0
                < 60 ==> spent(ws, ip, now) == ws[i].1.1,
        (forall|i: int| 0 <= i < ws.len() ==> (#[trigger] ws[i]).0 != ip) ==> spent(ws, ip, now)
            == 0,
        spent(ws, ip, now) < 10 ==> spent(counted(ws, ip, now), ip, now) == spent(ws, ip, now) + 1,
{
    attempts_are_counted(ws, ip, now);
    place_of_is(ws, ip);
    assert forall|i: int| 0 <= i < ws.len() && (#[trigger] ws[i]).0 == ip implies place_of(ws, ip)
        == Some(i) by {
        let p = place_of(ws, ip)->0;
        if p < i {
            assert(ws[p].0 != ws[i].0);
        } else if i < p {
            assert(ws[i].0 != ws[p].0);
        }
    }
}

/// A cookie begins with its name and its value, and says how long it lives.
pub proof fn cookies_say_what_they_hold(
    name: Seq<char>,
    value: Seq<char>,
    path: Seq<char>,
    max_age: nat,
)
    ensures
        begins_with(cookie_text(name, value, path, max_age, true), name + "="@ + value),
        begins_with(cookie_text(name, value, path, max_age, false), name + "="@ + value),
        ends_with(
            cookie_text(name, value, path, max_age, false),
            path + "; Max-Age="@ + decimal(max_age),
        ),
        cookie_text(name, value, path, max_age, true) == cookie_text(
            name,
            value,
            path,
            max_age,
            false,
        ) + "; Secure"@,
{
    let plain = cookie_text(name, value, path, max_age, false);
    let secure = cookie_text(name, value, path, max_age, true);
    let lead = name + "="@ + value;
    assert(plain.take(lead.len() as int) =~= lead);
    assert(secure.take(lead.len() as int) =~= lead);
    let tail = path + "; Max-Age="@ + decimal(max_age);
    assert(plain.skip(plain.len() - tail.len()) =~= tail);
}

/// The access cookie goes to every page and lives as long as the access token; the refresh
/// cookie goes to the refresh page alone and lives as long as the refresh token.
pub proof fn the_two_cookies_differ(state: AuthRouteState, token: Seq<char>)
    ensures
        begins_with(state.access_text(token), "koan_access"@ + "="@ + token),
        begins_with(state.refresh_text(token), "koan_refresh"@ + "="@ + token),
        contains_text(state.access_text(token), "; HttpOnly; SameSite=Lax; Path="@ + "/"@),
        contains_text(
            state.refresh_text(token),
            "; HttpOnly; SameSite=Lax; Path="@ + "/auth/refresh"@,
        ),
        !state.cookie_secure ==> ends_with(
            state.access_text(token),
            "/"@ + "; Max-Age="@ + decimal(state.access_ttl_secs as nat),
        ) && ends_with(
            state.refresh_text(token),
            "/auth/refresh"@ + "; Max-Age="@ + decimal(state.refresh_ttl_secs as nat),
        ),
        state.cookie_secure ==> ends_with(state.access_text(token), "; Secure"@) && ends_with(
            state.refresh_text(token),
            "; Secure"@,
        ),
{
    let a = state.access_ttl_secs as nat;
    let r = state.refresh_ttl_secs as nat;
    cookies_say_what_they_hold("koan_access"@, token, "/"@, a);
    cookies_say_what_they_hold("koan_refresh"@, token, "/auth/refresh"@, r);
    cookies_are_kept_close("koan_access"@, token, "/"@, a, state.cookie_secure);
    cookies_are_kept_close("koan_refresh"@, token, "/auth/refresh"@, r, state.cookie_secure);
}

/// A refresh token that is sent counts before that of the cookie; an empty one does not.
pub proof fn sent_tokens_come_first(body: Seq<char>, cookies: Option<Seq<char>>)
    ensures
        body.len() > 0 ==> refresh_token_in(Some(body), cookies) == Some(body),
        body.len() == 0 ==> refresh_token_in(Some(body), cookies) == cookie_value(
            cookies,
            "koan_refresh="@,
        ),
        refresh_token_in(None, cookies) == cookie_value(cookies, "koan_refresh="@),
{
}

/// Who logs in with the right password is looked up by name, has the password held against
/// the stored hash, and is handed tokens of their own: the access token that was made for
/// them and the refresh token that was stored for them until it expires.
pub proof fn right_passwords_log_in(
    state: AuthRouteState,
    req: LoginRequest,
    user: UserRow,
    access: String,
    token: String,
    now: u64,
    actions: Seq<SignInAction>,
)
    requires
        actions.len() == 6,
        ({
            let opened = SignInEvent::Opened(true);
            let found = SignInEvent::User(Lookup::Found(user));
            let verified = SignInEvent::Verified(true);
            let minted = SignInEvent::Minted(Some(access));
            let drawn = SignInEvent::Drawn(Some(token), now);
            let stored = SignInEvent::Stored(true);
            let s0 = SignIn::Opening(req);
            let s1 = next_state(s0, opened);
            let s2 = next_state(s1, found);
            let s3 = next_state(s2, verified);
            let s4 = next_state(s3, minted);
            let s5 = next_state(s4, drawn);
            &&& acts(state, s0, opened, actions[0])
            &&& acts(state, s1, found, actions[1])
            &&& acts(state, s2, verified, actions[2])
            &&& acts(state, s3, minted, actions[3])
            &&& acts(state, s4, drawn, actions[4])
            &&& acts(state, s5, stored, actions[5])
        }),
    ensures
        actions[0] is FindByName && actions[0]->FindByName_0@ == req.username@,
        actions[1] is Verify && actions[1]->password@ == req.password@ && actions[1]->hash@
            == user.password_hash@,
        actions[2] is Mint && actions[2]->Mint_user_id == user.id && actions[2]->username@
            == user.username@ && actions[2]->role == user.role && actions[2]->ttl_secs
            == state.access_ttl_secs,
        actions[3] is Draw,
        actions[4] is Store && actions[4]->token@ == token@ && actions[4]->Store_user_id
            == user.id,
        now <= i64::MAX && state.refresh_ttl_secs <= i64::MAX ==> actions[4]->expires == now
            + state.refresh_ttl_secs,
        actions[5] is CleanAndReply && actions[5]->CleanAndReply_0 is LoggedIn,
        ({
            let login = actions[5]->CleanAndReply_0->login;
            &&& login.access_token@ == access@
            &&& login.refresh_token@ == token@
            &&& login.token_type@ == "Bearer"@
            &&& login.expires_in == state.access_ttl_secs
            &&& login.user.id == user.id
            &&& login.user.username@ == user.username@
            &&& login.user.role@ == user.role.word()
        }),
        actions[5]->CleanAndReply_0->LoggedIn_access_cookie@ == state.access_text(access@),
        actions[5]->CleanAndReply_0->LoggedIn_refresh_cookie@ == state.refresh_text(token@),
{
}

/// A refresh token that is valid is used up, and exchanged for new tokens of the user whose
/// it was.
pub proof fn valid_tokens_are_exchanged(
    state: AuthRouteState,
    old_token: String,
    user: UserRow,
    id: i64,
    access: String,
    token: String,
    now: u64,
    actions: Seq<SignInAction>,
)
    requires
        actions.len() == 6,
        ({
            let opened = SignInEvent::Opened(true);
            let consumed = SignInEvent::Consumed(Lookup::Found(id));
            let found = SignInEvent::User(Lookup::Found(user));
            let minted = SignInEvent::Minted(Some(access));
            let drawn = SignInEvent::Drawn(Some(token), now);
            let stored = SignInEvent::Stored(true);
            let s0 = SignIn::Reopening(old_token);
            let s1 = next_state(s0, opened);
            let s2 = next_state(s1, consumed);
            let s3 = next_state(s2, found);
            let s4 = next_state(s3, minted);
            let s5 = next_state(s4, drawn);
            &&& acts(state, s0, opened, actions[0])
            &&& acts(state, s1, consumed, actions[1])
            &&& acts(state, s2, found, actions[2])
            &&& acts(state, s3, minted, actions[3])
            &&& acts(state, s4, drawn, actions[4])
            &&& acts(state, s5, stored, actions[5])
        }),
    ensures
        actions[0] is Consume && actions[0]->Consume_0@ == old_token@,
        actions[1] is FindById && actions[1]->FindById_0 == id,
        actions[2] is Mint && actions[2]->Mint_user_id == user.id && actions[2]->username@
            == user.username@ && actions[2]->role == user.role && actions[2]->ttl_secs
            == state.access_ttl_secs,
        actions[3] is Draw,
        actions[4] is Store && actions[4]->token@ == token@ && actions[4]->Store_user_id
            == user.id,
        now <= i64::MAX && state.refresh_ttl_secs <= i64::MAX ==> actions[4]->expires == now
            + state.refresh_ttl_secs,
        actions[5] is Reply && actions[5]->Reply_0 is Refreshed,
        ({
            let tokens = actions[5]->Reply_0->tokens;
            &&& tokens.access_token@ == access@
            &&& tokens.refresh_token@ == token@
            &&& tokens.token_type@ == "Bearer"@
            &&& tokens.expires_in == state.access_ttl_secs
        }),
        actions[5]->Reply_0->Refreshed_access_cookie@ == state.access_text(access@),
        actions[5]->Reply_0->Refreshed_refresh_cookie@ == state.refresh_text(token@),
{
}

/// Whoever is not known, or shows something wrong or used up, is answered as unauthorized;
/// what fails on this side is answered as a failure; neither is handed anything.
pub proof fn failures_are_told_apart(
    state: AuthRouteState,
    s: SignIn,
    e: SignInEvent,
    action: SignInAction,
)
    requires
        expects(s, e),
        acts(state, s, e, action),
        next_state(s, e) is Done,
        !(e == SignInEvent::Stored(true)),
    ensures
        action is Reply,
        e == SignInEvent::Verified(false) || (e is User && e->User_0 is Missing) || (e is Consumed
            && e->Consumed_0 is Missing) ==> action->Reply_0 is Message
            && action->Reply_0->Message_status == 401,
        e == SignInEvent::Opened(false) || e == SignInEvent::Stored(false) || (e is User
            && e->User_0 is Failed) || (e is Consumed && e->Consumed_0 is Failed) || (e is Minted
            && e->Minted_0 is None) || (e is Drawn && e->Drawn_0 is None) ==> action->Reply_0
            is Text && action->Reply_0->Text_status == 500,
{
}

/// A message has its status and its text, and a failure its own.
pub proof fn replies_say_what_they_say(reply: AuthReply, code: u16, text: Seq<char>)
    ensures
        says(reply, code, text) ==> reply is Message && reply->Message_status == code
            && reply->Message_body.message@ == text,
        fails(reply, text) ==> reply is Text && reply->Text_status == 500 && reply->text@ == text,
{
}

/// Where too many addresses are known, those whose minute is over are forgotten, and no other.
pub proof fn old_windows_are_forgotten(ws: Seq<LoginWindow>, now: u64, w: LoginWindow)
    ensures
        ws.len() <= 4096 ==> swept(ws, now) == ws,
        ws.len() > 4096 ==> (swept(ws, now).contains(w) <==> ws.contains(w) && is_live(w, now)),
{
    filter_contains(ws, |x: LoginWindow| is_live(x, now), w);
}

} // verus!
