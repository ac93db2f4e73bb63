//! Admission of requests by their token.

use vstd::prelude::*;

use crate::auth::{role_named, role_or_readonly, AuthUser, Role};
use crate::subsonic::auth::same_secret;
use crate::text::{
    after_prefix, beginnings_stand_in_front, begins_with, opt_str, opt_text, pieces, same, split,
    strip_prefix, texts, trim, trimmed,
};

verus! {

/// What admission goes by.
#[derive(Debug)]
pub struct AuthState {
    /// The public key that tokens are verified with.
    pub public_pem: Vec<u8>,
    /// Whether a token is required.
    pub auth_enabled: bool,
    /// A key of this process that lets the playground in.
    pub introspection_key: Option<String>,
}

/// What a request shows of itself.
#[derive(Debug)]
pub struct RequestHead<'a> {
    pub introspection_key: Option<&'a str>,
    pub cookies: Option<&'a str>,
    pub authorization: Option<&'a str>,
    pub path: &'a str,
    pub query: Option<&'a str>,
}

/// What follows a prefix in the first of some texts that begins with it.
pub open spec fn first_after(list: Seq<Seq<char>>, prefix: Seq<char>) -> Option<Seq<char>>
    decreases list.len(),
{
    if list.len() == 0 {
        None
    } else if begins_with(list[0], prefix) {
        after_prefix(list[0], prefix)
    } else {
        first_after(list.skip(1), prefix)
    }
}

/// Each text without white space around it.
pub open spec fn all_trimmed(list: Seq<Seq<char>>) -> Seq<Seq<char>> {
    list.map_values(|s: Seq<char>| trimmed(s))
}

/// The value of a cookie, given its name with an equals sign.
pub open spec fn cookie_value(cookies: Option<Seq<char>>, prefix: Seq<char>) -> Option<Seq<char>> {
    match cookies {
        Some(c) => first_after(all_trimmed(pieces(c, ';')), prefix),
        None => None,
    }
}

/// The value of a cookie, given its name with an equals sign.
pub fn read_cookie(cookies: Option<&str>, prefix: &str) -> (r: Option<String>)
    ensures
        opt_text(r) == cookie_value(opt_str(cookies), prefix@),
{
    match cookies {
        None => None,
        Some(c) => {
            let parts = split(c, ';');
            let ghost all = all_trimmed(pieces(c@, ';'));
            let mut i: usize = 0;
            assert(all.skip(0) =~= all);
            while i < parts.len()
                invariant
                    i <= parts@.len(),
                    cookies == Some(c),
                    texts(parts@) == pieces(c@, ';'),
                    all == all_trimmed(pieces(c@, ';')),
                    first_after(all, prefix@) == first_after(all.skip(i as int), prefix@),
                decreases parts@.len() - i,
            {
                let piece = trim(parts[i].as_str());
                assert(texts(parts@)[i as int] == parts@[i as int]@);
                assert(all.skip(i as int)[0] == piece@);
                if let Some(value) = strip_prefix(piece.as_str(), prefix) {
                    return Some(value);
                }
                assert(all.skip(i as int).skip(1) =~= all.skip(i as int + 1));
                i = i + 1;
            }
            None
        },
    }
}

/// The value of the first query parameter with a name and an equals sign before it.
pub open spec fn query_value(query: Option<Seq<char>>, prefix: Seq<char>) -> Option<Seq<char>> {
    match query {
        Some(q) => first_after(pieces(q, '&'), prefix),
        None => None,
    }
}

fn read_query(query: Option<&str>, prefix: &str) -> (r: Option<String>)
    ensures
        opt_text(r) == query_value(opt_str(query), prefix@),
{
    match query {
        None => None,
        Some(q) => {
            let parts = split(q, '&');
            let ghost all = pieces(q@, '&');
            let mut i: usize = 0;
            assert(all.skip(0) =~= all);
            while i < parts.len()
                invariant
                    i <= parts@.len(),
                    query == Some(q),
                    all == pieces(q@, '&'),
                    texts(parts@) == all,
                    first_after(all, prefix@) == first_after(all.skip(i as int), prefix@),
                decreases parts@.len() - i,
            {
                assert(all.skip(i as int)[0] == parts@[i as int]@);
                if let Some(value) = strip_prefix(parts[i].as_str(), prefix) {
                    return Some(value);
                }
                assert(all.skip(i as int).skip(1) =~= all.skip(i as int + 1));
                i = i + 1;
            }
            None
        },
    }
}

/// The token in an `Authorization` header.
pub open spec fn bearer_token(authorization: Option<Seq<char>>) -> Option<Seq<char>> {
    match authorization {
        Some(a) => after_prefix(a, "Bearer "@),
        None => None,
    }
}

/// The token of a request: from the cookie, else from the header, else, for a WebSocket,
/// from the query.
pub open spec fn token_of(head: RequestHead) -> Option<Seq<char>> {
    let cookie = cookie_value(opt_str(head.cookies), "koan_access="@);
    let bearer = bearer_token(opt_str(head.authorization));
    if cookie is Some {
        cookie
    } else if bearer is Some {
        bearer
    } else if head.path@ == "/graphql/ws"@ {
        query_value(opt_str(head.query), "token="@)
    } else {
        None
    }
}

/// The token of a request. Only a WebSocket may carry it in its query, for want of a
/// header: a token in an address ends up in logs.
pub fn extract_token(head: &RequestHead) -> (r: Option<String>)
    ensures
        opt_text(r) == token_of(*head),
{
    if let Some(t) = read_cookie(head.cookies, "koan_access=") {
        return Some(t);
    }
    if let Some(a) = head.authorization {
        if let Some(t) = strip_prefix(a, "Bearer ") {
            return Some(t);
        }
    }
    if same(head.path, "/graphql/ws") {
        read_query(head.query, "token=")
    } else {
        None
    }
}

/// What to do with a request.
#[derive(Debug)]
pub enum Admission {
    /// It passes, on behalf of a user.
    Pass(AuthUser),
    /// It passes if the token is valid.
    Verify(String),
    /// It is answered as unauthorized, with a text.
    Refuse(&'static str),
}

/// Whether the request shows the key of this process.
pub open spec fn shows_key(state: AuthState, head: RequestHead) -> bool {
    match (state.introspection_key, head.introspection_key) {
        (Some(expected), Some(provided)) => provided@ == expected@,
        _ => false,
    }
}

/// Decides on a request before its token is verified.
pub fn auth_middleware(state: &AuthState, head: &RequestHead) -> (r: Admission)
    ensures
        if !state.auth_enabled || shows_key(*state, *head) {
            r is Pass && r->Pass_0.is(0, "anonymous"@, Role::Admin)
        } else {
            match (token_of(*head), r) {
                (Some(token), Admission::Verify(t)) => t@ == token,
                (None, Admission::Refuse(text)) => text@
                    == "missing or invalid Authorization header"@,
                _ => false,
            }
        },
{
    if !state.auth_enabled {
        return Admission::Pass(AuthUser::anonymous_admin());
    }
    if let Some(expected) = &state.introspection_key {
        if let Some(provided) = head.introspection_key {
            if same_secret(provided, expected.as_str()) {
                return Admission::Pass(AuthUser::anonymous_admin());
            }
        }
    }
    match extract_token(head) {
        Some(t) => Admission::Verify(t),
        None => Admission::Refuse("missing or invalid Authorization header"),
    }
}

/// What a valid token says.
#[derive(Debug)]
pub struct AccessClaims {
    pub sub: i64,
    pub username: String,
    pub role: String,
}

/// Decides on a request by what its token says, or by its not being valid.
pub fn token_verified(claims: Option<AccessClaims>) -> (r: Admission)
    ensures
        match (claims, r) {
            (Some(c), Admission::Pass(user)) => user.is(c.sub, c.username@, role_named(c.role@)),
            (None, Admission::Refuse(text)) => text@ == "invalid or expired token"@,
            _ => false,
        },
{
    match claims {
        Some(c) => {
            let role = role_or_readonly(c.role.as_str());
            Admission::Pass(AuthUser { user_id: c.sub, username: c.username, role })
        },
        None => Admission::Refuse("invalid or expired token"),
    }
}

/// A token in the query counts on the WebSocket route only.
pub proof fn query_tokens_stay_on_the_websocket(head: RequestHead)
    requires
        head.path@ != "/graphql/ws"@,
        cookie_value(opt_str(head.cookies), "koan_access="@) is None,
        bearer_token(opt_str(head.authorization)) is None,
    ensures
        token_of(head) is None,
{
}

/// A cookie comes before the header, and the header before the query.
pub proof fn cookies_come_first(head: RequestHead)
    ensures
        cookie_value(opt_str(head.cookies), "koan_access="@) is Some ==> token_of(head)
            == cookie_value(opt_str(head.cookies), "koan_access="@),
        cookie_value(opt_str(head.cookies), "koan_access="@) is None && bearer_token(
            opt_str(head.authorization),
        ) is Some ==> token_of(head) == bearer_token(opt_str(head.authorization)),
{
}

/// Whether the text at a place of a list is the first that begins with another, and goes on
/// with a value.
pub open spec fn is_first_after(
    list: Seq<Seq<char>>,
    prefix: Seq<char>,
    value: Seq<char>,
    i: int,
) -> bool {
    &&& 0 <= i < list.len()
    &&& list[i] == prefix + value
    &&& forall|k: int| 0 <= k < i ==> !begins_with(#[trigger] list[k], prefix)
}

proof fn first_after_is(list: Seq<Seq<char>>, prefix: Seq<char>)
    ensures
        first_after(list, prefix) is Some ==> exists|i: int| #[trigger]
            is_first_after(list, prefix, first_after(list, prefix)->0, i),
        first_after(list, prefix) is None ==> forall|i: int|
            0 <= i < list.len() ==> !begins_with(#[trigger] list[i], prefix),
    decreases list.len(),
{
    if list.len() > 0 {
        let rest = list.skip(1);
        if begins_with(list[0], prefix) {
            let v = list[0].skip(prefix.len() as int);
            assert(list[0] =~= prefix + v);
            assert(is_first_after(list, prefix, first_after(list, prefix)->0, 0));
        } else {
            first_after_is(rest, prefix);
            let found = first_after(rest, prefix);
            assert(first_after(list, prefix) == found);
            if found is Some {
                let i = choose|i: int| #[trigger] is_first_after(rest, prefix, found->0, i);
                assert(is_first_after(rest, prefix, found->0, i));
                assert(list[i + 1] == rest[i]);
                assert forall|k: int| 0 <= k < i + 1 implies !begins_with(
                    #[trigger] list[k],
                    prefix,
                ) by {
                    if k > 0 {
                        assert(rest[k - 1] == list[k]);
                    }
                }
                assert(is_first_after(list, prefix, first_after(list, prefix)->0, i + 1));
            } else {
                assert forall|i: int| 0 <= i < list.len() implies !begins_with(
                    #[trigger] list[i],
                    prefix,
                ) by {
                    if i > 0 {
                        assert(rest[i - 1] == list[i]);
                    }
                }
            }
        }
    }
}

/// A cookie has the value that stands behind its name, in the first of the pieces between
/// semicolons that begins with it; white space around a piece does not matter.
pub proof fn cookies_are_read_by_name(cookies: Seq<char>, prefix: Seq<char>)
    ensures
        ({
            let list = pieces(cookies, ';').map_values(|s: Seq<char>| trimmed(s));
            match cookie_value(Some(cookies), prefix) {
                Some(v) => exists|i: int| is_first_after(list, prefix, v, i),
                None => forall|i: int|
                    0 <= i < list.len() ==> !begins_with(#[trigger] list[i], prefix),
            }
        }),
        cookie_value(None, prefix) is None,
{
    let list = pieces(cookies, ';').map_values(|s: Seq<char>| trimmed(s));
    assert(list =~= all_trimmed(pieces(cookies, ';')));
    first_after_is(list, prefix);
}

/// A parameter of a query has the value that stands behind its name, in the first of the
/// pieces between ampersands that begins with it.
pub proof fn query_values_are_read_by_name(query: Seq<char>, prefix: Seq<char>)
    ensures
        match query_value(Some(query), prefix) {
            Some(v) => exists|i: int| is_first_after(pieces(query, '&'), prefix, v, i),
            None => forall|i: int|
                0 <= i < pieces(query, '&').len() ==> !begins_with(
                    #[trigger] pieces(query, '&')[i],
                    prefix,
                ),
        },
        query_value(None, prefix) is None,
{
    first_after_is(pieces(query, '&'), prefix);
}

/// A token comes from the cookie, else from the header behind `Bearer`, else, on the
/// websocket alone, from the query.
pub proof fn tokens_are_found_where_they_belong(head: RequestHead, token: Seq<char>)
    ensures
        ({
            let cookie = cookie_value(opt_str(head.cookies), "koan_access="@);
            let query = query_value(opt_str(head.query), "token="@);
            &&& cookie is Some ==> token_of(head) == cookie
            &&& cookie is None && opt_str(head.authorization) == Some("Bearer "@ + token)
                ==> token_of(head) == Some(token)
            &&& cookie is None && (head.authorization is None || !begins_with(
                head.authorization->0@,
                "Bearer "@,
            )) ==> token_of(head) == (if head.path@ == "/graphql/ws"@ {
                query
            } else {
                None
            })
        }),
{
    beginnings_stand_in_front("Bearer "@ + token, "Bearer "@);
}

/// The key lets in only who shows it, and only where there is one.
pub proof fn keys_have_to_be_shown(state: AuthState, head: RequestHead)
    ensures
        shows_key(state, head) <==> state.introspection_key is Some && head.introspection_key
            is Some && state.introspection_key->0@ == head.introspection_key->0@,
{
}

} // verus!
