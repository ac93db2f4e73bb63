//! What the server answers to when the caller is a browser.
//!
//! Two questions: which hosts name this server, and which origins may talk to it.

use vstd::prelude::*;

use crate::text::{
    all_digits, ascii_lower, beginnings_stand_in_front, begins_with, chars_of, decimal,
    decimal_reads_back, find_char, first_index, first_index_at, has_prefix, is_digit, is_digit_char,
    last_index, last_index_at, lower_chars, matches_at, opt_str, opt_text, rfind_char, same,
    same_ignoring_ascii_case, string_of, trim, trimmed,
};

verus! {

/// Which hosts and origins are configured.
#[derive(Debug)]
pub struct BrowserPolicy {
    pub origins: Vec<String>,
    pub hosts: Vec<String>,
}

/// A request that is turned away.
#[derive(Clone, Copy, Debug)]
pub struct Refusal {
    pub status: u16,
    pub text: &'static str,
}

/// Whether two texts agree up to ASCII case.
pub open spec fn alike(a: Seq<char>, b: Seq<char>) -> bool {
    ascii_lower(a) == ascii_lower(b)
}

/// Whether some of the texts agrees with another up to ASCII case.
pub open spec fn any_alike(list: Seq<String>, s: Seq<char>) -> bool {
    exists|i: int| 0 <= i < list.len() && alike(#[trigger] list[i]@, s)
}

fn some_alike(list: &Vec<String>, s: &str) -> (r: bool)
    ensures
        r == any_alike(list@, s@),
{
    let mut i: usize = 0;
    while i < list.len()
        invariant
            i <= list@.len(),
            forall|k: int| 0 <= k < i ==> !alike(#[trigger] list@[k]@, s@),
        decreases list@.len() - i,
    {
        if same_ignoring_ascii_case(list[i].as_str(), s) {
            assert(alike(list@[i as int]@, s@));
            return true;
        }
        i = i + 1;
    }
    false
}

/// A host without its port, and without the brackets of an IPv6 address.
pub open spec fn bare_host(host: Seq<char>) -> Seq<char> {
    if host.len() > 0 && host[0] == '[' {
        host.skip(1).take(first_index(host.skip(1), ']'))
    } else {
        let i = last_index(host, ':');
        if i >= 0 && all_digits(host.skip(i + 1)) {
            host.take(i)
        } else {
            host
        }
    }
}

fn digits_from(cs: &Vec<char>, from: usize) -> (r: bool)
    requires
        from <= cs@.len(),
    ensures
        r == all_digits(cs@.skip(from as int)),
{
    let mut i: usize = from;
    while i < cs.len()
        invariant
            from <= i <= cs@.len(),
            forall|k: int| from <= k < i ==> is_digit(#[trigger] cs@[k]),
        decreases cs@.len() - i,
    {
        if !is_digit_char(cs[i]) {
            assert(cs@.skip(from as int)[i - from] == cs@[i as int]);
            return false;
        }
        i = i + 1;
    }
    assert forall|k: int| 0 <= k < cs@.skip(from as int).len() implies is_digit(
        #[trigger] cs@.skip(from as int)[k],
    ) by {
        assert(is_digit(cs@[from + k]));
    }
    from < cs.len()
}

/// A host without its port: `example.com:4000` names `example.com`, `[::1]:4000` names
/// `::1`.
pub fn strip_port(host: &str) -> (r: String)
    ensures
        r@ == bare_host(host@),
{
    let cs = chars_of(host);
    if cs.len() > 0 && cs[0] == '[' {
        let mut rest: Vec<char> = Vec::new();
        let mut i: usize = 1;
        while i < cs.len()
            invariant
                1 <= i <= cs@.len(),
                rest@ == cs@.subrange(1, i as int),
            decreases cs@.len() - i,
        {
            rest.push(cs[i]);
            assert(rest@ =~= cs@.subrange(1, i as int + 1));
            i = i + 1;
        }
        assert(rest@ =~= cs@.skip(1));
        let end = find_char(&rest, ']');
        let r = string_of(&rest, 0, end);
        assert(r@ =~= bare_host(host@));
        return r;
    }
    if let Some(i) = rfind_char(&cs, ':') {
        if digits_from(&cs, i + 1) {
            let r = string_of(&cs, 0, i);
            assert(r@ =~= bare_host(host@));
            return r;
        }
    }
    host.to_owned()
}

/// The place where a text first occurs in another.
pub open spec fn first_occurrence(s: Seq<char>, t: Seq<char>) -> Option<int>
    decreases s.len(),
{
    if begins_with(s, t) {
        Some(0)
    } else if s.len() == 0 {
        None
    } else {
        match first_occurrence(s.skip(1), t) {
            Some(i) => Some(i + 1),
            None => None,
        }
    }
}

/// What follows the scheme of an origin, if it has one.
pub open spec fn authority_of(origin: Seq<char>) -> Option<Seq<char>> {
    match first_occurrence(origin, "://"@) {
        Some(i) => Some(origin.skip(i + 3)),
        None => None,
    }
}

proof fn first_occurrence_is(s: Seq<char>, t: Seq<char>, i: int)
    requires
        0 <= i <= s.len(),
        forall|k: int| 0 <= k < i ==> !begins_with(#[trigger] s.skip(k), t),
        i < s.len() ==> begins_with(s.skip(i), t),
        t.len() > 0,
    ensures
        first_occurrence(s, t) == if i < s.len() {
            Some(i)
        } else {
            None
        },
    decreases s.len(),
{
    assert(s.skip(0) =~= s);
    if i > 0 {
        let rest = s.skip(1);
        assert forall|k: int| 0 <= k < i - 1 implies !begins_with(#[trigger] rest.skip(k), t) by {
            assert(rest.skip(k) =~= s.skip(k + 1));
        }
        assert(rest.skip(i - 1) =~= s.skip(i));
        first_occurrence_is(rest, t, i - 1);
    }
}

fn read_authority(origin: &str) -> (r: Option<String>)
    ensures
        opt_text(r) == authority_of(origin@),
{
    let cs = chars_of(origin);
    let mark = chars_of("://");
    proof {
        reveal_strlit("://");
    }
    let mut i: usize = 0;
    while i < cs.len()
        invariant
            i <= cs@.len(),
            cs@ == origin@,
            mark@ == "://"@,
            mark@.len() == 3,
            forall|k: int| 0 <= k < i ==> !begins_with(#[trigger] cs@.skip(k), mark@),
        decreases cs@.len() - i,
    {
        let here = matches_at(&cs, i, &mark);
        assert(here == begins_with(cs@.skip(i as int), mark@)) by {
            if cs@.len() - i >= 3 {
                assert(cs@.skip(i as int).take(3) =~= cs@.subrange(i as int, i + 3));
            }
        }
        if here {
            proof {
                first_occurrence_is(cs@, mark@, i as int);
            }
            let rest = string_of(&cs, i + 3, cs.len());
            assert(rest@ =~= origin@.skip(i + 3));
            return Some(rest);
        }
        i = i + 1;
    }
    proof {
        first_occurrence_is(cs@, mark@, i as int);
    }
    None
}

/// Whether some of the texts is another.
pub open spec fn any_same(list: Seq<String>, s: Seq<char>) -> bool {
    exists|i: int| 0 <= i < list.len() && (#[trigger] list[i])@ == s
}

fn some_same(list: &Vec<String>, s: &str) -> (r: bool)
    ensures
        r == any_same(list@, s@),
{
    let mut i: usize = 0;
    while i < list.len()
        invariant
            i <= list@.len(),
            forall|k: int| 0 <= k < i ==> (#[trigger] list@[k])@ != s@,
        decreases list@.len() - i,
    {
        if same(list[i].as_str(), s) {
            assert(list@[i as int]@ == s@);
            return true;
        }
        i = i + 1;
    }
    false
}

impl BrowserPolicy {
    /// Whether a host names this server. `literal` says whether it is, without its port,
    /// an address.
    pub open spec fn names_us(self, host: Seq<char>, literal: bool) -> bool {
        ||| any_alike(self.hosts@, host)
        ||| any_alike(self.hosts@, bare_host(host))
        ||| alike(bare_host(host), "localhost"@)
        ||| literal
    }

    /// Whether a host names this server: it is configured, with or without the port, or
    /// is the local one, or an address. Only a name can be made to resolve to this
    /// machine by somebody else. `literal` says whether the host, without its port, is
    /// an address.
    pub fn host_allowed(&self, host: &str, literal: bool) -> (r: bool)
        ensures
            r == self.names_us(host@, literal),
    {
        if some_alike(&self.hosts, host) {
            return true;
        }
        let bare = strip_port(host);
        if some_alike(&self.hosts, bare.as_str()) {
            return true;
        }
        same_ignoring_ascii_case(bare.as_str(), "localhost") || literal
    }

    /// Whether an origin may talk to this server.
    pub open spec fn welcomes(self, origin: Seq<char>, host: Option<Seq<char>>) -> bool {
        ||| any_same(self.origins@, origin)
        ||| match (authority_of(origin), host) {
            (Some(authority), Some(h)) => alike(authority, h),
            _ => false,
        }
    }

    /// Whether an origin may talk to this server: it is configured, or is this server
    /// itself, which is where the playground comes from.
    pub fn origin_allowed(&self, origin: &str, host: Option<&str>) -> (r: bool)
        ensures
            r == self.welcomes(origin@, opt_str(host)),
    {
        if some_same(&self.origins, origin) {
            return true;
        }
        match (read_authority(origin), host) {
            (Some(authority), Some(h)) => same_ignoring_ascii_case(authority.as_str(), h),
            _ => false,
        }
    }
}

/// The host that a request is for: its header's, else its address's.
pub fn request_host(header: Option<&str>, uri: Option<&str>) -> (r: Option<String>)
    ensures
        opt_text(r) == if header is Some {
            opt_str(header)
        } else {
            opt_str(uri)
        },
{
    match (header, uri) {
        (Some(h), _) => Some(h.to_owned()),
        (None, Some(h)) => Some(h.to_owned()),
        (None, None) => None,
    }
}

/// Turns away requests for a host that is not this server. `host` comes with whether it
/// is, without its port, an address. A request without a host is from no browser.
pub fn host_guard(policy: &BrowserPolicy, host: Option<(&str, bool)>) -> (r: Option<Refusal>)
    ensures
        ({
            let ours = match host {
                Some((h, literal)) => policy.names_us(h@, literal),
                None => true,
            };
            match r {
                None => ours,
                Some(refusal) => !ours && refusal.status == 403 && refusal.text@
                    == "host not allowed"@,
            }
        }),
{
    match host {
        Some((h, literal)) => if policy.host_allowed(h, literal) {
            None
        } else {
            Some(Refusal { status: 403, text: "host not allowed" })
        },
        None => None,
    }
}

/// Whether a content type is one that GraphQL requests have.
pub open spec fn graphql_type(content_type: Option<Seq<char>>) -> bool {
    match content_type {
        Some(c) => begins_with(ascii_lower(trimmed(c)), "application/json"@) || begins_with(
            ascii_lower(trimmed(c)),
            "application/graphql"@,
        ),
        None => false,
    }
}

/// Whether a content type is one that GraphQL requests have.
pub fn is_graphql_content_type(content_type: Option<&str>) -> (r: bool)
    ensures
        r == graphql_type(opt_str(content_type)),
{
    match content_type {
        Some(c) => {
            let lowered = lower_chars(trim(c).as_str());
            let text = string_of(&lowered, 0, lowered.len());
            assert(text@ =~= ascii_lower(trimmed(c@)));
            has_prefix(text.as_str(), "application/json") || has_prefix(
                text.as_str(),
                "application/graphql",
            )
        },
        None => false,
    }
}

/// Turns away requests from foreign pages: those of an origin that is not welcome, and
/// posts of a type that a page may send without asking first. A request without an
/// origin is from no browser.
pub fn browser_guard(
    policy: &BrowserPolicy,
    origin: Option<&str>,
    host: Option<&str>,
    is_post: bool,
    content_type: Option<&str>,
) -> (r: Option<Refusal>)
    ensures
        ({
            let foreign = origin is Some && !policy.welcomes(origin->0@, opt_str(host));
            let untyped = is_post && !graphql_type(opt_str(content_type));
            match r {
                None => !foreign && !untyped,
                Some(refusal) => if foreign {
                    refusal.status == 403 && refusal.text@ == "origin not allowed"@
                } else {
                    untyped && refusal.status == 415 && refusal.text@
                        == "content type must be application/json or application/graphql"@
                },
            }
        }),
{
    if let Some(o) = origin {
        if !policy.origin_allowed(o, host) {
            return Some(Refusal { status: 403, text: "origin not allowed" });
        }
    }
    if is_post && !is_graphql_content_type(content_type) {
        return Some(
            Refusal {
                status: 415,
                text: "content type must be application/json or application/graphql",
            },
        );
    }
    None
}

/// Turns away requests for the playground that do not show the key, where there is one.
pub fn graphql_playground(key: Option<&str>, provided: Option<&str>) -> (r: Option<Refusal>)
    ensures
        match r {
            None => key is Some ==> opt_str(provided) == opt_str(key),
            Some(refusal) => key is Some && opt_str(provided) != opt_str(key) && refusal.status
                == 403 && refusal.text@ == "invalid or missing introspection-key"@,
        },
{
    if let Some(expected) = key {
        let shown = match provided {
            Some(p) => same(p, expected),
            None => false,
        };
        if !shown {
            return Some(Refusal { status: 403, text: "invalid or missing introspection-key" });
        }
    }
    None
}

/// A page served under the very host it asks is welcome.
pub proof fn own_pages_are_welcome(policy: BrowserPolicy, scheme: Seq<char>, host: Seq<char>)
    requires
        !scheme.contains(':'),
    ensures
        policy.welcomes(scheme + "://"@ + host, Some(host)),
{
    reveal_strlit("://");
    let mark = "://"@;
    let origin = scheme + mark + host;
    let n = scheme.len() as int;
    assert forall|k: int| 0 <= k < n implies !begins_with(#[trigger] origin.skip(k), mark) by {
        if begins_with(origin.skip(k), mark) {
            assert(origin.skip(k).take(3)[0] == scheme[k]);
            assert(scheme.contains(scheme[k]));
        }
    }
    assert(origin.skip(n).take(3) =~= mark);
    first_occurrence_is(origin, mark, n);
    assert(origin.skip(n + 3) =~= host);
}

/// A configured name is this server on every port.
pub proof fn configured_names_hold_on_every_port(policy: BrowserPolicy, i: int, port: nat)
    requires
        0 <= i < policy.hosts@.len(),
        policy.hosts@[i]@.len() > 0,
        policy.hosts@[i]@[0] != '[',
    ensures
        policy.names_us(policy.hosts@[i]@ + ":"@ + decimal(port), false),
{
    reveal_strlit(":");
    let name = policy.hosts@[i]@;
    let digits = decimal(port);
    let host = name + ":"@ + digits;
    decimal_reads_back(port);
    let n = name.len() as int;
    assert(host[n] == ':');
    assert(host.skip(n + 1) =~= digits);
    assert forall|k: int| n < k < host.len() implies host[k] != ':' by {
        assert(host[k] == digits[k - n - 1]);
        assert(is_digit(digits[k - n - 1]));
    }
    last_index_at(host, ':', n);
    assert(host.take(n) =~= name);
    assert(bare_host(host) == name);
    assert(alike(policy.hosts@[i]@, bare_host(host)));
}

/// A name that is neither configured nor the local one is refused.
pub proof fn unknown_names_are_refused(policy: BrowserPolicy, host: Seq<char>)
    requires
        !any_alike(policy.hosts@, host),
        !any_alike(policy.hosts@, bare_host(host)),
        !alike(bare_host(host), "localhost"@),
    ensures
        !policy.names_us(host, false),
{
}

/// A host loses its port, the digits behind the last colon, and one in brackets everything
/// but what they hold.
pub proof fn hosts_lose_their_port(host: Seq<char>, port: Seq<char>, rest: Seq<char>)
    requires
        all_digits(port),
        host.len() == 0 || host[0] != '[',
        !host.contains(']'),
    ensures
        bare_host(host + seq![':'] + port) == host,
        bare_host(seq!['['] + host + seq![']'] + rest) == host,
        !host.contains(':') ==> bare_host(host) == host,
{
    let s = host + seq![':'] + port;
    assert(host.len() > 0 ==> s[0] == host[0]);
    assert forall|k: int| host.len() < k < s.len() implies s[k] != ':' by {
        assert(s[k] == port[k - host.len() - 1]);
        assert(is_digit(port[k - host.len() - 1]));
    }
    last_index_at(s, ':', host.len() as int);
    assert(s.skip(host.len() as int + 1) =~= port);
    assert(s.take(host.len() as int) =~= host);
    let b = seq!['['] + host + seq![']'] + rest;
    let inner = host + seq![']'] + rest;
    assert(b.skip(1) =~= inner);
    assert forall|k: int| 0 <= k < host.len() implies inner[k] != ']' by {
        assert(inner[k] == host[k]);
    }
    first_index_at(inner, ']', host.len() as int);
    assert(inner.take(host.len() as int) =~= host);
    if !host.contains(':') {
        last_index_at(host, ':', -1);
    }
}

/// A host is ours only if it is configured, with or without its port, is `localhost`, or is an
/// address.
pub proof fn only_known_hosts_are_ours(policy: BrowserPolicy, host: Seq<char>, literal: bool)
    ensures
        policy.names_us(host, literal) <==> {
            ||| literal
            ||| ascii_lower(bare_host(host)) == "localhost"@
            ||| exists|i: int|
                0 <= i < policy.hosts@.len() && (ascii_lower((#[trigger] policy.hosts@[i])@)
                    == ascii_lower(host) || ascii_lower(policy.hosts@[i]@) == ascii_lower(
                    bare_host(host),
                ))
        },
{
    reveal_strlit("localhost");
    assert(ascii_lower("localhost"@) =~= "localhost"@);
    if exists|i: int|
        0 <= i < policy.hosts@.len() && (ascii_lower((#[trigger] policy.hosts@[i])@)
            == ascii_lower(host) || ascii_lower(policy.hosts@[i]@) == ascii_lower(
            bare_host(host),
        )) {
        let i = choose|i: int|
            0 <= i < policy.hosts@.len() && (ascii_lower((#[trigger] policy.hosts@[i])@)
                == ascii_lower(host) || ascii_lower(policy.hosts@[i]@) == ascii_lower(
                bare_host(host),
            ));
        assert(alike(policy.hosts@[i]@, host) || alike(policy.hosts@[i]@, bare_host(host)));
    }
    if any_alike(policy.hosts@, host) {
        let i = choose|i: int|
            0 <= i < policy.hosts@.len() && alike(#[trigger] policy.hosts@[i]@, host);
        assert(ascii_lower(policy.hosts@[i]@) == ascii_lower(host));
    }
    if any_alike(policy.hosts@, bare_host(host)) {
        let i = choose|i: int|
            0 <= i < policy.hosts@.len() && alike(#[trigger] policy.hosts@[i]@, bare_host(host));
        assert(ascii_lower(policy.hosts@[i]@) == ascii_lower(bare_host(host)));
    }
}

/// A page is welcome only if its origin is configured as it is, or it comes from the host that
/// it asks.
pub proof fn only_own_pages_are_welcome(
    policy: BrowserPolicy,
    origin: Seq<char>,
    host: Option<Seq<char>>,
)
    requires
        policy.welcomes(origin, host),
    ensures
        (exists|i: int| 0 <= i < policy.origins@.len() && (#[trigger] policy.origins@[i])@ == origin)
            || (host is Some && exists|scheme: Seq<char>, authority: Seq<char>|
            origin == #[trigger] (scheme + "://"@ + authority) && ascii_lower(
                authority,
            ) == ascii_lower(host->0)),
{
    reveal_strlit("://");
    if !any_same(policy.origins@, origin) {
        occurrences_split(origin, "://"@);
        let i = first_occurrence(origin, "://"@)->0;
        let scheme = origin.take(i);
        let authority = origin.skip(i + 3);
        assert(origin =~= scheme + "://"@ + authority);
    }
}

proof fn occurrences_split(s: Seq<char>, t: Seq<char>)
    ensures
        match first_occurrence(s, t) {
            Some(i) => 0 <= i && i + t.len() <= s.len() && s == s.take(i) + t + s.skip(
                i + t.len(),
            ),
            None => true,
        },
    decreases s.len(),
{
    if begins_with(s, t) {
        assert(s =~= s.take(0) + t + s.skip(0int + t.len()));
    } else if s.len() > 0 {
        let rest = s.skip(1);
        occurrences_split(rest, t);
        if let Some(i) = first_occurrence(rest, t) {
            assert(s =~= seq![s[0]] + rest);
            assert(s.take(i + 1) =~= seq![s[0]] + rest.take(i));
            assert(s.skip(i + 1 + t.len()) =~= rest.skip(i + t.len()));
            assert(s =~= s.take(i + 1) + t + s.skip(i + 1 + t.len()));
        }
    }
}

/// A request is GraphQL if its type begins with that of JSON or of GraphQL, in any case and
/// with white space around it; one without a type is not.
pub proof fn graphql_requests_are_typed(content_type: Seq<char>)
    ensures
        !graphql_type(None),
        graphql_type(Some(content_type)) <==> exists|rest: Seq<char>|
            ascii_lower(trimmed(content_type)) == #[trigger] ("application/json"@ + rest)
                || ascii_lower(trimmed(content_type)) == ("application/graphql"@ + rest),
{
    let t = ascii_lower(trimmed(content_type));
    beginnings_stand_in_front(t, "application/json"@);
    beginnings_stand_in_front(t, "application/graphql"@);
    if begins_with(t, "application/graphql"@) {
        let rest = choose|rest: Seq<char>| t == #[trigger] ("application/graphql"@ + rest);
        let other = "application/json"@ + rest;
        assert(t == "application/graphql"@ + rest);
    }
}

} // verus!
