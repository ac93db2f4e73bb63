//! Query parameters of a request.

use vstd::prelude::*;

use crate::text::{concat, opt_text, same, texts};
use crate::tui::organize::pairs_view;
use crate::lists::{collects, collects_none, collects_push};

verus! {

broadcast use crate::lists::group_lists;

/// The parameters common to all requests.
#[derive(Debug)]
pub struct SubsonicParams {
    pub u: Option<String>,
    pub t: Option<String>,
    pub s: Option<String>,
    pub p: Option<String>,
    pub v: Option<String>,
    pub c: Option<String>,
    pub f: Option<String>,
}

impl SubsonicParams {
    /// Whether the response is to be JSON.
    pub fn wants_json(&self) -> (r: bool)
        ensures
            r == (opt_text(self.f) == Some("json"@)),
    {
        match &self.f {
            Some(f) => same(f.as_str(), "json"),
            None => false,
        }
    }
}

/// Query parameters in order, a name as often as it occurs.
#[derive(Debug)]
pub struct RawParams(pub Vec<(String, String)>);

/// The name and value pairs of an `application/x-www-form-urlencoded` text.
pub uninterp spec fn form_pairs(input: Seq<u8>) -> Seq<(Seq<char>, Seq<char>)>;

/// `form_urlencoded::parse`: the pairs in order, percent-decoded. Bytes that are no
/// UTF-8 come out as replacement characters; nothing is refused.
#[verifier::external_body]
fn parse_form(input: &[u8]) -> (r: Vec<(String, String)>)
    ensures
        pairs_view(r@) == form_pairs(input@),
{
    form_urlencoded::parse(input).into_owned().collect()
}

/// The value of the first pair with a name.
pub open spec fn first_value(pairs: Seq<(Seq<char>, Seq<char>)>, key: Seq<char>) -> Option<
    Seq<char>,
>
    decreases pairs.len(),
{
    if pairs.len() == 0 {
        None
    } else if pairs[0].0 == key {
        Some(pairs[0].1)
    } else {
        first_value(pairs.skip(1), key)
    }
}

/// The values of all pairs with a name, plain or followed by brackets.
pub open spec fn all_values(pairs: Seq<(Seq<char>, Seq<char>)>, key: Seq<char>) -> Seq<Seq<char>>
    decreases pairs.len(),
{
    if pairs.len() == 0 {
        Seq::empty()
    } else {
        let before = all_values(pairs.drop_last(), key);
        if pairs.last().0 == key || pairs.last().0 == key + "[]"@ {
            before.push(pairs.last().1)
        } else {
            before
        }
    }
}

impl RawParams {
    /// The pairs, as values.
    pub open spec fn pairs(self) -> Seq<(Seq<char>, Seq<char>)> {
        pairs_view(self.0@)
    }

    /// Reads a query string; no query is an empty one.
    pub fn parse(query: Option<&str>) -> (r: Self)
        ensures
            r.pairs() == form_pairs(
                match query {
                    Some(q) => vstd::utf8::encode_utf8(q@),
                    None => Seq::empty(),
                },
            ),
    {
        match query {
            Some(q) => RawParams(parse_form(q.as_bytes())),
            None => {
                let empty: Vec<u8> = Vec::new();
                RawParams(parse_form(empty.as_slice()))
            },
        }
    }

    /// The first value of a parameter.
    pub fn get(&self, key: &str) -> (r: Option<String>)
        ensures
            opt_text(r) == first_value(self.pairs(), key@),
    {
        let ghost all = self.pairs();
        let mut i: usize = 0;
        assert(all.skip(0) =~= all);
        while i < self.0.len()
            invariant
                i <= self.0@.len(),
                all == self.pairs(),
                first_value(all, key@) == first_value(all.skip(i as int), key@),
            decreases self.0@.len() - i,
        {
            assert(all.skip(i as int)[0] == (self.0@[i as int].0@, self.0@[i as int].1@));
            if same(self.0[i].0.as_str(), key) {
                return Some(self.0[i].1.clone());
            }
            assert(all.skip(i as int).skip(1) =~= all.skip(i as int + 1));
            i = i + 1;
        }
        None
    }

    /// Every value of a parameter. It may be repeated under its plain name or with
    /// brackets behind it.
    pub fn all(&self, key: &str) -> (r: Vec<String>)
        ensures
            texts(r@) == all_values(self.pairs(), key@),
    {
        let ghost all = self.pairs();
        let bracketed = concat(key, "[]");
        let mut out: Vec<String> = Vec::new();
        let mut i: usize = 0;
        assert(all.take(0) =~= Seq::empty());
        while i < self.0.len()
            invariant
                i <= self.0@.len(),
                all == self.pairs(),
                bracketed@ == key@ + "[]"@,
                texts(out@) == all_values(all.take(i as int), key@),
            decreases self.0@.len() - i,
        {
            proof {
                let next = all.take(i as int + 1);
                assert(next.drop_last() =~= all.take(i as int));
                assert(next.last() == (self.0@[i as int].0@, self.0@[i as int].1@));
            }
            let name = self.0[i].0.as_str();
            if same(name, key) || same(name, bracketed.as_str()) {
                out.push(self.0[i].1.clone());
            }
            i = i + 1;
        }
        assert(all.take(i as int) =~= all);
        out
    }

    /// The parameters common to all requests.
    pub fn auth(&self) -> (r: SubsonicParams)
        ensures
            opt_text(r.u) == first_value(self.pairs(), "u"@),
            opt_text(r.t) == first_value(self.pairs(), "t"@),
            opt_text(r.s) == first_value(self.pairs(), "s"@),
            opt_text(r.p) == first_value(self.pairs(), "p"@),
            opt_text(r.v) == first_value(self.pairs(), "v"@),
            opt_text(r.c) == first_value(self.pairs(), "c"@),
            opt_text(r.f) == first_value(self.pairs(), "f"@),
    {
        SubsonicParams {
            u: self.get("u"),
            t: self.get("t"),
            s: self.get("s"),
            p: self.get("p"),
            v: self.get("v"),
            c: self.get("c"),
            f: self.get("f"),
        }
    }
}

/// A parameter that occurs at all is found.
pub proof fn present_parameters_are_found(
    pairs: Seq<(Seq<char>, Seq<char>)>,
    key: Seq<char>,
    i: int,
)
    requires
        0 <= i < pairs.len(),
        pairs[i].0 == key,
    ensures
        first_value(pairs, key) is Some,
    decreases pairs.len(),
{
    if pairs[0].0 != key {
        assert(pairs.skip(1)[i - 1] == pairs[i]);
        present_parameters_are_found(pairs.skip(1), key, i - 1);
    }
}

/// A parameter has the value of the first pair with its name, and none where there is no such
/// pair.
pub proof fn parameters_have_their_first_value(pairs: Seq<(Seq<char>, Seq<char>)>, key: Seq<char>)
    ensures
        match first_value(pairs, key) {
            Some(v) => exists|i: int| #[trigger]
                is_first_with(pairs, key, i) && pairs[i].1 == v,
            None => forall|i: int| 0 <= i < pairs.len() ==> (#[trigger] pairs[i]).0 != key,
        },
    decreases pairs.len(),
{
    if pairs.len() > 0 {
        let rest = pairs.skip(1);
        if pairs[0].0 == key {
            assert(is_first_with(pairs, key, 0));
        } else {
            parameters_have_their_first_value(rest, key);
            assert forall|i: int| 0 < i < pairs.len() implies #[trigger] pairs[i] == rest[i
                - 1] by {}
            if first_value(rest, key) is Some {
                let v = first_value(rest, key)->0;
                let i = choose|i: int| #[trigger] is_first_with(rest, key, i) && rest[i].1 == v;
                assert(pairs[i + 1] == rest[i]);
                assert forall|k: int| 0 <= k < i + 1 implies (#[trigger] pairs[k]).0 != key by {
                    if k > 0 {
                        assert(rest[k - 1].0 != key);
                    }
                }
                assert(is_first_with(pairs, key, i + 1));
            }
        }
    }
}

/// Whether the pair at a place has a name, and none before it does.
pub open spec fn is_first_with(
    pairs: Seq<(Seq<char>, Seq<char>)>,
    key: Seq<char>,
    i: int,
) -> bool {
    &&& 0 <= i < pairs.len()
    &&& pairs[i].0 == key
    &&& forall|k: int| 0 <= k < i ==> (#[trigger] pairs[k]).0 != key
}

/// A parameter that may be repeated has all values that are given under its name, with or
/// without brackets behind it, in their order.
pub proof fn repeated_parameters_have_all_values(
    pairs: Seq<(Seq<char>, Seq<char>)>,
    key: Seq<char>,
)
    ensures
        collects(
            pairs,
            |p: (Seq<char>, Seq<char>)|
                if p.0 == key || p.0 == key + seq!['[', ']'] {
                    Some(p.1)
                } else {
                    None
                },
            all_values(pairs, key),
        ),
    decreases pairs.len(),
{
    reveal_strlit("[]");
    assert("[]"@ =~= seq!['[', ']']);
    let f = |p: (Seq<char>, Seq<char>)|
        if p.0 == key || p.0 == key + seq!['[', ']'] {
            Some(p.1)
        } else {
            None
        };
    if pairs.len() == 0 {
        collects_none(pairs, f, all_values(pairs, key));
    } else {
        repeated_parameters_have_all_values(pairs.drop_last(), key);
        collects_push(pairs, f, all_values(pairs.drop_last(), key));
    }
}

} // verus!
