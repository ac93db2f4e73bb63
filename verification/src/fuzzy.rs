//! The fuzzy matcher behind pickers and search.
//!
//! A [`nucleo::Nucleo`] matches injected texts against a query on threads of its
//! own. What it has settled on is read from its snapshot, which only a tick
//! moves on, and which may lag behind the query for as long as the threads run.

use vstd::prelude::*;

use crate::text::begins_with;

verus! {

/// `nucleo::Nucleo`: the matcher with its items, its query and its snapshot.
#[verifier::external_type_specification]
#[verifier::external_body]
#[verifier::reject_recursive_types(T)]
pub struct ExNucleo<T: Sync + Send + 'static>(nucleo::Nucleo<T>);

/// The values injected into a matcher with the texts that stand for them.
pub uninterp spec fn injected(m: nucleo::Nucleo<u32>) -> Seq<(u32, Seq<char>)>;

/// The query that the next tick matches against.
pub uninterp spec fn query_of(m: nucleo::Nucleo<u32>) -> Seq<char>;

/// The queries that ticks have matched against so far.
pub uninterp spec fn ticked(m: nucleo::Nucleo<u32>) -> Set<Seq<char>>;

/// The values in a matcher's snapshot, best match first.
pub uninterp spec fn shown(m: nucleo::Nucleo<u32>) -> Seq<u32>;

/// Whether a query was ever set as a continuation of the one before, after which the
/// matcher looks at earlier matches only.
pub uninterp spec fn appended(m: nucleo::Nucleo<u32>) -> bool;

/// How long the matcher takes a text to be: `nucleo::Utf32String::len`, which counts
/// graphemes.
pub uninterp spec fn haystack_len(text: Seq<char>) -> nat;

/// The score that the matcher gives a text for a query, if it matches at all.
pub uninterp spec fn fuzzy_score(query: Seq<char>, text: Seq<char>) -> Option<u32>;

/// Whether value `v` is that of the item at a place, whose text matches a query with a
/// score.
pub open spec fn scores(
    items: Seq<(u32, Seq<char>)>,
    query: Seq<char>,
    place: int,
    v: u32,
    score: u32,
) -> bool {
    &&& 0 <= place < items.len()
    &&& items[place].0 == v
    &&& fuzzy_score(query, items[place].1) == Some(score)
}

/// Whether the item at place `p` goes before that at place `q`, which has the same score:
/// the shorter text comes first, and of texts of one length the one injected first.
pub open spec fn tie_broken(
    items: Seq<(u32, Seq<char>)>,
    score: u32,
    p: int,
    q: int,
) -> bool {
    &&& score > 0 ==> haystack_len(items[p].1) <= haystack_len(items[q].1)
    &&& haystack_len(items[p].1) == haystack_len(items[q].1) ==> p < q
}

/// Whether values are those of the items at some places, each place once, which match a
/// query with falling scores. Without a query the items keep their order.
pub open spec fn ranked_by(
    items: Seq<(u32, Seq<char>)>,
    query: Seq<char>,
    values: Seq<u32>,
    places: Seq<int>,
    by: Seq<u32>,
) -> bool {
    &&& places.len() == values.len()
    &&& by.len() == values.len()
    &&& forall|i: int|
        0 <= i < values.len() ==> scores(items, query, #[trigger] places[i], values[i], by[i])
    &&& forall|i: int, j: int|
        0 <= i < j < places.len() ==> {
            &&& (#[trigger] places[i]) != (#[trigger] places[j])
            &&& by[i] >= by[j]
            &&& by[i] == by[j] ==> tie_broken(items, by[i], places[i], places[j])
            &&& query.len() == 0 ==> places[i] < places[j]
        }
}

/// Whether every item that matches a query stands at one of some places.
pub open spec fn none_left_out(
    items: Seq<(u32, Seq<char>)>,
    query: Seq<char>,
    places: Seq<int>,
) -> bool {
    forall|p: int|
        0 <= p < items.len() && fuzzy_score(query, (#[trigger] items[p]).1) is Some
            ==> places.contains(p)
}

/// Whether values are matches of one query, no item twice, best first; and, if `all`,
/// every match is among them.
pub open spec fn ranked(
    items: Seq<(u32, Seq<char>)>,
    query: Seq<char>,
    values: Seq<u32>,
    all: bool,
) -> bool {
    exists|places: Seq<int>, by: Seq<u32>|
        #[trigger] ranked_by(items, query, values, places, by) && (all ==> none_left_out(
            items,
            query,
            places,
        ))
}

/// Whether a snapshot shows matches of one of the queries that ticks have run, if `all`
/// every match of it.
pub open spec fn settled_on(
    items: Seq<(u32, Seq<char>)>,
    queries: Set<Seq<char>>,
    values: Seq<u32>,
    all: bool,
) -> bool {
    values.len() == 0 || exists|q: Seq<char>| queries.contains(q) && #[trigger]
        ranked(items, q, values, all)
}

/// `nucleo::Nucleo::new`, with one column, default settings and nothing to
/// notify: a matcher without items, with an empty query and an empty snapshot. The empty query
/// matches every text, with no score to speak of.
#[verifier::external_body]
pub(crate) fn new_matcher() -> (m: nucleo::Nucleo<u32>)
    ensures
        injected(m) == Seq::<(u32, Seq<char>)>::empty(),
        query_of(m) == Seq::<char>::empty(),
        ticked(m) == Set::<Seq<char>>::empty(),
        shown(m) == Seq::<u32>::empty(),
        !appended(m),
        forall|text: Seq<char>| #[trigger] fuzzy_score(query_of(m), text) == Some(0u32),
{
    nucleo::Nucleo::new(nucleo::Config::DEFAULT, std::sync::Arc::new(|| {}), None, 1)
}

/// `nucleo::Injector::push`: adds a value with its text behind the others, before the
/// first tick; the snapshot stays until then. The matcher holds a bounded number of
/// items and panics beyond.
#[verifier::external_body]
pub(crate) fn inject(m: &mut nucleo::Nucleo<u32>, value: u32, text: &str)
    requires
        injected(*old(m)).len() < u32::MAX - 32,
        ticked(*old(m)) == Set::<Seq<char>>::empty(),
    ensures
        injected(*final(m)) == injected(*old(m)).push((value, text@)),
        query_of(*final(m)) == query_of(*old(m)),
        ticked(*final(m)) == ticked(*old(m)),
        shown(*final(m)) == shown(*old(m)),
        appended(*final(m)) == appended(*old(m)),
{
    m.injector().push(value, |_, columns| columns[0] = text.into());
}

/// `nucleo::pattern::MultiPattern::reparse` with smart case and normalization:
/// sets the query for the next tick. `append` promises that the query only grew,
/// which spares the matcher work: it then looks at earlier matches only, and may miss an
/// item that matches the longer query but not the shorter one.
#[verifier::external_body]
pub(crate) fn set_query(m: &mut nucleo::Nucleo<u32>, query: &str, append: bool)
    requires
        append ==> begins_with(query@, query_of(*old(m))),
    ensures
        injected(*final(m)) == injected(*old(m)),
        query_of(*final(m)) == query@,
        ticked(*final(m)) == ticked(*old(m)),
        shown(*final(m)) == shown(*old(m)),
        appended(*final(m)) == (append || appended(*old(m))),
{
    m.pattern.reparse(
        0,
        query,
        nucleo::pattern::CaseMatching::Smart,
        nucleo::pattern::Normalization::Smart,
        append,
    );
}

/// `nucleo::Nucleo::tick`, waiting some milliseconds at most: hands the query to
/// the matching threads and takes over what they have finished, which is either
/// nothing or the outcome of a whole run for one of the queries so far. That holds
/// matches, no item twice, by falling scores; of two with the same score the shorter one
/// comes first, then the one injected first, and without a query all stay in the order
/// of injection. As long as no query was set as a continuation of the one before, no
/// match is left out. Which query it is depends on how far the threads got.
#[verifier::external_body]
fn run_tick(m: &mut nucleo::Nucleo<u32>, wait_ms: u64)
    ensures
        injected(*final(m)) == injected(*old(m)),
        query_of(*final(m)) == query_of(*old(m)),
        ticked(*final(m)) == ticked(*old(m)).insert(query_of(*old(m))),
        appended(*final(m)) == appended(*old(m)),
        shown(*final(m)).len() == 0 || exists|q: Seq<char>, places: Seq<int>, by: Seq<u32>|
            {
                &&& #[trigger] ticked(*final(m)).contains(q)
                &&& #[trigger] places.len() == shown(*final(m)).len()
                &&& #[trigger] by.len() == shown(*final(m)).len()
                &&& forall|i: int|
                    0 <= i < places.len() ==> 0 <= #[trigger] places[i] < injected(
                        *final(m),
                    ).len() && injected(*final(m))[places[i]].0 == shown(*final(m))[i]
                        && fuzzy_score(q, injected(*final(m))[places[i]].1) == Some(by[i])
                &&& forall|i: int, j: int|
                    0 <= i < j < places.len() ==> {
                        let first = injected(*final(m))[places[i]].1;
                        let second = injected(*final(m))[places[j]].1;
                        &&& (#[trigger] places[i]) != (#[trigger] places[j])
                        &&& by[i] >= by[j]
                        &&& by[i] == by[j] && by[i] > 0 ==> haystack_len(first) <= haystack_len(
                            second,
                        )
                        &&& by[i] == by[j] && haystack_len(first) == haystack_len(second)
                            ==> places[i] < places[j]
                        &&& q.len() == 0 ==> places[i] < places[j]
                    }
                &&& !appended(*final(m)) ==> forall|p: int|
                    0 <= p < injected(*final(m)).len() && fuzzy_score(
                        q,
                        (#[trigger] injected(*final(m))[p]).1,
                    ) is Some ==> places.contains(p)
            },
{
    m.tick(wait_ms);
}

/// How long a tick waits for the threads.
const TICK_MS: u64 = 10;

/// Runs the matcher for a moment.
pub(crate) fn tick(m: &mut nucleo::Nucleo<u32>)
    ensures
        injected(*final(m)) == injected(*old(m)),
        query_of(*final(m)) == query_of(*old(m)),
        ticked(*final(m)) == ticked(*old(m)).insert(query_of(*old(m))),
        appended(*final(m)) == appended(*old(m)),
        settled_on(
            injected(*final(m)),
            ticked(*final(m)),
            shown(*final(m)),
            !appended(*final(m)),
        ),
{
    run_tick(m, TICK_MS);
    proof {
        let items = injected(*m);
        let values = shown(*m);
        let all = !appended(*m);
        if values.len() > 0 {
            let (q, places, by) = choose|q: Seq<char>, places: Seq<int>, by: Seq<u32>|
                {
                    &&& #[trigger] ticked(*m).contains(q)
                    &&& #[trigger] places.len() == values.len()
                    &&& #[trigger] by.len() == values.len()
                    &&& forall|i: int|
                        0 <= i < places.len() ==> 0 <= #[trigger] places[i] < items.len()
                            && items[places[i]].0 == values[i] && fuzzy_score(q, items[places[i]].1)
                            == Some(by[i])
                    &&& forall|i: int, j: int|
                        0 <= i < j < places.len() ==> {
                            let first = items[places[i]].1;
                            let second = items[places[j]].1;
                            &&& (#[trigger] places[i]) != (#[trigger] places[j])
                            &&& by[i] >= by[j]
                            &&& by[i] == by[j] && by[i] > 0 ==> haystack_len(first)
                                <= haystack_len(second)
                            &&& by[i] == by[j] && haystack_len(first) == haystack_len(second)
                                ==> places[i] < places[j]
                            &&& q.len() == 0 ==> places[i] < places[j]
                        }
                    &&& all ==> forall|p: int|
                        0 <= p < items.len() && fuzzy_score(q, (#[trigger] items[p]).1) is Some
                            ==> places.contains(p)
                };
            assert(ranked_by(items, q, values, places, by));
            assert(ranked(items, q, values, all));
        }
    }
}

/// `nucleo::Snapshot::matched_item_count`: how many values the snapshot holds.
#[verifier::external_body]
pub(crate) fn shown_count(m: &nucleo::Nucleo<u32>) -> (n: u32)
    ensures
        n == shown(*m).len(),
{
    m.snapshot().matched_item_count()
}

/// `nucleo::Snapshot::get_matched_item`: the value at a rank of the snapshot.
#[verifier::external_body]
pub(crate) fn shown_at(m: &nucleo::Nucleo<u32>, rank: u32) -> (v: Option<u32>)
    ensures
        v == (if rank < shown(*m).len() {
            Some(shown(*m)[rank as int])
        } else {
            None
        }),
{
    m.snapshot().get_matched_item(rank).map(|item| *item.data)
}

/// A text for each value, numbered from zero.
pub open spec fn numbered(texts: Seq<Seq<char>>) -> Seq<(u32, Seq<char>)> {
    Seq::new(texts.len(), |i: int| (i as u32, texts[i]))
}

/// Values that are ranked among numbered texts are their own places.
proof fn places_of_numbered(
    texts: Seq<Seq<char>>,
    query: Seq<char>,
    values: Seq<u32>,
    places: Seq<int>,
    by: Seq<u32>,
)
    requires
        texts.len() <= u32::MAX,
        ranked_by(numbered(texts), query, values, places, by),
    ensures
        forall|i: int|
            0 <= i < values.len() ==> (#[trigger] values[i]) == places[i] && values[i]
                < texts.len() && fuzzy_score(query, texts[values[i] as int]) == Some(by[i]),
{
    assert forall|i: int| 0 <= i < values.len() implies (#[trigger] values[i]) == places[i]
        && values[i] < texts.len() && fuzzy_score(query, texts[values[i] as int]) == Some(
        by[i],
    ) by {
        assert(scores(numbered(texts), query, places[i], values[i], by[i]));
    }
}

/// What a snapshot over numbered texts shows are numbers of texts.
pub proof fn shown_are_indices(
    texts: Seq<Seq<char>>,
    queries: Set<Seq<char>>,
    values: Seq<u32>,
    all: bool,
)
    requires
        texts.len() <= u32::MAX,
        settled_on(numbered(texts), queries, values, all),
    ensures
        forall|i: int| 0 <= i < values.len() ==> (#[trigger] values[i]) < texts.len(),
{
    if values.len() > 0 {
        let items = numbered(texts);
        let q = choose|q: Seq<char>|
            queries.contains(q) && #[trigger] ranked(items, q, values, all);
        let (places, by) = choose|places: Seq<int>, by: Seq<u32>| #[trigger]
            ranked_by(items, q, values, places, by) && (all ==> none_left_out(items, q, places));
        places_of_numbered(texts, q, values, places, by);
    }
}

/// Among numbered texts no match is shown twice.
pub proof fn matches_are_shown_once(
    texts: Seq<Seq<char>>,
    queries: Set<Seq<char>>,
    values: Seq<u32>,
    all: bool,
)
    requires
        texts.len() <= u32::MAX,
        settled_on(numbered(texts), queries, values, all),
    ensures
        values.no_duplicates(),
{
    if values.len() > 0 {
        let items = numbered(texts);
        let q = choose|q: Seq<char>|
            queries.contains(q) && #[trigger] ranked(items, q, values, all);
        let (places, by) = choose|places: Seq<int>, by: Seq<u32>| #[trigger]
            ranked_by(items, q, values, places, by) && (all ==> none_left_out(items, q, places));
        places_of_numbered(texts, q, values, places, by);
        assert forall|i: int, j: int| 0 <= i < j < values.len() implies values[i] != values[j] by {
            assert(places[i] != places[j]);
        }
    }
}

/// What a search among texts finds: the numbers of all texts that match the query, none
/// twice, by falling score, then the shorter text first, then the lower number.
pub open spec fn found_all(texts: Seq<Seq<char>>, query: Seq<char>, values: Seq<u32>) -> bool {
    &&& values.no_duplicates()
    &&& forall|i: int|
        0 <= i < values.len() ==> (#[trigger] values[i]) < texts.len() && fuzzy_score(
            query,
            texts[values[i] as int],
        ) is Some
    &&& forall|p: int|
        0 <= p < texts.len() && fuzzy_score(query, #[trigger] texts[p]) is Some
            ==> values.contains(p as u32)
    &&& forall|i: int, j: int|
        0 <= i < j < values.len() ==> {
            let first = texts[#[trigger] values[i] as int];
            let second = texts[#[trigger] values[j] as int];
            let score = fuzzy_score(query, first)->0;
            &&& score >= fuzzy_score(query, second)->0
            &&& score == fuzzy_score(query, second)->0 ==> tie_broken(
                numbered(texts),
                score,
                values[i] as int,
                values[j] as int,
            )
        }
}

/// A query that was not typed on from another finds every match, or nothing yet.
pub proof fn fresh_query_finds_all(texts: Seq<Seq<char>>, query: Seq<char>, values: Seq<u32>)
    requires
        texts.len() <= u32::MAX,
        settled_on(numbered(texts), set![query], values, true),
    ensures
        values.len() == 0 || found_all(texts, query, values),
{
    if values.len() > 0 {
        let items = numbered(texts);
        matches_are_shown_once(texts, set![query], values, true);
        assert(ranked(items, query, values, true));
        let (places, by) = choose|places: Seq<int>, by: Seq<u32>| #[trigger]
            ranked_by(items, query, values, places, by) && none_left_out(items, query, places);
        places_of_numbered(texts, query, values, places, by);
        assert forall|p: int|
            0 <= p < texts.len() && fuzzy_score(query, #[trigger] texts[p]) is Some implies
            values.contains(p as u32) by {
            assert(items[p].1 == texts[p]);
            let i = choose|i: int| 0 <= i < places.len() && places[i] == p;
            assert(values[i] == p as u32);
        }
        assert forall|i: int, j: int| 0 <= i < j < values.len() implies {
            let first = texts[#[trigger] values[i] as int];
            let second = texts[#[trigger] values[j] as int];
            let score = fuzzy_score(query, first)->0;
            &&& score >= fuzzy_score(query, second)->0
            &&& score == fuzzy_score(query, second)->0 ==> tie_broken(
                items,
                score,
                values[i] as int,
                values[j] as int,
            )
        } by {
            assert(places[i] != places[j]);
        }
    }
}

/// The numbers below `n`, in order.
pub open spec fn in_order(n: nat) -> Seq<u32> {
    Seq::new(n, |i: int| i as u32)
}

/// Without a query every text is shown, in their order, or nothing yet.
pub proof fn empty_query_keeps_order(texts: Seq<Seq<char>>, values: Seq<u32>)
    requires
        texts.len() <= u32::MAX,
        forall|t: Seq<char>| (#[trigger] fuzzy_score(Seq::empty(), t)) is Some,
        settled_on(numbered(texts), set![Seq::empty()], values, true),
    ensures
        values.len() == 0 || values == in_order(texts.len()),
{
    if values.len() > 0 {
        let items = numbered(texts);
        let q = Seq::<char>::empty();
        assert(ranked(items, q, values, true));
        let (places, by) = choose|places: Seq<int>, by: Seq<u32>| #[trigger]
            ranked_by(items, q, values, places, by) && none_left_out(items, q, places);
        places_of_numbered(texts, q, values, places, by);
        assert forall|p: int| 0 <= p < texts.len() implies #[trigger] places.contains(p) by {
            assert(fuzzy_score(q, items[p].1) is Some);
        }
        rising_is_identity(places, texts.len());
        assert(values =~= in_order(texts.len()));
    }
}

/// Rising places below a number that leave none out are each at their own index.
proof fn rising_is_identity(places: Seq<int>, n: nat)
    requires
        forall|i: int| 0 <= i < places.len() ==> 0 <= #[trigger] places[i] < n,
        forall|i: int, j: int|
            0 <= i < j < places.len() ==> (#[trigger] places[i]) < (#[trigger] places[j]),
        forall|p: int| 0 <= p < n ==> #[trigger] places.contains(p),
    ensures
        places.len() == n,
        forall|i: int| 0 <= i < n ==> #[trigger] places[i] == i,
    decreases n,
{
    if n == 0 {
        if places.len() > 0 {
            assert(0 <= places[0] < n);
        }
    } else {
        let last = n - 1;
        assert(places.contains(last));
        let k = choose|k: int| 0 <= k < places.len() && places[k] == last;
        if k < places.len() - 1 {
            assert(places[k] < places[places.len() - 1]);
        }
        let rest = places.drop_last();
        assert forall|p: int| 0 <= p < last implies #[trigger] rest.contains(p) by {
            assert(places.contains(p));
            let i = choose|i: int| 0 <= i < places.len() && places[i] == p;
            assert(rest[i] == p);
        }
        assert forall|i: int| 0 <= i < rest.len() implies 0 <= #[trigger] rest[i] < last by {
            assert(places[i] < places[k]);
        }
        rising_is_identity(rest, last as nat);
        assert forall|i: int| 0 <= i < n implies #[trigger] places[i] == i by {
            if i < last {
                assert(rest[i] == i);
            }
        }
    }
}

/// What was found are places of texts that match, each once, with no match left out, the
/// better score first.
pub proof fn found_texts_match(texts: Seq<Seq<char>>, query: Seq<char>, values: Seq<u32>)
    requires
        texts.len() <= u32::MAX,
        found_all(texts, query, values),
    ensures
        forall|i: int, j: int| 0 <= i < j < values.len() ==> values[i] != values[j],
        forall|p: int|
            0 <= p < texts.len() ==> ((exists|i: int|
                0 <= i < values.len() && #[trigger] values[i] == p) <==> fuzzy_score(
                query,
                #[trigger] texts[p],
            ) is Some),
        forall|i: int, j: int|
            0 <= i < j < values.len() ==> fuzzy_score(query, texts[#[trigger] values[i] as int])->0
                >= fuzzy_score(query, texts[#[trigger] values[j] as int])->0,
        forall|i: int, j: int|
            0 <= i < j < values.len() && texts[#[trigger] values[i] as int]
                == texts[#[trigger] values[j] as int] ==> values[i] < values[j],
{
    assert forall|p: int| 0 <= p < texts.len() implies ((exists|i: int|
        0 <= i < values.len() && #[trigger] values[i] == p) <==> fuzzy_score(
        query,
        #[trigger] texts[p],
    ) is Some) by {
        if fuzzy_score(query, texts[p]) is Some {
            assert(values.contains(p as u32));
            let i = choose|i: int| 0 <= i < values.len() && values[i] == p as u32;
            assert(values[i] == p);
        }
    }
}

} // verus!
