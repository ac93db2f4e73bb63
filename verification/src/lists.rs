//! Facts about filtered and mapped sequences.

use vstd::prelude::*;

verus! {

/// Filtering one element more keeps the element exactly if it passes.
pub proof fn filter_step<A>(s: Seq<A>, i: int, keep: spec_fn(A) -> bool)
    requires
        0 <= i < s.len(),
    ensures
        s.take(i + 1).filter(keep) == if keep(s[i]) {
            s.take(i).filter(keep).push(s[i])
        } else {
            s.take(i).filter(keep)
        },
{
    reveal(Seq::filter);
    assert(s.take(i + 1).drop_last() =~= s.take(i));
    assert(s.take(i + 1).last() == s[i]);
}

/// Filtering nothing gives nothing.
pub proof fn filter_none<A>(s: Seq<A>, keep: spec_fn(A) -> bool)
    ensures
        s.take(0).filter(keep) == Seq::<A>::empty(),
{
    reveal(Seq::filter);
    assert(s.take(0) =~= Seq::<A>::empty());
}

/// A filter leaves no more than there was.
pub proof fn filter_is_no_longer<A>(s: Seq<A>, keep: spec_fn(A) -> bool)
    ensures
        s.filter(keep).len() <= s.len(),
    decreases s.len(),
{
    reveal(Seq::filter);
    if s.len() > 0 {
        filter_is_no_longer(s.drop_last(), keep);
    }
}

/// What a filter leaves is what was there and passes.
pub proof fn filter_contains<A>(s: Seq<A>, keep: spec_fn(A) -> bool, x: A)
    ensures
        s.filter(keep).contains(x) <==> s.contains(x) && keep(x),
    decreases s.len(),
{
    reveal(Seq::filter);
    if s.len() > 0 {
        let rest = s.drop_last();
        let before = rest.filter(keep);
        let all = s.filter(keep);
        filter_contains(rest, keep, x);
        if all.contains(x) {
            let i = choose|i: int| 0 <= i < all.len() && all[i] == x;
            if i < before.len() {
                assert(before[i] == x);
                assert(before.contains(x));
                let k = choose|k: int| 0 <= k < rest.len() && rest[k] == x;
                assert(s[k] == x);
            } else {
                assert(s[s.len() - 1] == x);
            }
        }
        if s.contains(x) && keep(x) {
            let i = choose|i: int| 0 <= i < s.len() && s[i] == x;
            if i < rest.len() {
                assert(rest[i] == x);
                let k = choose|k: int| 0 <= k < before.len() && before[k] == x;
                assert(all[k] == x);
            } else {
                assert(all[all.len() - 1] == x);
            }
        }
    }
}

/// Mapping a sequence with one element more maps that element too.
pub broadcast proof fn map_push<A, B>(s: Seq<A>, x: A, f: spec_fn(A) -> B)
    ensures
        #[trigger] s.push(x).map_values(f) == s.map_values(f).push(f(x)),
{
    assert(s.push(x).map_values(f) =~= s.map_values(f).push(f(x)));
}

/// Mapping nothing gives nothing.
pub broadcast proof fn map_empty<A, B>(f: spec_fn(A) -> B)
    ensures
        #[trigger] Seq::<A>::empty().map_values(f) == Seq::<B>::empty(),
{
    assert(Seq::<A>::empty().map_values(f) =~= Seq::<B>::empty());
}

/// Taking one element more pushes it.
pub proof fn take_push<A>(s: Seq<A>, i: int)
    requires
        0 <= i < s.len(),
    ensures
        s.take(i + 1) == s.take(i).push(s[i]),
{
    assert(s.take(i + 1) =~= s.take(i).push(s[i]));
}

/// Whether `out` holds what `f` gives for the elements of a list: one for each element that
/// it gives something for, in the order of the list, and nothing else.
pub open spec fn collects<A, B>(s: Seq<A>, f: spec_fn(A) -> Option<B>, out: Seq<B>) -> bool {
    exists|places: Seq<int>| #[trigger] collects_at(s, f, out, places)
}

/// Whether `out` holds what `f` gives for the elements at some places, which rise and leave
/// out no element that it gives something for.
pub open spec fn collects_at<A, B>(
    s: Seq<A>,
    f: spec_fn(A) -> Option<B>,
    out: Seq<B>,
    places: Seq<int>,
) -> bool {
    &&& places.len() == out.len()
    &&& forall|i: int|
        0 <= i < out.len() ==> 0 <= #[trigger] places[i] < s.len() && f(s[places[i]]) == Some(
            out[i],
        )
    &&& forall|i: int, j: int|
        0 <= i < j < places.len() ==> (#[trigger] places[i]) < (#[trigger] places[j])
    &&& forall|k: int|
        0 <= k < s.len() && f(#[trigger] s[k]) is Some ==> places.contains(k)
}

/// Nothing is collected from nothing.
pub proof fn collects_none<A, B>(s: Seq<A>, f: spec_fn(A) -> Option<B>, out: Seq<B>)
    requires
        s.len() == 0,
        out.len() == 0,
    ensures
        collects(s, f, out),
{
    assert(collects_at(s, f, out, Seq::empty()));
}

/// What is collected from a list is what is collected from all but its last element, and
/// then what the last one gives.
pub proof fn collects_push<A, B>(s: Seq<A>, f: spec_fn(A) -> Option<B>, before: Seq<B>)
    requires
        s.len() > 0,
        collects(s.drop_last(), f, before),
    ensures
        collects(
            s,
            f,
            match f(s.last()) {
                Some(x) => before.push(x),
                None => before,
            },
        ),
{
    let old_places = choose|places: Seq<int>| #[trigger]
        collects_at(s.drop_last(), f, before, places);
    let out = match f(s.last()) {
        Some(x) => before.push(x),
        None => before,
    };
    let places = if f(s.last()) is Some {
        old_places.push(s.len() - 1)
    } else {
        old_places
    };
    assert forall|i: int| 0 <= i < out.len() implies 0 <= #[trigger] places[i] < s.len() && f(
        s[places[i]],
    ) == Some(out[i]) by {
        if i < old_places.len() {
            assert(0 <= old_places[i] < s.len() - 1);
            assert(s.drop_last()[old_places[i]] == s[old_places[i]]);
        }
    }
    assert forall|k: int| 0 <= k < s.len() && f(#[trigger] s[k]) is Some implies places.contains(
        k,
    ) by {
        if k < s.len() - 1 {
            assert(s.drop_last()[k] == s[k]);
            assert(old_places.contains(k));
            let i = choose|i: int| 0 <= i < old_places.len() && old_places[i] == k;
            assert(places[i] == k);
        } else {
            assert(places[places.len() - 1] == k);
        }
    }
    assert(collects_at(s, f, out, places));
}

/// Filtering collects the elements that pass.
pub proof fn filter_collects<A>(
    s: Seq<A>,
    keep: spec_fn(A) -> bool,
    f: spec_fn(A) -> Option<A>,
)
    requires
        forall|i: int|
            0 <= i < s.len() ==> f(#[trigger] s[i]) == if keep(s[i]) {
                Some(s[i])
            } else {
                None
            },
    ensures
        collects(s, f, s.filter(keep)),
    decreases s.len(),
{
    reveal(Seq::filter);
    if s.len() == 0 {
        collects_none(s, f, s.filter(keep));
    } else {
        assert forall|i: int| 0 <= i < s.drop_last().len() implies f(#[trigger] s.drop_last()[i])
            == if keep(s.drop_last()[i]) {
            Some(s.drop_last()[i])
        } else {
            None
        } by {
            assert(s.drop_last()[i] == s[i]);
        }
        filter_collects(s.drop_last(), keep, f);
        collects_push(s, f, s.drop_last().filter(keep));
        assert(s.last() == s[s.len() - 1]);
    }
}

/// What is collected comes from the list, and nothing that the list gives is missing.
pub proof fn collected_are_given<A, B>(
    s: Seq<A>,
    f: spec_fn(A) -> Option<B>,
    out: Seq<B>,
    x: B,
)
    requires
        collects(s, f, out),
    ensures
        out.contains(x) <==> exists|k: int| 0 <= k < s.len() && f(#[trigger] s[k]) == Some(x),
{
    let places = choose|places: Seq<int>| #[trigger] collects_at(s, f, out, places);
    if out.contains(x) {
        let i = choose|i: int| 0 <= i < out.len() && out[i] == x;
        assert(f(s[places[i]]) == Some(x));
    }
    if exists|k: int| 0 <= k < s.len() && f(#[trigger] s[k]) == Some(x) {
        let k = choose|k: int| 0 <= k < s.len() && f(#[trigger] s[k]) == Some(x);
        assert(places.contains(k));
        let i = choose|i: int| 0 <= i < places.len() && places[i] == k;
        assert(out[i] == x);
    }
}

pub broadcast group group_lists {
    map_push,
    map_empty,
}

/// What is collected from a list is one list only.
pub proof fn collecting_gives_one_list<A, B>(
    s: Seq<A>,
    f: spec_fn(A) -> Option<B>,
    x: Seq<B>,
    y: Seq<B>,
)
    requires
        collects(s, f, x),
        collects(s, f, y),
    ensures
        x == y,
    decreases s.len(),
{
    let p = choose|p: Seq<int>| #[trigger] collects_at(s, f, x, p);
    let q = choose|q: Seq<int>| #[trigger] collects_at(s, f, y, q);
    if s.len() == 0 {
        if x.len() > 0 {
            assert(0 <= p[0] < s.len());
        }
        if y.len() > 0 {
            assert(0 <= q[0] < s.len());
        }
        assert(x =~= y);
    } else {
        let x0 = one_less(s, f, x, p);
        let y0 = one_less(s, f, y, q);
        collecting_gives_one_list(s.drop_last(), f, x0, y0);
        assert(x =~= y);
    }
}

proof fn one_less<A, B>(
    s: Seq<A>,
    f: spec_fn(A) -> Option<B>,
    out: Seq<B>,
    places: Seq<int>,
) -> (before: Seq<B>)
    requires
        s.len() > 0,
        collects_at(s, f, out, places),
    ensures
        collects(s.drop_last(), f, before),
        out == match f(s.last()) {
            Some(x) => before.push(x),
            None => before,
        },
{
    let last = s.len() - 1;
    let t = s.drop_last();
    if f(s.last()) is Some {
        assert(s[last] == s.last());
        assert(places.contains(last));
        let i = choose|i: int| 0 <= i < places.len() && places[i] == last;
        if i < places.len() - 1 {
            assert(places[i] < places[places.len() - 1]);
        }
        let before = out.drop_last();
        let rest = places.drop_last();
        assert(f(s[places[out.len() - 1]]) == Some(out.last()));
        assert(out =~= before.push(out.last()));
        assert forall|k: int| 0 <= k < before.len() implies 0 <= #[trigger] rest[k] < t.len() && f(
            t[rest[k]],
        ) == Some(before[k]) by {
            assert(places[k] < places[places.len() - 1]);
        }
        assert forall|k: int| 0 <= k < t.len() && f(#[trigger] t[k]) is Some implies rest.contains(
            k,
        ) by {
            assert(s[k] == t[k]);
            assert(places.contains(k));
            let j = choose|j: int| 0 <= j < places.len() && places[j] == k;
            assert(rest[j] == k);
        }
        assert(collects_at(t, f, before, rest));
        before
    } else {
        assert forall|k: int| 0 <= k < out.len() implies 0 <= #[trigger] places[k] < t.len() && f(
            t[places[k]],
        ) == Some(out[k]) by {
            assert(f(s[places[k]]) == Some(out[k]));
            assert(places[k] != last);
        }
        assert forall|k: int| 0 <= k < t.len() && f(#[trigger] t[k]) is Some implies places.contains(
            k,
        ) by {
            assert(s[k] == t[k]);
        }
        assert(collects_at(t, f, out, places));
        out
    }
}

} // verus!
