//! The order of texts, and stable sorting by a given order.

use vstd::prelude::*;
use vstd::seq_lib::seq_to_set_is_finite;
use vstd::set_lib::{lemma_int_range, lemma_subset_equality, set_int_range};

use crate::text::{chars_of, opt_text};

verus! {

/// Whether a text comes before another: at the first difference its character has
/// the lower code, or it ends there. In UTF-8 this is the order of the bytes.
pub open spec fn text_lt(a: Seq<char>, b: Seq<char>) -> bool
    decreases a.len(),
{
    if b.len() == 0 {
        false
    } else if a.len() == 0 {
        true
    } else if a[0] != b[0] {
        a[0] < b[0]
    } else {
        text_lt(a.skip(1), b.skip(1))
    }
}

/// Of two different texts exactly one comes before the other, and none before
/// itself.
pub proof fn text_lt_is_total(a: Seq<char>, b: Seq<char>)
    ensures
        text_lt(a, b) || text_lt(b, a) || a == b,
        !(text_lt(a, b) && text_lt(b, a)),
        a == b ==> !text_lt(a, b),
    decreases a.len(),
{
    if a.len() > 0 && b.len() > 0 {
        if a[0] == b[0] {
            text_lt_is_total(a.skip(1), b.skip(1));
            if a.skip(1) == b.skip(1) {
                assert(a =~= seq![a[0]] + a.skip(1));
                assert(b =~= seq![b[0]] + b.skip(1));
            }
        }
    } else if a.len() == 0 && b.len() == 0 {
        assert(a =~= b);
    }
}

/// The order of texts carries over.
pub proof fn text_lt_is_transitive(a: Seq<char>, b: Seq<char>, c: Seq<char>)
    requires
        text_lt(a, b),
        text_lt(b, c),
    ensures
        text_lt(a, c),
    decreases a.len(),
{
    if a.len() > 0 && a[0] == b[0] && b[0] == c[0] {
        text_lt_is_transitive(a.skip(1), b.skip(1), c.skip(1));
    }
}

/// Whether `a` comes before `b`.
pub fn before(a: &str, b: &str) -> (r: bool)
    ensures
        r == text_lt(a@, b@),
{
    let x = chars_of(a);
    let y = chars_of(b);
    let mut i: usize = 0;
    assert(x@.skip(0) =~= x@);
    assert(y@.skip(0) =~= y@);
    while i < x.len() && i < y.len()
        invariant
            x@ == a@,
            y@ == b@,
            i <= x@.len(),
            i <= y@.len(),
            text_lt(x@, y@) == text_lt(x@.skip(i as int), y@.skip(i as int)),
        decreases x@.len() - i,
    {
        if x[i] != y[i] {
            return x[i] < y[i];
        }
        assert(x@.skip(i as int).skip(1) =~= x@.skip(i as int + 1));
        assert(y@.skip(i as int).skip(1) =~= y@.skip(i as int + 1));
        i = i + 1;
    }
    i < y.len()
}

// ---------------------------------------------------------------------------
// Comparing
// ---------------------------------------------------------------------------

/// How two things stand to each other.
#[derive(Clone, Copy, Debug, PartialEq, Eq, Structural)]
pub enum Rank {
    Less,
    Same,
    More,
}

/// The same seen from the other side.
pub open spec fn flipped(r: Rank) -> Rank {
    match r {
        Rank::Less => Rank::More,
        Rank::Same => Rank::Same,
        Rank::More => Rank::Less,
    }
}

/// The first comparison, or the second where the first finds no difference.
pub open spec fn or_else(first: Rank, second: Rank) -> Rank {
    if first == Rank::Same {
        second
    } else {
        first
    }
}

/// How two texts stand to each other.
pub open spec fn rank_text(a: Seq<char>, b: Seq<char>) -> Rank {
    if text_lt(a, b) {
        Rank::Less
    } else if text_lt(b, a) {
        Rank::More
    } else {
        Rank::Same
    }
}

/// How two optional texts stand to each other: none before any.
pub open spec fn rank_opt(a: Option<Seq<char>>, b: Option<Seq<char>>) -> Rank {
    match (a, b) {
        (None, None) => Rank::Same,
        (None, Some(_)) => Rank::Less,
        (Some(_), None) => Rank::More,
        (Some(x), Some(y)) => rank_text(x, y),
    }
}

/// How two numbers stand to each other.
pub open spec fn rank_int(a: int, b: int) -> Rank {
    if a < b {
        Rank::Less
    } else if a > b {
        Rank::More
    } else {
        Rank::Same
    }
}

/// How two texts stand to each other.
pub fn compare_text(a: &str, b: &str) -> (r: Rank)
    ensures
        r == rank_text(a@, b@),
{
    if before(a, b) {
        Rank::Less
    } else if before(b, a) {
        Rank::More
    } else {
        Rank::Same
    }
}

/// How two optional texts stand to each other.
pub fn compare_opt(a: &Option<String>, b: &Option<String>) -> (r: Rank)
    ensures
        r == rank_opt(opt_text(*a), opt_text(*b)),
{
    match (a, b) {
        (None, None) => Rank::Same,
        (None, Some(_)) => Rank::Less,
        (Some(_), None) => Rank::More,
        (Some(x), Some(y)) => compare_text(x.as_str(), y.as_str()),
    }
}

/// How two numbers stand to each other.
pub fn compare_int(a: i64, b: i64) -> (r: Rank)
    ensures
        r == rank_int(a as int, b as int),
{
    if a < b {
        Rank::Less
    } else if a > b {
        Rank::More
    } else {
        Rank::Same
    }
}

/// How two numbers stand to each other.
pub fn compare_u64(a: u64, b: u64) -> (r: Rank)
    ensures
        r == rank_int(a as int, b as int),
{
    if a < b {
        Rank::Less
    } else if a > b {
        Rank::More
    } else {
        Rank::Same
    }
}

/// The first comparison, or the second where the first finds no difference.
pub fn then_by(first: Rank, second: Rank) -> (r: Rank)
    ensures
        r == or_else(first, second),
{
    match first {
        Rank::Same => second,
        _ => first,
    }
}

/// A comparison of the things at two places of a list.
pub type Comparison = spec_fn(int, int) -> Rank;

/// Whether a comparison orders the things at the first `n` places: from either side
/// it says the same, and it carries over.
pub open spec fn orders(rank: Comparison, n: int) -> bool {
    &&& forall|a: int, b: int|
        0 <= a < n && 0 <= b < n ==> #[trigger] rank(a, b) == flipped(rank(b, a))
    &&& forall|a: int, b: int, c: int|
        0 <= a < n && 0 <= b < n && 0 <= c < n && rank(a, b) != Rank::More && rank(b, c)
            != Rank::More ==> #[trigger] carries(rank, a, b, c)
}

/// Whether what holds between `a`, `b` and `c` in a row holds between `a` and `c`.
pub open spec fn carries(rank: Comparison, a: int, b: int, c: int) -> bool {
    if rank(a, b) == Rank::Same && rank(b, c) == Rank::Same {
        rank(a, c) == Rank::Same
    } else {
        rank(a, c) == Rank::Less
    }
}

/// Comparing by texts orders.
pub proof fn texts_order(key: spec_fn(int) -> Seq<char>, rank: Comparison, n: int)
    requires
        forall|a: int, b: int| #[trigger] rank(a, b) == rank_text(key(a), key(b)),
    ensures
        orders(rank, n),
{
    assert forall|a: int, b: int| 0 <= a < n && 0 <= b < n implies #[trigger] rank(a, b)
        == flipped(rank(b, a)) by {
        text_lt_is_total(key(a), key(b));
    }
    assert forall|a: int, b: int, c: int|
        0 <= a < n && 0 <= b < n && 0 <= c < n && rank(a, b) != Rank::More && rank(b, c)
            != Rank::More implies #[trigger] carries(rank, a, b, c) by {
        texts_carry(key(a), key(b), key(c));
    }
}

proof fn texts_carry(a: Seq<char>, b: Seq<char>, c: Seq<char>)
    requires
        rank_text(a, b) != Rank::More,
        rank_text(b, c) != Rank::More,
    ensures
        if rank_text(a, b) == Rank::Same && rank_text(b, c) == Rank::Same {
            rank_text(a, c) == Rank::Same
        } else {
            rank_text(a, c) == Rank::Less
        },
{
    text_lt_is_total(a, b);
    text_lt_is_total(b, c);
    text_lt_is_total(a, c);
    if text_lt(a, b) && text_lt(b, c) {
        text_lt_is_transitive(a, b, c);
    }
}

/// Comparing by optional texts orders.
pub proof fn opts_order(key: spec_fn(int) -> Option<Seq<char>>, rank: Comparison, n: int)
    requires
        forall|a: int, b: int| #[trigger] rank(a, b) == rank_opt(key(a), key(b)),
    ensures
        orders(rank, n),
{
    assert forall|a: int, b: int| 0 <= a < n && 0 <= b < n implies #[trigger] rank(a, b)
        == flipped(rank(b, a)) by {
        if key(a) is Some && key(b) is Some {
            text_lt_is_total(key(a)->0, key(b)->0);
        }
    }
    assert forall|a: int, b: int, c: int|
        0 <= a < n && 0 <= b < n && 0 <= c < n && rank(a, b) != Rank::More && rank(b, c)
            != Rank::More implies #[trigger] carries(rank, a, b, c) by {
        if key(a) is Some && key(b) is Some && key(c) is Some {
            texts_carry(key(a)->0, key(b)->0, key(c)->0);
        }
    }
}

/// Comparing by numbers orders.
pub proof fn ints_order(key: spec_fn(int) -> int, rank: Comparison, n: int)
    requires
        forall|a: int, b: int| #[trigger] rank(a, b) == rank_int(key(a), key(b)),
    ensures
        orders(rank, n),
{
}

/// One comparison after another orders, where both do.
pub proof fn or_else_orders(first: Comparison, second: Comparison, rank: Comparison, n: int)
    requires
        orders(first, n),
        orders(second, n),
        forall|a: int, b: int| #[trigger] rank(a, b) == or_else(first(a, b), second(a, b)),
    ensures
        orders(rank, n),
{
    assert forall|a: int, b: int| 0 <= a < n && 0 <= b < n implies #[trigger] rank(a, b)
        == flipped(rank(b, a)) by {
        assert(first(a, b) == flipped(first(b, a)));
        assert(second(a, b) == flipped(second(b, a)));
    }
    assert forall|a: int, b: int, c: int|
        0 <= a < n && 0 <= b < n && 0 <= c < n && rank(a, b) != Rank::More && rank(b, c)
            != Rank::More implies #[trigger] carries(rank, a, b, c) by {
        assert(carries(first, a, b, c));
        if first(a, b) == Rank::Same && first(b, c) == Rank::Same {
            assert(carries(second, a, b, c));
        }
    }
}

/// A comparison seen from the other side orders, where it does.
pub proof fn flipped_orders(inner: Comparison, rank: Comparison, n: int)
    requires
        orders(inner, n),
        forall|a: int, b: int| #[trigger] rank(a, b) == inner(b, a),
    ensures
        orders(rank, n),
{
    assert forall|a: int, b: int| 0 <= a < n && 0 <= b < n implies #[trigger] rank(a, b)
        == flipped(rank(b, a)) by {
        assert(inner(b, a) == flipped(inner(a, b)));
    }
    assert forall|a: int, b: int, c: int|
        0 <= a < n && 0 <= b < n && 0 <= c < n && rank(a, b) != Rank::More && rank(b, c)
            != Rank::More implies #[trigger] carries(rank, a, b, c) by {
        assert(carries(inner, c, b, a));
    }
}

// ---------------------------------------------------------------------------
// Stable sorting
// ---------------------------------------------------------------------------

/// Whether the thing at place `a` belongs before the one at `b`: it is less, or they
/// are the same and it stood before.
pub open spec fn ahead(rank: Comparison, a: int, b: int) -> bool {
    rank(a, b) == Rank::Less || (rank(a, b) == Rank::Same && a < b)
}

/// Whether `p` lists the places from `lo` to `hi`, each once, in stable order.
pub open spec fn is_order(p: Seq<usize>, rank: Comparison, lo: int, hi: int) -> bool {
    &&& p.len() == hi - lo
    &&& forall|i: int| 0 <= i < p.len() ==> lo <= (#[trigger] p[i]) < hi
    &&& forall|i: int, j: int|
        0 <= i < j < p.len() ==> ahead(rank, (#[trigger] p[i]) as int, (#[trigger] p[j]) as int)
}

proof fn ahead_carries(rank: Comparison, n: int, a: int, b: int, c: int)
    requires
        orders(rank, n),
        0 <= a < n,
        0 <= b < n,
        0 <= c < n,
        ahead(rank, a, b),
        ahead(rank, b, c),
    ensures
        ahead(rank, a, c),
{
    assert(carries(rank, a, b, c));
}

/// Sorts the places from `lo` to `hi`.
fn sort_range<F: Fn(usize, usize) -> Rank>(
    lo: usize,
    hi: usize,
    compare: &F,
    Ghost(rank): Ghost<Comparison>,
    Ghost(n): Ghost<int>,
) -> (p: Vec<usize>)
    requires
        lo <= hi <= n,
        orders(rank, n),
        forall|a: usize, b: usize| a < n && b < n ==> #[trigger] call_requires(compare, (a, b)),
        forall|a: usize, b: usize, r: Rank| #[trigger]
            call_ensures(compare, (a, b), r) ==> r == rank(a as int, b as int),
    ensures
        is_order(p@, rank, lo as int, hi as int),
    decreases hi - lo,
{
    let mut out: Vec<usize> = Vec::new();
    if hi - lo == 0 {
        return out;
    }
    if hi - lo == 1 {
        out.push(lo);
        return out;
    }
    let mid: usize = lo + (hi - lo) / 2;
    let left = sort_range(lo, mid, compare, Ghost(rank), Ghost(n));
    let right = sort_range(mid, hi, compare, Ghost(rank), Ghost(n));
    let mut i: usize = 0;
    let mut j: usize = 0;
    while i < left.len() || j < right.len()
        invariant
            lo < mid < hi <= n,
            orders(rank, n),
            forall|a: usize, b: usize|
                a < n && b < n ==> #[trigger] call_requires(compare, (a, b)),
            forall|a: usize, b: usize, r: Rank| #[trigger]
                call_ensures(compare, (a, b), r) ==> r == rank(a as int, b as int),
            is_order(left@, rank, lo as int, mid as int),
            is_order(right@, rank, mid as int, hi as int),
            i <= left@.len(),
            j <= right@.len(),
            out@.len() == i + j,
            forall|k: int| 0 <= k < out@.len() ==> lo <= (#[trigger] out@[k]) < hi,
            forall|k: int, l: int|
                0 <= k < l < out@.len() ==> ahead(
                    rank,
                    (#[trigger] out@[k]) as int,
                    (#[trigger] out@[l]) as int,
                ),
            forall|k: int, l: int|
                0 <= k < out@.len() && i <= l < left@.len() ==> ahead(
                    rank,
                    (#[trigger] out@[k]) as int,
                    (#[trigger] left@[l]) as int,
                ),
            forall|k: int, l: int|
                0 <= k < out@.len() && j <= l < right@.len() ==> ahead(
                    rank,
                    (#[trigger] out@[k]) as int,
                    (#[trigger] right@[l]) as int,
                ),
        decreases left@.len() - i + (right@.len() - j),
    {
        let take_left = if i == left.len() {
            false
        } else if j == right.len() {
            true
        } else {
            assert(left@[i as int] < n && right@[j as int] < n);
            let r: Rank = compare(right[j], left[i]);
            r != Rank::Less
        };
        let ghost before = out@;
        if take_left {
            let x: usize = left[i];
            out.push(x);
            i = i + 1;
            proof {
                assert forall|l: int| j <= l < right@.len() implies ahead(
                    rank,
                    x as int,
                    (#[trigger] right@[l]) as int,
                ) by {
                    let y = right@[j as int] as int;
                    assert(rank(y, x as int) != Rank::Less);
                    assert(rank(x as int, y) == flipped(rank(y, x as int)));
                    assert(ahead(rank, x as int, y));
                    if l > j {
                        ahead_carries(rank, n, x as int, y, right@[l] as int);
                    }
                }
            }
        } else {
            let y: usize = right[j];
            out.push(y);
            j = j + 1;
            proof {
                assert forall|l: int| i <= l < left@.len() implies ahead(
                    rank,
                    y as int,
                    (#[trigger] left@[l]) as int,
                ) by {
                    let x = left@[i as int] as int;
                    assert(ahead(rank, y as int, x));
                    if l > i {
                        ahead_carries(rank, n, y as int, x, left@[l] as int);
                    }
                }
            }
        }
        proof {
            let last = out@.len() - 1;
            assert forall|k: int, l: int| 0 <= k < l < out@.len() implies ahead(
                rank,
                (#[trigger] out@[k]) as int,
                (#[trigger] out@[l]) as int,
            ) by {
                assert(out@[k] == before[k]);
                if l < last {
                    assert(out@[l] == before[l]);
                }
            }
            assert forall|k: int, l: int| 0 <= k < out@.len() && i <= l < left@.len() implies ahead(
                rank,
                (#[trigger] out@[k]) as int,
                (#[trigger] left@[l]) as int,
            ) by {
                if k < last {
                    assert(out@[k] == before[k]);
                }
            }
            assert forall|k: int, l: int| 0 <= k < out@.len() && j <= l < right@.len() implies ahead(
                rank,
                (#[trigger] out@[k]) as int,
                (#[trigger] right@[l]) as int,
            ) by {
                if k < last {
                    assert(out@[k] == before[k]);
                }
            }
        }
    }
    out
}

/// An order lists every place.
pub proof fn orders_list_every_place(p: Seq<usize>, rank: Comparison, n: int, k: int)
    requires
        orders(rank, n),
        is_order(p, rank, 0, n),
        0 <= k < n,
    ensures
        p.contains(k as usize),
{
    let q = p.map_values(|x: usize| x as int);
    assert forall|i: int, j: int| 0 <= i < j < q.len() implies q[i] != q[j] by {
        assert(ahead(rank, p[i] as int, p[j] as int));
        assert(rank(p[i] as int, p[i] as int) == flipped(rank(p[i] as int, p[i] as int)));
    }
    assert(q.no_duplicates());
    q.unique_seq_to_set();
    let all = set_int_range(0, n);
    lemma_int_range(0, n);
    assert(q.to_set().subset_of(all)) by {
        assert forall|x: int| q.to_set().contains(x) implies all.contains(x) by {
            let i = choose|i: int| 0 <= i < q.len() && q[i] == x;
            assert(q[i] == p[i]);
        }
    }
    seq_to_set_is_finite(q);
    lemma_subset_equality(q.to_set(), all);
    assert(all.contains(k));
    assert(q.contains(k));
    let i = choose|i: int| 0 <= i < q.len() && q[i] == k;
    assert(p[i] == k as usize);
}

/// There is only one stable order.
pub proof fn stable_order_is_unique(p: Seq<usize>, q: Seq<usize>, rank: Comparison, n: int)
    requires
        orders(rank, n),
        is_order(p, rank, 0, n),
        is_order(q, rank, 0, n),
    ensures
        p == q,
{
    assert forall|i: int| 0 <= i < p.len() implies p[i] == q[i] by {
        same_place(p, q, rank, n, i);
    }
    assert(p =~= q);
}

proof fn same_place(p: Seq<usize>, q: Seq<usize>, rank: Comparison, n: int, i: int)
    requires
        orders(rank, n),
        is_order(p, rank, 0, n),
        is_order(q, rank, 0, n),
        0 <= i < n,
    ensures
        p[i] == q[i],
    decreases i,
{
    assert forall|k: int| 0 <= k < i implies p[k] == q[k] by {
        same_place(p, q, rank, n, k);
    }
    if p[i] != q[i] {
        let a = p[i] as int;
        let b = q[i] as int;
        orders_list_every_place(q, rank, n, a);
        orders_list_every_place(p, rank, n, b);
        let j = choose|j: int| 0 <= j < q.len() && q[j] == a as usize;
        let k = choose|k: int| 0 <= k < p.len() && p[k] == b as usize;
        assert(rank(a, a) == flipped(rank(a, a)));
        assert(rank(b, b) == flipped(rank(b, b)));
        assert(j > i) by {
            if j < i {
                assert(p[j] == q[j]);
                assert(ahead(rank, p[j] as int, p[i] as int));
            }
        }
        assert(k > i) by {
            if k < i {
                assert(p[k] == q[k]);
                assert(ahead(rank, q[k] as int, q[i] as int));
            }
        }
        assert(ahead(rank, q[i] as int, q[j] as int));
        assert(ahead(rank, p[i] as int, p[k] as int));
        assert(rank(a, b) == flipped(rank(b, a)));
    }
}

/// The places of `n` things in stable order: sorted, and where two are the same the
/// one that stood before stays before.
pub open spec fn order_of(rank: Comparison, n: int) -> Seq<usize> {
    choose|p: Seq<usize>| is_order(p, rank, 0, n)
}

/// The things of a list at some places.
pub open spec fn at_places<A>(s: Seq<A>, places: Seq<usize>) -> Seq<A> {
    places.map_values(|i: usize| s[i as int])
}

/// The first place in `p` from `i` on that does not go ahead of `x`.
spec fn slot_for(p: Seq<usize>, rank: Comparison, x: int, i: int) -> int
    decreases p.len() - i,
{
    if 0 <= i < p.len() && ahead(rank, p[i] as int, x) {
        slot_for(p, rank, x, i + 1)
    } else {
        i
    }
}

proof fn slot_splits(p: Seq<usize>, rank: Comparison, x: int, i: int)
    requires
        0 <= i <= p.len(),
        forall|j: int| 0 <= j < i ==> ahead(rank, (#[trigger] p[j]) as int, x),
    ensures
        ({
            let k = slot_for(p, rank, x, i);
            &&& i <= k <= p.len()
            &&& forall|j: int| 0 <= j < k ==> ahead(rank, (#[trigger] p[j]) as int, x)
            &&& k < p.len() ==> !ahead(rank, p[k] as int, x)
        }),
    decreases p.len() - i,
{
    if i < p.len() && ahead(rank, p[i] as int, x) {
        slot_splits(p, rank, x, i + 1);
    }
}

/// Whatever the comparison, there is a stable order.
pub proof fn stable_order_exists(rank: Comparison, n: int)
    requires
        0 <= n <= usize::MAX,
        orders(rank, n),
    ensures
        is_order(order_of(rank, n), rank, 0, n),
    decreases n,
{
    if n == 0 {
        assert(is_order(Seq::<usize>::empty(), rank, 0, 0));
    } else {
        let x = n - 1;
        assert(orders(rank, x));
        stable_order_exists(rank, x);
        let p = order_of(rank, x);
        slot_splits(p, rank, x, 0);
        let k = slot_for(p, rank, x, 0);
        let q = p.take(k).push(x as usize) + p.skip(k);
        assert forall|i: int, j: int| 0 <= i < j < q.len() implies ahead(
            rank,
            (#[trigger] q[i]) as int,
            (#[trigger] q[j]) as int,
        ) by {
            if k < i || j < k {
                let a = if k < i {
                    i - 1
                } else {
                    i
                };
                let b = if k < i {
                    j - 1
                } else {
                    j
                };
                assert(q[i] == p[a] && q[j] == p[b]);
            } else if i == k {
                assert(q[j] == p[j - 1]);
                let first = p[k] as int;
                assert(rank(x, first) == flipped(rank(first, x)));
                assert(ahead(rank, x, first));
                if k < j - 1 {
                    assert(ahead(rank, first, p[j - 1] as int));
                    ahead_carries(rank, n, x, first, p[j - 1] as int);
                }
            } else if j == k {
                assert(q[i] == p[i]);
            } else {
                assert(q[i] == p[i]);
                assert(q[j] == p[j - 1]);
                assert(ahead(rank, p[i] as int, p[j - 1] as int));
            }
        }
        assert(is_order(q, rank, 0, n));
    }
}

/// The places of `n` things in stable order.
pub(crate) fn stable_order<F: Fn(usize, usize) -> Rank>(
    n: usize,
    compare: F,
    Ghost(rank): Ghost<Comparison>,
) -> (p: Vec<usize>)
    requires
        orders(rank, n as int),
        forall|a: usize, b: usize| a < n && b < n ==> #[trigger] call_requires(&compare, (a, b)),
        forall|a: usize, b: usize, r: Rank| #[trigger]
            call_ensures(&compare, (a, b), r) ==> r == rank(a as int, b as int),
    ensures
        is_order(p@, rank, 0, n as int),
        p@ == order_of(rank, n as int),
{
    let p = sort_range(0, n, &compare, Ghost(rank), Ghost(n as int));
    proof {
        stable_order_is_unique(p@, order_of(rank, n as int), rank, n as int);
    }
    p
}

/// The last first.
pub fn reversed_places(p: &Vec<usize>) -> (r: Vec<usize>)
    ensures
        r@ == p@.reverse(),
{
    let mut out: Vec<usize> = Vec::new();
    let mut i: usize = p.len();
    while i > 0
        invariant
            i <= p@.len(),
            out@.len() == p@.len() - i,
            forall|k: int| 0 <= k < out@.len() ==> out@[k] == p@[p@.len() - 1 - k],
        decreases i,
    {
        i = i - 1;
        out.push(p[i]);
    }
    assert(out@ =~= p@.reverse());
    out
}

/// One text comes before another if, behind what both begin with, it ends first or has the
/// lower character.
pub proof fn text_lt_is_lexicographic(a: Seq<char>, b: Seq<char>)
    ensures
        text_lt(a, b) <==> exists|k: int| #[trigger] parts_below(a, b, k),
    decreases a.len(),
{
    if b.len() > 0 && a.len() > 0 && a[0] == b[0] {
        let x = a.skip(1);
        let y = b.skip(1);
        text_lt_is_lexicographic(x, y);
        if text_lt(x, y) {
            let k = choose|k: int| #[trigger] parts_below(x, y, k);
            assert(a.take(k + 1) =~= seq![a[0]] + x.take(k));
            assert(b.take(k + 1) =~= seq![b[0]] + y.take(k));
            assert(parts_below(a, b, k + 1));
        }
        if exists|k: int| #[trigger] parts_below(a, b, k) {
            let k = choose|k: int| #[trigger] parts_below(a, b, k);
            assert(k > 0);
            assert(x.take(k - 1) =~= a.take(k).skip(1));
            assert(y.take(k - 1) =~= b.take(k).skip(1));
            assert(parts_below(x, y, k - 1));
        }
    } else {
        if text_lt(a, b) {
            assert(a.take(0) =~= b.take(0));
            assert(parts_below(a, b, 0));
        }
        if exists|k: int| #[trigger] parts_below(a, b, k) {
            let k = choose|k: int| #[trigger] parts_below(a, b, k);
            if k > 0 {
                assert(a.take(k)[0] == b.take(k)[0]);
            }
        }
    }
}

/// Whether two texts agree up to `k`, where the first ends or has the lower character.
pub open spec fn parts_below(a: Seq<char>, b: Seq<char>, k: int) -> bool {
    &&& 0 <= k <= a.len()
    &&& k < b.len()
    &&& a.take(k) == b.take(k)
    &&& k == a.len() || a[k] < b[k]
}

} // verus!
