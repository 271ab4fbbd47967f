//! Sorting by text keys, keeping the order of equal keys.
use crate::ordmap;
use crate::text;
use vstd::prelude::*;
use vstd::string::*;

verus! {

/// The pair of keys at the place `a` stands before that at `b`: by the first
/// keys, where these are equal by the second ones, and where these are equal
/// too by the places.
pub open spec fn place_before(
    first: Seq<Seq<char>>,
    second: Seq<Seq<char>>,
    a: int,
    b: int,
) -> bool {
    ||| ordmap::text_lt(first[a], first[b])
    ||| first[a] == first[b] && ordmap::text_lt(second[a], second[b])
    ||| first[a] == first[b] && second[a] == second[b] && a < b
}

/// `order` lists the places `0..n`, each once.
pub open spec fn lists_places(order: Seq<usize>, n: int) -> bool {
    &&& order.len() == n
    &&& forall|i: int| 0 <= i < order.len() ==> 0 <= #[trigger] order[i] < n
    &&& forall|i: int, j: int|
        0 <= i < j < order.len() ==> #[trigger] order[i] != #[trigger] order[j]
}

/// `order` lists the places of the keys in the order of the keys.
pub open spec fn is_sorted_order(
    order: Seq<usize>,
    first: Seq<Seq<char>>,
    second: Seq<Seq<char>>,
) -> bool {
    &&& lists_places(order, first.len() as int)
    &&& forall|i: int, j: int|
        0 <= i < j < order.len() ==> place_before(
            first,
            second,
            (#[trigger] order[i]) as int,
            (#[trigger] order[j]) as int,
        )
}

/// The order of places is transitive.
proof fn lemma_before_transitive(
    first: Seq<Seq<char>>,
    second: Seq<Seq<char>>,
    a: int,
    b: int,
    c: int,
)
    requires
        place_before(first, second, a, b),
        place_before(first, second, b, c),
    ensures
        place_before(first, second, a, c),
{
    if ordmap::text_lt(first[a], first[b]) && ordmap::text_lt(first[b], first[c]) {
        ordmap::lemma_text_lt_transitive(first[a], first[b], first[c]);
    } else if first[a] == first[b] && first[b] == first[c] && ordmap::text_lt(
        second[a],
        second[b],
    ) && ordmap::text_lt(second[b], second[c]) {
        ordmap::lemma_text_lt_transitive(second[a], second[b], second[c]);
    }
}

/// Of two places one stands before the other.
proof fn lemma_before_total(first: Seq<Seq<char>>, second: Seq<Seq<char>>, a: int, b: int)
    requires
        a != b,
    ensures
        place_before(first, second, a, b) || place_before(first, second, b, a),
{
    ordmap::lemma_text_lt_total(first[a], first[b]);
    ordmap::lemma_text_lt_total(second[a], second[b]);
}

/// Tells whether the keys at one place stand before those at another.
fn is_before(first: &Vec<String>, second: &Vec<String>, a: usize, b: usize) -> (r: bool)
    requires
        a < first@.len(),
        b < first@.len(),
        first@.len() == second@.len(),
    ensures
        r == place_before(text::texts(first@), text::texts(second@), a as int, b as int),
{
    if ordmap::text_less(first[a].as_str(), first[b].as_str()) {
        return true;
    }
    if !text::str_eq(first[a].as_str(), first[b].as_str()) {
        return false;
    }
    if ordmap::text_less(second[a].as_str(), second[b].as_str()) {
        return true;
    }
    text::str_eq(second[a].as_str(), second[b].as_str()) && a < b
}

/// Sorts the places of the keys: by the first keys, where these are equal by
/// the second ones, and where these are equal too in the given order.
pub fn sorted_order(first: &Vec<String>, second: &Vec<String>) -> (order: Vec<usize>)
    requires
        first@.len() == second@.len(),
    ensures
        is_sorted_order(order@, text::texts(first@), text::texts(second@)),
{
    let ghost f = text::texts(first@);
    let ghost s = text::texts(second@);
    let mut order: Vec<usize> = Vec::new();
    let mut n: usize = 0;
    while n < first.len()
        invariant
            first@.len() == second@.len(),
            f == text::texts(first@),
            s == text::texts(second@),
            n <= first@.len(),
            lists_places(order@, n as int),
            forall|i: int, j: int|
                0 <= i < j < order@.len() ==> place_before(
                    f,
                    s,
                    (#[trigger] order@[i]) as int,
                    (#[trigger] order@[j]) as int,
                ),
        decreases first@.len() - n,
    {
        let mut at: usize = 0;
        while at < order.len() && is_before(first, second, order[at], n)
            invariant
                first@.len() == second@.len(),
                f == text::texts(first@),
                s == text::texts(second@),
                n < first@.len(),
                lists_places(order@, n as int),
                at <= order@.len(),
                forall|i: int|
                    0 <= i < at ==> place_before(f, s, (#[trigger] order@[i]) as int, n as int),
            decreases order@.len() - at,
        {
            at = at + 1;
        }
        let ghost before = order@;
        proof {
            assert forall|i: int| at <= i < before.len() implies place_before(
                f,
                s,
                n as int,
                (#[trigger] before[i]) as int,
            ) by {
                lemma_before_total(f, s, before[at as int] as int, n as int);
                if i > at {
                    lemma_before_transitive(
                        f,
                        s,
                        n as int,
                        before[at as int] as int,
                        before[i] as int,
                    );
                }
            }
        }
        order.insert(at, n);
        proof {
            let now = order@;
            assert forall|i: int| 0 <= i < now.len() implies 0 <= #[trigger] now[i] < n + 1 by {
                if i < at {
                    assert(now[i] == before[i]);
                } else if i > at {
                    assert(now[i] == before[i - 1]);
                }
            }
            assert forall|i: int, j: int| 0 <= i < j < now.len() implies #[trigger] now[i]
                != #[trigger] now[j] && place_before(f, s, now[i] as int, now[j] as int) by {
                let i0 = if i < at {
                    i
                } else {
                    i - 1
                };
                let j0 = if j < at {
                    j
                } else {
                    j - 1
                };
                if i != at && j != at {
                    assert(before[i0] != before[j0]);
                } else if i == at {
                    assert(now[j] == before[j0]);
                } else {
                    assert(now[i] == before[i0]);
                }
            }
        }
        n = n + 1;
    }
    order
}

/// The items in the order that `p` lists their places in.
pub open spec fn reordered<A>(items: Seq<A>, p: Seq<usize>) -> Seq<A> {
    Seq::new(p.len(), |i: int| items[p[i] as int])
}

/// A list of all places, each once, leaves none out.
pub proof fn lemma_lists_all(order: Seq<usize>, n: int, k: int)
    requires
        lists_places(order, n),
        0 <= k < n,
    ensures
        exists|i: int| 0 <= i < order.len() && #[trigger] order[i] == k,
{
    let places = Seq::new(order.len(), |i: int| order[i] as int);
    assert forall|i: int, j: int| 0 <= i < places.len() && 0 <= j < places.len() && i
        != j implies places[i] != places[j] by {
        if i < j {
            assert(order[i] != order[j]);
        } else {
            assert(order[j] != order[i]);
        }
    }
    assert(places.no_duplicates());
    places.unique_seq_to_set();
    let all = vstd::set_lib::set_int_range(0, n);
    vstd::set_lib::lemma_int_range(0, n);
    assert forall|x: int| places.to_set().contains(x) implies all.contains(x) by {
        let i = choose|i: int| 0 <= i < places.len() && places[i] == x;
        assert(0 <= order[i] < n);
    }
    vstd::seq_lib::seq_to_set_is_finite(places);
    vstd::set_lib::lemma_subset_equality(places.to_set(), all);
    assert(all.contains(k));
    assert(places.to_set().contains(k));
    let i = choose|i: int| 0 <= i < places.len() && places[i] == k;
    assert(order[i] == k);
}

/// The items in another order are the same items.
pub proof fn lemma_reordered_items<A>(items: Seq<A>, p: Seq<usize>, a: A)
    requires
        lists_places(p, items.len() as int),
    ensures
        reordered(items, p).contains(a) <==> items.contains(a),
{
    let r = reordered(items, p);
    if r.contains(a) {
        let i = choose|i: int| 0 <= i < r.len() && r[i] == a;
        assert(0 <= p[i] < items.len());
        assert(items[p[i] as int] == a);
    }
    if items.contains(a) {
        let k = choose|k: int| 0 <= k < items.len() && items[k] == a;
        lemma_lists_all(p, items.len() as int, k);
        let i = choose|i: int| 0 <= i < p.len() && #[trigger] p[i] == k;
        assert(r[i] == a);
    }
}

/// The items are in strictly ascending order.
pub open spec fn is_ascending<A>(items: Seq<A>, less: spec_fn(A, A) -> bool) -> bool {
    forall|i: int, j: int|
        0 <= i < j < items.len() ==> less(#[trigger] items[i], #[trigger] items[j])
}

/// There is one strictly ascending list of given items.
pub proof fn lemma_one_ascending<A>(x: Seq<A>, y: Seq<A>, less: spec_fn(A, A) -> bool)
    requires
        is_ascending(x, less),
        is_ascending(y, less),
        forall|a: A, b: A| #[trigger] less(a, b) ==> !less(b, a),
        forall|a: A| x.contains(a) <==> y.contains(a),
    ensures
        x == y,
    decreases x.len(),
{
    if x.len() == 0 {
        if y.len() > 0 {
            assert(y.contains(y[0]));
        }
        assert(x =~= y);
    } else {
        assert(x.contains(x.last()));
        let j = choose|j: int| 0 <= j < y.len() && y[j] == x.last();
        assert(y.contains(y.last()));
        let i = choose|i: int| 0 <= i < x.len() && x[i] == y.last();
        if j < y.len() - 1 {
            assert(less(y[j], y[y.len() - 1]));
            if i < x.len() - 1 {
                assert(less(x[i], x[x.len() - 1]));
            }
        }
        assert(x.last() == y.last());
        let last = x.last();
        let x0 = x.drop_last();
        let y0 = y.drop_last();
        assert(is_ascending(x0, less)) by {
            assert forall|i: int, j: int| 0 <= i < j < x0.len() implies less(
                #[trigger] x0[i],
                #[trigger] x0[j],
            ) by {
                assert(less(x[i], x[j]));
            }
        }
        assert(is_ascending(y0, less)) by {
            assert forall|i: int, j: int| 0 <= i < j < y0.len() implies less(
                #[trigger] y0[i],
                #[trigger] y0[j],
            ) by {
                assert(less(y[i], y[j]));
            }
        }
        assert forall|a: A| x0.contains(a) <==> y0.contains(a) by {
            if x0.contains(a) {
                let k = choose|k: int| 0 <= k < x0.len() && x0[k] == a;
                assert(x[k] == a);
                assert(x.contains(a));
                assert(less(x[k], x[x.len() - 1]));
                let m = choose|m: int| 0 <= m < y.len() && y[m] == a;
                assert(m < y.len() - 1);
                assert(y0[m] == a);
            }
            if y0.contains(a) {
                let k = choose|k: int| 0 <= k < y0.len() && y0[k] == a;
                assert(y[k] == a);
                assert(y.contains(a));
                assert(less(y[k], y[y.len() - 1]));
                let m = choose|m: int| 0 <= m < x.len() && x[m] == a;
                assert(m < x.len() - 1);
                assert(x0[m] == a);
            }
        }
        lemma_one_ascending(x0, y0, less);
        assert(x0.push(last) =~= x);
        assert(y0.push(last) =~= y);
    }
}

/// No two places have the same keys.
pub open spec fn are_distinct(first: Seq<Seq<char>>, second: Seq<Seq<char>>) -> bool {
    forall|i: int, j: int|
        0 <= i < j < first.len() ==> #[trigger] first[i] != #[trigger] first[j] || second[i]
            != second[j]
}

/// A pair of keys comes before another.
pub open spec fn pair_before(a: (Seq<char>, Seq<char>), b: (Seq<char>, Seq<char>)) -> bool {
    ordmap::text_lt(a.0, b.0) || (a.0 == b.0 && ordmap::text_lt(a.1, b.1))
}

/// Of two pairs at most one comes before the other.
pub proof fn lemma_pair_before_asymmetric(a: (Seq<char>, Seq<char>), b: (Seq<char>, Seq<char>))
    requires
        pair_before(a, b),
    ensures
        !pair_before(b, a),
{
    ordmap::lemma_text_lt_irreflexive(a.0);
    ordmap::lemma_text_lt_irreflexive(a.1);
    if ordmap::text_lt(a.0, b.0) && ordmap::text_lt(b.0, a.0) {
        ordmap::lemma_text_lt_transitive(a.0, b.0, a.0);
    }
    if ordmap::text_lt(a.1, b.1) && ordmap::text_lt(b.1, a.1) {
        ordmap::lemma_text_lt_transitive(a.1, b.1, a.1);
    }
}

/// Where no keys are the same, the places in the order of their keys have
/// ascending keys.
pub proof fn lemma_keys_ascend(
    order: Seq<usize>,
    first: Seq<Seq<char>>,
    second: Seq<Seq<char>>,
    i: int,
    j: int,
)
    requires
        first.len() == second.len(),
        is_sorted_order(order, first, second),
        are_distinct(first, second),
        0 <= i < j < order.len(),
    ensures
        pair_before(
            (first[order[i] as int], second[order[i] as int]),
            (first[order[j] as int], second[order[j] as int]),
        ),
{
    let a = order[i] as int;
    let b = order[j] as int;
    assert(place_before(first, second, a, b));
    if first[a] == first[b] && second[a] == second[b] && a < b {
        assert(first[a] != first[b] || second[a] != second[b]);
    }
}

/// In a sorted order a smaller key comes first: the first keys decide, where
/// these are equal the second ones, and where these are equal too the given
/// order stays.
pub proof fn law_smaller_keys_come_first(
    order: Seq<usize>,
    first: Seq<Seq<char>>,
    second: Seq<Seq<char>>,
    i: int,
    j: int,
)
    requires
        is_sorted_order(order, first, second),
        0 <= i < order.len(),
        0 <= j < order.len(),
    ensures
        ordmap::text_lt(first[order[i] as int], first[order[j] as int]) ==> i < j,
        first[order[i] as int] == first[order[j] as int] && ordmap::text_lt(
            second[order[i] as int],
            second[order[j] as int],
        ) ==> i < j,
        first[order[i] as int] == first[order[j] as int] && second[order[i] as int]
            == second[order[j] as int] && order[i] < order[j] ==> i < j,
{
    let a = order[i] as int;
    let b = order[j] as int;
    ordmap::lemma_text_lt_irreflexive(first[a]);
    ordmap::lemma_text_lt_irreflexive(second[a]);
    if j < i {
        assert(place_before(first, second, b, a));
        if ordmap::text_lt(first[a], first[b]) && ordmap::text_lt(first[b], first[a]) {
            ordmap::lemma_text_lt_transitive(first[a], first[b], first[a]);
        }
        if ordmap::text_lt(second[a], second[b]) && ordmap::text_lt(second[b], second[a]) {
            ordmap::lemma_text_lt_transitive(second[a], second[b], second[a]);
        }
    }
}

} // verus!
