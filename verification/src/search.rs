//! The query execution pipeline: filter the post index by a predicate, then
//! order the matching positions as the requested sort asks.
//!
//! Filtering walks the index in its natural order, so the collected positions
//! start out ascending by date. The date orders then keep or reverse that
//! sequence; the field orders sort it by the named field; the random order
//! shuffles it.

use vstd::prelude::*;

use rand::seq::SliceRandom;
use rayon::slice::ParallelSliceMut;

use crate::posts::{Post, PostIndex, PostView};
use crate::query::{validates, Query, SortOrder};

verus! {

broadcast use vstd::seq_lib::group_to_multiset_ensures;

/// Positions, among the first `n` posts, of the posts the query accepts, in
/// ascending order.
pub open spec fn matching_up_to(posts: Seq<PostView>, q: Query, n: int) -> Seq<usize>
    decreases n,
{
    if n <= 0 {
        Seq::empty()
    } else {
        let rest = matching_up_to(posts, q, n - 1);
        if validates(q, posts[n - 1]) {
            rest.push((n - 1) as usize)
        } else {
            rest
        }
    }
}

/// Positions of all the posts the query accepts, in ascending date order.
pub open spec fn matching(posts: Seq<PostView>, q: Query) -> Seq<usize> {
    matching_up_to(posts, q, posts.len() as int)
}

/// The matching positions are exactly the positions of accepted posts: each
/// one lies in range, each accepted post appears, and they come in ascending
/// order.
pub proof fn lemma_matching_membership(posts: Seq<PostView>, q: Query, n: int)
    requires
        0 <= n <= posts.len(),
        n <= usize::MAX,
    ensures
        forall|k: int|
            0 <= k < matching_up_to(posts, q, n).len() ==> (#[trigger] matching_up_to(
                posts,
                q,
                n,
            )[k]) < n,
        forall|k: int, l: int|
            0 <= k < l < matching_up_to(posts, q, n).len() ==> matching_up_to(posts, q, n)[k]
                < matching_up_to(posts, q, n)[l],
        forall|x: usize|
            #[trigger] matching_up_to(posts, q, n).contains(x) <==> ((x as int) < n && validates(
                q,
                posts[x as int],
            )),
    decreases n,
{
    if n > 0 {
        lemma_matching_membership(posts, q, n - 1);
        let rest = matching_up_to(posts, q, n - 1);
        let here = matching_up_to(posts, q, n);
        if validates(q, posts[n - 1]) {
            assert(here == rest.push((n - 1) as usize));
            assert forall|x: usize| #[trigger] here.contains(x) implies ((x as int) < n
                && validates(q, posts[x as int])) by {
                let k = choose|k: int| 0 <= k < here.len() && here[k] == x;
                if k < rest.len() {
                    assert(rest[k] == x);
                    assert(rest.contains(x));
                }
            }
            assert forall|x: usize| ((x as int) < n && validates(q, posts[x as int])) implies #[trigger] here.contains(x) by {
                if (x as int) < n - 1 {
                    assert(rest.contains(x));
                    let k = choose|k: int| 0 <= k < rest.len() && rest[k] == x;
                    assert(here[k] == x);
                } else {
                    assert(here[here.len() - 1] == x);
                }
            }
        } else {
            assert(here == rest);
        }
    }
}

/// The newest-first output is exactly the oldest-first output reversed: a
/// search run with the descending date order publishes the reverse of what
/// the same search run with the ascending date order publishes.
pub proof fn lemma_date_output_reverses(
    posts: Seq<PostView>,
    q: Query,
    oldest_first: Seq<usize>,
    newest_first: Seq<usize>,
)
    requires
        oldest_first == matching(posts, q),
        newest_first == matching(posts, q).reverse(),
    ensures
        newest_first == oldest_first.reverse(),
{
}

/// Copies the position list in reverse order.
fn reversed(v: &Vec<usize>) -> (r: Vec<usize>)
    ensures
        r@ == v@.reverse(),
{
    let n = v.len();
    let mut r: Vec<usize> = Vec::new();
    let mut k: usize = 0;
    while k < n
        invariant
            0 <= k <= n == v@.len(),
            r@.len() == k,
            forall|j: int| 0 <= j < k ==> r@[j] == v@[n - 1 - j],
        decreases n - k,
    {
        r.push(v[n - 1 - k]);
        k = k + 1;
    }
    assert(r@ =~= v@.reverse());
    r
}

/// Collects the positions of the posts the query accepts, walking the index
/// in its natural ascending-date order.
pub fn filter_posts(posts: &PostIndex, q: &Query) -> (r: Vec<usize>)
    ensures
        r@ == matching(posts@, *q),
{
    let n = posts.len();
    let mut r: Vec<usize> = Vec::new();
    let mut i: usize = 0;
    while i < n
        invariant
            0 <= i <= n == posts@.len(),
            r@ == matching_up_to(posts@, *q, i as int),
        decreases n - i,
    {
        if q.validate(posts.get(i)) {
            r.push(i);
        }
        i = i + 1;
    }
    r
}

/// Whether the order sorts by a post field rather than by date or at random.
pub open spec fn is_field_sort(order: SortOrder) -> bool {
    match order {
        SortOrder::Score | SortOrder::ScoreAscending | SortOrder::FavCount
            | SortOrder::FavCountAscending => true,
        _ => false,
    }
}

/// Whether a field order asks for ascending field values.
pub open spec fn is_ascending_field(order: SortOrder) -> bool {
    match order {
        SortOrder::ScoreAscending | SortOrder::FavCountAscending => true,
        _ => false,
    }
}

/// The field value a field order compares posts by.
pub open spec fn field_value(p: PostView, order: SortOrder) -> int {
    match order {
        SortOrder::Score | SortOrder::ScoreAscending => p.score as int,
        SortOrder::FavCount | SortOrder::FavCountAscending => p.fav_count as int,
        _ => 0,
    }
}

/// Whether the post at position `a` may stand before the post at position
/// `b` under a field order: strictly better by the field, or tied with the
/// positions in ascending order.
pub open spec fn ordered_pair(posts: Seq<PostView>, order: SortOrder, a: usize, b: usize) -> bool {
    let fa = field_value(posts[a as int], order);
    let fb = field_value(posts[b as int], order);
    if is_ascending_field(order) {
        fa < fb || (fa == fb && a <= b)
    } else {
        fa > fb || (fa == fb && a <= b)
    }
}

/// Whether the position list is sorted as the field order asks, ties broken
/// by ascending position.
pub open spec fn sorted_for(posts: Seq<PostView>, order: SortOrder, r: Seq<usize>) -> bool {
    forall|k: int, l: int| 0 <= k < l < r.len() ==> ordered_pair(posts, order, r[k], r[l])
}

/// The unsigned key a field order sorts by: the field value shifted to be
/// non-negative, and flipped for descending orders so that ascending key
/// order realizes the requested order.
pub open spec fn encoded_key(p: PostView, order: SortOrder) -> int {
    let base = match order {
        SortOrder::Score | SortOrder::ScoreAscending => p.score + 0x8000_0000,
        SortOrder::FavCount | SortOrder::FavCountAscending => p.fav_count as int,
        _ => 0,
    };
    if is_ascending_field(order) {
        base
    } else {
        0xFFFF_FFFF - base
    }
}

/// Computes the sort key of one post under a field order.
fn encode_key(p: &Post, order: SortOrder) -> (r: u64)
    requires
        is_field_sort(order),
    ensures
        r as int == encoded_key(p@, order),
{
    let base: u64 = match order {
        SortOrder::Score | SortOrder::ScoreAscending => (p.score as i64 + 0x8000_0000i64) as u64,
        _ => p.fav_count as u64,
    };
    match order {
        SortOrder::ScoreAscending | SortOrder::FavCountAscending => base,
        _ => 0xFFFF_FFFFu64 - base,
    }
}

/// Relies on rayon's `ParallelSliceMut::par_sort_unstable_by`: it reorders
/// the slice in place into one sorted by the comparator, here the strict
/// total order on `(key, position)` pairs, so the result is a permutation of
/// the input sorted by key with ties broken by ascending position.
#[verifier::external_body]
fn par_sort_by_key(v: &mut Vec<usize>, keys: &Vec<u64>)
    requires
        forall|k: int| 0 <= k < old(v)@.len() ==> (#[trigger] old(v)@[k]) < keys@.len(),
    ensures
        final(v)@.len() == old(v)@.len(),
        final(v)@.to_multiset() == old(v)@.to_multiset(),
        forall|a: int, b: int|
            0 <= a < b < final(v)@.len() ==> (keys@[final(v)@[a] as int] < keys@[final(v)@[b] as int]
                || (keys@[final(v)@[a] as int] == keys@[final(v)@[b] as int] && final(v)@[a]
                <= final(v)@[b])),
{
    v.par_sort_unstable_by(|x, y| (keys[*x], *x).cmp(&(keys[*y], *y)));
}

/// Relies on rand's `SliceRandom::shuffle` with `thread_rng`: a Fisher-Yates
/// pass of in-place swaps, so the result is a permutation of the input and
/// nothing more is promised of it.
#[verifier::external_body]
fn shuffle_indices(v: &mut Vec<usize>)
    ensures
        final(v)@.len() == old(v)@.len(),
        final(v)@.to_multiset() == old(v)@.to_multiset(),
{
    v.shuffle(&mut rand::thread_rng());
}

/// Reorders the position list as the sort order asks: the date orders keep
/// or reverse the list, the field orders sort it by the field with ties in
/// ascending position order, and the random order keeps exactly the same
/// positions in an unspecified order.
pub fn sort_results(results: &mut Vec<usize>, posts: &PostIndex, order: SortOrder)
    requires
        forall|k: int| 0 <= k < old(results)@.len() ==> (#[trigger] old(results)@[k]) < posts@.len(),
    ensures
        final(results)@.to_multiset() == old(results)@.to_multiset(),
        final(results)@.len() == old(results)@.len(),
        order == SortOrder::DateAscending ==> final(results)@ == old(results)@,
        order == SortOrder::Date ==> final(results)@ == old(results)@.reverse(),
        is_field_sort(order) ==> sorted_for(posts@, order, final(results)@),
{
    match order {
        SortOrder::DateAscending => {
        }
        SortOrder::Date => {
            let r = reversed(results);
            proof {
                old(results)@.lemma_reverse_to_multiset();
            }
            *results = r;
        }
        SortOrder::Random => {
            shuffle_indices(results);
        }
        SortOrder::Score | SortOrder::ScoreAscending | SortOrder::FavCount
            | SortOrder::FavCountAscending => {
            let n = posts.len();
            let mut keys: Vec<u64> = Vec::new();
            let mut i: usize = 0;
            while i < n
                invariant
                    0 <= i <= n == posts@.len(),
                    is_field_sort(order),
                    keys@.len() == i,
                    forall|j: int| 0 <= j < i ==> (#[trigger] keys@[j]) as int == encoded_key(
                        posts@[j],
                        order,
                    ),
                decreases n - i,
            {
                keys.push(encode_key(posts.get(i), order));
                i = i + 1;
            }
            par_sort_by_key(results, &keys);
            proof {
                assert forall|k: int, l: int|
                    0 <= k < l < results@.len() implies ordered_pair(
                    posts@,
                    order,
                    results@[k],
                    results@[l],
                ) by {
                    let a = results@[k];
                    let b = results@[l];
                    assert(results@.contains(a));
                    assert(results@.contains(b));
                    assert(results@.to_multiset().count(a) == old(results)@.to_multiset().count(a));
                    assert(results@.to_multiset().count(b) == old(results)@.to_multiset().count(b));
                    assert(old(results)@.contains(a));
                    assert(old(results)@.contains(b));
                    let ka = choose|ka: int| 0 <= ka < old(results)@.len() && old(results)@[ka] == a;
                    let kb = choose|kb: int| 0 <= kb < old(results)@.len() && old(results)@[kb] == b;
                    assert(old(results)@[ka] < posts@.len());
                    assert(old(results)@[kb] < posts@.len());
                    assert((a as int) < posts@.len());
                    assert((b as int) < posts@.len());
                    assert(keys@[a as int] as int == encoded_key(posts@[a as int], order));
                    assert(keys@[b as int] as int == encoded_key(posts@[b as int], order));
                }
            }
        }
    }
}

/// Runs one whole search pass: filter the post index by the query, then
/// order the matching positions as the sort order asks. The result holds
/// exactly the positions of the posts the query accepts.
pub fn run_search(posts: &PostIndex, q: &Query, order: SortOrder) -> (r: Vec<usize>)
    ensures
        r@.to_multiset() == matching(posts@, *q).to_multiset(),
        r@.len() == matching(posts@, *q).len(),
        forall|x: usize|
            #[trigger] r@.contains(x) <==> ((x as int) < posts@.len() && validates(
                *q,
                posts@[x as int],
            )),
        forall|k: int| 0 <= k < r@.len() ==> (#[trigger] r@[k]) < posts@.len(),
        order == SortOrder::DateAscending ==> r@ == matching(posts@, *q),
        order == SortOrder::Date ==> r@ == matching(posts@, *q).reverse(),
        is_field_sort(order) ==> sorted_for(posts@, order, r@),
{
    let total = posts.len();
    let mut results = filter_posts(posts, q);
    proof {
        assert(posts@.len() == total);
        lemma_matching_membership(posts@, *q, posts@.len() as int);
        assert(forall|k: int|
            0 <= k < results@.len() ==> (#[trigger] results@[k]) < posts@.len()) by {
            assert(forall|k: int|
                0 <= k < results@.len() ==> results@.contains(#[trigger] results@[k]));
        }
    }
    sort_results(&mut results, posts, order);
    proof {
        let m = matching(posts@, *q);
        assert forall|x: usize| #[trigger] results@.contains(x) <==> ((x as int) < posts@.len()
            && validates(*q, posts@[x as int])) by {
            assert(results@.to_multiset().count(x) == m.to_multiset().count(x));
            assert(results@.contains(x) <==> m.contains(x));
        }
        assert(forall|k: int|
            0 <= k < results@.len() ==> (#[trigger] results@[k]) < posts@.len()) by {
            assert(forall|k: int|
                0 <= k < results@.len() ==> results@.contains(#[trigger] results@[k]));
        }
    }
    results
}

} // verus!
