//! The order of texts, and lists in that order.

use vstd::prelude::*;
use vstd::relations::{sorted_by, total_ordering};

use crate::text::chars::to_chars;

verus! {

/// `a` comes before `b` or is the same, by the code points of their characters.
pub open spec fn not_after(a: Seq<char>, b: Seq<char>) -> bool
    decreases a.len(),
{
    if a.len() == 0 {
        true
    } else if b.len() == 0 {
        false
    } else if a[0] != b[0] {
        a[0] < b[0]
    } else {
        not_after(a.skip(1), b.skip(1))
    }
}

/// Whether `a` comes before `b` or is the same.
pub fn is_not_after(a: &str, b: &str) -> (r: bool)
    ensures
        r == not_after(a@, b@),
{
    let x = to_chars(a);
    let y = to_chars(b);
    let mut i: usize = 0;
    assert(x@.skip(0) =~= x@);
    assert(y@.skip(0) =~= y@);
    while i < x.len() && i < y.len()
        invariant
            x@ == a@,
            y@ == b@,
            i <= x@.len(),
            i <= y@.len(),
            not_after(a@, b@) == not_after(x@.skip(i as int), y@.skip(i as int)),
        decreases x@.len() - i,
    {
        if x[i] != y[i] {
            return x[i] < y[i];
        }
        assert(x@.skip(i as int).skip(1) =~= x@.skip(i + 1));
        assert(y@.skip(i as int).skip(1) =~= y@.skip(i + 1));
        i += 1;
    }
    i == x.len()
}

/// The order is total.
pub proof fn lemma_order(a: Seq<char>, b: Seq<char>, c: Seq<char>)
    ensures
        not_after(a, a),
        not_after(a, b) || not_after(b, a),
        not_after(a, b) && not_after(b, a) ==> a == b,
        not_after(a, b) && not_after(b, c) ==> not_after(a, c),
    decreases a.len() + b.len() + c.len(),
{
    if a.len() > 0 && b.len() > 0 && c.len() > 0 {
        lemma_order(a.skip(1), b.skip(1), c.skip(1));
        if a[0] == b[0] && a.skip(1) == b.skip(1) {
            assert(a =~= seq![a[0]] + a.skip(1));
            assert(b =~= seq![b[0]] + b.skip(1));
        }
    } else if a.len() > 0 && b.len() > 0 {
        lemma_order(a.skip(1), b.skip(1), c);
        if a[0] == b[0] && a.skip(1) == b.skip(1) {
            assert(a =~= seq![a[0]] + a.skip(1));
            assert(b =~= seq![b[0]] + b.skip(1));
        }
    } else if a.len() > 0 {
        lemma_order(a.skip(1), b, c);
    } else if b.len() == 0 {
        assert(a =~= b);
    }
}

/// A pair of texts: a key and its value.
pub type Pair = (Seq<char>, Seq<char>);

/// The pairs with one more put behind every pair whose key does not come after its own.
pub open spec fn with_pair(s: Seq<Pair>, p: Pair) -> Seq<Pair>
    decreases s.len(),
{
    if s.len() == 0 || not_after(s.last().0, p.0) {
        s.push(p)
    } else {
        with_pair(s.drop_last(), p).push(s.last())
    }
}

/// The pairs in the order of their keys; of equal keys, the one that came
/// first stays first.
pub open spec fn by_key(s: Seq<Pair>) -> Seq<Pair>
    decreases s.len(),
{
    if s.len() == 0 {
        seq![]
    } else {
        with_pair(by_key(s.drop_last()), s.last())
    }
}

/// The views of a list of pairs.
pub open spec fn pairs(v: Seq<(&str, &str)>) -> Seq<Pair> {
    Seq::new(v.len(), |i: int| (v[i].0@, v[i].1@))
}

/// Puts a pair behind every pair whose key does not come after its own.
fn insert_pair<'a>(v: &mut Vec<(&'a str, &'a str)>, p: (&'a str, &'a str))
    ensures
        pairs(final(v)@) == with_pair(pairs(old(v)@), (p.0@, p.1@)),
{
    let ghost all = pairs(v@);
    let ghost q = (p.0@, p.1@);
    let mut i: usize = v.len();
    assert(all.take(i as int) =~= all);
    assert(with_pair(all.take(i as int), q) + all.skip(i as int) =~= with_pair(all, q));
    while i > 0 && !is_not_after(v[i - 1].0, p.0)
        invariant
            i <= v@.len(),
            all == pairs(v@),
            q == (p.0@, p.1@),
            with_pair(all.take(i as int), q) + all.skip(i as int) == with_pair(all, q),
        decreases i,
    {
        proof {
            let t = all.take(i as int);
            assert(t.last() == all[i - 1]);
            assert(t.drop_last() =~= all.take(i - 1));
            assert(with_pair(t, q) + all.skip(i as int) =~= with_pair(all.take(i - 1), q)
                + all.skip(i - 1));
        }
        i -= 1;
    }
    proof {
        let t = all.take(i as int);
        assert(i > 0 ==> t.last() == all[i - 1]);
        assert(with_pair(t, q) == t.push(q));
        assert(with_pair(all, q) =~= all.insert(i as int, q));
    }
    v.insert(i, p);
    assert(pairs(v@) =~= all.insert(i as int, q));
}

/// The pairs in the order of their keys.
pub fn sort_by_key<'a>(s: &[(&'a str, &'a str)]) -> (r: Vec<(&'a str, &'a str)>)
    ensures
        pairs(r@) == by_key(pairs(s@)),
{
    let mut out: Vec<(&'a str, &'a str)> = Vec::new();
    assert(pairs(out@) =~= by_key(pairs(s@).take(0)));
    for i in 0..s.len()
        invariant
            pairs(out@) == by_key(pairs(s@).take(i as int)),
    {
        let ghost now = pairs(s@).take(i + 1);
        assert(now.drop_last() =~= pairs(s@).take(i as int));
        assert(now.last() == (s@[i as int].0@, s@[i as int].1@));
        insert_pair(&mut out, s[i]);
    }
    assert(pairs(s@).take(s@.len() as int) =~= pairs(s@));
    out
}

/// The order of pairs: by key, and by value where the keys are the same.
pub open spec fn pair_order() -> spec_fn(Pair, Pair) -> bool {
    |a: Pair, b: Pair|
        if a.0 == b.0 {
            not_after(a.1, b.1)
        } else {
            not_after(a.0, b.0)
        }
}

/// The order of pairs is total.
proof fn lemma_pair_order()
    ensures
        total_ordering(pair_order()),
{
    let r = pair_order();
    assert forall|x: Pair| #[trigger] r(x, x) by {
        lemma_order(x.1, x.1, x.1);
    }
    assert forall|x: Pair, y: Pair| #[trigger] r(x, y) && #[trigger] r(y, x) implies x == y by {
        lemma_order(x.0, y.0, y.0);
        lemma_order(x.1, y.1, y.1);
    }
    assert forall|x: Pair, y: Pair, z: Pair| #[trigger] r(x, y) && #[trigger] r(y, z) implies r(
        x,
        z,
    ) by {
        lemma_order(x.0, y.0, z.0);
        lemma_order(x.1, y.1, z.1);
        lemma_order(x.0, y.0, y.0);
        lemma_order(y.0, z.0, z.0);
    }
    assert forall|x: Pair, y: Pair| #[trigger] r(x, y) || #[trigger] r(y, x) by {
        lemma_order(x.0, y.0, y.0);
        lemma_order(x.1, y.1, y.1);
    }
}

/// No key occurs twice.
pub open spec fn distinct_keys(s: Seq<Pair>) -> bool {
    forall|i: int, j: int| 0 <= i < j < s.len() ==> (#[trigger] s[i]).0 != (#[trigger] s[j]).0
}

/// Putting in a pair keeps the list in order and adds that pair alone.
proof fn lemma_with_pair(s: Seq<Pair>, p: Pair)
    requires
        forall|i: int, j: int| 0 <= i < j < s.len() ==> not_after(#[trigger] s[i].0, #[trigger] s[j].0),
    ensures
        ({
            let t = with_pair(s, p);
            &&& forall|i: int, j: int|
                0 <= i < j < t.len() ==> not_after(#[trigger] t[i].0, #[trigger] t[j].0)
            &&& t.to_multiset() == s.to_multiset().insert(p)
            &&& t.len() == s.len() + 1
        }),
    decreases s.len(),
{
    broadcast use vstd::seq_lib::group_to_multiset_ensures;

    let t = with_pair(s, p);
    if s.len() == 0 || not_after(s.last().0, p.0) {
        assert forall|i: int, j: int| 0 <= i < j < t.len() implies not_after(
            #[trigger] t[i].0,
            #[trigger] t[j].0,
        ) by {
            if j == s.len() {
                lemma_order(s[i].0, s.last().0, p.0);
            }
        }
    } else {
        let d = s.drop_last();
        lemma_with_pair(d, p);
        let u = with_pair(d, p);
        lemma_order(s.last().0, p.0, p.0);
        assert(d.push(s.last()) =~= s);
        assert(t.to_multiset() =~= s.to_multiset().insert(p));
        assert forall|i: int, j: int| 0 <= i < j < t.len() implies not_after(
            #[trigger] t[i].0,
            #[trigger] t[j].0,
        ) by {
            if j == u.len() {
                let x = u[i];
                assert(u.contains(x));
                assert(u.to_multiset().contains(x));
                if x != p {
                    assert(d.to_multiset().contains(x));
                    assert(d.contains(x));
                    let k = choose|k: int| 0 <= k < d.len() && d[k] == x;
                    assert(s[k] == x);
                    assert(not_after(s[k].0, s[s.len() - 1].0));
                }
            }
        }
    }
}

/// The list by key is in order and holds the same pairs.
pub proof fn sorted_list_is_in_order(s: Seq<Pair>)
    ensures
        forall|i: int, j: int|
            0 <= i < j < by_key(s).len() ==> not_after(
                #[trigger] by_key(s)[i].0,
                #[trigger] by_key(s)[j].0,
            ),
        by_key(s).to_multiset() == s.to_multiset(),
        by_key(s).len() == s.len(),
    decreases s.len(),
{
    broadcast use vstd::seq_lib::group_to_multiset_ensures;

    if s.len() > 0 {
        sorted_list_is_in_order(s.drop_last());
        lemma_with_pair(by_key(s.drop_last()), s.last());
        assert(s.drop_last().push(s.last()) =~= s);
    } else {
        assert(by_key(s) =~= s);
    }
}

/// Where no key occurs twice, the list by key does not depend on the order
/// that the pairs were in.
pub proof fn order_of_pairs_does_not_matter(a: Seq<Pair>, b: Seq<Pair>)
    requires
        distinct_keys(a),
        a.to_multiset() == b.to_multiset(),
    ensures
        by_key(a) == by_key(b),
{
    broadcast use vstd::seq_lib::group_to_multiset_ensures;

    sorted_list_is_in_order(a);
    sorted_list_is_in_order(b);
    lemma_pair_order();
    let (x, y) = (by_key(a), by_key(b));
    lemma_in_pair_order(x, a);
    assert(y.to_multiset() == a.to_multiset());
    lemma_in_pair_order(y, a);
    vstd::seq_lib::lemma_sorted_unique(x, y, pair_order());
}

/// A list in the order of its keys, with the pairs of a list without double
/// keys, is in the order of pairs.
proof fn lemma_in_pair_order(x: Seq<Pair>, a: Seq<Pair>)
    requires
        distinct_keys(a),
        x.to_multiset() == a.to_multiset(),
        forall|i: int, j: int| 0 <= i < j < x.len() ==> not_after(#[trigger] x[i].0, #[trigger] x[j].0),
    ensures
        sorted_by(x, pair_order()),
{
    broadcast use vstd::seq_lib::group_to_multiset_ensures;

    assert forall|i: int, j: int| 0 <= i < j < x.len() implies #[trigger] pair_order()(
        x[i],
        x[j],
    ) by {
        if x[i].0 == x[j].0 {
            lemma_order(x[i].1, x[i].1, x[i].1);
            if x[i] != x[j] {
                assert(x.contains(x[i]) && x.contains(x[j]));
                assert(a.to_multiset().contains(x[i]) && a.to_multiset().contains(x[j]));
                assert(a.contains(x[i]) && a.contains(x[j]));
                let k = choose|k: int| 0 <= k < a.len() && a[k] == x[i];
                let l = choose|l: int| 0 <= l < a.len() && a[l] == x[j];
                assert(k != l);
                if k < l {
                    assert(a[k].0 != a[l].0);
                } else {
                    assert(a[l].0 != a[k].0);
                }
            }
        }
    }
}

/// A text comes before those that it begins, and the first character in which
/// two texts differ decides between them.
pub proof fn first_difference_decides(a: Seq<char>, b: Seq<char>, c: Seq<char>)
    ensures
        not_after(a, a + b),
        b.len() > 0 ==> !not_after(a + b, a),
        b.len() > 0 && c.len() > 0 && b[0] != c[0] ==> (not_after(a + b, a + c) <==> b[0]
            < c[0]),
    decreases a.len(),
{
    if a.len() > 0 {
        let t = a.skip(1);
        assert((a + b).skip(1) =~= t + b);
        assert((a + c).skip(1) =~= t + c);
        first_difference_decides(t, b, c);
    } else {
        assert(a + b =~= b);
        assert(a + c =~= c);
    }
}

/// Of equal keys, the one that came first stays first.
pub proof fn equal_keys_keep_their_order(k: Seq<char>, x: Seq<char>, y: Seq<char>)
    ensures
        by_key(seq![(k, x), (k, y)]) == seq![(k, x), (k, y)],
{
    let s: Seq<Pair> = seq![(k, x), (k, y)];
    lemma_order(k, k, k);
    reveal_with_fuel(by_key, 3);
    assert(s.drop_last() =~= seq![(k, x)]);
    assert(s.drop_last().drop_last() =~= seq![]);
    assert(by_key(s) =~= s);
}

} // verus!
