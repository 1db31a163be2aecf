//! Lists made from lists.

use vstd::prelude::*;

verus! {

/// What `f` makes of the items of `s`, in order, without the items of which
/// it makes nothing.
pub open spec fn collect_some<A, B>(s: Seq<A>, f: spec_fn(A) -> Option<B>) -> Seq<B>
    decreases s.len(),
{
    if s.len() == 0 {
        seq![]
    } else {
        let head = collect_some(s.drop_last(), f);
        match f(s.last()) {
            Some(b) => head.push(b),
            None => head,
        }
    }
}

/// One more item adds at most one to what was collected.
pub proof fn lemma_collect_step<A, B>(s: Seq<A>, f: spec_fn(A) -> Option<B>, i: int)
    requires
        0 <= i < s.len(),
    ensures
        collect_some(s.take(i + 1), f) == match f(s[i]) {
            Some(b) => collect_some(s.take(i), f).push(b),
            None => collect_some(s.take(i), f),
        },
{
    let t = s.take(i + 1);
    assert(t.drop_last() =~= s.take(i));
    assert(t.last() == s[i]);
}

/// Everything that was collected was made of some item.
pub proof fn lemma_collect_from<A, B>(s: Seq<A>, f: spec_fn(A) -> Option<B>, k: int)
    requires
        0 <= k < collect_some(s, f).len(),
    ensures
        exists|j: int| 0 <= j < s.len() && f(#[trigger] s[j]) == Some(collect_some(s, f)[k]),
    decreases s.len(),
{
    if s.len() > 0 {
        let d = s.drop_last();
        let head = collect_some(d, f);
        if k < head.len() {
            lemma_collect_from(d, f, k);
            let j = choose|j: int| 0 <= j < d.len() && f(#[trigger] d[j]) == Some(head[k]);
            assert(s[j] == d[j]);
            assert(collect_some(s, f)[k] == head[k]);
        } else {
            let j = s.len() - 1;
            assert(f(s[j]) == Some(collect_some(s, f)[k]));
        }
    }
}

/// What is collected is no longer than what it was collected from.
pub proof fn lemma_collect_len<A, B>(s: Seq<A>, f: spec_fn(A) -> Option<B>)
    ensures
        collect_some(s, f).len() <= s.len(),
    decreases s.len(),
{
    if s.len() > 0 {
        lemma_collect_len(s.drop_last(), f);
    }
}

/// What `f` makes of the first item of `s` of which it makes something.
pub open spec fn first_some<A, B>(s: Seq<A>, f: spec_fn(A) -> Option<B>) -> Option<B>
    decreases s.len(),
{
    if s.len() == 0 {
        None
    } else {
        match f(s[0]) {
            Some(b) => Some(b),
            None => first_some(s.skip(1), f),
        }
    }
}

/// An item of which `f` makes nothing can be passed over.
pub proof fn lemma_first_step<A, B>(s: Seq<A>, f: spec_fn(A) -> Option<B>, i: int)
    requires
        0 <= i < s.len(),
    ensures
        first_some(s.skip(i), f) == match f(s[i]) {
            Some(b) => Some(b),
            None => first_some(s.skip(i + 1), f),
        },
{
    assert(s.skip(i).skip(1) =~= s.skip(i + 1));
}

/// What comes first was made of some item.
pub proof fn lemma_first_from<A, B>(s: Seq<A>, f: spec_fn(A) -> Option<B>)
    requires
        first_some(s, f) is Some,
    ensures
        exists|j: int| 0 <= j < s.len() && f(#[trigger] s[j]) == first_some(s, f),
    decreases s.len(),
{
    if s.len() > 0 {
        if f(s[0]) is None {
            let t = s.skip(1);
            lemma_first_from(t, f);
            let j = choose|j: int| 0 <= j < t.len() && f(#[trigger] t[j]) == first_some(t, f);
            assert(s[j + 1] == t[j]);
        }
    }
}

/// What `f` makes of the last item of `s` of which it makes something.
pub open spec fn last_some<A, B>(s: Seq<A>, f: spec_fn(A) -> Option<B>) -> Option<B>
    decreases s.len(),
{
    if s.len() == 0 {
        None
    } else {
        match f(s.last()) {
            Some(b) => Some(b),
            None => last_some(s.drop_last(), f),
        }
    }
}

/// An item of which `f` makes nothing can be left off at the end.
pub proof fn lemma_last_step<A, B>(s: Seq<A>, f: spec_fn(A) -> Option<B>, i: int)
    requires
        0 < i <= s.len(),
    ensures
        last_some(s.take(i), f) == match f(s[i - 1]) {
            Some(b) => Some(b),
            None => last_some(s.take(i - 1), f),
        },
{
    assert(s.take(i).drop_last() =~= s.take(i - 1));
    assert(s.take(i).last() == s[i - 1]);
}

/// The first `limit` items of `s`; all of them where the limit is zero.
pub open spec fn limited<A>(s: Seq<A>, limit: u32) -> Seq<A> {
    if limit > 0 && s.len() > limit {
        s.take(limit as int)
    } else {
        s
    }
}

/// The positions `at` lead, in order, to the items of which `f` makes `out`,
/// and to every item of which it makes something.
pub open spec fn leads<A, B>(
    s: Seq<A>,
    f: spec_fn(A) -> Option<B>,
    out: Seq<B>,
    at: Seq<int>,
) -> bool {
    &&& at.len() == out.len()
    &&& forall|k: int|
        0 <= k < at.len() ==> 0 <= #[trigger] at[k] < s.len() && f(s[at[k]]) == Some(out[k])
    &&& forall|j: int, k: int| 0 <= j < k < at.len() ==> #[trigger] at[j] < #[trigger] at[k]
    &&& forall|i: int| 0 <= i < s.len() && f(#[trigger] s[i]) is Some ==> at.contains(i)
}

/// `out` is what `f` makes of the items of `s`: nothing is lost, nothing is
/// added, and the order is kept.
pub open spec fn picks<A, B>(s: Seq<A>, f: spec_fn(A) -> Option<B>, out: Seq<B>) -> bool {
    exists|at: Seq<int>| leads(s, f, out, at)
}

/// What is collected holds everything that `f` makes, once and in order, and
/// nothing else.
pub proof fn collected_is_picked<A, B>(s: Seq<A>, f: spec_fn(A) -> Option<B>)
    ensures
        picks(s, f, collect_some(s, f)),
    decreases s.len(),
{
    if s.len() == 0 {
        assert(leads(s, f, collect_some(s, f), seq![]));
    } else {
        let d = s.drop_last();
        collected_is_picked(d, f);
        let at = choose|at: Seq<int>| leads(d, f, collect_some(d, f), at);
        let last = s.len() - 1;
        let now = if f(s.last()) is Some {
            at.push(last)
        } else {
            at
        };
        assert forall|i: int| 0 <= i < s.len() && f(#[trigger] s[i]) is Some implies now.contains(
            i,
        ) by {
            if i < last {
                assert(d[i] == s[i]);
                let k = choose|k: int| 0 <= k < at.len() && at[k] == i;
                assert(now[k] == i);
            } else {
                assert(now[now.len() - 1] == i);
            }
        }
        assert forall|k: int| 0 <= k < now.len() implies 0 <= #[trigger] now[k] < s.len() && f(
            s[now[k]],
        ) == Some(collect_some(s, f)[k]) by {
            if k < at.len() {
                assert(now[k] == at[k]);
                assert(d[at[k]] == s[at[k]]);
            }
        }
        assert forall|j: int, k: int| 0 <= j < k < now.len() implies #[trigger] now[j]
            < #[trigger] now[k] by {
            assert(now[j] == at[j]);
            if k < at.len() {
                assert(now[k] == at[k]);
            }
        }
        assert(leads(s, f, collect_some(s, f), now));
    }
}

/// What comes first comes of the first item of which `f` makes something, and
/// nothing comes only where it makes nothing of any.
pub proof fn first_is_first<A, B>(s: Seq<A>, f: spec_fn(A) -> Option<B>)
    ensures
        match first_some(s, f) {
            Some(b) => exists|j: int|
                0 <= j < s.len() && f(#[trigger] s[j]) == Some(b) && forall|i: int|
                    0 <= i < j ==> f(#[trigger] s[i]) is None,
            None => forall|i: int| 0 <= i < s.len() ==> f(#[trigger] s[i]) is None,
        },
    decreases s.len(),
{
    if s.len() > 0 && f(s[0]) is None {
        let t = s.skip(1);
        first_is_first(t, f);
        match first_some(t, f) {
            Some(b) => {
                let j = choose|j: int|
                    0 <= j < t.len() && f(#[trigger] t[j]) == Some(b) && forall|i: int|
                        0 <= i < j ==> f(#[trigger] t[i]) is None;
                assert(s[j + 1] == t[j]);
                assert forall|i: int| 0 <= i < j + 1 implies f(#[trigger] s[i]) is None by {
                    if i > 0 {
                        assert(s[i] == t[i - 1]);
                    }
                }
            },
            None => {
                assert forall|i: int| 0 <= i < s.len() implies f(#[trigger] s[i]) is None by {
                    if i > 0 {
                        assert(s[i] == t[i - 1]);
                    }
                }
            },
        }
    }
}

/// What comes last comes of the last item of which `f` makes something, and
/// nothing comes only where it makes nothing of any.
pub proof fn last_is_last<A, B>(s: Seq<A>, f: spec_fn(A) -> Option<B>)
    ensures
        match last_some(s, f) {
            Some(b) => exists|j: int|
                0 <= j < s.len() && f(#[trigger] s[j]) == Some(b) && forall|i: int|
                    j < i < s.len() ==> f(#[trigger] s[i]) is None,
            None => forall|i: int| 0 <= i < s.len() ==> f(#[trigger] s[i]) is None,
        },
    decreases s.len(),
{
    if s.len() > 0 {
        let d = s.drop_last();
        let last = s.len() - 1;
        if f(s[last]) is None {
            last_is_last(d, f);
            match last_some(d, f) {
                Some(b) => {
                    let j = choose|j: int|
                        0 <= j < d.len() && f(#[trigger] d[j]) == Some(b) && forall|i: int|
                            j < i < d.len() ==> f(#[trigger] d[i]) is None;
                    assert(s[j] == d[j]);
                    assert forall|i: int| j < i < s.len() implies f(#[trigger] s[i]) is None by {
                        if i < last {
                            assert(s[i] == d[i]);
                        }
                    }
                },
                None => {
                    assert forall|i: int| 0 <= i < s.len() implies f(#[trigger] s[i]) is None by {
                        if i < last {
                            assert(s[i] == d[i]);
                        }
                    }
                },
            }
        } else {
            assert(f(s[last]) == last_some(s, f));
        }
    }
}

/// A limit leaves the head of a list: as many items as it allows and as there
/// are. A limit of zero leaves them all.
pub proof fn limit_leaves_the_head<A>(s: Seq<A>, limit: u32)
    ensures
        limit == 0 ==> limited(s, limit) == s,
        0 < limit <= s.len() ==> limited(s, limit).len() == limit,
        s.len() <= limit ==> limited(s, limit) == s,
        forall|i: int| 0 <= i < limited(s, limit).len() ==> limited(s, limit)[i] == s[i],
{
}

} // verus!
