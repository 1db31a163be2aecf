//! Cutting a text by the bytes that it takes in UTF-8.

use vstd::prelude::*;
use vstd::utf8::encode_utf8;

use crate::text::chars::{byte_len, skip_to, take_to};

verus! {

/// The characters of `s` that take its first `n` bytes; none where `s` has
/// fewer bytes, or where the cut would go through a character.
pub open spec fn byte_prefix(s: Seq<char>, n: nat) -> Option<Seq<char>>
    decreases s.len(),
{
    if n == 0 {
        Some(seq![])
    } else if s.len() == 0 || encode_utf8(seq![s[0]]).len() > n {
        None
    } else {
        match byte_prefix(s.skip(1), (n - encode_utf8(seq![s[0]]).len()) as nat) {
            Some(t) => Some(seq![s[0]] + t),
            None => None,
        }
    }
}

/// The characters of `s` that take its first `n` bytes.
pub fn prefix_of_bytes<'a>(s: &'a [char], n: usize) -> (r: Option<&'a [char]>)
    ensures
        match r {
            Some(t) => byte_prefix(s@, n as nat) == Some(t@),
            None => byte_prefix(s@, n as nat) is None,
        },
{
    let mut i: usize = 0;
    let mut left: usize = n;
    assert(s@.skip(0) =~= s@);
    assert(s@.take(0) =~= seq![]);
    proof {
        if let Some(t) = byte_prefix(s@, n as nat) {
            assert(s@.take(0) + t =~= t);
        }
    }
    while left > 0
        invariant
            i <= s@.len(),
            byte_prefix(s@, n as nat) == match byte_prefix(s@.skip(i as int), left as nat) {
                Some(t) => Some(s@.take(i as int) + t),
                None => None,
            },
        decreases left,
    {
        if i == s.len() {
            return None;
        }
        let ghost rest = s@.skip(i as int);
        let one = take_to(skip_to(s, i), 1);
        let w: usize = byte_len(one);
        assert(one@ =~= seq![rest[0]]);
        if w > left {
            return None;
        }
        proof {
            vstd::utf8::encode_utf8_first_scalar(one@);
            assert(w > 0);
            assert(rest.skip(1) =~= s@.skip(i + 1));
            if let Some(t) = byte_prefix(s@.skip(i + 1), (left - w) as nat) {
                assert(s@.take(i as int) + (seq![rest[0]] + t) =~= s@.take(i + 1) + t);
            }
        }
        left = left - w;
        i += 1;
    }
    assert(s@.take(i as int) + Seq::<char>::empty() =~= s@.take(i as int));
    Some(take_to(s, i))
}

/// What is cut off stands at the head of the text and takes as many bytes as
/// were asked for; where nothing is cut off, no head of the text does.
pub proof fn prefix_takes_the_bytes(s: Seq<char>, n: nat, k: int)
    requires
        0 <= k <= s.len(),
    ensures
        byte_prefix(s, n) matches Some(t) ==> t.len() <= s.len() && t == s.take(t.len() as int)
            && encode_utf8(t).len() == n,
        encode_utf8(s.take(k)).len() == n ==> byte_prefix(s, n) is Some,
    decreases s.len(),
{
    lemma_first_bytes(s.take(k));
    if n > 0 && s.len() > 0 {
        let first = encode_utf8(seq![s[0]]).len();
        lemma_first_bytes(s.take(1));
        let rest = s.skip(1);
        if k > 0 {
            assert(s.take(k).skip(1) =~= rest.take(k - 1));
            assert(s.take(k)[0] == s[0]);
            if first <= n {
                prefix_takes_the_bytes(rest, (n - first) as nat, k - 1);
            }
        } else if first <= n {
            prefix_takes_the_bytes(rest, (n - first) as nat, 0);
        }
        if first <= n {
            if let Some(t) = byte_prefix(rest, (n - first) as nat) {
                let whole = seq![s[0]] + t;
                assert(whole =~= s.take(whole.len() as int));
                assert(whole.skip(1) =~= t);
                lemma_first_bytes(whole);
            }
        }
    }
}

/// The bytes of a text are those of its first character and those of the rest.
proof fn lemma_first_bytes(s: Seq<char>)
    ensures
        s.len() == 0 ==> encode_utf8(s).len() == 0,
        s.len() > 0 ==> encode_utf8(s).len() == encode_utf8(seq![s[0]]).len() + encode_utf8(
            s.skip(1),
        ).len(),
{
    if s.len() > 0 {
        let one = seq![s[0]];
        assert(one.drop_first() =~= seq![]);
        assert(encode_utf8(one.drop_first()) =~= seq![]);
        assert(s.drop_first() =~= s.skip(1));
    }
}

} // verus!
