//! Splitting text on a separator character.
//!
//! The input files are line-oriented and tab-delimited, so both layers of
//! the format reduce to splitting a character sequence on one separator.

use vstd::prelude::*;

verus! {

/// The segments of `s` between occurrences of the separator `d`, in order.
/// A sequence with no separator yields one segment; each separator starts a
/// new (possibly empty) segment, so `n` separators yield `n + 1` segments.
pub open spec fn split_on(s: Seq<char>, d: char) -> Seq<Seq<char>>
    decreases s.len(),
{
    if s.len() == 0 {
        seq![Seq::<char>::empty()]
    } else if s[0] == d {
        seq![Seq::<char>::empty()] + split_on(s.skip(1), d)
    } else {
        let rest = split_on(s.skip(1), d);
        seq![seq![s[0]] + rest[0]] + rest.skip(1)
    }
}

pub proof fn lemma_split_on_nonempty(s: Seq<char>, d: char)
    ensures
        split_on(s, d).len() >= 1,
    decreases s.len(),
{
    if s.len() != 0 && s[0] != d {
        lemma_split_on_nonempty(s.skip(1), d);
    }
}

/// Splitting a sequence whose first separator stands at `k` (or that holds
/// none, when `k == s.len()`) yields the prefix before `k` as the first
/// segment, followed by the segments of what stands after the separator.
pub proof fn lemma_split_on_first(s: Seq<char>, d: char, k: int)
    requires
        0 <= k <= s.len(),
        forall|i: int| 0 <= i < k ==> s[i] != d,
        k == s.len() || s[k] == d,
    ensures
        k == s.len() ==> split_on(s, d) =~= seq![s],
        k < s.len() ==> split_on(s, d) =~= seq![s.take(k)] + split_on(s.skip(k + 1), d),
    decreases k,
{
    if k == 0 {
        if s.len() == 0 {
            assert(s =~= Seq::<char>::empty());
            assert(split_on(s, d) =~= seq![s]);
        } else {
            assert(s[0] == d);
            assert(s.take(0) =~= Seq::<char>::empty());
        }
    } else {
        assert(s[0] != d);
        let t = s.skip(1);
        lemma_split_on_first(t, d, k - 1);
        let rest = split_on(t, d);
        lemma_split_on_nonempty(t, d);
        if k == s.len() {
            assert(rest =~= seq![t]);
            assert(seq![s[0]] + rest[0] =~= s);
            assert(split_on(s, d) =~= seq![s]);
        } else {
            assert(rest =~= seq![t.take(k - 1)] + split_on(t.skip(k), d));
            assert(seq![s[0]] + rest[0] =~= s.take(k));
            assert(t.skip(k) =~= s.skip(k + 1));
            assert(rest.skip(1) =~= split_on(s.skip(k + 1), d));
            assert(split_on(s, d) =~= seq![s.take(k)] + split_on(s.skip(k + 1), d));
        }
    }
}

/// Splits `s` on the separator `d`, returning every segment in order.
pub fn split_str(s: &str, d: char) -> (parts: Vec<String>)
    ensures
        parts@.len() == split_on(s@, d).len(),
        forall|i: int| 0 <= i < parts@.len() ==> parts@[i]@ == split_on(s@, d)[i],
{
    let n = s.unicode_len();
    let mut parts: Vec<String> = Vec::new();
    let mut start: usize = 0;
    let mut i: usize = 0;
    proof {
        assert(s@.skip(0) =~= s@);
    }
    while i < n
        invariant
            n == s@.len(),
            0 <= start <= i <= n,
            forall|j: int| start <= j < i ==> s@[j] != d,
            split_on(s@, d).len() == parts@.len() + split_on(s@.skip(start as int), d).len(),
            forall|j: int| 0 <= j < parts@.len() ==> parts@[j]@ == split_on(s@, d)[j],
            forall|j: int|
                0 <= j < split_on(s@.skip(start as int), d).len() ==> split_on(
                    s@.skip(start as int),
                    d,
                )[j] == split_on(s@, d)[parts@.len() + j],
        decreases n - i,
    {
        if s.get_char(i) == d {
            let ghost tail = s@.skip(start as int);
            let ghost k = i - start;
            let ghost len0 = parts@.len() as int;
            let piece = s.substring_char(start, i);
            proof {
                assert(forall|j: int| 0 <= j < k ==> tail[j] != d);
                assert(tail[k] == d);
                lemma_split_on_first(tail, d, k);
                assert(tail.take(k) =~= s@.subrange(start as int, i as int));
                assert(tail.skip(k + 1) =~= s@.skip(i + 1));
                assert(split_on(tail, d) == seq![tail.take(k)] + split_on(s@.skip(i + 1), d));
            }
            parts.push(String::from_str(piece));
            start = i + 1;
            proof {
                assert(parts@[len0]@ == split_on(tail, d)[0]);
                assert(parts@[len0]@ == split_on(s@, d)[len0]);
                assert(forall|j: int|
                    0 <= j < split_on(s@.skip(start as int), d).len() ==> split_on(
                        s@.skip(start as int),
                        d,
                    )[j] == split_on(tail, d)[1 + j]);
            }
        }
        i = i + 1;
    }
    let ghost tail = s@.skip(start as int);
    let ghost len0 = parts@.len() as int;
    let piece = s.substring_char(start, n);
    proof {
        assert(forall|j: int| 0 <= j < tail.len() ==> tail[j] != d);
        lemma_split_on_first(tail, d, tail.len() as int);
        assert(tail =~= s@.subrange(start as int, n as int));
        assert(split_on(tail, d) == seq![tail]);
    }
    parts.push(String::from_str(piece));
    proof {
        assert(parts@[len0]@ == split_on(tail, d)[0]);
        assert(parts@[len0]@ == split_on(s@, d)[len0]);
    }
    parts
}

} // verus!
