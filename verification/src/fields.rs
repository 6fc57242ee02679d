//! Text cut into fields at a separator character.

use vstd::prelude::*;

verus! {

/// Whether `c` occurs nowhere in `s`.
pub open spec fn free_of(s: Seq<char>, c: char) -> bool {
    forall|i: int| 0 <= i < s.len() ==> #[trigger] s[i] != c
}

/// The length of the longest prefix of `s` that is free of `sep`.
pub open spec fn until(s: Seq<char>, sep: char) -> nat
    decreases s.len(),
{
    if s.len() == 0 || s[0] == sep {
        0
    } else {
        1 + until(s.drop_first(), sep)
    }
}

/// The fields of `s`: the pieces between its separators, in order. There is
/// one field more than there are separators, and a field may be empty.
pub open spec fn split(s: Seq<char>, sep: char) -> Seq<Seq<char>>
    decreases s.len(),
{
    let k = until(s, sep) as int;
    if k >= s.len() {
        seq![s]
    } else {
        seq![s.take(k)] + split(s.skip(k + 1), sep)
    }
}

/// The contents of each of the vectors of `v`.
pub open spec fn views(v: Seq<Vec<char>>) -> Seq<Seq<char>> {
    Seq::new(v.len(), |i: int| v[i]@)
}

/// `until` is the place of the first separator, or the length where there
/// is none.
pub proof fn lemma_until(s: Seq<char>, sep: char)
    ensures
        until(s, sep) <= s.len(),
        free_of(s.take(until(s, sep) as int), sep),
        until(s, sep) < s.len() ==> s[until(s, sep) as int] == sep,
    decreases s.len(),
{
    if s.len() == 0 || s[0] == sep {
    } else {
        let t = s.drop_first();
        lemma_until(t, sep);
        let k = until(s, sep) as int;
        assert forall|i: int| 0 <= i < s.take(k).len() implies #[trigger] s.take(k)[i] != sep by {
            if i > 0 {
                assert(s.take(k)[i] == t.take(k - 1)[i - 1]);
            }
        }
    }
}

/// A place that no separator precedes, and that holds one or is the end,
/// is where `until` stops.
pub proof fn lemma_until_is(s: Seq<char>, sep: char, k: int)
    requires
        0 <= k <= s.len(),
        free_of(s.take(k), sep),
        k < s.len() ==> s[k] == sep,
    ensures
        until(s, sep) == k,
    decreases s.len(),
{
    if s.len() == 0 {
    } else if s[0] == sep {
        if k > 0 {
            assert(s.take(k)[0] == sep);
        }
    } else {
        let t = s.drop_first();
        assert forall|i: int| 0 <= i < t.take(k - 1).len() implies #[trigger] t.take(k - 1)[i] != sep by {
            assert(t.take(k - 1)[i] == s.take(k)[i + 1]);
        }
        lemma_until_is(t, sep, k - 1);
    }
}

/// Text without a separator is one field.
pub proof fn lemma_split_one(s: Seq<char>, sep: char)
    requires
        free_of(s, sep),
    ensures
        split(s, sep) == seq![s],
{
    assert(s.take(s.len() as int) == s);
    lemma_until_is(s, sep, s.len() as int);
}

/// The first separator ends the first field; the rest is cut in the same way.
pub proof fn lemma_split_at(s: Seq<char>, sep: char, k: int)
    requires
        0 <= k < s.len(),
        free_of(s.take(k), sep),
        s[k] == sep,
    ensures
        split(s, sep) == seq![s.take(k)] + split(s.skip(k + 1), sep),
{
    lemma_until_is(s, sep, k);
}

/// Cutting two texts joined by a separator gives the fields of the first,
/// then those of the second.
pub proof fn lemma_split_join(a: Seq<char>, b: Seq<char>, sep: char)
    ensures
        split(a + seq![sep] + b, sep) == split(a, sep) + split(b, sep),
    decreases a.len(),
{
    let s = a + seq![sep] + b;
    let k = until(a, sep) as int;
    lemma_until(a, sep);
    assert(s.take(k) == a.take(k));
    if k >= a.len() {
        assert(s[k] == sep);
        lemma_split_at(s, sep, k);
        assert(s.skip(k + 1) == b);
        assert(a.take(k) == a);
    } else {
        assert(s[k] == sep);
        lemma_split_at(s, sep, k);
        assert(s.skip(k + 1) == a.skip(k + 1) + seq![sep] + b);
        lemma_split_join(a.skip(k + 1), b, sep);
        assert(split(a, sep) == seq![a.take(k)] + split(a.skip(k + 1), sep));
        assert(seq![a.take(k)] + (split(a.skip(k + 1), sep) + split(b, sep))
            == seq![a.take(k)] + split(a.skip(k + 1), sep) + split(b, sep));
    }
}

/// There is at least one field, and no field holds a separator.
pub proof fn lemma_split_fields(s: Seq<char>, sep: char)
    ensures
        split(s, sep).len() > 0,
        forall|i: int| 0 <= i < split(s, sep).len() ==> free_of(#[trigger] split(s, sep)[i], sep),
    decreases s.len(),
{
    let k = until(s, sep) as int;
    lemma_until(s, sep);
    if k >= s.len() {
        assert(s.take(k) == s);
    } else {
        lemma_split_fields(s.skip(k + 1), sep);
    }
}

/// A character that does not occur in the text occurs in none of its fields.
pub proof fn lemma_split_keeps_free(s: Seq<char>, sep: char, c: char)
    requires
        free_of(s, c),
    ensures
        forall|i: int| 0 <= i < split(s, sep).len() ==> free_of(#[trigger] split(s, sep)[i], c),
    decreases s.len(),
{
    let k = until(s, sep) as int;
    lemma_until(s, sep);
    if k >= s.len() {
    } else {
        assert(free_of(s.take(k), c)) by {
            assert forall|i: int| 0 <= i < s.take(k).len() implies #[trigger] s.take(k)[i] != c by {
                assert(s.take(k)[i] == s[i]);
            }
        }
        assert(free_of(s.skip(k + 1), c)) by {
            assert forall|i: int| 0 <= i < s.skip(k + 1).len() implies #[trigger] s.skip(k + 1)[i] != c by {
                assert(s.skip(k + 1)[i] == s[i + k + 1]);
            }
        }
        let rest = split(s.skip(k + 1), sep);
        lemma_split_keeps_free(s.skip(k + 1), sep, c);
        assert forall|i: int| 0 <= i < split(s, sep).len() implies free_of(
            #[trigger] split(s, sep)[i],
            c,
        ) by {
            if i > 0 {
                assert(split(s, sep)[i] == rest[i - 1]);
            }
        }
    }
}

/// Cuts `s` into its fields.
pub fn split_chars(s: &Vec<char>, sep: char) -> (out: Vec<Vec<char>>)
    ensures
        views(out@) == split(s@, sep),
{
    let mut out: Vec<Vec<char>> = Vec::new();
    let mut cur: Vec<char> = Vec::new();
    let mut start: usize = 0;
    let mut i: usize = 0;
    proof {
        assert(s@.skip(0) == s@);
        assert(views(out@) + split(s@, sep) == split(s@, sep));
    }
    while i < s.len()
        invariant
            start <= i <= s.len(),
            cur@ == s@.subrange(start as int, i as int),
            free_of(cur@, sep),
            split(s@, sep) == views(out@) + split(s@.skip(start as int), sep),
        decreases s.len() - i,
    {
        let c = s[i];
        if c == sep {
            proof {
                let rest = s@.skip(start as int);
                assert(rest.take(i - start) == cur@);
                lemma_split_at(rest, sep, i - start);
                assert(rest.skip(i - start + 1) == s@.skip(i + 1));
                assert(views(out@.push(cur)) == views(out@) + seq![cur@]);
            }
            out.push(cur);
            cur = Vec::new();
            start = i + 1;
        } else {
            cur.push(c);
            assert(cur@ == s@.subrange(start as int, i + 1));
        }
        i += 1;
    }
    proof {
        assert(s@.skip(start as int) == cur@);
        lemma_split_one(cur@, sep);
        assert(views(out@.push(cur)) == views(out@) + seq![cur@]);
    }
    out.push(cur);
    out
}

} // verus!
