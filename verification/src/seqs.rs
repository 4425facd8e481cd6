//! Searching and filtering sequences.
use vstd::prelude::*;

verus! {

/// The first element of `s` that satisfies `p`.
pub open spec fn find_first<T>(s: Seq<T>, p: spec_fn(T) -> bool) -> Option<T>
    decreases s.len(),
{
    if s.len() == 0 {
        None
    } else if p(s[0]) {
        Some(s[0])
    } else {
        find_first(s.drop_first(), p)
    }
}

/// The element at `i` is the first that satisfies `p` when none before it does.
pub proof fn lemma_find_first<T>(s: Seq<T>, p: spec_fn(T) -> bool, i: int)
    requires
        0 <= i < s.len(),
        p(s[i]),
        forall|j: int| 0 <= j < i ==> !p(s[j]),
    ensures
        find_first(s, p) == Some(s[i]),
    decreases i,
{
    if i > 0 {
        let t = s.drop_first();
        assert forall|j: int| 0 <= j < i - 1 implies !p(t[j]) by {
            assert(t[j] == s[j + 1]);
        }
        lemma_find_first(t, p, i - 1);
    }
}

/// Nothing is found when nothing satisfies `p`.
pub proof fn lemma_find_none<T>(s: Seq<T>, p: spec_fn(T) -> bool)
    requires
        forall|j: int| 0 <= j < s.len() ==> !p(s[j]),
    ensures
        find_first(s, p) is None,
    decreases s.len(),
{
    if s.len() > 0 {
        let t = s.drop_first();
        assert forall|j: int| 0 <= j < t.len() implies !p(t[j]) by {
            assert(t[j] == s[j + 1]);
        }
        lemma_find_none(t, p);
    }
}

/// What is found is an element that satisfies `p`, and if nothing is found
/// nothing satisfies it.
pub proof fn lemma_found<T>(s: Seq<T>, p: spec_fn(T) -> bool)
    ensures
        find_first(s, p) matches Some(x) ==> s.contains(x) && p(x),
        find_first(s, p) is None ==> forall|j: int| 0 <= j < s.len() ==> !p(s[j]),
    decreases s.len(),
{
    if s.len() > 0 && !p(s[0]) {
        let t = s.drop_first();
        lemma_found(t, p);
        if let Some(x) = find_first(t, p) {
            let k = choose|k: int| 0 <= k < t.len() && t[k] == x;
            assert(s[k + 1] == x);
        } else {
            assert forall|j: int| 0 <= j < s.len() implies !p(s[j]) by {
                if j > 0 {
                    assert(s[j] == t[j - 1]);
                }
            }
        }
    } else if s.len() > 0 {
        assert(s[0] == s[0]);
    }
}

/// The last element of `s` that satisfies `p`.
pub open spec fn find_last<T>(s: Seq<T>, p: spec_fn(T) -> bool) -> Option<T>
    decreases s.len(),
{
    if s.len() == 0 {
        None
    } else if p(s.last()) {
        Some(s.last())
    } else {
        find_last(s.drop_last(), p)
    }
}

/// The element at `i` is the last that satisfies `p` when none behind it does.
pub proof fn lemma_find_last<T>(s: Seq<T>, p: spec_fn(T) -> bool, i: int)
    requires
        0 <= i < s.len(),
        p(s[i]),
        forall|j: int| i < j < s.len() ==> !p(s[j]),
    ensures
        find_last(s, p) == Some(s[i]),
    decreases s.len(),
{
    if i < s.len() - 1 {
        let t = s.drop_last();
        assert forall|j: int| i < j < t.len() implies !p(t[j]) by {
            assert(t[j] == s[j]);
        }
        assert(!p(s[s.len() - 1]));
        lemma_find_last(t, p, i);
    }
}

pub proof fn lemma_find_last_none<T>(s: Seq<T>, p: spec_fn(T) -> bool)
    requires
        forall|j: int| 0 <= j < s.len() ==> !p(s[j]),
    ensures
        find_last(s, p) is None,
    decreases s.len(),
{
    if s.len() > 0 {
        let t = s.drop_last();
        assert forall|j: int| 0 <= j < t.len() implies !p(t[j]) by {
            assert(t[j] == s[j]);
        }
        assert(!p(s[s.len() - 1]));
        lemma_find_last_none(t, p);
    }
}

/// The place of the first element that `p` holds of.
pub open spec fn first_index<T>(s: Seq<T>, p: spec_fn(T) -> bool) -> Option<int>
    decreases s.len(),
{
    if s.len() == 0 {
        None
    } else {
        match first_index(s.drop_last(), p) {
            Some(i) => Some(i),
            None => if p(s.last()) {
                Some(s.len() - 1)
            } else {
                None
            },
        }
    }
}

pub proof fn lemma_first_index<T>(s: Seq<T>, p: spec_fn(T) -> bool, i: int)
    requires
        0 <= i < s.len(),
        p(s[i]),
        forall|j: int| 0 <= j < i ==> !p(#[trigger] s[j]),
    ensures
        first_index(s, p) == Some(i),
    decreases s.len(),
{
    let rest = s.drop_last();
    if i < rest.len() {
        assert forall|j: int| 0 <= j < i implies !p(#[trigger] rest[j]) by {
            assert(rest[j] == s[j]);
        }
        assert(rest[i] == s[i]);
        lemma_first_index(rest, p, i);
    } else {
        assert forall|j: int| 0 <= j < rest.len() implies !p(#[trigger] rest[j]) by {
            assert(rest[j] == s[j]);
        }
        lemma_no_index(rest, p);
    }
}

pub proof fn lemma_no_index<T>(s: Seq<T>, p: spec_fn(T) -> bool)
    requires
        forall|j: int| 0 <= j < s.len() ==> !p(#[trigger] s[j]),
    ensures
        first_index(s, p) is None,
    decreases s.len(),
{
    if s.len() > 0 {
        let rest = s.drop_last();
        assert forall|j: int| 0 <= j < rest.len() implies !p(#[trigger] rest[j]) by {
            assert(rest[j] == s[j]);
        }
        lemma_no_index(rest, p);
        assert(!p(s[s.len() - 1]));
    }
}

pub proof fn lemma_first_index_found<T>(s: Seq<T>, p: spec_fn(T) -> bool)
    ensures
        match first_index(s, p) {
            Some(i) => 0 <= i < s.len() && p(s[i]) && forall|j: int|
                0 <= j < i ==> !p(#[trigger] s[j]),
            None => forall|j: int| 0 <= j < s.len() ==> !p(#[trigger] s[j]),
        },
    decreases s.len(),
{
    if s.len() > 0 {
        let rest = s.drop_last();
        lemma_first_index_found(rest, p);
        assert forall|j: int| 0 <= j < rest.len() implies rest[j] == s[j] by {}
        match first_index(rest, p) {
            Some(i) => {
                assert forall|j: int| 0 <= j < i implies !p(#[trigger] s[j]) by {
                    assert(rest[j] == s[j]);
                }
            },
            None => {
                assert forall|j: int| 0 <= j < rest.len() implies !p(#[trigger] s[j]) by {
                    assert(rest[j] == s[j]);
                }
            },
        }
    }
}

/// The contents of each vector of a sequence.
pub open spec fn contents<T>(s: Seq<Vec<T>>) -> Seq<Seq<T>> {
    Seq::new(s.len(), |i: int| s[i]@)
}

pub proof fn lemma_contents_push<T>(s: Seq<Vec<T>>, v: Vec<T>)
    ensures
        contents(s.push(v)) == contents(s).push(v@),
{
    assert(contents(s.push(v)) =~= contents(s).push(v@));
}

/// Filtering one element more.
pub proof fn lemma_filter_step<T>(s: Seq<T>, p: spec_fn(T) -> bool, i: int)
    requires
        0 <= i < s.len(),
    ensures
        s.take(i + 1).filter(p) == if p(s[i]) {
            s.take(i).filter(p).push(s[i])
        } else {
            s.take(i).filter(p)
        },
{
    reveal(Seq::filter);
    assert(s.take(i + 1).drop_last() =~= s.take(i));
}

/// Every element of a filtered sequence satisfies the predicate and comes from
/// the sequence.
pub proof fn lemma_filter_elements<T>(s: Seq<T>, p: spec_fn(T) -> bool)
    ensures
        s.filter(p).len() <= s.len(),
        forall|k: int|
            0 <= k < s.filter(p).len() ==> p(#[trigger] s.filter(p)[k]) && s.contains(
                s.filter(p)[k],
            ),
    decreases s.len(),
{
    reveal(Seq::filter);
    if s.len() > 0 {
        let t = s.drop_last();
        lemma_filter_elements(t, p);
        assert forall|k: int| 0 <= k < s.filter(p).len() implies p(#[trigger] s.filter(p)[k])
            && s.contains(s.filter(p)[k]) by {
            if k < t.filter(p).len() {
                assert(s.filter(p)[k] == t.filter(p)[k]);
                let x = t.filter(p)[k];
                let m = choose|m: int| 0 <= m < t.len() && t[m] == x;
                assert(s[m] == x);
            } else {
                assert(s.filter(p)[k] == s[s.len() - 1]);
            }
        }
    }
}

/// An element that satisfies the predicate stays.
pub proof fn lemma_filter_keeps<T>(s: Seq<T>, p: spec_fn(T) -> bool, x: T)
    requires
        s.contains(x),
        p(x),
    ensures
        s.filter(p).contains(x),
    decreases s.len(),
{
    reveal(Seq::filter);
    let t = s.drop_last();
    if s.last() == x {
        let f = s.filter(p);
        assert(f == t.filter(p).push(x));
        assert(f[f.len() - 1] == x);
    } else {
        let m = choose|m: int| 0 <= m < s.len() && s[m] == x;
        assert(t[m] == x);
        lemma_filter_keeps(t, p, x);
        let k = choose|k: int| 0 <= k < t.filter(p).len() && t.filter(p)[k] == x;
        assert(s.filter(p)[k] == x);
    }
}

/// Filtering twice is filtering once.
pub proof fn lemma_filter_idempotent<T>(s: Seq<T>, p: spec_fn(T) -> bool)
    ensures
        s.filter(p).filter(p) == s.filter(p),
    decreases s.len(),
{
    lemma_filter_elements(s, p);
    lemma_filter_all(s.filter(p), p);
}

/// Filtering a sequence all of whose elements satisfy the predicate.
pub proof fn lemma_filter_all<T>(s: Seq<T>, p: spec_fn(T) -> bool)
    requires
        forall|k: int| 0 <= k < s.len() ==> p(s[k]),
    ensures
        s.filter(p) == s,
    decreases s.len(),
{
    reveal(Seq::filter);
    if s.len() > 0 {
        lemma_filter_all(s.drop_last(), p);
        assert(s.drop_last().push(s.last()) =~= s);
    }
}

/// Whether a list of numbers has a number.
pub fn has_u64(v: &Vec<u64>, x: u64) -> (r: bool)
    ensures
        r == v@.contains(x),
{
    let mut i: usize = 0;
    while i < v.len()
        invariant
            i <= v@.len(),
            forall|j: int| 0 <= j < i ==> v@[j] != x,
        decreases v@.len() - i,
    {
        if v[i] == x {
            return true;
        }
        i = i + 1;
    }
    false
}

/// Whether two strings hold the same characters.
pub fn str_eq(a: &str, b: &str) -> (r: bool)
    ensures
        r == (a@ == b@),
{
    a.to_owned() == b.to_owned()
}

} // verus!
