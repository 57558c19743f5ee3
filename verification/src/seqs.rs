//! Facts about sequences that the rest of the library builds on.
use vstd::prelude::*;

verus! {

/// `n` copies of `x`.
pub open spec fn fill<T>(n: int, x: T) -> Seq<T> {
    Seq::new(n as nat, |_i: int| x)
}

/// `s` with `k` copies of `x` inserted at `at`, the window `[at, last]` keeping its
/// length by losing its last `k` elements.
pub open spec fn shift_in<T>(s: Seq<T>, at: int, last: int, k: int, x: T) -> Seq<T> {
    s.take(at) + fill(k, x) + s.subrange(at, last + 1 - k) + s.skip(last + 1)
}

/// `s` with the `k` elements at `at` removed from the window `[at, last]`, which keeps
/// its length by gaining `k` copies of `x` at its end.
pub open spec fn shift_out<T>(s: Seq<T>, at: int, last: int, k: int, x: T) -> Seq<T> {
    s.take(at) + s.subrange(at + k, last + 1) + fill(k, x) + s.skip(last + 1)
}

pub open spec fn min_int(a: int, b: int) -> int {
    if a <= b { a } else { b }
}

/// `i` is the position of the first `x` in `s`.
pub open spec fn is_first_index<T>(s: Seq<T>, x: T, i: int) -> bool {
    &&& 0 <= i < s.len()
    &&& s[i] == x
    &&& forall|j: int| 0 <= j < i ==> s[j] != x
}

/// The position of the first `x` in `s`, or -1 when there is none.
pub open spec fn first_index<T>(s: Seq<T>, x: T) -> int {
    if exists|i: int| is_first_index(s, x, i) {
        choose|i: int| is_first_index(s, x, i)
    } else {
        -1
    }
}

pub proof fn lemma_first_index_unique<T>(s: Seq<T>, x: T, i: int, k: int)
    requires
        is_first_index(s, x, i),
        is_first_index(s, x, k),
    ensures
        i == k,
{
    if i < k {
        assert(s[i] != x);
    } else if k < i {
        assert(s[k] != x);
    }
}

/// A position that is the first `x` is what `first_index` gives.
pub proof fn lemma_first_index_is<T>(s: Seq<T>, x: T, i: int)
    requires
        is_first_index(s, x, i),
    ensures
        first_index(s, x) == i,
{
    let k = choose|k: int| is_first_index(s, x, k);
    lemma_first_index_unique(s, x, i, k);
}

/// Every element that occurs has a first position.
pub proof fn lemma_first_index_exists<T>(s: Seq<T>, x: T)
    ensures
        s.contains(x) <==> is_first_index(s, x, first_index(s, x)),
        !s.contains(x) ==> first_index(s, x) == -1,
    decreases s.len(),
{
    if s.contains(x) {
        if s[0] == x {
            assert(is_first_index(s, x, 0));
            lemma_first_index_is(s, x, 0);
        } else {
            let t = s.drop_first();
            let w = choose|w: int| 0 <= w < s.len() && s[w] == x;
            assert(t[w - 1] == x);
            lemma_first_index_exists(t, x);
            let k = first_index(t, x);
            assert(is_first_index(s, x, k + 1)) by {
                assert forall|j: int| 0 <= j < k + 1 implies s[j] != x by {
                    if j > 0 {
                        assert(s[j] == t[j - 1]);
                    }
                }
            }
            lemma_first_index_is(s, x, k + 1);
        }
    } else {
        if exists|i: int| is_first_index(s, x, i) {
            let i = choose|i: int| is_first_index(s, x, i);
            assert(s.contains(x));
        }
    }
}

/// Where the first `x` of `a + b` lies.
pub proof fn lemma_first_index_concat<T>(a: Seq<T>, b: Seq<T>, x: T)
    ensures
        a.contains(x) ==> first_index(a + b, x) == first_index(a, x),
        !a.contains(x) && b.contains(x) ==> first_index(a + b, x) == a.len() + first_index(b, x),
{
    lemma_first_index_exists(a, x);
    lemma_first_index_exists(b, x);
    if a.contains(x) {
        let i = first_index(a, x);
        assert(is_first_index(a + b, x, i));
        lemma_first_index_is(a + b, x, i);
    } else if b.contains(x) {
        let k = first_index(b, x);
        assert(is_first_index(a + b, x, a.len() + k)) by {
            assert forall|j: int| 0 <= j < a.len() + k implies (a + b)[j] != x by {
                if j < a.len() {
                    assert((a + b)[j] == a[j]);
                    if a[j] == x {
                        assert(a.contains(x));
                    }
                } else {
                    assert((a + b)[j] == b[j - a.len()]);
                }
            }
        }
        lemma_first_index_is(a + b, x, a.len() + k);
    }
}

/// Inserting an element that is not there keeps a sequence free of repeats.
pub proof fn lemma_insert_fresh<T>(s: Seq<T>, i: int, x: T)
    requires
        s.no_duplicates(),
        !s.contains(x),
        0 <= i <= s.len(),
    ensures
        s.insert(i, x).no_duplicates(),
{
    let t = s.insert(i, x);
    assert forall|a: int, b: int| 0 <= a < t.len() && 0 <= b < t.len() && a != b implies t[a] != t[b] by {
        if a == i {
            assert(t[b] == if b < i { s[b] } else { s[b - 1] });
        } else if b == i {
            assert(t[a] == if a < i { s[a] } else { s[a - 1] });
        }
    }
}

/// Removing an element keeps a sequence free of repeats.
pub proof fn lemma_remove_keeps_no_duplicates<T>(s: Seq<T>, i: int)
    requires
        s.no_duplicates(),
        0 <= i < s.len(),
    ensures
        s.remove(i).no_duplicates(),
        forall|x: T| s.remove(i).contains(x) ==> s.contains(x),
        forall|x: T| s.contains(x) && x != s[i] ==> s.remove(i).contains(x),
{
    let t = s.remove(i);
    assert forall|x: T| t.contains(x) implies s.contains(x) by {
        let j = choose|j: int| 0 <= j < t.len() && t[j] == x;
        if j < i {
            assert(s[j] == x);
        } else {
            assert(s[j + 1] == x);
        }
    }
    assert forall|x: T| s.contains(x) && x != s[i] implies t.contains(x) by {
        let j = choose|j: int| 0 <= j < s.len() && s[j] == x;
        if j < i {
            assert(t[j] == x);
        } else {
            assert(t[j - 1] == x);
        }
    }
}

/// `x` occurs in `a + b` exactly when it occurs in `a` or in `b`.
pub proof fn lemma_contains_concat<T>(a: Seq<T>, b: Seq<T>, x: T)
    ensures
        (a + b).contains(x) == (a.contains(x) || b.contains(x)),
{
    if a.contains(x) {
        let i = choose|i: int| 0 <= i < a.len() && a[i] == x;
        assert((a + b)[i] == x);
    }
    if b.contains(x) {
        let i = choose|i: int| 0 <= i < b.len() && b[i] == x;
        assert((a + b)[a.len() + i] == x);
    }
    if (a + b).contains(x) {
        let i = choose|i: int| 0 <= i < (a + b).len() && (a + b)[i] == x;
        if i < a.len() {
            assert(a[i] == x);
        } else {
            assert(b[i - a.len()] == x);
        }
    }
}

/// The parts of a sequence without repeats have none, and share nothing.
pub proof fn lemma_no_duplicates_concat<T>(a: Seq<T>, b: Seq<T>)
    requires
        (a + b).no_duplicates(),
    ensures
        a.no_duplicates(),
        b.no_duplicates(),
        forall|x: T| a.contains(x) ==> !b.contains(x),
{
    assert forall|i: int, j: int| 0 <= i < a.len() && 0 <= j < a.len() && i != j implies a[i] != a[j] by {
        assert((a + b)[i] == a[i] && (a + b)[j] == a[j]);
    }
    assert forall|i: int, j: int| 0 <= i < b.len() && 0 <= j < b.len() && i != j implies b[i] != b[j] by {
        assert((a + b)[a.len() + i] == b[i] && (a + b)[a.len() + j] == b[j]);
    }
    assert forall|x: T| a.contains(x) implies !b.contains(x) by {
        let i = choose|i: int| 0 <= i < a.len() && a[i] == x;
        if b.contains(x) {
            let j = choose|j: int| 0 <= j < b.len() && b[j] == x;
            assert((a + b)[i] == (a + b)[a.len() + j]);
        }
    }
}

pub proof fn lemma_shift_in_zero<T>(s: Seq<T>, at: int, last: int, x: T)
    requires
        0 <= at <= last < s.len(),
    ensures
        shift_in(s, at, last, 0, x) == s,
{
    assert(shift_in(s, at, last, 0, x) =~= s);
}

pub proof fn lemma_shift_out_zero<T>(s: Seq<T>, at: int, last: int, x: T)
    requires
        0 <= at <= last < s.len(),
    ensures
        shift_out(s, at, last, 0, x) == s,
{
    assert(shift_out(s, at, last, 0, x) =~= s);
}

/// One more blank pushed in at `at`, the element at `last` dropped.
pub proof fn lemma_shift_in_step<T>(s: Seq<T>, at: int, last: int, k: int, x: T)
    requires
        0 <= at <= last < s.len(),
        0 <= k <= last - at + 1,
    ensures
        shift_in(s, at, last, k, x).len() == s.len(),
        shift_in(s, at, last, k, x).remove(last).insert(at, x) == shift_in(
            s,
            at,
            last,
            min_int(k + 1, last - at + 1),
            x,
        ),
{
    let t = shift_in(s, at, last, k, x);
    let k2 = min_int(k + 1, last - at + 1);
    let u = shift_in(s, at, last, k2, x);
    assert(t.len() == s.len());
    let r = t.remove(last).insert(at, x);
    assert(r.len() == u.len());
    assert forall|i: int| 0 <= i < r.len() implies r[i] == u[i] by {
        if i < at {
        } else if i == at {
        } else if i <= last {
            assert(r[i] == t[i - 1]);
        } else {
        }
    }
    assert(r =~= u);
}

/// One more element dropped at `at`, one more blank at `last`.
pub proof fn lemma_shift_out_step<T>(s: Seq<T>, at: int, last: int, k: int, x: T)
    requires
        0 <= at <= last < s.len(),
        0 <= k <= last - at + 1,
    ensures
        shift_out(s, at, last, k, x).len() == s.len(),
        shift_out(s, at, last, k, x).remove(at).insert(last, x) == shift_out(
            s,
            at,
            last,
            min_int(k + 1, last - at + 1),
            x,
        ),
{
    let t = shift_out(s, at, last, k, x);
    let k2 = min_int(k + 1, last - at + 1);
    let u = shift_out(s, at, last, k2, x);
    assert(t.len() == s.len());
    let r = t.remove(at).insert(last, x);
    assert(r.len() == u.len());
    assert forall|i: int| 0 <= i < r.len() implies r[i] == u[i] by {
        if i < at {
        } else if i < last {
            assert(r[i] == t[i + 1]);
        } else if i == last {
        } else {
        }
    }
    assert(r =~= u);
}

} // verus!
