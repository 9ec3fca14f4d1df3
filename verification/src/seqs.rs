//! Sequences of windows without repetition: looking a window up, taking it
//! out, raising it to the end.

use vstd::prelude::*;
use crate::types::{PrevOrNext, Window};

verus! {

/// The sequence without the window `w`.
pub open spec fn without(s: Seq<Window>, w: Window) -> Seq<Window> {
    if s.contains(w) {
        s.remove(s.index_of(w))
    } else {
        s
    }
}

/// The sequence with `w` moved to its end.
pub open spec fn raised(s: Seq<Window>, w: Window) -> Seq<Window> {
    without(s, w).push(w)
}

/// The sequence with the windows at `i` and `j` exchanged.
pub open spec fn swapped(s: Seq<Window>, i: int, j: int) -> Seq<Window> {
    s.update(i, s[j]).update(j, s[i])
}

/// The neighbour of position `i` on a ring of `n` positions.
pub open spec fn step(i: int, dir: PrevOrNext, n: int) -> int {
    match dir {
        PrevOrNext::Next => if i + 1 >= n { 0 } else { i + 1 },
        PrevOrNext::Prev => if i <= 0 { n - 1 } else { i - 1 },
    }
}

/// Whether a step from position `i` in direction `dir` leaves a row of `n`
/// positions.
pub open spec fn at_edge(i: int, dir: PrevOrNext, n: int) -> bool {
    match dir {
        PrevOrNext::Next => i == n - 1,
        PrevOrNext::Prev => i == 0,
    }
}

/// The position at which a row of `n` positions is entered in direction
/// `dir`.
pub open spec fn entry(dir: PrevOrNext, n: int) -> int {
    match dir {
        PrevOrNext::Next => 0,
        PrevOrNext::Prev => n - 1,
    }
}

/// A step forth and a step back end where they began.
pub proof fn lemma_step_back(i: int, dir: PrevOrNext, n: int)
    requires
        0 <= i < n,
    ensures
        0 <= step(i, dir, n) < n,
        step(step(i, dir, n), dir.reverse(), n) == i,
{
}

/// Without repetition a window has one position only.
pub proof fn lemma_index_of(s: Seq<Window>, w: Window, i: int)
    requires
        s.no_duplicates(),
        0 <= i < s.len(),
        s[i] == w,
    ensures
        s.contains(w),
        s.index_of(w) == i,
{
}

/// The position of a window that the sequence holds.
pub proof fn lemma_index_of_contained(s: Seq<Window>, w: Window)
    requires
        s.contains(w),
    ensures
        0 <= s.index_of(w) < s.len(),
        s[s.index_of(w)] == w,
{
}

/// Taking out the window at `i` leaves the others, in their order.
pub proof fn lemma_remove(s: Seq<Window>, i: int)
    requires
        s.no_duplicates(),
        0 <= i < s.len(),
    ensures
        s.remove(i).no_duplicates(),
        s.remove(i).len() == s.len() - 1,
        !s.remove(i).contains(s[i]),
        s.remove(i).to_set() == s.to_set().remove(s[i]),
        without(s, s[i]) == s.remove(i),
        forall|k: int| 0 <= k < i ==> #[trigger] s.remove(i)[k] == s[k],
        forall|k: int| i <= k < s.len() - 1 ==> #[trigger] s.remove(i)[k] == s[k + 1],
{
    let r = s.remove(i);
    s.remove_ensures(i);
    assert forall|a: int, b: int| 0 <= a < r.len() && 0 <= b < r.len() && a != b implies r[a]
        != r[b] by {
        let a0 = if a < i { a } else { a + 1 };
        let b0 = if b < i { b } else { b + 1 };
        assert(r[a] == s[a0] && r[b] == s[b0]);
    }
    assert forall|x: Window| #[trigger] r.contains(x) implies s.contains(x) && x != s[i] by {
        let k = choose|k: int| 0 <= k < r.len() && r[k] == x;
        let k0 = if k < i { k } else { k + 1 };
        assert(r[k] == s[k0]);
    }
    assert forall|x: Window| x != s[i] && s.contains(x) implies r.contains(x) by {
        let k = choose|k: int| 0 <= k < s.len() && s[k] == x;
        let k1 = if k < i { k } else { k - 1 };
        assert(r[k1] == x);
    }
    lemma_index_of(s, s[i], i);
    assert(r.to_set() =~= s.to_set().remove(s[i]));
}

/// Taking a window out: what is left, and that nothing changes where the
/// window is absent.
pub proof fn lemma_without(s: Seq<Window>, w: Window)
    requires
        s.no_duplicates(),
    ensures
        without(s, w).no_duplicates(),
        !without(s, w).contains(w),
        without(s, w).to_set() == s.to_set().remove(w),
        s.contains(w) ==> without(s, w).len() == s.len() - 1,
        !s.contains(w) ==> without(s, w) == s,
{
    if s.contains(w) {
        lemma_index_of_contained(s, w);
        lemma_remove(s, s.index_of(w));
    } else {
        assert(s.to_set() =~= s.to_set().remove(w));
    }
}

/// Appending a window that the sequence does not hold.
pub proof fn lemma_push(s: Seq<Window>, w: Window)
    requires
        s.no_duplicates(),
        !s.contains(w),
    ensures
        s.push(w).no_duplicates(),
        s.push(w).to_set() == s.to_set().insert(w),
        s.push(w).index_of(w) == s.len(),
        forall|x: Window| s.contains(x) ==> s.push(w).index_of(x) == s.index_of(x),
        without(s.push(w), w) == s,
{
    let p = s.push(w);
    assert forall|a: int, b: int| 0 <= a < p.len() && 0 <= b < p.len() && a != b implies p[a]
        != p[b] by {
        if a < s.len() {
            assert(s[a] == p[a]);
        }
        if b < s.len() {
            assert(s[b] == p[b]);
        }
    }
    assert forall|x: Window| p.contains(x) <==> (x == w || s.contains(x)) by {
        if p.contains(x) {
            let k = choose|k: int| 0 <= k < p.len() && p[k] == x;
            if k < s.len() {
                assert(s[k] == x);
            }
        }
        if s.contains(x) {
            let k = choose|k: int| 0 <= k < s.len() && s[k] == x;
            assert(p[k] == x);
        }
        if x == w {
            assert(p[s.len() as int] == w);
        }
    }
    assert(p.to_set() =~= s.to_set().insert(w));
    lemma_index_of(p, w, s.len() as int);
    assert forall|x: Window| s.contains(x) implies p.index_of(x) == s.index_of(x) by {
        lemma_index_of_contained(s, x);
        assert(p[s.index_of(x)] == x);
        lemma_index_of(p, x, s.index_of(x));
    }
    assert(p.remove(s.len() as int) =~= s);
}

/// Raising a window keeps the windows and puts it last.
pub proof fn lemma_raised(s: Seq<Window>, w: Window)
    requires
        s.no_duplicates(),
        s.contains(w),
    ensures
        raised(s, w).no_duplicates(),
        raised(s, w).len() == s.len(),
        raised(s, w).last() == w,
        raised(s, w).to_set() == s.to_set(),
        s.last() == w ==> raised(s, w) == s,
{
    lemma_without(s, w);
    lemma_push(without(s, w), w);
    assert(s.to_set().remove(w).insert(w) =~= s.to_set());
    if s.last() == w {
        lemma_index_of(s, w, s.len() - 1);
        assert(raised(s, w) =~= s);
    }
}

/// Exchanging two windows keeps the windows.
pub proof fn lemma_swapped(s: Seq<Window>, i: int, j: int)
    requires
        s.no_duplicates(),
        0 <= i < s.len(),
        0 <= j < s.len(),
    ensures
        swapped(s, i, j).no_duplicates(),
        swapped(s, i, j).len() == s.len(),
        swapped(s, i, j).to_set() == s.to_set(),
        swapped(swapped(s, i, j), j, i) == s,
        swapped(swapped(s, i, j), i, j) == s,
{
    let t = swapped(s, i, j);
    let pi = |k: int| if k == i { j } else if k == j { i } else { k };
    assert forall|a: int, b: int| 0 <= a < t.len() && 0 <= b < t.len() && a != b implies t[a]
        != t[b] by {
        assert(t[a] == s[pi(a)] && t[b] == s[pi(b)]);
    }
    assert forall|x: Window| t.contains(x) <==> s.contains(x) by {
        if t.contains(x) {
            let k = choose|k: int| 0 <= k < t.len() && t[k] == x;
            assert(s[pi(k)] == x);
        }
        if s.contains(x) {
            let k = choose|k: int| 0 <= k < s.len() && s[k] == x;
            assert(t[pi(k)] == x);
        }
    }
    assert(t.to_set() =~= s.to_set());
    assert(swapped(t, j, i) =~= s);
    assert(swapped(t, i, j) =~= s);
}

/// The position of `w` in `v`, if `v` holds it.
pub fn position(v: &Vec<Window>, w: Window) -> (found: Option<usize>)
    ensures
        match found {
            Some(i) => i < v.len() && v@[i as int] == w,
            None => !v@.contains(w),
        },
{
    let mut i: usize = 0;
    while i < v.len()
        invariant
            i <= v.len(),
            forall|k: int| 0 <= k < i ==> v@[k] != w,
        decreases v.len() - i,
    {
        if v[i] == w {
            return Some(i);
        }
        i += 1;
    }
    None
}

} // verus!
