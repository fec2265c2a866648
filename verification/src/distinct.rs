//! Checks that nothing occurs twice, on the plain lists that a client set
//! hands out.

use vstd::prelude::*;

verus! {

/// The strings of `v` as sequences of characters.
pub open spec fn texts(v: Seq<String>) -> Seq<Seq<char>> {
    v.map_values(|s: String| s@)
}

/// The windows of each list of `v`.
pub open spec fn lists(v: Seq<Vec<u32>>) -> Seq<Seq<u32>> {
    v.map_values(|l: Vec<u32>| l@)
}

/// No window is in both sequences.
pub open spec fn apart(a: Seq<u32>, b: Seq<u32>) -> bool {
    forall|i: int, j: int| 0 <= i < a.len() && 0 <= j < b.len() ==> a[i] != b[j]
}

/// No sequence holds a window twice, and no two of them share a window.
pub open spec fn all_apart(s: Seq<Seq<u32>>) -> bool {
    &&& forall|i: int| 0 <= i < s.len() ==> (#[trigger] s[i]).no_duplicates()
    &&& forall|i: int, j: int| 0 <= i < j < s.len() ==> apart(s[i], s[j])
}

/// Whether `c` is one of the first `n` windows of `v`.
fn among(v: &Vec<u32>, n: usize, c: u32) -> (r: bool)
    requires
        n <= v.len(),
    ensures
        r == v@.take(n as int).contains(c),
{
    let mut i: usize = 0;
    while i < n
        invariant
            i <= n <= v.len(),
            forall|k: int| 0 <= k < i ==> v@[k] != c,
        decreases n - i,
    {
        if v[i] == c {
            assert(v@.take(n as int)[i as int] == c);
            return true;
        }
        i += 1;
    }
    false
}

/// Whether no window occurs twice in `v`.
pub fn no_repeats(v: &Vec<u32>) -> (r: bool)
    ensures
        r == v@.no_duplicates(),
{
    let mut i: usize = 0;
    while i < v.len()
        invariant
            i <= v.len(),
            v@.take(i as int).no_duplicates(),
        decreases v.len() - i,
    {
        if among(v, i, v[i]) {
            proof {
                let k = choose|k: int| 0 <= k < i && v@.take(i as int)[k] == v@[i as int];
                assert(v@[k] == v@[i as int]);
            }
            return false;
        }
        assert(v@.take(i + 1).no_duplicates()) by {
            let now = v@.take(i + 1);
            let before = v@.take(i as int);
            assert forall|a: int, b: int|
                0 <= a < now.len() && 0 <= b < now.len() && a != b implies now[a] != now[b] by {
                if a < i && b < i {
                    assert(before[a] != before[b]);
                } else if a < i {
                    assert(before[a] == v@[a]);
                } else {
                    assert(before[b] == v@[b]);
                }
            }
        }
        i += 1;
    }
    assert(v@.take(i as int) =~= v@);
    true
}

/// Whether `a` and `b` have no window in common.
pub fn disjoint(a: &Vec<u32>, b: &Vec<u32>) -> (r: bool)
    ensures
        r == apart(a@, b@),
{
    let mut i: usize = 0;
    while i < a.len()
        invariant
            i <= a.len(),
            forall|k: int, j: int| 0 <= k < i && 0 <= j < b.len() ==> a@[k] != b@[j],
        decreases a.len() - i,
    {
        if among(b, b.len(), a[i]) {
            proof {
                assert(b@.take(b.len() as int) =~= b@);
                let j = choose|j: int| 0 <= j < b.len() && b@[j] == a@[i as int];
                assert(a@[i as int] == b@[j]);
            }
            return false;
        }
        assert(b@.take(b.len() as int) =~= b@);
        i += 1;
    }
    true
}

/// Whether no list of `v` holds a window twice and no two lists share one.
pub fn lists_apart(v: &Vec<Vec<u32>>) -> (r: bool)
    ensures
        r == all_apart(lists(v@)),
{
    let ghost s = lists(v@);
    let mut i: usize = 0;
    while i < v.len()
        invariant
            i <= v.len(),
            s == lists(v@),
            forall|k: int| 0 <= k < i ==> (#[trigger] s[k]).no_duplicates(),
            forall|k: int, j: int| 0 <= k < i && k < j < s.len() ==> apart(s[k], s[j]),
        decreases v.len() - i,
    {
        if !no_repeats(&v[i]) {
            assert(!s[i as int].no_duplicates());
            return false;
        }
        let mut j: usize = i + 1;
        while j < v.len()
            invariant
                i < j <= v.len(),
                s == lists(v@),
                forall|m: int| i < m < j ==> apart(s[i as int], #[trigger] s[m]),
            decreases v.len() - j,
        {
            if !disjoint(&v[i], &v[j]) {
                assert(!apart(s[i as int], s[j as int]));
                return false;
            }
            j += 1;
        }
        i += 1;
    }
    true
}

/// Whether no string occurs twice in `v`.
pub fn distinct_strings(v: &Vec<String>) -> (r: bool)
    ensures
        r == texts(v@).no_duplicates(),
{
    let ghost t = texts(v@);
    let mut i: usize = 0;
    while i < v.len()
        invariant
            i <= v.len(),
            t == texts(v@),
            forall|a: int, b: int| 0 <= a < b < i ==> t[a] != t[b],
        decreases v.len() - i,
    {
        let mut j: usize = 0;
        while j < i
            invariant
                j <= i < v.len(),
                t == texts(v@),
                forall|a: int| 0 <= a < j ==> t[a] != t[i as int],
            decreases i - j,
        {
            if v[j] == v[i] {
                assert(t[j as int] == t[i as int]);
                return false;
            }
            j += 1;
        }
        i += 1;
    }
    assert forall|a: int, b: int| 0 <= a < t.len() && 0 <= b < t.len() && a != b implies t[a]
        != t[b] by {
        if a < b {
            assert(t[a] != t[b]);
        } else {
            assert(t[b] != t[a]);
        }
    }
    true
}

} // verus!
