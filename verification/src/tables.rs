use vstd::prelude::*;

verus! {

// "Dense id, insertion order" interning recurs in this workbook model:
// shared strings, fonts and cell formats are all deduplicated against
// an ordered table whose indices are the ids.  The table discipline is
// defined once here and reused by each registry.

/// Index of the first occurrence of `x` in `s`, or -1 when `s` does
/// not contain `x`.
pub open spec fn find_first<T>(s: Seq<T>, x: T) -> int
    decreases s.len(),
{
    if s.len() == 0 {
        -1
    } else if s[0] == x {
        0
    } else {
        let r = find_first(s.drop_first(), x);
        if r == -1 {
            -1
        } else {
            r + 1
        }
    }
}

/// Dense-id interning: an entry already present keeps its index, a new
/// entry is appended and receives the next index.  Returns the table
/// after the step and the index of `x` in it.
pub open spec fn spec_intern<T>(s: Seq<T>, x: T) -> (Seq<T>, int) {
    let i = find_first(s, x);
    if i >= 0 {
        (s, i)
    } else {
        (s.push(x), s.len() as int)
    }
}

/// What `find_first` returns: -1 exactly when `x` is absent, and
/// otherwise the first index holding `x`.
pub proof fn lemma_find_first_props<T>(s: Seq<T>, x: T)
    ensures
        find_first(s, x) == -1 ==> forall|j: int| 0 <= j < s.len() ==> s[j] != x,
        find_first(s, x) != -1 ==> {
            &&& 0 <= find_first(s, x) < s.len()
            &&& s[find_first(s, x)] == x
            &&& forall|j: int| 0 <= j < find_first(s, x) ==> s[j] != x
        },
    decreases s.len(),
{
    if s.len() > 0 && s[0] != x {
        let t = s.drop_first();
        lemma_find_first_props(t, x);
        if find_first(t, x) == -1 {
            assert forall|j: int| 0 <= j < s.len() implies s[j] != x by {
                if j > 0 {
                    assert(s[j] == t[j - 1]);
                }
            }
        } else {
            let r = find_first(t, x);
            assert(s[r + 1] == t[r]);
            assert forall|j: int| 0 <= j < r + 1 implies s[j] != x by {
                if j > 0 {
                    assert(s[j] == t[j - 1]);
                }
            }
        }
    }
}

/// `find_first` finds the first match: any index that matches with no
/// earlier match is what it returns.
pub proof fn lemma_find_first_at<T>(s: Seq<T>, x: T, i: int)
    requires
        0 <= i < s.len(),
        s[i] == x,
        forall|j: int| 0 <= j < i ==> s[j] != x,
    ensures
        find_first(s, x) == i,
    decreases i,
{
    let t = s.drop_first();
    assert(forall|j: int| 0 <= j < t.len() ==> t[j] == s[j + 1]);
    if i == 0 {
    } else {
        lemma_find_first_at(t, x, i - 1);
    }
}

/// Appending an absent entry makes it findable at the old length.
pub proof fn lemma_find_first_push_absent<T>(s: Seq<T>, x: T)
    requires
        find_first(s, x) == -1,
    ensures
        find_first(s.push(x), x) == s.len(),
{
    lemma_find_first_props(s, x);
    lemma_find_first_at(s.push(x), x, s.len() as int);
}

/// Appending any entry leaves the index of an already-present entry
/// unchanged.
pub proof fn lemma_find_first_push_stable<T>(s: Seq<T>, x: T, y: T)
    requires
        find_first(s, x) != -1,
    ensures
        find_first(s.push(y), x) == find_first(s, x),
{
    lemma_find_first_props(s, x);
    let i = find_first(s, x);
    assert(s.push(y)[i] == x);
    assert(forall|j: int| 0 <= j < i ==> s.push(y)[j] != x);
    lemma_find_first_at(s.push(y), x, i);
}

/// Interning the same entry twice gives the same id both times, and
/// the second pass leaves the table unchanged.
pub proof fn lemma_intern_idempotent<T>(s: Seq<T>, x: T)
    ensures
        ({
            let (s1, i1) = spec_intern(s, x);
            let (s2, i2) = spec_intern(s1, x);
            s2 == s1 && i2 == i1 && 0 <= i1 < s1.len() && s1[i1] == x
        }),
    decreases s.len(),
{
    lemma_find_first_props(s, x);
    let (s1, i1) = spec_intern(s, x);
    if find_first(s, x) == -1 {
        lemma_find_first_push_absent(s, x);
    }
    lemma_find_first_props(s1, x);
}

/// Interning never touches the entries already in the table.
pub proof fn lemma_intern_extends<T>(s: Seq<T>, x: T)
    ensures
        ({
            let (s1, i1) = spec_intern(s, x);
            &&& s1.len() >= s.len()
            &&& forall|j: int| 0 <= j < s.len() ==> s1[j] == s[j]
            &&& 0 <= i1 < s1.len()
            &&& s1[i1] == x
        }),
{
    lemma_find_first_props(s, x);
    if find_first(s, x) == -1 {
        lemma_find_first_push_absent(s, x);
    }
}

/// The views of a table of owned strings.
pub open spec fn str_views(s: Seq<String>) -> Seq<Seq<char>> {
    s.map_values(|t: String| t@)
}

/// Finds the first entry of `v` equal to `key`.
pub fn find_string(v: &Vec<String>, key: &String) -> (r: Option<usize>)
    ensures
        match r {
            Some(i) => 0 <= i < v@.len() && find_first(str_views(v@), key@) == i,
            None => find_first(str_views(v@), key@) == -1,
        },
{
    let n = v.len();
    let mut i: usize = 0;
    while i < n
        invariant
            0 <= i <= n == v@.len(),
            forall|j: int| 0 <= j < i ==> str_views(v@)[j] != key@,
        decreases n - i,
    {
        if v[i] == *key {
            proof {
                assert(str_views(v@)[i as int] == key@);
                lemma_find_first_at(str_views(v@), key@, i as int);
            }
            return Some(i);
        }
        proof {
            assert(str_views(v@)[i as int] == v@[i as int]@);
        }
        i = i + 1;
    }
    proof {
        lemma_find_first_props(str_views(v@), key@);
        if find_first(str_views(v@), key@) != -1 {
            assert(str_views(v@)[find_first(str_views(v@), key@)] == key@);
        }
    }
    None
}

} // verus!
