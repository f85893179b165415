use vstd::prelude::*;

verus! {

// A number cell stores its value as text, validated at construction.
// The accepted grammar is the one documented for parsing a double
// from a string: an optional sign, then either one of the words
// `inf`, `infinity` or `nan` in any letter case, or a decimal number
// `digits [. digits] | . digits` with an optional exponent
// `(e|E) [sign] digits`.

pub open spec fn is_digit(c: char) -> bool {
    '0' <= c <= '9'
}

pub open spec fn is_sign(c: char) -> bool {
    c == '+' || c == '-'
}

pub open spec fn is_e(c: char) -> bool {
    c == 'e' || c == 'E'
}

pub open spec fn is_dot(c: char) -> bool {
    c == '.'
}

/// The point predicate, as one shared function value.
pub open spec fn dot_pred() -> spec_fn(char) -> bool {
    |c: char| is_dot(c)
}

/// The exponent-marker predicate, as one shared function value.
pub open spec fn e_pred() -> spec_fn(char) -> bool {
    |c: char| is_e(c)
}

/// Case-insensitive match of one character against a lower-case
/// ASCII letter.
pub open spec fn ci_char(c: char, l: char) -> bool {
    c == l || (c as int) + 32 == (l as int)
}

/// The first position in `[lo, hi)` of `s` whose character satisfies
/// `p`, or -1 when none does.
pub open spec fn first_where(s: Seq<char>, lo: int, hi: int, p: spec_fn(char) -> bool) -> int
    decreases hi - lo,
{
    if lo >= hi {
        -1
    } else if p(s[lo]) {
        lo
    } else {
        first_where(s, lo + 1, hi, p)
    }
}

/// What `first_where` returns: -1 exactly when no character in the
/// range satisfies `p`, and otherwise the first position that does.
pub proof fn lemma_first_where_props(s: Seq<char>, lo: int, hi: int, p: spec_fn(char) -> bool)
    requires
        0 <= lo,
    ensures
        first_where(s, lo, hi, p) == -1 ==> forall|j: int|
            #![trigger s[j]]
            lo <= j < hi ==> !p(s[j]),
        first_where(s, lo, hi, p) != -1 ==> {
            &&& lo <= first_where(s, lo, hi, p) < hi
            &&& p(s[first_where(s, lo, hi, p)])
            &&& forall|j: int| #![trigger s[j]] lo <= j < first_where(s, lo, hi, p) ==> !p(s[j])
        },
    decreases hi - lo,
{
    if lo < hi && !p(s[lo]) {
        lemma_first_where_props(s, lo + 1, hi, p);
        if first_where(s, lo, hi, p) == -1 {
            assert(first_where(s, lo + 1, hi, p) == -1);
            assert forall|j: int| #![trigger s[j]] lo <= j < hi implies !p(s[j]) by {
                if j > lo {
                    assert(lo + 1 <= j < hi);
                }
            }
        }
    }
}

/// `first_where` finds the first position that satisfies `p`.
pub proof fn lemma_first_where_at(s: Seq<char>, lo: int, hi: int, p: spec_fn(char) -> bool, i: int)
    requires
        0 <= lo,
        lo <= i < hi,
        p(s[i]),
        forall|j: int| lo <= j < i ==> !p(s[j]),
    ensures
        first_where(s, lo, hi, p) == i,
    decreases i - lo,
{
    if i > lo {
        lemma_first_where_at(s, lo + 1, hi, p, i);
    }
}

/// All characters in `[lo, hi)` of `s` are decimal digits.
pub open spec fn all_digits_range(s: Seq<char>, lo: int, hi: int) -> bool {
    forall|j: int| lo <= j < hi ==> is_digit(s[j])
}

/// The range `[lo, hi)` of `s` matches the lower-case ASCII word `w`
/// case-insensitively.
pub open spec fn ci_eq_range(s: Seq<char>, lo: int, hi: int, w: Seq<char>) -> bool {
    hi - lo == w.len() && forall|j: int| 0 <= j < w.len() ==> ci_char(s[lo + j], w[j])
}

/// The range is one of the special words `inf`, `infinity`, `nan`.
pub open spec fn is_inf_nan_range(s: Seq<char>, lo: int, hi: int) -> bool {
    ||| ci_eq_range(s, lo, hi, "inf"@)
    ||| ci_eq_range(s, lo, hi, "infinity"@)
    ||| ci_eq_range(s, lo, hi, "nan"@)
}

/// The range is a decimal mantissa: digits, optionally with one
/// point, with at least one digit somewhere.
pub open spec fn is_mantissa_range(s: Seq<char>, lo: int, hi: int) -> bool {
    let dp = first_where(s, lo, hi, dot_pred());
    if dp == -1 {
        hi - lo >= 1 && all_digits_range(s, lo, hi)
    } else {
        all_digits_range(s, lo, dp) && all_digits_range(s, dp + 1, hi) && hi - lo >= 2
    }
}

/// The range is an exponent tail: an optional sign, then at least
/// one digit.
pub open spec fn is_exp_range(s: Seq<char>, lo: int, hi: int) -> bool {
    let st = if lo < hi && is_sign(s[lo]) {
        lo + 1
    } else {
        lo
    };
    hi - st >= 1 && all_digits_range(s, st, hi)
}

/// The range is a decimal number, optionally with an exponent.
pub open spec fn is_number_range(s: Seq<char>, lo: int, hi: int) -> bool {
    let ep = first_where(s, lo, hi, e_pred());
    if ep == -1 {
        is_mantissa_range(s, lo, hi)
    } else {
        is_mantissa_range(s, lo, ep) && is_exp_range(s, ep + 1, hi)
    }
}

/// The whole of `s` is numeric text: an optional sign, then a special
/// word or a decimal number.
pub open spec fn is_numeric_literal(s: Seq<char>) -> bool {
    let n = s.len() as int;
    let lo = if 0 < n && is_sign(s[0]) {
        1int
    } else {
        0int
    };
    is_inf_nan_range(s, lo, n) || is_number_range(s, lo, n)
}

/// Compares `[lo, hi)` of `s` with a lower-case ASCII word,
/// case-insensitively.
fn ci_match(s: &str, lo: usize, hi: usize, w: &str) -> (r: bool)
    requires
        lo <= hi <= s@.len(),
    ensures
        r == ci_eq_range(s@, lo as int, hi as int, w@),
{
    let wn = w.unicode_len();
    if hi - lo != wn {
        return false;
    }
    let mut j: usize = 0;
    while j < wn
        invariant
            0 <= j <= wn == w@.len(),
            lo + wn == hi <= s@.len(),
            forall|k: int| 0 <= k < j ==> ci_char(s@[lo + k], w@[k]),
        decreases wn - j,
    {
        let c = s.get_char(lo + j);
        let l = w.get_char(j);
        if !(c == l || (c as u32) + 32 == (l as u32)) {
            return false;
        }
        j = j + 1;
    }
    true
}

/// Checks that `[lo, hi)` of `s` holds only decimal digits.
fn digits_range(s: &str, lo: usize, hi: usize) -> (r: bool)
    requires
        lo <= hi <= s@.len(),
    ensures
        r == all_digits_range(s@, lo as int, hi as int),
{
    let mut j: usize = lo;
    while j < hi
        invariant
            lo <= j <= hi <= s@.len(),
            forall|k: int| lo <= k < j ==> is_digit(s@[k]),
        decreases hi - j,
    {
        let c = s.get_char(j);
        if !('0' <= c && c <= '9') {
            return false;
        }
        j = j + 1;
    }
    true
}

/// The first position of a character satisfying `dot` (when `dots`
/// is true) or an exponent marker (when it is false) in `[lo, hi)`,
/// or `hi` when there is none.
fn find_first_pos(s: &str, lo: usize, hi: usize, dots: bool) -> (r: usize)
    requires
        lo <= hi <= s@.len(),
    ensures
        ({
            let p = if dots {
                dot_pred()
            } else {
                e_pred()
            };
            let fp = first_where(s@, lo as int, hi as int, p);
            &&& (fp == -1 <==> r == hi)
            &&& (fp != -1 ==> r as int == fp && lo <= r < hi)
        }),
{
    let ghost p = if dots {
        dot_pred()
    } else {
        e_pred()
    };
    let mut j: usize = lo;
    while j < hi
        invariant
            lo <= j <= hi <= s@.len(),
            p == if dots {
                dot_pred()
            } else {
                e_pred()
            },
            forall|k: int| lo <= k < j ==> !p(s@[k]),
        decreases hi - j,
    {
        let c = s.get_char(j);
        let hit = if dots {
            c == '.'
        } else {
            c == 'e' || c == 'E'
        };
        if hit {
            proof {
                lemma_first_where_at(s@, lo as int, hi as int, p, j as int);
            }
            return j;
        }
        j = j + 1;
    }
    proof {
        lemma_first_where_props(s@, lo as int, hi as int, p);
        if first_where(s@, lo as int, hi as int, p) != -1 {
            assert(p(s@[first_where(s@, lo as int, hi as int, p)]));
        }
    }
    hi
}

/// Checks that `[lo, hi)` of `s` is a decimal mantissa.
fn mantissa_range(s: &str, lo: usize, hi: usize) -> (r: bool)
    requires
        lo <= hi <= s@.len(),
    ensures
        r == is_mantissa_range(s@, lo as int, hi as int),
{
    let dp = find_first_pos(s, lo, hi, true);
    if dp == hi {
        hi - lo >= 1 && digits_range(s, lo, hi)
    } else {
        let a = digits_range(s, lo, dp);
        let b = digits_range(s, dp + 1, hi);
        a && b && hi - lo >= 2
    }
}

/// Checks that `[lo, hi)` of `s` is an exponent tail.
fn exp_range(s: &str, lo: usize, hi: usize) -> (r: bool)
    requires
        lo <= hi <= s@.len(),
    ensures
        r == is_exp_range(s@, lo as int, hi as int),
{
    let st = if lo < hi {
        let c = s.get_char(lo);
        if c == '+' || c == '-' {
            lo + 1
        } else {
            lo
        }
    } else {
        lo
    };
    hi - st >= 1 && digits_range(s, st, hi)
}

/// Checks that the whole of `s` is numeric text in the grammar above.
pub fn is_numeric_text(s: &str) -> (r: bool)
    ensures
        r == is_numeric_literal(s@),
{
    let n = s.unicode_len();
    let lo = if n > 0 {
        let c = s.get_char(0);
        if c == '+' || c == '-' {
            1
        } else {
            0
        }
    } else {
        0
    };
    if ci_match(s, lo, n, "inf") || ci_match(s, lo, n, "infinity") || ci_match(s, lo, n, "nan") {
        return true;
    }
    let ep = find_first_pos(s, lo, n, false);
    if ep == n {
        mantissa_range(s, lo, n)
    } else {
        let a = mantissa_range(s, lo, ep);
        let b = exp_range(s, ep + 1, n);
        a && b
    }
}

} // verus!
