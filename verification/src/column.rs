use vstd::prelude::*;

verus! {

/// The column letter with index `i`, counting `'A'` as index zero.
pub open spec fn col_letter(i: nat) -> char {
    if i == 0 {
        'A'
    } else if i == 1 {
        'B'
    } else if i == 2 {
        'C'
    } else if i == 3 {
        'D'
    } else if i == 4 {
        'E'
    } else if i == 5 {
        'F'
    } else if i == 6 {
        'G'
    } else if i == 7 {
        'H'
    } else if i == 8 {
        'I'
    } else if i == 9 {
        'J'
    } else if i == 10 {
        'K'
    } else if i == 11 {
        'L'
    } else if i == 12 {
        'M'
    } else if i == 13 {
        'N'
    } else if i == 14 {
        'O'
    } else if i == 15 {
        'P'
    } else if i == 16 {
        'Q'
    } else if i == 17 {
        'R'
    } else if i == 18 {
        'S'
    } else if i == 19 {
        'T'
    } else if i == 20 {
        'U'
    } else if i == 21 {
        'V'
    } else if i == 22 {
        'W'
    } else if i == 23 {
        'X'
    } else if i == 24 {
        'Y'
    } else {
        'Z'
    }
}

/// The index of an upper-case column letter, counting `'A'` as zero.
pub open spec fn letter_index(c: char) -> nat {
    ((c as int) - ('A' as int)) as nat
}

/// The bijective base-26 letter code of column `n`: column 1 is `A`,
/// column 26 is `Z`, column 27 is `AA`.  Column 0 has an empty code.
pub open spec fn col_chars(n: nat) -> Seq<char>
    decreases n,
{
    if n == 0 {
        Seq::<char>::empty()
    } else {
        col_chars(((n - 1) as nat) / 26).push(col_letter(((n - 1) as nat) % 26))
    }
}

/// The column number denoted by a letter code, the inverse of
/// `col_chars`; an empty code denotes column 0.
pub open spec fn col_val(s: Seq<char>) -> nat
    decreases s.len(),
{
    if s.len() == 0 {
        0
    } else {
        26 * col_val(s.drop_last()) + letter_index(s.last()) + 1
    }
}

/// A well-formed column code: at least one letter, all upper-case.
pub open spec fn is_col_str(s: Seq<char>) -> bool {
    s.len() >= 1 && forall|i: int| 0 <= i < s.len() ==> 'A' <= #[trigger] s[i] <= 'Z'
}

/// Decoding inverts encoding: the letter code of any column number
/// denotes that column.
pub proof fn lemma_col_roundtrip(n: nat)
    ensures
        col_val(col_chars(n)) == n,
    decreases n,
{
    if n > 0 {
        let m: nat = ((n - 1) as nat) / 26;
        let r: nat = ((n - 1) as nat) % 26;
        lemma_col_roundtrip(m);
        assert(col_chars(n) == col_chars(m).push(col_letter(r)));
        assert(col_chars(m).push(col_letter(r)).drop_last() =~= col_chars(m));
        assert(letter_index(col_letter(r)) == r);
        assert(26 * m + r == n - 1) by {
            vstd::arithmetic::div_mod::lemma_fundamental_div_mod((n - 1) as int, 26);
        }
    }
}

/// Column codes are injective: equal codes denote equal columns.
/// With `lemma_col_roundtrip` this makes the encoding bijective.
pub proof fn lemma_col_chars_injective(a: nat, b: nat)
    requires
        col_chars(a) == col_chars(b),
    ensures
        a == b,
{
    lemma_col_roundtrip(a);
    lemma_col_roundtrip(b);
}

/// The letter code of a positive column number is well formed.
pub proof fn lemma_col_chars_wf(n: nat)
    ensures
        n >= 1 ==> is_col_str(col_chars(n)),
        col_chars(n).len() <= n,
    decreases n,
{
    if n > 0 {
        let m: nat = ((n - 1) as nat) / 26;
        let r: nat = ((n - 1) as nat) % 26;
        lemma_col_chars_wf(m);
        assert('A' <= col_letter(r) <= 'Z');
        assert(forall|i: int|
            0 <= i < col_chars(n).len() ==> 'A' <= #[trigger] col_chars(n)[i] <= 'Z');
    }
}

/// A one-letter string slice holding the column letter with index `i`.
fn letter_str(i: u64) -> (s: &'static str)
    requires
        i < 26,
    ensures
        s@ == seq![col_letter(i as nat)],
        s@.len() == 1,
{
    proof {
        reveal_strlit("A");
        reveal_strlit("B");
        reveal_strlit("C");
        reveal_strlit("D");
        reveal_strlit("E");
        reveal_strlit("F");
        reveal_strlit("G");
        reveal_strlit("H");
        reveal_strlit("I");
        reveal_strlit("J");
        reveal_strlit("K");
        reveal_strlit("L");
        reveal_strlit("M");
        reveal_strlit("N");
        reveal_strlit("O");
        reveal_strlit("P");
        reveal_strlit("Q");
        reveal_strlit("R");
        reveal_strlit("S");
        reveal_strlit("T");
        reveal_strlit("U");
        reveal_strlit("V");
        reveal_strlit("W");
        reveal_strlit("X");
        reveal_strlit("Y");
        reveal_strlit("Z");
    }
    let s: &'static str = match i {
        0 => "A",
        1 => "B",
        2 => "C",
        3 => "D",
        4 => "E",
        5 => "F",
        6 => "G",
        7 => "H",
        8 => "I",
        9 => "J",
        10 => "K",
        11 => "L",
        12 => "M",
        13 => "N",
        14 => "O",
        15 => "P",
        16 => "Q",
        17 => "R",
        18 => "S",
        19 => "T",
        20 => "U",
        21 => "V",
        22 => "W",
        23 => "X",
        24 => "Y",
        _ => "Z",
    };
    proof {
        assert(s@ =~= seq![col_letter(i as nat)]);
    }
    s
}

/// Renders the bijective base-26 letter code of column `n`; column 0
/// renders as the empty string.
pub fn encode_column(n: u64) -> (s: String)
    ensures
        s@ == col_chars(n as nat),
    decreases n,
{
    if n == 0 {
        String::new()
    } else {
        let mut s = encode_column((n - 1) / 26);
        s.append(letter_str((n - 1) % 26));
        proof {
            assert(s@ =~= col_chars(n as nat));
        }
        s
    }
}

/// A letter code extended on the right denotes a larger column.
proof fn lemma_col_val_step_grows(s: Seq<char>, i: int)
    requires
        0 <= i < s.len(),
    ensures
        col_val(s.subrange(0, i + 1)) > col_val(s.subrange(0, i)),
{
    let t = s.subrange(0, i + 1);
    assert(t.drop_last() =~= s.subrange(0, i));
    assert(col_val(t) == 26 * col_val(s.subrange(0, i)) + letter_index(t.last()) + 1);
    assert(26 * col_val(s.subrange(0, i)) >= col_val(s.subrange(0, i)));
}

/// The column denoted by a code is at least the column denoted by any
/// of its prefixes.
proof fn lemma_col_val_prefix(s: Seq<char>, i: int)
    requires
        0 <= i <= s.len(),
    ensures
        col_val(s) >= col_val(s.subrange(0, i)),
    decreases s.len() - i,
{
    if i < s.len() {
        lemma_col_val_step_grows(s, i);
        lemma_col_val_prefix(s, i + 1);
    } else {
        assert(s.subrange(0, i) =~= s);
    }
}

/// Decodes an upper-case letter code back to its column number.
/// Returns `None` when the code is empty, holds a character other than
/// `A`..`Z`, or denotes a column too large for a `u64`.
pub fn decode_column(s: &str) -> (r: Option<u64>)
    ensures
        match r {
            Some(v) => is_col_str(s@) && v == col_val(s@),
            None => !is_col_str(s@) || col_val(s@) > u64::MAX,
        },
{
    let len = s.unicode_len();
    if len == 0 {
        return None;
    }
    let mut acc: u64 = 0;
    let mut i: usize = 0;
    while i < len
        invariant
            0 < len == s@.len(),
            0 <= i <= len,
            acc == col_val(s@.subrange(0, i as int)),
            forall|j: int| 0 <= j < i ==> 'A' <= #[trigger] s@[j] <= 'Z',
        decreases len - i,
    {
        let c = s.get_char(i);
        if !('A' <= c && c <= 'Z') {
            return None;
        }
        let idx: u64 = (c as u32 as u64) - 65;
        proof {
            assert(idx == letter_index(s@[i as int]));
        }
        let next = match acc.checked_mul(26) {
            Some(m) => m.checked_add(idx + 1),
            None => None,
        };
        match next {
            Some(v) => {
                proof {
                    assert(s@.subrange(0, i + 1).drop_last() =~= s@.subrange(0, i as int));
                    assert(s@.subrange(0, i + 1).last() == s@[i as int]);
                }
                acc = v;
                i = i + 1;
            },
            None => {
                proof {
                    assert(s@.subrange(0, i + 1).drop_last() =~= s@.subrange(0, i as int));
                    assert(col_val(s@.subrange(0, i + 1)) > u64::MAX);
                    lemma_col_val_prefix(s@, i + 1);
                }
                return None;
            },
        }
    }
    proof {
        assert(s@.subrange(0, len as int) =~= s@);
    }
    Some(acc)
}

} // verus!
