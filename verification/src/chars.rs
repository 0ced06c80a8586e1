//! Character-level helpers for the digest header syntax: ASCII case folding,
//! first-occurrence search, and decimal rendering of 32-bit checksums.

use vstd::prelude::*;

verus! {

/// Case-folded image of one character: ASCII capital letters fold to lower
/// case, every other character is kept as it is.
pub open spec fn lower_char(c: char) -> char {
    if c == 'A' { 'a' }
    else if c == 'B' { 'b' }
    else if c == 'C' { 'c' }
    else if c == 'D' { 'd' }
    else if c == 'E' { 'e' }
    else if c == 'F' { 'f' }
    else if c == 'G' { 'g' }
    else if c == 'H' { 'h' }
    else if c == 'I' { 'i' }
    else if c == 'J' { 'j' }
    else if c == 'K' { 'k' }
    else if c == 'L' { 'l' }
    else if c == 'M' { 'm' }
    else if c == 'N' { 'n' }
    else if c == 'O' { 'o' }
    else if c == 'P' { 'p' }
    else if c == 'Q' { 'q' }
    else if c == 'R' { 'r' }
    else if c == 'S' { 's' }
    else if c == 'T' { 't' }
    else if c == 'U' { 'u' }
    else if c == 'V' { 'v' }
    else if c == 'W' { 'w' }
    else if c == 'X' { 'x' }
    else if c == 'Y' { 'y' }
    else if c == 'Z' { 'z' }
    else { c }
}

/// Case-folded image of a character sequence.
pub open spec fn lower(s: Seq<char>) -> Seq<char> {
    s.map_values(|c: char| lower_char(c))
}

/// Fold one ASCII capital letter to lower case.
pub fn lower_char_exec(c: char) -> (r: char)
    ensures
        r == lower_char(c),
{
    if c == 'A' { 'a' }
    else if c == 'B' { 'b' }
    else if c == 'C' { 'c' }
    else if c == 'D' { 'd' }
    else if c == 'E' { 'e' }
    else if c == 'F' { 'f' }
    else if c == 'G' { 'g' }
    else if c == 'H' { 'h' }
    else if c == 'I' { 'i' }
    else if c == 'J' { 'j' }
    else if c == 'K' { 'k' }
    else if c == 'L' { 'l' }
    else if c == 'M' { 'm' }
    else if c == 'N' { 'n' }
    else if c == 'O' { 'o' }
    else if c == 'P' { 'p' }
    else if c == 'Q' { 'q' }
    else if c == 'R' { 'r' }
    else if c == 'S' { 's' }
    else if c == 'T' { 't' }
    else if c == 'U' { 'u' }
    else if c == 'V' { 'v' }
    else if c == 'W' { 'w' }
    else if c == 'X' { 'x' }
    else if c == 'Y' { 'y' }
    else if c == 'Z' { 'z' }
    else { c }
}

/// Whether two strings are equal once both are case-folded.
pub fn eq_ignore_case(a: &str, b: &str) -> (r: bool)
    ensures
        r == (lower(a@) == lower(b@)),
{
    let alen = a.unicode_len();
    let blen = b.unicode_len();
    if alen != blen {
        proof {
            assert(lower(a@).len() != lower(b@).len());
        }
        return false;
    }
    for i in 0..alen
        invariant
            alen == a@.len(),
            alen == b@.len(),
            forall|k: int| 0 <= k < i ==> lower_char(a@[k]) == lower_char(b@[k]),
    {
        let ca = lower_char_exec(a.get_char(i));
        let cb = lower_char_exec(b.get_char(i));
        if ca != cb {
            proof {
                assert(lower(a@)[i as int] != lower(b@)[i as int]);
            }
            return false;
        }
    }
    proof {
        assert(lower(a@) =~= lower(b@));
    }
    true
}

/// Position of the first occurrence of `c` in `s`, if any.
pub open spec fn find_char(s: Seq<char>, c: char) -> Option<int>
    decreases s.len(),
{
    if s.len() == 0 {
        None
    } else if s[0] == c {
        Some(0int)
    } else {
        match find_char(s.drop_first(), c) {
            None => None,
            Some(i) => Some(i + 1),
        }
    }
}

/// `find_char` returns the first position holding `c`, and `None` exactly when
/// `c` does not occur.
pub proof fn lemma_find_char(s: Seq<char>, c: char)
    ensures
        match find_char(s, c) {
            None => forall|k: int| 0 <= k < s.len() ==> s[k] != c,
            Some(i) => 0 <= i < s.len() && s[i] == c && (forall|k: int| 0 <= k < i ==> s[k] != c),
        },
    decreases s.len(),
{
    if s.len() != 0 && s[0] != c {
        lemma_find_char(s.drop_first(), c);
        match find_char(s.drop_first(), c) {
            None => {
                assert forall|k: int| 0 <= k < s.len() implies s[k] != c by {
                    if k > 0 {
                        assert(s.drop_first()[k - 1] == s[k]);
                        assert(s.drop_first()[k - 1] != c);
                    }
                }
            },
            Some(i) => {
                assert(s[i + 1] == s.drop_first()[i]);
                assert forall|k: int| 0 <= k < i + 1 implies s[k] != c by {
                    if k > 0 {
                        assert(s.drop_first()[k - 1] == s[k]);
                        assert(s.drop_first()[k - 1] != c);
                    }
                }
            },
        }
    }
}

/// `find_char` agrees with a directly given first position.
pub proof fn lemma_find_char_at(s: Seq<char>, c: char, i: int)
    requires
        0 <= i < s.len(),
        s[i] == c,
        forall|k: int| 0 <= k < i ==> s[k] != c,
    ensures
        find_char(s, c) == Some(i),
{
    lemma_find_char(s, c);
    match find_char(s, c) {
        None => {
            assert(s[i] != c);
        },
        Some(j) => {
            if j < i {
                assert(s[j] != c);
            } else if j > i {
                assert(s[i] != c);
            }
        },
    }
}

/// `find_char` returns `None` when `c` occurs nowhere in `s`.
pub proof fn lemma_find_char_absent(s: Seq<char>, c: char)
    requires
        forall|k: int| 0 <= k < s.len() ==> s[k] != c,
    ensures
        find_char(s, c) is None,
{
    lemma_find_char(s, c);
    match find_char(s, c) {
        None => {},
        Some(j) => {
            assert(s[j] != c);
        },
    }
}

/// First occurrence of `c` in `s`, as an index usable for slicing.
pub fn find_char_in(s: &str, c: char) -> (r: Option<usize>)
    ensures
        match r {
            None => find_char(s@, c) is None,
            Some(i) => i < s@.len() && find_char(s@, c) == Some(i as int),
        },
{
    let n = s.unicode_len();
    for i in 0..n
        invariant
            n == s@.len(),
            forall|k: int| 0 <= k < i ==> s@[k] != c,
    {
        if s.get_char(i) == c {
            proof {
                lemma_find_char_at(s@, c, i as int);
            }
            return Some(i);
        }
    }
    proof {
        lemma_find_char_absent(s@, c);
    }
    None
}

/// Whether `s` is free of the entry separator of the digest header.
pub open spec fn comma_free(s: Seq<char>) -> bool {
    forall|i: int| 0 <= i < s.len() ==> s[i] != ','
}

/// Decimal digit character for a value below ten.
pub open spec fn dec_digit(d: nat) -> char {
    if d == 0 { '0' }
    else if d == 1 { '1' }
    else if d == 2 { '2' }
    else if d == 3 { '3' }
    else if d == 4 { '4' }
    else if d == 5 { '5' }
    else if d == 6 { '6' }
    else if d == 7 { '7' }
    else if d == 8 { '8' }
    else { '9' }
}

/// Decimal rendering of a natural number, most significant digit first, with
/// no leading zeroes (a single `'0'` for zero).
pub open spec fn dec_str_of(n: nat) -> Seq<char>
    decreases n,
{
    if n < 10 {
        seq![dec_digit(n)]
    } else {
        dec_str_of(n / 10).push(dec_digit(n % 10))
    }
}

/// Whether `c` is a decimal digit character.
pub open spec fn is_dec_digit(c: char) -> bool {
    c == '0' || c == '1' || c == '2' || c == '3' || c == '4' || c == '5' || c == '6' || c == '7'
        || c == '8' || c == '9'
}

/// Every character of a decimal rendering is a digit; in particular the
/// rendering is free of commas and of `'='`.
pub proof fn lemma_dec_str_chars(n: nat)
    ensures
        forall|i: int| 0 <= i < dec_str_of(n).len() ==> is_dec_digit(#[trigger] dec_str_of(n)[i]),
        comma_free(dec_str_of(n)),
        forall|i: int| 0 <= i < dec_str_of(n).len() ==> #[trigger] dec_str_of(n)[i] != '=',
        dec_str_of(n).len() >= 1,
    decreases n,
{
    if n >= 10 {
        lemma_dec_str_chars(n / 10);
    }
}

/// Relies on `String::push` of std: appends exactly the given character at the
/// end of the string.
#[verifier::external_body]
fn string_push_char(s: &mut String, c: char)
    ensures
        final(s)@ == old(s)@.push(c),
{
    s.push(c);
}

/// Append the digit character for `d` to `s`.
fn push_dec_digit(s: &mut String, d: u32)
    requires
        d < 10,
    ensures
        final(s)@ == old(s)@.push(dec_digit(d as nat)),
{
    let c: char = if d == 0 { '0' }
    else if d == 1 { '1' }
    else if d == 2 { '2' }
    else if d == 3 { '3' }
    else if d == 4 { '4' }
    else if d == 5 { '5' }
    else if d == 6 { '6' }
    else if d == 7 { '7' }
    else if d == 8 { '8' }
    else { '9' };
    string_push_char(s, c);
}

/// ASCII decimal rendering of a 32-bit checksum value.
pub fn u32_to_dec_string(n: u32) -> (r: String)
    ensures
        r@ == dec_str_of(n as nat),
    decreases n,
{
    if n < 10 {
        let mut s = String::new();
        push_dec_digit(&mut s, n);
        proof {
            assert(s@ =~= dec_str_of(n as nat));
        }
        s
    } else {
        assert(n / 10 < n && n / 10 >= 1) by (nonlinear_arith)
            requires n >= 10;
        let mut s = u32_to_dec_string(n / 10);
        push_dec_digit(&mut s, n % 10);
        s
    }
}

/// Append the separator used between digest header entries.
pub fn push_comma(s: &mut String)
    ensures
        final(s)@ == old(s)@.push(','),
{
    string_push_char(s, ',');
}

} // verus!
