//! Text helpers: character sequences of strings, substring search, case
//! folding, and the decimal and hexadecimal rendering of integers.

use vstd::prelude::*;

verus! {

broadcast use vstd::string::group_string_axioms;

/// The characters of a string slice.
pub fn chars_of(s: &str) -> (r: Vec<char>)
    ensures
        r@ == s@,
{
    let mut v: Vec<char> = Vec::new();
    for c in it: s.chars()
        invariant
            v@ == it.seq().take(it.index() as int),
    {
        v.push(c);
    }
    v
}

/// Appends one character to a string (std `String::push`).
#[verifier::external_body]
pub(crate) fn push_char(s: &mut String, c: char)
    ensures
        final(s)@ == old(s)@.push(c),
{
    s.push(c);
}

/// Appends a string slice to a string.
pub fn push_str(s: &mut String, t: &str)
    ensures
        final(s)@ == old(s)@ + t@,
{
    s.append(t);
}

/// A string holding the given characters.
pub fn string_from_chars(v: &[char]) -> (r: String)
    ensures
        r@ == v@,
{
    let mut s = String::new();
    let mut i: usize = 0;
    while i < v.len()
        invariant
            i <= v@.len(),
            s@ == v@.subrange(0, i as int),
        decreases v@.len() - i,
    {
        push_char(&mut s, v[i]);
        i = i + 1;
        assert(s@ =~= v@.subrange(0, i as int));
    }
    assert(v@.subrange(0, v@.len() as int) =~= v@);
    s
}

/// A string holding the characters of a string slice.
pub fn string_of(t: &str) -> (r: String)
    ensures
        r@ == t@,
{
    let mut s = String::new();
    push_str(&mut s, t);
    assert(s@ =~= t@);
    s
}

/// A copy of a string.
pub fn copy_string(t: &String) -> (r: String)
    ensures
        r@ == t@,
{
    string_of(t.as_str())
}

/// Whether `needle` occurs in `hay` at position `i`.
pub open spec fn occurs_at(hay: Seq<char>, needle: Seq<char>, i: int) -> bool {
    0 <= i && i + needle.len() <= hay.len() && hay.subrange(i, i + needle.len()) == needle
}

/// Whether `needle` occurs anywhere in `hay`.
pub open spec fn contains_sub(hay: Seq<char>, needle: Seq<char>) -> bool {
    exists|i: int| occurs_at(hay, needle, i)
}

/// Every sequence contains the empty sequence.
pub proof fn lemma_contains_empty(hay: Seq<char>)
    ensures
        contains_sub(hay, Seq::empty()),
{
    assert(hay.subrange(0, 0) =~= Seq::<char>::empty());
    assert(occurs_at(hay, Seq::empty(), 0));
}

fn matches_at(hay: &[char], needle: &[char], i: usize) -> (r: bool)
    requires
        i + needle@.len() <= hay@.len(),
    ensures
        r == occurs_at(hay@, needle@, i as int),
{
    let n = needle.len();
    let h = hay.len();
    let mut k: usize = 0;
    while k < n
        invariant
            n == needle@.len(),
            h == hay@.len(),
            i + needle@.len() <= hay@.len(),
            k <= needle@.len(),
            forall|j: int| 0 <= j < k ==> hay@[i + j] == needle@[j],
        decreases needle@.len() - k,
    {
        if hay[i + k] != needle[k] {
            assert(hay@.subrange(i as int, i + needle@.len())[k as int] != needle@[k as int]);
            return false;
        }
        k = k + 1;
    }
    assert(hay@.subrange(i as int, i + needle@.len()) =~= needle@);
    true
}

/// Whether `needle` occurs in `hay`.
pub fn find_sub(hay: &[char], needle: &[char]) -> (r: bool)
    ensures
        r == contains_sub(hay@, needle@),
{
    if needle.len() == 0 {
        proof {
            assert(needle@ =~= Seq::<char>::empty());
            lemma_contains_empty(hay@);
        }
        return true;
    }
    if needle.len() > hay.len() {
        return false;
    }
    let h = hay.len();
    let last = h - needle.len();
    let mut i: usize = 0;
    while i <= last
        invariant
            h == hay@.len(),
            needle@.len() >= 1,
            last + needle@.len() == hay@.len(),
            i <= last + 1,
            forall|j: int| 0 <= j < i ==> !occurs_at(hay@, needle@, j),
        decreases last + 1 - i,
    {
        if matches_at(hay, needle, i) {
            return true;
        }
        i = i + 1;
    }
    assert forall|j: int| !occurs_at(hay@, needle@, j) by {
        if 0 <= j && j <= last as int {
            assert(j < i);
        }
    }
    false
}

/// Position of the first occurrence of `needle` in `hay` at or after `i`
/// (a position inside `hay`).
pub open spec fn first_from(hay: Seq<char>, needle: Seq<char>, i: int) -> Option<int>
    decreases hay.len() - i,
{
    if i < 0 || i >= hay.len() || i + needle.len() > hay.len() {
        None
    } else if occurs_at(hay, needle, i) {
        Some(i)
    } else {
        first_from(hay, needle, i + 1)
    }
}

/// Position of the first occurrence of `needle` in `hay` at or after `from`.
pub fn find_from(hay: &[char], needle: &[char], from: usize) -> (r: Option<usize>)
    ensures
        match first_from(hay@, needle@, from as int) {
            Some(i) => r == Some(i as usize),
            None => r is None,
        },
    decreases hay@.len() - from,
{
    if from >= hay.len() || needle.len() > hay.len() - from {
        return None;
    }
    if matches_at(hay, needle, from) {
        return Some(from);
    }
    find_from(hay, needle, from + 1)
}

/// Lowercase mapping of a string, as std's `str::to_lowercase` computes it.
pub uninterp spec fn lowercase(s: Seq<char>) -> Seq<char>;

/// Calls std `str::to_lowercase`. Its result is named [`lowercase`] of the
/// argument's characters; the empty string maps to the empty string.
#[verifier::external_body]
pub(crate) fn to_lowercase(s: &str) -> (r: String)
    ensures
        r@ == lowercase(s@),
        s@.len() == 0 ==> r@.len() == 0,
{
    s.to_lowercase()
}

/// The character of a decimal or hexadecimal digit (upper case letters).
pub open spec fn digit_char(d: int) -> char {
    if d < 10 {
        ((48 + d) as u8) as char
    } else {
        ((55 + d) as u8) as char
    }
}

/// Decimal digits of a natural number.
pub open spec fn decimal(n: nat) -> Seq<char>
    decreases n,
{
    if n < 10 {
        seq![digit_char(n as int)]
    } else {
        decimal(n / 10).push(digit_char((n % 10) as int))
    }
}

/// Decimal rendering of an integer, with a leading `-` when negative.
pub open spec fn signed_decimal(n: int) -> Seq<char> {
    if n < 0 {
        seq!['-'] + decimal((-n) as nat)
    } else {
        decimal(n as nat)
    }
}

/// Upper-case hexadecimal digits of a natural number.
pub open spec fn hex_upper(n: nat) -> Seq<char>
    decreases n,
{
    if n < 16 {
        seq![digit_char(n as int)]
    } else {
        hex_upper(n / 16).push(digit_char((n % 16) as int))
    }
}

/// Value of a decimal digit character (`'0'` is 0).
pub open spec fn dec_digit_value(c: char) -> int {
    (c as int) - 48
}

/// Whether a character is a decimal digit.
pub open spec fn is_dec_digit(c: char) -> bool {
    48 <= (c as int) <= 57
}

/// The number a sequence of decimal digits reads as.
pub open spec fn dec_digits_value(s: Seq<char>) -> int
    decreases s.len(),
{
    if s.len() == 0 {
        0
    } else {
        dec_digits_value(s.drop_last()) * 10 + dec_digit_value(s.last())
    }
}

/// Whether `s` is the canonical decimal text of `n`: digits only, no
/// leading zero, reading as `n`.
pub open spec fn reads_as_decimal(s: Seq<char>, n: int) -> bool {
    &&& s.len() >= 1
    &&& forall|i: int| 0 <= i < s.len() ==> #[trigger] is_dec_digit(s[i])
    &&& (s.len() > 1 ==> s[0] != '0')
    &&& dec_digits_value(s) == n
}

/// Whether `s` is the canonical signed decimal text of `n`: a `-` before
/// the digits exactly when `n` is negative.
pub open spec fn reads_as_signed(s: Seq<char>, n: int) -> bool {
    if n < 0 {
        s.len() >= 1 && s[0] == '-' && reads_as_decimal(s.drop_first(), -n)
    } else {
        reads_as_decimal(s, n)
    }
}

/// Value of an upper-case hexadecimal digit character.
pub open spec fn hex_digit_value(c: char) -> int {
    if (c as int) <= 57 {
        (c as int) - 48
    } else {
        (c as int) - 55
    }
}

/// Whether a character is an upper-case hexadecimal digit.
pub open spec fn is_hex_digit(c: char) -> bool {
    (48 <= (c as int) <= 57) || (65 <= (c as int) <= 70)
}

/// The number a sequence of upper-case hexadecimal digits reads as.
pub open spec fn hex_digits_value(s: Seq<char>) -> int
    decreases s.len(),
{
    if s.len() == 0 {
        0
    } else {
        hex_digits_value(s.drop_last()) * 16 + hex_digit_value(s.last())
    }
}

/// Whether `s` is the canonical upper-case hexadecimal text of `n`.
pub open spec fn reads_as_hex(s: Seq<char>, n: int) -> bool {
    &&& s.len() >= 1
    &&& forall|i: int| 0 <= i < s.len() ==> #[trigger] is_hex_digit(s[i])
    &&& (s.len() > 1 ==> s[0] != '0')
    &&& hex_digits_value(s) == n
}

proof fn lemma_digit_char(d: int)
    requires
        0 <= d < 16,
    ensures
        d < 10 ==> (digit_char(d) as int) == 48 + d,
        d >= 10 ==> (digit_char(d) as int) == 55 + d,
{
}

/// Law: the decimal text of every natural number reads back as it, in
/// canonical form.
pub proof fn lemma_decimal_reads_back(n: nat)
    ensures
        reads_as_decimal(decimal(n), n as int),
    decreases n,
{
    if n < 10 {
        lemma_digit_char(n as int);
        let s = decimal(n);
        assert(s == seq![digit_char(n as int)]);
        assert(s.drop_last() =~= Seq::<char>::empty());
        assert(dec_digits_value(s.drop_last()) == 0);
        assert(dec_digits_value(s) == n);
        assert(is_dec_digit(s[0]));
        assert forall|i: int| 0 <= i < s.len() implies #[trigger] is_dec_digit(s[i]) by {
            assert(i == 0);
        }
    } else {
        lemma_decimal_reads_back(n / 10);
        lemma_digit_char((n % 10) as int);
        let s = decimal(n);
        assert(s.drop_last() =~= decimal(n / 10));
        assert(s[0] == decimal(n / 10)[0]);
        assert forall|i: int| 0 <= i < s.len() implies #[trigger] is_dec_digit(s[i]) by {
            if i < s.len() - 1 {
                assert(s[i] == decimal(n / 10)[i]);
            }
        }
        lemma_decimal_lead(n / 10);
        assert(s.last() == digit_char((n % 10) as int));
        assert((n / 10) * 10 + n % 10 == n) by (nonlinear_arith);
        assert(dec_digits_value(s) == n);
        assert(s.len() > 1);
    }
}

proof fn lemma_decimal_lead(n: nat)
    requires
        n >= 1,
    ensures
        decimal(n)[0] != '0',
    decreases n,
{
    if n < 10 {
        lemma_digit_char(n as int);
    } else {
        lemma_decimal_lead(n / 10);
        assert(decimal(n)[0] == decimal(n / 10)[0]);
    }
}

/// Law: the signed decimal text of every integer reads back as it: a `-`
/// exactly before the digits of a negative number.
pub proof fn lemma_signed_decimal_reads_back(n: int)
    ensures
        reads_as_signed(signed_decimal(n), n),
{
    if n < 0 {
        lemma_decimal_reads_back((-n) as nat);
        assert(signed_decimal(n).drop_first() =~= decimal((-n) as nat));
    } else {
        lemma_decimal_reads_back(n as nat);
    }
}

proof fn lemma_hex_lead(n: nat)
    requires
        n >= 1,
    ensures
        hex_upper(n)[0] != '0',
    decreases n,
{
    if n < 16 {
        lemma_digit_char(n as int);
    } else {
        lemma_hex_lead(n / 16);
        assert(hex_upper(n)[0] == hex_upper(n / 16)[0]);
    }
}

/// Law: the upper-case hexadecimal text of every natural number reads
/// back as it, in canonical form.
pub proof fn lemma_hex_reads_back(n: nat)
    ensures
        reads_as_hex(hex_upper(n), n as int),
    decreases n,
{
    if n < 16 {
        lemma_digit_char(n as int);
        let s = hex_upper(n);
        assert(s == seq![digit_char(n as int)]);
        assert(s.drop_last() =~= Seq::<char>::empty());
        assert(hex_digits_value(s.drop_last()) == 0);
        assert(hex_digits_value(s) == n);
        assert(is_hex_digit(s[0]));
        assert forall|i: int| 0 <= i < s.len() implies #[trigger] is_hex_digit(s[i]) by {
            assert(i == 0);
        }
    } else {
        lemma_hex_reads_back(n / 16);
        lemma_digit_char((n % 16) as int);
        let s = hex_upper(n);
        assert(s.drop_last() =~= hex_upper(n / 16));
        assert(s[0] == hex_upper(n / 16)[0]);
        assert forall|i: int| 0 <= i < s.len() implies #[trigger] is_hex_digit(s[i]) by {
            if i < s.len() - 1 {
                assert(s[i] == hex_upper(n / 16)[i]);
            }
        }
        lemma_hex_lead(n / 16);
        assert(s.last() == digit_char((n % 16) as int));
        assert((n / 16) * 16 + n % 16 == n) by (nonlinear_arith);
        assert(hex_digits_value(s) == n);
        assert(s.len() > 1);
    }
}

fn digit(d: u64) -> (c: char)
    requires
        d < 16,
    ensures
        c == digit_char(d as int),
{
    if d < 10 {
        ((48 + d) as u8) as char
    } else {
        ((55 + d) as u8) as char
    }
}

/// Appends the decimal digits of `n`.
pub fn push_decimal(s: &mut String, n: u64)
    ensures
        final(s)@ == old(s)@ + decimal(n as nat),
    decreases n,
{
    if n >= 10 {
        push_decimal(s, n / 10);
    }
    push_char(s, digit(n % 10));
    assert(final(s)@ =~= old(s)@ + decimal(n as nat));
}

/// Appends the decimal rendering of a signed integer.
pub fn push_signed_decimal(s: &mut String, n: i64)
    ensures
        final(s)@ == old(s)@ + signed_decimal(n as int),
{
    if n < 0 {
        push_char(s, '-');
        let m: u64 = ((-(n + 1)) as u64) + 1;
        push_decimal(s, m);
        assert(final(s)@ =~= old(s)@ + signed_decimal(n as int));
    } else {
        push_decimal(s, n as u64);
    }
}

/// Appends the upper-case hexadecimal digits of `n`.
pub fn push_hex(s: &mut String, n: u64)
    ensures
        final(s)@ == old(s)@ + hex_upper(n as nat),
    decreases n,
{
    if n >= 16 {
        push_hex(s, n / 16);
    }
    push_char(s, digit(n % 16));
    assert(final(s)@ =~= old(s)@ + hex_upper(n as nat));
}

} // verus!
