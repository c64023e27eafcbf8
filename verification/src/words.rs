//! Reading a line of text: white space, letter case, words and numerals.

use vstd::prelude::*;
use crate::text::slice_of;

verus! {

/// A white-space character, as Unicode lists them (the property `White_Space`).
pub open spec fn is_space(c: char) -> bool {
    let n = c as u32;
    (0x09 <= n <= 0x0d) || n == 0x20 || n == 0x85 || n == 0xa0 || n == 0x1680 || (0x2000 <= n
        <= 0x200a) || n == 0x2028 || n == 0x2029 || n == 0x202f || n == 0x205f || n == 0x3000
}

/// Whether `c` is a white-space character.
pub fn is_space_char(c: char) -> (r: bool)
    ensures
        r == is_space(c),
{
    let n: u32 = c as u32;
    (0x09 <= n && n <= 0x0d) || n == 0x20 || n == 0x85 || n == 0xa0 || n == 0x1680 || (0x2000 <= n
        && n <= 0x200a) || n == 0x2028 || n == 0x2029 || n == 0x202f || n == 0x205f || n == 0x3000
}

/// `c` in lower case where it is one of the letters `A` to `Z`, else `c` itself.
pub open spec fn lower_char(c: char) -> char {
    if 'A' <= c <= 'Z' {
        ((c as u8) + 32) as char
    } else {
        c
    }
}

/// `s` with its letters `A` to `Z` in lower case.
pub open spec fn lowered(s: Seq<char>) -> Seq<char> {
    s.map_values(|c: char| lower_char(c))
}

/// The first position at or after `from` that holds no white space.
pub open spec fn first_nonspace(s: Seq<char>, from: int) -> int
    decreases s.len() - from,
{
    if from >= s.len() {
        s.len() as int
    } else if !is_space(s[from]) {
        from
    } else {
        first_nonspace(s, from + 1)
    }
}

/// The end of the last stretch without white space that ends at or before `upto`.
pub open spec fn last_nonspace_end(s: Seq<char>, upto: int) -> int
    decreases upto,
{
    if upto <= 0 {
        0
    } else if !is_space(s[upto - 1]) {
        upto
    } else {
        last_nonspace_end(s, upto - 1)
    }
}

/// `s` without the white space at its two ends.
pub open spec fn trimmed(s: Seq<char>) -> Seq<char> {
    let a = first_nonspace(s, 0);
    let b = last_nonspace_end(s, s.len() as int);
    if a < b {
        s.subrange(a, b)
    } else {
        Seq::empty()
    }
}

/// The words of `s`: its longest stretches without white space, in order.
pub open spec fn words(s: Seq<char>) -> Seq<Seq<char>>
    decreases s.len(),
{
    if s.len() == 0 {
        Seq::empty()
    } else {
        let before = words(s.drop_last());
        if is_space(s.last()) {
            before
        } else if s.len() >= 2 && !is_space(s[s.len() - 2]) {
            before.drop_last().push(before.last().push(s.last()))
        } else {
            before.push(seq![s.last()])
        }
    }
}

/// The character sequences that a list of character vectors holds.
pub open spec fn rows(items: Seq<Vec<char>>) -> Seq<Seq<char>> {
    items.map_values(|r: Vec<char>| r@)
}

/// One of the digits `0` to `9`.
pub open spec fn is_digit(c: char) -> bool {
    '0' <= c <= '9'
}

/// Whether `s` holds digits only.
pub open spec fn all_digits(s: Seq<char>) -> bool {
    forall|i: int| 0 <= i < s.len() ==> is_digit(#[trigger] s[i])
}

/// The number that a sequence of digits writes in base ten.
pub open spec fn digits_value(s: Seq<char>) -> nat
    decreases s.len(),
{
    if s.len() == 0 {
        0
    } else {
        digits_value(s.drop_last()) * 10 + ((s.last() as u32 - 48) as nat)
    }
}

/// The digits of a numeral that may begin with a plus sign.
pub open spec fn numeral_digits(word: Seq<char>) -> Seq<char> {
    if word.len() > 0 && word[0] == '+' {
        word.skip(1)
    } else {
        word
    }
}

/// The number that `word` writes: `word` is one or more digits, a plus sign
/// before them or not, and the number fits in 64 bits. `None` otherwise.
pub open spec fn numeral_value(word: Seq<char>) -> Option<u64> {
    let d = numeral_digits(word);
    if d.len() > 0 && all_digits(d) && digits_value(d) <= u64::MAX {
        Some(digits_value(d) as u64)
    } else {
        None
    }
}

proof fn lemma_last_nonspace_end_bound(s: Seq<char>, upto: int)
    ensures
        last_nonspace_end(s, upto) <= if upto < 0 { 0 } else { upto },
        last_nonspace_end(s, upto) >= 0,
    decreases upto,
{
    if upto > 0 && is_space(s[upto - 1]) {
        lemma_last_nonspace_end_bound(s, upto - 1);
    }
}

proof fn lemma_digits_grow(s: Seq<char>, n: int)
    requires
        0 <= n <= s.len(),
        all_digits(s),
    ensures
        digits_value(s.take(n)) <= digits_value(s),
    decreases s.len() - n,
{
    if n < s.len() {
        lemma_digits_grow(s, n + 1);
        assert(s.take(n + 1).drop_last() =~= s.take(n));
        assert(is_digit(s[n]));
    } else {
        assert(s.take(n) =~= s);
    }
}

/// `s` with its letters `A` to `Z` in lower case.
pub fn lower_of(s: &Vec<char>) -> (out: Vec<char>)
    ensures
        out@ == lowered(s@),
{
    let mut out: Vec<char> = Vec::new();
    let mut i: usize = 0;
    while i < s.len()
        invariant
            i <= s.len(),
            out@ == lowered(s@).take(i as int),
        decreases s.len() - i,
    {
        let c = s[i];
        let r = if c >= 'A' && c <= 'Z' {
            ((c as u8) + 32u8) as char
        } else {
            c
        };
        out.push(r);
        assert(lowered(s@).take(i as int).push(r) =~= lowered(s@).take(i + 1));
        i += 1;
    }
    assert(lowered(s@).take(s@.len() as int) =~= lowered(s@));
    out
}

/// `s` without the white space at its two ends.
pub fn trim_of(s: &Vec<char>) -> (out: Vec<char>)
    ensures
        out@ == trimmed(s@),
{
    let mut a: usize = 0;
    while a < s.len() && is_space_char(s[a])
        invariant
            a <= s.len(),
            first_nonspace(s@, 0) == first_nonspace(s@, a as int),
        decreases s.len() - a,
    {
        a += 1;
    }
    let mut b: usize = s.len();
    while b > a && is_space_char(s[b - 1])
        invariant
            a <= b <= s.len(),
            last_nonspace_end(s@, s@.len() as int) == last_nonspace_end(s@, b as int),
        decreases b,
    {
        b -= 1;
    }
    proof {
        lemma_last_nonspace_end_bound(s@, b as int);
        if a == b {
            assert(s@.subrange(a as int, b as int) =~= Seq::<char>::empty());
        }
    }
    slice_of(s, a, b)
}

/// The words of `s`.
pub fn words_of(s: &Vec<char>) -> (out: Vec<Vec<char>>)
    ensures
        rows(out@) == words(s@),
{
    let mut out: Vec<Vec<char>> = Vec::new();
    let mut cur: Vec<char> = Vec::new();
    let mut i: usize = 0;
    assert(rows(out@) =~= words(s@.take(0)));
    while i < s.len()
        invariant
            i <= s.len(),
            cur@.len() > 0 ==> i > 0 && !is_space(s@[i - 1]) && words(s@.take(i as int)) == rows(
                out@,
            ).push(cur@),
            cur@.len() == 0 ==> (i == 0 || is_space(s@[i - 1])) && words(s@.take(i as int))
                == rows(out@),
        decreases s.len() - i,
    {
        let c = s[i];
        let ghost prev = s@.take(i as int);
        let ghost now = s@.take(i + 1);
        assert(now.drop_last() =~= prev);
        assert(now.last() == c);
        if is_space_char(c) {
            if cur.len() > 0 {
                let ghost done = rows(out@);
                let ghost word = cur@;
                out.push(cur);
                cur = Vec::new();
                assert(rows(out@) =~= done.push(word));
            }
        } else {
            let ghost word = cur@;
            cur.push(c);
            proof {
                if word.len() > 0 {
                    assert(words(now) =~= rows(out@).push(cur@));
                } else {
                    assert(seq![c] =~= cur@);
                }
            }
        }
        i += 1;
    }
    assert(s@.take(s@.len() as int) =~= s@);
    if cur.len() > 0 {
        let ghost done = rows(out@);
        let ghost word = cur@;
        out.push(cur);
        assert(rows(out@) =~= done.push(word));
    }
    out
}

/// Reads `word` as a number.
pub fn parse_numeral(word: &Vec<char>) -> (r: Option<u64>)
    ensures
        r == numeral_value(word@),
{
    let start: usize = if word.len() > 0 && word[0] == '+' {
        1
    } else {
        0
    };
    let ghost d = numeral_digits(word@);
    assert(d =~= word@.skip(start as int));
    if start == word.len() {
        return None;
    }
    let mut value: u64 = 0;
    let mut i: usize = start;
    while i < word.len()
        invariant
            start <= i <= word.len(),
            d == word@.skip(start as int),
            d == numeral_digits(word@),
            all_digits(d.take(i - start)),
            value as nat == digits_value(d.take(i - start)),
        decreases word.len() - i,
    {
        let c = word[i];
        assert(d[i - start] == c);
        if !(c >= '0' && c <= '9') {
            assert(!is_digit(d[i - start]));
            return None;
        }
        let digit: u64 = (c as u32 - 48) as u64;
        let ghost next = d.take(i - start + 1);
        assert(next.drop_last() =~= d.take(i - start));
        assert(next.last() == c);
        if value > (u64::MAX - digit) / 10 {
            proof {
                assert(digits_value(next) > u64::MAX);
                if all_digits(d) {
                    lemma_digits_grow(d, i - start + 1);
                }
            }
            return None;
        }
        value = value * 10 + digit;
        i += 1;
    }
    assert(d.take(word@.len() - start) =~= d);
    assert(d.len() > 0);
    Some(value)
}

/// The number that `word` writes, with a sign or without: `word` is one or
/// more digits after an optional `+` or `-`, and the number fits in 64 bits
/// with its sign. `None` otherwise.
pub open spec fn signed_value(word: Seq<char>) -> Option<i64> {
    if word.len() > 0 && word[0] == '-' {
        let d = word.skip(1);
        if d.len() > 0 && all_digits(d) && digits_value(d) <= 0x8000_0000_0000_0000 {
            Some((-(digits_value(d) as int)) as i64)
        } else {
            None
        }
    } else {
        match numeral_value(word) {
            Some(n) => if n <= i64::MAX {
                Some(n as i64)
            } else {
                None
            },
            None => None,
        }
    }
}

/// The fields of `s`: what stands between its separators `sep`, in order.
/// A text without a separator is one field.
pub open spec fn fields(s: Seq<char>, sep: char) -> Seq<Seq<char>>
    decreases s.len(),
{
    if s.len() == 0 {
        seq![Seq::empty()]
    } else {
        let before = fields(s.drop_last(), sep);
        if s.last() == sep {
            before.push(Seq::empty())
        } else {
            before.drop_last().push(before.last().push(s.last()))
        }
    }
}

/// The fields of `s`.
pub fn fields_of(s: &Vec<char>, sep: char) -> (out: Vec<Vec<char>>)
    ensures
        rows(out@) == fields(s@, sep),
{
    let mut out: Vec<Vec<char>> = Vec::new();
    let mut cur: Vec<char> = Vec::new();
    let mut i: usize = 0;
    assert(rows(out@).push(cur@) =~= fields(s@.take(0), sep));
    while i < s.len()
        invariant
            i <= s.len(),
            fields(s@.take(i as int), sep) == rows(out@).push(cur@),
        decreases s.len() - i,
    {
        let c = s[i];
        let ghost now = s@.take(i + 1);
        assert(now.drop_last() =~= s@.take(i as int));
        assert(now.last() == c);
        let ghost done = rows(out@);
        let ghost word = cur@;
        if c == sep {
            out.push(cur);
            cur = Vec::new();
            assert(rows(out@) =~= done.push(word));
            assert(fields(now, sep) =~= rows(out@).push(cur@));
        } else {
            cur.push(c);
            assert(fields(now, sep) =~= rows(out@).push(cur@));
        }
        i += 1;
    }
    assert(s@.take(s@.len() as int) =~= s@);
    let ghost done = rows(out@);
    let ghost word = cur@;
    out.push(cur);
    assert(rows(out@) =~= done.push(word));
    out
}

/// Reads `word` as a number with a sign or without.
pub fn parse_signed(word: &Vec<char>) -> (r: Option<i64>)
    ensures
        r == signed_value(word@),
{
    if word.len() > 0 && word[0] == '-' {
        let digits = slice_of(word, 1, word.len());
        assert(digits@ =~= word@.skip(1));
        if digits.len() > 0 && digits[0] == '+' {
            assert(!is_digit(digits@[0]));
            return None;
        }
        assert(numeral_digits(digits@) == digits@);
        match parse_numeral(&digits) {
            Some(n) => {
                if n < 0x8000_0000_0000_0000 {
                    Some(-(n as i64))
                } else if n == 0x8000_0000_0000_0000 {
                    Some(i64::MIN)
                } else {
                    None
                }
            },
            None => None,
        }
    } else {
        match parse_numeral(word) {
            Some(n) => if n <= 0x7fff_ffff_ffff_ffff {
                Some(n as i64)
            } else {
                None
            },
            None => None,
        }
    }
}

} // verus!
