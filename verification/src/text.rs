//! Character-level helpers shared by the parsers of this crate.

use vstd::prelude::*;

verus! {

/// The characters of a string slice, in order.
pub fn chars_of(s: &str) -> (out: Vec<char>)
    ensures
        out@ == s@,
{
    broadcast use vstd::string::axiom_spec_iter;

    let mut out: Vec<char> = Vec::new();
    for c in it: s.chars()
        invariant
            out@ == it.seq().take(it.index()),
            it.seq() == s@,
    {
        out.push(c);
    }
    out
}

/// Builds a `String` holding exactly the given characters
/// (`FromIterator<char>` for `String`, std).
#[verifier::external_body]
pub(crate) fn string_from_chars(chars: &[char]) -> (s: String)
    ensures
        s@ == chars@,
{
    chars.iter().collect()
}

/// An ASCII decimal digit.
pub open spec fn is_digit(c: char) -> bool {
    '0' <= c && c <= '9'
}

/// Every character is an ASCII decimal digit.
pub open spec fn all_digits(s: Seq<char>) -> bool {
    forall|i: int| 0 <= i < s.len() ==> is_digit(#[trigger] s[i])
}

/// The number that a run of decimal digits denotes (most significant first).
pub open spec fn digits_value(s: Seq<char>) -> nat
    decreases s.len(),
{
    if s.len() == 0 {
        0
    } else {
        digits_value(s.drop_last()) * 10 + ((s.last() as int - '0' as int) as nat)
    }
}

/// What `usize::from_str` accepts: an optional `+` followed by at least one
/// decimal digit, denoting a value that fits in `usize`.
pub open spec fn spec_parse_usize(s: Seq<char>) -> Option<usize> {
    let digits = if s.len() > 0 && s[0] == '+' {
        s.drop_first()
    } else {
        s
    };
    if digits.len() > 0 && all_digits(digits) && digits_value(digits) <= usize::MAX {
        Some(digits_value(digits) as usize)
    } else {
        None
    }
}

proof fn lemma_digits_value_monotone(s: Seq<char>, i: int, j: int)
    requires
        0 <= i <= j <= s.len(),
        all_digits(s),
    ensures
        digits_value(s.take(i)) <= digits_value(s.take(j)),
    decreases j - i,
{
    if i < j {
        lemma_digits_value_monotone(s, i, j - 1);
        assert(s.take(j).drop_last() =~= s.take(j - 1));
        assert(is_digit(s[j - 1]));
    }
}

/// Decimal parse of a run of characters, as `str::parse::<usize>` does it.
pub fn parse_usize(s: &[char]) -> (res: Option<usize>)
    ensures
        res == spec_parse_usize(s@),
{
    let n = s.len();
    let start: usize = if n > 0 && s[0] == '+' {
        1
    } else {
        0
    };
    let ghost digits = s@.subrange(start as int, n as int);
    assert(digits =~= (if s@.len() > 0 && s@[0] == '+' {
        s@.drop_first()
    } else {
        s@
    }));
    assert(spec_parse_usize(s@) == (if digits.len() > 0 && all_digits(digits) && digits_value(digits)
        <= usize::MAX {
        Some(digits_value(digits) as usize)
    } else {
        None
    }));
    if start == n {
        return None;
    }
    let mut value: usize = 0;
    let mut i: usize = start;
    while i < n
        invariant
            start <= i <= n,
            n == s@.len(),
            digits == s@.subrange(start as int, n as int),
            all_digits(digits.take(i - start)),
            value == digits_value(digits.take(i - start)),
            spec_parse_usize(s@) == (if digits.len() > 0 && all_digits(digits) && digits_value(digits)
                <= usize::MAX {
                Some(digits_value(digits) as usize)
            } else {
                None
            }),
        decreases n - i,
    {
        let c = s[i];
        if !('0' <= c && c <= '9') {
            assert(digits[i - start] == c);
            assert(!is_digit(digits[i - start]));
            assert(!all_digits(digits));
            return None;
        }
        let d: usize = ((c as u32) - ('0' as u32)) as usize;
        assert(digits.take(i + 1 - start).drop_last() =~= digits.take(i - start));
        assert(digits.take(i + 1 - start).last() == c);
        if value > (usize::MAX - d) / 10 {
            proof {
                assert(digits_value(digits.take(i + 1 - start)) > usize::MAX) by (nonlinear_arith)
                    requires
                        digits_value(digits.take(i + 1 - start)) == value * 10 + d,
                        value > (usize::MAX - d) / 10,
                        d <= 9,
                ;
                if all_digits(digits) {
                    lemma_digits_value_monotone(digits, i + 1 - start, digits.len() as int);
                    assert(digits.take(digits.len() as int) =~= digits);
                }
            }
            return None;
        }
        assert(value * 10 + d <= usize::MAX) by (nonlinear_arith)
            requires
                value <= (usize::MAX - d) / 10,
                d <= 9,
        ;
        value = value * 10 + d;
        i = i + 1;
    }
    assert(digits.take(n - start) =~= digits);
    Some(value)
}

/// Position of the first occurrence of `c`, as `str::find` with a `char`
/// pattern reports it (counted here in characters).
pub fn find_char(s: &[char], c: char) -> (res: Option<usize>)
    ensures
        match res {
            Some(i) => s@.index_of_first(c) == Some(i as int),
            None => s@.index_of_first(c) is None,
        },
{
    proof {
        s@.index_of_first_ensures(c);
    }
    let mut i: usize = 0;
    while i < s.len()
        invariant
            i <= s@.len(),
            forall|j: int| 0 <= j < i ==> s@[j] != c,
            match s@.index_of_first(c) {
                Some(index) => {
                    &&& 0 <= index < s@.len()
                    &&& s@[index] == c
                    &&& forall|j: int| 0 <= j < index ==> s@[j] != c
                },
                None => !s@.contains(c),
            },
        decreases s.len() - i,
    {
        if s[i] == c {
            assert(s@.contains(c));
            let ghost k = s@.index_of_first(c)->0;
            assert(!(k < i));
            assert(!(i < k));
            return Some(i);
        }
        i = i + 1;
    }
    proof {
        if s@.contains(c) {
            let j = choose|j: int| 0 <= j < s@.len() && s@[j] == c;
            assert(s@[j] != c);
        }
    }
    None
}

/// The decimal digits of `n`, without leading zeros (`"0"` for zero).
pub open spec fn decimal(n: nat) -> Seq<char>
    decreases n,
{
    if n < 10 {
        seq![digit_char(n)]
    } else {
        decimal(n / 10).push(digit_char(n % 10))
    }
}

/// The character of a digit below ten.
pub open spec fn digit_char(d: nat) -> char {
    (d + 48) as char
}

/// The decimal digits of `n`, padded with zeros to at least `width`
/// characters (`format!("{:0width$}")`).
pub open spec fn decimal_padded(n: nat, width: nat) -> Seq<char> {
    let d = decimal(n);
    if d.len() >= width {
        d
    } else {
        Seq::new((width - d.len()) as nat, |i: int| '0') + d
    }
}

/// The decimal digits of `n`.
pub fn decimal_chars(n: u64) -> (out: Vec<char>)
    ensures
        out@ == decimal(n as nat),
    decreases n,
{
    if n < 10 {
        let mut out: Vec<char> = Vec::new();
        out.push(((n as u8) + 48u8) as char);
        assert(out@ =~= decimal(n as nat));
        out
    } else {
        let mut out = decimal_chars(n / 10);
        out.push((((n % 10) as u8) + 48u8) as char);
        out
    }
}

/// The decimal digits of `n`, zero-padded to `width` characters.
pub fn decimal_padded_chars(n: u64, width: usize) -> (out: Vec<char>)
    ensures
        out@ == decimal_padded(n as nat, width as nat),
{
    let d = decimal_chars(n);
    if d.len() >= width {
        return d;
    }
    let mut out: Vec<char> = Vec::new();
    let pad = width - d.len();
    let mut i: usize = 0;
    while i < pad
        invariant
            i <= pad,
            out@ == Seq::new(i as nat, |k: int| '0'),
        decreases pad - i,
    {
        out.push('0');
        i = i + 1;
        assert(out@ =~= Seq::new(i as nat, |k: int| '0'));
    }
    let mut j: usize = 0;
    let ghost prefix = out@;
    while j < d.len()
        invariant
            j <= d@.len(),
            out@ == prefix + d@.take(j as int),
        decreases d.len() - j,
    {
        out.push(d[j]);
        j = j + 1;
        assert(out@ =~= prefix + d@.take(j as int));
    }
    assert(d@.take(d@.len() as int) =~= d@);
    out
}

/// The pieces of `s` between occurrences of `sep` (`str::split` with a
/// `char`): one more piece than there are separators, empty pieces kept.
pub open spec fn split_on(s: Seq<char>, sep: char) -> Seq<Seq<char>>
    decreases s.len(),
{
    if s.len() == 0 {
        seq![Seq::<char>::empty()]
    } else {
        let prev = split_on(s.drop_last(), sep);
        if s.last() == sep {
            prev.push(Seq::<char>::empty())
        } else {
            prev.update(prev.len() - 1, prev.last().push(s.last()))
        }
    }
}

pub(crate) proof fn lemma_split_nonempty(s: Seq<char>, sep: char)
    ensures
        split_on(s, sep).len() >= 1,
    decreases s.len(),
{
    if s.len() > 0 {
        lemma_split_nonempty(s.drop_last(), sep);
    }
}

} // verus!
