//! Timestamped lyric lines (`[mm:ss.xx]text`).

use vstd::prelude::*;
use crate::text::{
    all_digits, chars_of, decimal, digit_char, digits_value, find_char, is_digit, lemma_split_nonempty, parse_usize,
    split_on, spec_parse_usize, string_from_chars,
};

verus! {

/// The pieces of a lyric line: minutes, seconds and hundredths as they were
/// read, and the lyric text after the closing bracket. Delimiters are found at
/// their first occurrence and must stand in the order `[ : . ]`.
pub open spec fn spec_lrc_fields(line: Seq<char>) -> Option<(usize, usize, usize, Seq<char>)> {
    match (
        line.index_of_first('['),
        line.index_of_first(']'),
        line.index_of_first(':'),
        line.index_of_first('.'),
    ) {
        (Some(start), Some(end), Some(sep), Some(dot)) => {
            if start < sep && sep < dot && dot < end {
                match (
                    spec_parse_usize(line.subrange(start + 1, sep)),
                    spec_parse_usize(line.subrange(sep + 1, dot)),
                    spec_parse_usize(line.subrange(dot + 1, end)),
                ) {
                    (Some(m), Some(s), Some(h)) => Some((m, s, h, line.subrange(end + 1, line.len() as int))),
                    _ => None,
                }
            } else {
                None
            }
        },
        _ => None,
    }
}

/// The time of a lyric line in milliseconds.
pub open spec fn lrc_millis(minutes: usize, seconds: usize, hundredths: usize) -> int {
    minutes * 60000 + seconds * 1000 + hundredths * 10
}

/// What a lyric line denotes: its time in milliseconds and its text.
pub open spec fn spec_parse_line(line: Seq<char>) -> Option<(int, Seq<char>)> {
    match spec_lrc_fields(line) {
        Some((m, s, h, lyric)) => Some((lrc_millis(m, s, h), lyric)),
        None => None,
    }
}

/// The four characters that delimit the time of a lyric line.
pub open spec fn is_lrc_delimiter(c: char) -> bool {
    c == '[' || c == ']' || c == ':' || c == '.'
}

proof fn lemma_first_index_at(s: Seq<char>, c: char, i: int)
    requires
        0 <= i < s.len(),
        s[i] == c,
        forall|j: int| 0 <= j < i ==> s[j] != c,
    ensures
        s.index_of_first(c) == Some(i),
{
    s.index_of_first_ensures(c);
    assert(s.contains(c));
    let k = s.index_of_first(c)->0;
    assert(!(k < i));
    assert(!(i < k));
}

proof fn lemma_first_index_absent(s: Seq<char>, c: char)
    requires
        forall|j: int| 0 <= j < s.len() ==> s[j] != c,
    ensures
        s.index_of_first(c) is None,
{
    s.index_of_first_ensures(c);
    if s.index_of_first(c) is Some {
        let k = s.index_of_first(c)->0;
        assert(s[k] == c);
    }
}

/// Text appended to a line is only the first place to look for a delimiter
/// where the line has none of it.
proof fn lemma_first_index_append(s: Seq<char>, t: Seq<char>, c: char)
    requires
        s.index_of_first(c) is Some,
    ensures
        (s + t).index_of_first(c) == s.index_of_first(c),
{
    s.index_of_first_ensures(c);
    let i = s.index_of_first(c)->0;
    lemma_first_index_at(s + t, c, i);
}

/// A prefix without the delimiter moves its first place by the prefix's
/// length.
proof fn lemma_first_index_prepend(p: Seq<char>, s: Seq<char>, c: char)
    requires
        forall|j: int| 0 <= j < p.len() ==> p[j] != c,
    ensures
        (p + s).index_of_first(c) == match s.index_of_first(c) {
            Some(i) => Some(i + p.len()),
            None => None::<int>,
        },
{
    s.index_of_first_ensures(c);
    match s.index_of_first(c) {
        Some(i) => {
            assert forall|j: int| 0 <= j < i + p.len() implies (p + s)[j] != c by {
                if j >= p.len() {
                    assert((p + s)[j] == s[j - p.len()]);
                }
            }
            lemma_first_index_at(p + s, c, i + p.len());
        },
        None => {
            assert forall|j: int| 0 <= j < (p + s).len() implies (p + s)[j] != c by {
                if j >= p.len() {
                    assert(s[j - p.len()] != c) by {
                        if s[j - p.len()] == c {
                            assert(s.contains(c));
                        }
                    }
                }
            }
            lemma_first_index_absent(p + s, c);
        },
    }
}

/// Text appended to a timed line is appended to its lyric: the time is read
/// from the first delimiters, which stay where they were.
pub proof fn law_parse_line_suffix(line: Seq<char>, suffix: Seq<char>)
    requires
        spec_parse_line(line) is Some,
    ensures
        spec_parse_line(line) matches Some((t, lyric)) && spec_parse_line(line + suffix) == Some(
            (t, lyric + suffix),
        ),
{
    let whole = line + suffix;
    lemma_first_index_append(line, suffix, '[');
    lemma_first_index_append(line, suffix, ']');
    lemma_first_index_append(line, suffix, ':');
    lemma_first_index_append(line, suffix, '.');
    line.index_of_first_ensures('[');
    line.index_of_first_ensures(']');
    line.index_of_first_ensures(':');
    line.index_of_first_ensures('.');
    let start = line.index_of_first('[')->0;
    let end = line.index_of_first(']')->0;
    let sep = line.index_of_first(':')->0;
    let dot = line.index_of_first('.')->0;
    assert(start < sep && sep < dot && dot < end);
    assert(whole.subrange(start + 1, sep) =~= line.subrange(start + 1, sep));
    assert(whole.subrange(sep + 1, dot) =~= line.subrange(sep + 1, dot));
    assert(whole.subrange(dot + 1, end) =~= line.subrange(dot + 1, end));
    assert(whole.subrange(end + 1, whole.len() as int) =~= line.subrange(end + 1, line.len() as int) + suffix);
}

/// Text without any of the delimiters `[ ] : .` put before a line changes
/// nothing of what the line denotes.
pub proof fn law_parse_line_prefix(prefix: Seq<char>, line: Seq<char>)
    requires
        forall|j: int| 0 <= j < prefix.len() ==> !is_lrc_delimiter(#[trigger] prefix[j]),
    ensures
        spec_parse_line(prefix + line) == spec_parse_line(line),
{
    let whole = prefix + line;
    let n = prefix.len() as int;
    lemma_first_index_prepend(prefix, line, '[');
    lemma_first_index_prepend(prefix, line, ']');
    lemma_first_index_prepend(prefix, line, ':');
    lemma_first_index_prepend(prefix, line, '.');
    if line.index_of_first('[') is Some && line.index_of_first(']') is Some && line.index_of_first(':') is Some
        && line.index_of_first('.') is Some {
        line.index_of_first_ensures('[');
        line.index_of_first_ensures(']');
        line.index_of_first_ensures(':');
        line.index_of_first_ensures('.');
        let start = line.index_of_first('[')->0;
        let end = line.index_of_first(']')->0;
        let sep = line.index_of_first(':')->0;
        let dot = line.index_of_first('.')->0;
        if start < sep && sep < dot && dot < end {
            assert(whole.subrange(start + n + 1, sep + n) =~= line.subrange(start + 1, sep));
            assert(whole.subrange(sep + n + 1, dot + n) =~= line.subrange(sep + 1, dot));
            assert(whole.subrange(dot + n + 1, end + n) =~= line.subrange(dot + 1, end));
            assert(whole.subrange(end + n + 1, whole.len() as int) =~= line.subrange(end + 1, line.len() as int));
        }
    }
}

proof fn lemma_decimal_digits(n: nat)
    ensures
        decimal(n).len() > 0,
        all_digits(decimal(n)),
        digits_value(decimal(n)) == n,
    decreases n,
{
    if n < 10 {
        assert(digit_char(n) as int == n + 48);
        assert(is_digit(digit_char(n)));
        assert(decimal(n).drop_last() =~= Seq::<char>::empty());
        assert('0' as int == 48);
        assert(digits_value(Seq::<char>::empty()) == 0);
        assert(digits_value(decimal(n)) == digits_value(decimal(n).drop_last()) * 10 + ((decimal(n).last() as int
            - '0' as int) as nat));
    } else {
        lemma_decimal_digits(n / 10);
        let d = decimal(n);
        assert(d.drop_last() =~= decimal(n / 10));
        assert(digit_char(n % 10) as int == n % 10 + 48);
        assert(is_digit(digit_char(n % 10)));
        assert(all_digits(d)) by {
            assert forall|i: int| 0 <= i < d.len() implies is_digit(#[trigger] d[i]) by {
                if i < d.len() - 1 {
                    assert(d[i] == decimal(n / 10)[i]);
                }
            }
        }
        assert('0' as int == 48);
        assert(d.last() == digit_char(n % 10));
        assert(digits_value(d) == digits_value(d.drop_last()) * 10 + ((d.last() as int - '0' as int) as nat));
        assert((n / 10) * 10 + n % 10 == n) by (nonlinear_arith);
    }
}

/// `spec_parse_usize` reads back the decimal digits of a number.
proof fn lemma_parse_decimal(n: usize)
    ensures
        spec_parse_usize(decimal(n as nat)) == Some(n),
        forall|j: int| 0 <= j < decimal(n as nat).len() ==> !is_lrc_delimiter(#[trigger] decimal(n as nat)[j]),
{
    lemma_decimal_digits(n as nat);
    let d = decimal(n as nat);
    assert(is_digit(d[0]));
    assert forall|j: int| 0 <= j < d.len() implies !is_lrc_delimiter(#[trigger] d[j]) by {
        assert(is_digit(d[j]));
    }
}

/// The line that `format!("[{}:{}.{}]{}", m, s, h, lyric)` writes.
pub open spec fn lrc_line(m: usize, s: usize, h: usize, lyric: Seq<char>) -> Seq<char> {
    seq!['['] + decimal(m as nat) + seq![':'] + decimal(s as nat) + seq!['.'] + decimal(h as nat) + seq![']']
        + lyric
}

/// A line written as `[m:s.h]` followed by any lyric (which may itself hold
/// brackets, colons and dots) reads back as the time `m` minutes, `s`
/// seconds and `h` hundredths, and that lyric.
pub proof fn law_parse_line_format(m: usize, s: usize, h: usize, lyric: Seq<char>)
    ensures
        spec_parse_line(lrc_line(m, s, h, lyric)) == Some((lrc_millis(m, s, h), lyric)),
{
    lemma_parse_decimal(m);
    lemma_parse_decimal(s);
    lemma_parse_decimal(h);
    let dm = decimal(m as nat);
    let ds = decimal(s as nat);
    let dh = decimal(h as nat);
    let line = lrc_line(m, s, h, lyric);
    let sep: int = 1 + dm.len() as int;
    let dot: int = sep + 1 + ds.len() as int;
    let end: int = dot + 1 + dh.len() as int;
    let head = seq!['['] + dm + seq![':'] + ds + seq!['.'] + dh + seq![']'];
    assert(line =~= head + lyric);
    assert(head.len() == end + 1);
    assert forall|j: int| 0 < j < end + 1 implies head[j] != '[' by {
        if 1 <= j < sep {
            assert(head[j] == dm[j - 1]);
        } else if sep < j < dot {
            assert(head[j] == ds[j - sep - 1]);
        } else if dot < j < end {
            assert(head[j] == dh[j - dot - 1]);
        }
    }
    assert forall|j: int| 0 <= j < end implies head[j] != ']' && (j < sep ==> head[j] != ':') && (j < dot
        ==> head[j] != '.') by {
        if 1 <= j < sep {
            assert(head[j] == dm[j - 1]);
        } else if sep < j < dot {
            assert(head[j] == ds[j - sep - 1]);
        } else if dot < j < end {
            assert(head[j] == dh[j - dot - 1]);
        }
    }
    lemma_first_index_at(head, '[', 0);
    lemma_first_index_at(head, ':', sep);
    lemma_first_index_at(head, '.', dot);
    lemma_first_index_at(head, ']', end);
    lemma_first_index_append(head, lyric, '[');
    lemma_first_index_append(head, lyric, ']');
    lemma_first_index_append(head, lyric, ':');
    lemma_first_index_append(head, lyric, '.');
    assert(line.subrange(1, sep) =~= dm);
    assert(line.subrange(sep + 1, dot) =~= ds);
    assert(line.subrange(dot + 1, end) =~= dh);
    assert(line.subrange(end + 1, line.len() as int) =~= lyric);
}

/// Parses one lyric line into its time in milliseconds and its text.
/// A line that lacks a delimiter, has them out of order, or has a field that
/// is not a decimal number gives `None`.
pub fn parse_line(line: &str) -> (res: Option<(usize, String)>)
    requires
        spec_parse_line(line@) matches Some((ms, _)) ==> ms <= usize::MAX,
    ensures
        res is Some <==> spec_parse_line(line@) is Some,
        res matches Some((ms, lyric)) ==> spec_parse_line(line@) == Some((ms as int, lyric@)),
{
    let chars = chars_of(line);
    let start = match find_char(&chars, '[') {
        Some(i) => i,
        None => return None,
    };
    let end = match find_char(&chars, ']') {
        Some(i) => i,
        None => return None,
    };
    let sep = match find_char(&chars, ':') {
        Some(i) => i,
        None => return None,
    };
    let dot = match find_char(&chars, '.') {
        Some(i) => i,
        None => return None,
    };
    proof {
        chars@.index_of_first_ensures(']');
    }
    if !(start < sep && end > sep && start < dot && end > dot && start < end && sep < dot) {
        return None;
    }
    let minutes = match parse_usize(&chars[start + 1..sep]) {
        Some(v) => v,
        None => return None,
    };
    let seconds = match parse_usize(&chars[sep + 1..dot]) {
        Some(v) => v,
        None => return None,
    };
    let hundredths = match parse_usize(&chars[dot + 1..end]) {
        Some(v) => v,
        None => return None,
    };
    assert(lrc_millis(minutes, seconds, hundredths) <= usize::MAX);
    assert(minutes * 60000 <= usize::MAX && seconds * 1000 <= usize::MAX && hundredths * 10 <= usize::MAX) by (nonlinear_arith)
        requires
            minutes * 60000 + seconds * 1000 + hundredths * 10 <= usize::MAX,
    ;
    let sum = minutes * 60000 + seconds * 1000 + hundredths * 10;
    let lyric = string_from_chars(&chars[end + 1..chars.len()]);
    Some((sum, lyric))
}

/// A line without the `\r` of a `\r\n` line ending.
pub open spec fn strip_cr(line: Seq<char>) -> Seq<char> {
    if line.len() > 0 && line.last() == '\r' {
        line.drop_last()
    } else {
        line
    }
}

/// The lines of a text as `str::lines` gives them: split at `\n`, a `\r`
/// before the `\n` removed, and no empty line after a final `\n`.
pub open spec fn text_lines(s: Seq<char>) -> Seq<Seq<char>> {
    let parts = split_on(s, '\n');
    let n: int = if s.len() == 0 {
        0
    } else if s.last() == '\n' {
        parts.len() - 1
    } else {
        parts.len() as int
    };
    Seq::new(
        n as nat,
        |i: int|
            if i < parts.len() - 1 {
                strip_cr(parts[i])
            } else {
                parts[i]
            },
    )
}

/// The characters from `start` to `end`, without a final `\r` if `strip`.
fn line_text(chars: &Vec<char>, start: usize, end: usize, strip: bool) -> (line: String)
    requires
        start <= end <= chars@.len(),
    ensures
        line@ == if strip {
            strip_cr(chars@.subrange(start as int, end as int))
        } else {
            chars@.subrange(start as int, end as int)
        },
{
    let stop = if strip && end > start && chars[end - 1] == '\r' {
        end - 1
    } else {
        end
    };
    let line = string_from_chars(&chars.as_slice()[start..stop]);
    proof {
        let whole = chars@.subrange(start as int, end as int);
        if stop < end {
            assert(whole.drop_last() =~= chars@.subrange(start as int, stop as int));
        }
    }
    line
}

/// The lines of a text, as `text_lines` describes them.
pub fn lines_of(text: &str) -> (lines: Vec<String>)
    ensures
        lines@.len() == text_lines(text@).len(),
        forall|i: int| 0 <= i < lines@.len() ==> (#[trigger] lines@[i])@ == text_lines(text@)[i],
{
    let chars = chars_of(text);
    let mut lines: Vec<String> = Vec::new();
    let mut start: usize = 0;
    let mut i: usize = 0;
    proof {
        lemma_split_nonempty(chars@.take(0), '\n');
        assert(chars@.take(0) =~= Seq::<char>::empty());
    }
    while i < chars.len()
        invariant
            start <= i <= chars@.len(),
            chars@ == text@,
            split_on(chars@.take(i as int), '\n').len() == lines@.len() + 1,
            forall|k: int|
                0 <= k < lines@.len() ==> (#[trigger] lines@[k])@ == strip_cr(
                    split_on(chars@.take(i as int), '\n')[k],
                ),
            split_on(chars@.take(i as int), '\n').last() == chars@.subrange(start as int, i as int),
        decreases chars.len() - i,
    {
        assert(chars@.take(i + 1).drop_last() =~= chars@.take(i as int));
        assert(chars@.take(i + 1).last() == chars@[i as int]);
        if chars[i] == '\n' {
            lines.push(line_text(&chars, start, i, true));
            start = i + 1;
        } else {
            assert(chars@.subrange(start as int, i + 1) =~= chars@.subrange(start as int, i as int).push(
                chars@[i as int],
            ));
        }
        i = i + 1;
    }
    assert(chars@.take(i as int) =~= chars@);
    let ghost parts = split_on(chars@, '\n');
    proof {
        if chars@.len() > 0 {
            assert(chars@.drop_last() =~= chars@.take(chars@.len() - 1));
            lemma_split_nonempty(chars@.drop_last(), '\n');
        }
    }
    if start < chars.len() {
        assert(chars@.len() > 0 && chars@.last() != '\n') by {
            if chars@.last() == '\n' {
                assert(parts.last().len() == 0);
            }
        }
        lines.push(line_text(&chars, start, i, false));
    } else {
        assert(chars@.len() == 0 || chars@.last() == '\n') by {
            if chars@.len() > 0 && chars@.last() != '\n' {
                assert(parts.last().len() > 0);
            }
        }
    }
    lines
}

/// A line that `parse_line` reads, with a time that fits in `usize`.
pub open spec fn is_timed_line(line: Seq<char>) -> bool {
    spec_parse_line(line) matches Some((ms, _)) && ms <= usize::MAX
}

/// The timed lines of a lyrics file, in order. Every line must be a timed
/// line.
pub fn parse_lyrics(text: &str) -> (lines: Vec<(usize, String)>)
    requires
        forall|i: int|
            0 <= i < text_lines(text@).len() ==> #[trigger] is_timed_line(text_lines(text@)[i]),
    ensures
        lines@.len() == text_lines(text@).len(),
        forall|i: int|
            0 <= i < lines@.len() ==> spec_parse_line(text_lines(text@)[i]) == Some(
                ((#[trigger] lines@[i]).0 as int, lines@[i].1@),
            ),
{
    let texts = lines_of(text);
    let mut out: Vec<(usize, String)> = Vec::new();
    let mut i: usize = 0;
    while i < texts.len()
        invariant
            i <= texts@.len(),
            texts@.len() == text_lines(text@).len(),
            forall|k: int| 0 <= k < texts@.len() ==> (#[trigger] texts@[k])@ == text_lines(text@)[k],
            forall|k: int|
                0 <= k < text_lines(text@).len() ==> #[trigger] is_timed_line(text_lines(text@)[k]),
            out@.len() == i,
            forall|k: int|
                0 <= k < i ==> spec_parse_line(text_lines(text@)[k]) == Some(
                    ((#[trigger] out@[k]).0 as int, out@[k].1@),
                ),
        decreases texts.len() - i,
    {
        assert(texts@[i as int]@ == text_lines(text@)[i as int]);
        assert(is_timed_line(text_lines(text@)[i as int]));
        match parse_line(texts[i].as_str()) {
            Some(pair) => {
                out.push(pair);
            },
            None => {
                assert(false);
            },
        }
        i = i + 1;
    }
    out
}

} // verus!
