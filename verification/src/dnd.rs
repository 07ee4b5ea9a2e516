//! Files dropped onto the player: which dropped lines name paths, which
//! files are audio files, and the order in which the tracks are queued.

use vstd::prelude::*;
use crate::protocol::{opt_string_view, TrackRequest};
use crate::text::{chars_of, find_char, lemma_split_nonempty, parse_usize, split_on, spec_parse_usize, string_from_chars};

verus! {

/// Unicode `White_Space`, the characters that `char::is_whitespace` accepts
/// and that `str::trim` removes.
pub open spec fn is_white_space(c: char) -> bool {
    ('\u{9}' <= c && c <= '\u{d}') || c == ' ' || c == '\u{85}' || c == '\u{a0}' || c == '\u{1680}'
        || ('\u{2000}' <= c && c <= '\u{200a}') || c == '\u{2028}' || c == '\u{2029}' || c
        == '\u{202f}' || c == '\u{205f}' || c == '\u{3000}'
}

fn white_space(c: char) -> (r: bool)
    ensures
        r == is_white_space(c),
{
    ('\u{9}' <= c && c <= '\u{d}') || c == ' ' || c == '\u{85}' || c == '\u{a0}' || c == '\u{1680}'
        || ('\u{2000}' <= c && c <= '\u{200a}') || c == '\u{2028}' || c == '\u{2029}' || c
        == '\u{202f}' || c == '\u{205f}' || c == '\u{3000}'
}

/// `s` without its leading white space.
pub open spec fn trim_start(s: Seq<char>) -> Seq<char>
    decreases s.len(),
{
    if s.len() > 0 && is_white_space(s[0]) {
        trim_start(s.drop_first())
    } else {
        s
    }
}

/// `s` without its trailing white space.
pub open spec fn trim_end(s: Seq<char>) -> Seq<char>
    decreases s.len(),
{
    if s.len() > 0 && is_white_space(s.last()) {
        trim_end(s.drop_last())
    } else {
        s
    }
}

/// `s` without leading and trailing white space (`str::trim`).
pub open spec fn trim(s: Seq<char>) -> Seq<char> {
    trim_end(trim_start(s))
}

/// `s` begins with `pat`.
pub open spec fn starts_with(s: Seq<char>, pat: Seq<char>) -> bool {
    pat.len() <= s.len() && s.take(pat.len() as int) == pat
}

/// `s` with every occurrence of `pat` removed, occurrences found from the
/// left without overlapping (`str::replace(pat, "")`).
pub open spec fn remove_all(s: Seq<char>, pat: Seq<char>) -> Seq<char>
    decreases s.len(),
{
    if s.len() == 0 {
        s
    } else if pat.len() > 0 && starts_with(s, pat) {
        remove_all(s.skip(pat.len() as int), pat)
    } else {
        seq![s[0]] + remove_all(s.skip(1), pat)
    }
}

/// The scheme that file managers put before dropped paths.
pub open spec fn file_scheme() -> Seq<char> {
    seq!['f', 'i', 'l', 'e', ':', '/', '/']
}

/// A dropped line as a path: trimmed, then with `file://` removed.
pub open spec fn dropped_path(line: Seq<char>) -> Seq<char> {
    remove_all(trim(line), file_scheme())
}

/// The characters of `s` from `start` up to `end`, without white space at
/// either end.
fn trim_range(s: &Vec<char>, start: usize, end: usize) -> (out: Vec<char>)
    requires
        start <= end <= s@.len(),
    ensures
        out@ == trim(s@.subrange(start as int, end as int)),
{
    let ghost whole = s@.subrange(start as int, end as int);
    let mut a = start;
    while a < end && white_space(s[a])
        invariant
            start <= a <= end <= s@.len(),
            trim_start(whole) == trim_start(s@.subrange(a as int, end as int)),
        decreases end - a,
    {
        assert(s@.subrange(a as int, end as int).drop_first() =~= s@.subrange(a + 1, end as int));
        a = a + 1;
    }
    assert(trim_start(whole) == s@.subrange(a as int, end as int));
    let mut b = end;
    while b > a && white_space(s[b - 1])
        invariant
            start <= a <= b <= end <= s@.len(),
            trim(whole) == trim_end(s@.subrange(a as int, b as int)),
        decreases b - a,
    {
        assert(s@.subrange(a as int, b as int).drop_last() =~= s@.subrange(a as int, b - 1));
        b = b - 1;
    }
    assert(trim(whole) == s@.subrange(a as int, b as int));
    let mut out: Vec<char> = Vec::new();
    let mut i = a;
    while i < b
        invariant
            a <= i <= b <= s@.len(),
            out@ == s@.subrange(a as int, i as int),
        decreases b - i,
    {
        out.push(s[i]);
        assert(out@ =~= s@.subrange(a as int, i + 1));
        i = i + 1;
    }
    out
}

/// Whether `pat` stands in `t` at position `i`.
fn occurs_at(t: &Vec<char>, i: usize, pat: &Vec<char>) -> (r: bool)
    requires
        i <= t@.len(),
    ensures
        r == starts_with(t@.skip(i as int), pat@),
{
    if pat.len() > t.len() - i {
        return false;
    }
    let mut k: usize = 0;
    while k < pat.len()
        invariant
            k <= pat@.len(),
            t@.len() <= usize::MAX,
            i + pat@.len() <= t@.len(),
            forall|j: int| 0 <= j < k ==> t@[i + j] == pat@[j],
        decreases pat.len() - k,
    {
        if t[i + k] != pat[k] {
            assert(t@.skip(i as int).take(pat@.len() as int)[k as int] != pat@[k as int]);
            return false;
        }
        k = k + 1;
    }
    assert(t@.skip(i as int).take(pat@.len() as int) =~= pat@);
    true
}

/// `t` with every occurrence of `pat` removed.
fn without_all(t: &Vec<char>, pat: &Vec<char>) -> (out: Vec<char>)
    requires
        pat@.len() > 0,
    ensures
        out@ == remove_all(t@, pat@),
{
    let mut out: Vec<char> = Vec::new();
    let mut i: usize = 0;
    assert(t@.skip(0) =~= t@);
    while i < t.len()
        invariant
            i <= t@.len(),
            pat@.len() > 0,
            out@ + remove_all(t@.skip(i as int), pat@) == remove_all(t@, pat@),
        decreases t.len() - i,
    {
        let ghost rest = t@.skip(i as int);
        if occurs_at(t, i, pat) {
            assert(rest.skip(pat@.len() as int) =~= t@.skip(i + pat@.len()));
            i = i + pat.len();
        } else {
            assert(rest.skip(1) =~= t@.skip(i + 1));
            assert(rest[0] == t@[i as int]);
            let c = t[i];
            let ghost before = out@;
            out.push(c);
            assert(out@ + remove_all(t@.skip(i + 1), pat@) =~= before + (seq![c] + remove_all(
                t@.skip(i + 1),
                pat@,
            )));
            i = i + 1;
        }
    }
    assert(remove_all(t@.skip(i as int), pat@) =~= Seq::<char>::empty());
    assert(out@ + Seq::<char>::empty() =~= out@);
    out
}

/// The paths named by dropped text (`text/uri-list` or plain paths), one per
/// line, in order: each line trimmed and with `file://` removed. Which of
/// them exist is for the caller to find out.
pub fn dropped_paths(data: &str) -> (paths: Vec<String>)
    ensures
        paths@.len() == split_on(data@, '\n').len(),
        forall|i: int|
            0 <= i < paths@.len() ==> (#[trigger] paths@[i])@ == dropped_path(split_on(data@, '\n')[i]),
{
    let chars = chars_of(data);
    let scheme: Vec<char> = vec!['f', 'i', 'l', 'e', ':', '/', '/'];
    assert(scheme@ =~= file_scheme());
    let mut paths: Vec<String> = Vec::new();
    let mut start: usize = 0;
    let mut i: usize = 0;
    proof {
        lemma_split_nonempty(chars@.take(0), '\n');
    }
    while i < chars.len()
        invariant
            start <= i <= chars@.len(),
            chars@ == data@,
            scheme@ == file_scheme(),
            split_on(chars@.take(i as int), '\n').len() == paths@.len() + 1,
            forall|k: int|
                0 <= k < paths@.len() ==> (#[trigger] paths@[k])@ == dropped_path(
                    split_on(chars@.take(i as int), '\n')[k],
                ),
            split_on(chars@.take(i as int), '\n').last() == chars@.subrange(start as int, i as int),
        decreases chars.len() - i,
    {
        let ghost prev = split_on(chars@.take(i as int), '\n');
        assert(chars@.take(i + 1).drop_last() =~= chars@.take(i as int));
        assert(chars@.take(i + 1).last() == chars@[i as int]);
        if chars[i] == '\n' {
            let line = trim_range(&chars, start, i);
            let cleaned = without_all(&line, &scheme);
            paths.push(string_from_chars(cleaned.as_slice()));
            start = i + 1;
        } else {
            assert(chars@.subrange(start as int, i + 1) =~= chars@.subrange(start as int, i as int).push(
                chars@[i as int],
            ));
        }
        i = i + 1;
    }
    let line = trim_range(&chars, start, i);
    let cleaned = without_all(&line, &scheme);
    paths.push(string_from_chars(cleaned.as_slice()));
    assert(chars@.take(i as int) =~= chars@);
    paths
}

/// `i` is the position of the last `.` in `name`.
pub open spec fn last_dot(name: Seq<char>, i: int) -> bool {
    0 <= i < name.len() && name[i] == '.' && forall|j: int| i < j < name.len() ==> name[j] != '.'
}

/// The extension of a file name as `Path::extension` finds it: what follows
/// the last `.`, unless there is none, it begins the name, or the name is `..`.
pub open spec fn file_extension(name: Seq<char>) -> Option<Seq<char>> {
    if name == seq!['.', '.'] {
        None
    } else if exists|i: int| 0 < i && last_dot(name, i) {
        let i = choose|i: int| 0 < i && last_dot(name, i);
        Some(name.skip(i + 1))
    } else {
        None
    }
}

/// The extensions of the audio files that the player queues.
pub open spec fn is_audio_extension(ext: Seq<char>) -> bool {
    ||| ext == seq!['m', 'p', '3']
    ||| ext == seq!['m', '4', 'a']
    ||| ext == seq!['f', 'l', 'a', 'c']
    ||| ext == seq!['w', 'a', 'v']
    ||| ext == seq!['o', 'g', 'g']
    ||| ext == seq!['w', 'm', 'a']
    ||| ext == seq!['o', 'p', 'u', 's']
}

fn same_chars(a: &[char], b: &[char]) -> (r: bool)
    ensures
        r == (a@ == b@),
{
    if a.len() != b.len() {
        return false;
    }
    let mut i: usize = 0;
    while i < a.len()
        invariant
            i <= a@.len(),
            a@.len() == b@.len(),
            forall|j: int| 0 <= j < i ==> a@[j] == b@[j],
        decreases a.len() - i,
    {
        if a[i] != b[i] {
            return false;
        }
        i = i + 1;
    }
    assert(a@ =~= b@);
    true
}

/// Whether a file of this name is queued when dropped: its extension (case
/// matters) is one of `mp3`, `m4a`, `flac`, `wav`, `ogg`, `wma`, `opus`.
pub fn is_audio_file(name: &str) -> (r: bool)
    ensures
        r == match file_extension(name@) {
            Some(ext) => is_audio_extension(ext),
            None => false,
        },
{
    let chars = chars_of(name);
    let n = chars.len();
    if n == 2 && chars[0] == '.' && chars[1] == '.' {
        assert(chars@ =~= seq!['.', '.']);
        return false;
    }
    let mut i = n;
    while i > 0 && chars[i - 1] != '.'
        invariant
            i <= n,
            n == chars@.len(),
            forall|j: int| i <= j < n ==> chars@[j] != '.',
        decreases i,
    {
        i = i - 1;
    }
    if i <= 1 {
        assert forall|k: int| 0 < k && last_dot(chars@, k) implies false by {
            assert(chars@[k] == '.');
        }
        return false;
    }
    let dot = i - 1;
    assert(last_dot(chars@, dot as int));
    assert forall|k: int| 0 < k && last_dot(chars@, k) implies k == dot by {
        if k < dot {
            assert(chars@[dot as int] != '.');
        }
        if k > dot {
            assert(chars@[k] != '.');
        }
    }
    let mut ext: Vec<char> = Vec::new();
    let mut j = i;
    while j < n
        invariant
            i <= j <= n,
            n == chars@.len(),
            ext@ == chars@.subrange(i as int, j as int),
        decreases n - j,
    {
        ext.push(chars[j]);
        assert(ext@ =~= chars@.subrange(i as int, j + 1));
        j = j + 1;
    }
    assert(ext@ =~= chars@.skip(i as int));
    let mp3: Vec<char> = vec!['m', 'p', '3'];
    let m4a: Vec<char> = vec!['m', '4', 'a'];
    let flac: Vec<char> = vec!['f', 'l', 'a', 'c'];
    let wav: Vec<char> = vec!['w', 'a', 'v'];
    let ogg: Vec<char> = vec!['o', 'g', 'g'];
    let wma: Vec<char> = vec!['w', 'm', 'a'];
    let opus: Vec<char> = vec!['o', 'p', 'u', 's'];
    assert(mp3@ =~= seq!['m', 'p', '3']);
    assert(m4a@ =~= seq!['m', '4', 'a']);
    assert(flac@ =~= seq!['f', 'l', 'a', 'c']);
    assert(wav@ =~= seq!['w', 'a', 'v']);
    assert(ogg@ =~= seq!['o', 'g', 'g']);
    assert(wma@ =~= seq!['w', 'm', 'a']);
    assert(opus@ =~= seq!['o', 'p', 'u', 's']);
    same_chars(&ext, &mp3) || same_chars(&ext, &m4a) || same_chars(&ext, &flac) || same_chars(
        &ext,
        &wav,
    ) || same_chars(&ext, &ogg) || same_chars(&ext, &wma) || same_chars(&ext, &opus)
}

/// The text before the first `/` (all of it if there is none).
pub open spec fn before_slash(s: Seq<char>) -> Seq<char> {
    match s.index_of_first('/') {
        Some(i) => s.take(i),
        None => s,
    }
}

/// The number by which a track is ordered: the number before any `/` in its
/// track-number tag (`3/12` gives 3); 0 without a tag or if that is no number.
pub open spec fn track_number(track_no: Option<Seq<char>>) -> nat {
    let text = match track_no {
        Some(t) => t,
        None => Seq::<char>::empty(),
    };
    match spec_parse_usize(before_slash(text)) {
        Some(n) => n as nat,
        None => 0,
    }
}

/// The number by which a track with this track-number tag is ordered.
pub fn parse_track_number(track_no: &Option<String>) -> (n: usize)
    ensures
        n == track_number(opt_string_view(*track_no)),
{
    let text: Vec<char> = match track_no {
        Some(t) => chars_of(t.as_str()),
        None => Vec::new(),
    };
    let ghost tv = match opt_string_view(*track_no) {
        Some(t) => t,
        None => Seq::<char>::empty(),
    };
    assert(text@ =~= tv);
    proof {
        text@.index_of_first_ensures('/');
    }
    let head: Vec<char> = match find_char(text.as_slice(), '/') {
        Some(i) => {
            let mut head: Vec<char> = Vec::new();
            let mut k: usize = 0;
            while k < i
                invariant
                    k <= i <= text@.len(),
                    head@ == text@.take(k as int),
                decreases i - k,
            {
                head.push(text[k]);
                assert(head@ =~= text@.take(k + 1));
                k = k + 1;
            }
            head
        },
        None => text,
    };
    assert(head@ == before_slash(tv));
    match parse_usize(head.as_slice()) {
        Some(n) => n,
        None => 0,
    }
}

/// Lexicographic order of character sequences by code point. `String`s
/// compare the same way, as UTF-8 keeps the order of code points.
pub open spec fn chars_lt(a: Seq<char>, b: Seq<char>) -> bool
    decreases a.len(),
{
    if a.len() == 0 {
        b.len() > 0
    } else if b.len() == 0 {
        false
    } else if a[0] != b[0] {
        a[0] < b[0]
    } else {
        chars_lt(a.drop_first(), b.drop_first())
    }
}

proof fn lemma_chars_lt_irreflexive(a: Seq<char>)
    ensures
        !chars_lt(a, a),
    decreases a.len(),
{
    if a.len() > 0 {
        lemma_chars_lt_irreflexive(a.drop_first());
    }
}

proof fn lemma_chars_lt_transitive(a: Seq<char>, b: Seq<char>, c: Seq<char>)
    requires
        chars_lt(a, b),
        chars_lt(b, c),
    ensures
        chars_lt(a, c),
    decreases a.len(),
{
    if a.len() > 0 && a[0] == b[0] && b[0] == c[0] {
        lemma_chars_lt_transitive(a.drop_first(), b.drop_first(), c.drop_first());
    }
}

proof fn lemma_chars_lt_total(a: Seq<char>, b: Seq<char>)
    ensures
        a == b || chars_lt(a, b) || chars_lt(b, a),
    decreases a.len(),
{
    if a.len() == 0 && b.len() == 0 {
        assert(a =~= b);
    } else if a.len() > 0 && b.len() > 0 && a[0] == b[0] {
        lemma_chars_lt_total(a.drop_first(), b.drop_first());
        if a.drop_first() == b.drop_first() {
            assert(a.drop_first().len() == a.len() - 1);
            assert(b.drop_first().len() == b.len() - 1);
            assert forall|i: int| 0 <= i < a.len() implies a[i] == b[i] by {
                if i > 0 {
                    assert(a[i] == a.drop_first()[i - 1]);
                    assert(b[i] == b.drop_first()[i - 1]);
                }
            }
            assert(a =~= b);
        }
    }
}

/// The key by which dropped tracks are ordered: the album name (none sorts
/// as the empty name), then the track number.
pub open spec fn sort_key(t: TrackRequest) -> (Seq<char>, nat) {
    (
        match t.metadata@.album {
            Some(a) => a,
            None => Seq::<char>::empty(),
        },
        track_number(t.metadata@.track_no),
    )
}

/// Order of keys: by album name, then by track number.
pub open spec fn key_lt(a: (Seq<char>, nat), b: (Seq<char>, nat)) -> bool {
    chars_lt(a.0, b.0) || (a.0 == b.0 && a.1 < b.1)
}

proof fn lemma_key_lt_irreflexive(a: (Seq<char>, nat))
    ensures
        !key_lt(a, a),
{
    lemma_chars_lt_irreflexive(a.0);
}

proof fn lemma_key_lt_asymmetric(a: (Seq<char>, nat), b: (Seq<char>, nat))
    requires
        key_lt(a, b),
    ensures
        !key_lt(b, a),
{
    lemma_chars_lt_irreflexive(a.0);
    lemma_chars_lt_irreflexive(b.0);
    if chars_lt(a.0, b.0) && chars_lt(b.0, a.0) {
        lemma_chars_lt_transitive(a.0, b.0, a.0);
    }
}

/// Not being greater is transitive.
proof fn lemma_key_le_transitive(a: (Seq<char>, nat), b: (Seq<char>, nat), c: (Seq<char>, nat))
    requires
        !key_lt(b, a),
        !key_lt(c, b),
    ensures
        !key_lt(c, a),
{
    lemma_chars_lt_total(a.0, b.0);
    lemma_chars_lt_total(b.0, c.0);
    lemma_chars_lt_irreflexive(a.0);
    lemma_chars_lt_irreflexive(c.0);
    if chars_lt(c.0, a.0) {
        if chars_lt(a.0, b.0) {
            lemma_chars_lt_transitive(c.0, a.0, b.0);
            if chars_lt(b.0, c.0) {
                lemma_chars_lt_transitive(c.0, b.0, c.0);
            }
        } else if chars_lt(b.0, c.0) {
            lemma_chars_lt_transitive(b.0, c.0, a.0);
        }
    }
    if chars_lt(a.0, b.0) && chars_lt(b.0, c.0) {
        lemma_chars_lt_transitive(a.0, b.0, c.0);
        if chars_lt(c.0, a.0) {
            lemma_chars_lt_transitive(c.0, a.0, c.0);
        }
    }
}

/// The tracks of `s` whose key is `k`, in their order in `s`.
pub open spec fn with_key(s: Seq<TrackRequest>, k: (Seq<char>, nat)) -> Seq<TrackRequest>
    decreases s.len(),
{
    if s.len() == 0 {
        Seq::<TrackRequest>::empty()
    } else if sort_key(s.last()) == k {
        with_key(s.drop_last(), k).push(s.last())
    } else {
        with_key(s.drop_last(), k)
    }
}

proof fn lemma_with_key_add(a: Seq<TrackRequest>, b: Seq<TrackRequest>, k: (Seq<char>, nat))
    ensures
        with_key(a + b, k) == with_key(a, k) + with_key(b, k),
    decreases b.len(),
{
    if b.len() == 0 {
        assert(a + b =~= a);
        assert(with_key(a, k) + with_key(b, k) =~= with_key(a, k));
    } else {
        assert((a + b).drop_last() =~= a + b.drop_last());
        assert((a + b).last() == b.last());
        lemma_with_key_add(a, b.drop_last(), k);
        assert(with_key(a, k) + with_key(b.drop_last(), k).push(b.last()) =~= (with_key(a, k)
            + with_key(b.drop_last(), k)).push(b.last()));
    }
}

proof fn lemma_with_key_none(s: Seq<TrackRequest>, k: (Seq<char>, nat))
    requires
        forall|j: int| 0 <= j < s.len() ==> sort_key(#[trigger] s[j]) != k,
    ensures
        with_key(s, k) == Seq::<TrackRequest>::empty(),
    decreases s.len(),
{
    if s.len() > 0 {
        assert(sort_key(s[s.len() - 1]) != k);
        lemma_with_key_none(s.drop_last(), k);
    }
}

/// The keys of `s` never decrease.
pub open spec fn key_sorted(s: Seq<TrackRequest>) -> bool {
    forall|i: int, j: int| 0 <= i < j < s.len() ==> !key_lt(sort_key(#[trigger] s[j]), sort_key(#[trigger] s[i]))
}

fn chars_less(a: &Vec<char>, b: &Vec<char>) -> (r: bool)
    ensures
        r == chars_lt(a@, b@),
{
    let mut i: usize = 0;
    assert(a@.skip(0) =~= a@);
    assert(b@.skip(0) =~= b@);
    while i < a.len() && i < b.len() && a[i] == b[i]
        invariant
            i <= a@.len(),
            i <= b@.len(),
            chars_lt(a@, b@) == chars_lt(a@.skip(i as int), b@.skip(i as int)),
        decreases a.len() - i,
    {
        assert(a@.skip(i as int).drop_first() =~= a@.skip(i + 1));
        assert(b@.skip(i as int).drop_first() =~= b@.skip(i + 1));
        i = i + 1;
    }
    if i == a.len() {
        i < b.len()
    } else if i == b.len() {
        false
    } else {
        a[i] < b[i]
    }
}

fn key_less(album: &Vec<char>, number: usize, other: &(Vec<char>, usize)) -> (r: bool)
    ensures
        r == key_lt((album@, number as nat), (other.0@, other.1 as nat)),
{
    if chars_less(album, &other.0) {
        true
    } else if same_chars(album.as_slice(), other.0.as_slice()) {
        number < other.1
    } else {
        false
    }
}

/// The tracks ordered by album name and then by track number, tracks with
/// equal keys keeping their order (a stable sort by `sort_key`).
pub fn sort_tracks(tracks: Vec<TrackRequest>) -> (sorted: Vec<TrackRequest>)
    ensures
        sorted@.len() == tracks@.len(),
        key_sorted(sorted@),
        forall|k: (Seq<char>, nat)| #[trigger] with_key(sorted@, k) == with_key(tracks@, k),
{
    let ghost input = tracks@;
    let ghost mut done: int = 0;
    let mut rest = tracks;
    let mut out: Vec<TrackRequest> = Vec::new();
    let mut keys: Vec<(Vec<char>, usize)> = Vec::new();
    assert(input.skip(0) =~= input);
    while rest.len() > 0
        invariant
            0 <= done <= input.len(),
            rest@ == input.skip(done),
            out@.len() == done,
            keys@.len() == out@.len(),
            forall|j: int|
                0 <= j < out@.len() ==> (#[trigger] keys@[j]).0@ == sort_key(out@[j]).0 && keys@[j].1
                    as nat == sort_key(out@[j]).1,
            key_sorted(out@),
            forall|k: (Seq<char>, nat)| #[trigger] with_key(out@, k) == with_key(input.take(done), k),
        decreases rest.len(),
    {
        let x = rest.remove(0);
        assert(x == input[done]);
        assert(rest@ =~= input.skip(done + 1));
        let album: Vec<char> = match &x.metadata.album {
            Some(a) => chars_of(a.as_str()),
            None => Vec::new(),
        };
        let number = parse_track_number(&x.metadata.track_no);
        let ghost kx = sort_key(x);
        assert(album@ == kx.0 && number as nat == kx.1);
        let mut p = out.len();
        while p > 0 && key_less(&album, number, &keys[p - 1])
            invariant
                p <= out@.len(),
                keys@.len() == out@.len(),
                album@ == kx.0 && number as nat == kx.1,
                forall|j: int|
                    0 <= j < out@.len() ==> (#[trigger] keys@[j]).0@ == sort_key(out@[j]).0 && keys@[j].1
                        as nat == sort_key(out@[j]).1,
                forall|j: int| p <= j < out@.len() ==> key_lt(kx, sort_key(#[trigger] out@[j])),
            decreases p,
        {
            p = p - 1;
        }
        let ghost o = out@;
        let ghost ok = keys@;
        out.insert(p, x);
        keys.insert(p, (album, number));
        proof {
            let n = out@;
            assert(n =~= o.take(p as int) + seq![x] + o.skip(p as int));
            assert forall|a: int, b: int| 0 <= a < b < n.len() implies !key_lt(
                sort_key(#[trigger] n[b]),
                sort_key(#[trigger] n[a]),
            ) by {
                if b < p {
                    assert(n[a] == o[a] && n[b] == o[b]);
                } else if a > p {
                    assert(n[a] == o[a - 1] && n[b] == o[b - 1]);
                } else if a < p && p < b {
                    assert(n[a] == o[a] && n[b] == o[b - 1]);
                } else if a < p && b == p {
                    assert(n[a] == o[a] && n[b] == x);
                    assert(!key_lt(kx, sort_key(o[p - 1])));
                    if a < p - 1 {
                        assert(!key_lt(sort_key(o[p - 1]), sort_key(o[a])));
                        lemma_key_le_transitive(sort_key(o[a]), sort_key(o[p - 1]), kx);
                    }
                } else {
                    assert(a == p && n[a] == x && n[b] == o[b - 1]);
                    lemma_key_lt_asymmetric(kx, sort_key(o[b - 1]));
                }
            }
            assert(input.take(done + 1) =~= input.take(done) + seq![x]);
            assert forall|k: (Seq<char>, nat)| #[trigger] with_key(n, k) == with_key(input.take(done + 1), k) by {
                lemma_with_key_add(o.take(p as int) + seq![x], o.skip(p as int), k);
                lemma_with_key_add(o.take(p as int), seq![x], k);
                lemma_with_key_add(o.take(p as int), o.skip(p as int), k);
                assert(o.take(p as int) + o.skip(p as int) =~= o);
                lemma_with_key_add(input.take(done), seq![x], k);
                assert(seq![x].drop_last() =~= Seq::<TrackRequest>::empty());
                assert(seq![x].last() == x);
                let wa = with_key(o.take(p as int), k);
                let wx = with_key(seq![x], k);
                let wb = with_key(o.skip(p as int), k);
                assert(with_key(o, k) == with_key(input.take(done), k));
                if kx == k {
                    assert forall|j: int| 0 <= j < o.skip(p as int).len() implies sort_key(
                        #[trigger] o.skip(p as int)[j],
                    ) != k by {
                        assert(o.skip(p as int)[j] == o[p + j]);
                        lemma_key_lt_irreflexive(kx);
                    }
                    lemma_with_key_none(o.skip(p as int), k);
                    assert(wa + wx + wb =~= wa + wb + wx);
                } else {
                    assert(with_key(Seq::<TrackRequest>::empty(), k) =~= Seq::<TrackRequest>::empty());
                    assert(sort_key(seq![x].last()) != k);
                    assert(wx == with_key(seq![x].drop_last(), k));
                    assert(wx =~= Seq::<TrackRequest>::empty());
                    assert(wa + wx + wb =~= wa + wb + wx);
                }
            }
            done = done + 1;
        }
    }
    assert(input.take(done) =~= input);
    out
}

} // verus!
