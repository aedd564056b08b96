//! Text as sequences of characters: the operations on lines, tokens and
//! separators that the scanners and parsers of this crate are built from.
//!
//! Every operation is specified on `Seq<char>` and computed on `Vec<char>`.
use vstd::prelude::*;

verus! {

/// `String::push` appends one character.
pub assume_specification[ std::string::String::push ](s: &mut std::string::String, c: char)
    ensures
        final(s)@ == old(s)@.push(c),
;

/// A set of characters that a scan can skip over or stop at.
#[derive(Clone, Copy, Debug)]
pub enum CharClass {
    /// Characters with the Unicode property `White_Space`.
    Whitespace,
    /// Every character without that property.
    NotWhitespace,
    /// The one character given.
    Is(char),
    /// Every character but the one given.
    IsNot(char),
    /// The characters of a package name: ASCII letters and digits, `.`, `_`
    /// and `-`.
    PackageName,
    /// The characters of a version constraint: all but `;`, `,` and white
    /// space.
    VersionSpec,
    /// The characters that may stand before a name in a call: white space,
    /// `(` and quotes of either kind.
    Opening,
    /// The characters that may stand behind a name in a call: white space,
    /// quotes of either kind, `)` and `,`.
    Closing,
}

/// The characters with the Unicode property `White_Space`.
pub open spec fn is_whitespace(c: char) -> bool {
    ||| ('\u{9}' <= c && c <= '\u{d}')
    ||| c == ' '
    ||| c == '\u{85}'
    ||| c == '\u{a0}'
    ||| c == '\u{1680}'
    ||| ('\u{2000}' <= c && c <= '\u{200a}')
    ||| c == '\u{2028}'
    ||| c == '\u{2029}'
    ||| c == '\u{202f}'
    ||| c == '\u{205f}'
    ||| c == '\u{3000}'
}

/// The ASCII letters and digits.
pub open spec fn is_ascii_alphanumeric(c: char) -> bool {
    ('a' <= c && c <= 'z') || ('A' <= c && c <= 'Z') || ('0' <= c && c <= '9')
}

/// Whether `c` belongs to `class`.
pub open spec fn in_class(class: CharClass, c: char) -> bool {
    match class {
        CharClass::Whitespace => is_whitespace(c),
        CharClass::NotWhitespace => !is_whitespace(c),
        CharClass::Is(d) => c == d,
        CharClass::IsNot(d) => c != d,
        CharClass::PackageName => is_ascii_alphanumeric(c) || c == '.' || c == '_' || c == '-',
        CharClass::VersionSpec => !(c == ';' || c == ',' || is_whitespace(c)),
        CharClass::Opening => is_whitespace(c) || c == '(' || c == '\'' || c == '"',
        CharClass::Closing => is_whitespace(c) || c == '\'' || c == '"' || c == ')' || c == ',',
    }
}

/// How many characters at the start of `s` belong to `class`.
pub open spec fn leading(s: Seq<char>, class: CharClass) -> nat
    decreases s.len(),
{
    if s.len() > 0 && in_class(class, s[0]) {
        1 + leading(s.drop_first(), class)
    } else {
        0
    }
}

/// How many characters at the end of `s` belong to `class`.
pub open spec fn trailing(s: Seq<char>, class: CharClass) -> nat
    decreases s.len(),
{
    if s.len() > 0 && in_class(class, s.last()) {
        1 + trailing(s.drop_last(), class)
    } else {
        0
    }
}

/// `s` without its leading characters of `class`.
pub open spec fn strip_leading(s: Seq<char>, class: CharClass) -> Seq<char> {
    s.skip(leading(s, class) as int)
}

/// `s` without its trailing characters of `class`.
pub open spec fn strip_trailing(s: Seq<char>, class: CharClass) -> Seq<char> {
    s.take(s.len() - trailing(s, class))
}

/// `s` without the characters of `class` at either end.
pub open spec fn strip(s: Seq<char>, class: CharClass) -> Seq<char> {
    strip_trailing(strip_leading(s, class), class)
}

/// `s` without the white space at either end.
pub open spec fn trim(s: Seq<char>) -> Seq<char> {
    strip(s, CharClass::Whitespace)
}

/// The first `n` characters of `s` are those of `class` that it starts with
/// when all of them belong to `class` and the next one does not.
pub proof fn lemma_leading_is(s: Seq<char>, class: CharClass, n: int)
    requires
        0 <= n <= s.len(),
        forall|i: int| 0 <= i < n ==> in_class(class, s[i]),
        n < s.len() ==> !in_class(class, s[n]),
    ensures
        leading(s, class) == n,
    decreases n,
{
    if n > 0 {
        let t = s.drop_first();
        lemma_leading_is(t, class, n - 1);
    }
}

/// The leading characters of `class` are within `s`, all of them belong to
/// `class`, and the character after them does not.
pub proof fn lemma_leading_bounds(s: Seq<char>, class: CharClass)
    ensures
        leading(s, class) <= s.len(),
        forall|i: int| 0 <= i < leading(s, class) ==> in_class(class, s[i]),
        leading(s, class) < s.len() ==> !in_class(class, s[leading(s, class) as int]),
    decreases s.len(),
{
    if s.len() > 0 && in_class(class, s[0]) {
        let t = s.drop_first();
        lemma_leading_bounds(t, class);
        assert forall|i: int| 0 <= i < leading(s, class) implies in_class(class, s[i]) by {
            if i > 0 {
                assert(s[i] == t[i - 1]);
            }
        }
    }
}

/// The last `n` characters of `s` are those of `class` that it ends with
/// when all of them belong to `class` and the one before them does not.
pub proof fn lemma_trailing_is(s: Seq<char>, class: CharClass, n: int)
    requires
        0 <= n <= s.len(),
        forall|i: int| s.len() - n <= i < s.len() ==> in_class(class, s[i]),
        n < s.len() ==> !in_class(class, s[s.len() - n - 1]),
    ensures
        trailing(s, class) == n,
    decreases n,
{
    if n > 0 {
        let t = s.drop_last();
        lemma_trailing_is(t, class, n - 1);
    }
}

/// Whether `c` has the Unicode property `White_Space`.
pub fn char_is_whitespace(c: char) -> (r: bool)
    ensures
        r == is_whitespace(c),
{
    ('\u{9}' <= c && c <= '\u{d}') || c == ' ' || c == '\u{85}' || c == '\u{a0}' || c
        == '\u{1680}' || ('\u{2000}' <= c && c <= '\u{200a}') || c == '\u{2028}' || c
        == '\u{2029}' || c == '\u{202f}' || c == '\u{205f}' || c == '\u{3000}'
}

/// Whether `c` is an ASCII letter or digit.
pub fn char_is_ascii_alphanumeric(c: char) -> (r: bool)
    ensures
        r == is_ascii_alphanumeric(c),
{
    ('a' <= c && c <= 'z') || ('A' <= c && c <= 'Z') || ('0' <= c && c <= '9')
}

/// Whether `c` belongs to `class`.
pub fn char_in_class(class: CharClass, c: char) -> (r: bool)
    ensures
        r == in_class(class, c),
{
    match class {
        CharClass::Whitespace => char_is_whitespace(c),
        CharClass::NotWhitespace => !char_is_whitespace(c),
        CharClass::Is(d) => c == d,
        CharClass::IsNot(d) => c != d,
        CharClass::PackageName => char_is_ascii_alphanumeric(c) || c == '.' || c == '_' || c
            == '-',
        CharClass::VersionSpec => !(c == ';' || c == ',' || char_is_whitespace(c)),
        CharClass::Opening => char_is_whitespace(c) || c == '(' || c == '\'' || c == '"',
        CharClass::Closing => char_is_whitespace(c) || c == '\'' || c == '"' || c == ')' || c
            == ',',
    }
}

/// The characters of a string slice.
pub fn to_chars(s: &str) -> (v: Vec<char>)
    ensures
        v@ == s@,
{
    let mut v: Vec<char> = Vec::new();
    for c in it: s.chars()
        invariant
            v@ == it.seq().take(it.index() as int),
    {
        v.push(c);
    }
    v
}

/// The string made of the given characters.
pub fn from_chars(v: &Vec<char>) -> (s: String)
    ensures
        s@ == v@,
{
    let mut s = String::new();
    let mut i: usize = 0;
    while i < v.len()
        invariant
            i <= v.len(),
            s@ == v@.take(i as int),
        decreases v.len() - i,
    {
        s.push(v[i]);
        i += 1;
    }
    s
}

/// A copy of the characters of `v` from position `from` up to `to`.
pub fn subrange(v: &Vec<char>, from: usize, to: usize) -> (r: Vec<char>)
    requires
        from <= to <= v.len(),
    ensures
        r@ == v@.subrange(from as int, to as int),
{
    let mut r: Vec<char> = Vec::new();
    let mut i: usize = from;
    while i < to
        invariant
            from <= i <= to <= v.len(),
            r@ == v@.subrange(from as int, i as int),
        decreases to - i,
    {
        r.push(v[i]);
        i += 1;
    }
    r
}

/// Counts the characters of `class` that `v` starts with.
pub fn count_leading(v: &Vec<char>, class: CharClass) -> (n: usize)
    ensures
        n == leading(v@, class),
        n <= v.len(),
{
    let mut n: usize = 0;
    while n < v.len() && char_in_class(class, v[n])
        invariant
            n <= v.len(),
            forall|i: int| 0 <= i < n ==> in_class(class, v@[i]),
        decreases v.len() - n,
    {
        n += 1;
    }
    proof {
        lemma_leading_is(v@, class, n as int);
    }
    n
}

/// Counts the characters of `class` that `v` ends with.
pub fn count_trailing(v: &Vec<char>, class: CharClass) -> (n: usize)
    ensures
        n == trailing(v@, class),
        n <= v.len(),
{
    let mut n: usize = 0;
    while n < v.len() && char_in_class(class, v[v.len() - n - 1])
        invariant
            n <= v.len(),
            forall|i: int| v.len() - n <= i < v.len() ==> in_class(class, v@[i]),
        decreases v.len() - n,
    {
        n += 1;
    }
    proof {
        lemma_trailing_is(v@, class, n as int);
    }
    n
}

/// `v` without its leading characters of `class`.
pub fn strip_leading_chars(v: &Vec<char>, class: CharClass) -> (r: Vec<char>)
    ensures
        r@ == strip_leading(v@, class),
{
    let n = count_leading(v, class);
    subrange(v, n, v.len())
}

/// `v` without its trailing characters of `class`.
pub fn strip_trailing_chars(v: &Vec<char>, class: CharClass) -> (r: Vec<char>)
    ensures
        r@ == strip_trailing(v@, class),
{
    let n = count_trailing(v, class);
    subrange(v, 0, v.len() - n)
}

/// `v` without the characters of `class` at either end.
pub fn strip_chars(v: &Vec<char>, class: CharClass) -> (r: Vec<char>)
    ensures
        r@ == strip(v@, class),
{
    let start = strip_leading_chars(v, class);
    strip_trailing_chars(&start, class)
}

/// `v` without the white space at either end.
pub fn trim_chars(v: &Vec<char>) -> (r: Vec<char>)
    ensures
        r@ == trim(v@),
{
    strip_chars(v, CharClass::Whitespace)
}

/// Whether `pat` stands in `s` at position `i`.
pub open spec fn occurs_at(s: Seq<char>, pat: Seq<char>, i: int) -> bool {
    0 <= i && i + pat.len() <= s.len() && s.subrange(i, i + pat.len()) == pat
}

/// The first position at or after `from` where `pat` stands in `s`.
pub open spec fn find_from(s: Seq<char>, pat: Seq<char>, from: int) -> Option<int>
    decreases s.len() - from + 1,
{
    if from < 0 || from + pat.len() > s.len() {
        None
    } else if occurs_at(s, pat, from) {
        Some(from)
    } else {
        find_from(s, pat, from + 1)
    }
}

/// The first position where `pat` stands in `s`.
pub open spec fn find(s: Seq<char>, pat: Seq<char>) -> Option<int> {
    find_from(s, pat, 0)
}

/// Whether `pat` stands anywhere in `s`.
pub open spec fn contains(s: Seq<char>, pat: Seq<char>) -> bool {
    find(s, pat) is Some
}

/// The pieces of `s` between the occurrences of `pat`, taken from the left
/// and without overlap. There is always at least one piece, and only one
/// where `pat` is empty.
pub open spec fn split(s: Seq<char>, pat: Seq<char>) -> Seq<Seq<char>>
    decreases s.len(),
{
    let found = find(s, pat);
    if pat.len() > 0 && found is Some && 0 <= found->0 && found->0 + pat.len() <= s.len() {
        seq![s.take(found->0)] + split(s.skip(found->0 + pat.len()), pat)
    } else {
        seq![s]
    }
}

/// `s` without one carriage return at its end.
pub open spec fn strip_cr(s: Seq<char>) -> Seq<char> {
    if s.len() > 0 && s.last() == '\r' {
        s.drop_last()
    } else {
        s
    }
}

/// The lines of `s`. A line ends at a line feed, or at a carriage return
/// directly followed by one; the ending is not part of the line. After the
/// last line ending no empty line follows.
pub open spec fn lines(s: Seq<char>) -> Seq<Seq<char>>
    decreases s.len(),
{
    let n = leading(s, CharClass::IsNot('\n'));
    if s.len() == 0 {
        seq![]
    } else if n < s.len() {
        seq![strip_cr(s.take(n as int))] + lines(s.skip(n as int + 1))
    } else {
        seq![s]
    }
}

/// The maximal runs of characters of `s` that are not white space.
pub open spec fn split_whitespace(s: Seq<char>) -> Seq<Seq<char>>
    decreases s.len(),
{
    let t = strip_leading(s, CharClass::Whitespace);
    let n = leading(t, CharClass::NotWhitespace);
    if n == 0 {
        seq![]
    } else {
        proof {
            lemma_leading_bounds(s, CharClass::Whitespace);
            lemma_leading_bounds(t, CharClass::NotWhitespace);
        }
        seq![t.take(n as int)] + split_whitespace(t.skip(n as int))
    }
}

/// `s` with every `from` turned into `to`.
pub open spec fn replace_char(s: Seq<char>, from: char, to: char) -> Seq<char> {
    Seq::new(s.len(), |i: int| if s[i] == from { to } else { s[i] })
}

/// The views of the items of a sequence, in order.
pub open spec fn views<T: View>(v: Seq<T>) -> Seq<T::V> {
    Seq::new(v.len(), |i: int| v[i]@)
}

/// A search from `from` finds `pat` at `i` where it stands there and at no
/// position between the two.
pub proof fn lemma_find_from_is(s: Seq<char>, pat: Seq<char>, from: int, i: int)
    requires
        0 <= from <= i,
        forall|j: int| from <= j < i ==> !occurs_at(s, pat, j),
        occurs_at(s, pat, i),
    ensures
        find_from(s, pat, from) == Some(i),
    decreases i - from,
{
    if from < i {
        lemma_find_from_is(s, pat, from + 1, i);
    }
}

/// A search from `from` finds nothing where `pat` stands at no position from
/// there on.
pub proof fn lemma_find_from_none(s: Seq<char>, pat: Seq<char>, from: int)
    requires
        forall|j: int| from <= j ==> !occurs_at(s, pat, j),
    ensures
        find_from(s, pat, from) is None,
    decreases s.len() - from + 1,
{
    if !(from < 0 || from + pat.len() > s.len()) {
        lemma_find_from_none(s, pat, from + 1);
    }
}

/// What `find_from` returns is the first occurrence, if there is any.
pub proof fn lemma_find_from_bounds(s: Seq<char>, pat: Seq<char>, from: int)
    requires
        0 <= from,
    ensures
        match find_from(s, pat, from) {
            Some(i) => from <= i && occurs_at(s, pat, i) && forall|j: int|
                from <= j < i ==> !occurs_at(s, pat, j),
            None => forall|j: int| from <= j ==> !occurs_at(s, pat, j),
        },
    decreases s.len() - from + 1,
{
    if !(from + pat.len() > s.len()) && !occurs_at(s, pat, from) {
        lemma_find_from_bounds(s, pat, from + 1);
    }
}

/// Searching the rest of `s` after `k` characters is searching `s` from `k`.
pub proof fn lemma_find_skip(s: Seq<char>, pat: Seq<char>, k: int)
    requires
        0 <= k <= s.len(),
    ensures
        find(s.skip(k), pat) == match find_from(s, pat, k) {
            Some(i) => Some(i - k),
            None => None,
        },
{
    let t = s.skip(k);
    assert forall|j: int| 0 <= j implies occurs_at(t, pat, j) == occurs_at(s, pat, j + k) by {
        if j + pat.len() <= t.len() {
            assert(t.subrange(j, j + pat.len()) =~= s.subrange(j + k, j + k + pat.len()));
        }
    }
    lemma_find_from_bounds(s, pat, k);
    match find_from(s, pat, k) {
        Some(i) => {
            lemma_find_from_is(t, pat, 0, i - k);
        },
        None => {
            lemma_find_from_none(t, pat, 0);
        },
    }
}

/// Whether `pat` stands in `v` at position `i`.
pub fn matches_at(v: &Vec<char>, pat: &Vec<char>, i: usize) -> (r: bool)
    ensures
        r == occurs_at(v@, pat@, i as int),
{
    if pat.len() > v.len() || i > v.len() - pat.len() {
        return false;
    }
    let mut k: usize = 0;
    while k < pat.len()
        invariant
            k <= pat.len(),
            i + pat.len() <= v.len(),
            forall|j: int| 0 <= j < k ==> v@[i + j] == pat@[j],
        decreases pat.len() - k,
    {
        if v[i + k] != pat[k] {
            return false;
        }
        k += 1;
    }
    proof {
        assert(v@.subrange(i as int, i + pat.len()) =~= pat@);
    }
    true
}

/// Whether `v` begins with `pat`.
pub fn starts_with(v: &Vec<char>, pat: &Vec<char>) -> (r: bool)
    ensures
        r == pat@.is_prefix_of(v@),
{
    matches_at(v, pat, 0)
}

/// Whether `v` ends with `pat`.
pub fn ends_with(v: &Vec<char>, pat: &Vec<char>) -> (r: bool)
    ensures
        r == pat@.is_suffix_of(v@),
{
    if pat.len() > v.len() {
        return false;
    }
    matches_at(v, pat, v.len() - pat.len())
}

/// Whether `c` is one of the characters of `v`.
pub fn contains_char(v: &Vec<char>, c: char) -> (r: bool)
    ensures
        r == v@.contains(c),
{
    let mut i: usize = 0;
    while i < v.len()
        invariant
            i <= v.len(),
            forall|j: int| 0 <= j < i ==> v@[j] != c,
        decreases v.len() - i,
    {
        if v[i] == c {
            return true;
        }
        i += 1;
    }
    false
}

/// The first position at or after `from` where `pat` stands in `v`.
pub fn find_chars(v: &Vec<char>, pat: &Vec<char>, from: usize) -> (r: Option<usize>)
    ensures
        match r {
            Some(i) => find_from(v@, pat@, from as int) == Some(i as int) && from <= i && i
                + pat.len() <= v.len(),
            None => find_from(v@, pat@, from as int) is None,
        },
{
    if pat.len() > v.len() || from > v.len() - pat.len() {
        return None;
    }
    let last: usize = v.len() - pat.len();
    let mut i: usize = from;
    loop
        invariant
            from <= i <= last,
            last == v.len() - pat.len(),
            forall|j: int| from <= j < i ==> !occurs_at(v@, pat@, j),
        decreases last - i,
    {
        if matches_at(v, pat, i) {
            proof {
                lemma_find_from_is(v@, pat@, from as int, i as int);
            }
            return Some(i);
        }
        if i == last {
            proof {
                lemma_find_from_none(v@, pat@, from as int);
            }
            return None;
        }
        i += 1;
    }
}

/// Whether `pat` stands anywhere in `v`.
pub fn contains_chars(v: &Vec<char>, pat: &Vec<char>) -> (r: bool)
    ensures
        r == contains(v@, pat@),
{
    find_chars(v, pat, 0).is_some()
}

/// The pieces of `v` between the occurrences of `pat`; `v` in one piece
/// where `pat` is empty.
pub fn split_chars(v: &Vec<char>, pat: &Vec<char>) -> (pieces: Vec<Vec<char>>)
    ensures
        views(pieces@) == split(v@, pat@),
        pieces.len() > 0,
{
    let mut pieces: Vec<Vec<char>> = Vec::new();
    if pat.len() == 0 {
        let whole = v.clone();
        pieces.push(whole);
        return pieces;
    }
    let mut start: usize = 0;
    proof {
        assert(v@.skip(0) == v@);
    }
    loop
        invariant
            start <= v.len(),
            pat.len() > 0,
            split(v@, pat@) == views(pieces@) + split(v@.skip(start as int), pat@),
        decreases v.len() - start,
    {
        let ghost rest = v@.skip(start as int);
        proof {
            lemma_find_skip(v@, pat@, start as int);
        }
        match find_chars(v, pat, start) {
            Some(i) => {
                let piece = subrange(v, start, i);
                proof {
                    assert(piece@ == rest.take(i - start));
                    assert(rest.skip(i - start + pat.len()) == v@.skip(i + pat.len()));
                }
                pieces.push(piece);
                start = i + pat.len();
            },
            None => {
                let piece = subrange(v, start, v.len());
                pieces.push(piece);
                return pieces;
            },
        }
    }
}

/// The lines of `v`.
pub fn lines_of(v: &Vec<char>) -> (out: Vec<Vec<char>>)
    ensures
        views(out@) == lines(v@),
{
    let mut out: Vec<Vec<char>> = Vec::new();
    let mut start: usize = 0;
    proof {
        assert(v@.skip(0) == v@);
    }
    while start < v.len()
        invariant
            start <= v.len(),
            lines(v@) == views(out@) + lines(v@.skip(start as int)),
        decreases v.len() - start,
    {
        let ghost rest = v@.skip(start as int);
        let mut end: usize = start;
        while end < v.len() && v[end] != '\n'
            invariant
                start <= end <= v.len(),
                forall|j: int| start <= j < end ==> v@[j] != '\n',
            decreases v.len() - end,
        {
            end += 1;
        }
        proof {
            lemma_leading_is(rest, CharClass::IsNot('\n'), end - start);
        }
        if end < v.len() {
            let stop: usize = if end > start && v[end - 1] == '\r' {
                end - 1
            } else {
                end
            };
            let line = subrange(v, start, stop);
            proof {
                assert(line@ == strip_cr(rest.take(end - start)));
                assert(rest.skip(end - start + 1) == v@.skip(end + 1));
            }
            out.push(line);
            start = end + 1;
        } else {
            let line = subrange(v, start, end);
            out.push(line);
            start = end;
        }
    }
    out
}

/// The maximal runs of characters of `v` that are not white space.
pub fn split_whitespace_chars(v: &Vec<char>) -> (out: Vec<Vec<char>>)
    ensures
        views(out@) == split_whitespace(v@),
{
    let mut out: Vec<Vec<char>> = Vec::new();
    let mut start: usize = 0;
    proof {
        assert(v@.skip(0) == v@);
    }
    loop
        invariant
            start <= v.len(),
            split_whitespace(v@) == views(out@) + split_whitespace(v@.skip(start as int)),
        decreases v.len() - start,
    {
        let ghost rest = v@.skip(start as int);
        let mut begin: usize = start;
        while begin < v.len() && char_is_whitespace(v[begin])
            invariant
                start <= begin <= v.len(),
                forall|j: int| start <= j < begin ==> is_whitespace(v@[j]),
            decreases v.len() - begin,
        {
            begin += 1;
        }
        let mut end: usize = begin;
        while end < v.len() && !char_is_whitespace(v[end])
            invariant
                begin <= end <= v.len(),
                forall|j: int| begin <= j < end ==> !is_whitespace(v@[j]),
            decreases v.len() - end,
        {
            end += 1;
        }
        let ghost t = strip_leading(rest, CharClass::Whitespace);
        proof {
            lemma_leading_is(rest, CharClass::Whitespace, begin - start);
            lemma_leading_is(t, CharClass::NotWhitespace, end - begin);
        }
        if end == begin {
            return out;
        }
        let token = subrange(v, begin, end);
        proof {
            assert(token@ == t.take(end - begin));
            assert(t.skip(end - begin) == v@.skip(end as int));
        }
        out.push(token);
        start = end;
    }
}

/// `v` with every `from` turned into `to`.
pub fn replace_chars(v: &Vec<char>, from: char, to: char) -> (r: Vec<char>)
    ensures
        r@ == replace_char(v@, from, to),
{
    let mut r: Vec<char> = Vec::new();
    let mut i: usize = 0;
    while i < v.len()
        invariant
            i <= v.len(),
            r@ == replace_char(v@.take(i as int), from, to),
        decreases v.len() - i,
    {
        let c = v[i];
        r.push(if c == from { to } else { c });
        i += 1;
    }
    r
}

/// The strings made of each of the given character vectors.
pub fn strings_from(pieces: &Vec<Vec<char>>) -> (out: Vec<String>)
    ensures
        views(out@) == views(pieces@),
{
    let mut out: Vec<String> = Vec::new();
    let mut i: usize = 0;
    while i < pieces.len()
        invariant
            i <= pieces.len(),
            views(out@) == views(pieces@.take(i as int)),
        decreases pieces.len() - i,
    {
        let s = from_chars(&pieces[i]);
        proof {
            assert(views(pieces@.take(i + 1)) == views(pieces@.take(i as int)).push(s@));
        }
        out.push(s);
        i += 1;
    }
    out
}

/// Whether `a` and `b` hold the same characters.
pub fn same_chars(a: &Vec<char>, b: &Vec<char>) -> (r: bool)
    ensures
        r == (a@ == b@),
{
    if a.len() != b.len() {
        return false;
    }
    let mut i: usize = 0;
    while i < a.len()
        invariant
            i <= a.len(),
            a.len() == b.len(),
            forall|j: int| 0 <= j < i ==> a@[j] == b@[j],
        decreases a.len() - i,
    {
        if a[i] != b[i] {
            return false;
        }
        i += 1;
    }
    proof {
        assert(a@ =~= b@);
    }
    true
}

/// Adds the characters of `more` at the end of `v`.
pub fn append_chars(v: &mut Vec<char>, more: &Vec<char>)
    ensures
        final(v)@ == old(v)@ + more@,
{
    let mut i: usize = 0;
    while i < more.len()
        invariant
            i <= more.len(),
            v@ == old(v)@ + more@.take(i as int),
        decreases more.len() - i,
    {
        v.push(more[i]);
        i += 1;
    }
}

} // verus!
