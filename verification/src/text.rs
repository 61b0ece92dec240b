//! Text as sequences of characters: the string operations that the rest of the
//! library is stated over, and executable functions that compute them.

use vstd::prelude::*;
use vstd::relations::*;
use vstd::seq_lib::*;
use vstd::string::*;
use vstd::utf8::*;

verus! {

/// `String::push` appends the given character to the end of the string.
pub assume_specification[ String::push ](s: &mut String, c: char)
    ensures
        final(s)@ == old(s)@.push(c),
;

/// The characters with the Unicode property `White_Space`.
pub open spec fn is_white_space(c: char) -> bool {
    ||| '\u{9}' <= c <= '\u{d}'
    ||| c == '\u{20}'
    ||| c == '\u{85}'
    ||| c == '\u{a0}'
    ||| c == '\u{1680}'
    ||| '\u{2000}' <= c <= '\u{200a}'
    ||| c == '\u{2028}'
    ||| c == '\u{2029}'
    ||| c == '\u{202f}'
    ||| c == '\u{205f}'
    ||| c == '\u{3000}'
}

/// The texts held by a sequence of strings.
pub open spec fn texts(strings: Seq<String>) -> Seq<Seq<char>> {
    strings.map_values(|s: String| s@)
}

/// The text held by an optional string.
pub open spec fn opt_text(s: Option<String>) -> Option<Seq<char>> {
    match s {
        Some(s) => Some(s@),
        None => None,
    }
}

/// The text held by an optional string slice.
pub open spec fn opt_str(s: Option<&str>) -> Option<Seq<char>> {
    match s {
        Some(s) => Some(s@),
        None => None,
    }
}

/// `s` without its leading white space.
pub open spec fn trim_start(s: Seq<char>) -> Seq<char>
    decreases s.len(),
{
    if s.len() > 0 && is_white_space(s[0]) {
        trim_start(s.drop_first())
    } else {
        s
    }
}

/// `s` without its trailing white space.
pub open spec fn trim_end(s: Seq<char>) -> Seq<char>
    decreases s.len(),
{
    if s.len() > 0 && is_white_space(s.last()) {
        trim_end(s.drop_last())
    } else {
        s
    }
}

/// `s` without the white space at either end.
pub open spec fn trim(s: Seq<char>) -> Seq<char> {
    trim_end(trim_start(s))
}

/// What follows `prefix` in `s`, if `s` starts with it.
pub open spec fn strip_prefix(s: Seq<char>, prefix: Seq<char>) -> Option<Seq<char>> {
    if prefix.is_prefix_of(s) {
        Some(s.skip(prefix.len() as int))
    } else {
        None
    }
}

/// Whether `pattern` stands somewhere in `s`.
pub open spec fn contains(s: Seq<char>, pattern: Seq<char>) -> bool {
    exists|i: int| 0 <= i <= s.len() && #[trigger] pattern.is_prefix_of(s.skip(i))
}

/// `s` without any repetition of `pattern` at its start.
pub open spec fn trim_start_matches(s: Seq<char>, pattern: Seq<char>) -> Seq<char>
    decreases s.len(),
{
    if pattern.len() > 0 && pattern.is_prefix_of(s) {
        trim_start_matches(s.skip(pattern.len() as int), pattern)
    } else {
        s
    }
}

/// `s` without any repetition of `pattern` at its end.
pub open spec fn trim_end_matches(s: Seq<char>, pattern: Seq<char>) -> Seq<char>
    decreases s.len(),
{
    if pattern.len() > 0 && pattern.is_suffix_of(s) {
        trim_end_matches(s.take(s.len() - pattern.len()), pattern)
    } else {
        s
    }
}

/// `s` with each occurrence of `from`, found from left to right without
/// overlap, replaced by `to`.
pub open spec fn replace(s: Seq<char>, from: Seq<char>, to: Seq<char>) -> Seq<char>
    decreases s.len(),
{
    if s.len() == 0 || from.len() == 0 {
        s
    } else if from.is_prefix_of(s) {
        to + replace(s.skip(from.len() as int), from, to)
    } else {
        seq![s[0]] + replace(s.drop_first(), from, to)
    }
}

/// `s` cut at its first `c`, which belongs to neither half.
pub open spec fn split_once(s: Seq<char>, c: char) -> Option<(Seq<char>, Seq<char>)> {
    let n = find(s, c) as int;
    if n < s.len() {
        Some((s.take(n), s.skip(n + 1)))
    } else {
        None
    }
}

/// The number of characters before the first `c` in `s`, or all of them.
pub open spec fn find(s: Seq<char>, c: char) -> nat
    decreases s.len(),
{
    if s.len() == 0 || s[0] == c {
        0
    } else {
        1 + find(s.drop_first(), c)
    }
}

/// `s` without a carriage return at its end.
pub open spec fn drop_carriage_return(s: Seq<char>) -> Seq<char> {
    if s.len() > 0 && s.last() == '\r' {
        s.drop_last()
    } else {
        s
    }
}

/// The lines of `s`. A line ends at a line feed, or at a carriage return with a
/// line feed behind it; the end of the last line is optional.
pub open spec fn lines(s: Seq<char>) -> Seq<Seq<char>>
    decreases s.len(),
{
    let n = find(s, '\n') as int;
    if s.len() == 0 {
        seq![]
    } else if n >= s.len() {
        seq![s]
    } else {
        seq![drop_carriage_return(s.take(n))] + lines(s.skip(n + 1))
    }
}

/// The number of characters before the first white space in `s`, or all of them.
pub open spec fn word_end(s: Seq<char>) -> nat
    decreases s.len(),
{
    if s.len() == 0 || is_white_space(s[0]) {
        0
    } else {
        1 + word_end(s.drop_first())
    }
}

/// The runs of characters in `s` that are no white space, in order.
pub open spec fn words(s: Seq<char>) -> Seq<Seq<char>>
    decreases s.len(),
{
    if s.len() == 0 {
        seq![]
    } else if is_white_space(s[0]) {
        words(s.drop_first())
    } else {
        let n = word_end(s) as int;
        proof {
            lemma_word_end(s);
        }
        seq![s.take(n)] + words(s.skip(n))
    }
}

/// The texts of `parts` with `separator` between each two.
pub open spec fn join(parts: Seq<Seq<char>>, separator: Seq<char>) -> Seq<char>
    decreases parts.len(),
{
    if parts.len() == 0 {
        seq![]
    } else if parts.len() == 1 {
        parts[0]
    } else {
        parts[0] + separator + join(parts.drop_first(), separator)
    }
}

/// The character of a decimal digit.
pub open spec fn digit(n: nat) -> char {
    (48 + n) as char
}

/// `n` in decimal.
pub open spec fn decimal(n: nat) -> Seq<char>
    decreases n,
{
    if n < 10 {
        seq![digit(n)]
    } else {
        decimal(n / 10).push(digit(n % 10))
    }
}

/// The character of a hexadecimal digit, in lower case.
pub open spec fn hex_digit(n: nat) -> char {
    if n < 10 {
        (48 + n) as char
    } else {
        (87 + n) as char
    }
}

/// `data` in hexadecimal, two digits to a byte, in lower case.
pub open spec fn hex(data: Seq<u8>) -> Seq<char> {
    Seq::new(
        2 * data.len(),
        |i: int|
            if i % 2 == 0 {
                hex_digit((data[i / 2] / 16) as nat)
            } else {
                hex_digit((data[i / 2] % 16) as nat)
            },
    )
}

/// The characters of `s`.
pub fn chars_of(s: &str) -> (r: Vec<char>)
    ensures
        r@ == s@,
{
    let mut out: Vec<char> = Vec::new();
    for c in it: s.chars()
        invariant
            it.seq() == s@,
            out@ == s@.take(it.index()),
    {
        out.push(c);
        assert(out@ == s@.take(it.index() + 1));
    }
    out
}

/// The string of the characters from `from` up to `to`.
pub fn string_between(cs: &Vec<char>, from: usize, to: usize) -> (r: String)
    requires
        from <= to <= cs@.len(),
    ensures
        r@ == cs@.subrange(from as int, to as int),
{
    let mut out = String::new();
    for i in from..to
        invariant
            to <= cs@.len(),
            out@ == cs@.subrange(from as int, i as int),
    {
        out.push(cs[i]);
        assert(out@ == cs@.subrange(from as int, i + 1));
    }
    out
}

/// Whether two texts are equal.
pub fn same_text(a: &str, b: &str) -> (r: bool)
    ensures
        r == (a@ == b@),
{
    a.to_owned() == b.to_owned()
}

/// Computes `is_white_space`.
pub fn white_space(c: char) -> (r: bool)
    ensures
        r == is_white_space(c),
{
    ('\u{9}' <= c && c <= '\u{d}') || c == '\u{20}' || c == '\u{85}' || c == '\u{a0}' || c
        == '\u{1680}' || ('\u{2000}' <= c && c <= '\u{200a}') || c == '\u{2028}' || c == '\u{2029}'
        || c == '\u{202f}' || c == '\u{205f}' || c == '\u{3000}'
}

/// The first white space of `s` stands at `word_end(s)`.
pub proof fn lemma_word_end(s: Seq<char>)
    ensures
        word_end(s) <= s.len(),
        forall|i: int| 0 <= i < word_end(s) ==> !is_white_space(#[trigger] s[i]),
        word_end(s) < s.len() ==> is_white_space(s[word_end(s) as int]),
    decreases s.len(),
{
    if s.len() > 0 && !is_white_space(s[0]) {
        let t = s.drop_first();
        lemma_word_end(t);
        assert forall|i: int| 0 <= i < word_end(s) implies !is_white_space(#[trigger] s[i]) by {
            if i > 0 {
                assert(s[i] == t[i - 1]);
            }
        }
    }
}

/// The first `c` of `s` stands at `find(s, c)`.
pub proof fn lemma_find(s: Seq<char>, c: char)
    ensures
        find(s, c) <= s.len(),
        forall|i: int| 0 <= i < find(s, c) ==> #[trigger] s[i] != c,
        find(s, c) < s.len() ==> s[find(s, c) as int] == c,
    decreases s.len(),
{
    if s.len() > 0 && s[0] != c {
        let t = s.drop_first();
        lemma_find(t, c);
        assert forall|i: int| 0 <= i < find(s, c) implies #[trigger] s[i] != c by {
            if i > 0 {
                assert(s[i] == t[i - 1]);
            }
        }
    }
}

/// A position before which there is no `c`, and which is the end or holds `c`,
/// is `find(s, c)`.
pub proof fn lemma_find_is(s: Seq<char>, c: char, n: int)
    requires
        0 <= n <= s.len(),
        forall|i: int| 0 <= i < n ==> #[trigger] s[i] != c,
        n < s.len() ==> s[n] == c,
    ensures
        find(s, c) == n,
{
    lemma_find(s, c);
    let m = find(s, c) as int;
    if m < n {
        assert(s[m] != c);
    }
    if n < m {
        assert(s[n] != c);
    }
}

/// As `lemma_find_is`, of the first white space.
pub proof fn lemma_word_end_is(s: Seq<char>, n: int)
    requires
        0 <= n <= s.len(),
        forall|i: int| 0 <= i < n ==> !is_white_space(#[trigger] s[i]),
        n < s.len() ==> is_white_space(s[n]),
    ensures
        word_end(s) == n,
{
    lemma_word_end(s);
    let m = word_end(s) as int;
    if m < n {
        assert(!is_white_space(s[m]));
    }
    if n < m {
        assert(!is_white_space(s[n]));
    }
}

/// Computes `trim`.
pub fn trimmed(s: &str) -> (r: String)
    ensures
        r@ == trim(s@),
{
    let cs = chars_of(s);
    let mut from: usize = 0;
    assert(cs@.skip(0) == cs@);
    while from < cs.len() && white_space(cs[from])
        invariant
            from <= cs@.len(),
            trim_start(cs@) == trim_start(cs@.skip(from as int)),
        decreases cs@.len() - from,
    {
        assert(cs@.skip(from as int).drop_first() == cs@.skip(from + 1));
        from = from + 1;
    }
    let ghost rest = cs@.skip(from as int);
    let mut to: usize = cs.len();
    assert(cs@.subrange(from as int, to as int) == rest);
    while to > from && white_space(cs[to - 1])
        invariant
            from <= to <= cs@.len(),
            trim_end(rest) == trim_end(cs@.subrange(from as int, to as int)),
        decreases to,
    {
        assert(cs@.subrange(from as int, to as int).drop_last() == cs@.subrange(
            from as int,
            to - 1,
        ));
        to = to - 1;
    }
    string_between(&cs, from, to)
}

/// Computes `trim_start`.
pub fn trimmed_start(s: &str) -> (r: String)
    ensures
        r@ == trim_start(s@),
{
    let cs = chars_of(s);
    let mut from: usize = 0;
    assert(cs@.skip(0) == cs@);
    while from < cs.len() && white_space(cs[from])
        invariant
            from <= cs@.len(),
            trim_start(cs@) == trim_start(cs@.skip(from as int)),
        decreases cs@.len() - from,
    {
        assert(cs@.skip(from as int).drop_first() == cs@.skip(from + 1));
        from = from + 1;
    }
    assert(cs@.skip(from as int) == cs@.subrange(from as int, cs@.len() as int));
    string_between(&cs, from, cs.len())
}

/// Whether `pattern` stands at position `at` of `cs`.
fn stands_at(cs: &Vec<char>, at: usize, pattern: &Vec<char>) -> (r: bool)
    requires
        at <= cs@.len(),
    ensures
        r == pattern@.is_prefix_of(cs@.skip(at as int)),
{
    if pattern.len() > cs.len() - at {
        return false;
    }
    let mut i: usize = 0;
    while i < pattern.len()
        invariant
            i <= pattern@.len(),
            at + pattern.len() <= cs.len(),
            forall|j: int| 0 <= j < i ==> pattern@[j] == cs@[at + j],
        decreases pattern@.len() - i,
    {
        if pattern[i] != cs[at + i] {
            assert(cs@.skip(at as int)[i as int] == cs@[at + i]);
            assert(cs@.skip(at as int).subrange(0, pattern@.len() as int)[i as int] == cs@[at + i]);
            return false;
        }
        i = i + 1;
    }
    assert(cs@.skip(at as int).subrange(0, pattern@.len() as int) == pattern@);
    true
}

/// Computes `strip_prefix`.
pub fn after_prefix(s: &str, prefix: &str) -> (r: Option<String>)
    ensures
        opt_text(r) == strip_prefix(s@, prefix@),
{
    let cs = chars_of(s);
    let pattern = chars_of(prefix);
    assert(cs@.skip(0) == cs@);
    if stands_at(&cs, 0, &pattern) {
        assert(cs@.skip(pattern@.len() as int) == cs@.subrange(
            pattern@.len() as int,
            cs@.len() as int,
        ));
        Some(string_between(&cs, pattern.len(), cs.len()))
    } else {
        None
    }
}

/// Whether `s` starts with `prefix`.
pub fn has_prefix(s: &str, prefix: &str) -> (r: bool)
    ensures
        r == prefix@.is_prefix_of(s@),
{
    let cs = chars_of(s);
    assert(cs@.skip(0) == cs@);
    stands_at(&cs, 0, &chars_of(prefix))
}

/// Whether `s` ends with `suffix`.
pub fn has_suffix(s: &str, suffix: &str) -> (r: bool)
    ensures
        r == suffix@.is_suffix_of(s@),
{
    let cs = chars_of(s);
    let pattern = chars_of(suffix);
    if pattern.len() > cs.len() {
        return false;
    }
    let ghost rest = cs@.skip(cs@.len() - pattern@.len());
    assert(rest == cs@.subrange(cs@.len() - pattern@.len(), cs@.len() as int));
    assert(rest.subrange(0, pattern@.len() as int) == rest);
    stands_at(&cs, cs.len() - pattern.len(), &pattern)
}

/// Computes `contains`.
pub fn has_text(s: &str, pattern: &str) -> (r: bool)
    ensures
        r == contains(s@, pattern@),
{
    let cs = chars_of(s);
    let pat = chars_of(pattern);
    let mut at: usize = 0;
    while at < cs.len()
        invariant
            at <= cs@.len(),
            cs@ == s@,
            pat@ == pattern@,
            forall|i: int| 0 <= i < at ==> !#[trigger] pat@.is_prefix_of(cs@.skip(i)),
        decreases cs@.len() - at,
    {
        if stands_at(&cs, at, &pat) {
            return true;
        }
        at = at + 1;
    }
    stands_at(&cs, at, &pat)
}

/// Computes `trim_start_matches`.
pub fn drop_leading(s: &str, pattern: &str) -> (r: String)
    ensures
        r@ == trim_start_matches(s@, pattern@),
{
    let cs = chars_of(s);
    let pat = chars_of(pattern);
    let mut from: usize = 0;
    assert(cs@.skip(0) == cs@);
    while pat.len() > 0 && stands_at(&cs, from, &pat)
        invariant
            from <= cs.len(),
            trim_start_matches(cs@, pat@) == trim_start_matches(cs@.skip(from as int), pat@),
        decreases cs@.len() - from,
    {
        assert(cs@.skip(from as int).skip(pat@.len() as int) == cs@.skip(from + pat@.len()));
        from = from + pat.len();
    }
    assert(cs@.skip(from as int) == cs@.subrange(from as int, cs@.len() as int));
    string_between(&cs, from, cs.len())
}

/// Computes `trim_end_matches`.
pub fn drop_trailing(s: &str, pattern: &str) -> (r: String)
    ensures
        r@ == trim_end_matches(s@, pattern@),
{
    let cs = chars_of(s);
    let pat = chars_of(pattern);
    let mut to: usize = cs.len();
    assert(cs@.take(to as int) == cs@);
    while pat.len() > 0 && pat.len() <= to && has_suffix(string_between(&cs, 0, to).as_str(), pattern)
        invariant
            to <= cs@.len(),
            pat@ == pattern@,
            trim_end_matches(cs@, pat@) == trim_end_matches(cs@.take(to as int), pat@),
        decreases to,
    {
        assert(cs@.subrange(0, to as int) == cs@.take(to as int));
        assert(cs@.take(to as int).take(to - pat@.len()) == cs@.take(to - pat@.len()));
        to = to - pat.len();
    }
    assert(cs@.subrange(0, to as int) == cs@.take(to as int));
    string_between(&cs, 0, to)
}

/// Computes `replace`.
pub fn replaced(s: &str, from: &str, to: &str) -> (r: String)
    requires
        from@.len() > 0,
    ensures
        r@ == replace(s@, from@, to@),
{
    let cs = chars_of(s);
    let pat = chars_of(from);
    let mut out = String::new();
    let mut at: usize = 0;
    assert(cs@.skip(0) == cs@);
    while at < cs.len()
        invariant
            at <= cs@.len(),
            pat@ == from@,
            pat@.len() > 0,
            replace(cs@, pat@, to@) == out@ + replace(cs@.skip(at as int), pat@, to@),
        decreases cs@.len() - at,
    {
        let ghost rest = cs@.skip(at as int);
        if stands_at(&cs, at, &pat) {
            assert(rest.skip(pat@.len() as int) == cs@.skip(at + pat@.len()));
            let ghost before = out@;
            out.append(to);
            assert(before + (to@ + replace(cs@.skip(at + pat@.len()), pat@, to@)) == out@
                + replace(cs@.skip(at + pat@.len()), pat@, to@));
            at = at + pat.len();
        } else {
            assert(rest.drop_first() == cs@.skip(at + 1));
            let ghost before = out@;
            out.push(cs[at]);
            assert(before + (seq![rest[0]] + replace(cs@.skip(at + 1), pat@, to@)) == out@ + replace(
                cs@.skip(at + 1),
                pat@,
                to@,
            ));
            at = at + 1;
        }
    }
    assert(out@ + cs@.skip(at as int) == out@);
    out
}

/// Computes `lines`.
pub fn split_lines(s: &str) -> (r: Vec<String>)
    ensures
        texts(r@) == lines(s@),
{
    let cs = chars_of(s);
    let mut out: Vec<String> = Vec::new();
    let mut from: usize = 0;
    assert(cs@.skip(0) == cs@);
    assert(texts(out@) + lines(cs@) == lines(cs@));
    while from < cs.len()
        invariant
            from <= cs@.len(),
            lines(cs@) == texts(out@) + lines(cs@.skip(from as int)),
        decreases cs@.len() - from,
    {
        let ghost rest = cs@.skip(from as int);
        let mut to: usize = from;
        while to < cs.len() && cs[to] != '\n'
            invariant
                from <= to <= cs@.len(),
                forall|i: int| from <= i < to ==> cs@[i] != '\n',
            decreases cs@.len() - to,
        {
            to = to + 1;
        }
        proof {
            lemma_find_is(rest, '\n', to - from);
            assert(cs@.subrange(from as int, to as int) == rest.take(to - from));
        }
        let ghost before = out@;
        if to < cs.len() {
            let end: usize = if to > from && cs[to - 1] == '\r' {
                to - 1
            } else {
                to
            };
            out.push(string_between(&cs, from, end));
            assert(out@.last()@ == drop_carriage_return(rest.take(to - from)));
            assert(rest.skip(to - from + 1) == cs@.skip(to + 1));
            assert(texts(out@) == texts(before) + seq![drop_carriage_return(
                rest.take(to - from),
            )]);
            assert(texts(before) + lines(rest) == texts(out@) + lines(cs@.skip(to + 1)));
            from = to + 1;
        } else {
            out.push(string_between(&cs, from, to));
            assert(rest.take(to - from) == rest);
            assert(texts(out@) == texts(before) + seq![rest]);
            assert(texts(out@) + lines(cs@.skip(to as int)) == texts(out@));
            from = to;
        }
    }
    assert(texts(out@) + lines(cs@.skip(from as int)) == texts(out@));
    out
}

/// Computes `words`.
pub fn split_words(s: &str) -> (r: Vec<String>)
    ensures
        texts(r@) == words(s@),
{
    let cs = chars_of(s);
    let mut out: Vec<String> = Vec::new();
    let mut from: usize = 0;
    assert(cs@.skip(0) == cs@);
    assert(texts(out@) + words(cs@) == words(cs@));
    while from < cs.len()
        invariant
            from <= cs@.len(),
            words(cs@) == texts(out@) + words(cs@.skip(from as int)),
        decreases cs@.len() - from,
    {
        let ghost rest = cs@.skip(from as int);
        if white_space(cs[from]) {
            assert(rest.drop_first() == cs@.skip(from + 1));
            from = from + 1;
        } else {
            let mut to: usize = from;
            while to < cs.len() && !white_space(cs[to])
                invariant
                    from <= to <= cs@.len(),
                    forall|i: int| from <= i < to ==> !is_white_space(#[trigger] cs@[i]),
                decreases cs@.len() - to,
            {
                to = to + 1;
            }
            proof {
                lemma_word_end_is(rest, to - from);
                assert(cs@.subrange(from as int, to as int) == rest.take(to - from));
                assert(rest.skip(to - from) == cs@.skip(to as int));
            }
            let ghost before = out@;
            out.push(string_between(&cs, from, to));
            assert(texts(out@) == texts(before) + seq![rest.take(to - from)]);
            assert(texts(before) + words(rest) == texts(out@) + words(cs@.skip(to as int)));
            from = to;
        }
    }
    assert(texts(out@) + words(cs@.skip(from as int)) == texts(out@));
    out
}

/// Computes `join`.
pub fn joined(parts: &[String], separator: &str) -> (r: String)
    ensures
        r@ == join(texts(parts@), separator@),
{
    let mut out = String::new();
    let mut i: usize = parts.len();
    proof {
        assert(texts(parts@).skip(i as int) == Seq::<Seq<char>>::empty());
    }
    while i > 0
        invariant
            i <= parts@.len(),
            out@ == join(texts(parts@).skip(i as int), separator@),
        decreases i,
    {
        let ghost rest = texts(parts@).skip(i - 1);
        assert(rest.drop_first() == texts(parts@).skip(i as int));
        assert(rest[0] == parts@[i - 1]@);
        if i == parts.len() {
            out = parts[i - 1].clone();
        } else {
            let mut longer = parts[i - 1].clone();
            longer.append(separator);
            longer.append(out.as_str());
            out = longer;
        }
        i = i - 1;
    }
    assert(texts(parts@).skip(0) == texts(parts@));
    out
}

/// Computes `digit`.
fn digit_char(n: u8) -> (r: char)
    requires
        n < 10,
    ensures
        r == digit(n as nat),
{
    (48 + n) as char
}

/// Computes `decimal`.
pub fn decimal_text(n: u64) -> (r: String)
    ensures
        r@ == decimal(n as nat),
    decreases n,
{
    if n < 10 {
        let mut out = String::new();
        out.push(digit_char(n as u8));
        assert(out@ == decimal(n as nat));
        out
    } else {
        let mut out = decimal_text(n / 10);
        out.push(digit_char((n % 10) as u8));
        out
    }
}

/// Computes `hex_digit`.
fn hex_char(n: u8) -> (r: char)
    requires
        n < 16,
    ensures
        r == hex_digit(n as nat),
{
    if n < 10 {
        (48 + n) as char
    } else {
        (87 + n) as char
    }
}

/// Computes `hex`.
pub fn hex_text(data: &[u8]) -> (r: String)
    ensures
        r@ == hex(data@),
{
    let mut out = String::new();
    for i in 0..data.len()
        invariant
            out@ == hex(data@).take(2 * i),
    {
        out.push(hex_char(data[i] / 16));
        out.push(hex_char(data[i] % 16));
        assert(out@ == hex(data@).take(2 * (i + 1)));
    }
    assert(hex(data@).take(2 * data@.len() as int) == hex(data@));
    out
}

/// Whether one of the strings holds the given text.
pub fn holds(strings: &[String], text: &str) -> (r: bool)
    ensures
        r == texts(strings@).contains(text@),
{
    let mut i: usize = 0;
    while i < strings.len()
        invariant
            i <= strings@.len(),
            forall|j: int| 0 <= j < i ==> texts(strings@)[j] != text@,
        decreases strings@.len() - i,
    {
        if same_text(strings[i].as_str(), text) {
            assert(texts(strings@)[i as int] == text@);
            return true;
        }
        i = i + 1;
    }
    false
}

/// Computes `split_once`.
pub fn cut_at(s: &str, c: char) -> (r: Option<(String, String)>)
    ensures
        match r {
            Some((before, after)) => split_once(s@, c) == Some((before@, after@)),
            None => split_once(s@, c) is None,
        },
{
    let cs = chars_of(s);
    let mut n: usize = 0;
    while n < cs.len() && cs[n] != c
        invariant
            n <= cs@.len(),
            forall|i: int| 0 <= i < n ==> cs@[i] != c,
        decreases cs@.len() - n,
    {
        n = n + 1;
    }
    proof {
        lemma_find_is(cs@, c, n as int);
    }
    if n < cs.len() {
        assert(cs@.subrange(0, n as int) == cs@.take(n as int));
        assert(cs@.subrange(n + 1, cs@.len() as int) == cs@.skip(n + 1));
        Some((string_between(&cs, 0, n), string_between(&cs, n + 1, cs.len())))
    } else {
        None
    }
}

/// The lexicographic order of byte sequences.
pub open spec fn bytes_le(a: Seq<u8>, b: Seq<u8>) -> bool
    decreases a.len(),
{
    if a.len() == 0 {
        true
    } else if b.len() == 0 {
        false
    } else if a[0] != b[0] {
        a[0] < b[0]
    } else {
        bytes_le(a.drop_first(), b.drop_first())
    }
}

/// The order of texts, by their bytes in UTF-8.
pub open spec fn text_le(a: Seq<char>, b: Seq<char>) -> bool {
    bytes_le(encode_utf8(a), encode_utf8(b))
}

/// The texts of `parts` in ascending order.
pub open spec fn sorted(parts: Seq<Seq<char>>) -> Seq<Seq<char>> {
    parts.sort_by(|a: Seq<char>, b: Seq<char>| text_le(a, b))
}

proof fn lemma_bytes_le_reflexive(a: Seq<u8>)
    ensures
        bytes_le(a, a),
    decreases a.len(),
{
    if a.len() > 0 {
        lemma_bytes_le_reflexive(a.drop_first());
    }
}

proof fn lemma_bytes_le_antisymmetric(a: Seq<u8>, b: Seq<u8>)
    requires
        bytes_le(a, b),
        bytes_le(b, a),
    ensures
        a == b,
    decreases a.len(),
{
    if a.len() > 0 && b.len() > 0 {
        lemma_bytes_le_antisymmetric(a.drop_first(), b.drop_first());
        assert(a == seq![a[0]] + a.drop_first());
        assert(b == seq![b[0]] + b.drop_first());
    }
}

proof fn lemma_bytes_le_transitive(a: Seq<u8>, b: Seq<u8>, c: Seq<u8>)
    requires
        bytes_le(a, b),
        bytes_le(b, c),
    ensures
        bytes_le(a, c),
    decreases a.len(),
{
    if a.len() > 0 && b.len() > 0 && c.len() > 0 && a[0] == b[0] && b[0] == c[0] {
        lemma_bytes_le_transitive(a.drop_first(), b.drop_first(), c.drop_first());
    }
}

proof fn lemma_bytes_le_total(a: Seq<u8>, b: Seq<u8>)
    ensures
        bytes_le(a, b) || bytes_le(b, a),
    decreases a.len(),
{
    if a.len() > 0 && b.len() > 0 && a[0] == b[0] {
        lemma_bytes_le_total(a.drop_first(), b.drop_first());
    }
}

/// The order of texts is total.
pub proof fn lemma_text_le_total_order()
    ensures
        total_ordering(|a: Seq<char>, b: Seq<char>| text_le(a, b)),
{
    let le = |a: Seq<char>, b: Seq<char>| text_le(a, b);
    assert forall|a: Seq<char>| #[trigger] le(a, a) by {
        lemma_bytes_le_reflexive(encode_utf8(a));
    }
    assert forall|a: Seq<char>, b: Seq<char>| #[trigger] le(a, b) && #[trigger] le(b, a) implies a
        == b by {
        lemma_bytes_le_antisymmetric(encode_utf8(a), encode_utf8(b));
        encode_utf8_decode_utf8(a);
        encode_utf8_decode_utf8(b);
    }
    assert forall|a: Seq<char>, b: Seq<char>, c: Seq<char>| #[trigger]
        le(a, b) && #[trigger] le(b, c) implies le(a, c) by {
        lemma_bytes_le_transitive(encode_utf8(a), encode_utf8(b), encode_utf8(c));
    }
    assert forall|a: Seq<char>, b: Seq<char>| #[trigger] le(a, b) || #[trigger] le(b, a) by {
        lemma_bytes_le_total(encode_utf8(a), encode_utf8(b));
    }
}

/// Computes `text_le`.
fn not_after(a: &str, b: &str) -> (r: bool)
    ensures
        r == text_le(a@, b@),
{
    let x = a.as_bytes();
    let y = b.as_bytes();
    let mut i: usize = 0;
    assert(x@.skip(0) == x@ && y@.skip(0) == y@);
    while i < x.len() && i < y.len() && x[i] == y[i]
        invariant
            i <= x@.len(),
            i <= y@.len(),
            bytes_le(x@, y@) == bytes_le(x@.skip(i as int), y@.skip(i as int)),
        decreases x@.len() - i,
    {
        assert(x@.skip(i as int).drop_first() == x@.skip(i + 1));
        assert(y@.skip(i as int).drop_first() == y@.skip(i + 1));
        i = i + 1;
    }
    if i == x.len() {
        true
    } else if i == y.len() {
        false
    } else {
        x[i] < y[i]
    }
}

/// Computes `sorted`.
pub fn in_order(strings: &[String]) -> (r: Vec<String>)
    ensures
        texts(r@) == sorted(texts(strings@)),
{
    let ghost le = |a: Seq<char>, b: Seq<char>| text_le(a, b);
    let ghost all = texts(strings@);
    let mut out: Vec<String> = Vec::new();
    proof {
        assert(texts(out@) == all.take(0));
    }
    for i in 0..strings.len()
        invariant
            all == texts(strings@),
            le == (|a: Seq<char>, b: Seq<char>| text_le(a, b)),
            sorted_by(texts(out@), le),
            texts(out@).to_multiset() == all.take(i as int).to_multiset(),
    {
        let ghost x = all[i as int];
        let mut at: usize = out.len();
        proof {
            lemma_text_le_total_order();
        }
        while at > 0 && !not_after(out[at - 1].as_str(), strings[i].as_str())
            invariant
                at <= out@.len(),
                i < strings@.len(),
                le == (|a: Seq<char>, b: Seq<char>| text_le(a, b)),
                total_ordering(le),
                x == strings@[i as int]@,
                forall|j: int| at <= j < out@.len() ==> le(x, #[trigger] texts(out@)[j]),
            decreases at,
        {
            assert(le(texts(out@)[at - 1], x) || le(x, texts(out@)[at - 1]));
            at = at - 1;
        }
        let ghost before = texts(out@);
        out.insert(at, strings[i].clone());
        proof {
            let after = texts(out@);
            assert(after == before.insert(at as int, x));
            to_multiset_insert(before, at as int, x);
            assert(all.take(i + 1) == all.take(i as int).push(x));
            to_multiset_build(all.take(i as int), x);
            assert forall|j: int, k: int| 0 <= j < k < after.len() implies #[trigger] le(
                after[j],
                after[k],
            ) by {
                if k < at {
                    assert(le(before[j], before[k]));
                } else if k == at {
                    assert(le(before[at - 1], x));
                    if j < at - 1 {
                        assert(le(before[j], before[at - 1]));
                        assert(le(before[j], x));
                    }
                } else if j < at {
                    assert(le(before[j], before[k - 1]));
                } else if j == at {
                    assert(le(x, before[k - 1]));
                } else {
                    assert(le(before[j - 1], before[k - 1]));
                }
            }
        }
    }
    proof {
        lemma_text_le_total_order();
        assert(all.take(strings@.len() as int) == all);
        all.lemma_sort_by_ensures(le);
        lemma_sorted_unique(texts(out@), sorted(all), le);
    }
    out
}

/// Whether `s` is a word: some characters, none of them white space.
pub open spec fn is_word(s: Seq<char>) -> bool {
    s.len() > 0 && forall|i: int| 0 <= i < s.len() ==> !is_white_space(#[trigger] s[i])
}

/// Trimming at the start stops at the first character that is no white space.
pub proof fn lemma_trim_start_at(a: Seq<char>, c: char, b: Seq<char>)
    requires
        !is_white_space(c),
    ensures
        trim_start(a + seq![c] + b) == trim_start(a) + seq![c] + b,
    decreases a.len(),
{
    let s = a + seq![c] + b;
    if a.len() > 0 && is_white_space(a[0]) {
        lemma_trim_start_at(a.drop_first(), c, b);
        assert(s.drop_first() == a.drop_first() + seq![c] + b);
    } else if a.len() == 0 {
        assert(s[0] == c);
    } else {
        assert(s[0] == a[0]);
    }
}

/// Trimming at the end stops at the last character that is no white space.
pub proof fn lemma_trim_end_at(a: Seq<char>, c: char, b: Seq<char>)
    requires
        !is_white_space(c),
    ensures
        trim_end(a + seq![c] + b) == a + seq![c] + trim_end(b),
    decreases b.len(),
{
    let s = a + seq![c] + b;
    if b.len() > 0 && is_white_space(b.last()) {
        lemma_trim_end_at(a, c, b.drop_last());
        assert(s.drop_last() == a + seq![c] + b.drop_last());
    } else if b.len() == 0 {
        assert(s.last() == c);
    } else {
        assert(s.last() == b.last());
    }
}

proof fn lemma_trim_start_push(s: Seq<char>, c: char)
    ensures
        trim_start(s).len() > 0 ==> trim_start(s.push(c)) == trim_start(s).push(c),
        trim_start(s).len() == 0 ==> trim_start(s.push(c)) == if is_white_space(c) {
            Seq::empty()
        } else {
            seq![c]
        },
    decreases s.len(),
{
    if s.len() == 0 {
        assert(s.push(c).drop_first() == Seq::<char>::empty());
        assert(s.push(c) == seq![c]);
        assert(trim_start(Seq::<char>::empty()) == Seq::<char>::empty());
    } else if is_white_space(s[0]) {
        lemma_trim_start_push(s.drop_first(), c);
        assert(s.push(c).drop_first() == s.drop_first().push(c));
    } else {
        assert(s.push(c)[0] == s[0]);
    }
}

proof fn lemma_trim_start_last(s: Seq<char>)
    requires
        trim_start(s).len() > 0,
    ensures
        s.len() > 0,
        trim_start(s).last() == s.last(),
    decreases s.len(),
{
    if is_white_space(s[0]) {
        lemma_trim_start_last(s.drop_first());
    }
}

/// The two ends of a text can be trimmed in either order.
pub proof fn lemma_trim_commutes(s: Seq<char>)
    ensures
        trim_start(trim_end(s)) == trim_end(trim_start(s)),
    decreases s.len(),
{
    if s.len() > 0 {
        let y = s.drop_last();
        let c = s.last();
        assert(s == y.push(c));
        lemma_trim_start_push(y, c);
        if is_white_space(c) {
            lemma_trim_commutes(y);
            if trim_start(y).len() > 0 {
                assert(trim_start(s).drop_last() == trim_start(y));
            } else {
                assert(trim_start(y) == Seq::<char>::empty());
            }
        } else {
            assert(trim_start(s).last() == c);
        }
    }
}

proof fn lemma_trim_end_twice(s: Seq<char>)
    ensures
        trim_end(trim_end(s)) == trim_end(s),
    decreases s.len(),
{
    if s.len() > 0 && is_white_space(s.last()) {
        lemma_trim_end_twice(s.drop_last());
    }
}

/// Trimming at the end first changes nothing.
pub proof fn lemma_trim_of_trim_end(s: Seq<char>)
    ensures
        trim(trim_end(s)) == trim(s),
{
    lemma_trim_commutes(s);
    lemma_trim_end_twice(trim_start(s));
}

/// The words of two texts with white space between them are those of the first
/// and those of the second.
pub proof fn lemma_words_concat(a: Seq<char>, w: char, b: Seq<char>)
    requires
        is_white_space(w),
    ensures
        words(a + seq![w] + b) == words(a) + words(b),
    decreases a.len(),
{
    let s = a + seq![w] + b;
    if a.len() == 0 {
        assert(s[0] == w);
        assert(s.drop_first() == b);
        assert(words(a) + words(b) == words(b));
    } else if is_white_space(a[0]) {
        assert(s[0] == a[0]);
        assert(s.drop_first() == a.drop_first() + seq![w] + b);
        lemma_words_concat(a.drop_first(), w, b);
    } else {
        assert(s[0] == a[0]);
        lemma_word_end(a);
        let n = word_end(a) as int;
        assert(n > 0);
        assert forall|i: int| 0 <= i < n implies !is_white_space(#[trigger] s[i]) by {
            assert(s[i] == a[i]);
        }
        lemma_word_end_is(s, n);
        assert(s.take(n) == a.take(n));
        assert(s.skip(n) == a.skip(n) + seq![w] + b);
        lemma_words_concat(a.skip(n), w, b);
        assert(words(a) + words(b) == seq![a.take(n)] + (words(a.skip(n)) + words(b)));
    }
}

/// A word is its only word.
pub proof fn lemma_words_of_word(s: Seq<char>)
    requires
        is_word(s),
    ensures
        words(s) == seq![s],
{
    lemma_word_end_is(s, s.len() as int);
    assert(s.take(s.len() as int) == s);
    assert(words(s.skip(s.len() as int)) == Seq::<Seq<char>>::empty());
    assert(words(s) == seq![s] + Seq::<Seq<char>>::empty());
}

/// What `words` gives are words.
pub proof fn lemma_words_are_words(s: Seq<char>)
    ensures
        forall|i: int| 0 <= i < words(s).len() ==> is_word(#[trigger] words(s)[i]),
    decreases s.len(),
{
    if s.len() > 0 {
        if is_white_space(s[0]) {
            lemma_words_are_words(s.drop_first());
            assert(words(s) == words(s.drop_first()));
        } else {
            lemma_word_end(s);
            let n = word_end(s) as int;
            lemma_words_are_words(s.skip(n));
            assert forall|i: int| 0 <= i < words(s).len() implies is_word(#[trigger] words(s)[i]) by {
                if i == 0 {
                    assert(words(s)[0] == s.take(n));
                } else {
                    assert(words(s)[i] == words(s.skip(n))[i - 1]);
                }
            }
        }
    } else {
        assert(words(s).len() == 0);
    }
}

/// Trimming a text does not change its words.
pub proof fn lemma_words_of_trim(s: Seq<char>)
    ensures
        words(trim(s)) == words(s),
{
    lemma_words_of_trim_start(s);
    lemma_words_of_trim_end(trim_start(s));
}

proof fn lemma_words_of_trim_start(s: Seq<char>)
    ensures
        words(trim_start(s)) == words(s),
    decreases s.len(),
{
    if s.len() > 0 && is_white_space(s[0]) {
        lemma_words_of_trim_start(s.drop_first());
    }
}

proof fn lemma_words_of_trim_end(s: Seq<char>)
    ensures
        words(trim_end(s)) == words(s),
    decreases s.len(),
{
    if s.len() > 0 && is_white_space(s.last()) {
        lemma_words_of_trim_end(s.drop_last());
        lemma_words_concat(s.drop_last(), s.last(), Seq::empty());
        assert(s == s.drop_last() + seq![s.last()] + Seq::<char>::empty());
        assert(words(s.drop_last()) + words(Seq::<char>::empty()) == words(s.drop_last()));
    }
}

/// Words joined with a space are the words of the result.
pub proof fn lemma_words_of_join(parts: Seq<Seq<char>>)
    requires
        forall|i: int| 0 <= i < parts.len() ==> is_word(#[trigger] parts[i]),
    ensures
        words(join(parts, " "@)) == parts,
    decreases parts.len(),
{
    reveal_strlit(" ");
    if parts.len() == 0 {
    } else if parts.len() == 1 {
        lemma_words_of_word(parts[0]);
    } else {
        lemma_words_of_word(parts[0]);
        let rest = parts.drop_first();
        assert forall|i: int| 0 <= i < rest.len() implies is_word(#[trigger] rest[i]) by {
            assert(rest[i] == parts[i + 1]);
        }
        lemma_words_of_join(rest);
        assert(" "@ == seq![' ']);
        lemma_words_concat(parts[0], ' ', join(rest, " "@));
        assert(parts == seq![parts[0]] + rest);
    }
}

/// Whether `s` is one line that splitting into lines leaves as it is.
pub open spec fn is_line(s: Seq<char>) -> bool {
    &&& !s.contains('\n')
    &&& s.len() == 0 || s.last() != '\r'
}

/// The lines of a line, its end and further text.
pub proof fn lemma_lines_of_line(s: Seq<char>, rest: Seq<char>)
    requires
        is_line(s),
    ensures
        lines(s + seq!['\n'] + rest) == seq![s] + lines(rest),
{
    let all = s + seq!['\n'] + rest;
    let n = s.len() as int;
    assert forall|i: int| 0 <= i < n implies #[trigger] all[i] != '\n' by {
        assert(all[i] == s[i]);
    }
    lemma_find_is(all, '\n', n);
    assert(all.take(n) == s);
    assert(all.skip(n + 1) == rest);
}

/// Lines joined with line feeds, with a line feed behind the last, are the lines
/// of the result.
pub proof fn lemma_lines_of_join(parts: Seq<Seq<char>>)
    requires
        parts.len() > 0,
        forall|i: int| 0 <= i < parts.len() ==> is_line(#[trigger] parts[i]),
    ensures
        lines(join(parts, "\n"@) + "\n"@) == parts,
    decreases parts.len(),
{
    reveal_strlit("\n");
    assert("\n"@ == seq!['\n']);
    if parts.len() == 1 {
        lemma_lines_of_line(parts[0], Seq::empty());
        assert(parts[0] + seq!['\n'] + Seq::<char>::empty() == parts[0] + "\n"@);
        assert(seq![parts[0]] + lines(Seq::<char>::empty()) == parts);
    } else {
        let rest = parts.drop_first();
        assert forall|i: int| 0 <= i < rest.len() implies is_line(#[trigger] rest[i]) by {
            assert(rest[i] == parts[i + 1]);
        }
        lemma_lines_of_join(rest);
        lemma_lines_of_line(parts[0], join(rest, "\n"@) + "\n"@);
        assert(parts[0] + seq!['\n'] + (join(rest, "\n"@) + "\n"@) == join(parts, "\n"@) + "\n"@);
        assert(seq![parts[0]] + rest == parts);
    }
}

/// The lines of a text that ends at a line end, and of further text behind it.
pub proof fn lemma_lines_concat(a: Seq<char>, b: Seq<char>)
    requires
        a.len() == 0 || a.last() == '\n',
    ensures
        lines(a + b) == lines(a) + lines(b),
    decreases a.len(),
{
    let s = a + b;
    if a.len() == 0 {
        assert(s == b);
        assert(lines(a) + lines(b) == lines(b));
    } else {
        lemma_find(a, '\n');
        let n = find(a, '\n') as int;
        if n == a.len() {
            assert(a[a.len() - 1] != '\n');
        }
        assert forall|i: int| 0 <= i < n implies #[trigger] s[i] != '\n' by {
            assert(s[i] == a[i]);
        }
        lemma_find_is(s, '\n', n);
        assert(s.take(n) == a.take(n));
        assert(s.skip(n + 1) == a.skip(n + 1) + b);
        let rest = a.skip(n + 1);
        if rest.len() > 0 {
            assert(rest.last() == a.last());
        }
        lemma_lines_concat(rest, b);
        assert(lines(a) + lines(b) == seq![drop_carriage_return(a.take(n))] + (lines(rest) + lines(
            b,
        )));
    }
}

/// No line of a text holds a line feed.
pub proof fn lemma_lines_have_no_feed(s: Seq<char>)
    ensures
        forall|i: int| 0 <= i < lines(s).len() ==> !(#[trigger] lines(s)[i]).contains('\n'),
    decreases s.len(),
{
    lemma_find(s, '\n');
    let n = find(s, '\n') as int;
    if s.len() == 0 {
        assert(lines(s).len() == 0);
    } else if n >= s.len() {
        assert(lines(s) == seq![s]);
    } else {
        lemma_lines_have_no_feed(s.skip(n + 1));
        let first = drop_carriage_return(s.take(n));
        assert forall|i: int| 0 <= i < lines(s).len() implies !(#[trigger] lines(s)[i]).contains(
            '\n',
        ) by {
            if i == 0 {
                assert(lines(s)[0] == first);
                assert forall|j: int| 0 <= j < first.len() implies first[j] != '\n' by {
                    assert(first[j] == s[j]);
                }
            } else {
                assert(lines(s)[i] == lines(s.skip(n + 1))[i - 1]);
            }
        }
    }
}

/// Where the pattern does not occur, nothing is replaced.
pub proof fn lemma_replace_nothing(s: Seq<char>, from: Seq<char>, to: Seq<char>)
    requires
        !contains(s, from),
    ensures
        replace(s, from, to) == s,
    decreases s.len(),
{
    if s.len() > 0 && from.len() > 0 {
        assert(s.skip(0) == s);
        if contains(s.skip(1), from) {
            let i = choose|i: int|
                0 <= i <= s.skip(1).len() && #[trigger] from.is_prefix_of(s.skip(1).skip(i));
            assert(s.skip(1).skip(i) == s.skip(i + 1));
            assert(from.is_prefix_of(s.skip(i + 1)));
        }
        lemma_replace_nothing(s.skip(1), from, to);
        assert(s == seq![s[0]] + s.skip(1));
    }
}

/// Where no character is the first of the pattern, nothing is replaced.
pub proof fn lemma_replace_behind(a: Seq<char>, b: Seq<char>, from: Seq<char>, to: Seq<char>)
    requires
        from.len() > 0,
        forall|i: int| 0 <= i < a.len() ==> a[i] != from[0],
    ensures
        replace(a + b, from, to) == a + replace(b, from, to),
    decreases a.len(),
{
    let s = a + b;
    if a.len() == 0 {
        assert(s == b);
    } else {
        let rest = a.skip(1);
        assert(s.skip(1) == rest + b);
        if from.is_prefix_of(s) {
            assert(s.subrange(0, from.len() as int)[0] == from[0]);
        }
        lemma_replace_behind(rest, b, from, to);
        assert(a + replace(b, from, to) == seq![s[0]] + (rest + replace(b, from, to)));
    }
}

/// The characters that are white space, by their code points.
pub proof fn white_space_characters(c: char)
    ensures
        is_white_space(c) <==> {
            let n = c as int;
            ||| n == 0x9 || n == 0xa || n == 0xb || n == 0xc || n == 0xd || n == 0x20
            ||| n == 0x85 || n == 0xa0 || n == 0x1680
            ||| 0x2000 <= n <= 0x200a
            ||| n == 0x2028 || n == 0x2029 || n == 0x202f || n == 0x205f || n == 0x3000
        },
{
}

/// Whether all characters are white space.
pub open spec fn is_blank(s: Seq<char>) -> bool {
    forall|i: int| 0 <= i < s.len() ==> is_white_space(#[trigger] s[i])
}

/// Trimming takes the white space away that stands at the start, all of it and nothing else.
pub proof fn start_is_trimmed(blank: Seq<char>, rest: Seq<char>)
    requires
        is_blank(blank),
        rest.len() == 0 || !is_white_space(rest[0]),
    ensures
        trim_start(blank + rest) == rest,
    decreases blank.len(),
{
    if blank.len() == 0 {
        assert(blank + rest == rest);
    } else {
        assert(is_white_space(blank[0]));
        assert((blank + rest)[0] == blank[0]);
        assert((blank + rest).drop_first() == blank.drop_first() + rest);
        start_is_trimmed(blank.drop_first(), rest);
    }
}

/// Trimming takes the white space away that stands at the end, all of it and nothing else.
pub proof fn end_is_trimmed(rest: Seq<char>, blank: Seq<char>)
    requires
        is_blank(blank),
        rest.len() == 0 || !is_white_space(rest.last()),
    ensures
        trim_end(rest + blank) == rest,
    decreases blank.len(),
{
    if blank.len() == 0 {
        assert(rest + blank == rest);
    } else {
        let n = blank.len() - 1;
        assert(is_white_space(blank[n]));
        assert((rest + blank).last() == blank[n]);
        assert((rest + blank).drop_last() == rest + blank.drop_last());
        end_is_trimmed(rest, blank.drop_last());
    }
}

/// Trimming takes the white space at both ends away, all of it and nothing else.
pub proof fn both_ends_are_trimmed(before: Seq<char>, s: Seq<char>, behind: Seq<char>)
    requires
        is_blank(before),
        is_blank(behind),
        s.len() > 0 ==> !is_white_space(s[0]) && !is_white_space(s.last()),
    ensures
        trim(before + s + behind) == s,
{
    if s.len() == 0 {
        let all = before + s + behind;
        let none = Seq::<char>::empty();
        assert(is_blank(all)) by {
            assert forall|i: int| 0 <= i < all.len() implies is_white_space(#[trigger] all[i]) by {
                if i < before.len() {
                    assert(all[i] == before[i]);
                } else {
                    assert(all[i] == behind[i - before.len()]);
                }
            }
        }
        assert(all + none == all);
        start_is_trimmed(all, none);
        assert(trim_end(none) == none);
        assert(s == none);
    } else {
        let rest = s + behind;
        assert(before + s + behind == before + rest);
        assert(rest[0] == s[0]);
        start_is_trimmed(before, rest);
        end_is_trimmed(s, behind);
    }
}

/// A line holds nothing after trimming exactly if it is white space only.
pub proof fn blank_texts_trim_to_nothing(s: Seq<char>)
    ensures
        trim(s).len() == 0 <==> is_blank(s),
    decreases s.len(),
{
    let none = Seq::<char>::empty();
    if is_blank(s) {
        assert(s + none + none == s);
        both_ends_are_trimmed(s, none, none);
    } else {
        let i = choose|i: int| 0 <= i < s.len() && !is_white_space(#[trigger] s[i]);
        let a = s.take(i);
        let b = s.skip(i + 1);
        assert(s == a + seq![s[i]] + b);
        lemma_trim_start_at(a, s[i], b);
        lemma_trim_end_at(trim_start(a), s[i], b);
    }
}

/// A prefix is taken away exactly where the text starts with it, and what is left is all
/// that follows it.
pub proof fn prefix_is_taken_away(s: Seq<char>, prefix: Seq<char>, rest: Seq<char>)
    ensures
        strip_prefix(s, prefix) == Some(rest) <==> s == prefix + rest,
        strip_prefix(s, prefix) is None <==> !prefix.is_prefix_of(s),
        prefix.is_prefix_of(prefix + rest),
{
    assert((prefix + rest).subrange(0, prefix.len() as int) == prefix);
    assert((prefix + rest).skip(prefix.len() as int) == rest);
    if strip_prefix(s, prefix) == Some(rest) {
        assert(s.subrange(0, prefix.len() as int) == prefix);
        assert(s == prefix + s.skip(prefix.len() as int));
    }
}

/// A text contains what stands between two of its parts, and only such texts.
pub proof fn contained_text_stands_inside(
    before: Seq<char>,
    pattern: Seq<char>,
    behind: Seq<char>,
    s: Seq<char>,
)
    ensures
        contains(before + pattern + behind, pattern),
        contains(s, pattern) ==> exists|a: Seq<char>, b: Seq<char>|
            s == #[trigger] (a + pattern + b),
{
    let all = before + pattern + behind;
    let n = before.len() as int;
    assert(all.skip(n) == pattern + behind);
    assert(all.skip(n).subrange(0, pattern.len() as int) == pattern);
    assert(pattern.is_prefix_of(all.skip(n)));
    if contains(s, pattern) {
        let i = choose|i: int| 0 <= i <= s.len() && #[trigger] pattern.is_prefix_of(s.skip(i));
        let a = s.take(i);
        let b = s.skip(i).skip(pattern.len() as int);
        assert(s.skip(i).subrange(0, pattern.len() as int) == pattern);
        assert(s.skip(i) == pattern + b);
        assert(s == a + s.skip(i));
        assert(s == a + pattern + b);
    }
}

/// Repetitions of a pattern at either end are taken away one after the other, until the text
/// has none there.
pub proof fn repetitions_are_taken_away(s: Seq<char>, pattern: Seq<char>)
    ensures
        pattern.len() > 0 ==> trim_start_matches(pattern + s, pattern) == trim_start_matches(
            s,
            pattern,
        ),
        !pattern.is_prefix_of(s) ==> trim_start_matches(s, pattern) == s,
        pattern.len() > 0 ==> trim_end_matches(s + pattern, pattern) == trim_end_matches(
            s,
            pattern,
        ),
        !pattern.is_suffix_of(s) ==> trim_end_matches(s, pattern) == s,
{
    let n = pattern.len() as int;
    assert((pattern + s).subrange(0, n) == pattern);
    assert((pattern + s).skip(n) == s);
    let t = s + pattern;
    assert(t.subrange(t.len() - n, t.len() as int) == pattern);
    assert(t.take(t.len() - n) == s);
}

/// The first occurrence of a text is replaced, what stands before it stays, and so on behind
/// it; a text without an occurrence stays as it is.
pub proof fn first_occurrence_is_replaced(
    before: Seq<char>,
    from: Seq<char>,
    behind: Seq<char>,
    to: Seq<char>,
)
    requires
        from.len() > 0,
        forall|i: int|
            0 <= i < before.len() ==> !from.is_prefix_of(
                #[trigger] (before + from + behind).skip(i),
            ),
    ensures
        replace(before + from + behind, from, to) == before + to + replace(behind, from, to),
    decreases before.len(),
{
    let all = before + from + behind;
    if before.len() == 0 {
        assert(all.subrange(0, from.len() as int) == from);
        assert(all.skip(from.len() as int) == behind);
        assert(before + to + replace(behind, from, to) == to + replace(behind, from, to));
    } else {
        let rest = before.drop_first();
        assert(all.skip(0) == all);
        assert(!from.is_prefix_of(all.skip(0)));
        assert(all.drop_first() == rest + from + behind);
        assert forall|i: int| 0 <= i < rest.len() implies !from.is_prefix_of(
            #[trigger] (rest + from + behind).skip(i),
        ) by {
            assert((rest + from + behind).skip(i) == all.skip(i + 1));
        }
        first_occurrence_is_replaced(rest, from, behind, to);
        assert(all[0] == before[0]);
        assert(seq![before[0]] + (rest + to + replace(behind, from, to)) == before + to + replace(
            behind,
            from,
            to,
        ));
    }
}

/// A text is cut at the first such character, into all that stands before and all that
/// stands behind it; one without it is not cut.
pub proof fn text_is_cut_at_the_first(before: Seq<char>, c: char, behind: Seq<char>)
    requires
        !before.contains(c),
    ensures
        split_once(before + seq![c] + behind, c) == Some((before, behind)),
        split_once(before, c) is None,
{
    let s = before + seq![c] + behind;
    let n = before.len() as int;
    assert forall|i: int| 0 <= i < n implies #[trigger] s[i] != c && before[i] != c by {
        assert(s[i] == before[i]);
        assert(before.contains(before[i]));
    }
    lemma_find_is(s, c, n);
    assert(s.take(n) == before);
    assert(s.skip(n + 1) == behind);
    lemma_find_is(before, c, n);
}

/// The lines of a text are what stands between its line feeds, all of them in order; a
/// carriage return before a line feed belongs to neither line, and what stands behind the
/// last line feed is a line unless it is empty.
pub proof fn lines_stand_between_feeds(line: Seq<char>, rest: Seq<char>)
    requires
        !line.contains('\n'),
    ensures
        lines(Seq::empty()) == Seq::<Seq<char>>::empty(),
        line.len() > 0 ==> lines(line) == seq![line],
        lines(line + seq!['\r', '\n'] + rest) == seq![line] + lines(rest),
        line.len() == 0 || line.last() != '\r' ==> lines(line + seq!['\n'] + rest) == seq![line]
            + lines(rest),
{
    let n = line.len() as int;
    assert forall|i: int| 0 <= i < n implies #[trigger] line[i] != '\n' by {
        assert(line.contains(line[i]));
    }
    lemma_find_is(line, '\n', n);
    let s = line + seq!['\r', '\n'] + rest;
    assert forall|i: int| 0 <= i < n + 1 implies #[trigger] s[i] != '\n' by {
        if i < n {
            assert(s[i] == line[i]);
        }
    }
    lemma_find_is(s, '\n', n + 1);
    assert(s.take(n + 1) == line.push('\r'));
    assert(line.push('\r').drop_last() == line);
    assert(s.skip(n + 2) == rest);
    if line.len() == 0 || line.last() != '\r' {
        lemma_lines_of_line(line, rest);
    }
}

/// The words of a text are those of its parts, where white space parts them; a text without
/// white space is one word, and an empty one none.
pub proof fn words_stand_between_white_space(a: Seq<char>, w: char, b: Seq<char>, word: Seq<char>)
    requires
        is_white_space(w),
        word.len() > 0,
        forall|i: int| 0 <= i < word.len() ==> !is_white_space(#[trigger] word[i]),
    ensures
        words(Seq::empty()) == Seq::<Seq<char>>::empty(),
        words(word) == seq![word],
        words(a + seq![w] + b) == words(a) + words(b),
{
    lemma_words_of_word(word);
    lemma_words_concat(a, w, b);
}

/// Joined texts stand in their order with the separator between each two: none give an empty
/// text, one gives itself, and two lists give the one, the separator and the other.
pub proof fn joined_texts_stand_in_order(
    first: Seq<Seq<char>>,
    second: Seq<Seq<char>>,
    one: Seq<char>,
    separator: Seq<char>,
)
    ensures
        join(Seq::empty(), separator).len() == 0,
        join(seq![one], separator) == one,
        first.len() > 0 && second.len() > 0 ==> join(first + second, separator) == join(
            first,
            separator,
        ) + separator + join(second, separator),
    decreases first.len(),
{
    if first.len() > 0 && second.len() > 0 {
        let all = first + second;
        if first.len() == 1 {
            assert(all.drop_first() == second);
        } else {
            let rest = first.drop_first();
            joined_texts_stand_in_order(rest, second, one, separator);
            assert(all.drop_first() == rest + second);
            assert(first[0] + separator + (join(rest, separator) + separator + join(
                second,
                separator,
            )) == (first[0] + separator + join(rest, separator)) + separator + join(
                second,
                separator,
            ));
        }
    }
}

/// The number that decimal digits stand for, the most significant first.
pub open spec fn decimal_value(s: Seq<char>) -> int
    decreases s.len(),
{
    if s.len() == 0 {
        0
    } else {
        10 * decimal_value(s.drop_last()) + (s.last() as int - '0' as int)
    }
}

/// A number in decimal stands for that number, in digits only and without a zero at its start.
pub proof fn decimal_stands_for_the_number(n: nat)
    ensures
        decimal_value(decimal(n)) == n,
        decimal(n).len() > 0,
        forall|i: int| 0 <= i < decimal(n).len() ==> '0' <= #[trigger] decimal(n)[i] <= '9',
        n > 0 ==> decimal(n)[0] != '0',
    decreases n,
{
    if n < 10 {
        assert(decimal(n).drop_last() == Seq::<char>::empty());
        assert(decimal_value(Seq::empty()) == 0);
    } else {
        decimal_stands_for_the_number(n / 10);
        let s = decimal(n / 10);
        assert(decimal(n).drop_last() == s);
        assert(decimal(n)[0] == s[0]);
    }
}

/// The hexadecimal digits of each byte stand in its place, the upper one first.
pub proof fn hex_digits_of_each_byte(data: Seq<u8>)
    ensures
        hex(data).len() == 2 * data.len(),
        forall|i: int|
            0 <= i < data.len() ==> {
                &&& hex(data)[2 * i] == "0123456789abcdef"@[(#[trigger] data[i] / 16) as int]
                &&& hex(data)[2 * i + 1] == "0123456789abcdef"@[(data[i] % 16) as int]
            },
{
    reveal_strlit("0123456789abcdef");
    let digits = "0123456789abcdef"@;
    assert forall|d: nat| d < 16 implies #[trigger] hex_digit(d) == digits[d as int] by {
        if d == 0 || d == 1 || d == 2 || d == 3 || d == 4 || d == 5 || d == 6 || d == 7 {
        } else if d == 8 || d == 9 || d == 10 || d == 11 {
        } else {
            assert(d == 12 || d == 13 || d == 14 || d == 15);
        }
    }
    assert forall|i: int| 0 <= i < data.len() implies {
        &&& hex(data)[2 * i] == digits[(#[trigger] data[i] / 16) as int]
        &&& hex(data)[2 * i + 1] == digits[(data[i] % 16) as int]
    } by {
        assert(hex(data)[2 * i] == hex_digit((data[i] / 16) as nat));
        assert((2 * i + 1) / 2 == i);
        assert(hex(data)[2 * i + 1] == hex_digit((data[i] % 16) as nat));
    }
}

/// Bytes are ordered by the first that differs, and a beginning comes before the whole.
pub proof fn bytes_are_ordered_by_the_first_difference(
    common: Seq<u8>,
    a: u8,
    b: u8,
    x: Seq<u8>,
    y: Seq<u8>,
)
    requires
        a < b,
    ensures
        bytes_le(common + seq![a] + x, common + seq![b] + y),
        !bytes_le(common + seq![b] + y, common + seq![a] + x),
        bytes_le(common, common + x),
        x.len() > 0 ==> !bytes_le(common + x, common),
    decreases common.len(),
{
    let s = common + seq![a] + x;
    let t = common + seq![b] + y;
    if common.len() == 0 {
        assert(s[0] == a && t[0] == b);
    } else {
        let rest = common.drop_first();
        bytes_are_ordered_by_the_first_difference(rest, a, b, x, y);
        assert(s.drop_first() == rest + seq![a] + x);
        assert(t.drop_first() == rest + seq![b] + y);
        assert(s[0] == t[0]);
        assert((common + x).drop_first() == rest + x);
        assert((common + x)[0] == common[0]);
    }
}

/// Sorted texts are the same texts, each as often, in the order of their bytes.
pub proof fn sorted_texts_ascend(parts: Seq<Seq<char>>)
    ensures
        sorted(parts).to_multiset() == parts.to_multiset(),
        sorted(parts).len() == parts.len(),
        forall|i: int, j: int|
            0 <= i < j < parts.len() ==> bytes_le(
                encode_utf8(#[trigger] sorted(parts)[i]),
                encode_utf8(#[trigger] sorted(parts)[j]),
            ),
{
    let le = |a: Seq<char>, b: Seq<char>| text_le(a, b);
    lemma_text_le_total_order();
    parts.lemma_sort_by_ensures(le);
    let s = sorted(parts);
    broadcast use vstd::seq_lib::group_to_multiset_ensures;
    assert(s.len() == s.to_multiset().len());
    assert forall|i: int, j: int| 0 <= i < j < parts.len() implies bytes_le(
        encode_utf8(#[trigger] s[i]),
        encode_utf8(#[trigger] s[j]),
    ) by {
        assert(le(s[i], s[j]));
    }
}

/// Strings hold their texts, each in its place.
pub proof fn strings_hold_their_texts(strings: Seq<String>, s: String, t: &str)
    ensures
        texts(strings).len() == strings.len(),
        forall|i: int| 0 <= i < strings.len() ==> texts(strings)[i] == (#[trigger] strings[i])@,
        opt_text(Some(s)) == Some(s@),
        opt_text(None) is None,
        opt_str(Some(t)) == Some(t@),
        opt_str(None) is None,
{
}

}
