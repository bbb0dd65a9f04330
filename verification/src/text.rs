//! Text as sequences of characters: conversion, comparison and assembly.

use vstd::prelude::*;
use vstd::string::*;

verus! {

/// The characters of `s`, in order.
pub fn chars_of(s: &str) -> (r: Vec<char>)
    ensures
        r@ == s@,
{
    let mut out: Vec<char> = Vec::new();
    for c in it: s.chars()
        invariant
            it.seq() == s@,
            out@ == s@.take(it.index()),
    {
        out.push(c);
    }
    out
}

/// Whether two texts hold the same characters.
pub fn same_text(a: &str, b: &str) -> (r: bool)
    ensures
        r == (a@ == b@),
{
    let x = chars_of(a);
    let y = chars_of(b);
    if x.len() != y.len() {
        return false;
    }
    let mut i: usize = 0;
    while i < x.len()
        invariant
            x@ == a@,
            y@ == b@,
            x.len() == y.len(),
            i <= x.len(),
            forall|k: int| 0 <= k < i ==> x@[k] == y@[k],
        decreases x.len() - i,
    {
        if x[i] != y[i] {
            assert(x@[i as int] != y@[i as int]);
            return false;
        }
        i += 1;
    }
    assert(x@ =~= y@);
    true
}

/// Whether `s` ends with `suffix`.
pub open spec fn has_suffix(s: Seq<char>, suffix: Seq<char>) -> bool {
    suffix.len() <= s.len() && s.subrange(s.len() - suffix.len(), s.len() as int) == suffix
}

/// Whether `s` begins with `prefix`.
pub open spec fn has_prefix(s: Seq<char>, prefix: Seq<char>) -> bool {
    prefix.len() <= s.len() && s.subrange(0, prefix.len() as int) == prefix
}

/// Whether the characters of `s` from `at` on begin with `pattern`.
pub fn matches_at(s: &Vec<char>, at: usize, pattern: &Vec<char>) -> (r: bool)
    requires
        at <= s.len(),
    ensures
        r == has_prefix(s@.subrange(at as int, s.len() as int), pattern@),
{
    let ghost rest = s@.subrange(at as int, s.len() as int);
    if pattern.len() > s.len() - at {
        return false;
    }
    let mut i: usize = 0;
    while i < pattern.len()
        invariant
            at <= s.len(),
            pattern.len() <= s.len() - at,
            i <= pattern.len(),
            rest == s@.subrange(at as int, s.len() as int),
            forall|k: int| 0 <= k < i ==> rest[k] == pattern@[k],
        decreases pattern.len() - i,
    {
        if s[at + i] != pattern[i] {
            assert(rest[i as int] == s@[at + i]);
            assert(rest.subrange(0, pattern.len() as int)[i as int] != pattern@[i as int]);
            return false;
        }
        assert(rest[i as int] == s@[at + i]);
        i += 1;
    }
    assert(rest.subrange(0, pattern.len() as int) =~= pattern@);
    true
}

/// Whether `s` ends with `suffix`.
pub fn ends_with(s: &str, suffix: &str) -> (r: bool)
    ensures
        r == has_suffix(s@, suffix@),
{
    let x = chars_of(s);
    let y = chars_of(suffix);
    if y.len() > x.len() {
        return false;
    }
    let at = x.len() - y.len();
    let r = matches_at(&x, at, &y);
    proof {
        let rest = x@.subrange(at as int, x.len() as int);
        assert(rest.subrange(0, y.len() as int) =~= rest);
    }
    r
}

/// Whether `s` begins with `prefix`.
pub fn starts_with(s: &str, prefix: &str) -> (r: bool)
    ensures
        r == has_prefix(s@, prefix@),
{
    let x = chars_of(s);
    let y = chars_of(prefix);
    let r = matches_at(&x, 0, &y);
    proof {
        assert(x@.subrange(0, x.len() as int) =~= x@);
    }
    r
}

/// The part of `s` from character `from` up to character `to`, as an owned text.
pub fn slice_of(s: &str, from: usize, to: usize) -> (r: String)
    requires
        from <= to <= s@.len(),
    ensures
        r@ == s@.subrange(from as int, to as int),
{
    String::from_str(s.substring_char(from, to))
}

/// Whether `c` separates words: whether it is white space as Unicode defines
/// it. These are the blank, the controls from tab to carriage return, the
/// next-line control, and the spaces and separators beyond ASCII.
pub open spec fn is_space(c: char) -> bool {
    ||| ('\u{9}' <= c && c <= '\u{d}')
    ||| c == ' '
    ||| c == '\u{85}'
    ||| c == '\u{a0}'
    ||| c == '\u{1680}'
    ||| ('\u{2000}' <= c && c <= '\u{200a}')
    ||| c == '\u{2028}'
    ||| c == '\u{2029}'
    ||| c == '\u{202f}'
    ||| c == '\u{205f}'
    ||| c == '\u{3000}'
}

/// Length of the longest prefix of `s` that holds no separator.
pub open spec fn word_length(s: Seq<char>) -> nat
    decreases s.len(),
{
    if s.len() == 0 || is_space(s[0]) {
        0
    } else {
        1 + word_length(s.drop_first())
    }
}

/// The words of `s`: its maximal runs of characters that are no separators, in order.
pub open spec fn words_of(s: Seq<char>) -> Seq<Seq<char>>
    decreases s.len(),
    via words_of_decreases
{
    if s.len() == 0 {
        Seq::empty()
    } else if is_space(s[0]) {
        words_of(s.drop_first())
    } else {
        seq![s.take(word_length(s) as int)] + words_of(s.skip(word_length(s) as int))
    }
}

#[via_fn]
proof fn words_of_decreases(s: Seq<char>) {
    if s.len() > 0 && !is_space(s[0]) {
        lemma_word_length(s);
    }
}

/// A word ends at the first separator or at the end of the text.
pub proof fn lemma_word_length(s: Seq<char>)
    ensures
        word_length(s) <= s.len(),
        s.len() > 0 && !is_space(s[0]) ==> word_length(s) >= 1,
        forall|i: int| 0 <= i < word_length(s) ==> !is_space(#[trigger] s[i]),
        word_length(s) < s.len() ==> is_space(s[word_length(s) as int]),
    decreases s.len(),
{
    if s.len() == 0 || is_space(s[0]) {
    } else {
        let t = s.drop_first();
        lemma_word_length(t);
        assert forall|i: int| 0 <= i < word_length(s) implies !is_space(#[trigger] s[i]) by {
            if i > 0 {
                assert(s[i] == t[i - 1]);
            }
        }
        if word_length(s) < s.len() {
            assert(s[word_length(s) as int] == t[word_length(t) as int]);
        }
    }
}

/// Whether `c` separates words.
pub fn is_separator(c: char) -> (r: bool)
    ensures
        r == is_space(c),
{
    ('\u{9}' <= c && c <= '\u{d}') || c == ' ' || c == '\u{85}' || c == '\u{a0}' || c == '\u{1680}' || ('\u{2000}' <= c
        && c <= '\u{200a}') || c == '\u{2028}' || c == '\u{2029}' || c == '\u{202f}' || c == '\u{205f}' || c
        == '\u{3000}'
}

/// The words of `s`.
pub fn split_whitespace(s: &str) -> (r: Vec<String>)
    ensures
        texts(r@) == words_of(s@),
{
    let chars = chars_of(s);
    let n = chars.len();
    let mut out: Vec<String> = Vec::new();
    let mut i: usize = 0;
    proof {
        assert(s@.skip(0) =~= s@);
        assert(texts(out@) =~= Seq::<Seq<char>>::empty());
    }
    while i < n
        invariant
            chars@ == s@,
            n == chars.len(),
            i <= n,
            texts(out@) + words_of(s@.skip(i as int)) == words_of(s@),
        decreases n - i,
    {
        let ghost rest = s@.skip(i as int);
        if is_separator(chars[i]) {
            proof {
                assert(rest[0] == s@[i as int]);
                assert(rest.drop_first() =~= s@.skip(i + 1));
            }
            i += 1;
        } else {
            let start = i;
            let mut j: usize = i;
            proof {
                assert(rest[0] == s@[i as int]);
                lemma_word_length(rest);
            }
            while j < n && !is_separator(chars[j])
                invariant
                    chars@ == s@,
                    n == chars.len(),
                    start <= j <= n,
                    rest == s@.skip(start as int),
                    j - start <= word_length(rest),
                    word_length(rest) <= rest.len(),
                    forall|k: int| 0 <= k < word_length(rest) ==> !is_space(#[trigger] rest[k]),
                    word_length(rest) < rest.len() ==> is_space(rest[word_length(rest) as int]),
                decreases n - j,
            {
                proof {
                    assert(rest[j - start] == s@[j as int]);
                    if j - start == word_length(rest) {
                        assert(is_space(rest[word_length(rest) as int]));
                    }
                }
                j += 1;
            }
            proof {
                if j < n {
                    assert(rest[j - start] == s@[j as int]);
                    if j - start < word_length(rest) {
                        assert(!is_space(rest[j - start]));
                    }
                }
                assert(j - start == word_length(rest));
                assert(s@.subrange(start as int, j as int) =~= rest.take(word_length(rest) as int));
                assert(rest.skip(word_length(rest) as int) =~= s@.skip(j as int));
            }
            let word = slice_of(s, start, j);
            let ghost before = texts(out@);
            out.push(word);
            proof {
                assert(texts(out@) =~= before + seq![word@]);
                assert(words_of(rest) == seq![word@] + words_of(s@.skip(j as int)));
                assert(texts(out@) + words_of(s@.skip(j as int)) =~= before + words_of(rest));
            }
            i = j;
        }
    }
    proof {
        assert(s@.skip(n as int) =~= Seq::<char>::empty());
        assert(texts(out@) + Seq::<Seq<char>>::empty() =~= texts(out@));
    }
    out
}

/// `s` without `prefix` where it begins with it, else `s` itself.
pub open spec fn without_prefix(s: Seq<char>, prefix: Seq<char>) -> Seq<char> {
    if has_prefix(s, prefix) {
        s.skip(prefix.len() as int)
    } else {
        s
    }
}

/// `s` without `prefix` where it begins with it, else `s` itself.
pub fn strip_prefix(s: &str, prefix: &str) -> (r: String)
    ensures
        r@ == without_prefix(s@, prefix@),
{
    if starts_with(s, prefix) {
        let n = s.unicode_len();
        let k = prefix.unicode_len();
        let r = slice_of(s, k, n);
        assert(r@ =~= s@.skip(k as int));
        r
    } else {
        String::from_str(s)
    }
}

/// The texts of a list, each as its sequence of characters.
pub open spec fn texts(v: Seq<String>) -> Seq<Seq<char>> {
    v.map_values(|s: String| s@)
}

/// The lower-case form of an ASCII capital letter; any other character itself.
pub open spec fn lower(c: char) -> char {
    if 'A' <= c && c <= 'Z' {
        ((c as int) + 32) as char
    } else {
        c
    }
}

/// `s` with its ASCII capital letters in lower case.
pub open spec fn lowered(s: Seq<char>) -> Seq<char> {
    s.map_values(|c: char| lower(c))
}

/// The lower-case form of `c`.
pub fn lower_char(c: char) -> (r: char)
    ensures
        r == lower(c),
{
    if 'A' <= c && c <= 'Z' {
        let code: u8 = c as u8;
        let shifted: u8 = code + 32;
        shifted as char
    } else {
        c
    }
}

/// `std::string::String::push`: appends one character to `s`.
#[verifier::external_body]
pub(crate) fn push_char(s: &mut String, c: char)
    ensures
        final(s)@ == old(s)@.push(c),
{
    s.push(c)
}

/// `s` with its ASCII capital letters in lower case.
pub fn ascii_lowercase(s: &str) -> (r: String)
    ensures
        r@ == lowered(s@),
{
    let chars = chars_of(s);
    let mut out = String::new();
    let mut i: usize = 0;
    while i < chars.len()
        invariant
            chars@ == s@,
            i <= chars.len(),
            out@ == lowered(s@.take(i as int)),
        decreases chars.len() - i,
    {
        push_char(&mut out, lower_char(chars[i]));
        assert(out@ =~= lowered(s@.take(i + 1)));
        i += 1;
    }
    assert(s@.take(chars.len() as int) =~= s@);
    out
}

/// The texts of `items` in order, with `separator` between each two.
pub open spec fn joined_with(items: Seq<Seq<char>>, separator: Seq<char>) -> Seq<char>
    decreases items.len(),
{
    if items.len() == 0 {
        Seq::empty()
    } else if items.len() == 1 {
        items[0]
    } else {
        joined_with(items.drop_last(), separator) + separator + items.last()
    }
}

/// The texts of `items` in order, with `separator` between each two.
pub fn join(items: &Vec<String>, separator: &str) -> (r: String)
    ensures
        r@ == joined_with(texts(items@), separator@),
{
    let mut out = String::new();
    let mut i: usize = 0;
    while i < items.len()
        invariant
            i <= items.len(),
            out@ == joined_with(texts(items@).take(i as int), separator@),
        decreases items.len() - i,
    {
        proof {
            let next = texts(items@).take(i + 1);
            assert(next.drop_last() =~= texts(items@).take(i as int));
            assert(next.last() == items@[i as int]@);
        }
        if i > 0 {
            out.append(separator);
        }
        out.append(items[i].as_str());
        proof {
            if i == 0 {
                assert(out@ =~= items@[0]@);
            }
        }
        i += 1;
    }
    assert(texts(items@).take(items.len() as int) =~= texts(items@));
    out
}

/// Each of `items` with `prefix` before it.
pub open spec fn prefixed_with(prefix: Seq<char>, items: Seq<Seq<char>>) -> Seq<Seq<char>> {
    items.map_values(|t: Seq<char>| prefix + t)
}

/// Appends copies of the texts of `src` to `dst`.
pub fn append_texts(dst: &mut Vec<String>, src: &Vec<String>)
    ensures
        texts(final(dst)@) == texts(old(dst)@) + texts(src@),
{
    let mut i: usize = 0;
    assert(texts(dst@) =~= texts(old(dst)@) + texts(src@.take(0)));
    while i < src.len()
        invariant
            i <= src.len(),
            texts(dst@) == texts(old(dst)@) + texts(src@.take(i as int)),
        decreases src.len() - i,
    {
        let ghost before = dst@;
        dst.push(src[i].clone());
        assert(texts(dst@) =~= texts(before) + seq![src@[i as int]@]);
        assert(texts(src@.take(i + 1)) =~= texts(src@.take(i as int)) + seq![src@[i as int]@]);
        assert(texts(dst@) =~= texts(old(dst)@) + texts(src@.take(i + 1)));
        i += 1;
    }
    assert(src@.take(src.len() as int) =~= src@);
}

/// Appends to `dst` each of the texts of `src` with `prefix` before it.
pub fn append_prefixed(dst: &mut Vec<String>, prefix: &str, src: &Vec<String>)
    ensures
        texts(final(dst)@) == texts(old(dst)@) + prefixed_with(prefix@, texts(src@)),
{
    let mut i: usize = 0;
    assert(texts(dst@) =~= texts(old(dst)@) + prefixed_with(prefix@, texts(src@.take(0))));
    while i < src.len()
        invariant
            i <= src.len(),
            texts(dst@) == texts(old(dst)@) + prefixed_with(prefix@, texts(src@.take(i as int))),
        decreases src.len() - i,
    {
        let ghost before = dst@;
        dst.push(String::from_str(prefix).concat(src[i].as_str()));
        assert(texts(dst@) =~= texts(before) + seq![prefix@ + src@[i as int]@]);
        assert(prefixed_with(prefix@, texts(src@.take(i + 1))) =~= prefixed_with(prefix@, texts(src@.take(i as int)))
            + seq![prefix@ + src@[i as int]@]);
        assert(texts(dst@) =~= texts(old(dst)@) + prefixed_with(prefix@, texts(src@.take(i + 1))));
        i += 1;
    }
    assert(src@.take(src.len() as int) =~= src@);
}

/// `s` without the separators at its end.
pub open spec fn trimmed_end(s: Seq<char>) -> Seq<char>
    decreases s.len(),
{
    if s.len() > 0 && is_space(s.last()) {
        trimmed_end(s.drop_last())
    } else {
        s
    }
}

/// `s` without the separators at its beginning.
pub open spec fn trimmed_start(s: Seq<char>) -> Seq<char>
    decreases s.len(),
{
    if s.len() > 0 && is_space(s[0]) {
        trimmed_start(s.drop_first())
    } else {
        s
    }
}

/// `s` without the separators at its beginning and at its end.
pub open spec fn trimmed(s: Seq<char>) -> Seq<char> {
    trimmed_end(trimmed_start(s))
}

/// `s` without the separators at its end.
pub fn trim_end(s: &str) -> (r: String)
    ensures
        r@ == trimmed_end(s@),
{
    let chars = chars_of(s);
    let mut k: usize = chars.len();
    assert(s@.take(k as int) =~= s@);
    while k > 0 && is_separator(chars[k - 1])
        invariant
            chars@ == s@,
            k <= chars.len(),
            trimmed_end(s@) == trimmed_end(s@.take(k as int)),
        decreases k,
    {
        assert(s@.take(k as int).drop_last() =~= s@.take(k - 1));
        k -= 1;
    }
    slice_of(s, 0, k)
}

/// `s` without the separators at its beginning.
pub fn trim_start(s: &str) -> (r: String)
    ensures
        r@ == trimmed_start(s@),
{
    let chars = chars_of(s);
    let mut k: usize = 0;
    assert(s@.skip(0) =~= s@);
    while k < chars.len() && is_separator(chars[k])
        invariant
            chars@ == s@,
            k <= chars.len(),
            trimmed_start(s@) == trimmed_start(s@.skip(k as int)),
        decreases chars.len() - k,
    {
        assert(s@.skip(k as int).drop_first() =~= s@.skip(k + 1));
        k += 1;
    }
    let r = slice_of(s, k, chars.len());
    assert(r@ =~= s@.skip(k as int));
    r
}

/// `s` without the separators at its beginning and at its end.
pub fn trim(s: &str) -> (r: String)
    ensures
        r@ == trimmed(s@),
{
    let start = trim_start(s);
    trim_end(start.as_str())
}

/// The number of characters of `s` before the first `c`; all of them where `s` holds no `c`.
pub open spec fn length_until(s: Seq<char>, c: char) -> nat
    decreases s.len(),
{
    if s.len() == 0 || s[0] == c {
        0
    } else {
        1 + length_until(s.drop_first(), c)
    }
}

/// `length_until` stops at the first `c` and nowhere before it.
pub proof fn lemma_length_until(s: Seq<char>, c: char)
    ensures
        length_until(s, c) <= s.len(),
        forall|i: int| 0 <= i < length_until(s, c) ==> #[trigger] s[i] != c,
        length_until(s, c) < s.len() ==> s[length_until(s, c) as int] == c,
    decreases s.len(),
{
    if s.len() == 0 || s[0] == c {
    } else {
        let t = s.drop_first();
        lemma_length_until(t, c);
        assert forall|i: int| 0 <= i < length_until(s, c) implies #[trigger] s[i] != c by {
            if i > 0 {
                assert(s[i] == t[i - 1]);
            }
        }
        if length_until(s, c) < s.len() {
            assert(s[length_until(s, c) as int] == t[length_until(t, c) as int]);
        }
    }
}

/// The position of the first `c` at or behind `from`; the length where none follows.
pub fn find_first(chars: &Vec<char>, from: usize, c: char) -> (r: usize)
    requires
        from <= chars.len(),
    ensures
        from <= r <= chars.len(),
        r - from == length_until(chars@.skip(from as int), c),
{
    let ghost rest = chars@.skip(from as int);
    proof {
        lemma_length_until(rest, c);
    }
    let mut k: usize = from;
    while k < chars.len() && chars[k] != c
        invariant
            from <= k <= chars.len(),
            rest == chars@.skip(from as int),
            k - from <= length_until(rest, c),
            length_until(rest, c) <= rest.len(),
            forall|i: int| 0 <= i < length_until(rest, c) ==> #[trigger] rest[i] != c,
            length_until(rest, c) < rest.len() ==> rest[length_until(rest, c) as int] == c,
        decreases chars.len() - k,
    {
        proof {
            assert(rest[k - from] == chars@[k as int]);
        }
        k += 1;
    }
    proof {
        if k < chars.len() {
            assert(rest[k - from] == chars@[k as int]);
            if k - from < length_until(rest, c) {
                assert(rest[k - from] != c);
            }
        }
    }
    k
}

/// `line` without a carriage return at its end.
pub open spec fn without_return(line: Seq<char>) -> Seq<char> {
    if line.len() > 0 && line.last() == '\r' {
        line.drop_last()
    } else {
        line
    }
}

/// The lines of `s`: what stands between its line feeds, each without the
/// carriage return before its line feed. A line feed at the very end opens no line.
pub open spec fn lines_of(s: Seq<char>) -> Seq<Seq<char>>
    decreases s.len(),
    via lines_of_decreases
{
    if s.len() == 0 {
        Seq::empty()
    } else if length_until(s, '\n') >= s.len() {
        seq![s]
    } else {
        seq![without_return(s.take(length_until(s, '\n') as int))] + lines_of(
            s.skip(length_until(s, '\n') as int + 1),
        )
    }
}

#[via_fn]
proof fn lines_of_decreases(s: Seq<char>) {
    lemma_length_until(s, '\n');
}

/// The lines of `s`.
pub fn split_lines(s: &str) -> (r: Vec<String>)
    ensures
        texts(r@) == lines_of(s@),
{
    let chars = chars_of(s);
    let n = chars.len();
    let mut out: Vec<String> = Vec::new();
    let mut i: usize = 0;
    proof {
        assert(s@.skip(0) =~= s@);
        assert(texts(out@) =~= Seq::<Seq<char>>::empty());
    }
    while i < n
        invariant
            chars@ == s@,
            n == chars.len(),
            i <= n,
            texts(out@) + lines_of(s@.skip(i as int)) == lines_of(s@),
        decreases n - i,
    {
        let ghost rest = s@.skip(i as int);
        let end = find_first(&chars, i, '\n');
        let ghost before = texts(out@);
        proof {
            assert(s@.subrange(i as int, end as int) =~= rest.take(end - i));
        }
        if end >= n {
            let line = slice_of(s, i, n);
            out.push(line);
            proof {
                assert(rest.take(rest.len() as int) =~= rest);
                assert(lines_of(rest) =~= seq![rest]);
                assert(texts(out@) =~= before + seq![rest]);
                assert(s@.skip(n as int) =~= Seq::<char>::empty());
                assert(texts(out@) + lines_of(s@.skip(n as int)) =~= before + lines_of(rest));
            }
            i = n;
        } else {
            let stop: usize = if end > i && chars[end - 1] == '\r' {
                end - 1
            } else {
                end
            };
            let line = slice_of(s, i, stop);
            out.push(line);
            proof {
                let whole = rest.take(end - i);
                if end > i {
                    assert(whole.last() == s@[end - 1]);
                }
                assert(line@ =~= without_return(whole));
                assert(rest.skip(end - i + 1) =~= s@.skip(end + 1));
                assert(texts(out@) =~= before + seq![line@]);
                assert(texts(out@) + lines_of(s@.skip(end + 1)) =~= before + lines_of(rest));
            }
            i = end + 1;
        }
    }
    proof {
        assert(s@.skip(n as int) =~= Seq::<char>::empty());
        assert(texts(out@) + Seq::<Seq<char>>::empty() =~= texts(out@));
    }
    out
}

/// The part of `s` before its first blank.
pub open spec fn first_field(s: Seq<char>) -> Seq<char> {
    s.take(length_until(s, ' ') as int)
}

/// The part of `s` between its first blank and its second, where it has a first.
pub open spec fn second_field(s: Seq<char>) -> Option<Seq<char>> {
    if length_until(s, ' ') >= s.len() {
        None
    } else {
        Some(first_field(s.skip(length_until(s, ' ') as int + 1)))
    }
}

/// The first and the second of the fields of `s` that single blanks separate.
pub fn split_fields(s: &str) -> (r: (String, Option<String>))
    ensures
        r.0@ == first_field(s@),
        match r.1 {
            Some(second) => second_field(s@) == Some(second@),
            None => second_field(s@) is None,
        },
{
    let chars = chars_of(s);
    let n = chars.len();
    let end = find_first(&chars, 0, ' ');
    proof {
        assert(s@.skip(0) =~= s@);
    }
    let first = slice_of(s, 0, end);
    assert(first@ =~= first_field(s@));
    if end >= n {
        (first, None)
    } else {
        let stop = find_first(&chars, end + 1, ' ');
        let second = slice_of(s, end + 1, stop);
        proof {
            let rest = s@.skip(end + 1);
            assert(second@ =~= rest.take(stop - end - 1));
        }
        (first, Some(second))
    }
}

/// `s` with `to` in place of every occurrence of `from`, taken from left to
/// right; an occurrence that begins inside an earlier one does not count.
/// An empty `from` occurs nowhere.
pub open spec fn replaced_all(s: Seq<char>, from: Seq<char>, to: Seq<char>) -> Seq<char>
    decreases s.len(),
{
    if from.len() == 0 || s.len() < from.len() {
        s
    } else if has_prefix(s, from) {
        to + replaced_all(s.skip(from.len() as int), from, to)
    } else {
        seq![s[0]] + replaced_all(s.drop_first(), from, to)
    }
}

/// `s` with `to` in place of every occurrence of `from`.
pub fn replace_all(s: &str, from: &str, to: &str) -> (r: String)
    ensures
        r@ == replaced_all(s@, from@, to@),
{
    let chars = chars_of(s);
    let pattern = chars_of(from);
    let n = chars.len();
    let m = pattern.len();
    if m == 0 {
        return String::from_str(s);
    }
    let mut out = String::new();
    let mut i: usize = 0;
    proof {
        assert(s@.skip(0) =~= s@);
        assert(out@ + replaced_all(s@, from@, to@) =~= replaced_all(s@, from@, to@));
    }
    while i < n
        invariant
            chars@ == s@,
            pattern@ == from@,
            n == chars.len(),
            m == pattern.len(),
            m > 0,
            i <= n,
            out@ + replaced_all(s@.skip(i as int), from@, to@) == replaced_all(s@, from@, to@),
        decreases n - i,
    {
        let ghost rest = s@.skip(i as int);
        let ghost before = out@;
        proof {
            assert(chars@.subrange(i as int, n as int) =~= rest);
        }
        if n - i >= m && matches_at(&chars, i, &pattern) {
            out.append(to);
            proof {
                assert(rest.skip(m as int) =~= s@.skip(i + m));
                assert(out@ + replaced_all(s@.skip(i + m), from@, to@) =~= before + replaced_all(rest, from@, to@));
            }
            i += m;
        } else {
            push_char(&mut out, chars[i]);
            proof {
                let tail = rest.drop_first();
                assert(tail =~= s@.skip(i + 1));
                assert(rest[0] == chars@[i as int]);
                if rest.len() < m {
                    assert(replaced_all(rest, from@, to@) == rest);
                    assert(replaced_all(tail, from@, to@) == tail);
                    assert(rest =~= seq![rest[0]] + tail);
                } else {
                    assert(!has_prefix(rest, from@));
                }
                assert(replaced_all(rest, from@, to@) =~= seq![rest[0]] + replaced_all(tail, from@, to@));
                assert(out@ + replaced_all(s@.skip(i + 1), from@, to@) =~= before + replaced_all(rest, from@, to@));
            }
            i += 1;
        }
    }
    proof {
        assert(s@.skip(n as int) =~= Seq::<char>::empty());
        assert(out@ + Seq::<char>::empty() =~= out@);
    }
    out
}

} // verus!
