//! Text handling on sequences of characters: conversion from and to strings,
//! and the small vocabulary of cutting operations the parsers are written in.

use vstd::prelude::*;
use vstd::string::StringExecFns;

verus! {

/// `String::push` appends one character to the string.
pub assume_specification[ String::push ](s: &mut String, ch: char)
    ensures
        final(s)@ == old(s)@.push(ch),
;

/// The characters of a string, in order.
pub fn chars_of(s: &str) -> (r: Vec<char>)
    ensures
        r@ == s@,
{
    let mut v: Vec<char> = Vec::new();
    for c in it: s.chars()
        invariant
            v@ == it.seq().take(it.index() as int),
            it.seq() == s@,
    {
        v.push(c);
    }
    v
}

/// The position of the first `c` in `s`, or the length of `s` where it holds
/// none.
pub open spec fn find(s: Seq<char>, c: char) -> int
    decreases s.len(),
{
    if s.len() == 0 {
        0
    } else if s[0] == c {
        0
    } else {
        1 + find(s.drop_first(), c)
    }
}

/// `find` is the least position that holds `c`.
pub proof fn lemma_find(s: Seq<char>, c: char)
    ensures
        0 <= find(s, c) <= s.len(),
        forall|j: int| 0 <= j < find(s, c) ==> s[j] != c,
        find(s, c) < s.len() ==> s[find(s, c)] == c,
    decreases s.len(),
{
    if s.len() != 0 && s[0] != c {
        let t = s.drop_first();
        lemma_find(t, c);
        assert forall|j: int| 0 <= j < find(s, c) implies s[j] != c by {
            if j > 0 {
                assert(s[j] == t[j - 1]);
            }
        }
    }
}

/// A position with the two properties of `find` is `find`.
pub proof fn lemma_find_is(s: Seq<char>, c: char, k: int)
    requires
        0 <= k <= s.len(),
        forall|j: int| 0 <= j < k ==> s[j] != c,
        k < s.len() ==> s[k] == c,
    ensures
        find(s, c) == k,
{
    lemma_find(s, c);
    let f = find(s, c);
    if f < k {
        assert(s[f] == c);
    } else if k < f {
        assert(s[k] == c);
    }
}

pub fn find_char(s: &[char], c: char) -> (i: usize)
    ensures
        i == find(s@, c),
{
    let mut i: usize = 0;
    while i < s.len() && s[i] != c
        invariant
            i <= s.len(),
            forall|j: int| 0 <= j < i ==> s@[j] != c,
        decreases s.len() - i,
    {
        i += 1;
    }
    proof {
        lemma_find_is(s@, c, i as int);
    }
    i
}

/// The pieces of `s` between the occurrences of `sep`: one more than there
/// are separators, so the empty text is cut into one empty piece.
pub open spec fn split(s: Seq<char>, sep: char) -> Seq<Seq<char>>
    decreases s.len(),
{
    let i = find(s, sep);
    if 0 <= i < s.len() {
        seq![s.take(i)] + split(s.skip(i + 1), sep)
    } else {
        seq![s]
    }
}

/// The views of a list of slices.
pub open spec fn views(v: Seq<&[char]>) -> Seq<Seq<char>> {
    Seq::new(v.len(), |i: int| v[i]@)
}

pub fn split_chars<'a>(s: &'a [char], sep: char) -> (r: Vec<&'a [char]>)
    ensures
        views(r@) == split(s@, sep),
{
    let mut out: Vec<&'a [char]> = Vec::new();
    let mut rest: &'a [char] = s;
    loop
        invariant_except_break
            views(out@) + split(rest@, sep) == split(s@, sep),
        ensures
            views(out@) == split(s@, sep),
        decreases rest@.len(),
    {
        let i = find_char(rest, sep);
        proof {
            lemma_find(rest@, sep);
        }
        if i < rest.len() {
            let piece: &'a [char] = &rest[0..i];
            let ghost before = views(out@);
            out.push(piece);
            let next: &'a [char] = &rest[i + 1..rest.len()];
            proof {
                assert(piece@ == rest@.take(i as int));
                assert(next@ == rest@.skip(i + 1));
                assert(views(out@) == before + seq![piece@]);
                assert(before + seq![piece@] + split(next@, sep) == before + (seq![piece@]
                    + split(next@, sep)));
            }
            rest = next;
        } else {
            let ghost before = views(out@);
            out.push(rest);
            proof {
                assert(views(out@) == before + seq![rest@]);
            }
            break ;
        }
    }
    out
}

/// A line without the carriage return that stood before its line feed.
pub open spec fn strip_cr(s: Seq<char>) -> Seq<char> {
    if s.len() > 0 && s.last() == '\r' {
        s.drop_last()
    } else {
        s
    }
}

/// The lines of a text. A line ends at a line feed, or at a carriage return
/// directly followed by one; the last line needs no ending, and a text that
/// ends with a line ending has no empty line after it.
pub open spec fn lines(s: Seq<char>) -> Seq<Seq<char>>
    decreases s.len(),
{
    if s.len() == 0 {
        Seq::empty()
    } else {
        let i = find(s, '\n');
        if 0 <= i < s.len() {
            seq![strip_cr(s.take(i))] + lines(s.skip(i + 1))
        } else {
            seq![s]
        }
    }
}

pub fn split_lines<'a>(s: &'a [char]) -> (r: Vec<&'a [char]>)
    ensures
        views(r@) == lines(s@),
{
    let mut out: Vec<&'a [char]> = Vec::new();
    let mut rest: &'a [char] = s;
    while rest.len() > 0
        invariant
            views(out@) + lines(rest@) == lines(s@),
        decreases rest@.len(),
    {
        let i = find_char(rest, '\n');
        proof {
            lemma_find(rest@, '\n');
        }
        let ghost before = views(out@);
        if i < rest.len() {
            let mut end: usize = i;
            if end > 0 && rest[end - 1] == '\r' {
                end -= 1;
            }
            let piece: &'a [char] = &rest[0..end];
            out.push(piece);
            let next: &'a [char] = &rest[i + 1..rest.len()];
            proof {
                assert(piece@ == strip_cr(rest@.take(i as int)));
                assert(next@ == rest@.skip(i + 1));
                assert(views(out@) == before + seq![piece@]);
                assert(before + seq![piece@] + lines(next@) == before + (seq![piece@] + lines(
                    next@,
                )));
            }
            rest = next;
        } else {
            out.push(rest);
            let next: &'a [char] = &rest[rest.len()..rest.len()];
            proof {
                assert(views(out@) == before + seq![rest@]);
                assert(next@ == Seq::<char>::empty());
                assert(lines(next@) == Seq::<Seq<char>>::empty());
                assert(before + seq![rest@] + lines(next@) == before + seq![rest@]);
            }
            rest = next;
        }
    }
    proof {
        assert(lines(rest@) == Seq::<Seq<char>>::empty());
        assert(views(out@) + lines(rest@) == views(out@));
    }
    out
}

/// White space as Unicode defines it (the property `White_Space`).
pub open spec fn is_whitespace(c: char) -> bool {
    let n = c as u32;
    ||| 0x09 <= n <= 0x0D
    ||| n == 0x20
    ||| n == 0x85
    ||| n == 0xA0
    ||| n == 0x1680
    ||| 0x2000 <= n <= 0x200A
    ||| n == 0x2028
    ||| n == 0x2029
    ||| n == 0x202F
    ||| n == 0x205F
    ||| n == 0x3000
}

pub fn char_is_whitespace(c: char) -> (r: bool)
    ensures
        r == is_whitespace(c),
{
    let n: u32 = c as u32;
    (0x09 <= n && n <= 0x0D) || n == 0x20 || n == 0x85 || n == 0xA0 || n == 0x1680 || (0x2000 <= n
        && n <= 0x200A) || n == 0x2028 || n == 0x2029 || n == 0x202F || n == 0x205F || n == 0x3000
}

/// `s` without the white space it begins with.
pub open spec fn trim_start(s: Seq<char>) -> Seq<char>
    decreases s.len(),
{
    if s.len() > 0 && is_whitespace(s[0]) {
        trim_start(s.drop_first())
    } else {
        s
    }
}

/// `s` without the white space it ends with.
pub open spec fn trim_end(s: Seq<char>) -> Seq<char>
    decreases s.len(),
{
    if s.len() > 0 && is_whitespace(s.last()) {
        trim_end(s.drop_last())
    } else {
        s
    }
}

/// `s` without the white space at either end.
pub open spec fn trim(s: Seq<char>) -> Seq<char> {
    trim_end(trim_start(s))
}

pub fn trim_chars<'a>(s: &'a [char]) -> (r: &'a [char])
    ensures
        r@ == trim(s@),
{
    let mut a: usize = 0;
    proof {
        assert(s@.skip(0) == s@);
    }
    while a < s.len() && char_is_whitespace(s[a])
        invariant
            a <= s.len(),
            trim_start(s@) == trim_start(s@.skip(a as int)),
        decreases s.len() - a,
    {
        proof {
            assert(s@.skip(a as int).drop_first() == s@.skip(a + 1));
        }
        a += 1;
    }
    proof {
        assert(trim_start(s@) == s@.skip(a as int));
    }
    let mut b: usize = s.len();
    while b > a && char_is_whitespace(s[b - 1])
        invariant
            a <= b <= s.len(),
            trim(s@) == trim_end(s@.subrange(a as int, b as int)),
        decreases b,
    {
        proof {
            assert(s@.subrange(a as int, b as int).drop_last() == s@.subrange(a as int, b - 1));
        }
        b -= 1;
    }
    &s[a..b]
}

/// Whether `pat` stands somewhere in `s`.
pub open spec fn contains(s: Seq<char>, pat: Seq<char>) -> bool {
    exists|i: int| 0 <= i <= s.len() && #[trigger] pat.is_prefix_of(s.skip(i))
}

pub fn starts_with(s: &[char], pat: &[char]) -> (r: bool)
    ensures
        r == pat@.is_prefix_of(s@),
{
    if pat.len() > s.len() {
        return false;
    }
    let mut i: usize = 0;
    while i < pat.len()
        invariant
            i <= pat.len() <= s.len(),
            forall|j: int| 0 <= j < i ==> s@[j] == pat@[j],
        decreases pat.len() - i,
    {
        if s[i] != pat[i] {
            return false;
        }
        i += 1;
    }
    true
}

pub fn ends_with(s: &[char], pat: &[char]) -> (r: bool)
    ensures
        r == pat@.is_suffix_of(s@),
{
    if pat.len() > s.len() {
        return false;
    }
    let d: usize = s.len() - pat.len();
    let mut i: usize = 0;
    while i < pat.len()
        invariant
            i <= pat.len() <= s.len(),
            d == s.len() - pat.len(),
            forall|j: int| 0 <= j < i ==> s@[d + j] == pat@[j],
        decreases pat.len() - i,
    {
        if s[d + i] != pat[i] {
            proof {
                assert(s@.subrange(s@.len() - pat@.len(), s@.len() as int)[i as int] == s@[d + i]);
            }
            return false;
        }
        i += 1;
    }
    proof {
        assert(s@.subrange(s@.len() - pat@.len(), s@.len() as int) =~= pat@);
    }
    true
}

pub fn contains_chars(s: &[char], pat: &[char]) -> (r: bool)
    ensures
        r == contains(s@, pat@),
{
    let mut i: usize = 0;
    while i < s.len()
        invariant
            i <= s.len(),
            forall|j: int| 0 <= j < i ==> !(#[trigger] pat@.is_prefix_of(s@.skip(j))),
        decreases s.len() - i,
    {
        let tail: &[char] = &s[i..s.len()];
        proof {
            assert(tail@ == s@.skip(i as int));
        }
        if starts_with(tail, pat) {
            return true;
        }
        i += 1;
    }
    let tail: &[char] = &s[i..s.len()];
    proof {
        assert(tail@ == s@.skip(i as int));
    }
    starts_with(tail, pat)
}

/// The string made of the characters of `s`.
pub fn string_from(s: &[char]) -> (r: String)
    ensures
        r@ == s@,
{
    let mut out = String::new();
    let mut i: usize = 0;
    while i < s.len()
        invariant
            i <= s.len(),
            out@ == s@.take(i as int),
        decreases s.len() - i,
    {
        out.push(s[i]);
        proof {
            assert(s@.take(i + 1) == s@.take(i as int).push(s@[i as int]));
        }
        i += 1;
    }
    proof {
        assert(s@.take(s@.len() as int) == s@);
    }
    out
}

pub fn chars_eq(a: &[char], b: &[char]) -> (r: bool)
    ensures
        r == (a@ == b@),
{
    if a.len() != b.len() {
        return false;
    }
    let mut i: usize = 0;
    while i < a.len()
        invariant
            i <= a.len() == b.len(),
            forall|j: int| 0 <= j < i ==> a@[j] == b@[j],
        decreases a.len() - i,
    {
        if a[i] != b[i] {
            return false;
        }
        i += 1;
    }
    proof {
        assert(a@ =~= b@);
    }
    true
}

/// What follows the first `n` characters of `s`.
pub fn skip_chars<'a>(s: &'a [char], n: usize) -> (r: &'a [char])
    requires
        n <= s.len(),
    ensures
        r@ == s@.skip(n as int),
{
    &s[n..s.len()]
}

/// `s` without the occurrences of `pat`, found from left to right, none
/// overlapping another. An empty pattern removes nothing.
pub open spec fn remove_all(s: Seq<char>, pat: Seq<char>) -> Seq<char>
    decreases s.len(),
{
    if pat.len() == 0 || s.len() == 0 {
        s
    } else if pat.is_prefix_of(s) {
        remove_all(s.skip(pat.len() as int), pat)
    } else {
        seq![s[0]] + remove_all(s.drop_first(), pat)
    }
}

pub fn remove_all_chars(s: &[char], pat: &[char]) -> (r: Vec<char>)
    ensures
        r@ == remove_all(s@, pat@),
{
    let mut out: Vec<char> = Vec::new();
    let mut i: usize = 0;
    proof {
        assert(s@.skip(0) == s@);
    }
    while i < s.len()
        invariant
            i <= s.len(),
            out@ + remove_all(s@.skip(i as int), pat@) == remove_all(s@, pat@),
        decreases s.len() - i,
    {
        let tail: &[char] = &s[i..s.len()];
        proof {
            assert(tail@ == s@.skip(i as int));
        }
        if pat.len() > 0 && starts_with(tail, pat) {
            proof {
                assert(tail@.skip(pat@.len() as int) == s@.skip(i + pat@.len()));
            }
            i += pat.len();
        } else {
            let ghost before = out@;
            out.push(s[i]);
            proof {
                assert(tail@.drop_first() == s@.skip(i + 1));
                assert(out@ == before + seq![s@[i as int]]);
                assert(before + seq![s@[i as int]] + remove_all(s@.skip(i + 1), pat@) == before + (
                seq![s@[i as int]] + remove_all(s@.skip(i + 1), pat@)));
            }
            i += 1;
        }
    }
    proof {
        assert(remove_all(s@.skip(i as int), pat@) == Seq::<char>::empty());
        assert(out@ + Seq::<char>::empty() == out@);
    }
    out
}

/// The views of a list of strings.
pub open spec fn texts(v: Seq<String>) -> Seq<Seq<char>> {
    v.map_values(|s: String| s@)
}

/// The view of a string that may be missing.
pub open spec fn text_of(s: Option<String>) -> Option<Seq<char>> {
    match s {
        Some(s) => Some(s@),
        None => None,
    }
}

/// The views of a list of pairs of strings.
pub open spec fn text_pairs(v: Seq<(String, String)>) -> Seq<(Seq<char>, Seq<char>)> {
    v.map_values(|p: (String, String)| (p.0@, p.1@))
}

/// Appends a copy of `s` to the list.
pub fn push_text(v: &mut Vec<String>, s: &str)
    ensures
        texts(final(v)@) == texts(old(v)@).push(s@),
{
    v.push(s.to_owned());
    proof {
        assert(texts(v@) =~= texts(old(v)@).push(s@));
    }
}

/// Appends a copy of each string of `more` to the list.
pub fn extend_texts(v: &mut Vec<String>, more: &Vec<String>)
    ensures
        texts(final(v)@) == texts(old(v)@) + texts(more@),
{
    let mut i: usize = 0;
    proof {
        assert(texts(v@) =~= texts(old(v)@) + texts(more@.take(0)));
    }
    while i < more.len()
        invariant
            i <= more@.len(),
            texts(v@) == texts(old(v)@) + texts(more@.take(i as int)),
        decreases more@.len() - i,
    {
        let ghost before = v@;
        v.push(more[i].clone());
        proof {
            assert(texts(v@) =~= texts(before).push(more@[i as int]@));
            assert(texts(more@.take(i + 1)) =~= texts(more@.take(i as int)).push(more@[i as int]@));
            assert(texts(v@) =~= texts(old(v)@) + texts(more@.take(i + 1)));
        }
        i += 1;
    }
    proof {
        assert(more@.take(i as int) == more@);
    }
}

/// Appends the pair of copies of `name` and `value` to the list.
pub fn push_pair(v: &mut Vec<(String, String)>, name: &str, value: &str)
    ensures
        text_pairs(final(v)@) == text_pairs(old(v)@).push((name@, value@)),
{
    v.push((name.to_owned(), value.to_owned()));
    proof {
        assert(text_pairs(v@) =~= text_pairs(old(v)@).push((name@, value@)));
    }
}

/// The words of a text: the runs of characters that are no white space.
pub open spec fn words(s: Seq<char>) -> Seq<Seq<char>>
    decreases s.len(),
{
    if s.len() == 0 {
        Seq::empty()
    } else if is_whitespace(s[0]) {
        words(s.drop_first())
    } else {
        proof {
            lemma_word_len(s);
        }
        let n = word_len(s);
        seq![s.take(n)] + words(s.skip(n))
    }
}

/// The length of the run of characters that are no white space at the start
/// of `s`.
pub open spec fn word_len(s: Seq<char>) -> int
    decreases s.len(),
{
    if s.len() == 0 || is_whitespace(s[0]) {
        0
    } else {
        1 + word_len(s.drop_first())
    }
}

pub proof fn lemma_word_len(s: Seq<char>)
    ensures
        0 <= word_len(s) <= s.len(),
        s.len() > 0 && !is_whitespace(s[0]) ==> word_len(s) > 0,
    decreases s.len(),
{
    if s.len() > 0 && !is_whitespace(s[0]) {
        lemma_word_len(s.drop_first());
    }
}

/// Cuts a text into its words.
pub fn split_words(s: &[char]) -> (r: Vec<String>)
    ensures
        texts(r@) == words(s@),
{
    let mut out: Vec<String> = Vec::new();
    let mut i: usize = 0;
    proof {
        assert(s@.skip(0) == s@);
        assert(texts(out@) =~= Seq::<Seq<char>>::empty());
    }
    while i < s.len()
        invariant
            i <= s.len(),
            texts(out@) + words(s@.skip(i as int)) == words(s@),
        decreases s.len() - i,
    {
        let ghost tail = s@.skip(i as int);
        if char_is_whitespace(s[i]) {
            proof {
                assert(tail.drop_first() == s@.skip(i + 1));
            }
            i += 1;
        } else {
            let mut j: usize = i;
            while j < s.len() && !char_is_whitespace(s[j])
                invariant
                    i <= j <= s.len(),
                    word_len(tail) == (j - i) + word_len(s@.skip(j as int)),
                    tail == s@.skip(i as int),
                decreases s.len() - j,
            {
                proof {
                    assert(s@.skip(j as int).drop_first() == s@.skip(j + 1));
                }
                j += 1;
            }
            let word: &[char] = &s[i..j];
            let ghost before = out@;
            out.push(string_from(word));
            proof {
                lemma_word_len(tail);
                assert(word_len(tail) == j - i);
                assert(word@ == tail.take(j - i));
                assert(tail.skip(j - i) == s@.skip(j as int));
                assert(texts(out@) =~= texts(before).push(word@));
                assert(texts(before).push(word@) + words(s@.skip(j as int)) =~= texts(before) + (
                seq![word@] + words(s@.skip(j as int))));
            }
            i = j;
        }
    }
    proof {
        assert(words(s@.skip(i as int)) == Seq::<Seq<char>>::empty());
        assert(texts(out@) + Seq::<Seq<char>>::empty() == texts(out@));
    }
    out
}

/// Appends the characters of `s` to `out`.
pub fn append_chars(out: &mut Vec<char>, s: &str)
    ensures
        final(out)@ == old(out)@ + s@,
{
    let text = chars_of(s);
    let mut i: usize = 0;
    proof {
        assert(out@ =~= old(out)@ + text@.take(0));
    }
    while i < text.len()
        invariant
            i <= text@.len(),
            out@ == old(out)@ + text@.take(i as int),
        decreases text@.len() - i,
    {
        out.push(text[i]);
        proof {
            assert(out@ =~= old(out)@ + text@.take(i + 1));
        }
        i += 1;
    }
    proof {
        assert(text@.take(i as int) == text@);
    }
}

/// The three texts, one after the other.
pub fn concat3(a: &str, b: &str, c: &str) -> (r: String)
    ensures
        r@ == a@ + b@ + c@,
{
    let mut out: String = a.to_owned();
    out.append(b);
    out.append(c);
    out
}

/// The pieces put together again, with `sep` between each two.
pub open spec fn join(pieces: Seq<Seq<char>>, sep: char) -> Seq<char>
    decreases pieces.len(),
{
    if pieces.len() == 0 {
        Seq::empty()
    } else if pieces.len() == 1 {
        pieces[0]
    } else {
        pieces[0] + seq![sep] + join(pieces.drop_first(), sep)
    }
}

/// Whether `c` stands nowhere in `s`.
pub open spec fn holds_no(s: Seq<char>, c: char) -> bool {
    forall|j: int| 0 <= j < s.len() ==> #[trigger] s[j] != c
}

/// Cutting a text at a separator loses nothing and leaves no separator
/// behind: the pieces hold none, and joined by it they give the text back.
pub proof fn lemma_split(s: Seq<char>, sep: char)
    ensures
        split(s, sep).len() >= 1,
        forall|i: int| 0 <= i < split(s, sep).len() ==> holds_no(#[trigger] split(s, sep)[i], sep),
        join(split(s, sep), sep) == s,
    decreases s.len(),
{
    lemma_find(s, sep);
    let k = find(s, sep);
    if 0 <= k < s.len() {
        let rest = s.skip(k + 1);
        lemma_split(rest, sep);
        let pieces = split(s, sep);
        assert(pieces == seq![s.take(k)] + split(rest, sep));
        assert(pieces.drop_first() == split(rest, sep));
        assert(pieces[0] == s.take(k));
        assert forall|i: int| 0 <= i < pieces.len() implies holds_no(#[trigger] pieces[i], sep) by {
            if i == 0 {
                assert forall|j: int| 0 <= j < pieces[0].len() implies #[trigger] pieces[0][j]
                    != sep by {
                    assert(s.take(k)[j] == s[j]);
                }
            } else {
                assert(pieces[i] == split(rest, sep)[i - 1]);
            }
        }
        assert(s.take(k) + seq![sep] + rest == s);
    } else {
        assert(split(s, sep) == seq![s]);
    }
}

/// Whether every character of `s` is white space.
pub open spec fn all_whitespace(s: Seq<char>) -> bool {
    forall|i: int| 0 <= i < s.len() ==> is_whitespace(#[trigger] s[i])
}

proof fn lemma_trim_start(s: Seq<char>)
    ensures
        trim_start(s).len() <= s.len(),
        trim_start(s) == s.skip(s.len() - trim_start(s).len()),
        all_whitespace(s.take(s.len() - trim_start(s).len())),
        trim_start(s).len() > 0 ==> !is_whitespace(trim_start(s)[0]),
    decreases s.len(),
{
    if s.len() > 0 && is_whitespace(s[0]) {
        let t = s.drop_first();
        lemma_trim_start(t);
        let a = s.len() - trim_start(s).len();
        assert(t.skip(a - 1) == s.skip(a));
        assert forall|i: int| 0 <= i < s.take(a).len() implies is_whitespace(
            #[trigger] s.take(a)[i],
        ) by {
            if i > 0 {
                assert(s.take(a)[i] == t.take(a - 1)[i - 1]);
            }
        }
    } else {
        assert(s.skip(0) == s);
    }
}

proof fn lemma_trim_end(s: Seq<char>)
    ensures
        trim_end(s).len() <= s.len(),
        trim_end(s) == s.take(trim_end(s).len() as int),
        all_whitespace(s.skip(trim_end(s).len() as int)),
        trim_end(s).len() > 0 ==> !is_whitespace(trim_end(s).last()),
    decreases s.len(),
{
    if s.len() > 0 && is_whitespace(s.last()) {
        let t = s.drop_last();
        lemma_trim_end(t);
        let b = trim_end(s).len() as int;
        assert(t.take(b) == s.take(b));
        assert forall|i: int| 0 <= i < s.skip(b).len() implies is_whitespace(
            #[trigger] s.skip(b)[i],
        ) by {
            if i < s.skip(b).len() - 1 {
                assert(s.skip(b)[i] == t.skip(b)[i]);
            }
        }
    } else {
        assert(s.take(s.len() as int) == s);
    }
}

/// Trimming takes white space away from both ends and nothing else: the
/// text is white space, then what is left, then white space; and what is
/// left neither begins nor ends with white space.
pub proof fn lemma_trim(s: Seq<char>)
    ensures
        exists|a: int, b: int|
            0 <= a <= b <= s.len() && trim(s) == #[trigger] s.subrange(a, b) && all_whitespace(
                s.take(a),
            ) && all_whitespace(s.skip(b)),
        trim(s).len() > 0 ==> !is_whitespace(trim(s)[0]) && !is_whitespace(trim(s).last()),
{
    lemma_trim_start(s);
    let m = trim_start(s);
    lemma_trim_end(m);
    let a = s.len() - m.len();
    let b = a + trim_end(m).len();
    assert(m.take(trim_end(m).len() as int) == s.subrange(a, b));
    assert(all_whitespace(s.skip(b))) by {
        assert forall|i: int| 0 <= i < s.skip(b).len() implies is_whitespace(
            #[trigger] s.skip(b)[i],
        ) by {
            assert(s.skip(b)[i] == m.skip(trim_end(m).len() as int)[i]);
        }
    }
    if trim(s).len() > 0 {
        assert(trim(s)[0] == m[0]);
    }
}

/// The lines of a text hold no line feed.
pub proof fn lemma_lines(s: Seq<char>)
    ensures
        forall|i: int| 0 <= i < lines(s).len() ==> holds_no(#[trigger] lines(s)[i], '\n'),
    decreases s.len(),
{
    if s.len() > 0 {
        lemma_find(s, '\n');
        let k = find(s, '\n');
        if 0 <= k < s.len() {
            let rest = s.skip(k + 1);
            lemma_lines(rest);
            let ls = lines(s);
            let first = strip_cr(s.take(k));
            assert(ls == seq![first] + lines(rest));
            assert forall|i: int| 0 <= i < ls.len() implies holds_no(#[trigger] ls[i], '\n') by {
                if i == 0 {
                    assert forall|j: int| 0 <= j < first.len() implies #[trigger] first[j]
                        != '\n' by {
                        assert(first[j] == s[j]);
                    }
                } else {
                    assert(ls[i] == lines(rest)[i - 1]);
                }
            }
        } else {
            assert(lines(s) == seq![s]);
        }
    }
}

/// Whether no character of `s` is white space.
pub open spec fn no_whitespace(s: Seq<char>) -> bool {
    forall|j: int| 0 <= j < s.len() ==> !is_whitespace(#[trigger] s[j])
}

/// The words of a text are not empty and hold no white space.
pub proof fn lemma_words(s: Seq<char>)
    ensures
        forall|i: int|
            0 <= i < words(s).len() ==> (#[trigger] words(s)[i]).len() > 0 && no_whitespace(
                words(s)[i],
            ),
    decreases s.len(),
{
    if s.len() == 0 {
        assert(words(s).len() == 0);
    } else {
        if is_whitespace(s[0]) {
            lemma_words(s.drop_first());
            assert(words(s) == words(s.drop_first()));
        } else {
            lemma_word_len(s);
            lemma_word_chars(s);
            let n = word_len(s);
            lemma_words(s.skip(n));
            let ws = words(s);
            assert(ws == seq![s.take(n)] + words(s.skip(n)));
            assert forall|i: int| 0 <= i < ws.len() implies (#[trigger] ws[i]).len() > 0
                && no_whitespace(ws[i]) by {
                if i > 0 {
                    assert(ws[i] == words(s.skip(n))[i - 1]);
                } else {
                    assert forall|j: int| 0 <= j < ws[0].len() implies !is_whitespace(
                        #[trigger] ws[0][j],
                    ) by {
                        assert(s.take(n)[j] == s[j]);
                    }
                }
            }
        }
    }
}

proof fn lemma_word_chars(s: Seq<char>)
    ensures
        forall|j: int| 0 <= j < word_len(s) ==> !is_whitespace(#[trigger] s[j]),
    decreases s.len(),
{
    if s.len() > 0 && !is_whitespace(s[0]) {
        lemma_word_len(s);
        lemma_word_chars(s.drop_first());
        assert forall|j: int| 0 <= j < word_len(s) implies !is_whitespace(#[trigger] s[j]) by {
            if j > 0 {
                assert(s[j] == s.drop_first()[j - 1]);
            }
        }
    }
}

} // verus!
