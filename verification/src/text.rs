//! Character sequences: white space, trimming, words and conversions between
//! strings and vectors of characters.

use vstd::prelude::*;
use vstd::slice::slice_subrange;

verus! {

/// A character with the Unicode property `White_Space`.
pub open spec fn is_space(c: char) -> bool {
    ||| ('\u{9}' <= c && c <= '\u{d}')
    ||| c == ' '
    ||| c == '\u{85}'
    ||| c == '\u{a0}'
    ||| c == '\u{1680}'
    ||| ('\u{2000}' <= c && c <= '\u{200a}')
    ||| c == '\u{2028}'
    ||| c == '\u{2029}'
    ||| c == '\u{202f}'
    ||| c == '\u{205f}'
    ||| c == '\u{3000}'
}

/// `s` without its leading white space.
pub open spec fn trimmed_start(s: Seq<char>) -> Seq<char>
    decreases s.len(),
{
    if s.len() > 0 && is_space(s[0]) {
        trimmed_start(s.drop_first())
    } else {
        s
    }
}

/// `s` without its trailing white space.
pub open spec fn trimmed_end(s: Seq<char>) -> Seq<char>
    decreases s.len(),
{
    if s.len() > 0 && is_space(s.last()) {
        trimmed_end(s.drop_last())
    } else {
        s
    }
}

/// `s` without white space at either end.
pub open spec fn trimmed(s: Seq<char>) -> Seq<char> {
    trimmed_end(trimmed_start(s))
}

/// The index of the first `c` in `s`, or the length of `s` where there is none.
pub open spec fn position(s: Seq<char>, c: char) -> int
    decreases s.len(),
{
    if s.len() == 0 || s[0] == c {
        0
    } else {
        1 + position(s.drop_first(), c)
    }
}

/// The length of the longest prefix of `s` that holds no white space.
pub open spec fn word_len(s: Seq<char>) -> int
    decreases s.len(),
{
    if s.len() == 0 || is_space(s[0]) {
        0
    } else {
        1 + word_len(s.drop_first())
    }
}

/// The first white-space-separated field of `s`; empty where `s` is blank.
pub open spec fn first_word(s: Seq<char>) -> Seq<char> {
    let t = trimmed_start(s);
    t.take(word_len(t))
}

/// What follows the first field of `s`.
pub open spec fn after_first_word(s: Seq<char>) -> Seq<char> {
    let t = trimmed_start(s);
    t.skip(word_len(t))
}

/// `s` holds no `c`.
pub open spec fn lacks(s: Seq<char>, c: char) -> bool {
    forall|i: int| 0 <= i < s.len() ==> s[i] != c
}

/// `s` holds no white space.
pub open spec fn spaceless(s: Seq<char>) -> bool {
    forall|i: int| 0 <= i < s.len() ==> !is_space(#[trigger] s[i])
}

/// The first `c` stands within the text or at its length, with no `c`
/// before it.
pub proof fn lemma_position_bounds(s: Seq<char>, c: char)
    ensures
        0 <= position(s, c) <= s.len(),
        position(s, c) < s.len() ==> s[position(s, c)] == c,
        forall|i: int| 0 <= i < position(s, c) ==> s[i] != c,
    decreases s.len(),
{
    if s.len() == 0 || s[0] == c {
    } else {
        let t = s.drop_first();
        lemma_position_bounds(t, c);
        assert forall|i: int| 0 <= i < position(s, c) implies s[i] != c by {
            if i > 0 {
                assert(s[i] == t[i - 1]);
            }
        }
    }
}

/// The first place where `c` stands is the only index with `c` there and none before.
pub proof fn lemma_position_is(s: Seq<char>, c: char, k: int)
    requires
        0 <= k <= s.len(),
        forall|i: int| 0 <= i < k ==> s[i] != c,
        k < s.len() ==> s[k] == c,
    ensures
        position(s, c) == k,
{
    lemma_position_bounds(s, c);
    let p = position(s, c);
    if p < k {
        assert(s[p] == c);
    } else if p > k {
        assert(s[k] != c);
    }
}

/// The first word ends within the text, at white space or at the end, and
/// holds no white space.
pub proof fn lemma_word_len_bounds(s: Seq<char>)
    ensures
        0 <= word_len(s) <= s.len(),
        word_len(s) < s.len() ==> is_space(s[word_len(s)]),
        forall|i: int| 0 <= i < word_len(s) ==> !is_space(#[trigger] s[i]),
    decreases s.len(),
{
    if s.len() == 0 || is_space(s[0]) {
    } else {
        let t = s.drop_first();
        lemma_word_len_bounds(t);
        assert forall|i: int| 0 <= i < word_len(s) implies !is_space(#[trigger] s[i]) by {
            if i > 0 {
                assert(s[i] == t[i - 1]);
            }
        }
    }
}

/// The first word ends at the only index with no white space before it and
/// white space, or the end, at it.
pub proof fn lemma_word_len_is(s: Seq<char>, k: int)
    requires
        0 <= k <= s.len(),
        forall|i: int| 0 <= i < k ==> !is_space(#[trigger] s[i]),
        k < s.len() ==> is_space(s[k]),
    ensures
        word_len(s) == k,
{
    lemma_word_len_bounds(s);
    let p = word_len(s);
    if p < k {
        assert(is_space(s[p]));
    } else if p > k {
        assert(!is_space(s[k]));
    }
}

/// Trimming at the start leaves a suffix that is empty or begins with no space.
pub proof fn lemma_trimmed_start_is(s: Seq<char>, k: int)
    requires
        0 <= k <= s.len(),
        forall|i: int| 0 <= i < k ==> is_space(#[trigger] s[i]),
        k < s.len() ==> !is_space(s[k]),
    ensures
        trimmed_start(s) == s.skip(k),
    decreases k,
{
    if k == 0 {
        assert(s.skip(0) =~= s);
    } else {
        assert(is_space(s[0]));
        let t = s.drop_first();
        assert forall|i: int| 0 <= i < k - 1 implies is_space(#[trigger] t[i]) by {
            assert(t[i] == s[i + 1]);
        }
        lemma_trimmed_start_is(t, k - 1);
        assert(t.skip(k - 1) =~= s.skip(k));
    }
}

/// Trimming at the end leaves a prefix that is empty or ends with no space.
pub proof fn lemma_trimmed_end_is(s: Seq<char>, k: int)
    requires
        0 <= k <= s.len(),
        forall|i: int| k <= i < s.len() ==> is_space(#[trigger] s[i]),
        k > 0 ==> !is_space(s[k - 1]),
    ensures
        trimmed_end(s) == s.take(k),
    decreases s.len() - k,
{
    if k == s.len() {
        assert(s.take(k) =~= s);
    } else {
        assert(is_space(s.last()));
        let t = s.drop_last();
        lemma_trimmed_end_is(t, k);
        assert(t.take(k) =~= s.take(k));
    }
}

/// The number of leading white-space characters of `s`.
pub proof fn lemma_trimmed_start_shape(s: Seq<char>) -> (k: int)
    ensures
        0 <= k <= s.len(),
        trimmed_start(s) == s.skip(k),
        forall|i: int| 0 <= i < k ==> is_space(#[trigger] s[i]),
        k < s.len() ==> !is_space(s[k]),
    decreases s.len(),
{
    if s.len() > 0 && is_space(s[0]) {
        let t = s.drop_first();
        let k = lemma_trimmed_start_shape(t);
        assert(t.skip(k) =~= s.skip(k + 1));
        assert forall|i: int| 0 <= i < k + 1 implies is_space(#[trigger] s[i]) by {
            if i > 0 {
                assert(s[i] == t[i - 1]);
            }
        }
        k + 1
    } else {
        assert(s.skip(0) =~= s);
        0
    }
}

/// The length of `s` without its trailing white space.
pub proof fn lemma_trimmed_end_shape(s: Seq<char>) -> (k: int)
    ensures
        0 <= k <= s.len(),
        trimmed_end(s) == s.take(k),
        forall|i: int| k <= i < s.len() ==> is_space(#[trigger] s[i]),
        k > 0 ==> !is_space(s[k - 1]),
    decreases s.len(),
{
    if s.len() > 0 && is_space(s.last()) {
        let t = s.drop_last();
        let k = lemma_trimmed_end_shape(t);
        assert(t.take(k) =~= s.take(k));
        assert forall|i: int| k <= i < s.len() implies is_space(#[trigger] s[i]) by {
            if i < t.len() {
                assert(s[i] == t[i]);
            }
        }
        k
    } else {
        assert(s.take(s.len() as int) =~= s);
        s.len() as int
    }
}

/// Trimming at the end leaves what stands before the text alone, where
/// the text holds a character that is no white space.
pub proof fn lemma_trimmed_end_after(a: Seq<char>, b: Seq<char>)
    requires
        trimmed_end(b).len() > 0,
    ensures
        trimmed_end(a + b) == a + trimmed_end(b),
{
    let k = lemma_trimmed_end_shape(b);
    assert(b.take(k).len() == k);
    let s = a + b;
    assert forall|i: int| a.len() + k <= i < s.len() implies is_space(#[trigger] s[i]) by {
        assert(s[i] == b[i - a.len()]);
    }
    assert(s[a.len() + k - 1] == b[k - 1]);
    lemma_trimmed_end_is(s, a.len() + k);
    assert(s.take(a.len() + k) =~= a + b.take(k));
}

/// A text that begins with a word, and goes on with white space if at all,
/// has that word as its first field.
pub proof fn lemma_first_word_is(word: Seq<char>, rest: Seq<char>)
    requires
        word.len() > 0,
        spaceless(word),
        rest.len() > 0 ==> is_space(rest[0]),
    ensures
        first_word(word + rest) == word,
        after_first_word(word + rest) == rest,
{
    let s = word + rest;
    assert(s[0] == word[0]);
    assert(trimmed_start(s) == s);
    assert forall|i: int| 0 <= i < word.len() implies !is_space(#[trigger] s[i]) by {
        assert(s[i] == word[i]);
    }
    if rest.len() > 0 {
        assert(s[word.len() as int] == rest[0]);
    }
    lemma_word_len_is(s, word.len() as int);
    assert(s.take(word.len() as int) =~= word);
    assert(s.skip(word.len() as int) =~= rest);
}

/// White space in front of a text does not change what trimming at the
/// start leaves.
pub proof fn lemma_trimmed_start_after(blank: Seq<char>, s: Seq<char>)
    requires
        forall|i: int| 0 <= i < blank.len() ==> is_space(#[trigger] blank[i]),
    ensures
        trimmed_start(blank + s) == trimmed_start(s),
    decreases blank.len(),
{
    if blank.len() == 0 {
        assert(blank + s =~= s);
    } else {
        let t = blank + s;
        assert(t[0] == blank[0]);
        assert(is_space(blank[0]));
        let rest = blank.drop_first();
        assert(t.drop_first() =~= rest + s);
        assert forall|i: int| 0 <= i < rest.len() implies is_space(#[trigger] rest[i]) by {
            assert(rest[i] == blank[i + 1]);
        }
        lemma_trimmed_start_after(rest, s);
    }
}

/// A trimmed text that is not empty begins and ends with a character that
/// is no white space.
pub proof fn lemma_trimmed_ends(s: Seq<char>)
    ensures
        trimmed(s).len() > 0 ==> !is_space(trimmed(s)[0]) && !is_space(trimmed(s).last()),
{
    let k = lemma_trimmed_start_shape(s);
    let t = s.skip(k);
    let m = lemma_trimmed_end_shape(t);
    if m > 0 {
        assert(t.take(m)[0] == s[k]);
        assert(t.take(m).last() == t[m - 1]);
    }
}

/// Trimming brings no character into a text.
pub proof fn lemma_trimmed_lacks(s: Seq<char>, c: char)
    requires
        lacks(s, c),
    ensures
        lacks(trimmed_start(s), c),
        lacks(trimmed_end(s), c),
        lacks(trimmed(s), c),
{
    let k = lemma_trimmed_start_shape(s);
    let t = s.skip(k);
    assert forall|i: int| 0 <= i < t.len() implies t[i] != c by {
        assert(t[i] == s[i + k]);
    }
    let n = lemma_trimmed_end_shape(s);
    assert forall|i: int| 0 <= i < s.take(n).len() implies s.take(n)[i] != c by {
        assert(s.take(n)[i] == s[i]);
    }
    let m = lemma_trimmed_end_shape(t);
    assert forall|i: int| 0 <= i < t.take(m).len() implies t.take(m)[i] != c by {
        assert(t.take(m)[i] == t[i]);
    }
}

/// The first field of a text holds no white space and no character that the
/// text lacks, and neither does what follows it hold such a character. Where
/// there is no first field, nothing follows it.
pub proof fn lemma_first_word_lacks(s: Seq<char>, c: char)
    ensures
        spaceless(first_word(s)),
        lacks(s, c) ==> lacks(first_word(s), c) && lacks(after_first_word(s), c),
        first_word(s).len() == 0 ==> after_first_word(s).len() == 0,
{
    let k = lemma_trimmed_start_shape(s);
    let t = s.skip(k);
    lemma_word_len_bounds(t);
    let n = word_len(t);
    let w = t.take(n);
    let r = t.skip(n);
    assert forall|i: int| 0 <= i < w.len() implies !is_space(#[trigger] w[i]) by {
        assert(w[i] == t[i]);
    }
    if lacks(s, c) {
        assert forall|i: int| 0 <= i < w.len() implies w[i] != c by {
            assert(w[i] == s[i + k]);
        }
        assert forall|i: int| 0 <= i < r.len() implies r[i] != c by {
            assert(r[i] == s[i + n + k]);
        }
    }
    if n == 0 && t.len() > 0 {
        assert(is_space(t[0]));
        assert(t[0] == s[k]);
    }
}

/// Whether `c` is white space.
pub fn is_whitespace(c: char) -> (r: bool)
    ensures
        r == is_space(c),
{
    (c >= '\u{9}' && c <= '\u{d}') || c == ' ' || c == '\u{85}' || c == '\u{a0}' || c
        == '\u{1680}' || (c >= '\u{2000}' && c <= '\u{200a}') || c == '\u{2028}' || c
        == '\u{2029}' || c == '\u{202f}' || c == '\u{205f}' || c == '\u{3000}'
}

/// The characters of `s`, in order.
pub fn chars_of(s: &str) -> (v: Vec<char>)
    ensures
        v@ == s@,
{
    let mut v: Vec<char> = Vec::new();
    for c in it: s.chars()
        invariant
            it.seq() == s@,
            v@ == it.seq().take(it.index() as int),
    {
        v.push(c);
    }
    assert(v@ == s@);
    v
}

/// `String::push` of the standard library: the string afterwards is the
/// string before with `c` appended.
pub assume_specification[ String::push ](s: &mut String, c: char)
    ensures
        final(s)@ == old(s)@.push(c),
;

/// Whether `a` and `b` hold the same characters in the same order.
pub fn same_text(a: &str, b: &str) -> (r: bool)
    ensures
        r == (a@ == b@),
{
    let x = a.to_owned();
    let y = b.to_owned();
    x == y
}

/// Whether `s` is the text `t`.
pub fn is_text(s: &String, t: &str) -> (r: bool)
    ensures
        r == (s@ == t@),
{
    let wanted = t.to_owned();
    *s == wanted
}

/// Appends the characters of `chars` to `out`.
pub fn push_chars(out: &mut String, chars: &[char])
    ensures
        final(out)@ == old(out)@ + chars@,
{
    let mut i: usize = 0;
    while i < chars.len()
        invariant
            i <= chars.len(),
            out@ == old(out)@ + chars@.take(i as int),
        decreases chars.len() - i,
    {
        out.push(chars[i]);
        i = i + 1;
        assert(chars@.take(i as int) == chars@.take(i - 1).push(chars@[i - 1]));
    }
    assert(chars@.take(i as int) == chars@);
}

/// The string made of `chars`.
pub fn string_of(chars: &[char]) -> (s: String)
    ensures
        s@ == chars@,
{
    let mut s = String::new();
    push_chars(&mut s, chars);
    s
}

/// `s` without its leading white space.
pub fn trim_start<'a>(s: &'a [char]) -> (r: &'a [char])
    ensures
        r@ == trimmed_start(s@),
{
    let mut i: usize = 0;
    while i < s.len() && is_whitespace(s[i])
        invariant
            i <= s.len(),
            forall|j: int| 0 <= j < i ==> is_space(#[trigger] s@[j]),
        decreases s.len() - i,
    {
        i = i + 1;
    }
    proof {
        lemma_trimmed_start_is(s@, i as int);
    }
    slice_subrange(s, i, s.len())
}

/// `s` without its trailing white space.
pub fn trim_end<'a>(s: &'a [char]) -> (r: &'a [char])
    ensures
        r@ == trimmed_end(s@),
{
    let mut k: usize = s.len();
    while k > 0 && is_whitespace(s[k - 1])
        invariant
            k <= s.len(),
            forall|j: int| k <= j < s.len() ==> is_space(#[trigger] s@[j]),
        decreases k,
    {
        k = k - 1;
    }
    proof {
        lemma_trimmed_end_is(s@, k as int);
    }
    slice_subrange(s, 0, k)
}

/// `s` without white space at either end.
pub fn trim<'a>(s: &'a [char]) -> (r: &'a [char])
    ensures
        r@ == trimmed(s@),
{
    trim_end(trim_start(s))
}

/// The index of the first `c` in `s`, or the length of `s`.
pub fn find(s: &[char], c: char) -> (k: usize)
    ensures
        k == position(s@, c),
        k <= s@.len(),
{
    let mut i: usize = 0;
    while i < s.len() && s[i] != c
        invariant
            i <= s.len(),
            forall|j: int| 0 <= j < i ==> s@[j] != c,
        decreases s.len() - i,
    {
        i = i + 1;
    }
    proof {
        lemma_position_is(s@, c, i as int);
    }
    i
}

/// Splits `s` into its first field and what follows it.
pub fn split_word<'a>(s: &'a [char]) -> (r: (&'a [char], &'a [char]))
    ensures
        r.0@ == first_word(s@),
        r.1@ == after_first_word(s@),
{
    let t = trim_start(s);
    let mut i: usize = 0;
    while i < t.len() && !is_whitespace(t[i])
        invariant
            i <= t.len(),
            forall|j: int| 0 <= j < i ==> !is_space(#[trigger] t@[j]),
        decreases t.len() - i,
    {
        i = i + 1;
    }
    proof {
        lemma_word_len_is(t@, i as int);
    }
    (slice_subrange(t, 0, i), slice_subrange(t, i, t.len()))
}

/// The characters of an optional string.
pub open spec fn option_view(s: Option<String>) -> Option<Seq<char>> {
    match s {
        Some(t) => Some(t@),
        None => None,
    }
}

/// The views of a sequence of strings.
pub open spec fn strings_view(v: Seq<String>) -> Seq<Seq<char>> {
    Seq::new(v.len(), |i: int| v[i]@)
}

/// A copy of an optional string.
pub fn clone_option(s: &Option<String>) -> (r: Option<String>)
    ensures
        r == *s,
{
    match s {
        Some(t) => Some(t.clone()),
        None => None,
    }
}

/// Whether two optional strings hold the same characters.
pub fn option_eq(a: &Option<String>, b: &Option<String>) -> (r: bool)
    ensures
        r == (option_view(*a) == option_view(*b)),
{
    match a {
        Some(x) => match b {
            Some(y) => *x == *y,
            None => false,
        },
        None => b.is_none(),
    }
}

} // verus!
