//! Text primitives: character classes, trimming, searching, decimal numbers.
//!
//! A `&str` or `String` is modelled by its view, a `Seq<char>`.

use vstd::prelude::*;
use vstd::string::*;
use vstd::utf8::*;

verus! {

/// `String::push` appends one character to the end of the string.
pub assume_specification[ String::push ](s: &mut String, c: char)
    ensures
        final(s)@ == old(s)@.push(c),
;

/// What `str::to_lowercase` returns for a text: its lowercase form under the
/// Unicode mappings.
pub uninterp spec fn lowercase(text: Seq<char>) -> Seq<char>;

/// Calls `str::to_lowercase`. The result is named by [`lowercase`]; of an ASCII
/// text it is the text with `A` to `Z` replaced by `a` to `z`.
#[verifier::external_body]
pub(crate) fn to_lowercase(s: &str) -> (r: String)
    ensures
        r@ == lowercase(s@),
        is_ascii_chars(s@) ==> r@ == ascii_lowercase(s@),
{
    s.to_lowercase()
}

/// The lossy decoding of bytes that `String::from_utf8_lossy` returns.
pub uninterp spec fn utf8_lossy(bytes: Seq<u8>) -> Seq<char>;

/// Calls `String::from_utf8_lossy`. The result is named by [`utf8_lossy`]; of
/// valid UTF-8 it is the text that the bytes encode.
#[verifier::external_body]
pub(crate) fn from_utf8_lossy(bytes: &[u8]) -> (r: String)
    ensures
        r@ == utf8_lossy(bytes@),
        valid_utf8(bytes@) ==> r@ == decode_utf8(bytes@),
{
    String::from_utf8_lossy(bytes).into_owned()
}

/// Whether `c` has the Unicode `White_Space` property.
pub open spec fn is_white(c: char) -> bool {
    ||| '\u{9}' <= c <= '\u{d}'
    ||| c == ' '
    ||| c == '\u{85}'
    ||| c == '\u{a0}'
    ||| c == '\u{1680}'
    ||| '\u{2000}' <= c <= '\u{200a}'
    ||| c == '\u{2028}'
    ||| c == '\u{2029}'
    ||| c == '\u{202f}'
    ||| c == '\u{205f}'
    ||| c == '\u{3000}'
}

/// Whether `c` is one of `A-Z`, `a-z`.
pub open spec fn is_ascii_letter(c: char) -> bool {
    'A' <= c <= 'Z' || 'a' <= c <= 'z'
}

/// Whether `c` is one of `0-9`.
pub open spec fn is_digit(c: char) -> bool {
    '0' <= c <= '9'
}

/// `c` with `A` to `Z` replaced by `a` to `z`.
pub open spec fn ascii_lower(c: char) -> char {
    if 'A' <= c <= 'Z' {
        (c as u32 + 32) as char
    } else {
        c
    }
}

/// `s` with `A` to `Z` replaced by `a` to `z`.
pub open spec fn ascii_lowercase(s: Seq<char>) -> Seq<char> {
    s.map_values(|c: char| ascii_lower(c))
}

/// Tests for the `White_Space` property.
pub fn white(c: char) -> (r: bool)
    ensures
        r == is_white(c),
{
    ('\u{9}' <= c && c <= '\u{d}') || c == ' ' || c == '\u{85}' || c == '\u{a0}' || c == '\u{1680}'
        || ('\u{2000}' <= c && c <= '\u{200a}') || c == '\u{2028}' || c == '\u{2029}'
        || c == '\u{202f}' || c == '\u{205f}' || c == '\u{3000}'
}

/// Tests for an ASCII letter.
pub fn ascii_letter(c: char) -> (r: bool)
    ensures
        r == is_ascii_letter(c),
{
    ('A' <= c && c <= 'Z') || ('a' <= c && c <= 'z')
}

/// Tests for an ASCII digit.
pub fn digit(c: char) -> (r: bool)
    ensures
        r == is_digit(c),
{
    '0' <= c && c <= '9'
}

/// The ASCII lowercase form of one character.
pub fn to_ascii_lower(c: char) -> (r: char)
    ensures
        r == ascii_lower(c),
{
    if 'A' <= c && c <= 'Z' {
        ((c as u8) + 32) as char
    } else {
        c
    }
}

/// A class of characters that a scan can run over.
pub enum Class {
    /// Unicode white space.
    White,
    /// Everything but Unicode white space.
    NotWhite,
    /// One character.
    Only(char),
    /// Every character but one.
    Except(char),
}

impl Class {
    /// Whether `c` belongs to the class.
    pub open spec fn has(self, c: char) -> bool {
        match self {
            Class::White => is_white(c),
            Class::NotWhite => !is_white(c),
            Class::Only(d) => c == d,
            Class::Except(d) => c != d,
        }
    }

    fn holds(&self, c: char) -> (r: bool)
        ensures
            r == self.has(c),
    {
        match self {
            Class::White => white(c),
            Class::NotWhite => !white(c),
            Class::Only(d) => c == *d,
            Class::Except(d) => c != *d,
        }
    }
}

/// How many characters at the start of `s` belong to `k`, up to the first that
/// does not.
pub open spec fn span(s: Seq<char>, k: Class) -> nat
    decreases s.len(),
{
    if s.len() > 0 && k.has(s[0]) {
        1 + span(s.drop_first(), k)
    } else {
        0
    }
}

/// How many characters at the end of `s` belong to `k`, down to the last that
/// does not.
pub open spec fn tail_span(s: Seq<char>, k: Class) -> nat
    decreases s.len(),
{
    if s.len() > 0 && k.has(s.last()) {
        1 + tail_span(s.drop_last(), k)
    } else {
        0
    }
}

/// A scan that stopped after `n` characters has found the span.
pub proof fn lemma_span_is(s: Seq<char>, k: Class, n: nat)
    requires
        n <= s.len(),
        forall|i: int| 0 <= i < n ==> k.has(#[trigger] s[i]),
        n < s.len() ==> !k.has(s[n as int]),
    ensures
        span(s, k) == n,
    decreases s.len(),
{
    if n > 0 {
        assert(k.has(s[0]));
        assert forall|i: int| 0 <= i < n - 1 implies k.has(#[trigger] s.drop_first()[i]) by {
            assert(k.has(s[i + 1]));
        }
        lemma_span_is(s.drop_first(), k, (n - 1) as nat);
    }
}

/// The span holds members of the class only, and stops at the first other.
pub proof fn lemma_span(s: Seq<char>, k: Class)
    ensures
        span(s, k) <= s.len(),
        forall|i: int| 0 <= i < span(s, k) ==> k.has(#[trigger] s[i]),
        span(s, k) < s.len() ==> !k.has(s[span(s, k) as int]),
    decreases s.len(),
{
    if s.len() > 0 && k.has(s[0]) {
        lemma_span(s.drop_first(), k);
        assert forall|i: int| 0 <= i < span(s, k) implies k.has(#[trigger] s[i]) by {
            if i > 0 {
                assert(s[i] == s.drop_first()[i - 1]);
            }
        }
    }
}

/// A backward scan that stopped after `n` characters has found the tail span.
pub proof fn lemma_tail_span_is(s: Seq<char>, k: Class, n: nat)
    requires
        n <= s.len(),
        forall|i: int| s.len() - n <= i < s.len() ==> k.has(#[trigger] s[i]),
        n < s.len() ==> !k.has(s[s.len() - n - 1]),
    ensures
        tail_span(s, k) == n,
    decreases s.len(),
{
    if n > 0 {
        assert(k.has(s[s.len() - 1]));
        let t = s.drop_last();
        assert forall|i: int| t.len() - (n - 1) <= i < t.len() implies k.has(#[trigger] t[i]) by {
            assert(k.has(s[i]));
        }
        lemma_tail_span_is(t, k, (n - 1) as nat);
    }
}

/// The tail span holds members of the class only, and stops at the last other.
pub proof fn lemma_tail_span(s: Seq<char>, k: Class)
    ensures
        tail_span(s, k) <= s.len(),
        forall|i: int| s.len() - tail_span(s, k) <= i < s.len() ==> k.has(#[trigger] s[i]),
        tail_span(s, k) < s.len() ==> !k.has(s[s.len() - tail_span(s, k) - 1]),
    decreases s.len(),
{
    if s.len() > 0 && k.has(s.last()) {
        let t = s.drop_last();
        lemma_tail_span(t, k);
        assert forall|i: int| s.len() - tail_span(s, k) <= i < s.len() implies k.has(
            #[trigger] s[i],
        ) by {
            if i < s.len() - 1 {
                assert(s[i] == t[i]);
            }
        }
        if tail_span(s, k) < s.len() {
            assert(s[s.len() - tail_span(s, k) - 1] == t[t.len() - tail_span(t, k) - 1]);
        }
    }
}

/// `s` without the members of `k` at its start.
pub open spec fn trim_start(s: Seq<char>, k: Class) -> Seq<char> {
    s.skip(span(s, k) as int)
}

/// `s` without the members of `k` at its end.
pub open spec fn trim_end(s: Seq<char>, k: Class) -> Seq<char> {
    s.take(s.len() - tail_span(s, k))
}

/// `s` without the members of `k` at either end.
pub open spec fn trim_both(s: Seq<char>, k: Class) -> Seq<char> {
    trim_end(trim_start(s, k), k)
}

/// `s` without white space at either end.
pub open spec fn trim(s: Seq<char>) -> Seq<char> {
    trim_both(s, Class::White)
}

/// A trimmed text neither starts nor ends with white space.
pub proof fn lemma_trim_ends(s: Seq<char>)
    ensures
        trim(s).len() > 0 ==> !is_white(trim(s)[0]) && !is_white(trim(s).last()),
{
    let k = Class::White;
    let t = trim_start(s, k);
    lemma_span(s, k);
    lemma_tail_span(t, k);
    if trim(s).len() > 0 {
        assert(t[0] == s[span(s, k) as int]);
    }
}

/// A text that neither starts nor ends with white space is its own trimmed form.
pub proof fn lemma_trim_of_trimmed(s: Seq<char>)
    requires
        s.len() > 0 ==> !is_white(s[0]) && !is_white(s.last()),
    ensures
        trim(s) == s,
{
    lemma_span_is(s, Class::White, 0);
    assert(trim_start(s, Class::White) =~= s);
    lemma_tail_span_is(s, Class::White, 0);
    assert(trim(s) =~= s);
}

/// Where `pat` first occurs in `s`.
pub open spec fn find(s: Seq<char>, pat: Seq<char>) -> Option<nat>
    decreases s.len(),
{
    if pat.is_prefix_of(s) {
        Some(0)
    } else if s.len() == 0 {
        None
    } else {
        match find(s.drop_first(), pat) {
            Some(n) => Some(n + 1),
            None => None,
        }
    }
}

/// The decimal digits of `n`, without leading zeros.
pub open spec fn decimal(n: nat) -> Seq<char>
    decreases n,
{
    if n < 10 {
        seq![digit_char(n)]
    } else {
        decimal(n / 10).push(digit_char(n % 10))
    }
}

/// The character for a digit below ten.
pub open spec fn digit_char(d: nat) -> char {
    ('0' as u32 + d as u32) as char
}

/// A wording with its gaps filled: the pieces, with what stands in each gap between
/// two of them.
pub open spec fn filled(pieces: Seq<Seq<char>>, gaps: Seq<Seq<char>>) -> Seq<char>
    decreases gaps.len(),
{
    if gaps.len() == 0 {
        pieces[0]
    } else {
        filled(pieces, gaps.drop_last()) + gaps.last() + pieces[gaps.len() as int]
    }
}

/// A filled wording holds what stands in each of its gaps.
pub proof fn lemma_filled_holds(pieces: Seq<Seq<char>>, gaps: Seq<Seq<char>>, i: int)
    requires
        0 <= i < gaps.len(),
    ensures
        find(filled(pieces, gaps), gaps[i]) is Some,
    decreases gaps.len(),
{
    let all = filled(pieces, gaps);
    let before = filled(pieces, gaps.drop_last());
    let last = gaps.len() - 1;
    if i == last {
        let n = before.len() as int;
        assert(all.subrange(n, n + gaps[i].len()) =~= gaps[i]);
        lemma_found(all, gaps[i], before.len());
    } else {
        lemma_filled_holds(pieces, gaps.drop_last(), i);
        lemma_find(before, gaps[i]);
        let n = find(before, gaps[i])->0;
        assert(before.skip(n as int).subrange(0, gaps[i].len() as int) =~= all.subrange(
            n as int,
            (n + gaps[i].len()) as int,
        ));
        lemma_found(all, gaps[i], n);
    }
}

/// What occurs somewhere is found.
pub proof fn lemma_found(s: Seq<char>, pat: Seq<char>, n: nat)
    requires
        n + pat.len() <= s.len(),
        s.subrange(n as int, (n + pat.len()) as int) == pat,
    ensures
        find(s, pat) is Some,
{
    if find(s, pat) is None {
        lemma_not_found(s, pat);
        assert(s.skip(n as int).subrange(0, pat.len() as int) =~= pat);
        assert(!pat.is_prefix_of(s.skip(n as int)));
    }
}

/// The characters of a text, in order.
pub fn chars_of(s: &str) -> (v: Vec<char>)
    ensures
        v@ == s@,
{
    let mut v: Vec<char> = Vec::new();
    for c in it: s.chars()
        invariant
            it.seq() == s@,
            v@ == it.seq().take(it.index() as int),
    {
        v.push(c);
        assert(it.seq().take(it.index() as int + 1) =~= it.seq().take(it.index() as int).push(c));
    }
    assert(s@.take(s@.len() as int) =~= s@);
    v
}

/// `s` with `A` to `Z` replaced by `a` to `z`.
pub fn ascii_lowered(s: &str) -> (r: String)
    ensures
        r@ == ascii_lowercase(s@),
{
    let mut r = String::new();
    for c in it: s.chars()
        invariant
            it.seq() == s@,
            r@ == ascii_lowercase(it.seq().take(it.index() as int)),
    {
        let ghost before = it.seq().take(it.index() as int);
        r.push(to_ascii_lower(c));
        assert(it.seq().take(it.index() as int + 1) =~= before.push(c));
        assert(ascii_lowercase(before.push(c)) =~= ascii_lowercase(before).push(ascii_lower(c)));
    }
    assert(s@.take(s@.len() as int) =~= s@);
    r
}

/// Lowering twice is lowering once, and keeps ASCII texts ASCII.
pub proof fn lemma_ascii_lowercase(s: Seq<char>)
    ensures
        ascii_lowercase(ascii_lowercase(s)) == ascii_lowercase(s),
        is_ascii_chars(s) ==> is_ascii_chars(ascii_lowercase(s)),
{
    assert(ascii_lowercase(ascii_lowercase(s)) =~= ascii_lowercase(s));
}

/// Whether two texts are the same.
pub fn same(a: &str, b: &str) -> (r: bool)
    ensures
        r == (a@ == b@),
{
    a.to_owned() == b.to_owned()
}

/// Counts the members of `k` at the start of `v`.
fn count_span(v: &Vec<char>, k: &Class) -> (n: usize)
    ensures
        n == span(v@, *k),
        n <= v@.len(),
{
    let mut n: usize = 0;
    while n < v.len() && k.holds(v[n])
        invariant
            n <= v@.len(),
            forall|i: int| 0 <= i < n ==> k.has(#[trigger] v@[i]),
        decreases v@.len() - n,
    {
        n += 1;
    }
    proof {
        lemma_span_is(v@, *k, n as nat);
    }
    n
}

/// `s` without the members of `k` at its start.
pub fn strip_start<'a>(s: &'a str, k: Class) -> (r: &'a str)
    ensures
        r@ == trim_start(s@, k),
{
    let v = chars_of(s);
    let n = count_span(&v, &k);
    s.substring_char(n, v.len())
}

/// `s` without the members of `k` at its end.
pub fn strip_end<'a>(s: &'a str, k: Class) -> (r: &'a str)
    ensures
        r@ == trim_end(s@, k),
{
    let v = chars_of(s);
    let mut n: usize = v.len();
    while n > 0 && k.holds(v[n - 1])
        invariant
            n <= v@.len(),
            forall|i: int| n <= i < v@.len() ==> k.has(#[trigger] v@[i]),
        decreases n,
    {
        n -= 1;
    }
    proof {
        lemma_tail_span_is(v@, k, (v@.len() - n) as nat);
    }
    s.substring_char(0, n)
}

/// `s` without white space at either end.
pub fn trimmed<'a>(s: &'a str) -> (r: &'a str)
    ensures
        r@ == trim(s@),
{
    strip_end(strip_start(s, Class::White), Class::White)
}

/// `s` without the character `c` at either end.
pub fn strip_char<'a>(s: &'a str, c: char) -> (r: &'a str)
    ensures
        r@ == trim_both(s@, Class::Only(c)),
{
    strip_end(strip_start(s, Class::Only(c)), Class::Only(c))
}

/// The part of `s` before its first character outside `k`, and the part after
/// that character; the whole of `s` and nothing if there is none.
pub fn cut<'a>(s: &'a str, k: Class) -> (r: (&'a str, &'a str))
    ensures
        r.0@ == s@.take(span(s@, k) as int),
        r.1@ == after(s@, k),
{
    let v = chars_of(s);
    let n = count_span(&v, &k);
    if n < v.len() {
        (s.substring_char(0, n), s.substring_char(n + 1, v.len()))
    } else {
        (s.substring_char(0, n), s.substring_char(n, n))
    }
}

/// What follows the first character of `s` outside `k`, empty if there is none.
pub open spec fn after(s: Seq<char>, k: Class) -> Seq<char> {
    if span(s, k) < s.len() {
        s.skip(span(s, k) as int + 1)
    } else {
        Seq::empty()
    }
}

/// Whether `s` starts with `prefix`.
pub fn starts_with(s: &str, prefix: &str) -> (r: bool)
    ensures
        r == prefix@.is_prefix_of(s@),
{
    let v = chars_of(s);
    let p = chars_of(prefix);
    matches_at(&v, &p, 0)
}

/// What follows `prefix` in `s`, if `s` starts with it.
pub fn strip_prefix<'a>(s: &'a str, prefix: &str) -> (r: Option<&'a str>)
    ensures
        match r {
            Some(rest) => prefix@.is_prefix_of(s@) && rest@ == s@.skip(prefix@.len() as int),
            None => !prefix@.is_prefix_of(s@),
        },
{
    let v = chars_of(s);
    let p = chars_of(prefix);
    if matches_at(&v, &p, 0) {
        Some(s.substring_char(p.len(), v.len()))
    } else {
        None
    }
}

/// Whether `p` occurs in `v` at position `at`.
fn matches_at(v: &Vec<char>, p: &Vec<char>, at: usize) -> (r: bool)
    requires
        at <= v@.len(),
    ensures
        r == p@.is_prefix_of(v@.skip(at as int)),
        at == 0 ==> r == p@.is_prefix_of(v@),
{
    assert(v@.skip(0) =~= v@);
    let room: usize = v.len() - at;
    if room < p.len() {
        return false;
    }
    let mut i: usize = 0;
    while i < p.len()
        invariant
            i <= p@.len() <= room,
            at + room == v@.len() <= usize::MAX,
            forall|j: int| 0 <= j < i ==> p@[j] == #[trigger] v@.skip(at as int)[j],
        decreases p@.len() - i,
    {
        if p[i] != v[at + i] {
            assert(p@[i as int] != v@.skip(at as int)[i as int]);
            assert(v@.skip(at as int).subrange(0, p@.len() as int)[i as int] == v@.skip(at as int)[i as int]);
            return false;
        }
        i += 1;
    }
    assert(p@ =~= v@.skip(at as int).subrange(0, p@.len() as int));
    true
}

/// Where `pat` first occurs in `s`, counted in characters.
pub fn position(s: &str, pat: &str) -> (r: Option<usize>)
    ensures
        match r {
            Some(n) => find(s@, pat@) == Some(n as nat) && n + pat@.len() <= s@.len(),
            None => find(s@, pat@) is None,
        },
{
    let v = chars_of(s);
    let p = chars_of(pat);
    let mut n: usize = 0;
    assert(v@.skip(0) =~= v@);
    loop
        invariant
            v@ == s@,
            p@ == pat@,
            n <= v@.len(),
            match find(v@.skip(n as int), p@) {
                Some(m) => find(v@, p@) == Some(m + n as nat),
                None => find(v@, p@) is None,
            },
        decreases v@.len() - n,
    {
        if matches_at(&v, &p, n) {
            return Some(n);
        }
        if n == v.len() {
            return None;
        }
        assert(v@.skip(n as int).drop_first() =~= v@.skip(n as int + 1));
        n += 1;
    }
}

/// Where a match was found, the pattern lies wholly inside the text.
pub proof fn lemma_find(s: Seq<char>, pat: Seq<char>)
    ensures
        find(s, pat) matches Some(n) ==> n + pat.len() <= s.len() && pat.is_prefix_of(
            s.skip(n as int),
        ),
    decreases s.len(),
{
    assert(s.skip(0) =~= s);
    if !pat.is_prefix_of(s) && s.len() > 0 {
        lemma_find(s.drop_first(), pat);
        if let Some(n) = find(s.drop_first(), pat) {
            assert(s.drop_first().skip(n as int) =~= s.skip(n as int + 1));
        }
    }
}

/// The first place where the pattern matches is where it is found.
pub proof fn lemma_find_is(s: Seq<char>, pat: Seq<char>, n: nat)
    requires
        n <= s.len(),
        pat.is_prefix_of(s.skip(n as int)),
        forall|m: int| 0 <= m < n ==> !pat.is_prefix_of(#[trigger] s.skip(m)),
    ensures
        find(s, pat) == Some(n),
    decreases s.len(),
{
    assert(s.skip(0) =~= s);
    if n > 0 {
        let t = s.drop_first();
        assert(t.skip(n - 1) =~= s.skip(n as int));
        assert forall|m: int| 0 <= m < n - 1 implies !pat.is_prefix_of(#[trigger] t.skip(m)) by {
            assert(t.skip(m) =~= s.skip(m + 1));
        }
        lemma_find_is(t, pat, (n - 1) as nat);
    }
}

/// What is not found matches nowhere.
pub proof fn lemma_not_found(s: Seq<char>, pat: Seq<char>)
    requires
        find(s, pat) is None,
    ensures
        forall|m: int| 0 <= m <= s.len() ==> !pat.is_prefix_of(#[trigger] s.skip(m)),
    decreases s.len(),
{
    assert(s.skip(0) =~= s);
    if s.len() > 0 {
        lemma_not_found(s.drop_first(), pat);
        assert forall|m: int| 0 <= m <= s.len() implies !pat.is_prefix_of(#[trigger] s.skip(m)) by {
            if m > 0 {
                assert(s.skip(m) =~= s.drop_first().skip(m - 1));
            }
        }
    }
}

/// The decimal form of a number.
pub fn decimal_text(n: u128) -> (r: String)
    ensures
        r@ == decimal(n as nat),
    decreases n,
{
    let mut r = if n < 10 {
        String::new()
    } else {
        decimal_text(n / 10)
    };
    let d: u8 = (n % 10) as u8;
    r.push((48u8 + d) as char);
    proof {
        assert(digit_char((n % 10) as nat) == (48u8 + d) as char);
        if n < 10 {
            assert(r@ =~= seq![digit_char(n as nat)]);
        }
    }
    r
}

/// The white space characters, by their code points.
pub proof fn law_white_space(c: char)
    ensures
        is_white(c) <==> seq![
            0x9u32,
            0xa,
            0xb,
            0xc,
            0xd,
            0x20,
            0x85,
            0xa0,
            0x1680,
            0x2000,
            0x2001,
            0x2002,
            0x2003,
            0x2004,
            0x2005,
            0x2006,
            0x2007,
            0x2008,
            0x2009,
            0x200a,
            0x2028,
            0x2029,
            0x202f,
            0x205f,
            0x3000,
        ].contains(c as u32),
{
    let all = seq![
        0x9u32,
        0xa,
        0xb,
        0xc,
        0xd,
        0x20,
        0x85,
        0xa0,
        0x1680,
        0x2000,
        0x2001,
        0x2002,
        0x2003,
        0x2004,
        0x2005,
        0x2006,
        0x2007,
        0x2008,
        0x2009,
        0x200a,
        0x2028,
        0x2029,
        0x202f,
        0x205f,
        0x3000,
    ];
    let n = c as u32;
    assert(all[0] == 0x9 && all[1] == 0xa && all[2] == 0xb && all[3] == 0xc && all[4] == 0xd);
    assert(all[5] == 0x20 && all[6] == 0x85 && all[7] == 0xa0 && all[8] == 0x1680);
    assert(all[9] == 0x2000 && all[10] == 0x2001 && all[11] == 0x2002 && all[12] == 0x2003);
    assert(all[13] == 0x2004 && all[14] == 0x2005 && all[15] == 0x2006 && all[16] == 0x2007);
    assert(all[17] == 0x2008 && all[18] == 0x2009 && all[19] == 0x200a && all[20] == 0x2028);
    assert(all[21] == 0x2029 && all[22] == 0x202f && all[23] == 0x205f && all[24] == 0x3000);
}

/// Lowering changes the capital letters of ASCII and nothing else, each into the letter
/// that stands for it 32 places on, and leaves none.
pub proof fn law_ascii_lower(c: char)
    ensures
        'A' <= c <= 'Z' ==> ascii_lower(c) as u32 == c as u32 + 32 && 'a' <= ascii_lower(c) <= 'z',
        !('A' <= c <= 'Z') ==> ascii_lower(c) == c,
{
}

/// Trimming takes away members of the class at the ends, all of them, and nothing else.
pub proof fn law_trimming(s: Seq<char>, k: Class)
    ensures
        ({
            let n = s.len() - trim_start(s, k).len();
            &&& 0 <= n && trim_start(s, k) == s.skip(n)
            &&& forall|i: int| 0 <= i < n ==> k.has(#[trigger] s[i])
            &&& trim_start(s, k).len() > 0 ==> !k.has(trim_start(s, k)[0])
        }),
        ({
            let n = trim_end(s, k).len() as int;
            &&& n <= s.len() && trim_end(s, k) == s.take(n)
            &&& forall|i: int| n <= i < s.len() ==> k.has(#[trigger] s[i])
            &&& trim_end(s, k).len() > 0 ==> !k.has(trim_end(s, k).last())
        }),
        trim_both(s, k) == trim_end(trim_start(s, k), k),
        trim(s) == trim_both(s, Class::White),
{
    lemma_span(s, k);
    lemma_tail_span(s, k);
    assert(s.skip(s.len() - trim_start(s, k).len()) =~= trim_start(s, k));
    assert(s.take(trim_end(s, k).len() as int) =~= trim_end(s, k));
}

/// A text without white space at its ends is what trimming leaves of it, whatever white
/// space is put around it.
pub proof fn law_trim_undoes_padding(before: Seq<char>, s: Seq<char>, behind: Seq<char>)
    requires
        forall|i: int| 0 <= i < before.len() ==> is_white(#[trigger] before[i]),
        forall|i: int| 0 <= i < behind.len() ==> is_white(#[trigger] behind[i]),
        s.len() > 0 ==> !is_white(s[0]) && !is_white(s.last()),
    ensures
        trim(before + s + behind) == s,
{
    let k = Class::White;
    let all = before + s + behind;
    if s.len() == 0 {
        assert forall|i: int| 0 <= i < all.len() implies k.has(#[trigger] all[i]) by {}
        lemma_span_is(all, k, all.len());
        assert(trim_start(all, k) =~= Seq::empty());
        assert(trim(all) =~= s);
    } else {
        assert forall|i: int| 0 <= i < before.len() implies k.has(#[trigger] all[i]) by {}
        assert(all[before.len() as int] == s[0]);
        lemma_span_is(all, k, before.len());
        let t = s + behind;
        assert(trim_start(all, k) =~= t);
        assert forall|i: int| s.len() <= i < t.len() implies k.has(#[trigger] t[i]) by {}
        assert(t[t.len() - behind.len() - 1] == s.last());
        lemma_tail_span_is(t, k, behind.len());
        assert(trim(all) =~= s);
    }
}

/// What trimming takes away at either end.
pub proof fn lemma_trim_parts(s: Seq<char>) -> (parts: (Seq<char>, Seq<char>))
    ensures
        s == parts.0 + trim(s) + parts.1,
        forall|i: int| 0 <= i < parts.0.len() ==> is_white(#[trigger] parts.0[i]),
        forall|i: int| 0 <= i < parts.1.len() ==> is_white(#[trigger] parts.1[i]),
        trim(s).len() == 0 ==> s == parts.0 + parts.1,
{
    let k = Class::White;
    let t = trim_start(s, k);
    lemma_span(s, k);
    lemma_tail_span(t, k);
    let before = s.take(span(s, k) as int);
    let behind = t.skip(t.len() - tail_span(t, k));
    assert(s =~= before + trim(s) + behind);
    assert forall|i: int| 0 <= i < before.len() implies is_white(#[trigger] before[i]) by {
        assert(k.has(s[i]));
    }
    assert forall|i: int| 0 <= i < behind.len() implies is_white(#[trigger] behind[i]) by {
        assert(k.has(t[t.len() - tail_span(t, k) + i]));
    }
    if trim(s).len() == 0 {
        assert(s =~= before + behind);
    }
    (before, behind)
}

/// A cut takes a text apart at its first character outside the class, and loses that
/// character only.
pub proof fn law_cutting(s: Seq<char>, k: Class)
    ensures
        ({
            let n = span(s, k) as int;
            &&& n <= s.len()
            &&& forall|i: int| 0 <= i < n ==> k.has(#[trigger] s[i])
            &&& n < s.len() ==> !k.has(s[n]) && s == s.take(n) + seq![s[n]] + after(s, k)
            &&& n == s.len() ==> after(s, k).len() == 0
        }),
{
    lemma_span(s, k);
    let n = span(s, k) as int;
    if n < s.len() {
        assert(s =~= s.take(n) + seq![s[n]] + after(s, k));
    }
}

} // verus!
