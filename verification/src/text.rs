//! Small string helpers with exact contracts.

use vstd::prelude::*;

verus! {

/// `String::push` appends one character at the end of the string.
pub assume_specification[ String::push ](s: &mut String, ch: char)
    ensures
        final(s)@ == old(s)@.push(ch),
;

/// Whether two string slices hold the same characters.
pub fn str_eq(a: &str, b: &str) -> (r: bool)
    ensures
        r == (a@ == b@),
{
    let x = a.to_owned();
    let y = b.to_owned();
    x == y
}

/// Whether `s` holds the character `c`.
pub open spec fn has_char(s: Seq<char>, c: char) -> bool {
    exists|i: int| 0 <= i < s.len() && s[i] == c
}

/// Whether `s` starts with `prefix`.
pub open spec fn has_prefix(s: Seq<char>, prefix: Seq<char>) -> bool {
    prefix.len() <= s.len() && s.take(prefix.len() as int) == prefix
}

/// Whether `needle` occurs somewhere in `hay`.
pub open spec fn has_infix(hay: Seq<char>, needle: Seq<char>) -> bool {
    exists|i: int| 0 <= i <= hay.len() - needle.len() && #[trigger] hay.subrange(i, i + needle.len()) == needle
}

/// A fresh string with the characters of `s`.
pub fn owned(s: &str) -> (r: String)
    ensures
        r@ == s@,
{
    s.to_owned()
}

/// The concatenation of two string slices.
pub fn concat(a: &str, b: &str) -> (r: String)
    ensures
        r@ == a@ + b@,
{
    let mut r = a.to_owned();
    let n = b.unicode_len();
    let mut i: usize = 0;
    while i < n
        invariant
            n == b@.len(),
            i <= n,
            r@ == a@ + b@.take(i as int),
        decreases n - i,
    {
        let c = b.get_char(i);
        r.push(c);
        assert(b@.take(i as int + 1) == b@.take(i as int).push(c));
        i = i + 1;
    }
    assert(b@.take(n as int) == b@);
    r
}

/// Whether `s` holds the character `c`.
pub fn contains_char(s: &str, c: char) -> (r: bool)
    ensures
        r == has_char(s@, c),
{
    let n = s.unicode_len();
    let mut i: usize = 0;
    while i < n
        invariant
            n == s@.len(),
            i <= n,
            forall|j: int| 0 <= j < i ==> s@[j] != c,
        decreases n - i,
    {
        if s.get_char(i) == c {
            return true;
        }
        i = i + 1;
    }
    false
}

/// Whether `s` starts with `prefix`.
pub fn starts_with(s: &str, prefix: &str) -> (r: bool)
    ensures
        r == has_prefix(s@, prefix@),
{
    let n = s.unicode_len();
    let m = prefix.unicode_len();
    if m > n {
        return false;
    }
    let mut i: usize = 0;
    while i < m
        invariant
            n == s@.len(),
            m == prefix@.len(),
            m <= n,
            i <= m,
            forall|j: int| 0 <= j < i ==> s@[j] == prefix@[j],
        decreases m - i,
    {
        if s.get_char(i) != prefix.get_char(i) {
            assert(s@.take(m as int)[i as int] != prefix@[i as int]);
            return false;
        }
        i = i + 1;
    }
    assert(s@.take(m as int) =~= prefix@);
    true
}


/// A fresh vector with the bytes of `s`.
pub fn copy_bytes(s: &[u8]) -> (r: Vec<u8>)
    ensures
        r@ == s@,
{
    let mut v: Vec<u8> = Vec::new();
    let mut i: usize = 0;
    while i < s.len()
        invariant
            i <= s@.len(),
            v@ == s@.take(i as int),
        decreases s@.len() - i,
    {
        v.push(s[i]);
        assert(s@.take(i as int + 1) =~= s@.take(i as int).push(s@[i as int]));
        i = i + 1;
    }
    assert(s@.take(s@.len() as int) =~= s@);
    v
}

/// The character of a decimal digit.
pub open spec fn digit_char(d: nat) -> char {
    if d == 0 { '0' } else if d == 1 { '1' } else if d == 2 { '2' } else if d == 3 { '3' }
    else if d == 4 { '4' } else if d == 5 { '5' } else if d == 6 { '6' } else if d == 7 { '7' }
    else if d == 8 { '8' } else { '9' }
}

/// The decimal notation of `n`, without leading zeros.
pub open spec fn decimal_text(n: nat) -> Seq<char>
    decreases n,
{
    if n < 10 {
        seq![digit_char(n)]
    } else {
        decimal_text(n / 10).push(digit_char(n % 10))
    }
}

/// The decimal notation of `n` with leading zeros up to `width` characters.
pub open spec fn padded_text(n: nat, width: nat) -> Seq<char> {
    let t = decimal_text(n);
    if t.len() < width {
        Seq::new((width - t.len()) as nat, |i: int| '0') + t
    } else {
        t
    }
}

fn digit(d: u64) -> (c: char)
    requires
        d < 10,
    ensures
        c == digit_char(d as nat),
{
    match d {
        0 => '0',
        1 => '1',
        2 => '2',
        3 => '3',
        4 => '4',
        5 => '5',
        6 => '6',
        7 => '7',
        8 => '8',
        _ => '9',
    }
}

/// The decimal notation of `n`.
pub fn decimal(n: u64) -> (r: String)
    ensures
        r@ == decimal_text(n as nat),
    decreases n,
{
    if n < 10 {
        let mut s = String::new();
        s.push(digit(n));
        assert(s@ =~= seq![digit_char(n as nat)]);
        s
    } else {
        let mut s = decimal(n / 10);
        s.push(digit(n % 10));
        s
    }
}

/// The decimal notation of `n`, padded with leading zeros to `width` characters.
pub fn padded(n: u64, width: usize) -> (r: String)
    ensures
        r@ == padded_text(n as nat, width as nat),
{
    let t = decimal(n);
    let len = t.as_str().unicode_len();
    if len < width {
        let mut s = String::new();
        let mut i: usize = 0;
        while i < width - len
            invariant
                i <= width - len,
                len < width,
                s@ == Seq::new(i as nat, |j: int| '0'),
            decreases width - len - i,
        {
            s.push('0');
            assert(s@ =~= Seq::new((i + 1) as nat, |j: int| '0'));
            i = i + 1;
        }
        concat(s.as_str(), t.as_str())
    } else {
        t
    }
}

/// The characters that `char::is_whitespace` accepts: the Unicode `White_Space` property.
pub open spec fn is_white(c: char) -> bool {
    ||| ('\u{9}' <= c && c <= '\u{d}')
    ||| c == ' '
    ||| c == '\u{85}'
    ||| c == '\u{a0}'
    ||| c == '\u{1680}'
    ||| ('\u{2000}' <= c && c <= '\u{200a}')
    ||| c == '\u{2028}'
    ||| c == '\u{2029}'
    ||| c == '\u{202f}'
    ||| c == '\u{205f}'
    ||| c == '\u{3000}'
}

fn white(c: char) -> (r: bool)
    ensures
        r == is_white(c),
{
    ('\u{9}' <= c && c <= '\u{d}') || c == ' ' || c == '\u{85}' || c == '\u{a0}' || c == '\u{1680}'
        || ('\u{2000}' <= c && c <= '\u{200a}') || c == '\u{2028}' || c == '\u{2029}' || c == '\u{202f}'
        || c == '\u{205f}' || c == '\u{3000}'
}

/// `s` without its leading and trailing white space: the characters from `start` to `end`.
pub open spec fn trimmed_bounds(s: Seq<char>, start: int, end: int) -> bool {
    &&& 0 <= start <= end <= s.len()
    &&& forall|i: int| 0 <= i < start ==> is_white(#[trigger] s[i])
    &&& forall|i: int| end <= i < s.len() ==> is_white(#[trigger] s[i])
    &&& start < end ==> !is_white(s[start]) && !is_white(s[end - 1])
}

/// `s` without leading and trailing white space, as `str::trim` gives it.
pub open spec fn trim_spec(s: Seq<char>) -> Seq<char> {
    let b = choose|b: (int, int)| trimmed_bounds(s, b.0, b.1);
    s.subrange(b.0, b.1)
}

/// Trimmed bounds are unique when the trimmed text is not empty, and both
/// describe the empty text otherwise.
proof fn lemma_trim_unique(s: Seq<char>, a: int, b: int, c: int, d: int)
    requires
        trimmed_bounds(s, a, b),
        trimmed_bounds(s, c, d),
    ensures
        s.subrange(a, b) == s.subrange(c, d),
{
    if a < b && c < d {
        if a < c { assert(is_white(s[a])); }
        if c < a { assert(is_white(s[c])); }
        if b < d { assert(is_white(s[d - 1])); }
        if d < b { assert(is_white(s[b - 1])); }
    } else if a < b {
        // c == d: every character is white, so a < b is impossible
        if c <= a { assert(is_white(s[a])); } else { assert(is_white(s[a])); }
    } else if c < d {
        if a <= c { assert(is_white(s[c])); } else { assert(is_white(s[c])); }
    }
    assert(s.subrange(a, b) =~= s.subrange(c, d));
}

/// `s` without leading and trailing white space.
pub fn trim(s: &str) -> (r: String)
    ensures
        r@ == trim_spec(s@),
{
    let n = s.unicode_len();
    let mut start: usize = 0;
    while start < n && white(s.get_char(start))
        invariant
            n == s@.len(),
            start <= n,
            forall|i: int| 0 <= i < start ==> is_white(#[trigger] s@[i]),
        decreases n - start,
    {
        start = start + 1;
    }
    let mut end: usize = n;
    while end > start && white(s.get_char(end - 1))
        invariant
            n == s@.len(),
            start <= end <= n,
            forall|i: int| end <= i < n ==> is_white(#[trigger] s@[i]),
        decreases end - start,
    {
        end = end - 1;
    }
    proof {
        if start < end {
            assert(!is_white(s@[start as int]));
        }
        let w = (start as int, end as int);
        assert(trimmed_bounds(s@, w.0, w.1));
        let b = choose|b: (int, int)| trimmed_bounds(s@, b.0, b.1);
        lemma_trim_unique(s@, start as int, end as int, b.0, b.1);
    }
    owned(s.substring_char(start, end))
}

/// Whether `needle` occurs somewhere in `hay`.
pub fn contains_text(hay: &str, needle: &str) -> (r: bool)
    ensures
        r == has_infix(hay@, needle@),
{
    let n = hay.unicode_len();
    let m = needle.unicode_len();
    if m > n {
        return false;
    }
    if m == 0 {
        assert(hay@.subrange(0, 0 + needle@.len() as int) =~= needle@);
        return true;
    }
    let mut i: usize = 0;
    while i <= n - m
        invariant
            n == hay@.len(),
            m == needle@.len(),
            1 <= m <= n,
            i <= n - m + 1,
            forall|j: int| 0 <= j < i ==> #[trigger] hay@.subrange(j, j + m) != needle@,
        decreases n - m + 1 - i,
    {
        if str_eq(hay.substring_char(i, i + m), needle) {
            return true;
        }
        i = i + 1;
    }
    false
}

/// What `str::to_lowercase` gives for a text: its Unicode lower-case mapping.
pub uninterp spec fn lowercase(s: Seq<char>) -> Seq<char>;

/// `str::to_lowercase`, whose result is named `lowercase` of the text.
#[verifier::external_body]
pub(crate) fn to_lowercase(s: &str) -> (r: String)
    ensures
        r@ == lowercase(s@),
{
    s.to_lowercase()
}

/// The UTF-8 bytes of what `String::from_utf8_lossy` reads from `bytes`: the text,
/// with each invalid sequence replaced by U+FFFD (`EF BF BD`).
pub uninterp spec fn utf8_lossy(bytes: Seq<u8>) -> Seq<u8>;

/// `String::from_utf8_lossy`, taken as the bytes of the text it gives. Bytes that are
/// valid UTF-8, such as ASCII bytes, come back as they are.
#[verifier::external_body]
pub(crate) fn decode_lossy(bytes: &Vec<u8>) -> (r: Vec<u8>)
    ensures
        r@ == utf8_lossy(bytes@),
        (forall|i: int| 0 <= i < bytes@.len() ==> #[trigger] bytes@[i] < 0x80) ==> r@ == bytes@,
{
    String::from_utf8_lossy(bytes).into_owned().into_bytes()
}

} // verus!
