//! Character and byte sequence helpers shared by the parsers.
//!
//! Strings are handled as sequences of characters: a `String` or `&str`
//! is turned into a `Vec<char>` with [`chars_of`], searched and cut with the
//! functions here, and built back with [`string_from_chars`].

use vstd::prelude::*;
use vstd::utf8::{
    decode_utf8, encode_utf8, encode_utf8_decode_utf8, encode_utf8_valid_utf8, is_ascii_chars,
    is_ascii_chars_encode_utf8, valid_utf8,
};

verus! {

// ---------------------------------------------------------------------------
// Sequence predicates
// ---------------------------------------------------------------------------

/// `needle` occurs in `hay` starting at index `i`.
pub open spec fn occurs_at<A>(hay: Seq<A>, needle: Seq<A>, i: int) -> bool {
    &&& 0 <= i
    &&& i + needle.len() <= hay.len()
    &&& hay.subrange(i, i + needle.len()) == needle
}

/// `needle` occurs somewhere in `hay` (the empty needle occurs everywhere).
pub open spec fn contains_seq<A>(hay: Seq<A>, needle: Seq<A>) -> bool {
    exists|i: int| occurs_at(hay, needle, i)
}

/// `s` begins with `p`.
pub open spec fn starts_with<A>(s: Seq<A>, p: Seq<A>) -> bool {
    occurs_at(s, p, 0)
}

/// `c` occurs in `s`.
pub open spec fn has_char(s: Seq<char>, c: char) -> bool {
    exists|i: int| 0 <= i < s.len() && s[i] == c
}

// ---------------------------------------------------------------------------
// Conversions
// ---------------------------------------------------------------------------

/// Converts a string slice into the vector of its characters.
pub fn chars_of(s: &str) -> (r: Vec<char>)
    ensures
        r@ == s@,
{
    let mut r: Vec<char> = Vec::new();
    for c in it: s.chars()
        invariant
            r@ == it.seq().take(it.index() as int),
    {
        r.push(c);
    }
    r
}

/// Appends one character to a string (`String::push`).
#[verifier::external_body]
pub(crate) fn push_char(s: &mut String, c: char)
    ensures
        final(s)@ == old(s)@.push(c),
{
    s.push(c);
}

/// Builds a string from a slice of characters.
pub fn string_from_chars(cs: &[char]) -> (r: String)
    ensures
        r@ == cs@,
{
    let mut r = String::new();
    let mut i: usize = 0;
    while i < cs.len()
        invariant
            i <= cs.len(),
            r@ == cs@.take(i as int),
        decreases cs.len() - i,
    {
        push_char(&mut r, cs[i]);
        assert(cs@.take(i + 1) =~= cs@.take(i as int).push(cs@[i as int]));
        i = i + 1;
    }
    assert(cs@.take(cs.len() as int) =~= cs@);
    r
}

/// Copies the part `[from, to)` of a character slice.
pub fn chars_range(cs: &[char], from: usize, to: usize) -> (r: Vec<char>)
    requires
        from <= to <= cs.len(),
    ensures
        r@ == cs@.subrange(from as int, to as int),
{
    let mut r: Vec<char> = Vec::new();
    let mut i: usize = from;
    while i < to
        invariant
            from <= i <= to <= cs.len(),
            r@ == cs@.subrange(from as int, i as int),
        decreases to - i,
    {
        r.push(cs[i]);
        assert(cs@.subrange(from as int, i + 1) =~= cs@.subrange(from as int, i as int).push(
            cs@[i as int],
        ));
        i = i + 1;
    }
    r
}

/// Copies the part `[from, to)` of a byte slice.
pub fn bytes_range(bs: &[u8], from: usize, to: usize) -> (r: Vec<u8>)
    requires
        from <= to <= bs.len(),
    ensures
        r@ == bs@.subrange(from as int, to as int),
{
    let mut r: Vec<u8> = Vec::new();
    let mut i: usize = from;
    while i < to
        invariant
            from <= i <= to <= bs.len(),
            r@ == bs@.subrange(from as int, i as int),
        decreases to - i,
    {
        r.push(bs[i]);
        assert(bs@.subrange(from as int, i + 1) =~= bs@.subrange(from as int, i as int).push(
            bs@[i as int],
        ));
        i = i + 1;
    }
    r
}

/// What `String::from_utf8_lossy` makes of a byte sequence.
pub uninterp spec fn utf8_lossy_of(bytes: Seq<u8>) -> Seq<char>;

/// Decodes bytes as UTF-8, replacing each invalid sequence with U+FFFD
/// (`String::from_utf8_lossy`). The result is named [`utf8_lossy_of`];
/// of valid UTF-8 it is the decoded text. How invalid sequences are
/// replaced is not stated.
#[verifier::external_body]
pub(crate) fn utf8_lossy(bytes: &[u8]) -> (r: String)
    ensures
        r@ == utf8_lossy_of(bytes@),
        valid_utf8(bytes@) ==> r@ == decode_utf8(bytes@),
{
    String::from_utf8_lossy(bytes).into_owned()
}

/// What `str::to_lowercase` makes of a character sequence.
pub uninterp spec fn lowercase_of(s: Seq<char>) -> Seq<char>;

/// Each ASCII capital letter of `s` in lowercase.
pub open spec fn ascii_lowercase(s: Seq<char>) -> Seq<char> {
    s.map_values(|c: char| if 'A' <= c <= 'Z' { ((c as u32) + 32) as char } else { c })
}

/// Unicode lowercase of a string (`str::to_lowercase`). The result is named
/// [`lowercase_of`]; of an ASCII string it is the string with its capital
/// letters lowered. The mapping of other characters is not stated.
#[verifier::external_body]
pub(crate) fn to_lowercase(s: &str) -> (r: String)
    ensures
        r@ == lowercase_of(s@),
        is_ascii_chars(s@) ==> r@ == ascii_lowercase(s@),
{
    s.to_lowercase()
}

// ---------------------------------------------------------------------------
// Searching
// ---------------------------------------------------------------------------

/// Whether `needle` occurs in `hay` at index `i`.
pub fn chars_match_at(hay: &[char], needle: &[char], i: usize) -> (r: bool)
    ensures
        r == occurs_at(hay@, needle@, i as int),
{
    if i > hay.len() || needle.len() > hay.len() - i {
        return false;
    }
    let mut j: usize = 0;
    while j < needle.len()
        invariant
            i + needle.len() <= hay.len(),
            j <= needle.len(),
            forall|k: int| 0 <= k < j ==> hay@[i + k] == needle@[k],
        decreases needle.len() - j,
    {
        if hay[i + j] != needle[j] {
            assert(hay@.subrange(i as int, i + needle.len())[j as int] != needle@[j as int]);
            return false;
        }
        j = j + 1;
    }
    assert(hay@.subrange(i as int, i + needle.len()) =~= needle@);
    true
}

/// Whether `needle` occurs somewhere in `hay`.
pub fn contains_chars(hay: &[char], needle: &[char]) -> (r: bool)
    ensures
        r == contains_seq(hay@, needle@),
{
    if needle.len() > hay.len() {
        return false;
    }
    let last = hay.len() - needle.len();
    let mut i: usize = 0;
    loop
        invariant
            last == hay.len() - needle.len(),
            i <= last,
            forall|k: int| 0 <= k < i ==> !occurs_at(hay@, needle@, k),
        decreases last - i,
    {
        if chars_match_at(hay, needle, i) {
            return true;
        }
        if i == last {
            return false;
        }
        i = i + 1;
    }
}

/// Whether `s` begins with `p`.
pub fn starts_with_chars(s: &[char], p: &[char]) -> (r: bool)
    ensures
        r == starts_with(s@, p@),
{
    chars_match_at(s, p, 0)
}

/// Whether the character `c` occurs in `s`.
pub fn has_char_exec(s: &[char], c: char) -> (r: bool)
    ensures
        r == has_char(s@, c),
{
    let mut i: usize = 0;
    while i < s.len()
        invariant
            i <= s.len(),
            forall|k: int| 0 <= k < i ==> s@[k] != c,
        decreases s.len() - i,
    {
        if s[i] == c {
            return true;
        }
        i = i + 1;
    }
    false
}

/// Whether `needle` occurs in `hay` at index `i` (bytes).
pub fn bytes_match_at(hay: &[u8], needle: &[u8], i: usize) -> (r: bool)
    ensures
        r == occurs_at(hay@, needle@, i as int),
{
    if i > hay.len() || needle.len() > hay.len() - i {
        return false;
    }
    let mut j: usize = 0;
    while j < needle.len()
        invariant
            i + needle.len() <= hay.len(),
            j <= needle.len(),
            forall|k: int| 0 <= k < j ==> hay@[i + k] == needle@[k],
        decreases needle.len() - j,
    {
        if hay[i + j] != needle[j] {
            assert(hay@.subrange(i as int, i + needle.len())[j as int] != needle@[j as int]);
            return false;
        }
        j = j + 1;
    }
    assert(hay@.subrange(i as int, i + needle.len()) =~= needle@);
    true
}

/// Two strings hold the same characters.
pub fn str_eq(a: &str, b: &str) -> (r: bool)
    ensures
        r == (a@ == b@),
{
    let x = chars_of(a);
    let y = chars_of(b);
    if x.len() != y.len() {
        return false;
    }
    assert(x@ =~= x@.subrange(0, y@.len() as int));
    chars_match_at(x.as_slice(), y.as_slice(), 0)
}

// ---------------------------------------------------------------------------
// Whitespace and trimming
// ---------------------------------------------------------------------------

/// The characters that `char::is_whitespace` accepts (Unicode `White_Space`).
pub open spec fn is_whitespace(c: char) -> bool {
    let u = c as u32;
    ||| 0x09 <= u <= 0x0d
    ||| u == 0x20
    ||| u == 0x85
    ||| u == 0xa0
    ||| u == 0x1680
    ||| 0x2000 <= u <= 0x200a
    ||| u == 0x2028
    ||| u == 0x2029
    ||| u == 0x202f
    ||| u == 0x205f
    ||| u == 0x3000
}

/// Executable form of [`is_whitespace`].
pub fn is_whitespace_exec(c: char) -> (r: bool)
    ensures
        r == is_whitespace(c),
{
    let u = c as u32;
    (0x09 <= u && u <= 0x0d) || u == 0x20 || u == 0x85 || u == 0xa0 || u == 0x1680 || (0x2000
        <= u && u <= 0x200a) || u == 0x2028 || u == 0x2029 || u == 0x202f || u == 0x205f || u
        == 0x3000
}

/// `s` without its leading whitespace (`str::trim_start`).
pub open spec fn trim_start(s: Seq<char>) -> Seq<char>
    decreases s.len(),
{
    if s.len() > 0 && is_whitespace(s[0]) {
        trim_start(s.drop_first())
    } else {
        s
    }
}

/// `s` without its trailing whitespace (`str::trim_end`).
pub open spec fn trim_end(s: Seq<char>) -> Seq<char>
    decreases s.len(),
{
    if s.len() > 0 && is_whitespace(s.last()) {
        trim_end(s.drop_last())
    } else {
        s
    }
}

/// `s` without leading and trailing whitespace (`str::trim`).
pub open spec fn trim(s: Seq<char>) -> Seq<char> {
    trim_end(trim_start(s))
}

/// The bounds of the trimmed part of `s`.
pub fn trim_bounds(s: &[char]) -> (r: (usize, usize))
    ensures
        r.0 <= r.1 <= s.len(),
        s@.subrange(r.0 as int, r.1 as int) == trim(s@),
{
    let n = s.len();
    let mut a: usize = 0;
    assert(s@.subrange(0, n as int) =~= s@);
    while a < n && is_whitespace_exec(s[a])
        invariant
            a <= n == s.len(),
            trim_start(s@) == trim_start(s@.subrange(a as int, n as int)),
        decreases n - a,
    {
        assert(s@.subrange(a as int, n as int).drop_first() =~= s@.subrange(a + 1, n as int));
        a = a + 1;
    }
    let ghost t = s@.subrange(a as int, n as int);
    assert(trim_start(t) == t);
    let mut b: usize = n;
    while b > a && is_whitespace_exec(s[b - 1])
        invariant
            a <= b <= n == s.len(),
            t == s@.subrange(a as int, n as int),
            trim_end(t) == trim_end(s@.subrange(a as int, b as int)),
        decreases b - a,
    {
        assert(s@.subrange(a as int, b as int).drop_last() =~= s@.subrange(a as int, b - 1));
        b = b - 1;
    }
    (a, b)
}

/// A string with leading and trailing whitespace removed (`str::trim`).
pub fn trim_chars(s: &[char]) -> (r: Vec<char>)
    ensures
        r@ == trim(s@),
{
    let (a, b) = trim_bounds(s);
    chars_range(s, a, b)
}

// ---------------------------------------------------------------------------
// Splitting
// ---------------------------------------------------------------------------

/// Number of characters before the first `sep` in `s` (or `s.len()`).
pub open spec fn segment_len(s: Seq<char>, sep: char) -> nat
    decreases s.len(),
{
    if s.len() == 0 || s[0] == sep {
        0
    } else {
        1 + segment_len(s.drop_first(), sep)
    }
}

/// The pieces of `s` between occurrences of `sep` (`str::split`).
pub open spec fn split_on(s: Seq<char>, sep: char) -> Seq<Seq<char>>
    decreases s.len(),
{
    let k = segment_len(s, sep);
    if k >= s.len() {
        seq![s]
    } else {
        seq![s.take(k as int)] + split_on(s.skip(k + 1 as int), sep)
    }
}

/// Number of leading characters of `s` that are not whitespace.
pub open spec fn token_len(s: Seq<char>) -> nat
    decreases s.len(),
{
    if s.len() == 0 || is_whitespace(s[0]) {
        0
    } else {
        1 + token_len(s.drop_first())
    }
}

/// The whitespace separated words of `s` (`str::split_whitespace`).
pub open spec fn ws_tokens(s: Seq<char>) -> Seq<Seq<char>>
    decreases s.len(),
{
    if s.len() == 0 {
        seq![]
    } else if is_whitespace(s[0]) {
        ws_tokens(s.drop_first())
    } else {
        let k = token_len(s);
        proof {
            lemma_token_len(s);
        }
        seq![s.take(k as int)] + ws_tokens(s.skip(k as int))
    }
}

/// `token_len` never exceeds the length, and stops at whitespace.
pub proof fn lemma_token_len(s: Seq<char>)
    ensures
        token_len(s) <= s.len(),
        token_len(s) < s.len() ==> is_whitespace(s[token_len(s) as int]),
        token_len(s) > 0 <==> s.len() > 0 && !is_whitespace(s[0]),
    decreases s.len(),
{
    if s.len() > 0 && !is_whitespace(s[0]) {
        lemma_token_len(s.drop_first());
    }
}

/// `segment_len` never exceeds the length, and stops at the separator.
pub proof fn lemma_segment_len(s: Seq<char>, sep: char)
    ensures
        segment_len(s, sep) <= s.len(),
        segment_len(s, sep) < s.len() ==> s[segment_len(s, sep) as int] == sep,
    decreases s.len(),
{
    if s.len() > 0 && s[0] != sep {
        lemma_segment_len(s.drop_first(), sep);
    }
}

/// The bounds of each whitespace separated word of `s`, in order.
pub fn ws_token_bounds(s: &[char]) -> (r: Vec<(usize, usize)>)
    ensures
        r.len() == ws_tokens(s@).len(),
        forall|k: int|
            0 <= k < r.len() ==> r@[k].0 <= r@[k].1 <= s.len() && s@.subrange(
                r@[k].0 as int,
                r@[k].1 as int,
            ) == #[trigger] ws_tokens(s@)[k],
{
    let n = s.len();
    let mut r: Vec<(usize, usize)> = Vec::new();
    let mut i: usize = 0;
    assert(s@.skip(0) =~= s@);
    while i < n
        invariant
            i <= n == s.len(),
            ws_tokens(s@) == r@.map_values(|p: (usize, usize)| s@.subrange(p.0 as int, p.1 as int))
                + ws_tokens(s@.skip(i as int)),
            forall|k: int| 0 <= k < r.len() ==> (#[trigger] r@[k]).0 <= r@[k].1 <= i,
        decreases n - i,
    {
        if is_whitespace_exec(s[i]) {
            assert(s@.skip(i as int).drop_first() =~= s@.skip(i + 1));
            i = i + 1;
        } else {
            let start = i;
            let ghost t = s@.skip(start as int);
            let mut j: usize = i;
            while j < n && !is_whitespace_exec(s[j])
                invariant
                    start <= j <= n == s.len(),
                    t == s@.skip(start as int),
                    token_len(t) == (j - start) + token_len(s@.skip(j as int)),
                decreases n - j,
            {
                assert(s@.skip(j as int).drop_first() =~= s@.skip(j + 1));
                j = j + 1;
            }
            assert(token_len(s@.skip(j as int)) == 0);
            assert(t.take((j - start) as int) =~= s@.subrange(start as int, j as int));
            assert(t.skip((j - start) as int) =~= s@.skip(j as int));
            let ghost old_r = r@;
            r.push((start, j));
            assert(r@.map_values(|p: (usize, usize)| s@.subrange(p.0 as int, p.1 as int))
                =~= old_r.map_values(|p: (usize, usize)| s@.subrange(p.0 as int, p.1 as int))
                + seq![s@.subrange(start as int, j as int)]);
            i = j;
        }
    }
    assert(ws_tokens(s@.skip(n as int)) =~= Seq::<Seq<char>>::empty()) by {
        assert(s@.skip(n as int).len() == 0);
    }
    assert(ws_tokens(s@) =~= r@.map_values(
        |p: (usize, usize)| s@.subrange(p.0 as int, p.1 as int),
    ));
    r
}

// ---------------------------------------------------------------------------
// Decimal numbers
// ---------------------------------------------------------------------------

/// `c` is an ASCII decimal digit.
pub open spec fn is_digit(c: char) -> bool {
    '0' <= c <= '9'
}

/// The value of a decimal digit.
pub open spec fn digit_value(c: char) -> nat {
    (c as u32 - '0' as u32) as nat
}

/// Every character of `s` is a decimal digit.
pub open spec fn all_digits(s: Seq<char>) -> bool {
    forall|i: int| 0 <= i < s.len() ==> is_digit(s[i])
}

/// The value of a string of decimal digits.
pub open spec fn decimal_value(s: Seq<char>) -> nat
    decreases s.len(),
{
    if s.len() == 0 {
        0
    } else {
        decimal_value(s.drop_last()) * 10 + digit_value(s.last())
    }
}

/// What `str::parse` gives for an unsigned integer type whose largest value
/// is `max`: an optional `+` followed by one or more decimal digits whose
/// value is at most `max`; anything else is an error.
pub open spec fn parse_unsigned(s: Seq<char>, max: nat) -> Option<nat> {
    let d = if s.len() > 0 && s[0] == '+' {
        s.drop_first()
    } else {
        s
    };
    if d.len() > 0 && all_digits(d) && decimal_value(d) <= max {
        Some(decimal_value(d))
    } else {
        None
    }
}

/// Parses an unsigned decimal number no larger than `max`.
pub fn parse_unsigned_exec(s: &[char], max: u64) -> (r: Option<u64>)
    ensures
        match parse_unsigned(s@, max as nat) {
            Some(v) => r == Some(v as u64),
            None => r is None,
        },
{
    let mut i: usize = 0;
    if s.len() > 0 && s[0] == '+' {
        i = 1;
    }
    let ghost d = if s@.len() > 0 && s@[0] == '+' {
        s@.drop_first()
    } else {
        s@
    };
    assert(d =~= s@.skip(i as int));
    if i >= s.len() {
        return None;
    }
    let start = i;
    let mut acc: u64 = 0;
    let mut overflow = false;
    assert(d.take(0) =~= Seq::<char>::empty());
    while i < s.len()
        invariant
            start <= i <= s.len(),
            start < s.len(),
            d == s@.skip(start as int),
            d == (if s@.len() > 0 && s@[0] == '+' {
                s@.drop_first()
            } else {
                s@
            }),
            all_digits(d.take(i - start)),
            !overflow ==> acc == decimal_value(d.take(i - start)) && acc <= max,
            overflow ==> decimal_value(d.take(i - start)) > max,
        decreases s.len() - i,
    {
        let c = s[i];
        if !('0' <= c && c <= '9') {
            assert(!is_digit(d[i - start]));
            assert(!all_digits(d));
            return None;
        }
        let dv = (c as u32 - '0' as u32) as u64;
        let ghost k = (i - start) as int;
        assert(d.take(k + 1).drop_last() =~= d.take(k));
        assert(d.take(k + 1).last() == c);
        assert(decimal_value(d.take(k + 1)) == decimal_value(d.take(k)) * 10 + dv);
        if !overflow {
            if dv > max || acc > (max - dv) / 10 {
                overflow = true;
                assert(acc * 10 + dv > max) by (nonlinear_arith)
                    requires
                        dv > max || acc > (max - dv) / 10,
                ;
            } else {
                assert(acc * 10 + dv <= max) by (nonlinear_arith)
                    requires
                        acc <= (max - dv) / 10,
                        dv <= max,
                ;
                acc = acc * 10 + dv;
            }
        }
        i = i + 1;
    }
    assert(d.take((s.len() - start) as int) =~= d);
    if overflow {
        None
    } else {
        Some(acc)
    }
}

/// The decimal character of a digit value below ten.
pub open spec fn digit_char(n: nat) -> char {
    (n + '0' as u32) as char
}

/// The decimal representation of `n` without leading zeros (`to_string`).
pub open spec fn decimal_digits(n: nat) -> Seq<char>
    decreases n,
{
    if n < 10 {
        seq![digit_char(n)]
    } else {
        decimal_digits(n / 10) + seq![digit_char(n % 10)]
    }
}

/// Appends the decimal representation of `n` to `s`.
pub fn push_decimal(s: &mut String, n: u64)
    ensures
        final(s)@ == old(s)@ + decimal_digits(n as nat),
    decreases n,
{
    if n >= 10 {
        push_decimal(s, n / 10);
    }
    let c = ((n % 10) as u32 + '0' as u32) as u8 as char;
    assert(c == digit_char((n % 10) as nat));
    push_char(s, c);
}

/// The decimal representation of `n` is a non-empty string of digits
/// whose value is `n`.
pub proof fn lemma_decimal_digits(n: nat)
    ensures
        decimal_digits(n).len() > 0,
        all_digits(decimal_digits(n)),
        decimal_value(decimal_digits(n)) == n,
    decreases n,
{
    let d = decimal_digits(n);
    let k = n % 10;
    assert(digit_value(digit_char(k)) == k);
    assert(is_digit(digit_char(k)));
    if n >= 10 {
        lemma_decimal_digits(n / 10);
        assert(d.drop_last() =~= decimal_digits(n / 10));
        assert(d.last() == digit_char(k));
        assert forall|i: int| 0 <= i < d.len() implies is_digit(d[i]) by {
            if i < d.len() - 1 {
                assert(d[i] == decimal_digits(n / 10)[i]);
            }
        }
        assert(n == (n / 10) * 10 + k);
        assert(decimal_value(d) == decimal_value(d.drop_last()) * 10 + digit_value(d.last()));
    } else {
        assert(d.drop_last() =~= Seq::<char>::empty());
        assert(d.last() == digit_char(n));
        assert(k == n);
        assert(decimal_value(d.drop_last()) == 0);
        assert(decimal_value(d) == decimal_value(d.drop_last()) * 10 + digit_value(d.last()));
    }
}

/// Every byte of `b` is ASCII.
pub open spec fn ascii_bytes(b: Seq<u8>) -> bool {
    forall|i: int| 0 <= i < b.len() ==> b[i] < 128
}

/// The characters of a byte sequence read one byte per character.
pub open spec fn byte_chars(b: Seq<u8>) -> Seq<char> {
    b.map_values(|x: u8| x as char)
}

/// ASCII bytes are valid UTF-8 and decode to their characters, which are
/// ASCII.
pub proof fn lemma_ascii_bytes_decode(b: Seq<u8>)
    requires
        ascii_bytes(b),
    ensures
        valid_utf8(b),
        decode_utf8(b) == byte_chars(b),
        is_ascii_chars(byte_chars(b)),
{
    let c = byte_chars(b);
    assert forall|i: int| 0 <= i < c.len() implies '\0' <= #[trigger] c[i] <= '\u{7f}' by {
        assert(c[i] == b[i] as char);
        assert(b[i] < 128);
    }
    assert(is_ascii_chars(c));
    is_ascii_chars_encode_utf8(c);
    assert forall|i: int| 0 <= i < b.len() implies encode_utf8(c)[i] == b[i] by {
        assert(c[i] == b[i] as char);
        assert(encode_utf8(c)[i] == c[i] as u8);
    }
    assert(encode_utf8(c) =~= b);
    encode_utf8_valid_utf8(c);
    encode_utf8_decode_utf8(c);
}

} // verus!
