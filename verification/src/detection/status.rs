//! HTTP status codes: which ones signal blocking, and how to read them
//! from curl's output.

use vstd::prelude::*;
use crate::text::{
    chars_of, chars_range, parse_unsigned, parse_unsigned_exec, segment_len, split_on, starts_with,
    starts_with_chars, trim, trim_chars, utf8_lossy, utf8_lossy_of, ws_token_bounds, ws_tokens,
};

verus! {

/// Status codes that typically indicate bot blocking: 403 Forbidden,
/// 429 Too Many Requests and 503 Service Unavailable.
pub open spec fn blocking_status(code: u16) -> bool {
    code == 403 || code == 429 || code == 503
}

/// Status codes that might indicate blocking in context: 202 Accepted (a
/// queued challenge), 307 Temporary Redirect (often to a challenge), 401
/// Unauthorized, 407 Proxy Authentication Required and 451 Unavailable For
/// Legal Reasons.
pub open spec fn suspicious_status(code: u16) -> bool {
    code == 202 || code == 307 || code == 401 || code == 407 || code == 451
}

/// Check if a status code indicates definite blocking.
pub fn is_blocking_status(code: u16) -> (r: bool)
    ensures
        r == blocking_status(code),
{
    code == 403 || code == 429 || code == 503
}

/// Check if a status code is suspicious (might be blocking).
pub fn is_suspicious_status(code: u16) -> (r: bool)
    ensures
        r == suspicious_status(code),
{
    code == 202 || code == 307 || code == 401 || code == 407 || code == 451
}

/// Check if a status code indicates success (2xx).
pub fn is_success_status(code: u16) -> (r: bool)
    ensures
        r == (200 <= code < 300),
{
    200 <= code && code < 300
}

/// `s` read as a `u16` by `str::parse`.
pub open spec fn parse_u16(s: Seq<char>) -> Option<u16> {
    match parse_unsigned(s, 65535) {
        Some(v) => Some(v as u16),
        None => None,
    }
}

/// Parses a `u16` the way `str::parse::<u16>` does.
pub fn parse_u16_exec(s: &[char]) -> (r: Option<u16>)
    ensures
        r == parse_u16(s@),
{
    match parse_unsigned_exec(s, 65535) {
        Some(v) => Some(v as u16),
        None => None,
    }
}

/// The status code that one header line announces: the line, trimmed,
/// starts with `HTTP/` and its second whitespace separated word is a `u16`.
pub open spec fn status_of_line(line: Seq<char>) -> Option<u16> {
    let t = trim(line);
    if starts_with(t, "HTTP/"@) && ws_tokens(t).len() >= 2 {
        parse_u16(ws_tokens(t)[1])
    } else {
        None
    }
}

/// The status of the first line in `lines` that announces one.
pub open spec fn first_status(lines: Seq<Seq<char>>) -> Option<u16>
    decreases lines.len(),
{
    if lines.len() == 0 {
        None
    } else {
        match status_of_line(lines[0]) {
            Some(c) => Some(c),
            None => first_status(lines.drop_first()),
        }
    }
}

/// The status code announced by one line.
pub fn status_of_line_exec(line: &[char]) -> (r: Option<u16>)
    ensures
        r == status_of_line(line@),
{
    let t = trim_chars(line);
    let prefix = chars_of("HTTP/");
    if !starts_with_chars(t.as_slice(), prefix.as_slice()) {
        return None;
    }
    let toks = ws_token_bounds(t.as_slice());
    if toks.len() < 2 {
        return None;
    }
    let (a, b) = toks[1];
    let word = chars_range(t.as_slice(), a, b);
    parse_u16_exec(word.as_slice())
}

/// Parse the HTTP status code from curl output taken with `-i`: the status
/// of the first line (lines split at `\n`) that starts with `HTTP/` and
/// carries a status code, after the bytes were decoded as UTF-8 with
/// invalid sequences replaced.
pub fn parse_status_from_headers(response: &[u8]) -> (r: Option<u16>)
    ensures
        r == first_status(split_on(utf8_lossy_of(response@), '\n')),
{
    let text = utf8_lossy(response);
    let s = chars_of(text.as_str());
    let n = s.len();
    let mut start: usize = 0;
    assert(s@.skip(0) =~= s@);
    loop
        invariant
            start <= n == s.len(),
            s@ == utf8_lossy_of(response@),
            first_status(split_on(s@, '\n')) == first_status(split_on(s@.skip(start as int), '\n')),
        decreases n - start,
    {
        let ghost t = s@.skip(start as int);
        let mut end: usize = start;
        while end < n && s[end] != '\n'
            invariant
                start <= end <= n == s.len(),
                t == s@.skip(start as int),
                segment_len(t, '\n') == (end - start) + segment_len(s@.skip(end as int), '\n'),
            decreases n - end,
        {
            assert(s@.skip(end as int).drop_first() =~= s@.skip(end + 1));
            end = end + 1;
        }
        assert(segment_len(s@.skip(end as int), '\n') == 0);
        let line = chars_range(s.as_slice(), start, end);
        assert(line@ =~= t.take((end - start) as int));
        let st = status_of_line_exec(line.as_slice());
        if end == n {
            assert(t.take((end - start) as int) =~= t);
            assert(split_on(t, '\n') =~= seq![t]);
            assert(split_on(t, '\n').drop_first() =~= Seq::<Seq<char>>::empty());
            assert(first_status(Seq::<Seq<char>>::empty()) is None);
            assert(status_of_line(t) == st);
            assert(first_status(split_on(t, '\n')) == st);
            return st;
        }
        assert(t.skip((end - start) + 1) =~= s@.skip(end + 1));
        assert(split_on(t, '\n').drop_first() =~= split_on(s@.skip(end + 1), '\n'));
        if st.is_some() {
            return st;
        }
        start = end + 1;
    }
}

/// Parse the HTTP status code from curl's `-w '%{http_code}'` output:
/// the trimmed output read as a `u16`.
pub fn parse_status_from_write_out(output: &str) -> (r: Option<u16>)
    ensures
        r == parse_u16(trim(output@)),
{
    let s = chars_of(output);
    let t = trim_chars(s.as_slice());
    parse_u16_exec(t.as_slice())
}

} // verus!
