//! The smart-mode escalation flow: curl, then impersonation, then the
//! JavaScript preflight with a curl replay.

use vstd::prelude::*;
use vstd::string::StringSliceAdditionalSpecFns;
use vstd::utf8::{encode_utf8, is_ascii_chars, is_ascii_chars_encode_utf8};
use crate::config::{opt_view, string_views, ConfigModel, RecurlConfig};
use crate::daemon::protocol::DaemonResponse;
use crate::detection::analysis::escalation_needed;
use crate::detection::status::{blocking_status, parse_u16, parse_u16_exec};
use crate::detection::DetectionResult;
use crate::impersonation::{
    attempt_exit_code, attempt_stdout, exit_byte, exit_code_of, profile_for_name, ImpersonationProfile,
    ImpersonationResult,
};
use crate::js_preflight::cookies::{add_all, cookie_views, curl_cookie_string, CookieModel};
use crate::js_preflight::{Cookie, ExtractedCookies, PreflightResult};
use crate::text::{
    bytes_match_at, bytes_range, chars_of, contains_seq, decimal_digits, has_char, has_char_exec,
    is_digit, lemma_decimal_digits, lowercase_of, occurs_at, parse_unsigned, starts_with,
    starts_with_chars, str_eq,
};

verus! {

// ---------------------------------------------------------------------------
// Reading the status marker back out of curl's output
// ---------------------------------------------------------------------------

/// `s` without its leading bytes equal to `b`.
pub open spec fn strip_leading(s: Seq<u8>, b: u8) -> Seq<u8>
    decreases s.len(),
{
    if s.len() > 0 && s[0] == b {
        strip_leading(s.drop_first(), b)
    } else {
        s
    }
}

/// The bytes of `s` before the first byte equal to `b` (all of `s` if
/// there is none).
pub open spec fn before_first(s: Seq<u8>, b: u8) -> Seq<u8>
    decreases s.len(),
{
    if s.len() == 0 || s[0] == b {
        seq![]
    } else {
        seq![s[0]] + before_first(s.drop_first(), b)
    }
}

/// The part of a status marker that is searched for: the marker without
/// its leading newlines, up to its first `:`.
pub open spec fn marker_prefix(marker: Seq<u8>) -> Seq<u8> {
    before_first(strip_leading(marker, 10u8), 58u8)
}

/// The last index below `k` at which `needle` occurs in `hay`.
pub open spec fn last_occurrence_below(hay: Seq<u8>, needle: Seq<u8>, k: int) -> Option<int>
    decreases k,
{
    if k <= 0 {
        None
    } else if occurs_at(hay, needle, k - 1) {
        Some(k - 1)
    } else {
        last_occurrence_below(hay, needle, k - 1)
    }
}

/// The last index at which `needle` occurs in `hay`.
pub open spec fn last_occurrence(hay: Seq<u8>, needle: Seq<u8>) -> Option<int> {
    last_occurrence_below(hay, needle, hay.len() + 1int)
}

/// `b` is an ASCII decimal digit.
pub open spec fn is_ascii_digit(b: u8) -> bool {
    48 <= b <= 57
}

/// Number of leading ASCII digits of `s`.
pub open spec fn digit_run(s: Seq<u8>) -> nat
    decreases s.len(),
{
    if s.len() == 0 || !is_ascii_digit(s[0]) {
        0
    } else {
        1 + digit_run(s.drop_first())
    }
}

/// The characters of a byte sequence read one byte per character.
pub open spec fn bytes_as_chars(s: Seq<u8>) -> Seq<char> {
    s.map_values(|b: u8| b as char)
}

/// The status code that follows a marker: `:` then one or more digits
/// that form a `u16`.
pub open spec fn status_after_marker(after: Seq<u8>) -> Option<u16> {
    if after.len() > 0 && after[0] == 58u8 {
        let rest = after.skip(1);
        let k = digit_run(rest);
        if k == 0 {
            None
        } else {
            parse_u16(bytes_as_chars(rest.take(k as int)))
        }
    } else {
        None
    }
}

/// What [`extract_status_code`] gives: when `prefix` occurs in `output`,
/// the output before its last occurrence (less one newline right before
/// it) and the status code that follows it; otherwise the output unchanged
/// and no status.
pub open spec fn extract_status(output: Seq<u8>, prefix: Seq<u8>) -> (Seq<u8>, Option<u16>) {
    match last_occurrence(output, prefix) {
        None => (output, None),
        Some(pos) => {
            let content_end = if pos > 0 && output[pos - 1] == 10u8 {
                pos - 1
            } else {
                pos
            };
            (
                output.take(content_end),
                status_after_marker(output.skip(pos + prefix.len())),
            )
        },
    }
}

/// `last_occurrence_below` does not change across a stretch without
/// occurrences.
pub proof fn lemma_last_occurrence_skip(hay: Seq<u8>, needle: Seq<u8>, lo: int, hi: int)
    requires
        0 <= lo <= hi,
        forall|j: int| lo <= j < hi ==> !occurs_at(hay, needle, j),
    ensures
        last_occurrence_below(hay, needle, hi) == last_occurrence_below(hay, needle, lo),
    decreases hi - lo,
{
    if hi > lo {
        lemma_last_occurrence_skip(hay, needle, lo, hi - 1);
    }
}

/// The searched part of a marker.
fn marker_prefix_exec(m: &[u8]) -> (r: Vec<u8>)
    ensures
        r@ == marker_prefix(m@),
{
    let n = m.len();
    let mut a: usize = 0;
    assert(m@.skip(0) =~= m@);
    while a < n && m[a] == 10u8
        invariant
            a <= n == m.len(),
            strip_leading(m@, 10u8) == strip_leading(m@.skip(a as int), 10u8),
        decreases n - a,
    {
        assert(m@.skip(a as int).drop_first() =~= m@.skip(a + 1));
        a = a + 1;
    }
    let ghost s = m@.skip(a as int);
    assert(strip_leading(s, 10u8) == s);
    let mut b: usize = a;
    let mut r: Vec<u8> = Vec::new();
    while b < n && m[b] != 58u8
        invariant
            a <= b <= n == m.len(),
            s == m@.skip(a as int),
            before_first(s, 58u8) == r@ + before_first(m@.skip(b as int), 58u8),
        decreases n - b,
    {
        assert(m@.skip(b as int).drop_first() =~= m@.skip(b + 1));
        let ghost old_r = r@;
        r.push(m[b]);
        assert(r@ =~= old_r + seq![m@[b as int]]);
        assert(before_first(m@.skip(b as int), 58u8) =~= seq![m@[b as int]] + before_first(
            m@.skip(b + 1),
            58u8,
        ));
        b = b + 1;
    }
    assert(before_first(m@.skip(b as int), 58u8) =~= Seq::<u8>::empty());
    assert(r@ + Seq::<u8>::empty() =~= r@);
    r
}

/// Reads the status code after the marker: the digits right after a `:`.
fn status_after_marker_exec(output: &[u8], from: usize) -> (r: Option<u16>)
    requires
        from <= output.len(),
    ensures
        r == status_after_marker(output@.skip(from as int)),
{
    let n = output.len();
    let ghost after = output@.skip(from as int);
    if from >= n || output[from] != 58u8 {
        return None;
    }
    let ghost rest = after.skip(1);
    assert(rest =~= output@.skip(from + 1));
    let mut j: usize = from + 1;
    let mut digits: Vec<char> = Vec::new();
    while j < n && 48u8 <= output[j] && output[j] <= 57u8
        invariant
            from + 1 <= j <= n == output.len(),
            rest == output@.skip(from + 1),
            digit_run(rest) == (j - from - 1) + digit_run(output@.skip(j as int)),
            digits@ == bytes_as_chars(output@.subrange(from + 1, j as int)),
        decreases n - j,
    {
        assert(output@.skip(j as int).drop_first() =~= output@.skip(j + 1));
        let ghost old_d = digits@;
        digits.push(output[j] as char);
        assert(bytes_as_chars(output@.subrange(from + 1, j + 1)) =~= old_d + seq![
            output@[j as int] as char,
        ]);
        j = j + 1;
    }
    assert(digit_run(output@.skip(j as int)) == 0);
    assert(rest.take((j - from - 1) as int) =~= output@.subrange(from + 1, j as int));
    if j == from + 1 {
        return None;
    }
    parse_u16_exec(digits.as_slice())
}

/// Extract the status code from output that ends with the status marker
/// written by curl (`-w`), searching the bytes directly so that invalid
/// UTF-8 in the body cannot shift positions. Returns the output before the
/// last occurrence of the marker (without the newline that precedes it)
/// and the status code after it; output without the marker comes back
/// unchanged with no status.
pub fn extract_status_code(output: &[u8], marker: &str) -> (r: (Vec<u8>, Option<u16>))
    requires
        marker_prefix(marker.spec_bytes()).len() > 0,
    ensures
        (r.0@, r.1) == extract_status(output@, marker_prefix(marker.spec_bytes())),
{
    let m = marker.as_bytes();
    let prefix = marker_prefix_exec(m);
    let p = prefix.as_slice();
    let n = output.len();
    let plen = p.len();
    if plen > n {
        proof {
            assert forall|j: int| 0 <= j < n + 1 implies !occurs_at(output@, p@, j) by {}
            lemma_last_occurrence_skip(output@, p@, 0, n + 1);
        }
        return (bytes_range(output, 0, n), None);
    }
    proof {
        assert forall|j: int| n - plen + 1 <= j < n + 1 implies !occurs_at(output@, p@, j) by {}
        lemma_last_occurrence_skip(output@, p@, n - plen + 1, n + 1);
    }
    let mut k: usize = n - plen + 1;
    loop
        invariant
            k <= n - plen + 1,
            plen == p.len() <= n == output.len(),
            p@ == marker_prefix(marker.spec_bytes()),
            last_occurrence(output@, p@) == last_occurrence_below(output@, p@, k as int),
        decreases k,
    {
        if k == 0 {
            let all = bytes_range(output, 0, n);
            assert(all@ =~= output@);
            return (all, None);
        }
        if bytes_match_at(output, p, k - 1) {
            let pos = k - 1;
            assert(last_occurrence(output@, p@) == Some(pos as int));
            let content_end = if pos > 0 && output[pos - 1] == 10u8 {
                pos - 1
            } else {
                pos
            };
            let content = bytes_range(output, 0, content_end);
            assert(content@ =~= output@.take(content_end as int));
            let status = status_after_marker_exec(output, pos + plen);
            return (content, status);
        }
        k = k - 1;
    }
}

/// Find the first occurrence of `needle` in `haystack` (the empty needle
/// is found at 0).
pub fn find_subslice(haystack: &[u8], needle: &[u8]) -> (r: Option<usize>)
    ensures
        match r {
            Some(i) => occurs_at(haystack@, needle@, i as int) && forall|j: int|
                0 <= j < i ==> !occurs_at(haystack@, needle@, j),
            None => !contains_seq(haystack@, needle@),
        },
{
    if needle.len() == 0 {
        assert(haystack@.subrange(0, 0) =~= needle@);
        return Some(0);
    }
    if haystack.len() < needle.len() {
        return None;
    }
    let last = haystack.len() - needle.len();
    let mut i: usize = 0;
    loop
        invariant
            last == haystack.len() - needle.len(),
            i <= last,
            forall|j: int| 0 <= j < i ==> !occurs_at(haystack@, needle@, j),
        decreases last - i,
    {
        if bytes_match_at(haystack, needle, i) {
            return Some(i);
        }
        if i == last {
            return None;
        }
        i = i + 1;
    }
}

// ---------------------------------------------------------------------------
// Finding the URL among curl's arguments
// ---------------------------------------------------------------------------

/// An argument that is an explicit HTTP(S) URL.
pub open spec fn is_http_url(a: Seq<char>) -> bool {
    starts_with(a, "http://"@) || starts_with(a, "https://"@)
}

/// An argument that looks like a bare host or URL: not a flag, not empty,
/// and either has a dot but no slash, or starts with `http`.
pub open spec fn is_url_like(a: Seq<char>) -> bool {
    &&& !starts_with(a, "-"@)
    &&& a.len() > 0
    &&& ((has_char(a, '.') && !has_char(a, '/')) || starts_with(a, "http"@))
}

/// The last index below `k` whose argument is an explicit HTTP(S) URL.
pub open spec fn last_http_url_below(args: Seq<Seq<char>>, k: int) -> Option<int>
    decreases k,
{
    if k <= 0 {
        None
    } else if is_http_url(args[k - 1]) {
        Some(k - 1)
    } else {
        last_http_url_below(args, k - 1)
    }
}

/// The last index below `k` whose argument looks like a URL.
pub open spec fn last_url_like_below(args: Seq<Seq<char>>, k: int) -> Option<int>
    decreases k,
{
    if k <= 0 {
        None
    } else if is_url_like(args[k - 1]) {
        Some(k - 1)
    } else {
        last_url_like_below(args, k - 1)
    }
}

/// The URL that recurl preflights: the last explicit HTTP(S) URL, or
/// failing that the last argument that looks like one.
pub open spec fn url_in_args(args: Seq<Seq<char>>) -> Option<Seq<char>> {
    match last_http_url_below(args, args.len() as int) {
        Some(i) => Some(args[i]),
        None => match last_url_like_below(args, args.len() as int) {
            Some(i) => Some(args[i]),
            None => None,
        },
    }
}

/// `last_http_url_below` finds the last explicit URL below `k`.
proof fn lemma_last_http_url_below(args: Seq<Seq<char>>, k: int)
    requires
        0 <= k <= args.len(),
    ensures
        match last_http_url_below(args, k) {
            Some(i) => 0 <= i < k && is_http_url(args[i]) && forall|j: int|
                i < j < k ==> !is_http_url(#[trigger] args[j]),
            None => forall|j: int| 0 <= j < k ==> !is_http_url(#[trigger] args[j]),
        },
    decreases k,
{
    if k > 0 {
        lemma_last_http_url_below(args, k - 1);
    }
}

/// `last_url_like_below` finds the last URL-like argument below `k`.
proof fn lemma_last_url_like_below(args: Seq<Seq<char>>, k: int)
    requires
        0 <= k <= args.len(),
    ensures
        match last_url_like_below(args, k) {
            Some(i) => 0 <= i < k && is_url_like(args[i]) && forall|j: int|
                i < j < k ==> !is_url_like(#[trigger] args[j]),
            None => forall|j: int| 0 <= j < k ==> !is_url_like(#[trigger] args[j]),
        },
    decreases k,
{
    if k > 0 {
        lemma_last_url_like_below(args, k - 1);
    }
}

/// Which URL is preflighted: the last argument that is an explicit
/// HTTP(S) URL; when there is none, the last argument that looks like a
/// URL (not a flag, and with a dot but no slash, or starting with `http`);
/// and none when no argument looks like one.
pub proof fn lemma_url_choice(args: Seq<Seq<char>>)
    ensures
        forall|i: int|
            0 <= i < args.len() && is_http_url(#[trigger] args[i]) && (forall|j: int|
                i < j < args.len() ==> !is_http_url(#[trigger] args[j])) ==> url_in_args(args)
                == Some(args[i]),
        forall|i: int|
            0 <= i < args.len() && is_url_like(#[trigger] args[i]) && (forall|j: int|
                0 <= j < args.len() ==> !is_http_url(#[trigger] args[j])) && (forall|j: int|
                i < j < args.len() ==> !is_url_like(#[trigger] args[j])) ==> url_in_args(args)
                == Some(args[i]),
        (forall|j: int|
            0 <= j < args.len() ==> !is_http_url(#[trigger] args[j]) && !is_url_like(args[j]))
            ==> url_in_args(args) is None,
{
    lemma_last_http_url_below(args, args.len() as int);
    lemma_last_url_like_below(args, args.len() as int);
}

fn is_http_url_exec(a: &str) -> (r: bool)
    ensures
        r == is_http_url(a@),
{
    let c = chars_of(a);
    let h1 = chars_of("http://");
    let h2 = chars_of("https://");
    starts_with_chars(c.as_slice(), h1.as_slice()) || starts_with_chars(c.as_slice(), h2.as_slice())
}

fn is_url_like_exec(a: &str) -> (r: bool)
    ensures
        r == is_url_like(a@),
{
    let c = chars_of(a);
    let dash = chars_of("-");
    let http = chars_of("http");
    !starts_with_chars(c.as_slice(), dash.as_slice()) && c.len() > 0 && ((has_char_exec(
        c.as_slice(),
        '.',
    ) && !has_char_exec(c.as_slice(), '/')) || starts_with_chars(c.as_slice(), http.as_slice()))
}

/// Extract URL from curl arguments: the last argument that starts with
/// `http://` or `https://`; failing that, the last argument that is not a
/// flag and has a dot but no slash, or starts with `http`.
pub fn extract_url_from_args(args: &[String]) -> (r: Option<String>)
    ensures
        match r {
            Some(u) => url_in_args(string_views(args@)) == Some(u@),
            None => url_in_args(string_views(args@)) is None,
        },
{
    let ghost views = string_views(args@);
    let mut k: usize = args.len();
    while k > 0
        invariant
            k <= args.len(),
            views == string_views(args@),
            last_http_url_below(views, args.len() as int) == last_http_url_below(views, k as int),
        decreases k,
    {
        assert(views[k - 1] == args@[k - 1]@);
        if is_http_url_exec(args[k - 1].as_str()) {
            return Some(args[k - 1].clone());
        }
        k = k - 1;
    }
    let mut k: usize = args.len();
    while k > 0
        invariant
            k <= args.len(),
            views == string_views(args@),
            last_http_url_below(views, args.len() as int) is None,
            last_url_like_below(views, args.len() as int) == last_url_like_below(views, k as int),
        decreases k,
    {
        assert(views[k - 1] == args@[k - 1]@);
        if is_url_like_exec(args[k - 1].as_str()) {
            return Some(args[k - 1].clone());
        }
        k = k - 1;
    }
    None
}

// ---------------------------------------------------------------------------
// Replaying the request with the preflight's cookies
// ---------------------------------------------------------------------------

/// The first index at or after `k` at which `s` holds `x`.
pub open spec fn first_index_from(s: Seq<Seq<char>>, x: Seq<char>, k: int) -> Option<int>
    decreases s.len() - k,
{
    if k < 0 || k >= s.len() {
        None
    } else if s[k] == x {
        Some(k)
    } else {
        first_index_from(s, x, k + 1)
    }
}

/// `s` with its first element equal to `from` replaced by `to` (unchanged
/// when there is none).
pub open spec fn replace_first(s: Seq<Seq<char>>, from: Seq<char>, to: Seq<char>) -> Seq<
    Seq<char>,
> {
    match first_index_from(s, from, 0) {
        Some(i) => s.update(i, to),
        None => s,
    }
}

/// The curl arguments that send a cookie jar: none for no cookies,
/// otherwise `-b` and the cookie header value.
pub open spec fn cookie_args(cookies: Seq<CookieModel>) -> Seq<Seq<char>> {
    if cookies.len() == 0 {
        seq![]
    } else {
        seq!["-b"@, curl_cookie_string(cookies)]
    }
}

/// The arguments of the replay after a preflight: the request's arguments
/// and the cookie arguments, with the first argument equal to `url`
/// replaced by the final URL when that differs from `url` and is not empty.
pub open spec fn replay_args(
    base: Seq<Seq<char>>,
    cookies: Seq<CookieModel>,
    url: Seq<char>,
    final_url: Seq<char>,
) -> Seq<Seq<char>> {
    let with_cookies = base + cookie_args(cookies);
    if final_url != url && final_url.len() > 0 {
        replace_first(with_cookies, url, final_url)
    } else {
        with_cookies
    }
}

/// Copies strings, keeping their content.
fn copy_strings(v: &[String]) -> (r: Vec<String>)
    ensures
        string_views(r@) == string_views(v@),
{
    let mut r: Vec<String> = Vec::new();
    let n = v.len();
    let mut i: usize = 0;
    while i < n
        invariant
            i <= n == v.len(),
            string_views(r@) == string_views(v@.take(i as int)),
        decreases n - i,
    {
        let ghost old_r = r@;
        r.push(v[i].clone());
        assert(string_views(r@) =~= string_views(old_r) + seq![v@[i as int]@]);
        assert(v@.take(i + 1) =~= v@.take(i as int).push(v@[i as int]));
        assert(string_views(v@.take(i + 1)) =~= string_views(v@.take(i as int)) + seq![
            v@[i as int]@,
        ]);
        i = i + 1;
    }
    assert(v@.take(n as int) =~= v@);
    r
}

/// Build the arguments of the replay after a preflight: the request's
/// arguments followed by `-b` and the cookies (when there are any); when
/// the preflight ended on another, non-empty URL, the first argument equal
/// to `url` becomes that URL.
pub fn build_replay_args(base: &[String], cookies: &ExtractedCookies, url: &str, final_url: &str) -> (r:
    Vec<String>)
    ensures
        string_views(r@) == replay_args(string_views(base@), cookies@, url@, final_url@),
{
    let mut out = copy_strings(base);
    let cargs = cookies.to_curl_args();
    let ghost before = string_views(out@);
    if cargs.len() > 0 {
        let ghost o = out@;
        out.push(cargs[0].clone());
        out.push(cargs[1].clone());
        assert(string_views(out@) =~= before + seq!["-b"@, curl_cookie_string(cookies@)]);
    } else {
        assert(before + cookie_args(cookies@) =~= before);
    }
    let ghost with_cookies = string_views(out@);
    assert(with_cookies == string_views(base@) + cookie_args(cookies@));
    if !str_eq(final_url, url) && !final_url.is_empty() {
        let n = out.len();
        let mut i: usize = 0;
        while i < n
            invariant
                i <= n == out.len(),
                final_url@ != url@ && final_url@.len() > 0,
                with_cookies == string_views(base@) + cookie_args(cookies@),
                string_views(out@) == with_cookies,
                first_index_from(with_cookies, url@, 0) == first_index_from(
                    with_cookies,
                    url@,
                    i as int,
                ),
            decreases n - i,
        {
            assert(with_cookies[i as int] == out@[i as int]@);
            if str_eq(out[i].as_str(), url) {
                assert(first_index_from(with_cookies, url@, i as int) == Some(i as int));
                out.set(i, String::from_str(final_url));
                assert(string_views(out@) =~= with_cookies.update(i as int, final_url@));
                return out;
            }
            i = i + 1;
        }
    }
    out
}

/// What follows a successful or failed preflight.
#[derive(Debug)]
pub enum PreflightOutcome {
    /// The preflight failed: keep the response already in hand.
    Failed,
    /// Answer with the rendered page.
    Rendered(Vec<u8>),
    /// Replay the request with these curl arguments.
    Replay(Vec<String>),
}

/// The abstract content of a [`PreflightOutcome`].
pub enum OutcomeModel {
    Failed,
    Rendered(Seq<u8>),
    Replay(Seq<Seq<char>>),
}

impl View for PreflightOutcome {
    type V = OutcomeModel;

    open spec fn view(&self) -> OutcomeModel {
        match self {
            PreflightOutcome::Failed => OutcomeModel::Failed,
            PreflightOutcome::Rendered(b) => OutcomeModel::Rendered(b@),
            PreflightOutcome::Replay(a) => OutcomeModel::Replay(string_views(a@)),
        }
    }
}

/// What follows a preflight: a failed one changes nothing; a successful
/// one answers with the rendered page when that was asked for and the
/// page is there, and otherwise replays `base` with its cookies.
pub open spec fn outcome_of(
    p: PreflightResult,
    js_rendered: bool,
    base: Seq<Seq<char>>,
    url: Seq<char>,
) -> OutcomeModel {
    if !p.success {
        OutcomeModel::Failed
    } else if js_rendered && p.rendered_html is Some {
        OutcomeModel::Rendered(encode_utf8(p.rendered_html->0@))
    } else {
        OutcomeModel::Replay(replay_args(base, p.cookies@, url, p.final_url@))
    }
}

/// Decide what follows a preflight of `url` made for a request with the
/// arguments `base`.
pub fn preflight_outcome(p: &PreflightResult, js_rendered: bool, base: &[String], url: &str) -> (r:
    PreflightOutcome)
    ensures
        r@ == outcome_of(*p, js_rendered, string_views(base@), url@),
{
    if !p.success {
        return PreflightOutcome::Failed;
    }
    if js_rendered {
        match &p.rendered_html {
            Some(h) => {
                let b = h.as_str().as_bytes();
                let v = bytes_range(b, 0, b.len());
                assert(v@ =~= encode_utf8(h@));
                return PreflightOutcome::Rendered(v);
            },
            None => {},
        }
    }
    PreflightOutcome::Replay(build_replay_args(base, &p.cookies, url, p.final_url.as_str()))
}

// ---------------------------------------------------------------------------
// The escalation state machine
// ---------------------------------------------------------------------------

/// The status marker appended to curl's arguments with `-w`: curl writes
/// it after the body with the HTTP status code in place of `%{http_code}`.
pub open spec fn status_marker_text() -> Seq<char> {
    "\n__RECURL_STATUS__:%{http_code}"@
}

/// The part of the status marker searched for in curl's output.
pub open spec fn status_marker_prefix() -> Seq<u8> {
    marker_prefix(encode_utf8(status_marker_text()))
}

/// `before_first(s, b)` holds no `b`.
pub proof fn lemma_before_first_excludes(s: Seq<u8>, b: u8)
    ensures
        forall|i: int| 0 <= i < before_first(s, b).len() ==> before_first(s, b)[i] != b,
    decreases s.len(),
{
    if s.len() > 0 && s[0] != b {
        lemma_before_first_excludes(s.drop_first(), b);
        let r = before_first(s.drop_first(), b);
        assert forall|i: int| 0 <= i < before_first(s, b).len() implies before_first(s, b)[i] != b by {
            if i > 0 {
                assert(before_first(s, b)[i] == r[i - 1]);
            }
        }
    }
}

/// The searched part of the status marker is not empty, starts with `_`
/// and holds no `:`.
pub proof fn lemma_status_marker_prefix()
    ensures
        status_marker_prefix().len() > 0,
        status_marker_prefix()[0] == 95u8,
        forall|i: int|
            0 <= i < status_marker_prefix().len() ==> status_marker_prefix()[i] != 58u8,
{
    reveal_strlit("\n__RECURL_STATUS__:%{http_code}");
    let t = status_marker_text();
    assert(is_ascii_chars(t));
    is_ascii_chars_encode_utf8(t);
    let b = encode_utf8(t);
    assert(b[0] == 10u8);
    assert(b[1] == 95u8);
    let rest = b.drop_first();
    assert(rest[0] == 95u8);
    assert(strip_leading(rest, 10u8) == rest);
    assert(strip_leading(b, 10u8) == rest);
    assert(before_first(rest, 58u8) == seq![rest[0]] + before_first(rest.drop_first(), 58u8));
    lemma_before_first_excludes(rest, 58u8);
}

/// The user already asked curl for a write-out format (`-w` or
/// `--write-out...`), so recurl adds no status marker.
pub open spec fn has_write_out_flag(args: Seq<Seq<char>>) -> bool {
    exists|i: int| 0 <= i < args.len() && (args[i] == "-w"@ || starts_with(args[i], "--write-out"@))
}

/// The arguments curl runs with: the user's, followed by `-w` and the
/// status marker unless the user gave a write-out format.
pub open spec fn enhanced_args_of(args: Seq<Seq<char>>) -> Seq<Seq<char>> {
    if has_write_out_flag(args) {
        args
    } else {
        args + seq!["-w"@, status_marker_text()]
    }
}

/// The body and status code read from curl's output: with the status
/// marker, the output before it and the code after it; without (the user
/// gave a write-out format), the output as it is and no code.
pub open spec fn read_response(args: Seq<Seq<char>>, raw: Seq<u8>) -> (Seq<u8>, Option<u16>) {
    if has_write_out_flag(args) {
        (raw, None)
    } else {
        extract_status(raw, status_marker_prefix())
    }
}

/// Current state of the escalation engine.
#[derive(Debug)]
pub enum EscalationState {
    /// Initial state: nothing attempted yet
    Start,
    /// curl has been executed
    AfterCurl { stdout: Vec<u8>, exit_code: u8, status: Option<u16> },
    /// Impersonation has been attempted
    AfterImpersonation { stdout: Vec<u8>, exit_code: u8, status: Option<u16> },
    /// JS preflight has been attempted
    AfterJsPreflight { stdout: Vec<u8>, exit_code: u8 },
    /// Terminal state: escalation is complete
    Done(u8),
}

/// The abstract content of an [`EscalationState`].
pub enum StateModel {
    Start,
    AfterCurl { stdout: Seq<u8>, exit_code: u8, status: Option<u16> },
    AfterImpersonation { stdout: Seq<u8>, exit_code: u8, status: Option<u16> },
    AfterJsPreflight { stdout: Seq<u8>, exit_code: u8 },
    Done(u8),
}

impl View for EscalationState {
    type V = StateModel;

    open spec fn view(&self) -> StateModel {
        match self {
            EscalationState::Start => StateModel::Start,
            EscalationState::AfterCurl { stdout, exit_code, status } => StateModel::AfterCurl {
                stdout: stdout@,
                exit_code: *exit_code,
                status: *status,
            },
            EscalationState::AfterImpersonation { stdout, exit_code, status } =>
                StateModel::AfterImpersonation {
                stdout: stdout@,
                exit_code: *exit_code,
                status: *status,
            },
            EscalationState::AfterJsPreflight { stdout, exit_code } =>
                StateModel::AfterJsPreflight { stdout: stdout@, exit_code: *exit_code },
            EscalationState::Done(c) => StateModel::Done(*c),
        }
    }
}

/// How far along the flow a state is.
pub open spec fn stage(s: StateModel) -> nat {
    match s {
        StateModel::Start => 0,
        StateModel::AfterCurl { .. } => 1,
        StateModel::AfterImpersonation { .. } => 2,
        StateModel::AfterJsPreflight { .. } => 3,
        StateModel::Done(_) => 4,
    }
}

/// One step of the flow: the next state, and the response to write to
/// standard output (only when the flow is done).
#[derive(Debug)]
pub struct Step {
    pub state: EscalationState,
    pub output: Option<Vec<u8>>,
}

/// The abstract content of a [`Step`].
pub struct StepModel {
    pub state: StateModel,
    pub output: Option<Seq<u8>>,
}

impl View for Step {
    type V = StepModel;

    open spec fn view(&self) -> StepModel {
        StepModel {
            state: self.state@,
            output: match self.output {
                Some(o) => Some(o@),
                None => None,
            },
        }
    }
}

/// A response that needs no escalation ends the flow and is written out;
/// one that does moves the flow on to `next`.
pub open spec fn settle(body: Seq<u8>, status: Option<u16>, exit_code: u8, next: StateModel) -> StepModel {
    if escalation_needed(status, body) {
        StepModel { state: next, output: None }
    } else {
        StepModel { state: StateModel::Done(exit_code), output: Some(body) }
    }
}

/// The step after the first curl run.
pub open spec fn start_step(args: Seq<Seq<char>>, raw: Seq<u8>, code: Option<i32>) -> StepModel {
    let (body, status) = read_response(args, raw);
    let exit_code = exit_byte(code);
    settle(body, status, exit_code, StateModel::AfterCurl { stdout: body, exit_code, status })
}

/// The step after the impersonation attempt: an attempt with an available
/// engine is read like curl's own response; without one, the flow goes on
/// with curl's response.
pub open spec fn after_curl_step(
    args: Seq<Seq<char>>,
    stdout: Seq<u8>,
    exit_code: u8,
    status: Option<u16>,
    attempt: Option<ImpersonationResult>,
) -> StepModel {
    if attempt is Some && attempt->0.available {
        let r = attempt->0;
        let (body, st) = read_response(args, attempt_stdout(r));
        let code = attempt_exit_code(r);
        settle(body, st, code, StateModel::AfterImpersonation { stdout: body, exit_code: code, status: st })
    } else {
        StepModel { state: StateModel::AfterImpersonation { stdout, exit_code, status }, output: None }
    }
}

/// What follows the impersonation stage: a step, or a replay to run.
#[derive(Debug)]
pub enum Transition {
    /// Move on to this step.
    Finished(Step),
    /// Run curl with these arguments and hand its output to
    /// [`EscalationEngine::step_after_replay`].
    Replay(Vec<String>),
}

/// The abstract content of a [`Transition`].
pub enum TransitionModel {
    Finished(StepModel),
    Replay(Seq<Seq<char>>),
}

impl View for Transition {
    type V = TransitionModel;

    open spec fn view(&self) -> TransitionModel {
        match self {
            Transition::Finished(s) => TransitionModel::Finished(s@),
            Transition::Replay(a) => TransitionModel::Replay(string_views(a@)),
        }
    }
}

/// The transition after the preflight: without a URL or a preflight, or
/// when the preflight failed, the flow goes on with the response in hand;
/// a rendered page ends it with exit code 0; otherwise the request is
/// replayed with the preflight's cookies.
pub open spec fn after_impersonation_step(
    args: Seq<Seq<char>>,
    js_rendered: bool,
    stdout: Seq<u8>,
    exit_code: u8,
    preflight: Option<PreflightResult>,
) -> TransitionModel {
    let keep = TransitionModel::Finished(
        StepModel { state: StateModel::AfterJsPreflight { stdout, exit_code }, output: None },
    );
    match url_in_args(args) {
        None => keep,
        Some(url) => match preflight {
            None => keep,
            Some(p) => match outcome_of(p, js_rendered, enhanced_args_of(args), url) {
                OutcomeModel::Failed => keep,
                OutcomeModel::Rendered(html) => TransitionModel::Finished(
                    StepModel { state: StateModel::Done(0), output: Some(html) },
                ),
                OutcomeModel::Replay(a) => TransitionModel::Replay(a),
            },
        },
    }
}

/// The step after the replay.
pub open spec fn after_replay_step(args: Seq<Seq<char>>, raw: Seq<u8>, code: Option<i32>) -> StepModel {
    let (body, status) = read_response(args, raw);
    let exit_code = exit_byte(code);
    settle(body, status, exit_code, StateModel::AfterJsPreflight { stdout: body, exit_code })
}

/// The last step: every layer was tried, so the last response is written.
pub open spec fn after_js_step(stdout: Seq<u8>, exit_code: u8) -> StepModel {
    StepModel { state: StateModel::Done(exit_code), output: Some(stdout) }
}

/// Escalation engine drives the smart-mode request flow: it decides each
/// step from the outcome of the outside work (running curl, an
/// impersonation engine, a preflight) that its caller performs.
pub struct EscalationEngine {
    args: Vec<String>,
    config: RecurlConfig,
    enhanced_args: Vec<String>,
    has_write_out: bool,
    status_marker: String,
}

/// The abstract content of an [`EscalationEngine`]: the user's curl
/// arguments and the configuration.
pub struct EngineModel {
    pub args: Seq<Seq<char>>,
    pub config: ConfigModel,
}

impl View for EscalationEngine {
    type V = EngineModel;

    closed spec fn view(&self) -> EngineModel {
        EngineModel { args: string_views(self.args@), config: self.config@ }
    }
}

/// A copy of a byte vector.
fn copy_bytes(v: &Vec<u8>) -> (r: Vec<u8>)
    ensures
        r@ == v@,
{
    let r = bytes_range(v.as_slice(), 0, v.len());
    assert(r@ =~= v@);
    r
}

/// Whether an argument asks curl for a write-out format.
fn is_write_out_arg(a: &str) -> (r: bool)
    ensures
        r == (a@ == "-w"@ || starts_with(a@, "--write-out"@)),
{
    let c = chars_of(a);
    let w = chars_of("--write-out");
    str_eq(a, "-w") || starts_with_chars(c.as_slice(), w.as_slice())
}

impl EscalationEngine {
    #[verifier::type_invariant]
    closed spec fn well_formed(self) -> bool {
        &&& self.status_marker@ == status_marker_text()
        &&& self.has_write_out == has_write_out_flag(string_views(self.args@))
        &&& string_views(self.enhanced_args@) == enhanced_args_of(string_views(self.args@))
    }

    /// Set up the flow for the user's curl arguments: when they do not
    /// give a write-out format, curl is asked to append the status marker.
    pub fn new(args: &[String], config: &RecurlConfig) -> (r: Self)
        ensures
            r@.args == string_views(args@),
            r@.config == config@,
    {
        let ghost views = string_views(args@);
        let mut has_write_out = false;
        let n = args.len();
        let mut i: usize = 0;
        while i < n
            invariant
                i <= n == args.len(),
                views == string_views(args@),
                has_write_out == exists|j: int|
                    0 <= j < i && (views[j] == "-w"@ || starts_with(views[j], "--write-out"@)),
            decreases n - i,
        {
            assert(views[i as int] == args@[i as int]@);
            if is_write_out_arg(args[i].as_str()) {
                has_write_out = true;
            }
            i = i + 1;
        }
        let status_marker = String::from_str("\n__RECURL_STATUS__:%{http_code}");
        let mut enhanced_args = copy_strings(args);
        if !has_write_out {
            let ghost before = string_views(enhanced_args@);
            enhanced_args.push(String::from_str("-w"));
            enhanced_args.push(status_marker.clone());
            assert(string_views(enhanced_args@) =~= before + seq!["-w"@, status_marker_text()]);
        }
        let cfg = config.clone_config();
        EscalationEngine {
            args: copy_strings(args),
            config: cfg,
            enhanced_args,
            has_write_out,
            status_marker,
        }
    }

    /// The arguments curl runs with.
    pub fn curl_args(&self) -> (r: &[String])
        ensures
            string_views(r@) == enhanced_args_of(self@.args),
    {
        proof {
            use_type_invariant(self);
        }
        self.enhanced_args.as_slice()
    }

    /// The configuration.
    pub fn config(&self) -> (r: &RecurlConfig)
        ensures
            r@ == self@.config,
    {
        &self.config
    }

    /// The impersonation profile asked for with `--recurl-impersonate`, if
    /// it names one.
    pub fn preferred_profile(&self) -> (r: Option<ImpersonationProfile>)
        ensures
            r == match self@.config.impersonate {
                Some(s) => profile_for_name(lowercase_of(s)),
                None => None,
            },
    {
        match &self.config.impersonate {
            Some(s) => ImpersonationProfile::from_str(s.as_str()),
            None => None,
        }
    }

    /// The URL to preflight, if the arguments hold one.
    pub fn preflight_url(&self) -> (r: Option<String>)
        ensures
            match r {
                Some(u) => url_in_args(self@.args) == Some(u@),
                None => url_in_args(self@.args) is None,
            },
    {
        extract_url_from_args(self.args.as_slice())
    }

    /// Reads curl's output: the body and the status code.
    pub fn read_output(&self, raw: &[u8]) -> (r: (Vec<u8>, Option<u16>))
        ensures
            (r.0@, r.1) == read_response(self@.args, raw@),
    {
        proof {
            use_type_invariant(self);
            lemma_status_marker_prefix();
        }
        if !self.has_write_out {
            extract_status_code(raw, self.status_marker.as_str())
        } else {
            let all = bytes_range(raw, 0, raw.len());
            assert(all@ =~= raw@);
            (all, None)
        }
    }

    /// A response that needs no escalation ends the flow; one that does
    /// moves it on to the state `next` builds.
    fn settle_response(body: Vec<u8>, status: Option<u16>, exit_code: u8, next: EscalationState) -> (r:
        Step)
        ensures
            r@ == settle(body@, status, exit_code, next@),
    {
        let detection = DetectionResult::analyze(status, body.as_slice());
        if detection.should_escalate {
            Step { state: next, output: None }
        } else {
            Step { state: EscalationState::Done(exit_code), output: Some(body) }
        }
    }

    /// Step 1: analyse the output and exit code of the first curl run
    /// (made with [`curl_args`](Self::curl_args)).
    pub fn step_start(&self, raw: &[u8], code: Option<i32>) -> (r: Step)
        ensures
            r@ == start_step(self@.args, raw@, code),
    {
        let (body, status) = self.read_output(raw);
        let exit_code = exit_code_of(code);
        let next = EscalationState::AfterCurl {
            stdout: copy_bytes(&body),
            exit_code,
            status,
        };
        proof {
            assert(next@ == (StateModel::AfterCurl { stdout: body@, exit_code, status }));
        }
        Self::settle_response(body, status, exit_code, next)
    }

    /// Step 2: analyse the impersonation attempt (made with
    /// [`curl_args`](Self::curl_args) and
    /// [`preferred_profile`](Self::preferred_profile); `None` when no
    /// engine was found), given curl's response in `stdout`.
    pub fn step_after_curl(
        &self,
        stdout: Vec<u8>,
        exit_code: u8,
        status: Option<u16>,
        attempt: Option<ImpersonationResult>,
    ) -> (r: Step)
        ensures
            r@ == after_curl_step(self@.args, stdout@, exit_code, status, attempt),
    {
        match attempt {
            Some(imp) => {
                if imp.available {
                    let (body, st) = self.read_output(imp.stdout());
                    let code = imp.exit_code();
                    let next = EscalationState::AfterImpersonation {
                        stdout: copy_bytes(&body),
                        exit_code: code,
                        status: st,
                    };
                    proof {
                        assert(next@ == (StateModel::AfterImpersonation {
                            stdout: body@,
                            exit_code: code,
                            status: st,
                        }));
                    }
                    return Self::settle_response(body, st, code, next);
                }
            },
            None => {},
        }
        Step { state: EscalationState::AfterImpersonation { stdout, exit_code, status }, output: None }
    }

    /// Step 3: decide what follows the preflight of
    /// [`preflight_url`](Self::preflight_url) (`None` when there was no
    /// URL or no preflight), given the response in hand.
    pub fn step_after_impersonation(
        &self,
        stdout: Vec<u8>,
        exit_code: u8,
        preflight: Option<PreflightResult>,
    ) -> (r: Transition)
        ensures
            r@ == after_impersonation_step(
                self@.args,
                self@.config.js_rendered,
                stdout@,
                exit_code,
                preflight,
            ),
    {
        proof {
            use_type_invariant(self);
        }
        let url = match self.preflight_url() {
            Some(u) => u,
            None => {
                return Transition::Finished(
                    Step {
                        state: EscalationState::AfterJsPreflight { stdout, exit_code },
                        output: None,
                    },
                );
            },
        };
        let p = match preflight {
            Some(p) => p,
            None => {
                return Transition::Finished(
                    Step {
                        state: EscalationState::AfterJsPreflight { stdout, exit_code },
                        output: None,
                    },
                );
            },
        };
        match preflight_outcome(&p, self.config.js_rendered, self.enhanced_args.as_slice(), url.as_str()) {
            PreflightOutcome::Failed => Transition::Finished(
                Step { state: EscalationState::AfterJsPreflight { stdout, exit_code }, output: None },
            ),
            PreflightOutcome::Rendered(html) => Transition::Finished(
                Step { state: EscalationState::Done(0), output: Some(html) },
            ),
            PreflightOutcome::Replay(a) => Transition::Replay(a),
        }
    }

    /// Step 3, after a replay: analyse the replay's output and exit code.
    pub fn step_after_replay(&self, raw: &[u8], code: Option<i32>) -> (r: Step)
        ensures
            r@ == after_replay_step(self@.args, raw@, code),
    {
        let (body, status) = self.read_output(raw);
        let exit_code = exit_code_of(code);
        let next = EscalationState::AfterJsPreflight {
            stdout: copy_bytes(&body),
            exit_code,
        };
        proof {
            assert(next@ == (StateModel::AfterJsPreflight { stdout: body@, exit_code }));
        }
        Self::settle_response(body, status, exit_code, next)
    }

    /// Step 4: all escalation layers exhausted; the last response is
    /// written out.
    pub fn step_after_js_preflight(&self, stdout: Vec<u8>, exit_code: u8) -> (r: Step)
        ensures
            r@ == after_js_step(stdout@, exit_code),
    {
        Step { state: EscalationState::Done(exit_code), output: Some(stdout) }
    }
}

/// A step writes a response exactly when it ends the flow.
pub open spec fn writes_iff_done(s: StepModel) -> bool {
    (s.output is Some) == (s.state is Done)
}

/// Every step of the escalation moves the flow to a later stage, and a
/// step writes a response exactly when it ends the flow. So the flow ends
/// after at most four steps (the preflight and its replay counting as one)
/// and writes exactly one response.
pub proof fn lemma_steps_advance(
    args: Seq<Seq<char>>,
    js_rendered: bool,
    raw: Seq<u8>,
    code: Option<i32>,
    stdout: Seq<u8>,
    exit_code: u8,
    status: Option<u16>,
    attempt: Option<ImpersonationResult>,
    preflight: Option<PreflightResult>,
)
    ensures
        stage(start_step(args, raw, code).state) > stage(StateModel::Start),
        writes_iff_done(start_step(args, raw, code)),
        stage(after_curl_step(args, stdout, exit_code, status, attempt).state) > stage(
            StateModel::AfterCurl { stdout, exit_code, status },
        ),
        writes_iff_done(after_curl_step(args, stdout, exit_code, status, attempt)),
        match after_impersonation_step(args, js_rendered, stdout, exit_code, preflight) {
            TransitionModel::Finished(s) => stage(s.state) > stage(
                StateModel::AfterImpersonation { stdout, exit_code, status },
            ) && writes_iff_done(s),
            TransitionModel::Replay(_) => true,
        },
        stage(after_replay_step(args, raw, code).state) > stage(
            StateModel::AfterImpersonation { stdout, exit_code, status },
        ),
        writes_iff_done(after_replay_step(args, raw, code)),
        after_js_step(stdout, exit_code).state is Done,
        writes_iff_done(after_js_step(stdout, exit_code)),
{
}

/// A first response that is not blocked passes through unchanged: the
/// flow ends at once and writes curl's body with curl's exit code.
pub proof fn lemma_unblocked_passes_through(args: Seq<Seq<char>>, raw: Seq<u8>, code: Option<i32>)
    requires
        !escalation_needed(read_response(args, raw).1, read_response(args, raw).0),
    ensures
        start_step(args, raw, code) == (StepModel {
            state: StateModel::Done(exit_byte(code)),
            output: Some(read_response(args, raw).0),
        }),
{
}

/// No false positives: a first response whose status code is known and
/// not blocking (a 200, say) passes through unchanged, whatever its body
/// holds, anti-bot signatures included.
pub proof fn lemma_known_good_status_passes_through(
    args: Seq<Seq<char>>,
    raw: Seq<u8>,
    code: Option<i32>,
)
    requires
        read_response(args, raw).1 matches Some(c) && !blocking_status(c),
    ensures
        start_step(args, raw, code) == (StepModel {
            state: StateModel::Done(exit_byte(code)),
            output: Some(read_response(args, raw).0),
        }),
{
    lemma_unblocked_passes_through(args, raw, code);
}

/// The impersonation layer: an attempt made with an available engine is
/// read back like curl's own response. When that response still calls for
/// escalation, nothing is written and the flow goes on to the preflight
/// carrying exactly the attempt's body, exit code and status; only an
/// attempt that gets through ends the flow, writing its body with its exit
/// code. Without an engine, the flow goes on with curl's response as it was.
pub proof fn lemma_impersonation_layer(
    args: Seq<Seq<char>>,
    stdout: Seq<u8>,
    exit_code: u8,
    status: Option<u16>,
    attempt: Option<ImpersonationResult>,
)
    ensures
        ({
            let step = after_curl_step(args, stdout, exit_code, status, attempt);
            match attempt {
                Some(r) => if r.available {
                    let body = read_response(args, attempt_stdout(r)).0;
                    let st = read_response(args, attempt_stdout(r)).1;
                    if escalation_needed(st, body) {
                        &&& step.output is None
                        &&& step.state == StateModel::AfterImpersonation {
                            stdout: body,
                            exit_code: attempt_exit_code(r),
                            status: st,
                        }
                    } else {
                        &&& step.output == Some(body)
                        &&& step.state == StateModel::Done(attempt_exit_code(r))
                    }
                } else {
                    &&& step.output is None
                    &&& step.state == StateModel::AfterImpersonation { stdout, exit_code, status }
                },
                None => {
                    &&& step.output is None
                    &&& step.state == StateModel::AfterImpersonation { stdout, exit_code, status }
                },
            }
        }),
{
}

/// The preflight layer keeps the response in hand when it cannot help:
/// when the arguments hold no URL, no preflight was made, or the preflight
/// failed, the flow goes on to the last step with exactly the body and exit
/// code it was given, and writes nothing yet. A successful preflight either
/// answers with the rendered page (when that was asked for and is there)
/// with exit code 0, or replays the request, as curl ran it, with the
/// preflight's cookies and final URL.
pub proof fn lemma_preflight_layer(
    args: Seq<Seq<char>>,
    js_rendered: bool,
    stdout: Seq<u8>,
    exit_code: u8,
    preflight: Option<PreflightResult>,
)
    ensures
        (url_in_args(args) is None || preflight is None || !preflight->0.success) ==> after_impersonation_step(
            args,
            js_rendered,
            stdout,
            exit_code,
            preflight,
        ) == TransitionModel::Finished(
            StepModel { state: StateModel::AfterJsPreflight { stdout, exit_code }, output: None },
        ),
        (url_in_args(args) is Some && preflight is Some && preflight->0.success && js_rendered
            && preflight->0.rendered_html is Some) ==> after_impersonation_step(
            args,
            js_rendered,
            stdout,
            exit_code,
            preflight,
        ) == TransitionModel::Finished(
            StepModel {
                state: StateModel::Done(0),
                output: Some(encode_utf8(preflight->0.rendered_html->0@)),
            },
        ),
        (url_in_args(args) is Some && preflight is Some && preflight->0.success && !(js_rendered
            && preflight->0.rendered_html is Some)) ==> after_impersonation_step(
            args,
            js_rendered,
            stdout,
            exit_code,
            preflight,
        ) == TransitionModel::Replay(
            replay_args(
                enhanced_args_of(args),
                preflight->0.cookies@,
                url_in_args(args)->0,
                preflight->0.final_url@,
            ),
        ),
{
}

/// The arguments curl runs with keep the user's arguments, in order, as
/// their beginning, and add at most the status marker request.
pub proof fn lemma_enhanced_args_keep_user_args(args: Seq<Seq<char>>)
    ensures
        enhanced_args_of(args).take(args.len() as int) == args,
        enhanced_args_of(args).len() == args.len() + (if has_write_out_flag(args) {
            0int
        } else {
            2int
        }),
{
    assert(enhanced_args_of(args).take(args.len() as int) =~= args);
}

// ---------------------------------------------------------------------------
// Choosing the mode, and where the preflight runs
// ---------------------------------------------------------------------------

/// How recurl runs a request.
#[derive(Debug, Clone, Copy, PartialEq, Eq, Structural)]
pub enum RunMode {
    /// Strict mode: curl runs with recurl's terminal; nothing is analysed
    Passthrough,
    /// `--recurl-js`: straight to the JS preflight and a replay
    JsOnly,
    /// Smart mode: curl, then impersonation, then the JS preflight
    Escalate,
}

/// The mode a configuration asks for: strict mode wins over everything,
/// then `--recurl-js`, and otherwise smart escalation.
pub open spec fn mode_of(config: ConfigModel) -> RunMode {
    if config.strict {
        RunMode::Passthrough
    } else if config.js {
        RunMode::JsOnly
    } else {
        RunMode::Escalate
    }
}

/// Choose how to run the request.
pub fn run_mode(config: &RecurlConfig) -> (r: RunMode)
    ensures
        r == mode_of(config@),
{
    if config.strict {
        RunMode::Passthrough
    } else if config.js {
        RunMode::JsOnly
    } else {
        RunMode::Escalate
    }
}

/// Strict mode is a pure passthrough: whatever else is set, it neither
/// analyses nor escalates.
pub proof fn lemma_strict_is_passthrough(config: ConfigModel)
    requires
        config.strict,
    ensures
        mode_of(config) == RunMode::Passthrough,
{
}

/// Where a preflight runs.
#[derive(Debug, Clone, Copy, PartialEq, Eq, Structural)]
pub enum PreflightRoute {
    /// In a browser launched for this request
    Direct,
    /// Through the daemon, starting it first when asked to
    Daemon { start_first: bool },
}

/// The route for a preflight: the daemon when it is forced on (started if
/// needed), never when it is forced off, and otherwise when it runs.
pub open spec fn route_of(daemon: Option<bool>, daemon_running: bool) -> PreflightRoute {
    match daemon {
        Some(true) => PreflightRoute::Daemon { start_first: true },
        Some(false) => PreflightRoute::Direct,
        None => if daemon_running {
            PreflightRoute::Daemon { start_first: false }
        } else {
            PreflightRoute::Direct
        },
    }
}

/// Choose where the preflight runs, given `--recurl-daemon` and whether
/// the daemon's socket exists.
pub fn preflight_route(daemon: Option<bool>, daemon_running: bool) -> (r: PreflightRoute)
    ensures
        r == route_of(daemon, daemon_running),
{
    match daemon {
        Some(true) => PreflightRoute::Daemon { start_first: true },
        Some(false) => PreflightRoute::Direct,
        None => if daemon_running {
            PreflightRoute::Daemon { start_first: false }
        } else {
            PreflightRoute::Direct
        },
    }
}

/// The daemon is used exactly as `--recurl-daemon` says: never when it is
/// switched off (whether or not it runs), always when it is switched on
/// (started first), and otherwise when it runs.
pub proof fn lemma_daemon_switch_decides(daemon_running: bool)
    ensures
        route_of(Some(false), daemon_running) == PreflightRoute::Direct,
        route_of(Some(true), daemon_running) == (PreflightRoute::Daemon { start_first: true }),
        route_of(None, daemon_running) is Daemon <==> daemon_running,
{
}

/// The cookies of a list of (name, value) pairs.
pub open spec fn pair_cookies(pairs: Seq<(String, String)>) -> Seq<CookieModel> {
    pairs.map_values(
        |p: (String, String)|
            CookieModel {
                name: p.0@,
                value: p.1@,
                domain: None,
                path: None,
                secure: false,
                http_only: false,
            },
    )
}

/// The preflight result a daemon's answer gives: its cookies, final URL
/// and page on success, its error on failure, and a failure for any other
/// answer.
pub fn preflight_from_response(resp: DaemonResponse) -> (r: PreflightResult)
    ensures
        match resp {
            DaemonResponse::PreflightSuccess { cookies, final_url, html } => {
                &&& r.success
                &&& r.cookies@ == add_all(Seq::empty(), pair_cookies(cookies@))
                &&& r.final_url@ == final_url@
                &&& r.error is None
                &&& opt_view(r.rendered_html) == opt_view(html)
            },
            DaemonResponse::PreflightError { error } => {
                &&& !r.success
                &&& r.cookies@.len() == 0
                &&& r.final_url@.len() == 0
                &&& opt_view(r.error) == Some(error@)
                &&& r.rendered_html is None
            },
            _ => {
                &&& !r.success
                &&& r.cookies@.len() == 0
                &&& r.final_url@.len() == 0
                &&& opt_view(r.error) == Some("unexpected daemon response"@)
                &&& r.rendered_html is None
            },
        },
{
    match resp {
        DaemonResponse::PreflightSuccess { cookies, final_url, html } => {
            let ghost pairs = cookies@;
            let total = cookies.len();
            let mut list: Vec<Cookie> = Vec::new();
            let mut rest = cookies;
            let mut k: usize = 0;
            while rest.len() > 0
                invariant
                    k + rest@.len() == pairs.len() == total,
                    rest@ == pairs.skip(k as int),
                    cookie_views(list@) == pair_cookies(pairs.take(k as int)),
                decreases rest.len(),
            {
                let ghost before = rest@;
                let (name, value) = rest.remove(0);
                assert(rest@ =~= pairs.skip(k + 1));
                assert(before[0] == pairs[k as int]);
                let ghost lb = cookie_views(list@);
                list.push(Cookie::new(name, value));
                assert(pairs.take(k + 1) =~= pairs.take(k as int).push(pairs[k as int]));
                assert(cookie_views(list@) =~= lb.push(pair_cookies(pairs)[k as int]));
                assert(pair_cookies(pairs.take(k + 1)) =~= pair_cookies(pairs.take(k as int)).push(
                    pair_cookies(pairs)[k as int],
                ));
                k = k + 1;
            }
            assert(pairs.take(k as int) =~= pairs);
            let jar = ExtractedCookies::from_cookies(list);
            match html {
                Some(h) => PreflightResult::success_with_html(jar, final_url, h),
                None => PreflightResult::success(jar, final_url),
            }
        },
        DaemonResponse::PreflightError { error } => PreflightResult::failed(error),
        _ => PreflightResult::failed(String::from_str("unexpected daemon response")),
    }
}

/// The bytes of the decimal representation of `n`.
pub open spec fn decimal_bytes(n: nat) -> Seq<u8> {
    decimal_digits(n).map_values(|c: char| c as u8)
}

/// A run of ASCII digits is read whole.
proof fn lemma_digit_run_all(d: Seq<u8>)
    requires
        forall|i: int| 0 <= i < d.len() ==> is_ascii_digit(#[trigger] d[i]),
    ensures
        digit_run(d) == d.len(),
    decreases d.len(),
{
    if d.len() > 0 {
        assert(is_ascii_digit(d[0]));
        assert forall|i: int| 0 <= i < d.drop_first().len() implies is_ascii_digit(
            #[trigger] d.drop_first()[i],
        ) by {
            assert(d.drop_first()[i] == d[i + 1]);
        }
        lemma_digit_run_all(d.drop_first());
    }
}

/// The status marker round trip: when curl writes the body, then the
/// status marker with the status code in place of `%{http_code}`, recurl
/// reads back exactly the body and the status code, whatever the body
/// holds (another marker included: the last one counts).
pub proof fn lemma_status_marker_round_trip(body: Seq<u8>, code: u16)
    ensures
        extract_status(
            body + seq![10u8] + status_marker_prefix() + seq![58u8] + decimal_bytes(code as nat),
            status_marker_prefix(),
        ) == (body, Some(code)),
{
    let pre = status_marker_prefix();
    lemma_status_marker_prefix();
    lemma_decimal_digits(code as nat);
    let digits = decimal_digits(code as nat);
    let d = decimal_bytes(code as nat);
    assert forall|i: int| 0 <= i < d.len() implies is_ascii_digit(#[trigger] d[i]) by {
        assert(is_digit(digits[i]));
    }
    let out = body + seq![10u8] + pre + seq![58u8] + d;
    let p: int = body.len() + 1int;
    let l: int = pre.len() as int;
    assert(out.len() == p + l + 1 + d.len());
    assert(out.subrange(p, p + l) =~= pre);
    assert(occurs_at(out, pre, p));
    assert forall|q: int| p + 1 <= q < out.len() + 1 implies !occurs_at(out, pre, q) by {
        if q + l <= out.len() {
            if q <= p + l {
                assert(out[p + l] == 58u8);
                assert(out.subrange(q, q + l)[p + l - q] == out[p + l]);
                assert(pre[p + l - q] != 58u8);
            } else {
                assert(is_ascii_digit(d[q - p - l - 1]));
                assert(out[q] == d[q - p - l - 1]);
                assert(out.subrange(q, q + l)[0] == out[q]);
            }
        }
    }
    lemma_last_occurrence_skip(out, pre, p + 1, out.len() + 1int);
    assert(last_occurrence(out, pre) == Some(p));
    assert(out[p - 1] == 10u8);
    assert(out.take(p - 1) =~= body);
    let after = out.skip(p + l);
    assert(after =~= seq![58u8] + d);
    let rest = after.skip(1);
    assert(rest =~= d);
    lemma_digit_run_all(d);
    assert(rest.take(d.len() as int) =~= d);
    assert(bytes_as_chars(d) =~= digits) by {
        assert forall|i: int| 0 <= i < digits.len() implies bytes_as_chars(d)[i] == digits[i] by {
            assert(is_digit(digits[i]));
        }
    }
    assert(digits[0] != '+') by {
        assert(is_digit(digits[0]));
    }
    assert(parse_unsigned(digits, 65535) == Some(code as nat));
}

/// Output without the status marker comes back unchanged, with no status
/// code.
pub proof fn lemma_unmarked_output_unchanged(output: Seq<u8>)
    requires
        !contains_seq(output, status_marker_prefix()),
    ensures
        extract_status(output, status_marker_prefix()) == (output, None::<u16>),
{
    let pre = status_marker_prefix();
    assert forall|j: int| 0 <= j < output.len() + 1 implies !occurs_at(output, pre, j) by {}
    lemma_last_occurrence_skip(output, pre, 0, output.len() + 1int);
}

} // verus!
