//! Cookie extraction and formatting for curl replay.

use vstd::prelude::*;
use crate::config::opt_view;
use crate::detection::patterns::str_views;
use crate::text::{chars_of, starts_with, starts_with_chars, str_eq};

verus! {

/// A single cookie.
#[derive(Debug, Clone)]
pub struct Cookie {
    pub name: String,
    pub value: String,
    pub domain: Option<String>,
    pub path: Option<String>,
    pub secure: bool,
    pub http_only: bool,
}

/// The abstract content of a [`Cookie`].
pub struct CookieModel {
    pub name: Seq<char>,
    pub value: Seq<char>,
    pub domain: Option<Seq<char>>,
    pub path: Option<Seq<char>>,
    pub secure: bool,
    pub http_only: bool,
}

impl View for Cookie {
    type V = CookieModel;

    open spec fn view(&self) -> CookieModel {
        CookieModel {
            name: self.name@,
            value: self.value@,
            domain: opt_view(self.domain),
            path: opt_view(self.path),
            secure: self.secure,
            http_only: self.http_only,
        }
    }
}

/// Clones a cookie, keeping its content.
fn clone_cookie(c: &Cookie) -> (r: Cookie)
    ensures
        r@ == c@,
{
    Cookie {
        name: c.name.clone(),
        value: c.value.clone(),
        domain: match &c.domain {
            Some(d) => Some(d.clone()),
            None => None,
        },
        path: match &c.path {
            Some(p) => Some(p.clone()),
            None => None,
        },
        secure: c.secure,
        http_only: c.http_only,
    }
}

impl Cookie {
    /// Create a new cookie.
    pub fn new(name: String, value: String) -> (r: Self)
        ensures
            r@ == (CookieModel {
                name: name@,
                value: value@,
                domain: None,
                path: None,
                secure: false,
                http_only: false,
            }),
    {
        Cookie { name, value, domain: None, path: None, secure: false, http_only: false }
    }

    /// Create a cookie with all fields.
    pub fn full(
        name: String,
        value: String,
        domain: Option<String>,
        path: Option<String>,
        secure: bool,
        http_only: bool,
    ) -> (r: Self)
        ensures
            r@ == (CookieModel {
                name: name@,
                value: value@,
                domain: opt_view(domain),
                path: opt_view(path),
                secure,
                http_only,
            }),
    {
        Cookie { name, value, domain, path, secure, http_only }
    }
}

/// No two cookies of `s` share a name.
pub open spec fn names_distinct(s: Seq<CookieModel>) -> bool {
    forall|i: int, j: int| 0 <= i < s.len() && 0 <= j < s.len() && i != j ==> s[i].name != s[j].name
}

/// The index of the cookie named `name`, if there is one.
pub open spec fn index_of_name(s: Seq<CookieModel>, name: Seq<char>) -> Option<int> {
    if exists|i: int| 0 <= i < s.len() && s[i].name == name {
        Some(choose|i: int| 0 <= i < s.len() && s[i].name == name)
    } else {
        None
    }
}

/// Adding a cookie: it replaces the cookie of the same name in place, or
/// is appended.
pub open spec fn add_cookie(s: Seq<CookieModel>, c: CookieModel) -> Seq<CookieModel> {
    match index_of_name(s, c.name) {
        Some(i) => s.update(i, c),
        None => s.push(c),
    }
}

/// Adding cookies one after the other.
pub open spec fn add_all(s: Seq<CookieModel>, cs: Seq<CookieModel>) -> Seq<CookieModel>
    decreases cs.len(),
{
    if cs.len() == 0 {
        s
    } else {
        add_all(add_cookie(s, cs[0]), cs.drop_first())
    }
}

/// The `name=value` pairs of cookies joined with `; ` (curl's `-b` form).
pub open spec fn curl_cookie_string(s: Seq<CookieModel>) -> Seq<char>
    decreases s.len(),
{
    if s.len() == 0 {
        seq![]
    } else if s.len() == 1 {
        s[0].name + "="@ + s[0].value
    } else {
        curl_cookie_string(s.drop_last()) + "; "@ + s.last().name + "="@ + s.last().value
    }
}

/// Cookie names that signal a passed anti-bot challenge: Cloudflare,
/// Akamai, PerimeterX, DataDome and Imperva.
pub open spec fn antibot_cookie_names() -> Seq<Seq<char>> {
    seq![
        "cf_clearance"@,
        "__cf_bm"@,
        "_abck"@,
        "ak_bmsc"@,
        "_px3"@,
        "_pxvid"@,
        "datadome"@,
        "incap_ses"@,
        "visid_incap"@,
    ]
}

/// Beginnings of the cookie names that signal a passed Imperva challenge:
/// the `incap_ses_*` and `visid_incap_*` families.
pub open spec fn antibot_cookie_prefixes() -> Seq<Seq<char>> {
    seq!["incap_ses_"@, "visid_incap_"@]
}

/// Some cookie of `s` has a name that begins with `prefix`.
pub open spec fn has_name_prefix(s: Seq<CookieModel>, prefix: Seq<char>) -> bool {
    exists|i: int| 0 <= i < s.len() && starts_with(s[i].name, prefix)
}

/// The names of cookies, in order.
pub open spec fn cookie_names(s: Seq<CookieModel>) -> Seq<Seq<char>> {
    s.map_values(|c: CookieModel| c.name)
}

/// A cookie named `name` is present.
pub open spec fn has_name(s: Seq<CookieModel>, name: Seq<char>) -> bool {
    exists|i: int| 0 <= i < s.len() && s[i].name == name
}

/// Extracted cookies from a browser session, indexed by name: no two
/// cookies share a name.
#[derive(Debug)]
pub struct ExtractedCookies {
    cookies: Vec<Cookie>,
}

/// The views of a vector of cookies.
pub open spec fn cookie_views(v: Seq<Cookie>) -> Seq<CookieModel> {
    v.map_values(|c: Cookie| c@)
}

impl View for ExtractedCookies {
    type V = Seq<CookieModel>;

    closed spec fn view(&self) -> Seq<CookieModel> {
        cookie_views(self.cookies@)
    }
}

impl Default for ExtractedCookies {
    /// No cookies.
    fn default() -> (r: Self)
        ensures
            r@ == Seq::<CookieModel>::empty(),
    {
        ExtractedCookies::empty()
    }
}

impl Clone for ExtractedCookies {
    fn clone(&self) -> (r: Self)
        ensures
            r@ == self@,
    {
        proof {
            use_type_invariant(self);
        }
        let mut v: Vec<Cookie> = Vec::new();
        let mut i: usize = 0;
        while i < self.cookies.len()
            invariant
                i <= self.cookies.len(),
                self@ == cookie_views(self.cookies@),
                cookie_views(v@) == self@.take(i as int),
                v.len() == i,
            decreases self.cookies.len() - i,
        {
            let c = clone_cookie(&self.cookies[i]);
            let ghost cv = c@;
            assert(self@[i as int] == cv);
            let ghost before = v@;
            v.push(c);
            assert(cookie_views(v@)[i as int] == cv);
            assert(cookie_views(v@) =~= self@.take(i + 1));
            i = i + 1;
        }
        assert(self@.take(self@.len() as int) =~= self@);
        ExtractedCookies { cookies: v }
    }
}

impl ExtractedCookies {
    #[verifier::type_invariant]
    closed spec fn unique_names(&self) -> bool {
        names_distinct(cookie_views(self.cookies@))
    }

    /// Index of a cookie by name.
    fn find(&self, name: &str) -> (r: Option<usize>)
        ensures
            match r {
                Some(i) => i < self@.len() && self@[i as int].name == name@,
                None => !has_name(self@, name@),
            },
    {
        let mut i: usize = 0;
        while i < self.cookies.len()
            invariant
                i <= self.cookies.len(),
                self@ == cookie_views(self.cookies@),
                forall|k: int| 0 <= k < i ==> self@[k].name != name@,
            decreases self.cookies.len() - i,
        {
            if str_eq(self.cookies[i].name.as_str(), name) {
                return Some(i);
            }
            i = i + 1;
        }
        None
    }

    /// Create an empty cookie collection.
    pub fn empty() -> (r: Self)
        ensures
            r@ == Seq::<CookieModel>::empty(),
            names_distinct(r@),
    {
        let r = ExtractedCookies { cookies: Vec::new() };
        assert(r@ =~= Seq::<CookieModel>::empty());
        r
    }

    /// Add a cookie, replacing any cookie of the same name.
    pub fn add(&mut self, cookie: Cookie)
        ensures
            final(self)@ == add_cookie(old(self)@, cookie@),
            names_distinct(final(self)@),
    {
        proof {
            use_type_invariant(&*self);
        }
        let ghost old_v = self@;
        let found = self.find(cookie.name.as_str());
        let mut v: Vec<Cookie> = Vec::new();
        let mut i: usize = 0;
        while i < self.cookies.len()
            invariant
                i <= self.cookies.len(),
                old_v == cookie_views(self.cookies@),
                cookie_views(v@) == old_v.take(i as int),
                v.len() == i,
            decreases self.cookies.len() - i,
        {
            let c = clone_cookie(&self.cookies[i]);
            let ghost cv = c@;
            assert(old_v[i as int] == cv);
            let ghost before = v@;
            v.push(c);
            assert(cookie_views(v@)[i as int] == cv);
            assert(cookie_views(v@) =~= old_v.take(i + 1));
            i = i + 1;
        }
        assert(old_v.take(old_v.len() as int) =~= old_v);
        match found {
            Some(idx) => {
                assert(index_of_name(old_v, cookie@.name) == Some(idx as int)) by {
                    let j = choose|j: int| 0 <= j < old_v.len() && old_v[j].name == cookie@.name;
                    assert(j == idx);
                }
                v.set(idx, cookie);
                assert(cookie_views(v@) =~= old_v.update(idx as int, cookie@));
            },
            None => {
                v.push(cookie);
                assert(cookie_views(v@) =~= old_v.push(cookie@));
            },
        }
        proof {
            lemma_add_then_get(old_v, cookie@);
        }
        self.cookies = v;
    }

    /// Create from a list of cookies, later cookies replacing earlier ones
    /// of the same name.
    pub fn from_cookies(cookies: Vec<Cookie>) -> (r: Self)
        ensures
            r@ == add_all(Seq::empty(), cookie_views(cookies@)),
            names_distinct(r@),
    {
        let mut map = ExtractedCookies::empty();
        let ghost all = cookie_views(cookies@);
        let mut rest = cookies;
        while rest.len() > 0
            invariant
                add_all(Seq::empty(), all) == add_all(map@, cookie_views(rest@)),
            decreases rest.len(),
        {
            let ghost before = rest@;
            let c = rest.remove(0);
            assert(cookie_views(rest@) =~= cookie_views(before).drop_first());
            assert(cookie_views(before)[0] == c@);
            map.add(c);
        }
        proof {
            use_type_invariant(&map);
        }
        map
    }

    /// Get the number of cookies.
    pub fn count(&self) -> (r: usize)
        ensures
            r == self@.len(),
    {
        self.cookies.len()
    }

    /// Check if empty.
    pub fn is_empty(&self) -> (r: bool)
        ensures
            r == (self@.len() == 0),
    {
        self.cookies.len() == 0
    }

    /// Get a specific cookie by name.
    pub fn get(&self, name: &str) -> (r: Option<&Cookie>)
        ensures
            match r {
                Some(c) => index_of_name(self@, name@) matches Some(i) && c@ == self@[i],
                None => !has_name(self@, name@),
            },
    {
        proof {
            use_type_invariant(self);
        }
        match self.find(name) {
            Some(i) => {
                assert(index_of_name(self@, name@) == Some(i as int)) by {
                    let j = choose|j: int| 0 <= j < self@.len() && self@[j].name == name@;
                    assert(j == i);
                }
                Some(&self.cookies[i])
            },
            None => None,
        }
    }

    /// Check if a specific cookie exists.
    pub fn has(&self, name: &str) -> (r: bool)
        ensures
            r == has_name(self@, name@),
    {
        self.find(name).is_some()
    }

    /// Format cookies for curl -b flag (`name=value; name2=value2`).
    pub fn to_curl_format(&self) -> (r: String)
        ensures
            r@ == curl_cookie_string(self@),
    {
        let mut s = String::new();
        let mut i: usize = 0;
        while i < self.cookies.len()
            invariant
                i <= self.cookies.len(),
                self@ == cookie_views(self.cookies@),
                s@ == curl_cookie_string(self@.take(i as int)),
            decreases self.cookies.len() - i,
        {
            let c = &self.cookies[i];
            assert(self@.take(i + 1).drop_last() =~= self@.take(i as int));
            if i > 0 {
                s.append("; ");
            } else {
                assert(self@.take(1) =~= seq![self@[0]]);
            }
            s.append(c.name.as_str());
            s.append("=");
            s.append(c.value.as_str());
            i = i + 1;
        }
        assert(self@.take(self@.len() as int) =~= self@);
        s
    }

    /// Format cookies as curl -b arguments: none when there are no cookies,
    /// otherwise `-b` and the cookie string.
    pub fn to_curl_args(&self) -> (r: Vec<String>)
        ensures
            r.len() == 0 <==> self@.len() == 0,
            self@.len() > 0 ==> r.len() == 2 && r@[0]@ == "-b"@ && r@[1]@ == curl_cookie_string(
                self@,
            ),
    {
        if self.is_empty() {
            return Vec::new();
        }
        let mut r: Vec<String> = Vec::new();
        r.push(String::from_str("-b"));
        r.push(self.to_curl_format());
        r
    }

    /// Get all cookie names.
    pub fn names(&self) -> (r: Vec<&str>)
        ensures
            str_views(r@) == cookie_names(self@),
    {
        let mut r: Vec<&str> = Vec::new();
        let mut i: usize = 0;
        while i < self.cookies.len()
            invariant
                i <= self.cookies.len(),
                self@ == cookie_views(self.cookies@),
                str_views(r@) == cookie_names(self@.take(i as int)),
                r.len() == i,
            decreases self.cookies.len() - i,
        {
            let n = self.cookies[i].name.as_str();
            assert(self@[i as int].name == n@);
            let ghost before = r@;
            r.push(n);
            assert(str_views(before) == cookie_names(self@.take(i as int)));
            assert forall|k: int| 0 <= k < i + 1 implies str_views(r@)[k] == cookie_names(
                self@.take(i + 1),
            )[k] by {
                if k < i {
                    assert(r@[k] == before[k]);
                    assert(str_views(before)[k] == cookie_names(self@.take(i as int))[k]);
                } else {
                    assert(r@[k] == n);
                }
            }
            assert(str_views(r@) =~= cookie_names(self@.take(i + 1)));
            i = i + 1;
        }
        assert(self@.take(self@.len() as int) =~= self@);
        r
    }

    /// Whether some cookie's name begins with `prefix`.
    fn has_prefix(&self, prefix: &str) -> (r: bool)
        ensures
            r == has_name_prefix(self@, prefix@),
    {
        let p = chars_of(prefix);
        let n = self.cookies.len();
        let mut i: usize = 0;
        while i < n
            invariant
                i <= n == self.cookies.len(),
                self@ == cookie_views(self.cookies@),
                p@ == prefix@,
                forall|k: int| 0 <= k < i ==> !starts_with(self@[k].name, prefix@),
            decreases n - i,
        {
            let c = chars_of(self.cookies[i].name.as_str());
            assert(self@[i as int].name == c@);
            if starts_with_chars(c.as_slice(), p.as_slice()) {
                return true;
            }
            i = i + 1;
        }
        false
    }

    /// Check if we have any anti-bot related cookies: one of the names of
    /// [`antibot_cookie_names`] (Cloudflare, Akamai, PerimeterX, DataDome,
    /// Imperva), or a name of Imperva's `incap_ses_*` and `visid_incap_*`
    /// families; these typically indicate a successful challenge bypass.
    pub fn has_antibot_cookies(&self) -> (r: bool)
        ensures
            r == ((exists|k: int|
                0 <= k < antibot_cookie_names().len() && has_name(
                    self@,
                    #[trigger] antibot_cookie_names()[k],
                )) || (exists|k: int|
                0 <= k < antibot_cookie_prefixes().len() && has_name_prefix(
                    self@,
                    #[trigger] antibot_cookie_prefixes()[k],
                ))),
    {
        let names = vec![
            "cf_clearance",
            "__cf_bm",
            "_abck",
            "ak_bmsc",
            "_px3",
            "_pxvid",
            "datadome",
            "incap_ses",
            "visid_incap",
        ];
        assert(str_views(names@) =~= antibot_cookie_names());
        let mut k: usize = 0;
        while k < names.len()
            invariant
                k <= names.len(),
                str_views(names@) == antibot_cookie_names(),
                forall|j: int| 0 <= j < k ==> !has_name(self@, #[trigger] antibot_cookie_names()[j]),
            decreases names.len() - k,
        {
            assert(antibot_cookie_names()[k as int] == names@[k as int]@);
            if self.has(names[k]) {
                return true;
            }
            k = k + 1;
        }
        let prefixes = vec!["incap_ses_", "visid_incap_"];
        assert(str_views(prefixes@) =~= antibot_cookie_prefixes());
        let mut k: usize = 0;
        while k < prefixes.len()
            invariant
                k <= prefixes.len(),
                str_views(prefixes@) == antibot_cookie_prefixes(),
                forall|j: int| 0 <= j < antibot_cookie_names().len() ==> !has_name(self@, #[trigger] antibot_cookie_names()[j]),
                forall|j: int| 0 <= j < k ==> !has_name_prefix(self@, #[trigger] antibot_cookie_prefixes()[j]),
            decreases prefixes.len() - k,
        {
            assert(antibot_cookie_prefixes()[k as int] == prefixes@[k as int]@);
            if self.has_prefix(prefixes[k]) {
                return true;
            }
            k = k + 1;
        }
        false
    }
}

/// Reading a cookie back after adding it gives the cookie that was added,
/// and the collection grows by one exactly when the name was new.
pub proof fn lemma_add_then_get(s: Seq<CookieModel>, c: CookieModel)
    requires
        names_distinct(s),
    ensures
        names_distinct(add_cookie(s, c)),
        index_of_name(add_cookie(s, c), c.name) matches Some(i) && add_cookie(s, c)[i] == c,
        add_cookie(s, c).len() == s.len() + (if has_name(s, c.name) {
            0int
        } else {
            1int
        }),
        forall|n: Seq<char>|
            n != c.name ==> (#[trigger] has_name(add_cookie(s, c), n) == has_name(s, n)),
{
    let t = add_cookie(s, c);
    if has_name(s, c.name) {
        let i = choose|i: int| 0 <= i < s.len() && s[i].name == c.name;
        assert(t == s.update(i, c));
        assert(t[i].name == c.name);
        let j = choose|j: int| 0 <= j < t.len() && t[j].name == c.name;
        assert(j == i);
        assert forall|n: Seq<char>| n != c.name implies has_name(t, n) == has_name(s, n) by {
            if has_name(s, n) {
                let k = choose|k: int| 0 <= k < s.len() && s[k].name == n;
                assert(t[k].name == n);
            }
            if has_name(t, n) {
                let k = choose|k: int| 0 <= k < t.len() && t[k].name == n;
                assert(s[k].name == n);
            }
        }
    } else {
        assert(t == s.push(c));
        assert(t[s.len() as int].name == c.name);
        let j = choose|j: int| 0 <= j < t.len() && t[j].name == c.name;
        assert(j == s.len());
        assert forall|n: Seq<char>| n != c.name implies has_name(t, n) == has_name(s, n) by {
            if has_name(s, n) {
                let k = choose|k: int| 0 <= k < s.len() && s[k].name == n;
                assert(t[k].name == n);
            }
            if has_name(t, n) {
                let k = choose|k: int| 0 <= k < t.len() && t[k].name == n;
                assert(s[k].name == n);
            }
        }
    }
}

} // verus!
