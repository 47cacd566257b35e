//! Anti-bot service signatures found in response bodies.

use vstd::prelude::*;
use crate::text::{
    ascii_bytes, ascii_lowercase, byte_chars, chars_of, contains_chars, contains_seq,
    lemma_ascii_bytes_decode, lowercase_of, to_lowercase, utf8_lossy, utf8_lossy_of,
};

verus! {

/// Known anti-bot services.
#[derive(Debug, Clone, Copy, PartialEq, Eq, Structural)]
pub enum AntibotService {
    /// Cloudflare Bot Management / Turnstile
    Cloudflare,
    /// Akamai Bot Manager
    Akamai,
    /// PerimeterX / HUMAN Security
    PerimeterX,
    /// DataDome
    DataDome,
    /// Imperva / Incapsula
    Imperva,
    /// Kasada
    Kasada,
    /// Shape Security / F5 Bot Defense
    Shape,
    /// Arkose Labs (FunCaptcha)
    Arkose,
    /// AWS WAF
    AwsWaf,
    /// GeeTest captcha
    GeeTest,
    /// hCaptcha challenge
    HCaptcha,
    /// reCAPTCHA challenge
    ReCaptcha,
    /// Generic JavaScript challenge
    JsChallenge,
}

/// The name under which a service is reported.
pub open spec fn service_name(s: AntibotService) -> Seq<char> {
    match s {
        AntibotService::Cloudflare => "Cloudflare"@,
        AntibotService::Akamai => "Akamai"@,
        AntibotService::PerimeterX => "PerimeterX"@,
        AntibotService::DataDome => "DataDome"@,
        AntibotService::Imperva => "Imperva"@,
        AntibotService::Kasada => "Kasada"@,
        AntibotService::Shape => "Shape/F5"@,
        AntibotService::Arkose => "Arkose Labs"@,
        AntibotService::AwsWaf => "AWS WAF"@,
        AntibotService::GeeTest => "GeeTest"@,
        AntibotService::HCaptcha => "hCaptcha"@,
        AntibotService::ReCaptcha => "reCAPTCHA"@,
        AntibotService::JsChallenge => "JS Challenge"@,
    }
}

impl AntibotService {
    /// The name under which the service is reported (its `Display` form).
    pub fn to_string(&self) -> (r: String)
        ensures
            r@ == service_name(*self),
    {
        match self {
            AntibotService::Cloudflare => String::from_str("Cloudflare"),
            AntibotService::Akamai => String::from_str("Akamai"),
            AntibotService::PerimeterX => String::from_str("PerimeterX"),
            AntibotService::DataDome => String::from_str("DataDome"),
            AntibotService::Imperva => String::from_str("Imperva"),
            AntibotService::Kasada => String::from_str("Kasada"),
            AntibotService::Shape => String::from_str("Shape/F5"),
            AntibotService::Arkose => String::from_str("Arkose Labs"),
            AntibotService::AwsWaf => String::from_str("AWS WAF"),
            AntibotService::GeeTest => String::from_str("GeeTest"),
            AntibotService::HCaptcha => String::from_str("hCaptcha"),
            AntibotService::ReCaptcha => String::from_str("reCAPTCHA"),
            AntibotService::JsChallenge => String::from_str("JS Challenge"),
        }
    }
}

/// The signatures of each service. Matching is done against the lowercased
/// body, so the signatures are kept in lowercase.
pub open spec fn service_patterns(s: AntibotService) -> Seq<Seq<char>> {
    match s {
        AntibotService::Cloudflare => seq![
            "<title>just a moment...</title>"@,
            "<title>attention required!</title>"@,
            "cf-browser-verification"@,
            "cf_clearance"@,
            "/cdn-cgi/challenge-platform/"@,
            "/cdn-cgi/bm/cv/"@,
            "checking your browser"@,
            "enable javascript and cookies to continue"@,
            "_cf_chl_opt"@,
            "_cf_chl_tk"@,
            "cf-spinner"@,
            "cf-ray"@,
            "cf-turnstile"@,
            "challenges.cloudflare.com"@,
            "cray:"@,
            "__cf_bm"@,
        ],
        AntibotService::Akamai => seq![
            "_abck"@,
            "ak_bmsc"@,
            "bm_sz"@,
            "bm_sv"@,
            "akam/"@,
            "akamaihd.net"@,
            "akamai-botsmanager"@,
            "sensor_data"@,
        ],
        AntibotService::PerimeterX => seq![
            "_px3"@,
            "_px2"@,
            "_pxvid"@,
            "_pxff"@,
            "_pxde"@,
            "perimeterx"@,
            "/px/"@,
            "px-compromised"@,
            "pxcdn.net"@,
            "human.com/px"@,
        ],
        AntibotService::DataDome => seq![
            "datadome"@,
            "datadome.co"@,
            "dd_cookie"@,
            "geo.captcha-delivery"@,
            "ct.captcha-delivery"@,
            "interstitial.captcha-delivery"@,
        ],
        AntibotService::Imperva => seq![
            "incapsula"@,
            "incap_ses"@,
            "visid_incap"@,
            "_incapsula"@,
            "imperva"@,
            "reese84"@,
            "___utmvc"@,
        ],
        AntibotService::Kasada => seq![
            "kasada"@,
            "x-kpsdk"@,
            "/ips.js"@,
            "/tl/"@,
            "cd.js"@,
            "kpparam"@,
        ],
        AntibotService::Shape => seq![
            "shape.com"@,
            "shapesecurity"@,
            "f5"@,
            "_imp_apg_r_"@,
            "_imp_di_pc_"@,
            "x-px-"@,
            "ssdznjhbra"@,
        ],
        AntibotService::Arkose => seq![
            "arkoselabs"@,
            "funcaptcha"@,
            "arkose.com"@,
            "fc/assets"@,
            "fc/api"@,
            "enforcement.arkoselabs.com"@,
        ],
        AntibotService::AwsWaf => seq![
            "aws-waf"@,
            "awswaf"@,
            "x-amzn-waf"@,
            "aws-waf-token"@,
            "captcha.awswaf"@,
        ],
        AntibotService::GeeTest => seq![
            "geetest"@,
            "gt_"@,
            "geetest.com"@,
            "initgeetest"@,
            "captcha4.js"@,
        ],
        AntibotService::HCaptcha => seq![
            "hcaptcha.com"@,
            "h-captcha"@,
        ],
        AntibotService::ReCaptcha => seq![
            "recaptcha"@,
            "g-recaptcha"@,
            "grecaptcha"@,
            "recaptcha.net"@,
            "recaptcha/api"@,
        ],
        AntibotService::JsChallenge => seq![
            "<noscript>"@,
            "javascript is required"@,
            "enable javascript"@,
            "javascript must be enabled"@,
            "browser doesn't support javascript"@,
            "meta http-equiv=\"refresh\""@,
        ],
    }
}

/// The views of a list of string slices.
pub open spec fn str_views(v: Seq<&str>) -> Seq<Seq<char>> {
    v.map_values(|p: &str| p@)
}

/// The signatures of a service, as string slices.
pub fn service_patterns_exec(s: AntibotService) -> (r: Vec<&'static str>)
    ensures
        str_views(r@) == service_patterns(s),
{
    let r: Vec<&'static str> = match s {
        AntibotService::Cloudflare => vec![
            "<title>just a moment...</title>",
            "<title>attention required!</title>",
            "cf-browser-verification",
            "cf_clearance",
            "/cdn-cgi/challenge-platform/",
            "/cdn-cgi/bm/cv/",
            "checking your browser",
            "enable javascript and cookies to continue",
            "_cf_chl_opt",
            "_cf_chl_tk",
            "cf-spinner",
            "cf-ray",
            "cf-turnstile",
            "challenges.cloudflare.com",
            "cray:",
            "__cf_bm",
        ],
        AntibotService::Akamai => vec![
            "_abck",
            "ak_bmsc",
            "bm_sz",
            "bm_sv",
            "akam/",
            "akamaihd.net",
            "akamai-botsmanager",
            "sensor_data",
        ],
        AntibotService::PerimeterX => vec![
            "_px3",
            "_px2",
            "_pxvid",
            "_pxff",
            "_pxde",
            "perimeterx",
            "/px/",
            "px-compromised",
            "pxcdn.net",
            "human.com/px",
        ],
        AntibotService::DataDome => vec![
            "datadome",
            "datadome.co",
            "dd_cookie",
            "geo.captcha-delivery",
            "ct.captcha-delivery",
            "interstitial.captcha-delivery",
        ],
        AntibotService::Imperva => vec![
            "incapsula",
            "incap_ses",
            "visid_incap",
            "_incapsula",
            "imperva",
            "reese84",
            "___utmvc",
        ],
        AntibotService::Kasada => vec![
            "kasada",
            "x-kpsdk",
            "/ips.js",
            "/tl/",
            "cd.js",
            "kpparam",
        ],
        AntibotService::Shape => vec![
            "shape.com",
            "shapesecurity",
            "f5",
            "_imp_apg_r_",
            "_imp_di_pc_",
            "x-px-",
            "ssdznjhbra",
        ],
        AntibotService::Arkose => vec![
            "arkoselabs",
            "funcaptcha",
            "arkose.com",
            "fc/assets",
            "fc/api",
            "enforcement.arkoselabs.com",
        ],
        AntibotService::AwsWaf => vec![
            "aws-waf",
            "awswaf",
            "x-amzn-waf",
            "aws-waf-token",
            "captcha.awswaf",
        ],
        AntibotService::GeeTest => vec![
            "geetest",
            "gt_",
            "geetest.com",
            "initgeetest",
            "captcha4.js",
        ],
        AntibotService::HCaptcha => vec![
            "hcaptcha.com",
            "h-captcha",
        ],
        AntibotService::ReCaptcha => vec![
            "recaptcha",
            "g-recaptcha",
            "grecaptcha",
            "recaptcha.net",
            "recaptcha/api",
        ],
        AntibotService::JsChallenge => vec![
            "<noscript>",
            "javascript is required",
            "enable javascript",
            "javascript must be enabled",
            "browser doesn't support javascript",
            "meta http-equiv=\"refresh\"",
        ],
    };
    assert(str_views(r@) =~= service_patterns(s));
    r
}

/// The order in which services are checked: major CDN/WAF providers first,
/// then specialised bot protection, CAPTCHA providers, and the generic
/// JavaScript challenge last.
pub open spec fn detection_order() -> Seq<AntibotService> {
    seq![
        AntibotService::Cloudflare,
        AntibotService::Akamai,
        AntibotService::AwsWaf,
        AntibotService::PerimeterX,
        AntibotService::DataDome,
        AntibotService::Imperva,
        AntibotService::Kasada,
        AntibotService::Shape,
        AntibotService::Arkose,
        AntibotService::GeeTest,
        AntibotService::HCaptcha,
        AntibotService::ReCaptcha,
        AntibotService::JsChallenge,
    ]
}

/// The detection order, as a vector.
pub fn detection_order_exec() -> (r: Vec<AntibotService>)
    ensures
        r@ == detection_order(),
{
    let r = vec![
        AntibotService::Cloudflare,
        AntibotService::Akamai,
        AntibotService::AwsWaf,
        AntibotService::PerimeterX,
        AntibotService::DataDome,
        AntibotService::Imperva,
        AntibotService::Kasada,
        AntibotService::Shape,
        AntibotService::Arkose,
        AntibotService::GeeTest,
        AntibotService::HCaptcha,
        AntibotService::ReCaptcha,
        AntibotService::JsChallenge,
    ];
    assert(r@ =~= detection_order());
    r
}

/// Some signature in `patterns` occurs in `text`.
pub open spec fn matches_any(text: Seq<char>, patterns: Seq<Seq<char>>) -> bool {
    exists|i: int| 0 <= i < patterns.len() && contains_seq(text, #[trigger] patterns[i])
}

/// Whether any of `patterns` occurs in `text`.
pub fn matches_any_exec(text: &[char], patterns: &Vec<&str>) -> (r: bool)
    ensures
        r == matches_any(text@, str_views(patterns@)),
{
    let mut i: usize = 0;
    while i < patterns.len()
        invariant
            i <= patterns.len(),
            forall|k: int| 0 <= k < i ==> !contains_seq(text@, #[trigger] str_views(patterns@)[k]),
        decreases patterns.len() - i,
    {
        let p = chars_of(patterns[i]);
        if contains_chars(text, p.as_slice()) {
            assert(str_views(patterns@)[i as int] == p@);
            return true;
        }
        assert(str_views(patterns@)[i as int] == p@);
        i = i + 1;
    }
    false
}

/// The first service of `order` whose signatures occur in `text`.
pub open spec fn first_service(text: Seq<char>, order: Seq<AntibotService>) -> Option<
    AntibotService,
>
    decreases order.len(),
{
    if order.len() == 0 {
        None
    } else if matches_any(text, service_patterns(order[0])) {
        Some(order[0])
    } else {
        first_service(text, order.drop_first())
    }
}

/// The service detected in an already lowercased text.
pub open spec fn detect_in_lowercase(text: Seq<char>) -> Option<AntibotService> {
    first_service(text, detection_order())
}

/// The service detected in a response body: the body is decoded as UTF-8
/// (invalid sequences replaced), lowercased, and searched.
pub open spec fn detect_antibot(body: Seq<u8>) -> Option<AntibotService> {
    detect_in_lowercase(lowercase_of(utf8_lossy_of(body)))
}

/// Detect the anti-bot service in an already lowercased text: the first
/// service, in [`detection_order`], one of whose signatures occurs.
pub fn detect_in_lowercase_text(text: &[char]) -> (r: Option<AntibotService>)
    ensures
        r == detect_in_lowercase(text@),
{
    let order = detection_order_exec();
    let mut i: usize = 0;
    assert(order@.skip(0) =~= order@);
    while i < order.len()
        invariant
            i <= order.len(),
            order@ == detection_order(),
            detect_in_lowercase(text@) == first_service(text@, order@.skip(i as int)),
        decreases order.len() - i,
    {
        let s = order[i];
        let pats = service_patterns_exec(s);
        assert(order@.skip(i as int)[0] == s);
        if matches_any_exec(text, &pats) {
            return Some(s);
        }
        assert(order@.skip(i as int).drop_first() =~= order@.skip(i + 1));
        i = i + 1;
    }
    None
}

/// What is detected in an ASCII body: its bytes read as characters, with
/// their capital letters lowered, searched.
pub open spec fn detect_in_ascii(body: Seq<u8>) -> Option<AntibotService> {
    detect_in_lowercase(ascii_lowercase(byte_chars(body)))
}

/// Detect anti-bot service from a response body (case-insensitive). Of
/// an ASCII body the result is [`detect_in_ascii`].
pub fn detect_antibot_patterns(body: &[u8]) -> (r: Option<AntibotService>)
    ensures
        r == detect_antibot(body@),
        ascii_bytes(body@) ==> r == detect_in_ascii(body@),
{
    let text = utf8_lossy(body);
    proof {
        if ascii_bytes(body@) {
            lemma_ascii_bytes_decode(body@);
        }
    }
    let lower = to_lowercase(text.as_str());
    let chars = chars_of(lower.as_str());
    detect_in_lowercase_text(chars.as_slice())
}

/// The signatures by which each service is known, in lowercase (matching
/// is done on the lowercased body).
pub open spec fn known_signature(s: AntibotService, p: Seq<char>) -> bool {
    match s {
        AntibotService::Cloudflare => {
            p == "<title>just a moment...</title>"@
            || p == "<title>attention required!</title>"@
            || p == "cf-browser-verification"@
            || p == "cf_clearance"@
            || p == "/cdn-cgi/challenge-platform/"@
            || p == "/cdn-cgi/bm/cv/"@
            || p == "checking your browser"@
            || p == "enable javascript and cookies to continue"@
            || p == "_cf_chl_opt"@
            || p == "_cf_chl_tk"@
            || p == "cf-spinner"@
            || p == "cf-ray"@
            || p == "cf-turnstile"@
            || p == "challenges.cloudflare.com"@
            || p == "cray:"@
            || p == "__cf_bm"@
        },
        AntibotService::Akamai => {
            p == "_abck"@
            || p == "ak_bmsc"@
            || p == "bm_sz"@
            || p == "bm_sv"@
            || p == "akam/"@
            || p == "akamaihd.net"@
            || p == "akamai-botsmanager"@
            || p == "sensor_data"@
        },
        AntibotService::AwsWaf => {
            p == "aws-waf"@
            || p == "awswaf"@
            || p == "x-amzn-waf"@
            || p == "aws-waf-token"@
            || p == "captcha.awswaf"@
        },
        AntibotService::PerimeterX => {
            p == "_px3"@
            || p == "_px2"@
            || p == "_pxvid"@
            || p == "_pxff"@
            || p == "_pxde"@
            || p == "perimeterx"@
            || p == "/px/"@
            || p == "px-compromised"@
            || p == "pxcdn.net"@
            || p == "human.com/px"@
        },
        AntibotService::DataDome => {
            p == "datadome"@
            || p == "datadome.co"@
            || p == "dd_cookie"@
            || p == "geo.captcha-delivery"@
            || p == "ct.captcha-delivery"@
            || p == "interstitial.captcha-delivery"@
        },
        AntibotService::Imperva => {
            p == "incapsula"@
            || p == "incap_ses"@
            || p == "visid_incap"@
            || p == "_incapsula"@
            || p == "imperva"@
            || p == "reese84"@
            || p == "___utmvc"@
        },
        AntibotService::Kasada => {
            p == "kasada"@
            || p == "x-kpsdk"@
            || p == "/ips.js"@
            || p == "/tl/"@
            || p == "cd.js"@
            || p == "kpparam"@
        },
        AntibotService::Shape => {
            p == "shape.com"@
            || p == "shapesecurity"@
            || p == "f5"@
            || p == "_imp_apg_r_"@
            || p == "_imp_di_pc_"@
            || p == "x-px-"@
            || p == "ssdznjhbra"@
        },
        AntibotService::Arkose => {
            p == "arkoselabs"@
            || p == "funcaptcha"@
            || p == "arkose.com"@
            || p == "fc/assets"@
            || p == "fc/api"@
            || p == "enforcement.arkoselabs.com"@
        },
        AntibotService::GeeTest => {
            p == "geetest"@
            || p == "gt_"@
            || p == "geetest.com"@
            || p == "initgeetest"@
            || p == "captcha4.js"@
        },
        AntibotService::HCaptcha => {
            p == "hcaptcha.com"@
            || p == "h-captcha"@
        },
        AntibotService::ReCaptcha => {
            p == "recaptcha"@
            || p == "g-recaptcha"@
            || p == "grecaptcha"@
            || p == "recaptcha.net"@
            || p == "recaptcha/api"@
        },
        AntibotService::JsChallenge => {
            p == "<noscript>"@
            || p == "javascript is required"@
            || p == "enable javascript"@
            || p == "javascript must be enabled"@
            || p == "browser doesn't support javascript"@
            || p == "meta http-equiv=\"refresh\""@
        },
    }
}

/// The place of each service in the detection order: an earlier service
/// wins when signatures of several occur.
pub open spec fn detection_rank(s: AntibotService) -> int {
    match s {
        AntibotService::Cloudflare => 0,
        AntibotService::Akamai => 1,
        AntibotService::AwsWaf => 2,
        AntibotService::PerimeterX => 3,
        AntibotService::DataDome => 4,
        AntibotService::Imperva => 5,
        AntibotService::Kasada => 6,
        AntibotService::Shape => 7,
        AntibotService::Arkose => 8,
        AntibotService::GeeTest => 9,
        AntibotService::HCaptcha => 10,
        AntibotService::ReCaptcha => 11,
        AntibotService::JsChallenge => 12,
    }
}

/// `first_service` settles on the first service of `order` whose
/// signatures occur.
proof fn lemma_first_service_at(text: Seq<char>, order: Seq<AntibotService>, j: int)
    requires
        0 <= j < order.len(),
        matches_any(text, service_patterns(order[j])),
        forall|i: int| 0 <= i < j ==> !matches_any(text, service_patterns(#[trigger] order[i])),
    ensures
        first_service(text, order) == Some(order[j]),
    decreases j,
{
    if j > 0 {
        assert(!matches_any(text, service_patterns(order[0])));
        let rest = order.drop_first();
        assert forall|i: int| 0 <= i < j - 1 implies !matches_any(
            text,
            service_patterns(#[trigger] rest[i]),
        ) by {
            assert(rest[i] == order[i + 1]);
        }
        assert(rest[j - 1] == order[j]);
        lemma_first_service_at(text, rest, j - 1);
    }
}

/// A known signature is among the signatures the service is searched for.
proof fn lemma_known_signature_searched(s: AntibotService, p: Seq<char>)
    requires
        known_signature(s, p),
    ensures
        exists|k: int| 0 <= k < service_patterns(s).len() && #[trigger] service_patterns(s)[k] == p,
{
    match s {
        AntibotService::Cloudflare => {
            if p == "<title>just a moment...</title>"@ {
                assert(service_patterns(s)[0] == p);
            }
            if p == "<title>attention required!</title>"@ {
                assert(service_patterns(s)[1] == p);
            }
            if p == "cf-browser-verification"@ {
                assert(service_patterns(s)[2] == p);
            }
            if p == "cf_clearance"@ {
                assert(service_patterns(s)[3] == p);
            }
            if p == "/cdn-cgi/challenge-platform/"@ {
                assert(service_patterns(s)[4] == p);
            }
            if p == "/cdn-cgi/bm/cv/"@ {
                assert(service_patterns(s)[5] == p);
            }
            if p == "checking your browser"@ {
                assert(service_patterns(s)[6] == p);
            }
            if p == "enable javascript and cookies to continue"@ {
                assert(service_patterns(s)[7] == p);
            }
            if p == "_cf_chl_opt"@ {
                assert(service_patterns(s)[8] == p);
            }
            if p == "_cf_chl_tk"@ {
                assert(service_patterns(s)[9] == p);
            }
            if p == "cf-spinner"@ {
                assert(service_patterns(s)[10] == p);
            }
            if p == "cf-ray"@ {
                assert(service_patterns(s)[11] == p);
            }
            if p == "cf-turnstile"@ {
                assert(service_patterns(s)[12] == p);
            }
            if p == "challenges.cloudflare.com"@ {
                assert(service_patterns(s)[13] == p);
            }
            if p == "cray:"@ {
                assert(service_patterns(s)[14] == p);
            }
            if p == "__cf_bm"@ {
                assert(service_patterns(s)[15] == p);
            }
        },
        AntibotService::Akamai => {
            if p == "_abck"@ {
                assert(service_patterns(s)[0] == p);
            }
            if p == "ak_bmsc"@ {
                assert(service_patterns(s)[1] == p);
            }
            if p == "bm_sz"@ {
                assert(service_patterns(s)[2] == p);
            }
            if p == "bm_sv"@ {
                assert(service_patterns(s)[3] == p);
            }
            if p == "akam/"@ {
                assert(service_patterns(s)[4] == p);
            }
            if p == "akamaihd.net"@ {
                assert(service_patterns(s)[5] == p);
            }
            if p == "akamai-botsmanager"@ {
                assert(service_patterns(s)[6] == p);
            }
            if p == "sensor_data"@ {
                assert(service_patterns(s)[7] == p);
            }
        },
        AntibotService::AwsWaf => {
            if p == "aws-waf"@ {
                assert(service_patterns(s)[0] == p);
            }
            if p == "awswaf"@ {
                assert(service_patterns(s)[1] == p);
            }
            if p == "x-amzn-waf"@ {
                assert(service_patterns(s)[2] == p);
            }
            if p == "aws-waf-token"@ {
                assert(service_patterns(s)[3] == p);
            }
            if p == "captcha.awswaf"@ {
                assert(service_patterns(s)[4] == p);
            }
        },
        AntibotService::PerimeterX => {
            if p == "_px3"@ {
                assert(service_patterns(s)[0] == p);
            }
            if p == "_px2"@ {
                assert(service_patterns(s)[1] == p);
            }
            if p == "_pxvid"@ {
                assert(service_patterns(s)[2] == p);
            }
            if p == "_pxff"@ {
                assert(service_patterns(s)[3] == p);
            }
            if p == "_pxde"@ {
                assert(service_patterns(s)[4] == p);
            }
            if p == "perimeterx"@ {
                assert(service_patterns(s)[5] == p);
            }
            if p == "/px/"@ {
                assert(service_patterns(s)[6] == p);
            }
            if p == "px-compromised"@ {
                assert(service_patterns(s)[7] == p);
            }
            if p == "pxcdn.net"@ {
                assert(service_patterns(s)[8] == p);
            }
            if p == "human.com/px"@ {
                assert(service_patterns(s)[9] == p);
            }
        },
        AntibotService::DataDome => {
            if p == "datadome"@ {
                assert(service_patterns(s)[0] == p);
            }
            if p == "datadome.co"@ {
                assert(service_patterns(s)[1] == p);
            }
            if p == "dd_cookie"@ {
                assert(service_patterns(s)[2] == p);
            }
            if p == "geo.captcha-delivery"@ {
                assert(service_patterns(s)[3] == p);
            }
            if p == "ct.captcha-delivery"@ {
                assert(service_patterns(s)[4] == p);
            }
            if p == "interstitial.captcha-delivery"@ {
                assert(service_patterns(s)[5] == p);
            }
        },
        AntibotService::Imperva => {
            if p == "incapsula"@ {
                assert(service_patterns(s)[0] == p);
            }
            if p == "incap_ses"@ {
                assert(service_patterns(s)[1] == p);
            }
            if p == "visid_incap"@ {
                assert(service_patterns(s)[2] == p);
            }
            if p == "_incapsula"@ {
                assert(service_patterns(s)[3] == p);
            }
            if p == "imperva"@ {
                assert(service_patterns(s)[4] == p);
            }
            if p == "reese84"@ {
                assert(service_patterns(s)[5] == p);
            }
            if p == "___utmvc"@ {
                assert(service_patterns(s)[6] == p);
            }
        },
        AntibotService::Kasada => {
            if p == "kasada"@ {
                assert(service_patterns(s)[0] == p);
            }
            if p == "x-kpsdk"@ {
                assert(service_patterns(s)[1] == p);
            }
            if p == "/ips.js"@ {
                assert(service_patterns(s)[2] == p);
            }
            if p == "/tl/"@ {
                assert(service_patterns(s)[3] == p);
            }
            if p == "cd.js"@ {
                assert(service_patterns(s)[4] == p);
            }
            if p == "kpparam"@ {
                assert(service_patterns(s)[5] == p);
            }
        },
        AntibotService::Shape => {
            if p == "shape.com"@ {
                assert(service_patterns(s)[0] == p);
            }
            if p == "shapesecurity"@ {
                assert(service_patterns(s)[1] == p);
            }
            if p == "f5"@ {
                assert(service_patterns(s)[2] == p);
            }
            if p == "_imp_apg_r_"@ {
                assert(service_patterns(s)[3] == p);
            }
            if p == "_imp_di_pc_"@ {
                assert(service_patterns(s)[4] == p);
            }
            if p == "x-px-"@ {
                assert(service_patterns(s)[5] == p);
            }
            if p == "ssdznjhbra"@ {
                assert(service_patterns(s)[6] == p);
            }
        },
        AntibotService::Arkose => {
            if p == "arkoselabs"@ {
                assert(service_patterns(s)[0] == p);
            }
            if p == "funcaptcha"@ {
                assert(service_patterns(s)[1] == p);
            }
            if p == "arkose.com"@ {
                assert(service_patterns(s)[2] == p);
            }
            if p == "fc/assets"@ {
                assert(service_patterns(s)[3] == p);
            }
            if p == "fc/api"@ {
                assert(service_patterns(s)[4] == p);
            }
            if p == "enforcement.arkoselabs.com"@ {
                assert(service_patterns(s)[5] == p);
            }
        },
        AntibotService::GeeTest => {
            if p == "geetest"@ {
                assert(service_patterns(s)[0] == p);
            }
            if p == "gt_"@ {
                assert(service_patterns(s)[1] == p);
            }
            if p == "geetest.com"@ {
                assert(service_patterns(s)[2] == p);
            }
            if p == "initgeetest"@ {
                assert(service_patterns(s)[3] == p);
            }
            if p == "captcha4.js"@ {
                assert(service_patterns(s)[4] == p);
            }
        },
        AntibotService::HCaptcha => {
            if p == "hcaptcha.com"@ {
                assert(service_patterns(s)[0] == p);
            }
            if p == "h-captcha"@ {
                assert(service_patterns(s)[1] == p);
            }
        },
        AntibotService::ReCaptcha => {
            if p == "recaptcha"@ {
                assert(service_patterns(s)[0] == p);
            }
            if p == "g-recaptcha"@ {
                assert(service_patterns(s)[1] == p);
            }
            if p == "grecaptcha"@ {
                assert(service_patterns(s)[2] == p);
            }
            if p == "recaptcha.net"@ {
                assert(service_patterns(s)[3] == p);
            }
            if p == "recaptcha/api"@ {
                assert(service_patterns(s)[4] == p);
            }
        },
        AntibotService::JsChallenge => {
            if p == "<noscript>"@ {
                assert(service_patterns(s)[0] == p);
            }
            if p == "javascript is required"@ {
                assert(service_patterns(s)[1] == p);
            }
            if p == "enable javascript"@ {
                assert(service_patterns(s)[2] == p);
            }
            if p == "javascript must be enabled"@ {
                assert(service_patterns(s)[3] == p);
            }
            if p == "browser doesn't support javascript"@ {
                assert(service_patterns(s)[4] == p);
            }
            if p == "meta http-equiv=\"refresh\""@ {
                assert(service_patterns(s)[5] == p);
            }
        },
    }
}

/// Every known signature is detected, whatever the case of its letters:
/// when the lowercased text holds a signature of service `s`, and no
/// signature of a service earlier in the detection order, `s` is detected.
/// (A signature of the first service, Cloudflare, is thus always detected.)
pub proof fn lemma_known_signature_detected(text: Seq<char>, s: AntibotService, p: Seq<char>)
    requires
        known_signature(s, p),
        contains_seq(text, p),
        forall|e: AntibotService|
            detection_rank(e) < detection_rank(s) ==> !matches_any(text, #[trigger] service_patterns(e)),
    ensures
        detect_in_lowercase(text) == Some(s),
{
    lemma_known_signature_searched(s, p);
    let k = choose|k: int| 0 <= k < service_patterns(s).len() && #[trigger] service_patterns(s)[k] == p;
    assert(contains_seq(text, service_patterns(s)[k]));
    let order = detection_order();
    assert forall|i: int| 0 <= i < 13 implies detection_rank(#[trigger] order[i]) == i by {
        assert(detection_rank(order[0]) == 0);
        assert(detection_rank(order[1]) == 1);
        assert(detection_rank(order[2]) == 2);
        assert(detection_rank(order[3]) == 3);
        assert(detection_rank(order[4]) == 4);
        assert(detection_rank(order[5]) == 5);
        assert(detection_rank(order[6]) == 6);
        assert(detection_rank(order[7]) == 7);
        assert(detection_rank(order[8]) == 8);
        assert(detection_rank(order[9]) == 9);
        assert(detection_rank(order[10]) == 10);
        assert(detection_rank(order[11]) == 11);
        assert(detection_rank(order[12]) == 12);
    }
    let j = detection_rank(s);
    assert(order[j] == s) by {
        assert(detection_rank(order[j]) == j);
    }
    assert forall|i: int| 0 <= i < j implies !matches_any(text, service_patterns(#[trigger] order[i])) by {
        assert(detection_rank(order[i]) == i);
    }
    lemma_first_service_at(text, order, j);
}

/// The same for a body: a known signature of `s`, in any ASCII case, in a
/// body with no signature of an earlier service, is detected as `s` (for
/// an ASCII body this is what `detect_antibot_patterns` returns).
pub proof fn lemma_known_signature_in_body(body: Seq<u8>, s: AntibotService, p: Seq<char>)
    requires
        known_signature(s, p),
        contains_seq(ascii_lowercase(byte_chars(body)), p),
        forall|e: AntibotService|
            detection_rank(e) < detection_rank(s) ==> !matches_any(
                ascii_lowercase(byte_chars(body)),
                #[trigger] service_patterns(e),
            ),
    ensures
        detect_in_ascii(body) == Some(s),
{
    lemma_known_signature_detected(ascii_lowercase(byte_chars(body)), s, p);
}


/// An ASCII byte with its capital letter lowered.
pub open spec fn lower_byte(x: u8) -> u8 {
    if 65 <= x <= 90 {
        (x + 32) as u8
    } else {
        x
    }
}

/// An ASCII byte with its small letter raised.
pub open spec fn upper_byte(x: u8) -> u8 {
    if 97 <= x <= 122 {
        (x - 32) as u8
    } else {
        x
    }
}

/// The bytes with their capital letters lowered (`to_ascii_lowercase`).
pub open spec fn ascii_lower_bytes(b: Seq<u8>) -> Seq<u8> {
    b.map_values(|x: u8| lower_byte(x))
}

/// The bytes with their small letters raised (`to_ascii_uppercase`).
pub open spec fn ascii_upper_bytes(b: Seq<u8>) -> Seq<u8> {
    b.map_values(|x: u8| upper_byte(x))
}

/// Detection ignores the case of ASCII letters: an ASCII body, the same
/// body in lowercase and the same body in uppercase are all ASCII, and the
/// same service (or none) is detected in each.
pub proof fn lemma_detection_ignores_ascii_case(body: Seq<u8>)
    requires
        ascii_bytes(body),
    ensures
        ascii_bytes(ascii_lower_bytes(body)),
        ascii_bytes(ascii_upper_bytes(body)),
        detect_in_ascii(ascii_lower_bytes(body)) == detect_in_ascii(body),
        detect_in_ascii(ascii_upper_bytes(body)) == detect_in_ascii(body),
{
    let lo = ascii_lower_bytes(body);
    let up = ascii_upper_bytes(body);
    let base = ascii_lowercase(byte_chars(body));
    assert forall|i: int| 0 <= i < body.len() implies ascii_lowercase(byte_chars(lo))[i] == base[i]
        && ascii_lowercase(byte_chars(up))[i] == base[i] by {
        let x = body[i];
        assert(lo[i] == lower_byte(x));
        assert(up[i] == upper_byte(x));
        assert(byte_chars(body)[i] == x as char);
        assert(byte_chars(lo)[i] == lo[i] as char);
        assert(byte_chars(up)[i] == up[i] as char);
    }
    assert(ascii_lowercase(byte_chars(lo)) =~= base);
    assert(ascii_lowercase(byte_chars(up)) =~= base);
}

} // verus!
