//! recurl's own command line flags (`--recurl-*`) and environment switches.

use vstd::prelude::*;
use crate::text::{chars_of, lowercase_of, parse_unsigned, parse_unsigned_exec, starts_with, starts_with_chars, str_eq, to_lowercase};

verus! {

/// recurl configuration parsed from command line and environment.
#[derive(Debug, Clone)]
pub struct RecurlConfig {
    /// Strict mode: no fallback, pure curl passthrough
    pub strict: bool,
    /// Debug mode: show recurl diagnostics on stderr
    pub debug: bool,
    /// Force impersonation with specific profile
    pub impersonate: Option<String>,
    /// Force JS preflight
    pub js: bool,
    /// Return rendered DOM instead of curl replay
    pub js_rendered: bool,
    /// Wait for selector before replay
    pub js_wait: Option<String>,
    /// JS preflight timeout in milliseconds
    pub js_timeout: Option<u64>,
    /// Daemon control: Some(true) = force on, Some(false) = force off, None = auto
    pub daemon: Option<bool>,
}

/// The abstract content of a [`RecurlConfig`].
pub struct ConfigModel {
    pub strict: bool,
    pub debug: bool,
    pub impersonate: Option<Seq<char>>,
    pub js: bool,
    pub js_rendered: bool,
    pub js_wait: Option<Seq<char>>,
    pub js_timeout: Option<u64>,
    pub daemon: Option<bool>,
}

/// The view of an optional string.
pub open spec fn opt_view(s: Option<String>) -> Option<Seq<char>> {
    match s {
        Some(v) => Some(v@),
        None => None,
    }
}

/// The views of a sequence of strings.
pub open spec fn string_views(v: Seq<String>) -> Seq<Seq<char>> {
    v.map_values(|s: String| s@)
}

impl View for RecurlConfig {
    type V = ConfigModel;

    open spec fn view(&self) -> ConfigModel {
        ConfigModel {
            strict: self.strict,
            debug: self.debug,
            impersonate: opt_view(self.impersonate),
            js: self.js,
            js_rendered: self.js_rendered,
            js_wait: opt_view(self.js_wait),
            js_timeout: self.js_timeout,
            daemon: self.daemon,
        }
    }
}

/// The configuration with every switch off.
pub open spec fn default_model() -> ConfigModel {
    ConfigModel {
        strict: false,
        debug: false,
        impersonate: None,
        js: false,
        js_rendered: false,
        js_wait: None,
        js_timeout: None,
        daemon: None,
    }
}

impl Default for RecurlConfig {
    fn default() -> (r: Self)
        ensures
            r@ == default_model(),
    {
        RecurlConfig {
            strict: false,
            debug: false,
            impersonate: None,
            js: false,
            js_rendered: false,
            js_wait: None,
            js_timeout: None,
            daemon: None,
        }
    }
}

/// `s` read as a `u64` by `str::parse`.
pub open spec fn parse_u64(s: Seq<char>) -> Option<u64> {
    match parse_unsigned(s, u64::MAX as nat) {
        Some(v) => Some(v as u64),
        None => None,
    }
}

/// The value given to `--recurl-daemon`: `on`, `true` and `1` force the
/// daemon on, `off`, `false` and `0` force it off, anything else means auto.
pub open spec fn daemon_choice(v: Seq<char>) -> Option<bool> {
    if v == "on"@ || v == "true"@ || v == "1"@ {
        Some(true)
    } else if v == "off"@ || v == "false"@ || v == "0"@ {
        Some(false)
    } else {
        None
    }
}

/// The flags that take a value in the next argument.
pub open spec fn takes_value(a: Seq<char>) -> bool {
    a == "--recurl-impersonate"@ || a == "--recurl-js-wait"@ || a == "--recurl-js-timeout"@ || a
        == "--recurl-daemon"@
}

/// The effect of a flag that takes the value `v`.
pub open spec fn apply_valued_flag(cfg: ConfigModel, a: Seq<char>, v: Seq<char>) -> ConfigModel {
    if a == "--recurl-impersonate"@ {
        ConfigModel { impersonate: Some(v), ..cfg }
    } else if a == "--recurl-js-wait"@ {
        ConfigModel { js_wait: Some(v), ..cfg }
    } else if a == "--recurl-js-timeout"@ {
        ConfigModel { js_timeout: parse_u64(v), ..cfg }
    } else {
        ConfigModel { daemon: daemon_choice(v), ..cfg }
    }
}

/// The flags that switch something on without a value.
pub open spec fn is_switch(a: Seq<char>) -> bool {
    a == "--recurl-strict"@ || a == "--recurl-debug"@ || a == "--recurl-js"@ || a
        == "--recurl-js-rendered"@
}

/// The effect of a switch.
pub open spec fn apply_switch(cfg: ConfigModel, a: Seq<char>) -> ConfigModel {
    if a == "--recurl-strict"@ {
        ConfigModel { strict: true, ..cfg }
    } else if a == "--recurl-debug"@ {
        ConfigModel { debug: true, ..cfg }
    } else if a == "--recurl-js"@ {
        ConfigModel { js: true, ..cfg }
    } else {
        ConfigModel { js_rendered: true, ..cfg }
    }
}

/// Parsing `args` from index `i` on, starting from `cfg`: the resulting
/// configuration and the arguments handed on to curl. Known `--recurl-*`
/// flags are consumed (with their value, when one follows); every other
/// argument, unknown `--recurl-*` flags included, is passed through.
pub open spec fn parse_from(args: Seq<Seq<char>>, i: int, cfg: ConfigModel) -> (
    ConfigModel,
    Seq<Seq<char>>,
)
    decreases args.len() - i,
{
    if i < 0 || i >= args.len() {
        (cfg, seq![])
    } else {
        let a = args[i];
        if starts_with(a, "--recurl-"@) && is_switch(a) {
            parse_from(args, i + 1, apply_switch(cfg, a))
        } else if starts_with(a, "--recurl-"@) && takes_value(a) {
            if i + 1 < args.len() {
                parse_from(args, i + 2, apply_valued_flag(cfg, a, args[i + 1]))
            } else {
                parse_from(args, i + 1, cfg)
            }
        } else {
            let r = parse_from(args, i + 1, cfg);
            (r.0, seq![a] + r.1)
        }
    }
}

/// Parsing from `i` on keeps every remaining argument when none of them
/// is a recurl flag.
proof fn lemma_plain_args_from(args: Seq<Seq<char>>, i: int, cfg: ConfigModel)
    requires
        0 <= i <= args.len(),
        forall|k: int| i <= k < args.len() ==> !starts_with(#[trigger] args[k], "--recurl-"@),
    ensures
        parse_from(args, i, cfg) == (cfg, args.skip(i)),
    decreases args.len() - i,
{
    if i < args.len() {
        lemma_plain_args_from(args, i + 1, cfg);
        assert(!starts_with(args[i], "--recurl-"@));
        assert(seq![args[i]] + args.skip(i + 1) =~= args.skip(i));
    } else {
        assert(args.skip(i) =~= Seq::<Seq<char>>::empty());
    }
}

/// curl's own arguments pass through untouched: when no argument is a
/// `--recurl-*` flag, curl gets every argument, in order, and the
/// configuration is left as it was.
pub proof fn lemma_plain_args_pass_through(args: Seq<Seq<char>>, cfg: ConfigModel)
    requires
        forall|k: int| 0 <= k < args.len() ==> !starts_with(#[trigger] args[k], "--recurl-"@),
    ensures
        parse_from(args, 0, cfg) == (cfg, args),
{
    lemma_plain_args_from(args, 0, cfg);
    assert(args.skip(0) =~= args);
}

/// Parsing what follows a prefix of already handled arguments is parsing
/// those arguments alone.
proof fn lemma_parse_after_prefix(pre: Seq<Seq<char>>, rest: Seq<Seq<char>>, i: int, cfg: ConfigModel)
    requires
        0 <= i,
    ensures
        parse_from(pre + rest, pre.len() + i, cfg) == parse_from(rest, i, cfg),
    decreases rest.len() - i,
{
    let all = pre + rest;
    if i < rest.len() {
        assert(all[pre.len() + i] == rest[i]);
        if i + 1 < rest.len() {
            assert(all[pre.len() + i + 1] == rest[i + 1]);
        }
        lemma_parse_after_prefix(pre, rest, i + 1, apply_switch(cfg, rest[i]));
        lemma_parse_after_prefix(pre, rest, i + 1, cfg);
        if i + 1 < rest.len() {
            lemma_parse_after_prefix(pre, rest, i + 2, apply_valued_flag(cfg, rest[i], rest[i + 1]));
        }
    }
}

/// Each switch sets exactly the field it names and is consumed: parsing
/// `--recurl-strict`, `--recurl-debug`, `--recurl-js` or
/// `--recurl-js-rendered` followed by `rest` is parsing `rest` from the
/// configuration with that one field switched on and every other field as
/// it was.
pub proof fn lemma_switches(rest: Seq<Seq<char>>, cfg: ConfigModel)
    ensures
        parse_from(seq!["--recurl-strict"@] + rest, 0, cfg) == parse_from(
            rest,
            0,
            ConfigModel { strict: true, ..cfg },
        ),
        parse_from(seq!["--recurl-debug"@] + rest, 0, cfg) == parse_from(
            rest,
            0,
            ConfigModel { debug: true, ..cfg },
        ),
        parse_from(seq!["--recurl-js"@] + rest, 0, cfg) == parse_from(
            rest,
            0,
            ConfigModel { js: true, ..cfg },
        ),
        parse_from(seq!["--recurl-js-rendered"@] + rest, 0, cfg) == parse_from(
            rest,
            0,
            ConfigModel { js_rendered: true, ..cfg },
        ),
{
    reveal_strlit("--recurl-");
    reveal_strlit("--recurl-strict");
    reveal_strlit("--recurl-debug");
    reveal_strlit("--recurl-js");
    reveal_strlit("--recurl-js-rendered");
    reveal_strlit("--recurl-impersonate");
    reveal_strlit("--recurl-js-wait");
    reveal_strlit("--recurl-js-timeout");
    reveal_strlit("--recurl-daemon");
    let flags = seq!["--recurl-strict"@, "--recurl-debug"@, "--recurl-js"@, "--recurl-js-rendered"@];
    assert(flags[0].subrange(0, 9) =~= "--recurl-"@);
    assert(flags[1].subrange(0, 9) =~= "--recurl-"@);
    assert(flags[2].subrange(0, 9) =~= "--recurl-"@);
    assert(flags[3].subrange(0, 9) =~= "--recurl-"@);
    assert(starts_with(flags[0], "--recurl-"@));
    assert(starts_with(flags[1], "--recurl-"@));
    assert(starts_with(flags[2], "--recurl-"@));
    assert(starts_with(flags[3], "--recurl-"@));
    lemma_parse_after_prefix(seq![flags[0]], rest, 0, ConfigModel { strict: true, ..cfg });
    lemma_parse_after_prefix(seq![flags[1]], rest, 0, ConfigModel { debug: true, ..cfg });
    lemma_parse_after_prefix(seq![flags[2]], rest, 0, ConfigModel { js: true, ..cfg });
    lemma_parse_after_prefix(seq![flags[3]], rest, 0, ConfigModel { js_rendered: true, ..cfg });
    assert((seq![flags[0]] + rest)[0] == flags[0]);
    assert((seq![flags[1]] + rest)[0] == flags[1]);
    assert((seq![flags[2]] + rest)[0] == flags[2]);
    assert((seq![flags[3]] + rest)[0] == flags[3]);
}

/// Each flag that takes a value consumes it together with the flag and
/// sets exactly its own field from it: `--recurl-impersonate` the profile
/// asked for, `--recurl-js-wait` the wait condition, `--recurl-js-timeout`
/// the timeout (as the value reads as a number) and `--recurl-daemon` the
/// daemon choice; every other field stays as it was.
pub proof fn lemma_valued_flags(v: Seq<char>, rest: Seq<Seq<char>>, cfg: ConfigModel)
    ensures
        parse_from(seq!["--recurl-impersonate"@, v] + rest, 0, cfg) == parse_from(
            rest,
            0,
            ConfigModel { impersonate: Some(v), ..cfg },
        ),
        parse_from(seq!["--recurl-js-wait"@, v] + rest, 0, cfg) == parse_from(
            rest,
            0,
            ConfigModel { js_wait: Some(v), ..cfg },
        ),
        parse_from(seq!["--recurl-js-timeout"@, v] + rest, 0, cfg) == parse_from(
            rest,
            0,
            ConfigModel { js_timeout: parse_u64(v), ..cfg },
        ),
        parse_from(seq!["--recurl-daemon"@, v] + rest, 0, cfg) == parse_from(
            rest,
            0,
            ConfigModel { daemon: daemon_choice(v), ..cfg },
        ),
{
    reveal_strlit("--recurl-");
    reveal_strlit("--recurl-strict");
    reveal_strlit("--recurl-debug");
    reveal_strlit("--recurl-js");
    reveal_strlit("--recurl-js-rendered");
    reveal_strlit("--recurl-impersonate");
    reveal_strlit("--recurl-js-wait");
    reveal_strlit("--recurl-js-timeout");
    reveal_strlit("--recurl-daemon");
    let f0 = "--recurl-impersonate"@;
    let f1 = "--recurl-js-wait"@;
    let f2 = "--recurl-js-timeout"@;
    let f3 = "--recurl-daemon"@;
    assert(f0.subrange(0, 9) =~= "--recurl-"@);
    assert(f1.subrange(0, 9) =~= "--recurl-"@);
    assert(f2.subrange(0, 9) =~= "--recurl-"@);
    assert(f3.subrange(0, 9) =~= "--recurl-"@);
    assert(starts_with(f0, "--recurl-"@));
    assert(starts_with(f1, "--recurl-"@));
    assert(starts_with(f2, "--recurl-"@));
    assert(starts_with(f3, "--recurl-"@));
    assert(f0[9] != ("--recurl-js-rendered"@)[9]);
    assert(f3[9] != ("--recurl-strict"@)[9]);
    lemma_parse_after_prefix(seq![f0, v], rest, 0, ConfigModel { impersonate: Some(v), ..cfg });
    lemma_parse_after_prefix(seq![f1, v], rest, 0, ConfigModel { js_wait: Some(v), ..cfg });
    lemma_parse_after_prefix(seq![f2, v], rest, 0, ConfigModel { js_timeout: parse_u64(v), ..cfg });
    lemma_parse_after_prefix(seq![f3, v], rest, 0, ConfigModel { daemon: daemon_choice(v), ..cfg });
    assert((seq![f0, v] + rest)[0] == f0 && (seq![f0, v] + rest)[1] == v);
    assert((seq![f1, v] + rest)[0] == f1 && (seq![f1, v] + rest)[1] == v);
    assert((seq![f2, v] + rest)[0] == f2 && (seq![f2, v] + rest)[1] == v);
    assert((seq![f3, v] + rest)[0] == f3 && (seq![f3, v] + rest)[1] == v);
}

/// Whether an environment switch is set: its value is `1` or, lowercased,
/// `true` or `yes`.
pub open spec fn env_flag_enabled(v: Option<Seq<char>>) -> bool {
    match v {
        Some(s) => s == "1"@ || lowercase_of(s) == "true"@ || lowercase_of(s) == "yes"@,
        None => false,
    }
}

/// Reads an environment switch value.
fn env_flag_enabled_exec(v: &Option<String>) -> (r: bool)
    ensures
        r == env_flag_enabled(opt_view(*v)),
{
    match v {
        Some(s) => {
            if str_eq(s.as_str(), "1") {
                true
            } else {
                let l = to_lowercase(s.as_str());
                str_eq(l.as_str(), "true") || str_eq(l.as_str(), "yes")
            }
        },
        None => false,
    }
}

/// The value of `--recurl-daemon`.
fn daemon_choice_exec(v: &str) -> (r: Option<bool>)
    ensures
        r == daemon_choice(v@),
{
    if str_eq(v, "on") || str_eq(v, "true") || str_eq(v, "1") {
        Some(true)
    } else if str_eq(v, "off") || str_eq(v, "false") || str_eq(v, "0") {
        Some(false)
    } else {
        None
    }
}

/// Copies an optional string, keeping its content.
pub(crate) fn copy_opt_string(s: &Option<String>) -> (r: Option<String>)
    ensures
        opt_view(r) == opt_view(*s),
{
    match s {
        Some(v) => Some(v.clone()),
        None => None,
    }
}

impl RecurlConfig {
    /// A copy of this configuration with the same content.
    pub(crate) fn clone_config(&self) -> (r: Self)
        ensures
            r@ == self@,
    {
        RecurlConfig {
            strict: self.strict,
            debug: self.debug,
            impersonate: copy_opt_string(&self.impersonate),
            js: self.js,
            js_rendered: self.js_rendered,
            js_wait: copy_opt_string(&self.js_wait),
            js_timeout: self.js_timeout,
            daemon: self.daemon,
        }
    }

    /// Load configuration from the values of the environment variables
    /// `RECURL_STRICT` and `RECURL_DEBUG` (`None` where a variable is unset
    /// or not valid unicode).
    pub fn from_env_values(strict_var: Option<String>, debug_var: Option<String>) -> (r: Self)
        ensures
            r@ == (ConfigModel {
                strict: env_flag_enabled(opt_view(strict_var)),
                debug: env_flag_enabled(opt_view(debug_var)),
                ..default_model()
            }),
    {
        let mut config = RecurlConfig::default();
        if env_flag_enabled_exec(&strict_var) {
            config.strict = true;
        }
        if env_flag_enabled_exec(&debug_var) {
            config.debug = true;
        }
        config
    }

    /// Parse recurl flags from args, starting from `base` (the configuration
    /// the environment gives), returning the config and the remaining curl
    /// args.
    pub fn parse(args: &[String], base: RecurlConfig) -> (r: (Self, Vec<String>))
        ensures
            r.0@ == parse_from(string_views(args@), 0, base@).0,
            string_views(r.1@) == parse_from(string_views(args@), 0, base@).1,
    {
        let ghost views = string_views(args@);
        let mut config = base;
        let mut curl_args: Vec<String> = Vec::new();
        let n = args.len();
        let mut i: usize = 0;
        let prefix = chars_of("--recurl-");
        while i < n
            invariant
                i <= n == args.len(),
                views == string_views(args@),
                prefix@ == "--recurl-"@,
                parse_from(views, 0, base@).0 == parse_from(views, i as int, config@).0,
                parse_from(views, 0, base@).1 == string_views(curl_args@) + parse_from(
                    views,
                    i as int,
                    config@,
                ).1,
            decreases n - i,
        {
            let arg = &args[i];
            let a = arg.as_str();
            assert(views[i as int] == a@);
            let ac = chars_of(a);
            let ghost old_curl = curl_args@;
            let recurl = starts_with_chars(ac.as_slice(), prefix.as_slice());
            if recurl && str_eq(a, "--recurl-strict") {
                config.strict = true;
                i = i + 1;
            } else if recurl && str_eq(a, "--recurl-debug") {
                config.debug = true;
                i = i + 1;
            } else if recurl && str_eq(a, "--recurl-js") {
                config.js = true;
                i = i + 1;
            } else if recurl && str_eq(a, "--recurl-js-rendered") {
                config.js_rendered = true;
                i = i + 1;
            } else if recurl && (str_eq(a, "--recurl-impersonate") || str_eq(a, "--recurl-js-wait")
                || str_eq(a, "--recurl-js-timeout") || str_eq(a, "--recurl-daemon")) {
                if i + 1 < n {
                    let v = &args[i + 1];
                    assert(views[i + 1] == v@);
                    if str_eq(a, "--recurl-impersonate") {
                        config.impersonate = Some(v.clone());
                    } else if str_eq(a, "--recurl-js-wait") {
                        config.js_wait = Some(v.clone());
                    } else if str_eq(a, "--recurl-js-timeout") {
                        let vc = chars_of(v.as_str());
                        config.js_timeout = match parse_unsigned_exec(vc.as_slice(), u64::MAX) {
                            Some(t) => Some(t),
                            None => None,
                        };
                    } else {
                        config.daemon = daemon_choice_exec(v.as_str());
                    }
                    i = i + 2;
                } else {
                    i = i + 1;
                }
            } else {
                curl_args.push(arg.clone());
                assert(string_views(curl_args@) =~= string_views(old_curl) + seq![a@]);
                i = i + 1;
            }
        }
        assert(string_views(curl_args@) + parse_from(views, i as int, config@).1 =~= string_views(
            curl_args@,
        ));
        (config, curl_args)
    }
}

} // verus!
