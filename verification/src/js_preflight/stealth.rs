//! JavaScript stealth patches for headless Chrome.
//!
//! These patches help evade bot detection by modifying JavaScript properties
//! that are commonly used to detect headless browsers (the techniques of
//! puppeteer-extra-plugin-stealth).

use vstd::prelude::*;

verus! {

/// JavaScript code to patch navigator.webdriver
pub const PATCH_WEBDRIVER: &'static str = r#"
Object.defineProperty(navigator, 'webdriver', {
    get: () => undefined,
    configurable: true
});
"#;

/// JavaScript code to patch navigator.plugins (make it non-empty)
pub const PATCH_PLUGINS: &'static str = r#"
Object.defineProperty(navigator, 'plugins', {
    get: () => {
        const plugins = [
            { name: 'Chrome PDF Plugin', filename: 'internal-pdf-viewer', description: 'Portable Document Format' },
            { name: 'Chrome PDF Viewer', filename: 'mhjfbmdgcfjbbpaeojofohoefgiehjai', description: '' },
            { name: 'Native Client', filename: 'internal-nacl-plugin', description: '' }
        ];
        plugins.item = (index) => plugins[index] || null;
        plugins.namedItem = (name) => plugins.find(p => p.name === name) || null;
        plugins.refresh = () => {};
        return plugins;
    },
    configurable: true
});
"#;

/// JavaScript code to patch navigator.languages
pub const PATCH_LANGUAGES: &'static str = r#"
Object.defineProperty(navigator, 'languages', {
    get: () => ['en-US', 'en'],
    configurable: true
});
"#;

/// JavaScript code to patch chrome runtime
pub const PATCH_CHROME_RUNTIME: &'static str = r#"
window.chrome = {
    runtime: {
        connect: () => {},
        sendMessage: () => {},
        onMessage: { addListener: () => {} }
    },
    loadTimes: function() {
        return {
            requestTime: Date.now() / 1000,
            startLoadTime: Date.now() / 1000,
            commitLoadTime: Date.now() / 1000,
            finishDocumentLoadTime: Date.now() / 1000,
            finishLoadTime: Date.now() / 1000
        };
    },
    csi: function() { return {}; }
};
"#;

/// JavaScript code to patch permissions API
pub const PATCH_PERMISSIONS: &'static str = r#"
const originalQuery = window.navigator.permissions.query;
window.navigator.permissions.query = (parameters) => (
    parameters.name === 'notifications' ?
        Promise.resolve({ state: Notification.permission }) :
        originalQuery(parameters)
);
"#;

/// JavaScript code to hide iframe detection
pub const PATCH_IFRAME: &'static str = r#"
Object.defineProperty(HTMLIFrameElement.prototype, 'contentWindow', {
    get: function() {
        return this._contentWindow || window;
    }
});
"#;

/// JavaScript code to patch WebGL vendor/renderer
pub const PATCH_WEBGL: &'static str = r#"
const getParameterProto = WebGLRenderingContext.prototype.getParameter;
WebGLRenderingContext.prototype.getParameter = function(parameter) {
    if (parameter === 37445) {
        return 'Intel Inc.';
    }
    if (parameter === 37446) {
        return 'Intel Iris OpenGL Engine';
    }
    return getParameterProto.call(this, parameter);
};
"#;

/// JavaScript code to patch console.debug
pub const PATCH_CONSOLE: &'static str = r#"
window.console.debug = () => null;
"#;

/// JavaScript code to fix broken iframe contentWindow access
pub const PATCH_BROKEN_IMAGE: &'static str = r#"
['height', 'width'].forEach(property => {
    const imageDescriptor = Object.getOwnPropertyDescriptor(HTMLImageElement.prototype, property);
    Object.defineProperty(HTMLImageElement.prototype, property, {
        ...imageDescriptor,
        get: function() {
            if (this.complete && this.naturalHeight == 0) {
                return 20;
            }
            return imageDescriptor.get.apply(this);
        },
    });
});
"#;

/// `parts` joined with newlines.
pub open spec fn join_lines(parts: Seq<Seq<char>>) -> Seq<char>
    decreases parts.len(),
{
    if parts.len() == 0 {
        Seq::empty()
    } else if parts.len() == 1 {
        parts[0]
    } else {
        join_lines(parts.drop_last()) + "\n"@ + parts.last()
    }
}

/// The patches that are injected, in order: all of them.
pub open spec fn injected_patches() -> Seq<Seq<char>> {
    seq![
        PATCH_WEBDRIVER@,
        PATCH_PLUGINS@,
        PATCH_LANGUAGES@,
        PATCH_CHROME_RUNTIME@,
        PATCH_PERMISSIONS@,
        PATCH_IFRAME@,
        PATCH_WEBGL@,
        PATCH_CONSOLE@,
        PATCH_BROKEN_IMAGE@,
    ]
}

/// Get all stealth patches as a single JavaScript string: the injected
/// patches joined with newlines.
pub fn get_all_patches() -> (r: String)
    ensures
        r@ == join_lines(injected_patches()),
{
    let parts: [&str; 9] = [
        PATCH_WEBDRIVER,
        PATCH_PLUGINS,
        PATCH_LANGUAGES,
        PATCH_CHROME_RUNTIME,
        PATCH_PERMISSIONS,
        PATCH_IFRAME,
        PATCH_WEBGL,
        PATCH_CONSOLE,
        PATCH_BROKEN_IMAGE,
    ];
    let ghost all = injected_patches();
    assert(parts@.map_values(|p: &str| p@) =~= all);
    let mut r = String::new();
    let mut i: usize = 0;
    while i < 9
        invariant
            i <= 9,
            all == injected_patches(),
            parts@.map_values(|p: &str| p@) == all,
            r@ == join_lines(all.take(i as int)),
        decreases 9 - i,
    {
        assert(all.take(i + 1).drop_last() =~= all.take(i as int));
        assert(parts@[i as int]@ == all[i as int]);
        if i > 0 {
            r.append("\n");
        } else {
            assert(r@ =~= Seq::<char>::empty());
        }
        r.append(parts[i]);
        assert(all.take(i + 1).last() == all[i as int]);
        if i == 0 {
            assert(r@ =~= all[0]);
        }
        i = i + 1;
    }
    assert(all.take(9) =~= all);
    r
}

} // verus!
