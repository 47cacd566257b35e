//! Where a Chromium binary is looked for, and what a user is told when it
//! cannot be downloaded. The platform is given by its `std::env::consts`
//! names (`OS`, `ARCH`).

use vstd::prelude::*;
use crate::text::str_eq;

verus! {

/// The file names of a Chromium executable on a platform.
pub open spec fn binary_names_for(os: Seq<char>) -> Seq<Seq<char>> {
    if os == "windows"@ {
        seq!["chrome.exe"@, "chromium.exe"@]
    } else if os == "macos"@ {
        seq!["Chromium"@, "Google Chrome for Testing"@, "chrome"@]
    } else {
        seq!["chrome"@, "chromium"@]
    }
}

/// The views of a sequence of string slices.
pub open spec fn str_seq_views(v: Seq<&str>) -> Seq<Seq<char>> {
    v.map_values(|s: &str| s@)
}

/// The file names under which a downloaded Chromium is searched for.
pub fn chromium_binary_names(os: &str) -> (r: Vec<&'static str>)
    ensures
        str_seq_views(r@) == binary_names_for(os@),
{
    let r = if str_eq(os, "windows") {
        vec!["chrome.exe", "chromium.exe"]
    } else if str_eq(os, "macos") {
        vec!["Chromium", "Google Chrome for Testing", "chrome"]
    } else {
        vec!["chrome", "chromium"]
    };
    assert(str_seq_views(r@) =~= binary_names_for(os@));
    r
}

/// The places a system-wide Chrome or Chromium is installed on a
/// platform.
pub open spec fn system_paths_for(os: Seq<char>) -> Seq<Seq<char>> {
    if os == "windows"@ {
        seq![
            "C:\\Program Files\\Google\\Chrome\\Application\\chrome.exe"@,
            "C:\\Program Files (x86)\\Google\\Chrome\\Application\\chrome.exe"@,
        ]
    } else if os == "macos"@ {
        seq![
            "/Applications/Google Chrome.app/Contents/MacOS/Google Chrome"@,
            "/Applications/Chromium.app/Contents/MacOS/Chromium"@,
        ]
    } else {
        seq![
            "/usr/bin/chromium"@,
            "/usr/bin/chromium-browser"@,
            "/usr/bin/google-chrome"@,
            "/usr/bin/google-chrome-stable"@,
            "/snap/bin/chromium"@,
        ]
    }
}

/// The paths checked, in order, for a system-wide Chrome or Chromium.
pub fn system_chrome_paths(os: &str) -> (r: Vec<&'static str>)
    ensures
        str_seq_views(r@) == system_paths_for(os@),
{
    let r = if str_eq(os, "windows") {
        vec![
            "C:\\Program Files\\Google\\Chrome\\Application\\chrome.exe",
            "C:\\Program Files (x86)\\Google\\Chrome\\Application\\chrome.exe",
        ]
    } else if str_eq(os, "macos") {
        vec![
            "/Applications/Google Chrome.app/Contents/MacOS/Google Chrome",
            "/Applications/Chromium.app/Contents/MacOS/Chromium",
        ]
    } else {
        vec![
            "/usr/bin/chromium",
            "/usr/bin/chromium-browser",
            "/usr/bin/google-chrome",
            "/usr/bin/google-chrome-stable",
            "/snap/bin/chromium",
        ]
    };
    assert(str_seq_views(r@) =~= system_paths_for(os@));
    r
}

/// The commands looked up on `PATH`, in order, when no installed browser
/// was found.
pub open spec fn path_command_names() -> Seq<Seq<char>> {
    seq!["chromium"@, "chromium-browser"@, "google-chrome"@, "google-chrome-stable"@]
}

/// The commands looked up on `PATH` for a browser.
pub fn chrome_path_commands() -> (r: Vec<&'static str>)
    ensures
        str_seq_views(r@) == path_command_names(),
{
    let r = vec!["chromium", "chromium-browser", "google-chrome", "google-chrome-stable"];
    assert(str_seq_views(r@) =~= path_command_names());
    r
}

/// How deep the cache directory is searched for a downloaded browser.
pub const MAX_SEARCH_DEPTH: usize = 6;

/// Chromium cannot be downloaded for Linux on ARM64.
pub fn is_unsupported_platform(os: &str, arch: &str) -> (r: bool)
    ensures
        r == (os@ == "linux"@ && arch@ == "aarch64"@),
{
    str_eq(os, "linux") && str_eq(arch, "aarch64")
}

/// The install instructions for a platform.
pub open spec fn instructions_for(os: Seq<char>, arch: Seq<char>) -> Seq<char> {
    if os == "linux"@ && arch == "aarch64"@ {
        "Linux ARM64 detected. Auto-download not available.\nInstall Chromium manually:\n\nUbuntu/Debian:\nsudo apt update && sudo apt install -y chromium-browser\n\nFedora:\nsudo dnf install -y chromium\n\nArch Linux:\nsudo pacman -S chromium\n\nAfter installation, recurl will automatically detect it."@
    } else if os == "linux"@ {
        "Install Chromium: sudo apt install chromium-browser"@
    } else if os == "macos"@ {
        "Install Chromium: brew install --cask chromium"@
    } else {
        "Install Google Chrome from https://www.google.com/chrome/"@
    }
}

/// What a user is told to do when Chromium cannot be downloaded.
pub fn install_instructions(os: &str, arch: &str) -> (r: &'static str)
    ensures
        r@ == instructions_for(os@, arch@),
{
    if str_eq(os, "linux") && str_eq(arch, "aarch64") {
        "Linux ARM64 detected. Auto-download not available.\nInstall Chromium manually:\n\nUbuntu/Debian:\nsudo apt update && sudo apt install -y chromium-browser\n\nFedora:\nsudo dnf install -y chromium\n\nArch Linux:\nsudo pacman -S chromium\n\nAfter installation, recurl will automatically detect it."
    } else if str_eq(os, "linux") {
        "Install Chromium: sudo apt install chromium-browser"
    } else if str_eq(os, "macos") {
        "Install Chromium: brew install --cask chromium"
    } else {
        "Install Google Chrome from https://www.google.com/chrome/"
    }
}

/// The directories, under the user's local data directory, that hold the
/// downloaded browser.
pub fn chromium_cache_subdirs() -> (r: Vec<&'static str>)
    ensures
        str_seq_views(r@) == seq!["recurl"@, "chromium"@],
{
    let r = vec!["recurl", "chromium"];
    assert(str_seq_views(r@) =~= seq!["recurl"@, "chromium"@]);
    r
}

} // verus!
