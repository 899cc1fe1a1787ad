//! The paths the tool works on: how they derive from the user's profile
//! directories, how the installed Codex package is chosen, the file name of a
//! path, and the editable copy of the paths that the window shows.
use vstd::prelude::*;
use crate::text::{chars_of, concat2, text_of, has_prefix, has_suffix};
use crate::versions::{codex_listing, newest_codex_dir};
use crate::order::{greatest_of, lemma_greatest_unique, lemma_greatest_exists};

verus! {

/// Whether `p` names a directory, as `Path::is_dir` reports it.
#[verifier::external_body]
fn path_is_dir(p: &str) -> bool {
    std::path::Path::new(p).is_dir()
}

/// Whether `p` names a regular file, as `Path::is_file` reports it.
#[verifier::external_body]
fn path_is_file(p: &str) -> bool {
    std::path::Path::new(p).is_file()
}

/// Whether `p` is a non-empty path to an existing directory. An empty path
/// never is one.
pub fn dir_exists(p: &str) -> (r: bool)
    ensures
        p@.len() == 0 ==> !r,
{
    !p.is_empty() && path_is_dir(p)
}

/// Whether `p` is a non-empty path to an existing regular file. An empty path
/// never is one.
pub fn file_exists(p: &str) -> (r: bool)
    ensures
        p@.len() == 0 ==> !r,
{
    !p.is_empty() && path_is_file(p)
}

// ---------------------------------------------------------------------------
// File names
// ---------------------------------------------------------------------------

/// A path separator on Windows.
pub open spec fn is_separator(c: char) -> bool {
    c == '/' || c == '\\'
}

/// A separator of the components of a path: in a verbatim path (one that
/// starts with `\\?\`) only the backslash, elsewhere either slash.
pub open spec fn is_sep(c: char, verbatim: bool) -> bool {
    if verbatim { c == '\\' } else { is_separator(c) }
}

/// An ASCII letter, as a drive letter is.
pub open spec fn is_ascii_letter(c: char) -> bool {
    ('a' <= c && c <= 'z') || ('A' <= c && c <= 'Z')
}

/// The path starts with the verbatim prefix `\\?\`, written with backslashes.
pub open spec fn is_verbatim(s: Seq<char>) -> bool {
    s.len() >= 4 && s[0] == '\\' && s[1] == '\\' && s[2] == '?' && s[3] == '\\'
}

/// The first separator at or after `from`, or the end of `s`.
pub open spec fn next_sep(s: Seq<char>, from: int, verbatim: bool) -> int
    decreases s.len() - from,
{
    if from >= s.len() {
        s.len() as int
    } else if is_sep(s[from], verbatim) {
        from
    } else {
        next_sep(s, from + 1, verbatim)
    }
}

proof fn lemma_next_sep_bounds(s: Seq<char>, from: int, verbatim: bool)
    requires
        0 <= from <= s.len(),
    ensures
        from <= next_sep(s, from, verbatim) <= s.len(),
    decreases s.len() - from,
{
    if from < s.len() && !is_sep(s[from], verbatim) {
        lemma_next_sep_bounds(s, from + 1, verbatim);
    }
}

/// The length of the Windows prefix that starts `s`, or zero when it has none:
/// `\\?\UNC\server\share`, `\\?\C:`, `\\?\name`, `\\.\device`, `\\server\share`
/// (a server and a share, both non-empty) or `C:`. The two leading separators,
/// the `\` after `.`, and the one after `UNC` may be either slash; the name parts
/// of a verbatim prefix end only at a backslash.
pub open spec fn prefix_len(s: Seq<char>) -> int {
    if is_verbatim(s) {
        if s.len() >= 8 && s[4] == 'U' && s[5] == 'N' && s[6] == 'C' && is_separator(s[7]) {
            let e1 = next_sep(s, 8, true);
            if e1 >= s.len() {
                e1
            } else {
                let e2 = next_sep(s, e1 + 1, true);
                if e2 == e1 + 1 { e1 } else { e2 }
            }
        } else if s.len() >= 6 && is_ascii_letter(s[4]) && s[5] == ':' && (s.len() == 6 || s[6] == '\\') {
            6
        } else {
            next_sep(s, 4, true)
        }
    } else if s.len() >= 2 && is_separator(s[0]) && is_separator(s[1]) {
        if s.len() >= 4 && s[2] == '.' && is_separator(s[3]) {
            next_sep(s, 4, false)
        } else {
            let e1 = next_sep(s, 2, false);
            if e1 == 2 || e1 >= s.len() {
                0
            } else {
                let e2 = next_sep(s, e1 + 1, false);
                if e2 == e1 + 1 { 0 } else { e2 }
            }
        }
    } else if s.len() >= 2 && is_ascii_letter(s[0]) && s[1] == ':' {
        2
    } else {
        0
    }
}

proof fn lemma_prefix_len_bounds(s: Seq<char>)
    ensures
        0 <= prefix_len(s) <= s.len(),
{
    if is_verbatim(s) {
        if s.len() >= 8 {
            lemma_next_sep_bounds(s, 8, true);
            let e1 = next_sep(s, 8, true);
            if e1 < s.len() {
                lemma_next_sep_bounds(s, e1 + 1, true);
            }
        }
        lemma_next_sep_bounds(s, 4, true);
    } else if s.len() >= 2 {
        if s.len() >= 4 {
            lemma_next_sep_bounds(s, 4, false);
        }
        lemma_next_sep_bounds(s, 2, false);
        let e1 = next_sep(s, 2, false);
        if e1 < s.len() {
            lemma_next_sep_bounds(s, e1 + 1, false);
        }
    }
}

/// The last separator in `s[lo..end]`, or `lo - 1` when there is none.
pub open spec fn last_separator(s: Seq<char>, lo: int, end: int, verbatim: bool) -> int
    decreases end - lo,
{
    if end <= lo {
        lo - 1
    } else if is_sep(s[end - 1], verbatim) {
        end - 1
    } else {
        last_separator(s, lo, end - 1, verbatim)
    }
}

/// The last separator of a non-empty range lies inside it, or just before it.
pub proof fn lemma_last_separator_below(s: Seq<char>, lo: int, end: int, verbatim: bool)
    requires
        lo < end,
    ensures
        lo - 1 <= last_separator(s, lo, end, verbatim) < end,
    decreases end - lo,
{
    if !is_sep(s[end - 1], verbatim) {
        if end - 1 > lo {
            lemma_last_separator_below(s, lo, end - 1, verbatim);
        } else {
            assert(last_separator(s, lo, end - 1, verbatim) == lo - 1);
        }
    }
}

/// The file name of the components `s[lo..end]`: the last component, where
/// empty components do not count and `.` counts only in a verbatim path; nothing
/// when that component is `.` or `..`, or there is none.
pub open spec fn name_within(s: Seq<char>, lo: int, end: int, verbatim: bool) -> Seq<char>
    decreases end - lo,
{
    if end <= lo {
        Seq::empty()
    } else {
        let k = last_separator(s, lo, end, verbatim);
        let seg = s.subrange(k + 1, end);
        if seg.len() == 0 || (seg == "."@ && !verbatim) {
            if k < lo {
                Seq::empty()
            } else {
                proof {
                    lemma_last_separator_below(s, lo, end, verbatim);
                }
                name_within(s, lo, k, verbatim)
            }
        } else if seg == "."@ || seg == ".."@ {
            Seq::empty()
        } else {
            seg
        }
    }
}

/// The file name of a Windows path, as `Path::file_name` gives it there, or the
/// empty string when the path has none: the last component after the prefix.
pub open spec fn file_name_of(s: Seq<char>) -> Seq<char> {
    name_within(s, prefix_len(s), s.len() as int, is_verbatim(s))
}

proof fn lemma_last_separator_bounds(s: Seq<char>, lo: int, end: int, verbatim: bool)
    requires
        0 <= lo <= end <= s.len(),
    ensures
        lo - 1 <= last_separator(s, lo, end, verbatim) < end,
        last_separator(s, lo, end, verbatim) >= lo ==> is_sep(s[last_separator(s, lo, end, verbatim)], verbatim),
        forall|j: int| last_separator(s, lo, end, verbatim) < j < end ==> !is_sep(#[trigger] s[j], verbatim),
    decreases end - lo,
{
    if end > lo && !is_sep(s[end - 1], verbatim) {
        lemma_last_separator_bounds(s, lo, end - 1, verbatim);
    }
}

proof fn lemma_last_separator_is(s: Seq<char>, lo: int, end: int, verbatim: bool, k: int)
    requires
        0 <= lo <= k < end <= s.len(),
        is_sep(s[k], verbatim),
        forall|j: int| k < j < end ==> !is_sep(#[trigger] s[j], verbatim),
    ensures
        last_separator(s, lo, end, verbatim) == k,
{
    lemma_last_separator_bounds(s, lo, end, verbatim);
    let r = last_separator(s, lo, end, verbatim);
    if r < k {
        assert(!is_sep(s[k], verbatim));
    }
    if r > k {
        assert(!is_sep(s[r], verbatim));
    }
}

/// A name joined to a directory with `/` is the file name of the result, when
/// the name holds no separator and is neither `.` nor `..`. The law leaves out
/// the joins where it fails: a verbatim path, where `/` separates nothing, and a
/// join whose prefix takes in the name, as `\\server` + `/` + `share` forms the
/// prefix `\\server/share`.
pub proof fn lemma_file_name_of_join(d: Seq<char>, n: Seq<char>)
    requires
        n.len() > 0,
        forall|i: int| 0 <= i < n.len() ==> !is_separator(#[trigger] n[i]),
        n != "."@,
        n != ".."@,
        !is_verbatim(d + "/"@ + n),
        prefix_len(d + "/"@ + n) <= d.len() + 1,
    ensures
        file_name_of(d + "/"@ + n) == n,
{
    reveal_strlit("/");
    let s = d + "/"@ + n;
    let k = d.len() as int;
    let lo = prefix_len(s);
    lemma_prefix_len_bounds(s);
    assert(s[k] == '/');
    assert forall|j: int| k < j < s.len() implies !is_sep(#[trigger] s[j], false) by {
        assert(s[j] == n[j - k - 1]);
    }
    assert(s.subrange(k + 1, s.len() as int) =~= n);
    if lo <= k {
        lemma_last_separator_is(s, lo, s.len() as int, false, k);
    } else {
        lemma_last_separator_bounds(s, lo, s.len() as int, false);
        let r = last_separator(s, lo, s.len() as int, false);
        if r >= lo {
            assert(!is_sep(s[r], false));
        }
    }
}

fn sep_char(c: char, verbatim: bool) -> (r: bool)
    ensures
        r == is_sep(c, verbatim),
{
    if verbatim { c == '\\' } else { c == '/' || c == '\\' }
}

/// The first separator at or after `from`, or the end.
fn next_separator(s: &[char], from: usize, verbatim: bool) -> (r: usize)
    requires
        from <= s@.len(),
    ensures
        r as int == next_sep(s@, from as int, verbatim),
        from <= r <= s@.len(),
{
    let mut i = from;
    while i < s.len()
        invariant
            from <= i <= s@.len(),
            next_sep(s@, from as int, verbatim) == next_sep(s@, i as int, verbatim),
        decreases s@.len() - i,
    {
        if sep_char(s[i], verbatim) {
            return i;
        }
        i = i + 1;
    }
    i
}

fn ascii_letter(c: char) -> (r: bool)
    ensures
        r == is_ascii_letter(c),
{
    ('a' <= c && c <= 'z') || ('A' <= c && c <= 'Z')
}

fn slash(c: char) -> (r: bool)
    ensures
        r == is_separator(c),
{
    c == '/' || c == '\\'
}

/// Whether `s` starts with `\\?\`.
fn verbatim_path(s: &[char]) -> (r: bool)
    ensures
        r == is_verbatim(s@),
{
    s.len() >= 4 && s[0] == '\\' && s[1] == '\\' && s[2] == '?' && s[3] == '\\'
}

/// The length of the Windows prefix that starts `s`.
fn prefix_length(s: &[char]) -> (r: usize)
    ensures
        r as int == prefix_len(s@),
        r <= s@.len(),
{
    proof {
        lemma_prefix_len_bounds(s@);
    }
    let n = s.len();
    if verbatim_path(s) {
        if n >= 8 && s[4] == 'U' && s[5] == 'N' && s[6] == 'C' && slash(s[7]) {
            let e1 = next_separator(s, 8, true);
            if e1 >= n {
                e1
            } else {
                let e2 = next_separator(s, e1 + 1, true);
                if e2 == e1 + 1 { e1 } else { e2 }
            }
        } else if n >= 6 && ascii_letter(s[4]) && s[5] == ':' && (n == 6 || s[6] == '\\') {
            6
        } else {
            next_separator(s, 4, true)
        }
    } else if n >= 2 && slash(s[0]) && slash(s[1]) {
        if n >= 4 && s[2] == '.' && slash(s[3]) {
            next_separator(s, 4, false)
        } else {
            let e1 = next_separator(s, 2, false);
            if e1 == 2 || e1 >= n {
                0
            } else {
                let e2 = next_separator(s, e1 + 1, false);
                if e2 == e1 + 1 { 0 } else { e2 }
            }
        }
    } else if n >= 2 && ascii_letter(s[0]) && s[1] == ':' {
        2
    } else {
        0
    }
}

/// The last separator in `s[lo..end]`, or `lo - 1` (as `None`) when there is none.
fn find_last_separator(s: &[char], lo: usize, end: usize, verbatim: bool) -> (r: Option<usize>)
    requires
        lo <= end <= s@.len(),
    ensures
        match r {
            Some(k) => k as int == last_separator(s@, lo as int, end as int, verbatim) && lo <= k < end,
            None => last_separator(s@, lo as int, end as int, verbatim) == lo - 1,
        },
{
    let mut e = end;
    while e > lo
        invariant
            lo <= e <= end <= s@.len(),
            last_separator(s@, lo as int, end as int, verbatim) == last_separator(s@, lo as int, e as int, verbatim),
        decreases e - lo,
    {
        if sep_char(s[e - 1], verbatim) {
            return Some(e - 1);
        }
        e = e - 1;
    }
    None
}

/// The file name of a path, or the empty string when it has none.
pub fn base_name(p: &str) -> (r: String)
    ensures
        r@ == file_name_of(p@),
{
    let s = chars_of(p);
    let verbatim = verbatim_path(s.as_slice());
    let lo = prefix_length(s.as_slice());
    let mut end = s.len();
    loop
        invariant
            s@ == p@,
            lo <= end <= s@.len(),
            lo == prefix_len(s@),
            verbatim == is_verbatim(s@),
            file_name_of(p@) == name_within(s@, lo as int, end as int, verbatim),
        decreases end,
    {
        if end <= lo {
            return String::new();
        }
        let found = find_last_separator(s.as_slice(), lo, end, verbatim);
        let start = match found {
            Some(k) => k + 1,
            None => lo,
        };
        proof {
            lemma_last_separator_bounds(s@, lo as int, end as int, verbatim);
            reveal_strlit(".");
            reveal_strlit("..");
        }
        let ghost seg = s@.subrange(start as int, end as int);
        let len = end - start;
        let dot = len == 1 && s[start] == '.';
        let dots = len == 2 && s[start] == '.' && s[start + 1] == '.';
        proof {
            if dot {
                assert(seg =~= "."@);
            }
            if dots {
                assert(seg =~= ".."@);
            }
            if seg == "."@ {
                assert(seg[0] == '.');
            }
            if seg == ".."@ {
                assert(seg[0] == '.' && seg[1] == '.');
            }
        }
        if len == 0 || (dot && !verbatim) {
            match found {
                Some(k) => {
                    end = k;
                },
                None => {
                    return String::new();
                },
            }
        } else if dot || dots {
            return String::new();
        } else {
            let mut out: Vec<char> = Vec::new();
            let mut i = start;
            while i < end
                invariant
                    start <= i <= end <= s@.len(),
                    out@ == s@.subrange(start as int, i as int),
                decreases end - i,
            {
                out.push(s[i]);
                assert(s@.subrange(start as int, i + 1) =~= s@.subrange(start as int, i as int).push(s@[i as int]));
                i = i + 1;
            }
            return text_of(out.as_slice());
        }
    }
}


// ---------------------------------------------------------------------------
// The detected paths
// ---------------------------------------------------------------------------

/// Every path the diagnosis and the repair look at.
#[derive(Clone, Debug, Default)]
pub struct DetectedPaths {
    pub codex_home: String,
    pub bundled_tmp_root: String,
    pub marketplace_json: String,
    pub plugin_cache_root: String,
    pub cache_chrome_latest: String,
    pub cache_computer_use_latest: String,
    pub cache_browser_latest: String,
    pub windowsapps_source: String,
    pub extension_manifest: String,
    pub config_toml: String,
    pub extension_host_exe: String,
    pub native_hosts: String,
    pub backup_root: String,
}

/// `.codex` in the user's profile directory.
pub open spec fn codex_home_of(profile: Seq<char>) -> Seq<char> {
    profile + "/.codex"@
}

/// Where Codex unpacks the bundled marketplace.
pub open spec fn bundled_tmp_of(profile: Seq<char>) -> Seq<char> {
    codex_home_of(profile) + "/.tmp/bundled-marketplaces/openai-bundled"@
}

/// The marketplace file below a bundled marketplace root.
pub open spec fn marketplace_in(root: Seq<char>) -> Seq<char> {
    root + "/.agents/plugins/marketplace.json"@
}

/// The cache of the bundled plugins.
pub open spec fn plugin_cache_of(profile: Seq<char>) -> Seq<char> {
    codex_home_of(profile) + "/plugins/cache/openai-bundled"@
}

/// The `latest` link of one plugin in the cache.
pub open spec fn cache_latest_of(profile: Seq<char>, plugin: Seq<char>) -> Seq<char> {
    plugin_cache_of(profile) + "/"@ + plugin + "/latest"@
}

/// `OpenAI` in the local application data directory.
pub open spec fn openai_local_of(local: Seq<char>) -> Seq<char> {
    local + "/OpenAI"@
}

/// The paths derived from the user's profile directory `profile`, the local
/// application data directory `local` and the chosen plugin source; the Codex
/// home and the plugin cache are kept only where they are present.
pub open spec fn paths_match(
    r: DetectedPaths,
    profile: Seq<char>,
    local: Seq<char>,
    source: Seq<char>,
    home_present: bool,
    cache_present: bool,
) -> bool {
    &&& r.codex_home@ == (if home_present { codex_home_of(profile) } else { Seq::empty() })
    &&& r.bundled_tmp_root@ == bundled_tmp_of(profile)
    &&& r.marketplace_json@ == marketplace_in(bundled_tmp_of(profile))
    &&& r.plugin_cache_root@ == (if cache_present { plugin_cache_of(profile) } else { Seq::empty() })
    &&& r.cache_chrome_latest@ == cache_latest_of(profile, "chrome"@)
    &&& r.cache_computer_use_latest@ == cache_latest_of(profile, "computer-use"@)
    &&& r.cache_browser_latest@ == cache_latest_of(profile, "browser"@)
    &&& r.windowsapps_source@ == source
    &&& r.extension_manifest@ == openai_local_of(local) + "/extension/com.openai.codexextension.json"@
    &&& r.config_toml@ == codex_home_of(profile) + "/config.toml"@
    &&& r.extension_host_exe@ == codex_home_of(profile)
        + "/plugins/cache/openai-bundled/chrome/latest/extension-host/windows/x64/extension-host.exe"@
    &&& r.native_hosts@ == openai_local_of(local) + "/Codex"@ + "/chrome-native-hosts.json"@
    &&& r.backup_root@ == profile + "/codex-plugin-backups"@
}

/// The marketplace file below a bundled marketplace root.
pub fn marketplace_file(root: &str) -> (r: String)
    ensures
        r@ == marketplace_in(root@),
{
    concat2(root, "/.agents/plugins/marketplace.json")
}

/// The Codex home directory for a profile directory.
pub fn codex_home_dir(profile: &str) -> (r: String)
    ensures
        r@ == codex_home_of(profile@),
{
    concat2(profile, "/.codex")
}

/// The plugin cache directory for a profile directory.
pub fn plugin_cache_dir(profile: &str) -> (r: String)
    ensures
        r@ == plugin_cache_of(profile@),
{
    let home = codex_home_dir(profile);
    concat2(home.as_str(), "/plugins/cache/openai-bundled")
}

/// The paths for the given profile and local application data directories,
/// with the chosen plugin source, keeping the Codex home and the plugin cache
/// only where `home_present` and `cache_present` say they exist.
pub fn paths_for(
    profile: &str,
    local: &str,
    windowsapps_source: String,
    home_present: bool,
    cache_present: bool,
) -> (r: DetectedPaths)
    ensures
        paths_match(r, profile@, local@, windowsapps_source@, home_present, cache_present),
{
    let codex_home = codex_home_dir(profile);
    let openai_local = concat2(local, "/OpenAI");
    let codex_local = concat2(openai_local.as_str(), "/Codex");
    let bundled_tmp = concat2(codex_home.as_str(), "/.tmp/bundled-marketplaces/openai-bundled");
    let mkt = concat2(bundled_tmp.as_str(), "/.agents/plugins/marketplace.json");
    let plugin_cache = plugin_cache_dir(profile);
    let cache_chrome = concat2(plugin_cache.as_str(), "/chrome/latest");
    let cache_cu = concat2(plugin_cache.as_str(), "/computer-use/latest");
    let cache_br = concat2(plugin_cache.as_str(), "/browser/latest");
    proof {
        reveal_strlit("/chrome/latest");
        reveal_strlit("/");
        reveal_strlit("chrome");
        reveal_strlit("/latest");
        reveal_strlit("/computer-use/latest");
        reveal_strlit("computer-use");
        reveal_strlit("/browser/latest");
        reveal_strlit("browser");
        assert(cache_chrome@ =~= cache_latest_of(profile@, "chrome"@));
        assert(cache_cu@ =~= cache_latest_of(profile@, "computer-use"@));
        assert(cache_br@ =~= cache_latest_of(profile@, "browser"@));
    }
    let ext_manifest = concat2(openai_local.as_str(), "/extension/com.openai.codexextension.json");
    let config_toml = concat2(codex_home.as_str(), "/config.toml");
    let ext_host = concat2(
        codex_home.as_str(),
        "/plugins/cache/openai-bundled/chrome/latest/extension-host/windows/x64/extension-host.exe",
    );
    let native_hosts = concat2(codex_local.as_str(), "/chrome-native-hosts.json");
    let backup_root = concat2(profile, "/codex-plugin-backups");
    DetectedPaths {
        codex_home: if home_present { codex_home } else { String::new() },
        bundled_tmp_root: bundled_tmp,
        marketplace_json: mkt,
        plugin_cache_root: if cache_present { plugin_cache } else { String::new() },
        cache_chrome_latest: cache_chrome,
        cache_computer_use_latest: cache_cu,
        cache_browser_latest: cache_br,
        windowsapps_source,
        extension_manifest: ext_manifest,
        config_toml,
        extension_host_exe: ext_host,
        native_hosts,
        backup_root,
    }
}

/// The paths for the given profile and local application data directories and
/// plugin source; the Codex home and the plugin cache are kept when they are
/// directories on disk and left empty otherwise.
pub fn detect_paths(profile: &str, local: &str, windowsapps_source: String) -> (r: DetectedPaths)
    ensures
        exists|home_present: bool, cache_present: bool|
            paths_match(r, profile@, local@, windowsapps_source@, home_present, cache_present),
{
    let home = codex_home_dir(profile);
    let cache = plugin_cache_dir(profile);
    let home_present = dir_exists(home.as_str());
    let cache_present = dir_exists(cache.as_str());
    paths_for(profile, local, windowsapps_source, home_present, cache_present)
}

// ---------------------------------------------------------------------------
// The plugin source in WindowsApps
// ---------------------------------------------------------------------------

/// The directory the Store installs packages in.
pub fn windowsapps_dir(program_files: &str) -> (r: String)
    ensures
        r@ == program_files@ + "/WindowsApps"@,
{
    concat2(program_files, "/WindowsApps")
}

/// The bundled plugins inside an installed Codex package.
pub open spec fn plugin_source_in(package: Seq<char>) -> Seq<char> {
    package + "/app/resources/plugins/openai-bundled"@
}

/// The bundled plugins inside the installed Codex package `package`.
pub fn plugin_source_dir(package: &str) -> (r: String)
    ensures
        r@ == plugin_source_in(package@),
{
    concat2(package, "/app/resources/plugins/openai-bundled")
}

/// The plugins of the greatest Codex package that a listing shows, or the empty
/// string when it shows none.
pub open spec fn primary_source(entries: Seq<(Seq<char>, Seq<char>)>) -> Seq<char> {
    let c = codex_listing(entries);
    if c.len() == 0 {
        Seq::empty()
    } else {
        plugin_source_in(greatest_of(c))
    }
}

/// The plugin source found by an ordinary listing of WindowsApps, each entry given
/// by its name and its path: the plugins of the greatest Codex package, or the
/// empty string when the listing shows none.
pub fn primary_windowsapps_source(entries: &Vec<(String, String)>) -> (r: String)
    ensures
        r@ == primary_source(entries.deep_view()),
{
    match newest_codex_dir(entries) {
        Some(p) => {
            proof {
                lemma_greatest_unique(codex_listing(entries.deep_view()), p@, greatest_of(
                    codex_listing(entries.deep_view()),
                ));
            }
            plugin_source_dir(p.as_str())
        },
        None => String::new(),
    }
}

/// The ordinary listing gave no usable source: none was found, or it does not exist.
pub fn windowsapps_needs_fallback(source: &str, source_exists: bool) -> (r: bool)
    ensures
        r == (source@.len() == 0 || !source_exists),
{
    source.is_empty() || !source_exists
}

/// The index of the first `true` at or after `i`, or -1.
pub open spec fn first_true_from(flags: Seq<bool>, i: int) -> int
    decreases flags.len() - i,
{
    if i < 0 || i >= flags.len() {
        -1
    } else if flags[i] {
        i
    } else {
        first_true_from(flags, i + 1)
    }
}

/// The source chosen from the Codex packages that the privileged listing found:
/// the plugins of the first package whose plugins exist (`present[i]` for
/// `packages[i]`); failing that, when `current` is empty, those of the first
/// package; otherwise `current`.
pub open spec fn fallback_source(current: Seq<char>, packages: Seq<Seq<char>>, present: Seq<bool>) -> Seq<char> {
    let i = first_true_from(present, 0);
    if i >= 0 {
        plugin_source_in(packages[i])
    } else if current.len() == 0 && packages.len() > 0 {
        plugin_source_in(packages[0])
    } else {
        current
    }
}

/// The source chosen after the privileged listing; see [`fallback_source`].
pub fn fallback_windowsapps_source(current: String, packages: &Vec<String>, present: &Vec<bool>) -> (r: String)
    requires
        packages@.len() == present@.len(),
    ensures
        r@ == fallback_source(current@, packages.deep_view(), present@),
{
    let mut i: usize = 0;
    while i < present.len()
        invariant
            packages@.len() == present@.len(),
            i <= present@.len(),
            first_true_from(present@, 0) == first_true_from(present@, i as int),
        decreases present@.len() - i,
    {
        if present[i] {
            return plugin_source_dir(packages[i].as_str());
        }
        i = i + 1;
    }
    if current.as_str().is_empty() && packages.len() > 0 {
        plugin_source_dir(packages[0].as_str())
    } else {
        current
    }
}

/// A plugin source inside the directory `dir`: none, or a path that starts with
/// `dir` and ends in the bundled plugins of a package.
pub open spec fn source_within(src: Seq<char>, dir: Seq<char>) -> bool {
    src.len() == 0 || (has_prefix(src, dir) && has_suffix(src, "/app/resources/plugins/openai-bundled"@))
}

proof fn lemma_plugin_source_within(p: Seq<char>, dir: Seq<char>)
    requires
        has_prefix(p, dir),
    ensures
        source_within(plugin_source_in(p), dir),
{
    let s = plugin_source_in(p);
    let tail = "/app/resources/plugins/openai-bundled"@;
    assert(s.subrange(0, dir.len() as int) =~= p.subrange(0, dir.len() as int));
    assert(s.subrange(s.len() - tail.len(), s.len() as int) =~= tail);
}

proof fn lemma_codex_listing_within(entries: Seq<(Seq<char>, Seq<char>)>, dir: Seq<char>)
    requires
        forall|i: int| 0 <= i < entries.len() ==> has_prefix(#[trigger] entries[i].1, dir),
    ensures
        forall|j: int| 0 <= j < codex_listing(entries).len() ==> has_prefix(#[trigger] codex_listing(entries)[j], dir),
    decreases entries.len(),
{
    if entries.len() > 0 {
        let d = entries.drop_last();
        assert forall|i: int| 0 <= i < d.len() implies has_prefix(#[trigger] d[i].1, dir) by {
            assert(d[i] == entries[i]);
        }
        lemma_codex_listing_within(d, dir);
        assert(has_prefix(entries[entries.len() - 1].1, dir));
        let prev = codex_listing(d);
        let c = codex_listing(entries);
        assert forall|j: int| 0 <= j < c.len() implies has_prefix(#[trigger] c[j], dir) by {
            if j < prev.len() {
                assert(c[j] == prev[j]);
            } else {
                assert(c[j] == entries.last().1);
            }
        }
    }
}

/// The plugin source that the ordinary listing of WindowsApps gives lies in it:
/// when every listed path starts with `dir`, so does the source, unless it is
/// empty.
pub proof fn lemma_primary_source_within(entries: Seq<(Seq<char>, Seq<char>)>, dir: Seq<char>)
    requires
        forall|i: int| 0 <= i < entries.len() ==> has_prefix(#[trigger] entries[i].1, dir),
    ensures
        source_within(primary_source(entries), dir),
{
    lemma_codex_listing_within(entries, dir);
    let c = codex_listing(entries);
    if c.len() > 0 {
        lemma_greatest_exists(c);
        let p = greatest_of(c);
        let j = choose|j: int| 0 <= j < c.len() && c[j] == p;
        assert(has_prefix(c[j], dir));
        lemma_plugin_source_within(p, dir);
    }
}

proof fn lemma_first_true_from_range(flags: Seq<bool>, i: int)
    requires
        0 <= i,
    ensures
        first_true_from(flags, i) == -1 || (i <= first_true_from(flags, i) < flags.len()),
    decreases flags.len() - i,
{
    if i < flags.len() && !flags[i] {
        lemma_first_true_from_range(flags, i + 1);
    }
}

/// The fallback choice stays in WindowsApps: when the current source lies in
/// `dir` and every package found starts with `dir`, so does the source chosen.
pub proof fn lemma_fallback_source_within(
    current: Seq<char>,
    packages: Seq<Seq<char>>,
    present: Seq<bool>,
    dir: Seq<char>,
)
    requires
        packages.len() == present.len(),
        source_within(current, dir),
        forall|i: int| 0 <= i < packages.len() ==> has_prefix(#[trigger] packages[i], dir),
    ensures
        source_within(fallback_source(current, packages, present), dir),
{
    lemma_first_true_from_range(present, 0);
    let i = first_true_from(present, 0);
    if i >= 0 {
        assert(has_prefix(packages[i], dir));
        lemma_plugin_source_within(packages[i], dir);
    } else if current.len() == 0 && packages.len() > 0 {
        assert(has_prefix(packages[0], dir));
        lemma_plugin_source_within(packages[0], dir);
    }
}

/// The WindowsApps directory under `program_files`.
pub open spec fn windowsapps_dir_of(program_files: Seq<char>) -> Seq<char> {
    program_files + "/WindowsApps"@
}

/// The first choice of the plugin source: nothing without a `ProgramFiles`
/// directory or when the ordinary listing of WindowsApps failed (`listed` is
/// false); otherwise what that listing shows.
pub open spec fn primary_source_of(
    program_files: Seq<char>,
    listed: bool,
    entries: Seq<(Seq<char>, Seq<char>)>,
) -> Seq<char> {
    if program_files.len() == 0 || !listed {
        Seq::empty()
    } else {
        primary_source(entries)
    }
}

/// The plugin source the detection settles on: nothing without a
/// `ProgramFiles` directory; the first choice when it is found and exists;
/// otherwise the choice made from the privileged listing's packages.
pub open spec fn chosen_source(
    program_files: Seq<char>,
    primary: Seq<char>,
    primary_exists: bool,
    packages: Seq<Seq<char>>,
    present: Seq<bool>,
) -> Seq<char> {
    if program_files.len() == 0 {
        Seq::empty()
    } else if primary.len() > 0 && primary_exists {
        primary
    } else {
        fallback_source(primary, packages, present)
    }
}

/// The first choice of the plugin source, from the ordinary listing of
/// `windowsapps_dir(program_files)`; `listed` says whether that listing could be
/// read, `entries` gives its names and paths.
pub fn primary_source_for(program_files: &str, listed: bool, entries: &Vec<(String, String)>) -> (r: String)
    ensures
        r@ == primary_source_of(program_files@, listed, entries.deep_view()),
{
    if program_files.is_empty() || !listed {
        String::new()
    } else {
        primary_windowsapps_source(entries)
    }
}

/// Whether the privileged listing of WindowsApps is needed: there is a
/// `ProgramFiles` directory and the first choice is empty or does not exist.
pub fn needs_privileged_listing(program_files: &str, primary: &str, primary_exists: bool) -> (r: bool)
    ensures
        r == (program_files@.len() > 0 && (primary@.len() == 0 || !primary_exists)),
{
    !program_files.is_empty() && windowsapps_needs_fallback(primary, primary_exists)
}

/// The plugin source the detection settles on, from the first choice, whether it
/// exists, and the packages of the privileged listing with whether their plugins
/// exist (`present[i]` for `packages[i]`); see [`chosen_source`].
pub fn windowsapps_source_for(
    program_files: &str,
    primary: String,
    primary_exists: bool,
    packages: &Vec<String>,
    present: &Vec<bool>,
) -> (r: String)
    requires
        packages@.len() == present@.len(),
    ensures
        r@ == chosen_source(program_files@, primary@, primary_exists, packages.deep_view(), present@),
{
    if program_files.is_empty() {
        String::new()
    } else if !windowsapps_needs_fallback(primary.as_str(), primary_exists) {
        primary
    } else {
        fallback_windowsapps_source(primary, packages, present)
    }
}

/// The plugin source the detection settles on lies in WindowsApps: when every
/// path of the ordinary listing and every package of the privileged one starts
/// with `ProgramFiles` + `/WindowsApps`, the source is empty or starts with that
/// directory and ends in the bundled plugins of a package; without a
/// `ProgramFiles` directory it is empty.
pub proof fn lemma_detected_source_within(
    program_files: Seq<char>,
    listed: bool,
    entries: Seq<(Seq<char>, Seq<char>)>,
    primary_exists: bool,
    packages: Seq<Seq<char>>,
    present: Seq<bool>,
)
    requires
        packages.len() == present.len(),
        forall|i: int| 0 <= i < entries.len() ==> has_prefix(#[trigger] entries[i].1, windowsapps_dir_of(program_files)),
        forall|i: int| 0 <= i < packages.len() ==> has_prefix(#[trigger] packages[i], windowsapps_dir_of(program_files)),
    ensures
        source_within(
            chosen_source(program_files, primary_source_of(program_files, listed, entries), primary_exists, packages, present),
            windowsapps_dir_of(program_files),
        ),
        program_files.len() == 0 ==> chosen_source(
            program_files,
            primary_source_of(program_files, listed, entries),
            primary_exists,
            packages,
            present,
        ).len() == 0,
{
    let dir = windowsapps_dir_of(program_files);
    let primary = primary_source_of(program_files, listed, entries);
    lemma_primary_source_within(entries, dir);
    assert(source_within(primary, dir));
    lemma_fallback_source_within(primary, packages, present, dir);
}

// ---------------------------------------------------------------------------
// The editable paths
// ---------------------------------------------------------------------------

/// The paths that the window lets the user edit, in the order it shows them.
#[derive(Clone, Copy, Debug, PartialEq, Eq)]
pub enum PathField {
    CodexHome,
    MarketplaceJson,
    WindowsappsSource,
    PluginCacheRoot,
    ExtensionManifest,
    ConfigToml,
    ExtensionHostExe,
}

impl PathField {
    /// Every editable path, in the order the window shows them.
    pub fn all() -> (r: Vec<PathField>)
        ensures
            r@ == seq![
                PathField::CodexHome,
                PathField::MarketplaceJson,
                PathField::WindowsappsSource,
                PathField::PluginCacheRoot,
                PathField::ExtensionManifest,
                PathField::ConfigToml,
                PathField::ExtensionHostExe,
            ],
    {
        let r = vec![
            PathField::CodexHome,
            PathField::MarketplaceJson,
            PathField::WindowsappsSource,
            PathField::PluginCacheRoot,
            PathField::ExtensionManifest,
            PathField::ConfigToml,
            PathField::ExtensionHostExe,
        ];
        assert(r@ =~= seq![
            PathField::CodexHome,
            PathField::MarketplaceJson,
            PathField::WindowsappsSource,
            PathField::PluginCacheRoot,
            PathField::ExtensionManifest,
            PathField::ConfigToml,
            PathField::ExtensionHostExe,
        ]);
        r
    }

    /// The label the window shows beside the field.
    pub open spec fn label_text(self) -> Seq<char> {
        match self {
            PathField::CodexHome => "Codex 目录"@,
            PathField::MarketplaceJson => "marketplace.json"@,
            PathField::WindowsappsSource => "WindowsApps 源"@,
            PathField::PluginCacheRoot => "插件缓存根目录"@,
            PathField::ExtensionManifest => "扩展清单"@,
            PathField::ConfigToml => "config.toml"@,
            PathField::ExtensionHostExe => "extension-host.exe"@,
        }
    }

    /// The label the window shows beside the field.
    pub fn label(&self) -> (r: String)
        ensures
            r@ == self.label_text(),
    {
        match self {
            PathField::CodexHome => String::from_str("Codex 目录"),
            PathField::MarketplaceJson => String::from_str("marketplace.json"),
            PathField::WindowsappsSource => String::from_str("WindowsApps 源"),
            PathField::PluginCacheRoot => String::from_str("插件缓存根目录"),
            PathField::ExtensionManifest => String::from_str("扩展清单"),
            PathField::ConfigToml => String::from_str("config.toml"),
            PathField::ExtensionHostExe => String::from_str("extension-host.exe"),
        }
    }

    /// The field of the detected paths that this input edits.
    pub open spec fn of(self, p: DetectedPaths) -> String {
        match self {
            PathField::CodexHome => p.codex_home,
            PathField::MarketplaceJson => p.marketplace_json,
            PathField::WindowsappsSource => p.windowsapps_source,
            PathField::PluginCacheRoot => p.plugin_cache_root,
            PathField::ExtensionManifest => p.extension_manifest,
            PathField::ConfigToml => p.config_toml,
            PathField::ExtensionHostExe => p.extension_host_exe,
        }
    }
}

/// The edited values of the editable paths.
#[derive(Clone, Debug)]
pub struct PathInputs {
    pub codex_home: String,
    pub marketplace_json: String,
    pub windowsapps_source: String,
    pub plugin_cache_root: String,
    pub extension_manifest: String,
    pub config_toml: String,
    pub extension_host_exe: String,
}

impl PathInputs {
    /// The value held for `f`.
    pub open spec fn value(self, f: PathField) -> String {
        match f {
            PathField::CodexHome => self.codex_home,
            PathField::MarketplaceJson => self.marketplace_json,
            PathField::WindowsappsSource => self.windowsapps_source,
            PathField::PluginCacheRoot => self.plugin_cache_root,
            PathField::ExtensionManifest => self.extension_manifest,
            PathField::ConfigToml => self.config_toml,
            PathField::ExtensionHostExe => self.extension_host_exe,
        }
    }

    /// The inputs as the detected paths fill them.
    pub fn from_paths(p: &DetectedPaths) -> (r: PathInputs)
        ensures
            forall|f: PathField| #[trigger] r.value(f) == f.of(*p),
    {
        PathInputs {
            codex_home: p.codex_home.clone(),
            marketplace_json: p.marketplace_json.clone(),
            windowsapps_source: p.windowsapps_source.clone(),
            plugin_cache_root: p.plugin_cache_root.clone(),
            extension_manifest: p.extension_manifest.clone(),
            config_toml: p.config_toml.clone(),
            extension_host_exe: p.extension_host_exe.clone(),
        }
    }

    /// A copy of the value held for `f`.
    pub fn get(&self, f: PathField) -> (r: String)
        ensures
            r == self.value(f),
    {
        match f {
            PathField::CodexHome => self.codex_home.clone(),
            PathField::MarketplaceJson => self.marketplace_json.clone(),
            PathField::WindowsappsSource => self.windowsapps_source.clone(),
            PathField::PluginCacheRoot => self.plugin_cache_root.clone(),
            PathField::ExtensionManifest => self.extension_manifest.clone(),
            PathField::ConfigToml => self.config_toml.clone(),
            PathField::ExtensionHostExe => self.extension_host_exe.clone(),
        }
    }

    /// Replaces the value held for `f`; the others stay.
    pub fn set(&mut self, f: PathField, v: String)
        ensures
            final(self).value(f) == v,
            forall|g: PathField| g != f ==> #[trigger] final(self).value(g) == old(self).value(g),
    {
        match f {
            PathField::CodexHome => self.codex_home = v,
            PathField::MarketplaceJson => self.marketplace_json = v,
            PathField::WindowsappsSource => self.windowsapps_source = v,
            PathField::PluginCacheRoot => self.plugin_cache_root = v,
            PathField::ExtensionManifest => self.extension_manifest = v,
            PathField::ConfigToml => self.config_toml = v,
            PathField::ExtensionHostExe => self.extension_host_exe = v,
        }
    }

    /// `p` with its editable paths replaced by the inputs; the others stay.
    pub open spec fn applied(self, p: DetectedPaths) -> DetectedPaths {
        DetectedPaths {
            codex_home: self.codex_home,
            marketplace_json: self.marketplace_json,
            windowsapps_source: self.windowsapps_source,
            plugin_cache_root: self.plugin_cache_root,
            extension_manifest: self.extension_manifest,
            config_toml: self.config_toml,
            extension_host_exe: self.extension_host_exe,
            ..p
        }
    }

    /// Copies the inputs into the editable fields of `p`.
    pub fn apply_to(&self, p: &mut DetectedPaths)
        ensures
            *final(p) == self.applied(*old(p)),
    {
        p.codex_home = self.codex_home.clone();
        p.marketplace_json = self.marketplace_json.clone();
        p.windowsapps_source = self.windowsapps_source.clone();
        p.plugin_cache_root = self.plugin_cache_root.clone();
        p.extension_manifest = self.extension_manifest.clone();
        p.config_toml = self.config_toml.clone();
        p.extension_host_exe = self.extension_host_exe.clone();
    }
}

/// Applying the inputs that the paths themselves filled changes nothing: editing
/// nothing and then diagnosing works on the detected paths.
pub proof fn lemma_inputs_round_trip(p: DetectedPaths, i: PathInputs)
    requires
        forall|f: PathField| #[trigger] i.value(f) == f.of(p),
    ensures
        i.applied(p) == p,
{
    assert(i.value(PathField::CodexHome) == p.codex_home);
    assert(i.value(PathField::MarketplaceJson) == p.marketplace_json);
    assert(i.value(PathField::WindowsappsSource) == p.windowsapps_source);
    assert(i.value(PathField::PluginCacheRoot) == p.plugin_cache_root);
    assert(i.value(PathField::ExtensionManifest) == p.extension_manifest);
    assert(i.value(PathField::ConfigToml) == p.config_toml);
    assert(i.value(PathField::ExtensionHostExe) == p.extension_host_exe);
}

} // verus!
