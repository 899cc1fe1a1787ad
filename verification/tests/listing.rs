use codex_repair::paths::{
    needs_privileged_listing, primary_source_for, windowsapps_source_for, fallback_windowsapps_source, paths_for, plugin_source_dir, primary_windowsapps_source,
    windowsapps_dir, windowsapps_needs_fallback, marketplace_file, codex_home_dir, plugin_cache_dir,
};
use codex_repair::versions::{newest_codex_dir, sorted_version_dirs, ListedEntry};

fn entry(name: &str, is_dir: bool) -> ListedEntry {
    ListedEntry { name: name.to_string(), is_dir }
}

#[test]
fn versions_newest_first_without_latest() {
    let v = sorted_version_dirs(&vec![
        entry("0.9.0", true),
        entry("latest", true),
        entry("1.10.0", true),
        entry("notes.txt", false),
        entry("1.2.0", true),
        entry("1.2.0-beta", true),
    ]);
    assert_eq!(v, vec!["1.2.0-beta", "1.2.0", "1.10.0", "0.9.0"]);
    assert!(sorted_version_dirs(&vec![entry("latest", true), entry("x", false)]).is_empty());
    assert!(sorted_version_dirs(&vec![]).is_empty());
}

#[test]
fn versions_order_matches_string_order() {
    let names = ["b", "a", "ab", "", "é", "z", "Z", "aa"];
    let entries: Vec<ListedEntry> = names.iter().map(|n| entry(n, true)).collect();
    let mut expected: Vec<String> = names.iter().map(|n| n.to_string()).collect();
    expected.sort_by(|a, b| b.cmp(a));
    assert_eq!(sorted_version_dirs(&entries), expected);
}

#[test]
fn newest_codex_package() {
    let e = vec![
        ("OpenAI.Codex_1.0".to_string(), "W/OpenAI.Codex_1.0".to_string()),
        ("Other".to_string(), "W/Zzz".to_string()),
        ("OpenAI.Codex_2.0".to_string(), "W/OpenAI.Codex_2.0".to_string()),
    ];
    assert_eq!(newest_codex_dir(&e), Some("W/OpenAI.Codex_2.0".to_string()));
    assert_eq!(primary_windowsapps_source(&e), "W/OpenAI.Codex_2.0/app/resources/plugins/openai-bundled");
    assert_eq!(newest_codex_dir(&vec![("x".to_string(), "y".to_string())]), None);
    assert_eq!(primary_windowsapps_source(&vec![]), "");
}

#[test]
fn fallback_choice() {
    assert!(windowsapps_needs_fallback("", true));
    assert!(windowsapps_needs_fallback("x", false));
    assert!(!windowsapps_needs_fallback("x", true));
    let pk = vec!["W/A".to_string(), "W/B".to_string()];
    assert_eq!(
        fallback_windowsapps_source(String::new(), &pk, &vec![false, true]),
        "W/B/app/resources/plugins/openai-bundled"
    );
    assert_eq!(
        fallback_windowsapps_source(String::new(), &pk, &vec![false, false]),
        "W/A/app/resources/plugins/openai-bundled"
    );
    assert_eq!(fallback_windowsapps_source("old".to_string(), &pk, &vec![false, false]), "old");
    assert_eq!(fallback_windowsapps_source(String::new(), &vec![], &vec![]), "");
    assert_eq!(windowsapps_dir("C:\\Program Files"), "C:\\Program Files/WindowsApps");
    assert_eq!(plugin_source_dir("P"), "P/app/resources/plugins/openai-bundled");
}

#[test]
fn derived_paths() {
    let p = paths_for("C:\\Users\\me", "C:\\Users\\me\\AppData\\Local", "SRC".to_string(), true, false);
    assert_eq!(p.codex_home, "C:\\Users\\me/.codex");
    assert_eq!(p.bundled_tmp_root, "C:\\Users\\me/.codex/.tmp/bundled-marketplaces/openai-bundled");
    assert_eq!(
        p.marketplace_json,
        "C:\\Users\\me/.codex/.tmp/bundled-marketplaces/openai-bundled/.agents/plugins/marketplace.json"
    );
    assert_eq!(p.plugin_cache_root, "");
    assert_eq!(p.cache_chrome_latest, "C:\\Users\\me/.codex/plugins/cache/openai-bundled/chrome/latest");
    assert_eq!(
        p.cache_computer_use_latest,
        "C:\\Users\\me/.codex/plugins/cache/openai-bundled/computer-use/latest"
    );
    assert_eq!(p.cache_browser_latest, "C:\\Users\\me/.codex/plugins/cache/openai-bundled/browser/latest");
    assert_eq!(p.windowsapps_source, "SRC");
    assert_eq!(
        p.extension_manifest,
        "C:\\Users\\me\\AppData\\Local/OpenAI/extension/com.openai.codexextension.json"
    );
    assert_eq!(p.config_toml, "C:\\Users\\me/.codex/config.toml");
    assert_eq!(
        p.extension_host_exe,
        "C:\\Users\\me/.codex/plugins/cache/openai-bundled/chrome/latest/extension-host/windows/x64/extension-host.exe"
    );
    assert_eq!(p.native_hosts, "C:\\Users\\me\\AppData\\Local/OpenAI/Codex/chrome-native-hosts.json");
    assert_eq!(p.backup_root, "C:\\Users\\me/codex-plugin-backups");
    let q = paths_for("U", "L", String::new(), false, true);
    assert_eq!(q.codex_home, "");
    assert_eq!(q.plugin_cache_root, "U/.codex/plugins/cache/openai-bundled");
    assert_eq!(codex_home_dir("U"), "U/.codex");
    assert_eq!(plugin_cache_dir("U"), "U/.codex/plugins/cache/openai-bundled");
    assert_eq!(marketplace_file("R"), "R/.agents/plugins/marketplace.json");
}

#[test]
fn chosen_source_lies_in_windowsapps() {
    let dir = windowsapps_dir("C:\\Program Files");
    assert_eq!(dir, "C:\\Program Files/WindowsApps");
    let tail = "/app/resources/plugins/openai-bundled";
    let entries: Vec<(String, String)> = ["OpenAI.Codex_1.0_x64__a", "Other", "OpenAI.Codex_3.0_x64__a"]
        .iter()
        .map(|n| (n.to_string(), format!("{}\\{}", dir, n)))
        .collect();
    let primary = primary_windowsapps_source(&entries);
    assert!(primary.starts_with(&dir) && primary.ends_with(tail));
    assert_eq!(primary, format!("{}\\OpenAI.Codex_3.0_x64__a{}", dir, tail));
    let packages = vec![format!("{}/OpenAI.Codex_2.0_x64__a", dir), format!("{}/OpenAI.Codex_4.0_x64__a", dir)];
    for present in [vec![false, false], vec![false, true], vec![true, true]] {
        for current in [String::new(), primary.clone()] {
            let s = fallback_windowsapps_source(current.clone(), &packages, &present);
            assert!(s.is_empty() || (s.starts_with(&dir) && s.ends_with(tail)));
        }
    }
}

#[test]
fn detected_source_composition() {
    let pf = "C:\\Program Files";
    let dir = windowsapps_dir(pf);
    let tail = "/app/resources/plugins/openai-bundled";
    let entries = vec![("OpenAI.Codex_2.0_x64__a".to_string(), format!("{}\\OpenAI.Codex_2.0_x64__a", dir))];
    // No ProgramFiles: nothing, and no privileged listing.
    assert_eq!(primary_source_for("", true, &entries), "");
    assert!(!needs_privileged_listing("", "", false));
    assert_eq!(windowsapps_source_for("", "x".to_string(), true, &vec![], &vec![]), "");
    // The listing failed: the privileged one decides.
    let primary = primary_source_for(pf, false, &entries);
    assert_eq!(primary, "");
    assert!(needs_privileged_listing(pf, &primary, false));
    let packages = vec![format!("{}/OpenAI.Codex_3.0_x64__a", dir)];
    let s = windowsapps_source_for(pf, primary, false, &packages, &vec![false]);
    assert_eq!(s, format!("{}/OpenAI.Codex_3.0_x64__a{}", dir, tail));
    // The listing found an existing source: it stands.
    let primary = primary_source_for(pf, true, &entries);
    assert!(!needs_privileged_listing(pf, &primary, true));
    let s = windowsapps_source_for(pf, primary.clone(), true, &vec![], &vec![]);
    assert_eq!(s, primary);
    assert!(s.starts_with(&dir) && s.ends_with(tail));
    // It does not exist: a package whose plugins exist is taken.
    let s = windowsapps_source_for(pf, primary.clone(), false, &packages, &vec![true]);
    assert_eq!(s, format!("{}/OpenAI.Codex_3.0_x64__a{}", dir, tail));
    // None does: the first choice stays.
    assert_eq!(windowsapps_source_for(pf, primary.clone(), false, &packages, &vec![false]), primary);
}
