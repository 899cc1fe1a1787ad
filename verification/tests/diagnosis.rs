use codex_repair::diagnose::{
    join_names, resolved_latest, run_diagnostics, subdir, CacheState, ManifestState, MarketplaceState,
    Observations,
};
use codex_repair::log::{LineColor, LogEntry};
use codex_repair::manifest::{read_manifest, ManifestReading};
use codex_repair::processes::{
    count_plugin_processes, is_extension_host_running, is_plugin_process, plugin_process_ids, ProcessInfo,
};

fn tag(e: &LogEntry) -> (&'static str, String) {
    match e {
        LogEntry::Plain => ("plain", String::new()),
        LogEntry::Title(s) => ("title", s.clone()),
        LogEntry::Step(s) => ("step", s.clone()),
        LogEntry::Okay(s) => ("ok", s.clone()),
        LogEntry::Fail(s) => ("fail", s.clone()),
        LogEntry::Warn(s) => ("warn", s.clone()),
        LogEntry::Info(s) => ("info", s.clone()),
    }
}

fn cache(ok: bool, resolved: &str, scripts: bool, skills: bool) -> CacheState {
    CacheState { latest_exists: ok, resolved: resolved.to_string(), has_scripts: scripts, has_skills: skills }
}

fn healthy() -> Observations {
    Observations {
        marketplace: MarketplaceState::Parsed(vec!["chrome".to_string(), "computer-use".to_string()]),
        chrome: cache(true, "C:\\cache\\chrome\\1.0.2", true, true),
        computer_use: cache(true, "C:/cache/computer-use/latest", true, true),
        browser: cache(true, "C:/cache/browser/0.3", true, true),
        extension_host_size: Some(5120),
        plugin_processes: 0,
        manifest: ManifestState::Target { exe: "C:/x/extension-host.exe".to_string(), exe_exists: true },
        config: Some("[plugins]\ncomputer-use@openai-bundled\nchrome@openai-bundled\nbrowser@openai-bundled\n".to_string()),
        source_dir_ok: true,
        source_marketplace_ok: true,
        plugin_cache_ok: true,
        marketplace_ok: true,
    }
}

#[test]
fn healthy_install_has_no_issues() {
    let (logs, issues) = run_diagnostics(&healthy());
    assert!(issues.is_empty());
    let got: Vec<(&str, String)> = logs.iter().map(tag).collect();
    let want: Vec<(&str, &str)> = vec![
        ("title", "=== 开始诊断 ==="),
        ("step", "检查 marketplace.json"),
        ("ok", "marketplace.json: 2 plugins (chrome, computer-use)"),
        ("step", "检查插件缓存"),
        ("ok", "chrome: latest -> 1.0.2 scripts=true skills=true"),
        ("ok", "computer-use: latest -> latest scripts=true skills=true"),
        ("ok", "browser: latest -> 0.3 scripts=true skills=true"),
        ("step", "检查 extension-host.exe"),
        ("ok", "extension-host.exe: 5120 bytes"),
        ("step", "检查运行的插件进程"),
        ("ok", "没有插件进程在运行"),
        ("step", "检查扩展清单"),
        ("ok", "扩展清单有效"),
        ("step", "检查 config.toml"),
        ("ok", "computer-use@openai-bundled 已配置"),
        ("ok", "chrome@openai-bundled 已配置"),
        ("ok", "browser@openai-bundled 已配置"),
        ("step", "检查修复源（WindowsApps / 本地缓存）"),
        ("ok", "WindowsApps 有完整 marketplace.json（可用作修复源）"),
        ("title", "=== 诊断完成：共 0 个问题 ==="),
    ];
    let want: Vec<(&str, String)> = want.into_iter().map(|(a, b)| (a, b.to_string())).collect();
    assert_eq!(got, want);
}

#[test]
fn broken_install_lists_every_issue() {
    let o = Observations {
        marketplace: MarketplaceState::Missing,
        chrome: cache(true, "C:/c/chrome/2.0", false, true),
        computer_use: cache(false, "", false, false),
        browser: cache(true, "C:/c/browser/1.0", true, false),
        extension_host_size: None,
        plugin_processes: 3,
        manifest: ManifestState::Missing,
        config: Some("chrome@openai-bundled".to_string()),
        source_dir_ok: false,
        source_marketplace_ok: false,
        plugin_cache_ok: true,
        marketplace_ok: false,
    };
    let (logs, issues) = run_diagnostics(&o);
    let codes: Vec<String> = issues.iter().map(|i| i.0.clone()).collect();
    assert_eq!(
        codes,
        vec![
            "marketplace-json-missing",
            "cache-no-scripts-chrome",
            "cache-no-latest-computer-use",
            "cache-no-skills-browser",
            "extension-host-exe-missing",
            "plugin-processes-running",
            "extension-manifest-missing",
            "config-missing-computer-use@openai-bundled",
            "config-missing-browser@openai-bundled",
        ]
    );
    let got: Vec<(&str, String)> = logs.iter().map(tag).collect();
    assert!(got.contains(&("fail", "marketplace.json 缺失".to_string())));
    assert!(got.contains(&("fail", "computer-use: latest 不存在".to_string())));
    assert!(got.contains(&("info", "发现 3 个插件进程在运行".to_string())));
    assert!(got.contains(&("warn", "扩展清单未找到".to_string())));
    assert!(got.contains(&("warn", "computer-use@openai-bundled 未配置".to_string())));
    assert!(got.contains(&("warn", "WindowsApps 不可读（非 Store 安装或权限限制）".to_string())));
    assert!(got.contains(&("info", "插件缓存存在，可作为备用修复源".to_string())));
    let n = got.len();
    assert_eq!(got[n - 10], ("title", "=== 诊断完成：共 9 个问题 ===".to_string()));
    assert_eq!(got[n - 9], ("warn", "  * marketplace-json-missing".to_string()));
    assert_eq!(got[n - 1], ("warn", "  * config-missing-browser@openai-bundled".to_string()));
}

#[test]
fn corrupt_files_and_missing_config() {
    let mut o = healthy();
    o.marketplace = MarketplaceState::Corrupt("expected value at line 1 column 1".to_string());
    o.manifest = ManifestState::Corrupt;
    o.config = None;
    o.source_dir_ok = true;
    o.source_marketplace_ok = false;
    let (logs, issues) = run_diagnostics(&o);
    let codes: Vec<String> = issues.iter().map(|i| i.0.clone()).collect();
    assert_eq!(codes, vec!["marketplace-json-corrupt", "extension-manifest-corrupt"]);
    let got: Vec<(&str, String)> = logs.iter().map(tag).collect();
    assert!(got.contains(&("fail", "marketplace.json 解析失败: expected value at line 1 column 1".to_string())));
    assert!(got.contains(&("fail", "扩展清单已损坏".to_string())));
    assert!(got.contains(&("fail", "config.toml 不存在".to_string())));
    assert!(got.contains(&("warn", "WindowsApps 存在但 marketplace.json 缺失".to_string())));
}

#[test]
fn manifest_pointing_nowhere_and_local_marketplace() {
    let mut o = healthy();
    o.manifest = ManifestState::Target { exe: "D:/gone.exe".to_string(), exe_exists: false };
    o.source_dir_ok = false;
    o.marketplace_ok = true;
    let (logs, issues) = run_diagnostics(&o);
    assert!(issues.is_empty());
    let got: Vec<(&str, String)> = logs.iter().map(tag).collect();
    assert!(got.contains(&("warn", "扩展清单指向无效路径: D:/gone.exe".to_string())));
    assert!(got.contains(&("info", "本地 marketplace.json 已存在，无需外部修复源".to_string())));
    let mut o = healthy();
    o.source_dir_ok = false;
    o.marketplace_ok = false;
    o.plugin_cache_ok = false;
    let (logs, _) = run_diagnostics(&o);
    assert_eq!(tag(logs.last().unwrap()), ("title", "=== 诊断完成：共 0 个问题 ===".to_string()));
    assert_eq!(tag(&logs[logs.len() - 2]), ("warn", "WindowsApps 不可读（非 Store 安装或权限限制）".to_string()));
}

#[test]
fn manifest_reading() {
    match read_manifest("{\"path\": \"C:\\\\host.exe\", \"name\": \"x\"}") {
        ManifestReading::Target(p) => assert_eq!(p, "C:\\host.exe"),
        other => panic!("{:?}", other),
    }
    match read_manifest("{\"path\": 3}") {
        ManifestReading::Target(p) => assert_eq!(p, ""),
        other => panic!("{:?}", other),
    }
    match read_manifest("[1, 2]") {
        ManifestReading::Target(p) => assert_eq!(p, ""),
        other => panic!("{:?}", other),
    }
    assert!(matches!(read_manifest("{\"path\": "), ManifestReading::Corrupt));
    assert!(matches!(read_manifest(""), ManifestReading::Corrupt));
}

#[test]
fn helpers_for_observations() {
    assert_eq!(resolved_latest("C:/c/latest", ""), "C:/c/latest");
    assert_eq!(resolved_latest("C:/c/latest", "C:\\c\\1.0"), "C:\\c\\1.0");
    assert_eq!(subdir("R", "scripts"), "R/scripts");
    assert_eq!(join_names(&vec![]), "");
    assert_eq!(join_names(&vec!["a".to_string()]), "a");
    assert_eq!(join_names(&vec!["a".to_string(), "b".to_string(), "c".to_string()]), "a, b, c");
}

#[test]
fn plugin_processes() {
    assert!(is_plugin_process("extension-host.exe"));
    assert!(is_plugin_process("codex-computer-use"));
    assert!(is_plugin_process("my-codex-computer-use-helper.exe"));
    assert!(!is_plugin_process("extension.exe"));
    let ps = vec![
        ProcessInfo { pid: 10, name: "explorer.exe".to_string() },
        ProcessInfo { pid: 11, name: "extension-host.exe".to_string() },
        ProcessInfo { pid: 12, name: "codex-computer-use.exe".to_string() },
    ];
    assert_eq!(plugin_process_ids(&ps), vec![11, 12]);
    assert_eq!(count_plugin_processes(&ps), 2);
    assert!(is_extension_host_running(&ps));
    assert!(!is_extension_host_running(&vec![ProcessInfo { pid: 1, name: "a".to_string() }]));
}

#[test]
fn line_display() {
    let (t, c) = LogEntry::Okay("x".to_string()).display().unwrap();
    assert_eq!((t.as_str(), c), ("  [OK]    x", LineColor::Green));
    let (t, c) = LogEntry::Fail("x".to_string()).display().unwrap();
    assert_eq!((t.as_str(), c), ("  [FAIL]  x", LineColor::Red));
    let (t, c) = LogEntry::Warn("x".to_string()).display().unwrap();
    assert_eq!((t.as_str(), c), ("  [WARN]  x", LineColor::Orange));
    let (t, c) = LogEntry::Info("x".to_string()).display().unwrap();
    assert_eq!((t.as_str(), c), ("  [INFO]  x", LineColor::Blue));
    let (t, c) = LogEntry::Title("T".to_string()).display().unwrap();
    assert_eq!((t.as_str(), c), ("T", LineColor::Blue));
    assert!(LogEntry::Plain.display().is_none());
    assert!(LogEntry::Plain.is_plain());
}

#[test]
fn seven_components_checked() {
    let count = |o: &Observations| {
        run_diagnostics(o).0.iter().filter(|e| matches!(e, LogEntry::Step(_))).count()
    };
    assert_eq!(count(&healthy()), 7);
    let mut o = healthy();
    o.config = None;
    o.source_dir_ok = false;
    o.marketplace = MarketplaceState::Missing;
    assert_eq!(count(&o), 7);
}

#[test]
fn process_issue_agrees_with_running_test() {
    let tables = vec![
        vec![ProcessInfo { pid: 1, name: "explorer.exe".to_string() }],
        vec![
            ProcessInfo { pid: 1, name: "explorer.exe".to_string() },
            ProcessInfo { pid: 7, name: "extension-host.exe".to_string() },
        ],
        vec![ProcessInfo { pid: 9, name: "codex-computer-use.exe".to_string() }],
        vec![],
    ];
    for ps in tables {
        let mut o = healthy();
        o.plugin_processes = count_plugin_processes(&ps);
        let (_, issues) = run_diagnostics(&o);
        let raised = issues.iter().any(|i| i.0 == "plugin-processes-running");
        assert_eq!(raised, is_extension_host_running(&ps));
    }
}

#[test]
fn issues_ignore_repair_sources() {
    let mut a = healthy();
    a.marketplace = MarketplaceState::Missing;
    a.plugin_processes = 2;
    let mut b = healthy();
    b.marketplace = MarketplaceState::Missing;
    b.plugin_processes = 2;
    b.source_dir_ok = false;
    b.source_marketplace_ok = false;
    b.plugin_cache_ok = false;
    b.marketplace_ok = false;
    let (la, ia) = run_diagnostics(&a);
    let (lb, ib) = run_diagnostics(&b);
    let codes = |v: &Vec<codex_repair::log::Issue>| v.iter().map(|i| i.0.clone()).collect::<Vec<String>>();
    assert_eq!(codes(&ia), codes(&ib));
    assert_eq!(codes(&ia), vec!["marketplace-json-missing".to_string(), "plugin-processes-running".to_string()]);
    assert_ne!(la.len(), 0);
    assert_ne!(lb.len(), 0);
}
