use codex_repair::log::{Issue, LogEntry};
use codex_repair::paths::{paths_for, DetectedPaths};
use codex_repair::repair::{backup_dir_for, Repair, RepairEvent, RepairRequest};
use codex_repair::versions::ListedEntry;

fn tag(e: &LogEntry) -> (&'static str, String) {
    match e {
        LogEntry::Plain => ("plain", String::new()),
        LogEntry::Title(s) => ("title", s.clone()),
        LogEntry::Step(s) => ("step", s.clone()),
        LogEntry::Okay(s) => ("ok", s.clone()),
        LogEntry::Fail(s) => ("fail", s.clone()),
        LogEntry::Warn(s) => ("warn", s.clone()),
        LogEntry::Info(s) => ("info", s.clone()),
    }
}

fn paths() -> DetectedPaths {
    paths_for("U", "L", "W/pkg/app/resources/plugins/openai-bundled".to_string(), true, true)
}

/// A world in which the marketplace is missing, WindowsApps holds the source, chrome
/// has a stale link, computer-use a good one and browser no cache at all.
fn answer(req: &RepairRequest) -> RepairEvent {
    match req {
        RepairRequest::StopPluginProcesses => RepairEvent::Done,
        RepairRequest::ReadClock => RepairEvent::Clock(Some("20250101-120000".to_string())),
        RepairRequest::CreateDirAll(_) => RepairEvent::Done,
        RepairRequest::ProbeFile(p) => {
            if p.ends_with("config.toml") {
                RepairEvent::Size(Some(10))
            } else if p == "U/.codex/.tmp/bundled-marketplaces/openai-bundled/.agents/plugins/marketplace.json" {
                RepairEvent::Size(None)
            } else {
                RepairEvent::Size(None)
            }
        }
        RepairRequest::ProbeDir(p) => RepairEvent::Flag(!p.ends_with("/browser") && !p.ends_with("chrome/2.0/skills")),
        RepairRequest::ProbePath(_) => RepairEvent::Flag(true),
        RepairRequest::CopyFile(_, _) => RepairEvent::Done,
        RepairRequest::CopyTree(_, _) => RepairEvent::Copied(Ok(())),
        RepairRequest::RemoveTree(_) => RepairEvent::Done,
        RepairRequest::ListDir(_) => RepairEvent::Listing(vec![
            ListedEntry { name: "1.0".to_string(), is_dir: true },
            ListedEntry { name: "2.0".to_string(), is_dir: true },
            ListedEntry { name: "latest".to_string(), is_dir: true },
        ]),
        RepairRequest::ReadJunction(p) => {
            if p.contains("chrome") {
                RepairEvent::Text("U\\x\\chrome\\1.0".to_string())
            } else {
                RepairEvent::Text("U\\x\\computer-use\\2.0".to_string())
            }
        }
        RepairRequest::CreateJunction(_, _) => RepairEvent::Flag(true),
        RepairRequest::Finish => RepairEvent::Done,
    }
}

#[test]
fn full_repair_run() {
    let issues = vec![Issue("marketplace-json-missing".to_string())];
    let (mut m, mut logs) = Repair::start(paths(), codex_repair::ui::marketplace_missing(&issues));
    let mut requests: Vec<String> = Vec::new();
    let mut steps = 0;
    loop {
        let req = m.request();
        requests.push(format!("{:?}", kind(&req)));
        if let RepairRequest::Finish = req {
            break;
        }
        let ev = answer(&req);
        logs.extend(m.step(ev));
        steps += 1;
        assert!(steps <= 38);
    }
    let got: Vec<(&str, String)> = logs.iter().map(tag).collect();
    let want: Vec<(&str, &str)> = vec![
        ("title", "=== 开始修复 ==="),
        ("step", "停止插件进程"),
        ("ok", "已停止插件进程"),
        ("step", "创建备份"),
        ("ok", "已备份: config.toml"),
        ("ok", "已对损坏的 marketplace 做取证备份"),
        ("ok", "备份位置: U/codex-plugin-backups/openai-bundled-repair-20250101-120000"),
        ("step", "检查 marketplace"),
        ("step", "重建 marketplace"),
        ("fail", "marketplace.json 仍然缺失"),
        ("step", "修复缓存软连接"),
        ("ok", "chrome: 已修复 -> 2.0 (scripts=true skills=false)"),
        ("ok", "computer-use: latest -> 2.0 (scripts=true skills=true)"),
        ("step", "检查 chrome-native-hosts.json"),
        ("info", "未找到 chrome-native-hosts.json（重启后生成）"),
        ("title", "=== 修复完成 ==="),
        ("info", "请重启 Codex Desktop 使改动生效"),
        ("plain", ""),
    ];
    let want: Vec<(&str, String)> = want.into_iter().map(|(a, b)| (a, b.to_string())).collect();
    assert_eq!(got, want);
}

fn kind(r: &RepairRequest) -> String {
    match r {
        RepairRequest::CopyFile(a, b) => format!("copy {} {}", a, b),
        RepairRequest::CreateJunction(a, b) => format!("junction {} {}", a, b),
        _ => String::new(),
    }
}

#[test]
fn requests_name_the_right_paths() {
    let (mut m, _) = Repair::start(paths(), false);
    m.step(RepairEvent::Done);
    assert!(matches!(m.request(), RepairRequest::ReadClock));
    m.step(RepairEvent::Clock(Some("S".to_string())));
    match m.request() {
        RepairRequest::CreateDirAll(d) => assert_eq!(d, "U/codex-plugin-backups/openai-bundled-repair-S"),
        _ => panic!(),
    }
    m.step(RepairEvent::Done);
    match m.request() {
        RepairRequest::ProbeFile(p) => assert_eq!(p, "U/.codex/config.toml"),
        _ => panic!(),
    }
    m.step(RepairEvent::Size(Some(1)));
    match m.request() {
        RepairRequest::CopyFile(a, b) => {
            assert_eq!(a, "U/.codex/config.toml");
            assert_eq!(b, "U/codex-plugin-backups/openai-bundled-repair-S/config.toml");
        }
        _ => panic!(),
    }
    // An answer of the wrong kind changes nothing.
    let logs = m.step(RepairEvent::Flag(true));
    assert!(logs.is_empty());
    assert!(matches!(m.request(), RepairRequest::CopyFile(_, _)));
    assert_eq!(backup_dir_for("R", "T"), "R/openai-bundled-repair-T");
}

#[test]
fn marketplace_present_and_link_current() {
    let (mut m, _) = Repair::start(paths(), false);
    let mut logs = Vec::new();
    loop {
        let req = m.request();
        let ev = match &req {
            RepairRequest::Finish => break,
            RepairRequest::ProbeFile(p) if p.ends_with("marketplace.json") => RepairEvent::Size(Some(1)),
            RepairRequest::ProbeFile(_) => RepairEvent::Size(None),
            RepairRequest::ProbeDir(p) if p.ends_with("bundled-marketplaces/openai-bundled") => RepairEvent::Flag(true),
            RepairRequest::ProbeDir(_) => RepairEvent::Flag(true),
            RepairRequest::ReadJunction(p) => RepairEvent::Text(format!("{}\\..\\2.0", p)),
            RepairRequest::CreateJunction(_, _) => panic!("no junction should be made"),
            RepairRequest::CopyTree(_, _) => panic!("nothing should be copied"),
            other => answer(other),
        };
        logs.extend(m.step(ev));
    }
    let got: Vec<(&str, String)> = logs.iter().map(tag).collect();
    assert!(got.contains(&("ok", "marketplace.json 已存在，无需重建".to_string())));
    assert!(got.contains(&("ok", "browser: latest -> 2.0 (scripts=true skills=true)".to_string())));
}

#[test]
fn unreadable_source_and_empty_cache() {
    let (mut m, _) = Repair::start(paths(), true);
    let mut logs = Vec::new();
    loop {
        let req = m.request();
        let ev = match &req {
            RepairRequest::Finish => break,
            RepairRequest::ProbeFile(p) if p.ends_with("chrome-native-hosts.json") => RepairEvent::Size(Some(3)),
            RepairRequest::ProbeFile(_) => RepairEvent::Size(None),
            RepairRequest::ProbeDir(p) if p.starts_with("W/") => RepairEvent::Flag(false),
            RepairRequest::ProbeDir(_) => RepairEvent::Flag(true),
            RepairRequest::ListDir(_) => RepairEvent::Listing(vec![ListedEntry { name: "latest".to_string(), is_dir: true }]),
            RepairRequest::CopyTree(_, _) => RepairEvent::Copied(Err("denied".to_string())),
            other => answer(other),
        };
        logs.extend(m.step(ev));
    }
    let got: Vec<(&str, String)> = logs.iter().map(tag).collect();
    assert!(!got.contains(&("ok", "已对损坏的 marketplace 做取证备份".to_string())));
    assert!(got.contains(&("warn", "marketplace.json 缺失且 WindowsApps 不可读，无法自动重建".to_string())));
    assert!(got.contains(&("info", "解决办法：重新安装 Codex 或手动复制 marketplace.json".to_string())));
    assert!(got.contains(&("warn", "chrome: 没有版本目录".to_string())));
    assert!(got.contains(&("ok", "chrome-native-hosts.json 存在".to_string())));
}

#[test]
fn copy_failure_and_junction_failure() {
    let (mut m, _) = Repair::start(paths(), false);
    let mut logs = Vec::new();
    loop {
        let req = m.request();
        let ev = match &req {
            RepairRequest::Finish => break,
            RepairRequest::ProbeFile(_) => RepairEvent::Size(None),
            RepairRequest::ProbeDir(_) => RepairEvent::Flag(true),
            RepairRequest::ProbePath(_) => RepairEvent::Flag(false),
            RepairRequest::CopyTree(_, _) => RepairEvent::Copied(Err("disk full".to_string())),
            RepairRequest::CreateJunction(_, _) => RepairEvent::Flag(false),
            other => answer(other),
        };
        logs.extend(m.step(ev));
    }
    let got: Vec<(&str, String)> = logs.iter().map(tag).collect();
    assert!(got.contains(&("fail", "复制失败: disk full".to_string())));
    assert!(got.contains(&("fail", "chrome: 修复失败（需要管理员权限）".to_string())));
    assert_eq!(got.iter().filter(|(k, _)| *k == "plain").count(), 1);
}

#[test]
fn unreadable_clock_skips_the_backups() {
    let (mut m, _) = Repair::start(paths(), true);
    m.step(RepairEvent::Done);
    let logs = m.step(RepairEvent::Clock(None));
    let got: Vec<(&str, String)> = logs.iter().map(tag).collect();
    assert_eq!(
        got,
        vec![("fail", "无法读取当前时间，跳过备份".to_string()), ("step", "检查 marketplace".to_string())]
    );
    match m.request() {
        RepairRequest::ProbeFile(p) => assert!(p.ends_with("/.agents/plugins/marketplace.json")),
        _ => panic!(),
    }
}

#[test]
fn settled_run_writes_only_into_its_backup_directory() {
    let (mut m, _) = Repair::start(paths(), false);
    let backup = "U/codex-plugin-backups/openai-bundled-repair-20250101-120000";
    let mut writes = 0;
    loop {
        let req = m.request();
        match &req {
            RepairRequest::CreateDirAll(d) => {
                assert_eq!(d, backup);
                writes += 1;
            }
            RepairRequest::CopyFile(_, to) => {
                assert!(to.starts_with(&format!("{}/", backup)));
                writes += 1;
            }
            RepairRequest::CopyTree(_, _) | RepairRequest::RemoveTree(_) | RepairRequest::CreateJunction(_, _) => {
                panic!("a settled repair touches neither the bundle nor the links")
            }
            _ => {}
        }
        let ev = match &req {
            RepairRequest::Finish => break,
            RepairRequest::ProbeFile(_) => RepairEvent::Size(Some(1)),
            RepairRequest::ProbeDir(_) => RepairEvent::Flag(true),
            RepairRequest::ReadJunction(p) => RepairEvent::Text(format!("{}\\..\\2.0", p)),
            other => answer(other),
        };
        m.step(ev);
    }
    assert_eq!(writes, 4);
}
