use codex_repair::log::{Issue, LogEntry};
use codex_repair::paths::{paths_for, PathField, PathInputs};
use codex_repair::ui::AppState;

fn detected() -> codex_repair::paths::DetectedPaths {
    paths_for("U", "L", "SRC".to_string(), true, true)
}

#[test]
fn fresh_window_diagnoses_detected_paths() {
    let mut s = AppState::new(detected());
    assert_eq!(s.diagnose_label(), "🔍 诊断");
    let p = s.click_diagnose().unwrap();
    assert_eq!(p.codex_home, "U/.codex");
    assert_eq!(p.windowsapps_source, "SRC");
    assert!(s.diagnose_running);
    assert_eq!(s.diagnose_label(), "⏳ 诊断中...");
    assert!(s.click_diagnose().is_none());
}

#[test]
fn edited_inputs_are_used() {
    let mut s = AppState::new(detected());
    s.edit(PathField::ConfigToml, "D:/c.toml".to_string());
    assert_eq!(s.inputs.get(PathField::ConfigToml), "D:/c.toml");
    assert_eq!(s.inputs.get(PathField::CodexHome), "U/.codex");
    let p = s.click_diagnose().unwrap();
    assert_eq!(p.config_toml, "D:/c.toml");
    assert_eq!(p.native_hosts, "L/OpenAI/Codex/chrome-native-hosts.json");
}

#[test]
fn repair_needs_issues() {
    let mut s = AppState::new(detected());
    assert!(s.click_repair().is_none());
    assert!(!s.repair_running);
    s.diagnosis_done(vec![LogEntry::Title("t".to_string())], vec![Issue("x".to_string())]);
    assert!(!s.diagnose_running);
    let (p, i) = s.click_repair().unwrap();
    assert_eq!(p.codex_home, "U/.codex");
    assert_eq!(i[0].0, "x");
    assert!(s.repair_running);
    assert_eq!(s.repair_label(), "⏳ 修复中...");
    assert!(s.click_repair().is_none());
}

#[test]
fn repair_lines_end_at_marker() {
    let mut s = AppState::new(detected());
    s.diagnosis_done(vec![], vec![Issue("x".to_string())]);
    s.click_repair().unwrap();
    s.repair_progress(vec![LogEntry::Step("a".to_string())]);
    assert!(s.repair_running);
    s.repair_progress(vec![LogEntry::Info("b".to_string()), LogEntry::Plain]);
    assert!(!s.repair_running);
    assert_eq!(s.logs.len(), 2);
    assert!(s.logs.iter().all(|e| !e.is_plain()));
}

#[test]
fn refresh_replaces_paths_and_inputs() {
    let mut s = AppState::new(detected());
    s.edit(PathField::CodexHome, "X".to_string());
    let d = paths_for("V", "M", String::new(), false, false);
    s.refresh(d);
    assert_eq!(s.paths.codex_home, "");
    assert_eq!(s.inputs.get(PathField::CodexHome), "");
    assert_eq!(s.inputs.get(PathField::ConfigToml), "V/.codex/config.toml");
    assert_eq!(s.logs.len(), 1);
    match &s.logs[0] {
        LogEntry::Info(t) => assert_eq!(t, "路径已刷新"),
        _ => panic!(),
    }
}

#[test]
fn path_fields_in_window_order() {
    let all = PathField::all();
    assert_eq!(all.len(), 7);
    let labels: Vec<String> = all.iter().map(|f| f.label()).collect();
    assert_eq!(
        labels,
        vec!["Codex 目录", "marketplace.json", "WindowsApps 源", "插件缓存根目录", "扩展清单", "config.toml", "extension-host.exe"]
    );
    let p = detected();
    let mut inputs = PathInputs::from_paths(&p);
    inputs.set(PathField::MarketplaceJson, "M".to_string());
    let mut q = p.clone();
    inputs.apply_to(&mut q);
    assert_eq!(q.marketplace_json, "M");
    assert_eq!(q.backup_root, p.backup_root);
}

#[test]
fn window_never_shows_the_end_marker() {
    let mut s = AppState::new(detected());
    s.click_diagnose();
    s.diagnosis_done(
        vec![LogEntry::Title("t".to_string()), LogEntry::Plain, LogEntry::Info("i".to_string())],
        vec![Issue("x".to_string())],
    );
    assert_eq!(s.logs.len(), 2);
    assert!(!s.logs.iter().any(|e| matches!(e, LogEntry::Plain)));
    s.click_repair();
    s.repair_progress(vec![LogEntry::Step("a".to_string()), LogEntry::Plain]);
    assert!(!s.repair_running);
    assert!(!s.logs.iter().any(|e| matches!(e, LogEntry::Plain)));
    assert_eq!(s.logs.len(), 3);
}
