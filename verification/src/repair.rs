//! The repair, as a machine that decides and lets the program act. Each state asks
//! for one piece of outside work (a request); the program does it and answers
//! with an event; the machine logs what happened and moves on.
use vstd::prelude::*;
use crate::text::{bool_text, bool_word, concat2, concat3, decimal, decimal_text};
use crate::log::{LogEntry, LogLine, lines, lemma_lines_push, title, step, okay, fail, warn, info};
use crate::paths::{base_name, file_name_of, DetectedPaths};
use crate::versions::{ListedEntry, version_candidates, sorted_version_dirs};
use crate::text::has_prefix;
use crate::order::{greatest_of, is_greatest, lemma_greatest_unique, lemma_first_is_greatest};

verus! {

/// The outside work a repair asks for.
pub enum RepairRequest {
    /// Stop the plugin processes and wait a second. Answer `Done`.
    StopPluginProcesses,
    /// Read the local time as `%Y%m%d-%H%M%S`. Answer `Clock`, with nothing when
    /// the time cannot be read.
    ReadClock,
    /// Create the directory and its parents, ignoring failure. Answer `Done`.
    CreateDirAll(String),
    /// Whether the path is a file, and its size. Answer `Size`.
    ProbeFile(String),
    /// Whether the path is a directory. Answer `Flag`.
    ProbeDir(String),
    /// Whether anything exists at the path. Answer `Flag`.
    ProbePath(String),
    /// Copy a file, ignoring failure. Answer `Done`.
    CopyFile(String, String),
    /// Copy a directory tree over whatever is at the destination. Answer `Copied`.
    CopyTree(String, String),
    /// Remove the directory tree if it exists, ignoring failure. Answer `Done`.
    RemoveTree(String),
    /// List the directory. Answer `Listing`.
    ListDir(String),
    /// The target of the junction at the path, or nothing. Answer `Text`.
    ReadJunction(String),
    /// Make a junction at the second path leading to the first, replacing what is
    /// there. Answer `Flag` with its success.
    CreateJunction(String, String),
    /// The repair is over.
    Finish,
}

/// The answer to a request.
pub enum RepairEvent {
    Done,
    Flag(bool),
    Size(Option<u64>),
    Copied(Result<(), String>),
    Listing(Vec<ListedEntry>),
    Text(String),
    Clock(Option<String>),
}

/// Where a repair stands. `plugin` counts the three cached plugins and `item` the
/// three backed-up files.
pub enum Stage {
    Stopping,
    AwaitClock,
    MakingBackupDir,
    ProbingBackup { item: usize },
    CopyingBackup { item: usize },
    ProbingForensic,
    CopyingForensic,
    ProbingMarketplace,
    ProbingSource,
    RemovingTarget,
    CopyingSource,
    ProbingRestored,
    CacheDir { plugin: usize },
    CacheListing { plugin: usize },
    CacheScripts { plugin: usize, best: String },
    CacheSkills { plugin: usize, best: String, scripts: bool },
    CacheLatest { plugin: usize, best: String, scripts: bool, skills: bool },
    CacheTarget { plugin: usize, best: String, scripts: bool, skills: bool },
    CacheJunction { plugin: usize, best: String, scripts: bool, skills: bool },
    NativeHosts,
    Finished,
}

/// A repair in progress.
pub struct Repair {
    pub paths: DetectedPaths,
    /// The diagnosis found the marketplace file missing.
    pub marketplace_missing: bool,
    pub backup_dir: String,
    pub stage: Stage,
}

// ---------------------------------------------------------------------------
// Names and paths
// ---------------------------------------------------------------------------

/// The cached plugins, in the order the repair visits them.
pub open spec fn plugin_name(i: int) -> Seq<char> {
    if i == 0 { "chrome"@ } else if i == 1 { "computer-use"@ } else { "browser"@ }
}

fn plugin_name_text(i: usize) -> (r: &'static str)
    ensures
        r@ == plugin_name(i as int),
{
    if i == 0 { "chrome" } else if i == 1 { "computer-use" } else { "browser" }
}

/// The label of a backed-up file in the log.
pub open spec fn item_label(i: int) -> Seq<char> {
    if i == 0 { "config.toml"@ } else if i == 1 { "扩展清单"@ } else { "native-hosts"@ }
}

fn item_label_text(i: usize) -> (r: &'static str)
    ensures
        r@ == item_label(i as int),
{
    if i == 0 { "config.toml" } else if i == 1 { "扩展清单" } else { "native-hosts" }
}

/// The backed-up file `i`: `config.toml`, the extension manifest, the native hosts file.
pub open spec fn item_path(p: DetectedPaths, i: int) -> Seq<char> {
    if i == 0 { p.config_toml@ } else if i == 1 { p.extension_manifest@ } else { p.native_hosts@ }
}

fn item_path_text(p: &DetectedPaths, i: usize) -> (r: &String)
    ensures
        r@ == item_path(*p, i as int),
{
    if i == 0 { &p.config_toml } else if i == 1 { &p.extension_manifest } else { &p.native_hosts }
}

/// The cache directory of plugin `i`.
pub open spec fn cache_dir(p: DetectedPaths, i: int) -> Seq<char> {
    p.plugin_cache_root@ + "/"@ + plugin_name(i)
}

fn cache_dir_text(p: &DetectedPaths, i: usize) -> (r: String)
    ensures
        r@ == cache_dir(*p, i as int),
{
    concat3(p.plugin_cache_root.as_str(), "/", plugin_name_text(i))
}

/// The version directory `best` of plugin `i`.
pub open spec fn version_dir(p: DetectedPaths, i: int, best: Seq<char>) -> Seq<char> {
    cache_dir(p, i) + "/"@ + best
}

/// The `latest` link of plugin `i`.
pub open spec fn latest_link(p: DetectedPaths, i: int) -> Seq<char> {
    cache_dir(p, i) + "/latest"@
}

/// The backup directory for a backup root and a time stamp.
pub open spec fn backup_dir_of(root: Seq<char>, stamp: Seq<char>) -> Seq<char> {
    root + "/openai-bundled-repair-"@ + stamp
}

/// The backup directory for a backup root and a time stamp.
pub fn backup_dir_for(root: &str, stamp: &str) -> (r: String)
    ensures
        r@ == backup_dir_of(root@, stamp@),
{
    concat3(root, "/openai-bundled-repair-", stamp)
}

/// A `latest` link needs to be made again unless it leads to the newest version
/// and that version has its scripts and skills.
pub open spec fn needs_fix(target: Seq<char>, best: Seq<char>, scripts: bool, skills: bool) -> bool {
    target.len() == 0 || file_name_of(target) != best || !scripts || !skills
}

/// ` (scripts=… skills=…)`.
pub open spec fn flags_note(scripts: bool, skills: bool) -> Seq<char> {
    " (scripts="@ + bool_word(scripts) + " skills="@ + bool_word(skills) + ")"@
}

// ---------------------------------------------------------------------------
// The machine in terms of text
// ---------------------------------------------------------------------------

/// A stage as text.
pub enum StageView {
    Stopping,
    AwaitClock,
    MakingBackupDir,
    ProbingBackup(int),
    CopyingBackup(int),
    ProbingForensic,
    CopyingForensic,
    ProbingMarketplace,
    ProbingSource,
    RemovingTarget,
    CopyingSource,
    ProbingRestored,
    CacheDir(int),
    CacheListing(int),
    CacheScripts(int, Seq<char>),
    CacheSkills(int, Seq<char>, bool),
    CacheLatest(int, Seq<char>, bool, bool),
    CacheTarget(int, Seq<char>, bool, bool),
    CacheJunction(int, Seq<char>, bool, bool),
    NativeHosts,
    Finished,
}

impl View for Stage {
    type V = StageView;

    open spec fn view(&self) -> StageView {
        match self {
            Stage::Stopping => StageView::Stopping,
            Stage::AwaitClock => StageView::AwaitClock,
            Stage::MakingBackupDir => StageView::MakingBackupDir,
            Stage::ProbingBackup { item } => StageView::ProbingBackup(*item as int),
            Stage::CopyingBackup { item } => StageView::CopyingBackup(*item as int),
            Stage::ProbingForensic => StageView::ProbingForensic,
            Stage::CopyingForensic => StageView::CopyingForensic,
            Stage::ProbingMarketplace => StageView::ProbingMarketplace,
            Stage::ProbingSource => StageView::ProbingSource,
            Stage::RemovingTarget => StageView::RemovingTarget,
            Stage::CopyingSource => StageView::CopyingSource,
            Stage::ProbingRestored => StageView::ProbingRestored,
            Stage::CacheDir { plugin } => StageView::CacheDir(*plugin as int),
            Stage::CacheListing { plugin } => StageView::CacheListing(*plugin as int),
            Stage::CacheScripts { plugin, best } => StageView::CacheScripts(*plugin as int, best@),
            Stage::CacheSkills { plugin, best, scripts } => StageView::CacheSkills(*plugin as int, best@, *scripts),
            Stage::CacheLatest { plugin, best, scripts, skills } =>
                StageView::CacheLatest(*plugin as int, best@, *scripts, *skills),
            Stage::CacheTarget { plugin, best, scripts, skills } =>
                StageView::CacheTarget(*plugin as int, best@, *scripts, *skills),
            Stage::CacheJunction { plugin, best, scripts, skills } =>
                StageView::CacheJunction(*plugin as int, best@, *scripts, *skills),
            Stage::NativeHosts => StageView::NativeHosts,
            Stage::Finished => StageView::Finished,
        }
    }
}

/// A request as text.
pub enum RequestView {
    StopPluginProcesses,
    ReadClock,
    CreateDirAll(Seq<char>),
    ProbeFile(Seq<char>),
    ProbeDir(Seq<char>),
    ProbePath(Seq<char>),
    CopyFile(Seq<char>, Seq<char>),
    CopyTree(Seq<char>, Seq<char>),
    RemoveTree(Seq<char>),
    ListDir(Seq<char>),
    ReadJunction(Seq<char>),
    CreateJunction(Seq<char>, Seq<char>),
    Finish,
}

impl View for RepairRequest {
    type V = RequestView;

    open spec fn view(&self) -> RequestView {
        match self {
            RepairRequest::StopPluginProcesses => RequestView::StopPluginProcesses,
            RepairRequest::ReadClock => RequestView::ReadClock,
            RepairRequest::CreateDirAll(p) => RequestView::CreateDirAll(p@),
            RepairRequest::ProbeFile(p) => RequestView::ProbeFile(p@),
            RepairRequest::ProbeDir(p) => RequestView::ProbeDir(p@),
            RepairRequest::ProbePath(p) => RequestView::ProbePath(p@),
            RepairRequest::CopyFile(a, b) => RequestView::CopyFile(a@, b@),
            RepairRequest::CopyTree(a, b) => RequestView::CopyTree(a@, b@),
            RepairRequest::RemoveTree(p) => RequestView::RemoveTree(p@),
            RepairRequest::ListDir(p) => RequestView::ListDir(p@),
            RepairRequest::ReadJunction(p) => RequestView::ReadJunction(p@),
            RepairRequest::CreateJunction(a, b) => RequestView::CreateJunction(a@, b@),
            RepairRequest::Finish => RequestView::Finish,
        }
    }
}

/// A repair as text: its paths, whether the marketplace was found missing, its
/// backup directory and its stage.
pub struct RepairView {
    pub paths: DetectedPaths,
    pub marketplace_missing: bool,
    pub backup_dir: Seq<char>,
    pub stage: StageView,
}

impl View for Repair {
    type V = RepairView;

    open spec fn view(&self) -> RepairView {
        RepairView {
            paths: self.paths,
            marketplace_missing: self.marketplace_missing,
            backup_dir: self.backup_dir@,
            stage: self.stage@,
        }
    }
}

/// The request of each stage.
pub open spec fn request_of(m: RepairView) -> RequestView {
    let p = m.paths;
    match m.stage {
        StageView::Stopping => RequestView::StopPluginProcesses,
        StageView::AwaitClock => RequestView::ReadClock,
        StageView::MakingBackupDir => RequestView::CreateDirAll(m.backup_dir),
        StageView::ProbingBackup(i) => RequestView::ProbeFile(item_path(p, i)),
        StageView::CopyingBackup(i) => RequestView::CopyFile(
            item_path(p, i),
            m.backup_dir + "/"@ + file_name_of(item_path(p, i)),
        ),
        StageView::ProbingForensic => RequestView::ProbeDir(p.bundled_tmp_root@),
        StageView::CopyingForensic => RequestView::CopyTree(
            p.bundled_tmp_root@,
            m.backup_dir + "/bundled-marketplace-forensic"@,
        ),
        StageView::ProbingMarketplace => RequestView::ProbeFile(p.marketplace_json@),
        StageView::ProbingSource => RequestView::ProbeDir(p.windowsapps_source@),
        StageView::RemovingTarget => RequestView::RemoveTree(p.bundled_tmp_root@),
        StageView::CopyingSource => RequestView::CopyTree(p.windowsapps_source@, p.bundled_tmp_root@),
        StageView::ProbingRestored => RequestView::ProbeFile(
            p.bundled_tmp_root@ + "/.agents/plugins/marketplace.json"@,
        ),
        StageView::CacheDir(i) => RequestView::ProbeDir(cache_dir(p, i)),
        StageView::CacheListing(i) => RequestView::ListDir(cache_dir(p, i)),
        StageView::CacheScripts(i, b) => RequestView::ProbeDir(version_dir(p, i, b) + "/scripts"@),
        StageView::CacheSkills(i, b, _) => RequestView::ProbeDir(version_dir(p, i, b) + "/skills"@),
        StageView::CacheLatest(i, _, _, _) => RequestView::ProbePath(latest_link(p, i)),
        StageView::CacheTarget(i, _, _, _) => RequestView::ReadJunction(latest_link(p, i)),
        StageView::CacheJunction(i, b, _, _) => RequestView::CreateJunction(version_dir(p, i, b), latest_link(p, i)),
        StageView::NativeHosts => RequestView::ProbeFile(p.native_hosts@),
        StageView::Finished => RequestView::Finish,
    }
}

/// `m` in stage `s`.
pub open spec fn at(m: RepairView, s: StageView) -> RepairView {
    RepairView { stage: s, ..m }
}

/// The lines `pre` in front of an outcome.
pub open spec fn after(pre: Seq<LogLine>, out: (RepairView, Seq<LogLine>)) -> (RepairView, Seq<LogLine>) {
    (out.0, pre + out.1)
}

/// After backup item `i`: the next item, or the forensic copy.
pub open spec fn next_item(m: RepairView, i: int) -> (RepairView, Seq<LogLine>) {
    if i + 1 < 3 {
        (at(m, StageView::ProbingBackup(i + 1)), Seq::empty())
    } else {
        (at(m, StageView::ProbingForensic), Seq::empty())
    }
}

/// The backups are made: say where, and look at the marketplace.
pub open spec fn backups_made(m: RepairView) -> (RepairView, Seq<LogLine>) {
    (
        at(m, StageView::ProbingMarketplace),
        seq![LogLine::Okay("备份位置: "@ + m.backup_dir), LogLine::Step("检查 marketplace"@)],
    )
}

/// The time could not be read, so no backup directory can be named: say so and
/// look at the marketplace.
pub open spec fn backups_skipped(m: RepairView) -> (RepairView, Seq<LogLine>) {
    (
        at(m, StageView::ProbingMarketplace),
        seq![LogLine::Fail("无法读取当前时间，跳过备份"@), LogLine::Step("检查 marketplace"@)],
    )
}

/// The cache phase begins.
pub open spec fn cache_phase(m: RepairView) -> (RepairView, Seq<LogLine>) {
    (at(m, StageView::CacheDir(0)), seq![LogLine::Step("修复缓存软连接"@)])
}

/// After plugin `i`: the next plugin, or the native hosts file.
pub open spec fn next_plugin(m: RepairView, i: int) -> (RepairView, Seq<LogLine>) {
    if i + 1 < 3 {
        (at(m, StageView::CacheDir(i + 1)), Seq::empty())
    } else {
        (at(m, StageView::NativeHosts), seq![LogLine::Step("检查 chrome-native-hosts.json"@)])
    }
}

/// The stage an event answers, and what follows: the next state and the lines
/// logged. An event of another kind than the stage asked for changes nothing.
pub open spec fn transition(m: RepairView, ev: RepairEvent) -> (RepairView, Seq<LogLine>) {
    match (m.stage, ev) {
        (StageView::Stopping, RepairEvent::Done) => (
            at(m, StageView::AwaitClock),
            seq![LogLine::Okay("已停止插件进程"@), LogLine::Step("创建备份"@)],
        ),
        (StageView::AwaitClock, RepairEvent::Clock(c)) => match c {
            Some(stamp) => (
                RepairView {
                    backup_dir: backup_dir_of(m.paths.backup_root@, stamp@),
                    stage: StageView::MakingBackupDir,
                    ..m
                },
                Seq::empty(),
            ),
            None => backups_skipped(m),
        },
        (StageView::MakingBackupDir, RepairEvent::Done) => (at(m, StageView::ProbingBackup(0)), Seq::empty()),
        (StageView::ProbingBackup(i), RepairEvent::Size(s)) => if s is Some {
            (at(m, StageView::CopyingBackup(i)), Seq::empty())
        } else {
            next_item(m, i)
        },
        (StageView::CopyingBackup(i), RepairEvent::Done) => after(
            seq![LogLine::Okay("已备份: "@ + item_label(i))],
            next_item(m, i),
        ),
        (StageView::ProbingForensic, RepairEvent::Flag(b)) => if b && m.marketplace_missing {
            (at(m, StageView::CopyingForensic), Seq::empty())
        } else {
            backups_made(m)
        },
        (StageView::CopyingForensic, RepairEvent::Copied(r)) => after(
            if r is Ok { seq![LogLine::Okay("已对损坏的 marketplace 做取证备份"@)] } else { Seq::empty() },
            backups_made(m),
        ),
        (StageView::ProbingMarketplace, RepairEvent::Size(s)) => if s is None {
            (at(m, StageView::ProbingSource), Seq::empty())
        } else {
            after(seq![LogLine::Okay("marketplace.json 已存在，无需重建"@)], cache_phase(m))
        },
        (StageView::ProbingSource, RepairEvent::Flag(b)) => if b {
            (at(m, StageView::RemovingTarget), seq![LogLine::Step("重建 marketplace"@)])
        } else {
            after(
                seq![
                    LogLine::Warn("marketplace.json 缺失且 WindowsApps 不可读，无法自动重建"@),
                    LogLine::Info("解决办法：重新安装 Codex 或手动复制 marketplace.json"@),
                ],
                cache_phase(m),
            )
        },
        (StageView::RemovingTarget, RepairEvent::Done) => (at(m, StageView::CopyingSource), Seq::empty()),
        (StageView::CopyingSource, RepairEvent::Copied(r)) => match r {
            Ok(_) => (at(m, StageView::ProbingRestored), Seq::empty()),
            Err(e) => after(seq![LogLine::Fail("复制失败: "@ + e@)], cache_phase(m)),
        },
        (StageView::ProbingRestored, RepairEvent::Size(s)) => after(
            match s {
                Some(n) => seq![LogLine::Okay("marketplace.json 已恢复："@ + decimal(n as nat) + " 字节"@)],
                None => seq![LogLine::Fail("marketplace.json 仍然缺失"@)],
            },
            cache_phase(m),
        ),
        (StageView::CacheDir(i), RepairEvent::Flag(b)) => if b {
            (at(m, StageView::CacheListing(i)), Seq::empty())
        } else {
            next_plugin(m, i)
        },
        (StageView::CacheListing(i), RepairEvent::Listing(es)) => {
            let c = version_candidates(es@);
            if c.len() == 0 {
                after(seq![LogLine::Warn(plugin_name(i) + ": 没有版本目录"@)], next_plugin(m, i))
            } else {
                (at(m, StageView::CacheScripts(i, greatest_of(c))), Seq::empty())
            }
        },
        (StageView::CacheScripts(i, b), RepairEvent::Flag(s)) => (at(m, StageView::CacheSkills(i, b, s)), Seq::empty()),
        (StageView::CacheSkills(i, b, s), RepairEvent::Flag(k)) => (
            at(m, StageView::CacheLatest(i, b, s, k)),
            Seq::empty(),
        ),
        (StageView::CacheLatest(i, b, s, k), RepairEvent::Flag(e)) => if e {
            (at(m, StageView::CacheTarget(i, b, s, k)), Seq::empty())
        } else {
            (at(m, StageView::CacheJunction(i, b, s, k)), Seq::empty())
        },
        (StageView::CacheTarget(i, b, s, k), RepairEvent::Text(t)) => if needs_fix(t@, b, s, k) {
            (at(m, StageView::CacheJunction(i, b, s, k)), Seq::empty())
        } else {
            after(
                seq![LogLine::Okay(plugin_name(i) + ": latest -> "@ + b + flags_note(s, k))],
                next_plugin(m, i),
            )
        },
        (StageView::CacheJunction(i, b, s, k), RepairEvent::Flag(ok)) => after(
            if ok {
                seq![LogLine::Okay(plugin_name(i) + ": 已修复 -> "@ + b + flags_note(s, k))]
            } else {
                seq![LogLine::Fail(plugin_name(i) + ": 修复失败（需要管理员权限）"@)]
            },
            next_plugin(m, i),
        ),
        (StageView::NativeHosts, RepairEvent::Size(s)) => (
            at(m, StageView::Finished),
            seq![
                if s is Some {
                    LogLine::Okay("chrome-native-hosts.json 存在"@)
                } else {
                    LogLine::Info("未找到 chrome-native-hosts.json（重启后生成）"@)
                },
                LogLine::Title("=== 修复完成 ==="@),
                LogLine::Info("请重启 Codex Desktop 使改动生效"@),
                LogLine::Plain,
            ],
        ),
        _ => (m, Seq::empty()),
    }
}

/// The counters of a stage stay below three.
pub open spec fn stage_ok(s: StageView) -> bool {
    match s {
        StageView::ProbingBackup(i) => 0 <= i < 3,
        StageView::CopyingBackup(i) => 0 <= i < 3,
        StageView::CacheDir(i) => 0 <= i < 3,
        StageView::CacheListing(i) => 0 <= i < 3,
        StageView::CacheScripts(i, _) => 0 <= i < 3,
        StageView::CacheSkills(i, _, _) => 0 <= i < 3,
        StageView::CacheLatest(i, _, _, _) => 0 <= i < 3,
        StageView::CacheTarget(i, _, _, _) => 0 <= i < 3,
        StageView::CacheJunction(i, _, _, _) => 0 <= i < 3,
        _ => true,
    }
}

impl Repair {
    /// The repair's invariant: its counters stay in range.
    pub open spec fn wf(&self) -> bool {
        stage_ok(self.stage@)
    }

    /// Starts a repair of `paths`; `marketplace_missing` says whether the diagnosis
    /// found the marketplace file missing.
    pub fn start(paths: DetectedPaths, marketplace_missing: bool) -> (r: (Repair, Vec<LogEntry>))
        ensures
            r.0.wf(),
            r.0@ == (RepairView {
                paths,
                marketplace_missing,
                backup_dir: Seq::empty(),
                stage: StageView::Stopping,
            }),
            lines(r.1@) == seq![LogLine::Title("=== 开始修复 ==="@), LogLine::Step("停止插件进程"@)],
    {
        let mut logs: Vec<LogEntry> = Vec::new();
        push_line(&mut logs, title("=== 开始修复 ==="));
        push_line(&mut logs, step("停止插件进程"));
        assert(lines(logs@) =~= seq![LogLine::Title("=== 开始修复 ==="@), LogLine::Step("停止插件进程"@)]);
        (Repair { paths, marketplace_missing, backup_dir: String::new(), stage: Stage::Stopping }, logs)
    }

    /// The outside work the repair waits for.
    pub fn request(&self) -> (r: RepairRequest)
        requires
            self.wf(),
        ensures
            r@ == request_of(self@),
    {
        let p = &self.paths;
        match &self.stage {
            Stage::Stopping => RepairRequest::StopPluginProcesses,
            Stage::AwaitClock => RepairRequest::ReadClock,
            Stage::MakingBackupDir => RepairRequest::CreateDirAll(self.backup_dir.clone()),
            Stage::ProbingBackup { item } => RepairRequest::ProbeFile(item_path_text(p, *item).clone()),
            Stage::CopyingBackup { item } => {
                let src = item_path_text(p, *item);
                let name = base_name(src.as_str());
                RepairRequest::CopyFile(src.clone(), concat3(self.backup_dir.as_str(), "/", name.as_str()))
            },
            Stage::ProbingForensic => RepairRequest::ProbeDir(p.bundled_tmp_root.clone()),
            Stage::CopyingForensic => RepairRequest::CopyTree(
                p.bundled_tmp_root.clone(),
                concat2(self.backup_dir.as_str(), "/bundled-marketplace-forensic"),
            ),
            Stage::ProbingMarketplace => RepairRequest::ProbeFile(p.marketplace_json.clone()),
            Stage::ProbingSource => RepairRequest::ProbeDir(p.windowsapps_source.clone()),
            Stage::RemovingTarget => RepairRequest::RemoveTree(p.bundled_tmp_root.clone()),
            Stage::CopyingSource => RepairRequest::CopyTree(p.windowsapps_source.clone(), p.bundled_tmp_root.clone()),
            Stage::ProbingRestored => RepairRequest::ProbeFile(
                concat2(p.bundled_tmp_root.as_str(), "/.agents/plugins/marketplace.json"),
            ),
            Stage::CacheDir { plugin } => RepairRequest::ProbeDir(cache_dir_text(p, *plugin)),
            Stage::CacheListing { plugin } => RepairRequest::ListDir(cache_dir_text(p, *plugin)),
            Stage::CacheScripts { plugin, best } => {
                let d = concat3(cache_dir_text(p, *plugin).as_str(), "/", best.as_str());
                RepairRequest::ProbeDir(concat2(d.as_str(), "/scripts"))
            },
            Stage::CacheSkills { plugin, best, .. } => {
                let d = concat3(cache_dir_text(p, *plugin).as_str(), "/", best.as_str());
                RepairRequest::ProbeDir(concat2(d.as_str(), "/skills"))
            },
            Stage::CacheLatest { plugin, .. } => RepairRequest::ProbePath(
                concat2(cache_dir_text(p, *plugin).as_str(), "/latest"),
            ),
            Stage::CacheTarget { plugin, .. } => RepairRequest::ReadJunction(
                concat2(cache_dir_text(p, *plugin).as_str(), "/latest"),
            ),
            Stage::CacheJunction { plugin, best, .. } => {
                let d = cache_dir_text(p, *plugin);
                RepairRequest::CreateJunction(concat3(d.as_str(), "/", best.as_str()), concat2(d.as_str(), "/latest"))
            },
            Stage::NativeHosts => RepairRequest::ProbeFile(p.native_hosts.clone()),
            Stage::Finished => RepairRequest::Finish,
        }
    }
}

impl Repair {
    fn move_to(&mut self, s: Stage)
        ensures
            final(self)@ == at(old(self)@, s@),
    {
        self.stage = s;
    }

    fn next_item(&mut self, i: usize, logs: &mut Vec<LogEntry>)
        requires
            i < 3,
        ensures
            final(self)@ == next_item(old(self)@, i as int).0,
            lines(final(logs)@) == lines(old(logs)@) + next_item(old(self)@, i as int).1,
            final(self).wf(),
    {
        assert(lines(logs@) + Seq::<LogLine>::empty() =~= lines(logs@));
        if i + 1 < 3 {
            self.move_to(Stage::ProbingBackup { item: i + 1 });
        } else {
            self.move_to(Stage::ProbingForensic);
        }
    }

    fn backups_made(&mut self, logs: &mut Vec<LogEntry>)
        ensures
            final(self)@ == backups_made(old(self)@).0,
            lines(final(logs)@) == lines(old(logs)@) + backups_made(old(self)@).1,
            final(self).wf(),
    {
        let ghost l0 = lines(logs@);
        push_line(logs, LogEntry::Okay(concat2("备份位置: ", self.backup_dir.as_str())));
        push_line(logs, step("检查 marketplace"));
        assert(lines(logs@) =~= l0 + backups_made(self@).1);
        self.move_to(Stage::ProbingMarketplace);
    }

    fn cache_phase(&mut self, logs: &mut Vec<LogEntry>)
        ensures
            final(self)@ == cache_phase(old(self)@).0,
            lines(final(logs)@) == lines(old(logs)@) + cache_phase(old(self)@).1,
            final(self).wf(),
    {
        let ghost l0 = lines(logs@);
        push_line(logs, step("修复缓存软连接"));
        assert(lines(logs@) =~= l0 + cache_phase(self@).1);
        self.move_to(Stage::CacheDir { plugin: 0 });
    }

    fn next_plugin(&mut self, i: usize, logs: &mut Vec<LogEntry>)
        requires
            i < 3,
        ensures
            final(self)@ == next_plugin(old(self)@, i as int).0,
            lines(final(logs)@) == lines(old(logs)@) + next_plugin(old(self)@, i as int).1,
            final(self).wf(),
    {
        let ghost l0 = lines(logs@);
        if i + 1 < 3 {
            assert(l0 + Seq::<LogLine>::empty() =~= l0);
            self.move_to(Stage::CacheDir { plugin: i + 1 });
        } else {
            push_line(logs, step("检查 chrome-native-hosts.json"));
            assert(lines(logs@) =~= l0 + next_plugin(self@, i as int).1);
            self.move_to(Stage::NativeHosts);
        }
    }

    fn flags_note_text(scripts: bool, skills: bool) -> (r: String)
        ensures
            r@ == flags_note(scripts, skills),
    {
        let mut s = String::from_str(" (scripts=");
        s.append(bool_text(scripts).as_str());
        s.append(" skills=");
        s.append(bool_text(skills).as_str());
        s.append(")");
        s
    }

    /// Takes the answer to the pending request: logs what happened and moves to
    /// the next stage, as [`transition`] says. An answer of another kind than the
    /// request asked for changes nothing.
    #[verifier::rlimit(50)]
    pub fn step(&mut self, ev: RepairEvent) -> (logs: Vec<LogEntry>)
        requires
            old(self).wf(),
        ensures
            final(self).wf(),
            final(self)@ == transition(old(self)@, ev).0,
            lines(logs@) == transition(old(self)@, ev).1,
    {
        let mut logs: Vec<LogEntry> = Vec::new();
        let ghost m = self@;
        let ghost e0 = ev;
        assert(lines(logs@) =~= Seq::<LogLine>::empty());
        match (&self.stage, ev) {
            (Stage::Stopping, RepairEvent::Done) => {
                push_line(&mut logs, okay("已停止插件进程"));
                push_line(&mut logs, step("创建备份"));
                assert(lines(logs@) =~= transition(m, e0).1);
                self.move_to(Stage::AwaitClock);
            },
            (Stage::AwaitClock, RepairEvent::Clock(c)) => {
                match c {
                    Some(stamp) => {
                        self.backup_dir = backup_dir_for(self.paths.backup_root.as_str(), stamp.as_str());
                        self.move_to(Stage::MakingBackupDir);
                    },
                    None => {
                        push_line(&mut logs, fail("无法读取当前时间，跳过备份"));
                        push_line(&mut logs, step("检查 marketplace"));
                        assert(lines(logs@) =~= transition(m, e0).1);
                        self.move_to(Stage::ProbingMarketplace);
                    },
                }
            },
            (Stage::MakingBackupDir, RepairEvent::Done) => {
                self.move_to(Stage::ProbingBackup { item: 0 });
            },
            (Stage::ProbingBackup { item }, RepairEvent::Size(s)) => {
                let i = *item;
                if s.is_some() {
                    self.move_to(Stage::CopyingBackup { item: i });
                } else {
                    self.next_item(i, &mut logs);
                }
            },
            (Stage::CopyingBackup { item }, RepairEvent::Done) => {
                let i = *item;
                push_line(&mut logs, LogEntry::Okay(concat2("已备份: ", item_label_text(i))));
                self.next_item(i, &mut logs);
            },
            (Stage::ProbingForensic, RepairEvent::Flag(b)) => {
                if b && self.marketplace_missing {
                    self.move_to(Stage::CopyingForensic);
                } else {
                    self.backups_made(&mut logs);
                }
            },
            (Stage::CopyingForensic, RepairEvent::Copied(r)) => {
                if r.is_ok() {
                    push_line(&mut logs, okay("已对损坏的 marketplace 做取证备份"));
                }
                self.backups_made(&mut logs);
                assert(lines(logs@) =~= transition(m, e0).1);
            },
            (Stage::ProbingMarketplace, RepairEvent::Size(s)) => {
                if s.is_none() {
                    self.move_to(Stage::ProbingSource);
                } else {
                    push_line(&mut logs, okay("marketplace.json 已存在，无需重建"));
                    self.cache_phase(&mut logs);
                    assert(lines(logs@) =~= transition(m, e0).1);
                }
            },
            (Stage::ProbingSource, RepairEvent::Flag(b)) => {
                if b {
                    push_line(&mut logs, step("重建 marketplace"));
                    assert(lines(logs@) =~= transition(m, e0).1);
                    self.move_to(Stage::RemovingTarget);
                } else {
                    push_line(&mut logs, warn("marketplace.json 缺失且 WindowsApps 不可读，无法自动重建"));
                    push_line(&mut logs, info("解决办法：重新安装 Codex 或手动复制 marketplace.json"));
                    self.cache_phase(&mut logs);
                    assert(lines(logs@) =~= transition(m, e0).1);
                }
            },
            (Stage::RemovingTarget, RepairEvent::Done) => {
                self.move_to(Stage::CopyingSource);
            },
            (Stage::CopyingSource, RepairEvent::Copied(r)) => {
                match r {
                    Ok(_) => {
                        self.move_to(Stage::ProbingRestored);
                    },
                    Err(e) => {
                        push_line(&mut logs, LogEntry::Fail(concat2("复制失败: ", e.as_str())));
                        self.cache_phase(&mut logs);
                        assert(lines(logs@) =~= transition(m, e0).1);
                    },
                }
            },
            (Stage::ProbingRestored, RepairEvent::Size(s)) => {
                match s {
                    Some(n) => {
                        let t = concat3("marketplace.json 已恢复：", decimal_text(n).as_str(), " 字节");
                        push_line(&mut logs, LogEntry::Okay(t));
                    },
                    None => {
                        push_line(&mut logs, fail("marketplace.json 仍然缺失"));
                    },
                }
                self.cache_phase(&mut logs);
                assert(lines(logs@) =~= transition(m, e0).1);
            },
            (Stage::CacheDir { plugin }, RepairEvent::Flag(b)) => {
                let i = *plugin;
                if b {
                    self.move_to(Stage::CacheListing { plugin: i });
                } else {
                    self.next_plugin(i, &mut logs);
                }
            },
            (Stage::CacheListing { plugin }, RepairEvent::Listing(es)) => {
                let i = *plugin;
                let versions = sorted_version_dirs(&es);
                proof {
                    vstd::seq_lib::to_multiset_len(versions.deep_view());
                    vstd::seq_lib::to_multiset_len(version_candidates(es@));
                }
                if versions.len() == 0 {
                    push_line(&mut logs, LogEntry::Warn(concat2(plugin_name_text(i), ": 没有版本目录")));
                    self.next_plugin(i, &mut logs);
                    assert(lines(logs@) =~= transition(m, e0).1);
                } else {
                    let best = versions[0].clone();
                    proof {
                        let c = version_candidates(es@);
                        lemma_first_is_greatest(versions.deep_view(), c);
                        assert(versions.deep_view()[0] == best@);
                        lemma_greatest_unique(c, best@, greatest_of(c));
                    }
                    self.move_to(Stage::CacheScripts { plugin: i, best });
                }
            },
            (Stage::CacheScripts { plugin, best }, RepairEvent::Flag(s)) => {
                let st = Stage::CacheSkills { plugin: *plugin, best: best.clone(), scripts: s };
                self.move_to(st);
            },
            (Stage::CacheSkills { plugin, best, scripts }, RepairEvent::Flag(k)) => {
                let st = Stage::CacheLatest { plugin: *plugin, best: best.clone(), scripts: *scripts, skills: k };
                self.move_to(st);
            },
            (Stage::CacheLatest { plugin, best, scripts, skills }, RepairEvent::Flag(e)) => {
                let (i, b, s, k) = (*plugin, best.clone(), *scripts, *skills);
                if e {
                    self.move_to(Stage::CacheTarget { plugin: i, best: b, scripts: s, skills: k });
                } else {
                    self.move_to(Stage::CacheJunction { plugin: i, best: b, scripts: s, skills: k });
                }
            },
            (Stage::CacheTarget { plugin, best, scripts, skills }, RepairEvent::Text(t)) => {
                let (i, b, s, k) = (*plugin, best.clone(), *scripts, *skills);
                let current = base_name(t.as_str());
                let fix = t.as_str().is_empty() || !(current == b) || !s || !k;
                if fix {
                    self.move_to(Stage::CacheJunction { plugin: i, best: b, scripts: s, skills: k });
                } else {
                    let mut line = String::from_str(plugin_name_text(i));
                    line.append(": latest -> ");
                    line.append(b.as_str());
                    line.append(Self::flags_note_text(s, k).as_str());
                    push_line(&mut logs, LogEntry::Okay(line));
                    self.next_plugin(i, &mut logs);
                    assert(lines(logs@) =~= transition(m, e0).1);
                }
            },
            (Stage::CacheJunction { plugin, best, scripts, skills }, RepairEvent::Flag(ok)) => {
                let (i, b, s, k) = (*plugin, best.clone(), *scripts, *skills);
                if ok {
                    let mut line = String::from_str(plugin_name_text(i));
                    line.append(": 已修复 -> ");
                    line.append(b.as_str());
                    line.append(Self::flags_note_text(s, k).as_str());
                    push_line(&mut logs, LogEntry::Okay(line));
                } else {
                    push_line(&mut logs, LogEntry::Fail(concat2(plugin_name_text(i), ": 修复失败（需要管理员权限）")));
                }
                self.next_plugin(i, &mut logs);
                assert(lines(logs@) =~= transition(m, e0).1);
            },
            (Stage::NativeHosts, RepairEvent::Size(s)) => {
                if s.is_some() {
                    push_line(&mut logs, okay("chrome-native-hosts.json 存在"));
                } else {
                    push_line(&mut logs, info("未找到 chrome-native-hosts.json（重启后生成）"));
                }
                push_line(&mut logs, title("=== 修复完成 ==="));
                push_line(&mut logs, info("请重启 Codex Desktop 使改动生效"));
                push_line(&mut logs, LogEntry::Plain);
                assert(lines(logs@) =~= transition(m, e0).1);
                self.move_to(Stage::Finished);
            },
            _ => {},
        }
        logs
    }
}

// ---------------------------------------------------------------------------
// Laws
// ---------------------------------------------------------------------------

/// How far a stage lies along the repair.
pub open spec fn progress(s: StageView) -> int {
    match s {
        StageView::Stopping => 0,
        StageView::AwaitClock => 1,
        StageView::MakingBackupDir => 2,
        StageView::ProbingBackup(i) => 3 + 2 * i,
        StageView::CopyingBackup(i) => 4 + 2 * i,
        StageView::ProbingForensic => 9,
        StageView::CopyingForensic => 10,
        StageView::ProbingMarketplace => 11,
        StageView::ProbingSource => 12,
        StageView::RemovingTarget => 13,
        StageView::CopyingSource => 14,
        StageView::ProbingRestored => 15,
        StageView::CacheDir(i) => 16 + 7 * i,
        StageView::CacheListing(i) => 17 + 7 * i,
        StageView::CacheScripts(i, _) => 18 + 7 * i,
        StageView::CacheSkills(i, _, _) => 19 + 7 * i,
        StageView::CacheLatest(i, _, _, _) => 20 + 7 * i,
        StageView::CacheTarget(i, _, _, _) => 21 + 7 * i,
        StageView::CacheJunction(i, _, _, _) => 22 + 7 * i,
        StageView::NativeHosts => 37,
        StageView::Finished => 38,
    }
}

/// Every answer either changes nothing or moves the repair strictly forward
/// along a course of 38 steps, so a repair ends after at most 38 answers.
pub proof fn lemma_repair_progresses(m: RepairView, ev: RepairEvent)
    requires
        stage_ok(m.stage),
    ensures
        stage_ok(transition(m, ev).0.stage),
        0 <= progress(m.stage) <= 38,
        transition(m, ev).0 == m || progress(transition(m, ev).0.stage) > progress(m.stage),
        transition(m, ev).0 == m ==> transition(m, ev).1.len() == 0,
{
}

/// The end marker is logged exactly when the repair reaches its end.
pub proof fn lemma_end_marker(m: RepairView, ev: RepairEvent)
    requires
        stage_ok(m.stage),
    ensures
        transition(m, ev).1.contains(LogLine::Plain) <==> (!(m.stage is Finished)
            && transition(m, ev).0.stage is Finished),
{
    let l = transition(m, ev).1;
    if transition(m, ev).0.stage is Finished && !(m.stage is Finished) {
        assert(l[3] == LogLine::Plain);
    }
}

/// The bundled marketplace is removed and copied anew only on the way that
/// found its file missing and the plugin source a directory; the damaged one is
/// copied aside only when the diagnosis found it missing and its directory exists.
pub proof fn lemma_rebuild_only_when_missing(m: RepairView, ev: RepairEvent)
    ensures
        transition(m, ev).0.stage is ProbingSource && !(m.stage is ProbingSource) ==> (m.stage
            is ProbingMarketplace && ev matches RepairEvent::Size(None)),
        transition(m, ev).0.stage is RemovingTarget && !(m.stage is RemovingTarget) ==> (m.stage
            is ProbingSource && ev matches RepairEvent::Flag(true)),
        transition(m, ev).0.stage is CopyingForensic && !(m.stage is CopyingForensic) ==> (m.stage
            is ProbingForensic && m.marketplace_missing && ev matches RepairEvent::Flag(true)),
{
}

/// A `latest` link is made again only when it is missing, or when it does not
/// lead to the newest version or that version lacks its scripts or skills.
pub proof fn lemma_link_replaced_only_when_needed(m: RepairView, ev: RepairEvent)
    ensures
        transition(m, ev).0.stage is CacheJunction && !(m.stage is CacheJunction) ==> ({
            ||| m.stage is CacheLatest && ev matches RepairEvent::Flag(false)
            ||| (m.stage matches StageView::CacheTarget(_, b, s, k) && ev matches RepairEvent::Text(t)
                && needs_fix(t@, b, s, k))
        }),
{
}

/// The state after the answers `evs`, one after the other.
pub open spec fn run_from(m: RepairView, evs: Seq<RepairEvent>) -> RepairView
    decreases evs.len(),
{
    if evs.len() == 0 {
        m
    } else {
        run_from(transition(m, evs[0]).0, evs.drop_first())
    }
}

/// An answer that shows the bundled marketplace or a plugin's `latest` link
/// already in place: the marketplace file exists, the link exists, and it leads
/// to the newest version, which has its scripts and skills.
pub open spec fn answer_in_place(s: StageView, ev: RepairEvent) -> bool {
    match s {
        StageView::ProbingMarketplace => ev matches RepairEvent::Size(Some(_)),
        StageView::CacheLatest(_, _, _, _) => ev matches RepairEvent::Flag(true),
        StageView::CacheTarget(_, b, sc, sk) => ev matches RepairEvent::Text(t) && !needs_fix(t@, b, sc, sk),
        _ => true,
    }
}

/// Every answer of `evs`, given from `m` on, shows things already in place.
pub open spec fn all_in_place(m: RepairView, evs: Seq<RepairEvent>) -> bool
    decreases evs.len(),
{
    evs.len() == 0 || (answer_in_place(m.stage, evs[0]) && all_in_place(
        transition(m, evs[0]).0,
        evs.drop_first(),
    ))
}

/// The stages that neither rebuild the bundled marketplace nor make a link.
pub open spec fn leaves_bundle_and_links(s: StageView) -> bool {
    !(s is ProbingSource || s is RemovingTarget || s is CopyingSource || s is ProbingRestored
        || s is CacheJunction)
}

/// What a request writes stays inside the backup directory `d`: it makes that
/// directory, copies a file into it, or copies a tree into it.
pub open spec fn writes_only_under(r: RequestView, d: Seq<char>) -> bool {
    match r {
        RequestView::CreateDirAll(x) => x == d,
        RequestView::CopyFile(_, to) => has_prefix(to, d + "/"@),
        RequestView::CopyTree(_, to) => to == d + "/bundled-marketplace-forensic"@,
        RequestView::RemoveTree(_) => false,
        RequestView::CreateJunction(_, _) => false,
        _ => true,
    }
}

proof fn lemma_in_place_step(m: RepairView, ev: RepairEvent)
    requires
        stage_ok(m.stage),
        leaves_bundle_and_links(m.stage),
        answer_in_place(m.stage, ev),
    ensures
        stage_ok(transition(m, ev).0.stage),
        leaves_bundle_and_links(transition(m, ev).0.stage),
{
}

/// The backup directory of a repair is unset, or is named by a time stamp under
/// its backup root; while the backups are made it is named.
pub open spec fn backup_dir_named(m: RepairView) -> bool {
    let named = exists|stamp: Seq<char>| m.backup_dir == backup_dir_of(m.paths.backup_root@, stamp);
    if m.stage is MakingBackupDir || m.stage is ProbingBackup || m.stage is CopyingBackup
        || m.stage is ProbingForensic || m.stage is CopyingForensic {
        named
    } else {
        m.backup_dir.len() == 0 || named
    }
}

/// A request that changes the file system.
pub open spec fn writes(r: RequestView) -> bool {
    r is CreateDirAll || r is CopyFile || r is CopyTree || r is RemoveTree || r is CreateJunction
}

#[verifier::spinoff_prover]
proof fn lemma_backup_dir_step(m: RepairView, ev: RepairEvent)
    requires
        stage_ok(m.stage),
        backup_dir_named(m),
    ensures
        stage_ok(transition(m, ev).0.stage),
        backup_dir_named(transition(m, ev).0),
        transition(m, ev).0.paths == m.paths,
{
    lemma_repair_progresses(m, ev);
    reveal_strlit("/openai-bundled-repair-");
    let n = transition(m, ev).0;
    if let (StageView::AwaitClock, RepairEvent::Clock(Some(stamp))) = (m.stage, ev) {
        assert(n.paths == m.paths);
        assert(n.stage is MakingBackupDir);
        assert(n.backup_dir == backup_dir_of(n.paths.backup_root@, stamp@));
        assert(backup_dir_named(n));
    } else {
        assert(n.backup_dir == m.backup_dir);
        if m.backup_dir.len() > 0 {
            let stamp = choose|stamp: Seq<char>| m.backup_dir == backup_dir_of(m.paths.backup_root@, stamp);
            assert(n.backup_dir == backup_dir_of(n.paths.backup_root@, stamp));
            assert(backup_dir_named(n));
        } else {
            assert(!(n.stage is MakingBackupDir || n.stage is ProbingBackup || n.stage is CopyingBackup
                || n.stage is ProbingForensic || n.stage is CopyingForensic));
        }
    }
}

/// Over a whole run, a repair keeps its paths, and its backup directory stays
/// unset or named by a time stamp under the backup root.
pub proof fn lemma_backup_dir_under_root(m: RepairView, evs: Seq<RepairEvent>)
    requires
        stage_ok(m.stage),
        backup_dir_named(m),
    ensures
        stage_ok(run_from(m, evs).stage),
        backup_dir_named(run_from(m, evs)),
        run_from(m, evs).paths == m.paths,
    decreases evs.len(),
{
    if evs.len() > 0 {
        lemma_backup_dir_step(m, evs[0]);
        lemma_backup_dir_under_root(transition(m, evs[0]).0, evs.drop_first());
    }
}

/// A repair whose answers all show the bundled marketplace and the plugin links
/// already in place (as a second run right after a successful one finds them)
/// never removes or copies over the bundled marketplace and never makes a link:
/// whatever state it reaches, what that state asks to write lies inside its
/// backup directory, which is named by a time stamp under the backup root.
pub proof fn lemma_settled_repair_writes_only_backups(m: RepairView, evs: Seq<RepairEvent>)
    requires
        stage_ok(m.stage),
        leaves_bundle_and_links(m.stage),
        backup_dir_named(m),
        all_in_place(m, evs),
    ensures
        leaves_bundle_and_links(run_from(m, evs).stage),
        writes_only_under(request_of(run_from(m, evs)), run_from(m, evs).backup_dir),
        writes(request_of(run_from(m, evs))) ==> exists|stamp: Seq<char>|
            writes_only_under(
                request_of(run_from(m, evs)),
                #[trigger] backup_dir_of(m.paths.backup_root@, stamp),
            ),
    decreases evs.len(),
{
    lemma_backup_dir_under_root(m, evs);
    if evs.len() > 0 {
        lemma_in_place_step(m, evs[0]);
        lemma_backup_dir_step(m, evs[0]);
        lemma_settled_repair_writes_only_backups(transition(m, evs[0]).0, evs.drop_first());
    } else {
        let d = m.backup_dir;
        if let StageView::CopyingBackup(i) = m.stage {
            let to = d + "/"@ + file_name_of(item_path(m.paths, i));
            assert(to.subrange(0, (d + "/"@).len() as int) =~= d + "/"@);
        }
        if writes(request_of(m)) {
            let stamp = choose|stamp: Seq<char>| m.backup_dir == backup_dir_of(m.paths.backup_root@, stamp);
            assert(writes_only_under(request_of(m), backup_dir_of(m.paths.backup_root@, stamp)));
        }
    }
}

/// The cache directory of the `i`-th plugin the repair visits: chrome, then
/// computer-use, then browser.
pub open spec fn plugin_cache_dir_at(cache_root: Seq<char>, i: int) -> Seq<char> {
    cache_root + "/"@ + (if i == 0 {
        "chrome"@
    } else if i == 1 {
        "computer-use"@
    } else {
        "browser"@
    })
}

/// The files a repair backs up, in order: `config.toml`, the extension manifest
/// and the native hosts file.
pub open spec fn backed_up_file(p: DetectedPaths, i: int) -> Seq<char> {
    if i == 0 {
        p.config_toml@
    } else if i == 1 {
        p.extension_manifest@
    } else {
        p.native_hosts@
    }
}

/// What each writing request of a repair asks for:
/// - backup item `i` copies `config.toml`, the extension manifest or the native
///   hosts file (for `i` = 0, 1, 2) into the backup directory, under its own name;
/// - removing the old bundle removes the bundled marketplace root;
/// - the rebuild copies the WindowsApps plugin source into the bundled
///   marketplace root;
/// - the junction stage of a plugin with newest version `b` makes the link
///   `<cache root>/<plugin>/latest` lead to `<cache root>/<plugin>/<b>`.
pub proof fn lemma_write_requests(m: RepairView)
    requires
        stage_ok(m.stage),
    ensures
        m.stage matches StageView::CopyingBackup(i) ==> request_of(m) == RequestView::CopyFile(
            backed_up_file(m.paths, i),
            m.backup_dir + "/"@ + file_name_of(backed_up_file(m.paths, i)),
        ),
        m.stage is RemovingTarget ==> request_of(m) == RequestView::RemoveTree(m.paths.bundled_tmp_root@),
        m.stage is CopyingSource ==> request_of(m) == RequestView::CopyTree(
            m.paths.windowsapps_source@,
            m.paths.bundled_tmp_root@,
        ),
        m.stage matches StageView::CacheJunction(i, b, _, _) ==> request_of(m) == RequestView::CreateJunction(
            plugin_cache_dir_at(m.paths.plugin_cache_root@, i) + "/"@ + b,
            plugin_cache_dir_at(m.paths.plugin_cache_root@, i) + "/latest"@,
        ),
{
}

/// Each backup is logged under the label of the file it copied: `config.toml`,
/// `扩展清单` (the extension manifest) or `native-hosts`.
pub proof fn lemma_backup_labels(m: RepairView)
    requires
        stage_ok(m.stage),
        m.stage is CopyingBackup,
    ensures
        ({
            let i = m.stage->CopyingBackup_0;
            let label = if i == 0 { "config.toml"@ } else if i == 1 { "扩展清单"@ } else { "native-hosts"@ };
            let file = if i == 0 {
                m.paths.config_toml@
            } else if i == 1 {
                m.paths.extension_manifest@
            } else {
                m.paths.native_hosts@
            };
            &&& request_of(m) matches RequestView::CopyFile(from, _) && from == file
            &&& transition(m, RepairEvent::Done).1 == seq![LogLine::Okay("已备份: "@ + label)]
        }),
{
    let i = m.stage->CopyingBackup_0;
    assert(next_item(m, i).1 =~= Seq::<LogLine>::empty());
    assert(seq![LogLine::Okay("已备份: "@ + item_label(i))] + next_item(m, i).1 =~= seq![
        LogLine::Okay("已备份: "@ + item_label(i)),
    ]);
}

/// Where a request writes: the directory it makes, the destination of a copy,
/// the tree it removes, or the link it makes. Nothing for the other requests.
pub open spec fn write_target(r: RequestView) -> Option<Seq<char>> {
    match r {
        RequestView::CreateDirAll(d) => Some(d),
        RequestView::CopyFile(_, to) => Some(to),
        RequestView::CopyTree(_, to) => Some(to),
        RequestView::RemoveTree(t) => Some(t),
        RequestView::CreateJunction(_, link) => Some(link),
        _ => None,
    }
}

/// A repair writes only to its backup directory and what lies in it, to the
/// bundled marketplace root, and to the `latest` links of the three plugins in
/// the cache; in particular never to the WindowsApps plugin source, nor to a
/// version directory, unless one of these paths names it too.
pub proof fn lemma_write_targets(m: RepairView)
    requires
        stage_ok(m.stage),
    ensures
        write_target(request_of(m)) matches Some(t) ==> {
            ||| t == m.backup_dir
            ||| has_prefix(t, m.backup_dir + "/"@)
            ||| t == m.paths.bundled_tmp_root@
            ||| t == plugin_cache_dir_at(m.paths.plugin_cache_root@, 0) + "/latest"@
            ||| t == plugin_cache_dir_at(m.paths.plugin_cache_root@, 1) + "/latest"@
            ||| t == plugin_cache_dir_at(m.paths.plugin_cache_root@, 2) + "/latest"@
        },
{
    let d = m.backup_dir + "/"@;
    match m.stage {
        StageView::CopyingBackup(i) => {
            let to = d + file_name_of(item_path(m.paths, i));
            assert(to.subrange(0, d.len() as int) =~= d);
            assert(m.backup_dir + "/"@ + file_name_of(item_path(m.paths, i)) == to);
        },
        StageView::CopyingForensic => {
            reveal_strlit("/bundled-marketplace-forensic");
            reveal_strlit("/");
            let to = m.backup_dir + "/bundled-marketplace-forensic"@;
            assert(to.subrange(0, d.len() as int) =~= d);
        },
        _ => {},
    }
}

fn push_line(logs: &mut Vec<LogEntry>, e: LogEntry)
    ensures
        lines(final(logs)@) == lines(old(logs)@).push(e@),
{
    proof {
        lemma_lines_push(old(logs)@, e);
    }
    logs.push(e);
}

} // verus!
