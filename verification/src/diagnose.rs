//! The diagnosis: from what was observed on disk and in the process table to
//! the log the user reads and the issues a repair acts on.
use vstd::prelude::*;
use crate::text::{bool_text, bool_word, chars_of, contains_chars, decimal, decimal_text, has_infix};
use crate::log::{LogEntry, LogLine, Issue, lines, codes, lemma_lines_push, title, step, okay, fail, warn, info};
use crate::paths::{base_name, file_name_of};
use crate::processes::{ProcessInfo, plugin_pids};

verus! {

/// What was found of the bundled marketplace file.
pub enum MarketplaceState {
    /// There is no such file.
    Missing,
    /// The file lists these plugins, by name.
    Parsed(Vec<String>),
    /// The file does not parse; the parser said this.
    Corrupt(String),
}

/// What was found of one plugin's `latest` link in the cache.
pub struct CacheState {
    /// `latest` is a directory.
    pub latest_exists: bool,
    /// Where `latest` leads: its junction target, or `latest` itself.
    pub resolved: String,
    /// `resolved` holds a `scripts` directory.
    pub has_scripts: bool,
    /// `resolved` holds a `skills` directory.
    pub has_skills: bool,
}

/// What was found of the extension manifest.
pub enum ManifestState {
    /// There is no such file.
    Missing,
    /// The file is not JSON.
    Corrupt,
    /// The file names `exe` as the extension host; `exe_exists` says whether that
    /// is a file.
    Target { exe: String, exe_exists: bool },
}

/// Everything a diagnosis looks at.
pub struct Observations {
    pub marketplace: MarketplaceState,
    pub chrome: CacheState,
    pub computer_use: CacheState,
    pub browser: CacheState,
    /// The size of the extension host, when it is a file.
    pub extension_host_size: Option<u64>,
    /// How many plugin processes run.
    pub plugin_processes: usize,
    pub manifest: ManifestState,
    /// The text of `config.toml`, when it is a file.
    pub config: Option<String>,
    /// The plugin source in WindowsApps is a directory.
    pub source_dir_ok: bool,
    /// The plugin source holds a marketplace file.
    pub source_marketplace_ok: bool,
    /// The plugin cache is a directory.
    pub plugin_cache_ok: bool,
    /// The bundled marketplace file exists.
    pub marketplace_ok: bool,
}

/// Log lines and issue codes, as one part of a diagnosis adds them.
pub struct Findings {
    pub lines: Seq<LogLine>,
    pub codes: Seq<Seq<char>>,
}

/// One part after another.
pub open spec fn followed_by(a: Findings, b: Findings) -> Findings {
    Findings { lines: a.lines + b.lines, codes: a.codes + b.codes }
}

/// Only log lines.
pub open spec fn logged(l: Seq<LogLine>) -> Findings {
    Findings { lines: l, codes: Seq::empty() }
}

/// The items of `list` with `sep` between them.
pub open spec fn joined(list: Seq<Seq<char>>, sep: Seq<char>) -> Seq<char>
    decreases list.len(),
{
    if list.len() == 0 {
        Seq::empty()
    } else if list.len() == 1 {
        list[0]
    } else {
        joined(list.drop_last(), sep) + sep + list.last()
    }
}

/// The marketplace part.
#[verifier::opaque]
pub open spec fn marketplace_part(m: MarketplaceState) -> Findings {
    followed_by(
        logged(seq![LogLine::Step("检查 marketplace.json"@)]),
        match m {
            MarketplaceState::Parsed(names) => logged(seq![LogLine::Okay(
                "marketplace.json: "@ + decimal(names@.len()) + " plugins ("@ + joined(names.deep_view(), ", "@) + ")"@,
            )]),
            MarketplaceState::Corrupt(e) => Findings {
                lines: seq![LogLine::Fail("marketplace.json 解析失败: "@ + e@)],
                codes: seq!["marketplace-json-corrupt"@],
            },
            MarketplaceState::Missing => Findings {
                lines: seq![LogLine::Fail("marketplace.json 缺失"@)],
                codes: seq!["marketplace-json-missing"@],
            },
        },
    )
}

/// The findings for one plugin's `latest` link.
#[verifier::opaque]
pub open spec fn cache_entry(name: Seq<char>, c: CacheState) -> Findings {
    if c.latest_exists {
        Findings {
            lines: seq![LogLine::Okay(
                name + ": latest -> "@ + file_name_of(c.resolved@) + " scripts="@ + bool_word(c.has_scripts)
                    + " skills="@ + bool_word(c.has_skills),
            )],
            codes: (if c.has_scripts { Seq::empty() } else { seq!["cache-no-scripts-"@ + name] })
                + (if c.has_skills { Seq::empty() } else { seq!["cache-no-skills-"@ + name] }),
        }
    } else {
        Findings {
            lines: seq![LogLine::Fail(name + ": latest 不存在"@)],
            codes: seq!["cache-no-latest-"@ + name],
        }
    }
}

/// The cache part.
pub open spec fn cache_part(o: Observations) -> Findings {
    followed_by(
        logged(seq![LogLine::Step("检查插件缓存"@)]),
        followed_by(
            cache_entry("chrome"@, o.chrome),
            followed_by(cache_entry("computer-use"@, o.computer_use), cache_entry("browser"@, o.browser)),
        ),
    )
}

/// The extension host part.
#[verifier::opaque]
pub open spec fn host_part(size: Option<u64>) -> Findings {
    followed_by(
        logged(seq![LogLine::Step("检查 extension-host.exe"@)]),
        match size {
            Some(n) => logged(seq![LogLine::Okay("extension-host.exe: "@ + decimal(n as nat) + " bytes"@)]),
            None => Findings {
                lines: seq![LogLine::Fail("extension-host.exe 未找到"@)],
                codes: seq!["extension-host-exe-missing"@],
            },
        },
    )
}

/// The process part.
#[verifier::opaque]
pub open spec fn process_part(count: usize) -> Findings {
    followed_by(
        logged(seq![LogLine::Step("检查运行的插件进程"@)]),
        if count > 0 {
            Findings {
                lines: seq![LogLine::Info("发现 "@ + decimal(count as nat) + " 个插件进程在运行"@)],
                codes: seq!["plugin-processes-running"@],
            }
        } else {
            logged(seq![LogLine::Okay("没有插件进程在运行"@)])
        },
    )
}

/// The manifest part.
#[verifier::opaque]
pub open spec fn manifest_part(m: ManifestState) -> Findings {
    followed_by(
        logged(seq![LogLine::Step("检查扩展清单"@)]),
        match m {
            ManifestState::Target { exe, exe_exists } => if exe_exists {
                logged(seq![LogLine::Okay("扩展清单有效"@)])
            } else {
                logged(seq![LogLine::Warn("扩展清单指向无效路径: "@ + exe@)])
            },
            ManifestState::Corrupt => Findings {
                lines: seq![LogLine::Fail("扩展清单已损坏"@)],
                codes: seq!["extension-manifest-corrupt"@],
            },
            ManifestState::Missing => Findings {
                lines: seq![LogLine::Warn("扩展清单未找到"@)],
                codes: seq!["extension-manifest-missing"@],
            },
        },
    )
}

/// The findings for one plugin that `config.toml` should enable.
pub open spec fn config_entry(content: Seq<char>, name: Seq<char>) -> Findings {
    if has_infix(content, name) {
        logged(seq![LogLine::Okay(name + " 已配置"@)])
    } else {
        Findings { lines: seq![LogLine::Warn(name + " 未配置"@)], codes: seq!["config-missing-"@ + name] }
    }
}

/// The configuration part.
#[verifier::opaque]
pub open spec fn config_part(config: Option<String>) -> Findings {
    followed_by(
        logged(seq![LogLine::Step("检查 config.toml"@)]),
        match config {
            Some(c) => followed_by(
                config_entry(c@, "computer-use@openai-bundled"@),
                followed_by(config_entry(c@, "chrome@openai-bundled"@), config_entry(c@, "browser@openai-bundled"@)),
            ),
            None => logged(seq![LogLine::Fail("config.toml 不存在"@)]),
        },
    )
}

/// The repair source part.
#[verifier::opaque]
pub open spec fn source_part(o: Observations) -> Findings {
    logged(
        seq![LogLine::Step("检查修复源（WindowsApps / 本地缓存）"@)] + if o.source_dir_ok {
            if o.source_marketplace_ok {
                seq![LogLine::Okay("WindowsApps 有完整 marketplace.json（可用作修复源）"@)]
            } else {
                seq![LogLine::Warn("WindowsApps 存在但 marketplace.json 缺失"@)]
            }
        } else {
            seq![LogLine::Warn("WindowsApps 不可读（非 Store 安装或权限限制）"@)] + if o.marketplace_ok {
                seq![LogLine::Info("本地 marketplace.json 已存在，无需外部修复源"@)]
            } else if o.plugin_cache_ok {
                seq![LogLine::Info("插件缓存存在，可作为备用修复源"@)]
            } else {
                Seq::empty()
            }
        },
    )
}

/// Every check, in the order the diagnosis makes them.
pub open spec fn checks(o: Observations) -> Findings {
    followed_by(
        logged(seq![LogLine::Title("=== 开始诊断 ==="@)]),
        followed_by(
            marketplace_part(o.marketplace),
            followed_by(
                cache_part(o),
                followed_by(
                    host_part(o.extension_host_size),
                    followed_by(
                        process_part(o.plugin_processes),
                        followed_by(manifest_part(o.manifest), followed_by(config_part(o.config), source_part(o))),
                    ),
                ),
            ),
        ),
    )
}

/// The closing lines: the number of issues, then each issue.
pub open spec fn summary_lines(issues: Seq<Seq<char>>) -> Seq<LogLine> {
    seq![LogLine::Title("=== 诊断完成：共 "@ + decimal(issues.len()) + " 个问题 ==="@)]
        + issues.map_values(|c: Seq<char>| LogLine::Warn("  * "@ + c))
}

/// The log of a diagnosis.
pub open spec fn diagnosis_lines(o: Observations) -> Seq<LogLine> {
    checks(o).lines + summary_lines(checks(o).codes)
}

/// The issues a diagnosis finds.
pub open spec fn diagnosis_codes(o: Observations) -> Seq<Seq<char>> {
    checks(o).codes
}

/// How many step lines a log has.
pub open spec fn step_count(l: Seq<LogLine>) -> nat
    decreases l.len(),
{
    if l.len() == 0 {
        0
    } else {
        step_count(l.drop_last()) + if l.last() is Step { 1nat } else { 0nat }
    }
}

proof fn lemma_step_count_add(a: Seq<LogLine>, b: Seq<LogLine>)
    ensures
        step_count(a + b) == step_count(a) + step_count(b),
    decreases b.len(),
{
    if b.len() == 0 {
        assert(a + b =~= a);
    } else {
        lemma_step_count_add(a, b.drop_last());
        assert((a + b).drop_last() =~= a + b.drop_last());
    }
}

proof fn lemma_one_line(x: LogLine)
    ensures
        step_count(seq![x]) == if x is Step { 1nat } else { 0nat },
{
    assert(seq![x].drop_last() =~= Seq::<LogLine>::empty());
    assert(step_count(seq![x].drop_last()) == 0);
    assert(seq![x].last() == x);
}

proof fn lemma_two_lines(x: LogLine, y: LogLine)
    ensures
        step_count(seq![x, y]) == (if x is Step { 1nat } else { 0nat }) + (if y is Step { 1nat } else { 0nat }),
{
    lemma_one_line(x);
    lemma_one_line(y);
    lemma_step_count_add(seq![x], seq![y]);
    assert(seq![x] + seq![y] =~= seq![x, y]);
}

/// A part made of a step line and then `rest` counts one step more than `rest`.
proof fn lemma_step_then(label: Seq<char>, rest: Seq<LogLine>)
    ensures
        step_count(seq![LogLine::Step(label)] + rest) == 1 + step_count(rest),
{
    lemma_one_line(LogLine::Step(label));
    lemma_step_count_add(seq![LogLine::Step(label)], rest);
}

proof fn lemma_no_step_summary(codes: Seq<Seq<char>>)
    ensures
        step_count(codes.map_values(|c: Seq<char>| LogLine::Warn("  * "@ + c))) == 0,
    decreases codes.len(),
{
    let l = codes.map_values(|c: Seq<char>| LogLine::Warn("  * "@ + c));
    if codes.len() > 0 {
        lemma_no_step_summary(codes.drop_last());
        assert(l.drop_last() =~= codes.drop_last().map_values(|c: Seq<char>| LogLine::Warn("  * "@ + c)));
    }
}

proof fn lemma_marketplace_steps(m: MarketplaceState)
    ensures
        step_count(marketplace_part(m).lines) == 1,
{
    reveal(marketplace_part);
    let mp = marketplace_part(m).lines;
    assert(mp =~= seq![LogLine::Step("检查 marketplace.json"@)] + seq![mp[1]]);
    lemma_step_then("检查 marketplace.json"@, seq![mp[1]]);
    lemma_one_line(mp[1]);
}

proof fn lemma_cache_steps(o: Observations)
    ensures
        step_count(cache_part(o).lines) == 1,
{
    reveal(cache_entry);
    let e1 = cache_entry("chrome"@, o.chrome).lines;
    let e2 = cache_entry("computer-use"@, o.computer_use).lines;
    let e3 = cache_entry("browser"@, o.browser).lines;
    lemma_one_line(e1[0]);
    lemma_one_line(e2[0]);
    lemma_one_line(e3[0]);
    assert(e1 =~= seq![e1[0]] && e2 =~= seq![e2[0]] && e3 =~= seq![e3[0]]);
    lemma_step_count_add(e2, e3);
    lemma_step_count_add(e1, e2 + e3);
    assert(cache_part(o).lines =~= seq![LogLine::Step("检查插件缓存"@)] + (e1 + (e2 + e3)));
    lemma_step_then("检查插件缓存"@, e1 + (e2 + e3));
}

proof fn lemma_host_steps(size: Option<u64>)
    ensures
        step_count(host_part(size).lines) == 1,
{
    reveal(host_part);
    let hp = host_part(size).lines;
    assert(hp =~= seq![LogLine::Step("检查 extension-host.exe"@)] + seq![hp[1]]);
    lemma_step_then("检查 extension-host.exe"@, seq![hp[1]]);
    lemma_one_line(hp[1]);
}

proof fn lemma_process_steps(count: usize)
    ensures
        step_count(process_part(count).lines) == 1,
{
    reveal(process_part);
    let pp = process_part(count).lines;
    assert(pp =~= seq![LogLine::Step("检查运行的插件进程"@)] + seq![pp[1]]);
    lemma_step_then("检查运行的插件进程"@, seq![pp[1]]);
    lemma_one_line(pp[1]);
}

proof fn lemma_manifest_steps(m: ManifestState)
    ensures
        step_count(manifest_part(m).lines) == 1,
{
    reveal(manifest_part);
    let np = manifest_part(m).lines;
    assert(np =~= seq![LogLine::Step("检查扩展清单"@)] + seq![np[1]]);
    lemma_step_then("检查扩展清单"@, seq![np[1]]);
    lemma_one_line(np[1]);
}

proof fn lemma_config_steps(config: Option<String>)
    ensures
        step_count(config_part(config).lines) == 1,
{
    reveal(config_part);
    let gp = config_part(config).lines;
    let grest = gp.drop_first();
    assert(gp =~= seq![LogLine::Step("检查 config.toml"@)] + grest);
    lemma_step_then("检查 config.toml"@, grest);
    match config {
        Some(c) => {
            let a = config_entry(c@, "computer-use@openai-bundled"@).lines;
            let b = config_entry(c@, "chrome@openai-bundled"@).lines;
            let d = config_entry(c@, "browser@openai-bundled"@).lines;
            lemma_one_line(a[0]);
            lemma_one_line(b[0]);
            lemma_one_line(d[0]);
            assert(a =~= seq![a[0]] && b =~= seq![b[0]] && d =~= seq![d[0]]);
            lemma_step_count_add(b, d);
            lemma_step_count_add(a, b + d);
            assert(grest =~= a + (b + d));
        },
        None => {
            lemma_one_line(grest[0]);
            assert(grest =~= seq![grest[0]]);
        },
    }
}

proof fn lemma_source_steps(o: Observations)
    ensures
        step_count(source_part(o).lines) == 1,
{
    reveal(source_part);
    let sp = source_part(o).lines;
    let srest = sp.drop_first();
    assert(sp =~= seq![LogLine::Step("检查修复源（WindowsApps / 本地缓存）"@)] + srest);
    lemma_step_then("检查修复源（WindowsApps / 本地缓存）"@, srest);
    if o.source_dir_ok {
        lemma_one_line(srest[0]);
        assert(srest =~= seq![srest[0]]);
    } else if o.marketplace_ok || o.plugin_cache_ok {
        lemma_two_lines(srest[0], srest[1]);
        assert(srest =~= seq![srest[0], srest[1]]);
    } else {
        lemma_one_line(srest[0]);
        assert(srest =~= seq![srest[0]]);
    }
}

/// The diagnosis checks all seven components: its log has exactly seven step
/// lines, one for each, whatever was observed.
pub proof fn lemma_seven_checks(o: Observations)
    ensures
        step_count(diagnosis_lines(o)) == 7,
{
    let mp = marketplace_part(o.marketplace).lines;
    let cp = cache_part(o).lines;
    let hp = host_part(o.extension_host_size).lines;
    let pp = process_part(o.plugin_processes).lines;
    let np = manifest_part(o.manifest).lines;
    let gp = config_part(o.config).lines;
    let sp = source_part(o).lines;
    lemma_marketplace_steps(o.marketplace);
    lemma_cache_steps(o);
    lemma_host_steps(o.extension_host_size);
    lemma_process_steps(o.plugin_processes);
    lemma_manifest_steps(o.manifest);
    lemma_config_steps(o.config);
    lemma_source_steps(o);
    let t = seq![LogLine::Title("=== 开始诊断 ==="@)];
    lemma_one_line(t[0]);
    lemma_step_count_add(gp, sp);
    lemma_step_count_add(np, gp + sp);
    lemma_step_count_add(pp, np + (gp + sp));
    lemma_step_count_add(hp, pp + (np + (gp + sp)));
    lemma_step_count_add(cp, hp + (pp + (np + (gp + sp))));
    lemma_step_count_add(mp, cp + (hp + (pp + (np + (gp + sp)))));
    lemma_step_count_add(t, mp + (cp + (hp + (pp + (np + (gp + sp))))));
    assert(checks(o).lines =~= t + (mp + (cp + (hp + (pp + (np + (gp + sp)))))));
    let codes = checks(o).codes;
    let warns = codes.map_values(|c: Seq<char>| LogLine::Warn("  * "@ + c));
    let head = seq![LogLine::Title("=== 诊断完成：共 "@ + decimal(codes.len()) + " 个问题 ==="@)];
    lemma_one_line(head[0]);
    lemma_no_step_summary(codes);
    lemma_step_count_add(head, warns);
    assert(summary_lines(codes) == head + warns);
    lemma_step_count_add(checks(o).lines, summary_lines(codes));
}

/// Where a `latest` link leads: the junction target when it has one, else the
/// link itself.
pub fn resolved_latest(latest: &str, target: &str) -> (r: String)
    ensures
        r@ == (if target@.len() > 0 { target@ } else { latest@ }),
{
    if target.is_empty() { String::from_str(latest) } else { String::from_str(target) }
}

/// The entry `name` of the directory `dir`.
pub fn subdir(dir: &str, name: &str) -> (r: String)
    ensures
        r@ == dir@ + "/"@ + name@,
{
    crate::text::concat3(dir, "/", name)
}

// ---------------------------------------------------------------------------

fn push_line(logs: &mut Vec<LogEntry>, e: LogEntry)
    ensures
        lines(final(logs)@) == lines(old(logs)@).push(e@),
{
    proof {
        lemma_lines_push(old(logs)@, e);
    }
    logs.push(e);
}

fn push_issue(issues: &mut Vec<Issue>, code: String)
    ensures
        codes(final(issues)@) == codes(old(issues)@).push(code@),
{
    let ghost before = issues@;
    issues.push(Issue(code));
    assert(codes(issues@) =~= codes(before).push(code@));
}

/// What a part adds to the log and the issues.
pub open spec fn added(
    old_logs: Seq<LogEntry>,
    new_logs: Seq<LogEntry>,
    old_issues: Seq<Issue>,
    new_issues: Seq<Issue>,
    f: Findings,
) -> bool {
    &&& lines(new_logs) == lines(old_logs) + f.lines
    &&& codes(new_issues) == codes(old_issues) + f.codes
}

/// The plugin names joined with `, `.
pub fn join_names(names: &Vec<String>) -> (r: String)
    ensures
        r@ == joined(names.deep_view(), ", "@),
{
    let mut r = String::new();
    let ghost v = names.deep_view();
    let mut i: usize = 0;
    assert(v.take(0) =~= Seq::<Seq<char>>::empty());
    while i < names.len()
        invariant
            v == names.deep_view(),
            i <= v.len(),
            r@ == joined(v.take(i as int), ", "@),
        decreases v.len() - i,
    {
        assert(v.take(i + 1).drop_last() =~= v.take(i as int));
        assert(v.take(i + 1).last() == names@[i as int]@);
        if i > 0 {
            r.append(", ");
        } else {
            assert(v.take(1) =~= seq![names@[0]@]);
        }
        r.append(names[i].as_str());
        i = i + 1;
    }
    assert(v.take(v.len() as int) =~= v);
    r
}

fn marketplace_check(m: &MarketplaceState, logs: &mut Vec<LogEntry>, issues: &mut Vec<Issue>)
    ensures
        added(old(logs)@, final(logs)@, old(issues)@, final(issues)@, marketplace_part(*m)),
{
    let ghost (l0, i0) = (logs@, issues@);
    reveal(marketplace_part);
    push_line(logs, step("检查 marketplace.json"));
    match m {
        MarketplaceState::Parsed(names) => {
            let mut s = String::from_str("marketplace.json: ");
            s.append(decimal_text(names.len() as u64).as_str());
            s.append(" plugins (");
            s.append(join_names(names).as_str());
            s.append(")");
            push_line(logs, LogEntry::Okay(s));
        },
        MarketplaceState::Corrupt(e) => {
            push_issue(issues, String::from_str("marketplace-json-corrupt"));
            let mut s = String::from_str("marketplace.json 解析失败: ");
            s.append(e.as_str());
            push_line(logs, LogEntry::Fail(s));
        },
        MarketplaceState::Missing => {
            push_issue(issues, String::from_str("marketplace-json-missing"));
            push_line(logs, fail("marketplace.json 缺失"));
        },
    }
    assert(lines(logs@) =~= lines(l0) + marketplace_part(*m).lines);
    assert(codes(issues@) =~= codes(i0) + marketplace_part(*m).codes);
}

fn cache_check(name: &str, c: &CacheState, logs: &mut Vec<LogEntry>, issues: &mut Vec<Issue>)
    ensures
        added(old(logs)@, final(logs)@, old(issues)@, final(issues)@, cache_entry(name@, *c)),
{
    let ghost (l0, i0) = (logs@, issues@);
    reveal(cache_entry);
    if c.latest_exists {
        let mut s = String::from_str(name);
        s.append(": latest -> ");
        s.append(base_name(c.resolved.as_str()).as_str());
        s.append(" scripts=");
        s.append(bool_text(c.has_scripts).as_str());
        s.append(" skills=");
        s.append(bool_text(c.has_skills).as_str());
        push_line(logs, LogEntry::Okay(s));
        if !c.has_scripts {
            let mut code = String::from_str("cache-no-scripts-");
            code.append(name);
            push_issue(issues, code);
        }
        if !c.has_skills {
            let mut code = String::from_str("cache-no-skills-");
            code.append(name);
            push_issue(issues, code);
        }
    } else {
        let mut code = String::from_str("cache-no-latest-");
        code.append(name);
        push_issue(issues, code);
        let mut s = String::from_str(name);
        s.append(": latest 不存在");
        push_line(logs, LogEntry::Fail(s));
    }
    assert(lines(logs@) =~= lines(l0) + cache_entry(name@, *c).lines);
    assert(codes(issues@) =~= codes(i0) + cache_entry(name@, *c).codes);
}

fn host_check(size: Option<u64>, logs: &mut Vec<LogEntry>, issues: &mut Vec<Issue>)
    ensures
        added(old(logs)@, final(logs)@, old(issues)@, final(issues)@, host_part(size)),
{
    let ghost (l0, i0) = (logs@, issues@);
    reveal(host_part);
    push_line(logs, step("检查 extension-host.exe"));
    match size {
        Some(n) => {
            let mut s = String::from_str("extension-host.exe: ");
            s.append(decimal_text(n).as_str());
            s.append(" bytes");
            push_line(logs, LogEntry::Okay(s));
        },
        None => {
            push_issue(issues, String::from_str("extension-host-exe-missing"));
            push_line(logs, fail("extension-host.exe 未找到"));
        },
    }
    assert(lines(logs@) =~= lines(l0) + host_part(size).lines);
    assert(codes(issues@) =~= codes(i0) + host_part(size).codes);
}

fn process_check(count: usize, logs: &mut Vec<LogEntry>, issues: &mut Vec<Issue>)
    ensures
        added(old(logs)@, final(logs)@, old(issues)@, final(issues)@, process_part(count)),
{
    let ghost (l0, i0) = (logs@, issues@);
    reveal(process_part);
    push_line(logs, step("检查运行的插件进程"));
    if count > 0 {
        let mut s = String::from_str("发现 ");
        s.append(decimal_text(count as u64).as_str());
        s.append(" 个插件进程在运行");
        push_line(logs, LogEntry::Info(s));
        push_issue(issues, String::from_str("plugin-processes-running"));
    } else {
        push_line(logs, okay("没有插件进程在运行"));
    }
    assert(lines(logs@) =~= lines(l0) + process_part(count).lines);
    assert(codes(issues@) =~= codes(i0) + process_part(count).codes);
}

fn manifest_check(m: &ManifestState, logs: &mut Vec<LogEntry>, issues: &mut Vec<Issue>)
    ensures
        added(old(logs)@, final(logs)@, old(issues)@, final(issues)@, manifest_part(*m)),
{
    let ghost (l0, i0) = (logs@, issues@);
    reveal(manifest_part);
    push_line(logs, step("检查扩展清单"));
    match m {
        ManifestState::Target { exe, exe_exists } => {
            if *exe_exists {
                push_line(logs, okay("扩展清单有效"));
            } else {
                let mut s = String::from_str("扩展清单指向无效路径: ");
                s.append(exe.as_str());
                push_line(logs, LogEntry::Warn(s));
            }
        },
        ManifestState::Corrupt => {
            push_issue(issues, String::from_str("extension-manifest-corrupt"));
            push_line(logs, fail("扩展清单已损坏"));
        },
        ManifestState::Missing => {
            push_issue(issues, String::from_str("extension-manifest-missing"));
            push_line(logs, warn("扩展清单未找到"));
        },
    }
    assert(lines(logs@) =~= lines(l0) + manifest_part(*m).lines);
    assert(codes(issues@) =~= codes(i0) + manifest_part(*m).codes);
}

fn config_name_check(content: &Vec<char>, name: &str, logs: &mut Vec<LogEntry>, issues: &mut Vec<Issue>)
    ensures
        added(old(logs)@, final(logs)@, old(issues)@, final(issues)@, config_entry(content@, name@)),
{
    let ghost (l0, i0) = (logs@, issues@);
    let pat = chars_of(name);
    if contains_chars(content.as_slice(), pat.as_slice()) {
        let mut s = String::from_str(name);
        s.append(" 已配置");
        push_line(logs, LogEntry::Okay(s));
    } else {
        let mut code = String::from_str("config-missing-");
        code.append(name);
        push_issue(issues, code);
        let mut s = String::from_str(name);
        s.append(" 未配置");
        push_line(logs, LogEntry::Warn(s));
    }
    assert(lines(logs@) =~= lines(l0) + config_entry(content@, name@).lines);
    assert(codes(issues@) =~= codes(i0) + config_entry(content@, name@).codes);
}

fn config_check(config: &Option<String>, logs: &mut Vec<LogEntry>, issues: &mut Vec<Issue>)
    ensures
        added(old(logs)@, final(logs)@, old(issues)@, final(issues)@, config_part(*config)),
{
    let ghost (l0, i0) = (logs@, issues@);
    reveal(config_part);
    push_line(logs, step("检查 config.toml"));
    match config {
        Some(c) => {
            let content = chars_of(c.as_str());
            config_name_check(&content, "computer-use@openai-bundled", logs, issues);
            config_name_check(&content, "chrome@openai-bundled", logs, issues);
            config_name_check(&content, "browser@openai-bundled", logs, issues);
        },
        None => {
            push_line(logs, fail("config.toml 不存在"));
        },
    }
    assert(lines(logs@) =~= lines(l0) + config_part(*config).lines);
    assert(codes(issues@) =~= codes(i0) + config_part(*config).codes);
}

fn source_check(o: &Observations, logs: &mut Vec<LogEntry>, issues: &mut Vec<Issue>)
    ensures
        added(old(logs)@, final(logs)@, old(issues)@, final(issues)@, source_part(*o)),
{
    let ghost (l0, i0) = (logs@, issues@);
    reveal(source_part);
    push_line(logs, step("检查修复源（WindowsApps / 本地缓存）"));
    if o.source_dir_ok {
        if o.source_marketplace_ok {
            push_line(logs, okay("WindowsApps 有完整 marketplace.json（可用作修复源）"));
        } else {
            push_line(logs, warn("WindowsApps 存在但 marketplace.json 缺失"));
        }
    } else {
        push_line(logs, warn("WindowsApps 不可读（非 Store 安装或权限限制）"));
        if o.marketplace_ok {
            push_line(logs, info("本地 marketplace.json 已存在，无需外部修复源"));
        } else if o.plugin_cache_ok {
            push_line(logs, info("插件缓存存在，可作为备用修复源"));
        }
    }
    assert(lines(logs@) =~= lines(l0) + source_part(*o).lines);
    assert(codes(issues@) =~= codes(i0) + source_part(*o).codes);
}

fn run_checks(o: &Observations) -> (r: (Vec<LogEntry>, Vec<Issue>))
    ensures
        lines(r.0@) == checks(*o).lines,
        codes(r.1@) == checks(*o).codes,
{
    let mut logs: Vec<LogEntry> = Vec::new();
    let mut issues: Vec<Issue> = Vec::new();
    push_line(&mut logs, title("=== 开始诊断 ==="));
    let ghost f0 = logged(seq![LogLine::Title("=== 开始诊断 ==="@)]);
    assert(lines(logs@) =~= f0.lines && codes(issues@) =~= f0.codes);
    marketplace_check(&o.marketplace, &mut logs, &mut issues);
    let ghost f1 = followed_by(f0, marketplace_part(o.marketplace));
    push_line(&mut logs, step("检查插件缓存"));
    cache_check("chrome", &o.chrome, &mut logs, &mut issues);
    cache_check("computer-use", &o.computer_use, &mut logs, &mut issues);
    cache_check("browser", &o.browser, &mut logs, &mut issues);
    let ghost f2 = followed_by(f1, cache_part(*o));
    assert(lines(logs@) =~= f2.lines && codes(issues@) =~= f2.codes);
    host_check(o.extension_host_size, &mut logs, &mut issues);
    let ghost f3 = followed_by(f2, host_part(o.extension_host_size));
    process_check(o.plugin_processes, &mut logs, &mut issues);
    let ghost f4 = followed_by(f3, process_part(o.plugin_processes));
    manifest_check(&o.manifest, &mut logs, &mut issues);
    let ghost f5 = followed_by(f4, manifest_part(o.manifest));
    config_check(&o.config, &mut logs, &mut issues);
    let ghost f6 = followed_by(f5, config_part(o.config));
    source_check(o, &mut logs, &mut issues);
    let ghost f7 = followed_by(f6, source_part(*o));
    assert(lines(logs@) =~= f7.lines && codes(issues@) =~= f7.codes);
    assert(f7.lines =~= checks(*o).lines);
    assert(f7.codes =~= checks(*o).codes);
    (logs, issues)
}

fn push_summary(logs: &mut Vec<LogEntry>, issues: &Vec<Issue>)
    ensures
        lines(final(logs)@) == lines(old(logs)@) + summary_lines(codes(issues@)),
{
    let ghost found = lines(logs@);
    let mut s = String::from_str("=== 诊断完成：共 ");
    s.append(decimal_text(issues.len() as u64).as_str());
    s.append(" 个问题 ===");
    push_line(logs, LogEntry::Title(s));
    assert(lines(logs@) =~= found + summary_lines(codes(issues@)).take(1));
    let mut k: usize = 0;
    while k < issues.len()
        invariant
            k <= issues@.len(),
            lines(logs@) == found + summary_lines(codes(issues@)).take(k + 1),
        decreases issues@.len() - k,
    {
        let mut w = String::from_str("  * ");
        w.append(issues[k].0.as_str());
        push_line(logs, LogEntry::Warn(w));
        assert(summary_lines(codes(issues@)).take(k + 2) =~= summary_lines(codes(issues@)).take(k + 1).push(
            LogLine::Warn("  * "@ + issues@[k as int].0@),
        ));
        k = k + 1;
    }
    assert(summary_lines(codes(issues@)).take(issues@.len() + 1int) =~= summary_lines(codes(issues@)));
}

/// Diagnoses from what was observed: the log in the order of the checks, closed
/// by the count and the list of the issues, and the issues themselves.
pub fn run_diagnostics(o: &Observations) -> (r: (Vec<LogEntry>, Vec<Issue>))
    ensures
        lines(r.0@) == diagnosis_lines(*o),
        codes(r.1@) == diagnosis_codes(*o),
{
    let (mut logs, issues) = run_checks(o);
    push_summary(&mut logs, &issues);
    (logs, issues)
}


// ---------------------------------------------------------------------------
// The process issue
// ---------------------------------------------------------------------------

/// The code of the issue that running plugin processes raise.
pub open spec fn process_code() -> Seq<char> {
    "plugin-processes-running"@
}

/// A code that does not start as the process issue's does.
spec fn starts_otherwise(c: Seq<char>) -> bool {
    c.len() > 0 && c[0] != 'p'
}

spec fn all_start_otherwise(cs: Seq<Seq<char>>) -> bool {
    forall|i: int| 0 <= i < cs.len() ==> starts_otherwise(#[trigger] cs[i])
}

proof fn lemma_start_otherwise_concat(a: Seq<Seq<char>>, b: Seq<Seq<char>>)
    requires
        all_start_otherwise(a),
        all_start_otherwise(b),
    ensures
        all_start_otherwise(a + b),
{
    assert forall|i: int| 0 <= i < (a + b).len() implies starts_otherwise(#[trigger] (a + b)[i]) by {
        if i < a.len() {
            assert((a + b)[i] == a[i]);
        } else {
            assert((a + b)[i] == b[i - a.len()]);
        }
    }
}

proof fn lemma_prefixed_starts_otherwise(x: Seq<char>, name: Seq<char>)
    requires
        starts_otherwise(x),
    ensures
        starts_otherwise(x + name),
{
    assert((x + name)[0] == x[0]);
}

proof fn lemma_cache_entry_starts_otherwise(name: Seq<char>, c: CacheState)
    ensures
        all_start_otherwise(cache_entry(name, c).codes),
{
    reveal(cache_entry);
    reveal_strlit("cache-no-scripts-");
    reveal_strlit("cache-no-skills-");
    reveal_strlit("cache-no-latest-");
    lemma_prefixed_starts_otherwise("cache-no-scripts-"@, name);
    lemma_prefixed_starts_otherwise("cache-no-skills-"@, name);
    lemma_prefixed_starts_otherwise("cache-no-latest-"@, name);
    let a: Seq<Seq<char>> = if c.has_scripts { Seq::empty() } else { seq!["cache-no-scripts-"@ + name] };
    let b: Seq<Seq<char>> = if c.has_skills { Seq::empty() } else { seq!["cache-no-skills-"@ + name] };
    lemma_start_otherwise_concat(a, b);
}

/// Every part but the process part raises only codes that start otherwise.
proof fn lemma_other_parts_start_otherwise(o: Observations)
    ensures
        all_start_otherwise(marketplace_part(o.marketplace).codes),
        all_start_otherwise(cache_part(o).codes),
        all_start_otherwise(host_part(o.extension_host_size).codes),
        all_start_otherwise(manifest_part(o.manifest).codes),
        all_start_otherwise(config_part(o.config).codes),
        all_start_otherwise(source_part(o).codes),
{
    reveal(marketplace_part);
    reveal(host_part);
    reveal(manifest_part);
    reveal(config_part);
    reveal(source_part);
    reveal_strlit("marketplace-json-corrupt");
    reveal_strlit("marketplace-json-missing");
    reveal_strlit("extension-host-exe-missing");
    reveal_strlit("extension-manifest-corrupt");
    reveal_strlit("extension-manifest-missing");
    reveal_strlit("config-missing-");
    assert(all_start_otherwise(Seq::<Seq<char>>::empty()));
    lemma_cache_entry_starts_otherwise("chrome"@, o.chrome);
    lemma_cache_entry_starts_otherwise("computer-use"@, o.computer_use);
    lemma_cache_entry_starts_otherwise("browser"@, o.browser);
    lemma_start_otherwise_concat(
        cache_entry("computer-use"@, o.computer_use).codes,
        cache_entry("browser"@, o.browser).codes,
    );
    lemma_start_otherwise_concat(
        cache_entry("chrome"@, o.chrome).codes,
        cache_entry("computer-use"@, o.computer_use).codes + cache_entry("browser"@, o.browser).codes,
    );
    lemma_start_otherwise_concat(
        Seq::empty(),
        cache_entry("chrome"@, o.chrome).codes + (cache_entry("computer-use"@, o.computer_use).codes
            + cache_entry("browser"@, o.browser).codes),
    );
    if let Some(c) = o.config {
        let cu = config_entry(c@, "computer-use@openai-bundled"@).codes;
        let ch = config_entry(c@, "chrome@openai-bundled"@).codes;
        let br = config_entry(c@, "browser@openai-bundled"@).codes;
        lemma_prefixed_starts_otherwise("config-missing-"@, "computer-use@openai-bundled"@);
        lemma_prefixed_starts_otherwise("config-missing-"@, "chrome@openai-bundled"@);
        lemma_prefixed_starts_otherwise("config-missing-"@, "browser@openai-bundled"@);
        assert(all_start_otherwise(cu));
        assert(all_start_otherwise(ch));
        assert(all_start_otherwise(br));
        lemma_start_otherwise_concat(ch, br);
        lemma_start_otherwise_concat(cu, ch + br);
        lemma_start_otherwise_concat(Seq::empty(), cu + (ch + br));
    }
}

/// A diagnosis raises the process issue exactly when it counted a plugin
/// process.
pub proof fn lemma_process_issue_iff_count(o: Observations)
    ensures
        diagnosis_codes(o).contains(process_code()) <==> o.plugin_processes > 0,
{
    reveal(process_part);
    reveal_strlit("plugin-processes-running");
    lemma_other_parts_start_otherwise(o);
    let m = marketplace_part(o.marketplace).codes;
    let c = cache_part(o).codes;
    let h = host_part(o.extension_host_size).codes;
    let p = process_part(o.plugin_processes).codes;
    let rest = manifest_part(o.manifest).codes + (config_part(o.config).codes + source_part(o).codes);
    lemma_start_otherwise_concat(config_part(o.config).codes, source_part(o).codes);
    lemma_start_otherwise_concat(manifest_part(o.manifest).codes, config_part(o.config).codes
        + source_part(o).codes);
    lemma_start_otherwise_concat(c, h);
    lemma_start_otherwise_concat(m, c + h);
    let front = Seq::<Seq<char>>::empty() + (m + (c + h));
    assert(all_start_otherwise(front)) by {
        assert(front =~= m + (c + h));
    }
    let all = diagnosis_codes(o);
    assert(all =~= front + p + rest);
    if o.plugin_processes > 0 {
        assert(p =~= seq![process_code()]);
        assert(all[front.len() as int] == process_code());
    } else {
        assert(p =~= Seq::<Seq<char>>::empty());
        lemma_start_otherwise_concat(front, rest);
        assert(all =~= front + rest);
        if all.contains(process_code()) {
            let k = choose|k: int| 0 <= k < all.len() && #[trigger] all[k] == process_code();
            assert(starts_otherwise(all[k]));
        }
    }
}

/// The diagnosis of a process table raises the process issue exactly when the
/// running test on that table (`is_extension_host_running`) answers yes: both
/// count the processes that `plugin_pids` picks.
pub proof fn lemma_process_issue_matches_running_test(o: Observations, ps: Seq<ProcessInfo>)
    requires
        o.plugin_processes == plugin_pids(ps).len(),
    ensures
        diagnosis_codes(o).contains(process_code()) <==> plugin_pids(ps).len() > 0,
{
    lemma_process_issue_iff_count(o);
}


/// The issues a diagnosis finds do not depend on what it saw of the repair
/// sources (the plugin source in WindowsApps, its marketplace file, the plugin
/// cache, the local marketplace file): those only add log lines. Two
/// observations that agree on everything else give the same issues.
pub proof fn lemma_issues_ignore_repair_sources(o1: Observations, o2: Observations)
    requires
        o1.marketplace == o2.marketplace,
        o1.chrome == o2.chrome,
        o1.computer_use == o2.computer_use,
        o1.browser == o2.browser,
        o1.extension_host_size == o2.extension_host_size,
        o1.plugin_processes == o2.plugin_processes,
        o1.manifest == o2.manifest,
        o1.config == o2.config,
    ensures
        diagnosis_codes(o1) == diagnosis_codes(o2),
{
    reveal(source_part);
    assert(source_part(o1).codes =~= source_part(o2).codes);
    assert(cache_part(o1) == cache_part(o2));
}


// ---------------------------------------------------------------------------
// The cache issues
// ---------------------------------------------------------------------------

/// The start of a cache issue's code, by kind: missing scripts, missing skills,
/// missing `latest` link.
pub open spec fn cache_issue_kind(k: int) -> Seq<char> {
    if k == 0 {
        "cache-no-scripts-"@
    } else if k == 1 {
        "cache-no-skills-"@
    } else {
        "cache-no-latest-"@
    }
}

/// The cached plugins by number: chrome, computer-use, browser.
pub open spec fn cached_plugin(n: int) -> Seq<char> {
    if n == 0 {
        "chrome"@
    } else if n == 1 {
        "computer-use"@
    } else {
        "browser"@
    }
}

/// What was observed of cached plugin `n`.
pub open spec fn cache_state_of(o: Observations, n: int) -> CacheState {
    if n == 0 {
        o.chrome
    } else if n == 1 {
        o.computer_use
    } else {
        o.browser
    }
}

/// Whether the cache issue of kind `k` holds for a plugin's cache: scripts or
/// skills are missing behind an existing link, or the link is missing.
pub open spec fn cache_issue_holds(c: CacheState, k: int) -> bool {
    if k == 0 {
        c.latest_exists && !c.has_scripts
    } else if k == 1 {
        c.latest_exists && !c.has_skills
    } else {
        !c.latest_exists
    }
}

/// A code that does not start with `ca`, as every cache issue's code does.
spec fn not_cache_code(c: Seq<char>) -> bool {
    c.len() < 2 || c[0] != 'c' || c[1] != 'a'
}

spec fn all_not_cache(cs: Seq<Seq<char>>) -> bool {
    forall|i: int| 0 <= i < cs.len() ==> not_cache_code(#[trigger] cs[i])
}

proof fn lemma_not_cache_concat(a: Seq<Seq<char>>, b: Seq<Seq<char>>)
    requires
        all_not_cache(a),
        all_not_cache(b),
    ensures
        all_not_cache(a + b),
{
    assert forall|i: int| 0 <= i < (a + b).len() implies not_cache_code(#[trigger] (a + b)[i]) by {
        if i < a.len() {
            assert((a + b)[i] == a[i]);
        } else {
            assert((a + b)[i] == b[i - a.len()]);
        }
    }
}

proof fn lemma_contains_concat(a: Seq<Seq<char>>, b: Seq<Seq<char>>, x: Seq<char>)
    ensures
        (a + b).contains(x) <==> (a.contains(x) || b.contains(x)),
{
    if (a + b).contains(x) {
        let i = choose|i: int| 0 <= i < (a + b).len() && (a + b)[i] == x;
        if i < a.len() {
            assert(a[i] == x);
        } else {
            assert(b[i - a.len()] == x);
        }
    }
    if a.contains(x) {
        let i = choose|i: int| 0 <= i < a.len() && a[i] == x;
        assert((a + b)[i] == x);
    }
    if b.contains(x) {
        let i = choose|i: int| 0 <= i < b.len() && b[i] == x;
        assert((a + b)[a.len() + i] == x);
    }
}

proof fn lemma_cache_code_facts(k: int, n: int)
    requires
        0 <= k < 3,
        0 <= n < 3,
    ensures
        (cache_issue_kind(k) + cached_plugin(n)).len() == cache_issue_kind(k).len() + cached_plugin(n).len(),
        (cache_issue_kind(k) + cached_plugin(n))[0] == 'c',
        (cache_issue_kind(k) + cached_plugin(n))[1] == 'a',
        (cache_issue_kind(k) + cached_plugin(n))[10] == (if k == 0 { 'c' } else if k == 1 { 'k' } else { 'a' }),
        cache_issue_kind(k).len() == (if k == 0 { 17int } else { 16int }),
        cached_plugin(n).len() == (if n == 0 { 6int } else if n == 1 { 12int } else { 7int }),
{
    reveal_strlit("cache-no-scripts-");
    reveal_strlit("cache-no-skills-");
    reveal_strlit("cache-no-latest-");
    reveal_strlit("chrome");
    reveal_strlit("computer-use");
    reveal_strlit("browser");
    let c = cache_issue_kind(k) + cached_plugin(n);
    assert(c[0] == cache_issue_kind(k)[0]);
    assert(c[1] == cache_issue_kind(k)[1]);
    assert(c[10] == cache_issue_kind(k)[10]);
}

/// Two cache issue codes are the same only for the same kind and plugin.
proof fn lemma_cache_code_injective(k1: int, n1: int, k2: int, n2: int)
    requires
        0 <= k1 < 3,
        0 <= n1 < 3,
        0 <= k2 < 3,
        0 <= n2 < 3,
        cache_issue_kind(k1) + cached_plugin(n1) == cache_issue_kind(k2) + cached_plugin(n2),
    ensures
        k1 == k2,
        n1 == n2,
{
    lemma_cache_code_facts(k1, n1);
    lemma_cache_code_facts(k2, n2);
}

proof fn lemma_cache_entry_holds(j: int, c: CacheState, k: int, n: int)
    requires
        0 <= j < 3,
        0 <= k < 3,
        0 <= n < 3,
    ensures
        cache_entry(cached_plugin(j), c).codes.contains(cache_issue_kind(k) + cached_plugin(n)) <==> (j == n
            && cache_issue_holds(c, k)),
{
    reveal(cache_entry);
    let t = cache_issue_kind(k) + cached_plugin(n);
    let e = cache_entry(cached_plugin(j), c).codes;
    let s0 = cache_issue_kind(0) + cached_plugin(j);
    let s1 = cache_issue_kind(1) + cached_plugin(j);
    let s2 = cache_issue_kind(2) + cached_plugin(j);
    if e.contains(t) {
        let i = choose|i: int| 0 <= i < e.len() && e[i] == t;
        if c.latest_exists {
            let a: Seq<Seq<char>> = if c.has_scripts { Seq::empty() } else { seq![s0] };
            let b: Seq<Seq<char>> = if c.has_skills { Seq::empty() } else { seq![s1] };
            assert(e == a + b);
            if i < a.len() {
                assert(a[i] == s0);
                lemma_cache_code_injective(k, n, 0, j);
            } else {
                assert(b[i - a.len()] == s1);
                lemma_cache_code_injective(k, n, 1, j);
            }
        } else {
            assert(e[i] == s2);
            lemma_cache_code_injective(k, n, 2, j);
        }
    }
    if j == n && cache_issue_holds(c, k) {
        if k == 0 {
            assert(e[0] == t);
        } else if k == 1 {
            if c.has_scripts {
                assert(e[0] == t);
            } else {
                assert(e[1] == t);
            }
        } else {
            assert(e[0] == t);
        }
    }
}

/// The parts other than the cache part raise no code that starts with `ca`.
proof fn lemma_other_parts_not_cache(o: Observations)
    ensures
        all_not_cache(marketplace_part(o.marketplace).codes),
        all_not_cache(host_part(o.extension_host_size).codes),
        all_not_cache(process_part(o.plugin_processes).codes),
        all_not_cache(manifest_part(o.manifest).codes),
        all_not_cache(config_part(o.config).codes),
        all_not_cache(source_part(o).codes),
{
    reveal(marketplace_part);
    reveal(host_part);
    reveal(process_part);
    reveal(manifest_part);
    reveal(config_part);
    reveal(source_part);
    reveal_strlit("marketplace-json-corrupt");
    reveal_strlit("marketplace-json-missing");
    reveal_strlit("extension-host-exe-missing");
    reveal_strlit("plugin-processes-running");
    reveal_strlit("extension-manifest-corrupt");
    reveal_strlit("extension-manifest-missing");
    reveal_strlit("config-missing-");
    assert(all_not_cache(Seq::<Seq<char>>::empty()));
    if let Some(c) = o.config {
        let x = "config-missing-"@;
        let cu = config_entry(c@, "computer-use@openai-bundled"@).codes;
        let ch = config_entry(c@, "chrome@openai-bundled"@).codes;
        let br = config_entry(c@, "browser@openai-bundled"@).codes;
        assert((x + "computer-use@openai-bundled"@)[1] == x[1]);
        assert((x + "chrome@openai-bundled"@)[1] == x[1]);
        assert((x + "browser@openai-bundled"@)[1] == x[1]);
        assert(all_not_cache(cu));
        assert(all_not_cache(ch));
        assert(all_not_cache(br));
        lemma_not_cache_concat(ch, br);
        lemma_not_cache_concat(cu, ch + br);
        lemma_not_cache_concat(Seq::empty(), cu + (ch + br));
    }
}

/// For each cached plugin (chrome, computer-use, browser) the diagnosis raises
/// `cache-no-scripts-<plugin>` exactly when its `latest` link exists and the
/// version has no scripts, `cache-no-skills-<plugin>` exactly when the link
/// exists and the version has no skills, each whatever the other flag, and
/// `cache-no-latest-<plugin>` exactly when the link is missing.
pub proof fn lemma_cache_issues(o: Observations, k: int, n: int)
    requires
        0 <= k < 3,
        0 <= n < 3,
    ensures
        diagnosis_codes(o).contains(cache_issue_kind(k) + cached_plugin(n)) <==> cache_issue_holds(
            cache_state_of(o, n),
            k,
        ),
{
    let t = cache_issue_kind(k) + cached_plugin(n);
    lemma_cache_code_facts(k, n);
    lemma_other_parts_not_cache(o);
    let m = marketplace_part(o.marketplace).codes;
    let c = cache_part(o).codes;
    let h = host_part(o.extension_host_size).codes;
    let p = process_part(o.plugin_processes).codes;
    let mn = manifest_part(o.manifest).codes;
    let cf = config_part(o.config).codes;
    let sr = source_part(o).codes;
    let rest = h + (p + (mn + (cf + sr)));
    lemma_not_cache_concat(cf, sr);
    lemma_not_cache_concat(mn, cf + sr);
    lemma_not_cache_concat(p, mn + (cf + sr));
    lemma_not_cache_concat(h, p + (mn + (cf + sr)));
    let all = diagnosis_codes(o);
    assert(all =~= m + (c + rest));
    if m.contains(t) {
        let i = choose|i: int| 0 <= i < m.len() && m[i] == t;
        assert(not_cache_code(m[i]));
    }
    if rest.contains(t) {
        let i = choose|i: int| 0 <= i < rest.len() && rest[i] == t;
        assert(not_cache_code(rest[i]));
    }
    lemma_contains_concat(m, c + rest, t);
    lemma_contains_concat(c, rest, t);
    let e0 = cache_entry(cached_plugin(0), o.chrome).codes;
    let e1 = cache_entry(cached_plugin(1), o.computer_use).codes;
    let e2 = cache_entry(cached_plugin(2), o.browser).codes;
    assert(c =~= e0 + (e1 + e2));
    lemma_contains_concat(e0, e1 + e2, t);
    lemma_contains_concat(e1, e2, t);
    lemma_cache_entry_holds(0, o.chrome, k, n);
    lemma_cache_entry_holds(1, o.computer_use, k, n);
    lemma_cache_entry_holds(2, o.browser, k, n);
}

} // verus!
