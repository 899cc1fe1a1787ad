//! The window's state and what each of its controls does to it. The program
//! draws the window and runs the diagnosis and the repair on threads; every
//! decision about the state is made here.
use vstd::prelude::*;
use crate::log::{LogEntry, LogLine, Issue, lines, codes, lemma_lines_push, info};
use crate::paths::{DetectedPaths, PathField, PathInputs, lemma_inputs_round_trip};
use crate::text::{chars_of, same_chars};

verus! {

/// A copy of the paths.
pub fn copy_paths(p: &DetectedPaths) -> (r: DetectedPaths)
    ensures
        r == *p,
{
    DetectedPaths {
        codex_home: p.codex_home.clone(),
        bundled_tmp_root: p.bundled_tmp_root.clone(),
        marketplace_json: p.marketplace_json.clone(),
        plugin_cache_root: p.plugin_cache_root.clone(),
        cache_chrome_latest: p.cache_chrome_latest.clone(),
        cache_computer_use_latest: p.cache_computer_use_latest.clone(),
        cache_browser_latest: p.cache_browser_latest.clone(),
        windowsapps_source: p.windowsapps_source.clone(),
        extension_manifest: p.extension_manifest.clone(),
        config_toml: p.config_toml.clone(),
        extension_host_exe: p.extension_host_exe.clone(),
        native_hosts: p.native_hosts.clone(),
        backup_root: p.backup_root.clone(),
    }
}

/// A copy of a list of issues.
pub fn copy_issues(v: &Vec<Issue>) -> (r: Vec<Issue>)
    ensures
        r@ == v@,
{
    let mut r: Vec<Issue> = Vec::new();
    let mut i: usize = 0;
    while i < v.len()
        invariant
            i <= v@.len(),
            r@ == v@.take(i as int),
        decreases v@.len() - i,
    {
        r.push(Issue(v[i].0.clone()));
        assert(v@.take(i + 1) =~= v@.take(i as int).push(v@[i as int]));
        i = i + 1;
    }
    assert(v@.take(v@.len() as int) =~= v@);
    r
}

/// Whether the diagnosis found the marketplace file missing.
pub fn marketplace_missing(issues: &Vec<Issue>) -> (r: bool)
    ensures
        r == codes(issues@).contains("marketplace-json-missing"@),
{
    let code = chars_of("marketplace-json-missing");
    let mut i: usize = 0;
    while i < issues.len()
        invariant
            i <= issues@.len(),
            code@ == "marketplace-json-missing"@,
            forall|k: int| 0 <= k < i ==> codes(issues@)[k] != code@,
        decreases issues@.len() - i,
    {
        let c = chars_of(issues[i].0.as_str());
        if same_chars(c.as_slice(), code.as_slice()) {
            assert(codes(issues@)[i as int] == code@);
            return true;
        }
        i = i + 1;
    }
    false
}

/// The state of the window.
pub struct AppState {
    pub paths: DetectedPaths,
    pub logs: Vec<LogEntry>,
    pub issues: Vec<Issue>,
    pub diagnose_running: bool,
    pub repair_running: bool,
    pub inputs: PathInputs,
}

impl AppState {
    /// The log shown holds no end marker: that line only ends a repair.
    pub open spec fn no_end_marker(&self) -> bool {
        !lines(self.logs@).contains(LogLine::Plain)
    }

    /// The window as it opens on the detected paths: no log, no issues, nothing
    /// running, and the inputs filled from the paths.
    pub fn new(detected: DetectedPaths) -> (r: AppState)
        ensures
            r.paths == detected,
            r.logs@.len() == 0,
            r.issues@.len() == 0,
            !r.diagnose_running,
            !r.repair_running,
            forall|f: PathField| #[trigger] r.inputs.value(f) == f.of(detected),
            r.no_end_marker(),
    {
        let inputs = PathInputs::from_paths(&detected);
        AppState {
            paths: detected,
            logs: Vec::new(),
            issues: Vec::new(),
            diagnose_running: false,
            repair_running: false,
            inputs,
        }
    }

    /// The label of the diagnose button.
    pub fn diagnose_label(&self) -> (r: &'static str)
        ensures
            r@ == (if self.diagnose_running { "⏳ 诊断中..."@ } else { "🔍 诊断"@ }),
    {
        if self.diagnose_running { "⏳ 诊断中..." } else { "🔍 诊断" }
    }

    /// The label of the repair button.
    pub fn repair_label(&self) -> (r: &'static str)
        ensures
            r@ == (if self.repair_running { "⏳ 修复中..."@ } else { "🔧 修复"@ }),
    {
        if self.repair_running { "⏳ 修复中..." } else { "🔧 修复" }
    }

    /// The refresh button: the newly detected paths replace the paths and the
    /// inputs, and the log notes it.
    pub fn refresh(&mut self, detected: DetectedPaths)
        ensures
            final(self).paths == detected,
            forall|f: PathField| #[trigger] final(self).inputs.value(f) == f.of(detected),
            lines(final(self).logs@) == lines(old(self).logs@).push(LogLine::Info("路径已刷新"@)),
            final(self).issues == old(self).issues,
            final(self).diagnose_running == old(self).diagnose_running,
            final(self).repair_running == old(self).repair_running,
            old(self).no_end_marker() ==> final(self).no_end_marker(),
    {
        proof {
            lemma_concat_without_end_marker(lines(self.logs@), seq![LogLine::Info("路径已刷新"@)]);
            assert(lines(self.logs@).push(LogLine::Info("路径已刷新"@)) =~= lines(self.logs@) + seq![
                LogLine::Info("路径已刷新"@),
            ]);
        }
        self.inputs = PathInputs::from_paths(&detected);
        self.paths = detected;
        let e = info("路径已刷新");
        proof {
            lemma_lines_push(self.logs@, e);
        }
        self.logs.push(e);
    }

    /// An edit of one input.
    pub fn edit(&mut self, f: PathField, v: String)
        ensures
            final(self).inputs.value(f) == v,
            forall|g: PathField| g != f ==> #[trigger] final(self).inputs.value(g) == old(self).inputs.value(g),
            final(self).paths == old(self).paths,
            final(self).logs == old(self).logs,
            final(self).issues == old(self).issues,
            final(self).diagnose_running == old(self).diagnose_running,
            final(self).repair_running == old(self).repair_running,
            old(self).no_end_marker() ==> final(self).no_end_marker(),
    {
        self.inputs.set(f, v);
    }

    /// The diagnose button. While a diagnosis runs it does nothing. Otherwise the
    /// log and the issues are cleared, the inputs are taken as the paths, and the
    /// paths to diagnose are handed back.
    pub fn click_diagnose(&mut self) -> (r: Option<DetectedPaths>)
        ensures
            old(self).diagnose_running ==> r is None && *final(self) == *old(self),
            !old(self).diagnose_running ==> {
                &&& final(self).diagnose_running
                &&& final(self).logs@.len() == 0
                &&& final(self).issues@.len() == 0
                &&& final(self).paths == old(self).inputs.applied(old(self).paths)
                &&& r == Some(final(self).paths)
                &&& final(self).inputs == old(self).inputs
                &&& final(self).repair_running == old(self).repair_running
            },
            old(self).no_end_marker() ==> final(self).no_end_marker(),
    {
        if self.diagnose_running {
            return None;
        }
        self.diagnose_running = true;
        self.logs.clear();
        self.issues.clear();
        assert(lines(self.logs@) =~= Seq::<LogLine>::empty());
        self.inputs.apply_to(&mut self.paths);
        Some(copy_paths(&self.paths))
    }

    /// The repair button. It starts a repair only when none runs and the last
    /// diagnosis found issues; it hands back the paths and the issues to repair.
    pub fn click_repair(&mut self) -> (r: Option<(DetectedPaths, Vec<Issue>)>)
        ensures
            (old(self).repair_running || old(self).issues@.len() == 0) ==> r is None && *final(self)
                == *old(self),
            (!old(self).repair_running && old(self).issues@.len() > 0) ==> {
                &&& final(self).repair_running
                &&& r matches Some((p, i)) && p == old(self).paths && i@ == old(self).issues@
                &&& final(self).paths == old(self).paths
                &&& final(self).logs == old(self).logs
                &&& final(self).issues == old(self).issues
                &&& final(self).inputs == old(self).inputs
                &&& final(self).diagnose_running == old(self).diagnose_running
            },
            old(self).no_end_marker() ==> final(self).no_end_marker(),
    {
        if self.repair_running || self.issues.len() == 0 {
            return None;
        }
        self.repair_running = true;
        Some((copy_paths(&self.paths), copy_issues(&self.issues)))
    }

    /// A diagnosis has finished: its log, but for any end marker, and its issues
    /// replace the shown ones.
    pub fn diagnosis_done(&mut self, logs: Vec<LogEntry>, issues: Vec<Issue>)
        ensures
            lines(final(self).logs@) == shown_lines(lines(logs@)),
            !lines(logs@).contains(LogLine::Plain) ==> lines(final(self).logs@) == lines(logs@),
            final(self).issues == issues,
            !final(self).diagnose_running,
            final(self).paths == old(self).paths,
            final(self).inputs == old(self).inputs,
            final(self).repair_running == old(self).repair_running,
            final(self).no_end_marker(),
    {
        let mut shown: Vec<LogEntry> = Vec::new();
        assert(lines(shown@) =~= Seq::<LogLine>::empty());
        push_shown(&mut shown, &logs);
        assert(Seq::<LogLine>::empty() + shown_lines(lines(logs@)) =~= shown_lines(lines(logs@)));
        proof {
            lemma_shown_lines_without_end_marker(lines(logs@));
        }
        self.logs = shown;
        self.issues = issues;
        self.diagnose_running = false;
    }

    /// Lines from a running repair: each is shown except the end marker, which
    /// ends the repair.
    pub fn repair_progress(&mut self, entries: Vec<LogEntry>)
        ensures
            lines(final(self).logs@) == lines(old(self).logs@) + shown_lines(lines(entries@)),
            final(self).repair_running == (old(self).repair_running && !lines(entries@).contains(LogLine::Plain)),
            final(self).paths == old(self).paths,
            final(self).issues == old(self).issues,
            final(self).inputs == old(self).inputs,
            final(self).diagnose_running == old(self).diagnose_running,
            old(self).no_end_marker() ==> final(self).no_end_marker(),
    {
        proof {
            lemma_shown_lines_without_end_marker(lines(entries@));
            lemma_concat_without_end_marker(lines(self.logs@), shown_lines(lines(entries@)));
        }
        let done = push_shown(&mut self.logs, &entries);
        if done {
            self.repair_running = false;
        }
    }
}

/// Appends the lines of `entries` to `dst`, leaving out end markers; tells
/// whether there was one.
fn push_shown(dst: &mut Vec<LogEntry>, entries: &Vec<LogEntry>) -> (done: bool)
    ensures
        lines(final(dst)@) == lines(old(dst)@) + shown_lines(lines(entries@)),
        done == lines(entries@).contains(LogLine::Plain),
{
    let mut done = false;
    let mut i: usize = 0;
    let ghost l0 = lines(dst@);
    let ghost es = lines(entries@);
    assert(es.take(0) =~= Seq::<LogLine>::empty());
    assert(l0 + shown_lines(Seq::<LogLine>::empty()) =~= l0);
    while i < entries.len()
        invariant
            i <= entries@.len(),
            es == lines(entries@),
            lines(dst@) == l0 + shown_lines(es.take(i as int)),
            done == es.take(i as int).contains(LogLine::Plain),
        decreases entries@.len() - i,
    {
        let e = entries[i].clone_entry();
        assert(es.take(i + 1) =~= es.take(i as int).push(es[i as int]));
        assert(es[i as int] == e@);
        assert(es.take(i + 1).drop_last() =~= es.take(i as int));
        assert(es.take(i + 1).last() == e@);
        if e.is_plain() {
            done = true;
            assert(es.take(i + 1).contains(LogLine::Plain)) by {
                assert(es.take(i + 1)[i as int] == LogLine::Plain);
            }
        } else {
            proof {
                lemma_lines_push(dst@, e);
                let t1 = es.take(i + 1);
                let t0 = es.take(i as int);
                if t1.contains(LogLine::Plain) {
                    let k = choose|k: int| 0 <= k < t1.len() && #[trigger] t1[k] == LogLine::Plain;
                    assert(k < i);
                    assert(t0[k] == LogLine::Plain);
                }
            }
            dst.push(e);
            assert(lines(dst@) =~= l0 + shown_lines(es.take(i + 1)));
        }
        i = i + 1;
    }
    assert(es.take(entries@.len() as int) =~= es);
    done
}

/// Shown lines hold no end marker, and lines without one are all shown.
proof fn lemma_shown_lines_without_end_marker(l: Seq<LogLine>)
    ensures
        !shown_lines(l).contains(LogLine::Plain),
        !l.contains(LogLine::Plain) ==> shown_lines(l) == l,
    decreases l.len(),
{
    if l.len() > 0 {
        lemma_shown_lines_without_end_marker(l.drop_last());
        let d = l.drop_last();
        if l.last() is Plain {
            if !l.contains(LogLine::Plain) {
                assert(l[l.len() - 1] == LogLine::Plain);
            }
        } else {
            let r = shown_lines(d).push(l.last());
            if r.contains(LogLine::Plain) {
                let k = choose|k: int| 0 <= k < r.len() && #[trigger] r[k] == LogLine::Plain;
                assert(shown_lines(d)[k] == LogLine::Plain);
            }
            if !l.contains(LogLine::Plain) {
                if d.contains(LogLine::Plain) {
                    let k = choose|k: int| 0 <= k < d.len() && #[trigger] d[k] == LogLine::Plain;
                    assert(l[k] == LogLine::Plain);
                }
                assert(d.push(l.last()) =~= l);
            }
        }
    }
}

/// Two runs of lines without an end marker make one without.
proof fn lemma_concat_without_end_marker(a: Seq<LogLine>, b: Seq<LogLine>)
    ensures
        !a.contains(LogLine::Plain) && !b.contains(LogLine::Plain) ==> !(a + b).contains(LogLine::Plain),
{
    if !a.contains(LogLine::Plain) && !b.contains(LogLine::Plain) && (a + b).contains(LogLine::Plain) {
        let k = choose|k: int| 0 <= k < (a + b).len() && #[trigger] (a + b)[k] == LogLine::Plain;
        if k < a.len() {
            assert(a[k] == LogLine::Plain);
        } else {
            assert(b[k - a.len()] == LogLine::Plain);
        }
    }
}

/// The lines of `l` that are shown, the end marker left out.
pub open spec fn shown_lines(l: Seq<LogLine>) -> Seq<LogLine>
    decreases l.len(),
{
    if l.len() == 0 {
        Seq::empty()
    } else if l.last() is Plain {
        shown_lines(l.drop_last())
    } else {
        shown_lines(l.drop_last()).push(l.last())
    }
}

impl LogEntry {
    /// A copy of the line.
    pub fn clone_entry(&self) -> (r: LogEntry)
        ensures
            r@ == self@,
    {
        match self {
            LogEntry::Plain => LogEntry::Plain,
            LogEntry::Title(s) => LogEntry::Title(s.clone()),
            LogEntry::Step(s) => LogEntry::Step(s.clone()),
            LogEntry::Okay(s) => LogEntry::Okay(s.clone()),
            LogEntry::Fail(s) => LogEntry::Fail(s.clone()),
            LogEntry::Warn(s) => LogEntry::Warn(s.clone()),
            LogEntry::Info(s) => LogEntry::Info(s.clone()),
        }
    }
}

/// Editing nothing and then diagnosing works on the paths the window opened
/// with: the fresh inputs carry the detected paths unchanged.
pub proof fn lemma_fresh_diagnosis_uses_detected(s: AppState, detected: DetectedPaths)
    requires
        s.paths == detected,
        forall|f: PathField| #[trigger] s.inputs.value(f) == f.of(detected),
    ensures
        s.inputs.applied(s.paths) == detected,
{
    lemma_inputs_round_trip(detected, s.inputs);
}

} // verus!
