//! The log the tool writes for the user, and the issues a diagnosis finds.
use vstd::prelude::*;
use crate::text::concat2;

verus! {

/// One line of the log. `Plain` carries no text: it marks the end of a repair.
#[derive(Clone, Debug)]
pub enum LogEntry {
    Plain,
    Title(String),
    Step(String),
    Okay(String),
    Fail(String),
    Warn(String),
    Info(String),
}

/// A log line as text.
pub enum LogLine {
    Plain,
    Title(Seq<char>),
    Step(Seq<char>),
    Okay(Seq<char>),
    Fail(Seq<char>),
    Warn(Seq<char>),
    Info(Seq<char>),
}

impl View for LogEntry {
    type V = LogLine;

    open spec fn view(&self) -> LogLine {
        match self {
            LogEntry::Plain => LogLine::Plain,
            LogEntry::Title(s) => LogLine::Title(s@),
            LogEntry::Step(s) => LogLine::Step(s@),
            LogEntry::Okay(s) => LogLine::Okay(s@),
            LogEntry::Fail(s) => LogLine::Fail(s@),
            LogEntry::Warn(s) => LogLine::Warn(s@),
            LogEntry::Info(s) => LogLine::Info(s@),
        }
    }
}

/// The lines of a log.
pub open spec fn lines(v: Seq<LogEntry>) -> Seq<LogLine> {
    v.map_values(|e: LogEntry| e@)
}

/// Lines pushed one after another extend the log line by line.
pub proof fn lemma_lines_push(v: Seq<LogEntry>, e: LogEntry)
    ensures
        lines(v.push(e)) == lines(v).push(e@),
{
    assert(lines(v.push(e)) =~= lines(v).push(e@));
}

/// The lines of two logs one after the other.
pub proof fn lemma_lines_add(a: Seq<LogEntry>, b: Seq<LogEntry>)
    ensures
        lines(a + b) == lines(a) + lines(b),
{
    assert(lines(a + b) =~= lines(a) + lines(b));
}

/// A problem that a diagnosis found, named by a short code.
#[derive(Clone, Debug)]
pub struct Issue(pub String);

/// The codes of a list of issues.
pub open spec fn codes(v: Seq<Issue>) -> Seq<Seq<char>> {
    v.map_values(|i: Issue| i.0@)
}

/// How the window colours a line.
#[derive(Clone, Copy, Debug, PartialEq, Eq)]
pub enum LineColor {
    Blue,
    Green,
    Red,
    Orange,
}

/// The text the window shows for a line; `None` for the end marker.
pub open spec fn shown_text(l: LogLine) -> Option<Seq<char>> {
    match l {
        LogLine::Plain => None,
        LogLine::Title(s) => Some(s),
        LogLine::Step(s) => Some(s),
        LogLine::Okay(s) => Some("  [OK]    "@ + s),
        LogLine::Fail(s) => Some("  [FAIL]  "@ + s),
        LogLine::Warn(s) => Some("  [WARN]  "@ + s),
        LogLine::Info(s) => Some("  [INFO]  "@ + s),
    }
}

/// The colour the window shows a line in.
pub open spec fn shown_color(l: LogLine) -> LineColor {
    match l {
        LogLine::Okay(_) => LineColor::Green,
        LogLine::Fail(_) => LineColor::Red,
        LogLine::Warn(_) => LineColor::Orange,
        _ => LineColor::Blue,
    }
}

impl LogEntry {
    /// The text and colour the window shows for this line, or `None` for the end
    /// marker, which is never shown.
    pub fn display(&self) -> (r: Option<(String, LineColor)>)
        ensures
            match r {
                Some((t, c)) => shown_text(self@) == Some(t@) && c == shown_color(self@),
                None => shown_text(self@) is None,
            },
    {
        match self {
            LogEntry::Plain => None,
            LogEntry::Title(s) => Some((s.clone(), LineColor::Blue)),
            LogEntry::Step(s) => Some((s.clone(), LineColor::Blue)),
            LogEntry::Okay(s) => Some((concat2("  [OK]    ", s.as_str()), LineColor::Green)),
            LogEntry::Fail(s) => Some((concat2("  [FAIL]  ", s.as_str()), LineColor::Red)),
            LogEntry::Warn(s) => Some((concat2("  [WARN]  ", s.as_str()), LineColor::Orange)),
            LogEntry::Info(s) => Some((concat2("  [INFO]  ", s.as_str()), LineColor::Blue)),
        }
    }

    /// Whether this is the end marker of a repair.
    pub fn is_plain(&self) -> (r: bool)
        ensures
            r == (self@ is Plain),
    {
        match self {
            LogEntry::Plain => true,
            _ => false,
        }
    }
}

/// A title line.
pub fn title(s: &str) -> (r: LogEntry)
    ensures
        r@ == LogLine::Title(s@),
{
    LogEntry::Title(String::from_str(s))
}

/// A step line.
pub fn step(s: &str) -> (r: LogEntry)
    ensures
        r@ == LogLine::Step(s@),
{
    LogEntry::Step(String::from_str(s))
}

/// A success line.
pub fn okay(s: &str) -> (r: LogEntry)
    ensures
        r@ == LogLine::Okay(s@),
{
    LogEntry::Okay(String::from_str(s))
}

/// A failure line.
pub fn fail(s: &str) -> (r: LogEntry)
    ensures
        r@ == LogLine::Fail(s@),
{
    LogEntry::Fail(String::from_str(s))
}

/// A warning line.
pub fn warn(s: &str) -> (r: LogEntry)
    ensures
        r@ == LogLine::Warn(s@),
{
    LogEntry::Warn(String::from_str(s))
}

/// An information line.
pub fn info(s: &str) -> (r: LogEntry)
    ensures
        r@ == LogLine::Info(s@),
{
    LogEntry::Info(String::from_str(s))
}

} // verus!
