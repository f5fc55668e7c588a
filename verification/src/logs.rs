//! The in-app console log: levels, a bounded store of entries and the rules of the log viewer.

use vstd::prelude::*;
use crate::text::{str_eq, concat, padded, padded_text};

verus! {

/// Severity of a log entry, from the least to the most severe.
#[derive(Debug, Clone, Copy, PartialEq, Eq, Structural)]
pub enum LogLevel {
    Debug,
    Log,
    Info,
    Warn,
    Error,
}

/// The position of a level in the order of severity.
pub open spec fn level_rank(l: LogLevel) -> nat {
    match l {
        LogLevel::Debug => 0,
        LogLevel::Log => 1,
        LogLevel::Info => 2,
        LogLevel::Warn => 3,
        LogLevel::Error => 4,
    }
}

/// The label of a level.
pub open spec fn level_name(l: LogLevel) -> Seq<char> {
    match l {
        LogLevel::Debug => "DEBUG"@,
        LogLevel::Log => "LOG"@,
        LogLevel::Info => "INFO"@,
        LogLevel::Warn => "WARN"@,
        LogLevel::Error => "ERROR"@,
    }
}

/// The label of a level in lower case, as style classes use it.
pub open spec fn level_css(l: LogLevel) -> Seq<char> {
    match l {
        LogLevel::Debug => "debug"@,
        LogLevel::Log => "log"@,
        LogLevel::Info => "info"@,
        LogLevel::Warn => "warn"@,
        LogLevel::Error => "error"@,
    }
}

/// The display colour of a level.
pub open spec fn level_color(l: LogLevel) -> Seq<char> {
    match l {
        LogLevel::Debug => "#6e7681"@,
        LogLevel::Log => "#c9d1d9"@,
        LogLevel::Info => "#58a6ff"@,
        LogLevel::Warn => "#d29922"@,
        LogLevel::Error => "#ff7b72"@,
    }
}

/// The level that a console method name denotes; unknown names log at `Log`.
pub open spec fn console_level_spec(name: Seq<char>) -> LogLevel {
    if name == "DEBUG"@ {
        LogLevel::Debug
    } else if name == "INFO"@ {
        LogLevel::Info
    } else if name == "WARN"@ {
        LogLevel::Warn
    } else if name == "ERROR"@ {
        LogLevel::Error
    } else {
        LogLevel::Log
    }
}

impl LogLevel {
    /// The position of the level in the order of severity.
    pub fn rank(&self) -> (r: u8)
        ensures
            r == level_rank(*self),
    {
        match self {
            LogLevel::Debug => 0,
            LogLevel::Log => 1,
            LogLevel::Info => 2,
            LogLevel::Warn => 3,
            LogLevel::Error => 4,
        }
    }

    /// Whether this level is at least as severe as `min`.
    pub fn at_least(&self, min: LogLevel) -> (r: bool)
        ensures
            r == (level_rank(*self) >= level_rank(min)),
    {
        self.rank() >= min.rank()
    }

    /// The label of the level.
    pub fn as_str(&self) -> (r: &'static str)
        ensures
            r@ == level_name(*self),
    {
        match self {
            LogLevel::Debug => "DEBUG",
            LogLevel::Log => "LOG",
            LogLevel::Info => "INFO",
            LogLevel::Warn => "WARN",
            LogLevel::Error => "ERROR",
        }
    }

    /// The label of the level in lower case.
    pub fn css_name(&self) -> (r: &'static str)
        ensures
            r@ == level_css(*self),
    {
        match self {
            LogLevel::Debug => "debug",
            LogLevel::Log => "log",
            LogLevel::Info => "info",
            LogLevel::Warn => "warn",
            LogLevel::Error => "error",
        }
    }

    /// The display colour of the level.
    pub fn color(&self) -> (r: &'static str)
        ensures
            r@ == level_color(*self),
    {
        match self {
            LogLevel::Debug => "#6e7681",
            LogLevel::Log => "#c9d1d9",
            LogLevel::Info => "#58a6ff",
            LogLevel::Warn => "#d29922",
            LogLevel::Error => "#ff7b72",
        }
    }
}

/// The level of a message captured from a console method (`DEBUG`, `INFO`,
/// `WARN`, `ERROR`; anything else is a plain `LOG`).
pub fn console_level(name: &str) -> (r: LogLevel)
    ensures
        r == console_level_spec(name@),
{
    if str_eq(name, "DEBUG") {
        LogLevel::Debug
    } else if str_eq(name, "INFO") {
        LogLevel::Info
    } else if str_eq(name, "WARN") {
        LogLevel::Warn
    } else if str_eq(name, "ERROR") {
        LogLevel::Error
    } else {
        LogLevel::Log
    }
}

/// A captured log entry; the time is in milliseconds since the Unix epoch.
#[derive(Debug, Clone)]
pub struct LogEntry {
    pub timestamp: u64,
    pub level: LogLevel,
    pub message: String,
    pub source: Option<String>,
}

/// The mathematical value of a log entry.
pub struct LogEntryView {
    pub timestamp: u64,
    pub level: LogLevel,
    pub message: Seq<char>,
    pub source: Option<Seq<char>>,
}

impl View for LogEntry {
    type V = LogEntryView;

    open spec fn view(&self) -> LogEntryView {
        LogEntryView {
            timestamp: self.timestamp,
            level: self.level,
            message: self.message@,
            source: match self.source {
                Some(s) => Some(s@),
                None => None,
            },
        }
    }
}

impl LogEntry {
    /// A copy of the entry.
    pub fn copy(&self) -> (r: LogEntry)
        ensures
            r@ == self@,
    {
        LogEntry {
            timestamp: self.timestamp,
            level: self.level,
            message: self.message.clone(),
            source: match &self.source {
                Some(s) => Some(s.clone()),
                None => None,
            },
        }
    }
}

/// The views of a list of entries.
pub open spec fn entry_views(v: Seq<LogEntry>) -> Seq<LogEntryView> {
    v.map_values(|e: LogEntry| e@)
}

/// The last `n` items of `s` (all of them when there are fewer).
pub open spec fn keep_last<A>(s: Seq<A>, n: nat) -> Seq<A> {
    if s.len() > n {
        s.subrange(s.len() - n, s.len() as int)
    } else {
        s
    }
}

/// Whether an entry is at least as severe as `min`.
pub open spec fn at_least_level(min: LogLevel) -> spec_fn(LogEntryView) -> bool {
    |e: LogEntryView| level_rank(e.level) >= level_rank(min)
}

/// A store of captured entries that keeps at most `max_entries` of them,
/// dropping the oldest first.
pub struct LogStore {
    entries: Vec<LogEntry>,
    max_entries: usize,
}

impl View for LogStore {
    type V = Seq<LogEntryView>;

    closed spec fn view(&self) -> Seq<LogEntryView> {
        entry_views(self.entries@)
    }
}

impl LogStore {
    #[verifier::type_invariant]
    closed spec fn within_capacity(self) -> bool {
        self.entries@.len() <= self.max_entries
    }

    /// The most entries the store keeps.
    pub closed spec fn capacity(self) -> nat {
        self.max_entries as nat
    }

    /// An empty store that keeps at most `max_entries` entries.
    pub fn new(max_entries: usize) -> (r: LogStore)
        ensures
            r@ == Seq::<LogEntryView>::empty(),
            r.capacity() == max_entries,
    {
        let r = LogStore { entries: Vec::new(), max_entries };
        assert(entry_views(r.entries@) =~= Seq::<LogEntryView>::empty());
        r
    }

    /// The number of entries held.
    pub fn len(&self) -> (r: usize)
        ensures
            r == self@.len(),
            r <= self.capacity(),
    {
        proof { use_type_invariant(self); }
        self.entries.len()
    }

    /// Adds an entry at the end, dropping the oldest one when the store is over capacity.
    pub fn push(&mut self, entry: LogEntry)
        ensures
            final(self)@ == keep_last(old(self)@.push(entry@), old(self).capacity()),
            final(self).capacity() == old(self).capacity(),
            final(self)@.len() <= final(self).capacity(),
    {
        proof { use_type_invariant(&*self); }
        let ghost before = self.entries@;
        let mut entries: Vec<LogEntry> = Vec::new();
        std::mem::swap(&mut entries, &mut self.entries);
        entries.push(entry);
        let ghost pushed = entries@;
        assert(entry_views(pushed) =~= entry_views(before).push(entry@));
        if entries.len() > self.max_entries {
            entries.remove(0);
            assert(entries@ =~= pushed.subrange(1, pushed.len() as int));
            assert(entry_views(entries@) =~= entry_views(pushed).subrange(1, pushed.len() as int));
        }
        self.entries = entries;
    }

    /// The entries, oldest first.
    pub fn entries(&self) -> (r: &Vec<LogEntry>)
        ensures
            entry_views(r@) == self@,
    {
        &self.entries
    }

    /// A copy of the entries, oldest first.
    pub fn entries_copy(&self) -> (r: Vec<LogEntry>)
        ensures
            entry_views(r@) == self@,
    {
        let mut r: Vec<LogEntry> = Vec::new();
        let mut i: usize = 0;
        while i < self.entries.len()
            invariant
                i <= self.entries@.len(),
                entry_views(r@) == entry_views(self.entries@).take(i as int),
            decreases self.entries@.len() - i,
        {
            let c = self.entries[i].copy();
            let ghost prev = r@;
            r.push(c);
            assert(entry_views(r@) =~= entry_views(prev).push(c@));
            assert(entry_views(self.entries@).take(i as int + 1) =~= entry_views(self.entries@).take(i as int).push(self.entries@[i as int]@));
            i = i + 1;
        }
        assert(entry_views(self.entries@).take(i as int) =~= entry_views(self.entries@));
        r
    }

    /// Drops every entry.
    pub fn clear(&mut self)
        ensures
            final(self)@ == Seq::<LogEntryView>::empty(),
            final(self).capacity() == old(self).capacity(),
    {
        let mut entries: Vec<LogEntry> = Vec::new();
        std::mem::swap(&mut entries, &mut self.entries);
        assert(entry_views(self.entries@) =~= Seq::<LogEntryView>::empty());
    }

    /// The entries at least as severe as `min_level`, oldest first.
    pub fn filter_by_level(&self, min_level: LogLevel) -> (r: Vec<LogEntry>)
        ensures
            entry_views(r@) == self@.filter(at_least_level(min_level)),
    {
        let ghost all = entry_views(self.entries@);
        let mut r: Vec<LogEntry> = Vec::new();
        let mut i: usize = 0;
        while i < self.entries.len()
            invariant
                i <= self.entries@.len(),
                all == entry_views(self.entries@),
                entry_views(r@) == all.take(i as int).filter(at_least_level(min_level)),
            decreases self.entries@.len() - i,
        {
            let e = &self.entries[i];
            proof {
                assert(all.take(i as int + 1) =~= all.take(i as int).push(e@));
                all.take(i as int).lemma_filter_push(e@, at_least_level(min_level));
            }
            if e.level.at_least(min_level) {
                let c = e.copy();
                let ghost prev = r@;
                r.push(c);
                assert(entry_views(r@) =~= entry_views(prev).push(c@));
            }
            i = i + 1;
        }
        assert(all.take(i as int) =~= all);
        r
    }

    /// The entries as text, one line each, joined by newlines; `times[i]` is the
    /// local clock time of entry `i`.
    pub fn to_string(&self, times: &Vec<ClockTime>) -> (r: String)
        requires
            times@.len() == self@.len(),
        ensures
            r@ == joined_lines(Seq::new(self@.len(), |i: int| log_line_text(times@[i], self@[i].level, self@[i].message))),
    {
        let ghost all = entry_views(self.entries@);
        let ghost lines = Seq::new(all.len(), |i: int| log_line_text(times@[i], all[i].level, all[i].message));
        let mut r = String::new();
        let mut i: usize = 0;
        while i < self.entries.len()
            invariant
                i <= self.entries@.len(),
                times@.len() == self.entries@.len(),
                all == entry_views(self.entries@),
                lines == Seq::new(all.len(), |i: int| log_line_text(times@[i], all[i].level, all[i].message)),
                r@ == joined_lines(lines.take(i as int)),
            decreases self.entries@.len() - i,
        {
            let e = &self.entries[i];
            let line = log_line(times[i], e.level, e.message.as_str());
            assert(lines.take(i as int + 1).drop_last() =~= lines.take(i as int));
            if i == 0 {
                r = line;
            } else {
                let with_break = concat(r.as_str(), "\n");
                r = concat(with_break.as_str(), line.as_str());
            }
            i = i + 1;
        }
        assert(lines.take(i as int) =~= lines);
        r
    }
}

/// A local clock time of day.
#[derive(Debug, Clone, Copy, PartialEq, Eq, Structural)]
pub struct ClockTime {
    pub hours: u32,
    pub minutes: u32,
    pub seconds: u32,
    pub millis: u32,
}

/// `HH:MM:SS` with two digits each.
pub open spec fn clock_text(t: ClockTime) -> Seq<char> {
    padded_text(t.hours as nat, 2) + ":"@ + padded_text(t.minutes as nat, 2) + ":"@ + padded_text(t.seconds as nat, 2)
}

/// `[HH:MM:SS.mmm] [LEVEL] message`.
pub open spec fn log_line_text(t: ClockTime, level: LogLevel, message: Seq<char>) -> Seq<char> {
    "["@ + clock_text(t) + "."@ + padded_text(t.millis as nat, 3) + "] ["@ + level_name(level) + "] "@ + message
}

/// Lines joined by newlines.
pub open spec fn joined_lines(lines: Seq<Seq<char>>) -> Seq<char>
    decreases lines.len(),
{
    if lines.len() == 0 {
        Seq::empty()
    } else if lines.len() == 1 {
        lines[0]
    } else {
        joined_lines(lines.drop_last()) + "\n"@ + lines.last()
    }
}

/// The time of day as `HH:MM:SS`.
pub fn clock(t: ClockTime) -> (r: String)
    ensures
        r@ == clock_text(t),
{
    let h = padded(t.hours as u64, 2);
    let m = padded(t.minutes as u64, 2);
    let s = padded(t.seconds as u64, 2);
    let a = concat(h.as_str(), ":");
    let b = concat(a.as_str(), m.as_str());
    let c = concat(b.as_str(), ":");
    concat(c.as_str(), s.as_str())
}

/// One line of the log text: `[HH:MM:SS.mmm] [LEVEL] message`.
pub fn log_line(t: ClockTime, level: LogLevel, message: &str) -> (r: String)
    ensures
        r@ == log_line_text(t, level, message@),
{
    let c = clock(t);
    let ms = padded(t.millis as u64, 3);
    let a = concat("[", c.as_str());
    let b = concat(a.as_str(), ".");
    let d = concat(b.as_str(), ms.as_str());
    let e = concat(d.as_str(), "] [");
    let f = concat(e.as_str(), level.as_str());
    let g = concat(f.as_str(), "] ");
    concat(g.as_str(), message)
}

/// Records a message at `level`, taken at `timestamp` (milliseconds since the Unix epoch).
pub fn add_log(store: &mut LogStore, level: LogLevel, message: String, timestamp: u64)
    ensures
        final(store)@ == keep_last(
            old(store)@.push(LogEntryView { timestamp, level, message: message@, source: None }),
            old(store).capacity(),
        ),
        final(store).capacity() == old(store).capacity(),
{
    store.push(LogEntry { timestamp, level, message, source: None });
}

/// Every recorded entry, oldest first.
pub fn get_logs(store: &LogStore) -> (r: Vec<LogEntry>)
    ensures
        entry_views(r@) == store@,
{
    store.entries_copy()
}

/// The recorded entries at least as severe as `min_level`, oldest first.
pub fn get_logs_filtered(store: &LogStore, min_level: LogLevel) -> (r: Vec<LogEntry>)
    ensures
        entry_views(r@) == store@.filter(at_least_level(min_level)),
{
    store.filter_by_level(min_level)
}

/// Drops every recorded entry.
pub fn clear_logs(store: &mut LogStore)
    ensures
        final(store)@ == Seq::<LogEntryView>::empty(),
        final(store).capacity() == old(store).capacity(),
{
    store.clear();
}

/// The recorded entries as text; `times[i]` is the local clock time of entry `i`.
pub fn get_logs_as_string(store: &LogStore, times: &Vec<ClockTime>) -> (r: String)
    requires
        times@.len() == store@.len(),
    ensures
        r@ == joined_lines(Seq::new(store@.len(), |i: int| log_line_text(times@[i], store@[i].level, store@[i].message))),
{
    store.to_string(times)
}

/// What the log viewer shows of the store under a minimum level: everything
/// for `Debug`, else the entries at least that severe.
pub open spec fn viewer_logs(store: Seq<LogEntryView>, filter: LogLevel) -> Seq<LogEntryView> {
    if filter == LogLevel::Debug {
        store
    } else {
        store.filter(at_least_level(filter))
    }
}

/// A request to the log viewer.
pub enum LogViewerMsg {
    Toggle,
    Close,
    Refresh,
    Clear,
    Copy,
    SetFilter(LogLevel),
    ToggleLevel(LogLevel),
    ScrollToBottom,
}

/// What the page around the viewer must do after a request.
#[derive(Debug, Clone, Copy, PartialEq, Eq, Structural)]
pub enum LogViewerEffect {
    Nothing,
    NotifyClosed,
    CopyToClipboard,
    ScrollToBottom,
}

/// The state of the floating log viewer.
pub struct LogViewer {
    pub logs: Vec<LogEntry>,
    pub filter: LogLevel,
    pub auto_scroll: bool,
    pub visible: bool,
}

impl LogViewer {
    /// A viewer showing every entry of the store, scrolled to the end on its first render.
    pub fn create(store: &LogStore, visible: bool) -> (r: LogViewer)
        ensures
            entry_views(r.logs@) == store@,
            r.filter == LogLevel::Debug,
            r.auto_scroll,
            r.visible == visible,
    {
        LogViewer { logs: store.entries_copy(), filter: LogLevel::Debug, auto_scroll: true, visible }
    }

    /// Takes a new visibility from the page; true when it changed.
    pub fn changed(&mut self, visible: bool, old_visible: bool) -> (r: bool)
        ensures
            r == (visible != old_visible),
            final(self).visible == (if r { visible } else { old(self).visible }),
            final(self).logs@ == old(self).logs@,
            final(self).filter == old(self).filter,
            final(self).auto_scroll == old(self).auto_scroll,
    {
        if visible != old_visible {
            self.visible = visible;
            return true;
        }
        false
    }

    fn reload(&mut self, store: &LogStore)
        ensures
            entry_views(final(self).logs@) == viewer_logs(store@, old(self).filter),
            final(self).filter == old(self).filter,
            final(self).auto_scroll == old(self).auto_scroll,
            final(self).visible == old(self).visible,
    {
        if self.filter == LogLevel::Debug {
            self.logs = store.entries_copy();
        } else {
            self.logs = store.filter_by_level(self.filter);
        }
    }

    /// Handles a request against the shared store; returns whether to render
    /// again and what the page must do.
    pub fn update(&mut self, store: &mut LogStore, msg: LogViewerMsg) -> (r: (bool, LogViewerEffect))
        ensures
            match msg {
                LogViewerMsg::Toggle => {
                    &&& r == (true, LogViewerEffect::Nothing)
                    &&& final(self).visible == !old(self).visible
                    &&& final(self).visible ==> entry_views(final(self).logs@) == old(store)@
                    &&& !final(self).visible ==> final(self).logs@ == old(self).logs@
                    &&& final(self).filter == old(self).filter
                    &&& final(store)@ == old(store)@
                },
                LogViewerMsg::Close => {
                    &&& r == (true, LogViewerEffect::NotifyClosed)
                    &&& !final(self).visible
                    &&& final(self).logs@ == old(self).logs@
                    &&& final(self).filter == old(self).filter
                    &&& final(store)@ == old(store)@
                },
                LogViewerMsg::Refresh => {
                    &&& r == (true, LogViewerEffect::Nothing)
                    &&& entry_views(final(self).logs@) == viewer_logs(old(store)@, old(self).filter)
                    &&& final(self).auto_scroll
                    &&& final(self).filter == old(self).filter
                    &&& final(self).visible == old(self).visible
                    &&& final(store)@ == old(store)@
                },
                LogViewerMsg::Clear => {
                    &&& r == (true, LogViewerEffect::Nothing)
                    &&& final(self).logs@.len() == 0
                    &&& final(store)@.len() == 0
                    &&& final(self).filter == old(self).filter
                    &&& final(self).visible == old(self).visible
                },
                LogViewerMsg::Copy => {
                    &&& r == (false, LogViewerEffect::CopyToClipboard)
                    &&& final(self).logs@ == old(self).logs@
                    &&& final(self).filter == old(self).filter
                    &&& final(store)@ == old(store)@
                },
                LogViewerMsg::SetFilter(level) => {
                    &&& r == (true, LogViewerEffect::Nothing)
                    &&& final(self).filter == level
                    &&& entry_views(final(self).logs@) == viewer_logs(old(store)@, level)
                    &&& final(self).visible == old(self).visible
                    &&& final(store)@ == old(store)@
                },
                LogViewerMsg::ToggleLevel(level) => {
                    let f = if old(self).filter == level { LogLevel::Debug } else { level };
                    &&& r == (true, LogViewerEffect::Nothing)
                    &&& final(self).filter == f
                    &&& entry_views(final(self).logs@) == viewer_logs(old(store)@, f)
                    &&& final(self).visible == old(self).visible
                    &&& final(store)@ == old(store)@
                },
                LogViewerMsg::ScrollToBottom => {
                    &&& r == (false, LogViewerEffect::ScrollToBottom)
                    &&& final(self).logs@ == old(self).logs@
                    &&& final(self).filter == old(self).filter
                    &&& final(store)@ == old(store)@
                },
            },
            final(store).capacity() == old(store).capacity(),
    {
        match msg {
            LogViewerMsg::Toggle => {
                self.visible = !self.visible;
                if self.visible {
                    self.logs = store.entries_copy();
                }
                (true, LogViewerEffect::Nothing)
            },
            LogViewerMsg::Close => {
                self.visible = false;
                (true, LogViewerEffect::NotifyClosed)
            },
            LogViewerMsg::Refresh => {
                self.reload(store);
                self.auto_scroll = true;
                (true, LogViewerEffect::Nothing)
            },
            LogViewerMsg::Clear => {
                store.clear();
                self.logs.clear();
                (true, LogViewerEffect::Nothing)
            },
            LogViewerMsg::Copy => (false, LogViewerEffect::CopyToClipboard),
            LogViewerMsg::SetFilter(level) => {
                self.filter = level;
                self.reload(store);
                (true, LogViewerEffect::Nothing)
            },
            LogViewerMsg::ToggleLevel(level) => {
                if self.filter == level {
                    self.filter = LogLevel::Debug;
                } else {
                    self.filter = level;
                }
                self.reload(store);
                (true, LogViewerEffect::Nothing)
            },
            LogViewerMsg::ScrollToBottom => (false, LogViewerEffect::ScrollToBottom),
        }
    }

    /// After a render: true when the list must be scrolled to its end, which
    /// happens once after each refresh.
    pub fn rendered(&mut self) -> (r: bool)
        ensures
            r == old(self).auto_scroll,
            !final(self).auto_scroll,
            final(self).logs@ == old(self).logs@,
            final(self).filter == old(self).filter,
            final(self).visible == old(self).visible,
    {
        let r = self.auto_scroll;
        self.auto_scroll = false;
        r
    }

    /// The style classes of the filter button of `level`.
    pub fn level_filter_class(&self, level: LogLevel) -> (r: String)
        ensures
            r@ == (if self.filter == level { "log-level-btn active "@ } else { "log-level-btn "@ }) + level_css(level),
    {
        if self.filter == level {
            concat("log-level-btn active ", level.css_name())
        } else {
            concat("log-level-btn ", level.css_name())
        }
    }
}

/// The style class of a displayed entry: `log-level-` and the level in lower case.
pub fn log_entry_class(level: LogLevel) -> (r: String)
    ensures
        r@ == "log-level-"@ + level_css(level),
{
    concat("log-level-", level.css_name())
}

/// The style of the level badge of an entry.
pub fn level_badge_style(level: LogLevel) -> (r: String)
    ensures
        r@ == "background-color: "@ + level_color(level),
{
    concat("background-color: ", level.color())
}


/// Pushing entries one at a time into a store of capacity `n` always leaves
/// the last `n` entries pushed: cutting before or after a push comes to the same.
pub proof fn lemma_keep_last_push(s: Seq<LogEntryView>, x: LogEntryView, n: nat)
    ensures
        keep_last(keep_last(s, n).push(x), n) == keep_last(s.push(x), n),
{
    let t = s.push(x);
    if s.len() > n {
        let k = keep_last(s, n);
        assert(k.push(x).len() == n + 1);
        assert(keep_last(k.push(x), n) =~= t.subrange(t.len() - n, t.len() as int));
    }
}

/// The lowest level lets every entry through.
pub proof fn lemma_debug_shows_all(s: Seq<LogEntryView>)
    ensures
        s.filter(at_least_level(LogLevel::Debug)) == s,
        viewer_logs(s, LogLevel::Debug) == s,
    decreases s.len(),
{
    reveal(Seq::filter);
    if s.len() > 0 {
        lemma_debug_shows_all(s.drop_last());
        assert(s.drop_last().push(s.last()) =~= s);
    }
}

/// The levels from the least to the most severe.
pub open spec fn severity_order() -> Seq<LogLevel> {
    seq![LogLevel::Debug, LogLevel::Log, LogLevel::Info, LogLevel::Warn, LogLevel::Error]
}

/// Filtering at a level keeps exactly the entries whose level is that level or one
/// after it in the order Debug, Log, Info, Warn, Error, in their order.
pub proof fn lemma_filter_keeps_as_severe(entries: Seq<LogEntryView>, min: LogLevel, e: LogEntryView)
    ensures
        entries.filter(at_least_level(min)).contains(e) <==> (entries.contains(e) && exists|a: int, b: int|
            0 <= b <= a < 5 && #[trigger] severity_order()[a] == e.level && #[trigger] severity_order()[b] == min),
{
    let p = at_least_level(min);
    let so = severity_order();
    assert(so[0] == LogLevel::Debug && so[1] == LogLevel::Log && so[2] == LogLevel::Info
        && so[3] == LogLevel::Warn && so[4] == LogLevel::Error);
    let place = |l: LogLevel| -> int {
        match l {
            LogLevel::Debug => 0int,
            LogLevel::Log => 1int,
            LogLevel::Info => 2int,
            LogLevel::Warn => 3int,
            LogLevel::Error => 4int,
        }
    };
    assert(so[place(e.level)] == e.level);
    assert(so[place(min)] == min);
    assert(p(e) <==> place(e.level) >= place(min));
    if entries.filter(p).contains(e) {
        entries.lemma_filter_contains_rev(p, e);
        let k = choose|k: int| 0 <= k < entries.filter(p).len() && entries.filter(p)[k] == e;
        entries.lemma_filter_pred(p, k);
    }
    if entries.contains(e) && exists|a: int, b: int|
        0 <= b <= a < 5 && #[trigger] so[a] == e.level && #[trigger] so[b] == min {
        let (a, b) = choose|a: int, b: int| 0 <= b <= a < 5 && #[trigger] so[a] == e.level && #[trigger] so[b] == min;
        assert(a == place(e.level));
        assert(b == place(min));
        let k = choose|k: int| 0 <= k < entries.len() && entries[k] == e;
        entries.lemma_filter_contains(p, k);
    }
}

} // verus!
