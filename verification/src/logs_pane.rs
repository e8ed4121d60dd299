use vstd::prelude::*;

use crate::json::{decimal, push_decimal};
use crate::request::Request;
use crate::input::{Key, KeyPress};
use crate::text::{copy_str, push_str};
use std::collections::VecDeque;
use crate::units::{as_double, as_double_exec, digit_char, fixed_text, half_even_div, half_even_div_exec, push_fixed};

verus! {

/// The tabs of the logs pane.
#[derive(Debug, Clone, Copy, PartialEq, Eq, Structural)]
pub enum LogsTab {
    Logs,
    Metrics,
    Histogram,
    StatusCodes,
    Errors,
    Curl,
}

impl LogsTab {
    /// Every variant, in order.
    pub fn all() -> (r: Vec<LogsTab>)
        ensures
            r@ == seq![LogsTab::Logs, LogsTab::Metrics, LogsTab::Histogram, LogsTab::StatusCodes, LogsTab::Errors, LogsTab::Curl],
    {
        let mut v: Vec<LogsTab> = Vec::new();
        v.push(LogsTab::Logs);
        v.push(LogsTab::Metrics);
        v.push(LogsTab::Histogram);
        v.push(LogsTab::StatusCodes);
        v.push(LogsTab::Errors);
        v.push(LogsTab::Curl);
        v
    }

    /// The label shown for the variant.
    pub open spec fn label(self) -> Seq<char> {
        match self {
            LogsTab::Logs => "Logs"@,
            LogsTab::Metrics => "Metrics"@,
            LogsTab::Histogram => "Histogram"@,
            LogsTab::StatusCodes => "Status"@,
            LogsTab::Errors => "Errors"@,
            LogsTab::Curl => "Curl"@,
        }
    }

    /// The label shown for the variant.
    pub fn as_str(&self) -> (r: &'static str)
        ensures
            r@ == self.label(),
    {
        match self {
            LogsTab::Logs => "Logs",
            LogsTab::Metrics => "Metrics",
            LogsTab::Histogram => "Histogram",
            LogsTab::StatusCodes => "Status",
            LogsTab::Errors => "Errors",
            LogsTab::Curl => "Curl",
        }
    }
}

/// How serious a log entry is, from least to most.
#[derive(Debug, Clone, Copy, PartialEq, Eq, PartialOrd, Ord, Structural)]
pub enum LogLevel {
    Debug,
    Info,
    Warning,
    Error,
}

impl LogLevel {
    /// The label shown for the variant.
    pub open spec fn label(self) -> Seq<char> {
        match self {
            LogLevel::Debug => "DEBUG"@,
            LogLevel::Info => "INFO"@,
            LogLevel::Warning => "WARN"@,
            LogLevel::Error => "ERROR"@,
        }
    }

    /// The label shown for the variant.
    pub fn as_str(&self) -> (r: &'static str)
        ensures
            r@ == self.label(),
    {
        match self {
            LogLevel::Debug => "DEBUG",
            LogLevel::Info => "INFO",
            LogLevel::Warning => "WARN",
            LogLevel::Error => "ERROR",
        }
    }

    /// Every variant, in order.
    pub fn all() -> (r: Vec<LogLevel>)
        ensures
            r@ == seq![LogLevel::Debug, LogLevel::Info, LogLevel::Warning, LogLevel::Error],
    {
        let mut v: Vec<LogLevel> = Vec::new();
        v.push(LogLevel::Debug);
        v.push(LogLevel::Info);
        v.push(LogLevel::Warning);
        v.push(LogLevel::Error);
        v
    }
}

/// The part of the logs pane that has the focus.
#[derive(Debug, Clone, Copy, PartialEq, Eq, Structural)]
pub enum FocusedField {
    Tabs,
    TabContent,
}

/// A byte count as text: whole bytes below a kilobyte, else kilobytes,
/// megabytes or gigabytes (of 1024) with two decimals.
pub open spec fn bytes_text(bytes: nat) -> Seq<char> {
    if bytes < 1024 {
        decimal(bytes) + " B"@
    } else if bytes < 0x10_0000 {
        fixed_text(half_even_div(bytes * 100, 1024), 2) + " KB"@
    } else if bytes < 0x4000_0000 {
        fixed_text(half_even_div(bytes * 100, 0x10_0000), 2) + " MB"@
    } else {
        fixed_text(half_even_div(as_double(bytes) * 100, 0x4000_0000), 2) + " GB"@
    }
}

/// A byte count as text, such as `512 B` or `2.00 KB`.
pub fn format_bytes(bytes: usize) -> (r: String)
    ensures
        r@ == bytes_text(bytes as nat),
{
    let mut out = String::new();
    if bytes < 1024 {
        push_decimal(&mut out, bytes as u64);
        push_str(&mut out, " B");
    } else if bytes < 0x10_0000 {
        push_fixed(&mut out, half_even_div_exec(bytes as u128 * 100, 1024), 2);
        push_str(&mut out, " KB");
    } else if bytes < 0x4000_0000 {
        push_fixed(&mut out, half_even_div_exec(bytes as u128 * 100, 0x10_0000), 2);
        push_str(&mut out, " MB");
    } else {
        let v = as_double_exec(bytes as u64);
        proof {
            assert(v <= (bytes as nat) + 0x2000) by {
                crate::units::lemma_as_double_bound(bytes as nat);
            }
        }
        push_fixed(&mut out, half_even_div_exec(v * 100, 0x4000_0000), 2);
        push_str(&mut out, " GB");
    }
    out
}

/// A point in time as chrono's UTC clock gives it: whole seconds since
/// 1970-01-01 00:00:00 UTC and the nanoseconds past the last whole second.
#[derive(Debug, Clone, Copy, PartialEq, Eq, Structural)]
pub struct Timestamp {
    pub secs: i64,
    pub nanos: u32,
}

/// The time of day of a timestamp as chrono writes it with the pattern
/// `%H:%M:%S%.3f` in UTC (hours, minutes, seconds and milliseconds).
pub uninterp spec fn clock_text(secs: i64, nanos: u32) -> Seq<char>;

/// `n` (below 100) in two digits, with a leading zero below ten.
pub open spec fn two_digits(n: nat) -> Seq<char> {
    seq![digit_char(n / 10), digit_char(n % 10)]
}

/// `HH:MM:SS.mmm`: the hour, minute and second of the day that second
/// `secs` after the epoch falls in, and the whole milliseconds of `nanos`.
pub open spec fn clock_face(secs: int, nanos: nat) -> Seq<char> {
    let t = (secs % 86400) as nat;
    let ms = nanos / 1_000_000;
    two_digits(t / 3600) + seq![':'] + two_digits(t / 60 % 60) + seq![':'] + two_digits(t % 60)
        + seq!['.', digit_char(ms / 100), digit_char(ms / 10 % 10), digit_char(ms % 10)]
}

/// Calls `chrono::Utc::now`, which reads the system clock as seconds and
/// nanoseconds since the Unix epoch (and panics on a clock set before it).
/// Claimed: the seconds are not negative and the nanoseconds are below one
/// second. Which time it gives is not stated: it rests on the clock.
#[verifier::external_body]
pub(crate) fn current_time() -> (t: Timestamp)
    ensures
        t.secs >= 0,
        t.nanos < 1_000_000_000,
{
    let now = chrono::Utc::now();
    Timestamp { secs: now.timestamp(), nanos: now.timestamp_subsec_nanos() }
}

/// Calls chrono's `DateTime::from_timestamp` and formats the result with the
/// pattern `%H:%M:%S%.3f`; where chrono refuses the timestamp the text is
/// empty. Claimed: the text is `clock_text` of the arguments, a function of
/// them alone; for a time within some 126,000 years of the epoch and
/// nanoseconds below one second (a date chrono holds, no leap second) it is
/// the hour, minute and second of the day in two digits each and three
/// digits of milliseconds, the decimal point being `.` without chrono's
/// locale feature.
#[verifier::external_body]
fn time_of_day_text(secs: i64, nanos: u32) -> (s: String)
    ensures
        s@ == clock_text(secs, nanos),
        -4_000_000_000_000 <= secs <= 4_000_000_000_000 && nanos < 1_000_000_000
            ==> s@ == clock_face(secs as int, nanos as nat),
{
    match chrono::DateTime::from_timestamp(secs, nanos) {
        Some(t) => t.format("%H:%M:%S%.3f").to_string(),
        None => String::new(),
    }
}

/// One line of the log.
#[derive(Debug)]
pub struct LogEntry {
    pub timestamp: Timestamp,
    pub level: LogLevel,
    pub message: String,
    pub context: Option<String>,
}

impl LogEntry {
    /// An entry stamped with the present time, without context.
    pub fn new(level: LogLevel, message: &str) -> (r: LogEntry)
        ensures
            r.level == level,
            r.message@ == message@,
            r.context is None,
            r.timestamp.secs >= 0,
            r.timestamp.nanos < 1_000_000_000,
    {
        LogEntry { timestamp: current_time(), level, message: copy_str(message), context: None }
    }

    /// The entry with `context` attached.
    pub fn with_context(self, context: &str) -> (r: LogEntry)
        ensures
            r.timestamp == self.timestamp,
            r.level == self.level,
            r.message == self.message,
            r.context matches Some(c) && c@ == context@,
    {
        LogEntry { context: Some(copy_str(context)), ..self }
    }

    /// The time of day of the entry, to the millisecond.
    pub fn format_timestamp(&self) -> (r: String)
        ensures
            r@ == clock_text(self.timestamp.secs, self.timestamp.nanos),
            -4_000_000_000_000 <= self.timestamp.secs <= 4_000_000_000_000
                && self.timestamp.nanos < 1_000_000_000 ==> r@ == clock_face(
                self.timestamp.secs as int,
                self.timestamp.nanos as nat,
            ),
    {
        time_of_day_text(self.timestamp.secs, self.timestamp.nanos)
    }

    /// A copy of the entry.
    pub fn duplicate(&self) -> (r: LogEntry)
        ensures
            r == *self,
    {
        let context = match &self.context {
            Some(c) => Some(c.clone()),
            None => None,
        };
        LogEntry { timestamp: self.timestamp, level: self.level, message: self.message.clone(), context }
    }
}

/// The errors left after the entries `removed` left the log, one after the
/// other: each error entry that leaves takes with it every error stamped
/// with the same time.
pub open spec fn purge(errors: Seq<LogEntry>, removed: Seq<LogEntry>) -> Seq<LogEntry>
    decreases removed.len(),
{
    if removed.len() == 0 {
        errors
    } else {
        let rest = purge(errors, removed.drop_last());
        let gone = removed.last();
        if gone.level == LogLevel::Error {
            rest.filter(|x: LogEntry| x.timestamp != gone.timestamp)
        } else {
            rest
        }
    }
}

/// How many of `len` items go past a limit of `max`.
pub open spec fn overflow(len: int, max: int) -> int {
    if len > max {
        len - max
    } else {
        0
    }
}

/// Removes from `errors` every entry stamped with `t`, keeping the order of the rest.
fn drop_stamped(errors: &mut Vec<LogEntry>, t: Timestamp)
    ensures
        final(errors)@ == old(errors)@.filter(|x: LogEntry| x.timestamp != t),
{
    let ghost pred = |x: LogEntry| x.timestamp != t;
    let mut kept: Vec<LogEntry> = Vec::new();
    let mut i: usize = 0;
    while i < errors.len()
        invariant
            i <= errors@.len(),
            pred == (|x: LogEntry| x.timestamp != t),
            kept@ == errors@.take(i as int).filter(pred),
        decreases errors@.len() - i,
    {
        let ghost before = kept@;
        proof {
            let next = errors@.take(i + 1);
            reveal(Seq::filter);
            assert(next.drop_last() =~= errors@.take(i as int));
            assert(next.last() == errors@[i as int]);
            assert(next.filter(pred) == if pred(errors@[i as int]) {
                errors@.take(i as int).filter(pred).push(errors@[i as int])
            } else {
                errors@.take(i as int).filter(pred)
            });
        }
        if errors[i].timestamp != t {
            let d = errors[i].duplicate();
            kept.push(d);
            proof {
                assert(pred(errors@[i as int]));
                assert(kept@ =~= before.push(errors@[i as int]));
            }
        } else {
            proof { assert(!pred(errors@[i as int])); }
        }
        i += 1;
    }
    proof { assert(errors@.take(errors@.len() as int) =~= errors@); }
    *errors = kept;
}

/// The log pane: the log of the session with its errors apart, the timing of
/// the chunks of a streamed response, the metrics of the last request (of
/// type `M`) and the request that was sent.
pub struct LogsPane<M> {
    pub logs: VecDeque<LogEntry>,
    pub max_logs: usize,
    pub selected_tab: usize,
    pub selected_log: usize,
    pub focused_field: FocusedField,
    pub metrics: Option<M>,
    pub chunk_intervals: VecDeque<u64>,
    pub max_intervals: usize,
    pub errors: Vec<LogEntry>,
    pub selected_error: usize,
    pub current_request: Option<Request>,
}

impl<M> LogsPane<M> {
    /// An empty pane keeping up to 1000 log lines and 50 chunk intervals.
    pub fn new() -> (r: Self)
        ensures
            r.logs@.len() == 0,
            r.max_logs == 1000,
            r.selected_tab == 0,
            r.selected_log == 0,
            r.focused_field == FocusedField::TabContent,
            r.metrics is None,
            r.chunk_intervals@.len() == 0,
            r.max_intervals == 50,
            r.errors@.len() == 0,
            r.selected_error == 0,
            r.current_request is None,
    {
        LogsPane {
            logs: VecDeque::new(),
            max_logs: 1000,
            selected_tab: 0,
            selected_log: 0,
            focused_field: FocusedField::TabContent,
            metrics: None,
            chunk_intervals: VecDeque::new(),
            max_intervals: 50,
            errors: Vec::new(),
            selected_error: 0,
            current_request: None,
        }
    }

    pub fn set_current_request(&mut self, request: Request)
        ensures
            *final(self) == (LogsPane { current_request: Some(request), ..*old(self) }),
    {
        self.current_request = Some(request);
    }

    pub fn current_request(&self) -> (r: Option<&Request>)
        ensures
            r == match self.current_request {
                Some(q) => Some(&q),
                None => None,
            },
    {
        match &self.current_request {
            Some(q) => Some(q),
            None => None,
        }
    }

    pub fn clear_current_request(&mut self)
        ensures
            *final(self) == (LogsPane { current_request: None, ..*old(self) }),
    {
        self.current_request = None;
    }

    /// The pane keeping up to `max` log lines.
    pub fn with_max_logs(self, max: usize) -> (r: Self)
        ensures
            r == (LogsPane { max_logs: max, ..self }),
    {
        LogsPane { max_logs: max, ..self }
    }

    /// What adding `e` to the log does: it goes last, the oldest lines go
    /// while there are more than the limit, an error is kept apart too, and
    /// an error line that goes takes with it the errors stamped with its time.
    pub open spec fn logged(self, old: LogsPane<M>, e: LogEntry) -> bool {
        let all = old.logs@.push(e);
        let k = overflow(all.len() as int, old.max_logs as int);
        let errors = if e.level == LogLevel::Error { old.errors@.push(e) } else { old.errors@ };
        &&& self.logs@ == all.skip(k)
        &&& self.errors@ == purge(errors, all.take(k))
        &&& self == (LogsPane { logs: self.logs, errors: self.errors, ..old })
    }

    /// Adds `entry` to the log.
    pub fn push_entry(&mut self, entry: LogEntry)
        ensures
            final(self).logged(*old(self), entry),
    {
        let ghost all = old(self).logs@.push(entry);
        let ghost errors0 = if entry.level == LogLevel::Error {
            old(self).errors@.push(entry)
        } else {
            old(self).errors@
        };
        let copy = entry.duplicate();
        self.logs.push_back(entry);
        if copy.level == LogLevel::Error {
            self.errors.push(copy);
        }
        let ghost mut gone: int = 0;
        proof {
            assert(self.logs@ =~= all.skip(0));
            assert(all.take(0) =~= Seq::<LogEntry>::empty());
        }
        while self.logs.len() > self.max_logs
            invariant
                0 <= gone <= all.len(),
                self.logs@ == all.skip(gone),
                self.errors@ == purge(errors0, all.take(gone)),
                gone <= overflow(all.len() as int, old(self).max_logs as int),
                *self == (LogsPane { logs: self.logs, errors: self.errors, ..*old(self) }),
            decreases self.logs@.len(),
        {
            let removed = self.logs.pop_front();
            match removed {
                Some(r) => {
                    proof {
                        assert(all.take(gone + 1).drop_last() =~= all.take(gone));
                        assert(all.take(gone + 1).last() == r);
                        assert(all.skip(gone + 1) =~= all.skip(gone).subrange(1, all.skip(gone).len() as int));
                    }
                    if r.level == LogLevel::Error {
                        drop_stamped(&mut self.errors, r.timestamp);
                    }
                    proof { gone = gone + 1; }
                },
                None => {},
            }
        }
    }

    /// Adds a line stamped with the present time to the log.
    pub fn add_log(&mut self, level: LogLevel, message: &str)
        ensures
            exists|e: LogEntry|
                e.level == level && e.message@ == message@ && e.context is None
                    && #[trigger] final(self).logged(*old(self), e),
    {
        let entry = LogEntry::new(level, message);
        let ghost e = entry;
        self.push_entry(entry);
        proof { assert(self.logged(*old(self), e)); }
    }

    /// Adds a line with context, stamped with the present time, to the log.
    pub fn add_log_with_context(&mut self, level: LogLevel, message: &str, context: &str)
        ensures
            exists|e: LogEntry|
                e.level == level && e.message@ == message@ && (e.context matches Some(c) && c@ == context@)
                    && #[trigger] final(self).logged(*old(self), e),
    {
        let entry = LogEntry::new(level, message).with_context(context);
        let ghost e = entry;
        self.push_entry(entry);
        proof { assert(self.logged(*old(self), e)); }
    }

    pub fn set_metrics(&mut self, metrics: M)
        ensures
            *final(self) == (LogsPane { metrics: Some(metrics), ..*old(self) }),
    {
        self.metrics = Some(metrics);
    }

    pub fn clear_metrics(&mut self)
        ensures
            *final(self) == (LogsPane { metrics: None, ..*old(self) }),
    {
        self.metrics = None;
    }

    /// Records the time between two chunks of a streamed response, keeping
    /// only the latest ones up to the limit.
    pub fn add_chunk_interval(&mut self, interval_ms: u64)
        ensures
            final(self).chunk_intervals@ == old(self).chunk_intervals@.push(interval_ms).skip(
                overflow(old(self).chunk_intervals@.len() + 1 as int, old(self).max_intervals as int),
            ),
            *final(self) == (LogsPane { chunk_intervals: final(self).chunk_intervals, ..*old(self) }),
    {
        let ghost all = old(self).chunk_intervals@.push(interval_ms);
        self.chunk_intervals.push_back(interval_ms);
        let ghost mut gone: int = 0;
        proof { assert(self.chunk_intervals@ =~= all.skip(0)); }
        while self.chunk_intervals.len() > self.max_intervals
            invariant
                0 <= gone <= all.len(),
                self.chunk_intervals@ == all.skip(gone),
                gone <= overflow(all.len() as int, old(self).max_intervals as int),
                *self == (LogsPane { chunk_intervals: self.chunk_intervals, ..*old(self) }),
            decreases self.chunk_intervals@.len(),
        {
            let front = self.chunk_intervals.pop_front();
            match front {
                Some(_) => {
                    proof {
                        assert(all.skip(gone + 1) =~= all.skip(gone).subrange(1, all.skip(gone).len() as int));
                        gone = gone + 1;
                    }
                },
                None => {},
            }
        }
    }

    /// Empties the log and the errors.
    pub fn clear_logs(&mut self)
        ensures
            final(self).logs@.len() == 0,
            final(self).errors@.len() == 0,
            *final(self) == (LogsPane {
                logs: final(self).logs,
                errors: final(self).errors,
                selected_log: 0,
                selected_error: 0,
                ..*old(self)
            }),
    {
        self.logs.clear();
        self.errors = Vec::new();
        self.selected_log = 0;
        self.selected_error = 0;
    }

    pub fn log_count(&self) -> (r: usize)
        ensures
            r == self.logs@.len(),
    {
        self.logs.len()
    }

    /// The newest line of the log.
    pub fn latest_entry(&self) -> (r: Option<&LogEntry>)
        ensures
            self.logs@.len() == 0 ==> r is None,
            self.logs@.len() > 0 ==> r == Some(&self.logs@.last()),
    {
        let n = self.logs.len();
        if n == 0 {
            None
        } else {
            Some(&self.logs[n - 1])
        }
    }

    /// Whether there is so little to show that the pane can be drawn small.
    pub fn should_compact(&self) -> (r: bool)
        ensures
            r == (self.logs@.len() <= 2 && self.metrics is None && self.errors@.len() == 0
                && self.current_request is None),
    {
        self.logs.len() <= 2 && self.metrics.is_none() && self.errors.len() == 0
            && self.current_request.is_none()
    }

    /// Whether a key can be handled in the pane's present state: the selected
    /// tab exists and no step goes past the largest index.
    pub open spec fn key_defined(&self, key: Key) -> bool {
        let down = key == Key::Down || key == Key::Char('j');
        &&& (self.focused_field == FocusedField::Tabs && key == Key::Right ==> self.selected_tab < usize::MAX)
        &&& (self.focused_field == FocusedField::TabContent ==> {
            &&& self.selected_tab < 6
            &&& ((self.selected_tab == 0 || self.selected_tab == 5) && down ==> self.selected_log < usize::MAX)
            &&& (self.selected_tab == 4 && down ==> self.selected_error < usize::MAX)
        })
    }

    /// What a key does: on the tab titles it moves between tabs or enters
    /// one; in the log, the errors and the curl tab it moves the selection; Tab
    /// goes back to the titles. Gives whether the key was used.
    pub open spec fn key_step(self, old: LogsPane<M>, key: Key, r: bool) -> bool {
        let t = old.selected_tab;
        if old.focused_field == FocusedField::Tabs {
            match key {
                Key::Left => r && self == (LogsPane { selected_tab: if t > 0 { (t - 1) as usize } else { 0 }, ..old }),
                Key::Right => r && self == (LogsPane { selected_tab: if t + 1 < 5 { (t + 1) as usize } else { 5 }, ..old }),
                Key::Enter | Key::Char('l') => r && self == (LogsPane { focused_field: FocusedField::TabContent, ..old }),
                _ => !r && self == old,
            }
        } else if t == 0 || t == 5 {
            match list_move(old.selected_log as int, old.logs@.len() as int, key, t == 0) {
                Some(n) => r && self == (LogsPane { selected_log: n as usize, ..old }),
                None => if t == 0 && key == Key::Tab {
                    r && self == (LogsPane { focused_field: FocusedField::Tabs, ..old })
                } else {
                    !r && self == old
                },
            }
        } else if t == 4 {
            match list_move(old.selected_error as int, old.errors@.len() as int, key, true) {
                Some(n) => r && self == (LogsPane { selected_error: n as usize, ..old }),
                None => if key == Key::Tab {
                    r && self == (LogsPane { focused_field: FocusedField::Tabs, ..old })
                } else {
                    !r && self == old
                },
            }
        } else if key == Key::Tab {
            r && self == (LogsPane { focused_field: FocusedField::Tabs, ..old })
        } else {
            !r && self == old
        }
    }

    /// Handles a key; gives whether the pane used it.
    pub fn handle_key(&mut self, key: &KeyPress) -> (r: bool)
        requires
            old(self).key_defined(key.code),
        ensures
            final(self).key_step(*old(self), key.code, r),
    {
        let code = &key.code;
        match self.focused_field {
            FocusedField::Tabs => match code {
                Key::Left => {
                    self.selected_tab = self.selected_tab.saturating_sub(1);
                    true
                },
                Key::Right => {
                    let next = self.selected_tab + 1;
                    self.selected_tab = if next < 5 { next } else { 5 };
                    true
                },
                Key::Enter | Key::Char('l') => {
                    self.focused_field = FocusedField::TabContent;
                    true
                },
                _ => false,
            },
            FocusedField::TabContent => {
                let t = self.selected_tab;
                if t == 0 || t == 5 {
                    match step_list(self.selected_log, self.logs.len(), code, t == 0) {
                        Some(n) => {
                            self.selected_log = n;
                            true
                        },
                        None => {
                            if t == 0 && is_tab(code) {
                                self.focused_field = FocusedField::Tabs;
                                true
                            } else {
                                false
                            }
                        },
                    }
                } else if t == 4 {
                    match step_list(self.selected_error, self.errors.len(), code, true) {
                        Some(n) => {
                            self.selected_error = n;
                            true
                        },
                        None => {
                            if is_tab(code) {
                                self.focused_field = FocusedField::Tabs;
                                true
                            } else {
                                false
                            }
                        },
                    }
                } else if is_tab(code) {
                    self.focused_field = FocusedField::Tabs;
                    true
                } else {
                    false
                }
            },
        }
    }
}

/// Where a selection in a list of `len` lines goes on `key`: up and down by
/// one line, staying inside the list, and, where `jumps`, to the first or the
/// last line; no position where the key does not move it.
pub open spec fn list_move(sel: int, len: int, key: Key, jumps: bool) -> Option<int> {
    let last = if len > 0 { len - 1 } else { 0 };
    match key {
        Key::Up | Key::Char('k') => Some(if sel > 0 { sel - 1 } else { 0 }),
        Key::Down | Key::Char('j') => Some(if sel + 1 < last { sel + 1 } else { last }),
        Key::Char('g') => if jumps { Some(0) } else { None },
        Key::Char('G') => if jumps { Some(last) } else { None },
        _ => None,
    }
}

fn step_list(sel: usize, len: usize, key: &Key, jumps: bool) -> (r: Option<usize>)
    requires
        (*key == Key::Down || *key == Key::Char('j')) ==> sel < usize::MAX,
    ensures
        r == match list_move(sel as int, len as int, *key, jumps) {
            Some(n) => Some(n as usize),
            None => None::<usize>,
        },
{
    let last = len.saturating_sub(1);
    match key {
        Key::Up | Key::Char('k') => Some(sel.saturating_sub(1)),
        Key::Down | Key::Char('j') => {
            let next = sel + 1;
            Some(if next < last { next } else { last })
        },
        Key::Char('g') => if jumps { Some(0) } else { None },
        Key::Char('G') => if jumps { Some(last) } else { None },
        _ => None,
    }
}

fn is_tab(key: &Key) -> (r: bool)
    ensures
        r == (*key == Key::Tab),
{
    match key {
        Key::Tab => true,
        _ => false,
    }
}

} // verus!
