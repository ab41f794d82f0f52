//! The log that the application keeps of itself: entries, a bounded
//! collection of them, and their export as text.

use crate::text::{append, copy_of, decimal, last_segment, last_segment_of, option_view, push_decimal, SLASH};
use vstd::prelude::*;
use vstd::string::StringSliceAdditionalSpecFns;

verus! {

/// How grave a log entry is.
#[derive(Clone, Copy, PartialEq, Eq, Structural, Debug)]
pub enum LogLevel {
    Error,
    Warn,
    Info,
    Debug,
    Trace,
}

/// The name of a level as entries carry it.
pub open spec fn level_name(level: LogLevel) -> Seq<u8> {
    match level {
        LogLevel::Error => "error".spec_bytes(),
        LogLevel::Warn => "warn".spec_bytes(),
        LogLevel::Info => "info".spec_bytes(),
        LogLevel::Debug => "debug".spec_bytes(),
        LogLevel::Trace => "trace".spec_bytes(),
    }
}

/// The name of a level as an exported line carries it.
pub open spec fn level_heading(level: LogLevel) -> Seq<u8> {
    match level {
        LogLevel::Error => "ERROR".spec_bytes(),
        LogLevel::Warn => "WARN".spec_bytes(),
        LogLevel::Info => "INFO".spec_bytes(),
        LogLevel::Debug => "DEBUG".spec_bytes(),
        LogLevel::Trace => "TRACE".spec_bytes(),
    }
}

impl LogLevel {
    pub fn name(&self) -> (name: &'static str)
        ensures
            name.spec_bytes() == level_name(*self),
    {
        match self {
            LogLevel::Error => "error",
            LogLevel::Warn => "warn",
            LogLevel::Info => "info",
            LogLevel::Debug => "debug",
            LogLevel::Trace => "trace",
        }
    }

    pub fn heading(&self) -> (name: &'static str)
        ensures
            name.spec_bytes() == level_heading(*self),
    {
        match self {
            LogLevel::Error => "ERROR",
            LogLevel::Warn => "WARN",
            LogLevel::Info => "INFO",
            LogLevel::Debug => "DEBUG",
            LogLevel::Trace => "TRACE",
        }
    }
}

/// One entry of the log.
#[derive(Debug)]
pub struct LogEntry {
    pub timestamp: Vec<u8>,
    pub level: LogLevel,
    pub message: Vec<u8>,
    pub target: Option<Vec<u8>>,
    /// The name of the source file, without its directories.
    pub file: Option<Vec<u8>>,
    pub line: Option<u32>,
}

pub struct LogEntryView {
    pub timestamp: Seq<u8>,
    pub level: LogLevel,
    pub message: Seq<u8>,
    pub target: Option<Seq<u8>>,
    pub file: Option<Seq<u8>>,
    pub line: Option<u32>,
}

impl View for LogEntry {
    type V = LogEntryView;

    open spec fn view(&self) -> LogEntryView {
        LogEntryView {
            timestamp: self.timestamp@,
            level: self.level,
            message: self.message@,
            target: option_view(self.target),
            file: option_view(self.file),
            line: self.line,
        }
    }
}

pub open spec fn entries_view(entries: Seq<LogEntry>) -> Seq<LogEntryView> {
    Seq::new(entries.len(), |i: int| entries[i]@)
}

/// The entry for a record: the file is named without its directories.
pub open spec fn entry_for(
    timestamp: Seq<u8>,
    level: LogLevel,
    message: Seq<u8>,
    target: Seq<u8>,
    file: Option<Seq<u8>>,
    line: Option<u32>,
) -> LogEntryView {
    LogEntryView {
        timestamp,
        level,
        message,
        target: Some(target),
        file: match file {
            Some(path) => Some(last_segment(path, SLASH)),
            None => None,
        },
        line,
    }
}

impl LogEntry {
    /// Makes the entry for a record.
    pub fn of_record(
        timestamp: &[u8],
        level: LogLevel,
        message: &[u8],
        target: &[u8],
        file: Option<&[u8]>,
        line: Option<u32>,
    ) -> (entry: LogEntry)
        ensures
            entry@ == entry_for(
                timestamp@,
                level,
                message@,
                target@,
                match file {
                    Some(path) => Some(path@),
                    None => None,
                },
                line,
            ),
    {
        let name = match file {
            Some(path) => Some(copy_of(last_segment_of(path, SLASH))),
            None => None,
        };
        LogEntry {
            timestamp: copy_of(timestamp),
            level,
            message: copy_of(message),
            target: Some(copy_of(target)),
            file: name,
            line,
        }
    }

    pub fn duplicate(&self) -> (copy: LogEntry)
        ensures
            copy@ == self@,
    {
        LogEntry {
            timestamp: copy_of(self.timestamp.as_slice()),
            level: self.level,
            message: copy_of(self.message.as_slice()),
            target: match &self.target {
                Some(target) => Some(copy_of(target.as_slice())),
                None => None,
            },
            file: match &self.file {
                Some(file) => Some(copy_of(file.as_slice())),
                None => None,
            },
            line: self.line,
        }
    }
}

/// Keeps the newest entries of the log, at most `max_logs` of them.
pub struct LogCollector {
    logs: Vec<LogEntry>,
    max_logs: usize,
}

/// The entries after one more has come in: the new one is last, and the
/// oldest has gone where there were too many.
pub open spec fn with_entry(entries: Seq<LogEntryView>, max_logs: nat, entry: LogEntryView) -> Seq<
    LogEntryView,
> {
    if entries.len() + 1 > max_logs {
        entries.push(entry).drop_first()
    } else {
        entries.push(entry)
    }
}

impl LogCollector {
    /// The entries that are kept, oldest first.
    pub closed spec fn entries(&self) -> Seq<LogEntryView> {
        entries_view(self.logs@)
    }

    /// The number of entries beyond which the oldest is dropped.
    pub closed spec fn capacity(&self) -> nat {
        self.max_logs as nat
    }

    pub fn new(max_logs: usize) -> (collector: LogCollector)
        ensures
            collector.entries() == Seq::<LogEntryView>::empty(),
            collector.capacity() == max_logs,
    {
        let collector = LogCollector { logs: Vec::new(), max_logs };
        assert(collector.entries() =~= Seq::<LogEntryView>::empty());
        collector
    }

    /// Takes in an entry. A collector that held no more entries than its
    /// capacity holds no more afterwards.
    pub fn add_log(&mut self, entry: LogEntry)
        ensures
            final(self).entries() == with_entry(old(self).entries(), old(self).capacity(), entry@),
            final(self).capacity() == old(self).capacity(),
            old(self).entries().len() <= old(self).capacity() ==> final(self).entries().len()
                <= final(self).capacity(),
    {
        let ghost before = self.entries();
        let ghost added = entry@;
        self.logs.push(entry);
        assert(entries_view(self.logs@) =~= before.push(added));
        if self.logs.len() > self.max_logs {
            self.logs.remove(0);
            assert(entries_view(self.logs@) =~= before.push(added).drop_first());
        }
    }

    /// A copy of the entries that are kept, oldest first.
    pub fn get_logs(&self) -> (logs: Vec<LogEntry>)
        ensures
            entries_view(logs@) == self.entries(),
    {
        let mut logs: Vec<LogEntry> = Vec::new();
        let mut i: usize = 0;
        while i < self.logs.len()
            invariant
                i <= self.logs.len(),
                logs@.len() == i,
                forall|j: int| 0 <= j < i ==> (#[trigger] logs@[j])@ == self.logs@[j]@,
            decreases self.logs.len() - i,
        {
            logs.push(self.logs[i].duplicate());
            i += 1;
        }
        assert(entries_view(logs@) =~= self.entries());
        logs
    }

    /// Drops every entry.
    pub fn clear_logs(&mut self)
        ensures
            final(self).entries() == Seq::<LogEntryView>::empty(),
            final(self).capacity() == old(self).capacity(),
    {
        self.logs.clear();
        assert(self.entries() =~= Seq::<LogEntryView>::empty());
    }
}

/// Where an entry came from, as an exported line says it: file and line,
/// the file alone, or `unknown`.
pub open spec fn origin_text(entry: LogEntryView) -> Seq<u8> {
    match entry.file {
        Some(file) => match entry.line {
            Some(line) => file + seq![58u8] + decimal(line as nat),
            None => file,
        },
        None => "unknown".spec_bytes(),
    }
}

/// The line that an entry is exported as.
pub open spec fn exported_line(entry: LogEntryView) -> Seq<u8> {
    seq![91u8] + entry.timestamp + "] [".spec_bytes() + level_heading(entry.level)
        + "] [".spec_bytes() + origin_text(entry) + "] ".spec_bytes() + entry.message + seq![10u8]
}

/// The lines of the first `upto` entries.
pub open spec fn exported_lines(entries: Seq<LogEntryView>, upto: int) -> Seq<u8>
    decreases upto,
{
    if upto <= 0 || upto > entries.len() {
        Seq::empty()
    } else {
        exported_lines(entries, upto - 1) + exported_line(entries[upto - 1])
    }
}

/// Eighty equals signs.
pub open spec fn rule_line() -> Seq<u8> {
    Seq::new(80, |i: int| 61u8)
}

/// The text that a log is exported as: a heading with the time of the
/// export and the number of entries, a rule, and one line for each entry.
pub open spec fn exported_text(entries: Seq<LogEntryView>, exported_at: Seq<u8>) -> Seq<u8> {
    "Sunshine Control Panel 日志导出\n导出时间: ".spec_bytes() + exported_at
        + "\n日志总数: ".spec_bytes() + decimal(entries.len()) + seq![10u8] + rule_line()
        + seq![10u8, 10u8] + exported_lines(entries, entries.len() as int)
}

fn push_line(text: &mut Vec<u8>, entry: &LogEntry)
    ensures
        final(text)@ == old(text)@ + exported_line(entry@),
{
    text.push(91);
    append(text, entry.timestamp.as_slice());
    append(text, "] [".as_bytes());
    append(text, entry.level.heading().as_bytes());
    append(text, "] [".as_bytes());
    match &entry.file {
        Some(file) => {
            append(text, file.as_slice());
            match entry.line {
                Some(line) => {
                    text.push(58);
                    push_decimal(text, line as u64);
                },
                None => {},
            }
        },
        None => {
            append(text, "unknown".as_bytes());
        },
    }
    append(text, "] ".as_bytes());
    append(text, entry.message.as_slice());
    text.push(10);
    assert(text@ =~= old(text)@ + exported_line(entry@));
}

/// Writes a log out as text.
pub fn export_text(logs: &Vec<LogEntry>, exported_at: &[u8]) -> (text: Vec<u8>)
    ensures
        text@ == exported_text(entries_view(logs@), exported_at@),
{
    let mut text = copy_of("Sunshine Control Panel 日志导出\n导出时间: ".as_bytes());
    append(&mut text, exported_at);
    append(&mut text, "\n日志总数: ".as_bytes());
    push_decimal(&mut text, logs.len() as u64);
    text.push(10);
    let mut k: usize = 0;
    let ghost before_rule = text@;
    while k < 80
        invariant
            k <= 80,
            text@ == before_rule + Seq::new(k as nat, |i: int| 61u8),
        decreases 80 - k,
    {
        text.push(61);
        k += 1;
        assert(text@ =~= before_rule + Seq::new(k as nat, |i: int| 61u8));
    }
    text.push(10);
    text.push(10);
    let ghost heading = text@;
    assert(heading =~= before_rule + rule_line() + seq![10u8, 10u8]);
    let mut i: usize = 0;
    assert(text@ =~= heading + exported_lines(entries_view(logs@), 0));
    while i < logs.len()
        invariant
            i <= logs.len(),
            text@ == heading + exported_lines(entries_view(logs@), i as int),
        decreases logs.len() - i,
    {
        assert(entries_view(logs@)[i as int] == logs@[i as int]@);
        push_line(&mut text, &logs[i]);
        i += 1;
        assert(text@ =~= heading + exported_lines(entries_view(logs@), i as int));
    }
    text
}

} // verus!
