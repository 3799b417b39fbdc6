//! A bounded, in-memory log of the application's messages.

use std::collections::VecDeque;
use vstd::prelude::*;
use vstd::string::*;
use vstd::utf8::*;

verus! {

/// How severe a log message is.
#[derive(Clone, Copy, Debug, PartialEq, Eq, Structural)]
pub enum LogLevel {
    Debug,
    Info,
    Warn,
    Error,
}

/// The text shown for a level. The labels of `Info` and `Warn` are crossed:
/// an `Info` message is shown as "WARN" and a `Warn` message as "INFO".
pub open spec fn level_label(level: LogLevel) -> Seq<char> {
    match level {
        LogLevel::Debug => "DEBUG"@,
        LogLevel::Info => "WARN"@,
        LogLevel::Warn => "INFO"@,
        LogLevel::Error => "ERROR"@,
    }
}

/// The CSS colour in which a level is shown.
pub open spec fn level_color(level: LogLevel) -> Seq<char> {
    match level {
        LogLevel::Debug => "rgb(0, 255, 0)"@,
        LogLevel::Info => "rgb(0, 195, 255)"@,
        LogLevel::Warn => "yellow"@,
        LogLevel::Error => "red"@,
    }
}

impl LogLevel {
    /// The CSS colour in which messages of this level are shown.
    pub fn color(&self) -> (c: &'static str)
        ensures
            c@ == level_color(*self),
    {
        match self {
            LogLevel::Debug => "rgb(0, 255, 0)",
            LogLevel::Info => "rgb(0, 195, 255)",
            LogLevel::Warn => "yellow",
            LogLevel::Error => "red",
        }
    }

    /// The label under which messages of this level are written.
    pub fn label(&self) -> (l: &'static str)
        ensures
            l@ == level_label(*self),
    {
        match self {
            LogLevel::Debug => "DEBUG",
            LogLevel::Info => "WARN",
            LogLevel::Warn => "INFO",
            LogLevel::Error => "ERROR",
        }
    }
}


/// One message of the log.
#[derive(Clone, Debug)]
pub struct Log {
    pub level: LogLevel,
    pub message: String,
    pub datetime: String,
}

/// A log entry as plain values.
pub struct LogView {
    pub level: LogLevel,
    pub message: Seq<char>,
    pub datetime: Seq<char>,
}

impl View for Log {
    type V = LogView;

    open spec fn view(&self) -> LogView {
        LogView { level: self.level, message: self.message@, datetime: self.datetime@ }
    }
}

/// The one-line text of a log entry: level, time and message, separated by " | ".
pub open spec fn log_line(level: LogLevel, datetime: Seq<char>, message: Seq<char>) -> Seq<char> {
    level_label(level) + " | "@ + datetime + " | "@ + message
}

impl Log {
    /// A copy of this entry, equal to it field by field.
    pub fn duplicate(&self) -> (r: Log)
        ensures
            r == *self,
    {
        Log { level: self.level, message: self.message.clone(), datetime: self.datetime.clone() }
    }

    /// The entry as one line of text: "LEVEL | datetime | message".
    pub fn to_line(&self) -> (r: String)
        ensures
            r@ == log_line(self.level, self.datetime@, self.message@),
    {
        let mut r = String::from_str(self.level.label());
        r.append(" | ");
        r.append(self.datetime.as_str());
        r.append(" | ");
        r.append(self.message.as_str());
        r
    }
}


/// The first nineteen bytes of a time stamp, read back as text. For the
/// stamps of the clock this is "YYYY-MM-DD HH:MM:SS".
pub open spec fn stamp_prefix(datetime: Seq<char>) -> Seq<char> {
    decode_utf8(encode_utf8(datetime).subrange(0, 19))
}

/// A stamp that can be cut after its nineteenth byte.
pub open spec fn cuttable_stamp(datetime: Seq<char>) -> bool {
    is_char_boundary(encode_utf8(datetime), 19)
}

/// The shape of every stamp that the clock gives: ASCII text of at least
/// nineteen characters.
pub open spec fn clock_stamp(datetime: Seq<char>) -> bool {
    is_ascii_chars(datetime) && datetime.len() >= 19
}

/// Every stamp of the clock can be cut after its nineteenth byte, and the
/// cut keeps its first nineteen characters.
pub proof fn lemma_clock_stamp_cuttable(datetime: Seq<char>)
    requires
        clock_stamp(datetime),
    ensures
        cuttable_stamp(datetime),
        stamp_prefix(datetime) == datetime.subrange(0, 19),
{
    broadcast use is_ascii_chars_encode_utf8, encode_utf8_valid_utf8, encode_utf8_decode_utf8;

    let bytes = encode_utf8(datetime);
    assert(valid_utf8(bytes));
    if bytes.len() == 19 {
        is_char_boundary_start_end_of_seq(bytes);
    } else {
        is_ascii_chars_nat_bound(datetime);
        assert(datetime[19] as u8 == bytes[19]);
        assert((datetime[19] as nat) < 128);
        is_char_boundary_iff_not_is_continuation_byte(bytes, 19);
    }
    let head = datetime.subrange(0, 19);
    assert(is_ascii_chars(head));
    is_ascii_chars_encode_utf8(head);
    assert(encode_utf8(head) =~= bytes.subrange(0, 19));
}

/// Reads the clock: `chrono::Local::now()` as chrono's `Display` writes it,
/// "YYYY-MM-DD HH:MM:SS[.fraction] +HH:MM" (a year outside 0..=9999 is
/// written with its sign). Only the shape is stated, which holds of every
/// reading: the text is ASCII and at least nineteen characters long. Which
/// time it reads is not stated.
#[verifier::external_body]
fn local_time_stamp() -> (r: String)
    ensures
        clock_stamp(r@),
{
    chrono::Local::now().to_string()
}

/// The first nineteen bytes of `datetime`.
fn cut_stamp(datetime: &str) -> (r: String)
    requires
        cuttable_stamp(datetime@),
    ensures
        r@ == stamp_prefix(datetime@),
{
    broadcast use encode_utf8_valid_utf8, encode_utf8_decode_utf8;

    let (head, _tail) = datetime.split_at(19);
    head.to_owned()
}

/// The state of a logger as plain values.
pub struct LoggerView {
    pub save_to_file: bool,
    pub write_to_stdout: bool,
    pub log_file: Seq<char>,
    pub entries: Seq<LogView>,
    pub max_logs: nat,
}

impl LoggerView {
    /// The state after `entry` is recorded: it is appended, and when the log
    /// then holds `max_logs` entries or more, the oldest one is dropped.
    pub open spec fn logged(self, entry: LogView) -> LoggerView {
        let pushed = self.entries.push(entry);
        LoggerView {
            save_to_file: self.save_to_file,
            write_to_stdout: self.write_to_stdout,
            log_file: self.log_file,
            entries: if pushed.len() >= self.max_logs {
                pushed.drop_first()
            } else {
                pushed
            },
            max_logs: self.max_logs,
        }
    }
}

/// What a caller owes the outside world after a message is logged: the full
/// entry, and whether it goes to the log file and to standard output.
pub struct LogDispatch {
    pub entry: Log,
    pub write_to_file: bool,
    pub write_to_stdout: bool,
}

/// The application's log: the most recent entries, and where each new entry
/// is also written.
pub struct Logger {
    save_to_file: bool,
    write_to_stdout: bool,
    log_file: String,
    log_entries: VecDeque<Log>,
    max_logs: usize,
}

impl View for Logger {
    type V = LoggerView;

    closed spec fn view(&self) -> LoggerView {
        LoggerView {
            save_to_file: self.save_to_file,
            write_to_stdout: self.write_to_stdout,
            log_file: self.log_file@,
            entries: self.log_entries@.map_values(|l: Log| l@),
            max_logs: self.max_logs as nat,
        }
    }
}

impl Logger {
    /// A logger that writes to `log_file` once saving is switched on: it keeps
    /// up to a hundred entries, and writes nowhere but to memory at first.
    pub fn new(log_file: String) -> (l: Logger)
        ensures
            l@ == (LoggerView {
                save_to_file: false,
                write_to_stdout: false,
                log_file: log_file@,
                entries: Seq::empty(),
                max_logs: 100,
            }),
    {
        let l = Logger {
            save_to_file: false,
            write_to_stdout: false,
            log_file,
            log_entries: VecDeque::new(),
            max_logs: 100,
        };
        assert(l@.entries =~= Seq::<LogView>::empty());
        l
    }

    /// The path of the file that entries are written to.
    pub fn log_file(&self) -> (r: &str)
        ensures
            r@ == self@.log_file,
    {
        self.log_file.as_str()
    }

    /// Records `message` at `level`, stamped with `datetime`; the log keeps
    /// the first nineteen bytes of the stamp. Returns the entry with the full
    /// stamp and where it is to be written.
    pub fn log_at(&mut self, level: LogLevel, message: &str, datetime: &str) -> (d: LogDispatch)
        requires
            cuttable_stamp(datetime@),
        ensures
            d.entry@ == (LogView { level, message: message@, datetime: datetime@ }),
            d.write_to_file == old(self)@.save_to_file,
            d.write_to_stdout == old(self)@.write_to_stdout,
            final(self)@ == old(self)@.logged(
                LogView { level, message: message@, datetime: stamp_prefix(datetime@) },
            ),
    {
        let entry = Log { level, message: message.to_owned(), datetime: datetime.to_owned() };
        let kept = Log { level, message: message.to_owned(), datetime: cut_stamp(datetime) };
        let ghost before = self.log_entries@;
        self.log_entries.push_back(kept);
        assert(self.log_entries@ == before.push(kept));
        if self.log_entries.len() >= self.max_logs {
            let _oldest = self.log_entries.pop_front();
        }
        let ghost pushed = before.push(kept).map_values(|l: Log| l@);
        assert(before.push(kept).map_values(|l: Log| l@) =~= before.map_values(|l: Log| l@).push(kept@));
        assert(self@.entries =~= if pushed.len() >= self.max_logs {
            pushed.drop_first()
        } else {
            pushed
        });
        LogDispatch {
            entry,
            write_to_file: self.save_to_file,
            write_to_stdout: self.write_to_stdout,
        }
    }

    /// Records `message` at `level`, stamped with the current local time.
    /// Whatever time the clock gives, the full stamp is returned in the
    /// entry, and the log keeps its first nineteen characters.
    pub fn log(&mut self, level: LogLevel, message: &str) -> (d: LogDispatch)
        ensures
            clock_stamp(d.entry.datetime@),
            d.entry.level == level,
            d.entry.message@ == message@,
            d.write_to_file == old(self)@.save_to_file,
            d.write_to_stdout == old(self)@.write_to_stdout,
            final(self)@ == old(self)@.logged(
                LogView {
                    level,
                    message: message@,
                    datetime: d.entry.datetime@.subrange(0, 19),
                },
            ),
    {
        let now = local_time_stamp();
        proof {
            lemma_clock_stamp_cuttable(now@);
        }
        self.log_at(level, message, now.as_str())
    }

    /// All entries, oldest first.
    pub fn entries(&self) -> (r: Vec<Log>)
        ensures
            r@.map_values(|l: Log| l@) == self@.entries,
    {
        let mut r: Vec<Log> = Vec::new();
        let n = self.log_entries.len();
        for i in 0..n
            invariant
                n == self.log_entries@.len(),
                r@.len() == i,
                forall|j: int| 0 <= j < i ==> #[trigger] r@[j] == self.log_entries@[j],
        {
            r.push(self.log_entries[i].duplicate());
        }
        assert(r@.map_values(|l: Log| l@) =~= self@.entries);
        r
    }
}

/// Switches writing each new entry to the log file on or off.
pub fn set_save_to_file(logger: &mut Logger, b: bool)
    ensures
        final(logger)@ == (LoggerView { save_to_file: b, ..old(logger)@ }),
{
    logger.save_to_file = b;
}

/// Switches writing each new entry to standard output on or off.
pub fn set_write_to_stdout(logger: &mut Logger, b: bool)
    ensures
        final(logger)@ == (LoggerView { write_to_stdout: b, ..old(logger)@ }),
{
    logger.write_to_stdout = b;
}

/// Sets the bound on the number of entries kept. Entries already kept stay
/// until new ones push them out.
pub fn set_max_logs(logger: &mut Logger, s: usize)
    ensures
        final(logger)@ == (LoggerView { max_logs: s as nat, ..old(logger)@ }),
{
    logger.max_logs = s;
}

/// Logs `message` at the debug level.
pub fn debug(logger: &mut Logger, message: &str) -> (d: LogDispatch)
    ensures
        logged_now(*old(logger), *final(logger), LogLevel::Debug, message@, d),
{
    logger.log(LogLevel::Debug, message)
}

/// Logs `message` at the warning level.
pub fn warn(logger: &mut Logger, message: &str) -> (d: LogDispatch)
    ensures
        logged_now(*old(logger), *final(logger), LogLevel::Warn, message@, d),
{
    logger.log(LogLevel::Warn, message)
}

/// Logs `message` at the information level.
pub fn info(logger: &mut Logger, message: &str) -> (d: LogDispatch)
    ensures
        logged_now(*old(logger), *final(logger), LogLevel::Info, message@, d),
{
    logger.log(LogLevel::Info, message)
}

/// Logs `message` at the error level.
pub fn error(logger: &mut Logger, message: &str) -> (d: LogDispatch)
    ensures
        logged_now(*old(logger), *final(logger), LogLevel::Error, message@, d),
{
    logger.log(LogLevel::Error, message)
}

/// All entries of the log, oldest first.
pub fn get_log_entries(logger: &Logger) -> (r: Vec<Log>)
    ensures
        r@.map_values(|l: Log| l@) == logger@.entries,
{
    logger.entries()
}

/// `after` is `before` with `message` logged at `level` at the time that the
/// dispatch `d` carries, and `d` says where the entry is to be written.
pub open spec fn logged_now(
    before: Logger,
    after: Logger,
    level: LogLevel,
    message: Seq<char>,
    d: LogDispatch,
) -> bool {
    &&& clock_stamp(d.entry.datetime@)
    &&& d.entry.level == level
    &&& d.entry.message@ == message
    &&& d.write_to_file == before@.save_to_file
    &&& d.write_to_stdout == before@.write_to_stdout
    &&& after@ == before@.logged(
        LogView { level, message, datetime: d.entry.datetime@.subrange(0, 19) },
    )
}


/// Logging changes nothing but the entries. The log grows by one entry per
/// message until it holds `max_logs - 1` entries; from then on each new entry
/// pushes the oldest one out, and the number of entries stays as it is.
pub proof fn lemma_logged_size(before: LoggerView, entry: LogView)
    ensures
        before.logged(entry).save_to_file == before.save_to_file,
        before.logged(entry).write_to_stdout == before.write_to_stdout,
        before.logged(entry).log_file == before.log_file,
        before.logged(entry).max_logs == before.max_logs,
        before.logged(entry).entries.len() == if before.entries.len() + 1 >= before.max_logs {
            before.entries.len()
        } else {
            before.entries.len() + 1
        },
{
}

/// A log that holds fewer than `max_logs` entries still does after a new
/// message: logging never takes it to its bound.
pub proof fn lemma_logged_within_bound(before: LoggerView, entry: LogView)
    requires
        before.entries.len() < before.max_logs,
    ensures
        before.logged(entry).entries.len() < before.max_logs,
{
}

/// The new entry is the last one, and the entries kept before it are the
/// most recent ones of the old log, in their old order. The one exception is
/// an empty log whose bound is at most one, which stays empty.
pub proof fn lemma_logged_newest_last(before: LoggerView, entry: LogView)
    requires
        before.entries.len() > 0 || before.max_logs > 1,
    ensures
        before.logged(entry).entries.len() > 0,
        before.logged(entry).entries.last() == entry,
        before.logged(entry).entries == before.entries.skip(
            before.entries.len() + 1 - before.logged(entry).entries.len(),
        ).push(entry),
{
    let after = before.logged(entry);
    if before.entries.len() + 1 >= before.max_logs {
        assert(after.entries =~= before.entries.skip(1).push(entry));
    } else {
        assert(after.entries =~= before.entries.skip(0).push(entry));
    }
}

} // verus!
