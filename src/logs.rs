//! Log entries, their levels, and the classification of raw log text.
use vstd::prelude::*;
use vstd::seq_lib::to_multiset_insert;

use crate::error::AppError;
use crate::json::{json_document, parse_json, Json};
use crate::kubernetes::ComponentKind;
use crate::text::{
    blank_range, chars_of, contains, contains_exec, decimal, find, find_exec, find_from,
    find_from_exec, is_blank, lower_of, lowercase, opt_text, push_decimal, same_text, single, sub_chars, lex_lt, lemma_lex_asymmetric, lemma_lex_total, lemma_lex_transitive, chars_less,
    text_of, text_of_all, trim, trim_bounds, trimmed_text, upper_of, uppercase,
};

verus! {

/// The severity of one log entry.
#[derive(Debug, Clone, Copy, PartialEq, Eq, Structural)]
pub enum LogLevel {
    Error,
    Warning,
    Info,
    Debug,
}

/// One normalized log entry.
#[derive(Debug, Clone)]
pub struct LogEntry {
    pub timestamp: String,
    pub level: LogLevel,
    pub message: String,
    pub source: String,
}

/// The abstract content of a [`LogEntry`].
pub ghost struct EntryView {
    pub timestamp: Seq<char>,
    pub level: LogLevel,
    pub message: Seq<char>,
    pub source: Seq<char>,
}

impl View for LogEntry {
    type V = EntryView;

    open spec fn view(&self) -> EntryView {
        EntryView {
            timestamp: self.timestamp@,
            level: self.level,
            message: self.message@,
            source: self.source@,
        }
    }
}

/// The abstract contents of a sequence of entries.
pub open spec fn entries_view(s: Seq<LogEntry>) -> Seq<EntryView> {
    s.map_values(|e: LogEntry| e@)
}

/// The level that a lowercase level name stands for: exact names and abbreviations
/// first, then keywords within the name, and `Info` when nothing matches.
pub open spec fn level_from_lower(s: Seq<char>) -> LogLevel {
    if s == "error"@ || s == "err"@ || s == "fatal"@ || s == "failed"@ {
        LogLevel::Error
    } else if s == "warning"@ || s == "warn"@ || s == "w"@ {
        LogLevel::Warning
    } else if s == "info"@ || s == "information"@ || s == "i"@ {
        LogLevel::Info
    } else if s == "debug"@ || s == "dbg"@ || s == "trace"@ || s == "d"@ {
        LogLevel::Debug
    } else if contains(s, "error"@) || contains(s, "failed"@) || contains(s, "fatal"@) {
        LogLevel::Error
    } else if contains(s, "warn"@) {
        LogLevel::Warning
    } else if contains(s, "info"@) {
        LogLevel::Info
    } else if contains(s, "debug"@) || contains(s, "trace"@) {
        LogLevel::Debug
    } else {
        LogLevel::Info
    }
}

/// The level that a level name of any case stands for.
pub open spec fn level_of_name(s: Seq<char>) -> LogLevel {
    level_from_lower(lower_of(s))
}

/// The rank of a level, from `Debug` (lowest) to `Error` (highest).
pub open spec fn priority(level: LogLevel) -> u8 {
    match level {
        LogLevel::Debug => 0,
        LogLevel::Info => 1,
        LogLevel::Warning => 2,
        LogLevel::Error => 3,
    }
}

/// The level that an already lowercase level name stands for.
pub fn level_from_lowercase(s: &str) -> (r: LogLevel)
    ensures
        r == level_from_lower(s@),
{
    if same_text(s, "error") || same_text(s, "err") || same_text(s, "fatal") || same_text(
        s,
        "failed",
    ) {
        return LogLevel::Error;
    }
    if same_text(s, "warning") || same_text(s, "warn") || same_text(s, "w") {
        return LogLevel::Warning;
    }
    if same_text(s, "info") || same_text(s, "information") || same_text(s, "i") {
        return LogLevel::Info;
    }
    if same_text(s, "debug") || same_text(s, "dbg") || same_text(s, "trace") || same_text(s, "d") {
        return LogLevel::Debug;
    }
    let cs = crate::text::chars_of(s);
    if contains_exec(&cs, "error") || contains_exec(&cs, "failed") || contains_exec(&cs, "fatal") {
        LogLevel::Error
    } else if contains_exec(&cs, "warn") {
        LogLevel::Warning
    } else if contains_exec(&cs, "info") {
        LogLevel::Info
    } else if contains_exec(&cs, "debug") || contains_exec(&cs, "trace") {
        LogLevel::Debug
    } else {
        LogLevel::Info
    }
}

impl LogLevel {
    /// The level that a level name stands for, whatever its case.
    pub fn from_str(s: &str) -> (r: Self)
        ensures
            r == level_of_name(s@),
    {
        let lower = lowercase(s);
        level_from_lowercase(lower.as_str())
    }

    /// A colored marker for the level.
    pub fn color_code(&self) -> (r: &'static str)
        ensures
            r@ == match *self {
                LogLevel::Error => "\u{1f534}"@,
                LogLevel::Warning => "\u{1f7e1}"@,
                LogLevel::Info => "\u{1f535}"@,
                LogLevel::Debug => "\u{26aa}"@,
            },
    {
        match self {
            LogLevel::Error => "\u{1f534}",
            LogLevel::Warning => "\u{1f7e1}",
            LogLevel::Info => "\u{1f535}",
            LogLevel::Debug => "\u{26aa}",
        }
    }

    /// The level's name in capitals.
    pub fn to_string(&self) -> (r: &'static str)
        ensures
            r@ == match *self {
                LogLevel::Error => "ERROR"@,
                LogLevel::Warning => "WARN"@,
                LogLevel::Info => "INFO"@,
                LogLevel::Debug => "DEBUG"@,
            },
    {
        match self {
            LogLevel::Error => "ERROR",
            LogLevel::Warning => "WARN",
            LogLevel::Info => "INFO",
            LogLevel::Debug => "DEBUG",
        }
    }
}

/// The rank of a level, from `Debug` (lowest) to `Error` (highest).
pub fn level_priority(level: &LogLevel) -> (r: u8)
    ensures
        r == priority(*level),
{
    match level {
        LogLevel::Debug => 0,
        LogLevel::Info => 1,
        LogLevel::Warning => 2,
        LogLevel::Error => 3,
    }
}

/// What follows the first `tag` in `line`, trimmed; the whole line where the tag ends it.
pub open spec fn after_tag(line: Seq<char>, tag: Seq<char>) -> Option<Seq<char>> {
    match find(line, tag) {
        Some(p) => Some(
            if p + tag.len() < line.len() {
                trim(line.subrange(p + tag.len(), line.len() as int))
            } else {
                line
            },
        ),
        None => None,
    }
}

/// The level and message of a line that holds a bracketed level tag. The tags are tried
/// in the order `[ERROR]`, `[WARN]`, `[WARNING]`, `[INFO]`, `[DEBUG]`, `[TRACE]`.
pub open spec fn tagged_parts(line: Seq<char>) -> Option<(LogLevel, Seq<char>)> {
    if after_tag(line, "[ERROR]"@) is Some {
        Some((LogLevel::Error, after_tag(line, "[ERROR]"@).unwrap()))
    } else if after_tag(line, "[WARN]"@) is Some {
        Some((LogLevel::Warning, after_tag(line, "[WARN]"@).unwrap()))
    } else if after_tag(line, "[WARNING]"@) is Some {
        Some((LogLevel::Warning, after_tag(line, "[WARNING]"@).unwrap()))
    } else if after_tag(line, "[INFO]"@) is Some {
        Some((LogLevel::Info, after_tag(line, "[INFO]"@).unwrap()))
    } else if after_tag(line, "[DEBUG]"@) is Some {
        Some((LogLevel::Debug, after_tag(line, "[DEBUG]"@).unwrap()))
    } else if after_tag(line, "[TRACE]"@) is Some {
        Some((LogLevel::Debug, after_tag(line, "[TRACE]"@).unwrap()))
    } else {
        None
    }
}

/// `LEVEL: message`: the trimmed text before the first colon and the trimmed text after it.
pub open spec fn level_split(rest: Seq<char>) -> Option<(Seq<char>, Seq<char>)> {
    match find(rest, seq![':']) {
        Some(c) => Some((trim(rest.subrange(0, c)), trim(rest.subrange(c + 1, rest.len() as int)))),
        None => None,
    }
}

/// Timestamp, level name and message of a line that starts with an ISO-like timestamp:
/// everything up to the first `Z` after the first `T`, then `LEVEL: message`.
pub open spec fn iso_parts(line: Seq<char>) -> Option<(Seq<char>, Seq<char>, Seq<char>)> {
    match find(line, seq!['T']) {
        Some(t) => match find_from(line, seq!['Z'], t) {
            Some(z) => match level_split(trim(line.subrange(z + 1, line.len() as int))) {
                Some((level, message)) => Some((line.subrange(0, z + 1), level, message)),
                None => None,
            },
            None => None,
        },
        None => None,
    }
}

/// Timestamp, level name and message of a line that starts with a bracketed timestamp,
/// `[time] LEVEL: message`.
pub open spec fn bracket_time_parts(line: Seq<char>) -> Option<(Seq<char>, Seq<char>, Seq<char>)> {
    if line.len() > 0 && line[0] == '[' {
        match find(line, seq![']']) {
            Some(e) => match level_split(trim(line.subrange(e + 1, line.len() as int))) {
                Some((level, message)) => Some((line.subrange(1, e), level, message)),
                None => None,
            },
            None => None,
        }
    } else {
        None
    }
}

/// Timestamp, stream and message of a container log line, `<ts> <stream> <F|P> <message>`:
/// the line cut at its first three spaces.
pub open spec fn container_parts(line: Seq<char>) -> Option<(Seq<char>, Seq<char>, Seq<char>)> {
    match find(line, seq![' ']) {
        Some(a) => match find_from(line, seq![' '], a + 1) {
            Some(b) => match find_from(line, seq![' '], b + 1) {
                Some(c) => Some(
                    (
                        line.subrange(0, a),
                        line.subrange(a + 1, b),
                        line.subrange(c + 1, line.len() as int),
                    ),
                ),
                None => None,
            },
            None => None,
        },
        None => None,
    }
}

/// The level that a keyword anywhere in an uppercase line names, by priority.
pub open spec fn keyword_level(u: Seq<char>) -> Option<LogLevel> {
    if contains(u, "ERROR"@) || contains(u, "FAILED"@) || contains(u, "FATAL"@) {
        Some(LogLevel::Error)
    } else if contains(u, "WARN"@) || contains(u, "WARNING"@) {
        Some(LogLevel::Warning)
    } else if contains(u, "INFO"@) {
        Some(LogLevel::Info)
    } else if contains(u, "DEBUG"@) || contains(u, "TRACE"@) {
        Some(LogLevel::Debug)
    } else {
        None
    }
}

/// The synthetic timestamp of the line with 0-based number `n`.
pub open spec fn line_label(n: nat) -> Seq<char> {
    "line-"@ + decimal(n + 1)
}

/// The entry that one text line with 0-based number `n` classifies to.
pub open spec fn line_entry(line: Seq<char>, n: nat) -> EntryView {
    match tagged_parts(line) {
        Some((level, message)) => EntryView {
            timestamp: line_label(n),
            level,
            message,
            source: "kubernetes"@,
        },
        None => match iso_parts(line) {
            Some((timestamp, level, message)) => EntryView {
                timestamp,
                level: level_of_name(level),
                message,
                source: "app"@,
            },
            None => match bracket_time_parts(line) {
                Some((timestamp, level, message)) => EntryView {
                    timestamp,
                    level: level_of_name(level),
                    message,
                    source: "app"@,
                },
                None => match container_parts(line) {
                    Some((timestamp, stream, message)) => EntryView {
                        timestamp,
                        level: if stream == "stderr"@ {
                            LogLevel::Error
                        } else {
                            LogLevel::Info
                        },
                        message,
                        source: "container"@,
                    },
                    None => EntryView {
                        timestamp: line_label(n),
                        level: match keyword_level(upper_of(line)) {
                            Some(level) => level,
                            None => LogLevel::Info,
                        },
                        message: line,
                        source: "raw"@,
                    },
                },
            },
        },
    }
}

/// A line without the carriage return that ends it, if any.
pub open spec fn strip_cr(l: Seq<char>) -> Seq<char> {
    if l.len() > 0 && l.last() == '\r' {
        l.drop_last()
    } else {
        l
    }
}

/// The entries of the lines of `s` from position `start` on, the first of which has the
/// 0-based number `n`. Lines end at a line feed (a carriage return just before it is
/// dropped); a last line may go without one; blank lines give no entry but keep their number.
pub open spec fn line_entries(s: Seq<char>, start: int, n: nat) -> Seq<EntryView>
    decreases s.len() - start,
{
    if start < 0 || start >= s.len() {
        seq![]
    } else {
        match find_from(s, seq!['\n'], start) {
            Some(e) => {
                // `find_from` never gives a position outside `start..s.len()`; the test
                // makes the termination evident.
                if start <= e < s.len() {
                    let line = strip_cr(s.subrange(start, e));
                    let rest = line_entries(s, e + 1, n + 1);
                    if is_blank(line) {
                        rest
                    } else {
                        seq![line_entry(line, n)] + rest
                    }
                } else {
                    seq![]
                }
            },
            None => {
                let line = s.subrange(start, s.len() as int);
                if is_blank(line) {
                    seq![]
                } else {
                    seq![line_entry(line, n)]
                }
            },
        }
    }
}

/// The entries of a plain-text log.
pub open spec fn text_entries(s: Seq<char>) -> Seq<EntryView> {
    line_entries(s, 0, 0)
}

/// Three optional texts, by their characters.
pub open spec fn opt_text3(o: Option<(String, String, String)>) -> Option<
    (Seq<char>, Seq<char>, Seq<char>),
> {
    match o {
        Some((a, b, c)) => Some((a@, b@, c@)),
        None => None,
    }
}

fn after_tag_exec(line: &Vec<char>, tag: &str) -> (r: Option<String>)
    ensures
        opt_text(r) == after_tag(line@, tag@),
{
    let tc = chars_of(tag);
    let len = line.len();
    match find_exec(line, &tc) {
        Some(p) => {
            if p + tc.len() < len {
                Some(trimmed_text(line, p + tc.len(), line.len()))
            } else {
                Some(text_of_all(line))
            }
        },
        None => None,
    }
}

/// The level and message of a line with a bracketed level tag.
fn parse_kubernetes_bracket_log(line: &Vec<char>) -> (r: Option<(LogLevel, String)>)
    ensures
        match r {
            Some((level, message)) => tagged_parts(line@) == Some((level, message@)),
            None => tagged_parts(line@) is None,
        },
{
    if let Some(m) = after_tag_exec(line, "[ERROR]") {
        return Some((LogLevel::Error, m));
    }
    if let Some(m) = after_tag_exec(line, "[WARN]") {
        return Some((LogLevel::Warning, m));
    }
    if let Some(m) = after_tag_exec(line, "[WARNING]") {
        return Some((LogLevel::Warning, m));
    }
    if let Some(m) = after_tag_exec(line, "[INFO]") {
        return Some((LogLevel::Info, m));
    }
    if let Some(m) = after_tag_exec(line, "[DEBUG]") {
        return Some((LogLevel::Debug, m));
    }
    if let Some(m) = after_tag_exec(line, "[TRACE]") {
        return Some((LogLevel::Debug, m));
    }
    None
}

fn level_split_exec(rest: &Vec<char>) -> (r: Option<(String, String)>)
    ensures
        match r {
            Some((level, message)) => level_split(rest@) == Some((level@, message@)),
            None => level_split(rest@) is None,
        },
{
    let colon = single(':');
    let len = rest.len();
    match find_exec(rest, &colon) {
        Some(c) => Some((trimmed_text(rest, 0, c), trimmed_text(rest, c + 1, rest.len()))),
        None => None,
    }
}

/// `level_split` of the trimmed `line[from..]`, with the timestamp `ts`.
fn timed_parts(line: &Vec<char>, from: usize, ts: String) -> (r: Option<(String, String, String)>)
    requires
        from <= line@.len(),
    ensures
        opt_text3(r) == match level_split(trim(line@.subrange(from as int, line@.len() as int))) {
            Some((level, message)) => Some((ts@, level, message)),
            None => None,
        },
{
    let (a, b) = trim_bounds(line, from, line.len());
    let rest = sub_chars(line, a, b);
    match level_split_exec(&rest) {
        Some((level, message)) => Some((ts, level, message)),
        None => None,
    }
}

/// Timestamp, level name and message of a line that starts with an ISO-like timestamp.
fn regex_extract_iso_log(line: &Vec<char>) -> (r: Option<(String, String, String)>)
    ensures
        opt_text3(r) == iso_parts(line@),
{
    let t = single('T');
    let z = single('Z');
    let _len = line.len();
    match find_exec(line, &t) {
        Some(tp) => match find_from_exec(line, &z, tp) {
            Some(zp) => timed_parts(line, zp + 1, text_of(line, 0, zp + 1)),
            None => None,
        },
        None => None,
    }
}

/// Timestamp, level name and message of a line that starts with a bracketed timestamp.
fn regex_extract_bracket_log(line: &Vec<char>) -> (r: Option<(String, String, String)>)
    ensures
        opt_text3(r) == bracket_time_parts(line@),
{
    let len = line.len();
    if len > 0 && line[0] == '[' {
        let close = single(']');
        match find_exec(line, &close) {
            Some(e) => {
                if e == 0 {
                    assert(line@.subrange(0, 1)[0] == line@[0]);
                    assert(false);
                }
                timed_parts(line, e + 1, text_of(line, 1, e))
            },
            None => None,
        }
    } else {
        None
    }
}

/// Timestamp, stream and message of a container log line.
fn regex_extract_k8s_log(line: &Vec<char>) -> (r: Option<(String, String, String)>)
    ensures
        opt_text3(r) == container_parts(line@),
{
    let sp = single(' ');
    let _len = line.len();
    match find_exec(line, &sp) {
        Some(a) => match find_from_exec(line, &sp, a + 1) {
            Some(b) => match find_from_exec(line, &sp, b + 1) {
                Some(c) => Some(
                    (text_of(line, 0, a), text_of(line, a + 1, b), text_of(line, c + 1, line.len())),
                ),
                None => None,
            },
            None => None,
        },
        None => None,
    }
}

/// The level that a keyword anywhere in the line names, case aside.
fn extract_log_level_from_line(line: &str) -> (r: Option<LogLevel>)
    ensures
        r == keyword_level(upper_of(line@)),
{
    let upper_text = uppercase(line);
    let upper = &chars_of(upper_text.as_str());
    if contains_exec(upper, "ERROR") || contains_exec(upper, "FAILED") || contains_exec(
        upper,
        "FATAL",
    ) {
        Some(LogLevel::Error)
    } else if contains_exec(upper, "WARN") || contains_exec(upper, "WARNING") {
        Some(LogLevel::Warning)
    } else if contains_exec(upper, "INFO") {
        Some(LogLevel::Info)
    } else if contains_exec(upper, "DEBUG") || contains_exec(upper, "TRACE") {
        Some(LogLevel::Debug)
    } else {
        None
    }
}

fn line_label_exec(n: usize) -> (r: String)
    ensures
        r@ == line_label(n as nat),
{
    let mut cs = chars_of("line-");
    push_decimal(&mut cs, n as u128 + 1);
    text_of_all(&cs)
}

/// Classifies one text line, given by its characters, with 0-based number `n`: by a
/// bracketed level tag, an ISO-like timestamp, a bracketed timestamp, the container log
/// layout, a level keyword, in that order; else as plain text.
fn entry_of_line(line: &Vec<char>, n: usize) -> (r: LogEntry)
    ensures
        r@ == line_entry(line@, n as nat),
{
    if let Some((level, message)) = parse_kubernetes_bracket_log(line) {
        return LogEntry {
            timestamp: line_label_exec(n),
            level,
            message,
            source: "kubernetes".to_string(),
        };
    }
    if let Some((timestamp, level, message)) = regex_extract_iso_log(line) {
        return LogEntry {
            timestamp,
            level: LogLevel::from_str(level.as_str()),
            message,
            source: "app".to_string(),
        };
    }
    if let Some((timestamp, level, message)) = regex_extract_bracket_log(line) {
        return LogEntry {
            timestamp,
            level: LogLevel::from_str(level.as_str()),
            message,
            source: "app".to_string(),
        };
    }
    if let Some((timestamp, stream, message)) = regex_extract_k8s_log(line) {
        let level = if same_text(stream.as_str(), "stderr") {
            LogLevel::Error
        } else {
            LogLevel::Info
        };
        return LogEntry { timestamp, level, message, source: "container".to_string() };
    }
    let text = text_of_all(line);
    let level = match extract_log_level_from_line(text.as_str()) {
        Some(level) => level,
        None => LogLevel::Info,
    };
    LogEntry { timestamp: line_label_exec(n), level, message: text, source: "raw".to_string() }
}

/// Classifies one text line with 0-based number `line_num`.
pub fn parse_single_text_log(line: &str, line_num: usize) -> (r: LogEntry)
    ensures
        r@ == line_entry(line@, line_num as nat),
{
    entry_of_line(&chars_of(line), line_num)
}

/// Appends the entry of `line`, with 0-based number `n`, unless the line is blank.
fn push_line_entry(out: &mut Vec<LogEntry>, line: &Vec<char>, n: usize)
    ensures
        entries_view(final(out)@) == entries_view(old(out)@) + if is_blank(line@) {
            seq![]
        } else {
            seq![line_entry(line@, n as nat)]
        },
{
    assert(line@.subrange(0, line@.len() as int) =~= line@);
    if !blank_range(line, 0, line.len()) {
        out.push(entry_of_line(line, n));
        assert(entries_view(final(out)@) =~= entries_view(old(out)@) + seq![
            line_entry(line@, n as nat),
        ]);
    } else {
        assert(entries_view(final(out)@) =~= entries_view(old(out)@) + seq![]);
    }
}

/// The entries of a plain-text log, one for each line that is not blank.
pub fn parse_text_logs(content: &str) -> (r: Vec<LogEntry>)
    ensures
        entries_view(r@) == text_entries(content@),
{
    let cs = chars_of(content);
    let len = cs.len();
    let nl = single('\n');
    let mut out: Vec<LogEntry> = Vec::new();
    let mut start: usize = 0;
    let mut n: usize = 0;
    while start < len
        invariant
            cs@ == content@,
            len == cs@.len(),
            nl@ == seq!['\n'],
            n <= start <= len,
            text_entries(cs@) == entries_view(out@) + line_entries(cs@, start as int, n as nat),
        decreases len - start,
    {
        let ghost before = out@;
        match find_from_exec(&cs, &nl, start) {
            Some(e) => {
                let end = if e > start && cs[e - 1] == '\r' {
                    e - 1
                } else {
                    e
                };
                let line = sub_chars(&cs, start, end);
                assert(line@ == strip_cr(cs@.subrange(start as int, e as int))) by {
                    if e > start && cs@[e - 1] == '\r' {
                        assert(cs@.subrange(start as int, e as int).drop_last() =~= line@);
                    }
                }
                push_line_entry(&mut out, &line, n);
                assert(entries_view(before) + line_entries(cs@, start as int, n as nat)
                    =~= entries_view(out@) + line_entries(cs@, e + 1, (n + 1) as nat));
                start = e + 1;
                n = n + 1;
            },
            None => {
                let line = sub_chars(&cs, start, len);
                push_line_entry(&mut out, &line, n);
                assert(entries_view(before) + line_entries(cs@, start as int, n as nat)
                    =~= entries_view(out@));
                start = len;
            },
        }
    }
    assert(entries_view(out@) + line_entries(cs@, start as int, n as nat) =~= entries_view(out@));
    out
}

/// The first of three members that holds a string, by its text.
pub open spec fn first_text(v: Json, a: Seq<char>, b: Seq<char>, c: Seq<char>) -> Option<Seq<char>> {
    if v.text_field(a) is Some {
        v.text_field(a)
    } else if v.text_field(b) is Some {
        v.text_field(b)
    } else {
        v.text_field(c)
    }
}

/// The text held, or `default`.
pub open spec fn or_default(o: Option<Seq<char>>, default: Seq<char>) -> Seq<char> {
    match o {
        Some(t) => t,
        None => default,
    }
}

/// The entry that one JSON record gives: each field from the first of its alias
/// members that holds a string, else a default.
pub open spec fn json_entry(v: Json) -> EntryView {
    EntryView {
        timestamp: or_default(first_text(v, "timestamp"@, "time"@, "@timestamp"@), "unknown"@),
        level: match first_text(v, "level"@, "severity"@, "loglevel"@) {
            Some(l) => level_of_name(l),
            None => LogLevel::Info,
        },
        message: or_default(first_text(v, "message"@, "msg"@, "text"@), "No message"@),
        source: or_default(first_text(v, "source"@, "logger"@, "component"@), "unknown"@),
    }
}

/// The entries of a JSON log: one per element of an array, one for an object; nothing
/// for any other value, which is no log.
pub open spec fn json_entries(doc: Json) -> Option<Seq<EntryView>> {
    match doc {
        Json::Array(items) => Some(items@.map_values(|v: Json| json_entry(v))),
        Json::Object(_) => Some(seq![json_entry(doc)]),
        _ => None,
    }
}

/// The entries of a log's content: as JSON where serde_json reads it as JSON, else as
/// plain text. `None` where the content is JSON but neither an array nor an object.
pub open spec fn classified(content: Seq<char>) -> Option<Seq<EntryView>> {
    match json_document(content) {
        Some(doc) => json_entries(doc),
        None => Some(text_entries(content)),
    }
}

/// `x` placed in front of the first entry of `s` whose timestamp does not come after its
/// own.
pub open spec fn insert_newest_first(x: EntryView, s: Seq<EntryView>) -> Seq<EntryView>
    decreases s.len(),
{
    if s.len() == 0 {
        seq![x]
    } else if !lex_lt(x.timestamp, s[0].timestamp) {
        seq![x] + s
    } else {
        seq![s[0]] + insert_newest_first(x, s.drop_first())
    }
}

/// The entries ordered by timestamp, latest first (in reverse lexicographic order of the
/// timestamp texts); entries with equal timestamps keep their order.
pub open spec fn newest_first(s: Seq<EntryView>) -> Seq<EntryView>
    decreases s.len(),
{
    if s.len() == 0 {
        s
    } else {
        insert_newest_first(s[0], newest_first(s.drop_first()))
    }
}

/// No entry is older than one that comes after it.
pub open spec fn newest_sorted(s: Seq<EntryView>) -> bool {
    forall|i: int, j: int|
        0 <= i < j < s.len() ==> !lex_lt(#[trigger] s[i].timestamp, #[trigger] s[j].timestamp)
}

/// Inserting in front of the first entry that is not newer than `x` is what
/// `insert_newest_first` does.
proof fn lemma_insert_at(x: EntryView, s: Seq<EntryView>, p: int)
    requires
        0 <= p <= s.len(),
        forall|j: int| 0 <= j < p ==> lex_lt(x.timestamp, #[trigger] s[j].timestamp),
        p < s.len() ==> !lex_lt(x.timestamp, s[p].timestamp),
    ensures
        insert_newest_first(x, s) == s.insert(p, x),
    decreases p,
{
    if p == 0 {
        assert(s.insert(0, x) =~= seq![x] + s);
    } else {
        let t = s.drop_first();
        assert forall|j: int| 0 <= j < p - 1 implies lex_lt(x.timestamp, #[trigger] t[j].timestamp) by {
            assert(t[j] == s[j + 1]);
        }
        lemma_insert_at(x, t, p - 1);
        assert(s.insert(p, x) =~= seq![s[0]] + t.insert(p - 1, x));
    }
}

/// An entry older than `b`, where `b` is not newer than `a`, is older than `a` too.
proof fn lemma_older_than_newer(x: Seq<char>, a: Seq<char>, b: Seq<char>)
    requires
        !lex_lt(a, b),
        lex_lt(x, b),
    ensures
        lex_lt(x, a),
{
    lemma_lex_total(a, b);
    if lex_lt(b, a) {
        lemma_lex_transitive(x, b, a);
    }
}

/// Inserting where `insert_newest_first` puts an entry keeps the order.
proof fn lemma_insert_keeps_sorted(x: EntryView, s: Seq<EntryView>, p: int)
    requires
        0 <= p <= s.len(),
        newest_sorted(s),
        forall|j: int| 0 <= j < p ==> lex_lt(x.timestamp, #[trigger] s[j].timestamp),
        p < s.len() ==> !lex_lt(x.timestamp, s[p].timestamp),
    ensures
        newest_sorted(s.insert(p, x)),
{
    let t = s.insert(p, x);
    assert forall|i: int, j: int| 0 <= i < j < t.len() implies !lex_lt(
        #[trigger] t[i].timestamp,
        #[trigger] t[j].timestamp,
    ) by {
        if i == p {
            assert(t[j] == s[j - 1]);
            if j - 1 > p && lex_lt(x.timestamp, s[j - 1].timestamp) {
                assert(!lex_lt(s[p].timestamp, s[j - 1].timestamp));
                lemma_older_than_newer(x.timestamp, s[p].timestamp, s[j - 1].timestamp);
            }
        } else if j == p {
            assert(t[i] == s[i]);
            lemma_lex_asymmetric(x.timestamp, s[i].timestamp);
        } else {
            let si = if i < p {
                i
            } else {
                i - 1
            };
            let sj = if j < p {
                j
            } else {
                j - 1
            };
            assert(t[i] == s[si] && t[j] == s[sj]);
        }
    }
}

/// The entries ordered latest first, as `newest_first` says.
pub fn sort_newest_first(entries: Vec<LogEntry>) -> (r: Vec<LogEntry>)
    ensures
        entries_view(r@) == newest_first(entries_view(entries@)),
        newest_sorted(entries_view(r@)),
        entries_view(r@).to_multiset() == entries_view(entries@).to_multiset(),
{
    let ghost s = entries_view(entries@);
    let ghost n = entries@.len();
    let mut rest = entries;
    let mut out: Vec<LogEntry> = Vec::new();
    // the timestamps of `out`, by their characters
    let mut keys: Vec<Vec<char>> = Vec::new();
    assert(s.subrange(n as int, n as int) =~= Seq::<EntryView>::empty());
    assert(entries_view(out@) =~= Seq::<EntryView>::empty());
    while rest.len() > 0
        invariant
            rest@.len() <= n,
            s == entries_view(entries@),
            n == entries@.len(),
            rest@ == entries@.subrange(0, rest@.len() as int),
            entries_view(out@) == newest_first(s.subrange(rest@.len() as int, n as int)),
            entries_view(out@).to_multiset() == s.subrange(rest@.len() as int, n as int).to_multiset(),
            newest_sorted(entries_view(out@)),
            keys@.len() == out@.len(),
            forall|j: int| 0 <= j < keys@.len() ==> (#[trigger] keys@[j])@ == out@[j].timestamp@,
        decreases rest@.len(),
    {
        let ghost k = rest@.len();
        let x = rest.pop().unwrap();
        let key = chars_of(x.timestamp.as_str());
        let ghost before = entries_view(out@);
        let mut lo: usize = 0;
        let mut hi: usize = out.len();
        while lo < hi
            invariant
                0 <= lo <= hi <= out@.len(),
                before == entries_view(out@),
                newest_sorted(before),
                key@ == x.timestamp@,
                keys@.len() == out@.len(),
                forall|j: int| 0 <= j < keys@.len() ==> (#[trigger] keys@[j])@ == out@[j].timestamp@,
                forall|j: int| 0 <= j < lo ==> lex_lt(x.timestamp@, #[trigger] before[j].timestamp),
                forall|j: int|
                    hi <= j < before.len() ==> !lex_lt(x.timestamp@, #[trigger] before[j].timestamp),
            decreases hi - lo,
        {
            let mid = lo + (hi - lo) / 2;
            assert(before[mid as int] == out@[mid as int]@);
            if chars_less(&key, &keys[mid]) {
                assert forall|j: int| 0 <= j < mid + 1 implies lex_lt(
                    x.timestamp@,
                    #[trigger] before[j].timestamp,
                ) by {
                    if j < mid {
                        assert(!lex_lt(before[j].timestamp, before[mid as int].timestamp));
                        lemma_older_than_newer(
                            x.timestamp@,
                            before[j].timestamp,
                            before[mid as int].timestamp,
                        );
                    }
                }
                lo = mid + 1;
            } else {
                assert forall|j: int| mid <= j < before.len() implies !lex_lt(
                    x.timestamp@,
                    #[trigger] before[j].timestamp,
                ) by {
                    if j > mid && lex_lt(x.timestamp@, before[j].timestamp) {
                        assert(!lex_lt(before[mid as int].timestamp, before[j].timestamp));
                        lemma_older_than_newer(
                            x.timestamp@,
                            before[mid as int].timestamp,
                            before[j].timestamp,
                        );
                    }
                }
                hi = mid;
            }
        }
        proof {
            lemma_insert_at(x@, before, lo as int);
            lemma_insert_keeps_sorted(x@, before, lo as int);
        }
        let ghost old_keys = keys@;
        let ghost old_out = out@;
        keys.insert(lo, key);
        out.insert(lo, x);
        proof {
            assert(entries_view(out@) =~= before.insert(lo as int, x@));
            assert forall|j: int| 0 <= j < keys@.len() implies (#[trigger] keys@[j])@
                == out@[j].timestamp@ by {
                if j > lo {
                    assert(keys@[j] == old_keys[j - 1] && out@[j] == old_out[j - 1]);
                } else if j < lo {
                    assert(keys@[j] == old_keys[j] && out@[j] == old_out[j]);
                }
            }
            let t = s.subrange(k - 1, n as int);
            assert(t.drop_first() =~= s.subrange(k as int, n as int));
            assert(t[0] == x@);
            assert(t =~= t.drop_first().insert(0, x@));
            to_multiset_insert(t.drop_first(), 0, x@);
            to_multiset_insert(before, lo as int, x@);
        }
    }
    assert(s.subrange(0, n as int) =~= s);
    out
}

/// The entry of one JSON record.
pub fn parse_single_json_log(log: &Json) -> (r: LogEntry)
    ensures
        r@ == json_entry(*log),
{
    let timestamp = match first_text_exec(log, "timestamp", "time", "@timestamp") {
        Some(t) => t.clone(),
        None => "unknown".to_string(),
    };
    let level = match first_text_exec(log, "level", "severity", "loglevel") {
        Some(l) => LogLevel::from_str(l.as_str()),
        None => LogLevel::Info,
    };
    let message = match first_text_exec(log, "message", "msg", "text") {
        Some(m) => m.clone(),
        None => "No message".to_string(),
    };
    let source = match first_text_exec(log, "source", "logger", "component") {
        Some(s) => s.clone(),
        None => "unknown".to_string(),
    };
    LogEntry { timestamp, level, message, source }
}

fn first_text_exec<'a>(v: &'a Json, a: &str, b: &str, c: &str) -> (r: Option<&'a String>)
    ensures
        match r {
            Some(t) => first_text(*v, a@, b@, c@) == Some(t@),
            None => first_text(*v, a@, b@, c@) is None,
        },
{
    match v.text_at(a) {
        Some(t) => Some(t),
        None => match v.text_at(b) {
            Some(t) => Some(t),
            None => v.text_at(c),
        },
    }
}

/// The entries of a JSON log document; an error for a document that is neither an
/// array nor an object.
pub fn parse_json_logs(doc: &Json) -> (r: Result<Vec<LogEntry>, AppError>)
    ensures
        match r {
            Ok(es) => json_entries(*doc) == Some(entries_view(es@)),
            Err(e) => json_entries(*doc) is None && (e matches AppError::Parse(m) && m@
                == "Invalid JSON log format"@),
        },
{
    match doc {
        Json::Array(items) => {
            let mut out: Vec<LogEntry> = Vec::new();
            let mut i: usize = 0;
            while i < items.len()
                invariant
                    0 <= i <= items@.len(),
                    entries_view(out@) == items@.subrange(0, i as int).map_values(
                        |v: Json| json_entry(v),
                    ),
                decreases items@.len() - i,
            {
                let ghost before = out@;
                out.push(parse_single_json_log(&items[i]));
                assert(entries_view(out@) =~= entries_view(before).push(json_entry(items@[i as int])));
                assert(items@.subrange(0, i + 1).map_values(|v: Json| json_entry(v))
                    =~= items@.subrange(0, i as int).map_values(|v: Json| json_entry(v)).push(
                    json_entry(items@[i as int]),
                ));
                i = i + 1;
            }
            assert(items@.subrange(0, items@.len() as int) =~= items@);
            Ok(out)
        },
        Json::Object(_) => {
            let e = parse_single_json_log(doc);
            let out = vec![e];
            assert(entries_view(out@) =~= seq![json_entry(*doc)]);
            Ok(out)
        },
        _ => Err(AppError::Parse("Invalid JSON log format".to_string())),
    }
}

/// The entries of a log's content, in file order: JSON where it reads as JSON, else
/// plain text.
pub fn classify(content: &str) -> (r: Result<Vec<LogEntry>, AppError>)
    ensures
        match r {
            Ok(es) => classified(content@) == Some(entries_view(es@)),
            Err(e) => classified(content@) is None && e is Parse,
        },
{
    match parse_json(content) {
        Some(doc) => parse_json_logs(&doc),
        None => Ok(parse_text_logs(content)),
    }
}

/// A log that serde_json reads as one JSON object gives exactly one entry, with the
/// object's `timestamp`, `level`, `message` and `source`; ordering leaves it as it is.
pub proof fn lemma_single_object_log(
    content: Seq<char>,
    doc: Json,
    t: Seq<char>,
    l: Seq<char>,
    m: Seq<char>,
    s: Seq<char>,
)
    requires
        doc is Object,
        doc.text_field("timestamp"@) == Some(t),
        doc.text_field("level"@) == Some(l),
        doc.text_field("message"@) == Some(m),
        doc.text_field("source"@) == Some(s),
    ensures
        json_entries(doc) == Some(
            seq![EntryView { timestamp: t, level: level_of_name(l), message: m, source: s }],
        ),
        json_document(content) == Some(doc) ==> classified(content) == json_entries(doc),
        newest_first(json_entries(doc).unwrap()) == json_entries(doc).unwrap(),
{
    let es = json_entries(doc).unwrap();
    assert(es.drop_first() =~= Seq::<EntryView>::empty());
    assert(newest_first(es.drop_first()) == Seq::<EntryView>::empty());
    assert(insert_newest_first(es[0], Seq::<EntryView>::empty()) =~= es);
}

/// The logs of one component as loaded for viewing.
#[derive(Debug, Clone)]
pub struct ComponentLogs {
    pub component_name: String,
    pub component_type: ComponentKind,
    pub namespace: String,
    /// Latest first.
    pub entries: Vec<LogEntry>,
    /// How many entries there were when the logs were loaded.
    pub total_entries: usize,
}

/// The logs of a component from the content of its log file.
pub fn component_logs(component_name: &str, component_type: ComponentKind, namespace: &str, content: &str) -> (r: Result<ComponentLogs, AppError>)
    ensures
        match r {
            Ok(l) => classified(content@) is Some && entries_view(l.entries@) == newest_first(classified(content@).unwrap())
                && l.total_entries == classified(content@).unwrap().len()
                && l.component_name@ == component_name@ && l.component_type == component_type
                && l.namespace@ == namespace@,
            Err(e) => classified(content@) is None && e is Parse,
        },
{
    match classify(content) {
        Ok(entries) => {
            let total_entries = entries.len();
            Ok(ComponentLogs {
                component_name: component_name.to_string(),
                component_type,
                namespace: namespace.to_string(),
                entries: sort_newest_first(entries),
                total_entries,
            })
        },
        Err(e) => Err(e),
    }
}

/// The logs of a component from a file that is read as plain text only.
pub fn text_component_logs(component_name: &str, component_type: ComponentKind, namespace: &str, content: &str) -> (r: ComponentLogs)
    ensures
        entries_view(r.entries@) == newest_first(text_entries(content@)),
        r.total_entries == text_entries(content@).len(),
        r.component_name@ == component_name@,
        r.component_type == component_type,
        r.namespace@ == namespace@,
{
    let entries = parse_text_logs(content);
    let total_entries = entries.len();
    ComponentLogs {
        component_name: component_name.to_string(),
        component_type,
        namespace: namespace.to_string(),
        entries: sort_newest_first(entries),
        total_entries,
    }
}

/// The logs of a pod from the content of its log file.
pub fn load_pod_logs(namespace: &str, pod_name: &str, content: &str) -> (r: Result<ComponentLogs, AppError>)
    ensures
        match r {
            Ok(l) => classified(content@) is Some && entries_view(l.entries@) == newest_first(classified(content@).unwrap())
                && l.total_entries == classified(content@).unwrap().len()
                && l.component_name@ == pod_name@ && l.component_type == ComponentKind::Pod
                && l.namespace@ == namespace@,
            Err(e) => classified(content@) is None && e is Parse,
        },
{
    component_logs(pod_name, ComponentKind::Pod, namespace, content)
}

/// The logs of a service from the content of its log file.
pub fn load_service_logs(namespace: &str, service_name: &str, content: &str) -> (r: Result<ComponentLogs, AppError>)
    ensures
        match r {
            Ok(l) => classified(content@) is Some && entries_view(l.entries@) == newest_first(classified(content@).unwrap())
                && l.total_entries == classified(content@).unwrap().len()
                && l.component_name@ == service_name@ && l.component_type == ComponentKind::Service
                && l.namespace@ == namespace@,
            Err(e) => classified(content@) is None && e is Parse,
        },
{
    component_logs(service_name, ComponentKind::Service, namespace, content)
}

/// Filtering the first `i + 1` elements keeps what filtering the first `i` kept, and
/// element `i` where it passes.
pub proof fn lemma_filter_step<A>(s: Seq<A>, f: spec_fn(A) -> bool, i: int)
    requires
        0 <= i < s.len(),
    ensures
        s.subrange(0, i + 1).filter(f) == if f(s[i]) {
            s.subrange(0, i).filter(f).push(s[i])
        } else {
            s.subrange(0, i).filter(f)
        },
{
    reveal(Seq::filter);
    assert(s.subrange(0, i + 1).drop_last() =~= s.subrange(0, i));
}

/// Whether an entry is at least as severe as `min`.
pub open spec fn at_least(min: LogLevel) -> spec_fn(LogEntry) -> bool {
    |e: LogEntry| priority(e.level) >= priority(min)
}

/// Whether an entry's message or source holds the already lowercase `q`, case aside.
pub open spec fn mentions(q: Seq<char>) -> spec_fn(LogEntry) -> bool {
    |e: LogEntry| contains(lower_of(e.message@), q) || contains(lower_of(e.source@), q)
}

/// Whether an entry has the level `l`.
pub open spec fn has_level(l: LogLevel) -> spec_fn(LogEntry) -> bool {
    |e: LogEntry| e.level == l
}

/// The entries at least as severe as `min_level`, in order.
pub fn filter_logs_by_level<'a>(logs: &'a ComponentLogs, min_level: &LogLevel) -> (r: Vec<&'a LogEntry>)
    ensures
        r@.map_values(|e: &LogEntry| *e) == logs.entries@.filter(at_least(*min_level)),
{
    let min_priority = level_priority(min_level);
    let ghost f = at_least(*min_level);
    let mut out: Vec<&'a LogEntry> = Vec::new();
    let mut i: usize = 0;
    while i < logs.entries.len()
        invariant
            0 <= i <= logs.entries@.len(),
            min_priority == priority(*min_level),
            f == at_least(*min_level),
            out@.map_values(|e: &LogEntry| *e) == logs.entries@.subrange(0, i as int).filter(f),
        decreases logs.entries@.len() - i,
    {
        proof {
            lemma_filter_step(logs.entries@, f, i as int);
        }
        let e = &logs.entries[i];
        let ghost before = out@;
        if level_priority(&e.level) >= min_priority {
            out.push(e);
            assert(out@.map_values(|e: &LogEntry| *e) =~= before.map_values(|e: &LogEntry| *e).push(*e));
        }
        i = i + 1;
    }
    assert(logs.entries@.subrange(0, logs.entries@.len() as int) =~= logs.entries@);
    out
}

/// The entries whose message or source holds `query`, compared in lowercase.
pub fn search_logs<'a>(logs: &'a ComponentLogs, query: &str) -> (r: Vec<&'a LogEntry>)
    ensures
        r@.map_values(|e: &LogEntry| *e) == logs.entries@.filter(mentions(lower_of(query@))),
{
    let query_lower = lowercase(query);
    let ghost f = mentions(lower_of(query@));
    let mut out: Vec<&'a LogEntry> = Vec::new();
    let mut i: usize = 0;
    while i < logs.entries.len()
        invariant
            0 <= i <= logs.entries@.len(),
            query_lower@ == lower_of(query@),
            f == mentions(lower_of(query@)),
            out@.map_values(|e: &LogEntry| *e) == logs.entries@.subrange(0, i as int).filter(f),
        decreases logs.entries@.len() - i,
    {
        proof {
            lemma_filter_step(logs.entries@, f, i as int);
        }
        let e = &logs.entries[i];
        let ghost before = out@;
        let message = chars_of(lowercase(e.message.as_str()).as_str());
        let source = chars_of(lowercase(e.source.as_str()).as_str());
        if contains_exec(&message, query_lower.as_str()) || contains_exec(&source, query_lower.as_str()) {
            out.push(e);
            assert(out@.map_values(|e: &LogEntry| *e) =~= before.map_values(|e: &LogEntry| *e).push(*e));
        }
        i = i + 1;
    }
    assert(logs.entries@.subrange(0, logs.entries@.len() as int) =~= logs.entries@);
    out
}

/// How many entries have the level `level`.
fn count_level(entries: &Vec<LogEntry>, level: LogLevel) -> (r: usize)
    ensures
        r == entries@.filter(has_level(level)).len(),
{
    let ghost f = has_level(level);
    let mut n: usize = 0;
    let mut i: usize = 0;
    while i < entries.len()
        invariant
            0 <= i <= entries@.len(),
            f == has_level(level),
            n == entries@.subrange(0, i as int).filter(f).len(),
            n <= i,
        decreases entries@.len() - i,
    {
        proof {
            lemma_filter_step(entries@, f, i as int);
        }
        if entries[i].level == level {
            n = n + 1;
        }
        i = i + 1;
    }
    assert(entries@.subrange(0, entries@.len() as int) =~= entries@);
    n
}

impl ComponentLogs {
    /// How many entries are errors.
    pub fn get_error_count(&self) -> (r: usize)
        ensures
            r == self.entries@.filter(has_level(LogLevel::Error)).len(),
    {
        count_level(&self.entries, LogLevel::Error)
    }

    /// How many entries are warnings.
    pub fn get_warning_count(&self) -> (r: usize)
        ensures
            r == self.entries@.filter(has_level(LogLevel::Warning)).len(),
    {
        count_level(&self.entries, LogLevel::Warning)
    }

    /// The first `count` entries, or all of them where there are fewer.
    pub fn get_recent_logs(&self, count: usize) -> (r: &[LogEntry])
        ensures
            r@ == self.entries@.take(if count < self.entries@.len() {
                count as int
            } else {
                self.entries@.len() as int
            }),
    {
        let end = if count < self.entries.len() {
            count
        } else {
            self.entries.len()
        };
        vstd::slice::slice_subrange(self.entries.as_slice(), 0, end)
    }
}

} // verus!
