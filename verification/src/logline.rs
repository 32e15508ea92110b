//! How log records are written to the log file and to logcat.

use vstd::prelude::*;
use crate::text::{decimal_digits, push_char, push_decimal};

verus! {

/// The severity of a log record.
#[derive(Clone, Copy, Debug, PartialEq, Eq, Structural)]
pub enum LogLevel {
    Error,
    Warn,
    Info,
    Debug,
    Trace,
}

/// The logcat priority of each level.
pub open spec fn priority_of(level: LogLevel) -> i32 {
    match level {
        LogLevel::Error => 6,
        LogLevel::Warn => 5,
        LogLevel::Info => 4,
        LogLevel::Debug => 3,
        LogLevel::Trace => 2,
    }
}

/// The logcat priority a record of `level` is written with:
/// error 6, warn 5, info 4, debug 3, trace (verbose) 2.
pub fn android_log_priority(level: LogLevel) -> (prio: i32)
    ensures
        prio == priority_of(level),
{
    match level {
        LogLevel::Error => 6,
        LogLevel::Warn => 5,
        LogLevel::Info => 4,
        LogLevel::Debug => 3,
        LogLevel::Trace => 2,
    }
}

/// The name a level is shown under.
pub open spec fn level_name(level: LogLevel) -> Seq<char> {
    match level {
        LogLevel::Error => "ERROR"@,
        LogLevel::Warn => "WARN"@,
        LogLevel::Info => "INFO"@,
        LogLevel::Debug => "DEBUG"@,
        LogLevel::Trace => "TRACE"@,
    }
}

/// The name `level` is shown under in log lines.
pub fn level_label(level: LogLevel) -> (name: &'static str)
    ensures
        name@ == level_name(level),
{
    match level {
        LogLevel::Error => "ERROR",
        LogLevel::Warn => "WARN",
        LogLevel::Info => "INFO",
        LogLevel::Debug => "DEBUG",
        LogLevel::Trace => "TRACE",
    }
}

/// A line of the log file: `[<millis>] <LEVEL> <target> - <message>` and a
/// line break.
pub open spec fn log_file_line(millis: u128, level: LogLevel, target: Seq<char>, message: Seq<char>) -> Seq<char> {
    seq!['['] + decimal_digits(millis as nat) + seq![']', ' '] + level_name(level) + seq![' '] + target
        + seq![' ', '-', ' '] + message + seq!['\n']
}

/// What is sent to logcat for a record: `<target> - <message>`.
pub open spec fn logcat_text(target: Seq<char>, message: Seq<char>) -> Seq<char> {
    target + seq![' ', '-', ' '] + message
}

/// Renders the log-file line of a record stamped `millis` milliseconds after
/// the epoch.
pub fn format_log_line(millis: u128, level: LogLevel, target: &str, message: &str) -> (line: String)
    ensures
        line@ == log_file_line(millis, level, target@, message@),
{
    let mut line = String::new();
    push_char(&mut line, '[');
    push_decimal(&mut line, millis);
    push_char(&mut line, ']');
    push_char(&mut line, ' ');
    line.append(level_label(level));
    push_char(&mut line, ' ');
    line.append(target);
    push_char(&mut line, ' ');
    push_char(&mut line, '-');
    push_char(&mut line, ' ');
    line.append(message);
    push_char(&mut line, '\n');
    assert(line@ =~= log_file_line(millis, level, target@, message@));
    line
}

/// Renders the text logcat gets for a record.
pub fn format_logcat_message(target: &str, message: &str) -> (text: String)
    ensures
        text@ == logcat_text(target@, message@),
{
    let mut text = String::from_str(target);
    push_char(&mut text, ' ');
    push_char(&mut text, '-');
    push_char(&mut text, ' ');
    text.append(message);
    assert(text@ =~= logcat_text(target@, message@));
    text
}

/// Every level has a priority of its own, within logcat's range from
/// verbose (2) to error (6).
pub proof fn lemma_priorities_distinct(a: LogLevel, b: LogLevel)
    ensures
        priority_of(a) == priority_of(b) ==> a == b,
        2 <= priority_of(a) <= 6,
{
}

/// The names levels are shown under, letter by letter.
pub proof fn lemma_level_names()
    ensures
        level_name(LogLevel::Error) == seq!['E', 'R', 'R', 'O', 'R'],
        level_name(LogLevel::Warn) == seq!['W', 'A', 'R', 'N'],
        level_name(LogLevel::Info) == seq!['I', 'N', 'F', 'O'],
        level_name(LogLevel::Debug) == seq!['D', 'E', 'B', 'U', 'G'],
        level_name(LogLevel::Trace) == seq!['T', 'R', 'A', 'C', 'E'],
{
    reveal_strlit("ERROR");
    reveal_strlit("WARN");
    reveal_strlit("INFO");
    reveal_strlit("DEBUG");
    reveal_strlit("TRACE");
    assert(level_name(LogLevel::Error) =~= seq!['E', 'R', 'R', 'O', 'R']);
    assert(level_name(LogLevel::Warn) =~= seq!['W', 'A', 'R', 'N']);
    assert(level_name(LogLevel::Info) =~= seq!['I', 'N', 'F', 'O']);
    assert(level_name(LogLevel::Debug) =~= seq!['D', 'E', 'B', 'U', 'G']);
    assert(level_name(LogLevel::Trace) =~= seq!['T', 'R', 'A', 'C', 'E']);
}

/// A log-file line is `[`, the time in decimal, `] `, the record's own level
/// name, a space, the target, ` - `, the message and a line break.
pub proof fn lemma_log_line_shows_own_level(
    millis: u128,
    level: LogLevel,
    target: Seq<char>,
    message: Seq<char>,
)
    ensures
        log_file_line(millis, level, target, message) == seq!['['] + decimal_digits(millis as nat)
            + seq![']', ' '] + match level {
            LogLevel::Error => seq!['E', 'R', 'R', 'O', 'R'],
            LogLevel::Warn => seq!['W', 'A', 'R', 'N'],
            LogLevel::Info => seq!['I', 'N', 'F', 'O'],
            LogLevel::Debug => seq!['D', 'E', 'B', 'U', 'G'],
            LogLevel::Trace => seq!['T', 'R', 'A', 'C', 'E'],
        } + seq![' '] + target + seq![' ', '-', ' '] + message + seq!['\n'],
        logcat_text(target, message) == target + seq![' ', '-', ' '] + message,
{
    lemma_level_names();
}

/// More severe records get higher logcat priorities: error above warn above
/// info above debug above trace, from 6 down to 2.
pub proof fn lemma_priority_follows_severity()
    ensures
        priority_of(LogLevel::Error) > priority_of(LogLevel::Warn),
        priority_of(LogLevel::Warn) > priority_of(LogLevel::Info),
        priority_of(LogLevel::Info) > priority_of(LogLevel::Debug),
        priority_of(LogLevel::Debug) > priority_of(LogLevel::Trace),
        priority_of(LogLevel::Error) == 6,
        priority_of(LogLevel::Trace) == 2,
{
}

} // verus!
