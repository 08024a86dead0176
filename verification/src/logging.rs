//! The lines that the host writes when a plugin, or the host itself, logs a
//! message.

use vstd::prelude::*;
use vstd::string::StringExecFns;

verus! {

/// How serious a logged message is.
#[derive(Clone, Copy, Debug, PartialEq, Eq, Structural)]
pub enum LogLevel {
    Info,
    Warn,
    Error,
    Fatal,
}

impl LogLevel {
    /// The label that opens a line of this level.
    pub open spec fn label_text(self) -> Seq<char> {
        match self {
            LogLevel::Info => "INFO"@,
            LogLevel::Warn => "WARN"@,
            LogLevel::Error => "ERROR"@,
            LogLevel::Fatal => "FATAL"@,
        }
    }

    /// The label that opens a line of this level.
    pub fn label(&self) -> (label: &'static str)
        ensures
            label@ == self.label_text(),
    {
        match self {
            LogLevel::Info => "INFO",
            LogLevel::Warn => "WARN",
            LogLevel::Error => "ERROR",
            LogLevel::Fatal => "FATAL",
        }
    }

    /// Whether a line of this level goes to the error stream: every level
    /// but `Info` does.
    pub fn to_stderr(&self) -> (stderr: bool)
        ensures
            stderr == !(*self is Info),
    {
        match self {
            LogLevel::Info => false,
            _ => true,
        }
    }
}

/// The text of a log line: `LABEL [source]: message`.
pub open spec fn log_text(level: LogLevel, source: Seq<char>, message: Seq<char>) -> Seq<char> {
    level.label_text() + " ["@ + source + "]: "@ + message
}

/// The line logged at `level` on behalf of `source` (a plugin's name, or
/// `pluggie` for the host).
pub fn log_line(level: LogLevel, source: &str, message: &str) -> (line: String)
    ensures
        line@ == log_text(level, source@, message@),
        line@ == level.label_text() + " ["@ + source@ + "]: "@ + message@,
        line@.len() == level.label_text().len() + source@.len() + 5 + message@.len(),
        line@.subrange(line@.len() - message@.len(), line@.len() as int) == message@,
{
    proof {
        lemma_log_text_shape(level, source@, message@);
    }
    let mut line = String::from_str(level.label());
    line.append(" [");
    line.append(source);
    line.append("]: ");
    line.append(message);
    line
}

/// A log line opens with the level's label, then ` [`, the source and `]: `,
/// and ends with the whole message: its length is the sum of those parts.
pub proof fn lemma_log_text_shape(level: LogLevel, source: Seq<char>, message: Seq<char>)
    ensures
        log_text(level, source, message) == level.label_text() + " ["@ + source + "]: "@ + message,
        log_text(level, source, message).len() == level.label_text().len() + source.len() + 5
            + message.len(),
        log_text(level, source, message).subrange(0, level.label_text().len() as int)
            == level.label_text(),
        log_text(level, source, message).subrange(
            level.label_text().len() + 2int,
            level.label_text().len() + 2int + source.len(),
        ) == source,
        log_text(level, source, message).subrange(
            log_text(level, source, message).len() - message.len(),
            log_text(level, source, message).len() as int,
        ) == message,
{
    reveal_strlit(" [");
    reveal_strlit("]: ");
    let t = log_text(level, source, message);
    let l = level.label_text();
    assert(t.subrange(0, l.len() as int) =~= l);
    assert(t.subrange(l.len() + 2int, l.len() + 2int + source.len()) =~= source);
    assert(t.subrange(t.len() - message.len(), t.len() as int) =~= message);
}

} // verus!
