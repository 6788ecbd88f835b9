use vstd::prelude::*;

verus! {

/// The severity of a log record.
#[derive(Clone, Copy, Debug, PartialEq, Eq, Structural)]
pub enum LogLevel {
    Error,
    Warn,
    Info,
    Debug,
    Trace,
}

/// The level's name, left-aligned and padded with spaces to five characters.
pub open spec fn padded_level_name(level: LogLevel) -> Seq<char> {
    match level {
        LogLevel::Error => "ERROR"@,
        LogLevel::Warn => "WARN "@,
        LogLevel::Info => "INFO "@,
        LogLevel::Debug => "DEBUG"@,
        LogLevel::Trace => "TRACE"@,
    }
}

/// The text of one log line: the timestamp, the padded level between
/// brackets, and the message, separated by single spaces.
pub open spec fn spec_log_line(timestamp: Seq<char>, level: LogLevel, message: Seq<char>) -> Seq<
    char,
> {
    timestamp + " ["@ + padded_level_name(level) + "] "@ + message
}

/// The five characters that stand for a level in a line: its name in upper
/// case, followed by a space where the name has four letters.
pub open spec fn level_field(level: LogLevel) -> Seq<char> {
    match level {
        LogLevel::Error => seq!['E', 'R', 'R', 'O', 'R'],
        LogLevel::Warn => seq!['W', 'A', 'R', 'N', ' '],
        LogLevel::Info => seq!['I', 'N', 'F', 'O', ' '],
        LogLevel::Debug => seq!['D', 'E', 'B', 'U', 'G'],
        LogLevel::Trace => seq!['T', 'R', 'A', 'C', 'E'],
    }
}

/// A log line is the whole timestamp, a space, `[`, the level's five
/// characters, `]`, a space, and then the whole message, untouched, to the
/// end of the line.
pub proof fn lemma_log_line_shape(timestamp: Seq<char>, level: LogLevel, message: Seq<char>)
    ensures
        ({
            let line = spec_log_line(timestamp, level, message);
            let n = timestamp.len() as int;
            &&& line.len() == timestamp.len() + 9 + message.len()
            &&& line.subrange(0, n) == timestamp
            &&& line[n] == ' '
            &&& line[n + 1] == '['
            &&& line.subrange(n + 2, n + 7) == level_field(level)
            &&& line[n + 7] == ']'
            &&& line[n + 8] == ' '
            &&& line.subrange(n + 9, line.len() as int) == message
        }),
{
    reveal_strlit(" [");
    reveal_strlit("] ");
    reveal_strlit("ERROR");
    reveal_strlit("WARN ");
    reveal_strlit("INFO ");
    reveal_strlit("DEBUG");
    reveal_strlit("TRACE");
    let line = spec_log_line(timestamp, level, message);
    let n = timestamp.len() as int;
    assert(padded_level_name(level) =~= level_field(level));
    assert(line.subrange(0, n) =~= timestamp);
    assert(line.subrange(n + 2, n + 7) =~= level_field(level));
    assert(line.subrange(n + 9, line.len() as int) =~= message);
}

fn level_name(level: LogLevel) -> (r: &'static str)
    ensures
        r@ == padded_level_name(level),
{
    match level {
        LogLevel::Error => "ERROR",
        LogLevel::Warn => "WARN ",
        LogLevel::Info => "INFO ",
        LogLevel::Debug => "DEBUG",
        LogLevel::Trace => "TRACE",
    }
}

/// Lays out one log record as `<timestamp> [<LEVEL>] <message>`.
pub fn format_log_line(timestamp: &str, level: LogLevel, message: &str) -> (r: String)
    ensures
        r@ == spec_log_line(timestamp@, level, message@),
        r@ == timestamp@ + seq![' ', '['] + level_field(level) + seq![']', ' '] + message@,
{
    proof {
        lemma_log_line_shape(timestamp@, level, message@);
    }
    let mut line = String::from_str(timestamp);
    line.append(" [");
    line.append(level_name(level));
    line.append("] ");
    line.append(message);
    line
}

} // verus!
