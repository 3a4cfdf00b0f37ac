//! Leveled, structured log lines.
//!
//! Lines read `[<unix_ms>] <LEVEL> <target>: <message>` so they are easy to
//! grep and machine-parse. The active level comes from the `PADPROXY_LOG`
//! setting (default `info`).

use vstd::prelude::*;
use crate::text::{
    chars_eq_str, chars_of, concat_chars, decimal, decimal_chars, lower, lower_chars,
    string_from_chars, trim, trim_str,
};

verus! {

/// How important a log line is, from most to least.
#[derive(Clone, Copy, Debug, PartialEq, Eq, PartialOrd, Ord, Hash, Structural)]
pub enum LogLevel {
    Error,
    Warn,
    Info,
    Debug,
    Trace,
}

/// A level's place in the order (Error first).
pub open spec fn rank(level: LogLevel) -> nat {
    match level {
        LogLevel::Error => 0,
        LogLevel::Warn => 1,
        LogLevel::Info => 2,
        LogLevel::Debug => 3,
        LogLevel::Trace => 4,
    }
}

/// The upper-case name of a level.
pub open spec fn level_name(level: LogLevel) -> Seq<char> {
    match level {
        LogLevel::Error => "ERROR"@,
        LogLevel::Warn => "WARN"@,
        LogLevel::Info => "INFO"@,
        LogLevel::Debug => "DEBUG"@,
        LogLevel::Trace => "TRACE"@,
    }
}

/// The level a name denotes (trimmed, ignoring ASCII case).
pub open spec fn level_named(value: Seq<char>) -> Option<LogLevel> {
    let n = lower(trim(value));
    if n == "error"@ || n == "err"@ {
        Some(LogLevel::Error)
    } else if n == "warn"@ || n == "warning"@ {
        Some(LogLevel::Warn)
    } else if n == "info"@ {
        Some(LogLevel::Info)
    } else if n == "debug"@ {
        Some(LogLevel::Debug)
    } else if n == "trace"@ {
        Some(LogLevel::Trace)
    } else {
        None
    }
}

impl LogLevel {
    pub fn as_str(self) -> (r: &'static str)
        ensures
            r@ == level_name(self),
    {
        match self {
            LogLevel::Error => "ERROR",
            LogLevel::Warn => "WARN",
            LogLevel::Info => "INFO",
            LogLevel::Debug => "DEBUG",
            LogLevel::Trace => "TRACE",
        }
    }

    /// Parses a level name. Unknown values (and `off`) give `None`.
    pub fn parse(value: &str) -> (r: Option<LogLevel>)
        ensures
            r == level_named(value@),
    {
        let t = trim_str(value);
        let n = lower_chars(&t);
        if chars_eq_str(&n, "error") || chars_eq_str(&n, "err") {
            Some(LogLevel::Error)
        } else if chars_eq_str(&n, "warn") || chars_eq_str(&n, "warning") {
            Some(LogLevel::Warn)
        } else if chars_eq_str(&n, "info") {
            Some(LogLevel::Info)
        } else if chars_eq_str(&n, "debug") {
            Some(LogLevel::Debug)
        } else if chars_eq_str(&n, "trace") {
            Some(LogLevel::Trace)
        } else {
            None
        }
    }

    /// This level's place in the order (Error first).
    pub fn rank(self) -> (r: u8)
        ensures
            r == rank(self),
    {
        match self {
            LogLevel::Error => 0,
            LogLevel::Warn => 1,
            LogLevel::Info => 2,
            LogLevel::Debug => 3,
            LogLevel::Trace => 4,
        }
    }
}

/// The most detailed level emitted for a `PADPROXY_LOG` setting: none (no
/// logging) for `off`, ignoring case, or a blank value; the named level for
/// another value, or `info` when the name is unknown; `info` when unset.
pub open spec fn max_level_of(setting: Option<Seq<char>>) -> Option<LogLevel> {
    match setting {
        Some(v) => {
            if lower(trim(v)) == "off"@ || trim(v).len() == 0 {
                None
            } else {
                match level_named(v) {
                    Some(l) => Some(l),
                    None => Some(LogLevel::Info),
                }
            }
        },
        None => Some(LogLevel::Info),
    }
}

/// The most detailed level emitted for a `PADPROXY_LOG` setting (see
/// [`max_level_of`]).
pub fn max_level_from(setting: Option<&str>) -> (r: Option<LogLevel>)
    ensures
        r == max_level_of(match setting {
            Some(s) => Some(s@),
            None => None,
        }),
{
    match setting {
        Some(v) => {
            let t = trim_str(v);
            let l = lower_chars(&t);
            if chars_eq_str(&l, "off") || t.len() == 0 {
                None
            } else {
                match LogLevel::parse(v) {
                    Some(level) => Some(level),
                    None => Some(LogLevel::Info),
                }
            }
        },
        None => Some(LogLevel::Info),
    }
}

/// Whether a line at `level` is emitted when `max` is the most detailed
/// level emitted (none: logging is off).
pub fn enabled(level: LogLevel, max: Option<LogLevel>) -> (r: bool)
    ensures
        r == (match max {
            Some(m) => rank(level) <= rank(m),
            None => false,
        }),
{
    match max {
        Some(m) => level.rank() <= m.rank(),
        None => false,
    }
}

/// The text of a log line.
pub open spec fn log_line(unix_ms: u128, level: LogLevel, target: Seq<char>, message: Seq<char>) -> Seq<char> {
    "["@ + decimal(unix_ms as nat) + "] "@ + level_name(level) + " "@ + target + ": "@ + message
}

/// Formats a structured log line: `[<unix_ms>] <LEVEL> <target>: <message>`.
pub fn format_line(unix_ms: u128, level: LogLevel, target: &str, message: &str) -> (r: String)
    ensures
        r@ == log_line(unix_ms, level, target@, message@),
{
    let mut line = chars_of("[");
    line = concat_chars(&line, &decimal_chars(unix_ms));
    line = concat_chars(&line, &chars_of("] "));
    line = concat_chars(&line, &chars_of(level.as_str()));
    line = concat_chars(&line, &chars_of(" "));
    line = concat_chars(&line, &chars_of(target));
    line = concat_chars(&line, &chars_of(": "));
    line = concat_chars(&line, &chars_of(message));
    string_from_chars(&line)
}

/// Each level's name is read back as that level.
pub proof fn law_level_name_round_trip(level: LogLevel)
    ensures
        level_named(level_name(level)) == Some(level),
{
    reveal_strlit("ERROR");
    reveal_strlit("WARN");
    reveal_strlit("INFO");
    reveal_strlit("DEBUG");
    reveal_strlit("TRACE");
    reveal_strlit("error");
    reveal_strlit("err");
    reveal_strlit("warn");
    reveal_strlit("warning");
    reveal_strlit("info");
    reveal_strlit("debug");
    reveal_strlit("trace");
    let n = level_name(level);
    crate::text::lemma_trim_plain(n);
    match level {
        LogLevel::Error => {
            assert(lower(n) =~= "error"@);
            assert(level_named(n) == Some(LogLevel::Error));
        },
        LogLevel::Warn => {
            assert(lower(n) =~= "warn"@);
            assert(level_named(n) == Some(LogLevel::Warn));
        },
        LogLevel::Info => {
            assert(lower(n) =~= "info"@);
            assert("info"@[0] != "warn"@[0]);
            assert(level_named(n) == Some(LogLevel::Info));
        },
        LogLevel::Debug => {
            assert(lower(n) =~= "debug"@);
            assert("debug"@[0] != "error"@[0]);
            assert(level_named(n) == Some(LogLevel::Debug));
        },
        LogLevel::Trace => {
            assert(lower(n) =~= "trace"@);
            assert("trace"@[0] != "error"@[0]);
            assert("trace"@[0] != "debug"@[0]);
            assert(level_named(n) == Some(LogLevel::Trace));
        },
    }
}

/// A blank or `off` setting turns logging off: no level is emitted.
pub proof fn law_blank_setting_disables_logging(setting: Seq<char>, level: LogLevel)
    requires
        trim(setting).len() == 0 || lower(trim(setting)) == "off"@,
    ensures
        max_level_of(Some(setting)) is None,
        !(match max_level_of(Some(setting)) {
            Some(m) => rank(level) <= rank(m),
            None => false,
        }),
{
}

/// Logging is ordered by severity: whenever a level is logged, every more
/// severe level is logged too, and with logging off nothing is.
pub proof fn law_enabled_by_severity(level: LogLevel, more_severe: LogLevel, max: Option<LogLevel>)
    requires
        rank(more_severe) <= rank(level),
    ensures
        (match max {
            Some(m) => rank(level) <= rank(m),
            None => false,
        }) ==> (match max {
            Some(m) => rank(more_severe) <= rank(m),
            None => false,
        }),
        max is None ==> !(match max {
            Some(m) => rank(level) <= rank(m),
            None => false,
        }),
{
}

} // verus!
