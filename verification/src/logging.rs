//! Log levels and the line format of the log file.
use vstd::prelude::*;

use crate::text::{append_chars, lit, string_from_chars, to_chars};

verus! {

/// Severity of a log message.
#[derive(Clone, Copy, Debug, PartialEq, Eq, Structural)]
pub enum LogLevel {
    Debug,
    Info,
    Warning,
    Error,
}

impl LogLevel {
    pub open spec fn spec_name(self) -> Seq<char> {
        match self {
            LogLevel::Debug => "DEBUG"@,
            LogLevel::Info => "INFO"@,
            LogLevel::Warning => "WARNING"@,
            LogLevel::Error => "ERROR"@,
        }
    }

    /// The level as written in the log file.
    pub fn as_str(&self) -> (s: &'static str)
        ensures
            s@ == self.spec_name(),
    {
        match self {
            LogLevel::Debug => "DEBUG",
            LogLevel::Info => "INFO",
            LogLevel::Warning => "WARNING",
            LogLevel::Error => "ERROR",
        }
    }

    /// The level as sent over the MCP logging channel.
    pub fn mcp_name(&self) -> (s: &'static str)
        ensures
            s@ == match self {
                LogLevel::Debug => "debug"@,
                LogLevel::Info => "info"@,
                LogLevel::Warning => "warning"@,
                LogLevel::Error => "error"@,
            },
    {
        match self {
            LogLevel::Debug => "debug",
            LogLevel::Info => "info",
            LogLevel::Warning => "warning",
            LogLevel::Error => "error",
        }
    }
}

/// `s` padded with spaces on the right to `w` characters (`{:<w}`).
pub open spec fn spec_pad_right(s: Seq<char>, w: nat) -> Seq<char> {
    if s.len() >= w {
        s
    } else {
        s + Seq::new((w - s.len()) as nat, |i: int| ' ')
    }
}

/// One line of the log file: `<timestamp> | <level padded to 7> | <message>` and a newline.
pub open spec fn spec_log_line(timestamp: Seq<char>, level: LogLevel, message: Seq<char>) -> Seq<char> {
    timestamp + " | "@ + spec_pad_right(level.spec_name(), 7) + " | "@ + message + "\n"@
}

pub fn format_log_line(timestamp: &str, level: LogLevel, message: &str) -> (r: String)
    ensures
        r@ == spec_log_line(timestamp@, level, message@),
{
    let mut out = to_chars(timestamp);
    append_chars(&mut out, &lit(" | "));
    let name = lit(level.as_str());
    let ghost before = out@;
    append_chars(&mut out, &name);
    let mut k: usize = name.len();
    while k < 7
        invariant
            name.len() <= k <= 7 || (k == name.len() && k >= 7),
            out@ == before + name@ + Seq::new((k - name.len()) as nat, |i: int| ' '),
        decreases 7 - k,
    {
        out.push(' ');
        proof {
            assert(out@ =~= before + name@ + Seq::new((k + 1 - name.len()) as nat, |i: int| ' '));
        }
        k += 1;
    }
    proof {
        if name.len() >= 7 {
            assert(out@ =~= before + name@);
        } else {
            assert(out@ =~= before + spec_pad_right(name@, 7));
        }
    }
    append_chars(&mut out, &lit(" | "));
    append_chars(&mut out, &to_chars(message));
    append_chars(&mut out, &lit("\n"));
    string_from_chars(out.as_slice())
}

} // verus!
