//! Console output of functions, as server messages.
use vstd::prelude::*;

use crate::text::str_eq;

verus! {

/// The level of a server message.
#[derive(Debug, Clone, Copy, PartialEq, Eq, Structural)]
pub enum MessageLevel {
    Warning,
    Info,
    Log,
}

/// The level of the server message for a console level.
pub open spec fn message_level(level: Seq<char>) -> MessageLevel {
    if level == "warn"@ || level == "error"@ {
        MessageLevel::Warning
    } else if level == "info"@ {
        MessageLevel::Info
    } else {
        MessageLevel::Log
    }
}

/// The text of the server message for a line of console output.
pub open spec fn message_text(level: Seq<char>, msg: Seq<char>) -> Seq<char> {
    "[pg_typescript:"@ + level + "] "@ + msg
}

/// The server message for a line of console output: its level and its text.
pub fn console_line(level: &str, msg: &str) -> (r: (MessageLevel, String))
    ensures
        r.0 == message_level(level@),
        r.1@ == message_text(level@, msg@),
        r.1@ == "[pg_typescript:"@ + level@ + "] "@ + msg@,
{
    let text = String::from_str("[pg_typescript:").concat(level).concat("] ").concat(msg);
    if str_eq(level, "warn") || str_eq(level, "error") {
        (MessageLevel::Warning, text)
    } else if str_eq(level, "info") {
        (MessageLevel::Info, text)
    } else {
        (MessageLevel::Log, text)
    }
}

/// Warnings and errors of the console are warnings of the server, its information
/// is information, and all else goes to the log; the text says which level it was.
pub proof fn law_levels_of_messages(level: Seq<char>, msg: Seq<char>)
    ensures
        message_text(level, msg) == "[pg_typescript:"@ + level + "] "@ + msg,
        level == "warn"@ || level == "error"@ ==> message_level(level) == MessageLevel::Warning,
        level == "info"@ ==> message_level(level) == MessageLevel::Info,
        level != "warn"@ && level != "error"@ && level != "info"@ ==> message_level(level)
            == MessageLevel::Log,
{
    reveal_strlit("warn");
    reveal_strlit("error");
    reveal_strlit("info");
    assert("warn"@[0] == 'w' && "info"@[0] == 'i');
}

} // verus!
