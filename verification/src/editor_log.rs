//! Sending the host's log to the inspector, line by line, as events.

use crate::text::{decimal, json_string, push_decimal, quote};
use crate::types::{event_json, EditorConnection, Published};
use vstd::prelude::*;
use vstd::string::StringExecFns;

verus! {

/// How serious a line of the log is.
#[derive(Debug, Clone, Copy, PartialEq, Eq, Structural)]
pub enum SerializableLevel {
    Error,
    Warn,
    Info,
    Debug,
    Trace,
}

/// One line of the log.
#[derive(Debug, Clone)]
pub struct SerializableLogRecord {
    pub level: SerializableLevel,
    pub target: String,
    pub module: Option<String>,
    pub file: Option<String>,
    pub line: Option<u32>,
    pub message: String,
}

/// The JSON text of a level: its name as a string.
pub open spec fn level_json(level: SerializableLevel) -> Seq<char> {
    match level {
        SerializableLevel::Error => "\"Error\""@,
        SerializableLevel::Warn => "\"Warn\""@,
        SerializableLevel::Info => "\"Info\""@,
        SerializableLevel::Debug => "\"Debug\""@,
        SerializableLevel::Trace => "\"Trace\""@,
    }
}

/// The JSON text of a text that may be missing: its JSON string literal, or
/// `null`. `None` if the text is there and cannot be written as a JSON
/// string.
pub open spec fn optional_string_json(text: Option<String>) -> Option<Seq<char>> {
    match text {
        Some(t) => json_string(t@),
        None => Some("null"@),
    }
}

/// The JSON text of a number that may be missing.
pub open spec fn optional_number_json(number: Option<u32>) -> Seq<char> {
    match number {
        Some(n) => decimal(n as nat),
        None => "null"@,
    }
}

/// The JSON object of a line of the log whose texts are written as `target`,
/// `module`, `file` and `message`.
pub open spec fn record_json_of(
    level: SerializableLevel,
    target: Seq<char>,
    module: Seq<char>,
    file: Seq<char>,
    line: Option<u32>,
    message: Seq<char>,
) -> Seq<char> {
    "{\"level\":"@ + level_json(level) + ",\"target\":"@ + target + ",\"module\":"@ + module
        + ",\"file\":"@ + file + ",\"line\":"@ + optional_number_json(line) + ",\"message\":"@
        + message + "}"@
}

/// The JSON object that stands for a line of the log; `None` if one of its
/// texts cannot be written as a JSON string.
pub open spec fn record_json(record: SerializableLogRecord) -> Option<Seq<char>> {
    match (
        json_string(record.target@),
        optional_string_json(record.module),
        optional_string_json(record.file),
        json_string(record.message@),
    ) {
        (Some(target), Some(module), Some(file), Some(message)) => Some(
            record_json_of(record.level, target, module, file, record.line, message),
        ),
        _ => None,
    }
}

fn push_optional_string(out: &mut String, text: &Option<String>) -> (written: bool)
    ensures
        written == optional_string_json(*text) is Some,
        written ==> final(out)@ == old(out)@ + optional_string_json(*text)->0,
        !written ==> final(out)@ == old(out)@,
{
    match text {
        None => {
            out.append("null");
            true
        },
        Some(t) => match quote(t.as_str()) {
            None => false,
            Some(quoted) => {
                out.append(quoted.as_str());
                true
            },
        },
    }
}

/// Writes a line of the log as JSON. `None` is returned if one of its texts
/// could not be written.
pub fn record_text(record: &SerializableLogRecord) -> (text: Option<String>)
    ensures
        match text {
            Some(t) => record_json(*record) == Some(t@),
            None => record_json(*record) is None,
        },
{
    let mut text = String::new();
    text.append("{\"level\":");
    match record.level {
        SerializableLevel::Error => text.append("\"Error\""),
        SerializableLevel::Warn => text.append("\"Warn\""),
        SerializableLevel::Info => text.append("\"Info\""),
        SerializableLevel::Debug => text.append("\"Debug\""),
        SerializableLevel::Trace => text.append("\"Trace\""),
    }
    text.append(",\"target\":");
    match quote(record.target.as_str()) {
        None => {
            return None;
        },
        Some(quoted) => {
            text.append(quoted.as_str());
        },
    }
    text.append(",\"module\":");
    if !push_optional_string(&mut text, &record.module) {
        return None;
    }
    text.append(",\"file\":");
    if !push_optional_string(&mut text, &record.file) {
        return None;
    }
    text.append(",\"line\":");
    match record.line {
        None => {
            text.append("null");
        },
        Some(line) => {
            push_decimal(&mut text, line as u64);
        },
    }
    text.append(",\"message\":");
    match quote(record.message.as_str()) {
        None => {
            return None;
        },
        Some(quoted) => {
            text.append(quoted.as_str());
        },
    }
    text.append("}");
    proof {
        assert(text@ =~= record_json_of(
            record.level,
            json_string(record.target@)->0,
            optional_string_json(record.module)->0,
            optional_string_json(record.file)->0,
            record.line,
            json_string(record.message@)->0,
        ));
    }
    Some(text)
}

/// The event that is sent for a line of the log; `None` if the line cannot be
/// written as JSON.
pub open spec fn logged_json(record: SerializableLogRecord) -> Option<Seq<char>> {
    match record_json(record) {
        Some(content) => event_json("log"@, content),
        None => None,
    }
}

/// Sends every line of the log that it is given to the inspector.
pub struct EditorLogger {
    editor_connection: EditorConnection,
}

impl EditorLogger {
    /// The connection through which the logger sends.
    pub closed spec fn connection(&self) -> EditorConnection {
        self.editor_connection
    }

    /// The logger that sends through `editor_connection`.
    pub fn new(editor_connection: EditorConnection) -> (logger: Self)
        ensures
            logger.connection() == editor_connection,
    {
        EditorLogger { editor_connection }
    }

    /// Whether a line is to be sent: every line is, whatever its level.
    pub fn enabled(&self) -> (enabled: bool)
        ensures
            enabled,
    {
        true
    }

    /// Sends one line of the log as an event of the kind `log`, with
    /// `record_json` of the line as its content: what is queued is
    /// `logged_json` of the line. Nothing is queued if the line cannot be
    /// written as JSON.
    pub fn log(&self, record: &SerializableLogRecord) -> (outcome: Published)
        ensures
            outcome == Published::NotSerialized <==> logged_json(*record) is None,
    {
        match record_text(record) {
            None => Published::NotSerialized,
            Some(text) => self.editor_connection.send_message("log", text.as_str()),
        }
    }
}

} // verus!
