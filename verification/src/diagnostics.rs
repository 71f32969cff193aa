//! The engine's diagnostic stream: log lines and raw dumps that are
//! addressed to no recipient.

use crate::ids::{uuid_text, WorkerId};
use vstd::prelude::*;
use vstd::string::*;

verus! {

/// The text that std's `String::from_utf8_lossy` makes of a sequence of
/// bytes.
pub uninterp spec fn utf8_lossy_text(bytes: Seq<u8>) -> Seq<char>;

/// `String::from_utf8_lossy` of std, made an owned string. The text depends
/// on the bytes alone and goes by the name `utf8_lossy_text`.
#[verifier::external_body]
fn utf8_lossy(bytes: &Vec<u8>) -> (text: String)
    ensures
        text@ == utf8_lossy_text(bytes@),
{
    String::from_utf8_lossy(bytes).into_owned()
}

/// A message of the engine that is addressed to no recipient.
#[derive(Debug)]
pub enum InternalMessage {
    /// Debug log.
    Debug(String),
    /// Warn log.
    Warn(String),
    /// Error log.
    Error(String),
    /// Dump log.
    Dump(String),
    /// Data that fits none of the above.
    Unexpected(Vec<u8>),
}

/// The severity of a log line.
#[derive(Debug, Copy, Clone, PartialEq, Eq, Structural)]
pub enum LogSeverity {
    /// For debugging.
    Debug,
    /// A warning.
    Warn,
    /// An error.
    Error,
}

/// What is to be done with a diagnostic message.
#[derive(Debug, PartialEq, Eq)]
pub enum DiagnosticAction {
    /// Write a line to the log.
    Log {
        /// The severity of the line.
        severity: LogSeverity,
        /// The line.
        text: String,
    },
    /// Print the text on the standard error stream.
    PrintError(String),
    /// Do nothing.
    Ignore,
}

/// What is to be done with a diagnostic message, as a mathematical value.
pub enum DiagnosticView {
    /// Write a line to the log.
    Log(LogSeverity, Seq<char>),
    /// Print the text on the standard error stream.
    PrintError(Seq<char>),
    /// Do nothing.
    Ignore,
}

impl View for DiagnosticAction {
    type V = DiagnosticView;

    open spec fn view(&self) -> DiagnosticView {
        match self {
            DiagnosticAction::Log { severity, text } => DiagnosticView::Log(*severity, text@),
            DiagnosticAction::PrintError(text) => DiagnosticView::PrintError(text@),
            DiagnosticAction::Ignore => DiagnosticView::Ignore,
        }
    }
}

/// A log line of an engine with the mark of the engine in front.
pub open spec fn tagged_line(id_text: Seq<char>, text: Seq<char>) -> Seq<char> {
    "[id:"@ + id_text + "] "@ + text
}

/// The log line that reports data of no known kind.
pub open spec fn unexpected_line(id_text: Seq<char>, data_text: Seq<char>) -> Seq<char> {
    "worker[id:"@ + id_text + "] unexpected channel data: "@ + data_text
}

/// What is to be done with a log line of an engine: it is logged at its
/// severity with the mark of the engine in front, but an error line of an
/// engine whose handle is already closed is dropped.
pub open spec fn log_line_of(
    id_text: Seq<char>,
    closed: bool,
    severity: LogSeverity,
    text: Seq<char>,
) -> DiagnosticView {
    if closed && severity == LogSeverity::Error {
        DiagnosticView::Ignore
    } else {
        DiagnosticView::Log(severity, tagged_line(id_text, text))
    }
}

/// What is to be done with a diagnostic message of the engine `id`, whose
/// handle is closed or not: log lines go the way of `log_line_of`; a dump is
/// printed; data of no known kind is reported in an error line, whether or
/// not the handle is closed.
pub open spec fn diagnostic_of(id: u128, closed: bool, message: InternalMessage)
    -> DiagnosticView {
    match message {
        InternalMessage::Debug(text) => log_line_of(
            uuid_text(id),
            closed,
            LogSeverity::Debug,
            text@,
        ),
        InternalMessage::Warn(text) => log_line_of(
            uuid_text(id),
            closed,
            LogSeverity::Warn,
            text@,
        ),
        InternalMessage::Error(text) => log_line_of(
            uuid_text(id),
            closed,
            LogSeverity::Error,
            text@,
        ),
        InternalMessage::Dump(text) => DiagnosticView::PrintError(text@),
        InternalMessage::Unexpected(data) => DiagnosticView::Log(
            LogSeverity::Error,
            unexpected_line(uuid_text(id), utf8_lossy_text(data@)),
        ),
    }
}

/// Decides what is to be done with a log line of the engine whose
/// identifier reads `id_text`.
pub fn log_line(id_text: &str, closed: bool, severity: LogSeverity, text: &str) -> (action:
    DiagnosticAction)
    ensures
        action@ == log_line_of(id_text@, closed, severity, text@),
{
    if closed && severity == LogSeverity::Error {
        DiagnosticAction::Ignore
    } else {
        let mut line = String::from_str("[id:");
        line.append(id_text);
        line.append("] ");
        line.append(text);
        DiagnosticAction::Log { severity, text: line }
    }
}

/// Writes the error line that reports data of no known kind, read as the
/// text `data_text`, from the engine whose identifier reads `id_text`.
pub fn unexpected_data_line(id_text: &str, data_text: &str) -> (line: String)
    ensures
        line@ == unexpected_line(id_text@, data_text@),
{
    let mut line = String::from_str("worker[id:");
    line.append(id_text);
    line.append("] unexpected channel data: ");
    line.append(data_text);
    line
}

/// Decides what is to be done with a diagnostic message of the engine `id`.
pub fn handle_internal_message(id: &WorkerId, closed: bool, message: InternalMessage) -> (action:
    DiagnosticAction)
    ensures
        action@ == diagnostic_of(id.value, closed, message),
{
    let id_text = id.to_text();
    match message {
        InternalMessage::Debug(text) => log_line(
            id_text.as_str(),
            closed,
            LogSeverity::Debug,
            text.as_str(),
        ),
        InternalMessage::Warn(text) => log_line(
            id_text.as_str(),
            closed,
            LogSeverity::Warn,
            text.as_str(),
        ),
        InternalMessage::Error(text) => log_line(
            id_text.as_str(),
            closed,
            LogSeverity::Error,
            text.as_str(),
        ),
        InternalMessage::Dump(text) => DiagnosticAction::PrintError(text),
        InternalMessage::Unexpected(data) => DiagnosticAction::Log {
            severity: LogSeverity::Error,
            text: unexpected_data_line(id_text.as_str(), utf8_lossy(&data).as_str()),
        },
    }
}

} // verus!
