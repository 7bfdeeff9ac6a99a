//! What the engine tells its host: events by name, and the record of an
//! error with its line in the log.

use crate::numbers::{nat_digits, u64_text};
use crate::shared::ErrorSeverity;
use crate::text::{chars_of, extend_chars, opt_view, string_of};
use vstd::prelude::*;

verus! {

/// Name of the event that follows a computed layout.
pub const EVENT_RENDERED: &'static str = "rendition://rendered";

/// Name of the event that follows a resolved point.
pub const EVENT_LOCATION_CHANGED: &'static str = "rendition://locationChanged";

/// Name of the event that carries a paragraph to play.
pub const EVENT_PLAY: &'static str = "player://play";

/// Name of the event that carries an error record.
pub const EVENT_ERROR: &'static str = "epub-error";

/// The record of an error or of a step worth noting.
#[derive(Debug)]
pub struct ErrorEvent {
    pub timestamp: String,
    pub stage: String,
    pub book_id: Option<u64>,
    pub message: String,
    /// Further data, as JSON text.
    pub context: Option<String>,
    pub severity: ErrorSeverity,
}

/// The mathematical model of `ErrorEvent`.
pub struct ErrorEventView {
    pub timestamp: Seq<char>,
    pub stage: Seq<char>,
    pub book_id: Option<u64>,
    pub message: Seq<char>,
    pub context: Option<Seq<char>>,
    pub severity: ErrorSeverity,
}

impl View for ErrorEvent {
    type V = ErrorEventView;

    open spec fn view(&self) -> ErrorEventView {
        ErrorEventView {
            timestamp: self.timestamp@,
            stage: self.stage@,
            book_id: self.book_id,
            message: self.message@,
            context: opt_view(self.context),
            severity: self.severity,
        }
    }
}

/// The name of a severity as it stands in the log.
pub open spec fn severity_name(s: ErrorSeverity) -> Seq<char> {
    match s {
        ErrorSeverity::Debug => "Debug"@,
        ErrorSeverity::Info => "Info"@,
        ErrorSeverity::Warning => "Warning"@,
        ErrorSeverity::Error => "Error"@,
        ErrorSeverity::Critical => "Critical"@,
    }
}

/// The tag of a severity as it stands on the console.
pub open spec fn severity_tag(s: ErrorSeverity) -> Seq<char> {
    match s {
        ErrorSeverity::Debug => "DEBUG"@,
        ErrorSeverity::Info => "INFO"@,
        ErrorSeverity::Warning => "WARNING"@,
        ErrorSeverity::Error => "ERROR"@,
        ErrorSeverity::Critical => "CRITICAL"@,
    }
}

/// The book id as it stands in the log: `Some(<id>)` or `None`.
pub open spec fn book_id_text(id: Option<u64>) -> Seq<char> {
    match id {
        Some(n) => "Some("@ + nat_digits(n as int) + ")"@,
        None => "None"@,
    }
}

/// The line of an event in the log:
/// `[<time>] [<severity>:<stage>] book_id=<id> - <message>`, then
/// ` | context: <context>` where there is one, and a line feed.
pub open spec fn log_line_of(e: ErrorEventView) -> Seq<char> {
    "["@ + e.timestamp + "] ["@ + severity_name(e.severity) + ":"@ + e.stage + "] book_id="@
        + book_id_text(e.book_id) + " - "@ + e.message + (match e.context {
        Some(c) => " | context: "@ + c,
        None => Seq::empty(),
    }) + "\n"@
}

/// The line of an event on the console: `[<TAG>:<stage>] <message>`.
pub open spec fn console_line_of(e: ErrorEventView) -> Seq<char> {
    "["@ + severity_tag(e.severity) + ":"@ + e.stage + "] "@ + e.message
}

impl ErrorEvent {
    /// A record made at `timestamp`, without book and context.
    pub fn new(timestamp: String, stage: &str, message: &str, severity: ErrorSeverity) -> (e: ErrorEvent)
        ensures
            e@ == (ErrorEventView {
                timestamp: timestamp@,
                stage: stage@,
                book_id: None,
                message: message@,
                context: None,
                severity,
            }),
    {
        ErrorEvent {
            timestamp,
            stage: stage.to_string(),
            book_id: None,
            message: message.to_string(),
            context: None,
            severity,
        }
    }

    /// The record with the book that it is about.
    pub fn with_book_id(self, book_id: u64) -> (e: ErrorEvent)
        ensures
            e@ == (ErrorEventView { book_id: Some(book_id), ..self@ }),
    {
        let mut e = self;
        e.book_id = Some(book_id);
        e
    }

    /// The record with further data.
    pub fn with_context(self, context: String) -> (e: ErrorEvent)
        ensures
            e@ == (ErrorEventView { context: Some(context@), ..self@ }),
    {
        let mut e = self;
        e.context = Some(context);
        e
    }

    /// The line of the record in the log.
    pub fn log_line(&self) -> (r: String)
        ensures
            r@ == log_line_of(self@),
    {
        let name = match self.severity {
            ErrorSeverity::Debug => "Debug",
            ErrorSeverity::Info => "Info",
            ErrorSeverity::Warning => "Warning",
            ErrorSeverity::Error => "Error",
            ErrorSeverity::Critical => "Critical",
        };
        let mut out = chars_of("[");
        extend_chars(&mut out, &chars_of(self.timestamp.as_str()));
        extend_chars(&mut out, &chars_of("] ["));
        extend_chars(&mut out, &chars_of(name));
        extend_chars(&mut out, &chars_of(":"));
        extend_chars(&mut out, &chars_of(self.stage.as_str()));
        extend_chars(&mut out, &chars_of("] book_id="));
        let ghost head = "["@ + self@.timestamp + "] ["@ + severity_name(self.severity) + ":"@
            + self@.stage + "] book_id="@;
        assert(out@ =~= head);
        match self.book_id {
            Some(n) => {
                extend_chars(&mut out, &chars_of("Some("));
                extend_chars(&mut out, &u64_text(n));
                extend_chars(&mut out, &chars_of(")"));
            },
            None => {
                extend_chars(&mut out, &chars_of("None"));
            },
        }
        assert(out@ =~= head + book_id_text(self.book_id));
        extend_chars(&mut out, &chars_of(" - "));
        extend_chars(&mut out, &chars_of(self.message.as_str()));
        let ghost mid = head + book_id_text(self.book_id) + " - "@ + self@.message;
        assert(out@ =~= mid);
        let ghost ctx: Seq<char> = match self@.context {
            Some(c) => " | context: "@ + c,
            None => Seq::empty(),
        };
        match &self.context {
            Some(c) => {
                extend_chars(&mut out, &chars_of(" | context: "));
                extend_chars(&mut out, &chars_of(c.as_str()));
            },
            None => {},
        }
        assert(out@ =~= mid + ctx);
        extend_chars(&mut out, &chars_of("\n"));
        assert(out@ =~= mid + ctx + "\n"@);
        string_of(&out)
    }

    /// The line of the record on the console.
    pub fn console_line(&self) -> (r: String)
        ensures
            r@ == console_line_of(self@),
    {
        let mut out = chars_of("[");
        extend_chars(&mut out, &chars_of(self.severity.label()));
        extend_chars(&mut out, &chars_of(":"));
        extend_chars(&mut out, &chars_of(self.stage.as_str()));
        extend_chars(&mut out, &chars_of("] "));
        extend_chars(&mut out, &chars_of(self.message.as_str()));
        assert(out@ =~= console_line_of(self@));
        string_of(&out)
    }
}

} // verus!
