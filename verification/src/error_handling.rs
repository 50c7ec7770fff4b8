//! Errors reported to the operator, with the context, suggestion and code
//! that go with each kind, progress of long operations, and the text of
//! the health report.

use vstd::prelude::*;
use std::time::{Duration, Instant};
use crate::metrics::{elapsed_since, instant_now, texts_view, HealthStatus};

verus! {

/// Kinds of error the server reports, each with its detail.
#[derive(Debug, Clone)]
pub enum RepoServerError {
    ConfigurationError(String),
    NetworkError(String),
    SecurityError(String),
    FileSystemError(String),
    MessageError(String),
    WorkerError(String),
    ShutdownError(String),
    InternalError(String),
}

/// The report of an error: a heading with the detail, a blank line, and
/// advice for its kind.
pub open spec fn server_error_text(e: RepoServerError) -> Seq<char> {
    match e {
        RepoServerError::ConfigurationError(m) => "Configuration Error: "@ + m@
            + "\n\nPlease check your configuration file and ensure all required settings are correct."@,
        RepoServerError::NetworkError(m) => "Network Error: "@ + m@
            + "\n\nPlease check your network connection and server address."@,
        RepoServerError::SecurityError(m) => "Security Error: "@ + m@
            + "\n\nThis operation was blocked for security reasons."@,
        RepoServerError::FileSystemError(m) => "File System Error: "@ + m@
            + "\n\nPlease check file permissions and disk space."@,
        RepoServerError::MessageError(m) => "Message Processing Error: "@ + m@
            + "\n\nPlease check the message format and try again."@,
        RepoServerError::WorkerError(m) => "Worker Error: "@ + m@
            + "\n\nPlease check worker thread configuration."@,
        RepoServerError::ShutdownError(m) => "Shutdown Error: "@ + m@
            + "\n\nPlease check if the server is running properly."@,
        RepoServerError::InternalError(m) => "Internal Error: "@ + m@
            + "\n\nThis is an unexpected error. Please report this issue."@,
    }
}

fn framed(head: &str, m: &String, tail: &str) -> (r: String)
    ensures
        r@ == head@ + m@ + tail@,
{
    let mut r = head.to_owned();
    r.append(m.as_str());
    r.append(tail);
    r
}

impl RepoServerError {
    /// The report of the error.
    pub fn message(&self) -> (r: String)
        ensures
            r@ == server_error_text(*self),
    {
        match self {
            RepoServerError::ConfigurationError(m) => framed(
                "Configuration Error: ",
                m,
                "\n\nPlease check your configuration file and ensure all required settings are correct.",
            ),
            RepoServerError::NetworkError(m) => framed(
                "Network Error: ",
                m,
                "\n\nPlease check your network connection and server address.",
            ),
            RepoServerError::SecurityError(m) => framed(
                "Security Error: ",
                m,
                "\n\nThis operation was blocked for security reasons.",
            ),
            RepoServerError::FileSystemError(m) => framed(
                "File System Error: ",
                m,
                "\n\nPlease check file permissions and disk space.",
            ),
            RepoServerError::MessageError(m) => framed(
                "Message Processing Error: ",
                m,
                "\n\nPlease check the message format and try again.",
            ),
            RepoServerError::WorkerError(m) => framed(
                "Worker Error: ",
                m,
                "\n\nPlease check worker thread configuration.",
            ),
            RepoServerError::ShutdownError(m) => framed(
                "Shutdown Error: ",
                m,
                "\n\nPlease check if the server is running properly.",
            ),
            RepoServerError::InternalError(m) => framed(
                "Internal Error: ",
                m,
                "\n\nThis is an unexpected error. Please report this issue.",
            ),
        }
    }
}

/// Where an error happened and what may help.
#[derive(Debug, Clone)]
pub struct ErrorContext {
    pub operation: String,
    pub details: String,
    pub suggestion: Option<String>,
    pub error_code: Option<String>,
}

impl ErrorContext {
    /// A context with no suggestion and no code.
    pub fn new(operation: &str, details: &str) -> (r: ErrorContext)
        ensures
            r.operation@ == operation@,
            r.details@ == details@,
            r.suggestion is None,
            r.error_code is None,
    {
        ErrorContext {
            operation: operation.to_owned(),
            details: details.to_owned(),
            suggestion: None,
            error_code: None,
        }
    }

    /// The context with the given suggestion.
    pub fn with_suggestion(self, suggestion: &str) -> (r: ErrorContext)
        ensures
            r.operation == self.operation,
            r.details == self.details,
            r.suggestion matches Some(s) && s@ == suggestion@,
            r.error_code == self.error_code,
    {
        ErrorContext { suggestion: Some(suggestion.to_owned()), ..self }
    }

    /// The context with the given error code.
    pub fn with_error_code(self, code: &str) -> (r: ErrorContext)
        ensures
            r.operation == self.operation,
            r.details == self.details,
            r.suggestion == self.suggestion,
            r.error_code matches Some(c) && c@ == code@,
    {
        ErrorContext { error_code: Some(code.to_owned()), ..self }
    }
}

/// An error together with its context.
#[derive(Debug, Clone)]
pub struct ContextualError {
    pub error: RepoServerError,
    pub context: ErrorContext,
}

impl ContextualError {
    /// Pairs an error with its context.
    pub fn new(error: RepoServerError, context: ErrorContext) -> (r: ContextualError)
        ensures
            r.error == error,
            r.context == context,
    {
        ContextualError { error, context }
    }

    /// The report of the error; the context is not part of it.
    pub fn message(&self) -> (r: String)
        ensures
            r@ == server_error_text(self.error),
    {
        self.error.message()
    }
}

/// Whether `e` is an error raised by the builder for `operation` and
/// `details`: its context holds both, with `suggestion` and `code`.
pub open spec fn built_error(
    e: ContextualError,
    operation: Seq<char>,
    details: Seq<char>,
    suggestion: Seq<char>,
    code: Seq<char>,
) -> bool {
    &&& e.context.operation@ == operation
    &&& e.context.details@ == details
    &&& e.context.suggestion matches Some(s) && s@ == suggestion
    &&& e.context.error_code matches Some(c) && c@ == code
}

/// Builds the errors the server reports, each with its suggestion and code.
pub struct ErrorMessageBuilder;

impl ErrorMessageBuilder {
    /// A configuration error (`CONFIG_001`).
    pub fn configuration_error(operation: &str, details: &str) -> (r: ContextualError)
        ensures
            built_error(
                r,
                operation@,
                details@,
                "Run 'repo --help' to see configuration options"@,
                "CONFIG_001"@,
            ),
            r.error matches RepoServerError::ConfigurationError(m) && m@ == details@,
    {
        let context = ErrorContext::new(operation, details).with_suggestion(
            "Run 'repo --help' to see configuration options",
        ).with_error_code("CONFIG_001");
        ContextualError::new(RepoServerError::ConfigurationError(details.to_owned()), context)
    }

    /// A network error (`NET_001`).
    pub fn network_error(operation: &str, details: &str) -> (r: ContextualError)
        ensures
            built_error(
                r,
                operation@,
                details@,
                "Check if the core server is running and accessible"@,
                "NET_001"@,
            ),
            r.error matches RepoServerError::NetworkError(m) && m@ == details@,
    {
        let context = ErrorContext::new(operation, details).with_suggestion(
            "Check if the core server is running and accessible",
        ).with_error_code("NET_001");
        ContextualError::new(RepoServerError::NetworkError(details.to_owned()), context)
    }

    /// A security error (`SEC_001`).
    pub fn security_error(operation: &str, details: &str) -> (r: ContextualError)
        ensures
            built_error(
                r,
                operation@,
                details@,
                "Check file permissions and path security settings"@,
                "SEC_001"@,
            ),
            r.error matches RepoServerError::SecurityError(m) && m@ == details@,
    {
        let context = ErrorContext::new(operation, details).with_suggestion(
            "Check file permissions and path security settings",
        ).with_error_code("SEC_001");
        ContextualError::new(RepoServerError::SecurityError(details.to_owned()), context)
    }

    /// A file system error (`FS_001`).
    pub fn file_system_error(operation: &str, details: &str) -> (r: ContextualError)
        ensures
            built_error(r, operation@, details@, "Check disk space and file permissions"@, "FS_001"@),
            r.error matches RepoServerError::FileSystemError(m) && m@ == details@,
    {
        let context = ErrorContext::new(operation, details).with_suggestion(
            "Check disk space and file permissions",
        ).with_error_code("FS_001");
        ContextualError::new(RepoServerError::FileSystemError(details.to_owned()), context)
    }

    /// A message error (`MSG_001`).
    pub fn message_error(operation: &str, details: &str) -> (r: ContextualError)
        ensures
            built_error(r, operation@, details@, "Check message format and try again"@, "MSG_001"@),
            r.error matches RepoServerError::MessageError(m) && m@ == details@,
    {
        let context = ErrorContext::new(operation, details).with_suggestion(
            "Check message format and try again",
        ).with_error_code("MSG_001");
        ContextualError::new(RepoServerError::MessageError(details.to_owned()), context)
    }

    /// A worker error (`WORKER_001`).
    pub fn worker_error(operation: &str, details: &str) -> (r: ContextualError)
        ensures
            built_error(
                r,
                operation@,
                details@,
                "Check worker thread configuration and system resources"@,
                "WORKER_001"@,
            ),
            r.error matches RepoServerError::WorkerError(m) && m@ == details@,
    {
        let context = ErrorContext::new(operation, details).with_suggestion(
            "Check worker thread configuration and system resources",
        ).with_error_code("WORKER_001");
        ContextualError::new(RepoServerError::WorkerError(details.to_owned()), context)
    }
}

/// Progress of a long operation made of a known number of steps.
pub struct ProgressReporter {
    operation: String,
    total_steps: u32,
    current_step: u32,
    start_time: Instant,
}

impl ProgressReporter {
    /// Starts the named operation of `total_steps` steps now.
    pub fn new(operation: &str, total_steps: u32) -> (r: ProgressReporter)
        ensures
            r.operation_name() == operation@,
            r.total() == total_steps,
            r.done() == 0,
    {
        ProgressReporter {
            operation: operation.to_owned(),
            total_steps,
            current_step: 0,
            start_time: instant_now(),
        }
    }

    /// The name of the operation.
    pub closed spec fn operation_name(&self) -> Seq<char> {
        self.operation@
    }

    /// The number of steps announced.
    pub closed spec fn total(&self) -> u32 {
        self.total_steps
    }

    /// The number of steps taken.
    pub closed spec fn done(&self) -> u32 {
        self.current_step
    }

    /// Counts one more step taken.
    pub fn step(&mut self)
        requires
            old(self).done() < u32::MAX,
        ensures
            final(self).done() == old(self).done() + 1,
            final(self).total() == old(self).total(),
            final(self).operation_name() == old(self).operation_name(),
    {
        self.current_step = self.current_step + 1;
    }

    /// The name of the operation.
    pub fn operation(&self) -> (r: &str)
        ensures
            r@ == self.operation_name(),
    {
        self.operation.as_str()
    }

    /// The number of steps announced.
    pub fn total_steps(&self) -> (r: u32)
        ensures
            r == self.total(),
    {
        self.total_steps
    }

    /// The number of steps taken.
    pub fn current_step(&self) -> (r: u32)
        ensures
            r == self.done(),
    {
        self.current_step
    }

    /// The time since the operation started.
    pub fn elapsed(&self) -> Duration {
        elapsed_since(&self.start_time)
    }
}

/// The lines of the health report: one line when healthy; otherwise a
/// heading, the issues one per line, and a blank line (after which the
/// troubleshooting guide follows).
pub open spec fn health_report_lines(healthy: bool, issues: Seq<Seq<char>>) -> Seq<Seq<char>> {
    if healthy {
        seq!["✅ Server Health: Healthy"@]
    } else {
        seq!["❌ Server Health: Issues Detected"@, "   Issues:"@] + issues.map_values(
            |i: Seq<char>| "   • "@ + i,
        ) + seq![Seq::<char>::empty()]
    }
}

/// Help texts for the operator.
pub struct HelpSystem;

impl HelpSystem {
    /// The lines of the health report for `health_status`.
    pub fn health_check_lines(health_status: &HealthStatus) -> (r: Vec<String>)
        ensures
            texts_view(r@) == health_report_lines(
                health_status.is_healthy,
                texts_view(health_status.issues@),
            ),
    {
        let mut lines: Vec<String> = Vec::new();
        if health_status.is_healthy {
            lines.push("✅ Server Health: Healthy".to_owned());
            assert(texts_view(lines@) =~= seq!["✅ Server Health: Healthy"@]);
            return lines;
        }
        lines.push("❌ Server Health: Issues Detected".to_owned());
        lines.push("   Issues:".to_owned());
        let ghost issues = texts_view(health_status.issues@);
        let ghost bullets = issues.map_values(|i: Seq<char>| "   • "@ + i);
        let ghost head = seq!["❌ Server Health: Issues Detected"@, "   Issues:"@];
        assert(texts_view(lines@) =~= head);
        let mut k: usize = 0;
        while k < health_status.issues.len()
            invariant
                k <= health_status.issues@.len(),
                issues == texts_view(health_status.issues@),
                bullets == issues.map_values(|i: Seq<char>| "   • "@ + i),
                head == seq!["❌ Server Health: Issues Detected"@, "   Issues:"@],
                texts_view(lines@) =~= head + bullets.take(k as int),
            decreases health_status.issues@.len() - k,
        {
            let mut b = "   • ".to_owned();
            b.append(health_status.issues[k].as_str());
            let ghost before = lines@;
            lines.push(b);
            proof {
                assert(texts_view(lines@) =~= texts_view(before).push(b@));
                assert(bullets.take(k + 1) =~= bullets.take(k as int).push(bullets[k as int]));
            }
            k = k + 1;
        }
        lines.push(String::new());
        proof {
            assert(bullets.take(health_status.issues@.len() as int) =~= bullets);
            assert(texts_view(lines@) =~= head + bullets + seq![Seq::<char>::empty()]);
        }
        lines
    }
}

} // verus!
