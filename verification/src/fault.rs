//! What the file system and child processes report, as plain values.
use vstd::prelude::*;

verus! {

/// The classes of I/O failure that decisions depend on.
#[derive(Debug, Clone, Copy, PartialEq, Eq, Structural)]
pub enum ErrorKind {
    NotFound,
    PermissionDenied,
    WouldBlock,
    Unsupported,
    Other,
}

/// An I/O failure: its class, the code of the operating system where there is
/// one, and its text.
#[derive(Debug)]
pub struct IoError {
    pub kind: ErrorKind,
    pub os_code: Option<i32>,
    pub text: String,
}

impl IoError {
    /// A failure that the tool itself reports, with no system code behind it.
    pub fn new(kind: ErrorKind, text: String) -> (error: IoError)
        ensures
            error == (IoError { kind, os_code: None, text }),
    {
        IoError { kind, os_code: None, text }
    }

    /// The code of the operating system behind this failure.
    pub fn raw_os_error(&self) -> (code: Option<i32>)
        ensures
            code == self.os_code,
    {
        self.os_code
    }
}

/// What is known of one file system entry.
#[derive(Debug, Clone, Copy, PartialEq, Eq, Structural)]
pub struct FileMeta {
    pub is_dir: bool,
    pub is_file: bool,
    pub is_symlink: bool,
    pub readonly: bool,
    /// The attribute bits of Windows; zero elsewhere.
    pub attributes: u32,
}

/// What a child process left behind.
#[derive(Debug)]
pub struct CommandOutput {
    pub success: bool,
    pub code: Option<i32>,
    pub stdout: Vec<u8>,
    pub stderr: Vec<u8>,
}

/// An error as it reaches the user: what failed, and the failure behind it.
#[derive(Debug)]
pub struct ErrorReport {
    pub message: String,
    pub cause: Option<String>,
}

impl ErrorReport {
    /// A report with nothing behind it.
    pub fn plain(message: String) -> (report: ErrorReport)
        ensures
            report == (ErrorReport { message, cause: None }),
    {
        ErrorReport { message, cause: None }
    }

    /// A report of what was being done when `cause` came up.
    pub fn because(message: String, cause: String) -> (report: ErrorReport)
        ensures
            report == (ErrorReport { message, cause: Some(cause) }),
    {
        ErrorReport { message, cause: Some(cause) }
    }

    /// The message, then a colon and the cause where there is one.
    pub open spec fn full(self) -> Seq<char> {
        match self.cause {
            Some(cause) => self.message@ + ": "@ + cause@,
            None => self.message@,
        }
    }

    /// The whole report on one line.
    pub fn full_text(&self) -> (line: String)
        ensures
            line@ == self.full(),
    {
        let mut line = self.message.clone();
        match &self.cause {
            Some(cause) => {
                line.append(": ");
                line.append(cause.as_str());
            },
            None => {},
        }
        line
    }
}

/// A report with a cause is its message, a colon and the cause; one without is
/// its message.
pub proof fn law_report_ends_with_its_cause(report: ErrorReport)
    ensures
        report.cause is None ==> report.full() == report.message@,
        report.cause matches Some(cause) ==> report.full() == report.message@ + seq![':', ' ']
            + cause@,
{
    reveal_strlit(": ");
    assert(": "@ =~= seq![':', ' ']);
}

} // verus!
