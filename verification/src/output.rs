//! The immutable snapshot of one completed command execution, and the
//! classification of completed commands into success and failure.

use vstd::prelude::*;

use crate::Error;
use crate::text::{join_spaces, join_with_spaces, trim_newlines, trim_trailing_newlines};

verus! {

/// Exit status of a completed process: its exit code, where one exists
/// (a process ended by a signal has none).
#[derive(Clone, Copy)]
pub struct ExitStatus {
    pub code: Option<i32>,
}

impl ExitStatus {
    /// Success means an exit code of zero.
    pub open spec fn is_success(self) -> bool {
        self.code == Some(0i32)
    }

    pub fn new(code: Option<i32>) -> (r: ExitStatus)
        ensures
            r.code == code,
    {
        ExitStatus { code }
    }

    /// Whether the process exited with code zero.
    pub fn success(&self) -> (r: bool)
        ensures
            r == self.is_success(),
    {
        match self.code {
            Some(c) => c == 0,
            None => false,
        }
    }
}

/// What `String::from_utf8` decodes a byte sequence to: `None` exactly
/// where the bytes are not valid text. The decoded characters depend on
/// the bytes alone.
pub uninterp spec fn utf8_decode(bytes: Seq<u8>) -> Option<Seq<char>>;

/// Relies on `String::from_utf8`: returns the decoded text, or `None`
/// where the bytes are not valid text.
#[verifier::external_body]
pub(crate) fn bytes_to_string(bytes: Vec<u8>) -> (r: Option<String>)
    ensures
        r is Some <==> utf8_decode(bytes@) is Some,
        r is Some ==> r.unwrap()@ == utf8_decode(bytes@).unwrap(),
{
    String::from_utf8(bytes).ok()
}

/// Captured result of one completed execution. The streams hold text with
/// all trailing newline noise removed, so comparisons can be exact.
pub struct Output {
    pub status: ExitStatus,
    pub stderr: String,
    pub stdout: String,
}

impl Output {
    /// Builds the snapshot from the exit status and the raw captured
    /// streams: decodes both streams as text and strips every trailing
    /// line feed and carriage return. Fails exactly where a stream is not
    /// valid text.
    pub fn from_raw(status: ExitStatus, stdout: Vec<u8>, stderr: Vec<u8>) -> (r: Result<
        Output,
        Error,
    >)
        ensures
            match r {
                Ok(out) => utf8_decode(stdout@) is Some && utf8_decode(stderr@) is Some
                    && out.status == status && out.stdout@ == trim_newlines(
                    utf8_decode(stdout@).unwrap(),
                ) && out.stderr@ == trim_newlines(utf8_decode(stderr@).unwrap()),
                Err(e) => (utf8_decode(stdout@) is None || utf8_decode(stderr@) is None)
                    && e is Encoding,
            },
    {
        let so = match bytes_to_string(stdout) {
            Some(s) => s,
            None => {
                return Err(Error::Encoding);
            },
        };
        let se = match bytes_to_string(stderr) {
            Some(s) => s,
            None => {
                return Err(Error::Encoding);
            },
        };
        Ok(
            Output {
                status,
                stdout: trim_trailing_newlines(so.as_str()),
                stderr: trim_trailing_newlines(se.as_str()),
            },
        )
    }
}

/// Diagnostic line for a failed engine command: the command line inside
/// backticks.
pub open spec fn command_failure_message(argv: Seq<Seq<char>>) -> Seq<char> {
    "`"@ + join_spaces(argv) + "` failed"@
}

/// Diagnostic line for a failed command inside a sandbox: the sandbox
/// name in brackets, then the command line inside backticks.
pub open spec fn sandbox_failure_message(name: Seq<char>, argv: Seq<Seq<char>>) -> Seq<char> {
    "["@ + name + "] `"@ + join_spaces(argv) + "` failed"@
}

/// Formats the failure message for a raw engine command.
pub fn format_command_failure(argv: &Vec<String>) -> (r: String)
    ensures
        r@ == command_failure_message(argv.deep_view()),
{
    let mut r = String::from_str("`");
    let joined = join_with_spaces(argv);
    r.append(joined.as_str());
    r.append("` failed");
    r
}

/// Formats the failure message for a command inside a named sandbox.
pub fn format_sandbox_failure(name: &str, argv: &Vec<String>) -> (r: String)
    ensures
        r@ == sandbox_failure_message(name@, argv.deep_view()),
{
    let mut r = String::from_str("[");
    r.append(name);
    r.append("] `");
    let joined = join_with_spaces(argv);
    r.append(joined.as_str());
    r.append("` failed");
    r
}

/// Classifies a completed engine command: hands the output back only
/// where the exit status reports success; any other status becomes the
/// error carrying the command line and both captured streams.
pub fn checked(argv: &Vec<String>, out: Output) -> (r: Result<Output, Error>)
    ensures
        match r {
            Ok(o) => out.status.is_success() && o == out,
            Err(e) => !out.status.is_success() && (e matches Error::NonZeroExit {
                message,
                stdout,
                stderr,
            } && message@ == command_failure_message(argv.deep_view()) && stdout@ == out.stdout@
                && stderr@ == out.stderr@),
        },
{
    if out.status.success() {
        Ok(out)
    } else {
        let message = format_command_failure(argv);
        Err(Error::NonZeroExit { message, stdout: out.stdout, stderr: out.stderr })
    }
}

/// Classifies a completed command inside a sandbox and keeps only its
/// standard output: a non-success exit status becomes the error whose
/// message names the sandbox and the command line, with both captured
/// streams attached for diagnosis.
pub fn checked_stdout(name: &str, argv: &Vec<String>, out: Output) -> (r: Result<String, Error>)
    ensures
        match r {
            Ok(s) => out.status.is_success() && s@ == out.stdout@,
            Err(e) => !out.status.is_success() && (e matches Error::NonZeroExit {
                message,
                stdout,
                stderr,
            } && message@ == sandbox_failure_message(name@, argv.deep_view()) && stdout@
                == out.stdout@ && stderr@ == out.stderr@),
        },
{
    if out.status.success() {
        Ok(out.stdout)
    } else {
        let message = format_sandbox_failure(name, argv);
        Err(Error::NonZeroExit { message, stdout: out.stdout, stderr: out.stderr })
    }
}

/// Classifies a status-only command inside a sandbox: a non-success exit
/// status becomes the error whose message names the sandbox and the
/// command line. No streams were captured, so the error carries none.
pub fn checked_status(name: &str, argv: &Vec<String>, status: ExitStatus) -> (r: Result<(), Error>)
    ensures
        match r {
            Ok(u) => status.is_success(),
            Err(e) => !status.is_success() && (e matches Error::NonZeroExit {
                message,
                stdout,
                stderr,
            } && message@ == sandbox_failure_message(name@, argv.deep_view()) && stdout@.len() == 0
                && stderr@.len() == 0),
        },
{
    if status.success() {
        Ok(())
    } else {
        let message = format_sandbox_failure(name, argv);
        Err(Error::NonZeroExit { message, stdout: String::new(), stderr: String::new() })
    }
}

} // verus!
