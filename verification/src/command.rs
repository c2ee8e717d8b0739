use vstd::prelude::*;

verus! {

/// What a finished run of the management tool left behind.
#[derive(Debug, Clone)]
pub struct CommandOutput {
    /// The exit status; `None` where the run ended without one.
    pub status: Option<i32>,
    pub stdout: String,
    pub stderr: String,
}

impl CommandOutput {
    /// A run succeeded where it ended with exit status zero.
    pub open spec fn succeeded(self) -> bool {
        self.status == Some(0i32)
    }

    /// Tests whether the run ended with exit status zero.
    pub fn success(&self) -> (b: bool)
        ensures
            b == self.succeeded(),
    {
        match self.status {
            Some(code) => code == 0,
            None => false,
        }
    }
}

/// The shell that runs the command line; it decides how clauses are
/// separated.
#[derive(Debug, Clone, Copy, PartialEq, Eq)]
pub enum Shell {
    Posix,
    Windows,
}

impl Shell {
    /// The text that separates two commands on one line.
    pub open spec fn separator_text(self) -> Seq<char> {
        match self {
            Shell::Posix => ";"@,
            Shell::Windows => "&"@,
        }
    }

    /// The text that separates two commands on one line.
    pub fn separator(&self) -> (s: &'static str)
        ensures
            s@ == self.separator_text(),
    {
        match self {
            Shell::Posix => ";",
            Shell::Windows => "&",
        }
    }
}

/// The text of a failed run for a log line.
pub open spec fn failure_text(command: Seq<char>, stderr: Seq<char>) -> Seq<char> {
    "Error executing command: "@ + command + ". Error: "@ + stderr
}

/// Renders a failed run as text for a log line.
pub fn failure_message(command: &str, stderr: &str) -> (s: String)
    ensures
        s@ == failure_text(command@, stderr@),
{
    let mut s = "Error executing command: ".to_owned();
    s.append(command);
    s.append(". Error: ");
    s.append(stderr);
    s
}

/// The sensor table could not be read: the command that was run, how it
/// ended, and what it wrote to its error stream.
#[derive(Debug, Clone)]
pub struct AcquisitionError {
    pub command: String,
    pub exit_status: Option<i32>,
    pub stderr: String,
}

impl AcquisitionError {
    /// The error as text for a log line.
    pub open spec fn text(self) -> Seq<char> {
        failure_text(self.command@, self.stderr@)
    }

    /// Renders the error as text for a log line.
    pub fn to_string(&self) -> (s: String)
        ensures
            s@ == self.text(),
    {
        failure_message(self.command.as_str(), self.stderr.as_str())
    }
}

/// The fans could not be set: the command that was run, how it ended, and
/// what it wrote to its error stream.
#[derive(Debug, Clone)]
pub struct ActuationError {
    pub command: String,
    pub exit_status: Option<i32>,
    pub stderr: String,
}

impl ActuationError {
    /// The error as text for a log line.
    pub open spec fn text(self) -> Seq<char> {
        failure_text(self.command@, self.stderr@)
    }

    /// Renders the error as text for a log line.
    pub fn to_string(&self) -> (s: String)
        ensures
            s@ == self.text(),
    {
        failure_message(self.command.as_str(), self.stderr.as_str())
    }
}

} // verus!
