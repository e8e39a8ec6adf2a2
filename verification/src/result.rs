//! What the service answers to a compilation request.

use crate::error::{WandboxError, REPLY_HEAD, REPLY_TAIL};
use crate::status::{status_line, Status};
use vstd::prelude::*;
use vstd::string::StringExecFns;

verus! {

/// The result of one compilation: how the program ended, and what the
/// compiler and the program wrote. A part that the service left out is empty.
#[derive(Debug)]
pub struct CompilationResult {
    pub status: String,
    pub signal: String,
    pub compiler_stdout: String,
    pub compiler_stderr: String,
    pub compiler_all: String,
    pub program_stdout: String,
    pub program_stderr: String,
    pub program_all: String,
    pub permlink: String,
    pub url: String,
}

impl Default for CompilationResult {
    /// The result in which every part is empty.
    fn default() -> (empty: CompilationResult)
        ensures
            empty.status@ == Seq::<char>::empty(),
            empty.signal@ == Seq::<char>::empty(),
            empty.compiler_stdout@ == Seq::<char>::empty(),
            empty.compiler_stderr@ == Seq::<char>::empty(),
            empty.compiler_all@ == Seq::<char>::empty(),
            empty.program_stdout@ == Seq::<char>::empty(),
            empty.program_stderr@ == Seq::<char>::empty(),
            empty.program_all@ == Seq::<char>::empty(),
            empty.permlink@ == Seq::<char>::empty(),
            empty.url@ == Seq::<char>::empty(),
    {
        CompilationResult {
            status: String::new(),
            signal: String::new(),
            compiler_stdout: String::new(),
            compiler_stderr: String::new(),
            compiler_all: String::new(),
            program_stdout: String::new(),
            program_stderr: String::new(),
            program_all: String::new(),
            permlink: String::new(),
            url: String::new(),
        }
    }
}

impl CompilationResult {
    /// One line on the result: status and signal in square brackets, then
    /// all that the compiler wrote, a colon, and all that the program wrote.
    pub fn describe(&self) -> (line: String)
        ensures
            line@ == "["@ + self.status@ + " "@ + self.signal@ + "] "@ + self.compiler_all@ + ": "@
                + self.program_all@,
    {
        let mut line = "[".to_owned();
        line.append(self.status.as_str());
        line.append(" ");
        line.append(self.signal.as_str());
        line.append("] ");
        line.append(self.compiler_all.as_str());
        line.append(": ");
        line.append(self.program_all.as_str());
        line
    }
}

/// What became of a request that was sent to the service.
#[derive(Debug)]
pub enum Reply {
    /// No answer came; `cause` says why.
    Failed { cause: String },
    /// An answer came with `status`, but its body was not a result.
    Unreadable { status: Status },
    /// An answer came and held this result.
    Read { result: CompilationResult },
}

impl Reply {
    /// The outcome of the request: the result that was read, or the error
    /// that says why there is none.
    pub fn into_result(self) -> (outcome: Result<CompilationResult, WandboxError>)
        ensures
            match self {
                Reply::Failed { cause } => outcome matches Err(e) && e@ == cause@,
                Reply::Unreadable { status } => outcome matches Err(e) && e@ == REPLY_HEAD@
                    + status_line(status@) + REPLY_TAIL@,
                Reply::Read { result } => outcome == Ok::<CompilationResult, WandboxError>(result),
            },
    {
        match self {
            Reply::Failed { cause } => Err(WandboxError::new(cause.as_str())),
            Reply::Unreadable { status } => Err(
                WandboxError::unreadable_reply(status.line().as_str()),
            ),
            Reply::Read { result } => Ok(result),
        }
    }
}

} // verus!
