//! What a tool asks of the workspaces, and what comes back.
//!
//! A tool that needs several commands is a sequence of stages. Each stage asks
//! for one thing; given the reply, the tool asks for the next thing, or is
//! done, or fails.

use crate::mcp::error::{ErrorKind, ToolError};
use crate::text;
use crate::text::trimmed;
use vstd::prelude::*;

verus! {

/// What a command left behind when it ended.
#[derive(Debug)]
pub struct ExecReply {
    pub exit_code: i32,
    pub stdout: String,
    pub stderr: String,
}

/// The contents of an [`ExecReply`].
pub struct Output {
    pub code: int,
    pub out: Seq<char>,
    pub err: Seq<char>,
}

impl View for ExecReply {
    type V = Output;

    open spec fn view(&self) -> Output {
        Output { code: self.exit_code as int, out: self.stdout@, err: self.stderr@ }
    }
}

/// The reply to a request: what the command left behind, or why it could not
/// be run to its end.
pub open spec fn reply_view(r: Result<ExecReply, String>) -> Result<Output, Seq<char>> {
    match r {
        Ok(o) => Ok(o@),
        Err(e) => Err(e@),
    }
}

/// One thing that a tool asks of a workspace.
#[derive(Debug)]
pub enum Request {
    /// Run a shell command.
    Exec { workspace: u128, command: String, timeout_secs: u64 },
    /// Write a file.
    WriteFile { workspace: u128, path: String, content: String },
}

/// The contents of a [`Request`].
pub enum RequestView {
    Exec { workspace: u128, command: Seq<char>, timeout_secs: u64 },
    WriteFile { workspace: u128, path: Seq<char>, content: Seq<char> },
}

impl View for Request {
    type V = RequestView;

    open spec fn view(&self) -> RequestView {
        match self {
            Request::Exec { workspace, command, timeout_secs } => RequestView::Exec {
                workspace: *workspace,
                command: command@,
                timeout_secs: *timeout_secs,
            },
            Request::WriteFile { workspace, path, content } => RequestView::WriteFile {
                workspace: *workspace,
                path: path@,
                content: content@,
            },
        }
    }
}

/// What a tool does after a reply: ask for another thing and wait at a stage,
/// or end with a result or an error.
#[derive(Debug)]
pub enum Next<S, T> {
    Run { request: Request, stage: S },
    Done(T),
    Fail(ToolError),
}

impl<S, T> Next<S, T> {
    /// The tool asks for this command.
    pub open spec fn runs(self, workspace: u128, command: Seq<char>, timeout_secs: u64) -> bool {
        self is Run && self->request@ == (RequestView::Exec { workspace, command, timeout_secs })
    }

    /// The tool ends with this error.
    pub open spec fn fails(self, kind: ErrorKind, message: Seq<char>) -> bool {
        self is Fail && self->Fail_0@ == (kind, message)
    }
}

/// The command ended well.
pub open spec fn succeeded(r: Result<Output, Seq<char>>) -> bool {
    r is Ok && r->Ok_0.code == 0
}

/// The trimmed standard output of a command that ended well, else nothing.
pub open spec fn output_or_empty(r: Result<Output, Seq<char>>) -> Seq<char> {
    if succeeded(r) {
        text::trim(r->Ok_0.out)
    } else {
        seq![]
    }
}

/// What a command says about its failure: its standard error, or its standard
/// output where that is empty.
pub open spec fn complaint(o: Output) -> Seq<char> {
    if o.err.len() > 0 {
        o.err
    } else {
        o.out
    }
}

/// The trimmed standard output of a command that ended well, else nothing.
pub fn trimmed_output(r: &Result<ExecReply, String>) -> (s: String)
    ensures
        s@ == output_or_empty(reply_view(*r)),
{
    match r {
        Ok(o) => if o.exit_code == 0 {
            trimmed(o.stdout.as_str())
        } else {
            String::new()
        },
        Err(_) => String::new(),
    }
}

/// What a command says about its failure.
pub fn complaint_of(o: &ExecReply) -> (s: &str)
    ensures
        s@ == complaint(o@),
{
    if !o.stderr.as_str().is_empty() {
        o.stderr.as_str()
    } else {
        o.stdout.as_str()
    }
}

} // verus!
