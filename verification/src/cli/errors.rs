//! The errors the command-line tool reports, and how it reports them.
use vstd::prelude::*;

use crate::domain::ids::{uuid_string, uuid_text, RunId};
use crate::evals::spec::EvalError;
use crate::text::{string_push_str, trim, trim_string};

verus! {

/// An error of the command-line tool. The failures of files, directories and
/// tools carry the text of the underlying error; a failed tool carries the
/// text of its exit status.
#[derive(Debug, Clone, PartialEq, Eq)]
pub enum CliError {
    ReadFile { path: String, message: String },
    InvalidArguments(String),
    UnknownRun(RunId),
    Store(String),
    Engine(String),
    CreateDir { path: String, message: String },
    WriteFile { path: String, message: String },
    CopyPath { source_path: String, target_path: String, message: String },
    ToolNotInstalled { tool: String, hint: String },
    ToolIo { tool: String, message: String },
    ToolFailed { tool: String, status: String, stderr: String },
    UnexpectedStateOwned(String),
}

/// An error of the command-line tool as plain values.
pub enum CliErrorView {
    ReadFile { path: Seq<char>, message: Seq<char> },
    InvalidArguments(Seq<char>),
    UnknownRun(RunId),
    Store(Seq<char>),
    Engine(Seq<char>),
    CreateDir { path: Seq<char>, message: Seq<char> },
    WriteFile { path: Seq<char>, message: Seq<char> },
    CopyPath { source_path: Seq<char>, target_path: Seq<char>, message: Seq<char> },
    ToolNotInstalled { tool: Seq<char>, hint: Seq<char> },
    ToolIo { tool: Seq<char>, message: Seq<char> },
    ToolFailed { tool: Seq<char>, status: Seq<char>, stderr: Seq<char> },
    UnexpectedState(Seq<char>),
}

impl View for CliError {
    type V = CliErrorView;

    open spec fn view(&self) -> CliErrorView {
        match self {
            CliError::ReadFile { path, message } => CliErrorView::ReadFile {
                path: path@,
                message: message@,
            },
            CliError::InvalidArguments(m) => CliErrorView::InvalidArguments(m@),
            CliError::UnknownRun(id) => CliErrorView::UnknownRun(*id),
            CliError::Store(m) => CliErrorView::Store(m@),
            CliError::Engine(m) => CliErrorView::Engine(m@),
            CliError::CreateDir { path, message } => CliErrorView::CreateDir {
                path: path@,
                message: message@,
            },
            CliError::WriteFile { path, message } => CliErrorView::WriteFile {
                path: path@,
                message: message@,
            },
            CliError::CopyPath { source_path, target_path, message } => CliErrorView::CopyPath {
                source_path: source_path@,
                target_path: target_path@,
                message: message@,
            },
            CliError::ToolNotInstalled { tool, hint } => CliErrorView::ToolNotInstalled {
                tool: tool@,
                hint: hint@,
            },
            CliError::ToolIo { tool, message } => CliErrorView::ToolIo {
                tool: tool@,
                message: message@,
            },
            CliError::ToolFailed { tool, status, stderr } => CliErrorView::ToolFailed {
                tool: tool@,
                status: status@,
                stderr: stderr@,
            },
            CliError::UnexpectedStateOwned(m) => CliErrorView::UnexpectedState(m@),
        }
    }
}

/// How an error is reported.
pub open spec fn error_text(e: CliErrorView) -> Seq<char> {
    match e {
        CliErrorView::ReadFile { path, message } => "failed to read "@ + path + ": "@ + message,
        CliErrorView::InvalidArguments(m) => m,
        CliErrorView::UnknownRun(id) => "run "@ + uuid_text(id.value) + " was not found"@,
        CliErrorView::Store(m) => "filesystem state initialization failed: "@ + m,
        CliErrorView::Engine(m) => "execution failed: "@ + m,
        CliErrorView::CreateDir { path, message } => "failed to create "@ + path + ": "@ + message,
        CliErrorView::WriteFile { path, message } => "failed to write "@ + path + ": "@ + message,
        CliErrorView::CopyPath { source_path, target_path, message } => "failed to copy "@
            + source_path + " to "@ + target_path + ": "@ + message,
        CliErrorView::ToolNotInstalled { tool, hint } => tool + " is not installed. "@ + hint,
        CliErrorView::ToolIo { tool, message } => "failed to run "@ + tool + ": "@ + message,
        CliErrorView::ToolFailed { tool, status, stderr } => if trim(stderr).len() == 0 {
            tool + " exited with status "@ + status
        } else {
            tool + " exited with status "@ + status + ": "@ + trim(stderr)
        },
        CliErrorView::UnexpectedState(m) => "execution failed: "@ + m,
    }
}

/// The text `a`, then `b`.
fn joined2(a: &str, b: &str) -> (r: String)
    ensures
        r@ == a@ + b@,
{
    let mut s = a.to_owned();
    string_push_str(&mut s, b);
    s
}

/// The text `a`, then `b`, then `c`.
fn joined3(a: &str, b: &str, c: &str) -> (r: String)
    ensures
        r@ == a@ + b@ + c@,
{
    let mut s = a.to_owned();
    string_push_str(&mut s, b);
    string_push_str(&mut s, c);
    s
}

/// The text `a`, then `b`, then `c`, then `d`.
fn joined4(a: &str, b: &str, c: &str, d: &str) -> (r: String)
    ensures
        r@ == a@ + b@ + c@ + d@,
{
    let mut s = a.to_owned();
    string_push_str(&mut s, b);
    string_push_str(&mut s, c);
    string_push_str(&mut s, d);
    s
}

impl CliError {
    /// How this error is reported.
    pub fn message(&self) -> (r: String)
        ensures
            r@ == error_text(self@),
    {
        match self {
            CliError::ReadFile { path, message } => joined4(
                "failed to read ",
                path.as_str(),
                ": ",
                message.as_str(),
            ),
            CliError::InvalidArguments(m) => m.clone(),
            CliError::UnknownRun(id) => {
                let text = uuid_string(id.value);
                joined3("run ", text.as_str(), " was not found")
            },
            CliError::Store(m) => joined2("filesystem state initialization failed: ", m.as_str()),
            CliError::Engine(m) => joined2("execution failed: ", m.as_str()),
            CliError::CreateDir { path, message } => joined4(
                "failed to create ",
                path.as_str(),
                ": ",
                message.as_str(),
            ),
            CliError::WriteFile { path, message } => joined4(
                "failed to write ",
                path.as_str(),
                ": ",
                message.as_str(),
            ),
            CliError::CopyPath { source_path, target_path, message } => {
                let head = joined4("failed to copy ", source_path.as_str(), " to ", target_path.as_str());
                joined3(head.as_str(), ": ", message.as_str())
            },
            CliError::ToolNotInstalled { tool, hint } => joined3(
                tool.as_str(),
                " is not installed. ",
                hint.as_str(),
            ),
            CliError::ToolIo { tool, message } => joined4(
                "failed to run ",
                tool.as_str(),
                ": ",
                message.as_str(),
            ),
            CliError::ToolFailed { tool, status, stderr } => {
                let head = joined3(tool.as_str(), " exited with status ", status.as_str());
                let t = trim_string(stderr.as_str());
                if t.as_str().is_empty() {
                    head
                } else {
                    joined3(head.as_str(), ": ", t.as_str())
                }
            },
            CliError::UnexpectedStateOwned(m) => joined2("execution failed: ", m.as_str()),
        }
    }

    /// The error a failure of the evaluation engine becomes: a file that
    /// could not be read stays one, anything else is an unexpected state
    /// with the engine's message.
    pub fn from_eval(e: EvalError) -> (r: CliError)
        ensures
            r == match e {
                EvalError::ReadFile { path, message } => CliError::ReadFile { path, message },
                EvalError::InvalidSpec(m) => CliError::UnexpectedStateOwned(m),
                EvalError::InvalidOverride(m) => CliError::UnexpectedStateOwned(m),
                EvalError::Internal(m) => CliError::UnexpectedStateOwned(m),
            },
    {
        match e {
            EvalError::ReadFile { path, message } => CliError::ReadFile { path, message },
            EvalError::InvalidSpec(m) => CliError::UnexpectedStateOwned(m),
            EvalError::InvalidOverride(m) => CliError::UnexpectedStateOwned(m),
            EvalError::Internal(m) => CliError::UnexpectedStateOwned(m),
        }
    }
}

} // verus!
