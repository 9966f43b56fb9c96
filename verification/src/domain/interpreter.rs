//! The interface of a code interpreter that can suspend on external calls.
use vstd::prelude::*;

use crate::domain::code::CodeArtifact;
use crate::domain::ids::{ActionName, InputName};
use crate::domain::value::Value;

verus! {

/// The interpreters available.
#[derive(Debug, Clone, Copy, PartialEq, Eq, Structural)]
pub enum InterpreterKind {
    Monty,
}

/// A compiled program with the order its inputs are bound in.
#[derive(Debug, Clone, PartialEq, Eq)]
pub struct CompiledProgram {
    pub kind: InterpreterKind,
    pub input_order: Vec<InputName>,
    pub bytes: Vec<u8>,
}

/// The saved state of a suspended execution.
#[derive(Debug, Clone, PartialEq, Eq)]
pub struct ExecutionSnapshot {
    pub kind: InterpreterKind,
    pub bytes: Vec<u8>,
}

/// A call out of the interpreted program to a skill action.
#[derive(Debug, Clone, PartialEq, Eq)]
pub struct ExternalCall {
    pub action_name: ActionName,
    pub positional_arguments: Vec<Value>,
    pub named_arguments: Vec<(String, Value)>,
}

/// An execution paused on an external call.
#[derive(Debug, Clone, PartialEq, Eq)]
pub struct Suspension {
    pub snapshot: ExecutionSnapshot,
    pub call: ExternalCall,
}

/// What a finished execution produced.
#[derive(Debug, Clone, PartialEq, Eq)]
pub struct ExecutionOutput {
    pub value: Option<Value>,
}

/// The outcome of running an interpreter until it stops.
#[derive(Debug, Clone, PartialEq, Eq)]
pub enum InterpreterStep {
    Suspended(Suspension),
    Completed(ExecutionOutput),
}

/// An interpreter failure, with its message.
#[derive(Debug, Clone, PartialEq, Eq)]
pub struct InterpreterError {
    message: String,
}

impl InterpreterError {
    /// An error with the given message.
    pub fn new(message: String) -> (r: Self)
        ensures
            r.message() == message,
    {
        InterpreterError { message }
    }

    /// The message of this error.
    pub closed spec fn message(self) -> String {
        self.message
    }

    /// The message of this error, for display.
    pub fn message_str(&self) -> (r: &str)
        ensures
            r@ == self.message()@,
    {
        self.message.as_str()
    }
}

/// The inputs bound into a program, by input name.
pub type InputValues = Vec<(InputName, Value)>;

/// A code interpreter that can compile a program, run it, and resume it after
/// an external call returns.
pub trait Interpreter {
    fn kind(&self) -> InterpreterKind;

    fn compile(&self, code: &CodeArtifact) -> Result<CompiledProgram, InterpreterError>;

    fn start(&self, program: &CompiledProgram, inputs: &InputValues) -> Result<
        InterpreterStep,
        InterpreterError,
    >;

    fn resume(&self, snapshot: &ExecutionSnapshot, return_value: &Value) -> Result<
        InterpreterStep,
        InterpreterError,
    >;
}

} // verus!
