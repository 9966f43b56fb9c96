//! Code artifacts handed to an interpreter.
use vstd::prelude::*;

use crate::domain::ids::{CodeArtifactId, InputName};

verus! {

/// The languages code artifacts are written in.
#[derive(Debug, Clone, Copy, PartialEq, Eq, Structural)]
pub enum CodeLanguage {
    Python,
}

/// The name a script runs under.
#[derive(Debug, Clone, PartialEq, Eq)]
pub struct ScriptName(pub String);

impl ScriptName {
    /// Wraps a script name.
    pub fn new(value: String) -> (r: Self)
        ensures
            r.0 == value,
    {
        ScriptName(value)
    }

    /// The name as a string slice.
    pub fn as_str(&self) -> (r: &str)
        ensures
            r@ == self.0@,
    {
        self.0.as_str()
    }
}

/// Source code with the names of the inputs bound into it.
#[derive(Debug, Clone, PartialEq, Eq)]
pub struct CodeArtifact {
    pub id: CodeArtifactId,
    pub language: CodeLanguage,
    pub script_name: ScriptName,
    pub source: String,
    pub inputs: Vec<InputName>,
}

} // verus!
