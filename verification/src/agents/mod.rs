//! The language-model agent: the workspace vocabulary it acts in, the
//! prompts it is given, and how its streamed replies become decisions.
pub mod decision;
pub mod prompt;
pub mod workspace;
