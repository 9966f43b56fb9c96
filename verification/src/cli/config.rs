//! The agent's configuration from the environment.
use vstd::prelude::*;

use crate::cli::errors::CliError;
use crate::text::{trim, trim_string};

verus! {

/// The language model to use.
#[derive(Debug, Clone, PartialEq, Eq)]
pub struct OpenAiConfig {
    pub api_key: String,
    pub model: String,
}

/// Where the agent keeps its state, whether it logs prompts, and the model
/// it talks to, if one is configured.
#[derive(Debug, Clone, PartialEq, Eq)]
pub struct AgentConfig {
    pub root: String,
    pub debug: bool,
    pub openai: Option<OpenAiConfig>,
}

/// A setting given and not blank, trimmed.
pub open spec fn setting(v: Option<String>) -> Option<Seq<char>> {
    match v {
        Some(s) => if trim(s@).len() == 0 {
            None
        } else {
            Some(trim(s@))
        },
        None => None,
    }
}

fn present(v: Option<String>) -> (r: Option<String>)
    ensures
        match r {
            Some(s) => setting(v) == Some(s@),
            None => setting(v) is None,
        },
{
    match v {
        Some(s) => {
            let t = trim_string(s.as_str());
            if t.as_str().is_empty() {
                None
            } else {
                Some(t)
            }
        },
        None => None,
    }
}

impl AgentConfig {
    /// The configuration from the settings: a model is configured when both
    /// the key and the model name are given (blank counts as not given);
    /// neither means no model; one without the other is an error naming the
    /// missing one.
    pub fn from_openai(root: String, debug: bool, api_key: Option<String>, model: Option<String>) -> (r:
        Result<Self, CliError>)
        ensures
            match (setting(api_key), setting(model)) {
                (None, None) => r == Ok::<AgentConfig, CliError>(AgentConfig { root, debug, openai: None }),
                (Some(k), Some(m)) => r matches Ok(c) && c.root == root && c.debug == debug && (
                c.openai matches Some(o) && o.api_key@ == k && o.model@ == m),
                (Some(_), None) => r matches Err(CliError::InvalidArguments(e)) && e@
                    == "OPENAI_MODEL is required when OPENAI_API_KEY is set"@,
                (None, Some(_)) => r matches Err(CliError::InvalidArguments(e)) && e@
                    == "OPENAI_API_KEY is required when OPENAI_MODEL is set"@,
            },
    {
        match (present(api_key), present(model)) {
            (None, None) => Ok(AgentConfig { root, debug, openai: None }),
            (Some(api_key), Some(model)) => Ok(
                AgentConfig { root, debug, openai: Some(OpenAiConfig { api_key, model }) },
            ),
            (Some(_), None) => Err(
                CliError::InvalidArguments(
                    "OPENAI_MODEL is required when OPENAI_API_KEY is set".to_owned(),
                ),
            ),
            (None, Some(_)) => Err(
                CliError::InvalidArguments(
                    "OPENAI_API_KEY is required when OPENAI_MODEL is set".to_owned(),
                ),
            ),
        }
    }
}

} // verus!
