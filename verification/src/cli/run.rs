//! What the `run` and `skill db` commands decide from what they see: when a
//! watched run is over, and which seed a database is filled from.
use vstd::prelude::*;

use crate::cli::errors::{CliError, CliErrorView};
use crate::domain::event::ExecutionEvent;
use crate::text::string_push_str;

verus! {

/// How a watched run ends at this event: successfully when it completed,
/// with its failure message when it failed; nothing at any other event.
pub fn terminal_result(event: &ExecutionEvent) -> (r: Option<Result<(), CliError>>)
    ensures
        match *event {
            ExecutionEvent::RunCompleted { .. } => r == Some(Ok::<(), CliError>(())),
            ExecutionEvent::RunFailed { message, .. } => r matches Some(Err(e)) && e@
                == CliErrorView::UnexpectedState(message@),
            _ => r is None,
        },
{
    match event {
        ExecutionEvent::RunCompleted { .. } => Some(Ok(())),
        ExecutionEvent::RunFailed { message, .. } => Some(
            Err(CliError::UnexpectedStateOwned(message.clone())),
        ),
        _ => None,
    }
}

/// The seed a database is filled from: its default seed when none is
/// asked for; its default seed, which it must have, when the empty name is
/// asked for; else the seed asked for.
pub open spec fn seed_choice(database_name: Seq<char>, default_seed: Option<Seq<char>>, selected: Option<Seq<char>>) -> Result<
    Option<Seq<char>>,
    CliErrorView,
> {
    match selected {
        None => Ok(default_seed),
        Some(s) => if s.len() == 0 {
            match default_seed {
                Some(d) => Ok(Some(d)),
                None => Err(
                    CliErrorView::UnexpectedState(
                        "database '"@ + database_name + "' has no default seed"@,
                    ),
                ),
            }
        } else {
            Ok(Some(s))
        },
    }
}

/// The seed a database is filled from; see `seed_choice`.
pub fn resolve_seed_name(database_name: &str, default_seed: &Option<String>, selected_seed: Option<&str>) -> (r: Result<
    Option<String>,
    CliError,
>)
    ensures
        match seed_choice(
            database_name@,
            crate::canonical::ir::opt_view(*default_seed),
            match selected_seed {
                Some(s) => Some(s@),
                None => None,
            },
        ) {
            Ok(s) => r matches Ok(x) && crate::canonical::ir::opt_view(x) == s,
            Err(e) => r matches Err(x) && x@ == e,
        },
{
    match selected_seed {
        None => Ok(crate::canonical::ir::copy_opt_string(default_seed)),
        Some(s) => {
            if s.is_empty() {
                match default_seed {
                    Some(d) => Ok(Some(d.clone())),
                    None => {
                        let mut m = "database '".to_owned();
                        string_push_str(&mut m, database_name);
                        string_push_str(&mut m, "' has no default seed");
                        Err(CliError::UnexpectedStateOwned(m))
                    },
                }
            } else {
                Ok(Some(s.to_owned()))
            }
        },
    }
}

} // verus!
