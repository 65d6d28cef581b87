//! Answers to `query` for scripts and status lines.
use vstd::prelude::*;

use crate::cli::{query_command, QueryArgs, QueryCommand};
use crate::input::min_usize;
use crate::projection::{bells_upto, ProjectionState};
use crate::text::{decimal, push_char, push_decimal};

verus! {

/// The text that a query writes: for `alerts`, the number of active bell alerts
/// and a newline; for `all`, `None`, as that query writes the projection itself
/// as JSON.
pub fn write_result(args: &QueryArgs, state: &ProjectionState) -> (out: Option<String>)
    ensures
        match query_command(*args) {
            QueryCommand::Alerts => out matches Some(text) && text@ == decimal(
                min_usize(bells_upto(state.sessions@, state.sessions@.len())),
            ).push('\n'),
            QueryCommand::All => out.is_none(),
        },
{
    match args.command_or_default() {
        QueryCommand::Alerts => {
            let count = state.active_alert_count();
            let mut text = String::new();
            push_decimal(&mut text, count as u64);
            push_char(&mut text, '\n');
            assert(text@ =~= decimal(count as nat).push('\n'));
            Some(text)
        },
        QueryCommand::All => None,
    }
}

} // verus!
