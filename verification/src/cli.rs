//! Command-line arguments that the library's logic reads.
use vstd::prelude::*;

verus! {

/// Arguments of the `query` subcommand.
#[derive(Debug, Clone, Default, PartialEq, Eq)]
pub struct QueryArgs {
    pub socket_name: Option<String>,
    pub socket_path: Option<String>,
    pub command: Option<QueryCommand>,
}

#[derive(Debug, Clone, Copy, PartialEq, Eq, Structural)]
pub enum QueryCommand {
    /// Print the number of active bell alerts.
    Alerts,
    /// Print the current sidecar projection as JSON.
    All,
}

/// The query that the arguments select: the one given, or else `alerts`.
pub open spec fn query_command(args: QueryArgs) -> QueryCommand {
    match args.command {
        Some(c) => c,
        None => QueryCommand::Alerts,
    }
}

impl QueryArgs {
    /// The query to run: the one given, or else `alerts`.
    pub fn command_or_default(&self) -> (c: QueryCommand)
        ensures
            c == query_command(*self),
    {
        match self.command {
            Some(c) => c,
            None => QueryCommand::Alerts,
        }
    }
}

} // verus!
