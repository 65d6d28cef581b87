//! How tmux is invoked: the socket selection arguments, the command line shown
//! in errors, and the errors of running it.
use vstd::prelude::*;

use crate::text::{join_with, join_strings, lemma_string_views_push, string_views, to_owned_string};

verus! {

/// The tmux server to talk to: `-L name` and/or `-S path`.
#[derive(Debug, Clone, Default, PartialEq, Eq)]
pub struct SocketOptions {
    pub name: Option<String>,
    pub path: Option<String>,
}

/// The socket arguments: `-L <name>` when a name is given, then `-S <path>` when
/// a path is given.
pub open spec fn socket_args(name: Option<Seq<char>>, path: Option<Seq<char>>) -> Seq<Seq<char>> {
    (match name {
        Some(n) => seq!["-L"@, n],
        None => Seq::empty(),
    }) + (match path {
        Some(p) => seq!["-S"@, p],
        None => Seq::empty(),
    })
}

pub open spec fn opt_seq(o: Option<String>) -> Option<Seq<char>> {
    match o {
        Some(s) => Some(s@),
        None => None,
    }
}

impl SocketOptions {
    pub fn from_parts(name: Option<String>, path: Option<String>) -> (s: Self)
        ensures
            s.name == name,
            s.path == path,
    {
        SocketOptions { name, path }
    }

    /// The arguments that select the socket.
    pub fn as_args(&self) -> (args: Vec<String>)
        ensures
            string_views(args@) == socket_args(opt_seq(self.name), opt_seq(self.path)),
    {
        let mut args: Vec<String> = Vec::new();
        if let Some(name) = &self.name {
            args.push(to_owned_string("-L"));
            args.push(name.clone());
        }
        let ghost mid = args@;
        if let Some(path) = &self.path {
            args.push(to_owned_string("-S"));
            args.push(path.clone());
        }
        assert(string_views(args@) =~= socket_args(opt_seq(self.name), opt_seq(self.path)));
        args
    }
}

/// Why running tmux failed.
#[derive(Debug, Clone, PartialEq, Eq)]
pub enum CommandError {
    Spawn { command: String, source: String },
    Failed { command: String, status: String, stderr: String },
    NonUtf8 { command: String, stream: &'static str },
}

/// The command line shown in errors: `tmux`, the socket arguments and the
/// command's arguments, separated by spaces.
pub fn display_tmux_command(socket: &SocketOptions, args: &Vec<String>) -> (line: String)
    ensures
        line@ == join_with(
            seq!["tmux"@] + socket_args(opt_seq(socket.name), opt_seq(socket.path)) + string_views(args@),
            seq![' '],
        ),
{
    let mut parts: Vec<String> = Vec::new();
    parts.push(to_owned_string("tmux"));
    let socket_args_v = socket.as_args();
    let mut i: usize = 0;
    while i < socket_args_v.len()
        invariant
            i <= socket_args_v@.len(),
            string_views(parts@) == seq!["tmux"@] + string_views(socket_args_v@).take(i as int),
        decreases socket_args_v@.len() - i,
    {
        let ghost before = parts@;
        let a = socket_args_v[i].clone();
        parts.push(a);
        proof { lemma_string_views_push(before, a); }
        assert(string_views(socket_args_v@).take(i + 1) =~= string_views(socket_args_v@).take(i as int).push(a@));
        i = i + 1;
    }
    assert(string_views(socket_args_v@).take(socket_args_v@.len() as int) =~= string_views(socket_args_v@));
    let ghost head = string_views(parts@);
    let mut k: usize = 0;
    while k < args.len()
        invariant
            k <= args@.len(),
            string_views(parts@) == head + string_views(args@).take(k as int),
        decreases args@.len() - k,
    {
        let ghost before = parts@;
        let a = args[k].clone();
        parts.push(a);
        proof { lemma_string_views_push(before, a); }
        assert(string_views(args@).take(k + 1) =~= string_views(args@).take(k as int).push(a@));
        k = k + 1;
    }
    assert(string_views(args@).take(args@.len() as int) =~= string_views(args@));
    proof { reveal_strlit(" "); }
    assert(" "@ =~= seq![' ']);
    join_strings(&parts, " ")
}

} // verus!
