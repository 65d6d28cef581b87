//! tmux: output parsing, hook planning, snapshot assembly and command
//! arguments, and the operations that the daemon asks of tmux.
use vstd::prelude::*;

pub mod parse;
pub mod hooks;
pub mod command;
pub mod snapshot;

use crate::domain::state::ClientName;
use crate::server::actions::TmuxCall;
use crate::model::{TmuxState, WindowTarget};
use crate::order::{all_positions, positions_upto, sort_positions, sort_positions_exec, usize_seq_as_int, KeyOrder};
use crate::text::{
    lemma_string_views_push,
    parse_unsigned, str_lt, text_lt,
    lines_of, lines_spec, push_char, push_str, split_spec, str_eq, string_views, to_owned_string, trim, trim_spec,
};
use self::command::CommandError;
use self::parse::{
    bool_spec, parse_bool, parse_u32, split_fields, ClientRecord, ParseError, ParseErrorView, FIELD_SEPARATOR,
};

verus! {

/// Why a tmux operation failed.
#[derive(Debug, Clone, PartialEq, Eq)]
pub enum TmuxError {
    Command(CommandError),
    Parse { command: &'static str, source: ParseError },
    NoSessions,
    NoTargetClient,
    ClientNotFound(String),
    EmptyValue { command: &'static str },
    SnapshotInvariant(String),
}

/// The operations that the daemon asks of tmux. Each runs tmux and reports what
/// tmux answered; nothing about tmux's answers is assumed here.
pub trait Tmux {
    fn snapshot(&self) -> Result<TmuxState, TmuxError>;

    /// Runs the operation that `call` names, with its arguments, and gives
    /// tmux's answer as text: the client that tmux resolved, or the id of the
    /// session or window that it created; empty text for the other operations.
    fn perform(&self, call: &TmuxCall) -> Result<String, TmuxError>;
}

/// The working directory of a window's active pane.
#[derive(Debug, PartialEq, Eq)]
pub struct WindowWorkdir {
    pub window_id: String,
    pub window_index: u32,
    pub active: bool,
    pub path: String,
}

impl Clone for WindowWorkdir {
    fn clone(&self) -> (w: Self)
        ensures
            w == *self,
    {
        WindowWorkdir {
            window_id: self.window_id.clone(),
            window_index: self.window_index,
            active: self.active,
            path: self.path.clone(),
        }
    }
}

pub struct WorkdirView {
    pub window_id: Seq<char>,
    pub window_index: u32,
    pub active: bool,
    pub path: Seq<char>,
}

impl View for WindowWorkdir {
    type V = WorkdirView;

    open spec fn view(&self) -> WorkdirView {
        WorkdirView { window_id: self.window_id@, window_index: self.window_index, active: self.active, path: self.path@ }
    }
}

impl KeyOrder for WindowWorkdir {
    open spec fn key_lt(&self, other: &Self) -> bool {
        self.window_index < other.window_index || (self.window_index == other.window_index && text_lt(
            self.window_id@,
            other.window_id@,
        ))
    }

    fn key_less(&self, other: &Self) -> (r: bool) {
        self.window_index < other.window_index || (self.window_index == other.window_index && str_lt(
            self.window_id.as_str(),
            other.window_id.as_str(),
        ))
    }
}

/// The value that a command printed: its first line, trimmed.
pub open spec fn first_line_value(output: Seq<char>) -> Seq<char> {
    if lines_spec(output).len() > 0 {
        trim_spec(lines_spec(output)[0])
    } else {
        Seq::empty()
    }
}

/// The single value a command printed; an empty value is an error.
pub fn single_line_value(output: &str, command: &'static str) -> (r: Result<String, TmuxError>)
    ensures
        match r {
            Ok(v) => v@ == first_line_value(output@) && v@.len() > 0,
            Err(e) => first_line_value(output@).len() == 0 && e == TmuxError::EmptyValue { command },
        },
{
    let lines = lines_of(output);
    let value = if lines.len() > 0 {
        assert(string_views(lines@)[0] == lines@[0]@);
        trim(lines[0].as_str())
    } else {
        String::new()
    };
    if value.unicode_len() == 0 {
        return Err(TmuxError::EmptyValue { command });
    }
    Ok(value)
}

/// Whether `list-sessions` output lists a session: some line is not blank.
pub fn has_session_lines(output: &str) -> (b: bool)
    ensures
        b == exists|i: int| 0 <= i < lines_spec(output@).len() && trim_spec(#[trigger] lines_spec(output@)[i]).len() > 0,
{
    let lines = lines_of(output);
    let mut i: usize = 0;
    while i < lines.len()
        invariant
            i <= lines@.len(),
            string_views(lines@) == lines_spec(output@),
            forall|j: int| 0 <= j < i ==> trim_spec(#[trigger] lines_spec(output@)[j]).len() == 0,
        decreases lines@.len() - i,
    {
        assert(string_views(lines@)[i as int] == lines@[i as int]@);
        if trim(lines[i].as_str()).unicode_len() > 0 {
            return true;
        }
        i = i + 1;
    }
    false
}

/// Position of the client that `max_by_key(activity)` picks: the last one with
/// the highest activity, or -1 when there is none.
pub open spec fn most_active(cs: Seq<ClientRecord>) -> int
    decreases cs.len(),
{
    if cs.len() == 0 {
        -1
    } else {
        let b = most_active(cs.drop_last());
        if b < 0 || cs[b].activity <= cs.last().activity {
            cs.len() - 1
        } else {
            b
        }
    }
}

/// Whether a client named `name` is listed.
pub open spec fn lists_client(cs: Seq<ClientRecord>, name: Seq<char>) -> bool {
    exists|i: int| 0 <= i < cs.len() && (#[trigger] cs[i]).name.0@ == name
}

proof fn lemma_most_active_range(cs: Seq<ClientRecord>)
    ensures
        -1 <= most_active(cs) < cs.len(),
        cs.len() > 0 ==> most_active(cs) >= 0,
    decreases cs.len(),
{
    if cs.len() > 0 {
        lemma_most_active_range(cs.drop_last());
    }
}

fn find_client_record(clients: &Vec<ClientRecord>, name: &str) -> (found: bool)
    ensures
        found == lists_client(clients@, name@),
{
    let mut i: usize = 0;
    while i < clients.len()
        invariant
            i <= clients@.len(),
            forall|j: int| 0 <= j < i ==> (#[trigger] clients@[j]).name.0@ != name@,
        decreases clients@.len() - i,
    {
        if str_eq(clients[i].name.0.as_str(), name) {
            return true;
        }
        i = i + 1;
    }
    false
}

/// The client that tmux commands should act for: the named client (which must be
/// listed), else the client of the current pane when it is listed, else the most
/// recently active client.
pub fn select_target_client(
    clients: &Vec<ClientRecord>,
    cli_override: Option<&str>,
    pane_client: Option<ClientName>,
) -> (r: Result<ClientName, TmuxError>)
    ensures
        match cli_override {
            Some(name) => if lists_client(clients@, name@) {
                r matches Ok(c) && c.0@ == name@
            } else {
                r matches Err(TmuxError::ClientNotFound(n)) && n@ == name@
            },
            None => match pane_client {
                Some(p) => if lists_client(clients@, p.0@) {
                    r == Ok::<ClientName, TmuxError>(p)
                } else if clients@.len() > 0 {
                    r matches Ok(c) && c == clients@[most_active(clients@)].name
                } else {
                    r == Err::<ClientName, TmuxError>(TmuxError::NoTargetClient)
                },
                None => if clients@.len() > 0 {
                    r matches Ok(c) && c == clients@[most_active(clients@)].name
                } else {
                    r == Err::<ClientName, TmuxError>(TmuxError::NoTargetClient)
                },
            },
        },
{
    if let Some(name) = cli_override {
        if find_client_record(clients, name) {
            return Ok(ClientName(to_owned_string(name)));
        }
        return Err(TmuxError::ClientNotFound(to_owned_string(name)));
    }
    if let Some(current) = pane_client {
        if find_client_record(clients, current.0.as_str()) {
            return Ok(current);
        }
    }
    let mut best: Option<usize> = None;
    let mut i: usize = 0;
    while i < clients.len()
        invariant
            i <= clients@.len(),
            match best {
                Some(b) => b as int == most_active(clients@.subrange(0, i as int)) && b < i,
                None => i == 0,
            },
        decreases clients@.len() - i,
    {
        assert(clients@.subrange(0, i + 1).drop_last() =~= clients@.subrange(0, i as int));
        proof {
            if let Some(b) = best {
                assert(clients@.subrange(0, i + 1)[b as int] == clients@[b as int]);
            }
            assert(clients@.subrange(0, i + 1).last() == clients@[i as int]);
        }
        let ghost prev_best = best;
        best = match best {
            Some(b) => if clients[b].activity <= clients[i].activity { Some(i) } else { Some(b) },
            None => Some(i),
        };
        proof {
            let pre = clients@.subrange(0, i + 1);
            let b0 = most_active(pre.drop_last());
            assert(most_active(pre) == if b0 < 0 || pre[b0].activity <= pre.last().activity { pre.len() - 1 } else { b0 });
            match prev_best {
                Some(b) => {
                    assert(b0 == b);
                },
                None => {
                    assert(pre.drop_last().len() == 0);
                },
            }
        }
        i = i + 1;
    }
    assert(clients@.subrange(0, clients@.len() as int) =~= clients@);
    match best {
        Some(b) => Ok(ClientName(clients[b].name.0.clone())),
        None => Err(TmuxError::NoTargetClient),
    }
}

/// The `list-panes` format for pane working directories.
pub fn pane_workdir_format() -> (s: String)
    ensures
        s@ == "#{session_id}"@ + seq![FIELD_SEPARATOR] + "#{window_id}"@ + seq![FIELD_SEPARATOR] + "#{window_index}"@
            + seq![FIELD_SEPARATOR] + "#{window_active}"@ + seq![FIELD_SEPARATOR] + "#{pane_active}"@ + seq![FIELD_SEPARATOR]
            + "#{pane_current_path}"@,
{
    let mut s = to_owned_string("#{session_id}");
    push_char(&mut s, FIELD_SEPARATOR);
    push_str(&mut s, "#{window_id}");
    push_char(&mut s, FIELD_SEPARATOR);
    push_str(&mut s, "#{window_index}");
    push_char(&mut s, FIELD_SEPARATOR);
    push_str(&mut s, "#{window_active}");
    push_char(&mut s, FIELD_SEPARATOR);
    push_str(&mut s, "#{pane_active}");
    push_char(&mut s, FIELD_SEPARATOR);
    push_str(&mut s, "#{pane_current_path}");
    s
}

/// What one `list-panes` line gives for session `sid`: nothing when it is
/// another session's pane, an inactive pane or a pane without a path; the
/// window's workdir otherwise; or the first error in it.
pub open spec fn pane_line_spec(line: Seq<char>, sid: Seq<char>) -> Result<Option<WorkdirView>, ParseErrorView> {
    let f = split_spec(line, FIELD_SEPARATOR);
    if f.len() != 6 {
        Err(ParseErrorView::WrongFieldCount { record: "pane"@, expected: 6, actual: f.len(), line })
    } else if f[0] != sid {
        Ok(None)
    } else {
        match bool_spec(f[4]) {
            None => Err(ParseErrorView::InvalidBoolean { field: "pane_active"@, value: f[4] }),
            Some(pane_active) => if !pane_active || f[5].len() == 0 {
                Ok(None)
            } else {
                match parse_unsigned(f[2], u32::MAX as nat) {
                    None => Err(ParseErrorView::InvalidInteger { field: "window_index"@, value: f[2] }),
                    Some(n) => match bool_spec(f[3]) {
                        None => Err(ParseErrorView::InvalidBoolean { field: "window_active"@, value: f[3] }),
                        Some(active) => Ok(
                            Some(WorkdirView { window_id: f[1], window_index: n as u32, active, path: f[5] }),
                        ),
                    },
                }
            },
        }
    }
}

/// Position of the workdir of window `id`, or -1.
pub open spec fn workdir_pos(m: Seq<WorkdirView>, id: Seq<char>) -> int
    decreases m.len(),
{
    if m.len() == 0 {
        -1
    } else {
        let p = workdir_pos(m.drop_last(), id);
        if p >= 0 {
            p
        } else if m.last().window_id == id {
            m.len() - 1
        } else {
            -1
        }
    }
}

/// One workdir per window: a later pane's workdir replaces an earlier one.
pub open spec fn upsert_workdir(m: Seq<WorkdirView>, w: WorkdirView) -> Seq<WorkdirView> {
    let p = workdir_pos(m, w.window_id);
    if p >= 0 {
        m.update(p, w)
    } else {
        m.push(w)
    }
}

/// The workdirs of session `sid` from the first `n` lines (empty lines skipped),
/// or the first error.
pub open spec fn workdirs_spec(lines: Seq<Seq<char>>, sid: Seq<char>, n: nat) -> Result<Seq<WorkdirView>, ParseErrorView>
    decreases n,
{
    if n == 0 {
        Ok(Seq::empty())
    } else {
        match workdirs_spec(lines, sid, (n - 1) as nat) {
            Err(e) => Err(e),
            Ok(m) => if lines[n - 1].len() == 0 {
                Ok(m)
            } else {
                match pane_line_spec(lines[n - 1], sid) {
                    Err(e) => Err(e),
                    Ok(None) => Ok(m),
                    Ok(Some(w)) => Ok(upsert_workdir(m, w)),
                }
            },
        }
    }
}

pub open spec fn workdir_views(m: Seq<WindowWorkdir>) -> Seq<WorkdirView> {
    m.map_values(|w: WindowWorkdir| w@)
}

/// The workdirs `m` ordered by window index, then window id.
pub open spec fn sorted_workdirs(m: Seq<WindowWorkdir>) -> Seq<WindowWorkdir> {
    let order = sort_positions(m, all_positions(m.len()));
    Seq::new(order.len(), |k: int| m[order[k]])
}

proof fn lemma_workdirs_error_stays(lines: Seq<Seq<char>>, sid: Seq<char>, k: nat, n: nat)
    requires
        k <= n <= lines.len(),
        workdirs_spec(lines, sid, k) is Err,
    ensures
        workdirs_spec(lines, sid, n) == workdirs_spec(lines, sid, k),
    decreases n,
{
    if n > k {
        lemma_workdirs_error_stays(lines, sid, k, (n - 1) as nat);
    }
}

proof fn lemma_workdir_pos_found(m: Seq<WorkdirView>, id: Seq<char>, i: int)
    requires
        0 <= i < m.len(),
        workdir_pos(m.subrange(0, i), id) == -1,
        m[i].window_id == id,
    ensures
        workdir_pos(m, id) == i,
    decreases m.len(),
{
    if m.len() > i + 1 {
        assert(m.drop_last().subrange(0, i) =~= m.subrange(0, i));
        lemma_workdir_pos_found(m.drop_last(), id, i);
    } else {
        assert(m.drop_last() =~= m.subrange(0, i));
    }
}

fn find_workdir(m: &Vec<WindowWorkdir>, id: &str) -> (r: Option<usize>)
    ensures
        match r {
            Some(p) => p as int == workdir_pos(workdir_views(m@), id@) && p < m@.len(),
            None => workdir_pos(workdir_views(m@), id@) == -1,
        },
{
    let ghost mv = workdir_views(m@);
    let mut i: usize = 0;
    assert(mv.subrange(0, 0) =~= Seq::<WorkdirView>::empty());
    while i < m.len()
        invariant
            i <= m@.len(),
            mv == workdir_views(m@),
            workdir_pos(mv.subrange(0, i as int), id@) == -1,
        decreases m@.len() - i,
    {
        assert(mv[i as int] == m@[i as int]@);
        if str_eq(m[i].window_id.as_str(), id) {
            proof { lemma_workdir_pos_found(mv, id@, i as int); }
            return Some(i);
        }
        assert(mv.subrange(0, i + 1).drop_last() =~= mv.subrange(0, i as int));
        i = i + 1;
    }
    assert(mv.subrange(0, mv.len() as int) =~= mv);
    None
}

fn parse_pane_line(line: &str, session_id: &str) -> (r: Result<Option<WindowWorkdir>, ParseError>)
    ensures
        match r {
            Ok(Some(w)) => pane_line_spec(line@, session_id@) == Ok::<Option<WorkdirView>, ParseErrorView>(Some(w@)),
            Ok(None) => pane_line_spec(line@, session_id@) == Ok::<Option<WorkdirView>, ParseErrorView>(None),
            Err(e) => pane_line_spec(line@, session_id@) == Err::<Option<WorkdirView>, ParseErrorView>(e@),
        },
{
    let fields = split_fields(line);
    let ghost f = split_spec(line@, FIELD_SEPARATOR);
    if fields.len() != 6 {
        return Err(ParseError::WrongFieldCount { record: "pane", expected: 6, actual: fields.len(), line: to_owned_string(line) });
    }
    assert(fields@[0]@ == f[0] && fields@[1]@ == f[1] && fields@[2]@ == f[2]);
    assert(fields@[3]@ == f[3] && fields@[4]@ == f[4] && fields@[5]@ == f[5]);
    if !str_eq(fields[0].as_str(), session_id) {
        return Ok(None);
    }
    let pane_active = match parse_bool("pane_active", &fields[4]) {
        Ok(b) => b,
        Err(e) => return Err(e),
    };
    if !pane_active || fields[5].unicode_len() == 0 {
        return Ok(None);
    }
    let window_index = match parse_u32("window_index", &fields[2]) {
        Ok(n) => n,
        Err(e) => return Err(e),
    };
    let active = match parse_bool("window_active", &fields[3]) {
        Ok(b) => b,
        Err(e) => return Err(e),
    };
    Ok(Some(WindowWorkdir { window_id: fields[1].clone(), window_index, active, path: fields[5].clone() }))
}

/// The working directories of the active panes of session `session_id` in
/// `list-panes` output, one per window, ordered by window index then window id.
pub fn parse_window_workdirs(raw: &str, session_id: &str) -> (r: Result<Vec<WindowWorkdir>, ParseError>)
    ensures
        match r {
            Ok(v) => exists|m: Seq<WindowWorkdir>| workdirs_spec(lines_spec(raw@), session_id@, lines_spec(raw@).len())
                == Ok::<Seq<WorkdirView>, ParseErrorView>(workdir_views(m)) && v@ == sorted_workdirs(m),
            Err(e) => workdirs_spec(lines_spec(raw@), session_id@, lines_spec(raw@).len()) == Err::<
                Seq<WorkdirView>,
                ParseErrorView,
            >(e@),
        },
{
    let lines = lines_of(raw);
    let ghost ls = lines_spec(raw@);
    let mut map: Vec<WindowWorkdir> = Vec::new();
    let mut i: usize = 0;
    assert(workdir_views(map@) =~= Seq::<WorkdirView>::empty());
    while i < lines.len()
        invariant
            i <= lines@.len(),
            string_views(lines@) == ls,
            ls == lines_spec(raw@),
            workdirs_spec(ls, session_id@, i as nat) == Ok::<Seq<WorkdirView>, ParseErrorView>(workdir_views(map@)),
        decreases lines@.len() - i,
    {
        assert(string_views(lines@)[i as int] == lines@[i as int]@);
        if lines[i].unicode_len() > 0 {
            match parse_pane_line(lines[i].as_str(), session_id) {
                Ok(Some(w)) => {
                    let ghost before = map@;
                    let ghost wv = w@;
                    match find_workdir(&map, w.window_id.as_str()) {
                        Some(p) => {
                            map.set(p, w);
                            assert(workdir_views(map@) =~= workdir_views(before).update(p as int, wv));
                        },
                        None => {
                            map.push(w);
                            assert(workdir_views(map@) =~= workdir_views(before).push(wv));
                        },
                    }
                },
                Ok(None) => {},
                Err(e) => {
                    proof {
                        assert(workdirs_spec(ls, session_id@, (i + 1) as nat) == Err::<Seq<WorkdirView>, ParseErrorView>(e@));
                        lemma_workdirs_error_stays(ls, session_id@, (i + 1) as nat, ls.len());
                    }
                    return Err(e);
                },
            }
        }
        i = i + 1;
    }
    let positions = positions_upto(map.len());
    let order = sort_positions_exec(map.as_slice(), &positions);
    let mut result: Vec<WindowWorkdir> = Vec::new();
    let mut k: usize = 0;
    while k < order.len()
        invariant
            k <= order@.len(),
            usize_seq_as_int(order@) == sort_positions(map@, all_positions(map@.len())),
            forall|j: int| 0 <= j < order@.len() ==> #[trigger] order@[j] < map@.len(),
            result@.len() == k,
            forall|j: int| 0 <= j < k ==> #[trigger] result@[j] == map@[sort_positions(map@, all_positions(map@.len()))[j]],
        decreases order@.len() - k,
    {
        let p = order[k];
        assert(usize_seq_as_int(order@)[k as int] == p as int);
        result.push(map[p].clone());
        k = k + 1;
    }
    assert(result@ =~= sorted_workdirs(map@));
    Ok(result)
}


/// The texts as owned strings.
fn strings(parts: &[&str]) -> (v: Vec<String>)
    ensures
        string_views(v@) == parts@.map_values(|p: &str| p@),
{
    let mut v: Vec<String> = Vec::new();
    let mut i: usize = 0;
    while i < parts.len()
        invariant
            i <= parts@.len(),
            string_views(v@) == parts@.subrange(0, i as int).map_values(|p: &str| p@),
        decreases parts@.len() - i,
    {
        let ghost before = v@;
        let x = to_owned_string(parts[i]);
        proof {
            lemma_string_views_push(before, x);
            assert(parts@.subrange(0, i + 1).map_values(|p: &str| p@) =~= parts@.subrange(0, i as int).map_values(
                |p: &str| p@,
            ).push(parts@[i as int]@));
        }
        v.push(x);
        i = i + 1;
    }
    assert(parts@.subrange(0, parts@.len() as int) == parts@);
    v
}

/// `session:window`, the tmux target of a window in a session.
pub open spec fn window_target_spec(session_id: Seq<char>, window_id: Seq<char>) -> Seq<char> {
    session_id + ":"@ + window_id
}

fn window_target(session_id: &str, window_id: &str) -> (t: String)
    ensures
        t@ == window_target_spec(session_id@, window_id@),
{
    let mut t = to_owned_string(session_id);
    push_str(&mut t, ":");
    push_str(&mut t, window_id);
    t
}

/// The tmux commands that show `target` to `client`: a window is selected in
/// its session first, then the client switches to the session.
pub fn switch_to_commands(client: &ClientName, target: &WindowTarget) -> (commands: Vec<Vec<String>>)
    ensures
        commands@.len() == (if target is Session { 1int } else { 2int }),
        forall|i: int| 0 <= i < commands@.len() ==> string_views((#[trigger] commands@[i])@) == match *target {
            WindowTarget::Session(sid) => seq!["switch-client"@, "-c"@, client.0@, "-t"@, sid@],
            WindowTarget::Window { session_id, window_id } => if i == 0 {
                seq!["select-window"@, "-t"@, window_target_spec(session_id@, window_id@)]
            } else {
                seq!["switch-client"@, "-c"@, client.0@, "-t"@, session_id@]
            },
        },
{
    match target {
        WindowTarget::Session(sid) => {
            let v = strings(&["switch-client", "-c", client.0.as_str(), "-t", sid.as_str()]);
            assert(string_views(v@) =~= seq!["switch-client"@, "-c"@, client.0@, "-t"@, sid@]);
            vec![v]
        },
        WindowTarget::Window { session_id, window_id } => {
            let t = window_target(session_id.as_str(), window_id.as_str());
            let select = strings(&["select-window", "-t", t.as_str()]);
            assert(string_views(select@) =~= seq!["select-window"@, "-t"@, t@]);
            let switch = strings(&["switch-client", "-c", client.0.as_str(), "-t", session_id.as_str()]);
            assert(string_views(switch@) =~= seq!["switch-client"@, "-c"@, client.0@, "-t"@, session_id@]);
            vec![select, switch]
        },
    }
}

/// `switch-client -c <client> -l`: back to the client's last session.
pub fn last_session_args(client: &ClientName) -> (args: Vec<String>)
    ensures
        string_views(args@) == seq!["switch-client"@, "-c"@, client.0@, "-l"@],
{
    let v = strings(&["switch-client", "-c", client.0.as_str(), "-l"]);
    assert(string_views(v@) =~= seq!["switch-client"@, "-c"@, client.0@, "-l"@]);
    v
}

/// `new-session -d -P -F '#{session_id}'`, with `-s <name>` when named.
pub fn new_session_args(name: Option<&str>) -> (args: Vec<String>)
    ensures
        string_views(args@) == seq!["new-session"@, "-d"@, "-P"@, "-F"@, "#{session_id}"@] + match name {
            Some(n) => seq!["-s"@, n@],
            None => Seq::empty(),
        },
{
    let mut v = strings(&["new-session", "-d", "-P", "-F", "#{session_id}"]);
    assert(string_views(v@) =~= seq!["new-session"@, "-d"@, "-P"@, "-F"@, "#{session_id}"@]);
    match name {
        Some(n) => {
            let ghost before = string_views(v@);
            v.push(to_owned_string("-s"));
            v.push(to_owned_string(n));
            assert(string_views(v@) =~= before + seq!["-s"@, n@]);
        },
        None => {
            assert(string_views(v@) =~= seq!["new-session"@, "-d"@, "-P"@, "-F"@, "#{session_id}"@] + Seq::<Seq<char>>::empty());
        },
    }
    v
}

/// `new-window -d -P -F '#{window_id}' -t <session>:`, with `-c <path>` when a
/// working directory is given and `-n <name>` when named.
pub fn new_window_args(session: &str, name: Option<&str>, current_path: Option<&str>) -> (args: Vec<String>)
    ensures
        string_views(args@) == seq!["new-window"@, "-d"@, "-P"@, "-F"@, "#{window_id}"@, "-t"@, session@ + ":"@] + match current_path {
            Some(p) => seq!["-c"@, p@],
            None => Seq::empty(),
        } + match name {
            Some(n) => seq!["-n"@, n@],
            None => Seq::empty(),
        },
{
    let mut target = to_owned_string(session);
    push_str(&mut target, ":");
    let mut v = strings(&["new-window", "-d", "-P", "-F", "#{window_id}", "-t", target.as_str()]);
    let ghost base = seq!["new-window"@, "-d"@, "-P"@, "-F"@, "#{window_id}"@, "-t"@, session@ + ":"@];
    assert(string_views(v@) =~= base);
    let ghost with_path = base + match current_path {
        Some(p) => seq!["-c"@, p@],
        None => Seq::<Seq<char>>::empty(),
    };
    match current_path {
        Some(p) => {
            v.push(to_owned_string("-c"));
            v.push(to_owned_string(p));
        },
        None => {},
    }
    assert(string_views(v@) =~= with_path);
    match name {
        Some(n) => {
            v.push(to_owned_string("-n"));
            v.push(to_owned_string(n));
        },
        None => {},
    }
    assert(string_views(v@) =~= with_path + match name {
        Some(n) => seq!["-n"@, n@],
        None => Seq::<Seq<char>>::empty(),
    });
    v
}

/// `kill-session -t <session>`.
pub fn kill_session_args(session: &str) -> (args: Vec<String>)
    ensures
        string_views(args@) == seq!["kill-session"@, "-t"@, session@],
{
    let v = strings(&["kill-session", "-t", session]);
    assert(string_views(v@) =~= seq!["kill-session"@, "-t"@, session@]);
    v
}

/// `kill-window -t <session>:<window>`.
pub fn kill_window_args(session: &str, window: &str) -> (args: Vec<String>)
    ensures
        string_views(args@) == seq!["kill-window"@, "-t"@, window_target_spec(session@, window@)],
{
    let t = window_target(session, window);
    let v = strings(&["kill-window", "-t", t.as_str()]);
    assert(string_views(v@) =~= seq!["kill-window"@, "-t"@, t@]);
    v
}

/// `rename-session -t <session> <name>`.
pub fn rename_session_args(session: &str, name: &str) -> (args: Vec<String>)
    ensures
        string_views(args@) == seq!["rename-session"@, "-t"@, session@, name@],
{
    let v = strings(&["rename-session", "-t", session, name]);
    assert(string_views(v@) =~= seq!["rename-session"@, "-t"@, session@, name@]);
    v
}

/// `rename-window -t <window> <name>`.
pub fn rename_window_args(window: &str, name: &str) -> (args: Vec<String>)
    ensures
        string_views(args@) == seq!["rename-window"@, "-t"@, window@, name@],
{
    let v = strings(&["rename-window", "-t", window, name]);
    assert(string_views(v@) =~= seq!["rename-window"@, "-t"@, window@, name@]);
    v
}
} // verus!
