//! The tmux hooks that report changes to the sidecar daemon: which hooks there
//! are, the reserved hook-array slots they take, the shell commands they run,
//! and the tmux commands that install and remove them.
use vstd::prelude::*;

use crate::text::{
    lemma_string_views_push, lemma_text_lt_total, lemma_text_lt_transitive, lines_of, lines_spec, str_eq, str_lt,
    text_lt, trim, trim_spec,
    chars_of, decimal, join_strings, join_with, push_char, push_decimal, push_str, string_views,
    to_owned_string,
};

verus! {

pub const DEFAULT_HOOK_BINARY: &'static str = "tmux-sidecar";

/// First slot of the hook arrays that the sidecar manages (slots 900 to 949).
pub const RESERVED_HOOK_INDEX_START: u16 = 900;

pub const TMUX_SOCKET_PATH_FORMAT: &'static str = "#{q:socket_path}";

pub const SESSION_ID_FORMAT: &'static str = "#{q:session_id}";

pub const WINDOW_ID_FORMAT: &'static str = "#{q:window_id}";

pub const WINDOW_INDEX_FORMAT: &'static str = "#{q:window_index}";

pub const PANE_ID_FORMAT: &'static str = "#{q:pane_id}";

pub const CLIENT_NAME_FORMAT: &'static str = "#{q:client_name}";

/// A `--flag value` pair of a hook command; the value is a tmux format that tmux
/// expands and quotes itself.
#[derive(Debug, Clone, Copy, PartialEq, Eq)]
struct HookArgument {
    flag: &'static str,
    quoted_tmux_format: &'static str,
}

impl View for HookArgument {
    type V = (Seq<char>, Seq<char>);

    closed spec fn view(&self) -> (Seq<char>, Seq<char>) {
        (self.flag@, self.quoted_tmux_format@)
    }
}

pub open spec fn session_id_arg_spec() -> (Seq<char>, Seq<char>) {
    ("--session-id"@, "#{q:session_id}"@)
}

pub open spec fn window_id_arg_spec() -> (Seq<char>, Seq<char>) {
    ("--window-id"@, "#{q:window_id}"@)
}

pub open spec fn window_index_arg_spec() -> (Seq<char>, Seq<char>) {
    ("--window-index"@, "#{q:window_index}"@)
}

pub open spec fn pane_id_arg_spec() -> (Seq<char>, Seq<char>) {
    ("--pane-id"@, "#{q:pane_id}"@)
}

pub open spec fn client_name_arg_spec() -> (Seq<char>, Seq<char>) {
    ("--client-name"@, "#{q:client_name}"@)
}

fn session_id_arg() -> (a: HookArgument)
    ensures
        a@ == session_id_arg_spec(),
{
    HookArgument { flag: "--session-id", quoted_tmux_format: SESSION_ID_FORMAT }
}

fn window_id_arg() -> (a: HookArgument)
    ensures
        a@ == window_id_arg_spec(),
{
    HookArgument { flag: "--window-id", quoted_tmux_format: WINDOW_ID_FORMAT }
}

fn window_index_arg() -> (a: HookArgument)
    ensures
        a@ == window_index_arg_spec(),
{
    HookArgument { flag: "--window-index", quoted_tmux_format: WINDOW_INDEX_FORMAT }
}

fn pane_id_arg() -> (a: HookArgument)
    ensures
        a@ == pane_id_arg_spec(),
{
    HookArgument { flag: "--pane-id", quoted_tmux_format: PANE_ID_FORMAT }
}

fn client_name_arg() -> (a: HookArgument)
    ensures
        a@ == client_name_arg_spec(),
{
    HookArgument { flag: "--client-name", quoted_tmux_format: CLIENT_NAME_FORMAT }
}

/// A tmux hook that the sidecar knows, the arguments its command passes, and
/// whether it is installed (a disabled hook keeps its slot for cleanup).
#[derive(Debug, Clone, PartialEq, Eq)]
struct HookDefinition {
    name: &'static str,
    args: Vec<HookArgument>,
    install: bool,
}

pub struct HookDefView {
    pub name: Seq<char>,
    pub args: Seq<(Seq<char>, Seq<char>)>,
    pub install: bool,
}

impl View for HookDefinition {
    type V = HookDefView;

    closed spec fn view(&self) -> HookDefView {
        HookDefView { name: self.name@, args: self.args@.map_values(|a: HookArgument| a@), install: self.install }
    }
}

pub open spec fn hook_def(name: Seq<char>, args: Seq<(Seq<char>, Seq<char>)>, install: bool) -> HookDefView {
    HookDefView { name, args, install }
}

/// The known hooks in slot order: session hooks, window hooks, alert hooks
/// (only the bell alert installed), client hooks, and the command hooks that
/// stand in for missing notifications.
pub open spec fn hook_table() -> Seq<HookDefView> {
    let s = session_id_arg_spec();
    let w = window_id_arg_spec();
    let x = window_index_arg_spec();
    let p = pane_id_arg_spec();
    let c = client_name_arg_spec();
    seq![
        hook_def("session-created"@, seq![s], true),
        hook_def("session-closed"@, seq![s], true),
        hook_def("session-renamed"@, seq![s], true),
        hook_def("session-window-changed"@, seq![s, w, x], true),
        hook_def("window-linked"@, seq![s, w, x], true),
        hook_def("window-unlinked"@, seq![s, w, x], true),
        hook_def("window-renamed"@, seq![s, w, x], true),
        hook_def("window-pane-changed"@, seq![s, w, x, p], true),
        hook_def("window-layout-changed"@, seq![s, w, x], true),
        hook_def("alert-activity"@, seq![s, w, x, p], false),
        hook_def("alert-bell"@, seq![s, w, x, p], true),
        hook_def("alert-silence"@, seq![s, w, x, p], false),
        hook_def("client-attached"@, seq![c, s, w], true),
        hook_def("client-detached"@, seq![c, s, w], true),
        hook_def("client-session-changed"@, seq![c, s, w], true),
        hook_def("after-new-session"@, seq![s, w, x, p], true),
        hook_def("after-new-window"@, seq![s, w, x, p], true),
        hook_def("after-rename-session"@, seq![s], true),
        hook_def("after-rename-window"@, seq![s, w, x], true),
        hook_def("after-kill-pane"@, seq![s, w, x, p], true),
        hook_def("after-select-window"@, seq![s, w, x, p], true),
    ]
}

impl HookDefinition {
    fn new(name: &'static str, args: Vec<HookArgument>) -> (d: Self)
        ensures
            d@ == hook_def(name@, args@.map_values(|a: HookArgument| a@), true),
    {
        HookDefinition { name, args, install: true }
    }

    fn disabled(name: &'static str, args: Vec<HookArgument>) -> (d: Self)
        ensures
            d@ == hook_def(name@, args@.map_values(|a: HookArgument| a@), false),
    {
        HookDefinition { name, args, install: false }
    }
}

fn args1(a: HookArgument) -> (v: Vec<HookArgument>)
    ensures
        v@.map_values(|h: HookArgument| h@) == seq![a@],
{
    let v = vec![a];
    assert(v@.map_values(|h: HookArgument| h@) =~= seq![a@]);
    v
}

fn args3(a: HookArgument, b: HookArgument, c: HookArgument) -> (v: Vec<HookArgument>)
    ensures
        v@.map_values(|h: HookArgument| h@) == seq![a@, b@, c@],
{
    let v = vec![a, b, c];
    assert(v@.map_values(|h: HookArgument| h@) =~= seq![a@, b@, c@]);
    v
}

fn args4(a: HookArgument, b: HookArgument, c: HookArgument, d: HookArgument) -> (v: Vec<HookArgument>)
    ensures
        v@.map_values(|h: HookArgument| h@) == seq![a@, b@, c@, d@],
{
    let v = vec![a, b, c, d];
    assert(v@.map_values(|h: HookArgument| h@) =~= seq![a@, b@, c@, d@]);
    v
}

/// The definitions as views.
pub open spec fn def_views(v: Seq<HookDefinition>) -> Seq<HookDefView> {
    v.map_values(|d: HookDefinition| d@)
}

fn hook_definitions() -> (v: Vec<HookDefinition>)
    ensures
        def_views(v@) == hook_table(),
{
    let s = session_id_arg();
    let w = window_id_arg();
    let x = window_index_arg();
    let p = pane_id_arg();
    let c = client_name_arg();
    let v = vec![
        HookDefinition::new("session-created", args1(s)),
        HookDefinition::new("session-closed", args1(s)),
        HookDefinition::new("session-renamed", args1(s)),
        HookDefinition::new("session-window-changed", args3(s, w, x)),
        HookDefinition::new("window-linked", args3(s, w, x)),
        HookDefinition::new("window-unlinked", args3(s, w, x)),
        HookDefinition::new("window-renamed", args3(s, w, x)),
        HookDefinition::new("window-pane-changed", args4(s, w, x, p)),
        HookDefinition::new("window-layout-changed", args3(s, w, x)),
        HookDefinition::disabled("alert-activity", args4(s, w, x, p)),
        HookDefinition::new("alert-bell", args4(s, w, x, p)),
        HookDefinition::disabled("alert-silence", args4(s, w, x, p)),
        HookDefinition::new("client-attached", args3(c, s, w)),
        HookDefinition::new("client-detached", args3(c, s, w)),
        HookDefinition::new("client-session-changed", args3(c, s, w)),
        HookDefinition::new("after-new-session", args4(s, w, x, p)),
        HookDefinition::new("after-new-window", args4(s, w, x, p)),
        HookDefinition::new("after-rename-session", args1(s)),
        HookDefinition::new("after-rename-window", args3(s, w, x)),
        HookDefinition::new("after-kill-pane", args4(s, w, x, p)),
        HookDefinition::new("after-select-window", args4(s, w, x, p)),
    ];
    assert(def_views(v@) =~= hook_table());
    v
}

/// Whether a byte can stand unquoted in a shell word.
pub open spec fn shell_safe_byte(b: u8) -> bool {
    (97 <= b <= 122) || (65 <= b <= 90) || (48 <= b <= 57) || b == 95 || b == 64 || b == 37 || b == 43 || b == 61
        || b == 58 || b == 44 || b == 46 || b == 47 || b == 45
}

/// Whether a character can stand unquoted in a shell word: an ASCII letter or
/// digit, or one of `_ @ % + = : , . / -`.
pub open spec fn shell_safe_char(c: char) -> bool {
    (c as u32) < 128 && shell_safe_byte((c as u32) as u8)
}

/// Whether a byte can stand unquoted in a shell word.
pub fn is_shell_safe(byte: u8) -> (b: bool)
    ensures
        b == shell_safe_byte(byte),
{
    (97 <= byte && byte <= 122) || (65 <= byte && byte <= 90) || (48 <= byte && byte <= 57) || byte == 95
        || byte == 64 || byte == 37 || byte == 43 || byte == 61 || byte == 58 || byte == 44 || byte == 46
        || byte == 47 || byte == 45
}

/// The characters of `w` with each `'` written as `'"'"'`.
pub open spec fn quote_escape(w: Seq<char>) -> Seq<char>
    decreases w.len(),
{
    if w.len() == 0 {
        Seq::empty()
    } else {
        quote_escape(w.drop_last()) + if w.last() == '\'' {
            seq!['\'', '"', '\'', '"', '\'']
        } else {
            seq![w.last()]
        }
    }
}

/// A shell word for `w`: `w` itself when it is non-empty and every character is
/// safe, else `w` in single quotes.
pub open spec fn shell_quote_spec(w: Seq<char>) -> Seq<char> {
    if w.len() > 0 && forall|i: int| 0 <= i < w.len() ==> shell_safe_char(#[trigger] w[i]) {
        w
    } else {
        seq!['\''] + quote_escape(w) + seq!['\'']
    }
}

/// The shell word for `word`.
pub fn shell_quote(word: &str) -> (q: String)
    ensures
        q@ == shell_quote_spec(word@),
{
    let cs = chars_of(word);
    let mut safe = cs.len() > 0;
    let mut i: usize = 0;
    while i < cs.len()
        invariant
            cs@ == word@,
            i <= cs@.len(),
            safe == (cs@.len() > 0 && forall|j: int| 0 <= j < i ==> shell_safe_char(#[trigger] cs@[j])),
        decreases cs@.len() - i,
    {
        let u = cs[i] as u32;
        let ok = u < 128 && is_shell_safe(u as u8);
        assert(ok == shell_safe_char(cs@[i as int]));
        safe = safe && ok;
        i = i + 1;
    }
    if safe {
        return to_owned_string(word);
    }
    let mut q = String::new();
    push_char(&mut q, '\'');
    let mut k: usize = 0;
    while k < cs.len()
        invariant
            cs@ == word@,
            k <= cs@.len(),
            q@ == seq!['\''] + quote_escape(cs@.take(k as int)),
        decreases cs@.len() - k,
    {
        assert(cs@.take(k + 1).drop_last() =~= cs@.take(k as int));
        if cs[k] == '\'' {
            push_char(&mut q, '\'');
            push_char(&mut q, '"');
            push_char(&mut q, '\'');
            push_char(&mut q, '"');
            push_char(&mut q, '\'');
        } else {
            push_char(&mut q, cs[k]);
        }
        assert(q@ =~= seq!['\''] + quote_escape(cs@.take(k + 1)));
        k = k + 1;
    }
    push_char(&mut q, '\'');
    assert(cs@.take(cs@.len() as int) =~= cs@);
    assert(q@ =~= seq!['\''] + quote_escape(word@) + seq!['\'']);
    q
}

/// The words of the argument pairs, flag before value.
pub open spec fn arg_words(args: Seq<(Seq<char>, Seq<char>)>) -> Seq<Seq<char>>
    decreases args.len(),
{
    if args.len() == 0 {
        Seq::empty()
    } else {
        arg_words(args.drop_last()) + seq![args.last().0, args.last().1]
    }
}

/// The words of the shell command that hook `d` runs: the program (quoted), the
/// `hook` subcommand with the socket path and event, then the hook's arguments.
pub open spec fn hook_words(argv: Seq<Seq<char>>, d: HookDefView) -> Seq<Seq<char>> {
    argv.map_values(|w: Seq<char>| shell_quote_spec(w)) + seq![
        "hook"@,
        "--socket-path"@,
        "#{q:socket_path}"@,
        "--event"@,
        shell_quote_spec(d.name),
    ] + arg_words(d.args)
}

/// The tmux command of hook `d`: `run-shell -b "<words>"`.
pub open spec fn hook_command_spec(argv: Seq<Seq<char>>, d: HookDefView) -> Seq<char> {
    "run-shell -b \""@ + join_with(hook_words(argv, d), seq![' ']) + seq!['"']
}

/// `#{q:name}`: a tmux format that tmux expands and shell-quotes itself.
pub open spec fn quoted_format(name: Seq<char>) -> Seq<char> {
    "#{q:"@ + name + "}"@
}

/// Whether `a` is one of the `--flag #{q:value}` pairs that hook commands pass.
pub open spec fn is_hook_argument(a: (Seq<char>, Seq<char>)) -> bool {
    ||| a == session_id_arg_spec()
    ||| a == window_id_arg_spec()
    ||| a == window_index_arg_spec()
    ||| a == pane_id_arg_spec()
    ||| a == client_name_arg_spec()
}

proof fn lemma_arg_words(args: Seq<(Seq<char>, Seq<char>)>)
    ensures
        arg_words(args).len() == 2 * args.len(),
        forall|j: int| 0 <= j < args.len() ==> arg_words(args)[2 * j] == (#[trigger] args[j]).0 && arg_words(args)[2 * j
            + 1] == args[j].1,
    decreases args.len(),
{
    if args.len() > 0 {
        let prev = args.drop_last();
        lemma_arg_words(prev);
        assert forall|j: int| 0 <= j < args.len() implies arg_words(args)[2 * j] == (#[trigger] args[j]).0
            && arg_words(args)[2 * j + 1] == args[j].1 by {
            if j < prev.len() {
                assert(args[j] == prev[j]);
            }
        }
    }
}

proof fn lemma_hook_arguments_are_quoted_formats(a: (Seq<char>, Seq<char>))
    requires
        is_hook_argument(a),
    ensures
        a.0.len() > 2 && a.0[0] == '-' && a.0[1] == '-',
        exists|name: Seq<char>| a.1 == quoted_format(name),
{
    reveal_strlit("#{q:");
    reveal_strlit("}");
    reveal_strlit("--session-id");
    reveal_strlit("--window-id");
    reveal_strlit("--window-index");
    reveal_strlit("--pane-id");
    reveal_strlit("--client-name");
    reveal_strlit("#{q:session_id}");
    reveal_strlit("#{q:window_id}");
    reveal_strlit("#{q:window_index}");
    reveal_strlit("#{q:pane_id}");
    reveal_strlit("#{q:client_name}");
    if a == session_id_arg_spec() {
        assert(a.1 =~= quoted_format(seq!['s', 'e', 's', 's', 'i', 'o', 'n', '_', 'i', 'd']));
    } else if a == window_id_arg_spec() {
        assert(a.1 =~= quoted_format(seq!['w', 'i', 'n', 'd', 'o', 'w', '_', 'i', 'd']));
    } else if a == window_index_arg_spec() {
        assert(a.1 =~= quoted_format(seq!['w', 'i', 'n', 'd', 'o', 'w', '_', 'i', 'n', 'd', 'e', 'x']));
    } else if a == pane_id_arg_spec() {
        assert(a.1 =~= quoted_format(seq!['p', 'a', 'n', 'e', '_', 'i', 'd']));
    } else {
        assert(a.1 =~= quoted_format(seq!['c', 'l', 'i', 'e', 'n', 't', '_', 'n', 'a', 'm', 'e']));
    }
}

/// The command of every known hook is `run-shell -b "..."` around these words:
/// each word of the program shell-quoted, then `hook --socket-path
/// #{q:socket_path} --event` and the quoted hook name, then each argument as a
/// `--flag` followed by a bare `#{q:...}` format, which tmux expands and quotes
/// itself (so no value is written in single quotes or as a raw `#{...}`).
pub proof fn law_hook_commands_pass_quoted_formats(argv: Seq<Seq<char>>, i: int)
    requires
        0 <= i < hook_table().len(),
    ensures
        ({
            let d = hook_table()[i];
            let w = hook_words(argv, d);
            let n = argv.len() as int;
            &&& hook_command_spec(argv, d) == "run-shell -b \""@ + join_with(w, seq![' ']) + seq!['"']
            &&& w.len() == n + 5 + 2 * d.args.len()
            &&& forall|k: int| 0 <= k < n ==> w[k] == shell_quote_spec(#[trigger] argv[k])
            &&& w[n] == "hook"@ && w[n + 1] == "--socket-path"@ && w[n + 2] == quoted_format("socket_path"@)
            &&& w[n + 3] == "--event"@ && w[n + 4] == shell_quote_spec(d.name)
            &&& forall|j: int| 0 <= j < d.args.len() ==> {
                &&& is_hook_argument(#[trigger] d.args[j])
                &&& w[n + 5 + 2 * j] == d.args[j].0
                &&& w[n + 6 + 2 * j] == d.args[j].1
                &&& exists|name: Seq<char>| w[n + 6 + 2 * j] == quoted_format(name)
            }
        }),
{
    let d = hook_table()[i];
    let n = argv.len() as int;
    let q = argv.map_values(|x: Seq<char>| shell_quote_spec(x));
    let fixed = seq!["hook"@, "--socket-path"@, "#{q:socket_path}"@, "--event"@, shell_quote_spec(d.name)];
    let w = hook_words(argv, d);
    assert(w == q + fixed + arg_words(d.args));
    lemma_arg_words(d.args);
    reveal_strlit("#{q:");
    reveal_strlit("}");
    reveal_strlit("socket_path");
    reveal_strlit("#{q:socket_path}");
    assert("#{q:socket_path}"@ =~= quoted_format("socket_path"@));
    assert forall|k: int| 0 <= k < n implies w[k] == shell_quote_spec(#[trigger] argv[k]) by {
        assert(w[k] == q[k]);
    }
    assert(w[n] == fixed[0]);
    assert(w[n + 1] == fixed[1]);
    assert(w[n + 2] == fixed[2]);
    assert(w[n + 3] == fixed[3]);
    assert(w[n + 4] == fixed[4]);
    assert forall|j: int| 0 <= j < d.args.len() implies {
        &&& is_hook_argument(#[trigger] d.args[j])
        &&& w[n + 5 + 2 * j] == d.args[j].0
        &&& w[n + 6 + 2 * j] == d.args[j].1
        &&& exists|name: Seq<char>| w[n + 6 + 2 * j] == quoted_format(name)
    } by {
        assert(w[n + 5 + 2 * j] == arg_words(d.args)[2 * j]);
        assert(w[n + 6 + 2 * j] == arg_words(d.args)[2 * j + 1]);
        assert(is_hook_argument(d.args[j]));
        lemma_hook_arguments_are_quoted_formats(d.args[j]);
    }
}

/// The program that hooks run, as argv words (never empty).
#[derive(Debug, Clone, PartialEq, Eq)]
pub struct HookCommandProgram {
    argv: Vec<String>,
}

impl View for HookCommandProgram {
    type V = Seq<Seq<char>>;

    closed spec fn view(&self) -> Seq<Seq<char>> {
        string_views(self.argv@)
    }
}

impl HookCommandProgram {
    pub fn new(argv: Vec<String>) -> (p: Self)
        requires
            argv@.len() > 0,
        ensures
            p@ == string_views(argv@),
    {
        HookCommandProgram { argv }
    }

    pub fn from_executable(executable: &str) -> (p: Self)
        ensures
            p@ == seq![executable@],
    {
        let argv = vec![to_owned_string(executable)];
        assert(string_views(argv@) =~= seq![executable@]);
        HookCommandProgram { argv }
    }

    pub fn argv(&self) -> (a: &[String])
        ensures
            string_views(a@) == self@,
    {
        self.argv.as_slice()
    }

    /// The shell command that runs `install-hooks` with this program.
    pub fn install_hooks_shell_command(&self) -> (c: String)
        ensures
            c@ == join_with(
                (self@ + seq!["install-hooks"@]).map_values(|w: Seq<char>| shell_quote_spec(w)),
                seq![' '],
            ),
    {
        let mut words: Vec<String> = Vec::new();
        let mut i: usize = 0;
        while i < self.argv.len()
            invariant
                i <= self.argv@.len(),
                string_views(words@) == self@.take(i as int).map_values(|w: Seq<char>| shell_quote_spec(w)),
            decreases self.argv@.len() - i,
        {
            let ghost before = words@;
            let q = shell_quote(self.argv[i].as_str());
            words.push(q);
            proof { lemma_string_views_push(before, q); }
            assert(self@.take(i + 1) =~= self@.take(i as int).push(self.argv@[i as int]@));
            assert(string_views(words@) =~= self@.take(i + 1).map_values(|w: Seq<char>| shell_quote_spec(w)));
            i = i + 1;
        }
        let ghost before = words@;
        let q = shell_quote("install-hooks");
        words.push(q);
        proof { lemma_string_views_push(before, q); }
        assert(self@.take(self.argv@.len() as int) =~= self@);
        proof { reveal_strlit(" "); }
        assert(" "@ =~= seq![' ']);
        assert(string_views(words@) =~= (self@ + seq!["install-hooks"@]).map_values(|w: Seq<char>| shell_quote_spec(w)));
        join_strings(&words, " ")
    }
}

impl Default for HookCommandProgram {
    fn default() -> (p: Self)
        ensures
            p@ == seq!["tmux-sidecar"@],
    {
        HookCommandProgram::from_executable(DEFAULT_HOOK_BINARY)
    }
}

fn hook_command(program: &HookCommandProgram, definition: &HookDefinition) -> (c: String)
    ensures
        c@ == hook_command_spec(program@, definition@),
{
    let argv = program.argv();
    let mut words: Vec<String> = Vec::new();
    let mut i: usize = 0;
    while i < argv.len()
        invariant
            i <= argv@.len(),
            string_views(argv@) == program@,
            string_views(words@) == program@.take(i as int).map_values(|w: Seq<char>| shell_quote_spec(w)),
        decreases argv@.len() - i,
    {
        let ghost before = words@;
        let q = shell_quote(argv[i].as_str());
        words.push(q);
        proof { lemma_string_views_push(before, q); }
        assert(program@.take(i + 1) =~= program@.take(i as int).push(argv@[i as int]@));
        assert(string_views(words@) =~= program@.take(i + 1).map_values(|w: Seq<char>| shell_quote_spec(w)));
        i = i + 1;
    }
    assert(program@.take(argv@.len() as int) =~= program@);
    words.push(to_owned_string("hook"));
    words.push(to_owned_string("--socket-path"));
    words.push(to_owned_string(TMUX_SOCKET_PATH_FORMAT));
    words.push(to_owned_string("--event"));
    words.push(shell_quote(definition.name));
    let ghost head = string_views(words@);
    assert(head =~= program@.map_values(|w: Seq<char>| shell_quote_spec(w)) + seq![
        "hook"@,
        "--socket-path"@,
        "#{q:socket_path}"@,
        "--event"@,
        shell_quote_spec(definition@.name),
    ]);
    let mut k: usize = 0;
    while k < definition.args.len()
        invariant
            k <= definition.args@.len(),
            definition@.args == definition.args@.map_values(|a: HookArgument| a@),
            string_views(words@) == head + arg_words(definition@.args.take(k as int)),
        decreases definition.args@.len() - k,
    {
        let a = definition.args[k];
        let ghost before = string_views(words@);
        words.push(to_owned_string(a.flag));
        words.push(to_owned_string(a.quoted_tmux_format));
        assert(definition@.args.take(k + 1).drop_last() =~= definition@.args.take(k as int));
        assert(definition@.args.take(k + 1).last() == a@);
        assert(string_views(words@) =~= before + seq![a@.0, a@.1]);
        k = k + 1;
    }
    assert(definition@.args.take(definition.args@.len() as int) =~= definition@.args);
    let body = join_strings(&words, " ");
    proof { reveal_strlit(" "); }
    assert(" "@ =~= seq![' ']);
    let mut c = to_owned_string("run-shell -b \"");
    push_str(&mut c, body.as_str());
    push_char(&mut c, '"');
    assert(c@ =~= hook_command_spec(program@, definition@));
    c
}

/// A hook in its slot: `name[index]` runs `command`.
#[derive(Debug, Clone, PartialEq, Eq)]
pub struct InstalledHook {
    pub name: &'static str,
    pub index: u16,
    pub command: String,
}

pub struct InstalledView {
    pub name: Seq<char>,
    pub index: u16,
    pub command: Seq<char>,
}

impl View for InstalledHook {
    type V = InstalledView;

    open spec fn view(&self) -> InstalledView {
        InstalledView { name: self.name@, index: self.index, command: self.command@ }
    }
}

/// `name[index]`, the hook-array element tmux addresses.
pub open spec fn qualified_name_spec(name: Seq<char>, index: u16) -> Seq<char> {
    name + seq!['['] + decimal(index as nat) + seq![']']
}

impl InstalledHook {
    pub fn qualified_name(&self) -> (q: String)
        ensures
            q@ == qualified_name_spec(self.name@, self.index),
    {
        let mut q = to_owned_string(self.name);
        push_char(&mut q, '[');
        push_decimal(&mut q, self.index as u64);
        push_char(&mut q, ']');
        assert(q@ =~= qualified_name_spec(self.name@, self.index));
        q
    }
}

/// The hook of table entry `i` in its slot `900 + i`.
pub open spec fn slot_hook(argv: Seq<Seq<char>>, i: int) -> InstalledView {
    InstalledView {
        name: hook_table()[i].name,
        index: (900 + i) as u16,
        command: hook_command_spec(argv, hook_table()[i]),
    }
}

/// The installed hooks among the first `n` table entries, in slot order.
pub open spec fn installed_upto(argv: Seq<Seq<char>>, n: nat) -> Seq<InstalledView>
    decreases n,
{
    if n == 0 {
        Seq::empty()
    } else {
        installed_upto(argv, (n - 1) as nat) + if hook_table()[n - 1].install {
            seq![slot_hook(argv, n - 1)]
        } else {
            Seq::empty()
        }
    }
}

pub open spec fn installed_views(v: Seq<InstalledHook>) -> Seq<InstalledView> {
    v.map_values(|h: InstalledHook| h@)
}

proof fn lemma_installed_slots(argv: Seq<Seq<char>>, n: nat)
    requires
        n <= hook_table().len(),
    ensures
        forall|i: int| 0 <= i < installed_upto(argv, n).len() ==> 900 <= #[trigger] installed_upto(argv, n)[i].index < 900 + n,
        forall|i: int, j: int| 0 <= i < j < installed_upto(argv, n).len() ==> #[trigger] installed_upto(argv, n)[i].index
            < #[trigger] installed_upto(argv, n)[j].index,
        forall|i: int| 0 <= i < installed_upto(argv, n).len() ==> exists|k: int| 0 <= k < n && hook_table()[k].install
            && #[trigger] installed_upto(argv, n)[i] == slot_hook(argv, k),
    decreases n,
{
    if n > 0 {
        lemma_installed_slots(argv, (n - 1) as nat);
        let prev = installed_upto(argv, (n - 1) as nat);
        let cur = installed_upto(argv, n);
        assert forall|i: int| 0 <= i < cur.len() implies 900 <= #[trigger] cur[i].index < 900 + n by {
            if i < prev.len() {
                assert(cur[i] == prev[i]);
            }
        }
        assert forall|i: int, j: int| 0 <= i < j < cur.len() implies #[trigger] cur[i].index < #[trigger] cur[j].index by {
            assert(cur[i] == prev[i]);
            if j < prev.len() {
                assert(cur[j] == prev[j]);
            }
        }
        assert forall|i: int| 0 <= i < cur.len() implies exists|k: int| 0 <= k < n && hook_table()[k].install
            && #[trigger] cur[i] == slot_hook(argv, k) by {
            if i < prev.len() {
                assert(cur[i] == prev[i]);
            } else {
                assert(cur[i] == slot_hook(argv, n - 1));
            }
        }
    }
}

/// The hooks to install, each in its reserved slot: the enabled table entries,
/// entry `i` in slot `900 + i`. The slots lie in `900..=949` and increase, so no
/// two installed hooks share one.
pub fn installed_hooks(program: &HookCommandProgram) -> (hooks: Vec<InstalledHook>)
    ensures
        installed_views(hooks@) == installed_upto(program@, hook_table().len()),
        forall|i: int| 0 <= i < hooks@.len() ==> 900 <= (#[trigger] hooks@[i]).index <= 949,
        forall|i: int, j: int| 0 <= i < j < hooks@.len() ==> (#[trigger] hooks@[i]).index < (#[trigger] hooks@[j]).index,
        forall|i: int| 0 <= i < hooks@.len() ==> exists|k: int| 0 <= k < hook_table().len() && hook_table()[k].install
            && (#[trigger] hooks@[i])@ == slot_hook(program@, k),
{
    let definitions = hook_definitions();
    let mut hooks: Vec<InstalledHook> = Vec::new();
    let mut offset: usize = 0;
    assert(installed_views(hooks@) =~= Seq::empty());
    while offset < definitions.len()
        invariant
            offset <= definitions@.len(),
            def_views(definitions@) == hook_table(),
            hook_table().len() == 21,
            installed_views(hooks@) == installed_upto(program@, offset as nat),
        decreases definitions@.len() - offset,
    {
        let definition = &definitions[offset];
        assert(definition@ == hook_table()[offset as int]);
        if definition.install {
            let hook = InstalledHook {
                name: definition.name,
                index: RESERVED_HOOK_INDEX_START + offset as u16,
                command: hook_command(program, definition),
            };
            let ghost before = hooks@;
            hooks.push(hook);
            assert(installed_views(hooks@) =~= installed_views(before).push(hook@));
        }
        assert(installed_views(hooks@) =~= installed_upto(program@, (offset + 1) as nat));
        offset = offset + 1;
    }
    proof {
        lemma_installed_slots(program@, 21);
        assert forall|i: int| 0 <= i < hooks@.len() implies 900 <= (#[trigger] hooks@[i]).index <= 949 by {
            assert(installed_views(hooks@)[i] == hooks@[i]@);
        }
        assert forall|i: int, j: int| 0 <= i < j < hooks@.len() implies (#[trigger] hooks@[i]).index < (#[trigger] hooks@[j]).index by {
            assert(installed_views(hooks@)[i] == hooks@[i]@);
            assert(installed_views(hooks@)[j] == hooks@[j]@);
            assert(installed_upto(program@, 21)[i].index < installed_upto(program@, 21)[j].index);
        }
        assert forall|i: int| 0 <= i < hooks@.len() implies exists|k: int| 0 <= k < hook_table().len() && hook_table()[k].install
            && (#[trigger] hooks@[i])@ == slot_hook(program@, k) by {
            assert(installed_views(hooks@)[i] == hooks@[i]@);
        }
    }
    hooks
}

/// Every known hook in its reserved slot, enabled or not, so that removal also
/// clears the slots of disabled hooks.
pub fn managed_hooks(program: &HookCommandProgram) -> (hooks: Vec<InstalledHook>)
    ensures
        hooks@.len() == hook_table().len(),
        forall|i: int| 0 <= i < hooks@.len() ==> (#[trigger] hooks@[i])@ == slot_hook(program@, i),
{
    let definitions = hook_definitions();
    let mut hooks: Vec<InstalledHook> = Vec::new();
    let mut offset: usize = 0;
    while offset < definitions.len()
        invariant
            offset <= definitions@.len(),
            def_views(definitions@) == hook_table(),
            hook_table().len() == 21,
            hooks@.len() == offset,
            forall|i: int| 0 <= i < offset ==> (#[trigger] hooks@[i])@ == slot_hook(program@, i),
        decreases definitions@.len() - offset,
    {
        let definition = &definitions[offset];
        assert(definition@ == hook_table()[offset as int]);
        hooks.push(InstalledHook {
            name: definition.name,
            index: RESERVED_HOOK_INDEX_START + offset as u16,
            command: hook_command(program, definition),
        });
        offset = offset + 1;
    }
    hooks
}

/// The characters of `c` escaped for a double-quoted shell word: `\` and `"` get
/// a backslash before them.
pub open spec fn double_quote_escape(c: Seq<char>) -> Seq<char>
    decreases c.len(),
{
    if c.len() == 0 {
        Seq::empty()
    } else {
        double_quote_escape(c.drop_last()) + if c.last() == '\\' {
            seq!['\\', '\\']
        } else if c.last() == '"' {
            seq!['\\', '"']
        } else {
            seq![c.last()]
        }
    }
}

/// The tmux.conf snippet: a comment header, then `run-shell -b` with the
/// install command in single quotes, or in double quotes (escaped) when the
/// command holds a single quote.
pub open spec fn init_plugin_snippet_spec(command: Seq<char>) -> Seq<char> {
    let quoted = if command.contains('\'') {
        seq!['"'] + double_quote_escape(command) + seq!['"']
    } else {
        seq!['\''] + command + seq!['\'']
    };
    "# tmux-sidecar hook/server rewrite\n# Installs or refreshes tmux-sidecar hooks for the current tmux server.\nrun-shell -b "@
        + quoted + seq!['\n']
}

/// The tmux.conf snippet that installs the hooks when tmux starts.
pub fn init_plugin_snippet(program: &HookCommandProgram) -> (snippet: String)
    ensures
        snippet@ == init_plugin_snippet_spec(
            join_with((program@ + seq!["install-hooks"@]).map_values(|w: Seq<char>| shell_quote_spec(w)), seq![' ']),
        ),
{
    let command = program.install_hooks_shell_command();
    let cs = chars_of(command.as_str());
    let mut has_quote = false;
    let mut i: usize = 0;
    while i < cs.len()
        invariant
            cs@ == command@,
            i <= cs@.len(),
            has_quote == exists|j: int| 0 <= j < i && cs@[j] == '\'',
        decreases cs@.len() - i,
    {
        if cs[i] == '\'' {
            has_quote = true;
        }
        i = i + 1;
    }
    assert(has_quote == command@.contains('\''));
    let mut quoted = String::new();
    if has_quote {
        push_char(&mut quoted, '"');
        let mut k: usize = 0;
        while k < cs.len()
            invariant
                cs@ == command@,
                k <= cs@.len(),
                quoted@ == seq!['"'] + double_quote_escape(cs@.take(k as int)),
            decreases cs@.len() - k,
        {
            assert(cs@.take(k + 1).drop_last() =~= cs@.take(k as int));
            let c = cs[k];
            if c == '\\' {
                push_char(&mut quoted, '\\');
                push_char(&mut quoted, '\\');
            } else if c == '"' {
                push_char(&mut quoted, '\\');
                push_char(&mut quoted, '"');
            } else {
                push_char(&mut quoted, c);
            }
            assert(quoted@ =~= seq!['"'] + double_quote_escape(cs@.take(k + 1)));
            k = k + 1;
        }
        assert(cs@.take(cs@.len() as int) =~= cs@);
        push_char(&mut quoted, '"');
    } else {
        push_char(&mut quoted, '\'');
        push_str(&mut quoted, command.as_str());
        push_char(&mut quoted, '\'');
    }
    let mut snippet = to_owned_string(
        "# tmux-sidecar hook/server rewrite\n# Installs or refreshes tmux-sidecar hooks for the current tmux server.\nrun-shell -b ",
    );
    push_str(&mut snippet, quoted.as_str());
    push_char(&mut snippet, '\n');
    assert(snippet@ =~= init_plugin_snippet_spec(command@));
    snippet
}

/// Argument vectors of tmux commands, as texts.
pub open spec fn argv_views(v: Seq<Vec<String>>) -> Seq<Seq<Seq<char>>> {
    v.map_values(|a: Vec<String>| string_views(a@))
}

/// The window options that make tmux report bells: `monitor-bell on`.
pub fn window_monitoring_options() -> (options: Vec<(&'static str, &'static str)>)
    ensures
        options@.len() == 1,
        options@[0].0@ == "monitor-bell"@,
        options@[0].1@ == "on"@,
{
    vec![("monitor-bell", "on")]
}

fn argv4(a: &str, b: &str, c: &str, d: &str) -> (v: Vec<String>)
    ensures
        string_views(v@) == seq![a@, b@, c@, d@],
{
    let v = vec![to_owned_string(a), to_owned_string(b), to_owned_string(c), to_owned_string(d)];
    assert(string_views(v@) =~= seq![a@, b@, c@, d@]);
    v
}

/// The commands that remove every managed hook: `set-hook -gu name[index]`.
pub fn uninstall_hook_commands() -> (commands: Vec<Vec<String>>)
    ensures
        commands@.len() == hook_table().len(),
        forall|i: int| 0 <= i < commands@.len() ==> string_views((#[trigger] commands@[i])@) == seq![
            "set-hook"@,
            "-gu"@,
            qualified_name_spec(hook_table()[i].name, (900 + i) as u16),
        ],
{
    let program = HookCommandProgram::default();
    let hooks = managed_hooks(&program);
    let mut commands: Vec<Vec<String>> = Vec::new();
    let mut i: usize = 0;
    while i < hooks.len()
        invariant
            i <= hooks@.len(),
            hooks@.len() == hook_table().len(),
            forall|k: int| 0 <= k < hooks@.len() ==> (#[trigger] hooks@[k])@ == slot_hook(program@, k),
            commands@.len() == i,
            forall|k: int| 0 <= k < i ==> string_views((#[trigger] commands@[k])@) == seq![
                "set-hook"@,
                "-gu"@,
                qualified_name_spec(hook_table()[k].name, (900 + k) as u16),
            ],
        decreases hooks@.len() - i,
    {
        let name = hooks[i].qualified_name();
        let v = vec![to_owned_string("set-hook"), to_owned_string("-gu"), name];
        assert(string_views(v@) =~= seq!["set-hook"@, "-gu"@, name@]);
        commands.push(v);
        i = i + 1;
    }
    commands
}

/// The commands that install the hooks: `set-hook -g name[index] command`.
pub fn install_hook_commands(program: &HookCommandProgram) -> (commands: Vec<Vec<String>>)
    ensures
        commands@.len() == installed_upto(program@, hook_table().len()).len(),
        forall|i: int| 0 <= i < commands@.len() ==> string_views((#[trigger] commands@[i])@) == {
            let h = installed_upto(program@, hook_table().len())[i];
            seq!["set-hook"@, "-g"@, qualified_name_spec(h.name, h.index), h.command]
        },
{
    let hooks = installed_hooks(program);
    let ghost spec_hooks = installed_upto(program@, hook_table().len());
    let mut commands: Vec<Vec<String>> = Vec::new();
    let mut i: usize = 0;
    while i < hooks.len()
        invariant
            i <= hooks@.len(),
            installed_views(hooks@) == spec_hooks,
            spec_hooks == installed_upto(program@, hook_table().len()),
            commands@.len() == i,
            forall|k: int| 0 <= k < i ==> string_views((#[trigger] commands@[k])@) == {
                let h = spec_hooks[k];
                seq!["set-hook"@, "-g"@, qualified_name_spec(h.name, h.index), h.command]
            },
        decreases hooks@.len() - i,
    {
        assert(installed_views(hooks@)[i as int] == hooks@[i as int]@);
        let name = hooks[i].qualified_name();
        let v = vec![to_owned_string("set-hook"), to_owned_string("-g"), name, hooks[i].command.clone()];
        assert(string_views(v@) =~= seq!["set-hook"@, "-g"@, name@, hooks@[i as int].command@]);
        commands.push(v);
        i = i + 1;
    }
    commands
}

/// The commands that turn on bell monitoring globally:
/// `set-window-option -gq monitor-bell on`.
pub fn global_window_monitoring_commands() -> (commands: Vec<Vec<String>>)
    ensures
        argv_views(commands@) == seq![seq!["set-window-option"@, "-gq"@, "monitor-bell"@, "on"@]],
{
    let options = window_monitoring_options();
    let (option, value) = options[0];
    let v = argv4("set-window-option", "-gq", option, value);
    let commands = vec![v];
    assert(argv_views(commands@) =~= seq![seq!["set-window-option"@, "-gq"@, "monitor-bell"@, "on"@]]);
    commands
}

/// The commands that turn on bell monitoring for one window:
/// `set-window-option -q -t <window> monitor-bell on`.
pub fn window_monitoring_commands(window_id: &str) -> (commands: Vec<Vec<String>>)
    ensures
        argv_views(commands@) == seq![seq!["set-window-option"@, "-q"@, "-t"@, window_id@, "monitor-bell"@, "on"@]],
{
    let options = window_monitoring_options();
    let (option, value) = options[0];
    let v = vec![
        to_owned_string("set-window-option"),
        to_owned_string("-q"),
        to_owned_string("-t"),
        to_owned_string(window_id),
        to_owned_string(option),
        to_owned_string(value),
    ];
    assert(string_views(v@) =~= seq!["set-window-option"@, "-q"@, "-t"@, window_id@, "monitor-bell"@, "on"@]);
    let commands = vec![v];
    assert(argv_views(commands@) =~= seq![string_views(v@)]);
    commands
}

/// The arguments of the command that lists every window id.
pub fn list_window_ids_args() -> (args: Vec<String>)
    ensures
        string_views(args@) == seq!["list-windows"@, "-a"@, "-F"@, "#{window_id}"@],
{
    argv4("list-windows", "-a", "-F", "#{window_id}")
}


/// The texts are in strictly increasing order.
pub open spec fn strictly_sorted(v: Seq<String>) -> bool {
    forall|i: int, j: int| 0 <= i < j < v.len() ==> text_lt((#[trigger] v[i])@, (#[trigger] v[j])@)
}

/// Some entry of `v` is the text `t`.
pub open spec fn holds_text(v: Seq<String>, t: Seq<char>) -> bool {
    exists|k: int| 0 <= k < v.len() && (#[trigger] v[k])@ == t
}

/// Adds `id` to the sorted texts unless it is there.
fn insert_sorted_unique(ids: &mut Vec<String>, id: String)
    requires
        strictly_sorted(old(ids)@),
    ensures
        strictly_sorted(final(ids)@),
        forall|t: Seq<char>| holds_text(final(ids)@, t) <==> (holds_text(old(ids)@, t) || t == id@),
{
    let ghost before = ids@;
    let mut pos: usize = 0;
    while pos < ids.len() && str_lt(ids[pos].as_str(), id.as_str())
        invariant
            pos <= ids@.len(),
            ids@ == before,
            forall|k: int| 0 <= k < pos ==> text_lt((#[trigger] ids@[k])@, id@),
        decreases ids@.len() - pos,
    {
        pos = pos + 1;
    }
    if pos < ids.len() && str_eq(ids[pos].as_str(), id.as_str()) {
        assert forall|t: Seq<char>| holds_text(ids@, t) <==> (holds_text(before, t) || t == id@) by {
            if t == id@ {
                assert(ids@[pos as int]@ == t);
            }
        }
        return;
    }
    proof {
        if pos < ids@.len() {
            lemma_text_lt_total(ids@[pos as int]@, id@);
        }
        assert forall|k: int| pos <= k < ids@.len() implies text_lt(id@, #[trigger] ids@[k]@) by {
            lemma_text_lt_total(ids@[pos as int]@, id@);
            if k > pos {
                lemma_text_lt_transitive(id@, ids@[pos as int]@, ids@[k]@);
            }
        }
    }
    let ghost after = before.insert(pos as int, id);
    proof {
        assert forall|a: int, b: int| 0 <= a < b < after.len() implies text_lt((#[trigger] after[a])@, (#[trigger] after[b])@) by {
            if a < pos && b > pos {
                lemma_text_lt_transitive(before[a]@, after[pos as int]@, before[b - 1]@);
            } else if a < pos && b < pos {
                assert(after[a] == before[a]);
            } else if a > pos {
                assert(after[a] == before[a - 1]);
            }
        }
        assert forall|t: Seq<char>| holds_text(after, t) <==> (holds_text(before, t) || t == id@) by {
            if holds_text(after, t) {
                let k = choose|k: int| 0 <= k < after.len() && (#[trigger] after[k])@ == t;
                if k < pos {
                    assert(before[k]@ == t);
                } else if k > pos {
                    assert(before[k - 1]@ == t);
                }
            }
            if holds_text(before, t) {
                let k = choose|k: int| 0 <= k < before.len() && (#[trigger] before[k])@ == t;
                if k < pos {
                    assert(after[k]@ == t);
                } else {
                    assert(after[k + 1]@ == t);
                }
            }
            if t == id@ {
                assert(after[pos as int]@ == t);
            }
        }
    }
    ids.insert(pos, id);
    assert(ids@ == after);
}

/// The window ids that `list-windows -a -F '#{window_id}'` printed: each
/// non-empty trimmed line once, in increasing order.
pub fn window_ids_from_output(output: &str) -> (ids: Vec<String>)
    ensures
        strictly_sorted(ids@),
        forall|t: Seq<char>| holds_text(ids@, t) <==> (t.len() > 0 && exists|i: int|
            0 <= i < lines_spec(output@).len() && trim_spec(#[trigger] lines_spec(output@)[i]) == t),
{
    let lines = lines_of(output);
    let ghost ls = lines_spec(output@);
    let mut ids: Vec<String> = Vec::new();
    let mut i: usize = 0;
    while i < lines.len()
        invariant
            i <= lines@.len(),
            string_views(lines@) == ls,
            strictly_sorted(ids@),
            forall|t: Seq<char>| holds_text(ids@, t) <==> (t.len() > 0 && exists|j: int|
                0 <= j < i && trim_spec(#[trigger] ls[j]) == t),
        decreases lines@.len() - i,
    {
        assert(string_views(lines@)[i as int] == lines@[i as int]@);
        let id = trim(lines[i].as_str());
        let ghost before = ids@;
        if id.unicode_len() > 0 {
            insert_sorted_unique(&mut ids, id);
        }
        proof {
            assert forall|t: Seq<char>| holds_text(ids@, t) <==> (t.len() > 0 && exists|j: int|
                0 <= j < i + 1 && trim_spec(#[trigger] ls[j]) == t) by {
                if t.len() > 0 && exists|j: int| 0 <= j < i + 1 && trim_spec(#[trigger] ls[j]) == t {
                    let j = choose|j: int| 0 <= j < i + 1 && trim_spec(#[trigger] ls[j]) == t;
                    if j < i {
                        assert(holds_text(before, t));
                    }
                }
                if holds_text(before, t) {
                    let j = choose|j: int| 0 <= j < i && trim_spec(#[trigger] ls[j]) == t;
                    assert(0 <= j < i + 1);
                }
            }
        }
        i = i + 1;
    }
    ids
}

} // verus!
